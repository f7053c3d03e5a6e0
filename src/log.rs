//! Log subsystem: item types, periods, block ids, control commands, block
//! lifecycle and the decoding of samples.
use vstd::prelude::*;
use crate::bytes::{bytes_eq, slice_range};
use crate::error::{Error, LogFault};
use crate::packet::{Packet, LOG_PORT};
use crate::toc::{Toc, toc_lookup, entry_view};
use crate::value::{Value, ValueType, byte_len, decode};

verus! {

const CONTROL_CHANNEL: u8 = 1;

/// Control command: delete a block.
pub const DELETE_BLOCK: u8 = 2;
/// Control command: start a block.
pub const START_BLOCK: u8 = 3;
/// Control command: stop a block.
pub const STOP_BLOCK: u8 = 4;
/// Control command: delete every block.
pub const RESET: u8 = 5;
/// Control command: create a block.
pub const CREATE_BLOCK_V2: u8 = 6;
/// Control command: append a variable to a block.
pub const APPEND_BLOCK_V2: u8 = 7;

/// The value type of a log type byte.
pub open spec fn log_type_of_byte(b: u8) -> Option<ValueType> {
    if b == 1 {
        Some(ValueType::U8)
    } else if b == 2 {
        Some(ValueType::U16)
    } else if b == 3 {
        Some(ValueType::U32)
    } else if b == 4 {
        Some(ValueType::I8)
    } else if b == 5 {
        Some(ValueType::I16)
    } else if b == 6 {
        Some(ValueType::I32)
    } else if b == 7 {
        Some(ValueType::F32)
    } else if b == 8 {
        Some(ValueType::F16)
    } else {
        None
    }
}

/// The log type byte of a value type; none for the 64-bit types.
pub open spec fn log_byte_of_type(t: ValueType) -> Option<u8> {
    match t {
        ValueType::U8 => Some(1u8),
        ValueType::U16 => Some(2u8),
        ValueType::U32 => Some(3u8),
        ValueType::I8 => Some(4u8),
        ValueType::I16 => Some(5u8),
        ValueType::I32 => Some(6u8),
        ValueType::F32 => Some(7u8),
        ValueType::F16 => Some(8u8),
        _ => None,
    }
}

/// Decodes a log type byte; `ProtocolError` for a byte outside 1..=8.
pub fn log_item_type(b: u8) -> (r: Result<ValueType, Error>)
    ensures
        log_type_of_byte(b) matches Some(t) ==> r == Ok::<ValueType, Error>(t),
        log_type_of_byte(b) is None ==> r == Err::<ValueType, Error>(Error::ProtocolError),
{
    match b {
        1 => Ok(ValueType::U8),
        2 => Ok(ValueType::U16),
        3 => Ok(ValueType::U32),
        4 => Ok(ValueType::I8),
        5 => Ok(ValueType::I16),
        6 => Ok(ValueType::I32),
        7 => Ok(ValueType::F32),
        8 => Ok(ValueType::F16),
        _ => Err(Error::ProtocolError),
    }
}

/// Encodes a value type as a log type byte; `LogError(UnsupportedType)` for
/// the 64-bit types, which cannot be logged.
pub fn log_type_byte(t: ValueType) -> (r: Result<u8, Error>)
    ensures
        log_byte_of_type(t) matches Some(b) ==> r == Ok::<u8, Error>(b),
        log_byte_of_type(t) is None ==> r == Err::<u8, Error>(
            Error::LogError(LogFault::UnsupportedType),
        ),
{
    match t {
        ValueType::U8 => Ok(1),
        ValueType::U16 => Ok(2),
        ValueType::U32 => Ok(3),
        ValueType::I8 => Ok(4),
        ValueType::I16 => Ok(5),
        ValueType::I32 => Ok(6),
        ValueType::F32 => Ok(7),
        ValueType::F16 => Ok(8),
        _ => Err(Error::LogError(LogFault::UnsupportedType)),
    }
}

/// Every type that can be logged comes back from its log type byte.
pub proof fn lemma_log_type_round_trip(t: ValueType)
    requires
        log_byte_of_type(t) is Some,
    ensures
        log_type_of_byte(log_byte_of_type(t)->0) == Some(t),
{
}

/// A logging period, in units of 10 ms (1 to 255).
#[derive(Clone, Copy, Debug, PartialEq, Eq, Structural)]
pub struct LogPeriod {
    units: u8,
}

impl LogPeriod {
    /// The period in units of 10 ms.
    pub closed spec fn units_spec(&self) -> u8 {
        self.units
    }

    /// The period `millis / 10` in units of 10 ms; `LogError(InvalidPeriod)`
    /// where that is 0 or above 255 (below 10 ms or from 2560 ms on).
    pub fn from_millis(millis: u64) -> (r: Result<LogPeriod, Error>)
        ensures
            10 <= millis < 2560 ==> (r matches Ok(p) && p.units_spec() == millis / 10),
            !(10 <= millis < 2560) ==> r == Err::<LogPeriod, Error>(
                Error::LogError(LogFault::InvalidPeriod),
            ),
    {
        let arg = millis / 10;
        if arg == 0 || arg > 255 {
            return Err(Error::LogError(LogFault::InvalidPeriod));
        }
        Ok(LogPeriod { units: arg as u8 })
    }

    /// The period in units of 10 ms, as sent to the device.
    pub fn units(&self) -> (r: u8)
        ensures
            r == self.units_spec(),
    {
        self.units
    }
}

/// The result of asking for a block id when `next` is the next free one,
/// and the next free id afterwards.
pub open spec fn allocate_spec(next: u8) -> (Result<u8, Error>, u8) {
    if next == 255 {
        (Err(Error::LogError(LogFault::BlockIdsExhausted)), next)
    } else {
        (Ok(next), (next + 1) as u8)
    }
}

/// The next free id after `k` requests starting from `next`.
pub open spec fn after_allocations(next: u8, k: nat) -> u8
    decreases k,
{
    if k == 0 {
        next
    } else {
        allocate_spec(after_allocations(next, (k - 1) as nat)).1
    }
}

/// The block ids of a connection: handed out in increasing order and never
/// reused.
#[derive(Clone, Copy, Debug, PartialEq, Eq, Structural)]
pub struct BlockIds {
    pub next: u8,
}

impl BlockIds {
    /// No id handed out yet.
    pub fn new() -> (r: BlockIds)
        ensures
            r.next == 0,
    {
        BlockIds { next: 0 }
    }

    /// The next block id; `LogError(BlockIdsExhausted)` when none is left.
    pub fn generate_next_block_id(&mut self) -> (r: Result<u8, Error>)
        ensures
            (r, final(self).next) == allocate_spec(old(self).next),
    {
        if self.next == u8::MAX {
            return Err(Error::LogError(LogFault::BlockIdsExhausted));
        }
        let id = self.next;
        self.next = self.next + 1;
        Ok(id)
    }
}

proof fn lemma_allocations_grow(next: u8, k: nat)
    ensures
        after_allocations(next, k) >= next,
        allocate_spec(next).0 is Ok && k > 0 ==> after_allocations(next, k) > next,
    decreases k,
{
    if k > 0 {
        lemma_allocations_grow(next, (k - 1) as nat);
    }
}

/// A block id handed out after another one, however many requests lie
/// between them, is larger: ids strictly increase until they run out.
pub proof fn lemma_block_ids_increase(next: u8, k: nat)
    requires
        k > 0,
        allocate_spec(next).0 is Ok,
        allocate_spec(after_allocations(next, k)).0 is Ok,
    ensures
        allocate_spec(next).0->Ok_0 < allocate_spec(after_allocations(next, k)).0->Ok_0,
{
    lemma_allocations_grow(next, k);
}

/// A control packet holding `data`.
fn control(data: Vec<u8>) -> (r: Packet)
    requires
        data@.len() <= 30,
    ensures
        r.wf(),
        r.port == 5 && r.channel == 1 && r.data@ == data@,
{
    Packet { port: LOG_PORT, channel: CONTROL_CHANNEL, data }
}

/// The request that deletes every block.
pub fn reset_request() -> (r: Packet)
    ensures
        r.wf(),
        r.port == 5 && r.channel == 1 && r.data@ == seq![5u8],
{
    control(vec![RESET])
}

/// The request that creates block `id`.
pub fn create_block_request(id: u8) -> (r: Packet)
    ensures
        r.wf(),
        r.port == 5 && r.channel == 1 && r.data@ == seq![6u8, id],
{
    control(vec![CREATE_BLOCK_V2, id])
}

/// The request that appends variable `var_id` of log type `type_byte` to
/// block `id`.
pub fn append_block_request(id: u8, type_byte: u8, var_id: u16) -> (r: Packet)
    ensures
        r.wf(),
        r.port == 5 && r.channel == 1 && r.data@ == seq![
            7u8,
            id,
            type_byte,
            (var_id % 256) as u8,
            (var_id / 256) as u8,
        ],
{
    control(vec![APPEND_BLOCK_V2, id, type_byte, (var_id % 256) as u8, (var_id / 256) as u8])
}

/// The request that starts block `id` with `period`.
pub fn start_block_request(id: u8, period: LogPeriod) -> (r: Packet)
    ensures
        r.wf(),
        r.port == 5 && r.channel == 1 && r.data@ == seq![3u8, id, period.units_spec()],
{
    control(vec![START_BLOCK, id, period.units()])
}

/// The request that stops block `id`.
pub fn stop_block_request(id: u8) -> (r: Packet)
    ensures
        r.wf(),
        r.port == 5 && r.channel == 1 && r.data@ == seq![4u8, id],
{
    control(vec![STOP_BLOCK, id])
}

/// The request that deletes block `id`.
pub fn delete_block_request(id: u8) -> (r: Packet)
    ensures
        r.wf(),
        r.port == 5 && r.channel == 1 && r.data@ == seq![2u8, id],
{
    control(vec![DELETE_BLOCK, id])
}

/// The outcome that a control reply (command, block id, status) reports.
pub open spec fn control_status_spec(answer: Seq<u8>) -> Result<(), Error> {
    if answer.len() != 3 {
        Err(Error::ProtocolError)
    } else if answer[2] == 0 {
        Ok(())
    } else {
        Err(Error::LogError(LogFault::Status(answer[2])))
    }
}

/// Decides a control reply: three bytes, status 0 is success.
pub fn control_status(answer: &[u8]) -> (r: Result<(), Error>)
    ensures
        r == control_status_spec(answer@),
{
    if answer.len() != 3 {
        Err(Error::ProtocolError)
    } else if answer[2] == 0 {
        Ok(())
    } else {
        Err(Error::LogError(LogFault::Status(answer[2])))
    }
}

/// The block id of a data packet, where it has more than one byte.
pub fn data_block_id(data: &[u8]) -> (r: Option<u8>)
    ensures
        data@.len() > 1 ==> r == Some(data@[0]),
        data@.len() <= 1 ==> r is None,
{
    if data.len() > 1 {
        Some(data[0])
    } else {
        None
    }
}

/// The view of a block's variable.
pub open spec fn var_view(v: (Vec<u8>, ValueType)) -> (Seq<u8>, ValueType) {
    (v.0@, v.1)
}

/// A block that is created on the device and not streaming: its id and its
/// variables in the order they were added.
pub struct LogBlock {
    block_id: u8,
    variables: Vec<(Vec<u8>, ValueType)>,
}

impl LogBlock {
    /// The block id.
    pub closed spec fn id_spec(&self) -> u8 {
        self.block_id
    }

    /// The variables, in order.
    pub closed spec fn vars(&self) -> Seq<(Seq<u8>, ValueType)> {
        self.variables@.map_values(|v: (Vec<u8>, ValueType)| var_view(v))
    }

    /// Settles the creation of block `block_id` from the device's reply: a
    /// block with no variable, or the status as an error.
    pub fn from_create_answer(block_id: u8, answer: &[u8]) -> (r: Result<LogBlock, Error>)
        ensures
            control_status_spec(answer@) is Ok ==> (r matches Ok(b) && b.id_spec() == block_id
                && b.vars().len() == 0),
            control_status_spec(answer@) matches Err(e) ==> r == Err::<LogBlock, Error>(e),
    {
        match control_status(answer) {
            Ok(()) => {
                let b = LogBlock { block_id, variables: Vec::new() };
                assert(b.vars() =~= Seq::<(Seq<u8>, ValueType)>::empty());
                Ok(b)
            },
            Err(e) => Err(e),
        }
    }

    /// The block id.
    pub fn block_id(&self) -> (r: u8)
        ensures
            r == self.id_spec(),
    {
        self.block_id
    }

    /// The APPEND request for the variable `name` of `toc`, and its type.
    /// `VariableNotFound` where the table has no such name, `ProtocolError`
    /// where its type byte is unknown.
    pub fn add_variable_request(&self, toc: &Toc, name: &[u8]) -> (r: Result<(Packet, ValueType), Error>)
        requires
            toc.wf(),
        ensures
            toc_lookup(toc@, name@) is None ==> r == Err::<(Packet, ValueType), Error>(
                Error::VariableNotFound,
            ),
            toc_lookup(toc@, name@) matches Some(e) ==> (log_type_of_byte(e.1) is None ==> r
                == Err::<(Packet, ValueType), Error>(Error::ProtocolError)),
            toc_lookup(toc@, name@) matches Some(e) ==> (log_type_of_byte(e.1) matches Some(t) ==> (
            r matches Ok(pt) && pt.1 == t && pt.0.wf() && pt.0.port == 5 && pt.0.channel == 1
                && pt.0.data@ == seq![
                7u8,
                self.id_spec(),
                e.1,
                (e.0 % 256) as u8,
                (e.0 / 256) as u8,
            ])),
    {
        match toc.find(name) {
            None => Err(Error::VariableNotFound),
            Some(i) => {
                let e = toc.entry(i);
                proof {
                    assert(entry_view(*e) == toc@[i as int]);
                }
                match log_item_type(e.type_byte) {
                    Ok(t) => Ok((append_block_request(self.block_id, e.type_byte, e.id), t)),
                    Err(err) => Err(err),
                }
            },
        }
    }

    /// Settles the APPEND of `name` of type `item_type` from the device's
    /// reply: on success the variable is added at the end.
    pub fn complete_add_variable(&mut self, name: &[u8], item_type: ValueType, answer: &[u8]) -> (r:
        Result<(), Error>)
        ensures
            r == control_status_spec(answer@),
            final(self).id_spec() == old(self).id_spec(),
            r is Ok ==> final(self).vars() == old(self).vars().push((name@, item_type)),
            r is Err ==> final(self).vars() == old(self).vars(),
    {
        match control_status(answer) {
            Ok(()) => {
                let n = slice_range(name, 0, name.len());
                assert(n@ =~= name@);
                self.variables.push((n, item_type));
                assert(self.vars() =~= old(self).vars().push((name@, item_type)));
                Ok(())
            },
            Err(e) => Err(e),
        }
    }

    /// Settles the START of the block from the device's reply: the block now
    /// streams. On failure the block is given up.
    pub fn start(self, answer: &[u8]) -> (r: Result<LogStream, Error>)
        ensures
            control_status_spec(answer@) is Ok ==> (r matches Ok(s) && s.block_id_spec()
                == self.id_spec() && s.vars() == self.vars()),
            control_status_spec(answer@) matches Err(e) ==> r == Err::<LogStream, Error>(e),
    {
        match control_status(answer) {
            Ok(()) => Ok(LogStream { log_block: self }),
            Err(e) => Err(e),
        }
    }
}

/// The bytes that a sample's values start at, for the variables before `i`.
pub open spec fn var_offset(vars: Seq<(Seq<u8>, ValueType)>, i: int) -> int
    decreases i,
{
    if i <= 0 {
        3
    } else {
        var_offset(vars, i - 1) + byte_len(vars[i - 1].1)
    }
}

/// A decoded sample.
#[derive(Clone, Debug)]
pub struct LogData {
    /// Device time in milliseconds (24 bits on the wire).
    pub timestamp: u32,
    /// The values, in the order of the block's variables.
    pub data: Vec<(Vec<u8>, Value)>,
}

/// A block that streams samples.
pub struct LogStream {
    log_block: LogBlock,
}

proof fn lemma_offset_mono(vars: Seq<(Seq<u8>, ValueType)>, i: int, j: int)
    requires
        0 <= i <= j,
    ensures
        var_offset(vars, i) <= var_offset(vars, j),
    decreases j,
{
    if i < j {
        lemma_offset_mono(vars, i, j - 1);
    }
}

impl LogStream {
    /// The block id.
    pub closed spec fn block_id_spec(&self) -> u8 {
        self.log_block.block_id
    }

    /// The variables, in order.
    pub closed spec fn vars(&self) -> Seq<(Seq<u8>, ValueType)> {
        self.log_block.vars()
    }

    /// The block id.
    pub fn block_id(&self) -> (r: u8)
        ensures
            r == self.block_id_spec(),
    {
        self.log_block.block_id
    }

    /// Settles the STOP of the block from the device's reply: the block can
    /// be changed and started again. On failure the block is given up.
    pub fn stop(self, answer: &[u8]) -> (r: Result<LogBlock, Error>)
        ensures
            control_status_spec(answer@) is Ok ==> (r matches Ok(b) && b.id_spec()
                == self.block_id_spec() && b.vars() == self.vars()),
            control_status_spec(answer@) matches Err(e) ==> r == Err::<LogBlock, Error>(e),
    {
        match control_status(answer) {
            Ok(()) => Ok(self.log_block),
            Err(e) => Err(e),
        }
    }

    /// Decodes a sample: `data` is the packet's payload after the block id, a
    /// 24-bit little-endian timestamp and then each variable's bytes in
    /// order. `ProtocolError` where `data` is too short for them.
    pub fn decode_packet(&self, data: &[u8]) -> (r: Result<LogData, Error>)
        ensures
            data@.len() < var_offset(self.vars(), self.vars().len() as int) ==> r
                == Err::<LogData, Error>(Error::ProtocolError),
            data@.len() >= var_offset(self.vars(), self.vars().len() as int) ==> (r matches Ok(d)
                && d.timestamp == data@[0] as int + 256 * data@[1] as int + 65536 * data@[2] as int
                && d.data@.len() == self.vars().len() && forall|i: int|
                0 <= i < self.vars().len() ==> (#[trigger] d.data@[i]).0@ == self.vars()[i].0
                && d.data@[i].1 == decode(
                data@.subrange(
                    var_offset(self.vars(), i),
                    var_offset(self.vars(), i) + byte_len(self.vars()[i].1),
                ),
                self.vars()[i].1,
            )),
    {
        let vars = &self.log_block.variables;
        let ghost vs = self.vars();
        proof {
            lemma_offset_mono(vs, 0, vs.len() as int);
        }
        if data.len() < 3 {
            return Err(Error::ProtocolError);
        }
        let mut need: usize = 3;
        let mut k: usize = 0;
        while k < vars.len()
            invariant
                k <= vars@.len(),
                vs == vars@.map_values(|v: (Vec<u8>, ValueType)| var_view(v)),
                vs == self.vars(),
                need == var_offset(vs, k as int),
                need <= data@.len(),
            decreases vars@.len() - k,
        {
            assert(vs[k as int] == var_view(vars@[k as int]));
            let len = vars[k].1.byte_length();
            if len > data.len() - need {
                proof {
                    assert(var_offset(vs, k as int + 1) == need + len);
                    lemma_offset_mono(vs, k + 1, vs.len() as int);
                }
                return Err(Error::ProtocolError);
            }
            need = need + len;
            k = k + 1;
        }
        let timestamp: u32 = data[0] as u32 + 256 * data[1] as u32 + 65536 * data[2] as u32;
        let mut out: Vec<(Vec<u8>, Value)> = Vec::new();
        let mut index: usize = 3;
        let mut i: usize = 0;
        while i < vars.len()
            invariant
                i <= vars@.len(),
                vs == vars@.map_values(|v: (Vec<u8>, ValueType)| var_view(v)),
                vs == self.vars(),
                need == var_offset(vs, vs.len() as int),
                data@.len() >= need,
                index == var_offset(vs, i as int),
                out@.len() == i,
                forall|j: int|
                    0 <= j < i ==> (#[trigger] out@[j]).0@ == vs[j].0 && out@[j].1 == decode(
                        data@.subrange(var_offset(vs, j), var_offset(vs, j) + byte_len(vs[j].1)),
                        vs[j].1,
                    ),
            decreases vars@.len() - i,
        {
            assert(vs[i as int] == var_view(vars@[i as int]));
            let t = vars[i].1;
            let len = t.byte_length();
            proof {
                lemma_offset_mono(vs, i + 1, vs.len() as int);
            }
            let bytes = slice_range(data, index, index + len);
            let v = Value::from_le_bytes(bytes.as_slice(), t);
            let nm = slice_range(vars[i].0.as_slice(), 0, vars[i].0.len());
            assert(nm@ =~= vs[i as int].0);
            match v {
                Ok(v) => {
                    out.push((nm, v));
                },
                Err(_) => {
                    return Err(Error::ProtocolError);
                },
            }
            index = index + len;
            i = i + 1;
        }
        Ok(LogData { timestamp, data: out })
    }
}

/// The blocks of a connection that exist on the device.
pub struct BlockRegistry {
    present: Vec<bool>,
}

impl View for BlockRegistry {
    type V = Set<u8>;

    closed spec fn view(&self) -> Set<u8> {
        Set::new(|id: u8| self.present@[id as int])
    }
}

impl BlockRegistry {
    /// One flag per possible id.
    pub closed spec fn wf(&self) -> bool {
        self.present@.len() == 256
    }

    /// No block.
    pub fn new() -> (r: BlockRegistry)
        ensures
            r.wf(),
            r@ == Set::<u8>::empty(),
    {
        let mut present: Vec<bool> = Vec::new();
        let mut i: usize = 0;
        while i < 256
            invariant
                i <= 256,
                present@.len() == i,
                forall|k: int| 0 <= k < i ==> !present@[k],
            decreases 256 - i,
        {
            present.push(false);
            i = i + 1;
        }
        let r = BlockRegistry { present };
        assert(r@ =~= Set::<u8>::empty());
        r
    }

    /// Whether block `id` exists: data packets for it are delivered.
    pub fn contains(&self, id: u8) -> (r: bool)
        requires
            self.wf(),
        ensures
            r == self@.contains(id),
    {
        self.present[id as usize]
    }

    /// Records that block `id` exists.
    pub fn insert(&mut self, id: u8)
        requires
            old(self).wf(),
        ensures
            final(self).wf(),
            final(self)@ == old(self)@.insert(id),
    {
        self.present.set(id as usize, true);
        assert(self@ =~= old(self)@.insert(id));
    }

    /// Records that block `id` was deleted.
    pub fn remove(&mut self, id: u8)
        requires
            old(self).wf(),
        ensures
            final(self).wf(),
            final(self)@ == old(self)@.remove(id),
    {
        self.present.set(id as usize, false);
        assert(self@ =~= old(self)@.remove(id));
    }
}

/// Every item of a log table has a known log type byte.
pub open spec fn log_toc_ok(v: Seq<(Seq<u8>, u16, u8)>) -> bool {
    forall|i: int| 0 <= i < v.len() ==> #[trigger] log_type_of_byte(v[i].2) is Some
}

/// Checks that every item of a discovered log table has a known type byte;
/// `ProtocolError` otherwise. A table is accepted, and cached, only after
/// this check.
pub fn check_log_toc(toc: &Toc) -> (r: Result<(), Error>)
    ensures
        log_toc_ok(toc@) ==> r is Ok,
        !log_toc_ok(toc@) ==> r == Err::<(), Error>(Error::ProtocolError),
{
    let mut i: usize = 0;
    while i < toc.len()
        invariant
            i <= toc@.len(),
            forall|k: int| 0 <= k < i ==> #[trigger] log_type_of_byte(toc@[k].2) is Some,
        decreases toc@.len() - i,
    {
        let e = toc.entry(i);
        assert(entry_view(*e) == toc@[i as int]);
        match log_item_type(e.type_byte) {
            Ok(_) => {},
            Err(_) => {
                assert(!(log_type_of_byte(toc@[i as int].2) is Some));
                return Err(Error::ProtocolError);
            },
        }
        i = i + 1;
    }
    Ok(())
}

/// The ids below `n` of the blocks in `blocks` that are not in `live`, in
/// increasing order.
pub open spec fn dead_ids(blocks: Set<u8>, live: Seq<u8>, n: int) -> Seq<u8>
    decreases n,
{
    if n <= 0 {
        Seq::empty()
    } else if blocks.contains((n - 1) as u8) && !live.contains((n - 1) as u8) {
        dead_ids(blocks, live, n - 1).push((n - 1) as u8)
    } else {
        dead_ids(blocks, live, n - 1)
    }
}

fn contains_id(list: &[u8], x: u8) -> (r: bool)
    ensures
        r == list@.contains(x),
{
    let mut i: usize = 0;
    while i < list.len()
        invariant
            i <= list@.len(),
            forall|k: int| 0 <= k < i ==> list@[k] != x,
        decreases list@.len() - i,
    {
        if list[i] == x {
            return true;
        }
        i = i + 1;
    }
    false
}

/// The local side of the log subsystem: the table of contents, the block
/// ids of the connection and the blocks that exist on the device.
pub struct Log {
    toc: Toc,
    ids: BlockIds,
    blocks: BlockRegistry,
}

impl Log {
    /// The table of contents.
    pub closed spec fn toc_view(&self) -> Seq<(Seq<u8>, u16, u8)> {
        self.toc@
    }

    /// The next free block id.
    pub closed spec fn next_id(&self) -> u8 {
        self.ids.next
    }

    /// The blocks that exist on the device.
    pub closed spec fn blocks_view(&self) -> Set<u8> {
        self.blocks@
    }

    /// The table is well formed and the registry has a flag per id.
    pub closed spec fn wf(&self) -> bool {
        self.toc.wf() && self.blocks.wf()
    }

    /// The log side of a connection whose table was discovered; no block
    /// yet. The device is reset first (`reset_request`).
    pub fn new(toc: Toc) -> (r: Log)
        requires
            toc.wf(),
        ensures
            r.wf(),
            r.toc_view() == toc@,
            r.next_id() == 0,
            r.blocks_view() == Set::<u8>::empty(),
    {
        Log { toc, ids: BlockIds::new(), blocks: BlockRegistry::new() }
    }

    /// The table of contents.
    pub fn toc(&self) -> (r: &Toc)
        ensures
            r@ == self.toc_view(),
    {
        &self.toc
    }

    /// The names of all log variables.
    pub fn names(&self) -> (r: Vec<Vec<u8>>)
        ensures
            r@.len() == self.toc_view().len(),
            forall|i: int| 0 <= i < r@.len() ==> r@[i]@ == self.toc_view()[i].0,
    {
        self.toc.names()
    }

    /// The type of the log variable `name`; `VariableNotFound` where there is
    /// none, `ProtocolError` where its type byte is unknown.
    pub fn get_type(&self, name: &[u8]) -> (r: Result<ValueType, Error>)
        requires
            self.wf(),
        ensures
            toc_lookup(self.toc_view(), name@) is None ==> r == Err::<ValueType, Error>(
                Error::VariableNotFound,
            ),
            toc_lookup(self.toc_view(), name@) matches Some(e) ==> match log_type_of_byte(e.1) {
                Some(t) => r == Ok::<ValueType, Error>(t),
                None => r == Err::<ValueType, Error>(Error::ProtocolError),
            },
    {
        match self.toc.find(name) {
            Some(i) => {
                let e = self.toc.entry(i);
                proof {
                    assert(entry_view(*e) == self.toc@[i as int]);
                }
                log_item_type(e.type_byte)
            },
            None => Err(Error::VariableNotFound),
        }
    }

    /// Takes the next block id and returns it with its CREATE request.
    /// `LogError(BlockIdsExhausted)` when no id is left.
    pub fn create_block_request(&mut self) -> (r: Result<(u8, Packet), Error>)
        requires
            old(self).wf(),
        ensures
            final(self).wf(),
            final(self).toc_view() == old(self).toc_view(),
            final(self).blocks_view() == old(self).blocks_view(),
            final(self).next_id() == allocate_spec(old(self).next_id()).1,
            allocate_spec(old(self).next_id()).0 matches Ok(id) ==> (r matches Ok(p) && p.0 == id
                && p.1.wf() && p.1.port == 5 && p.1.channel == 1 && p.1.data@ == seq![6u8, id]),
            allocate_spec(old(self).next_id()).0 matches Err(e) ==> r == Err::<(u8, Packet), Error>(e),
    {
        match self.ids.generate_next_block_id() {
            Ok(id) => Ok((id, create_block_request(id))),
            Err(e) => Err(e),
        }
    }

    /// Settles the creation of block `id` from the device's reply; on
    /// success the block exists and its samples are delivered.
    pub fn complete_create(&mut self, id: u8, answer: &[u8]) -> (r: Result<LogBlock, Error>)
        requires
            old(self).wf(),
        ensures
            final(self).wf(),
            final(self).toc_view() == old(self).toc_view(),
            final(self).next_id() == old(self).next_id(),
            control_status_spec(answer@) is Ok ==> (r matches Ok(b) && b.id_spec() == id
                && b.vars().len() == 0 && final(self).blocks_view() == old(self).blocks_view().insert(
                id,
            )),
            control_status_spec(answer@) matches Err(e) ==> r == Err::<LogBlock, Error>(e)
                && final(self).blocks_view() == old(self).blocks_view(),
    {
        match LogBlock::from_create_answer(id, answer) {
            Ok(b) => {
                self.blocks.insert(id);
                Ok(b)
            },
            Err(e) => Err(e),
        }
    }

    /// Settles the deletion of block `id` from the device's reply; on
    /// success the block no longer exists.
    pub fn complete_delete(&mut self, id: u8, answer: &[u8]) -> (r: Result<(), Error>)
        requires
            old(self).wf(),
        ensures
            final(self).wf(),
            final(self).toc_view() == old(self).toc_view(),
            final(self).next_id() == old(self).next_id(),
            r == control_status_spec(answer@),
            r is Ok ==> final(self).blocks_view() == old(self).blocks_view().remove(id),
            r is Err ==> final(self).blocks_view() == old(self).blocks_view(),
    {
        match control_status(answer) {
            Ok(()) => {
                self.blocks.remove(id);
                Ok(())
            },
            Err(e) => Err(e),
        }
    }

    /// The DELETE requests that the sweep before a new block sends: one for
    /// each block that exists on the device but whose id is not in `live`
    /// (its owner dropped it), in increasing id order.
    pub fn cleanup_requests(&self, live: &[u8]) -> (r: Vec<Packet>)
        requires
            self.wf(),
        ensures
            r@.len() == dead_ids(self.blocks_view(), live@, 256).len(),
            forall|j: int|
                0 <= j < r@.len() ==> (#[trigger] r@[j]).wf() && r@[j].port == 5 && r@[j].channel == 1
                    && r@[j].data@ == seq![2u8, dead_ids(self.blocks_view(), live@, 256)[j]],
    {
        let mut out: Vec<Packet> = Vec::new();
        let mut k: u16 = 0;
        while k < 256
            invariant
                k <= 256,
                self.wf(),
                out@.len() == dead_ids(self.blocks_view(), live@, k as int).len(),
                forall|j: int|
                    0 <= j < out@.len() ==> (#[trigger] out@[j]).wf() && out@[j].port == 5
                        && out@[j].channel == 1 && out@[j].data@ == seq![
                        2u8,
                        dead_ids(self.blocks_view(), live@, k as int)[j],
                    ],
            decreases 256 - k,
        {
            let id = k as u8;
            if self.blocks.contains(id) && !contains_id(live, id) {
                out.push(delete_block_request(id));
            }
            k = k + 1;
        }
        out
    }

    /// The block whose stream a data packet goes to: its first byte, where
    /// the packet has more than one byte and that block exists.
    pub fn route_data(&self, data: &[u8]) -> (r: Option<u8>)
        requires
            self.wf(),
        ensures
            (data@.len() > 1 && self.blocks_view().contains(data@[0])) ==> r == Some(data@[0]),
            !(data@.len() > 1 && self.blocks_view().contains(data@[0])) ==> r is None,
    {
        match data_block_id(data) {
            Some(id) => {
                if self.blocks.contains(id) {
                    Some(id)
                } else {
                    None
                }
            },
            None => None,
        }
    }
}

} // verus!

//! Parameter subsystem: type bytes, request encoders, the decisions on the
//! device's replies, and the local store of values and watchers.
use vstd::prelude::*;
use crate::error::{Error, ParamFault};
use crate::packet::{Packet, PARAM_PORT};
use crate::toc::{Toc, toc_lookup, first_id};
use crate::bytes::{bytes_eq, le16_at, slice_from, slice_range};
use crate::toc::entry_view;
use crate::value::{Value, ValueType, byte_len, type_of, decode, encode};

verus! {

const READ_CHANNEL: u8 = 1;
const WRITE_CHANNEL: u8 = 2;
const MISC_CHANNEL: u8 = 3;

/// MISC command byte of an update that the device sends on its own.
pub const MISC_VALUE_UPDATED: u8 = 1;
/// MISC command: store the current value as persistent.
pub const PERSISTENT_STORE: u8 = 3;
/// MISC command: read the persistence state.
pub const PERSISTENT_GET_STATE: u8 = 4;
/// MISC command: clear the persistent value.
pub const PERSISTENT_CLEAR: u8 = 5;
/// MISC command: read the extended type.
pub const GET_EXTENDED_TYPE_V2: u8 = 7;
/// MISC command: read the default value.
pub const GET_DEFAULT_VALUE_V2: u8 = 8;

/// The value type selected by the low four bits of a parameter type byte.
pub open spec fn param_type_of_nibble(n: u8) -> Option<ValueType> {
    if n == 0x08 {
        Some(ValueType::U8)
    } else if n == 0x09 {
        Some(ValueType::U16)
    } else if n == 0x0A {
        Some(ValueType::U32)
    } else if n == 0x0B {
        Some(ValueType::U64)
    } else if n == 0x00 {
        Some(ValueType::I8)
    } else if n == 0x01 {
        Some(ValueType::I16)
    } else if n == 0x02 {
        Some(ValueType::I32)
    } else if n == 0x03 {
        Some(ValueType::I64)
    } else if n == 0x05 {
        Some(ValueType::F16)
    } else if n == 0x06 {
        Some(ValueType::F32)
    } else if n == 0x07 {
        Some(ValueType::F64)
    } else {
        None
    }
}

/// What a parameter type byte says.
#[derive(Clone, Copy, Debug, PartialEq, Eq, Structural)]
pub struct ParamItemInfo {
    pub item_type: ValueType,
    pub writable: bool,
    pub extended: bool,
}

/// The decoded type byte `b`, if its low four bits name a type: bit 6 set
/// means read-only, bit 4 set means that extended-type flags exist.
pub open spec fn param_info_spec(b: u8) -> Option<ParamItemInfo> {
    match param_type_of_nibble(b % 16) {
        Some(t) => Some(
            ParamItemInfo { item_type: t, writable: (b / 64) % 2 == 0, extended: (b / 16) % 2 == 1 },
        ),
        None => None,
    }
}

impl ParamItemInfo {
    /// Decodes a parameter type byte; `ParamError(UnknownType)` where its low
    /// four bits name no type.
    pub fn from_type_byte(b: u8) -> (r: Result<ParamItemInfo, Error>)
        ensures
            param_info_spec(b) matches Some(i) ==> r == Ok::<ParamItemInfo, Error>(i),
            param_info_spec(b) is None ==> r == Err::<ParamItemInfo, Error>(
                Error::ParamError(ParamFault::UnknownType(b % 16)),
            ),
    {
        let n = b % 16;
        let item_type = match n {
            0x08 => ValueType::U8,
            0x09 => ValueType::U16,
            0x0A => ValueType::U32,
            0x0B => ValueType::U64,
            0x00 => ValueType::I8,
            0x01 => ValueType::I16,
            0x02 => ValueType::I32,
            0x03 => ValueType::I64,
            0x05 => ValueType::F16,
            0x06 => ValueType::F32,
            0x07 => ValueType::F64,
            _ => {
                return Err(Error::ParamError(ParamFault::UnknownType(n)));
            },
        };
        Ok(ParamItemInfo { item_type, writable: (b / 64) % 2 == 0, extended: (b / 16) % 2 == 1 })
    }
}

/// Every item of a parameter table has a type byte that names a type.
pub open spec fn param_toc_ok(v: Seq<(Seq<u8>, u16, u8)>) -> bool {
    forall|i: int| 0 <= i < v.len() ==> #[trigger] param_info_spec(v[i].2) is Some
}

/// Checks that every item of a discovered parameter table has a type byte
/// that names a type; `ProtocolError` otherwise. A table is accepted, and
/// cached, only after this check.
pub fn check_param_toc(toc: &Toc) -> (r: Result<(), Error>)
    ensures
        param_toc_ok(toc@) ==> r is Ok,
        !param_toc_ok(toc@) ==> r == Err::<(), Error>(Error::ProtocolError),
{
    let mut i: usize = 0;
    while i < toc.len()
        invariant
            i <= toc@.len(),
            forall|k: int| 0 <= k < i ==> #[trigger] param_info_spec(toc@[k].2) is Some,
        decreases toc@.len() - i,
    {
        let e = toc.entry(i);
        assert(entry_view(*e) == toc@[i as int]);
        match ParamItemInfo::from_type_byte(e.type_byte) {
            Ok(_) => {},
            Err(_) => {
                assert(!(param_info_spec(toc@[i as int].2) is Some));
                return Err(Error::ProtocolError);
            },
        }
        i = i + 1;
    }
    Ok(())
}

/// The two little-endian bytes of `id`.
pub open spec fn id_bytes(id: u16) -> Seq<u8> {
    seq![(id % 256) as u8, (id / 256) as u8]
}

/// The READ request for parameter `id`.
pub fn read_request(id: u16) -> (r: Packet)
    ensures
        r.wf(),
        r.port == 2 && r.channel == 1 && r.data@ == id_bytes(id),
{
    let data = vec![(id % 256) as u8, (id / 256) as u8];
    assert(data@ =~= id_bytes(id));
    Packet { port: PARAM_PORT, channel: READ_CHANNEL, data }
}

/// The WRITE request that sets parameter `id` to `value`.
pub fn write_request(id: u16, value: Value) -> (r: Packet)
    ensures
        r.wf(),
        r.port == 2 && r.channel == 2 && r.data@ == id_bytes(id) + encode(value),
{
    let mut data = vec![(id % 256) as u8, (id / 256) as u8];
    let bytes = value.to_le_bytes();
    let mut i: usize = 0;
    let ghost start = data@;
    assert(start =~= id_bytes(id));
    while i < bytes.len()
        invariant
            i <= bytes@.len(),
            bytes@ == encode(value),
            bytes@.len() <= 8,
            data@ == start + bytes@.subrange(0, i as int),
        decreases bytes@.len() - i,
    {
        data.push(bytes[i]);
        i = i + 1;
        assert(data@ =~= start + bytes@.subrange(0, i as int));
    }
    assert(bytes@.subrange(0, bytes@.len() as int) =~= bytes@);
    Packet { port: PARAM_PORT, channel: WRITE_CHANNEL, data }
}

/// A MISC request: `cmd` followed by the id of the parameter.
pub fn misc_request(cmd: u8, id: u16) -> (r: Packet)
    ensures
        r.wf(),
        r.port == 2 && r.channel == 3 && r.data@ == seq![cmd] + id_bytes(id),
{
    let data = vec![cmd, (id % 256) as u8, (id / 256) as u8];
    assert(data@ =~= seq![cmd] + id_bytes(id));
    Packet { port: PARAM_PORT, channel: MISC_CHANNEL, data }
}

/// The outcome of a write, from the reply's bytes after the id: the written
/// bytes echoed back mean success; anything else is an error code in its
/// first byte.
pub open spec fn write_outcome_spec(value: Value, answer: Seq<u8>) -> Result<(), Error> {
    if answer.len() < 2 {
        Err(Error::ProtocolError)
    } else if answer.subrange(2, answer.len() as int) == encode(value) {
        Ok(())
    } else if answer.len() == 2 {
        Err(Error::ProtocolError)
    } else {
        Err(Error::ParamError(ParamFault::WriteCode(answer[2])))
    }
}

/// Decides a write from the device's reply `answer` (id, then echo or code).
pub fn write_outcome(value: Value, answer: &[u8]) -> (r: Result<(), Error>)
    ensures
        r == write_outcome_spec(value, answer@),
{
    if answer.len() < 2 {
        return Err(Error::ProtocolError);
    }
    let expected = value.to_le_bytes();
    let tail = slice_from(answer, 2);
    if bytes_eq(tail.as_slice(), expected.as_slice()) {
        Ok(())
    } else if answer.len() == 2 {
        Err(Error::ProtocolError)
    } else {
        Err(Error::ParamError(ParamFault::WriteCode(answer[2])))
    }
}

/// The value in a READ reply (id, status, value bytes), of type `t`.
pub open spec fn read_reply_spec(answer: Seq<u8>, t: ValueType) -> Result<Value, Error> {
    if answer.len() < 3 {
        Err(Error::ProtocolError)
    } else if answer.len() - 3 != byte_len(t) {
        Err(Error::ConversionError)
    } else {
        Ok(decode(answer.subrange(3, answer.len() as int), t))
    }
}

/// Reads the value of type `t` out of a READ reply.
pub fn read_reply_value(answer: &[u8], t: ValueType) -> (r: Result<Value, Error>)
    ensures
        r == read_reply_spec(answer@, t),
{
    if answer.len() < 3 {
        return Err(Error::ProtocolError);
    }
    let tail = slice_from(answer, 3);
    Value::from_le_bytes(tail.as_slice(), t)
}

/// What a frame on the MISC channel is.
#[derive(Clone, Copy, Debug, PartialEq, Eq, Structural)]
pub enum MiscFrame {
    /// An update that the device sent on its own, for parameter `id`.
    Update(u16),
    /// The reply to a persistence or type command `cmd`, for parameter `id`.
    Response(u8, u16),
    /// Neither: dropped.
    Unknown,
}

/// The persistence and type commands, whose replies come on MISC.
pub open spec fn is_misc_command(c: u8) -> bool {
    c == 3 || c == 4 || c == 5 || c == 7 || c == 8
}

/// How a MISC frame is routed: by its first byte.
pub open spec fn classify_misc_spec(data: Seq<u8>) -> MiscFrame {
    if data.len() < 3 {
        MiscFrame::Unknown
    } else if data[0] == 1 {
        MiscFrame::Update(le16_at(data, 1))
    } else if is_misc_command(data[0]) {
        MiscFrame::Response(data[0], le16_at(data, 1))
    } else {
        MiscFrame::Unknown
    }
}

/// Routes a MISC frame.
pub fn classify_misc(data: &[u8]) -> (r: MiscFrame)
    ensures
        r == classify_misc_spec(data@),
{
    if data.len() < 3 {
        return MiscFrame::Unknown;
    }
    let id = data[1] as u16 + 256 * data[2] as u16;
    let c = data[0];
    if c == MISC_VALUE_UPDATED {
        MiscFrame::Update(id)
    } else if c == PERSISTENT_STORE || c == PERSISTENT_GET_STATE || c == PERSISTENT_CLEAR || c
        == GET_EXTENDED_TYPE_V2 || c == GET_DEFAULT_VALUE_V2 {
        MiscFrame::Response(c, id)
    } else {
        MiscFrame::Unknown
    }
}

/// A frame is the reply to MISC command `cmd` for parameter `id`.
pub open spec fn is_reply_to(data: Seq<u8>, cmd: u8, id: u16) -> bool {
    classify_misc_spec(data) == MiscFrame::Response(cmd, id)
}

/// An update frame is never taken for the reply to a MISC command, whatever
/// the command and the parameter.
pub proof fn lemma_update_never_a_reply(data: Seq<u8>, cmd: u8, id: u16)
    requires
        data.len() >= 3,
        data[0] == 1,
    ensures
        classify_misc_spec(data) is Update,
        !is_reply_to(data, cmd, id),
{
}

/// The status part of a MISC reply to `store` or `clear`: status 0 is success.
pub open spec fn misc_status_spec(data: Seq<u8>) -> Result<(), Error> {
    if data.len() < 4 {
        Err(Error::ProtocolError)
    } else if data[3] == 0 {
        Ok(())
    } else {
        Err(Error::ParamError(ParamFault::CommandCode(data[3])))
    }
}

/// Decides a reply to `PERSISTENT_STORE` or `PERSISTENT_CLEAR`.
pub fn misc_status(data: &[u8]) -> (r: Result<(), Error>)
    ensures
        r == misc_status_spec(data@),
{
    if data.len() < 4 {
        Err(Error::ProtocolError)
    } else if data[3] == 0 {
        Ok(())
    } else {
        Err(Error::ParamError(ParamFault::CommandCode(data[3])))
    }
}

/// The persistence state of a parameter.
#[derive(Clone, Copy, Debug, PartialEq, Eq, Structural)]
pub struct PersistentState {
    pub default_value: Value,
    pub stored_value: Option<Value>,
}

/// The persistence state read from a `PERSISTENT_GET_STATE` reply for a
/// parameter of type `t`. A four-byte reply is an error code.
pub open spec fn persistent_state_spec(data: Seq<u8>, t: ValueType) -> Result<
    PersistentState,
    Error,
> {
    let w = byte_len(t) as int;
    if data.len() < 4 {
        Err(Error::ProtocolError)
    } else if data.len() == 4 {
        Err(Error::ParamError(ParamFault::CommandCode(data[3])))
    } else if data[3] == 0 && data.len() == 4 + w {
        Ok(PersistentState { default_value: decode(data.subrange(4, 4 + w), t), stored_value: None })
    } else if data[3] == 1 && data.len() == 4 + 2 * w {
        Ok(
            PersistentState {
                default_value: decode(data.subrange(4, 4 + w), t),
                stored_value: Some(decode(data.subrange(4 + w, 4 + 2 * w), t)),
            },
        )
    } else {
        Err(Error::ProtocolError)
    }
}

/// Reads a `PERSISTENT_GET_STATE` reply.
pub fn parse_persistent_state(data: &[u8], t: ValueType) -> (r: Result<PersistentState, Error>)
    ensures
        r == persistent_state_spec(data@, t),
{
    let w = t.byte_length();
    if data.len() < 4 {
        return Err(Error::ProtocolError);
    }
    if data.len() == 4 {
        return Err(Error::ParamError(ParamFault::CommandCode(data[3])));
    }
    if data[3] == 0 && data.len() == 4 + w {
        let d = slice_range(data, 4, 4 + w);
        let default_value = Value::from_le_bytes(d.as_slice(), t);
        match default_value {
            Ok(v) => Ok(PersistentState { default_value: v, stored_value: None }),
            Err(e) => Err(e),
        }
    } else if data[3] == 1 && data.len() == 4 + 2 * w {
        let d = slice_range(data, 4, 4 + w);
        let s = slice_range(data, 4 + w, 4 + 2 * w);
        let default_value = Value::from_le_bytes(d.as_slice(), t);
        let stored_value = Value::from_le_bytes(s.as_slice(), t);
        match (default_value, stored_value) {
            (Ok(dv), Ok(sv)) => Ok(PersistentState { default_value: dv, stored_value: Some(sv) }),
            _ => Err(Error::ProtocolError),
        }
    } else {
        Err(Error::ProtocolError)
    }
}

/// The default value read from a `GET_DEFAULT_VALUE_V2` reply for a
/// parameter of type `t`; a four-byte reply means that the parameter has no
/// default.
pub open spec fn default_value_spec(data: Seq<u8>, t: ValueType) -> Result<Value, Error> {
    if data.len() < 4 {
        Err(Error::ProtocolError)
    } else if data.len() == 4 {
        Err(Error::ParamError(ParamFault::DefaultUnsupported))
    } else if data[3] == 0 && data.len() == 4 + byte_len(t) {
        Ok(decode(data.subrange(4, data.len() as int), t))
    } else {
        Err(Error::ProtocolError)
    }
}

/// Reads a `GET_DEFAULT_VALUE_V2` reply.
pub fn parse_default_value(data: &[u8], t: ValueType) -> (r: Result<Value, Error>)
    ensures
        r == default_value_spec(data@, t),
{
    if data.len() < 4 {
        return Err(Error::ProtocolError);
    }
    if data.len() == 4 {
        return Err(Error::ParamError(ParamFault::DefaultUnsupported));
    }
    if data[3] == 0 && data.len() == 4 + t.byte_length() {
        let d = slice_from(data, 4);
        Value::from_le_bytes(d.as_slice(), t)
    } else {
        Err(Error::ProtocolError)
    }
}

/// The extended type read from a `GET_EXTENDED_TYPE_V2` reply.
pub open spec fn extended_type_spec(data: Seq<u8>) -> Result<u8, Error> {
    if data.len() < 4 {
        Err(Error::ProtocolError)
    } else if data.len() == 4 {
        Err(Error::ParamError(ParamFault::CommandCode(data[3])))
    } else if data[3] == 0 {
        Ok(data[4])
    } else {
        Err(Error::ProtocolError)
    }
}

/// Reads a `GET_EXTENDED_TYPE_V2` reply.
pub fn parse_extended_type(data: &[u8]) -> (r: Result<u8, Error>)
    ensures
        r == extended_type_spec(data@),
{
    if data.len() < 4 {
        Err(Error::ProtocolError)
    } else if data.len() == 4 {
        Err(Error::ParamError(ParamFault::CommandCode(data[3])))
    } else if data[3] == 0 {
        Ok(data[4])
    } else {
        Err(Error::ProtocolError)
    }
}

/// A parameter whose extended type has bit 0 set is persistent.
pub open spec fn is_persistent_spec(info: ParamItemInfo, extended_type: u8) -> bool {
    info.extended && extended_type % 2 == 1
}

/// Whether a parameter is persistent, from its type byte's info and its
/// extended type.
pub fn is_persistent(info: ParamItemInfo, extended_type: u8) -> (r: bool)
    ensures
        r == is_persistent_spec(info, extended_type),
{
    info.extended && extended_type % 2 == 1
}

/// The view of a queued notification.
pub open spec fn note_view(n: (Vec<u8>, Value)) -> (Seq<u8>, Value) {
    (n.0@, n.1)
}

/// The view of a watcher's queue of notifications.
pub open spec fn queue_view(q: Vec<(Vec<u8>, Value)>) -> Seq<(Seq<u8>, Value)> {
    q@.map_values(|n: (Vec<u8>, Value)| note_view(n))
}

/// The local side of the parameter subsystem: the table of contents, the
/// type of each parameter, the last value the device confirmed or announced,
/// and the queues of the change watchers.
pub struct Param {
    toc: Toc,
    infos: Vec<ParamItemInfo>,
    values: Vec<Option<Value>>,
    defaults: Vec<DefaultValue>,
    watchers: Vec<Option<Vec<(Vec<u8>, Value)>>>,
}

/// What is known of a parameter's default value.
#[derive(Clone, Copy, Debug, PartialEq, Eq, Structural)]
pub enum DefaultValue {
    /// Not asked yet.
    Unknown,
    /// The device gave this default.
    Known(Value),
    /// The device has no default for it.
    Unsupported,
}

impl Param {
    /// The table of contents.
    pub closed spec fn toc_view(&self) -> Seq<(Seq<u8>, u16, u8)> {
        self.toc@
    }

    /// The cached value of the parameter named `name` (none where it is not
    /// in the table or was never read).
    pub closed spec fn cached(&self, name: Seq<u8>) -> Option<Value> {
        if exists|i: int| 0 <= i < self.toc@.len() && self.toc@[i].0 == name {
            self.values@[choose|i: int| 0 <= i < self.toc@.len() && self.toc@[i].0 == name]
        } else {
            None
        }
    }

    /// Number of watcher slots handed out.
    pub closed spec fn watcher_slots(&self) -> nat {
        self.watchers@.len()
    }

    /// The pending notifications of watcher `w`, where it is active.
    pub closed spec fn queue(&self, w: int) -> Option<Seq<(Seq<u8>, Value)>> {
        if 0 <= w < self.watchers@.len() {
            match self.watchers@[w] {
                Some(q) => Some(queue_view(q)),
                None => None,
            }
        } else {
            None
        }
    }

    /// Names are unique, every type byte names a type, and every cached value
    /// has its parameter's type.
    pub closed spec fn wf(&self) -> bool {
        &&& self.toc.wf()
        &&& self.infos@.len() == self.toc@.len()
        &&& self.values@.len() == self.toc@.len()
        &&& self.defaults@.len() == self.toc@.len()
        &&& forall|i: int|
            0 <= i < self.toc@.len() ==> param_info_spec(self.toc@[i].2) == Some(
                #[trigger] self.infos@[i],
            )
        &&& forall|i: int|
            0 <= i < self.toc@.len() && #[trigger] self.values@[i] is Some ==> type_of(
                self.values@[i]->0,
            ) == self.infos@[i].item_type
    }

    /// A store over a discovered table, with no cached value and no watcher.
    /// `ParamError(UnknownType)` where a type byte names no type.
    pub fn new(toc: Toc) -> (r: Result<Param, Error>)
        requires
            toc.wf(),
        ensures
            (forall|i: int| 0 <= i < toc@.len() ==> #[trigger] param_info_spec(toc@[i].2) is Some)
                ==> (r matches Ok(s) && s.wf() && s.toc_view() == toc@ && s.watcher_slots() == 0
                && forall|n: Seq<u8>| #[trigger] s.cached(n) is None),
            !(forall|i: int| 0 <= i < toc@.len() ==> #[trigger] param_info_spec(toc@[i].2) is Some)
                ==> r is Err,
    {
        let mut infos: Vec<ParamItemInfo> = Vec::new();
        let mut values: Vec<Option<Value>> = Vec::new();
        let mut defaults: Vec<DefaultValue> = Vec::new();
        let mut i: usize = 0;
        while i < toc.len()
            invariant
                i <= toc@.len(),
                infos@.len() == i,
                values@.len() == i,
                defaults@.len() == i,
                forall|k: int| 0 <= k < i ==> #[trigger] defaults@[k] == DefaultValue::Unknown,
                forall|k: int| 0 <= k < i ==> param_info_spec(toc@[k].2) == Some(#[trigger] infos@[k]),
                forall|k: int| 0 <= k < i ==> #[trigger] values@[k] is None,
            decreases toc@.len() - i,
        {
            let b = toc.entry(i).type_byte;
            match ParamItemInfo::from_type_byte(b) {
                Ok(info) => {
                    infos.push(info);
                    values.push(None);
                    defaults.push(DefaultValue::Unknown);
                },
                Err(e) => {
                    assert(param_info_spec(toc@[i as int].2) is None);
                    return Err(e);
                },
            }
            i = i + 1;
        }
        assert forall|k: int| 0 <= k < toc@.len() implies #[trigger] param_info_spec(toc@[k].2) is Some by {
            assert(param_info_spec(toc@[k].2) == Some(infos@[k]));
        }
        let s = Param { toc, infos, values, defaults, watchers: Vec::new() };
        proof {
            assert forall|n: Seq<u8>| #[trigger] s.cached(n) is None by {
                if exists|k: int| 0 <= k < s.toc@.len() && s.toc@[k].0 == n {
                    let k = choose|k: int| 0 <= k < s.toc@.len() && s.toc@[k].0 == n;
                    assert(s.values@[k] is None);
                }
            }
        }
        Ok(s)
    }

    /// The table of contents.
    pub fn toc(&self) -> (r: &Toc)
        ensures
            r@ == self.toc_view(),
    {
        &self.toc
    }

    /// Index, id and info of the parameter named `name`;
    /// `ParamError(NotFound)` where there is none.
    pub fn lookup(&self, name: &[u8]) -> (r: Result<(usize, u16, ParamItemInfo), Error>)
        requires
            self.wf(),
        ensures
            toc_lookup(self.toc_view(), name@) is None ==> r == Err::<
                (usize, u16, ParamItemInfo),
                Error,
            >(Error::ParamError(ParamFault::NotFound)),
            toc_lookup(self.toc_view(), name@) matches Some(e) ==> (r matches Ok(t) && t.1 == e.0
                && param_info_spec(e.1) == Some(t.2) && t.0 < self.toc_view().len()
                && self.toc_view()[t.0 as int].0 == name@),
    {
        match self.toc.find(name) {
            Some(i) => {
                let e = self.toc.entry(i);
                Ok((i, e.id, self.infos[i]))
            },
            None => Err(Error::ParamError(ParamFault::NotFound)),
        }
    }

    /// The type of the parameter named `name`.
    pub fn get_type(&self, name: &[u8]) -> (r: Result<ValueType, Error>)
        requires
            self.wf(),
        ensures
            toc_lookup(self.toc_view(), name@) is None ==> r == Err::<ValueType, Error>(
                Error::ParamError(ParamFault::NotFound),
            ),
            toc_lookup(self.toc_view(), name@) matches Some(e) ==> r == Ok::<ValueType, Error>(
                param_info_spec(e.1)->0.item_type,
            ),
    {
        match self.lookup(name) {
            Ok((_, _, info)) => Ok(info.item_type),
            Err(e) => Err(e),
        }
    }

    /// Whether the parameter named `name` can be written.
    pub fn is_writable(&self, name: &[u8]) -> (r: Result<bool, Error>)
        requires
            self.wf(),
        ensures
            toc_lookup(self.toc_view(), name@) is None ==> r == Err::<bool, Error>(
                Error::ParamError(ParamFault::NotFound),
            ),
            toc_lookup(self.toc_view(), name@) matches Some(e) ==> r == Ok::<bool, Error>(
                param_info_spec(e.1)->0.writable,
            ),
    {
        match self.lookup(name) {
            Ok((_, _, info)) => Ok(info.writable),
            Err(e) => Err(e),
        }
    }

    /// The cached value of `name`: `Ok(None)` where it was never read, so that
    /// a READ must be sent.
    pub fn get(&self, name: &[u8]) -> (r: Result<Option<Value>, Error>)
        requires
            self.wf(),
        ensures
            toc_lookup(self.toc_view(), name@) is None ==> r == Err::<Option<Value>, Error>(
                Error::ParamError(ParamFault::NotFound),
            ),
            toc_lookup(self.toc_view(), name@) is Some ==> r == Ok::<Option<Value>, Error>(
                self.cached(name@),
            ),
    {
        match self.lookup(name) {
            Ok((i, _, _)) => {
                proof {
                    crate::toc::lemma_lookup_at(self.toc@, i as int);
                }
                Ok(self.values[i])
            },
            Err(e) => Err(e),
        }
    }

    /// What is known of the default value of the parameter named `name`.
    pub closed spec fn default_of(&self, name: Seq<u8>) -> DefaultValue {
        if exists|i: int| 0 <= i < self.toc@.len() && self.toc@[i].0 == name {
            self.defaults@[choose|i: int| 0 <= i < self.toc@.len() && self.toc@[i].0 == name]
        } else {
            DefaultValue::Unknown
        }
    }

    /// What is known of the default value of `name`: `Unknown` means that
    /// a `GET_DEFAULT_VALUE_V2` request must be sent.
    pub fn get_default_value(&self, name: &[u8]) -> (r: Result<DefaultValue, Error>)
        requires
            self.wf(),
        ensures
            toc_lookup(self.toc_view(), name@) is None ==> r == Err::<DefaultValue, Error>(
                Error::ParamError(ParamFault::NotFound),
            ),
            toc_lookup(self.toc_view(), name@) is Some ==> r == Ok::<DefaultValue, Error>(
                self.default_of(name@),
            ),
    {
        match self.lookup(name) {
            Ok((i, _, _)) => {
                proof {
                    let k = choose|k: int| 0 <= k < self.toc@.len() && self.toc@[k].0 == name@;
                    assert(k == i);
                }
                Ok(self.defaults[i])
            },
            Err(e) => Err(e),
        }
    }

    /// Settles a `GET_DEFAULT_VALUE_V2` for `name` from its reply: a default
    /// is remembered as `Known`, a refusal as `Unsupported`; a malformed
    /// reply changes nothing.
    pub fn complete_default_value(&mut self, name: &[u8], answer: &[u8]) -> (r: Result<DefaultValue, Error>)
        requires
            old(self).wf(),
        ensures
            final(self).wf(),
            final(self).toc_view() == old(self).toc_view(),
            forall|n: Seq<u8>| #[trigger] final(self).cached(n) == old(self).cached(n),
            forall|w: int| #[trigger] final(self).queue(w) == old(self).queue(w),
            final(self).watcher_slots() == old(self).watcher_slots(),
            toc_lookup(old(self).toc_view(), name@) is None ==> r == Err::<DefaultValue, Error>(
                Error::ParamError(ParamFault::NotFound),
            ),
            toc_lookup(old(self).toc_view(), name@) matches Some(e) ==> match default_value_spec(
                answer@,
                param_info_spec(e.1)->0.item_type,
            ) {
                Ok(v) => r == Ok::<DefaultValue, Error>(DefaultValue::Known(v)),
                Err(Error::ParamError(ParamFault::DefaultUnsupported)) => r == Ok::<
                    DefaultValue,
                    Error,
                >(DefaultValue::Unsupported),
                Err(err) => r == Err::<DefaultValue, Error>(err),
            },
            r matches Ok(d) ==> final(self).default_of(name@) == d,
    {
        match self.lookup(name) {
            Ok((i, _, info)) => {
                let d = match parse_default_value(answer, info.item_type) {
                    Ok(v) => DefaultValue::Known(v),
                    Err(Error::ParamError(ParamFault::DefaultUnsupported)) => DefaultValue::Unsupported,
                    Err(e) => {
                        return Err(e);
                    },
                };
                self.defaults.set(i, d);
                proof {
                    let k = choose|k: int| 0 <= k < self.toc@.len() && self.toc@[k].0 == name@;
                    assert(k == i);
                    assert forall|n: Seq<u8>| #[trigger] self.cached(n) == old(self).cached(n) by {}
                    assert forall|w: int| #[trigger] self.queue(w) == old(self).queue(w) by {}
                }
                Ok(d)
            },
            Err(e) => Err(e),
        }
    }

    proof fn lemma_cached_at(&self, i: int)
        requires
            self.wf(),
            0 <= i < self.toc@.len(),
        ensures
            self.cached(self.toc@[i].0) == self.values@[i],
    {
        let n = self.toc@[i].0;
        let k = choose|k: int| 0 <= k < self.toc@.len() && self.toc@[k].0 == n;
        assert(k == i);
    }

    /// Puts `v` in the cache at `i` and queues `(name, v)` for every active
    /// watcher.
    fn store_and_notify(&mut self, i: usize, v: Value)
        requires
            old(self).wf(),
            i < old(self).toc@.len(),
            type_of(v) == old(self).infos@[i as int].item_type,
        ensures
            final(self).wf(),
            final(self).toc_view() == old(self).toc_view(),
            final(self).cached(old(self).toc@[i as int].0) == Some(v),
            forall|n: Seq<u8>| n != old(self).toc@[i as int].0 ==> #[trigger] final(self).cached(n)
                == old(self).cached(n),
            final(self).watcher_slots() == old(self).watcher_slots(),
            forall|w: int| #[trigger]
                final(self).queue(w) == match old(self).queue(w) {
                    Some(q) => Some(q.push((old(self).toc@[i as int].0, v))),
                    None => None,
                },
    {
        let ghost name = self.toc@[i as int].0;
        let mut w: usize = 0;
        let ghost before = self.watchers@;
        while w < self.watchers.len()
            invariant
                self.toc@ == old(self).toc@,
                self.infos@ == old(self).infos@,
                self.values@ == old(self).values@,
                self.defaults@ == old(self).defaults@,
                self.toc.wf(),
                i < self.toc@.len(),
                name == self.toc@[i as int].0,
                w <= self.watchers@.len(),
                self.watchers@.len() == before.len(),
                before == old(self).watchers@,
                forall|k: int| #![trigger self.watchers@[k]]
                    0 <= k < w ==> (before[k] is None ==> self.watchers@[k] is None) && (
                    before[k] is Some ==> (self.watchers@[k] is Some && queue_view(
                        self.watchers@[k]->0,
                    ) == queue_view(before[k]->0).push((name, v)))),
                forall|k: int| #![trigger self.watchers@[k]]
                    w <= k < before.len() ==> self.watchers@[k] == before[k],
            decreases before.len() - w,
        {
            let slot = self.watchers[w].take();
            let ghost sv = slot;
            assert(sv == before[w as int]);
            match slot {
                Some(mut q) => {
                    let ent = self.toc.entry(i);
                    let nm = slice_from(ent.name.as_slice(), 0);
                    proof {
                        assert(self.toc@[i as int] == entry_view(*ent));
                        assert(nm@ =~= name);
                    }
                    q.push((nm, v));
                    proof {
                        assert(queue_view(q) =~= queue_view(sv->0).push((name, v)));
                    }
                    self.watchers.set(w, Some(q));
                },
                None => {
                    self.watchers.set(w, None);
                },
            }
            w = w + 1;
        }
        self.values.set(i, Some(v));
        proof {
            self.lemma_cached_at(i as int);
            assert forall|n: Seq<u8>| n != name implies #[trigger] self.cached(n) == old(self).cached(n) by {
                if exists|k: int| 0 <= k < self.toc@.len() && self.toc@[k].0 == n {
                    let k = choose|k: int| 0 <= k < self.toc@.len() && self.toc@[k].0 == n;
                    assert(k != i);
                }
            }
            assert forall|k: int| #[trigger] self.queue(k) == match old(self).queue(k) {
                Some(q) => Some(q.push((name, v))),
                None => None,
            } by {}
        }
    }

    /// The WRITE request that sets `name` to `value`. `ParamError(NotFound)`
    /// for an unknown name, `ParamError(TypeMismatch)` where the value's type
    /// is not the parameter's.
    pub fn set_request(&self, name: &[u8], value: Value) -> (r: Result<Packet, Error>)
        requires
            self.wf(),
        ensures
            toc_lookup(self.toc_view(), name@) is None ==> r == Err::<Packet, Error>(
                Error::ParamError(ParamFault::NotFound),
            ),
            toc_lookup(self.toc_view(), name@) matches Some(e) ==> (if type_of(value)
                == param_info_spec(e.1)->0.item_type {
                r matches Ok(p) && p.wf() && p.port == 2 && p.channel == 2 && p.data@ == id_bytes(
                    e.0,
                ) + encode(value)
            } else {
                r == Err::<Packet, Error>(Error::ParamError(ParamFault::TypeMismatch))
            }),
    {
        match self.lookup(name) {
            Ok((_, id, info)) => {
                if value.value_type() != info.item_type {
                    Err(Error::ParamError(ParamFault::TypeMismatch))
                } else {
                    Ok(write_request(id, value))
                }
            },
            Err(e) => Err(e),
        }
    }

    /// Settles a write of `value` to `name` from the device's reply `answer`.
    /// On success the cache holds `value` and every active watcher has
    /// `(name, value)` queued once; on failure nothing changes.
    pub fn complete_set(&mut self, name: &[u8], value: Value, answer: &[u8]) -> (r: Result<(), Error>)
        requires
            old(self).wf(),
        ensures
            final(self).wf(),
            final(self).toc_view() == old(self).toc_view(),
            toc_lookup(old(self).toc_view(), name@) is None ==> r == Err::<(), Error>(
                Error::ParamError(ParamFault::NotFound),
            ),
            toc_lookup(old(self).toc_view(), name@) matches Some(e) ==> (if type_of(value)
                != param_info_spec(e.1)->0.item_type {
                r == Err::<(), Error>(Error::ParamError(ParamFault::TypeMismatch))
            } else {
                r == write_outcome_spec(value, answer@)
            }),
            r is Ok ==> set_post(*old(self), *final(self), name@, value),
            r is Err ==> *final(self) == *old(self),
    {
        match self.lookup(name) {
            Ok((i, _, info)) => {
                if value.value_type() != info.item_type {
                    return Err(Error::ParamError(ParamFault::TypeMismatch));
                }
                match write_outcome(value, answer) {
                    Ok(()) => {
                        self.store_and_notify(i, value);
                        Ok(())
                    },
                    Err(e) => Err(e),
                }
            },
            Err(e) => Err(e),
        }
    }

    /// Settles a READ of `name` from its reply: the value is cached and
    /// returned.
    pub fn complete_read(&mut self, name: &[u8], answer: &[u8]) -> (r: Result<Value, Error>)
        requires
            old(self).wf(),
        ensures
            final(self).wf(),
            final(self).toc_view() == old(self).toc_view(),
            toc_lookup(old(self).toc_view(), name@) is None ==> r == Err::<Value, Error>(
                Error::ParamError(ParamFault::NotFound),
            ),
            toc_lookup(old(self).toc_view(), name@) matches Some(e) ==> r == read_reply_spec(
                answer@,
                param_info_spec(e.1)->0.item_type,
            ),
            r matches Ok(v) ==> final(self).cached(name@) == Some(v),
            r is Err ==> *final(self) == *old(self),
    {
        match self.lookup(name) {
            Ok((i, _, info)) => {
                match read_reply_value(answer, info.item_type) {
                    Ok(v) => {
                        proof {
                            crate::value::lemma_codec_round_trip(
                                info.item_type,
                                answer@.subrange(3, answer@.len() as int),
                            );
                        }
                        self.values.set(i, Some(v));
                        proof {
                            self.lemma_cached_at(i as int);
                        }
                        Ok(v)
                    },
                    Err(e) => Err(e),
                }
            },
            Err(e) => Err(e),
        }
    }

    /// Applies an update frame from the MISC channel: the parameter with that
    /// id takes the value, and every active watcher is told. Returns the
    /// name and value, or `None` where the frame is not a well-formed update
    /// of a known parameter (then nothing changes).
    pub fn apply_update(&mut self, data: &[u8]) -> (r: Option<(Vec<u8>, Value)>)
        requires
            old(self).wf(),
        ensures
            final(self).wf(),
            final(self).toc_view() == old(self).toc_view(),
            match update_of(old(self).toc_view(), data@) {
                Some(u) => r matches Some(x) && x.0@ == u.0 && x.1 == u.1 && set_post(
                    *old(self),
                    *final(self),
                    u.0,
                    u.1,
                ),
                None => r is None && *final(self) == *old(self),
            },
    {
        match classify_misc(data) {
            MiscFrame::Update(id) => {
                match self.toc.find_id(id) {
                    Some(i) => {
                        let t = self.infos[i].item_type;
                        let tail = slice_from(data, 3);
                        match Value::from_le_bytes(tail.as_slice(), t) {
                            Ok(v) => {
                                proof {
                                    crate::value::lemma_codec_round_trip(t, tail@);
                                    crate::toc::lemma_lookup_at(self.toc@, i as int);
                                }
                                let ent = self.toc.entry(i);
                                let nm = slice_from(ent.name.as_slice(), 0);
                                proof {
                                    assert(self.toc@[i as int] == entry_view(*ent));
                                    assert(nm@ =~= self.toc@[i as int].0);
                                }
                                self.store_and_notify(i, v);
                                Some((nm, v))
                            },
                            Err(_) => None,
                        }
                    },
                    None => None,
                }
            },
            _ => None,
        }
    }

    /// Opens a watcher and returns its slot; it starts with no notification.
    pub fn watch(&mut self) -> (r: usize)
        requires
            old(self).wf(),
        ensures
            final(self).wf(),
            final(self).toc_view() == old(self).toc_view(),
            forall|n: Seq<u8>| #[trigger] final(self).cached(n) == old(self).cached(n),
            r == old(self).watcher_slots(),
            final(self).watcher_slots() == old(self).watcher_slots() + 1,
            final(self).queue(r as int) == Some(Seq::<(Seq<u8>, Value)>::empty()),
            forall|w: int| w != r ==> #[trigger] final(self).queue(w) == old(self).queue(w),
    {
        let q: Vec<(Vec<u8>, Value)> = Vec::new();
        assert(queue_view(q) =~= Seq::<(Seq<u8>, Value)>::empty());
        self.watchers.push(Some(q));
        self.watchers.len() - 1
    }

    /// Takes the pending notifications of watcher `w`, oldest first.
    pub fn take_notifications(&mut self, w: usize) -> (r: Vec<(Vec<u8>, Value)>)
        requires
            old(self).wf(),
        ensures
            final(self).wf(),
            final(self).toc_view() == old(self).toc_view(),
            forall|n: Seq<u8>| #[trigger] final(self).cached(n) == old(self).cached(n),
            final(self).watcher_slots() == old(self).watcher_slots(),
            old(self).queue(w as int) matches Some(q) ==> (queue_view(r) == q && final(self).queue(
                w as int,
            ) == Some(Seq::<(Seq<u8>, Value)>::empty())),
            old(self).queue(w as int) is None ==> r@.len() == 0 && final(self).queue(w as int)
                is None,
            forall|k: int| k != w ==> #[trigger] final(self).queue(k) == old(self).queue(k),
    {
        if w >= self.watchers.len() {
            return Vec::new();
        }
        let slot = self.watchers[w].take();
        match slot {
            Some(q) => {
                let e: Vec<(Vec<u8>, Value)> = Vec::new();
                assert(queue_view(e) =~= Seq::<(Seq<u8>, Value)>::empty());
                self.watchers.set(w, Some(e));
                q
            },
            None => {
                self.watchers.set(w, None);
                assert(self.watchers@ =~= old(self).watchers@);
                Vec::new()
            },
        }
    }

    /// Closes watcher `w`: it is told of nothing more.
    pub fn unwatch(&mut self, w: usize)
        requires
            old(self).wf(),
        ensures
            final(self).wf(),
            final(self).toc_view() == old(self).toc_view(),
            forall|n: Seq<u8>| #[trigger] final(self).cached(n) == old(self).cached(n),
            final(self).watcher_slots() == old(self).watcher_slots(),
            final(self).queue(w as int) is None,
            forall|k: int| k != w ==> #[trigger] final(self).queue(k) == old(self).queue(k),
    {
        if w < self.watchers.len() {
            self.watchers.set(w, None);
        }
    }
}

/// The parameter and value that a MISC frame announces: an update frame
/// for the id of the first item with that id, whose value bytes have the
/// width of its type.
pub open spec fn update_of(toc: Seq<(Seq<u8>, u16, u8)>, data: Seq<u8>) -> Option<(Seq<u8>, Value)> {
    match classify_misc_spec(data) {
        MiscFrame::Update(id) => match first_id(toc, id) {
            Some(i) => match param_info_spec(toc[i].2) {
                Some(info) => if data.len() - 3 == byte_len(info.item_type) {
                    Some((toc[i].0, decode(data.subrange(3, data.len() as int), info.item_type)))
                } else {
                    None
                },
                None => None,
            },
            None => None,
        },
        _ => None,
    }
}

/// `after` is `before` with `name` set to `v`: the cache holds `v` for `name`
/// and every other value unchanged, and each active watcher has `(name, v)`
/// queued once more.
pub open spec fn set_post(before: Param, after: Param, name: Seq<u8>, v: Value) -> bool {
    &&& after.toc_view() == before.toc_view()
    &&& after.cached(name) == Some(v)
    &&& forall|n: Seq<u8>| n != name ==> #[trigger] after.cached(n) == before.cached(n)
    &&& after.watcher_slots() == before.watcher_slots()
    &&& forall|w: int| #[trigger]
        after.queue(w) == match before.queue(w) {
            Some(q) => Some(q.push((name, v))),
            None => None,
        }
}

/// After a successful set of `name` to `v`, a read of `name` is served from
/// the cache with `v`, and every active watcher finds `(name, v)` exactly
/// once at the end of its queue.
pub proof fn lemma_set_then_get(before: Param, after: Param, name: Seq<u8>, v: Value, w: int)
    requires
        set_post(before, after, name, v),
        before.queue(w) is Some,
    ensures
        after.cached(name) == Some(v),
        after.queue(w) matches Some(q) && q.len() == before.queue(w)->0.len() + 1 && q.last() == (
            name,
            v,
        ) && q.subrange(0, q.len() - 1) == before.queue(w)->0,
{
    let q0 = before.queue(w)->0;
    assert(after.queue(w) == Some(q0.push((name, v))));
    assert(q0.push((name, v)).subrange(0, q0.len() as int) =~= q0);
}

} // verus!

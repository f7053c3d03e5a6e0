//! Memory subsystem: discovery replies, chunked reads and writes, and the
//! slots that lend each memory to at most one view at a time.
use vstd::prelude::*;
use crate::bytes::{le32_at, slice_range};
use crate::error::{Error, MemoryFault};
use crate::packet::{Packet, MEMORY_PORT};

verus! {

const INFO_CHANNEL: u8 = 0;
const READ_CHANNEL: u8 = 1;
const WRITE_CHANNEL: u8 = 2;
const CMD_INFO_NBR: u8 = 1;
const CMD_INFO_DETAILS: u8 = 2;

/// Largest number of data bytes in one read or write request.
pub const MEM_MAX_REQUEST_SIZE: u32 = 24;

/// The kind of a memory.
#[derive(Clone, Copy, Debug, PartialEq, Eq, Structural)]
pub enum MemoryType {
    EEPROMConfig,
    OneWire,
    DriverLed,
    Loco,
    Trajectory,
    Loco2,
    Lighthouse,
    MemoryTester,
    DriverLedTiming,
    App,
    DeckMemory,
    DeckCtrlDFU,
    DeckMultiranger,
    DeckPaa3905,
    Unknown,
}

/// The kind that a type byte names.
pub open spec fn memory_type_spec(b: u8) -> MemoryType {
    if b == 0x00 {
        MemoryType::EEPROMConfig
    } else if b == 0x01 {
        MemoryType::OneWire
    } else if b == 0x10 {
        MemoryType::DriverLed
    } else if b == 0x11 {
        MemoryType::Loco
    } else if b == 0x12 {
        MemoryType::Trajectory
    } else if b == 0x13 {
        MemoryType::Loco2
    } else if b == 0x14 {
        MemoryType::Lighthouse
    } else if b == 0x15 {
        MemoryType::MemoryTester
    } else if b == 0x17 {
        MemoryType::DriverLedTiming
    } else if b == 0x18 {
        MemoryType::App
    } else if b == 0x19 {
        MemoryType::DeckMemory
    } else if b == 0x20 {
        MemoryType::DeckCtrlDFU
    } else if b == 0x1A {
        MemoryType::DeckMultiranger
    } else if b == 0x1B {
        MemoryType::DeckPaa3905
    } else {
        MemoryType::Unknown
    }
}

/// The readable name of a kind.
pub open spec fn memory_type_name(t: MemoryType) -> Seq<char> {
    match t {
        MemoryType::EEPROMConfig => "EEPROM config"@,
        MemoryType::OneWire => "1-Wire"@,
        MemoryType::DriverLed => "Driver LED"@,
        MemoryType::Loco => "Loco"@,
        MemoryType::Trajectory => "Trajectory"@,
        MemoryType::Loco2 => "Loco2"@,
        MemoryType::Lighthouse => "Lighthouse"@,
        MemoryType::MemoryTester => "Memory Tester"@,
        MemoryType::DriverLedTiming => "Driver LED Timing"@,
        MemoryType::App => "Application"@,
        MemoryType::DeckMemory => "Deck Memory"@,
        MemoryType::DeckCtrlDFU => "Deck Ctrl DFU"@,
        MemoryType::DeckMultiranger => "Deck Multiranger"@,
        MemoryType::DeckPaa3905 => "Deck PAA3905"@,
        MemoryType::Unknown => "Unknown"@,
    }
}

impl MemoryType {
    /// The kind that type byte `b` names; `Unknown` for any other byte.
    pub fn from_byte(b: u8) -> (r: MemoryType)
        ensures
            r == memory_type_spec(b),
    {
        match b {
            0x00 => MemoryType::EEPROMConfig,
            0x01 => MemoryType::OneWire,
            0x10 => MemoryType::DriverLed,
            0x11 => MemoryType::Loco,
            0x12 => MemoryType::Trajectory,
            0x13 => MemoryType::Loco2,
            0x14 => MemoryType::Lighthouse,
            0x15 => MemoryType::MemoryTester,
            0x17 => MemoryType::DriverLedTiming,
            0x18 => MemoryType::App,
            0x19 => MemoryType::DeckMemory,
            0x20 => MemoryType::DeckCtrlDFU,
            0x1A => MemoryType::DeckMultiranger,
            0x1B => MemoryType::DeckPaa3905,
            _ => MemoryType::Unknown,
        }
    }

    /// A readable name of the kind.
    pub fn name(&self) -> (r: &'static str)
        ensures
            r@ == memory_type_name(*self),
    {
        match self {
            MemoryType::EEPROMConfig => "EEPROM config",
            MemoryType::OneWire => "1-Wire",
            MemoryType::DriverLed => "Driver LED",
            MemoryType::Loco => "Loco",
            MemoryType::Trajectory => "Trajectory",
            MemoryType::Loco2 => "Loco2",
            MemoryType::Lighthouse => "Lighthouse",
            MemoryType::MemoryTester => "Memory Tester",
            MemoryType::DriverLedTiming => "Driver LED Timing",
            MemoryType::App => "Application",
            MemoryType::DeckMemory => "Deck Memory",
            MemoryType::DeckCtrlDFU => "Deck Ctrl DFU",
            MemoryType::DeckMultiranger => "Deck Multiranger",
            MemoryType::DeckPaa3905 => "Deck PAA3905",
            MemoryType::Unknown => "Unknown",
        }
    }
}

/// A memory of the device.
#[derive(Clone, Copy, Debug, PartialEq, Eq, Structural)]
pub struct MemoryDevice {
    /// Identifier used in every request.
    pub memory_id: u8,
    /// Kind of memory.
    pub memory_type: MemoryType,
    /// Size in bytes.
    pub size: u32,
}

/// The request for the number of memories.
pub fn info_count_request() -> (r: Packet)
    ensures
        r.wf(),
        r.port == 4 && r.channel == 0 && r.data@ == seq![1u8],
{
    Packet { port: MEMORY_PORT, channel: INFO_CHANNEL, data: vec![CMD_INFO_NBR] }
}

/// Reads the number of memories; `ProtocolError` for a malformed reply.
pub fn parse_info_count(data: &[u8]) -> (r: Result<u8, Error>)
    ensures
        (data@.len() >= 2 && data@[0] == 1) ==> r == Ok::<u8, Error>(data@[1]),
        !(data@.len() >= 2 && data@[0] == 1) ==> r == Err::<u8, Error>(Error::ProtocolError),
{
    if data.len() >= 2 && data[0] == CMD_INFO_NBR {
        Ok(data[1])
    } else {
        Err(Error::ProtocolError)
    }
}

/// The request for the details of memory number `i`.
pub fn info_details_request(i: u8) -> (r: Packet)
    ensures
        r.wf(),
        r.port == 4 && r.channel == 0 && r.data@ == seq![2u8, i],
{
    Packet { port: MEMORY_PORT, channel: INFO_CHANNEL, data: vec![CMD_INFO_DETAILS, i] }
}

/// Reads the details of a memory: id, type byte, size.
pub fn parse_info_details(data: &[u8]) -> (r: Result<MemoryDevice, Error>)
    ensures
        (data@.len() >= 7 && data@[0] == 2) ==> r == Ok::<MemoryDevice, Error>(
            MemoryDevice {
                memory_id: data@[1],
                memory_type: memory_type_spec(data@[2]),
                size: le32_at(data@, 3),
            },
        ),
        !(data@.len() >= 7 && data@[0] == 2) ==> r == Err::<MemoryDevice, Error>(
            Error::ProtocolError,
        ),
{
    if data.len() < 7 || data[0] != CMD_INFO_DETAILS {
        return Err(Error::ProtocolError);
    }
    let size = data[3] as u32 + 256 * data[4] as u32 + 65536 * data[5] as u32 + 16777216
        * data[6] as u32;
    Ok(MemoryDevice { memory_id: data[1], memory_type: MemoryType::from_byte(data[2]), size })
}

/// The devices of `all` of kind `filter` (all of them for `None`), in order.
pub fn get_memories(all: &[MemoryDevice], filter: Option<MemoryType>) -> (r: Vec<MemoryDevice>)
    ensures
        filter is None ==> r@ == all@,
        filter matches Some(t) ==> r@ == all@.filter(|m: MemoryDevice| m.memory_type == t),
{
    let mut out: Vec<MemoryDevice> = Vec::new();
    let mut i: usize = 0;
    while i < all.len()
        invariant
            i <= all@.len(),
            filter is None ==> out@ == all@.subrange(0, i as int),
            filter matches Some(t) ==> out@ == all@.subrange(0, i as int).filter(
                |m: MemoryDevice| m.memory_type == t,
            ),
        decreases all@.len() - i,
    {
        let m = all[i];
        proof {
            assert(all@.subrange(0, i + 1) =~= all@.subrange(0, i as int).push(m));
            if let Some(t) = filter {
                all@.subrange(0, i as int).lemma_filter_push(m, |m: MemoryDevice| m.memory_type == t);
            }
        }
        match filter {
            None => out.push(m),
            Some(t) => {
                if m.memory_type == t {
                    out.push(m);
                }
            },
        }
        i = i + 1;
    }
    assert(all@.subrange(0, all@.len() as int) =~= all@);
    out
}

/// The memory that a read or write response on `channel` belongs to: its
/// first byte, where the packet is on the memory port and that channel and
/// carries at least one byte.
pub fn response_memory_id(pk: &Packet, channel: u8) -> (r: Option<u8>)
    ensures
        (pk.port == 4 && pk.channel == channel && pk.data@.len() >= 1) ==> r == Some(pk.data@[0]),
        !(pk.port == 4 && pk.channel == channel && pk.data@.len() >= 1) ==> r is None,
{
    if pk.port == MEMORY_PORT && pk.channel == channel && pk.data.len() >= 1 {
        Some(pk.data[0])
    } else {
        None
    }
}

/// The four little-endian bytes of `a`.
pub open spec fn addr_bytes(a: u32) -> Seq<u8> {
    seq![(a % 256) as u8, ((a / 256) % 256) as u8, ((a / 65536) % 256) as u8, (a / 16777216) as u8]
}

fn push_addr(out: &mut Vec<u8>, a: u32)
    ensures
        final(out)@ == old(out)@ + addr_bytes(a),
{
    out.push((a % 256) as u8);
    out.push(((a / 256) % 256) as u8);
    out.push(((a / 65536) % 256) as u8);
    out.push((a / 16777216) as u8);
    assert(out@ =~= old(out)@ + addr_bytes(a));
}

/// The size of the chunk that starts `done` bytes into a transfer of `total`.
pub open spec fn chunk_len(done: nat, total: nat) -> nat {
    if total - done < 24 {
        (total - done) as nat
    } else {
        24
    }
}

/// A read of `length` bytes from `address` of one memory, done in chunks of
/// at most 24 bytes, one request at a time.
pub struct MemoryRead {
    memory_id: u8,
    address: u32,
    length: u32,
    data: Vec<u8>,
}

impl MemoryRead {
    /// The memory read.
    pub closed spec fn memory_id_spec(&self) -> u8 {
        self.memory_id
    }

    /// The first address.
    pub closed spec fn address_spec(&self) -> u32 {
        self.address
    }

    /// Bytes to read in all.
    pub closed spec fn length_spec(&self) -> nat {
        self.length as nat
    }

    /// Bytes read so far, in address order.
    pub closed spec fn received(&self) -> Seq<u8> {
        self.data@
    }

    /// The read stays in the 32-bit address space and has not read too much.
    pub closed spec fn wf(&self) -> bool {
        self.address + self.length <= 0xFFFF_FFFF && self.data@.len() <= self.length
    }

    /// A read of `length` bytes from `address` of memory `memory_id`.
    pub fn new(memory_id: u8, address: u32, length: u32) -> (r: MemoryRead)
        requires
            address + length <= 0xFFFF_FFFF,
        ensures
            r.wf(),
            r.memory_id_spec() == memory_id,
            r.address_spec() == address,
            r.length_spec() == length,
            r.received().len() == 0,
    {
        MemoryRead { memory_id, address, length, data: Vec::new() }
    }

    /// Bytes read so far and bytes to read in all, for a progress report.
    pub fn progress(&self) -> (r: (u32, u32))
        requires
            self.wf(),
        ensures
            r.0 == self.received().len() && r.1 == self.length_spec(),
    {
        (self.data.len() as u32, self.length)
    }

    /// Whether every byte has been read.
    pub fn is_done(&self) -> (r: bool)
        requires
            self.wf(),
        ensures
            r == (self.received().len() == self.length_spec()),
    {
        self.data.len() as u32 == self.length
    }

    /// The request for the next chunk: `id ∥ address ∥ length`, or `None`
    /// when every byte has been read.
    pub fn next_request(&self) -> (r: Option<Packet>)
        requires
            self.wf(),
        ensures
            self.received().len() == self.length_spec() ==> r is None,
            self.received().len() < self.length_spec() ==> (r matches Some(p) && p.wf() && p.port
                == 4 && p.channel == 1 && p.data@ == seq![self.memory_id_spec()] + addr_bytes(
                (self.address_spec() + self.received().len()) as u32,
            ) + seq![chunk_len(self.received().len(), self.length_spec()) as u8]),
    {
        let done = self.data.len() as u32;
        if done == self.length {
            return None;
        }
        let remaining = self.length - done;
        let n: u32 = if remaining < MEM_MAX_REQUEST_SIZE { remaining } else { MEM_MAX_REQUEST_SIZE };
        let mut data: Vec<u8> = vec![self.memory_id];
        push_addr(&mut data, self.address + done);
        data.push(n as u8);
        Some(Packet { port: MEMORY_PORT, channel: READ_CHANNEL, data })
    }

    /// Takes the reply to the outstanding chunk: `id ∥ address ∥ status ∥
    /// bytes`. A non-zero status aborts with `MemoryError(Status)`; a reply
    /// for another address or of the wrong size with `MemoryError(Malformed)`.
    /// On success the bytes are appended.
    pub fn on_response(&mut self, answer: &[u8]) -> (r: Result<(), Error>)
        requires
            old(self).wf(),
            old(self).received().len() < old(self).length_spec(),
        ensures
            final(self).wf(),
            final(self).memory_id_spec() == old(self).memory_id_spec(),
            final(self).address_spec() == old(self).address_spec(),
            final(self).length_spec() == old(self).length_spec(),
            answer@.len() >= 6 && answer@[5] != 0 ==> r == Err::<(), Error>(
                Error::MemoryError(MemoryFault::Status(answer@[5])),
            ),
            answer@.len() >= 6 && answer@[5] == 0 && le32_at(answer@, 1) == old(
                self,
            ).address_spec() + old(self).received().len() && answer@.len() - 6 == chunk_len(
                old(self).received().len(),
                old(self).length_spec(),
            ) ==> r is Ok,
            answer@.len() < 6 ==> r == Err::<(), Error>(Error::MemoryError(MemoryFault::Malformed)),
            answer@.len() >= 6 && answer@[5] == 0 && !(le32_at(answer@, 1) == old(self).address_spec()
                + old(self).received().len() && answer@.len() - 6 == chunk_len(
                old(self).received().len(),
                old(self).length_spec(),
            )) ==> r == Err::<(), Error>(Error::MemoryError(MemoryFault::Malformed)),
            r is Ok ==> final(self).received() == old(self).received() + answer@.subrange(
                6,
                answer@.len() as int,
            ),
            r is Err ==> final(self).received() == old(self).received(),
    {
        if answer.len() < 6 {
            return Err(Error::MemoryError(MemoryFault::Malformed));
        }
        let status = answer[5];
        if status != 0 {
            return Err(Error::MemoryError(MemoryFault::Status(status)));
        }
        let done = self.data.len() as u32;
        let addr = answer[1] as u32 + 256 * answer[2] as u32 + 65536 * answer[3] as u32 + 16777216
            * answer[4] as u32;
        let remaining = self.length - done;
        let n: u32 = if remaining < MEM_MAX_REQUEST_SIZE { remaining } else { MEM_MAX_REQUEST_SIZE };
        if addr != self.address + done || answer.len() - 6 != n as usize {
            return Err(Error::MemoryError(MemoryFault::Malformed));
        }
        let mut i: usize = 6;
        let ghost start = self.data@;
        while i < answer.len()
            invariant
                6 <= i <= answer@.len(),
                self.data@ == start + answer@.subrange(6, i as int),
                self.address == old(self).address,
                self.length == old(self).length,
                self.memory_id == old(self).memory_id,
                start == old(self).data@,
            decreases answer@.len() - i,
        {
            self.data.push(answer[i]);
            i = i + 1;
            assert(self.data@ =~= start + answer@.subrange(6, i as int));
        }
        Ok(())
    }

    /// The bytes read.
    pub fn into_data(self) -> (r: Vec<u8>)
        ensures
            r@ == self.received(),
    {
        self.data
    }
}

/// A write of `data` at `address` of one memory, in chunks of at most 24
/// bytes, one request at a time.
pub struct MemoryWrite {
    memory_id: u8,
    address: u32,
    data: Vec<u8>,
    done: u32,
}

impl MemoryWrite {
    /// The memory written.
    pub closed spec fn memory_id_spec(&self) -> u8 {
        self.memory_id
    }

    /// The first address.
    pub closed spec fn address_spec(&self) -> u32 {
        self.address
    }

    /// The bytes to write.
    pub closed spec fn content(&self) -> Seq<u8> {
        self.data@
    }

    /// Bytes acknowledged so far.
    pub closed spec fn done_spec(&self) -> nat {
        self.done as nat
    }

    /// The write stays in the 32-bit address space.
    pub closed spec fn wf(&self) -> bool {
        self.address + self.data@.len() <= 0xFFFF_FFFF && self.done <= self.data@.len()
    }

    /// A write of `data` at `address` of memory `memory_id`.
    pub fn new(memory_id: u8, address: u32, data: Vec<u8>) -> (r: MemoryWrite)
        requires
            address + data@.len() <= 0xFFFF_FFFF,
        ensures
            r.wf(),
            r.memory_id_spec() == memory_id,
            r.address_spec() == address,
            r.content() == data@,
            r.done_spec() == 0,
    {
        MemoryWrite { memory_id, address, data, done: 0 }
    }

    /// Bytes written so far and bytes to write in all.
    pub fn progress(&self) -> (r: (u32, u32))
        requires
            self.wf(),
        ensures
            r.0 == self.done_spec() && r.1 == self.content().len(),
    {
        (self.done, self.data.len() as u32)
    }

    /// Whether every byte has been written.
    pub fn is_done(&self) -> (r: bool)
        requires
            self.wf(),
        ensures
            r == (self.done_spec() == self.content().len()),
    {
        self.done as usize == self.data.len()
    }

    /// The request for the next chunk: `id ∥ address ∥ bytes`, or `None`
    /// when every byte has been written.
    pub fn next_request(&self) -> (r: Option<Packet>)
        requires
            self.wf(),
        ensures
            self.done_spec() == self.content().len() ==> r is None,
            self.done_spec() < self.content().len() ==> (r matches Some(p) && p.wf() && p.port == 4
                && p.channel == 2 && p.data@ == seq![self.memory_id_spec()] + addr_bytes(
                (self.address_spec() + self.done_spec()) as u32,
            ) + self.content().subrange(
                self.done_spec() as int,
                (self.done_spec() + chunk_len(self.done_spec(), self.content().len())) as int,
            )),
    {
        let total = self.data.len() as u32;
        if self.done == total {
            return None;
        }
        let remaining = total - self.done;
        let n: u32 = if remaining < MEM_MAX_REQUEST_SIZE { remaining } else { MEM_MAX_REQUEST_SIZE };
        let mut data: Vec<u8> = vec![self.memory_id];
        push_addr(&mut data, self.address + self.done);
        let chunk = slice_range(self.data.as_slice(), self.done as usize, (self.done + n) as usize);
        let mut i: usize = 0;
        let ghost head = data@;
        while i < chunk.len()
            invariant
                i <= chunk@.len(),
                chunk@.len() <= 24,
                data@ == head + chunk@.subrange(0, i as int),
                head.len() == 5,
            decreases chunk@.len() - i,
        {
            data.push(chunk[i]);
            i = i + 1;
            assert(data@ =~= head + chunk@.subrange(0, i as int));
        }
        assert(chunk@.subrange(0, chunk@.len() as int) =~= chunk@);
        Some(Packet { port: MEMORY_PORT, channel: WRITE_CHANNEL, data })
    }

    /// Takes the reply to the outstanding chunk: `id ∥ address ∥ status`.
    /// A non-zero status aborts with `MemoryError(Status)`; a reply for
    /// another address with `MemoryError(Malformed)`. On success the chunk
    /// counts as written.
    pub fn on_response(&mut self, answer: &[u8]) -> (r: Result<(), Error>)
        requires
            old(self).wf(),
            old(self).done_spec() < old(self).content().len(),
        ensures
            final(self).wf(),
            final(self).memory_id_spec() == old(self).memory_id_spec(),
            final(self).address_spec() == old(self).address_spec(),
            final(self).content() == old(self).content(),
            answer@.len() >= 6 && answer@[5] != 0 ==> r == Err::<(), Error>(
                Error::MemoryError(MemoryFault::Status(answer@[5])),
            ),
            answer@.len() >= 6 && answer@[5] == 0 && le32_at(answer@, 1) == old(self).address_spec()
                + old(self).done_spec() ==> r is Ok,
            answer@.len() < 6 ==> r == Err::<(), Error>(Error::MemoryError(MemoryFault::Malformed)),
            answer@.len() >= 6 && answer@[5] == 0 && le32_at(answer@, 1) != old(self).address_spec()
                + old(self).done_spec() ==> r == Err::<(), Error>(
                Error::MemoryError(MemoryFault::Malformed),
            ),
            r is Ok ==> final(self).done_spec() == old(self).done_spec() + chunk_len(
                old(self).done_spec(),
                old(self).content().len(),
            ),
            r is Err ==> final(self).done_spec() == old(self).done_spec(),
    {
        if answer.len() < 6 {
            return Err(Error::MemoryError(MemoryFault::Malformed));
        }
        let status = answer[5];
        if status != 0 {
            return Err(Error::MemoryError(MemoryFault::Status(status)));
        }
        let addr = answer[1] as u32 + 256 * answer[2] as u32 + 65536 * answer[3] as u32 + 16777216
            * answer[4] as u32;
        if addr != self.address + self.done {
            return Err(Error::MemoryError(MemoryFault::Malformed));
        }
        let total = self.data.len() as u32;
        let remaining = total - self.done;
        let n: u32 = if remaining < MEM_MAX_REQUEST_SIZE { remaining } else { MEM_MAX_REQUEST_SIZE };
        self.done = self.done + n;
        Ok(())
    }
}

/// What a memory's slot lends: the memory's id and kind. Holding it is the
/// right to talk to that memory; it is not copied.
#[derive(Debug)]
pub struct MemoryBackend {
    memory_id: u8,
    memory_type: MemoryType,
}

impl MemoryBackend {
    /// The id of the memory.
    pub closed spec fn id_spec(&self) -> u8 {
        self.memory_id
    }

    /// The kind of the memory.
    pub closed spec fn kind_spec(&self) -> MemoryType {
        self.memory_type
    }

    /// The id of the memory.
    pub fn memory_id(&self) -> (r: u8)
        ensures
            r == self.id_spec(),
    {
        self.memory_id
    }

    /// The kind of the memory.
    pub fn memory_type(&self) -> (r: MemoryType)
        ensures
            r == self.kind_spec(),
    {
        self.memory_type
    }
}

/// One slot per memory, holding its backend while no view has it.
pub struct Memory {
    devices: Vec<MemoryDevice>,
    slots: Vec<Option<MemoryBackend>>,
}

impl Memory {
    /// The memories, in discovery order.
    pub closed spec fn devices_view(&self) -> Seq<MemoryDevice> {
        self.devices@
    }

    /// Memory `id`'s backend is in its slot, free to lend.
    pub closed spec fn available(&self, id: u8) -> bool {
        (id as int) < self.slots@.len() && self.slots@[id as int] is Some
    }

    /// One slot per device, slot `i` for memory id `i`.
    pub closed spec fn wf(&self) -> bool {
        &&& self.slots@.len() == self.devices@.len()
        &&& forall|i: int|
            0 <= i < self.slots@.len() ==> self.devices@[i].memory_id == i && (
            #[trigger] self.slots@[i] matches Some(b) ==> b.memory_id == i && b.memory_type
                == self.devices@[i].memory_type)
    }

    /// Slots for memories found in order, each id being its position; every
    /// backend starts free. `ProtocolError` where an id is not its position.
    pub fn new(devices: Vec<MemoryDevice>) -> (r: Result<Memory, Error>)
        ensures
            (forall|i: int| 0 <= i < devices@.len() ==> #[trigger] devices@[i].memory_id == i) ==> (
            r matches Ok(s) && s.wf() && s.devices_view() == devices@ && forall|id: u8|
                #[trigger] s.available(id) == ((id as int) < devices@.len())),
            !(forall|i: int| 0 <= i < devices@.len() ==> #[trigger] devices@[i].memory_id == i)
                ==> r == Err::<Memory, Error>(Error::ProtocolError),
    {
        let mut slots: Vec<Option<MemoryBackend>> = Vec::new();
        let mut i: usize = 0;
        while i < devices.len()
            invariant
                i <= devices@.len(),
                slots@.len() == i,
                forall|k: int| 0 <= k < i ==> #[trigger] devices@[k].memory_id == k,
                forall|k: int|
                    0 <= k < i ==> (#[trigger] slots@[k] matches Some(b) && b.memory_id == k
                        && b.memory_type == devices@[k].memory_type),
            decreases devices@.len() - i,
        {
            let d = devices[i];
            if d.memory_id as usize != i {
                return Err(Error::ProtocolError);
            }
            slots.push(Some(MemoryBackend { memory_id: d.memory_id, memory_type: d.memory_type }));
            i = i + 1;
        }
        Ok(Memory { devices, slots })
    }

    /// The memories.
    pub fn devices(&self) -> (r: &[MemoryDevice])
        ensures
            r@ == self.devices_view(),
    {
        self.devices.as_slice()
    }

    /// The memories of kind `filter` (all of them for `None`), in order.
    pub fn get_memories(&self, filter: Option<MemoryType>) -> (r: Vec<MemoryDevice>)
        ensures
            filter is None ==> r@ == self.devices_view(),
            filter matches Some(t) ==> r@ == self.devices_view().filter(
                |m: MemoryDevice| m.memory_type == t,
            ),
    {
        get_memories(self.devices.as_slice(), filter)
    }

    /// Lends memory `id`'s backend. `MemoryError(UnknownId)` where there is
    /// no such memory, `MemoryError(InUse)` where a view already holds it.
    pub fn open(&mut self, id: u8) -> (r: Result<MemoryBackend, Error>)
        requires
            old(self).wf(),
        ensures
            final(self).wf(),
            final(self).devices_view() == old(self).devices_view(),
            (id as int) >= old(self).devices_view().len() ==> r == Err::<MemoryBackend, Error>(
                Error::MemoryError(MemoryFault::UnknownId),
            ),
            (id as int) < old(self).devices_view().len() && !old(self).available(id) ==> r
                == Err::<MemoryBackend, Error>(Error::MemoryError(MemoryFault::InUse)),
            r matches Ok(b) ==> open_result(*old(self), id) == Ok::<(u8, MemoryType), Error>(
                (b.id_spec(), b.kind_spec()),
            ),
            r matches Err(e) ==> open_result(*old(self), id) == Err::<(u8, MemoryType), Error>(e),
            old(self).available(id) ==> (r is Ok && !final(self).available(id)),
            forall|k: u8| k != id ==> #[trigger] final(self).available(k) == old(self).available(k),
            r is Err ==> forall|k: u8| #[trigger] final(self).available(k) == old(self).available(k),
    {
        if id as usize >= self.slots.len() {
            return Err(Error::MemoryError(MemoryFault::UnknownId));
        }
        let slot = self.slots[id as usize].take();
        match slot {
            Some(b) => {
                Ok(b)
            },
            None => {
                self.slots.set(id as usize, None);
                Err(Error::MemoryError(MemoryFault::InUse))
            },
        }
    }

    /// Opens memory `id` for a view that reads memories of kind `kind`:
    /// `MemoryError(WrongType)` where the memory is of another kind, and then
    /// the backend stays in its slot.
    pub fn open_memory(&mut self, id: u8, kind: MemoryType) -> (r: Result<MemoryBackend, Error>)
        requires
            old(self).wf(),
        ensures
            final(self).wf(),
            final(self).devices_view() == old(self).devices_view(),
            (id as int) >= old(self).devices_view().len() ==> r == Err::<MemoryBackend, Error>(
                Error::MemoryError(MemoryFault::UnknownId),
            ),
            (id as int) < old(self).devices_view().len() && old(self).devices_view()[id as int].memory_type
                != kind ==> r == Err::<MemoryBackend, Error>(
                Error::MemoryError(MemoryFault::WrongType),
            ),
            (id as int) < old(self).devices_view().len() && old(self).devices_view()[id as int].memory_type
                == kind && !old(self).available(id) ==> r == Err::<MemoryBackend, Error>(
                Error::MemoryError(MemoryFault::InUse),
            ),
            old(self).available(id) && old(self).devices_view()[id as int].memory_type == kind ==> (
            r matches Ok(b) && b.id_spec() == id && b.kind_spec() == kind && !final(self).available(id)),
            forall|k: u8| k != id ==> #[trigger] final(self).available(k) == old(self).available(k),
            r is Err ==> forall|k: u8| #[trigger] final(self).available(k) == old(self).available(k),
    {
        if id as usize >= self.devices.len() {
            return Err(Error::MemoryError(MemoryFault::UnknownId));
        }
        if self.devices[id as usize].memory_type != kind {
            return Err(Error::MemoryError(MemoryFault::WrongType));
        }
        self.open(id)
    }

    /// Puts a backend back in its slot. Returns `false`, and changes
    /// nothing, where the slot is already full or does not exist: closing
    /// twice does nothing.
    pub fn close_memory(&mut self, backend: MemoryBackend) -> (r: bool)
        requires
            old(self).wf(),
        ensures
            final(self).wf(),
            final(self).devices_view() == old(self).devices_view(),
            r == ((backend.id_spec() as int) < old(self).devices_view().len() && !old(self).available(
                backend.id_spec(),
            ) && backend.kind_spec() == old(self).devices_view()[backend.id_spec() as int].memory_type),
            r ==> final(self).available(backend.id_spec()),
            forall|k: u8| k != backend.id_spec() ==> #[trigger] final(self).available(k) == old(
                self,
            ).available(k),
            !r ==> forall|k: u8| #[trigger] final(self).available(k) == old(self).available(k),
    {
        let id = backend.memory_id as usize;
        if id >= self.slots.len() {
            return false;
        }
        if self.slots[id].is_some() || backend.memory_type != self.devices[id].memory_type {
            return false;
        }
        self.slots.set(id, Some(backend));
        true
    }
}

/// The reply that a memory holding `m` gives to a read of `l` bytes at `a`
/// of memory `id`: id, address, status 0, the bytes.
pub open spec fn faithful_read_reply(m: Seq<u8>, id: u8, a: u32, l: nat) -> Seq<u8> {
    seq![id] + addr_bytes(a) + seq![0u8] + m.subrange(a as int, a + l)
}

/// Against a memory holding `m`, a read that has assembled the bytes of `m`
/// from its first address on takes the memory's reply to its next chunk
/// (at most 24 bytes): the reply meets every condition of
/// `MemoryRead::on_response` for success, and the bytes assembled after it
/// are again those of `m`, one chunk further. By induction over the chunks,
/// a read of `length` bytes at `address` ends with `m[address..address +
/// length]`.
pub proof fn lemma_faithful_read_step(r: MemoryRead, m: Seq<u8>)
    requires
        r.wf(),
        r.received().len() < r.length_spec(),
        m.len() >= r.address_spec() + r.length_spec(),
        r.received() == m.subrange(
            r.address_spec() as int,
            r.address_spec() + r.received().len(),
        ),
    ensures
        ({
            let done = r.received().len();
            let c = chunk_len(done, r.length_spec());
            let a = r.address_spec() + done;
            let reply = faithful_read_reply(m, r.memory_id_spec(), a as u32, c);
            &&& 0 < c <= 24
            &&& reply.len() >= 6 && reply[5] == 0
            &&& le32_at(reply, 1) == a
            &&& reply.len() - 6 == c
            &&& r.received() + reply.subrange(6, reply.len() as int) == m.subrange(
                r.address_spec() as int,
                a + c,
            )
        }),
{
    let done = r.received().len();
    let c = chunk_len(done, r.length_spec());
    let a = r.address_spec() + done;
    let reply = faithful_read_reply(m, r.memory_id_spec(), a as u32, c);
    assert(reply.subrange(1, 5) =~= crate::memory_views::u32_bytes(a as u32));
    crate::memory_views::lemma_u32_bytes_le(reply, 1, a as u32);
    assert(reply.subrange(6, reply.len() as int) =~= m.subrange(a, a + c));
    assert(r.received() + reply.subrange(6, reply.len() as int) =~= m.subrange(
        r.address_spec() as int,
        a + c,
    ));
}

/// Bytes read after `k` chunks of a read of `length` bytes.
pub open spec fn done_after(length: nat, k: nat) -> nat
    decreases k,
{
    if k == 0 {
        0
    } else {
        let d = done_after(length, (k - 1) as nat);
        d + chunk_len(d, length)
    }
}

/// The bytes assembled after `k` chunks of a read of `length` bytes at
/// `address` of memory `id`, when a memory holding `m` answers each
/// request.
pub open spec fn assembled(m: Seq<u8>, id: u8, address: u32, length: nat, k: nat) -> Seq<u8>
    decreases k,
{
    if k == 0 {
        Seq::empty()
    } else {
        let d = done_after(length, (k - 1) as nat);
        let reply = faithful_read_reply(m, id, (address + d) as u32, chunk_len(d, length));
        assembled(m, id, address, length, (k - 1) as nat) + reply.subrange(6, reply.len() as int)
    }
}

proof fn lemma_assembled(m: Seq<u8>, id: u8, address: u32, length: nat, k: nat)
    requires
        address + length <= 0xFFFF_FFFF,
        m.len() >= address + length,
    ensures
        done_after(length, k) == if length < 24 * k { length } else { 24 * k },
        assembled(m, id, address, length, k) == m.subrange(
            address as int,
            address + done_after(length, k),
        ),
    decreases k,
{
    if k > 0 {
        lemma_assembled(m, id, address, length, (k - 1) as nat);
        let d = done_after(length, (k - 1) as nat);
        let c = chunk_len(d, length);
        let reply = faithful_read_reply(m, id, (address + d) as u32, c);
        assert(reply.subrange(6, reply.len() as int) =~= m.subrange(address + d, address + d + c));
        assert(assembled(m, id, address, length, k) =~= m.subrange(address as int, address + d + c));
    }
}

/// A read of `length` bytes at `address`, answered chunk by chunk by a
/// memory holding `m`, takes `ceil(length / 24)` requests of `min(24,
/// remaining)` bytes each (the sizes `next_request` asks for) and assembles
/// exactly `m[address..address + length]` (what `on_response` appends, each
/// reply being accepted by `lemma_faithful_read_step`).
pub proof fn lemma_faithful_read_complete(m: Seq<u8>, id: u8, address: u32, length: nat)
    requires
        address + length <= 0xFFFF_FFFF,
        m.len() >= address + length,
    ensures
        done_after(length, (length + 23) / 24) == length,
        forall|j: nat| j < (length + 23) / 24 ==> 0 < #[trigger] chunk_len(done_after(length, j), length) <= 24,
        assembled(m, id, address, length, (length + 23) / 24) == m.subrange(
            address as int,
            address + length,
        ),
{
    let k = (length + 23) / 24;
    assert(length <= 24 * k) by (nonlinear_arith)
        requires
            k == (length + 23) / 24,
    ;
    lemma_assembled(m, id, address, length, k);
    assert forall|j: nat| j < k implies 0 < #[trigger] chunk_len(done_after(length, j), length) <= 24 by {
        lemma_assembled(m, id, address, length, j);
        assert(24 * j < length) by (nonlinear_arith)
            requires
                j < k,
                k == (length + 23) / 24,
        ;
    }
}

/// What opening memory `id` returns: its id and kind, or the error.
pub open spec fn open_result(s: Memory, id: u8) -> Result<(u8, MemoryType), Error> {
    if (id as int) >= s.devices_view().len() {
        Err(Error::MemoryError(MemoryFault::UnknownId))
    } else if !s.available(id) {
        Err(Error::MemoryError(MemoryFault::InUse))
    } else {
        Ok((id, s.devices_view()[id as int].memory_type))
    }
}

/// Once memory `id` has been lent, opening it again fails with `InUse`
/// until its backend is closed: at any time at most one view holds a
/// memory.
pub proof fn lemma_at_most_one_loan(before: Memory, after: Memory, id: u8)
    requires
        open_result(before, id) is Ok,
        after.devices_view() == before.devices_view(),
        !after.available(id),
    ensures
        open_result(after, id) == Err::<(u8, MemoryType), Error>(
            Error::MemoryError(MemoryFault::InUse),
        ),
{
}

} // verus!

//! Layouts read from and written to typed memories: the EEPROM
//! configuration record, the deck memory section table, and small field
//! readers.
use vstd::prelude::*;
use crate::bytes::{le32_at, slice_range};
use crate::error::{Error, MemoryFault};

verus! {

/// Speed of the radio.
#[derive(Clone, Copy, Debug, PartialEq, Eq, Structural)]
pub enum RadioSpeed {
    R250Kbps,
    R1Mbps,
    R2Mbps,
}

/// The speed that a stored byte names.
pub open spec fn radio_speed_spec(b: u8) -> Option<RadioSpeed> {
    if b == 0 {
        Some(RadioSpeed::R250Kbps)
    } else if b == 1 {
        Some(RadioSpeed::R1Mbps)
    } else if b == 2 {
        Some(RadioSpeed::R2Mbps)
    } else {
        None
    }
}

/// The stored byte of a speed.
pub open spec fn radio_speed_byte(s: RadioSpeed) -> u8 {
    match s {
        RadioSpeed::R250Kbps => 0,
        RadioSpeed::R1Mbps => 1,
        RadioSpeed::R2Mbps => 2,
    }
}

impl RadioSpeed {
    /// The speed that byte `b` names; `MemoryError(InvalidRadioSpeed)` for
    /// any byte but 0, 1 and 2.
    pub fn try_from_byte(b: u8) -> (r: Result<RadioSpeed, Error>)
        ensures
            radio_speed_spec(b) matches Some(s) ==> r == Ok::<RadioSpeed, Error>(s),
            radio_speed_spec(b) is None ==> r == Err::<RadioSpeed, Error>(
                Error::MemoryError(MemoryFault::InvalidRadioSpeed(b)),
            ),
    {
        match b {
            0 => Ok(RadioSpeed::R250Kbps),
            1 => Ok(RadioSpeed::R1Mbps),
            2 => Ok(RadioSpeed::R2Mbps),
            _ => Err(Error::MemoryError(MemoryFault::InvalidRadioSpeed(b))),
        }
    }

    /// The stored byte of the speed.
    pub fn to_byte(&self) -> (r: u8)
        ensures
            r == radio_speed_byte(*self),
    {
        match self {
            RadioSpeed::R250Kbps => 0,
            RadioSpeed::R1Mbps => 1,
            RadioSpeed::R2Mbps => 2,
        }
    }

    /// A readable form of the speed.
    pub fn name(&self) -> (r: &'static str)
        ensures
            r@ == match *self {
                RadioSpeed::R250Kbps => "250 kbps"@,
                RadioSpeed::R1Mbps => "1 Mbps"@,
                RadioSpeed::R2Mbps => "2 Mbps"@,
            },
    {
        match self {
            RadioSpeed::R250Kbps => "250 kbps",
            RadioSpeed::R1Mbps => "1 Mbps",
            RadioSpeed::R2Mbps => "2 Mbps",
        }
    }
}

/// Number of bytes of the EEPROM configuration record.
pub const EEPROM_CONFIG_SIZE: usize = 21;

/// The four magic bytes that open the record: the text `0xBC`.
pub open spec fn eeprom_magic() -> Seq<u8> {
    seq![0x30u8, 0x78u8, 0x42u8, 0x43u8]
}

/// The sum of the bytes of `s`.
pub open spec fn byte_sum(s: Seq<u8>) -> nat
    decreases s.len(),
{
    if s.len() == 0 {
        0
    } else {
        byte_sum(s.drop_last()) + s.last() as nat
    }
}

/// The checksum of a record: the sum of its bytes, modulo 256.
pub open spec fn checksum_spec(s: Seq<u8>) -> u8 {
    (byte_sum(s) % 256) as u8
}

/// Checksum of `s`: the sum of its bytes, wrapping at 256.
pub fn checksum(s: &[u8]) -> (r: u8)
    ensures
        r == checksum_spec(s@),
{
    let mut acc: u8 = 0;
    let mut i: usize = 0;
    while i < s.len()
        invariant
            i <= s@.len(),
            acc == (byte_sum(s@.subrange(0, i as int)) % 256) as u8,
            acc < 256,
        decreases s@.len() - i,
    {
        proof {
            let pre = s@.subrange(0, i as int);
            let nxt = s@.subrange(0, i + 1);
            assert(nxt.drop_last() =~= pre);
            assert(byte_sum(nxt) == byte_sum(pre) + s@[i as int] as nat);
            assert((byte_sum(nxt) % 256) == ((byte_sum(pre) % 256) + s@[i as int] as nat) % 256)
                by (nonlinear_arith)
                requires
                    byte_sum(nxt) == byte_sum(pre) + s@[i as int] as nat,
            ;
        }
        acc = ((acc as u16 + s[i] as u16) % 256) as u8;
        i = i + 1;
    }
    assert(s@.subrange(0, s@.len() as int) =~= s@);
    acc
}

/// The EEPROM configuration record. The trims are the bit patterns of
/// single-precision floats.
#[derive(Clone, Copy, Debug)]
pub struct EEPROMConfigMemory {
    pub version: u8,
    pub radio_channel: u8,
    pub radio_speed: RadioSpeed,
    pub pitch_trim_bits: u32,
    pub roll_trim_bits: u32,
    pub radio_address: [u8; 5],
}

/// The four little-endian bytes of `a`.
pub open spec fn u32_bytes(a: u32) -> Seq<u8> {
    seq![(a % 256) as u8, ((a / 256) % 256) as u8, ((a / 65536) % 256) as u8, (a / 16777216) as u8]
}

/// The twenty bytes of a record before its checksum.
pub open spec fn eeprom_body(c: EEPROMConfigMemory) -> Seq<u8> {
    eeprom_magic() + seq![c.version, c.radio_channel, radio_speed_byte(c.radio_speed)] + u32_bytes(
        c.pitch_trim_bits,
    ) + u32_bytes(c.roll_trim_bits) + c.radio_address@
}

/// The stored bytes of a record: body and checksum.
pub open spec fn eeprom_bytes(c: EEPROMConfigMemory) -> Seq<u8> {
    eeprom_body(c).push(checksum_spec(eeprom_body(c)))
}

/// What reading the stored bytes `d` gives.
pub open spec fn eeprom_parse_spec(d: Seq<u8>) -> Result<EEPROMConfigMemory, Error> {
    if d.len() != 21 || d.subrange(0, 4) != eeprom_magic() {
        Err(Error::MemoryError(MemoryFault::Malformed))
    } else if radio_speed_spec(d[6]) is None {
        Err(Error::MemoryError(MemoryFault::InvalidRadioSpeed(d[6])))
    } else if checksum_spec(d.subrange(0, 20)) != d[20] {
        Err(Error::MemoryError(MemoryFault::ChecksumMismatch))
    } else {
        Ok(
            EEPROMConfigMemory {
                version: d[4],
                radio_channel: d[5],
                radio_speed: radio_speed_spec(d[6])->0,
                pitch_trim_bits: le32_at(d, 7),
                roll_trim_bits: le32_at(d, 11),
                radio_address: [d[15], d[16], d[17], d[18], d[19]],
            },
        )
    }
}

fn push_u32(out: &mut Vec<u8>, a: u32)
    ensures
        final(out)@ == old(out)@ + u32_bytes(a),
{
    out.push((a % 256) as u8);
    out.push(((a / 256) % 256) as u8);
    out.push(((a / 65536) % 256) as u8);
    out.push((a / 16777216) as u8);
    assert(out@ =~= old(out)@ + u32_bytes(a));
}

pub proof fn lemma_u32_bytes_le(s: Seq<u8>, off: int, a: u32)
    requires
        0 <= off,
        off + 4 <= s.len(),
        s.subrange(off, off + 4) == u32_bytes(a),
    ensures
        le32_at(s, off) == a,
{
    assert(s[off] == u32_bytes(a)[0]);
    assert(s[off + 1] == u32_bytes(a)[1]);
    assert(s[off + 2] == u32_bytes(a)[2]);
    assert(s[off + 3] == u32_bytes(a)[3]);
    let x = a as int;
    assert(x == x % 256 + 256 * ((x / 256) % 256) + 65536 * ((x / 65536) % 256) + 16777216 * (x
        / 16777216)) by (nonlinear_arith)
        requires
            0 <= x < 0x1_0000_0000,
    ;
}

impl EEPROMConfigMemory {
    /// The record of a memory that was never written: version 0, channel
    /// 80, 2 Mbps, no trim, address `E7E7E7E7E7`.
    pub fn initial() -> (r: EEPROMConfigMemory)
        ensures
            r.version == 0 && r.radio_channel == 80 && r.radio_speed == RadioSpeed::R2Mbps
                && r.pitch_trim_bits == 0 && r.roll_trim_bits == 0 && r.radio_address@ == seq![
                0xE7u8,
                0xE7u8,
                0xE7u8,
                0xE7u8,
                0xE7u8,
            ],
    {
        let r = EEPROMConfigMemory {
            version: 0,
            radio_channel: 80,
            radio_speed: RadioSpeed::R2Mbps,
            pitch_trim_bits: 0,
            roll_trim_bits: 0,
            radio_address: [0xE7, 0xE7, 0xE7, 0xE7, 0xE7],
        };
        assert(r.radio_address@ =~= seq![0xE7u8, 0xE7u8, 0xE7u8, 0xE7u8, 0xE7u8]);
        r
    }

    /// Reads a record from its 21 stored bytes. `MemoryError(Malformed)`
    /// for a wrong size or magic, `MemoryError(InvalidRadioSpeed)` for an
    /// unknown speed, `MemoryError(ChecksumMismatch)` where the checksum
    /// does not match.
    pub fn from_bytes(d: &[u8]) -> (r: Result<EEPROMConfigMemory, Error>)
        ensures
            r == eeprom_parse_spec(d@),
    {
        if d.len() != EEPROM_CONFIG_SIZE || d[0] != 0x30 || d[1] != 0x78 || d[2] != 0x42 || d[3]
            != 0x43 {
            proof {
                if d@.len() == 21 {
                    assert(d@.subrange(0, 4)[0] == d@[0]);
                    assert(d@.subrange(0, 4)[1] == d@[1]);
                    assert(d@.subrange(0, 4)[2] == d@[2]);
                    assert(d@.subrange(0, 4)[3] == d@[3]);
                }
            }
            return Err(Error::MemoryError(MemoryFault::Malformed));
        }
        assert(d@.subrange(0, 4) =~= eeprom_magic());
        let radio_speed = match RadioSpeed::try_from_byte(d[6]) {
            Ok(s) => s,
            Err(e) => {
                return Err(e);
            },
        };
        let body = slice_range(d, 0, 20);
        if checksum(body.as_slice()) != d[20] {
            return Err(Error::MemoryError(MemoryFault::ChecksumMismatch));
        }
        let pitch = d[7] as u32 + 256 * d[8] as u32 + 65536 * d[9] as u32 + 16777216 * d[10] as u32;
        let roll = d[11] as u32 + 256 * d[12] as u32 + 65536 * d[13] as u32 + 16777216 * d[14] as u32;
        Ok(
            EEPROMConfigMemory {
                version: d[4],
                radio_channel: d[5],
                radio_speed,
                pitch_trim_bits: pitch,
                roll_trim_bits: roll,
                radio_address: [d[15], d[16], d[17], d[18], d[19]],
            },
        )
    }

    /// The 21 stored bytes of the record: magic, fields, checksum.
    pub fn to_bytes(&self) -> (r: Vec<u8>)
        ensures
            r@ == eeprom_bytes(*self),
    {
        let mut d: Vec<u8> = vec![0x30, 0x78, 0x42, 0x43, self.version, self.radio_channel, self.radio_speed.to_byte()];
        push_u32(&mut d, self.pitch_trim_bits);
        push_u32(&mut d, self.roll_trim_bits);
        let mut i: usize = 0;
        let ghost head = d@;
        while i < 5
            invariant
                i <= 5,
                d@ == head + self.radio_address@.subrange(0, i as int),
            decreases 5 - i,
        {
            d.push(self.radio_address[i]);
            i = i + 1;
            assert(d@ =~= head + self.radio_address@.subrange(0, i as int));
        }
        assert(d@ =~= eeprom_body(*self));
        let c = checksum(d.as_slice());
        d.push(c);
        d
    }

    /// Sets the radio channel; `InvalidArgument` above 125, and then nothing
    /// changes.
    pub fn set_radio_channel(&mut self, channel: u8) -> (r: Result<(), Error>)
        ensures
            channel <= 125 ==> r is Ok && *final(self) == (EEPROMConfigMemory {
                radio_channel: channel,
                ..*old(self)
            }),
            channel > 125 ==> r == Err::<(), Error>(Error::InvalidArgument) && *final(self) == *old(
                self,
            ),
    {
        if channel > 125 {
            return Err(Error::InvalidArgument);
        }
        self.radio_channel = channel;
        Ok(())
    }
}

/// Reading back the stored bytes of a record gives the same record.
pub proof fn lemma_eeprom_round_trip(c: EEPROMConfigMemory)
    ensures
        eeprom_parse_spec(eeprom_bytes(c)) == Ok::<EEPROMConfigMemory, Error>(c),
{
    let d = eeprom_bytes(c);
    let b = eeprom_body(c);
    assert(d.len() == 21);
    assert(d.subrange(0, 4) =~= eeprom_magic());
    assert(d.subrange(0, 20) =~= b);
    assert(d.subrange(7, 11) =~= u32_bytes(c.pitch_trim_bits));
    assert(d.subrange(11, 15) =~= u32_bytes(c.roll_trim_bits));
    lemma_u32_bytes_le(d, 7, c.pitch_trim_bits);
    lemma_u32_bytes_le(d, 11, c.roll_trim_bits);
    let a = [d[15], d[16], d[17], d[18], d[19]];
    assert(a@ =~= c.radio_address@);
    assert(a == c.radio_address);
}

/// Little-endian 32-bit number at `offset`; `MemoryError(Malformed)` where
/// the data ends before its four bytes.
pub fn read_u32(data: &[u8], offset: usize) -> (r: Result<u32, Error>)
    ensures
        offset + 4 <= data@.len() ==> r == Ok::<u32, Error>(le32_at(data@, offset as int)),
        offset + 4 > data@.len() ==> r == Err::<u32, Error>(Error::MemoryError(MemoryFault::Malformed)),
{
    if offset > data.len() || data.len() - offset < 4 {
        return Err(Error::MemoryError(MemoryFault::Malformed));
    }
    Ok(data[offset] as u32 + 256 * data[offset + 1] as u32 + 65536 * data[offset + 2] as u32
        + 16777216 * data[offset + 3] as u32)
}

/// How many coefficients a compressed trajectory element holds.
#[derive(Clone, Copy, Debug, PartialEq, Eq, Structural)]
pub enum ElementType {
    /// No movement: no coefficient.
    Constant,
    /// One coefficient.
    Linear,
    /// Three coefficients.
    Quadratic,
    /// Seven coefficients.
    Full,
}

impl ElementType {
    /// The element type of an element with `len` coefficients: 0, 1, 3 or 7.
    pub fn from_len(len: usize) -> (r: Option<ElementType>)
        ensures
            len == 0 ==> r == Some(ElementType::Constant),
            len == 1 ==> r == Some(ElementType::Linear),
            len == 3 ==> r == Some(ElementType::Quadratic),
            len == 7 ==> r == Some(ElementType::Full),
            !(len == 0 || len == 1 || len == 3 || len == 7) ==> r is None,
    {
        match len {
            0 => Some(ElementType::Constant),
            1 => Some(ElementType::Linear),
            3 => Some(ElementType::Quadratic),
            7 => Some(ElementType::Full),
            _ => None,
        }
    }

    /// The two-bit code of the element type in a compressed segment.
    pub fn code(&self) -> (r: u8)
        ensures
            r < 4,
            *self == ElementType::Constant ==> r == 0,
            *self == ElementType::Linear ==> r == 1,
            *self == ElementType::Quadratic ==> r == 2,
            *self == ElementType::Full ==> r == 3,
    {
        match self {
            ElementType::Constant => 0,
            ElementType::Linear => 1,
            ElementType::Quadratic => 2,
            ElementType::Full => 3,
        }
    }
}

/// Size of one entry of the deck section table.
pub const DECK_INFO_SIZE: usize = 0x20;

/// One section of the deck memory table.
#[derive(Clone, Debug)]
pub struct DeckMemorySection {
    pub is_started: bool,
    pub supports_read: bool,
    pub supports_write: bool,
    pub supports_upgrade: bool,
    pub upgrade_required: bool,
    pub bootloader_active: bool,
    pub can_reset_to_firmware: bool,
    pub can_reset_to_bootloader: bool,
    pub required_hash: Option<u32>,
    pub required_length: Option<u32>,
    pub base_address: u32,
    pub command_address: u32,
    pub info_address: u32,
    pub name: Vec<u8>,
}

/// Bit `k` of byte `b`.
pub open spec fn bit_of(b: u8, k: nat) -> bool {
    (b as nat / vstd::arithmetic::power2::pow2(k)) % 2 == 1
}

/// The bytes of `s` from `from` before the first zero byte at or after it,
/// read no further than byte 33.
pub open spec fn name_until_zero(s: Seq<u8>, from: int) -> Seq<u8> {
    crate::toc::until_zero(s.subrange(from, if s.len() < 33 { s.len() as int } else { 33 }))
}

/// A number read as optional: zero means none.
pub open spec fn nonzero(v: u32) -> Option<u32> {
    if v == 0 {
        None
    } else {
        Some(v)
    }
}

fn flag_bit(b: u8, k: u8) -> (r: bool)
    requires
        k < 8,
    ensures
        r == bit_of(b, k as nat),
{
    proof {
        vstd::arithmetic::power2::lemma2_to64();
    }
    let p: u8 = if k == 0 {
        1
    } else if k == 1 {
        2
    } else if k == 2 {
        4
    } else if k == 3 {
        8
    } else if k == 4 {
        16
    } else if k == 5 {
        32
    } else if k == 6 {
        64
    } else {
        128
    };
    (b / p) % 2 == 1
}

/// `s` is what the table entry `data`, found at `info_address` and with
/// commands at `command_address`, describes.
pub open spec fn section_read(s: DeckMemorySection, data: Seq<u8>, info_address: u32, command_address: u32) -> bool {
    &&& s.is_started == bit_of(data[0], 1)
    &&& s.supports_read == bit_of(data[0], 2)
    &&& s.supports_write == bit_of(data[0], 3)
    &&& s.supports_upgrade == bit_of(data[0], 4)
    &&& s.upgrade_required == bit_of(data[0], 5)
    &&& s.bootloader_active == bit_of(data[0], 6)
    &&& s.can_reset_to_firmware == bit_of(data[1], 0)
    &&& s.can_reset_to_bootloader == bit_of(data[1], 1)
    &&& s.required_hash == nonzero(le32_at(data, 2))
    &&& s.required_length == nonzero(le32_at(data, 6))
    &&& s.base_address == le32_at(data, 10)
    &&& s.command_address == command_address
    &&& s.info_address == info_address
    &&& s.name@ == name_until_zero(data, 14)
}

/// Table entry `k` of the deck memory `data`.
pub open spec fn deck_entry(data: Seq<u8>, k: int) -> Seq<u8> {
    data.subrange(1 + 32 * k, 33 + 32 * k)
}

impl DeckMemorySection {
    /// Reads the table entry `data` found at `info_address`, whose commands
    /// go to `command_address`. `None` where the entry is shorter than
    /// `0x20` bytes or its valid bit is clear.
    pub fn from_bytes(data: &[u8], info_address: u32, command_address: u32) -> (r: Option<DeckMemorySection>)
        ensures
            (data@.len() < 0x20 || !bit_of(data@[0], 0)) ==> r is None,
            (data@.len() >= 0x20 && bit_of(data@[0], 0)) ==> (r matches Some(s) && section_read(
                s,
                data@,
                info_address,
                command_address,
            )),
    {
        if data.len() < DECK_INFO_SIZE {
            return None;
        }
        let b1 = data[0];
        let b2 = data[1];
        if !flag_bit(b1, 0) {
            return None;
        }
        let hash = data[2] as u32 + 256 * data[3] as u32 + 65536 * data[4] as u32 + 16777216
            * data[5] as u32;
        let length = data[6] as u32 + 256 * data[7] as u32 + 65536 * data[8] as u32 + 16777216
            * data[9] as u32;
        let base = data[10] as u32 + 256 * data[11] as u32 + 65536 * data[12] as u32 + 16777216
            * data[13] as u32;
        let name_end: usize = if data.len() < 33 { data.len() } else { 33 };
        let rest = slice_range(data, 14, name_end);
        let mut end: usize = 0;
        while end < rest.len() && rest[end] != 0
            invariant
                end <= rest@.len(),
                forall|k: int| 0 <= k < end ==> rest@[k] != 0,
            decreases rest@.len() - end,
        {
            end = end + 1;
        }
        proof {
            crate::toc::lemma_until_zero(rest@, end as int);
        }
        let name = slice_range(rest.as_slice(), 0, end);
        Some(DeckMemorySection {
            is_started: flag_bit(b1, 1),
            supports_read: flag_bit(b1, 2),
            supports_write: flag_bit(b1, 3),
            supports_upgrade: flag_bit(b1, 4),
            upgrade_required: flag_bit(b1, 5),
            bootloader_active: flag_bit(b1, 6),
            can_reset_to_firmware: flag_bit(b2, 0),
            can_reset_to_bootloader: flag_bit(b2, 1),
            required_hash: if hash == 0 { None } else { Some(hash) },
            required_length: if length == 0 { None } else { Some(length) },
            base_address: base,
            command_address,
            info_address,
            name,
        })
    }

    /// Takes new status bits (the first two bytes of the entry).
    pub fn update_status_bits(&mut self, data: &[u8]) -> (r: Result<(), Error>)
        ensures
            data@.len() < 2 ==> r == Err::<(), Error>(Error::MemoryError(MemoryFault::Malformed)),
            data@.len() >= 2 ==> r is Ok && final(self).bootloader_active == bit_of(data@[0], 6)
                && final(self).can_reset_to_firmware == bit_of(data@[1], 0)
                && final(self).can_reset_to_bootloader == bit_of(data@[1], 1),
    {
        if data.len() < 2 {
            return Err(Error::MemoryError(MemoryFault::Malformed));
        }
        self.bootloader_active = flag_bit(data[0], 6);
        self.can_reset_to_firmware = flag_bit(data[1], 0);
        self.can_reset_to_bootloader = flag_bit(data[1], 1);
        Ok(())
    }

    /// The write that resets the section to its bootloader: byte 2 at four
    /// past the command address. `MemoryError(Malformed)` where the section
    /// cannot do it.
    pub fn reset_to_bootloader(&self) -> (r: Result<(u32, Vec<u8>), Error>)
        ensures
            !self.can_reset_to_bootloader || self.command_address > 0xFFFF_FFFA ==> r is Err && r->Err_0
                == Error::MemoryError(MemoryFault::Malformed),
            self.can_reset_to_bootloader && self.command_address <= 0xFFFF_FFFA ==> (r matches Ok(
                w,
            ) && w.0 == self.command_address + 4 && w.1@ == seq![2u8]),
    {
        if !self.can_reset_to_bootloader || self.command_address > 0xFFFF_FFFA {
            return Err(Error::MemoryError(MemoryFault::Malformed));
        }
        Ok((self.command_address + 4, vec![2u8]))
    }

    /// The write that resets the section to its firmware: byte 1 at four past
    /// the command address. `MemoryError(Malformed)` where the section
    /// cannot do it.
    pub fn reset_to_firmware(&self) -> (r: Result<(u32, Vec<u8>), Error>)
        ensures
            !self.can_reset_to_firmware || self.command_address > 0xFFFF_FFFA ==> r is Err && r->Err_0
                == Error::MemoryError(MemoryFault::Malformed),
            self.can_reset_to_firmware && self.command_address <= 0xFFFF_FFFA ==> (r matches Ok(w)
                && w.0 == self.command_address + 4 && w.1@ == seq![1u8]),
    {
        if !self.can_reset_to_firmware || self.command_address > 0xFFFF_FFFA {
            return Err(Error::MemoryError(MemoryFault::Malformed));
        }
        Ok((self.command_address + 4, vec![1u8]))
    }

    /// The memory address of offset `address` in the section, for a read;
    /// `MemoryError(Malformed)` where the section cannot be read or the
    /// address leaves the 32-bit space.
    pub fn read_address(&self, address: u32) -> (r: Result<u32, Error>)
        ensures
            self.supports_read && self.base_address + address <= 0xFFFF_FFFF ==> r == Ok::<
                u32,
                Error,
            >((self.base_address + address) as u32),
            !(self.supports_read && self.base_address + address <= 0xFFFF_FFFF) ==> r == Err::<
                u32,
                Error,
            >(Error::MemoryError(MemoryFault::Malformed)),
    {
        if !self.supports_read || address > 0xFFFF_FFFF - self.base_address {
            return Err(Error::MemoryError(MemoryFault::Malformed));
        }
        Ok(self.base_address + address)
    }

    /// The memory address of offset `address` in the section, for a write;
    /// `MemoryError(Malformed)` where the section cannot be written or the
    /// address leaves the 32-bit space.
    pub fn write_address(&self, address: u32) -> (r: Result<u32, Error>)
        ensures
            self.supports_write && self.base_address + address <= 0xFFFF_FFFF ==> r == Ok::<
                u32,
                Error,
            >((self.base_address + address) as u32),
            !(self.supports_write && self.base_address + address <= 0xFFFF_FFFF) ==> r == Err::<
                u32,
                Error,
            >(Error::MemoryError(MemoryFault::Malformed)),
    {
        if !self.supports_write || address > 0xFFFF_FFFF - self.base_address {
            return Err(Error::MemoryError(MemoryFault::Malformed));
        }
        Ok(self.base_address + address)
    }
}

/// Version of the deck memory layout that the library reads.
pub const DECK_MEMORY_VERSION: u8 = 3;
/// Number of entries of the deck section table.
pub const DECK_SECTION_COUNT: usize = 8;

/// Indices below `k` of the table entries whose valid bit is set, in order.
pub open spec fn valid_entries(data: Seq<u8>, k: int) -> Seq<int>
    decreases k,
{
    if k <= 0 {
        Seq::empty()
    } else if bit_of(data[1 + 32 * (k - 1)], 0) {
        valid_entries(data, k - 1).push(k - 1)
    } else {
        valid_entries(data, k - 1)
    }
}

/// The deck memory: its valid sections in table order.
#[derive(Clone, Debug)]
pub struct DeckMemory {
    pub sections: Vec<DeckMemorySection>,
}

impl DeckMemory {
    /// Reads the deck memory from its first `1 + 8 * 0x20` bytes: the layout
    /// version (3), then eight table entries. `MemoryError(UnsupportedVersion)`
    /// for another version, `MemoryError(Malformed)` for too few bytes.
    pub fn from_table(data: &[u8]) -> (r: Result<DeckMemory, Error>)
        ensures
            data@.len() == 0 ==> r is Err && r->Err_0 == Error::MemoryError(MemoryFault::Malformed),
            data@.len() > 0 && data@[0] != 3 ==> r is Err && r->Err_0 == Error::MemoryError(
                MemoryFault::UnsupportedVersion,
            ),
            data@.len() > 0 && data@[0] == 3 && data@.len() < 257 ==> r is Err && r->Err_0
                == Error::MemoryError(MemoryFault::Malformed),
            data@.len() >= 257 && data@[0] == 3 ==> (r matches Ok(m) && m.sections@.len()
                == valid_entries(data@, 8).len() && forall|j: int|
                0 <= j < m.sections@.len() ==> section_read(
                    #[trigger] m.sections@[j],
                    deck_entry(data@, valid_entries(data@, 8)[j]),
                    (1 + 32 * valid_entries(data@, 8)[j]) as u32,
                    (0x1000 + 16 * valid_entries(data@, 8)[j]) as u32,
                )),
    {
        if data.len() == 0 {
            return Err(Error::MemoryError(MemoryFault::Malformed));
        }
        if data[0] != DECK_MEMORY_VERSION {
            return Err(Error::MemoryError(MemoryFault::UnsupportedVersion));
        }
        if data.len() < 1 + DECK_SECTION_COUNT * DECK_INFO_SIZE {
            return Err(Error::MemoryError(MemoryFault::Malformed));
        }
        let mut sections: Vec<DeckMemorySection> = Vec::new();
        let mut i: usize = 0;
        while i < DECK_SECTION_COUNT
            invariant
                i <= 8,
                data@.len() >= 257,
                sections@.len() == valid_entries(data@, i as int).len(),
                forall|j: int|
                    0 <= j < sections@.len() ==> section_read(
                        #[trigger] sections@[j],
                        deck_entry(data@, valid_entries(data@, i as int)[j]),
                        (1 + 32 * valid_entries(data@, i as int)[j]) as u32,
                        (0x1000 + 16 * valid_entries(data@, i as int)[j]) as u32,
                    ),
                forall|j: int| 0 <= j < valid_entries(data@, i as int).len() ==> 0 <= #[trigger] valid_entries(data@, i as int)[j] < i,
            decreases 8 - i,
        {
            let base = 1 + i * DECK_INFO_SIZE;
            let entry = slice_range(data, base, base + DECK_INFO_SIZE);
            assert(entry@[0] == data@[1 + 32 * i]);
            assert(entry@ =~= deck_entry(data@, i as int));
            match DeckMemorySection::from_bytes(entry.as_slice(), base as u32, 0x1000 + (i as u32) * 0x10) {
                Some(s) => {
                    sections.push(s);
                },
                None => {},
            }
            i = i + 1;
        }
        Ok(DeckMemory { sections })
    }

    /// Index of the section named `name`.
    pub fn section(&self, name: &[u8]) -> (r: Option<usize>)
        ensures
            r matches Some(i) ==> i < self.sections@.len() && self.sections@[i as int].name@ == name@,
            r is None ==> forall|i: int| 0 <= i < self.sections@.len() ==> self.sections@[i].name@ != name@,
    {
        let mut i: usize = 0;
        while i < self.sections.len()
            invariant
                i <= self.sections@.len(),
                forall|k: int| 0 <= k < i ==> self.sections@[k].name@ != name@,
            decreases self.sections@.len() - i,
        {
            if crate::bytes::bytes_eq(self.sections[i].name.as_slice(), name) {
                return Some(i);
            }
            i = i + 1;
        }
        None
    }
}

} // verus!

//! The 1-wire deck identification memory: a CRC-checked header and a
//! CRC-checked list of elements (board name, revision, custom data).
use vstd::prelude::*;
use crate::bytes::{le32_at, slice_range};
use crate::error::{Error, MemoryFault};

verus! {

/// CRC32 (IEEE) of `b`, as `crc32fast::hash` computes it.
pub uninterp spec fn crc32_of(b: Seq<u8>) -> u32;

/// Whether `b` is valid UTF-8, as `std::str::from_utf8` decides it.
pub uninterp spec fn utf8_ok(b: Seq<u8>) -> bool;

/// Relies on `crc32fast::hash`: the CRC32 of the bytes, a function of the
/// bytes alone.
#[verifier::external_body]
fn crc32(b: &[u8]) -> (r: u32)
    ensures
        r == crc32_of(b@),
{
    crc32fast::hash(b)
}

/// Relies on `std::str::from_utf8`: whether the bytes are valid UTF-8.
#[verifier::external_body]
fn is_utf8(b: &[u8]) -> (r: bool)
    ensures
        r == utf8_ok(b@),
{
    std::str::from_utf8(b).is_ok()
}

/// The lowercase hexadecimal digit of `n` (below 16), as an ASCII byte.
pub open spec fn hex_digit(n: u8) -> u8 {
    if n < 10 {
        (48 + n) as u8
    } else {
        (87 + n) as u8
    }
}

/// Lowercase hexadecimal text of `s`, two digits per byte, high digit first.
pub open spec fn hex_spec(s: Seq<u8>) -> Seq<u8>
    decreases s.len(),
{
    if s.len() == 0 {
        Seq::empty()
    } else {
        seq![hex_digit(s[0] / 16), hex_digit(s[0] % 16)] + hex_spec(s.drop_first())
    }
}

/// Relies on `hex::encode`: lowercase digits from its table
/// `0123456789abcdef`, two per byte, high nibble first.
#[verifier::external_body]
fn hex_encode(b: &[u8]) -> (r: Vec<u8>)
    ensures
        r@ == hex_spec(b@),
{
    hex::encode(b).into_bytes()
}

/// The first byte of a valid header.
pub const OW_HEADER_MAGIC: u8 = 0xEB;

/// The fields of the header.
#[derive(Clone, Copy, Debug, PartialEq, Eq, Structural)]
pub struct OwHeader {
    /// Bitmap of the GPIO pins that the deck uses.
    pub used_pins: u32,
    /// Vendor id.
    pub vid: u8,
    /// Product id.
    pub pid: u8,
}

/// What the eight header bytes `h` give, where `crc` is the CRC32 of their
/// first seven: the last byte must be the CRC's low byte.
pub open spec fn ow_header_spec(h: Seq<u8>, crc: u32) -> Result<OwHeader, Error> {
    if h.len() != 8 || h[0] != 0xEB {
        Err(Error::MemoryError(MemoryFault::Malformed))
    } else if h[7] as int != crc as int % 256 {
        Err(Error::MemoryError(MemoryFault::CrcMismatch))
    } else {
        Ok(OwHeader { used_pins: le32_at(h, 1), vid: h[5], pid: h[6] })
    }
}

/// Checks the header `h` against `crc`, the CRC32 of its first seven bytes.
pub fn check_ow_header(h: &[u8], crc: u32) -> (r: Result<OwHeader, Error>)
    ensures
        r == ow_header_spec(h@, crc),
{
    if h.len() != 8 || h[0] != OW_HEADER_MAGIC {
        return Err(Error::MemoryError(MemoryFault::Malformed));
    }
    if h[7] as u32 != crc % 256 {
        return Err(Error::MemoryError(MemoryFault::CrcMismatch));
    }
    let used_pins = h[1] as u32 + 256 * h[2] as u32 + 65536 * h[3] as u32 + 16777216 * h[4] as u32;
    Ok(OwHeader { used_pins, vid: h[5], pid: h[6] })
}

/// Reads the header from its eight bytes, computing the CRC of the first
/// seven.
pub fn parse_ow_header(h: &[u8]) -> (r: Result<OwHeader, Error>)
    ensures
        h@.len() == 8 ==> r == ow_header_spec(h@, crc32_of(h@.subrange(0, 7))),
        h@.len() != 8 ==> r == Err::<OwHeader, Error>(Error::MemoryError(MemoryFault::Malformed)),
{
    if h.len() != 8 {
        return Err(Error::MemoryError(MemoryFault::Malformed));
    }
    let first = slice_range(h, 0, 7);
    let crc = crc32(first.as_slice());
    check_ow_header(h, crc)
}

/// The elements of the memory. Board name and revision are UTF-8 text;
/// custom data is the lowercase hexadecimal text of the stored bytes.
#[derive(Clone, Debug)]
pub struct OwElements {
    pub board_name: Option<Vec<u8>>,
    pub revision: Option<Vec<u8>>,
    pub custom_data: Option<Vec<u8>>,
}

/// The view of the elements.
pub open spec fn ow_view(e: OwElements) -> (Option<Seq<u8>>, Option<Seq<u8>>, Option<Seq<u8>>) {
    (
        match e.board_name {
            Some(v) => Some(v@),
            None => None,
        },
        match e.revision {
            Some(v) => Some(v@),
            None => None,
        },
        match e.custom_data {
            Some(v) => Some(v@),
            None => None,
        },
    )
}

/// The elements after one more element `id` with bytes `elem`: board name
/// (1) and revision (2) are taken where they are valid UTF-8, custom data (3)
/// as hexadecimal text, other ids are ignored. A later element replaces an
/// earlier one of the same id.
pub open spec fn ow_step(
    acc: (Option<Seq<u8>>, Option<Seq<u8>>, Option<Seq<u8>>),
    id: u8,
    elem: Seq<u8>,
) -> (Option<Seq<u8>>, Option<Seq<u8>>, Option<Seq<u8>>) {
    ow_step_with(acc, id, elem, utf8_ok(elem))
}

/// The elements after element `id` with bytes `elem`, where `text_ok` says
/// whether the bytes are valid UTF-8.
pub open spec fn ow_step_with(
    acc: (Option<Seq<u8>>, Option<Seq<u8>>, Option<Seq<u8>>),
    id: u8,
    elem: Seq<u8>,
    text_ok: bool,
) -> (Option<Seq<u8>>, Option<Seq<u8>>, Option<Seq<u8>>) {
    if id == 1 && text_ok {
        (Some(elem), acc.1, acc.2)
    } else if id == 2 && text_ok {
        (acc.0, Some(elem), acc.2)
    } else if id == 3 {
        (acc.0, acc.1, Some(hex_spec(elem)))
    } else {
        acc
    }
}

/// Takes element `id` with bytes `elem` into `acc`, where `text_ok` says
/// whether the bytes are valid UTF-8 (only text elements need it).
pub fn apply_element(acc: &mut OwElements, id: u8, elem: Vec<u8>, text_ok: bool)
    ensures
        ow_view(*final(acc)) == ow_step_with(ow_view(*old(acc)), id, elem@, text_ok),
{
    if id == 1 {
        if text_ok {
            acc.board_name = Some(elem);
        }
    } else if id == 2 {
        if text_ok {
            acc.revision = Some(elem);
        }
    } else if id == 3 {
        acc.custom_data = Some(hex_encode(elem.as_slice()));
    }
}

/// The elements read from `data` from offset `off` on, starting from `acc`:
/// each is an id, a length and that many bytes; reading stops where an
/// element does not fit.
pub open spec fn ow_fold(
    data: Seq<u8>,
    off: nat,
    acc: (Option<Seq<u8>>, Option<Seq<u8>>, Option<Seq<u8>>),
) -> (Option<Seq<u8>>, Option<Seq<u8>>, Option<Seq<u8>>)
    decreases data.len() - off,
{
    if off + 1 >= data.len() {
        acc
    } else {
        let l = data[off as int + 1] as nat;
        if off + 2 + l > data.len() {
            acc
        } else {
            ow_fold(
                data,
                off + 2 + l,
                ow_step(acc, data[off as int], data.subrange(off + 2 as int, off + 2 + l as int)),
            )
        }
    }
}

/// Reads the list of elements.
pub fn parse_elements(data: &[u8]) -> (r: OwElements)
    ensures
        ow_view(r) == ow_fold(data@, 0, (None, None, None)),
{
    let mut acc = OwElements { board_name: None, revision: None, custom_data: None };
    let mut off: usize = 0;
    while off < data.len()
        invariant
            off <= data@.len() + 1,
            ow_fold(data@, off as nat, ow_view(acc)) == ow_fold(data@, 0, (None, None, None)),
        ensures
            ow_view(acc) == ow_fold(data@, 0, (None, None, None)),
        decreases data@.len() - off,
    {
        if off + 1 >= data.len() {
            assert(ow_fold(data@, off as nat, ow_view(acc)) == ow_view(acc));
            break;
        }
        let id = data[off];
        let l = data[off + 1] as usize;
        if l > data.len() - off - 2 {
            assert(ow_fold(data@, off as nat, ow_view(acc)) == ow_view(acc));
            break;
        }
        let elem = slice_range(data, off + 2, off + 2 + l);
        let ghost before = ow_view(acc);
        let text_ok = if id == 1 || id == 2 {
            is_utf8(elem.as_slice())
        } else {
            false
        };
        apply_element(&mut acc, id, elem, text_ok);
        assert(ow_view(acc) == ow_step(before, id, data@.subrange(off + 2, off + 2 + l)));
        off = off + 2 + l;
    }
    acc
}

/// What the element area gives: `head` is the version and the length,
/// `elements` the bytes, `stored_crc` the byte after them, and `crc` the
/// CRC32 of head and elements, whose low byte must be the stored one.
pub open spec fn ow_elements_spec(
    head: Seq<u8>,
    elements: Seq<u8>,
    stored_crc: u8,
    crc: u32,
) -> Result<(Option<Seq<u8>>, Option<Seq<u8>>, Option<Seq<u8>>), Error> {
    if head.len() != 2 || elements.len() != head[1] {
        Err(Error::MemoryError(MemoryFault::Malformed))
    } else if head[0] != 0 {
        Err(Error::MemoryError(MemoryFault::UnsupportedVersion))
    } else if stored_crc as int != crc as int % 256 {
        Err(Error::MemoryError(MemoryFault::CrcMismatch))
    } else {
        Ok(ow_fold(elements, 0, (None, None, None)))
    }
}

/// Checks the element area against `crc`, the CRC32 of `head` followed by
/// `elements`, and reads the elements.
pub fn check_ow_elements(head: &[u8], elements: &[u8], stored_crc: u8, crc: u32) -> (r: Result<
    OwElements,
    Error,
>)
    ensures
        r matches Err(e) ==> ow_elements_spec(head@, elements@, stored_crc, crc) == Err::<
            (Option<Seq<u8>>, Option<Seq<u8>>, Option<Seq<u8>>),
            Error,
        >(e),
        r matches Ok(e) ==> ow_elements_spec(head@, elements@, stored_crc, crc) == Ok::<
            (Option<Seq<u8>>, Option<Seq<u8>>, Option<Seq<u8>>),
            Error,
        >(ow_view(e)),
        ow_elements_spec(head@, elements@, stored_crc, crc) is Ok ==> r is Ok,
{
    if head.len() != 2 || elements.len() != head[1] as usize {
        return Err(Error::MemoryError(MemoryFault::Malformed));
    }
    if head[0] != 0 {
        return Err(Error::MemoryError(MemoryFault::UnsupportedVersion));
    }
    if stored_crc as u32 != crc % 256 {
        return Err(Error::MemoryError(MemoryFault::CrcMismatch));
    }
    Ok(parse_elements(elements))
}

/// Checks and reads the element area, computing the CRC of head and
/// elements.
pub fn parse_ow_elements(head: &[u8], elements: &[u8], stored_crc: u8) -> (r: Result<
    OwElements,
    Error,
>)
    ensures
        r matches Err(e) ==> ow_elements_spec(head@, elements@, stored_crc, crc32_of(head@ + elements@))
            == Err::<(Option<Seq<u8>>, Option<Seq<u8>>, Option<Seq<u8>>), Error>(e),
        r matches Ok(e) ==> ow_elements_spec(head@, elements@, stored_crc, crc32_of(head@ + elements@))
            == Ok::<(Option<Seq<u8>>, Option<Seq<u8>>, Option<Seq<u8>>), Error>(ow_view(e)),
{
    let mut all = slice_range(head, 0, head.len());
    let mut i: usize = 0;
    let ghost h = all@;
    assert(h =~= head@);
    while i < elements.len()
        invariant
            i <= elements@.len(),
            all@ == head@ + elements@.subrange(0, i as int),
        decreases elements@.len() - i,
    {
        all.push(elements[i]);
        i = i + 1;
        assert(all@ =~= head@ + elements@.subrange(0, i as int));
    }
    assert(elements@.subrange(0, elements@.len() as int) =~= elements@);
    let crc = crc32(all.as_slice());
    check_ow_elements(head, elements, stored_crc, crc)
}

/// The content of a 1-wire memory: header fields and elements.
#[derive(Clone, Debug)]
pub struct OwMemory {
    pub header: OwHeader,
    pub elements: OwElements,
}

impl OwMemory {
    /// The content of a memory that was never written: no pin, ids 0, no
    /// element.
    pub fn initial() -> (r: OwMemory)
        ensures
            r.header == (OwHeader { used_pins: 0, vid: 0, pid: 0 }),
            ow_view(r.elements) == (None::<Seq<u8>>, None::<Seq<u8>>, None::<Seq<u8>>),
    {
        OwMemory {
            header: OwHeader { used_pins: 0, vid: 0, pid: 0 },
            elements: OwElements { board_name: None, revision: None, custom_data: None },
        }
    }

    /// Reads the memory from its parts: the eight header bytes, the two
    /// bytes of the element area's head, the elements and the CRC byte after
    /// them. Each part's CRC is checked.
    pub fn from_parts(header: &[u8], head: &[u8], elements: &[u8], stored_crc: u8) -> (r: Result<
        OwMemory,
        Error,
    >)
        ensures
            r matches Ok(m) ==> parse_ow_header_spec(header@) == Ok::<OwHeader, Error>(m.header)
                && ow_elements_spec(head@, elements@, stored_crc, crc32_of(head@ + elements@)) == Ok::<
                (Option<Seq<u8>>, Option<Seq<u8>>, Option<Seq<u8>>),
                Error,
            >(ow_view(m.elements)),
            parse_ow_header_spec(header@) matches Err(e) ==> r == Err::<OwMemory, Error>(e),
            ow_elements_spec(head@, elements@, stored_crc, crc32_of(head@ + elements@)) matches Err(e)
                ==> (parse_ow_header_spec(header@) is Ok ==> r == Err::<OwMemory, Error>(e)),
            parse_ow_header_spec(header@) is Ok && ow_elements_spec(
                head@,
                elements@,
                stored_crc,
                crc32_of(head@ + elements@),
            ) is Ok ==> r is Ok,
    {
        let h = match parse_ow_header(header) {
            Ok(h) => h,
            Err(e) => {
                return Err(e);
            },
        };
        match parse_ow_elements(head, elements, stored_crc) {
            Ok(e) => Ok(OwMemory { header: h, elements: e }),
            Err(e) => Err(e),
        }
    }
}

/// What the eight header bytes give, the CRC being computed over the first
/// seven.
pub open spec fn parse_ow_header_spec(h: Seq<u8>) -> Result<OwHeader, Error> {
    if h.len() == 8 {
        ow_header_spec(h, crc32_of(h.subrange(0, 7)))
    } else {
        Err(Error::MemoryError(MemoryFault::Malformed))
    }
}

} // verus!

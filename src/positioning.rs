//! Positioning memories: lighthouse base-station geometry and calibration
//! pages, and the LPS anchor table. Floats are carried as the bit patterns of
//! their little-endian single-precision words.
use vstd::prelude::*;
use crate::bytes::{le32_at, slice_range};
use crate::error::{Error, MemoryFault};
use crate::memory_views::{u32_bytes, lemma_u32_bytes_le};

verus! {

/// Number of base stations and of anchors.
pub const MAX_STATIONS: u8 = 16;
/// Size of one page of the lighthouse memory.
pub const LH_PAGE_SIZE: u32 = 0x100;
/// Address of the first calibration page.
pub const LH_CALIB_START: u32 = 0x1000;
/// Bytes of a geometry record: twelve words and a valid flag.
pub const GEOMETRY_SIZE: usize = 49;
/// Bytes of a calibration record: fourteen words, an id and a valid flag.
pub const CALIBRATION_SIZE: usize = 61;
/// Bytes of an anchor record: three words and a valid flag.
pub const ANCHOR_DATA_LEN: usize = 13;

/// The words at `off`, `off + 4`, ... of `data`, `n` of them.
pub open spec fn words_at(data: Seq<u8>, off: int, n: int) -> Seq<u32> {
    Seq::new(n as nat, |i: int| le32_at(data, off + 4 * i))
}

/// The little-endian bytes of the words, one after the other.
pub open spec fn words_bytes(ws: Seq<u32>) -> Seq<u8>
    decreases ws.len(),
{
    if ws.len() == 0 {
        Seq::empty()
    } else {
        words_bytes(ws.drop_last()) + u32_bytes(ws.last())
    }
}

fn read_words(data: &[u8], off: usize, n: usize) -> (r: Vec<u32>)
    requires
        off + 4 * n <= data@.len(),
    ensures
        r@ == words_at(data@, off as int, n as int),
{
    let mut out: Vec<u32> = Vec::new();
    let mut i: usize = 0;
    let mut p: usize = off;
    while i < n
        invariant
            i <= n,
            p == off + 4 * i,
            p + 4 * (n - i) <= data@.len(),
            out@ == words_at(data@, off as int, i as int),
        decreases n - i,
    {
        assert(p + 4 <= data@.len()) by (nonlinear_arith)
            requires
                p + 4 * (n - i) <= data@.len(),
                i < n,
        ;
        let w = data[p] as u32 + 256 * data[p + 1] as u32 + 65536 * data[p + 2] as u32 + 16777216
            * data[p + 3] as u32;
        out.push(w);
        i = i + 1;
        p = p + 4;
        assert(out@ =~= words_at(data@, off as int, i as int));
    }
    out
}

fn push_words(out: &mut Vec<u8>, ws: &[u32])
    ensures
        final(out)@ == old(out)@ + words_bytes(ws@),
{
    let mut i: usize = 0;
    let ghost start = out@;
    assert(ws@.subrange(0, 0) =~= Seq::<u32>::empty());
    while i < ws.len()
        invariant
            i <= ws@.len(),
            out@ == start + words_bytes(ws@.subrange(0, i as int)),
        decreases ws@.len() - i,
    {
        let w = ws[i];
        let ghost before = out@;
        out.push((w % 256) as u8);
        out.push(((w / 256) % 256) as u8);
        out.push(((w / 65536) % 256) as u8);
        out.push((w / 16777216) as u8);
        proof {
            let sub = ws@.subrange(0, i + 1);
            assert(sub.drop_last() =~= ws@.subrange(0, i as int));
            assert(out@ =~= start + words_bytes(sub));
        }
        i = i + 1;
    }
    assert(ws@.subrange(0, ws@.len() as int) =~= ws@);
}

/// The little-endian bytes of the words, one after the other.
pub fn words_to_bytes(ws: &[u32]) -> (r: Vec<u8>)
    ensures
        r@ == words_bytes(ws@),
{
    let mut out: Vec<u8> = Vec::new();
    push_words(&mut out, ws);
    assert(Seq::<u8>::empty() + words_bytes(ws@) =~= words_bytes(ws@));
    out
}

proof fn lemma_words_bytes_len(ws: Seq<u32>)
    ensures
        words_bytes(ws).len() == 4 * ws.len(),
    decreases ws.len(),
{
    if ws.len() > 0 {
        lemma_words_bytes_len(ws.drop_last());
    }
}

/// Reading back the words from their bytes, whatever follows them, gives
/// the same words.
pub proof fn lemma_words_round_trip(ws: Seq<u32>, tail: Seq<u8>)
    ensures
        words_at(words_bytes(ws) + tail, 0, ws.len() as int) == ws,
    decreases ws.len(),
{
    if ws.len() > 0 {
        let n = ws.len() as int;
        let prev = ws.drop_last();
        let t2 = u32_bytes(ws.last()) + tail;
        lemma_words_round_trip(prev, t2);
        lemma_words_bytes_len(prev);
        let s = words_bytes(ws) + tail;
        assert(s =~= words_bytes(prev) + t2);
        assert(s.subrange(4 * (n - 1), 4 * n) =~= u32_bytes(ws.last()));
        lemma_u32_bytes_le(s, 4 * (n - 1), ws.last());
        assert(words_at(s, 0, n) =~= ws) by {
            assert forall|i: int| 0 <= i < n implies words_at(s, 0, n)[i] == ws[i] by {
                if i < n - 1 {
                    assert(words_at(s, 0, n - 1)[i] == prev[i]);
                }
            }
        }
    }
}

/// The stored bytes of a geometry record read back give the same record.
pub proof fn lemma_geometry_round_trip(g: LighthouseBsGeometry)
    requires
        g.wf(),
    ensures
        ({
            let b = words_bytes(g.words@).push(if g.valid { 1u8 } else { 0u8 });
            b.len() == 49 && words_at(b, 0, 12) == g.words@ && (b[48] != 0) == g.valid
        }),
{
    let v: u8 = if g.valid { 1u8 } else { 0u8 };
    let b = words_bytes(g.words@).push(v);
    lemma_words_bytes_len(g.words@);
    assert(b =~= words_bytes(g.words@) + seq![v]);
    lemma_words_round_trip(g.words@, seq![v]);
}

/// Geometry of a base station: origin (three words) and rotation matrix
/// (nine words, row by row).
#[derive(Clone, Debug)]
pub struct LighthouseBsGeometry {
    pub words: Vec<u32>,
    pub valid: bool,
}

impl LighthouseBsGeometry {
    /// The record holds its twelve words.
    pub open spec fn wf(&self) -> bool {
        self.words@.len() == 12
    }

    /// Reads a geometry record; `MemoryError(Malformed)` where `data` is
    /// shorter than 49 bytes.
    pub fn from_bytes(data: &[u8]) -> (r: Result<LighthouseBsGeometry, Error>)
        ensures
            data@.len() < 49 ==> r is Err && r->Err_0 == Error::MemoryError(MemoryFault::Malformed),
            data@.len() >= 49 ==> (r matches Ok(g) && g.wf() && g.words@ == words_at(data@, 0, 12)
                && g.valid == (data@[48] != 0)),
    {
        if data.len() < GEOMETRY_SIZE {
            return Err(Error::MemoryError(MemoryFault::Malformed));
        }
        Ok(LighthouseBsGeometry { words: read_words(data, 0, 12), valid: data[48] != 0 })
    }

    /// The stored bytes of the record.
    pub fn to_bytes(&self) -> (r: Vec<u8>)
        requires
            self.wf(),
        ensures
            r@ == words_bytes(self.words@).push(if self.valid { 1u8 } else { 0u8 }),
            r@.len() == 49,
    {
        let mut out: Vec<u8> = Vec::new();
        push_words(&mut out, self.words.as_slice());
        assert(Seq::<u8>::empty() + words_bytes(self.words@) =~= words_bytes(self.words@));
        proof {
            lemma_words_bytes_len(self.words@);
        }
        out.push(if self.valid { 1u8 } else { 0u8 });
        out
    }
}

/// Calibration of a base station: two sweeps of seven words, an id and a
/// valid flag.
#[derive(Clone, Debug)]
pub struct LighthouseBsCalibration {
    pub sweeps: Vec<u32>,
    pub uid: u32,
    pub valid: bool,
}

impl LighthouseBsCalibration {
    /// The record holds its fourteen sweep words.
    pub open spec fn wf(&self) -> bool {
        self.sweeps@.len() == 14
    }

    /// Reads a calibration record; `MemoryError(Malformed)` where `data` is
    /// shorter than 61 bytes.
    pub fn from_bytes(data: &[u8]) -> (r: Result<LighthouseBsCalibration, Error>)
        ensures
            data@.len() < 61 ==> r is Err && r->Err_0 == Error::MemoryError(MemoryFault::Malformed),
            data@.len() >= 61 ==> (r matches Ok(c) && c.wf() && c.sweeps@ == words_at(data@, 0, 14) && c.uid
                == le32_at(data@, 56) && c.valid == (data@[60] != 0)),
    {
        if data.len() < CALIBRATION_SIZE {
            return Err(Error::MemoryError(MemoryFault::Malformed));
        }
        let uid = data[56] as u32 + 256 * data[57] as u32 + 65536 * data[58] as u32 + 16777216
            * data[59] as u32;
        Ok(LighthouseBsCalibration { sweeps: read_words(data, 0, 14), uid, valid: data[60] != 0 })
    }

    /// The stored bytes of the record.
    pub fn to_bytes(&self) -> (r: Vec<u8>)
        requires
            self.wf(),
        ensures
            r@.len() == 61,
            r@ == (words_bytes(self.sweeps@) + u32_bytes(self.uid)).push(
                if self.valid { 1u8 } else { 0u8 },
            ),
    {
        let mut out: Vec<u8> = Vec::new();
        push_words(&mut out, self.sweeps.as_slice());
        proof {
            lemma_words_bytes_len(self.sweeps@);
        }
        let u = self.uid;
        out.push((u % 256) as u8);
        out.push(((u / 256) % 256) as u8);
        out.push(((u / 65536) % 256) as u8);
        out.push((u / 16777216) as u8);
        out.push(if self.valid { 1u8 } else { 0u8 });
        assert(out@ =~= (words_bytes(self.sweeps@) + u32_bytes(self.uid)).push(
            if self.valid { 1u8 } else { 0u8 },
        ));
        out
    }
}

/// Address of the geometry page of base station `bs_id`;
/// `InvalidArgument` for an id of 16 or more.
pub fn geometry_address(bs_id: u8) -> (r: Result<u32, Error>)
    ensures
        bs_id < 16 ==> r == Ok::<u32, Error>((bs_id as u32 * 0x100) as u32),
        bs_id >= 16 ==> r == Err::<u32, Error>(Error::InvalidArgument),
{
    if bs_id >= MAX_STATIONS {
        return Err(Error::InvalidArgument);
    }
    Ok(bs_id as u32 * LH_PAGE_SIZE)
}

/// Address of the calibration page of base station `bs_id`;
/// `InvalidArgument` for an id of 16 or more.
pub fn calibration_address(bs_id: u8) -> (r: Result<u32, Error>)
    ensures
        bs_id < 16 ==> r == Ok::<u32, Error>((0x1000 + bs_id as u32 * 0x100) as u32),
        bs_id >= 16 ==> r == Err::<u32, Error>(Error::InvalidArgument),
{
    if bs_id >= MAX_STATIONS {
        return Err(Error::InvalidArgument);
    }
    Ok(LH_CALIB_START + bs_id as u32 * LH_PAGE_SIZE)
}

/// Position of an anchor (three words) and whether it is valid.
#[derive(Clone, Debug)]
pub struct LocoAnchorData {
    pub position: Vec<u32>,
    pub is_valid: bool,
}

impl LocoAnchorData {
    /// Reads an anchor record; `MemoryError(Malformed)` where `data` is
    /// shorter than 13 bytes.
    pub fn from_bytes(data: &[u8]) -> (r: Result<LocoAnchorData, Error>)
        ensures
            data@.len() < 13 ==> r is Err && r->Err_0 == Error::MemoryError(MemoryFault::Malformed),
            data@.len() >= 13 ==> (r matches Ok(a) && a.position@ == words_at(data@, 0, 3)
                && a.is_valid == (data@[12] != 0)),
    {
        if data.len() < ANCHOR_DATA_LEN {
            return Err(Error::MemoryError(MemoryFault::Malformed));
        }
        Ok(LocoAnchorData { position: read_words(data, 0, 3), is_valid: data[12] != 0 })
    }
}

/// Reads an anchor id list: a count of at most 16, then that many ids.
/// `MemoryError(Malformed)` for a larger count or a short list.
pub fn parse_id_list(data: &[u8]) -> (r: Result<Vec<u8>, Error>)
    ensures
        (data@.len() >= 1 && data@[0] <= 16 && data@.len() >= 1 + data@[0]) ==> (r matches Ok(ids)
            && ids@ == data@.subrange(1, 1 + data@[0] as int)),
        !(data@.len() >= 1 && data@[0] <= 16 && data@.len() >= 1 + data@[0]) ==> r is Err && r->Err_0
            == Error::MemoryError(MemoryFault::Malformed),
{
    if data.len() < 1 || data[0] > MAX_STATIONS || data.len() < 1 + data[0] as usize {
        return Err(Error::MemoryError(MemoryFault::Malformed));
    }
    Ok(slice_range(data, 1, 1 + data[0] as usize))
}

/// Address of the record of anchor `id`; `MemoryError(UnknownId)` for an
/// id of 16 or more.
pub fn anchor_address(id: u8) -> (r: Result<u32, Error>)
    ensures
        id < 16 ==> r == Ok::<u32, Error>((0x2000 + id as u32 * 0x100) as u32),
        id >= 16 ==> r == Err::<u32, Error>(Error::MemoryError(MemoryFault::UnknownId)),
{
    if id >= MAX_STATIONS {
        return Err(Error::MemoryError(MemoryFault::UnknownId));
    }
    Ok(0x2000 + id as u32 * 0x100)
}

} // verus!

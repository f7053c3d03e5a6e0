//! Caching of tables of contents, addressed by their content: the key is
//! the protocol version tag and the CRC32 that the device reports, the
//! value is the table's serialized bytes.
use vstd::prelude::*;
use crate::bytes::slice_range;
use crate::error::Error;
use crate::toc::{Toc, TocEntry, entry_view, names_unique};

verus! {

/// The cache key of a table: version tag, then the CRC32 in little-endian
/// order.
pub open spec fn cache_key_spec(version_tag: u8, crc32: u32) -> Seq<u8> {
    seq![
        version_tag,
        (crc32 % 256) as u8,
        ((crc32 / 256) % 256) as u8,
        ((crc32 / 65536) % 256) as u8,
        (crc32 / 16777216) as u8,
    ]
}

/// The cache key of a table.
pub fn toc_cache_key(version_tag: u8, crc32: u32) -> (r: Vec<u8>)
    ensures
        r@ == cache_key_spec(version_tag, crc32),
{
    let c = crc32;
    let r = vec![version_tag, (c % 256) as u8, ((c / 256) % 256) as u8, ((c / 65536) % 256) as u8, (c / 16777216) as u8];
    assert(r@ =~= cache_key_spec(version_tag, crc32));
    r
}

/// The bytes of one item: id, type byte, name length (two bytes each
/// little-endian where wider than one), name.
pub open spec fn ser_entry(e: (Seq<u8>, u16, u8)) -> Seq<u8> {
    seq![
        (e.1 % 256) as u8,
        (e.1 / 256) as u8,
        e.2,
        (e.0.len() % 256) as u8,
        (e.0.len() / 256) as u8,
    ] + e.0
}

/// The bytes of a table: its items one after the other.
pub open spec fn ser_seq(v: Seq<(Seq<u8>, u16, u8)>) -> Seq<u8>
    decreases v.len(),
{
    if v.len() == 0 {
        Seq::empty()
    } else {
        ser_entry(v[0]) + ser_seq(v.drop_first())
    }
}

/// The items read back from bytes, if they are well formed.
pub open spec fn deser_spec(b: Seq<u8>) -> Option<Seq<(Seq<u8>, u16, u8)>>
    decreases b.len(),
{
    if b.len() == 0 {
        Some(Seq::empty())
    } else if b.len() < 5 {
        None
    } else {
        let n = b[3] as int + 256 * b[4] as int;
        if b.len() < 5 + n {
            None
        } else {
            match deser_spec(b.subrange(5 + n, b.len() as int)) {
                Some(rest) => Some(
                    seq![(b.subrange(5, 5 + n), (b[1] as int * 256 + b[0] as int) as u16, b[2])]
                        + rest,
                ),
                None => None,
            }
        }
    }
}

/// Every name is shorter than 65536 bytes.
pub open spec fn names_short(v: Seq<(Seq<u8>, u16, u8)>) -> bool {
    forall|i: int| 0 <= i < v.len() ==> v[i].0.len() < 0x1_0000
}

proof fn lemma_ser_push(v: Seq<(Seq<u8>, u16, u8)>, e: (Seq<u8>, u16, u8))
    ensures
        ser_seq(v.push(e)) == ser_seq(v) + ser_entry(e),
    decreases v.len(),
{
    if v.len() == 0 {
        assert(v.push(e).drop_first() =~= Seq::<(Seq<u8>, u16, u8)>::empty());
        assert(v.push(e)[0] == e);
        assert(ser_seq(Seq::<(Seq<u8>, u16, u8)>::empty()) == Seq::<u8>::empty());
        assert(ser_seq(v.push(e)) == ser_entry(e) + Seq::<u8>::empty());
        assert(ser_seq(v.push(e)) =~= ser_seq(v) + ser_entry(e));
    } else {
        lemma_ser_push(v.drop_first(), e);
        assert(v.push(e).drop_first() =~= v.drop_first().push(e));
        assert(v.push(e)[0] == v[0]);
        assert(ser_seq(v.push(e)) == ser_entry(v[0]) + ser_seq(v.drop_first().push(e)));
        assert(ser_seq(v.push(e)) == ser_entry(v[0]) + (ser_seq(v.drop_first()) + ser_entry(e)));
        assert(ser_seq(v.push(e)) =~= ser_seq(v) + ser_entry(e));
    }
}

/// Reading back the bytes of a table with short names gives the same
/// items.
pub proof fn lemma_ser_round_trip(v: Seq<(Seq<u8>, u16, u8)>)
    requires
        names_short(v),
    ensures
        deser_spec(ser_seq(v)) == Some(v),
    decreases v.len(),
{
    if v.len() > 0 {
        let e = v[0];
        let b = ser_seq(v);
        let rest = v.drop_first();
        lemma_ser_round_trip(rest);
        let n = e.0.len() as int;
        assert(b[3] as int + 256 * b[4] as int == n);
        assert(b.subrange(5 + n, b.len() as int) =~= ser_seq(rest));
        assert(b.subrange(5, 5 + n) =~= e.0);
        assert((b[1] as int * 256 + b[0] as int) as u16 == e.1);
        assert(seq![(e.0, e.1, e.2)] + rest =~= v);
    }
}

/// The bytes of a table; `InvalidArgument` where a name is 65536 bytes
/// long or longer.
pub fn serialize_toc(t: &Toc) -> (r: Result<Vec<u8>, Error>)
    ensures
        names_short(t@) ==> (r matches Ok(b) && b@ == ser_seq(t@)),
        !names_short(t@) ==> r == Err::<Vec<u8>, Error>(Error::InvalidArgument),
{
    let mut out: Vec<u8> = Vec::new();
    let mut i: usize = 0;
    assert(t@.subrange(0, 0) =~= Seq::<(Seq<u8>, u16, u8)>::empty());
    while i < t.len()
        invariant
            i <= t@.len(),
            names_short(t@.subrange(0, i as int)),
            out@ == ser_seq(t@.subrange(0, i as int)),
        decreases t@.len() - i,
    {
        let e = t.entry(i);
        let n = e.name.len();
        if n >= 0x1_0000 {
            return Err(Error::InvalidArgument);
        }
        let ghost before = out@;
        out.push((e.id % 256) as u8);
        out.push((e.id / 256) as u8);
        out.push(e.type_byte);
        out.push((n % 256) as u8);
        out.push((n / 256) as u8);
        let mut k: usize = 0;
        while k < n
            invariant
                k <= n,
                n == e.name@.len(),
                out@ == before + seq![
                    (e.id % 256) as u8,
                    (e.id / 256) as u8,
                    e.type_byte,
                    (n % 256) as u8,
                    (n / 256) as u8,
                ] + e.name@.subrange(0, k as int),
            decreases n - k,
        {
            out.push(e.name[k]);
            k = k + 1;
            assert(out@ =~= before + seq![
                (e.id % 256) as u8,
                (e.id / 256) as u8,
                e.type_byte,
                (n % 256) as u8,
                (n / 256) as u8,
            ] + e.name@.subrange(0, k as int));
        }
        proof {
            assert(e.name@.subrange(0, n as int) =~= e.name@);
            assert(t@.subrange(0, i + 1) =~= t@.subrange(0, i as int).push(t@[i as int]));
            lemma_ser_push(t@.subrange(0, i as int), t@[i as int]);
            assert(entry_view(*e) == t@[i as int]);
            assert(out@ =~= ser_seq(t@.subrange(0, i + 1)));
        }
        i = i + 1;
    }
    proof {
        assert(t@.subrange(0, t@.len() as int) =~= t@);
    }
    Ok(out)
}

/// What reading back bytes `b` gives: a table holding their items, where
/// they are well formed and their names unique.
pub open spec fn deserialize_ok(b: Seq<u8>) -> bool {
    deser_spec(b) matches Some(v) && names_unique(v)
}

/// Reads a table back from its bytes; `ProtocolError` where they are
/// malformed or repeat a name.
pub fn deserialize_toc(b: &[u8]) -> (r: Result<Toc, Error>)
    ensures
        deserialize_ok(b@) ==> (r matches Ok(t) && t.wf() && t@ == deser_spec(b@)->0),
        !deserialize_ok(b@) ==> r == Err::<Toc, Error>(Error::ProtocolError),
{
    let mut toc = Toc::new();
    let mut off: usize = 0;
    assert(b@.subrange(0, b@.len() as int) =~= b@);
    while off < b.len()
        invariant
            off <= b@.len(),
            toc.wf(),
            match deser_spec(b@.subrange(off as int, b@.len() as int)) {
                Some(rest) => deser_spec(b@) == Some(toc@ + rest),
                None => deser_spec(b@) is None,
            },
        decreases b@.len() - off,
    {
        let ghost s = b@.subrange(off as int, b@.len() as int);
        if b.len() - off < 5 {
            return Err(Error::ProtocolError);
        }
        let n = b[off + 3] as usize + 256 * b[off + 4] as usize;
        if b.len() - off - 5 < n {
            return Err(Error::ProtocolError);
        }
        let name = slice_range(b, off + 5, off + 5 + n);
        let id = b[off + 1] as u16 * 256 + b[off] as u16;
        let entry = TocEntry { name, id, type_byte: b[off + 2] };
        proof {
            assert(s.subrange(5 + n as int, s.len() as int) =~= b@.subrange(
                off + 5 + n,
                b@.len() as int,
            ));
            assert(s.subrange(5, 5 + n as int) =~= name@);
            match deser_spec(b@.subrange(off + 5 + n, b@.len() as int)) {
                Some(rest) => {
                    assert(toc@ + (seq![entry_view(entry)] + rest) =~= toc@.push(entry_view(entry))
                        + rest);
                },
                None => {},
            }
        }
        let ghost old_view = toc@;
        if !toc.push_new(entry) {
            proof {
                if let Some(all) = deser_spec(b@) {
                    let rest = deser_spec(b@.subrange(off + 5 + n, b@.len() as int))->0;
                    let k = choose|k: int| 0 <= k < old_view.len() && old_view[k].0 == name@;
                    assert(all[k].0 == all[old_view.len() as int].0);
                }
            }
            return Err(Error::ProtocolError);
        }
        off = off + 5 + n;
    }
    proof {
        assert(b@.subrange(off as int, b@.len() as int) =~= Seq::<u8>::empty());
        assert(toc@ + Seq::<(Seq<u8>, u16, u8)>::empty() =~= toc@);
    }
    Ok(toc)
}

/// The table that a cache lookup yields: the deserialized bytes of a hit,
/// or `None`, meaning that the table must be fetched, for a miss or bytes
/// that do not read back.
pub fn toc_from_cache(cached: Option<&[u8]>) -> (r: Option<Toc>)
    ensures
        cached is Some && deserialize_ok(cached->0@) ==> (r matches Some(t) && t.wf() && t@
            == deser_spec(cached->0@)->0),
        !(cached is Some && deserialize_ok(cached->0@)) ==> r is None,
{
    match cached {
        Some(b) => match deserialize_toc(b) {
            Ok(t) => Some(t),
            Err(_) => None,
        },
        None => None,
    }
}

/// A table cached under a key and read back gives the same items: two
/// discoveries with the same version tag and CRC32 yield the same table.
pub proof fn lemma_cache_content_addressed(
    cache: Map<Seq<u8>, Seq<u8>>,
    version_tag: u8,
    crc32: u32,
    v: Seq<(Seq<u8>, u16, u8)>,
)
    requires
        names_short(v),
        names_unique(v),
    ensures
        deserialize_ok(cache.insert(cache_key_spec(version_tag, crc32), ser_seq(v))[cache_key_spec(
            version_tag,
            crc32,
        )]),
        deser_spec(cache.insert(cache_key_spec(version_tag, crc32), ser_seq(v))[cache_key_spec(
            version_tag,
            crc32,
        )]) == Some(v),
{
    lemma_ser_round_trip(v);
}

/// A cache of tables kept in memory.
pub struct MemoryTocCache {
    entries: Vec<(Vec<u8>, Vec<u8>)>,
}

impl View for MemoryTocCache {
    type V = Map<Seq<u8>, Seq<u8>>;

    closed spec fn view(&self) -> Map<Seq<u8>, Seq<u8>> {
        Map::new(
            |k: Seq<u8>| exists|i: int| 0 <= i < self.entries@.len() && self.entries@[i].0@ == k,
            |k: Seq<u8>|
                self.entries@[choose|i: int| 0 <= i < self.entries@.len() && self.entries@[i].0@ == k].1@,
        )
    }
}

impl MemoryTocCache {
    /// Keys are unique.
    pub closed spec fn wf(&self) -> bool {
        forall|i: int, j: int|
            0 <= i < self.entries@.len() && 0 <= j < self.entries@.len() && i != j
                ==> self.entries@[i].0@ != self.entries@[j].0@
    }

    /// An empty cache.
    pub fn new() -> (r: MemoryTocCache)
        ensures
            r.wf(),
            r@ == Map::<Seq<u8>, Seq<u8>>::empty(),
    {
        let r = MemoryTocCache { entries: Vec::new() };
        assert(r@ =~= Map::<Seq<u8>, Seq<u8>>::empty());
        r
    }

    fn find(&self, key: &[u8]) -> (r: Option<usize>)
        ensures
            r matches Some(i) ==> i < self.entries@.len() && self.entries@[i as int].0@ == key@,
            r is None ==> forall|i: int| 0 <= i < self.entries@.len() ==> self.entries@[i].0@ != key@,
    {
        let mut i: usize = 0;
        while i < self.entries.len()
            invariant
                i <= self.entries@.len(),
                forall|k: int| 0 <= k < i ==> self.entries@[k].0@ != key@,
            decreases self.entries@.len() - i,
        {
            if crate::bytes::bytes_eq(self.entries[i].0.as_slice(), key) {
                return Some(i);
            }
            i = i + 1;
        }
        None
    }

    /// The bytes cached under `key`.
    pub fn get(&self, key: &[u8]) -> (r: Option<Vec<u8>>)
        requires
            self.wf(),
        ensures
            self@.contains_key(key@) ==> (r matches Some(v) && v@ == self@[key@]),
            !self@.contains_key(key@) ==> r is None,
    {
        match self.find(key) {
            Some(i) => {
                let v = &self.entries[i].1;
                Some(slice_range(v.as_slice(), 0, v.len()))
            },
            None => None,
        }
    }

    proof fn lemma_view_at(&self, i: int)
        requires
            self.wf(),
            0 <= i < self.entries@.len(),
        ensures
            self@.contains_key(self.entries@[i].0@),
            self@[self.entries@[i].0@] == self.entries@[i].1@,
    {
        let k = self.entries@[i].0@;
        let j = choose|j: int| 0 <= j < self.entries@.len() && self.entries@[j].0@ == k;
        assert(j == i);
    }

    /// Caches `value` under `key`, replacing what was there.
    pub fn store(&mut self, key: &[u8], value: &[u8])
        requires
            old(self).wf(),
        ensures
            final(self).wf(),
            final(self)@ == old(self)@.insert(key@, value@),
    {
        let k = slice_range(key, 0, key.len());
        let v = slice_range(value, 0, value.len());
        let found = self.find(key);
        let ghost idx: int = match found {
            Some(i) => i as int,
            None => old(self).entries@.len() as int,
        };
        match found {
            Some(i) => {
                self.entries.set(i, (k, v));
            },
            None => {
                self.entries.push((k, v));
            },
        }
        proof {
            assert(self.entries@[idx].0@ == key@ && self.entries@[idx].1@ == value@);
            assert forall|j: int| 0 <= j < self.entries@.len() && j != idx implies (j
                < old(self).entries@.len() && self.entries@[j] == old(self).entries@[j]) by {}
            assert(self.wf());
            let expected = old(self)@.insert(key@, value@);
            assert forall|kk: Seq<u8>| #[trigger] self@.contains_key(kk) == expected.contains_key(kk) by {
                if exists|j: int| 0 <= j < old(self).entries@.len() && old(self).entries@[j].0@ == kk {
                    let j = choose|j: int| 0 <= j < old(self).entries@.len() && old(self).entries@[j].0@ == kk;
                    if j != idx {
                        assert(self.entries@[j].0@ == kk);
                    }
                }
                if exists|j: int| 0 <= j < self.entries@.len() && self.entries@[j].0@ == kk {
                    let j = choose|j: int| 0 <= j < self.entries@.len() && self.entries@[j].0@ == kk;
                    if j != idx {
                        assert(old(self).entries@[j].0@ == kk);
                    }
                }
            }
            assert forall|kk: Seq<u8>| #[trigger] self@.contains_key(kk) implies self@[kk] == expected[kk] by {
                let j = choose|j: int| 0 <= j < self.entries@.len() && self.entries@[j].0@ == kk;
                self.lemma_view_at(j);
                if j != idx {
                    old(self).lemma_view_at(j);
                }
            }
            assert(self@ =~= expected);
        }
    }
}

} // verus!

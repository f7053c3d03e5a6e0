//! Table-of-contents discovery: the wire format of its two commands, the
//! table itself, and the steps of a discovery.
use vstd::prelude::*;
use crate::error::Error;
use crate::packet::Packet;
use crate::bytes::{bytes_eq, extend_range, le16_at, le32_at};

verus! {

const TOC_CHANNEL: u8 = 0;
const TOC_GET_ITEM: u8 = 2;
const TOC_INFO: u8 = 3;

/// What the `INFO` reply announces.
#[derive(Clone, Copy, Debug, PartialEq, Eq, Structural)]
pub struct TocInfo {
    /// Number of items.
    pub count: u16,
    /// CRC32 of the table, as computed by the device.
    pub crc32: u32,
}

/// One item of a table of contents: its full name `group.name`, its id and
/// the subsystem-specific type byte.
#[derive(Clone, Debug)]
pub struct TocEntry {
    pub name: Vec<u8>,
    pub id: u16,
    pub type_byte: u8,
}

/// The bytes of `s` before its first zero byte (all of `s` if none).
pub open spec fn until_zero(s: Seq<u8>) -> Seq<u8>
    decreases s.len(),
{
    if s.len() == 0 {
        Seq::empty()
    } else if s[0] == 0 {
        Seq::empty()
    } else {
        seq![s[0]] + until_zero(s.drop_first())
    }
}

/// `s` holds a zero byte.
pub open spec fn has_zero(s: Seq<u8>) -> bool {
    exists|i: int| 0 <= i < s.len() && s[i] == 0
}

/// The part of a `GET_ITEM` reply that holds the group and the name.
pub open spec fn item_strings(data: Seq<u8>) -> Seq<u8> {
    data.subrange(4, data.len() as int)
}

/// The group of a `GET_ITEM` reply.
pub open spec fn item_group(data: Seq<u8>) -> Seq<u8> {
    until_zero(item_strings(data))
}

/// The bytes of a `GET_ITEM` reply after the group's terminator.
pub open spec fn item_name_part(data: Seq<u8>) -> Seq<u8> {
    let s = item_strings(data);
    s.subrange(item_group(data).len() as int + 1, s.len() as int)
}

/// The name of a `GET_ITEM` reply: after the group's terminator, up to the
/// name's own terminator.
pub open spec fn item_short_name(data: Seq<u8>) -> Seq<u8> {
    until_zero(item_name_part(data))
}

/// The full name `group.name` of a `GET_ITEM` reply.
pub open spec fn item_full_name(data: Seq<u8>) -> Seq<u8> {
    item_group(data) + seq![46u8] + item_short_name(data)
}

/// A `GET_ITEM` reply is well formed: the command byte, an id, a type byte,
/// a group that ends with a zero byte and a name that ends with one.
pub open spec fn item_reply_ok(data: Seq<u8>) -> bool {
    data.len() >= 4 && data[0] == 2 && has_zero(item_strings(data)) && has_zero(
        item_name_part(data),
    )
}

/// The bytes before the first zero byte are the first `j` bytes, where no
/// byte before `j` is zero and `j` is the end or a zero byte.
pub proof fn lemma_until_zero(s: Seq<u8>, j: int)
    requires
        0 <= j <= s.len(),
        forall|k: int| 0 <= k < j ==> s[k] != 0,
        j == s.len() || s[j] == 0,
    ensures
        until_zero(s) == s.subrange(0, j),
    decreases s.len(),
{
    if s.len() > 0 && j > 0 {
        lemma_until_zero(s.drop_first(), j - 1);
        assert(until_zero(s) =~= s.subrange(0, j));
    } else if s.len() > 0 {
        assert(s.subrange(0, j) =~= Seq::<u8>::empty());
    } else {
        assert(s.subrange(0, j) =~= Seq::<u8>::empty());
    }
}

/// Index of the first zero byte of `s` at or after `from`, or `s.len()`.
fn scan_zero(s: &[u8], from: usize) -> (r: usize)
    requires
        from <= s@.len(),
    ensures
        from <= r <= s@.len(),
        forall|k: int| from <= k < r ==> s@[k] != 0,
        r == s@.len() || s@[r as int] == 0,
{
    let mut i = from;
    while i < s.len()
        invariant
            from <= i <= s@.len(),
            forall|k: int| from <= k < i ==> s@[k] != 0,
        decreases s@.len() - i,
    {
        if s[i] == 0 {
            return i;
        }
        i = i + 1;
    }
    i
}

/// The `INFO` request on `port`.
pub fn toc_info_request(port: u8) -> (r: Packet)
    requires
        port < 16,
    ensures
        r.wf(),
        r.port == port && r.channel == 0 && r.data@ == seq![3u8],
{
    Packet { port, channel: TOC_CHANNEL, data: vec![TOC_INFO] }
}

/// The `GET_ITEM` request for item `index` on `port`.
pub fn toc_item_request(port: u8, index: u16) -> (r: Packet)
    requires
        port < 16,
    ensures
        r.wf(),
        r.port == port && r.channel == 0,
        r.data@ == seq![2u8, (index % 256) as u8, (index / 256) as u8],
{
    Packet { port, channel: TOC_CHANNEL, data: vec![TOC_GET_ITEM, (index % 256) as u8, (index / 256) as u8] }
}

/// Reads an `INFO` reply: item count and CRC32. `ProtocolError` where the
/// reply is shorter than seven bytes or is not an `INFO` reply.
pub fn parse_toc_info(data: &[u8]) -> (r: Result<TocInfo, Error>)
    ensures
        (data@.len() >= 7 && data@[0] == 3) ==> r == Ok::<TocInfo, Error>(
            TocInfo { count: le16_at(data@, 1), crc32: le32_at(data@, 3) },
        ),
        !(data@.len() >= 7 && data@[0] == 3) ==> r == Err::<TocInfo, Error>(Error::ProtocolError),
{
    if data.len() < 7 || data[0] != TOC_INFO {
        return Err(Error::ProtocolError);
    }
    let count = data[1] as u16 + 256 * data[2] as u16;
    let crc32 = data[3] as u32 + 256 * data[4] as u32 + 65536 * data[5] as u32 + 16777216
        * data[6] as u32;
    Ok(TocInfo { count, crc32 })
}

/// Reads a `GET_ITEM` reply into an entry named `group.name`.
/// `ProtocolError` where the reply is malformed.
pub fn parse_toc_item(data: &[u8]) -> (r: Result<TocEntry, Error>)
    ensures
        item_reply_ok(data@) ==> (r matches Ok(e) && e.name@ == item_full_name(data@) && e.id
            == le16_at(data@, 1) && e.type_byte == data@[3]),
        !item_reply_ok(data@) ==> r is Err && r->Err_0 == Error::ProtocolError,
{
    if data.len() < 4 || data[0] != TOC_GET_ITEM {
        return Err(Error::ProtocolError);
    }
    let g_end = scan_zero(data, 4);
    let ghost s = item_strings(data@);
    if g_end == data.len() {
        proof {
            assert forall|i: int| 0 <= i < s.len() implies s[i] != 0 by {
                assert(s[i] == data@[i + 4]);
            }
        }
        return Err(Error::ProtocolError);
    }
    let n_end = scan_zero(data, g_end + 1);
    proof {
        assert(s[g_end - 4] == 0);
        let gs = s;
        assert forall|k: int| 0 <= k < g_end - 4 implies gs[k] != 0 by {
            assert(gs[k] == data@[k + 4]);
        }
        lemma_until_zero(gs, g_end - 4);
        assert(item_group(data@) =~= data@.subrange(4, g_end as int));
        let rest = s.subrange(g_end - 4 + 1, s.len() as int);
        assert(rest == item_name_part(data@));
        assert forall|k: int| 0 <= k < n_end - g_end - 1 implies rest[k] != 0 by {
            assert(rest[k] == data@[k + g_end + 1]);
        }
        if n_end < data.len() {
            assert(rest[n_end - g_end - 1] == data@[n_end as int]);
        } else {
            assert(!has_zero(rest));
        }
        lemma_until_zero(rest, n_end - g_end - 1);
        assert(item_short_name(data@) =~= data@.subrange(g_end + 1, n_end as int));
    }
    if n_end == data.len() {
        return Err(Error::ProtocolError);
    }
    let mut name: Vec<u8> = Vec::new();
    extend_range(&mut name, data, 4, g_end);
    name.push(46u8);
    extend_range(&mut name, data, g_end + 1, n_end);
    proof {
        assert(name@ =~= item_full_name(data@));
    }
    let id = data[1] as u16 + 256 * data[2] as u16;
    Ok(TocEntry { name, id, type_byte: data[3] })
}

/// The view of an entry: name, id and type byte.
pub open spec fn entry_view(e: TocEntry) -> (Seq<u8>, u16, u8) {
    (e.name@, e.id, e.type_byte)
}

/// A table of contents: items with unique names.
#[derive(Clone, Debug)]
pub struct Toc {
    entries: Vec<TocEntry>,
}

impl View for Toc {
    type V = Seq<(Seq<u8>, u16, u8)>;

    closed spec fn view(&self) -> Seq<(Seq<u8>, u16, u8)> {
        self.entries@.map_values(|e: TocEntry| entry_view(e))
    }
}

/// No two items of `v` share a name.
pub open spec fn names_unique(v: Seq<(Seq<u8>, u16, u8)>) -> bool {
    forall|i: int, j: int| 0 <= i < v.len() && 0 <= j < v.len() && i != j ==> v[i].0 != v[j].0
}

/// The item named `name`, if any.
pub open spec fn toc_lookup(v: Seq<(Seq<u8>, u16, u8)>, name: Seq<u8>) -> Option<(u16, u8)> {
    if exists|i: int| 0 <= i < v.len() && v[i].0 == name {
        let i = choose|i: int| 0 <= i < v.len() && v[i].0 == name;
        Some((v[i].1, v[i].2))
    } else {
        None
    }
}

/// Index of the first item with id `id`, if any.
pub open spec fn first_id(v: Seq<(Seq<u8>, u16, u8)>, id: u16) -> Option<int> {
    if exists|i: int| 0 <= i < v.len() && v[i].1 == id && forall|k: int| 0 <= k < i ==> v[k].1 != id {
        Some(
            choose|i: int|
                0 <= i < v.len() && v[i].1 == id && forall|k: int| 0 <= k < i ==> v[k].1 != id,
        )
    } else {
        None
    }
}

/// With unique names, the item at `i` is the one that a lookup of its name finds.
pub proof fn lemma_lookup_at(v: Seq<(Seq<u8>, u16, u8)>, i: int)
    requires
        names_unique(v),
        0 <= i < v.len(),
    ensures
        toc_lookup(v, v[i].0) == Some((v[i].1, v[i].2)),
{
}

impl Toc {
    /// Names are unique.
    pub open spec fn wf(&self) -> bool {
        names_unique(self@)
    }

    /// An empty table.
    pub fn new() -> (r: Toc)
        ensures
            r@ == Seq::<(Seq<u8>, u16, u8)>::empty(),
            r.wf(),
    {
        let r = Toc { entries: Vec::new() };
        assert(r@ =~= Seq::<(Seq<u8>, u16, u8)>::empty());
        r
    }

    /// Number of items.
    pub fn len(&self) -> (r: usize)
        ensures
            r == self@.len(),
    {
        self.entries.len()
    }

    /// The item at `i`.
    pub fn entry(&self, i: usize) -> (r: &TocEntry)
        requires
            i < self@.len(),
        ensures
            entry_view(*r) == self@[i as int],
    {
        &self.entries[i]
    }

    /// Index of the item named `name`.
    pub fn find(&self, name: &[u8]) -> (r: Option<usize>)
        ensures
            r matches Some(i) ==> i < self@.len() && self@[i as int].0 == name@,
            r is None ==> forall|i: int| 0 <= i < self@.len() ==> self@[i].0 != name@,
            r is None <==> toc_lookup(self@, name@) is None,
            self.wf() && r is Some ==> toc_lookup(self@, name@) == Some(
                (self@[r->0 as int].1, self@[r->0 as int].2),
            ),
    {
        let mut i: usize = 0;
        while i < self.entries.len()
            invariant
                i <= self@.len(),
                self@.len() == self.entries@.len(),
                forall|k: int| 0 <= k < i ==> self@[k].0 != name@,
            decreases self@.len() - i,
        {
            let e = &self.entries[i];
            assert(self@[i as int] == entry_view(*e));
            if bytes_eq(e.name.as_slice(), name) {
                proof {
                    if self.wf() {
                        lemma_lookup_at(self@, i as int);
                    }
                }
                return Some(i);
            }
            i = i + 1;
        }
        None
    }

    /// Index of the first item with id `id`.
    pub fn find_id(&self, id: u16) -> (r: Option<usize>)
        ensures
            r matches Some(i) ==> i < self@.len() && first_id(self@, id) == Some(i as int),
            r is None ==> first_id(self@, id) is None,
    {
        let mut i: usize = 0;
        while i < self.entries.len()
            invariant
                i <= self@.len(),
                self@.len() == self.entries@.len(),
                forall|k: int| 0 <= k < i ==> self@[k].1 != id,
            decreases self@.len() - i,
        {
            assert(self@[i as int] == entry_view(self.entries@[i as int]));
            if self.entries[i].id == id {
                proof {
                    let v = self@;
                    assert(v[i as int].1 == id && forall|k: int| 0 <= k < i ==> v[k].1 != id);
                    let j = choose|j: int|
                        0 <= j < v.len() && v[j].1 == id && forall|k: int| 0 <= k < j ==> v[k].1 != id;
                    if j < i {
                        assert(v[j].1 != id);
                    } else if j > i {
                        assert(v[i as int].1 != id);
                    }
                }
                return Some(i);
            }
            i = i + 1;
        }
        None
    }

    /// Adds `entry`; an item of the same name is replaced.
    pub fn insert(&mut self, entry: TocEntry)
        requires
            old(self).wf(),
        ensures
            final(self).wf(),
            toc_lookup(final(self)@, entry.name@) == Some((entry.id, entry.type_byte)),
            forall|n: Seq<u8>| n != entry.name@ ==> toc_lookup(final(self)@, n) == toc_lookup(
                old(self)@,
                n,
            ),
    {
        let found = self.find(entry.name.as_slice());
        let ghost ev = entry_view(entry);
        match found {
            Some(i) => {
                self.entries.set(i, entry);
                proof {
                    assert(self@ =~= old(self)@.update(i as int, ev));
                    assert forall|n: Seq<u8>| n != ev.0 implies toc_lookup(self@, n) == toc_lookup(
                        old(self)@,
                        n,
                    ) by {
                        if exists|k: int| 0 <= k < self@.len() && self@[k].0 == n {
                            let k = choose|k: int| 0 <= k < self@.len() && self@[k].0 == n;
                            assert(old(self)@[k].0 == n);
                        }
                        if exists|k: int| 0 <= k < old(self)@.len() && old(self)@[k].0 == n {
                            let k = choose|k: int| 0 <= k < old(self)@.len() && old(self)@[k].0 == n;
                            assert(self@[k].0 == n);
                        }
                    }
                    lemma_lookup_at(self@, i as int);
                }
            },
            None => {
                self.entries.push(entry);
                proof {
                    assert(self@ =~= old(self)@.push(ev));
                    assert forall|n: Seq<u8>| n != ev.0 implies toc_lookup(self@, n) == toc_lookup(
                        old(self)@,
                        n,
                    ) by {
                        if exists|k: int| 0 <= k < self@.len() && self@[k].0 == n {
                            let k = choose|k: int| 0 <= k < self@.len() && self@[k].0 == n;
                            assert(old(self)@[k].0 == n);
                        }
                        if exists|k: int| 0 <= k < old(self)@.len() && old(self)@[k].0 == n {
                            let k = choose|k: int| 0 <= k < old(self)@.len() && old(self)@[k].0 == n;
                            assert(self@[k].0 == n);
                        }
                    }
                    lemma_lookup_at(self@, old(self)@.len() as int);
                }
            },
        }
    }

    /// Appends `entry` where no item has its name; returns `false`, and
    /// changes nothing, where one has.
    pub fn push_new(&mut self, entry: TocEntry) -> (r: bool)
        requires
            old(self).wf(),
        ensures
            final(self).wf(),
            r == (forall|i: int| 0 <= i < old(self)@.len() ==> old(self)@[i].0 != entry.name@),
            r ==> final(self)@ == old(self)@.push(entry_view(entry)),
            !r ==> final(self)@ == old(self)@,
    {
        match self.find(entry.name.as_slice()) {
            Some(_) => false,
            None => {
                let ghost ev = entry_view(entry);
                self.entries.push(entry);
                assert(self@ =~= old(self)@.push(ev));
                true
            },
        }
    }

    /// The names of all items.
    pub fn names(&self) -> (r: Vec<Vec<u8>>)
        ensures
            r@.len() == self@.len(),
            forall|i: int| 0 <= i < r@.len() ==> r@[i]@ == self@[i].0,
    {
        let mut out: Vec<Vec<u8>> = Vec::new();
        let mut i: usize = 0;
        while i < self.entries.len()
            invariant
                i <= self@.len(),
                self@.len() == self.entries@.len(),
                out@.len() == i,
                forall|k: int| 0 <= k < i ==> out@[k]@ == self@[k].0,
            decreases self@.len() - i,
        {
            let mut n: Vec<u8> = Vec::new();
            let src = self.entries[i].name.as_slice();
            extend_range(&mut n, src, 0, src.len());
            assert(n@ =~= self@[i as int].0);
            out.push(n);
            i = i + 1;
        }
        out
    }
}

/// A discovery in progress: the `INFO` reply gives the count, then items
/// are fetched one by one in index order.
pub struct TocFetch {
    port: u8,
    info: Option<TocInfo>,
    next: u16,
    toc: Toc,
}

impl TocFetch {
    /// The port of the subsystem.
    pub closed spec fn port_spec(&self) -> u8 {
        self.port
    }

    /// The `INFO` reply, once it came.
    pub closed spec fn info_spec(&self) -> Option<TocInfo> {
        self.info
    }

    /// Index of the next item to fetch.
    pub closed spec fn next_spec(&self) -> u16 {
        self.next
    }

    /// The items fetched so far.
    pub closed spec fn toc_spec(&self) -> Seq<(Seq<u8>, u16, u8)> {
        self.toc@
    }

    /// The port is valid, the table well formed, and no item is fetched
    /// before the count is known or beyond it.
    pub closed spec fn wf(&self) -> bool {
        &&& self.port < 16
        &&& self.toc.wf()
        &&& match self.info {
            None => self.next == 0,
            Some(i) => self.next <= i.count,
        }
    }

    /// A discovery on `port`, and its first request, `INFO`.
    pub fn new(port: u8) -> (r: (TocFetch, Packet))
        requires
            port < 16,
        ensures
            r.0.wf(),
            r.0.port_spec() == port,
            r.0.info_spec() is None,
            r.0.toc_spec().len() == 0,
            r.1.wf() && r.1.port == port && r.1.channel == 0 && r.1.data@ == seq![3u8],
    {
        (TocFetch { port, info: None, next: 0, toc: Toc::new() }, toc_info_request(port))
    }

    /// Whether every item has been fetched.
    pub fn is_complete(&self) -> (r: bool)
        requires
            self.wf(),
        ensures
            r == (self.info_spec() matches Some(i) && self.next_spec() == i.count),
    {
        match self.info {
            Some(i) => self.next == i.count,
            None => false,
        }
    }

    /// Takes the `INFO` reply. Returns the request of item 0, or `None` for
    /// an empty table. `ProtocolError` where the reply is malformed, or
    /// where the count is already known; then nothing changes.
    pub fn on_info(&mut self, data: &[u8]) -> (r: Result<Option<Packet>, Error>)
        requires
            old(self).wf(),
        ensures
            final(self).wf(),
            final(self).port_spec() == old(self).port_spec(),
            final(self).toc_spec() == old(self).toc_spec(),
            old(self).info_spec() is Some ==> r == Err::<Option<Packet>, Error>(Error::ProtocolError)
                && final(self).info_spec() == old(self).info_spec(),
            old(self).info_spec() is None ==> match parse_toc_info_spec(data@) {
                Err(e) => r == Err::<Option<Packet>, Error>(e) && final(self).info_spec() is None,
                Ok(i) => final(self).info_spec() == Some(i) && final(self).next_spec() == 0 && (if i.count
                    == 0 {
                    r == Ok::<Option<Packet>, Error>(None)
                } else {
                    r matches Ok(Some(p)) && p.wf() && p.port == old(self).port_spec() && p.channel == 0
                        && p.data@ == seq![2u8, 0u8, 0u8]
                }),
            },
    {
        if self.info.is_some() {
            return Err(Error::ProtocolError);
        }
        match parse_toc_info(data) {
            Ok(i) => {
                self.info = Some(i);
                if i.count == 0 {
                    Ok(None)
                } else {
                    Ok(Some(toc_item_request(self.port, 0)))
                }
            },
            Err(e) => Err(e),
        }
    }

    /// Takes the reply to the outstanding `GET_ITEM`: the item is added and
    /// the request of the next one returned, or `None` when the table is
    /// complete. `ProtocolError` where the reply is malformed or no item is
    /// outstanding; then nothing changes.
    pub fn on_item(&mut self, data: &[u8]) -> (r: Result<Option<Packet>, Error>)
        requires
            old(self).wf(),
        ensures
            final(self).wf(),
            final(self).port_spec() == old(self).port_spec(),
            final(self).info_spec() == old(self).info_spec(),
            !(old(self).info_spec() matches Some(i) && old(self).next_spec() < i.count) ==> r == Err::<
                Option<Packet>,
                Error,
            >(Error::ProtocolError) && final(self).toc_spec() == old(self).toc_spec(),
            (old(self).info_spec() matches Some(i) && old(self).next_spec() < i.count) && !item_reply_ok(
                data@,
            ) ==> r == Err::<Option<Packet>, Error>(Error::ProtocolError) && final(self).toc_spec()
                == old(self).toc_spec() && final(self).next_spec() == old(self).next_spec(),
            (old(self).info_spec() matches Some(i) && old(self).next_spec() < i.count) && item_reply_ok(
                data@,
            ) ==> final(self).next_spec() == old(self).next_spec() + 1 && toc_lookup(
                final(self).toc_spec(),
                item_full_name(data@),
            ) == Some((le16_at(data@, 1), data@[3])) && (forall|n: Seq<u8>|
                n != item_full_name(data@) ==> toc_lookup(final(self).toc_spec(), n) == toc_lookup(
                    old(self).toc_spec(),
                    n,
                )) && (if final(self).next_spec() == old(self).info_spec()->0.count {
                r == Ok::<Option<Packet>, Error>(None)
            } else {
                r matches Ok(Some(p)) && p.wf() && p.port == old(self).port_spec() && p.channel == 0
                    && p.data@ == seq![
                    2u8,
                    (final(self).next_spec() % 256) as u8,
                    (final(self).next_spec() / 256) as u8,
                ]
            }),
    {
        let count = match self.info {
            Some(i) => i.count,
            None => {
                return Err(Error::ProtocolError);
            },
        };
        if self.next >= count {
            return Err(Error::ProtocolError);
        }
        match parse_toc_item(data) {
            Ok(e) => {
                self.toc.insert(e);
                self.next = self.next + 1;
                if self.next == count {
                    Ok(None)
                } else {
                    Ok(Some(toc_item_request(self.port, self.next)))
                }
            },
            Err(e) => Err(e),
        }
    }

    /// The CRC32 that the device announced.
    pub fn crc32(&self) -> (r: Option<u32>)
        ensures
            r == match self.info_spec() {
                Some(i) => Some(i.crc32),
                None => None,
            },
    {
        match self.info {
            Some(i) => Some(i.crc32),
            None => None,
        }
    }

    /// The table fetched.
    pub fn into_toc(self) -> (r: Toc)
        requires
            self.wf(),
        ensures
            r.wf(),
            r@ == self.toc_spec(),
    {
        self.toc
    }
}

/// What an `INFO` reply gives.
pub open spec fn parse_toc_info_spec(data: Seq<u8>) -> Result<TocInfo, Error> {
    if data.len() >= 7 && data[0] == 3 {
        Ok(TocInfo { count: le16_at(data, 1), crc32: le32_at(data, 3) })
    } else {
        Err(Error::ProtocolError)
    }
}

} // verus!

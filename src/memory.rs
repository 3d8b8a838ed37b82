use rangemap::RangeMap;
use vstd::prelude::*;

verus! {

#[verifier::external_type_specification]
#[verifier::external_body]
#[verifier::reject_recursive_types(K)]
#[verifier::reject_recursive_types(V)]
pub struct ExRangeMap<K, V>(RangeMap<K, V>);

/// What a range map holds, address by address: each covered address with the
/// value of the range that covers it.
pub uninterp spec fn range_entries(m: RangeMap<u64, (u64, u64)>) -> Map<u64, (u64, u64)>;

/// Relies on `RangeMap::new`: a new map covers no address.
#[verifier::external_body]
fn range_map_new() -> (r: RangeMap<u64, (u64, u64)>)
    ensures
        range_entries(r) == no_segments(),
{
    RangeMap::new()
}

/// Relies on `RangeMap::insert`: every address of `start..end` now maps to
/// `value`, every other address keeps what it had. It panics on an empty range.
#[verifier::external_body]
fn range_map_insert(m: &mut RangeMap<u64, (u64, u64)>, start: u64, end: u64, value: (u64, u64))
    requires
        start < end,
    ensures
        forall|k: u64|
            #![trigger range_entries(*final(m)).contains_key(k)]
            #![trigger range_entries(*final(m))[k]]
            if start <= k < end {
                range_entries(*final(m)).contains_key(k) && range_entries(*final(m))[k] == value
            } else {
                range_entries(*final(m)).contains_key(k) == range_entries(*old(m)).contains_key(k)
                    && range_entries(*final(m))[k] == range_entries(*old(m))[k]
            },
{
    m.insert(start..end, value)
}

/// Relies on `RangeMap::get`: the value of the range that covers `key`, if any.
#[verifier::external_body]
fn range_map_get(m: &RangeMap<u64, (u64, u64)>, key: u64) -> (r: Option<(u64, u64)>)
    ensures
        r == (if range_entries(*m).contains_key(key) {
            Some(range_entries(*m)[key])
        } else {
            None
        }),
{
    m.get(&key).copied()
}

/// Relies on `RangeMap::overlaps`: whether some address of `start..end` is
/// covered.
#[verifier::external_body]
fn range_map_overlaps(m: &RangeMap<u64, (u64, u64)>, start: u64, end: u64) -> (r: bool)
    requires
        start < end,
    ensures
        r == (exists|k: u64| start <= k < end && #[trigger] range_entries(*m).contains_key(k)),
{
    m.overlaps(&(start..end))
}

/// The map of an image with no segment.
pub open spec fn no_segments() -> Map<u64, (u64, u64)> {
    Map::empty()
}

/// Each covered address maps to `(segment_start, backing_offset)` of its
/// segment, and the segment covers every address from its start up to it.
pub open spec fn segments_contiguous(m: Map<u64, (u64, u64)>) -> bool {
    forall|k: u64, j: u64|
        #![trigger m.contains_key(k), m.contains_key(j)]
        m.contains_key(k) ==> m[k].0 <= k && (m[k].0 <= j <= k ==> m.contains_key(j) && m[j] == m[k])
}

/// Whether some address of `[start, end)` lies in a segment already.
pub open spec fn covers_any(m: Map<u64, (u64, u64)>, start: u64, end: u64) -> bool {
    exists|k: u64| start <= k < end && #[trigger] m.contains_key(k)
}

/// The map after a segment `[start, end)` with backing offset `offset` is added.
pub open spec fn with_segment(m: Map<u64, (u64, u64)>, start: u64, end: u64, offset: u64) -> Map<u64, (u64, u64)> {
    Map::new(
        |k: u64| m.contains_key(k) || start <= k < end,
        |k: u64| if start <= k < end { (start, offset) } else { m[k] },
    )
}

/// The segments of a loaded image, keyed by virtual address.
pub struct AddressMap {
    ranges: RangeMap<u64, (u64, u64)>,
}

impl View for AddressMap {
    type V = Map<u64, (u64, u64)>;

    closed spec fn view(&self) -> Map<u64, (u64, u64)> {
        range_entries(self.ranges)
    }
}

impl AddressMap {
    /// Segments never overlap, so each address lies in at most one of them.
    pub open spec fn wf(&self) -> bool {
        segments_contiguous(self@)
    }

    /// An address map with no segment.
    pub fn new() -> (r: AddressMap)
        ensures
            r@ == no_segments(),
            r.wf(),
    {
        AddressMap { ranges: range_map_new() }
    }

    /// Adds the segment `[start, end)` backed from `offset` on. An empty range
    /// or one that overlaps a segment already there is rejected: the result is
    /// then `false` and the map is unchanged.
    pub fn insert(&mut self, start: u64, end: u64, offset: u64) -> (r: bool)
        requires
            old(self).wf(),
        ensures
            final(self).wf(),
            r == (start < end && !covers_any(old(self)@, start, end)),
            r ==> final(self)@ == with_segment(old(self)@, start, end, offset),
            !r ==> final(self)@ == old(self)@,
    {
        if start >= end {
            return false;
        }
        if range_map_overlaps(&self.ranges, start, end) {
            return false;
        }
        let ghost before = self@;
        range_map_insert(&mut self.ranges, start, end, (start, offset));
        assert(self@ =~= with_segment(before, start, end, offset));
        assert forall|k: u64, j: u64|
            #![trigger self@.contains_key(k), self@.contains_key(j)]
            self@.contains_key(k) implies self@[k].0 <= k && (self@[k].0 <= j <= k
                ==> self@.contains_key(j) && self@[j] == self@[k]) by {
            if !(start <= k < end) {
                assert(before.contains_key(k));
                if before[k].0 <= j <= k {
                    assert(before.contains_key(j));
                    if start <= j < end {
                        assert(covers_any(before, start, end));
                    }
                }
            }
        }
        true
    }

    /// The start and backing offset of the segment that holds `vaddr`.
    pub fn lookup(&self, vaddr: u64) -> (r: Option<(u64, u64)>)
        ensures
            r == (if self@.contains_key(vaddr) {
                Some(self@[vaddr])
            } else {
                None
            }),
    {
        range_map_get(&self.ranges, vaddr)
    }
}

/// The little-endian 32-bit value of the four bytes of `b` from `i` on.
pub open spec fn le_u32(b: Seq<u8>, i: int) -> u32 {
    (b[i] as int + b[i + 1] as int * 0x100 + b[i + 2] as int * 0x1_0000 + b[i + 3] as int * 0x100_0000) as u32
}

/// All four addresses `a .. a + 3` lie in the segment that holds `a`.
pub open spec fn span_mapped(m: Map<u64, (u64, u64)>, a: u64) -> bool {
    a + 3 <= u64::MAX && forall|k: u64|
        #![trigger m.contains_key(k)]
        a <= k <= a + 3 ==> m.contains_key(k) && m[k] == m[a]
}

/// Where the byte at `a` lies in the backing store.
pub open spec fn backing_index(m: Map<u64, (u64, u64)>, a: u64) -> int {
    m[a].1 + (a - m[a].0)
}

/// The word at `a`: present when the four addresses from `a` on lie in one
/// segment and the backing store holds their bytes.
pub open spec fn read_word(m: Map<u64, (u64, u64)>, b: Seq<u8>, a: u64) -> Option<u32> {
    if span_mapped(m, a) && backing_index(m, a) + 4 <= b.len() {
        Some(le_u32(b, backing_index(m, a)))
    } else {
        None
    }
}

/// The address space of a loaded image: its segments over a read-only backing
/// store.
pub struct Memory {
    map: AddressMap,
    bytes: Vec<u8>,
}

impl Memory {
    /// The segments, address by address.
    pub closed spec fn segments(&self) -> Map<u64, (u64, u64)> {
        self.map@
    }

    /// The backing store.
    pub closed spec fn backing(&self) -> Seq<u8> {
        self.bytes@
    }

    /// The segments do not overlap.
    pub closed spec fn wf(&self) -> bool {
        self.map.wf()
    }

    /// A memory over `mapping`, whose segments read from `bytes`.
    pub fn new(mapping: AddressMap, bytes: Vec<u8>) -> (r: Memory)
        requires
            mapping.wf(),
        ensures
            r.wf(),
            r.segments() == mapping@,
            r.backing() == bytes@,
    {
        Memory { map: mapping, bytes }
    }

    /// The little-endian word at `vaddr`, or `None` where the four bytes do
    /// not lie in one segment or past the end of the backing store.
    pub fn read_u32(&self, vaddr: u64) -> (r: Option<u32>)
        requires
            self.wf(),
        ensures
            r == read_word(self.segments(), self.backing(), vaddr),
    {
        let ghost m = self.map@;
        let first = self.map.lookup(vaddr);
        let (start, offset) = match first {
            Some(v) => v,
            None => {
                return None;
            },
        };
        if vaddr > u64::MAX - 3 {
            return None;
        }
        let last = self.map.lookup(vaddr + 3);
        if last != first {
            assert(!span_mapped(m, vaddr)) by {
                if span_mapped(m, vaddr) {
                    assert(m.contains_key((vaddr + 3) as u64));
                }
            }
            return None;
        }
        assert(span_mapped(m, vaddr)) by {
            assert(m.contains_key((vaddr + 3) as u64));
            assert forall|k: u64| #![trigger m.contains_key(k)] vaddr <= k <= vaddr + 3 implies
                m.contains_key(k) && m[k] == m[vaddr] by {
                assert(m.contains_key((vaddr + 3) as u64) && m.contains_key(k));
            }
        }
        assert(m.contains_key(vaddr) && m.contains_key(vaddr));
        let delta = vaddr - start;
        let len = self.bytes.len() as u64;
        if offset > u64::MAX - delta || len < 4 || offset + delta > len - 4 {
            return None;
        }
        let i = (offset + delta) as usize;
        let b0 = self.bytes[i] as u32;
        let b1 = self.bytes[i + 1] as u32;
        let b2 = self.bytes[i + 2] as u32;
        let b3 = self.bytes[i + 3] as u32;
        Some(b0 + b1 * 0x100 + b2 * 0x1_0000 + b3 * 0x100_0000)
    }
}

} // verus!

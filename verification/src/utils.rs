use vstd::prelude::*;

verus! {

/// A file path as the bytes that the operating system uses for it.
#[derive(Clone, Debug, PartialEq, Eq, Hash)]
pub struct RawPath(pub Vec<u8>);

impl View for RawPath {
    type V = Seq<u8>;

    open spec fn view(&self) -> Seq<u8> {
        self.0@
    }
}

/// The bytes of each of a list of paths, in order.
pub open spec fn path_views(paths: Seq<RawPath>) -> Seq<Seq<u8>> {
    paths.map_values(|p: RawPath| p@)
}

impl RawPath {
    /// The path with the given bytes.
    pub fn new(bytes: Vec<u8>) -> (path: RawPath)
        ensures
            path@ == bytes@,
    {
        RawPath(bytes)
    }

    /// Whether two paths are the same, byte for byte.
    pub fn same(&self, other: &RawPath) -> (same: bool)
        ensures
            same == (self@ == other@),
    {
        if self.0.len() != other.0.len() {
            return false;
        }
        let mut i: usize = 0;
        while i < self.0.len()
            invariant
                i <= self.0.len(),
                self.0.len() == other.0.len(),
                forall|j: int| 0 <= j < i ==> self@[j] == other@[j],
            decreases self.0.len() - i,
        {
            if self.0[i] != other.0[i] {
                return false;
            }
            i += 1;
        }
        assert(self@ =~= other@);
        true
    }

    /// A path with the same bytes.
    pub fn duplicate(&self) -> (copy: RawPath)
        ensures
            copy@ == self@,
    {
        let mut bytes: Vec<u8> = Vec::new();
        let mut i: usize = 0;
        while i < self.0.len()
            invariant
                i <= self.0.len(),
                bytes@ == self@.take(i as int),
            decreases self.0.len() - i,
        {
            bytes.push(self.0[i]);
            assert(bytes@ =~= self@.take(i + 1));
            i += 1;
        }
        assert(self@.take(self@.len() as int) =~= self@);
        RawPath(bytes)
    }

    /// Whether the path is one of `paths`.
    pub fn is_among(&self, paths: &Vec<RawPath>) -> (found: bool)
        ensures
            found == path_views(paths@).contains(self@),
    {
        let ghost all = path_views(paths@);
        let mut i: usize = 0;
        while i < paths.len()
            invariant
                i <= paths.len(),
                all == path_views(paths@),
                forall|j: int| 0 <= j < i ==> all[j] != self@,
            decreases paths.len() - i,
        {
            if self.same(&paths[i]) {
                assert(all[i as int] == self@);
                return true;
            }
            i += 1;
        }
        false
    }
}

/// The sections into which a list of `len` items is cut for storing: each
/// holds `size` items, but the last, which holds what is left. Each section
/// is given by its start and its end.
pub open spec fn sections(len: int, size: int, n: int) -> Seq<(usize, usize)>
    decreases n,
{
    if n <= 0 {
        Seq::empty()
    } else {
        let start = (n - 1) * size;
        let end = if n * size < len {
            n * size
        } else {
            len
        };
        sections(len, size, n - 1).push((start as usize, end as usize))
    }
}

/// How many sections of `size` items a list of `len` items has.
pub open spec fn section_count(len: int, size: int) -> int {
    (len + size - 1) / size
}

/// The sections follow one another from the start of the list to its end:
/// section `k` starts where `k` full sections end, and ends one full
/// section further, or where the list ends.
pub proof fn sections_in_order(len: int, size: int, n: int, k: int)
    requires
        0 <= k < n,
    ensures
        sections(len, size, n).len() == n,
        sections(len, size, n)[k] == ((k * size) as usize, (if (k + 1) * size < len {
            (k + 1) * size
        } else {
            len
        }) as usize),
    decreases n,
{
    if k < n - 1 {
        sections_in_order(len, size, n - 1, k);
    } else if n > 1 {
        sections_in_order(len, size, n - 1, 0);
    } else {
        assert(sections(len, size, 0).len() == 0);
    }
}

/// Cuts a list of `len` items into sections of `size` items.
pub fn chunk_ranges(len: usize, size: usize) -> (ranges: Vec<(usize, usize)>)
    requires
        size > 0,
    ensures
        ranges@ == sections(len as int, size as int, section_count(len as int, size as int)),
        ranges@.len() == section_count(len as int, size as int),
        forall|k: int|
            0 <= k < ranges@.len() ==> (#[trigger] ranges@[k]).0 == k * size && ranges@[k].1 == if (
            k + 1) * size < len {
                (k + 1) * size
            } else {
                len as int
            },
{
    let mut ranges: Vec<(usize, usize)> = Vec::new();
    let mut start: usize = 0;
    let ghost mut n: int = 0;
    while start < len
        invariant
            size > 0,
            0 <= n,
            start == if n * size < len {
                n * size
            } else {
                len as int
            },
            ranges@ == sections(len as int, size as int, n),
            n == 0 || (n - 1) * size < len,
        decreases len - start,
    {
        let end = if len - start > size {
            start + size
        } else {
            len
        };
        proof {
            assert(start == n * size);
            assert((n + 1) * size == n * size + size) by (nonlinear_arith);
            assert((n + 1 - 1) * size == n * size);
        }
        ranges.push((start, end));
        proof {
            n = n + 1;
        }
        start = end;
    }
    proof {
        let s = size as int;
        let l = len as int;
        assert(n == section_count(l, s)) by (nonlinear_arith)
            requires
                s > 0,
                0 <= n,
                l >= 0,
                n * s >= l,
                n == 0 || (n - 1) * s < l,
                section_count(l, s) == (l + s - 1) / s,
        ;
        assert forall|k: int| 0 <= k < n implies (#[trigger] ranges@[k]).0 == k * size
            && ranges@[k].1 == if (k + 1) * size < len {
            (k + 1) * size
        } else {
            len as int
        } by {
            sections_in_order(l, s, n, k);
            assert(0 <= k * s <= (n - 1) * s) by (nonlinear_arith)
                requires
                    0 <= k < n,
                    s > 0,
            ;
            assert((k + 1) * s == k * s + s) by (nonlinear_arith);
        }
        if n > 0 {
            sections_in_order(l, s, n, 0);
        }
    }
    ranges
}

} // verus!

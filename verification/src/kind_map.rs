use vstd::prelude::*;

use crate::keyed::{has_key, key_place};
use crate::queries::kind_of_code;
use crate::query::RawQuery;
use crate::symbol::Kind;

verus! {

/// What a map of written queries holds: its keys with their lists, in the
/// order in which the keys were first inserted.
pub uninterp spec fn raw_listed(map: indexmap::IndexMap<u8, Vec<RawQuery>>) -> Seq<
    (u8, Seq<RawQuery>),
>;

/// A map that holds nothing.
///
/// Trusted: this is `indexmap::IndexMap::new`.
#[verifier::external_body]
fn raw_empty() -> (map: indexmap::IndexMap<u8, Vec<RawQuery>>)
    ensures
        raw_listed(map) == Seq::<(u8, Seq<RawQuery>)>::empty(),
{
    indexmap::IndexMap::new()
}

/// Puts a list under a key, and hands back the list that stood there.
///
/// Trusted: this is `indexmap::IndexMap::insert`. A key that the map has
/// keeps its place and gets the new list, and the old list comes back; a
/// new key goes to the end with its list, and nothing comes back.
#[verifier::external_body]
fn raw_insert(map: &mut indexmap::IndexMap<u8, Vec<RawQuery>>, key: u8, list: Vec<RawQuery>) -> (was:
    Option<Vec<RawQuery>>)
    ensures
        raw_listed(*final(map)) == if has_key(raw_listed(*old(map)), key) {
            raw_listed(*old(map)).update(key_place(raw_listed(*old(map)), key), (key, list@))
        } else {
            raw_listed(*old(map)).push((key, list@))
        },
        match was {
            Some(before) => has_key(raw_listed(*old(map)), key) && before@ == raw_listed(
                *old(map),
            )[key_place(raw_listed(*old(map)), key)].1,
            None => !has_key(raw_listed(*old(map)), key),
        },
{
    map.insert(key, list)
}

/// How many keys the map holds.
///
/// Trusted: this is `indexmap::IndexMap::len`.
#[verifier::external_body]
fn raw_len(map: &indexmap::IndexMap<u8, Vec<RawQuery>>) -> (len: usize)
    ensures
        len == raw_listed(*map).len(),
{
    map.len()
}

/// The key and the list at a place in the order, if the place is taken.
///
/// Trusted: this is `indexmap::IndexMap::get_index`.
#[verifier::external_body]
fn raw_at(map: &indexmap::IndexMap<u8, Vec<RawQuery>>, place: usize) -> (entry: Option<
    (u8, &Vec<RawQuery>),
>)
    ensures
        match entry {
            Some(e) => place < raw_listed(*map).len() && e.0 == raw_listed(*map)[place as int].0
                && e.1@ == raw_listed(*map)[place as int].1,
            None => place >= raw_listed(*map).len(),
        },
{
    map.get_index(place).map(|(key, list)| (*key, list))
}

/// The written queries of one language, by symbol kind. The kinds keep the
/// order in which they were first entered; no kind is entered twice.
#[derive(Debug)]
pub struct KindMap {
    /// The lists, each under the number of its kind.
    pub map: indexmap::IndexMap<u8, Vec<RawQuery>>,
}

impl View for KindMap {
    type V = Seq<(Kind, Seq<RawQuery>)>;

    open spec fn view(&self) -> Seq<(Kind, Seq<RawQuery>)> {
        raw_listed(self.map).map_values(|e: (u8, Seq<RawQuery>)| (kind_of_code(e.0), e.1))
    }
}

/// No kind stands twice among the entries.
pub open spec fn distinct_kinds<T>(entries: Seq<(Kind, Seq<T>)>) -> bool {
    forall|i: int, j: int|
        0 <= i < j < entries.len() ==> (#[trigger] entries[i]).0 != (#[trigger] entries[j]).0
}

/// Whether a kind has an entry.
pub open spec fn has_kind<T>(entries: Seq<(Kind, Seq<T>)>, kind: Kind) -> bool {
    exists|i: int| 0 <= i < entries.len() && (#[trigger] entries[i]).0 == kind
}

/// Where the entry of a kind stands. Meant for a kind that has one.
pub open spec fn place_of<T>(entries: Seq<(Kind, Seq<T>)>, kind: Kind) -> int {
    choose|i: int| 0 <= i < entries.len() && (#[trigger] entries[i]).0 == kind
}

/// The items of a kind: those of its entry, none where it has no entry.
pub open spec fn lookup<T>(entries: Seq<(Kind, Seq<T>)>, kind: Kind) -> Seq<T> {
    if has_kind(entries, kind) {
        entries[place_of(entries, kind)].1
    } else {
        Seq::empty()
    }
}

/// Those of the first `n` entries whose kind is not among `taken`, in
/// order.
pub open spec fn without<T>(entries: Seq<(Kind, Seq<T>)>, taken: Seq<(Kind, Seq<T>)>, n: int)
    -> Seq<(Kind, Seq<T>)>
    decreases n,
{
    if n <= 0 {
        Seq::empty()
    } else {
        let before = without(entries, taken, n - 1);
        if has_kind(taken, entries[n - 1].0) {
            before
        } else {
            before.push(entries[n - 1])
        }
    }
}

/// What merging yields. Every kind of `provided` keeps its place and lists
/// the inherited items of the kind first, then its own. The kinds that only
/// `inherited` has follow, in their order, with their items.
pub open spec fn merged<T>(inherited: Seq<(Kind, Seq<T>)>, provided: Seq<(Kind, Seq<T>)>) -> Seq<
    (Kind, Seq<T>),
> {
    provided.map_values(|e: (Kind, Seq<T>)| (e.0, lookup(inherited, e.0) + e.1)) + without(
        inherited,
        provided,
        inherited.len() as int,
    )
}

/// In a list without repeated kinds, the items of the kind of entry `i`
/// are those of entry `i`.
pub proof fn lookup_at<T>(entries: Seq<(Kind, Seq<T>)>, i: int)
    requires
        distinct_kinds(entries),
        0 <= i < entries.len(),
    ensures
        has_kind(entries, entries[i].0),
        lookup(entries, entries[i].0) == entries[i].1,
{
    let kind = entries[i].0;
    assert(has_kind(entries, kind));
    let p = place_of(entries, kind);
    if p < i {
        assert(entries[p].0 != entries[i].0);
    } else if i < p {
        assert(entries[i].0 != entries[p].0);
    }
}

/// Every entry of `without` is an entry of the list, with a kind that is
/// not taken; and every such entry among the first `n` is in it.
pub proof fn without_members<T>(
    entries: Seq<(Kind, Seq<T>)>,
    taken: Seq<(Kind, Seq<T>)>,
    n: int,
)
    requires
        0 <= n <= entries.len(),
    ensures
        forall|k: int|
            0 <= k < without(entries, taken, n).len() ==> {
                let e = #[trigger] without(entries, taken, n)[k];
                !has_kind(taken, e.0) && exists|i: int|
                    0 <= i < n && #[trigger] entries[i] == e
            },
        forall|i: int|
            0 <= i < n && !has_kind(taken, (#[trigger] entries[i]).0) ==> without(
                entries,
                taken,
                n,
            ).contains(entries[i]),
        distinct_kinds(entries) ==> distinct_kinds(without(entries, taken, n)),
    decreases n,
{
    if n > 0 {
        without_members(entries, taken, n - 1);
        let before = without(entries, taken, n - 1);
        let now = without(entries, taken, n);
        let last = entries[n - 1];
        if has_kind(taken, last.0) {
        } else {
            assert(now == before.push(last));
            assert forall|k: int| 0 <= k < now.len() implies {
                let e = #[trigger] now[k];
                !has_kind(taken, e.0) && exists|i: int| 0 <= i < n && #[trigger] entries[i] == e
            } by {
                if k < before.len() {
                    let e = before[k];
                    let i = choose|i: int| 0 <= i < n - 1 && #[trigger] entries[i] == e;
                    assert(entries[i] == now[k]);
                } else {
                    assert(entries[n - 1] == now[k]);
                }
            }
            assert forall|i: int|
                0 <= i < n && !has_kind(taken, (#[trigger] entries[i]).0) implies now.contains(
                entries[i],
            ) by {
                if i < n - 1 {
                    let k = choose|k: int| 0 <= k < before.len() && before[k] == entries[i];
                    assert(now[k] == entries[i]);
                } else {
                    assert(now[before.len() as int] == entries[i]);
                }
            }
            if distinct_kinds(entries) {
                assert forall|a: int, b: int| 0 <= a < b < now.len() implies (#[trigger] now[a]).0
                    != (#[trigger] now[b]).0 by {
                    if b < before.len() {
                        assert(before[a].0 != before[b].0);
                    } else {
                        let e = before[a];
                        let i = choose|i: int| 0 <= i < n - 1 && #[trigger] entries[i] == e;
                        assert(entries[i].0 != entries[n - 1].0);
                    }
                }
            }
        }
    }
}

/// Merging keeps the kinds apart, and lists under every kind the inherited
/// items first and the provided items after them.
pub proof fn merged_lookup<T>(
    inherited: Seq<(Kind, Seq<T>)>,
    provided: Seq<(Kind, Seq<T>)>,
    kind: Kind,
)
    requires
        distinct_kinds(inherited),
        distinct_kinds(provided),
    ensures
        distinct_kinds(merged(inherited, provided)),
        has_kind(merged(inherited, provided), kind) <==> has_kind(inherited, kind) || has_kind(
            provided,
            kind,
        ),
        lookup(merged(inherited, provided), kind) == lookup(inherited, kind) + lookup(
            provided,
            kind,
        ),
{
    let all = merged(inherited, provided);
    let head = provided.map_values(|e: (Kind, Seq<T>)| (e.0, lookup(inherited, e.0) + e.1));
    let tail = without(inherited, provided, inherited.len() as int);
    without_members(inherited, provided, inherited.len() as int);
    assert forall|a: int, b: int| 0 <= a < b < all.len() implies (#[trigger] all[a]).0 != (
    #[trigger] all[b]).0 by {
        if b < head.len() {
            assert(provided[a].0 != provided[b].0);
        } else if a < head.len() {
            let e = tail[b - head.len()];
            assert(!has_kind(provided, e.0));
            assert(provided[a].0 == all[a].0);
        } else {
            assert(tail[a - head.len()].0 != tail[b - head.len()].0);
        }
    }
    if has_kind(provided, kind) {
        let p = place_of(provided, kind);
        lookup_at(provided, p);
        assert(all[p] == (kind, lookup(inherited, kind) + provided[p].1));
        lookup_at(all, p);
    } else if has_kind(inherited, kind) {
        let p = place_of(inherited, kind);
        lookup_at(inherited, p);
        assert(tail.contains(inherited[p]));
        let k = choose|k: int| 0 <= k < tail.len() && tail[k] == inherited[p];
        assert(all[head.len() + k] == inherited[p]);
        lookup_at(all, head.len() + k);
        assert(lookup(inherited, kind) + Seq::<T>::empty() =~= lookup(inherited, kind));
    } else {
        if has_kind(all, kind) {
            let q = place_of(all, kind);
            if q < head.len() {
                assert(provided[q].0 == kind);
            } else {
                let e = tail[q - head.len()];
                let i = choose|i: int| 0 <= i < inherited.len() && #[trigger] inherited[i] == e;
                assert(inherited[i].0 == kind);
            }
        }
        assert(Seq::<T>::empty() + Seq::<T>::empty() =~= Seq::<T>::empty());
    }
}

impl KindMap {
    /// Every key is the number of a kind.
    pub open spec fn keys_are_kinds(&self) -> bool {
        forall|i: int|
            0 <= i < raw_listed(self.map).len() ==> (#[trigger] raw_listed(self.map)[i]).0 < 16
    }

    /// Every key is the number of a kind, and no kind is entered twice.
    pub open spec fn wf(&self) -> bool {
        &&& self.keys_are_kinds()
        &&& distinct_kinds(self@)
    }

    /// A map without entries.
    pub fn new() -> (map: Self)
        ensures
            map@ == Seq::<(Kind, Seq<RawQuery>)>::empty(),
            map.wf(),
    {
        let map = KindMap { map: raw_empty() };
        assert(map@ =~= Seq::empty());
        map
    }

    /// The number of kinds.
    pub fn len(&self) -> (len: usize)
        ensures
            len == self@.len(),
    {
        raw_len(&self.map)
    }

    /// The kind at a place in the order, with its queries; nothing where
    /// the place is beyond the last kind, or where the key there is the
    /// number of no kind.
    pub fn at(&self, place: usize) -> (entry: Option<(Kind, &Vec<RawQuery>)>)
        ensures
            entry matches Some(e) ==> place < self@.len() && e.0 == self@[place as int].0 && e.1@
                == self@[place as int].1,
            self.keys_are_kinds() ==> (entry is Some <==> place < self@.len()),
    {
        match raw_at(&self.map, place) {
            Some((code, list)) => match Kind::from_code(code) {
                Some(kind) => {
                    proof {
                        kind.codes_are_distinct(kind_of_code(code));
                    }
                    Some((kind, list))
                },
                None => None,
            },
            None => None,
        }
    }

    /// Whether every key is the number of a kind, and no kind is entered
    /// twice.
    pub fn is_well_formed(&self) -> (ok: bool)
        ensures
            ok == self.wf(),
    {
        let count = self.len();
        let mut j: usize = 0;
        while j < count
            invariant
                j <= count,
                count == self@.len(),
                forall|a: int| 0 <= a < j ==> (#[trigger] raw_listed(self.map)[a]).0 < 16,
                forall|a: int, b: int|
                    0 <= a < b < j ==> (#[trigger] self@[a]).0 != (#[trigger] self@[b]).0,
            decreases count - j,
        {
            let kind = match raw_at(&self.map, j) {
                Some((code, _)) => match Kind::from_code(code) {
                    Some(kind) => {
                        proof {
                            kind.codes_are_distinct(kind_of_code(code));
                        }
                        kind
                    },
                    None => {
                        assert(raw_listed(self.map)[j as int].0 >= 16);
                        return false;
                    },
                },
                None => {
                    return false;
                },
            };
            let mut i: usize = 0;
            while i < j
                invariant
                    i <= j < count,
                    count == self@.len(),
                    kind == self@[j as int].0,
                    forall|a: int| 0 <= a < j ==> (#[trigger] raw_listed(self.map)[a]).0 < 16,
                    forall|a: int| 0 <= a < i ==> (#[trigger] self@[a]).0 != kind,
                decreases j - i,
            {
                assert(raw_listed(self.map)[i as int].0 < 16);
                let other = match raw_at(&self.map, i) {
                    Some((code, _)) => Kind::from_code(code),
                    None => None,
                };
                match other {
                    Some(other) => {
                        proof {
                            other.codes_are_distinct(kind_of_code(raw_listed(self.map)[i as int].0));
                        }
                        if other == kind {
                            assert(self@[i as int].0 == self@[j as int].0);
                            return false;
                        }
                    },
                    None => {},
                }
                i += 1;
            }
            j += 1;
        }
        true
    }

    /// Where the entry of a kind stands.
    pub fn find(&self, kind: Kind) -> (place: Option<usize>)
        requires
            self.wf(),
        ensures
            match place {
                Some(i) => i < self@.len() && self@[i as int].0 == kind,
                None => !has_kind(self@, kind),
            },
    {
        let count = self.len();
        let mut i: usize = 0;
        while i < count
            invariant
                i <= count,
                count == self@.len(),
                self.wf(),
                forall|j: int| 0 <= j < i ==> (#[trigger] self@[j]).0 != kind,
            decreases count - i,
        {
            match self.at(i) {
                Some((other, _)) => {
                    if other == kind {
                        return Some(i);
                    }
                },
                None => {},
            }
            i += 1;
        }
        None
    }

    /// The queries of a kind, if it has an entry.
    pub fn get(&self, kind: Kind) -> (items: Option<&Vec<RawQuery>>)
        requires
            self.wf(),
        ensures
            items is Some <==> has_kind(self@, kind),
            items matches Some(list) ==> list@ == lookup(self@, kind),
    {
        match self.find(kind) {
            Some(i) => {
                proof {
                    lookup_at(self@, i as int);
                }
                match self.at(i) {
                    Some((_, list)) => Some(list),
                    None => None,
                }
            },
            None => None,
        }
    }

    /// Enters the queries of a kind, and hands back those that it had. A
    /// kind that has an entry keeps its place and gets the new queries in
    /// place of the old; a new kind goes to the end.
    pub fn put(&mut self, kind: Kind, items: Vec<RawQuery>) -> (was: Option<Vec<RawQuery>>)
        requires
            old(self).wf(),
        ensures
            final(self).wf(),
            final(self)@ == if has_kind(old(self)@, kind) {
                old(self)@.update(place_of(old(self)@, kind), (kind, items@))
            } else {
                old(self)@.push((kind, items@))
            },
            match was {
                Some(before) => has_kind(old(self)@, kind) && before@ == lookup(old(self)@, kind),
                None => !has_kind(old(self)@, kind),
            },
    {
        let ghost before = raw_listed(self.map);
        let ghost view_before = self@;
        let code = kind.to_code();
        proof {
            kind.codes_are_distinct(kind);
            assert(kind_of_code(code) == kind);
            assert forall|i: int| 0 <= i < before.len() implies ((#[trigger] before[i]).0 == code
                <==> view_before[i].0 == kind) by {
                assert(before[i].0 < 16);
                assert(view_before[i].0 == kind_of_code(before[i].0));
            }
            if has_key(before, code) {
                let p = key_place(before, code);
                assert(view_before[p].0 == kind);
                let q = place_of(view_before, kind);
                assert(before[q].0 == code);
                if p < q {
                    assert(view_before[p].0 != view_before[q].0);
                } else if q < p {
                    assert(view_before[q].0 != view_before[p].0);
                }
                lookup_at(view_before, p);
            } else if has_kind(view_before, kind) {
                let q = place_of(view_before, kind);
                assert(before[q].0 == code);
            }
        }
        let was = raw_insert(&mut self.map, code, items);
        proof {
            let after = raw_listed(self.map);
            if has_key(before, code) {
                let p = key_place(before, code);
                assert(self@ =~= view_before.update(p, (kind, items@)));
                assert forall|a: int, b: int| 0 <= a < b < self@.len() implies (
                #[trigger] self@[a]).0 != (#[trigger] self@[b]).0 by {
                    assert(view_before[a].0 != view_before[b].0);
                }
            } else {
                assert(self@ =~= view_before.push((kind, items@)));
                assert forall|a: int, b: int| 0 <= a < b < self@.len() implies (
                #[trigger] self@[a]).0 != (#[trigger] self@[b]).0 by {
                    if b < view_before.len() {
                        assert(view_before[a].0 != view_before[b].0);
                    } else {
                        assert(before[a].0 != code);
                    }
                }
            }
            assert forall|i: int| 0 <= i < after.len() implies (#[trigger] after[i]).0 < 16 by {
                if i < before.len() {
                    assert(before[i].0 < 16);
                }
            }
        }
        was
    }

    /// Enters the queries of a kind. A kind that has an entry keeps its
    /// place and gets the new queries in place of the old; a new kind goes
    /// to the end.
    pub fn insert(&mut self, kind: Kind, items: Vec<RawQuery>)
        requires
            old(self).wf(),
        ensures
            final(self).wf(),
            final(self)@ == if has_kind(old(self)@, kind) {
                old(self)@.update(place_of(old(self)@, kind), (kind, items@))
            } else {
                old(self)@.push((kind, items@))
            },
            lookup(final(self)@, kind) == items@,
            forall|other: Kind|
                other != kind ==> lookup(final(self)@, other) == lookup(old(self)@, other),
    {
        let ghost before = self@;
        let _ = self.put(kind, items);
        proof {
            let after = self@;
            let place = if has_kind(before, kind) {
                place_of(before, kind)
            } else {
                before.len() as int
            };
            assert(after[place] == (kind, items@));
            lookup_at(after, place);
            assert forall|other: Kind| other != kind implies lookup(after, other) == lookup(
                before,
                other,
            ) by {
                if has_kind(before, other) {
                    let q = place_of(before, other);
                    lookup_at(before, q);
                    assert(after[q] == before[q]);
                    lookup_at(after, q);
                } else if has_kind(after, other) {
                    let q = place_of(after, other);
                    assert(after[q].0 == other);
                    assert(before[q].0 == other);
                }
            }
        }
    }

    /// Lays the provided lists over the inherited ones: under every kind the
    /// inherited queries come first and the provided queries after them.
    pub fn merge(inherited: KindMap, provided: KindMap) -> (map: KindMap)
        requires
            inherited.wf(),
            provided.wf(),
        ensures
            map@ == merged(inherited@, provided@),
            map.wf(),
    {
        let ghost base = inherited@;
        let ghost over = provided@;
        let mut inherited = inherited;
        let mut provided = provided;
        let total = inherited.len();
        let mut i: usize = 0;
        proof {
            assert(provided@ =~= over.map_values(
                |e: (Kind, Seq<RawQuery>)| (e.0, lookup(base.take(0), e.0) + e.1),
            ) + without(base, over, 0)) by {
                assert forall|k: int| 0 <= k < over.len() implies over[k] == (
                    over[k].0,
                    lookup(base.take(0), over[k].0) + over[k].1,
                ) by {
                    assert(!has_kind(base.take(0), over[k].0));
                    assert(Seq::<RawQuery>::empty() + over[k].1 =~= over[k].1);
                }
            }
        }
        while i < total
            invariant
                i <= total,
                total == base.len(),
                distinct_kinds(base),
                distinct_kinds(over),
                inherited.wf(),
                provided.wf(),
                inherited@.len() == base.len(),
                forall|j: int| 0 <= j < base.len() ==> (#[trigger] inherited@[j]).0 == base[j].0,
                forall|j: int| i <= j < base.len() ==> (#[trigger] inherited@[j]).1 == base[j].1,
                provided@ == over.map_values(
                    |e: (Kind, Seq<RawQuery>)| (e.0, lookup(base.take(i as int), e.0) + e.1),
                ) + without(base, over, i as int),
            decreases total - i,
        {
            let ghost seen = base.take(i as int);
            let ghost next = base.take(i + 1);
            let ghost current = provided@;
            let ghost left = inherited@;
            let ghost head = over.map_values(
                |e: (Kind, Seq<RawQuery>)| (e.0, lookup(seen, e.0) + e.1),
            );
            let ghost tail = without(base, over, i as int);
            let kind = match inherited.at(i) {
                Some((kind, _)) => kind,
                None => {
                    return provided;
                },
            };
            assert(kind == base[i as int].0);
            proof {
                lookup_at(left, i as int);
            }
            let mut items = match inherited.put(kind, Vec::new()) {
                Some(items) => items,
                None => Vec::new(),
            };
            proof {
                assert(place_of(left, kind) == i) by {
                    let p = place_of(left, kind);
                    if p < i {
                        assert(left[p].0 != left[i as int].0);
                    } else if i < p {
                        assert(left[i as int].0 != left[p].0);
                    }
                }
                assert(items@ == base[i as int].1);
                assert forall|j: int| 0 <= j < base.len() implies (#[trigger] inherited@[j]).0
                    == base[j].0 by {
                    if j != i {
                        assert(inherited@[j] == left[j]);
                    }
                }
                assert forall|j: int| i + 1 <= j < base.len() implies (#[trigger] inherited@[j]).1
                    == base[j].1 by {
                    assert(inherited@[j] == left[j]);
                }
                // what the kinds seen so far hold does not change for other kinds
                assert(distinct_kinds(next)) by {
                    assert forall|a: int, b: int| 0 <= a < b < next.len() implies (
                    #[trigger] next[a]).0 != (#[trigger] next[b]).0 by {
                        assert(base[a].0 != base[b].0);
                    }
                }
                assert(distinct_kinds(seen)) by {
                    assert forall|a: int, b: int| 0 <= a < b < seen.len() implies (
                    #[trigger] seen[a]).0 != (#[trigger] seen[b]).0 by {
                        assert(base[a].0 != base[b].0);
                    }
                }
                assert(next[i as int] == base[i as int]);
                lookup_at(next, i as int);
                assert forall|other: Kind| other != kind implies lookup(next, other) == lookup(
                    seen,
                    other,
                ) by {
                    if has_kind(seen, other) {
                        let q = place_of(seen, other);
                        assert(next[q] == seen[q]);
                        lookup_at(seen, q);
                        lookup_at(next, q);
                    } else if has_kind(next, other) {
                        let q = place_of(next, other);
                        assert(next[q].0 == other);
                        assert(seen[q].0 == other);
                    }
                }
                if has_kind(seen, kind) {
                    let q = place_of(seen, kind);
                    assert(base[q].0 != base[i as int].0);
                }
                assert(lookup(seen, kind) =~= Seq::<RawQuery>::empty());
                without_members(base, over, i as int);
                // the kind stands among the provided kinds or nowhere
                if !has_kind(over, kind) {
                    assert(!has_kind(current, kind)) by {
                        if has_kind(current, kind) {
                            let q = place_of(current, kind);
                            if q < head.len() {
                                assert(over[q].0 == kind);
                            } else {
                                let e = tail[q - head.len()];
                                let j = choose|j: int| 0 <= j < i && #[trigger] base[j] == e;
                                assert(base[j].0 != base[i as int].0);
                            }
                        }
                    }
                } else {
                    let p = place_of(over, kind);
                    assert(current[p].0 == kind);
                    assert(has_kind(current, kind));
                    lookup_at(current, p);
                }
            }
            let ghost inherited_items = items@;
            match provided.put(kind, items) {
                None => {
                    proof {
                        assert(provided@ == current.push((kind, inherited_items)));
                        assert forall|k: int| 0 <= k < over.len() implies lookup(next, over[k].0)
                            == lookup(seen, over[k].0) by {
                            if over[k].0 == kind {
                                assert(has_kind(over, kind));
                            }
                        }
                        assert(provided@ =~= over.map_values(
                            |e: (Kind, Seq<RawQuery>)| (e.0, lookup(next, e.0) + e.1),
                        ) + without(base, over, i + 1));
                    }
                },
                Some(own) => {
                    let ghost p = place_of(over, kind);
                    let ghost own_items = own@;
                    proof {
                        assert(place_of(current, kind) == p) by {
                            let q = place_of(current, kind);
                            if q < p {
                                assert(current[q].0 != current[p].0);
                            } else if p < q {
                                assert(current[p].0 != current[q].0);
                            }
                        }
                        assert(own_items == Seq::<RawQuery>::empty() + over[p].1);
                        assert(Seq::<RawQuery>::empty() + over[p].1 =~= over[p].1);
                    }
                    let ghost between = provided@;
                    let mut first = match provided.put(kind, Vec::new()) {
                        Some(first) => first,
                        None => Vec::new(),
                    };
                    proof {
                        assert(between == current.update(p, (kind, inherited_items)));
                        assert(between[p].0 == kind);
                        lookup_at(between, p);
                        assert(first@ == inherited_items);
                    }
                    let ghost emptied = provided@;
                    let mut own = own;
                    first.append(&mut own);
                    let ghost both = first@;
                    let _ = provided.put(kind, first);
                    proof {
                        assert(place_of(between, kind) == p) by {
                            let q = place_of(between, kind);
                            if q < p {
                                assert(between[q].0 != between[p].0);
                            } else if p < q {
                                assert(between[p].0 != between[q].0);
                            }
                        }
                        assert(emptied[p].0 == kind);
                        assert(place_of(emptied, kind) == p) by {
                            let q = place_of(emptied, kind);
                            if q < p {
                                assert(emptied[q].0 != emptied[p].0);
                            } else if p < q {
                                assert(emptied[p].0 != emptied[q].0);
                            }
                        }
                        assert(both == base[i as int].1 + over[p].1);
                        assert(provided@ =~= current.update(p, (kind, both)));
                        assert forall|k: int| 0 <= k < over.len() && k != p implies lookup(
                            next,
                            over[k].0,
                        ) == lookup(seen, over[k].0) by {
                            if k < p {
                                assert(over[k].0 != over[p].0);
                            } else {
                                assert(over[p].0 != over[k].0);
                            }
                        }
                        assert(provided@ =~= over.map_values(
                            |e: (Kind, Seq<RawQuery>)| (e.0, lookup(next, e.0) + e.1),
                        ) + without(base, over, i + 1));
                    }
                },
            }
            i += 1;
        }
        proof {
            assert(base.take(i as int) =~= base);
        }
        provided
    }
}

/// Merging lists the inherited items of a kind first and the provided
/// items of the kind after them.
pub proof fn merge_puts_inherited_first(inherited: KindMap, provided: KindMap, kind: Kind)
    requires
        inherited.wf(),
        provided.wf(),
    ensures
        lookup(merged(inherited@, provided@), kind) == lookup(inherited@, kind) + lookup(
            provided@,
            kind,
        ),
{
    merged_lookup(inherited@, provided@, kind);
}

} // verus!

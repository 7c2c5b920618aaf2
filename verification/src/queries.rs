use vstd::prelude::*;

use crate::keyed::{has_key, key_place};
use crate::kind_map::{distinct_kinds, has_kind, place_of};
use crate::query::Query;
use crate::symbol::Kind;

verus! {

/// The insertion-ordered hash map of the `indexmap` crate.
#[verifier::external_type_specification]
#[verifier::external_body]
#[verifier::reject_recursive_types(K)]
#[verifier::reject_recursive_types(V)]
#[verifier::reject_recursive_types(S)]
pub struct ExOrderedMap<K, V, S>(indexmap::IndexMap<K, V, S>);

/// What a map of query lists holds: its keys with their lists, in the order
/// in which the keys were first inserted.
pub uninterp spec fn listed(map: indexmap::IndexMap<u8, Vec<Query>>) -> Seq<(u8, Seq<Query>)>;

/// A map that holds nothing.
///
/// Trusted: this is `indexmap::IndexMap::new`.
#[verifier::external_body]
fn empty_map() -> (map: indexmap::IndexMap<u8, Vec<Query>>)
    ensures
        listed(map) == Seq::<(u8, Seq<Query>)>::empty(),
{
    indexmap::IndexMap::new()
}

/// Puts a list under a key.
///
/// Trusted: this is `indexmap::IndexMap::insert`. A key that the map has
/// keeps its place and gets the new list; a new key goes to the end with
/// its list.
#[verifier::external_body]
fn map_insert(map: &mut indexmap::IndexMap<u8, Vec<Query>>, key: u8, list: Vec<Query>)
    ensures
        listed(*final(map)) == if has_key(listed(*old(map)), key) {
            listed(*old(map)).update(key_place(listed(*old(map)), key), (key, list@))
        } else {
            listed(*old(map)).push((key, list@))
        },
{
    map.insert(key, list);
}

/// How many keys the map holds.
///
/// Trusted: this is `indexmap::IndexMap::len`.
#[verifier::external_body]
fn map_len(map: &indexmap::IndexMap<u8, Vec<Query>>) -> (len: usize)
    ensures
        len == listed(*map).len(),
{
    map.len()
}

/// The key and the list at a place in the order, if the place is taken.
///
/// Trusted: this is `indexmap::IndexMap::get_index`.
#[verifier::external_body]
fn map_at(map: &indexmap::IndexMap<u8, Vec<Query>>, place: usize) -> (entry: Option<
    (u8, &Vec<Query>),
>)
    ensures
        match entry {
            Some(e) => place < listed(*map).len() && e.0 == listed(*map)[place as int].0 && e.1@
                == listed(*map)[place as int].1,
            None => place >= listed(*map).len(),
        },
{
    map.get_index(place).map(|(key, list)| (*key, list))
}

/// The kind that is stored under a number.
pub open spec fn kind_of_code(code: u8) -> Kind {
    if code == 0 {
        Kind::Module
    } else if code == 1 {
        Kind::Macro
    } else if code == 2 {
        Kind::Global
    } else if code == 3 {
        Kind::Constant
    } else if code == 4 {
        Kind::Define
    } else if code == 5 {
        Kind::Class
    } else if code == 6 {
        Kind::Struct
    } else if code == 7 {
        Kind::Enum
    } else if code == 8 {
        Kind::Union
    } else if code == 9 {
        Kind::Alias
    } else if code == 10 {
        Kind::Interface
    } else if code == 11 {
        Kind::Trait
    } else if code == 12 {
        Kind::Type
    } else if code == 13 {
        Kind::Function
    } else if code == 14 {
        Kind::Method
    } else {
        Kind::Impl
    }
}

/// The compiled queries of one language, by kind. The kinds keep the order
/// in which they were entered.
pub struct Queries {
    map: indexmap::IndexMap<u8, Vec<Query>>,
}

impl View for Queries {
    type V = Seq<(Kind, Seq<Query>)>;

    closed spec fn view(&self) -> Seq<(Kind, Seq<Query>)> {
        listed(self.map).map_values(|e: (u8, Seq<Query>)| (kind_of_code(e.0), e.1))
    }
}

impl Queries {
    /// Every key is the number of a kind, and no kind is entered twice.
    #[verifier::type_invariant]
    closed spec fn in_order(&self) -> bool {
        &&& forall|i: int| 0 <= i < listed(self.map).len() ==> (#[trigger] listed(self.map)[i]).0 < 16
        &&& distinct_kinds(self@)
    }

    /// Queries under no kind.
    pub fn new() -> (queries: Self)
        ensures
            queries@ == Seq::<(Kind, Seq<Query>)>::empty(),
    {
        let map = empty_map();
        assert(listed(map).map_values(|e: (u8, Seq<Query>)| (kind_of_code(e.0), e.1))
            =~= Seq::empty());
        Queries { map }
    }

    /// The number of kinds. No kind is entered twice.
    pub fn len(&self) -> (len: usize)
        ensures
            len == self@.len(),
            distinct_kinds(self@),
    {
        proof {
            use_type_invariant(self);
        }
        map_len(&self.map)
    }

    /// The kind at a place in the order, with its queries; nothing where
    /// the place is beyond the last kind.
    pub fn at(&self, place: usize) -> (entry: Option<(Kind, &Vec<Query>)>)
        ensures
            match entry {
                Some(e) => place < self@.len() && e.0 == self@[place as int].0 && e.1@
                    == self@[place as int].1,
                None => place >= self@.len(),
            },
    {
        proof {
            use_type_invariant(self);
        }
        match map_at(&self.map, place) {
            Some((code, list)) => {
                assert(listed(self.map)[place as int].0 < 16);
                match Kind::from_code(code) {
                    Some(kind) => Some((kind, list)),
                    None => None,
                }
            },
            None => None,
        }
    }

    /// Enters the queries of a kind. A kind that has an entry keeps its
    /// place and gets the new queries in place of the old; a new kind goes
    /// to the end.
    pub fn insert(&mut self, kind: Kind, queries: Vec<Query>)
        ensures
            final(self)@ == if has_kind(old(self)@, kind) {
                old(self)@.update(place_of(old(self)@, kind), (kind, queries@))
            } else {
                old(self)@.push((kind, queries@))
            },
    {
        proof {
            use_type_invariant(&*self);
        }
        let ghost before = listed(self.map);
        let ghost view_before = self@;
        let code = kind.to_code();
        proof {
            kind.codes_are_distinct(kind);
            assert(kind_of_code(code) == kind);
            assert forall|i: int| 0 <= i < before.len() implies ((#[trigger] before[i]).0 == code
                <==> view_before[i].0 == kind) by {
                assert(before[i].0 < 16);
                assert(view_before[i].0 == kind_of_code(before[i].0));
            }
            if has_key(before, code) {
                let p = key_place(before, code);
                assert(view_before[p].0 == kind);
                let q = place_of(view_before, kind);
                assert(before[q].0 == code);
                if p < q {
                    assert(view_before[p].0 != view_before[q].0);
                } else if q < p {
                    assert(view_before[q].0 != view_before[p].0);
                }
            } else if has_kind(view_before, kind) {
                let q = place_of(view_before, kind);
                assert(before[q].0 == code);
            }
        }
        let mut map = empty_map();
        assert(listed(map).map_values(|e: (u8, Seq<Query>)| (kind_of_code(e.0), e.1))
            =~= Seq::empty());
        core::mem::swap(&mut self.map, &mut map);
        map_insert(&mut map, code, queries);
        proof {
            let after = listed(map);
            let view_after = after.map_values(|e: (u8, Seq<Query>)| (kind_of_code(e.0), e.1));
            if has_key(before, code) {
                let p = key_place(before, code);
                assert(view_after =~= view_before.update(p, (kind, queries@)));
                assert forall|a: int, b: int| 0 <= a < b < view_after.len() implies (
                #[trigger] view_after[a]).0 != (#[trigger] view_after[b]).0 by {
                    assert(view_before[a].0 != view_before[b].0);
                }
            } else {
                assert(view_after =~= view_before.push((kind, queries@)));
                assert forall|a: int, b: int| 0 <= a < b < view_after.len() implies (
                #[trigger] view_after[a]).0 != (#[trigger] view_after[b]).0 by {
                    if b < view_before.len() {
                        assert(view_before[a].0 != view_before[b].0);
                    } else {
                        assert(before[a].0 != code);
                    }
                }
            }
            assert forall|i: int| 0 <= i < after.len() implies (#[trigger] after[i]).0 < 16 by {
                if i < before.len() {
                    assert(before[i].0 < 16);
                }
            }
        }
        self.map = map;
    }
}

} // verus!

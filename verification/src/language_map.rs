use std::collections::HashMap;
use vstd::prelude::*;

use crate::kind_map::{merged, KindMap};
use crate::language::{language_of_code, Language};
use crate::query::RawQuery;
use crate::symbol::Kind;

verus! {

broadcast use vstd::std_specs::hash::group_hash_axioms;

/// Written queries by language and kind. Each language stands under its
/// number.
#[derive(Debug)]
pub struct LanguageMap {
    pub map: HashMap<u8, KindMap>,
}

/// The queries of one language as a value: the kinds in their order, each
/// with its list.
pub type KindLists<T> = Seq<(Kind, Seq<T>)>;

/// What a map from the numbers of languages holds, by language.
pub open spec fn by_language(map: Map<u8, KindMap>) -> Map<Language, KindLists<RawQuery>> {
    Map::new(
        |l: Language| map.contains_key(l.code()),
        |l: Language| map[l.code()]@,
    )
}

/// Whether the queries of every language are in order.
pub open spec fn all_in_order(map: Map<u8, KindMap>) -> bool {
    forall|code: u8| code < 11 && #[trigger] map.contains_key(code) ==> map[code].wf()
}

/// The languages that stand under the first `n` numbers, in the order
/// of their numbers.
pub open spec fn present(map: Map<u8, KindMap>, n: int) -> Seq<Language>
    decreases n,
{
    if n <= 0 {
        Seq::empty()
    } else {
        let before = present(map, n - 1);
        if map.contains_key((n - 1) as u8) {
            before.push(language_of_code((n - 1) as u8))
        } else {
            before
        }
    }
}

impl View for LanguageMap {
    type V = Map<Language, KindLists<RawQuery>>;

    open spec fn view(&self) -> Map<Language, KindLists<RawQuery>> {
        by_language(self.map@)
    }
}

/// What layering yields: the languages of both, each with the queries of
/// the upper layer where that has the language, else with those of the
/// lower.
pub open spec fn overlaid<T>(
    base: Map<Language, KindLists<T>>,
    over: Map<Language, KindLists<T>>,
) -> Map<Language, KindLists<T>> {
    base.union_prefer_right(over)
}

/// What inheriting yields: the languages of both. A language that both have
/// gets the merged queries, the inherited ones first under every kind; a
/// language that one has keeps its queries.
pub open spec fn inherited_into<T>(
    inherited: Map<Language, KindLists<T>>,
    provided: Map<Language, KindLists<T>>,
) -> Map<Language, KindLists<T>> {
    Map::new(
        |l: Language| inherited.dom().contains(l) || provided.dom().contains(l),
        |l: Language|
            if inherited.dom().contains(l) && provided.dom().contains(l) {
                merged(inherited[l], provided[l])
            } else if provided.dom().contains(l) {
                provided[l]
            } else {
                inherited[l]
            },
    )
}

/// Two maps that agree under the numbers of all languages hold the same by
/// language.
proof fn same_by_language(map: Map<u8, KindMap>, target: Map<Language, KindLists<RawQuery>>)
    requires
        forall|code: u8|
            code < 11 ==> (#[trigger] map.contains_key(code) <==> target.dom().contains(
                language_of_code(code),
            )),
        forall|code: u8|
            code < 11 && #[trigger] map.contains_key(code) ==> map[code]@ == target[language_of_code(
                code,
            )],
    ensures
        by_language(map) == target,
{
    assert forall|l: Language| by_language(map).dom().contains(l) <==> target.dom().contains(
        l,
    ) by {
        l.codes_are_distinct(l);
        assert(map.contains_key(l.code()) <==> target.dom().contains(language_of_code(l.code())));
    }
    assert forall|l: Language| by_language(map).dom().contains(l) implies #[trigger] by_language(
        map,
    )[l] == target[l] by {
        l.codes_are_distinct(l);
        assert(map.contains_key(l.code()));
    }
    assert(by_language(map) =~= target);
}

impl LanguageMap {
    /// No kind stands twice under a language.
    pub open spec fn wf(&self) -> bool {
        all_in_order(self.map@)
    }

    /// A map without languages.
    pub fn new() -> (map: Self)
        ensures
            map.wf(),
            map@ == Map::<Language, KindLists<RawQuery>>::empty(),
    {
        let map = LanguageMap { map: HashMap::new() };
        assert(map@ =~= Map::empty());
        map
    }

    /// Whether no kind stands twice under a language.
    pub fn is_well_formed(&self) -> (ok: bool)
        ensures
            ok == self.wf(),
    {
        let mut code: u8 = 0;
        while code < 11
            invariant
                code <= 11,
                forall|k: u8| k < code && #[trigger] self.map@.contains_key(k) ==> self.map@[k].wf(),
            decreases 11 - code,
        {
            match self.map.get(&code) {
                Some(queries) => {
                    if !queries.is_well_formed() {
                        assert(self.map@.contains_key(code));
                        return false;
                    }
                },
                None => {},
            }
            code += 1;
        }
        true
    }

    /// The languages that have queries entered, in the order of their
    /// numbers.
    pub fn languages(&self) -> (list: Vec<Language>)
        ensures
            list@ == present(self.map@, 11),
    {
        let mut list: Vec<Language> = Vec::new();
        let mut code: u8 = 0;
        while code < 11
            invariant
                code <= 11,
                list@ == present(self.map@, code as int),
            decreases 11 - code,
        {
            if self.map.contains_key(&code) {
                match Language::from_code(code) {
                    Some(language) => {
                        proof {
                            language.codes_are_distinct(language);
                        }
                        list.push(language);
                    },
                    None => {},
                }
            }
            code += 1;
        }
        list
    }

    /// The queries of a language, if it has any entered.
    pub fn get(&self, language: Language) -> (queries: Option<&KindMap>)
        requires
            self.wf(),
        ensures
            queries is Some <==> self@.dom().contains(language),
            queries matches Some(q) ==> q@ == self@[language] && q.wf() && *q
                == self.map@[language.code()],
    {
        proof {
            language.codes_are_distinct(language);
        }
        self.map.get(&language.to_code())
    }

    /// Enters the queries of a language, in place of what it had.
    pub fn insert(&mut self, language: Language, queries: KindMap)
        requires
            old(self).wf(),
            queries.wf(),
        ensures
            final(self).wf(),
            final(self)@ == old(self)@.insert(language, queries@),
            final(self).map@ == old(self).map@.insert(language.code(), queries),
    {
        let ghost before = self.map@;
        let _ = self.map.insert(language.to_code(), queries);
        proof {
            let target = by_language(before).insert(language, queries@);
            assert forall|code: u8| code < 11 implies (#[trigger] self.map@.contains_key(code)
                <==> target.dom().contains(language_of_code(code))) by {
                language_of_code(code).codes_are_distinct(language);
            }
            assert forall|code: u8| code < 11 && #[trigger] self.map@.contains_key(
                code,
            ) implies self.map@[code]@ == target[language_of_code(code)] by {
                language_of_code(code).codes_are_distinct(language);
            }
            same_by_language(self.map@, target);
        }
    }

    /// Keeps the languages that are among `languages`, and drops the rest.
    pub fn restrict(self, languages: &Vec<Language>) -> (map: Self)
        requires
            self.wf(),
        ensures
            map.wf(),
            map@ == self@.restrict(languages@.to_set()),
    {
        let ghost start = self.map@;
        let ghost wanted = languages@.to_set();
        let mut map = self.map;
        let mut code: u8 = 0;
        while code < 11
            invariant
                code <= 11,
                wanted == languages@.to_set(),
                all_in_order(start),
                forall|k: u8|
                    k < code ==> (#[trigger] map@.contains_key(k) <==> start.contains_key(k)
                        && wanted.contains(language_of_code(k))),
                forall|k: u8| k >= code ==> (#[trigger] map@.contains_key(k) <==> start.contains_key(k)),
                forall|k: u8| #[trigger] map@.contains_key(k) ==> map@[k] == start[k],
            decreases 11 - code,
        {
            let listed = match Language::from_code(code) {
                Some(language) => {
                    proof {
                        language.codes_are_distinct(language);
                    }
                    is_listed(language, languages)
                },
                None => false,
            };
            if !listed {
                let _ = map.remove(&code);
            }
            code += 1;
        }
        let kept = LanguageMap { map };
        proof {
            let target = by_language(start).restrict(wanted);
            assert forall|k: u8| k < 11 implies (#[trigger] kept.map@.contains_key(k)
                <==> target.dom().contains(language_of_code(k))) by {
                language_of_code(k).codes_are_distinct(language_of_code(k));
            }
            assert forall|k: u8| k < 11 && #[trigger] kept.map@.contains_key(k) implies kept.map@[k]@
                == target[language_of_code(k)] by {
                language_of_code(k).codes_are_distinct(language_of_code(k));
            }
            same_by_language(kept.map@, target);
        }
        kept
    }

    /// Lays `over` on `base`, language by language: a language of `over`
    /// brings all its queries and hides what `base` has for it.
    pub fn overlay(base: LanguageMap, over: LanguageMap) -> (map: LanguageMap)
        requires
            base.wf(),
            over.wf(),
        ensures
            map.wf(),
            map@ == overlaid(base@, over@),
    {
        let ghost lower = base.map@;
        let ghost upper = over.map@;
        let mut map = base.map;
        let mut rest = over.map;
        let mut code: u8 = 0;
        while code < 11
            invariant
                code <= 11,
                all_in_order(lower),
                all_in_order(upper),
                forall|k: u8| k >= code ==> (#[trigger] rest@.contains_key(k) <==> upper.contains_key(k)),
                forall|k: u8| #[trigger] rest@.contains_key(k) ==> rest@[k] == upper[k],
                forall|k: u8|
                    k < code ==> (#[trigger] map@.contains_key(k) <==> lower.contains_key(k)
                        || upper.contains_key(k)),
                forall|k: u8| k >= code ==> (#[trigger] map@.contains_key(k) <==> lower.contains_key(k)),
                forall|k: u8|
                    k < code && #[trigger] map@.contains_key(k) ==> map@[k] == if upper.contains_key(
                        k,
                    ) {
                        upper[k]
                    } else {
                        lower[k]
                    },
                forall|k: u8| k >= code && #[trigger] map@.contains_key(k) ==> map@[k] == lower[k],
            decreases 11 - code,
        {
            match rest.remove(&code) {
                Some(queries) => {
                    let _ = map.insert(code, queries);
                },
                None => {},
            }
            code += 1;
        }
        let laid = LanguageMap { map };
        proof {
            let target = overlaid(by_language(lower), by_language(upper));
            assert forall|k: u8| k < 11 implies (#[trigger] laid.map@.contains_key(k)
                <==> target.dom().contains(language_of_code(k))) by {
                language_of_code(k).codes_are_distinct(language_of_code(k));
            }
            assert forall|k: u8| k < 11 && #[trigger] laid.map@.contains_key(k) implies laid.map@[k]@
                == target[language_of_code(k)] by {
                language_of_code(k).codes_are_distinct(language_of_code(k));
            }
            same_by_language(laid.map@, target);
        }
        laid
    }

    /// Puts the provided queries on top of the inherited ones. A language
    /// that both have gets the queries of both, under every kind the
    /// inherited ones first.
    pub fn merge(inherited: LanguageMap, provided: LanguageMap) -> (map: LanguageMap)
        requires
            inherited.wf(),
            provided.wf(),
        ensures
            map.wf(),
            map@ == inherited_into(inherited@, provided@),
    {
        let ghost lower = inherited.map@;
        let ghost upper = provided.map@;
        let mut below = inherited.map;
        let mut above = provided.map;
        let mut map: HashMap<u8, KindMap> = HashMap::new();
        let mut code: u8 = 0;
        while code < 11
            invariant
                code <= 11,
                all_in_order(lower),
                all_in_order(upper),
                forall|k: u8| k >= code ==> (#[trigger] below@.contains_key(k) <==> lower.contains_key(k)),
                forall|k: u8| #[trigger] below@.contains_key(k) ==> below@[k] == lower[k],
                forall|k: u8| k >= code ==> (#[trigger] above@.contains_key(k) <==> upper.contains_key(k)),
                forall|k: u8| #[trigger] above@.contains_key(k) ==> above@[k] == upper[k],
                forall|k: u8| #[trigger] map@.contains_key(k) ==> k < code,
                forall|k: u8|
                    k < code ==> (#[trigger] map@.contains_key(k) <==> lower.contains_key(k)
                        || upper.contains_key(k)),
                forall|k: u8|
                    #[trigger] map@.contains_key(k) ==> map@[k].wf() && map@[k]@
                        == if lower.contains_key(k) && upper.contains_key(k) {
                        merged(lower[k]@, upper[k]@)
                    } else if upper.contains_key(k) {
                        upper[k]@
                    } else {
                        lower[k]@
                    },
            decreases 11 - code,
        {
            let found_below = below.remove(&code);
            let found_above = above.remove(&code);
            match found_below {
                Some(inherited_queries) => match found_above {
                    Some(provided_queries) => {
                        let both = KindMap::merge(inherited_queries, provided_queries);
                        let _ = map.insert(code, both);
                    },
                    None => {
                        let _ = map.insert(code, inherited_queries);
                    },
                },
                None => match found_above {
                    Some(provided_queries) => {
                        let _ = map.insert(code, provided_queries);
                    },
                    None => {},
                },
            }
            code += 1;
        }
        let laid = LanguageMap { map };
        proof {
            let target = inherited_into(by_language(lower), by_language(upper));
            assert forall|k: u8| k < 11 implies (#[trigger] laid.map@.contains_key(k)
                <==> target.dom().contains(language_of_code(k))) by {
                language_of_code(k).codes_are_distinct(language_of_code(k));
            }
            assert forall|k: u8| k < 11 && #[trigger] laid.map@.contains_key(k) implies laid.map@[k]@
                == target[language_of_code(k)] by {
                language_of_code(k).codes_are_distinct(language_of_code(k));
            }
            same_by_language(laid.map@, target);
        }
        laid
    }
}

/// Whether a language is one of a list.
pub fn is_listed(language: Language, languages: &Vec<Language>) -> (listed: bool)
    ensures
        listed == languages@.to_set().contains(language),
{
    let mut i: usize = 0;
    while i < languages.len()
        invariant
            i <= languages.len(),
            forall|j: int| 0 <= j < i ==> languages@[j] != language,
        decreases languages.len() - i,
    {
        if languages[i] == language {
            assert(languages@.contains(language));
            return true;
        }
        i += 1;
    }
    assert(!languages@.contains(language));
    false
}

} // verus!

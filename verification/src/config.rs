use vstd::prelude::*;

use crate::grammar::{dialect, Dialect, Grammar};
use crate::kind_map::{has_kind, place_of, KindMap};
use crate::language::Language;
use crate::language_map::{inherited_into, present, KindLists, LanguageMap};
use crate::queries::Queries;
use crate::query::{compiled_from, compiles, ConfigError, OneOrMany, Query, RawQuery};
use crate::symbol::Kind;

verus! {

/// Which of the built-in queries a configuration starts from.
#[derive(Debug)]
pub enum Inherit {
    /// All of them, or none.
    All(bool),
    /// Those of the languages listed.
    Languages(Vec<Language>),
}

/// The queries of one language as the configuration writes them.
#[derive(Debug)]
pub struct RawLanguageQueries {
    pub queries: KindMap,
}

/// A configuration as it is written: what it inherits, and the queries that
/// it provides itself.
#[derive(Debug)]
pub struct RawConfig {
    pub inherit: Option<Inherit>,
    pub languages: LanguageMap,
}

/// The queries in force, by language and kind. They are compiled for a
/// language when the language is first needed.
#[derive(Debug)]
pub struct Config {
    pub languages: LanguageMap,
}

/// The built-in queries that a configuration starts from: all where it
/// inherits all, those of the listed languages where it lists some, none
/// where it says nothing or declines.
pub open spec fn inherited(
    inherit: Option<Inherit>,
    defaults: Map<Language, KindLists<RawQuery>>,
) -> Map<Language, KindLists<RawQuery>> {
    match inherit {
        None => Map::empty(),
        Some(Inherit::All(false)) => Map::empty(),
        Some(Inherit::All(true)) => defaults,
        Some(Inherit::Languages(languages)) => defaults.restrict(languages@.to_set()),
    }
}

/// One compiled query for each query written, in order: each is what
/// compiling the written query for the grammar comes to.
pub open spec fn compiled_list(queries: Seq<Query>, raw: Seq<RawQuery>, dialect: Dialect) -> bool {
    &&& queries.len() == raw.len()
    &&& forall|j: int|
        0 <= j < raw.len() ==> compiled_from(
            Ok::<Query, ConfigError>(#[trigger] queries[j]),
            raw[j],
            dialect,
        ) && queries[j].wf()
}

/// The compiled queries of a language: the kinds are those written, in
/// their order, and under each kind stands one compiled query for each
/// query written, in order.
pub open spec fn compiled_all(
    queries: KindLists<Query>,
    raw: KindLists<RawQuery>,
    dialect: Dialect,
) -> bool {
    &&& queries.len() == raw.len()
    &&& forall|k: int|
        0 <= k < raw.len() ==> (#[trigger] queries[k]).0 == raw[k].0 && compiled_list(
            queries[k].1,
            raw[k].1,
            dialect,
        )
}

/// Whether every query of a list compiles.
pub open spec fn list_compiles(raw: Seq<RawQuery>, dialect: Dialect) -> bool {
    forall|j: int| 0 <= j < raw.len() ==> compiles(#[trigger] raw[j], dialect)
}

/// Whether query `j` of a list is the first that does not compile.
pub open spec fn first_refused_in(raw: Seq<RawQuery>, dialect: Dialect, j: int) -> bool {
    &&& 0 <= j < raw.len()
    &&& !compiles(raw[j], dialect)
    &&& forall|i: int| 0 <= i < j ==> compiles(#[trigger] raw[i], dialect)
}

/// Whether every query written for a language compiles.
pub open spec fn all_compile(raw: KindLists<RawQuery>, dialect: Dialect) -> bool {
    forall|k: int| 0 <= k < raw.len() ==> list_compiles((#[trigger] raw[k]).1, dialect)
}

/// Whether query `j` under kind `k` is the first that does not compile,
/// going kind by kind and under each kind query by query.
pub open spec fn first_refused(raw: KindLists<RawQuery>, dialect: Dialect, k: int, j: int) -> bool {
    &&& 0 <= k < raw.len()
    &&& forall|i: int| 0 <= i < k ==> list_compiles((#[trigger] raw[i]).1, dialect)
    &&& first_refused_in(raw[k].1, dialect, j)
}

/// What compiling the queries of a language comes to. Where every query
/// compiles, it is the compiled queries, kind by kind and query by query.
/// Else it is the error of the first query that does not compile; nothing
/// is compiled in part.
pub open spec fn compile_result(
    result: Result<Queries, ConfigError>,
    raw: KindLists<RawQuery>,
    dialect: Dialect,
) -> bool {
    match result {
        Ok(queries) => all_compile(raw, dialect) && compiled_all(queries@, raw, dialect),
        Err(e) => exists|k: int, j: int| #[trigger]
            first_refused(raw, dialect, k, j) && compiled_from(
                Err::<Query, ConfigError>(e),
                raw[k].1[j],
                dialect,
            ),
    }
}

/// Compiling gives the compiled queries exactly where every written query
/// compiles: one query that is refused makes the whole an error.
pub proof fn compiled_when_all_compile(
    result: Result<Queries, ConfigError>,
    raw: KindLists<RawQuery>,
    dialect: Dialect,
)
    requires
        compile_result(result, raw, dialect),
    ensures
        result is Ok <==> all_compile(raw, dialect),
{
    if result is Err {
        let (k, j) = choose|k: int, j: int| #[trigger]
            first_refused(raw, dialect, k, j) && compiled_from(
                Err::<Query, ConfigError>(result->Err_0),
                raw[k].1[j],
                dialect,
            );
        assert(!list_compiles(raw[k].1, dialect));
    }
}

impl RawLanguageQueries {
    /// The queries of a language that has none yet.
    pub fn new() -> (queries: Self)
        ensures
            queries.queries.wf(),
            queries.queries@ == Seq::<(Kind, Seq<RawQuery>)>::empty(),
    {
        RawLanguageQueries { queries: KindMap::new() }
    }

    /// Enters what is written under a kind: one query or a list of them.
    pub fn insert(&mut self, kind: Kind, queries: OneOrMany<RawQuery>)
        requires
            old(self).queries.wf(),
        ensures
            final(self).queries.wf(),
            crate::kind_map::lookup(final(self).queries@, kind) == queries.spec_into_vec(),
            forall|other: Kind|
                other != kind ==> crate::kind_map::lookup(final(self).queries@, other)
                    == crate::kind_map::lookup(old(self).queries@, other),
    {
        self.queries.insert(kind, queries.into_vec());
    }

    /// Compiles the queries for a grammar, kind by kind and query by query.
    /// The first query that does not compile ends the work with its error.
    pub fn compile(&self, grammar: &Grammar) -> (result: Result<Queries, ConfigError>)
        requires
            self.queries.wf(),
        ensures
            compile_result(result, self.queries@, dialect(*grammar)),
            result is Ok <==> all_compile(self.queries@, dialect(*grammar)),
    {
        compile_queries(&self.queries, grammar)
    }
}

/// Compiles each query of a list, in order.
fn compile_list(raw: &Vec<RawQuery>, grammar: &Grammar) -> (result: Result<Vec<Query>, ConfigError>)
    ensures
        match result {
            Ok(queries) => list_compiles(raw@, dialect(*grammar)) && compiled_list(
                queries@,
                raw@,
                dialect(*grammar),
            ),
            Err(e) => exists|j: int| #[trigger]
                first_refused_in(raw@, dialect(*grammar), j) && compiled_from(
                    Err::<Query, ConfigError>(e),
                    raw@[j],
                    dialect(*grammar),
                ),
        },
{
    let ghost d = dialect(*grammar);
    let mut queries: Vec<Query> = Vec::new();
    let mut j: usize = 0;
    while j < raw.len()
        invariant
            j <= raw.len(),
            d == dialect(*grammar),
            queries@.len() == j,
            forall|i: int| 0 <= i < j ==> compiles(#[trigger] raw@[i], d),
            forall|i: int|
                0 <= i < j ==> compiled_from(
                    Ok::<Query, ConfigError>(#[trigger] queries@[i]),
                    raw@[i],
                    d,
                ) && queries@[i].wf(),
        decreases raw.len() - j,
    {
        match raw[j].to_query(grammar) {
            Ok(query) => {
                queries.push(query);
            },
            Err(e) => {
                assert(first_refused_in(raw@, d, j as int));
                return Err(e);
            },
        }
        j += 1;
    }
    Ok(queries)
}

/// Compiles the queries of a language, kind by kind and under each kind
/// query by query. One query that does not compile makes the whole an
/// error: that of the first such query.
pub fn compile_queries(raw: &KindMap, grammar: &Grammar) -> (result: Result<
    Queries,
    ConfigError,
>)
    requires
        raw.wf(),
    ensures
        compile_result(result, raw@, dialect(*grammar)),
        result is Ok <==> all_compile(raw@, dialect(*grammar)),
{
    let ghost d = dialect(*grammar);
    let mut queries = Queries::new();
    let count = raw.len();
    let mut k: usize = 0;
    while k < count
        invariant
            k <= count,
            count == raw@.len(),
            raw.wf(),
            d == dialect(*grammar),
            queries@.len() == k,
            forall|i: int| 0 <= i < k ==> list_compiles((#[trigger] raw@[i]).1, d),
            forall|i: int|
                0 <= i < k ==> (#[trigger] queries@[i]).0 == raw@[i].0 && compiled_list(
                    queries@[i].1,
                    raw@[i].1,
                    d,
                ),
        decreases count - k,
    {
        let (kind, written) = match raw.at(k) {
            Some(entry) => entry,
            None => {
                return Ok(queries);
            },
        };
        match compile_list(written, grammar) {
            Ok(items) => {
                let ghost before = queries@;
                proof {
                    if has_kind(before, kind) {
                        let i = place_of(before, kind);
                        assert(raw@[i].0 != raw@[k as int].0);
                    }
                }
                queries.insert(kind, items);
                assert forall|i: int| 0 <= i < k + 1 implies (#[trigger] queries@[i]).0
                    == raw@[i].0 && compiled_list(queries@[i].1, raw@[i].1, d) by {
                    if i < k {
                        assert(queries@[i] == before[i]);
                    }
                }
            },
            Err(e) => {
                proof {
                    let j = choose|j: int| #[trigger]
                        first_refused_in(written@, d, j) && compiled_from(
                            Err::<Query, ConfigError>(e),
                            written@[j],
                            d,
                        );
                    assert(first_refused(raw@, d, k as int, j));
                    assert(!list_compiles(raw@[k as int].1, d));
                }
                return Err(e);
            },
        }
        k += 1;
    }
    Ok(queries)
}

impl RawConfig {
    /// No language stands twice, and no kind twice under a language.
    pub open spec fn wf(&self) -> bool {
        self.languages.wf()
    }

    /// The built-in queries that the configuration starts from.
    pub fn inherited_config(&self, defaults: Config) -> (languages: LanguageMap)
        requires
            defaults.languages.wf(),
        ensures
            languages.wf(),
            languages@ == inherited(self.inherit, defaults.languages@),
    {
        match &self.inherit {
            None => LanguageMap::new(),
            Some(Inherit::All(false)) => LanguageMap::new(),
            Some(Inherit::All(true)) => defaults.languages,
            Some(Inherit::Languages(languages)) => defaults.languages.restrict(languages),
        }
    }

    /// The queries that the configuration provides itself.
    pub fn provided_config(self) -> (languages: LanguageMap)
        ensures
            languages == self.languages,
    {
        self.languages
    }

    /// The queries of one language: the provided ones on top of the
    /// inherited ones.
    pub fn merge_inherited_and_provided_queries(
        inherited: KindMap,
        provided: KindMap,
    ) -> (queries: KindMap)
        requires
            inherited.wf(),
            provided.wf(),
        ensures
            queries.wf(),
            queries@ == crate::kind_map::merged(inherited@, provided@),
    {
        KindMap::merge(inherited, provided)
    }

    /// The queries of all languages: the provided ones on top of the
    /// inherited ones.
    pub fn merge_inherited_and_provided_configs(
        inherited: LanguageMap,
        provided: LanguageMap,
    ) -> (languages: LanguageMap)
        requires
            inherited.wf(),
            provided.wf(),
        ensures
            languages.wf(),
            languages@ == inherited_into(inherited@, provided@),
    {
        LanguageMap::merge(inherited, provided)
    }
}

/// The extensions of the first `n` languages, language by language.
pub open spec fn extensions_of(languages: Seq<Language>, n: int) -> Seq<Seq<char>>
    decreases n,
{
    if n <= 0 {
        Seq::empty()
    } else {
        extensions_of(languages, n - 1) + languages[n - 1].spec_extensions()
    }
}

/// The texts of a list of extensions.
pub open spec fn extension_texts(list: Seq<&'static str>) -> Seq<Seq<char>> {
    list.map_values(|e: &'static str| e@)
}

impl Config {
    /// No language stands twice, and no kind twice under a language.
    pub open spec fn wf(&self) -> bool {
        self.languages.wf()
    }

    /// The configured languages, in the order of their numbers.
    pub open spec fn spec_languages(&self) -> Seq<Language> {
        present(self.languages.map@, 11)
    }

    /// All file extensions that the configuration refers to: those of its
    /// languages, language by language.
    pub fn extensions(&self) -> (list: Vec<&'static str>)
        ensures
            extension_texts(list@) == extensions_of(
                self.spec_languages(),
                self.spec_languages().len() as int,
            ),
    {
        let languages = self.languages.languages();
        let mut list: Vec<&'static str> = Vec::new();
        let mut i: usize = 0;
        assert(extension_texts(list@) =~= extensions_of(languages@, 0));
        while i < languages.len()
            invariant
                i <= languages.len(),
                extension_texts(list@) == extensions_of(languages@, i as int),
            decreases languages.len() - i,
        {
            let ghost before = extension_texts(list@);
            let mut own = languages[i].extensions();
            let ghost added = extension_texts(own@);
            list.append(&mut own);
            assert(extension_texts(list@) =~= before + added);
            i += 1;
        }
        list
    }

    /// The queries in force for a written configuration, given the built-in
    /// ones: what it inherits, with what it provides on top.
    pub fn from_raw(raw: RawConfig, defaults: Config) -> (config: Config)
        requires
            raw.wf(),
            defaults.wf(),
        ensures
            config.wf(),
            config.languages@ == inherited_into(
                inherited(raw.inherit, defaults.languages@),
                raw.languages@,
            ),
    {
        let inherited_config = raw.inherited_config(defaults);
        let provided_config = raw.provided_config();
        let languages = RawConfig::merge_inherited_and_provided_configs(
            inherited_config,
            provided_config,
        );
        Config { languages }
    }

    /// The queries of a language, if any are configured for it.
    pub fn queries_for_language(&self, language: Language) -> (queries: Option<&KindMap>)
        requires
            self.wf(),
        ensures
            queries is Some <==> self.languages@.dom().contains(language),
            queries matches Some(q) ==> q@ == self.languages@[language] && q.wf(),
    {
        self.languages.get(language)
    }

    /// The configuration narrowed to one language.
    pub fn for_language(self, language: Language) -> (config: Config)
        requires
            self.wf(),
        ensures
            config.wf(),
            config.languages@ == self.languages@.restrict(set![language]),
    {
        let mut only: Vec<Language> = Vec::new();
        only.push(language);
        assert(only@.to_set() =~= set![language]) by {
            assert(only@ =~= seq![language]);
            assert forall|l: Language| only@.to_set().contains(l) <==> set![language].contains(
                l,
            ) by {
                if l == language {
                    assert(only@[0] == l);
                }
            }
        }
        Config { languages: self.languages.restrict(&only) }
    }

    /// Compiles the queries of a language. There are none where nothing is
    /// configured for the language. One query that does not compile makes
    /// the whole an error: that of the first such query.
    pub fn compile(&self, language: Language) -> (result: Result<Option<Queries>, ConfigError>)
        requires
            self.wf(),
        ensures
            match result {
                Ok(Some(queries)) => self.languages@.dom().contains(language) && compile_result(
                    Ok::<Queries, ConfigError>(queries),
                    self.languages@[language],
                    language.spec_grammar(),
                ),
                Ok(None) => !self.languages@.dom().contains(language),
                Err(e) => self.languages@.dom().contains(language) && compile_result(
                    Err::<Queries, ConfigError>(e),
                    self.languages@[language],
                    language.spec_grammar(),
                ),
            },
            self.languages@.dom().contains(language) ==> (result is Ok <==> all_compile(
                self.languages@[language],
                language.spec_grammar(),
            )),
    {
        match self.languages.get(language) {
            None => Ok(None),
            Some(raw) => {
                let grammar = language.as_tree_sitter();
                match compile_queries(raw, &grammar) {
                    Ok(queries) => Ok(Some(queries)),
                    Err(e) => Err(e),
                }
            },
        }
    }
}

} // verus!

use vstd::prelude::*;

use crate::config::{
    all_compile, compile_queries, compile_result, compiled_when_all_compile, Config,
};
use crate::queries::Queries;
use crate::kind_map::KindMap;
use crate::language::Language;
use crate::language_map::{all_in_order, present};
use crate::query::ConfigError;

verus! {

broadcast use vstd::std_specs::hash::group_hash_axioms;

/// The queries of one language, which are compiled when they are first
/// needed and kept from then on.
pub struct Lazy {
    pub language: Language,
    /// The queries as they are written.
    pub raw: KindMap,
    /// The outcome of compiling them, once that was done.
    pub compiled: Option<Result<Queries, ConfigError>>,
}

impl Lazy {
    /// The written queries are in order, and what is kept as compiled is
    /// what compiling them for the language's grammar comes to.
    pub open spec fn wf(&self) -> bool {
        &&& self.raw.wf()
        &&& self.compiled matches Some(result) ==> compile_result(
            result,
            self.raw@,
            self.language.spec_grammar(),
        )
    }

    /// The queries of a language, not compiled yet.
    pub fn new(language: Language, raw: KindMap) -> (lazy: Self)
        requires
            raw.wf(),
        ensures
            lazy.wf(),
            lazy.language == language,
            lazy.raw == raw,
            lazy.compiled is None,
    {
        Self { language, raw, compiled: None }
    }

    /// Whether the queries were compiled.
    pub fn is_compiled(&self) -> (compiled: bool)
        ensures
            compiled == self.compiled.is_some(),
    {
        self.compiled.is_some()
    }

    /// Compiles the queries, unless that was done before: what was compiled
    /// once is never compiled again.
    pub fn force(&mut self)
        requires
            old(self).wf(),
        ensures
            final(self).wf(),
            final(self).compiled is Some,
            final(self).language == old(self).language,
            final(self).raw == old(self).raw,
            old(self).compiled is Some ==> final(self).compiled == old(self).compiled,
            final(self).compiled matches Some(outcome) && compile_result(
                outcome,
                old(self).raw@,
                old(self).language.spec_grammar(),
            ) && (outcome is Ok <==> all_compile(
                old(self).raw@,
                old(self).language.spec_grammar(),
            )),
    {
        if self.compiled.is_none() {
            let grammar = self.language.as_tree_sitter();
            let result = compile_queries(&self.raw, &grammar);
            self.compiled = Some(result);
        }
        proof {
            compiled_when_all_compile(
                self.compiled->Some_0,
                self.raw@,
                self.language.spec_grammar(),
            );
        }
    }

    /// The outcome of compiling, once there is one.
    pub fn get(&self) -> (outcome: Option<&Result<Queries, ConfigError>>)
        ensures
            outcome matches Some(result) ==> self.compiled == Some(*result),
            outcome is None ==> self.compiled is None,
    {
        self.compiled.as_ref()
    }

    /// The outcome of compiling: the one that is kept, if the queries were
    /// compiled before; else they are compiled now.
    pub fn take(self) -> (outcome: Result<Queries, ConfigError>)
        requires
            self.wf(),
        ensures
            compile_result(outcome, self.raw@, self.language.spec_grammar()),
            outcome is Ok <==> all_compile(self.raw@, self.language.spec_grammar()),
            self.compiled matches Some(kept) ==> outcome == kept,
    {
        proof {
            if self.compiled is Some {
                compiled_when_all_compile(
                    self.compiled->Some_0,
                    self.raw@,
                    self.language.spec_grammar(),
                );
            }
        }
        match self.compiled {
            Some(kept) => kept,
            None => {
                let grammar = self.language.as_tree_sitter();
                compile_queries(&self.raw, &grammar)
            },
        }
    }
}

/// Sets the queries of every configured language up for compiling when
/// they are first needed: one entry for each language, in the order of the
/// languages' numbers, none of them compiled.
pub fn lazy_queries(config: Config) -> (lazies: Vec<Lazy>)
    requires
        config.wf(),
    ensures
        lazies@.len() == present(config.languages.map@, 11).len(),
        forall|i: int|
            0 <= i < lazies@.len() ==> {
                let lazy = #[trigger] lazies@[i];
                &&& lazy.wf()
                &&& lazy.language == present(config.languages.map@, 11)[i]
                &&& config.languages.map@.contains_key(lazy.language.code())
                &&& lazy.raw == config.languages.map@[lazy.language.code()]
                &&& lazy.compiled is None
            },
{
    let ghost all = config.languages.map@;
    let mut rest = config.languages.map;
    let mut lazies: Vec<Lazy> = Vec::new();
    let mut code: u8 = 0;
    while code < 11
        invariant
            code <= 11,
            all_in_order(all),
            forall|k: u8| k >= code ==> (#[trigger] rest@.contains_key(k) <==> all.contains_key(k)),
            forall|k: u8| #[trigger] rest@.contains_key(k) ==> rest@[k] == all[k],
            lazies@.len() == present(all, code as int).len(),
            forall|i: int|
                0 <= i < lazies@.len() ==> {
                    let lazy = #[trigger] lazies@[i];
                    &&& lazy.wf()
                    &&& lazy.language == present(all, code as int)[i]
                    &&& all.contains_key(lazy.language.code())
                    &&& lazy.raw == all[lazy.language.code()]
                    &&& lazy.compiled is None
                },
        decreases 11 - code,
    {
        match rest.remove(&code) {
            Some(queries) => match Language::from_code(code) {
                Some(language) => {
                    proof {
                        language.codes_are_distinct(language);
                    }
                    lazies.push(Lazy::new(language, queries));
                },
                None => {},
            },
            None => {},
        }
        code += 1;
    }
    lazies
}

} // verus!

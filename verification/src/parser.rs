use vstd::prelude::*;

use crate::capture::Capture;
use crate::queries::Queries;
use crate::extract::{extract, extracted, plan_of, Extraction};
use crate::grammar::{
    matches_of, new_parser, parse_source, parsed_source, parser_dialect, pattern_dialect,
    pattern_matches, pattern_text, set_grammar, tree_dialect, usable, SyntaxParser,
};
use crate::language::Language;
use crate::language_map::KindLists;
use crate::query::Query;
use crate::symbol::{symbol_views, Kind, Symbol, SymbolView};

verus! {

/// Why a file yielded no symbols.
#[derive(Clone, Copy, Debug, PartialEq, Eq, Structural)]
pub enum ParseError {
    /// The parsing library cannot use the grammar of the language.
    Language,
}

/// A parser for the files of a language: one that parses with the
/// language's grammar. There is one exactly where the parsing library can
/// use the grammar.
pub fn with_language(language: Language) -> (parser: Result<SyntaxParser, ParseError>)
    ensures
        parser is Ok <==> usable(language.spec_grammar()),
        match parser {
            Ok(p) => parser_dialect(p) == Some(language.spec_grammar()),
            Err(e) => e == ParseError::Language,
        },
{
    let mut parser = new_parser();
    match set_grammar(&mut parser, &language.as_tree_sitter()) {
        Ok(()) => Ok(parser),
        Err(_) => Err(ParseError::Language),
    }
}

/// One query as it was run on a file: what it extracts, and the matches
/// that the parsing library found for it.
pub type Run = (Extraction, Seq<Seq<Capture>>);

/// What a query finds in the tree of a source that was parsed for a
/// language: the matches of its pattern.
pub open spec fn found(query: Query, language: Language, source: Seq<u8>) -> Seq<Seq<Capture>> {
    matches_of(
        pattern_dialect(query.pattern),
        pattern_text(query.pattern),
        language.spec_grammar(),
        source,
    )
}

/// The runs of the first `n` queries listed under a kind, in order: each
/// query that has a capture for the symbol is run on the tree of the
/// source. A query without such a capture is left out.
pub open spec fn query_runs(
    queries: Seq<Query>,
    kind: Kind,
    language: Language,
    source: Seq<u8>,
    n: int,
) -> Seq<Run>
    decreases n,
{
    if n <= 0 {
        Seq::empty()
    } else {
        let before = query_runs(queries, kind, language, source, n - 1);
        match queries[n - 1].plan(kind, language) {
            Some(plan) => before.push((plan, found(queries[n - 1], language, source))),
            None => before,
        }
    }
}

/// The runs of the queries of the first `n` kinds: kind by kind, and under
/// each kind query by query.
pub open spec fn kind_runs(entries: KindLists<Query>, language: Language, source: Seq<u8>, n: int)
    -> Seq<Run>
    decreases n,
{
    if n <= 0 {
        Seq::empty()
    } else {
        kind_runs(entries, language, source, n - 1) + query_runs(
            entries[n - 1].1,
            entries[n - 1].0,
            language,
            source,
            entries[n - 1].1.len() as int,
        )
    }
}

/// The runs of all queries of a language on the tree of a source, in the
/// order of the configuration.
pub open spec fn all_runs(entries: KindLists<Query>, language: Language, source: Seq<u8>) -> Seq<
    Run,
> {
    kind_runs(entries, language, source, entries.len() as int)
}

/// The symbols of a file of a language with the given content, for the
/// queries of the language: what the runs of the queries yield, one after
/// the other.
pub open spec fn file_symbols(entries: KindLists<Query>, language: Language, source: Seq<u8>)
    -> Seq<SymbolView> {
    gathered(all_runs(entries, language, source), source)
}

/// Whether some query has a capture for the symbol. Where none has, no
/// file has symbols, and none needs to be parsed.
pub open spec fn has_symbol_query(entries: KindLists<Query>) -> bool {
    exists|k: int, j: int|
        0 <= k < entries.len() && 0 <= j < entries[k].1.len() && (
        #[trigger] entries[k].1[j]).spec_symbol_index() is Some
}

/// Whether a parser has a query with a capture for the symbol.
pub open spec fn is_searching(queries: Option<&Queries>) -> bool {
    match queries {
        Some(q) => has_symbol_query(q@),
        None => false,
    }
}

/// The symbols of a file: those of the first run, then those of the
/// second, and so on. Each run stands for itself: what one query found
/// takes nothing away from another.
pub open spec fn gathered(runs: Seq<Run>, source: Seq<u8>) -> Seq<SymbolView>
    decreases runs.len(),
{
    if runs.len() == 0 {
        Seq::empty()
    } else {
        gathered(runs.drop_last(), source) + extracted(runs.last().0, runs.last().1, source)
    }
}

/// Whether some compiled query has a capture for the symbol.
pub fn any_symbol_query(queries: &Queries) -> (any: bool)
    ensures
        any == has_symbol_query(queries@),
{
    let count = queries.len();
    let mut k: usize = 0;
    while k < count
        invariant
            k <= count,
            count == queries@.len(),
            forall|a: int, b: int|
                0 <= a < k && 0 <= b < queries@[a].1.len() ==> (
                #[trigger] queries@[a].1[b]).spec_symbol_index() is None,
        decreases count - k,
    {
        let items = match queries.at(k) {
            Some(entry) => entry.1,
            None => {
                return false;
            },
        };
        let mut j: usize = 0;
        while j < items.len()
            invariant
                j <= items.len(),
                items@ == queries@[k as int].1,
                k < queries@.len(),
                forall|b: int| 0 <= b < j ==> (#[trigger] items@[b]).spec_symbol_index() is None,
            decreases items.len() - j,
        {
            if items[j].symbol_index().is_some() {
                assert(queries@[k as int].1[j as int].spec_symbol_index() is Some);
                return true;
            }
            j += 1;
        }
        k += 1;
    }
    false
}

/// Finds the symbols of one language's files.
pub struct Parser<'a> {
    pub language: Language,
    pub queries: Option<&'a Queries>,
}

impl<'a> Parser<'a> {
    /// A parser for files of `language`, with the compiled queries of the
    /// language, if any are configured.
    pub fn new(language: Language, queries: Option<&'a Queries>) -> (parser: Self)
        ensures
            parser.language == language,
            parser.queries == queries,
    {
        Self { language, queries }
    }

    /// The symbols of a file with the content `source`.
    ///
    /// Where no query has a capture for the symbol, there are no symbols,
    /// and the file is not parsed. Else the file is parsed with the grammar
    /// of the language, which fails exactly where the parsing library
    /// cannot use the grammar. Every query that has a capture for the
    /// symbol is run on the tree, kind by kind in the order of the
    /// configuration; the symbols are what the matches yield, query by
    /// query, in the order of the queries.
    pub fn symbol_stream(&self, source: &[u8]) -> (result: Result<Vec<Symbol>, ParseError>)
        ensures
            !is_searching(self.queries) ==> (result matches Ok(symbols) && symbols@.len() == 0),
            is_searching(self.queries) ==> (result is Ok <==> usable(
                self.language.spec_grammar(),
            )),
            result matches Err(e) ==> e == ParseError::Language,
            is_searching(self.queries) ==> (result matches Ok(symbols) ==> symbol_views(symbols@)
                == file_symbols(self.queries.unwrap()@, self.language, source@)),
    {
        let language = self.language;
        let mut symbols: Vec<Symbol> = Vec::new();
        let queries = match self.queries {
            Some(queries) => queries,
            None => {
                return Ok(symbols);
            },
        };
        if !any_symbol_query(queries) {
            return Ok(symbols);
        }
        let mut parser = match with_language(language) {
            Ok(parser) => parser,
            Err(e) => {
                return Err(e);
            },
        };
        let tree = match parse_source(&mut parser, source) {
            Some(tree) => tree,
            None => {
                return Err(ParseError::Language);
            },
        };
        let ghost mut runs: Seq<Run> = Seq::empty();
        assert(symbol_views(symbols@) =~= Seq::empty());
        let count = queries.len();
        let mut k: usize = 0;
        while k < count
            invariant
                k <= count,
                count == queries@.len(),
                parsed_source(tree) == source@,
                tree_dialect(tree) == language.spec_grammar(),
                runs == kind_runs(queries@, language, source@, k as int),
                symbol_views(symbols@) == gathered(runs, source@),
            decreases count - k,
        {
            let (kind, items) = match queries.at(k) {
                Some(entry) => entry,
                None => {
                    return Err(ParseError::Language);
                },
            };
            let ghost before_kind = runs;
            let mut j: usize = 0;
            assert(before_kind + query_runs(items@, kind, language, source@, 0) =~= before_kind);
            while j < items.len()
                invariant
                    j <= items.len(),
                    parsed_source(tree) == source@,
                    tree_dialect(tree) == language.spec_grammar(),
                    runs == before_kind + query_runs(items@, kind, language, source@, j as int),
                    symbol_views(symbols@) == gathered(runs, source@),
                decreases items.len() - j,
            {
                let query = &items[j];
                let ghost done = query_runs(items@, kind, language, source@, j as int);
                match query.symbol_index() {
                    None => {},
                    Some(symbol) => {
                        let matches = pattern_matches(query.tree_sitter_query(), &tree, source);
                        let leading = query.leading();
                        let trailing = query.trailing();
                        let mut more = extract(
                            kind,
                            language,
                            symbol,
                            leading,
                            trailing,
                            &matches,
                            source,
                        );
                        proof {
                            let plan = query.plan(kind, language).unwrap();
                            assert(plan == plan_of(kind, language, symbol, leading, trailing));
                            let run: Run = (plan, found(*query, language, source@));
                            let longer = runs.push(run);
                            assert(longer.drop_last() =~= runs);
                            assert((before_kind + done).push(run) =~= before_kind + done.push(
                                run,
                            ));
                            assert(symbol_views(symbols@ + more@) =~= symbol_views(symbols@)
                                + symbol_views(more@));
                            runs = longer;
                        }
                        symbols.append(&mut more);
                    },
                }
                j += 1;
            }
            k += 1;
        }
        Ok(symbols)
    }
}

/// The symbols of a file depend on the language, the queries and the
/// content alone: parsing the same content again gives the same symbols.
pub proof fn same_file_same_symbols(
    first: Result<Vec<Symbol>, ParseError>,
    second: Result<Vec<Symbol>, ParseError>,
    entries: KindLists<Query>,
    language: Language,
    source: Seq<u8>,
)
    requires
        first matches Ok(symbols) && symbol_views(symbols@) == file_symbols(
            entries,
            language,
            source,
        ),
        second matches Ok(symbols) && symbol_views(symbols@) == file_symbols(
            entries,
            language,
            source,
        ),
    ensures
        symbol_views(first->Ok_0@) == symbol_views(second->Ok_0@),
{
}

/// Two queries that are run on one file each yield what they would yield
/// alone, also where they are listed under one kind and match at the same
/// positions.
pub proof fn queries_stand_alone(first: Run, second: Run, source: Seq<u8>)
    ensures
        gathered(seq![first, second], source) == extracted(first.0, first.1, source) + extracted(
            second.0,
            second.1,
            source,
        ),
{
    let both = seq![first, second];
    assert(both.drop_last() =~= seq![first]);
    assert(seq![first].drop_last() =~= Seq::<Run>::empty());
    assert(gathered(seq![first], source) =~= extracted(first.0, first.1, source)) by {
        assert(gathered(Seq::<Run>::empty(), source) =~= Seq::empty());
    }
}

} // verus!

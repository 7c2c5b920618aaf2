use vstd::prelude::*;

use crate::capture::{match_views, Capture, QueryMatch};

verus! {

/// A grammar of the parsing library. Opaque to the verifier: the library
/// only hands it back to the parsing library.
#[verifier::external_body]
pub struct Grammar {
    handle: tree_sitter::Language,
}

/// A pattern that the parsing library compiled for a grammar. Opaque to the
/// verifier: the library only hands it back to the parsing library.
#[verifier::external_body]
pub struct Pattern {
    compiled: tree_sitter::Query,
}

/// The parsing library's reason for refusing a pattern.
#[verifier::external_type_specification]
#[verifier::external_body]
pub struct ExPatternError(tree_sitter::QueryError);

/// A syntax tree of the parsing library.
#[verifier::external_type_specification]
#[verifier::external_body]
pub struct ExTree(tree_sitter::Tree);

/// The grammars that the grammar crates offer and the library uses.
#[derive(Clone, Copy, Debug, PartialEq, Eq, Structural)]
pub enum Dialect {
    C,
    Cpp,
    Fish,
    Go,
    Haskell,
    Json,
    Odin,
    Ocaml,
    Python,
    Rust,
    /// TypeScript with JSX.
    Tsx,
}

/// Which of the grammars a grammar is.
pub uninterp spec fn dialect(grammar: Grammar) -> Dialect;

/// Whether the parsing library can parse with a grammar: whether the
/// grammar was made for a version of the library that this one reads.
pub uninterp spec fn usable(dialect: Dialect) -> bool;

/// What compiling a pattern for a grammar gives: the names of the
/// pattern's captures, in the order of their numbers, where the parsing
/// library accepts the pattern; nothing where it refuses it.
pub uninterp spec fn compiled(dialect: Dialect, pattern: Seq<char>) -> Option<Seq<Seq<char>>>;

/// The text that a pattern was compiled from.
pub uninterp spec fn pattern_text(pattern: Pattern) -> Seq<char>;

/// The grammar that a pattern was compiled for.
pub uninterp spec fn pattern_dialect(pattern: Pattern) -> Dialect;

/// The bytes that a syntax tree was parsed from. The tree's nodes lie within
/// them.
pub uninterp spec fn parsed_source(tree: tree_sitter::Tree) -> Seq<u8>;

/// The grammar with which a syntax tree was parsed.
pub uninterp spec fn tree_dialect(tree: tree_sitter::Tree) -> Dialect;

/// The matches of a pattern in the tree of a source, in the order in which
/// the parsing library finds them: the pattern is given by the grammar that
/// it was compiled for and its text, the tree by the grammar that it was
/// parsed with and the source.
pub uninterp spec fn matches_of(
    pattern_dialect: Dialect,
    pattern: Seq<char>,
    tree_dialect: Dialect,
    source: Seq<u8>,
) -> Seq<Seq<Capture>>;

impl Grammar {
    /// The grammar for C.
    ///
    /// Trusted: this is `tree_sitter_c::LANGUAGE`, made into a grammar. All
    /// that is claimed, here and of the ten grammars below, is which
    /// grammar it is.
    #[verifier::external_body]
    pub(crate) fn c() -> (grammar: Grammar)
        ensures
            dialect(grammar) == Dialect::C,
    {
        Grammar { handle: tree_sitter_c::LANGUAGE.into() }
    }

    /// The grammar for C++.
    ///
    /// Trusted: this is `tree_sitter_cpp::LANGUAGE`, made into a grammar.
    #[verifier::external_body]
    pub(crate) fn cpp() -> (grammar: Grammar)
        ensures
            dialect(grammar) == Dialect::Cpp,
    {
        Grammar { handle: tree_sitter_cpp::LANGUAGE.into() }
    }

    /// The grammar for fish.
    ///
    /// Trusted: this is `tree_sitter_fish::language`.
    #[verifier::external_body]
    pub(crate) fn fish() -> (grammar: Grammar)
        ensures
            dialect(grammar) == Dialect::Fish,
    {
        Grammar { handle: tree_sitter_fish::language() }
    }

    /// The grammar for Go.
    ///
    /// Trusted: this is `tree_sitter_go::LANGUAGE`, made into a grammar.
    #[verifier::external_body]
    pub(crate) fn go() -> (grammar: Grammar)
        ensures
            dialect(grammar) == Dialect::Go,
    {
        Grammar { handle: tree_sitter_go::LANGUAGE.into() }
    }

    /// The grammar for Haskell.
    ///
    /// Trusted: this is `tree_sitter_haskell::LANGUAGE`, made into a grammar.
    #[verifier::external_body]
    pub(crate) fn haskell() -> (grammar: Grammar)
        ensures
            dialect(grammar) == Dialect::Haskell,
    {
        Grammar { handle: tree_sitter_haskell::LANGUAGE.into() }
    }

    /// The grammar for JSON.
    ///
    /// Trusted: this is `tree_sitter_json::LANGUAGE`, made into a grammar.
    #[verifier::external_body]
    pub(crate) fn json() -> (grammar: Grammar)
        ensures
            dialect(grammar) == Dialect::Json,
    {
        Grammar { handle: tree_sitter_json::LANGUAGE.into() }
    }

    /// The grammar for Odin.
    ///
    /// Trusted: this is `tree_sitter_odin::LANGUAGE`, made into a grammar.
    #[verifier::external_body]
    pub(crate) fn odin() -> (grammar: Grammar)
        ensures
            dialect(grammar) == Dialect::Odin,
    {
        Grammar { handle: tree_sitter_odin::LANGUAGE.into() }
    }

    /// The grammar for OCaml.
    ///
    /// Trusted: this is `tree_sitter_ocaml::LANGUAGE_OCAML`, made into a grammar.
    #[verifier::external_body]
    pub(crate) fn ocaml() -> (grammar: Grammar)
        ensures
            dialect(grammar) == Dialect::Ocaml,
    {
        Grammar { handle: tree_sitter_ocaml::LANGUAGE_OCAML.into() }
    }

    /// The grammar for Python.
    ///
    /// Trusted: this is `tree_sitter_python::LANGUAGE`, made into a grammar.
    #[verifier::external_body]
    pub(crate) fn python() -> (grammar: Grammar)
        ensures
            dialect(grammar) == Dialect::Python,
    {
        Grammar { handle: tree_sitter_python::LANGUAGE.into() }
    }

    /// The grammar for Rust.
    ///
    /// Trusted: this is `tree_sitter_rust::LANGUAGE`, made into a grammar.
    #[verifier::external_body]
    pub(crate) fn rust() -> (grammar: Grammar)
        ensures
            dialect(grammar) == Dialect::Rust,
    {
        Grammar { handle: tree_sitter_rust::LANGUAGE.into() }
    }

    /// The grammar for TypeScript with JSX, which is used for JavaScript too.
    ///
    /// Trusted: this is `tree_sitter_typescript::LANGUAGE_TSX`, made into a grammar.
    #[verifier::external_body]
    pub(crate) fn tsx() -> (grammar: Grammar)
        ensures
            dialect(grammar) == Dialect::Tsx,
    {
        Grammar { handle: tree_sitter_typescript::LANGUAGE_TSX.into() }
    }
}

/// Compiles a pattern for a grammar.
///
/// Trusted: this is `tree_sitter::Query::new`. Whether it accepts the
/// pattern depends on the grammar and the pattern's text alone; a pattern
/// that comes back is the one of this text for this grammar.
#[verifier::external_body]
pub(crate) fn compile_pattern(grammar: &Grammar, pattern: &str) -> (outcome: Result<
    Pattern,
    tree_sitter::QueryError,
>)
    ensures
        outcome is Ok <==> compiled(dialect(*grammar), pattern@) is Some,
        outcome matches Ok(made) ==> pattern_text(made) == pattern@ && pattern_dialect(made)
            == dialect(*grammar),
{
    tree_sitter::Query::new(&grammar.handle, pattern).map(|compiled| Pattern { compiled })
}

/// The names of a pattern's captures, in the order of their numbers.
///
/// Trusted: this is `tree_sitter::Query::capture_names`, copied into
/// strings. The names are those that compiling the pattern's text for its
/// grammar gives.
#[verifier::external_body]
pub(crate) fn pattern_capture_names(pattern: &Pattern) -> (names: Vec<String>)
    ensures
        compiled(pattern_dialect(*pattern), pattern_text(*pattern)) == Some(
            names@.map_values(|name: String| name@),
        ),
{
    pattern.compiled.capture_names().iter().map(|name| name.to_string()).collect()
}

/// The parsing library's words for why it refused a pattern.
///
/// Trusted: this is the error's `Display`; nothing is claimed of the text.
#[verifier::external_body]
pub(crate) fn pattern_error_text(error: &tree_sitter::QueryError) -> String {
    format!("{error}")
}

/// A parser of the parsing library. Opaque to the verifier: the library
/// only hands it back to the parsing library.
#[verifier::external_body]
pub struct SyntaxParser {
    inner: tree_sitter::Parser,
}

/// The parsing library's reason for refusing a grammar.
#[verifier::external_type_specification]
#[verifier::external_body]
pub struct ExGrammarError(tree_sitter::LanguageError);

/// The grammar that a parser parses with, if it was given one.
pub uninterp spec fn parser_dialect(parser: SyntaxParser) -> Option<Dialect>;

/// A parser that has no grammar yet.
///
/// Trusted: this is `tree_sitter::Parser::new`, which makes a parser
/// without a grammar.
#[verifier::external_body]
pub(crate) fn new_parser() -> (parser: SyntaxParser)
    ensures
        parser_dialect(parser) is None,
{
    SyntaxParser { inner: tree_sitter::Parser::new() }
}

/// Gives a parser the grammar to parse with.
///
/// Trusted: this is `tree_sitter::Parser::set_language`, which refuses a
/// grammar that was made for another version of the parsing library, and
/// no other: whether it does depends on the grammar alone. A grammar that
/// is accepted is the parser's grammar from then on; one that is refused
/// leaves the parser as it was.
#[verifier::external_body]
pub(crate) fn set_grammar(parser: &mut SyntaxParser, grammar: &Grammar) -> (outcome: Result<
    (),
    tree_sitter::LanguageError,
>)
    ensures
        outcome is Ok <==> usable(dialect(*grammar)),
        outcome is Ok ==> parser_dialect(*final(parser)) == Some(dialect(*grammar)),
        outcome is Err ==> parser_dialect(*final(parser)) == parser_dialect(*old(parser)),
{
    parser.inner.set_language(&grammar.handle)
}

/// Parses `source`. A parser that has a grammar gives a tree, whatever the
/// source holds.
///
/// Trusted: this is `tree_sitter::Parser::parse`, without an earlier tree
/// and without a way to interrupt it, so that a parser without a grammar is
/// the one case without a tree. A tree that comes back was parsed from
/// `source` with the parser's grammar, which the parser keeps.
#[verifier::external_body]
pub(crate) fn parse_source(parser: &mut SyntaxParser, source: &[u8]) -> (tree: Option<
    tree_sitter::Tree,
>)
    ensures
        parser_dialect(*final(parser)) == parser_dialect(*old(parser)),
        parser_dialect(*old(parser)) is Some ==> tree is Some,
        tree matches Some(t) ==> parsed_source(t) == source@ && parser_dialect(*old(parser))
            == Some(tree_dialect(t)),
{
    parser.inner.parse(source, None)
}

/// All matches of a pattern in a tree, in the order in which the parsing
/// library finds them, each with its captures.
///
/// Trusted: this is `tree_sitter::QueryCursor::matches` on the tree's root,
/// walked to its end, each capture copied field by field. The parsing
/// library reads the text of nodes from `source`, which therefore has to be
/// what the tree was parsed from. The matches depend on the pattern and
/// the tree alone, and so on what these were made from; nothing more is
/// claimed of them.
#[verifier::external_body]
pub(crate) fn pattern_matches(pattern: &Pattern, tree: &tree_sitter::Tree, source: &[u8]) -> (matches:
    Vec<QueryMatch>)
    requires
        parsed_source(*tree) == source@,
    ensures
        match_views(matches@) == matches_of(
            pattern_dialect(*pattern),
            pattern_text(*pattern),
            tree_dialect(*tree),
            source@,
        ),
{
    let mut cursor = tree_sitter::QueryCursor::new();
    let mut found = cursor.matches(&pattern.compiled, tree.root_node(), source);
    let mut matches = Vec::new();
    while let Some(m) = tree_sitter::StreamingIterator::next(&mut found) {
        let copy = |c: &tree_sitter::QueryCapture| Capture {
            index: c.index,
            start_byte: c.node.start_byte(),
            end_byte: c.node.end_byte(),
            row: c.node.start_position().row,
            column: c.node.start_position().column,
        };
        matches.push(QueryMatch { captures: m.captures().iter().map(copy).collect() });
    }
    matches
}

} // verus!

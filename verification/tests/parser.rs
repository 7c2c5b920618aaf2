use cymbal::args::{Args, ArgsError};
use cymbal::cache::CacheError;
use cymbal::channel::{bounded, queue, unbounded};
use cymbal::config::Config;
use cymbal::queries::Queries;
use cymbal::kind_map::KindMap;
use cymbal::language::Language;
use cymbal::language_map::LanguageMap;
use cymbal::parser::{any_symbol_query, with_language, Parser};
use cymbal::query::{ConfigError, Query, RawQuery};
use cymbal::symbol::{Kind, Symbol};
use cymbal::symbol_stream::SymbolStream;
use cymbal::template::{Item, TemplateError};
use cymbal::utils::RawPath;

const FUNCTION: &str = "(function_item name: (identifier) @symbol)";

fn compiled(pattern: &str, language: Language) -> Query {
    RawQuery::Bare(pattern.to_string()).into_query(&language.as_tree_sitter()).unwrap()
}

fn with_context(pattern: &str, leading: Option<&str>, trailing: Option<&str>) -> RawQuery {
    RawQuery::WithContext {
        query: pattern.to_string(),
        leading: leading.map(|t| t.to_string()),
        trailing: trailing.map(|t| t.to_string()),
    }
}

fn symbol(kind: Kind, line: i64, column: i64, content: &str) -> Symbol {
    Symbol {
        kind,
        language: Language::Rust,
        line,
        column,
        content: content.to_string(),
        leading: None,
        trailing: None,
    }
}

#[test]
fn one_line_rust_file_has_one_function() {
    let mut queries = Queries::new();
    queries.insert(Kind::Function, vec![compiled(FUNCTION, Language::Rust)]);
    let parser = Parser::new(Language::Rust, Some(&queries));
    assert_eq!(parser.symbol_stream(b"fn foo() {}"), Ok(vec![symbol(Kind::Function, 1, 3, "foo")]));
}

#[test]
fn symbols_come_kind_by_kind_and_query_by_query() {
    let mut queries = Queries::new();
    queries.insert(Kind::Struct, vec![compiled("(struct_item name: (type_identifier) @symbol)", Language::Rust)]);
    queries.insert(
        Kind::Function,
        vec![compiled(FUNCTION, Language::Rust), compiled("(function_item (identifier) @symbol)", Language::Rust)],
    );
    let parser = Parser::new(Language::Rust, Some(&queries));
    let source = b"fn one() {}\nstruct Two;\nfn three() {}\n";
    assert_eq!(
        parser.symbol_stream(source),
        Ok(vec![
            symbol(Kind::Struct, 2, 7, "Two"),
            symbol(Kind::Function, 1, 3, "one"),
            symbol(Kind::Function, 3, 3, "three"),
            symbol(Kind::Function, 1, 3, "one"),
            symbol(Kind::Function, 3, 3, "three"),
        ])
    );
}

#[test]
fn one_query_reports_a_position_once() {
    // both patterns of the query match the name of every function
    let twice = format!("{FUNCTION} (function_item (identifier) @symbol)");
    let mut queries = Queries::new();
    queries.insert(Kind::Function, vec![compiled(&twice, Language::Rust)]);
    let parser = Parser::new(Language::Rust, Some(&queries));
    assert_eq!(
        parser.symbol_stream(b"fn foo() {}\nfn bar() {}"),
        Ok(vec![symbol(Kind::Function, 1, 3, "foo"), symbol(Kind::Function, 2, 3, "bar")])
    );
}

#[test]
fn query_without_symbol_capture_is_inert() {
    let mut queries = Queries::new();
    queries.insert(
        Kind::Function,
        vec![compiled("(function_item name: (identifier) @name)", Language::Rust)],
    );
    let parser = Parser::new(Language::Rust, Some(&queries));
    assert_eq!(parser.symbol_stream(b"fn foo() {}"), Ok(vec![]));
}

#[test]
fn language_without_queries_has_no_symbols() {
    let parser = Parser::new(Language::Go, None);
    assert_eq!(parser.symbol_stream(b"package main\nfunc main() {}\n"), Ok(vec![]));
    let empty = Queries::new();
    assert_eq!(Parser::new(Language::Go, Some(&empty)).symbol_stream(b"package main"), Ok(vec![]));
}

#[test]
fn empty_file_has_no_symbols() {
    let mut queries = Queries::new();
    queries.insert(Kind::Function, vec![compiled(FUNCTION, Language::Rust)]);
    assert_eq!(Parser::new(Language::Rust, Some(&queries)).symbol_stream(b""), Ok(vec![]));
}

#[test]
fn templates_of_a_compiled_query() {
    let raw = with_context(
        "(impl_item type: (type_identifier) @class body: (declaration_list (function_item name: (identifier) @symbol)))",
        Some("{class}::"),
        Some("()"),
    );
    let query = raw.into_query(&Language::Rust.as_tree_sitter()).unwrap();
    assert_eq!(query.names, vec!["class".to_string(), "symbol".to_string()]);
    assert_eq!(query.symbol_index(), Some(1));
    assert_eq!(
        query.leading().unwrap().items,
        vec![Item::Index(0), Item::Text("::".to_string())]
    );
    assert_eq!(query.trailing().unwrap().items, vec![Item::Text("()".to_string())]);

    let mut queries = Queries::new();
    queries.insert(Kind::Method, vec![query]);
    let found = Parser::new(Language::Rust, Some(&queries))
        .symbol_stream("impl Foo {\n    fn bär() {}\n}\n".as_bytes())
        .unwrap();
    assert_eq!(
        found,
        vec![Symbol {
            kind: Kind::Method,
            language: Language::Rust,
            line: 2,
            column: 7,
            content: "bär".to_string(),
            leading: Some("Foo::".to_string()),
            trailing: Some("()".to_string()),
        }]
    );
}

#[test]
fn bare_query_has_no_templates() {
    let query = compiled(FUNCTION, Language::Rust);
    assert!(query.leading().is_none());
    assert!(query.trailing().is_none());
    assert_eq!(query.names, vec!["symbol".to_string()]);
    assert_eq!(query.symbol_index(), Some(0));
}

#[test]
fn pattern_that_the_grammar_does_not_know_is_refused() {
    let grammar = Language::Rust.as_tree_sitter();
    let result = RawQuery::Bare("(no_such_node) @symbol".to_string()).into_query(&grammar);
    assert!(matches!(result, Err(ConfigError::Query(_))));
    let result = with_context("(function_item", Some("{x}"), None).to_query(&grammar);
    assert!(matches!(result, Err(ConfigError::Query(_))));
}

#[test]
fn template_with_unknown_capture_is_refused() {
    let grammar = Language::Rust.as_tree_sitter();
    let leading = with_context(FUNCTION, Some("{class}::"), Some("{nope"));
    assert_eq!(
        leading.into_query(&grammar).err(),
        Some(ConfigError::Leading(TemplateError::UnknownCapture("class".to_string())))
    );
    let trailing = with_context(FUNCTION, Some("{symbol}"), Some("{nope"));
    assert_eq!(
        trailing.into_query(&grammar).err(),
        Some(ConfigError::Trailing(TemplateError::Unmatched))
    );
}

const LANGUAGES: [Language; 11] = [
    Language::C,
    Language::Cpp,
    Language::Fish,
    Language::Go,
    Language::Haskell,
    Language::Json,
    Language::Odin,
    Language::Ocaml,
    Language::Python,
    Language::Rust,
    Language::TypeScript,
];

#[test]
fn every_language_has_a_grammar_that_parses() {
    for language in LANGUAGES {
        assert!(with_language(language).is_ok());
        // a pattern that every grammar knows: any node at all
        let mut queries = Queries::new();
        queries.insert(Kind::Global, vec![compiled("(_) @symbol", language)]);
        let found = Parser::new(language, Some(&queries)).symbol_stream(b"x").unwrap();
        assert!(!found.is_empty());
        assert_eq!((found[0].line, found[0].column, found[0].language), (1, 0, language));
        assert_eq!(found[0].content, "x");
    }
}

#[test]
fn without_a_symbol_query_no_file_has_symbols() {
    for language in LANGUAGES {
        assert_eq!(Parser::new(language, None).symbol_stream(b"x"), Ok(vec![]));
        let mut queries = Queries::new();
        assert!(!any_symbol_query(&queries));
        queries.insert(Kind::Global, vec![]);
        queries.insert(Kind::Struct, vec![compiled("(_) @other", language)]);
        assert!(!any_symbol_query(&queries));
        assert_eq!(Parser::new(language, Some(&queries)).symbol_stream(b"x"), Ok(vec![]));
        queries.insert(Kind::Enum, vec![compiled("(_) @other", language), compiled("(_) @symbol", language)]);
        assert!(any_symbol_query(&queries));
    }
}

#[test]
fn grammars_are_those_of_their_languages() {
    let go = compiled("(function_declaration name: (identifier) @symbol)", Language::Go);
    let mut queries = Queries::new();
    queries.insert(Kind::Function, vec![go]);
    let found = Parser::new(Language::Go, Some(&queries))
        .symbol_stream(b"package main\n\nfunc run() {}\n")
        .unwrap();
    assert_eq!(found.len(), 1);
    assert_eq!(found[0].content, "run");
    assert_eq!(found[0].language, Language::Go);
    assert_eq!((found[0].line, found[0].column), (3, 5));
    let python = compiled("(function_definition name: (identifier) @symbol)", Language::Python);
    let mut queries = Queries::new();
    queries.insert(Kind::Function, vec![python]);
    let found = Parser::new(Language::Python, Some(&queries)).symbol_stream(b"def f():\n  pass\n").unwrap();
    assert_eq!(found[0].content, "f");
    let c = compiled("(struct_specifier name: (type_identifier) @symbol)", Language::C);
    assert_eq!(c.symbol_index(), Some(0));
}

#[test]
fn config_compiles_the_queries_of_a_language() {
    let mut raw = KindMap::new();
    raw.insert(Kind::Function, vec![RawQuery::Bare(FUNCTION.to_string())]);
    raw.insert(Kind::Struct, vec![]);
    let mut languages = LanguageMap::new();
    languages.insert(Language::Rust, raw);
    let mut broken = KindMap::new();
    broken.insert(Kind::Function, vec![RawQuery::Bare("(((".to_string())]);
    languages.insert(Language::C, broken);
    let config = Config { languages };

    let queries = config.compile(Language::Rust).unwrap().unwrap();
    assert_eq!(queries.len(), 2);
    let (kind, list) = queries.at(0).unwrap();
    assert_eq!((kind, list.len()), (Kind::Function, 1));
    let (kind, list) = queries.at(1).unwrap();
    assert_eq!((kind, list.len()), (Kind::Struct, 0));
    assert!(queries.at(2).is_none());
    assert!(config.compile(Language::Go).unwrap().is_none());
    assert!(matches!(config.compile(Language::C), Err(ConfigError::Query(_))));
}

fn args() -> Args {
    Args {
        config_path: None,
        search_path: RawPath::new(b".".to_vec()),
        delimiter: '\u{200B}',
        separator: '\0',
        language: None,
        extension: None,
        cache_dirpath: None,
        concurrency: None,
        channel_bound: 256,
    }
}

#[test]
fn arguments_as_given() {
    let given = args();
    assert_eq!(given.search_path(), &RawPath::new(b".".to_vec()));
    assert_eq!(given.delimiter(), '\u{200B}');
    assert_eq!(given.separator(), '\0');
    assert_eq!(given.language(), None);
    assert!(!given.is_filtering());
}

#[test]
fn named_language_counts_before_the_extension() {
    let mut given = args();
    given.extension = Some("go".to_string());
    assert_eq!(given.language(), Some(Language::Go));
    assert!(given.is_filtering());
    given.language = Some(Language::Rust);
    assert_eq!(given.language(), Some(Language::Rust));
    given.language = None;
    given.extension = Some("nope".to_string());
    assert_eq!(given.language(), None);
    assert!(!given.is_filtering());
}

#[test]
fn number_of_workers() {
    let mut given = args();
    assert_eq!(given.concurrency(Some(4)), Ok(4));
    assert_eq!(given.concurrency(None), Err(ArgsError::UnknownParallelism));
    assert_eq!(given.concurrency(Some(0)), Err(ArgsError::UnknownParallelism));
    assert_eq!(given.num_threads(None), 8);
    assert_eq!(given.num_threads(Some(2)), 2);
    given.concurrency = Some(3);
    assert_eq!(given.concurrency(Some(4)), Ok(3));
    assert_eq!(given.concurrency(None), Ok(3));
    assert_eq!(given.num_threads(Some(2)), 3);
    given.concurrency = Some(0);
    assert_eq!(given.concurrency(Some(4)), Err(ArgsError::NoWorkers));
}

#[test]
fn queue_is_bounded_unless_the_bound_is_zero() {
    let mut given = args();
    assert_eq!(given.channel().0.capacity(), Some(256));
    given.channel_bound = 1;
    assert_eq!(given.channel().0.capacity(), Some(1));
    given.channel_bound = 0;
    assert_eq!(given.channel().0.capacity(), None);
    assert_eq!(queue(7).1.capacity(), Some(7));
    assert_eq!(bounded(3).0.capacity(), Some(3));
    assert_eq!(unbounded().0.capacity(), None);
}

#[test]
fn stream_of_either_side() {
    let parsed: SymbolStream<Vec<Symbol>, Vec<Result<Symbol, CacheError>>> =
        SymbolStream::FromParser(vec![symbol(Kind::Enum, 1, 0, "a"), symbol(Kind::Enum, 2, 0, "b")]);
    assert!(parsed.is_from_parser());
    assert_eq!(
        parsed.into_stream(),
        vec![Ok(symbol(Kind::Enum, 1, 0, "a")), Ok(symbol(Kind::Enum, 2, 0, "b"))]
    );
    let cached: SymbolStream<Vec<Symbol>, Vec<Result<Symbol, CacheError>>> =
        SymbolStream::FromCache(vec![Ok(symbol(Kind::Enum, 1, 0, "a")), Err(CacheError::MissingFile)]);
    assert!(!cached.is_from_parser());
    assert_eq!(
        cached.into_stream(),
        vec![Ok(symbol(Kind::Enum, 1, 0, "a")), Err(CacheError::MissingFile)]
    );
}

#[test]
fn compiled_queries_keep_the_order_of_entry() {
    let mut queries = Queries::new();
    assert_eq!(queries.len(), 0);
    assert!(queries.at(0).is_none());
    queries.insert(Kind::Struct, vec![compiled(FUNCTION, Language::Rust)]);
    queries.insert(Kind::Alias, vec![]);
    queries.insert(Kind::Struct, vec![]);
    queries.insert(Kind::Module, vec![compiled(FUNCTION, Language::Rust), compiled(FUNCTION, Language::Rust)]);
    assert_eq!(queries.len(), 3);
    let shape: Vec<(Kind, usize)> =
        (0..queries.len()).map(|i| queries.at(i).unwrap()).map(|(kind, list)| (kind, list.len())).collect();
    assert_eq!(shape, vec![(Kind::Struct, 0), (Kind::Alias, 0), (Kind::Module, 2)]);
}

#[test]
fn compiled_query_holds_the_names_of_its_pattern() {
    let grammar = Language::Rust.as_tree_sitter();
    let query = with_context(
        "(struct_item name: (type_identifier) @symbol body: (_) @body) (enum_item name: (_) @other)",
        None,
        Some("{other}{body}"),
    )
    .to_query(&grammar)
    .unwrap();
    assert_eq!(query.names, vec!["symbol".to_string(), "body".to_string(), "other".to_string()]);
    assert!(query.leading().is_none());
    assert_eq!(query.trailing().unwrap().items, vec![Item::Index(2), Item::Index(1)]);
}

#[test]
fn one_refused_query_refuses_the_language() {
    let mut raw = KindMap::new();
    raw.insert(Kind::Function, vec![RawQuery::Bare(FUNCTION.to_string())]);
    raw.insert(
        Kind::Struct,
        vec![
            RawQuery::Bare("(struct_item name: (type_identifier) @symbol)".to_string()),
            with_context(FUNCTION, None, Some("{first}")),
            RawQuery::Bare("(((".to_string()),
        ],
    );
    raw.insert(Kind::Enum, vec![with_context(FUNCTION, Some("{later}"), None)]);
    let mut languages = LanguageMap::new();
    languages.insert(Language::Rust, raw);
    let config = Config { languages };
    // the error is that of the first query in order that does not compile
    assert_eq!(
        config.compile(Language::Rust).err(),
        Some(ConfigError::Trailing(TemplateError::UnknownCapture("first".to_string())))
    );
}

#[test]
fn parsing_the_same_file_again_gives_the_same_symbols() {
    let mut queries = Queries::new();
    queries.insert(Kind::Function, vec![compiled(FUNCTION, Language::Rust)]);
    let parser = Parser::new(Language::Rust, Some(&queries));
    let source = b"fn a() {}\nfn b() {}\n";
    assert_eq!(parser.symbol_stream(source), parser.symbol_stream(source));
}

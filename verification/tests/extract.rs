use cymbal::capture::{Capture, QueryMatch};
use cymbal::extract::extract;
use cymbal::language::Language;
use cymbal::symbol::{Kind, Symbol};
use cymbal::template::Template;

fn at(index: u32, start_byte: usize, end_byte: usize, row: usize, column: usize) -> Capture {
    Capture { index, start_byte, end_byte, row, column }
}

fn one(capture: Capture) -> QueryMatch {
    QueryMatch { captures: vec![capture] }
}

fn plain(kind: Kind, line: i64, column: i64, content: &str) -> Symbol {
    Symbol {
        kind,
        language: Language::Rust,
        line,
        column,
        content: content.to_string(),
        leading: None,
        trailing: None,
    }
}

const SOURCE: &[u8] = b"fn foo() {}\nfn bar() {}\n";

#[test]
fn one_match_is_one_symbol() {
    let matches = vec![one(at(0, 3, 6, 0, 3))];
    let symbols = extract(Kind::Function, Language::Rust, 0, None, None, &matches, SOURCE);
    assert_eq!(symbols, vec![plain(Kind::Function, 1, 3, "foo")]);
}

#[test]
fn symbols_keep_the_order_of_the_matches() {
    let matches = vec![one(at(0, 15, 18, 1, 3)), one(at(0, 3, 6, 0, 3))];
    let symbols = extract(Kind::Function, Language::Rust, 0, None, None, &matches, SOURCE);
    assert_eq!(
        symbols,
        vec![plain(Kind::Function, 2, 3, "bar"), plain(Kind::Function, 1, 3, "foo")]
    );
}

#[test]
fn matches_at_one_position_collapse_to_the_first() {
    let matches = vec![
        one(at(0, 3, 6, 0, 3)),
        one(at(0, 3, 9, 0, 3)),
        one(at(0, 15, 18, 1, 3)),
        one(at(0, 3, 6, 0, 3)),
    ];
    let symbols = extract(Kind::Function, Language::Rust, 0, None, None, &matches, SOURCE);
    assert_eq!(
        symbols,
        vec![plain(Kind::Function, 1, 3, "foo"), plain(Kind::Function, 2, 3, "bar")]
    );
}

#[test]
fn same_column_on_another_row_is_another_position() {
    let matches = vec![one(at(0, 3, 6, 0, 3)), one(at(0, 15, 18, 1, 3))];
    let symbols = extract(Kind::Function, Language::Rust, 0, None, None, &matches, SOURCE);
    assert_eq!(symbols.len(), 2);
}

#[test]
fn two_queries_do_not_hide_each_other() {
    let matches = vec![one(at(0, 3, 6, 0, 3))];
    let mut symbols = extract(Kind::Function, Language::Rust, 0, None, None, &matches, SOURCE);
    symbols.extend(extract(Kind::Function, Language::Rust, 0, None, None, &matches, SOURCE));
    symbols.extend(extract(Kind::Method, Language::Rust, 0, None, None, &matches, SOURCE));
    assert_eq!(
        symbols,
        vec![
            plain(Kind::Function, 1, 3, "foo"),
            plain(Kind::Function, 1, 3, "foo"),
            plain(Kind::Method, 1, 3, "foo"),
        ]
    );
}

#[test]
fn match_without_symbol_capture_adds_nothing() {
    let matches = vec![one(at(1, 3, 6, 0, 3)), QueryMatch { captures: vec![] }];
    let symbols = extract(Kind::Function, Language::Rust, 0, None, None, &matches, SOURCE);
    assert_eq!(symbols, vec![]);
}

#[test]
fn no_matches_no_symbols() {
    let symbols = extract(Kind::Function, Language::Rust, 0, None, None, &Vec::new(), SOURCE);
    assert_eq!(symbols, vec![]);
}

#[test]
fn symbol_capture_is_the_first_with_its_number() {
    let found = QueryMatch { captures: vec![at(1, 0, 2, 0, 0), at(0, 15, 18, 1, 3), at(0, 3, 6, 0, 3)] };
    let symbols = extract(Kind::Function, Language::Rust, 0, None, None, &vec![found], SOURCE);
    assert_eq!(symbols, vec![plain(Kind::Function, 2, 3, "bar")]);
}

#[test]
fn content_that_is_not_text_is_passed_over_but_holds_its_position() {
    let source = [b'a', 0xff, b'b', b'c'];
    let matches = vec![one(at(0, 0, 2, 0, 0)), one(at(0, 0, 1, 0, 0)), one(at(0, 2, 4, 0, 2))];
    let symbols = extract(Kind::Global, Language::Rust, 0, None, None, &matches, &source);
    assert_eq!(symbols, vec![plain(Kind::Global, 1, 2, "bc")]);
}

#[test]
fn range_outside_the_source_is_passed_over() {
    let matches = vec![one(at(0, 3, 600, 0, 3)), one(at(0, 6, 3, 0, 4)), one(at(0, 3, 6, 0, 5))];
    let symbols = extract(Kind::Function, Language::Rust, 0, None, None, &matches, SOURCE);
    assert_eq!(symbols, vec![plain(Kind::Function, 1, 5, "foo")]);
}

#[test]
fn empty_content_is_a_symbol() {
    let matches = vec![one(at(0, 3, 3, 0, 3))];
    let symbols = extract(Kind::Function, Language::Rust, 0, None, None, &matches, SOURCE);
    assert_eq!(symbols, vec![plain(Kind::Function, 1, 3, "")]);
}

#[test]
fn templates_give_the_text_around_the_symbol() {
    let source = b"impl Foo { fn bar() {} }";
    let names = vec!["symbol".to_string(), "class".to_string()];
    let leading = Template::parse("{class}::", &names).unwrap();
    let trailing = Template::parse("()", &names).unwrap();
    let found = QueryMatch { captures: vec![at(1, 5, 8, 0, 5), at(0, 14, 17, 0, 14)] };
    let symbols = extract(
        Kind::Method,
        Language::Rust,
        0,
        Some(&leading),
        Some(&trailing),
        &vec![found],
        source,
    );
    assert_eq!(
        symbols,
        vec![Symbol {
            kind: Kind::Method,
            language: Language::Rust,
            line: 1,
            column: 14,
            content: "bar".to_string(),
            leading: Some("Foo::".to_string()),
            trailing: Some("()".to_string()),
        }]
    );
}

#[test]
fn failed_rendering_leaves_the_text_out() {
    let source = b"impl Foo { fn bar() {} }";
    let names = vec!["symbol".to_string(), "class".to_string()];
    let leading = Template::parse("{class}::", &names).unwrap();
    let found = QueryMatch { captures: vec![at(1, 5, 800, 0, 5), at(0, 14, 17, 0, 14)] };
    let symbols =
        extract(Kind::Method, Language::Rust, 0, Some(&leading), None, &vec![found], source);
    assert_eq!(symbols.len(), 1);
    assert_eq!(symbols[0].leading, None);
    assert_eq!(symbols[0].leading_str(), "");
    assert_eq!(symbols[0].trailing_str(), "");
    assert_eq!(symbols[0].content, "bar");
}

#[test]
fn lines_count_from_one_and_columns_from_zero() {
    let matches = vec![one(at(0, 0, 2, 0, 0)), one(at(0, 12, 14, 41, 7))];
    let symbols = extract(Kind::Function, Language::Go, 0, None, None, &matches, SOURCE);
    assert_eq!((symbols[0].line, symbols[0].column), (1, 0));
    assert_eq!((symbols[1].line, symbols[1].column), (42, 7));
    assert_eq!(symbols[1].language, Language::Go);
}

#[test]
fn positions_beyond_the_last_number_are_held_at_it() {
    let far = usize::MAX;
    let matches = vec![one(at(0, 0, 2, far, far))];
    let symbols = extract(Kind::Function, Language::Rust, 0, None, None, &matches, SOURCE);
    if usize::BITS >= 64 {
        assert_eq!((symbols[0].line, symbols[0].column), (i64::MAX, i64::MAX));
    } else {
        assert_eq!((symbols[0].line, symbols[0].column), (far as i64 + 1, far as i64));
    }
}

#[test]
fn leading_and_trailing_text() {
    let mut symbol = plain(Kind::Function, 1, 0, "f");
    assert_eq!(symbol.leading_str(), "");
    assert_eq!(symbol.trailing_str(), "");
    symbol.leading = Some("a::".to_string());
    symbol.trailing = Some("()".to_string());
    assert_eq!(symbol.leading_str(), "a::");
    assert_eq!(symbol.trailing_str(), "()");
    assert_eq!(symbol.duplicate(), symbol);
}

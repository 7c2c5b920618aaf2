use cymbal::capture::{Capture, QueryMatch};
use cymbal::template::{capture_index_of, Item, RenderError, Template, TemplateError};

fn names(list: &[&str]) -> Vec<String> {
    list.iter().map(|s| s.to_string()).collect()
}

fn capture(index: u32, start_byte: usize, end_byte: usize) -> Capture {
    Capture { index, start_byte, end_byte, row: 0, column: start_byte }
}

#[test]
fn empty_template_has_no_items() {
    let template = Template::parse("", &names(&["symbol"])).unwrap();
    assert_eq!(template.items, vec![]);
}

#[test]
fn text_alone_is_one_item() {
    let template = Template::parse("impl ", &names(&[])).unwrap();
    assert_eq!(template.items, vec![Item::Text("impl ".to_string())]);
}

#[test]
fn references_become_capture_numbers() {
    let known = names(&["symbol", "class", "trait"]);
    let template = Template::parse("{trait} for {class}::", &known).unwrap();
    assert_eq!(
        template.items,
        vec![
            Item::Index(2),
            Item::Text(" for ".to_string()),
            Item::Index(1),
            Item::Text("::".to_string()),
        ]
    );
}

#[test]
fn adjacent_references_have_no_text_between() {
    let known = names(&["a", "b"]);
    let template = Template::parse("{a}{b}", &known).unwrap();
    assert_eq!(template.items, vec![Item::Index(0), Item::Index(1)]);
}

#[test]
fn closing_brace_alone_is_text() {
    let template = Template::parse("a}b", &names(&[])).unwrap();
    assert_eq!(template.items, vec![Item::Text("a}b".to_string())]);
}

#[test]
fn text_may_hold_any_characters() {
    let known = names(&["名前"]);
    let template = Template::parse("→{名前}←", &known).unwrap();
    assert_eq!(
        template.items,
        vec![Item::Text("→".to_string()), Item::Index(0), Item::Text("←".to_string())]
    );
}

#[test]
fn unmatched_brace_is_refused() {
    assert_eq!(Template::parse("{class", &names(&["class"])), Err(TemplateError::Unmatched));
    assert_eq!(Template::parse("a{", &names(&["class"])), Err(TemplateError::Unmatched));
}

#[test]
fn unknown_capture_is_refused() {
    assert_eq!(
        Template::parse("{klass}::", &names(&["symbol", "class"])),
        Err(TemplateError::UnknownCapture("klass".to_string()))
    );
    assert_eq!(
        Template::parse("{}", &names(&["symbol"])),
        Err(TemplateError::UnknownCapture(String::new()))
    );
}

#[test]
fn first_fault_from_the_left_decides() {
    assert_eq!(
        Template::parse("{nope} {open", &names(&["symbol"])),
        Err(TemplateError::UnknownCapture("nope".to_string()))
    );
    assert_eq!(
        Template::parse("{symbol} {open", &names(&["symbol"])),
        Err(TemplateError::Unmatched)
    );
}

#[test]
fn name_runs_to_the_next_closing_brace() {
    assert_eq!(
        Template::parse("{a{b}", &names(&["a", "b"])),
        Err(TemplateError::UnknownCapture("a{b".to_string()))
    );
}

#[test]
fn capture_numbers_are_places_in_the_list() {
    let known = names(&["symbol", "class", "symbol"]);
    assert_eq!(capture_index_of(&known, "symbol"), Some(0));
    assert_eq!(capture_index_of(&known, "class"), Some(1));
    assert_eq!(capture_index_of(&known, "none"), None);
    assert_eq!(capture_index_of(&names(&[]), "symbol"), None);
}

#[test]
fn render_puts_capture_text_in_place() {
    let source = b"impl Foo { fn bar() {} }";
    let template = Template::parse("{class}::", &names(&["symbol", "class"])).unwrap();
    let found = QueryMatch { captures: vec![capture(1, 5, 8), capture(0, 14, 17)] };
    assert_eq!(template.render(&found, source), Ok("Foo::".to_string()));
}

#[test]
fn render_takes_the_first_capture_with_the_number() {
    let source = b"abcdef";
    let template = Template::parse("<{x}>", &names(&["x"])).unwrap();
    let found = QueryMatch { captures: vec![capture(0, 2, 4), capture(0, 0, 1)] };
    assert_eq!(template.render(&found, source), Ok("<cd>".to_string()));
}

#[test]
fn capture_that_did_not_fire_renders_as_nothing() {
    let source = b"abcdef";
    let template = Template::parse("[{a}|{b}]", &names(&["a", "b"])).unwrap();
    let found = QueryMatch { captures: vec![capture(1, 3, 6)] };
    assert_eq!(template.render(&found, source), Ok("[|def]".to_string()));
    let nothing = QueryMatch { captures: vec![] };
    assert_eq!(template.render(&nothing, source), Ok("[|]".to_string()));
}

#[test]
fn render_of_empty_template_is_empty() {
    let template = Template::parse("", &names(&[])).unwrap();
    let found = QueryMatch { captures: vec![capture(0, 0, 3)] };
    assert_eq!(template.render(&found, b"abc"), Ok(String::new()));
}

#[test]
fn render_refuses_a_range_outside_the_source() {
    let template = Template::parse("{a}", &names(&["a"])).unwrap();
    let beyond = QueryMatch { captures: vec![capture(0, 2, 9)] };
    assert_eq!(template.render(&beyond, b"abc"), Err(RenderError::OutOfRange));
    let backwards = QueryMatch { captures: vec![capture(0, 2, 1)] };
    assert_eq!(template.render(&backwards, b"abc"), Err(RenderError::OutOfRange));
}

#[test]
fn render_refuses_what_is_not_text() {
    let source = [b'a', 0xff, b'b'];
    let template = Template::parse("{a}", &names(&["a"])).unwrap();
    let found = QueryMatch { captures: vec![capture(0, 0, 3)] };
    assert_eq!(template.render(&found, &source), Err(RenderError::InvalidUtf8));
    let part = QueryMatch { captures: vec![capture(0, 2, 3)] };
    assert_eq!(template.render(&part, &source), Ok("b".to_string()));
}

#[test]
fn render_joins_halves_of_a_character() {
    // "é" is two bytes; two captures that each cover one of them
    let source = "é".as_bytes();
    let template = Template::parse("{a}{b}", &names(&["a", "b"])).unwrap();
    let found = QueryMatch { captures: vec![capture(0, 0, 1), capture(1, 1, 2)] };
    assert_eq!(template.render(&found, source), Ok("é".to_string()));
}

#[test]
fn find_gives_the_first_capture() {
    let found = QueryMatch { captures: vec![capture(3, 0, 1), capture(2, 1, 2), capture(3, 2, 3)] };
    assert_eq!(found.find(3), Some(capture(3, 0, 1)));
    assert_eq!(found.find(2), Some(capture(2, 1, 2)));
    assert_eq!(found.find(0), None);
}

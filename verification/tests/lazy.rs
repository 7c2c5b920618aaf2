use cymbal::config::Config;
use cymbal::kind_map::KindMap;
use cymbal::language::Language;
use cymbal::language_map::LanguageMap;
use cymbal::lazy::{lazy_queries, Lazy};
use cymbal::query::{ConfigError, RawQuery};
use cymbal::symbol::Kind;

fn raw(pattern: &str) -> KindMap {
    let mut map = KindMap::new();
    map.insert(Kind::Function, vec![RawQuery::Bare(pattern.to_string())]);
    map
}

#[test]
fn lazy_queries_are_compiled_on_demand_and_kept() {
    let mut lazy = Lazy::new(Language::Rust, raw("(function_item name: (identifier) @symbol)"));
    assert!(!lazy.is_compiled());
    assert!(lazy.get().is_none());
    lazy.force();
    assert!(lazy.is_compiled());
    let names = |lazy: &Lazy| match lazy.get() {
        Some(Ok(queries)) => queries.at(0).unwrap().1[0].names.clone(),
        _ => panic!("the queries compile"),
    };
    let first = names(&lazy);
    lazy.force();
    assert_eq!(names(&lazy), first);
    assert_eq!(first, vec!["symbol".to_string()]);
    assert_eq!(lazy.language, Language::Rust);
    let queries = lazy.take().unwrap();
    assert_eq!(queries.len(), 1);
    assert_eq!(queries.at(0).unwrap().1[0].symbol_index(), Some(0));
}

#[test]
fn lazy_queries_keep_the_error_too() {
    let mut lazy = Lazy::new(Language::Rust, raw("(function_item"));
    lazy.force();
    assert!(matches!(lazy.get(), Some(Err(ConfigError::Query(_)))));
    assert!(matches!(lazy.take(), Err(ConfigError::Query(_))));
}

#[test]
fn taking_compiles_what_was_not_compiled() {
    let lazy = Lazy::new(Language::Go, raw("(function_declaration name: (identifier) @symbol)"));
    assert!(lazy.take().is_ok());
    let lazy = Lazy::new(Language::Go, raw("(function_item name: (identifier) @symbol)"));
    assert!(matches!(lazy.take(), Err(ConfigError::Query(_))));
}

#[test]
fn one_lazy_entry_for_each_language() {
    let mut languages = LanguageMap::new();
    languages.insert(Language::Go, raw("(a) @symbol"));
    languages.insert(Language::Rust, raw("(b) @symbol"));
    let lazies = lazy_queries(Config { languages });
    assert_eq!(lazies.len(), 2);
    assert_eq!(lazies[0].language, Language::Go);
    assert_eq!(lazies[1].language, Language::Rust);
    assert!(!lazies[0].is_compiled());
    assert_eq!(lazies[1].raw.at(0).unwrap().1, &vec![RawQuery::Bare("(b) @symbol".to_string())]);
    assert_eq!(lazy_queries(Config { languages: LanguageMap::new() }).len(), 0);
}

#[test]
fn maps_know_whether_they_are_in_order() {
    let good = raw("(a) @symbol");
    assert!(good.is_well_formed());
    assert!(KindMap::new().is_well_formed());
    // a key that is the number of no kind
    let mut odd = indexmap::IndexMap::new();
    odd.insert(3u8, vec![]);
    odd.insert(16u8, vec![]);
    let odd = KindMap { map: odd };
    assert!(!odd.is_well_formed());
    assert_eq!(odd.len(), 2);
    assert_eq!(odd.at(0), Some((Kind::Constant, &vec![])));
    assert_eq!(odd.at(1), None);

    let mut languages = LanguageMap::new();
    languages.insert(Language::Go, raw("(a) @symbol"));
    languages.insert(Language::C, raw("(a) @symbol"));
    assert!(languages.is_well_formed());
    languages.map.insert(Language::Go.to_code(), odd);
    assert!(!languages.is_well_formed());
}

#[test]
fn kinds_and_languages_are_stored_under_their_place() {
    assert_eq!(Kind::Module.to_code(), 0);
    assert_eq!(Kind::Function.to_code(), 13);
    assert_eq!(Kind::Impl.to_code(), 15);
    assert_eq!(Language::C.to_code(), 0);
    assert_eq!(Language::Rust.to_code(), 9);
    assert_eq!(Language::TypeScript.to_code(), 10);
    for code in 0..=255u8 {
        match Kind::from_code(code) {
            Some(kind) => assert_eq!(kind.to_code(), code),
            None => assert!(code >= 16),
        }
        match Language::from_code(code) {
            Some(language) => assert_eq!(language.to_code(), code),
            None => assert!(code >= 11),
        }
    }
}

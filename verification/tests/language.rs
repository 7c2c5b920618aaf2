use cymbal::language::Language;
use cymbal::symbol::Kind;
use cymbal::text::{Loc, Span};

const ALL: [Language; 11] = [
    Language::C,
    Language::Cpp,
    Language::Fish,
    Language::Go,
    Language::Haskell,
    Language::Json,
    Language::Odin,
    Language::Ocaml,
    Language::Python,
    Language::Rust,
    Language::TypeScript,
];

#[test]
fn extensions_of_each_language() {
    assert_eq!(Language::C.extensions(), vec!["c", "h"]);
    assert_eq!(Language::Cpp.extensions(), vec!["cpp", "cc", "hh"]);
    assert_eq!(Language::Fish.extensions(), vec!["fish"]);
    assert_eq!(Language::Go.extensions(), vec!["go"]);
    assert_eq!(Language::Haskell.extensions(), vec!["hs"]);
    assert_eq!(Language::Json.extensions(), vec!["json"]);
    assert_eq!(Language::Odin.extensions(), vec!["odin"]);
    assert_eq!(Language::Ocaml.extensions(), vec!["ml"]);
    assert_eq!(Language::Python.extensions(), vec!["py"]);
    assert_eq!(Language::Rust.extensions(), vec!["rs"]);
    assert_eq!(Language::TypeScript.extensions(), vec!["js", "jsx", "ts", "tsx"]);
}

#[test]
fn every_extension_leads_back_to_its_language() {
    for language in ALL {
        for extension in language.extensions() {
            assert_eq!(Language::from_extension(extension), Some(language));
        }
    }
}

#[test]
fn unknown_extensions_have_no_language() {
    assert_eq!(Language::from_extension(""), None);
    assert_eq!(Language::from_extension("txt"), None);
    assert_eq!(Language::from_extension("RS"), None);
    assert_eq!(Language::from_extension(".rs"), None);
    assert_eq!(Language::from_extension("rss"), None);
    assert_eq!(Language::from_extension("cp"), None);
}

#[test]
fn language_tags() {
    assert_eq!(Language::C.colored_abbreviation(), "\x1b[34m(c)\x1b[0m");
    assert_eq!(Language::Cpp.colored_abbreviation(), "\x1b[34m(c++)\x1b[0m");
    assert_eq!(Language::Fish.colored_abbreviation(), "\x1b[32m(fish)\x1b[0m");
    assert_eq!(Language::Go.colored_abbreviation(), "\x1b[36m(go)\x1b[0m");
    assert_eq!(Language::Haskell.colored_abbreviation(), "\x1b[35m(hs)\x1b[0m");
    assert_eq!(Language::Json.colored_abbreviation(), "\x1b[32m(json)\x1b[0m");
    assert_eq!(Language::Odin.colored_abbreviation(), "\x1b[34m(odin)\x1b[0m");
    assert_eq!(Language::Ocaml.colored_abbreviation(), "\x1b[33m(ml)\x1b[0m");
    assert_eq!(Language::Python.colored_abbreviation(), "\x1b[93m(py)\x1b[0m");
    assert_eq!(Language::Rust.colored_abbreviation(), "\x1b[33m(rs)\x1b[0m");
    assert_eq!(Language::TypeScript.colored_abbreviation(), "\x1b[34m(ts)\x1b[0m");
}

#[test]
fn kind_tags() {
    assert_eq!(Kind::Module.colored_abbreviation(), "\x1b[33m(mod)   \x1b[0m");
    assert_eq!(Kind::Macro.colored_abbreviation(), "\x1b[33m(macro) \x1b[0m");
    assert_eq!(Kind::Global.colored_abbreviation(), "\x1b[33m(global)\x1b[0m");
    assert_eq!(Kind::Constant.colored_abbreviation(), "\x1b[33m(const) \x1b[0m");
    assert_eq!(Kind::Define.colored_abbreviation(), "\x1b[33m(define)\x1b[0m");
    assert_eq!(Kind::Class.colored_abbreviation(), "\x1b[36m(class) \x1b[0m");
    assert_eq!(Kind::Struct.colored_abbreviation(), "\x1b[36m(struct)\x1b[0m");
    assert_eq!(Kind::Enum.colored_abbreviation(), "\x1b[36m(enum)  \x1b[0m");
    assert_eq!(Kind::Union.colored_abbreviation(), "\x1b[36m(union) \x1b[0m");
    assert_eq!(Kind::Alias.colored_abbreviation(), "\x1b[34m(alias) \x1b[0m");
    assert_eq!(Kind::Interface.colored_abbreviation(), "\x1b[34m(inter) \x1b[0m");
    assert_eq!(Kind::Trait.colored_abbreviation(), "\x1b[34m(trait) \x1b[0m");
    assert_eq!(Kind::Type.colored_abbreviation(), "\x1b[34m(type)  \x1b[0m");
    assert_eq!(Kind::Function.colored_abbreviation(), "\x1b[35m(func)  \x1b[0m");
    assert_eq!(Kind::Method.colored_abbreviation(), "\x1b[35m(method)\x1b[0m");
    assert_eq!(Kind::Impl.colored_abbreviation(), "\x1b[35m(impl)  \x1b[0m");
}

#[test]
fn kind_tags_are_equally_wide() {
    let kinds = [
        Kind::Module,
        Kind::Macro,
        Kind::Global,
        Kind::Constant,
        Kind::Define,
        Kind::Class,
        Kind::Struct,
        Kind::Enum,
        Kind::Union,
        Kind::Alias,
        Kind::Interface,
        Kind::Trait,
        Kind::Type,
        Kind::Function,
        Kind::Method,
        Kind::Impl,
    ];
    for kind in kinds {
        // the escape sequences take five and four characters
        assert_eq!(kind.colored_abbreviation().chars().count(), 5 + 8 + 4);
    }
}

#[test]
fn loc_and_span() {
    let start = Loc::new(3, 7);
    assert_eq!(start.line, 3);
    assert_eq!(start.column, 7);
    let end = Loc::new(4, 0);
    let span = Span::new(start, end);
    assert_eq!(span.start, start);
    assert_eq!(span.end, end);
    assert_eq!(Loc::default(), Loc::new(0, 0));
}

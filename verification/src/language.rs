use vstd::prelude::*;

use crate::grammar::{dialect, Dialect, Grammar};
use crate::strings::same_text;
use crate::symbol::paint;

verus! {

/// A programming language whose files can be searched for symbols.
#[derive(Clone, Copy, Debug, PartialEq, Eq, Hash, Structural)]
pub enum Language {
    C,
    Cpp,
    Fish,
    Go,
    Haskell,
    Json,
    Odin,
    Ocaml,
    Python,
    Rust,
    TypeScript,
}

/// The language whose files end in `extension`, if any.
pub open spec fn language_of_extension(extension: Seq<char>) -> Option<Language> {
    if extension == "c"@ || extension == "h"@ {
        Some(Language::C)
    } else if extension == "cpp"@ || extension == "cc"@ || extension == "hh"@ {
        Some(Language::Cpp)
    } else if extension == "fish"@ {
        Some(Language::Fish)
    } else if extension == "go"@ {
        Some(Language::Go)
    } else if extension == "hs"@ {
        Some(Language::Haskell)
    } else if extension == "json"@ {
        Some(Language::Json)
    } else if extension == "odin"@ {
        Some(Language::Odin)
    } else if extension == "ml"@ {
        Some(Language::Ocaml)
    } else if extension == "py"@ {
        Some(Language::Python)
    } else if extension == "rs"@ {
        Some(Language::Rust)
    } else if extension == "js"@ || extension == "jsx"@ || extension == "ts"@ || extension
        == "tsx"@ {
        Some(Language::TypeScript)
    } else {
        None
    }
}

impl Language {
    /// The file extensions by which the language is recognised.
    pub open spec fn spec_extensions(self) -> Seq<Seq<char>> {
        match self {
            Language::C => seq!["c"@, "h"@],
            Language::Cpp => seq!["cpp"@, "cc"@, "hh"@],
            Language::Fish => seq!["fish"@],
            Language::Go => seq!["go"@],
            Language::Haskell => seq!["hs"@],
            Language::Json => seq!["json"@],
            Language::Odin => seq!["odin"@],
            Language::Ocaml => seq!["ml"@],
            Language::Python => seq!["py"@],
            Language::Rust => seq!["rs"@],
            Language::TypeScript => seq!["js"@, "jsx"@, "ts"@, "tsx"@],
        }
    }

    /// The short name of the language, in brackets.
    pub open spec fn label(self) -> Seq<char> {
        match self {
            Language::C => "(c)"@,
            Language::Cpp => "(c++)"@,
            Language::Fish => "(fish)"@,
            Language::Go => "(go)"@,
            Language::Haskell => "(hs)"@,
            Language::Json => "(json)"@,
            Language::Odin => "(odin)"@,
            Language::Ocaml => "(ml)"@,
            Language::Python => "(py)"@,
            Language::Rust => "(rs)"@,
            Language::TypeScript => "(ts)"@,
        }
    }

    /// The number of the colour in which the language's name is shown.
    pub open spec fn color_code(self) -> Seq<char> {
        match self {
            Language::C | Language::Cpp | Language::Odin | Language::TypeScript => "34"@,
            Language::Fish | Language::Json => "32"@,
            Language::Go => "36"@,
            Language::Haskell => "35"@,
            Language::Ocaml | Language::Rust => "33"@,
            Language::Python => "93"@,
        }
    }

    /// The file extensions by which the language is recognised.
    pub fn extensions(self) -> (list: Vec<&'static str>)
        ensures
            list@.map_values(|e: &'static str| e@) == self.spec_extensions(),
    {
        let list = match self {
            Language::C => vec!["c", "h"],
            Language::Cpp => vec!["cpp", "cc", "hh"],
            Language::Fish => vec!["fish"],
            Language::Go => vec!["go"],
            Language::Haskell => vec!["hs"],
            Language::Json => vec!["json"],
            Language::Odin => vec!["odin"],
            Language::Ocaml => vec!["ml"],
            Language::Python => vec!["py"],
            Language::Rust => vec!["rs"],
            Language::TypeScript => vec!["js", "jsx", "ts", "tsx"],
        };
        assert(list@.map_values(|e: &'static str| e@) =~= self.spec_extensions());
        list
    }

    /// The language whose files end in `extension`, if any.
    pub fn from_extension(extension: &str) -> (language: Option<Language>)
        ensures
            language == language_of_extension(extension@),
    {
        if same_text(extension, "c") || same_text(extension, "h") {
            Some(Language::C)
        } else if same_text(extension, "cpp") || same_text(extension, "cc") || same_text(
            extension,
            "hh",
        ) {
            Some(Language::Cpp)
        } else if same_text(extension, "fish") {
            Some(Language::Fish)
        } else if same_text(extension, "go") {
            Some(Language::Go)
        } else if same_text(extension, "hs") {
            Some(Language::Haskell)
        } else if same_text(extension, "json") {
            Some(Language::Json)
        } else if same_text(extension, "odin") {
            Some(Language::Odin)
        } else if same_text(extension, "ml") {
            Some(Language::Ocaml)
        } else if same_text(extension, "py") {
            Some(Language::Python)
        } else if same_text(extension, "rs") {
            Some(Language::Rust)
        } else if same_text(extension, "js") || same_text(extension, "jsx") || same_text(
            extension,
            "ts",
        ) || same_text(extension, "tsx") {
            Some(Language::TypeScript)
        } else {
            None
        }
    }

    /// Which grammar the language's files are parsed with. Every language
    /// has a grammar of its own; TypeScript, which stands for JavaScript
    /// too, is parsed as TypeScript with JSX.
    pub open spec fn spec_grammar(self) -> Dialect {
        match self {
            Language::C => Dialect::C,
            Language::Cpp => Dialect::Cpp,
            Language::Fish => Dialect::Fish,
            Language::Go => Dialect::Go,
            Language::Haskell => Dialect::Haskell,
            Language::Json => Dialect::Json,
            Language::Odin => Dialect::Odin,
            Language::Ocaml => Dialect::Ocaml,
            Language::Python => Dialect::Python,
            Language::Rust => Dialect::Rust,
            Language::TypeScript => Dialect::Tsx,
        }
    }

    /// The grammar with which the language's files are parsed.
    pub fn as_tree_sitter(self) -> (grammar: Grammar)
        ensures
            dialect(grammar) == self.spec_grammar(),
    {
        match self {
            Language::C => Grammar::c(),
            Language::Cpp => Grammar::cpp(),
            Language::Fish => Grammar::fish(),
            Language::Go => Grammar::go(),
            Language::Haskell => Grammar::haskell(),
            Language::Json => Grammar::json(),
            Language::Odin => Grammar::odin(),
            Language::Ocaml => Grammar::ocaml(),
            Language::Python => Grammar::python(),
            Language::Rust => Grammar::rust(),
            Language::TypeScript => Grammar::tsx(),
        }
    }

    /// The name of the language as it is written to the output: the label,
    /// in the language's colour.
    pub fn colored_abbreviation(self) -> (text: &'static str)
        ensures
            text@ == paint(self.color_code(), self.label()),
    {
        proof {
            reveal_strlit("34");
            reveal_strlit("32");
            reveal_strlit("36");
            reveal_strlit("35");
            reveal_strlit("33");
            reveal_strlit("93");
        }
        match self {
            Language::C => {
                proof {
                    reveal_strlit("(c)");
                    reveal_strlit("\x1b[34m(c)\x1b[0m");
                }
                "\x1b[34m(c)\x1b[0m"
            },
            Language::Cpp => {
                proof {
                    reveal_strlit("(c++)");
                    reveal_strlit("\x1b[34m(c++)\x1b[0m");
                }
                "\x1b[34m(c++)\x1b[0m"
            },
            Language::Fish => {
                proof {
                    reveal_strlit("(fish)");
                    reveal_strlit("\x1b[32m(fish)\x1b[0m");
                }
                "\x1b[32m(fish)\x1b[0m"
            },
            Language::Go => {
                proof {
                    reveal_strlit("(go)");
                    reveal_strlit("\x1b[36m(go)\x1b[0m");
                }
                "\x1b[36m(go)\x1b[0m"
            },
            Language::Haskell => {
                proof {
                    reveal_strlit("(hs)");
                    reveal_strlit("\x1b[35m(hs)\x1b[0m");
                }
                "\x1b[35m(hs)\x1b[0m"
            },
            Language::Json => {
                proof {
                    reveal_strlit("(json)");
                    reveal_strlit("\x1b[32m(json)\x1b[0m");
                }
                "\x1b[32m(json)\x1b[0m"
            },
            Language::Odin => {
                proof {
                    reveal_strlit("(odin)");
                    reveal_strlit("\x1b[34m(odin)\x1b[0m");
                }
                "\x1b[34m(odin)\x1b[0m"
            },
            Language::Ocaml => {
                proof {
                    reveal_strlit("(ml)");
                    reveal_strlit("\x1b[33m(ml)\x1b[0m");
                }
                "\x1b[33m(ml)\x1b[0m"
            },
            Language::Python => {
                proof {
                    reveal_strlit("(py)");
                    reveal_strlit("\x1b[93m(py)\x1b[0m");
                }
                "\x1b[93m(py)\x1b[0m"
            },
            Language::Rust => {
                proof {
                    reveal_strlit("(rs)");
                    reveal_strlit("\x1b[33m(rs)\x1b[0m");
                }
                "\x1b[33m(rs)\x1b[0m"
            },
            Language::TypeScript => {
                proof {
                    reveal_strlit("(ts)");
                    reveal_strlit("\x1b[34m(ts)\x1b[0m");
                }
                "\x1b[34m(ts)\x1b[0m"
            },
        }
    }

    /// A language is found by an extension exactly when the extension is one
    /// of its own.
    pub proof fn extension_belongs(self, extension: Seq<char>)
        ensures
            language_of_extension(extension) == Some(self) <==> self.spec_extensions().contains(
                extension,
            ),
    {
        reveal_strlit("c");
        reveal_strlit("h");
        reveal_strlit("cpp");
        reveal_strlit("cc");
        reveal_strlit("hh");
        reveal_strlit("fish");
        reveal_strlit("go");
        reveal_strlit("hs");
        reveal_strlit("json");
        reveal_strlit("odin");
        reveal_strlit("ml");
        reveal_strlit("py");
        reveal_strlit("rs");
        reveal_strlit("js");
        reveal_strlit("jsx");
        reveal_strlit("ts");
        reveal_strlit("tsx");
        assert("c"@ =~= seq!['c']);
        assert("h"@ =~= seq!['h']);
        assert("cpp"@ =~= seq!['c', 'p', 'p']);
        assert("cc"@ =~= seq!['c', 'c']);
        assert("hh"@ =~= seq!['h', 'h']);
        assert("fish"@ =~= seq!['f', 'i', 's', 'h']);
        assert("go"@ =~= seq!['g', 'o']);
        assert("hs"@ =~= seq!['h', 's']);
        assert("json"@ =~= seq!['j', 's', 'o', 'n']);
        assert("odin"@ =~= seq!['o', 'd', 'i', 'n']);
        assert("ml"@ =~= seq!['m', 'l']);
        assert("py"@ =~= seq!['p', 'y']);
        assert("rs"@ =~= seq!['r', 's']);
        assert("js"@ =~= seq!['j', 's']);
        assert("jsx"@ =~= seq!['j', 's', 'x']);
        assert("ts"@ =~= seq!['t', 's']);
        assert("tsx"@ =~= seq!['t', 's', 'x']);
        let list = self.spec_extensions();
        if list.contains(extension) {
            let i = choose|i: int| 0 <= i < list.len() && list[i] == extension;
            assert(list[i] == extension);
            match self {
                Language::C => {
                    assert(i == 0 || i == 1);
                },
                Language::Cpp => {
                    assert(i == 0 || i == 1 || i == 2);
                },
                Language::TypeScript => {
                    assert(i == 0 || i == 1 || i == 2 || i == 3);
                },
                _ => {
                    assert(i == 0);
                },
            }
            assert(extension.len() >= 1);
            assert(language_of_extension(extension) == Some(self));
        }
        if language_of_extension(extension) == Some(self) {
            match self {
                Language::C => {
                    assert(list[0] == "c"@ && list[1] == "h"@);
                },
                Language::Cpp => {
                    assert(list[0] == "cpp"@ && list[1] == "cc"@ && list[2] == "hh"@);
                },
                Language::TypeScript => {
                    assert(list[0] == "js"@ && list[1] == "jsx"@ && list[2] == "ts"@ && list[3]
                        == "tsx"@);
                },
                _ => {
                    assert(list[0] == extension);
                },
            }
            assert(list.contains(extension));
        }
    }
}

/// The language that is stored under a number. Meant for the number of a
/// language.
pub open spec fn language_of_code(code: u8) -> Language {
    if code == 0 {
        Language::C
    } else if code == 1 {
        Language::Cpp
    } else if code == 2 {
        Language::Fish
    } else if code == 3 {
        Language::Go
    } else if code == 4 {
        Language::Haskell
    } else if code == 5 {
        Language::Json
    } else if code == 6 {
        Language::Odin
    } else if code == 7 {
        Language::Ocaml
    } else if code == 8 {
        Language::Python
    } else if code == 9 {
        Language::Rust
    } else {
        Language::TypeScript
    }
}

impl Language {
    /// The number under which the language is stored: its place in the list
    /// of languages, counted from 0.
    pub open spec fn code(self) -> u8 {
        match self {
            Language::C => 0,
            Language::Cpp => 1,
            Language::Fish => 2,
            Language::Go => 3,
            Language::Haskell => 4,
            Language::Json => 5,
            Language::Odin => 6,
            Language::Ocaml => 7,
            Language::Python => 8,
            Language::Rust => 9,
            Language::TypeScript => 10,
        }
    }

    /// The number under which the language is stored.
    pub fn to_code(self) -> (code: u8)
        ensures
            code == self.code(),
    {
        match self {
            Language::C => 0,
            Language::Cpp => 1,
            Language::Fish => 2,
            Language::Go => 3,
            Language::Haskell => 4,
            Language::Json => 5,
            Language::Odin => 6,
            Language::Ocaml => 7,
            Language::Python => 8,
            Language::Rust => 9,
            Language::TypeScript => 10,
        }
    }

    /// The language that is stored under a number, if there is one.
    pub fn from_code(code: u8) -> (found: Option<Language>)
        ensures
            match found {
                Some(it) => it.code() == code,
                None => code >= 11,
            },
    {
        match code {
            0 => Some(Language::C),
            1 => Some(Language::Cpp),
            2 => Some(Language::Fish),
            3 => Some(Language::Go),
            4 => Some(Language::Haskell),
            5 => Some(Language::Json),
            6 => Some(Language::Odin),
            7 => Some(Language::Ocaml),
            8 => Some(Language::Python),
            9 => Some(Language::Rust),
            10 => Some(Language::TypeScript),
            _ => None,
        }
    }

    /// No two languages are stored under one number, and every number below
    /// 11 stands for a language.
    pub proof fn codes_are_distinct(self, other: Language)
        ensures
            self.code() < 11,
            self.code() == other.code() ==> self == other,
            language_of_code(self.code()) == self,
    {
    }
}

} // verus!

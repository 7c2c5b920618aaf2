use vstd::prelude::*;

use crate::language::Language;

verus! {

/// What kind of construct a symbol names.
#[derive(Clone, Copy, Debug, PartialEq, Eq, Hash, Structural)]
pub enum Kind {
    Module,
    Macro,
    Global,
    Constant,
    Define,
    Class,
    Struct,
    Enum,
    Union,
    Alias,
    Interface,
    Trait,
    Type,
    Function,
    Method,
    Impl,
}

/// Wraps `text` in the escape sequences that switch the colour numbered
/// `code` on before it and all attributes off after it.
pub open spec fn paint(code: Seq<char>, text: Seq<char>) -> Seq<char> {
    seq!['\x1b', '['] + code + seq!['m'] + text + seq!['\x1b', '[', '0', 'm']
}

impl Kind {
    /// The tag of the kind, padded with spaces to eight characters.
    pub open spec fn label(self) -> Seq<char> {
        match self {
            Kind::Module => "(mod)   "@,
            Kind::Macro => "(macro) "@,
            Kind::Global => "(global)"@,
            Kind::Constant => "(const) "@,
            Kind::Define => "(define)"@,
            Kind::Class => "(class) "@,
            Kind::Struct => "(struct)"@,
            Kind::Enum => "(enum)  "@,
            Kind::Union => "(union) "@,
            Kind::Alias => "(alias) "@,
            Kind::Interface => "(inter) "@,
            Kind::Trait => "(trait) "@,
            Kind::Type => "(type)  "@,
            Kind::Function => "(func)  "@,
            Kind::Method => "(method)"@,
            Kind::Impl => "(impl)  "@,
        }
    }

    /// The number of the colour in which the tag is shown: yellow for
    /// values, cyan for data types, blue for abstractions, magenta for code.
    pub open spec fn color_code(self) -> Seq<char> {
        match self {
            Kind::Module | Kind::Macro | Kind::Global | Kind::Constant | Kind::Define => "33"@,
            Kind::Class | Kind::Struct | Kind::Enum | Kind::Union => "36"@,
            Kind::Alias | Kind::Interface | Kind::Trait | Kind::Type => "34"@,
            Kind::Function | Kind::Method | Kind::Impl => "35"@,
        }
    }

    /// The tag of the kind as it is written to the output: the label, in the
    /// kind's colour.
    pub fn colored_abbreviation(self) -> (text: &'static str)
        ensures
            text@ == paint(self.color_code(), self.label()),
    {
        proof {
            reveal_strlit("33");
            reveal_strlit("36");
            reveal_strlit("34");
            reveal_strlit("35");
        }
        match self {
            Kind::Module => {
                proof {
                    reveal_strlit("(mod)   ");
                    reveal_strlit("\x1b[33m(mod)   \x1b[0m");
                }
                "\x1b[33m(mod)   \x1b[0m"
            },
            Kind::Macro => {
                proof {
                    reveal_strlit("(macro) ");
                    reveal_strlit("\x1b[33m(macro) \x1b[0m");
                }
                "\x1b[33m(macro) \x1b[0m"
            },
            Kind::Global => {
                proof {
                    reveal_strlit("(global)");
                    reveal_strlit("\x1b[33m(global)\x1b[0m");
                }
                "\x1b[33m(global)\x1b[0m"
            },
            Kind::Constant => {
                proof {
                    reveal_strlit("(const) ");
                    reveal_strlit("\x1b[33m(const) \x1b[0m");
                }
                "\x1b[33m(const) \x1b[0m"
            },
            Kind::Define => {
                proof {
                    reveal_strlit("(define)");
                    reveal_strlit("\x1b[33m(define)\x1b[0m");
                }
                "\x1b[33m(define)\x1b[0m"
            },
            Kind::Class => {
                proof {
                    reveal_strlit("(class) ");
                    reveal_strlit("\x1b[36m(class) \x1b[0m");
                }
                "\x1b[36m(class) \x1b[0m"
            },
            Kind::Struct => {
                proof {
                    reveal_strlit("(struct)");
                    reveal_strlit("\x1b[36m(struct)\x1b[0m");
                }
                "\x1b[36m(struct)\x1b[0m"
            },
            Kind::Enum => {
                proof {
                    reveal_strlit("(enum)  ");
                    reveal_strlit("\x1b[36m(enum)  \x1b[0m");
                }
                "\x1b[36m(enum)  \x1b[0m"
            },
            Kind::Union => {
                proof {
                    reveal_strlit("(union) ");
                    reveal_strlit("\x1b[36m(union) \x1b[0m");
                }
                "\x1b[36m(union) \x1b[0m"
            },
            Kind::Alias => {
                proof {
                    reveal_strlit("(alias) ");
                    reveal_strlit("\x1b[34m(alias) \x1b[0m");
                }
                "\x1b[34m(alias) \x1b[0m"
            },
            Kind::Interface => {
                proof {
                    reveal_strlit("(inter) ");
                    reveal_strlit("\x1b[34m(inter) \x1b[0m");
                }
                "\x1b[34m(inter) \x1b[0m"
            },
            Kind::Trait => {
                proof {
                    reveal_strlit("(trait) ");
                    reveal_strlit("\x1b[34m(trait) \x1b[0m");
                }
                "\x1b[34m(trait) \x1b[0m"
            },
            Kind::Type => {
                proof {
                    reveal_strlit("(type)  ");
                    reveal_strlit("\x1b[34m(type)  \x1b[0m");
                }
                "\x1b[34m(type)  \x1b[0m"
            },
            Kind::Function => {
                proof {
                    reveal_strlit("(func)  ");
                    reveal_strlit("\x1b[35m(func)  \x1b[0m");
                }
                "\x1b[35m(func)  \x1b[0m"
            },
            Kind::Method => {
                proof {
                    reveal_strlit("(method)");
                    reveal_strlit("\x1b[35m(method)\x1b[0m");
                }
                "\x1b[35m(method)\x1b[0m"
            },
            Kind::Impl => {
                proof {
                    reveal_strlit("(impl)  ");
                    reveal_strlit("\x1b[35m(impl)  \x1b[0m");
                }
                "\x1b[35m(impl)  \x1b[0m"
            },
        }
    }

    /// Every kind's label is eight characters wide, so that the tags line up
    /// in a listing.
    pub proof fn label_width(self)
        ensures
            self.label().len() == 8,
    {
        reveal_strlit("(mod)   ");
        reveal_strlit("(macro) ");
        reveal_strlit("(global)");
        reveal_strlit("(const) ");
        reveal_strlit("(define)");
        reveal_strlit("(class) ");
        reveal_strlit("(struct)");
        reveal_strlit("(enum)  ");
        reveal_strlit("(union) ");
        reveal_strlit("(alias) ");
        reveal_strlit("(inter) ");
        reveal_strlit("(trait) ");
        reveal_strlit("(type)  ");
        reveal_strlit("(func)  ");
        reveal_strlit("(method)");
        reveal_strlit("(impl)  ");
    }
}

impl Kind {
    /// The number under which the kind is stored: its place in the list
    /// of kinds, counted from 0.
    pub open spec fn code(self) -> u8 {
        match self {
            Kind::Module => 0,
            Kind::Macro => 1,
            Kind::Global => 2,
            Kind::Constant => 3,
            Kind::Define => 4,
            Kind::Class => 5,
            Kind::Struct => 6,
            Kind::Enum => 7,
            Kind::Union => 8,
            Kind::Alias => 9,
            Kind::Interface => 10,
            Kind::Trait => 11,
            Kind::Type => 12,
            Kind::Function => 13,
            Kind::Method => 14,
            Kind::Impl => 15,
        }
    }

    /// The number under which the kind is stored.
    pub fn to_code(self) -> (code: u8)
        ensures
            code == self.code(),
    {
        match self {
            Kind::Module => 0,
            Kind::Macro => 1,
            Kind::Global => 2,
            Kind::Constant => 3,
            Kind::Define => 4,
            Kind::Class => 5,
            Kind::Struct => 6,
            Kind::Enum => 7,
            Kind::Union => 8,
            Kind::Alias => 9,
            Kind::Interface => 10,
            Kind::Trait => 11,
            Kind::Type => 12,
            Kind::Function => 13,
            Kind::Method => 14,
            Kind::Impl => 15,
        }
    }

    /// The kind that is stored under a number, if there is one.
    pub fn from_code(code: u8) -> (found: Option<Kind>)
        ensures
            match found {
                Some(it) => it.code() == code,
                None => code >= 16,
            },
    {
        match code {
            0 => Some(Kind::Module),
            1 => Some(Kind::Macro),
            2 => Some(Kind::Global),
            3 => Some(Kind::Constant),
            4 => Some(Kind::Define),
            5 => Some(Kind::Class),
            6 => Some(Kind::Struct),
            7 => Some(Kind::Enum),
            8 => Some(Kind::Union),
            9 => Some(Kind::Alias),
            10 => Some(Kind::Interface),
            11 => Some(Kind::Trait),
            12 => Some(Kind::Type),
            13 => Some(Kind::Function),
            14 => Some(Kind::Method),
            15 => Some(Kind::Impl),
            _ => None,
        }
    }

    /// No two kinds are stored under one number, and every number below
    /// 16 stands for a kind.
    pub proof fn codes_are_distinct(self, other: Kind)
        ensures
            self.code() < 16,
            self.code() == other.code() ==> self == other,
    {
    }
}

/// A moment in time: whole seconds since the Unix epoch and the nanoseconds
/// within the second. Two timestamps are the same moment exactly when both
/// parts agree.
#[derive(Clone, Copy, Debug, PartialEq, Eq, Hash, Structural)]
pub struct Timestamp {
    pub secs: i64,
    pub nanos: u32,
}

/// What is stored about a file besides its symbols.
#[derive(Clone, Copy, Debug, PartialEq, Eq, Structural)]
pub struct FileInfo {
    /// The modification time that the file had when it was last recorded.
    pub modified: Timestamp,
    /// Whether every symbol of the file has been stored since then.
    pub is_fully_parsed: bool,
}

/// One named construct found in a source file.
#[derive(Clone, Debug, PartialEq, Eq)]
pub struct Symbol {
    pub kind: Kind,
    pub language: Language,
    /// The line on which the symbol starts, counted from 1.
    pub line: i64,
    /// The column at which the symbol starts, counted from 0.
    pub column: i64,
    /// The source text of the symbol.
    pub content: String,
    /// Text shown before the symbol.
    pub leading: Option<String>,
    /// Text shown after the symbol.
    pub trailing: Option<String>,
}

/// The mathematical value of a [`Symbol`].
pub struct SymbolView {
    pub kind: Kind,
    pub language: Language,
    pub line: int,
    pub column: int,
    pub content: Seq<char>,
    pub leading: Option<Seq<char>>,
    pub trailing: Option<Seq<char>>,
}

/// The text of an optional string.
pub open spec fn text_of(text: Option<String>) -> Option<Seq<char>> {
    match text {
        Some(s) => Some(s@),
        None => None,
    }
}

/// The text of an optional string, empty where there is none.
pub open spec fn text_or_empty(text: Option<Seq<char>>) -> Seq<char> {
    match text {
        Some(s) => s,
        None => Seq::empty(),
    }
}

impl View for Symbol {
    type V = SymbolView;

    open spec fn view(&self) -> SymbolView {
        SymbolView {
            kind: self.kind,
            language: self.language,
            line: self.line as int,
            column: self.column as int,
            content: self.content@,
            leading: text_of(self.leading),
            trailing: text_of(self.trailing),
        }
    }
}

/// The values of a sequence of symbols, in order.
pub open spec fn symbol_views(symbols: Seq<Symbol>) -> Seq<SymbolView> {
    symbols.map_values(|s: Symbol| s@)
}

impl Symbol {
    /// The leading text, empty where the symbol has none.
    pub fn leading_str(&self) -> (text: &str)
        ensures
            text@ == text_or_empty(self@.leading),
    {
        match &self.leading {
            Some(s) => s.as_str(),
            None => {
                proof {
                    reveal_strlit("");
                }
                ""
            },
        }
    }

    /// The trailing text, empty where the symbol has none.
    pub fn trailing_str(&self) -> (text: &str)
        ensures
            text@ == text_or_empty(self@.trailing),
    {
        match &self.trailing {
            Some(s) => s.as_str(),
            None => {
                proof {
                    reveal_strlit("");
                }
                ""
            },
        }
    }

    /// A symbol with the same value.
    pub fn duplicate(&self) -> (copy: Symbol)
        ensures
            copy@ == self@,
    {
        Symbol {
            kind: self.kind,
            language: self.language,
            line: self.line,
            column: self.column,
            content: self.content.clone(),
            leading: match &self.leading {
                Some(s) => Some(s.clone()),
                None => None,
            },
            trailing: match &self.trailing {
                Some(s) => Some(s.clone()),
                None => None,
            },
        }
    }
}

} // verus!

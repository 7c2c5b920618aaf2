use vstd::prelude::*;
use vstd::string::*;

use crate::language::Language;
use crate::strings::push_char;
use crate::symbol::{paint, text_or_empty, Symbol, SymbolView};

verus! {

/// What is handed to the one owner of the output.
#[derive(Clone, Debug, PartialEq, Eq)]
pub enum Message {
    /// One record, ready to be written as it stands.
    Symbol(String),
    /// Nothing more will come.
    Stop,
}

/// The digit for a number below ten.
pub open spec fn digit_char(d: int) -> char {
    if d == 0 {
        '0'
    } else if d == 1 {
        '1'
    } else if d == 2 {
        '2'
    } else if d == 3 {
        '3'
    } else if d == 4 {
        '4'
    } else if d == 5 {
        '5'
    } else if d == 6 {
        '6'
    } else if d == 7 {
        '7'
    } else if d == 8 {
        '8'
    } else {
        '9'
    }
}

/// The decimal digits of a natural number, without leading zeros.
pub open spec fn digits(n: nat) -> Seq<char>
    decreases n,
{
    if n < 10 {
        seq![digit_char(n as int)]
    } else {
        digits(n / 10).push(digit_char((n % 10) as int))
    }
}

/// A number in decimal, with a minus sign where it is negative.
pub open spec fn decimal(n: int) -> Seq<char> {
    if n < 0 {
        seq!['-'] + digits((-n) as nat)
    } else {
        digits(n as nat)
    }
}

/// One record of the output: the language tag, the kind tag, the path, the
/// line, the column, the leading text, the content and the trailing text,
/// with the delimiter between them and the separator at the end.
pub open spec fn record(
    language: Language,
    path: Seq<char>,
    symbol: SymbolView,
    delimiter: char,
    separator: char,
) -> Seq<char> {
    paint(language.color_code(), language.label()).push(delimiter) + paint(
        symbol.kind.color_code(),
        symbol.kind.label(),
    ).push(delimiter) + path.push(delimiter) + decimal(symbol.line).push(delimiter) + decimal(
        symbol.column,
    ).push(delimiter) + text_or_empty(symbol.leading).push(delimiter) + symbol.content.push(
        delimiter,
    ) + text_or_empty(symbol.trailing).push(separator)
}

fn digit_of(d: u64) -> (c: char)
    requires
        d < 10,
    ensures
        c == digit_char(d as int),
{
    if d == 0 {
        '0'
    } else if d == 1 {
        '1'
    } else if d == 2 {
        '2'
    } else if d == 3 {
        '3'
    } else if d == 4 {
        '4'
    } else if d == 5 {
        '5'
    } else if d == 6 {
        '6'
    } else if d == 7 {
        '7'
    } else if d == 8 {
        '8'
    } else {
        '9'
    }
}

fn push_digits(text: &mut String, n: u64)
    ensures
        final(text)@ == old(text)@ + digits(n as nat),
    decreases n,
{
    if n >= 10 {
        push_digits(text, n / 10);
    }
    push_char(text, digit_of(n % 10));
    proof {
        if n >= 10 {
            assert(final(text)@ =~= old(text)@ + digits(n as nat));
        } else {
            assert(final(text)@ =~= old(text)@ + digits(n as nat));
        }
    }
}

/// Appends a number in decimal.
pub fn push_decimal(text: &mut String, n: i64)
    ensures
        final(text)@ == old(text)@ + decimal(n as int),
{
    if n < 0 {
        push_char(text, '-');
        let magnitude: u64 = (-(n + 1)) as u64 + 1;
        push_digits(text, magnitude);
        assert(final(text)@ =~= old(text)@ + decimal(n as int));
    } else {
        push_digits(text, n as u64);
    }
}

/// Formats the records of the output.
#[derive(Clone, Copy, Debug)]
pub struct Writer {
    pub delimiter: char,
    pub separator: char,
}

impl Writer {
    /// A writer that puts `delimiter` between the fields of a record and
    /// `separator` after it.
    pub fn new(delimiter: char, separator: char) -> (writer: Writer)
        ensures
            writer.delimiter == delimiter,
            writer.separator == separator,
    {
        Writer { delimiter, separator }
    }

    /// The record of a symbol that was found in the file shown as `path`.
    pub fn format(&self, language: Language, path: &str, symbol: &Symbol) -> (text: String)
        ensures
            text@ == record(language, path@, symbol@, self.delimiter, self.separator),
    {
        let mut text = String::new();
        text.append(language.colored_abbreviation());
        push_char(&mut text, self.delimiter);
        text.append(symbol.kind.colored_abbreviation());
        push_char(&mut text, self.delimiter);
        text.append(path);
        push_char(&mut text, self.delimiter);
        push_decimal(&mut text, symbol.line);
        push_char(&mut text, self.delimiter);
        push_decimal(&mut text, symbol.column);
        push_char(&mut text, self.delimiter);
        text.append(symbol.leading_str());
        push_char(&mut text, self.delimiter);
        text.append(symbol.content.as_str());
        push_char(&mut text, self.delimiter);
        text.append(symbol.trailing_str());
        push_char(&mut text, self.separator);
        assert(text@ =~= record(language, path@, symbol@, self.delimiter, self.separator));
        text
    }

    /// The message that carries the record of a symbol to the output.
    pub fn send(&self, language: Language, path: &str, symbol: &Symbol) -> (message: Message)
        ensures
            message matches Message::Symbol(text) && text@ == record(
                language,
                path@,
                symbol@,
                self.delimiter,
                self.separator,
            ),
    {
        Message::Symbol(self.format(language, path, symbol))
    }

    /// The message that ends the output.
    pub fn stop(&self) -> (message: Message)
        ensures
            message is Stop,
    {
        Message::Stop
    }
}

/// A record is never empty, and ends with the separator.
pub proof fn record_ends_with_separator(
    language: Language,
    path: Seq<char>,
    symbol: SymbolView,
    delimiter: char,
    separator: char,
)
    ensures
        record(language, path, symbol, delimiter, separator).len() > 0,
        record(language, path, symbol, delimiter, separator).last() == separator,
{
}

} // verus!

use vstd::prelude::*;

use crate::extract::Extraction;
use crate::grammar::{
    compile_pattern, compiled, dialect, pattern_capture_names, pattern_dialect, pattern_error_text,
    pattern_text, Dialect, Grammar, Pattern,
};
use crate::language::Language;
use crate::strings::texts;
use crate::symbol::Kind;
use crate::template::{
    capture_index, capture_index_of, parse_items, ItemView, Template, TemplateError,
    TemplateErrorView,
};

verus! {

/// Why a configured query was refused.
#[derive(Clone, Debug, PartialEq, Eq)]
pub enum ConfigError {
    /// The parsing library does not accept the pattern; its words say why.
    Query(String),
    /// The template for the leading text was refused.
    Leading(TemplateError),
    /// The template for the trailing text was refused.
    Trailing(TemplateError),
}

/// The mathematical value of a [`ConfigError`].
pub enum ConfigErrorView {
    Query(Seq<char>),
    Leading(TemplateErrorView),
    Trailing(TemplateErrorView),
}

impl View for ConfigError {
    type V = ConfigErrorView;

    open spec fn view(&self) -> ConfigErrorView {
        match self {
            ConfigError::Query(text) => ConfigErrorView::Query(text@),
            ConfigError::Leading(e) => ConfigErrorView::Leading(e@),
            ConfigError::Trailing(e) => ConfigErrorView::Trailing(e@),
        }
    }
}

/// One value, or a list of values.
#[derive(Debug)]
pub enum OneOrMany<T> {
    One(T),
    Many(Vec<T>),
}

impl<T> OneOrMany<T> {
    /// The values as a list.
    pub open spec fn spec_into_vec(self) -> Seq<T> {
        match self {
            OneOrMany::One(value) => seq![value],
            OneOrMany::Many(list) => list@,
        }
    }

    /// The values as a list: the one value alone, or the list as it is.
    pub fn into_vec(self) -> (list: Vec<T>)
        ensures
            list@ == self.spec_into_vec(),
    {
        match self {
            OneOrMany::One(value) => {
                let mut list = Vec::new();
                list.push(value);
                assert(list@ =~= seq![value]);
                list
            },
            OneOrMany::Many(list) => list,
        }
    }
}

/// A query as the configuration writes it.
#[derive(Clone, Debug, PartialEq, Eq)]
pub enum RawQuery {
    /// A pattern alone: its symbols have no text around them.
    Bare(String),
    /// A pattern with templates for the text before and after the symbol.
    WithContext { query: String, leading: Option<String>, trailing: Option<String> },
}

/// The text of an optional string.
pub open spec fn option_text(text: Option<String>) -> Option<Seq<char>> {
    match text {
        Some(s) => Some(s@),
        None => None,
    }
}

/// The items of an optional template.
pub open spec fn template_view(template: Option<Template>) -> Option<Seq<ItemView>> {
    match template {
        Some(t) => Some(t@),
        None => None,
    }
}

/// What an optional template string means: no template where there is no
/// string.
pub open spec fn parsed_option(text: Option<Seq<char>>, names: Seq<Seq<char>>) -> Result<
    Option<Seq<ItemView>>,
    TemplateErrorView,
> {
    match text {
        None => Ok(None),
        Some(t) => match parse_items(t, names) {
            Ok(items) => Ok(Some(items)),
            Err(e) => Err(e),
        },
    }
}

/// The two templates of a query whose captures are called `names`. The
/// leading template is looked at first: its fault hides one of the
/// trailing template.
pub open spec fn assembled(
    leading: Option<Seq<char>>,
    trailing: Option<Seq<char>>,
    names: Seq<Seq<char>>,
) -> Result<(Option<Seq<ItemView>>, Option<Seq<ItemView>>), ConfigErrorView> {
    match parsed_option(leading, names) {
        Err(e) => Err(ConfigErrorView::Leading(e)),
        Ok(before) => match parsed_option(trailing, names) {
            Err(e) => Err(ConfigErrorView::Trailing(e)),
            Ok(after) => Ok((before, after)),
        },
    }
}

impl RawQuery {
    /// The pattern.
    pub open spec fn pattern_text(self) -> Seq<char> {
        match self {
            RawQuery::Bare(query) => query@,
            RawQuery::WithContext { query, .. } => query@,
        }
    }

    /// The template string for the leading text, if there is one.
    pub open spec fn leading_text(self) -> Option<Seq<char>> {
        match self {
            RawQuery::Bare(_) => None,
            RawQuery::WithContext { leading, .. } => option_text(leading),
        }
    }

    /// The template string for the trailing text, if there is one.
    pub open spec fn trailing_text(self) -> Option<Seq<char>> {
        match self {
            RawQuery::Bare(_) => None,
            RawQuery::WithContext { trailing, .. } => option_text(trailing),
        }
    }
}

/// A compiled query: the pattern, the names of its captures in the order
/// of their numbers, and the compiled templates.
pub struct Query {
    pub pattern: Pattern,
    pub names: Vec<String>,
    pub leading: Option<Template>,
    pub trailing: Option<Template>,
}

/// The outcome of assembling, by value.
pub open spec fn assembled_view(result: Result<Query, ConfigError>) -> Result<
    (Option<Seq<ItemView>>, Option<Seq<ItemView>>),
    ConfigErrorView,
> {
    match result {
        Ok(q) => Ok((template_view(q.leading), template_view(q.trailing))),
        Err(e) => Err(e@),
    }
}

fn parse_optional(text: &Option<String>, names: &Vec<String>) -> (result: Result<
    Option<Template>,
    TemplateError,
>)
    ensures
        match result {
            Ok(t) => parsed_option(option_text(*text), texts(names@)) == Ok::<
                Option<Seq<ItemView>>,
                TemplateErrorView,
            >(template_view(t)),
            Err(e) => parsed_option(option_text(*text), texts(names@)) == Err::<
                Option<Seq<ItemView>>,
                TemplateErrorView,
            >(e@),
        },
{
    match text {
        None => Ok(None),
        Some(t) => match Template::parse(t.as_str(), names) {
            Ok(template) => Ok(Some(template)),
            Err(e) => Err(e),
        },
    }
}

impl Query {
    /// The compiled pattern.
    pub fn tree_sitter_query(&self) -> (pattern: &Pattern)
        ensures
            *pattern == self.pattern,
    {
        &self.pattern
    }

    /// The template for the text before the symbol.
    pub fn leading(&self) -> (template: Option<&Template>)
        ensures
            template matches Some(t) ==> self.leading == Some(*t),
            template is None ==> self.leading is None,
    {
        self.leading.as_ref()
    }

    /// The template for the text after the symbol.
    pub fn trailing(&self) -> (template: Option<&Template>)
        ensures
            template matches Some(t) ==> self.trailing == Some(*t),
            template is None ==> self.trailing is None,
    {
        self.trailing.as_ref()
    }

    /// The number of the capture that marks the symbol: the one called
    /// `symbol`. A query without it yields no symbols.
    pub open spec fn spec_symbol_index(&self) -> Option<u32> {
        capture_index(texts(self.names@), "symbol"@)
    }

    /// The number of the capture called `symbol`, if the query has one.
    pub fn symbol_index(&self) -> (index: Option<u32>)
        ensures
            index == self.spec_symbol_index(),
    {
        capture_index_of(&self.names, "symbol")
    }

    /// What the query contributes to the symbols of a file, listed under
    /// `kind` for `language`; nothing where it has no capture called
    /// `symbol`.
    pub open spec fn plan(&self, kind: Kind, language: Language) -> Option<Extraction> {
        match self.spec_symbol_index() {
            Some(symbol) => Some(
                Extraction {
                    kind,
                    language,
                    symbol,
                    leading: template_view(self.leading),
                    trailing: template_view(self.trailing),
                },
            ),
            None => None,
        }
    }

    /// Puts a query together from a compiled pattern, the names of its
    /// captures and the template strings. Fails exactly when a template
    /// string is refused, the leading one first.
    pub fn assemble(
        pattern: Pattern,
        names: Vec<String>,
        leading: &Option<String>,
        trailing: &Option<String>,
    ) -> (result: Result<Query, ConfigError>)
        ensures
            assembled_view(result) == assembled(
                option_text(*leading),
                option_text(*trailing),
                texts(names@),
            ),
            result matches Ok(q) ==> q.pattern == pattern && q.names == names,
    {
        let before = match parse_optional(leading, &names) {
            Ok(t) => t,
            Err(e) => {
                return Err(ConfigError::Leading(e));
            },
        };
        let after = match parse_optional(trailing, &names) {
            Ok(t) => t,
            Err(e) => {
                return Err(ConfigError::Trailing(e));
            },
        };
        Ok(Query { pattern, names, leading: before, trailing: after })
    }
}

/// Whether a written query compiles for a grammar: the parsing library
/// accepts its pattern, and its template strings are accepted for the
/// names of the pattern's captures.
pub open spec fn compiles(raw: RawQuery, dialect: Dialect) -> bool {
    match compiled(dialect, raw.pattern_text()) {
        None => false,
        Some(names) => assembled(raw.leading_text(), raw.trailing_text(), names) is Ok,
    }
}

/// What compiling a written query for a grammar comes to. Where the
/// parsing library refuses the pattern, it is an error that says so in the
/// library's words. Else the pattern's captures have names, and the outcome
/// is what [`assembled`] states for them: the fault of a template string,
/// or a query with the two templates, which holds the pattern of this text
/// for this grammar and the names of its captures.
pub open spec fn compiled_from(result: Result<Query, ConfigError>, raw: RawQuery, dialect: Dialect)
    -> bool {
    match compiled(dialect, raw.pattern_text()) {
        None => result matches Err(e) && e is Query,
        Some(names) => {
            &&& assembled_view(result) == assembled(
                raw.leading_text(),
                raw.trailing_text(),
                names,
            )
            &&& result matches Ok(q) ==> {
                &&& texts(q.names@) == names
                &&& pattern_text(q.pattern) == raw.pattern_text()
                &&& pattern_dialect(q.pattern) == dialect
            }
        },
    }
}

/// The outcome of compiling is a query exactly for a query that compiles.
pub proof fn compiled_when_it_compiles(
    result: Result<Query, ConfigError>,
    raw: RawQuery,
    dialect: Dialect,
)
    requires
        compiled_from(result, raw, dialect),
    ensures
        result is Ok <==> compiles(raw, dialect),
{
}

impl Query {
    /// The names are those of the pattern's captures.
    pub open spec fn wf(&self) -> bool {
        compiled(pattern_dialect(self.pattern), pattern_text(self.pattern)) == Some(
            texts(self.names@),
        )
    }
}

impl RawQuery {
    /// Compiles the query for a grammar. A pattern that the parsing library
    /// refuses, or a template string that names no capture of the pattern,
    /// makes it fail; every other query compiles. A query without template
    /// strings has no templates.
    pub fn into_query(self, grammar: &Grammar) -> (result: Result<Query, ConfigError>)
        ensures
            compiled_from(result, self, dialect(*grammar)),
            result is Ok <==> compiles(self, dialect(*grammar)),
            result matches Ok(q) ==> q.wf(),
    {
        self.to_query(grammar)
    }

    /// Compiles the query for a grammar, as [`RawQuery::into_query`] does,
    /// and leaves the query in place.
    pub fn to_query(&self, grammar: &Grammar) -> (result: Result<Query, ConfigError>)
        ensures
            compiled_from(result, *self, dialect(*grammar)),
            result is Ok <==> compiles(*self, dialect(*grammar)),
            result matches Ok(q) ==> q.wf(),
    {
        match self {
            RawQuery::Bare(query) => {
                match compile_pattern(grammar, query.as_str()) {
                    Err(e) => Err(ConfigError::Query(pattern_error_text(&e))),
                    Ok(pattern) => {
                        let names = pattern_capture_names(&pattern);
                        assert(names@.map_values(|name: String| name@) == texts(names@));
                        Ok(Query { pattern, names, leading: None, trailing: None })
                    },
                }
            },
            RawQuery::WithContext { query, leading, trailing } => {
                match compile_pattern(grammar, query.as_str()) {
                    Err(e) => Err(ConfigError::Query(pattern_error_text(&e))),
                    Ok(pattern) => {
                        let names = pattern_capture_names(&pattern);
                        assert(names@.map_values(|name: String| name@) == texts(names@));
                        Query::assemble(pattern, names, leading, trailing)
                    },
                }
            },
        }
    }
}

} // verus!

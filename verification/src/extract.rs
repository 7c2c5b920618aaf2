use std::collections::HashSet;
use vstd::prelude::*;
use vstd::slice::slice_subrange;
use vstd::utf8::{decode_utf8, valid_utf8};

use crate::capture::{capture_bytes, captured, match_views, Capture, QueryMatch};
use crate::language::Language;
use crate::strings::utf8_text;
use crate::symbol::{symbol_views, Kind, Symbol, SymbolView};
use crate::template::{rendered, ItemView, Template};

verus! {

broadcast use vstd::std_specs::hash::group_hash_axioms;

/// What one query contributes to the symbols besides its matches: the kind
/// and language that its symbols get, the number of the capture that marks
/// the symbol, and the templates for the text around it.
pub struct Extraction {
    pub kind: Kind,
    pub language: Language,
    pub symbol: u32,
    pub leading: Option<Seq<ItemView>>,
    pub trailing: Option<Seq<ItemView>>,
}

/// The line number of a row: rows count from 0, lines from 1. The last
/// number that fits stands for all rows beyond it.
pub open spec fn line_of(row: usize) -> int {
    if row < i64::MAX {
        row + 1
    } else {
        i64::MAX as int
    }
}

/// The column as it is recorded: as the query engine counts it, from 0.
/// The last number that fits stands for all columns beyond it.
pub open spec fn column_of(column: usize) -> int {
    if column <= i64::MAX {
        column as int
    } else {
        i64::MAX as int
    }
}

/// The text around a symbol that a template yields for a match: none where
/// there is no template, and none where rendering fails.
pub open spec fn context(template: Option<Seq<ItemView>>, found: Seq<Capture>, source: Seq<u8>)
    -> Option<Seq<char>> {
    match template {
        None => None,
        Some(items) => match rendered(items, found, source) {
            Ok(text) => Some(text),
            Err(_) => None,
        },
    }
}

/// The symbol that a match stands for, where `capture` is its symbol
/// capture: located at the capture's start, with the capture's source text
/// as content. There is none where the capture's bytes are not text of the
/// source.
pub open spec fn symbol_of(
    plan: Extraction,
    found: Seq<Capture>,
    capture: Capture,
    source: Seq<u8>,
) -> Option<SymbolView> {
    match capture_bytes(capture, source) {
        None => None,
        Some(bytes) => if valid_utf8(bytes) {
            Some(
                SymbolView {
                    kind: plan.kind,
                    language: plan.language,
                    line: line_of(capture.row),
                    column: column_of(capture.column),
                    content: decode_utf8(bytes),
                    leading: context(plan.leading, found, source),
                    trailing: context(plan.trailing, found, source),
                },
            )
        } else {
            None
        },
    }
}

/// Where the symbol of a match starts: the row and column of its symbol
/// capture, if it has one.
pub open spec fn symbol_position(found: Seq<Capture>, symbol: u32) -> Option<(usize, usize)> {
    match captured(found, symbol) {
        Some(capture) => Some((capture.row, capture.column)),
        None => None,
    }
}

/// Whether match `i` has a symbol capture, and no match before it has one
/// that starts at the same position.
pub open spec fn first_seen(matches: Seq<Seq<Capture>>, symbol: u32, i: int) -> bool {
    &&& symbol_position(matches[i], symbol) is Some
    &&& forall|j: int|
        0 <= j < i ==> symbol_position(#[trigger] matches[j], symbol) != symbol_position(
            matches[i],
            symbol,
        )
}

/// What match `i` adds to the symbols: its symbol, if it is the first match
/// at its position and has a symbol; else nothing.
pub open spec fn kept(plan: Extraction, matches: Seq<Seq<Capture>>, source: Seq<u8>, i: int)
    -> Seq<SymbolView> {
    if first_seen(matches, plan.symbol, i) {
        match symbol_of(plan, matches[i], captured(matches[i], plan.symbol).unwrap(), source) {
            Some(symbol) => seq![symbol],
            None => Seq::empty(),
        }
    } else {
        Seq::empty()
    }
}

/// What the first `n` matches add to the symbols, in the order of the
/// matches.
pub open spec fn extracted_upto(
    plan: Extraction,
    matches: Seq<Seq<Capture>>,
    source: Seq<u8>,
    n: int,
) -> Seq<SymbolView>
    decreases n,
{
    if n <= 0 {
        Seq::empty()
    } else {
        extracted_upto(plan, matches, source, n - 1) + kept(plan, matches, source, n - 1)
    }
}

/// The symbols of one query: what all of its matches add.
pub open spec fn extracted(plan: Extraction, matches: Seq<Seq<Capture>>, source: Seq<u8>) -> Seq<
    SymbolView,
> {
    extracted_upto(plan, matches, source, matches.len() as int)
}

/// One number for a position, different for different positions.
spec fn position_key(position: (usize, usize)) -> u128 {
    (position.0 * 0x1_0000_0000_0000_0000 + position.1) as u128
}

/// What a query extracts, given the kind and language of its symbols, the
/// number of its symbol capture and its templates.
pub open spec fn plan_of(
    kind: Kind,
    language: Language,
    symbol: u32,
    leading: Option<&Template>,
    trailing: Option<&Template>,
) -> Extraction {
    Extraction {
        kind,
        language,
        symbol,
        leading: match leading {
            Some(t) => Some(t@),
            None => None,
        },
        trailing: match trailing {
            Some(t) => Some(t@),
            None => None,
        },
    }
}

fn key_of(row: usize, column: usize) -> (key: u128)
    ensures
        key == position_key((row, column)),
{
    (row as u128) * 0x1_0000_0000_0000_0000u128 + (column as u128)
}

fn line_number(row: usize) -> (line: i64)
    ensures
        line == line_of(row),
{
    if (row as u64) < 0x7fff_ffff_ffff_ffffu64 {
        (row as u64 + 1) as i64
    } else {
        i64::MAX
    }
}

fn column_number(column: usize) -> (number: i64)
    ensures
        number == column_of(column),
{
    if (column as u64) <= 0x7fff_ffff_ffff_ffffu64 {
        column as i64
    } else {
        i64::MAX
    }
}

/// The text that a template yields around a symbol.
fn render_context(template: Option<&Template>, found: &QueryMatch, source: &[u8]) -> (text: Option<
    String,
>)
    ensures
        crate::symbol::text_of(text) == context(
            match template {
                Some(t) => Some(t@),
                None => None,
            },
            found@,
            source@,
        ),
{
    match template {
        None => None,
        Some(t) => match t.render(found, source) {
            Ok(text) => Some(text),
            Err(_) => None,
        },
    }
}

/// Turns the matches of one query into symbols, in the order of the
/// matches. A match without a capture numbered `symbol` adds nothing. Of
/// the matches whose symbol captures start at one position only the first
/// counts; it adds its symbol, unless the capture's bytes are not text of
/// the source.
pub fn extract(
    kind: Kind,
    language: Language,
    symbol: u32,
    leading: Option<&Template>,
    trailing: Option<&Template>,
    matches: &Vec<QueryMatch>,
    source: &[u8],
) -> (symbols: Vec<Symbol>)
    ensures
        symbol_views(symbols@) == extracted(
            plan_of(kind, language, symbol, leading, trailing),
            match_views(matches@),
            source@,
        ),
{
    let ghost plan = plan_of(kind, language, symbol, leading, trailing);
    let ghost all = match_views(matches@);
    let mut symbols: Vec<Symbol> = Vec::new();
    let mut seen: HashSet<u128> = HashSet::new();
    let mut i: usize = 0;
    assert(symbol_views(symbols@) =~= Seq::empty());
    while i < matches.len()
        invariant
            i <= matches.len(),
            all == match_views(matches@),
            plan == plan_of(kind, language, symbol, leading, trailing),
            symbol_views(symbols@) == extracted_upto(plan, all, source@, i as int),
            forall|j: int|
                0 <= j < i && symbol_position(#[trigger] all[j], symbol) is Some
                    ==> seen@.contains(position_key(symbol_position(all[j], symbol).unwrap())),
            forall|key: u128| #[trigger]
                seen@.contains(key) ==> exists|j: int|
                    0 <= j < i && symbol_position(#[trigger] all[j], symbol) is Some
                        && position_key(symbol_position(all[j], symbol).unwrap()) == key,
        decreases matches.len() - i,
    {
        let found = &matches[i];
        let ghost before = symbol_views(symbols@);
        let ghost seen_before = seen@;
        assert(all[i as int] == found@);
        match found.find(symbol) {
            None => {
                assert(kept(plan, all, source@, i as int) =~= Seq::empty());
                assert(before + Seq::<SymbolView>::empty() =~= before);
            },
            Some(capture) => {
                let key = key_of(capture.row, capture.column);
                let fresh = seen.insert(key);
                proof {
                    let here = (capture.row, capture.column);
                    assert(symbol_position(all[i as int], symbol) == Some(here));
                    if fresh {
                        assert forall|j: int| 0 <= j < i implies symbol_position(
                            #[trigger] all[j],
                            symbol,
                        ) != Some(here) by {
                            if symbol_position(all[j], symbol) == Some(here) {
                                assert(seen_before.contains(key));
                            }
                        }
                        assert(first_seen(all, symbol, i as int));
                    } else {
                        let j = choose|j: int|
                            0 <= j < i && symbol_position(#[trigger] all[j], symbol) is Some
                                && position_key(symbol_position(all[j], symbol).unwrap()) == key;
                        let there = symbol_position(all[j], symbol).unwrap();
                        assert(there.0 == here.0 && there.1 == here.1) by {
                            assert(position_key(there) == position_key(here));
                        }
                        assert(there == here);
                        assert(!first_seen(all, symbol, i as int));
                    }
                    assert forall|k: u128| #[trigger] seen@.contains(k) implies exists|j: int|
                        0 <= j < i + 1 && symbol_position(#[trigger] all[j], symbol) is Some
                            && position_key(symbol_position(all[j], symbol).unwrap()) == k by {
                        if k == key {
                            assert(symbol_position(all[i as int], symbol) is Some);
                        } else {
                            assert(seen_before.contains(k));
                            let j = choose|j: int|
                                0 <= j < i && symbol_position(#[trigger] all[j], symbol) is Some
                                    && position_key(symbol_position(all[j], symbol).unwrap())
                                    == k;
                            assert(0 <= j < i + 1);
                        }
                    }
                }
                let mut added = false;
                if fresh && capture.start_byte <= capture.end_byte && capture.end_byte
                    <= source.len() {
                    let bytes = slice_subrange(source, capture.start_byte, capture.end_byte);
                    if let Some(content) = utf8_text(bytes) {
                        let leading_text = render_context(leading, found, source);
                        let trailing_text = render_context(trailing, found, source);
                        let made = Symbol {
                            kind,
                            language,
                            line: line_number(capture.row),
                            column: column_number(capture.column),
                            content,
                            leading: leading_text,
                            trailing: trailing_text,
                        };
                        assert(Some(made@) == symbol_of(plan, found@, capture, source@));
                        symbols.push(made);
                        added = true;
                        assert(symbol_views(symbols@) =~= before + seq![made@]);
                    }
                }
                if !added {
                    assert(kept(plan, all, source@, i as int) =~= Seq::empty());
                    assert(before + Seq::<SymbolView>::empty() =~= before);
                }
            },
        }
        i += 1;
    }
    symbols
}

/// Of two matches of one query whose symbols start at the same position,
/// the later adds no symbol.
pub proof fn repeated_position_adds_nothing(
    plan: Extraction,
    matches: Seq<Seq<Capture>>,
    source: Seq<u8>,
    i: int,
    j: int,
)
    requires
        0 <= i < j < matches.len(),
        symbol_position(matches[i], plan.symbol) is Some,
        symbol_position(matches[i], plan.symbol) == symbol_position(matches[j], plan.symbol),
    ensures
        kept(plan, matches, source, j) == Seq::<SymbolView>::empty(),
{
    assert(!first_seen(matches, plan.symbol, j));
}

/// No query yields more symbols than it has matches.
pub proof fn at_most_one_symbol_per_match(
    plan: Extraction,
    matches: Seq<Seq<Capture>>,
    source: Seq<u8>,
    n: int,
)
    requires
        0 <= n,
    ensures
        extracted_upto(plan, matches, source, n).len() <= n,
    decreases n,
{
    if n > 0 {
        at_most_one_symbol_per_match(plan, matches, source, n - 1);
    }
}

} // verus!

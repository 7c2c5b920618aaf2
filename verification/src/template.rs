use vstd::prelude::*;
use vstd::string::*;
use vstd::utf8::{decode_utf8, encode_utf8, valid_utf8};

use crate::capture::{capture_bytes, captured, Capture, QueryMatch};
use crate::strings::{
    absent_has_no_index, first_at, first_at_is_index_of_first, same_text, texts, utf8_text,
};

verus! {

/// One piece of a template.
#[derive(Clone, Debug, PartialEq, Eq)]
pub enum Item {
    /// Text that is written as it stands.
    Text(String),
    /// The number of a capture, whose source text is written in its place.
    Index(u32),
}

/// The mathematical value of an [`Item`].
pub enum ItemView {
    Text(Seq<char>),
    Index(u32),
}

impl View for Item {
    type V = ItemView;

    open spec fn view(&self) -> ItemView {
        match self {
            Item::Text(s) => ItemView::Text(s@),
            Item::Index(i) => ItemView::Index(*i),
        }
    }
}

/// A format string that was taken apart: text and references to captures,
/// in the order in which they are written out.
#[derive(Clone, Debug, PartialEq, Eq)]
pub struct Template {
    pub items: Vec<Item>,
}

impl View for Template {
    type V = Seq<ItemView>;

    open spec fn view(&self) -> Seq<ItemView> {
        self.items@.map_values(|i: Item| i@)
    }
}

/// Why a template string was refused.
#[derive(Clone, Debug, PartialEq, Eq)]
pub enum TemplateError {
    /// A `{` is not followed by a `}`.
    Unmatched,
    /// The name between `{` and `}` is not a capture of the query.
    UnknownCapture(String),
}

/// The mathematical value of a [`TemplateError`].
pub enum TemplateErrorView {
    Unmatched,
    UnknownCapture(Seq<char>),
}

impl View for TemplateError {
    type V = TemplateErrorView;

    open spec fn view(&self) -> TemplateErrorView {
        match self {
            TemplateError::Unmatched => TemplateErrorView::Unmatched,
            TemplateError::UnknownCapture(name) => TemplateErrorView::UnknownCapture(name@),
        }
    }
}

/// Why a template could not be rendered.
#[derive(Clone, Copy, Debug, PartialEq, Eq, Structural)]
pub enum RenderError {
    /// A capture names bytes that the source does not have.
    OutOfRange,
    /// The rendered bytes are not well-formed UTF-8.
    InvalidUtf8,
}

/// The number of the capture called `name`: its place in the list of the
/// query's capture names. Captures are numbered with 32 bits, so a name
/// that only occurs further down has no number.
pub open spec fn capture_index(names: Seq<Seq<char>>, name: Seq<char>) -> Option<u32> {
    match names.index_of_first(name) {
        Some(i) => if i <= u32::MAX {
            Some(i as u32)
        } else {
            None
        },
        None => None,
    }
}

/// A piece of literal text as a list of items: none where the text is empty.
pub open spec fn text_item(text: Seq<char>) -> Seq<ItemView> {
    if text.len() == 0 {
        Seq::empty()
    } else {
        seq![ItemView::Text(text)]
    }
}

/// `items`, followed by what `rest` holds; the error of `rest` where it
/// failed.
pub open spec fn followed(
    items: Seq<ItemView>,
    rest: Result<Seq<ItemView>, TemplateErrorView>,
) -> Result<Seq<ItemView>, TemplateErrorView> {
    match rest {
        Ok(more) => Ok(items + more),
        Err(e) => Err(e),
    }
}

/// What a template string means. Up to the first `{` it is literal text;
/// from there to the next `}` stands the name of a capture; what follows
/// the `}` is a template string again. The first fault from the left
/// decides the error.
pub open spec fn parse_items(text: Seq<char>, names: Seq<Seq<char>>) -> Result<
    Seq<ItemView>,
    TemplateErrorView,
>
    decreases text.len(),
{
    match text.index_of_first('{') {
        None => Ok(text_item(text)),
        Some(open) => {
            let after = text.skip(open + 1);
            match after.index_of_first('}') {
                None => Err(TemplateErrorView::Unmatched),
                Some(close) => {
                    let name = after.take(close);
                    match capture_index(names, name) {
                        None => Err(TemplateErrorView::UnknownCapture(name)),
                        Some(index) => {
                            proof {
                                text.index_of_first_ensures('{');
                                after.index_of_first_ensures('}');
                            }
                            followed(
                                text_item(text.take(open)) + seq![ItemView::Index(index)],
                                parse_items(after.skip(close + 1), names),
                            )
                        },
                    }
                },
            }
        },
    }
}

/// How an item is written in a template string: text as it stands, a
/// reference as the name of its capture in braces.
pub open spec fn item_source(item: ItemView, names: Seq<Seq<char>>) -> Seq<char> {
    match item {
        ItemView::Text(text) => text,
        ItemView::Index(index) => seq!['{'] + names[index as int] + seq!['}'],
    }
}

/// The template string that a list of items stands for.
pub open spec fn written(items: Seq<ItemView>, names: Seq<Seq<char>>) -> Seq<char>
    decreases items.len(),
{
    if items.len() == 0 {
        Seq::empty()
    } else {
        item_source(items[0], names) + written(items.drop_first(), names)
    }
}

/// Whether every reference among the items is the number of a capture, and
/// every piece of text is not empty and free of `{`.
pub open spec fn items_are_sound(items: Seq<ItemView>, names: Seq<Seq<char>>) -> bool {
    forall|k: int|
        0 <= k < items.len() ==> match #[trigger] items[k] {
            ItemView::Text(text) => text.len() > 0 && !text.contains('{'),
            ItemView::Index(index) => index < names.len(),
        }
}

proof fn written_alone(item: ItemView, names: Seq<Seq<char>>)
    ensures
        written(seq![item], names) == item_source(item, names),
{
    let one = seq![item];
    assert(one.drop_first() =~= Seq::<ItemView>::empty());
    assert(written(one.drop_first(), names) =~= Seq::<char>::empty());
    assert(item_source(item, names) + Seq::<char>::empty() =~= item_source(item, names));
}

proof fn written_in_parts(first: Seq<ItemView>, second: Seq<ItemView>, names: Seq<Seq<char>>)
    ensures
        written(first + second, names) == written(first, names) + written(second, names),
    decreases first.len(),
{
    if first.len() == 0 {
        assert(first + second =~= second);
        assert(written(first, names) + written(second, names) =~= written(second, names));
    } else {
        written_in_parts(first.drop_first(), second, names);
        assert((first + second).drop_first() =~= first.drop_first() + second);
        assert(written(first + second, names) =~= written(first, names) + written(
            second,
            names,
        ));
    }
}

/// A template string that is accepted can be read back from its items:
/// every reference names a capture of the query, no text is empty or holds
/// a `{`, and the items written out one after the other give the string.
pub proof fn parsed_template_reads_back(text: Seq<char>, names: Seq<Seq<char>>)
    ensures
        parse_items(text, names) matches Ok(items) ==> items_are_sound(items, names) && written(
            items,
            names,
        ) == text,
    decreases text.len(),
{
    text.index_of_first_ensures('{');
    match text.index_of_first('{') {
        None => {
            if text.len() > 0 {
                let items = text_item(text);
                written_alone(ItemView::Text(text), names);
                assert(written(items, names) =~= text);
            }
        },
        Some(open) => {
            let after = text.skip(open + 1);
            after.index_of_first_ensures('}');
            match after.index_of_first('}') {
                None => {},
                Some(close) => {
                    let name = after.take(close);
                    names.index_of_first_ensures(name);
                    match capture_index(names, name) {
                        None => {},
                        Some(index) => {
                            let rest_text = after.skip(close + 1);
                            parsed_template_reads_back(rest_text, names);
                            if let Ok(rest) = parse_items(rest_text, names) {
                                let lead = text_item(text.take(open));
                                let reference = seq![ItemView::Index(index)];
                                let items = lead + reference + rest;
                                assert(names[index as int] == name);
                                written_alone(ItemView::Index(index), names);
                                assert(written(reference, names) =~= seq!['{'] + name + seq![
                                    '}',
                                ]);
                                if open > 0 {
                                    written_alone(ItemView::Text(text.take(open)), names);
                                    assert(written(lead, names) =~= text.take(open));
                                    assert(!text.take(open).contains('{')) by {
                                        if text.take(open).contains('{') {
                                            let j = choose|j: int|
                                                0 <= j < open && text.take(open)[j] == '{';
                                            assert(text[j] == '{');
                                        }
                                    }
                                } else {
                                    assert(written(lead, names) =~= text.take(open));
                                }
                                written_in_parts(lead, reference, names);
                                written_in_parts(lead + reference, rest, names);
                                assert(text =~= text.take(open) + (seq!['{'] + name + seq!['}'])
                                    + rest_text);
                                assert forall|k: int| 0 <= k < items.len() implies match #[trigger] items[k] {
                                    ItemView::Text(t) => t.len() > 0 && !t.contains('{'),
                                    ItemView::Index(i) => i < names.len(),
                                } by {
                                    if k < lead.len() {
                                    } else if k == lead.len() {
                                    } else {
                                        assert(items[k] == rest[k - lead.len() - 1]);
                                    }
                                }
                            }
                        },
                    }
                },
            }
        },
    }
}

/// The value of the outcome of parsing.
pub open spec fn parsed_view(result: Result<Template, TemplateError>) -> Result<
    Seq<ItemView>,
    TemplateErrorView,
> {
    match result {
        Ok(t) => Ok(t@),
        Err(e) => Err(e@),
    }
}

/// The bytes that one item contributes: its text in UTF-8, or the source
/// bytes of the first capture with its number, nothing where no such capture
/// is among `captures`. None where that capture's range is not within the
/// source.
pub open spec fn item_bytes(item: ItemView, captures: Seq<Capture>, source: Seq<u8>) -> Option<
    Seq<u8>,
> {
    match item {
        ItemView::Text(text) => Some(encode_utf8(text)),
        ItemView::Index(index) => match captured(captures, index) {
            Some(capture) => capture_bytes(capture, source),
            None => Some(Seq::empty()),
        },
    }
}

/// The bytes of all items, one after the other; none where one item has
/// none.
pub open spec fn render_bytes(items: Seq<ItemView>, captures: Seq<Capture>, source: Seq<u8>)
    -> Option<Seq<u8>>
    decreases items.len(),
{
    if items.len() == 0 {
        Some(Seq::empty())
    } else {
        match item_bytes(items[0], captures, source) {
            None => None,
            Some(head) => match render_bytes(items.drop_first(), captures, source) {
                None => None,
                Some(tail) => Some(head + tail),
            },
        }
    }
}

/// What rendering yields: the text that the items' bytes encode.
pub open spec fn rendered(items: Seq<ItemView>, captures: Seq<Capture>, source: Seq<u8>)
    -> Result<Seq<char>, RenderError> {
    match render_bytes(items, captures, source) {
        None => Err(RenderError::OutOfRange),
        Some(bytes) => if valid_utf8(bytes) {
            Ok(decode_utf8(bytes))
        } else {
            Err(RenderError::InvalidUtf8)
        },
    }
}

/// The text of the outcome of rendering.
pub open spec fn rendered_view(result: Result<String, RenderError>) -> Result<
    Seq<char>,
    RenderError,
> {
    match result {
        Ok(s) => Ok(s@),
        Err(e) => Err(e),
    }
}

/// Where `c` first stands in `text` at or after `from`.
fn find_char(text: &str, from: usize, len: usize, c: char) -> (found: Option<usize>)
    requires
        from <= len,
        len == text@.len(),
    ensures
        match found {
            Some(i) => from <= i < len && first_at(text@.skip(from as int), c, i - from),
            None => forall|j: int| 0 <= j < len - from ==> text@.skip(from as int)[j] != c,
        },
{
    let mut i = from;
    while i < len
        invariant
            from <= i <= len,
            len == text@.len(),
            forall|j: int| from <= j < i ==> text@[j] != c,
        decreases len - i,
    {
        if text.get_char(i) == c {
            return Some(i);
        }
        i += 1;
    }
    None
}

/// The number of the capture called `name`.
pub fn capture_index_of(names: &Vec<String>, name: &str) -> (index: Option<u32>)
    ensures
        index == capture_index(texts(names@), name@),
{
    let ghost list = texts(names@);
    let mut i: usize = 0;
    while i < names.len()
        invariant
            i <= names.len(),
            list == texts(names@),
            forall|j: int| 0 <= j < i ==> list[j] != name@,
        decreases names.len() - i,
    {
        if same_text(names[i].as_str(), name) {
            proof {
                assert(list[i as int] == name@);
                first_at_is_index_of_first(list, name@, i as int);
            }
            if i <= u32::MAX as usize {
                return Some(i as u32);
            } else {
                return None;
            }
        }
        i += 1;
    }
    proof {
        absent_has_no_index(list, name@);
    }
    None
}

impl Template {
    /// Takes a template string apart. `names` are the names of the query's
    /// captures, in the order of their numbers.
    pub fn parse(text: &str, names: &Vec<String>) -> (result: Result<Template, TemplateError>)
        ensures
            parsed_view(result) == parse_items(text@, texts(names@)),
    {
        let ghost all = text@;
        let ghost known = texts(names@);
        let len = text.unicode_len();
        let mut items: Vec<Item> = Vec::new();
        let mut pos: usize = 0;
        assert(all.skip(0) =~= all);
        assert(items@.map_values(|i: Item| i@) =~= Seq::empty());
        proof {
            if let Ok(whole) = parse_items(all, known) {
                assert(Seq::<ItemView>::empty() + whole =~= whole);
            }
        }
        loop
            invariant
                all == text@,
                known == texts(names@),
                len == all.len(),
                pos <= len,
                parse_items(all, known) == followed(
                    items@.map_values(|i: Item| i@),
                    parse_items(all.skip(pos as int), known),
                ),
            decreases len - pos,
        {
            let ghost rest = all.skip(pos as int);
            let ghost done = items@.map_values(|i: Item| i@);
            match find_char(text, pos, len, '{') {
                None => {
                    proof {
                        absent_has_no_index(rest, '{');
                    }
                    if pos < len {
                        let piece = text.substring_char(pos, len).to_owned();
                        assert(piece@ =~= rest);
                        items.push(Item::Text(piece));
                        assert(items@.map_values(|i: Item| i@) =~= done + text_item(rest));
                    } else {
                        assert(items@.map_values(|i: Item| i@) =~= done + text_item(rest));
                    }
                    return Ok(Template { items });
                },
                Some(open) => {
                    let ghost after = rest.skip(open - pos + 1);
                    proof {
                        first_at_is_index_of_first(rest, '{', open - pos);
                        assert(after =~= all.skip(open + 1));
                    }
                    match find_char(text, open + 1, len, '}') {
                        None => {
                            proof {
                                absent_has_no_index(after, '}');
                            }
                            return Err(TemplateError::Unmatched);
                        },
                        Some(close) => {
                            let ghost name_text = after.take(close - open - 1);
                            proof {
                                first_at_is_index_of_first(after, '}', close - open - 1);
                            }
                            let name = text.substring_char(open + 1, close);
                            assert(name@ =~= name_text);
                            match capture_index_of(names, name) {
                                None => {
                                    return Err(TemplateError::UnknownCapture(name.to_owned()));
                                },
                                Some(index) => {
                                    if open > pos {
                                        let piece = text.substring_char(pos, open).to_owned();
                                        assert(piece@ =~= rest.take(open - pos));
                                        items.push(Item::Text(piece));
                                    }
                                    items.push(Item::Index(index));
                                    proof {
                                        let head = text_item(rest.take(open - pos)) + seq![
                                            ItemView::Index(index),
                                        ];
                                        assert(items@.map_values(|i: Item| i@) =~= done + head);
                                        assert(after.skip(close - open) =~= all.skip(close + 1));
                                        let tail = parse_items(all.skip(close + 1), known);
                                        assert(parse_items(rest, known) == followed(head, tail));
                                        if let Ok(more) = tail {
                                            assert(done + (head + more) =~= (done + head) + more);
                                        }
                                    }
                                    pos = close + 1;
                                },
                            }
                        },
                    }
                },
            }
        }
    }

    /// Writes the template out for one match: each piece of text as it
    /// stands, and in place of each reference the bytes that the first
    /// capture with its number covers in `source`.
    pub fn render(&self, found: &QueryMatch, source: &[u8]) -> (result: Result<
        String,
        RenderError,
    >)
        ensures
            rendered_view(result) == rendered(self@, found@, source@),
    {
        let ghost items = self@;
        let mut out: Vec<u8> = Vec::new();
        let mut i: usize = 0;
        assert(items.skip(0) =~= items);
        while i < self.items.len()
            invariant
                i <= self.items.len(),
                items == self@,
                render_bytes(items, found@, source@) == match render_bytes(
                    items.skip(i as int),
                    found@,
                    source@,
                ) {
                    Some(tail) => Some(out@ + tail),
                    None => None,
                },
            decreases self.items.len() - i,
        {
            let ghost before = out@;
            let ghost rest = items.skip(i as int);
            proof {
                assert(rest[0] == self.items@[i as int]@);
                assert(rest.drop_first() =~= items.skip(i + 1));
            }
            match &self.items[i] {
                Item::Text(text) => {
                    let bytes = text.as_str().as_bytes();
                    append_bytes(&mut out, bytes, 0, bytes.len());
                    assert(bytes@.subrange(0, bytes@.len() as int) =~= bytes@);
                },
                Item::Index(index) => {
                    match found.find(*index) {
                        None => {
                            assert(out@ + Seq::<u8>::empty() =~= out@);
                        },
                        Some(capture) => {
                            if capture.start_byte <= capture.end_byte && capture.end_byte
                                <= source.len() {
                                append_bytes(
                                    &mut out,
                                    source,
                                    capture.start_byte,
                                    capture.end_byte,
                                );
                            } else {
                                return Err(RenderError::OutOfRange);
                            }
                        },
                    }
                },
            }
            proof {
                let head = item_bytes(rest[0], found@, source@).unwrap();
                assert(out@ == before + head);
                if let Some(tail) = render_bytes(items.skip(i + 1), found@, source@) {
                    assert(before + (head + tail) =~= (before + head) + tail);
                }
            }
            i += 1;
        }
        assert(out@ + Seq::<u8>::empty() =~= out@);
        match utf8_text(out.as_slice()) {
            Some(text) => Ok(text),
            None => Err(RenderError::InvalidUtf8),
        }
    }
}

/// Appends the bytes of `from` that lie between `start` and `end`.
pub(crate) fn append_bytes(out: &mut Vec<u8>, from: &[u8], start: usize, end: usize)
    requires
        start <= end <= from@.len(),
    ensures
        final(out)@ == old(out)@ + from@.subrange(start as int, end as int),
{
    let mut i = start;
    while i < end
        invariant
            start <= i <= end <= from@.len(),
            out@ == old(out)@ + from@.subrange(start as int, i as int),
        decreases end - i,
    {
        out.push(from[i]);
        assert(out@ =~= old(out)@ + from@.subrange(start as int, i + 1));
        i += 1;
    }
}

} // verus!

//! The nested-object grammar of call-graph dumps.
//!
//! ```text
//! dump   := object
//! object := name [":"] "{" item* "}"
//! item   := object | field
//! field  := name ":" value
//! value  := '"' any characters but '"' '"'  |  name
//! name   := one or more characters other than blanks and : { } "
//! ```
//!
//! Blanks (space, tab, line feed, carriage return) may stand between any two
//! tokens and around the dump. A quoted value is taken as it stands, line breaks
//! included, without its quotes. Nothing escapes a `"`: a quoted value ends at
//! the next one, so no value holds a `"`. The grammar knows no schema: which
//! kinds and keys mean something is for the reader of the tree to decide.

use vstd::prelude::*;
use crate::callgraph_info::ast::{items_view, Field, FieldView, Item, ItemView, Object, ObjectView};
use crate::text::{chars_of, find, find_char, string_of};

verus! {

/// What the parser found in place of what the grammar asks for.
#[derive(Debug, Clone, Copy, PartialEq, Eq, Structural)]
pub enum SyntaxErrorKind {
    /// A kind or a key should start here.
    ExpectedName,
    /// A name is followed by neither `:` nor `{`.
    ExpectedColonOrBrace,
    /// A key and its `:` are followed by no value.
    ExpectedValue,
    /// The quoted value that opens here is never closed.
    UnterminatedValue,
    /// The text ends before the `}` of an open object.
    UnclosedObject,
    /// The dump is a field, not an object.
    ExpectedObject,
    /// Text follows the dump's object.
    TrailingText,
}

/// A violation of the grammar, with the character position where it shows.
#[derive(Debug, Clone, Copy, PartialEq, Eq, Structural)]
pub struct SyntaxError {
    pub kind: SyntaxErrorKind,
    pub offset: usize,
}

/// What a `SyntaxError` stands for.
pub struct SyntaxFault {
    pub kind: SyntaxErrorKind,
    pub offset: int,
}

impl View for SyntaxError {
    type V = SyntaxFault;

    open spec fn view(&self) -> SyntaxFault {
        SyntaxFault { kind: self.kind, offset: self.offset as int }
    }
}

pub open spec fn is_blank(c: char) -> bool {
    c == ' ' || c == '\t' || c == '\n' || c == '\r'
}

pub open spec fn is_name_char(c: char) -> bool {
    !is_blank(c) && c != ':' && c != '{' && c != '}' && c != '"'
}

/// How many blanks stand at `start`.
pub open spec fn blanks_at(s: Seq<char>, start: int) -> nat
    decreases s.len() - start,
{
    if 0 <= start < s.len() && is_blank(s[start]) {
        1 + blanks_at(s, start + 1)
    } else {
        0
    }
}

/// How long the name at `start` is; 0 when none starts there.
pub open spec fn name_at(s: Seq<char>, start: int) -> nat
    decreases s.len() - start,
{
    if 0 <= start < s.len() && is_name_char(s[start]) {
        1 + name_at(s, start + 1)
    } else {
        0
    }
}

/// The first position at or after `start` that holds no blank.
pub open spec fn skip_blanks(s: Seq<char>, start: int) -> int {
    start + blanks_at(s, start)
}

/// The item that starts at `start`, and the position after it.
pub open spec fn parse_item(s: Seq<char>, start: int) -> Result<(ItemView, int), SyntaxFault>
    decreases s.len() - start, 0nat,
{
    let name_end = start + name_at(s, start);
    let name = s.subrange(start, name_end);
    let mark = skip_blanks(s, name_end);
    let has_colon = mark < s.len() && s[mark] == ':';
    let body = if has_colon {
        skip_blanks(s, mark + 1)
    } else {
        mark
    };
    if start < 0 || name_end == start {
        Err(SyntaxFault { kind: SyntaxErrorKind::ExpectedName, offset: start })
    } else if body < s.len() && s[body] == '{' {
        match parse_items(s, body + 1) {
            Err(e) => Err(e),
            Ok((items, end)) => Ok((ItemView::Object(ObjectView { kind: name, items }), end)),
        }
    } else if !has_colon {
        Err(SyntaxFault { kind: SyntaxErrorKind::ExpectedColonOrBrace, offset: body })
    } else if body < s.len() && s[body] == '"' {
        let close = find(s, '"', body + 1);
        if close >= s.len() {
            Err(SyntaxFault { kind: SyntaxErrorKind::UnterminatedValue, offset: body })
        } else {
            Ok(
                (
                    ItemView::Field(FieldView { key: name, value: s.subrange(body + 1, close) }),
                    close + 1,
                ),
            )
        }
    } else {
        let value_end = body + name_at(s, body);
        if value_end == body {
            Err(SyntaxFault { kind: SyntaxErrorKind::ExpectedValue, offset: body })
        } else {
            Ok(
                (
                    ItemView::Field(FieldView { key: name, value: s.subrange(body, value_end) }),
                    value_end,
                ),
            )
        }
    }
}

/// The items from `start` up to the `}` that closes their object, and the
/// position after that `}`.
pub open spec fn parse_items(s: Seq<char>, start: int) -> Result<(Seq<ItemView>, int), SyntaxFault>
    decreases s.len() - start, 1nat,
{
    let at = skip_blanks(s, start);
    if start < 0 || at >= s.len() {
        Err(SyntaxFault { kind: SyntaxErrorKind::UnclosedObject, offset: at })
    } else if s[at] == '}' {
        Ok((Seq::empty(), at + 1))
    } else {
        match parse_item(s, at) {
            Err(e) => Err(e),
            Ok((item, next)) => if next <= at || next > s.len() {
                // Never taken: an item is not empty and ends within the text.
                Err(SyntaxFault { kind: SyntaxErrorKind::ExpectedName, offset: at })
            } else {
                match parse_items(s, next) {
                    Err(e) => Err(e),
                    Ok((rest, end)) => Ok((seq![item] + rest, end)),
                }
            },
        }
    }
}

/// The object that the text `s` denotes.
pub open spec fn parse_dump(s: Seq<char>) -> Result<ObjectView, SyntaxFault> {
    let start = skip_blanks(s, 0);
    match parse_item(s, start) {
        Err(e) => Err(e),
        Ok((ItemView::Field(_), _)) => Err(
            SyntaxFault { kind: SyntaxErrorKind::ExpectedObject, offset: start },
        ),
        Ok((ItemView::Object(object), end)) => {
            let tail = skip_blanks(s, end);
            if tail == s.len() {
                Ok(object)
            } else {
                Err(SyntaxFault { kind: SyntaxErrorKind::TrailingText, offset: tail })
            }
        },
    }
}

/// Blanks end within the text.
pub proof fn lemma_blanks_bound(s: Seq<char>, start: int)
    requires
        0 <= start <= s.len(),
    ensures
        skip_blanks(s, start) <= s.len(),
        skip_blanks(s, start) < s.len() ==> !is_blank(s[skip_blanks(s, start)]),
    decreases s.len() - start,
{
    if start < s.len() && is_blank(s[start]) {
        lemma_blanks_bound(s, start + 1);
    }
}

/// A name ends within the text, at a character that no name holds.
pub proof fn lemma_name_bound(s: Seq<char>, start: int)
    requires
        0 <= start <= s.len(),
    ensures
        start + name_at(s, start) <= s.len(),
        start + name_at(s, start) < s.len() ==> !is_name_char(s[start + name_at(s, start)]),
        forall|k: int| start <= k < start + name_at(s, start) ==> is_name_char(#[trigger] s[k]),
    decreases s.len() - start,
{
    if start < s.len() && is_name_char(s[start]) {
        lemma_name_bound(s, start + 1);
    }
}

/// An item that parses is not empty and ends within the text.
pub proof fn lemma_item_span(s: Seq<char>, start: int)
    requires
        0 <= start <= s.len(),
    ensures
        parse_item(s, start) matches Ok((_, end)) ==> start < end <= s.len(),
    decreases s.len() - start, 0nat,
{
    let name_end = start + name_at(s, start);
    lemma_name_bound(s, start);
    lemma_blanks_bound(s, name_end);
    let mark = skip_blanks(s, name_end);
    if mark < s.len() {
        lemma_blanks_bound(s, mark + 1);
    }
    let has_colon = mark < s.len() && s[mark] == ':';
    let body = if has_colon {
        skip_blanks(s, mark + 1)
    } else {
        mark
    };
    if name_end > start && body < s.len() {
        if s[body] == '{' {
            lemma_items_span(s, body + 1);
        } else if s[body] == '"' {
            crate::text::lemma_find(s, '"', body + 1);
        } else {
            lemma_name_bound(s, body);
        }
    }
}

/// A list of items that parses ends within the text, after its `}`.
pub proof fn lemma_items_span(s: Seq<char>, start: int)
    requires
        0 <= start <= s.len(),
    ensures
        parse_items(s, start) matches Ok((_, end)) ==> start < end <= s.len(),
    decreases s.len() - start, 1nat,
{
    lemma_blanks_bound(s, start);
    let at = skip_blanks(s, start);
    if at < s.len() && s[at] != '}' {
        lemma_item_span(s, at);
        if let Ok((_, next)) = parse_item(s, at) {
            lemma_items_span(s, next);
        }
    }
}

/// A text that can stand as a kind, as a key or as a value without quotes.
pub open spec fn is_name(s: Seq<char>) -> bool {
    s.len() > 0 && forall|i: int| 0 <= i < s.len() ==> is_name_char(#[trigger] s[i])
}

/// That the grammar can write the item down: kinds and keys are names, and no
/// value holds a `"`.
pub open spec fn writable(item: ItemView) -> bool
    decreases item,
{
    match item {
        ItemView::Field(field) => is_name(field.key) && forall|i: int|
            0 <= i < field.value.len() ==> #[trigger] field.value[i] != '"',
        ItemView::Object(object) => is_name(object.kind) && forall|i: int|
            0 <= i < object.items.len() ==> writable(#[trigger] object.items[i]),
    }
}

/// The item written down: a field as `key: "value"`, an object as
/// `kind: { item item ... }` with one space before each item and before the `}`.
pub open spec fn written(item: ItemView) -> Seq<char>
    decreases item, 0nat,
{
    match item {
        ItemView::Field(field) => field.key + seq![':', ' ', '"'] + field.value + seq!['"'],
        ItemView::Object(object) => object.kind + seq![':', ' ', '{'] + written_from(
            object.items,
            0,
        ) + seq![' ', '}'],
    }
}

/// The items from the `i`-th on written down, each after one space.
pub open spec fn written_from(items: Seq<ItemView>, i: int) -> Seq<char>
    decreases items, items.len() - i,
{
    if i < 0 || i >= items.len() {
        Seq::empty()
    } else {
        seq![' '] + written(items[i]) + written_from(items, i + 1)
    }
}

/// A run of `n` name characters that ends the text or stands before another
/// character is the name there.
pub proof fn lemma_name_at_is(s: Seq<char>, start: int, n: nat)
    requires
        0 <= start,
        start + n <= s.len(),
        forall|k: int| start <= k < start + n ==> is_name_char(#[trigger] s[k]),
        start + n == s.len() || !is_name_char(s[start + n]),
    ensures
        name_at(s, start) == n,
    decreases n,
{
    if n > 0 {
        lemma_name_at_is(s, start + 1, (n - 1) as nat);
    }
}

/// A run of `n` blanks that ends the text or stands before another character is
/// what is skipped there.
pub proof fn lemma_blanks_at_is(s: Seq<char>, start: int, n: nat)
    requires
        0 <= start,
        start + n <= s.len(),
        forall|k: int| start <= k < start + n ==> is_blank(#[trigger] s[k]),
        start + n == s.len() || !is_blank(s[start + n]),
    ensures
        blanks_at(s, start) == n,
    decreases n,
{
    if n > 0 {
        lemma_blanks_at_is(s, start + 1, (n - 1) as nat);
    }
}

/// What is written is read back. An item that the grammar can write, written
/// down anywhere in a text, parses from where it starts to itself and ends
/// where its text ends.
pub proof fn lemma_written_item_parses(item: ItemView, before: Seq<char>, after: Seq<char>)
    requires
        writable(item),
    ensures
        parse_item(before + written(item) + after, before.len() as int) == Ok::<
            (ItemView, int),
            SyntaxFault,
        >((item, (before.len() + written(item).len()) as int)),
    decreases item, 0nat,
{
    let s = before + written(item) + after;
    let b = before.len() as int;
    match item {
        ItemView::Field(field) => {
            let k = field.key.len() as int;
            let v = field.value.len() as int;
            lemma_name_at_is(s, b, k as nat);
            lemma_blanks_at_is(s, b + k, 0);
            lemma_blanks_at_is(s, b + k + 1, 1);
            crate::text::lemma_find_is(s, '"', b + k + 3, b + k + 3 + v);
            assert(s.subrange(b, b + k) =~= field.key);
            assert(s.subrange(b + k + 3, b + k + 3 + v) =~= field.value);
        },
        ItemView::Object(object) => {
            let k = object.kind.len() as int;
            let open = before + object.kind + seq![':', ' ', '{'];
            assert(s[b + k + 2] == '{');
            lemma_name_at_is(s, b, k as nat);
            lemma_blanks_at_is(s, b + k, 0);
            lemma_blanks_at_is(s, b + k + 1, 1);
            assert(s.subrange(b, b + k) =~= object.kind);
            assert(s =~= open + written_from(object.items, 0) + seq![' ', '}'] + after);
            lemma_written_items_parse(object.items, 0, open, after);
            assert(object.items.subrange(0, object.items.len() as int) =~= object.items);
        },
    }
}

/// The items of an object, written down from the `i`-th on and closed, parse
/// to themselves.
pub proof fn lemma_written_items_parse(
    items: Seq<ItemView>,
    i: int,
    before: Seq<char>,
    after: Seq<char>,
)
    requires
        0 <= i <= items.len(),
        forall|j: int| 0 <= j < items.len() ==> writable(#[trigger] items[j]),
    ensures
        parse_items(before + written_from(items, i) + seq![' ', '}'] + after, before.len() as int)
            == Ok::<(Seq<ItemView>, int), SyntaxFault>(
            (
                items.subrange(i, items.len() as int),
                (before.len() + written_from(items, i).len() + 2) as int,
            ),
        ),
    decreases items, items.len() - i,
{
    let s = before + written_from(items, i) + seq![' ', '}'] + after;
    let b = before.len() as int;
    if i == items.len() {
        assert(s[b + 1] == '}');
        lemma_blanks_at_is(s, b, 1);
        assert(items.subrange(i, items.len() as int) =~= Seq::<ItemView>::empty());
    } else {
        let item = items[i];
        let text = written(item);
        let rest = written_from(items, i + 1);
        lemma_blanks_at_is(s, b, 1);
        let spaced = before + seq![' '];
        let tail = rest + seq![' ', '}'] + after;
        assert(s =~= spaced + text + tail);
        lemma_written_item_parses(item, spaced, tail);
        assert(s =~= (spaced + text) + rest + seq![' ', '}'] + after);
        lemma_written_items_parse(items, i + 1, spaced + text, after);
        assert(seq![item] + items.subrange(i + 1, items.len() as int) =~= items.subrange(
            i,
            items.len() as int,
        ));
    }
}

/// An object that the grammar can write, written down, is a dump that parses to
/// the object.
pub proof fn lemma_written_dump_parses(object: ObjectView)
    requires
        writable(ItemView::Object(object)),
    ensures
        parse_dump(written(ItemView::Object(object))) == Ok::<ObjectView, SyntaxFault>(object),
{
    let item = ItemView::Object(object);
    let s = written(item);
    lemma_written_item_parses(item, Seq::empty(), Seq::empty());
    lemma_blanks_at_is(s, 0, 0);
    lemma_blanks_at_is(s, s.len() as int, 0);
}

fn is_blank_char(c: char) -> (out: bool)
    ensures
        out == is_blank(c),
{
    c == ' ' || c == '\t' || c == '\n' || c == '\r'
}

fn is_name_character(c: char) -> (out: bool)
    ensures
        out == is_name_char(c),
{
    !is_blank_char(c) && c != ':' && c != '{' && c != '}' && c != '"'
}

fn skip_blank_chars(chars: &Vec<char>, from: usize) -> (at: usize)
    requires
        from <= chars.len(),
    ensures
        at == skip_blanks(chars@, from as int),
        from <= at <= chars.len(),
{
    let mut i: usize = from;
    while i < chars.len() && is_blank_char(chars[i])
        invariant
            from <= i <= chars.len(),
            skip_blanks(chars@, from as int) == skip_blanks(chars@, i as int),
        decreases chars.len() - i,
    {
        i += 1;
    }
    i
}

fn name_end(chars: &Vec<char>, from: usize) -> (end: usize)
    requires
        from <= chars.len(),
    ensures
        end == from + name_at(chars@, from as int),
        from <= end <= chars.len(),
{
    let mut i: usize = from;
    while i < chars.len() && is_name_character(chars[i])
        invariant
            from <= i <= chars.len(),
            from + name_at(chars@, from as int) == i + name_at(chars@, i as int),
        decreases chars.len() - i,
    {
        i += 1;
    }
    i
}

/// That `out` is the executable form of the result `expected`.
spec fn item_matches(
    out: Result<(Item, usize), SyntaxError>,
    expected: Result<(ItemView, int), SyntaxFault>,
) -> bool {
    match expected {
        Ok((item, end)) => out matches Ok((i, e)) && i@ == item && e == end,
        Err(fault) => out matches Err(e) && e@ == fault,
    }
}

/// That `out` is the executable form of the result `expected`.
spec fn items_match(
    out: Result<(Vec<Item>, usize), SyntaxError>,
    expected: Result<(Seq<ItemView>, int), SyntaxFault>,
) -> bool {
    match expected {
        Ok((items, end)) => out matches Ok((v, e)) && items_view(v@) == items && e == end,
        Err(fault) => out matches Err(e) && e@ == fault,
    }
}

fn parse_item_at(chars: &Vec<char>, start: usize) -> (out: Result<(Item, usize), SyntaxError>)
    requires
        start <= chars.len(),
    ensures
        item_matches(out, parse_item(chars@, start as int)),
    decreases chars.len() - start, 0nat,
{
    let n = chars.len();
    let end = name_end(chars, start);
    if end == start {
        return Err(SyntaxError { kind: SyntaxErrorKind::ExpectedName, offset: start });
    }
    let mark = skip_blank_chars(chars, end);
    let has_colon = mark < n && chars[mark] == ':';
    let body = if has_colon {
        skip_blank_chars(chars, mark + 1)
    } else {
        mark
    };
    if body < n && chars[body] == '{' {
        match parse_items_at(chars, body + 1) {
            Err(e) => Err(e),
            Ok((items, after)) => {
                let object = Object { kind: string_of(chars, start, end), items };
                assert(object@.items =~= items_view(items@));
                Ok((Item::Object(object), after))
            },
        }
    } else if !has_colon {
        Err(SyntaxError { kind: SyntaxErrorKind::ExpectedColonOrBrace, offset: body })
    } else if body < n && chars[body] == '"' {
        let close = find_char(chars, '"', body + 1);
        if close >= n {
            Err(SyntaxError { kind: SyntaxErrorKind::UnterminatedValue, offset: body })
        } else {
            let field = Field {
                key: string_of(chars, start, end),
                value: string_of(chars, body + 1, close),
            };
            Ok((Item::Field(field), close + 1))
        }
    } else {
        let value_end = name_end(chars, body);
        if value_end == body {
            Err(SyntaxError { kind: SyntaxErrorKind::ExpectedValue, offset: body })
        } else {
            let field = Field {
                key: string_of(chars, start, end),
                value: string_of(chars, body, value_end),
            };
            Ok((Item::Field(field), value_end))
        }
    }
}

/// What is left to parse after the items `done`: the result for the whole list,
/// given the result for the rest.
spec fn after_items(
    done: Seq<ItemView>,
    rest: Result<(Seq<ItemView>, int), SyntaxFault>,
) -> Result<(Seq<ItemView>, int), SyntaxFault> {
    match rest {
        Err(e) => Err(e),
        Ok((items, end)) => Ok((done + items, end)),
    }
}

fn parse_items_at(chars: &Vec<char>, start: usize) -> (out: Result<
    (Vec<Item>, usize),
    SyntaxError,
>)
    requires
        start <= chars.len(),
    ensures
        items_match(out, parse_items(chars@, start as int)),
    decreases chars.len() - start, 1nat,
{
    let n = chars.len();
    let ghost s = chars@;
    let mut items: Vec<Item> = Vec::new();
    let mut cur: usize = start;
    loop
        invariant
            s == chars@,
            n == chars.len(),
            start <= cur <= n,
            after_items(items_view(items@), parse_items(s, cur as int)) == parse_items(
                s,
                start as int,
            ),
        decreases n - cur,
    {
        let at = skip_blank_chars(chars, cur);
        if at >= n {
            return Err(SyntaxError { kind: SyntaxErrorKind::UnclosedObject, offset: at });
        }
        if chars[at] == '}' {
            return Ok((items, at + 1));
        }
        proof {
            lemma_item_span(s, at as int);
        }
        match parse_item_at(chars, at) {
            Err(e) => {
                return Err(e);
            },
            Ok((item, next)) => {
                let ghost before = items_view(items@);
                items.push(item);
                proof {
                    assert(forall|t: Seq<ItemView>| #[trigger]
                        (before + (seq![item@] + t)) =~= items_view(items@) + t);
                }
                cur = next;
            },
        }
    }
}

/// The entry point of the grammar.
pub struct Parser;

impl Parser {
    /// Parses a whole dump. Either all of `text` is one object, or the first
    /// violation of the grammar is returned and no tree at all.
    pub fn parse(text: &str) -> (out: Result<Object, SyntaxError>)
        ensures
            match parse_dump(text@) {
                Ok(object) => out matches Ok(o) && o@ == object,
                Err(fault) => out matches Err(e) && e@ == fault,
            },
    {
        let chars = chars_of(text);
        let start = skip_blank_chars(&chars, 0);
        match parse_item_at(&chars, start) {
            Err(e) => Err(e),
            Ok((Item::Field(_), _)) => Err(
                SyntaxError { kind: SyntaxErrorKind::ExpectedObject, offset: start },
            ),
            Ok((Item::Object(object), end)) => {
                proof {
                    lemma_item_span(chars@, start as int);
                }
                let tail = skip_blank_chars(&chars, end);
                if tail == chars.len() {
                    Ok(object)
                } else {
                    Err(SyntaxError { kind: SyntaxErrorKind::TrailingText, offset: tail })
                }
            },
        }
    }
}

} // verus!

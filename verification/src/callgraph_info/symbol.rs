//! Best-effort demangling of symbol names.
//!
//! A function is identified by a text of one or more segments joined by `:`,
//! such as `unit.c:_Z3fooi`. Only the last segment can be a mangled symbol.
//!
//! The demangler reads the index of a template parameter, a `T` and a number,
//! and adds one to it; on the largest number that it can read, the largest
//! `isize`, that overflows. A segment in which a `T` is followed by exactly
//! that number is therefore never handed to the demangler and counts as no
//! symbol. Every other segment is.

use vstd::prelude::*;
use vstd::string::{StrSliceExecFns, StringExecFns};
use crate::decimal::{decimal_text, is_digit, push_decimal};
use crate::text::{after_last_char, chars_of, find_last};

verus! {

/// The readable form of `symbol` if it is a mangled C++ symbol, `None` if it is
/// not, on a machine whose largest `isize` is `limit`. This is what
/// `cpp_demangle` makes of the text; the library says nothing of which texts
/// are symbols nor of what they demangle to. The limit is part of the question
/// because the demangler refuses a symbol with a number above it.
pub uninterp spec fn demangled(symbol: Seq<char>, limit: nat) -> Option<Seq<char>>;

/// The largest number that the demangler reads on this machine.
pub open spec fn number_limit() -> nat {
    isize::MAX as nat
}

/// That at `start` a `T` stands before the number `limit`, written in decimal
/// and followed by no further digit.
pub open spec fn overflows_at(symbol: Seq<char>, limit: nat, start: int) -> bool {
    let end = start + 1 + decimal_text(limit).len();
    &&& 0 <= start
    &&& end <= symbol.len()
    &&& symbol[start] == 'T'
    &&& symbol.subrange(start + 1, end) == decimal_text(limit)
    &&& (end == symbol.len() || !is_digit(symbol[end]))
}

/// That somewhere in `symbol` a `T` stands before exactly the number `limit`.
pub open spec fn overflowing(symbol: Seq<char>, limit: nat) -> bool {
    exists|start: int| overflows_at(symbol, limit, start)
}

/// Whether at `start` a `T` stands before the number that `text` writes.
fn overflows_here(chars: &Vec<char>, text: &Vec<char>, limit: usize, start: usize) -> (out: bool)
    requires
        text@ == decimal_text(limit as nat),
        start < chars.len(),
    ensures
        out == overflows_at(chars@, limit as nat, start as int),
{
    let n = chars.len();
    let width = text.len();
    if chars[start] != 'T' || n - start - 1 < width {
        return false;
    }
    let first = start + 1;
    let end = first + width;
    let mut k: usize = 0;
    while k < width
        invariant
            width == text.len(),
            text@ == decimal_text(limit as nat),
            first == start + 1,
            first + width == end <= chars.len(),
            k <= width,
            forall|j: int| 0 <= j < k ==> chars@[first + j] == text@[j],
        decreases width - k,
    {
        if chars[first + k] != text[k] {
            assert(chars@.subrange(first as int, end as int)[k as int] != text@[k as int]);
            return false;
        }
        k += 1;
    }
    assert(chars@.subrange(first as int, end as int) =~= text@);
    end == n || !(chars[end] >= '0' && chars[end] <= '9')
}

/// Whether somewhere in `symbol` a `T` stands before exactly the largest
/// number that the demangler reads.
pub fn is_overflowing(symbol: &str) -> (out: bool)
    ensures
        out == overflowing(symbol@, number_limit()),
{
    let chars = chars_of(symbol);
    let limit: usize = isize::MAX as usize;
    let mut written = String::new();
    push_decimal(&mut written, limit);
    let text = chars_of(written.as_str());
    assert(text@ =~= decimal_text(limit as nat));
    let mut start: usize = 0;
    while start < chars.len()
        invariant
            chars@ == symbol@,
            limit == number_limit(),
            text@ == decimal_text(limit as nat),
            start <= chars.len(),
            forall|k: int| 0 <= k < start ==> !overflows_at(chars@, limit as nat, k),
        decreases chars.len() - start,
    {
        if overflows_here(&chars, &text, limit, start) {
            return true;
        }
        start += 1;
    }
    false
}

/// Calls `cpp_demangle::Symbol::new` on `symbol` and, where that parses,
/// `Symbol::demangle` with the default options. The contract claims only that the
/// outcome is a function of the text and of the largest `isize`: `Some` with
/// the demangled form when both steps succeed, `None` when either fails.
///
/// `Symbol::new` reads the index of a template parameter, the number after a
/// `T`, as an `isize` and adds one to it. That overflows, and with overflow
/// checks panics, on the largest `isize` and on nothing else: a larger number
/// is refused before, and the other numbers that the parser adds to are turned
/// into `usize` first. A number is read to the end of its run of digits, hence
/// the `requires`.
#[verifier::external_body]
fn demangle_symbol(symbol: &str) -> (out: Option<String>)
    requires
        !overflowing(symbol@, number_limit()),
    ensures
        match out {
            Some(text) => demangled(symbol@, number_limit()) == Some(text@),
            None => demangled(symbol@, number_limit()) is None,
        },
{
    match cpp_demangle::Symbol::new(symbol) {
        Ok(parsed) => parsed.demangle(&cpp_demangle::DemangleOptions::default()).ok(),
        Err(_) => None,
    }
}

/// Where the last segment of `s` starts: after its last `:`, or at 0.
pub open spec fn last_segment_start(s: Seq<char>) -> int {
    find_last(s, ':', s.len() as int) + 1
}

/// The text after the last `:` of `s`; all of `s` when it has none.
pub open spec fn last_segment(s: Seq<char>) -> Seq<char> {
    s.subrange(last_segment_start(s), s.len() as int)
}

/// `s` with its last segment replaced, or `s` itself when there is no replacement.
pub open spec fn with_last_segment(s: Seq<char>, replacement: Option<Seq<char>>) -> Seq<char> {
    match replacement {
        Some(text) => s.subrange(0, last_segment_start(s)) + text,
        None => s,
    }
}

/// The view of an optional string.
pub open spec fn text_of(s: Option<String>) -> Option<Seq<char>> {
    match s {
        Some(text) => Some(text@),
        None => None,
    }
}

/// Puts `replacement` in the place of the last segment of `string`. Without a
/// replacement the result is `string`, character for character.
pub fn replace_last_segment(string: &str, replacement: Option<String>) -> (out: String)
    ensures
        out@ == with_last_segment(string@, text_of(replacement)),
{
    match replacement {
        None => String::from_str(string),
        Some(text) => {
            let chars = chars_of(string);
            let start = after_last_char(&chars, ':');
            let mut out = String::from_str(string.substring_char(0, start));
            out.append(text.as_str());
            out
        },
    }
}

/// The readable form of an identifier: its last segment demangled if that is a
/// mangled symbol, the identifier itself if not. A last segment that would
/// overflow the demangler counts as no symbol.
pub open spec fn readable(s: Seq<char>) -> Seq<char> {
    if overflowing(last_segment(s), number_limit()) {
        s
    } else {
        with_last_segment(s, demangled(last_segment(s), number_limit()))
    }
}

/// Demangles the last segment of `string` if it is a mangled symbol and returns
/// `string` unchanged if it is not.
pub fn maybe_demangle(string: &str) -> (out: String)
    ensures
        out@ == readable(string@),
        !overflowing(last_segment(string@), number_limit()) ==> out@ == with_last_segment(
            string@,
            demangled(last_segment(string@), number_limit()),
        ),
        demangled(last_segment(string@), number_limit()) is None ==> out@ == string@,
{
    let chars = chars_of(string);
    let start = after_last_char(&chars, ':');
    let segment = string.substring_char(start, chars.len());
    if is_overflowing(segment) {
        return String::from_str(string);
    }
    let replacement = demangle_symbol(segment);
    replace_last_segment(string, replacement)
}

} // verus!

//! Character-level helpers shared by the parsers.
//!
//! Text is modelled as `Seq<char>`; executable code walks a `Vec<char>` copy of
//! the input so that every position is a character position.

use vstd::prelude::*;

verus! {

/// `String::push` of the standard library appends the character to the end of
/// the string. This is believed of the library, not proved.
pub assume_specification[ String::push ](s: &mut String, ch: char)
    ensures
        final(s)@ == old(s)@.push(ch),
;

/// Position of the first `c` in `s` at or after `from`; `s.len()` when there is none.
pub open spec fn find(s: Seq<char>, c: char, from: int) -> int
    decreases s.len() - from,
{
    if from < 0 || from >= s.len() {
        s.len() as int
    } else if s[from] == c {
        from
    } else {
        find(s, c, from + 1)
    }
}

/// Position of the last `c` in `s[..upto]`; `-1` when there is none.
pub open spec fn find_last(s: Seq<char>, c: char, upto: int) -> int
    decreases upto,
{
    if upto <= 0 || upto > s.len() {
        -1
    } else if s[upto - 1] == c {
        upto - 1
    } else {
        find_last(s, c, upto - 1)
    }
}

/// `s` cut at its first `c`: the text before it and the text after it.
pub open spec fn split_once(s: Seq<char>, c: char) -> Option<(Seq<char>, Seq<char>)> {
    let i = find(s, c, 0);
    if i < s.len() {
        Some((s.subrange(0, i), s.subrange(i + 1, s.len() as int)))
    } else {
        None
    }
}

/// What `find` returns: the first match at or after `from`, with no match before it.
pub proof fn lemma_find(s: Seq<char>, c: char, from: int)
    requires
        0 <= from <= s.len(),
    ensures
        from <= find(s, c, from) <= s.len(),
        find(s, c, from) < s.len() ==> s[find(s, c, from)] == c,
        forall|k: int| from <= k < find(s, c, from) ==> s[k] != c,
    decreases s.len() - from,
{
    if from < s.len() && s[from] != c {
        lemma_find(s, c, from + 1);
    }
}

/// `find` is determined by the first match: a position `at` holding `c` with no
/// `c` in `s[from..at]` is the answer.
pub proof fn lemma_find_is(s: Seq<char>, c: char, from: int, at: int)
    requires
        0 <= from <= at <= s.len(),
        at < s.len() ==> s[at] == c,
        forall|k: int| from <= k < at ==> s[k] != c,
    ensures
        find(s, c, from) == at,
    decreases at - from,
{
    if from < at {
        lemma_find_is(s, c, from + 1, at);
    }
}

/// A text cut at a mark that its first part does not hold falls into the two
/// parts it was made of.
pub proof fn lemma_split_once_joined(before: Seq<char>, c: char, after: Seq<char>)
    requires
        forall|k: int| 0 <= k < before.len() ==> before[k] != c,
    ensures
        split_once(before + seq![c] + after, c) == Some((before, after)),
{
    let s = before + seq![c] + after;
    lemma_find_is(s, c, 0, before.len() as int);
}

/// A text without the mark is not cut.
pub proof fn lemma_split_once_whole(s: Seq<char>, c: char)
    requires
        forall|k: int| 0 <= k < s.len() ==> s[k] != c,
    ensures
        split_once(s, c) is None,
{
    lemma_find_is(s, c, 0, s.len() as int);
}

/// Searching a suffix of `s` is searching `s` from where the suffix starts.
pub proof fn lemma_find_suffix(s: Seq<char>, c: char, start: int, from: int)
    requires
        0 <= start <= s.len(),
        0 <= from <= s.len() - start,
    ensures
        find(s.subrange(start, s.len() as int), c, from) + start == find(s, c, start + from),
{
    let tail = s.subrange(start, s.len() as int);
    lemma_find(s, c, start + from);
    lemma_find_is(tail, c, from, find(s, c, start + from) - start);
}

/// The characters of `s`, in order.
pub fn chars_of(s: &str) -> (out: Vec<char>)
    ensures
        out@ == s@,
{
    let mut out: Vec<char> = Vec::new();
    for c in it: s.chars()
        invariant
            out@ == it.seq().take(it.index()),
    {
        out.push(c);
    }
    out
}

/// The string made of `chars[from..to]`.
pub fn string_of(chars: &Vec<char>, from: usize, to: usize) -> (out: String)
    requires
        from <= to <= chars.len(),
    ensures
        out@ == chars@.subrange(from as int, to as int),
{
    let mut out = String::new();
    let mut i: usize = from;
    while i < to
        invariant
            from <= i <= to <= chars.len(),
            out@ == chars@.subrange(from as int, i as int),
        decreases to - i,
    {
        out.push(chars[i]);
        i += 1;
    }
    out
}

/// Position of the first `c` in `chars` at or after `from`; `chars.len()` when there is none.
pub fn find_char(chars: &Vec<char>, c: char, from: usize) -> (at: usize)
    requires
        from <= chars.len(),
    ensures
        at == find(chars@, c, from as int),
        from <= at <= chars.len(),
        at < chars.len() ==> chars@[at as int] == c,
        forall|k: int| from <= k < at ==> chars@[k] != c,
{
    let mut i: usize = from;
    while i < chars.len() && chars[i] != c
        invariant
            from <= i <= chars.len(),
            forall|k: int| from <= k < i ==> chars@[k] != c,
        decreases chars.len() - i,
    {
        i += 1;
    }
    proof {
        lemma_find_is(chars@, c, from as int, i as int);
    }
    i
}

/// Position after the last `c` in `chars`; 0 when there is none.
pub fn after_last_char(chars: &Vec<char>, c: char) -> (at: usize)
    ensures
        at == find_last(chars@, c, chars.len() as int) + 1,
        at <= chars.len(),
{
    let mut i: usize = chars.len();
    while i > 0 && chars[i - 1] != c
        invariant
            i <= chars.len(),
            find_last(chars@, c, chars.len() as int) == find_last(chars@, c, i as int),
        decreases i,
    {
        i -= 1;
    }
    i
}

/// How one value stands to another in an order.
#[derive(Debug, Clone, Copy, PartialEq, Eq, Structural)]
pub enum Rank {
    Before,
    Same,
    After,
}

/// How the texts `a` and `b` stand in dictionary order, compared character by
/// character from position `from` on: the first character that differs
/// decides, and a text stands before every longer text that starts with it.
pub open spec fn rank_from(a: Seq<char>, b: Seq<char>, from: int) -> Rank
    decreases a.len() - from,
{
    if from < 0 || from >= a.len() {
        if from >= b.len() {
            Rank::Same
        } else {
            Rank::Before
        }
    } else if from >= b.len() {
        Rank::After
    } else if a[from] == b[from] {
        rank_from(a, b, from + 1)
    } else if (a[from] as u32) < (b[from] as u32) {
        Rank::Before
    } else {
        Rank::After
    }
}

/// How the texts `a` and `b` stand in dictionary order.
pub open spec fn text_rank(a: Seq<char>, b: Seq<char>) -> Rank {
    rank_from(a, b, 0)
}

/// Two texts stand the same from `from` on exactly if they are of one length
/// and agree from there on.
pub proof fn lemma_rank_same(a: Seq<char>, b: Seq<char>, from: int)
    requires
        0 <= from,
    ensures
        rank_from(a, b, from) == Rank::Same <==> (from >= a.len() && from >= b.len()) || (a.len()
            == b.len() && forall|k: int| from <= k < a.len() ==> a[k] == b[k]),
    decreases a.len() - from,
{
    if from < a.len() && from < b.len() && a[from] == b[from] {
        lemma_rank_same(a, b, from + 1);
    }
}

/// Swapping the two texts swaps before and after.
pub proof fn lemma_rank_flip(a: Seq<char>, b: Seq<char>, from: int)
    requires
        0 <= from,
    ensures
        rank_from(a, b, from) == Rank::Before <==> rank_from(b, a, from) == Rank::After,
        rank_from(a, b, from) == Rank::After <==> rank_from(b, a, from) == Rank::Before,
        rank_from(a, b, from) == Rank::Same <==> rank_from(b, a, from) == Rank::Same,
    decreases a.len() - from,
{
    if from < a.len() && from < b.len() {
        if a[from] == b[from] {
            lemma_rank_flip(a, b, from + 1);
        } else {
            vstd::utf8::char_u32_cast(a[from], a[from] as u32);
            vstd::utf8::char_u32_cast(b[from], b[from] as u32);
        }
    }
}

/// What stands before a text stands before everything that the text stands
/// before or is the same as; the same holds of what is the same as the text.
pub proof fn lemma_rank_chain(a: Seq<char>, b: Seq<char>, c: Seq<char>, from: int)
    requires
        0 <= from,
        rank_from(a, b, from) != Rank::After,
        rank_from(b, c, from) != Rank::After,
    ensures
        rank_from(a, c, from) != Rank::After,
        rank_from(a, c, from) == Rank::Same ==> rank_from(a, b, from) == Rank::Same && rank_from(
            b,
            c,
            from,
        ) == Rank::Same,
    decreases a.len() - from,
{
    if from < a.len() && from < b.len() && from < c.len() && a[from] == b[from] && b[from]
        == c[from] {
        lemma_rank_chain(a, b, c, from + 1);
    }
}

/// How the texts `a` and `b` stand in dictionary order.
pub fn compare_text(a: &str, b: &str) -> (out: Rank)
    ensures
        out == text_rank(a@, b@),
{
    let left = chars_of(a);
    let right = chars_of(b);
    let mut i: usize = 0;
    while i < left.len() && i < right.len() && left[i] == right[i]
        invariant
            i <= left.len(),
            i <= right.len(),
            rank_from(left@, right@, 0) == rank_from(left@, right@, i as int),
        decreases left.len() - i,
    {
        i += 1;
    }
    if i >= left.len() {
        if i >= right.len() {
            Rank::Same
        } else {
            Rank::Before
        }
    } else if i >= right.len() {
        Rank::After
    } else if (left[i] as u32) < (right[i] as u32) {
        Rank::Before
    } else {
        Rank::After
    }
}

} // verus!

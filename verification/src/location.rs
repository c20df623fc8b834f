//! Source locations of the form `path:line:column`.

use vstd::prelude::*;
use vstd::std_specs::cmp::{PartialEqSpecImpl, PartialOrdSpecImpl};
use std::cmp::Ordering;
use vstd::string::StrSliceExecFns;
use crate::decimal::{
    decimal_text, lemma_decimal_text, lemma_parse_decimal_text, parse_number, parse_usize,
    push_decimal,
};
use crate::text::{
    chars_of, compare_text, find_char, lemma_find_suffix, lemma_rank_chain, lemma_rank_flip,
    lemma_rank_same, lemma_split_once_joined, lemma_split_once_whole, split_once, string_of,
    text_rank, Rank,
};

verus! {

/// A place in a source file. Ordered by file, then line, then column.
#[derive(Debug, Eq, Ord, Hash)]
pub struct Location {
    file: String,
    line: usize,
    column: usize,
}

/// What a `Location` stands for.
pub struct LocationView {
    pub file: Seq<char>,
    pub line: nat,
    pub column: nat,
}

/// Why a text that starts like a location is not one.
#[derive(Debug, Clone, Copy, PartialEq, Eq, Structural)]
pub enum LocationError {
    /// The text after the path is not a line number.
    InvalidLine,
    /// The text after the line number is neither empty nor a column number.
    InvalidColumn,
}

impl View for Location {
    type V = LocationView;

    closed spec fn view(&self) -> LocationView {
        LocationView { file: self.file@, line: self.line as nat, column: self.column as nat }
    }
}

impl Clone for Location {
    fn clone(&self) -> (out: Self)
        ensures
            out@ == self@,
    {
        Location { file: self.file.clone(), line: self.line, column: self.column }
    }
}

impl PartialEq for Location {
    fn eq(&self, other: &Self) -> (out: bool) {
        self.file == other.file && self.line == other.line && self.column == other.column
    }
}

impl PartialEqSpecImpl for Location {
    open spec fn obeys_eq_spec() -> bool {
        true
    }

    open spec fn eq_spec(&self, other: &Self) -> bool {
        self@ == other@
    }
}

/// How two numbers stand to each other.
pub open spec fn number_rank(a: nat, b: nat) -> Rank {
    if a < b {
        Rank::Before
    } else if a == b {
        Rank::Same
    } else {
        Rank::After
    }
}

/// How two locations stand to each other: by file in dictionary order, then by
/// line, then by column.
pub open spec fn location_rank(a: LocationView, b: LocationView) -> Rank {
    if text_rank(a.file, b.file) != Rank::Same {
        text_rank(a.file, b.file)
    } else if a.line != b.line {
        number_rank(a.line, b.line)
    } else {
        number_rank(a.column, b.column)
    }
}

/// The rank in the words of the standard library.
pub open spec fn rank_ordering(rank: Rank) -> Ordering {
    match rank {
        Rank::Before => Ordering::Less,
        Rank::Same => Ordering::Equal,
        Rank::After => Ordering::Greater,
    }
}

impl PartialOrd for Location {
    fn partial_cmp(&self, other: &Self) -> (out: Option<Ordering>) {
        match self.rank(other) {
            Rank::Before => Some(Ordering::Less),
            Rank::Same => Some(Ordering::Equal),
            Rank::After => Some(Ordering::Greater),
        }
    }
}

impl PartialOrdSpecImpl for Location {
    open spec fn obeys_partial_cmp_spec() -> bool {
        true
    }

    open spec fn partial_cmp_spec(&self, other: &Self) -> Option<Ordering> {
        Some(rank_ordering(location_rank(self@, other@)))
    }
}

/// The order of locations is total. Two locations stand the same exactly if
/// they are equal; one stands before another exactly if the other stands after
/// it; and what does not stand after a location does not stand after anything
/// that the location does not stand after.
pub proof fn lemma_location_order(a: LocationView, b: LocationView, c: LocationView)
    ensures
        location_rank(a, b) == Rank::Same <==> a == b,
        location_rank(a, b) == Rank::Before <==> location_rank(b, a) == Rank::After,
        location_rank(a, b) != Rank::After && location_rank(b, c) != Rank::After
            ==> location_rank(a, c) != Rank::After,
{
    lemma_rank_same(a.file, b.file, 0);
    lemma_rank_same(b.file, a.file, 0);
    lemma_rank_flip(a.file, b.file, 0);
    assert(text_rank(a.file, b.file) == Rank::Same ==> a.file =~= b.file);
    if location_rank(a, b) != Rank::After && location_rank(b, c) != Rank::After {
        lemma_rank_chain(a.file, b.file, c.file, 0);
        lemma_rank_same(a.file, c.file, 0);
        lemma_rank_same(b.file, c.file, 0);
    }
}

/// The text before the first `:` of `s` and the text after it; all of `s` and
/// nothing when `s` has no `:`.
pub open spec fn split_field(s: Seq<char>) -> (Seq<char>, Seq<char>) {
    match split_once(s, ':') {
        Some(parts) => parts,
        None => (s, Seq::empty()),
    }
}

/// The line and column that follow the path `file`, read from `rest`, and the
/// text left over. The line is the text up to the next `:` and must be a number.
/// The column is the text up to the `:` after that; when it is empty the column
/// is 0, otherwise it must be a number.
pub open spec fn parse_position(file: Seq<char>, rest: Seq<char>) -> Result<
    (LocationView, Seq<char>),
    LocationError,
> {
    let (line_text, after_line) = split_field(rest);
    let (column_text, remainder) = split_field(after_line);
    match parse_number(line_text) {
        None => Err(LocationError::InvalidLine),
        Some(line) => if column_text.len() == 0 {
            Ok((LocationView { file, line, column: 0 }, remainder))
        } else {
            match parse_number(column_text) {
                None => Err(LocationError::InvalidColumn),
                Some(column) => Ok((LocationView { file, line, column }, remainder)),
            }
        },
    }
}

/// The path that `s` starts with and the text after the `:` that ends it, if `s`
/// starts with a path. A path ends at the first `:`, unless only one character
/// precedes it: that character is a drive letter, and the path ends at the second
/// `:`. `None` when `s` has no `:`, starts with one, or has a drive letter and no
/// second `:`.
pub open spec fn split_path(s: Seq<char>) -> Option<(Seq<char>, Seq<char>)> {
    match split_once(s, ':') {
        None => None,
        Some((head, rest)) => if head.len() == 0 {
            None
        } else if head.len() == 1 {
            match split_once(rest, ':') {
                None => None,
                Some((tail, rest)) => Some((head + seq![':'] + tail, rest)),
            }
        } else {
            Some((head, rest))
        },
    }
}

/// What a text says as a location: `Ok(None)` when it does not start with a
/// path, an error when a path is followed by something other than a line and a
/// column, and otherwise the location with the text that follows the column.
pub open spec fn parse_location(s: Seq<char>) -> Result<
    Option<(LocationView, Seq<char>)>,
    LocationError,
> {
    match split_path(s) {
        None => Ok(None),
        Some((file, rest)) => match parse_position(file, rest) {
            Err(e) => Err(e),
            Ok(found) => Ok(Some(found)),
        },
    }
}

/// The location that a text names, if it names one.
pub open spec fn named_location(s: Seq<char>) -> Option<LocationView> {
    match parse_location(s) {
        Ok(Some((location, _))) => Some(location),
        _ => None,
    }
}

/// A location written out: path, line and column with `:` between them.
pub open spec fn location_text(location: LocationView) -> Seq<char> {
    location.file + seq![':'] + decimal_text(location.line) + seq![':'] + decimal_text(
        location.column,
    )
}

/// That `file` can be the path of a written location: it has two characters or
/// more, and no `:` but the one that may follow a drive letter.
pub open spec fn is_path(file: Seq<char>) -> bool {
    &&& file.len() >= 2
    &&& forall|k: int| 0 <= k < file.len() && file[k] == ':' ==> k == 1
}

/// A written path with text after it is read as that path and that text.
pub proof fn lemma_split_path_written(file: Seq<char>, rest: Seq<char>)
    requires
        is_path(file),
    ensures
        split_path(file + seq![':'] + rest) == Some((file, rest)),
{
    let s = file + seq![':'] + rest;
    if file[1] == ':' {
        let drive = file.subrange(0, 1);
        let tail = file.subrange(2, file.len() as int);
        let after = tail + seq![':'] + rest;
        assert(s =~= drive + seq![':'] + after);
        lemma_split_once_joined(drive, ':', after);
        lemma_split_once_joined(tail, ':', rest);
    } else {
        lemma_split_once_joined(file, ':', rest);
    }
}

/// Reading back what was written. For every location whose path is one and
/// whose numbers fit in `usize`, the written location parses to itself with
/// nothing left over, and the written location followed by `:` and any text
/// parses to itself with that text left over.
pub proof fn lemma_parse_written(location: LocationView, rest: Seq<char>)
    requires
        is_path(location.file),
        location.line <= usize::MAX,
        location.column <= usize::MAX,
    ensures
        parse_location(location_text(location)) == Ok::<
            Option<(LocationView, Seq<char>)>,
            LocationError,
        >(Some((location, Seq::empty()))),
        parse_location(location_text(location) + seq![':'] + rest) == Ok::<
            Option<(LocationView, Seq<char>)>,
            LocationError,
        >(Some((location, rest))),
{
    let line = decimal_text(location.line);
    let column = decimal_text(location.column);
    lemma_decimal_text(location.line);
    lemma_decimal_text(location.column);
    lemma_parse_decimal_text(location.line);
    lemma_parse_decimal_text(location.column);
    // Without a remainder.
    let short = line + seq![':'] + column;
    assert(location_text(location) =~= location.file + seq![':'] + short);
    lemma_split_path_written(location.file, short);
    lemma_split_once_joined(line, ':', column);
    lemma_split_once_whole(column, ':');
    // With a remainder.
    let long = line + seq![':'] + (column + seq![':'] + rest);
    assert(location_text(location) + seq![':'] + rest =~= location.file + seq![':'] + long);
    lemma_split_path_written(location.file, long);
    lemma_split_once_joined(line, ':', column + seq![':'] + rest);
    lemma_split_once_joined(column, ':', rest);
}

/// That `out` is the executable form of the result `expected`.
pub open spec fn parsed_as(
    out: Result<Option<(Location, &str)>, LocationError>,
    expected: Result<Option<(LocationView, Seq<char>)>, LocationError>,
) -> bool {
    match expected {
        Err(e) => out == Err::<Option<(Location, &str)>, LocationError>(e),
        Ok(None) => out == Ok::<Option<(Location, &str)>, LocationError>(None),
        Ok(Some((location, rest))) => match out {
            Ok(Some((l, r))) => l@ == location && r@ == rest,
            _ => false,
        },
    }
}

impl Location {
    /// The location of `line` and `column` in `file`.
    pub fn new(file: String, line: usize, column: usize) -> (out: Location)
        ensures
            out@ == (LocationView { file: file@, line: line as nat, column: column as nat }),
    {
        Location { file, line, column }
    }

    /// The path of the source file.
    pub fn file(&self) -> (out: &str)
        ensures
            out@ == self@.file,
    {
        self.file.as_str()
    }

    /// The line in the file.
    pub fn line(&self) -> (out: usize)
        ensures
            out == self@.line,
    {
        self.line
    }

    /// The column in the line; 0 where the text gave none.
    pub fn column(&self) -> (out: usize)
        ensures
            out == self@.column,
    {
        self.column
    }

    /// How this location stands to `other` in the order of locations.
    pub fn rank(&self, other: &Location) -> (out: Rank)
        ensures
            out == location_rank(self@, other@),
    {
        let by_file = compare_text(self.file.as_str(), other.file.as_str());
        if by_file != Rank::Same {
            by_file
        } else if self.line != other.line {
            if self.line < other.line {
                Rank::Before
            } else {
                Rank::After
            }
        } else if self.column < other.column {
            Rank::Before
        } else if self.column == other.column {
            Rank::Same
        } else {
            Rank::After
        }
    }

    /// The location written out as `path:line:column`.
    pub fn text(&self) -> (out: String)
        ensures
            out@ == location_text(self@),
    {
        let mut out = self.file.clone();
        out.push(':');
        push_decimal(&mut out, self.line);
        out.push(':');
        push_decimal(&mut out, self.column);
        out
    }

    /// Reads a location from the start of `string` and returns it with the text
    /// that follows it.
    ///
    /// The text has the form `path:line:column:rest`. The path ends at the first
    /// `:`, or at the second where a single character, a drive letter, stands
    /// before the first. A text without a path is no location: `Ok(None)`. Once
    /// there is a path, the line must be a number, and the column must be a
    /// number or be missing, which makes it 0; anything else is an error. An
    /// error is not a text without a location: the text set out to be one and
    /// is malformed, and a caller that reads compiler output is to give up on it.
    pub fn parse(string: &str) -> (out: Result<Option<(Location, &str)>, LocationError>)
        ensures
            parsed_as(out, parse_location(string@)),
    {
        let chars = chars_of(string);
        let n = chars.len();
        let file_end = match path_end(&chars) {
            Some(end) => end,
            None => { return Ok(None); },
        };
        let (line_end, column_start) = field_end(&chars, file_end + 1);
        let (column_end, rest_start) = field_end(&chars, column_start);
        let line = match parse_usize(&chars, file_end + 1, line_end) {
            Some(v) => v,
            None => { return Err(LocationError::InvalidLine); },
        };
        let column = if column_start == column_end {
            0
        } else {
            match parse_usize(&chars, column_start, column_end) {
                Some(v) => v,
                None => { return Err(LocationError::InvalidColumn); },
            }
        };
        let remainder = string.substring_char(rest_start, n);
        let location = Location { file: string_of(&chars, 0, file_end), line, column };
        Ok(Some((location, remainder)))
    }
}

/// Where the path at the start of `chars` ends: the position of the `:` after it.
fn path_end(chars: &Vec<char>) -> (out: Option<usize>)
    ensures
        match split_path(chars@) {
            None => out is None,
            Some((file, rest)) => out matches Some(end) && end < chars.len()
                && file == chars@.subrange(0, end as int)
                && rest == chars@.subrange(end + 1, chars.len() as int),
        },
{
    let n = chars.len();
    let ghost s = chars@;
    let first = find_char(chars, ':', 0);
    if first == n || first == 0 {
        return None;
    }
    if first != 1 {
        return Some(first);
    }
    let second = find_char(chars, ':', 2);
    proof {
        lemma_find_suffix(s, ':', 2, 0);
    }
    if second == n {
        return None;
    }
    Some(second)
}

/// Where the field that starts at `start` ends, and where the text after its `:`
/// starts.
fn field_end(chars: &Vec<char>, start: usize) -> (out: (usize, usize))
    requires
        start <= chars.len(),
    ensures
        start <= out.0 <= out.1 <= chars.len(),
        split_field(chars@.subrange(start as int, chars.len() as int)) == (
            chars@.subrange(start as int, out.0 as int),
            chars@.subrange(out.1 as int, chars.len() as int),
        ),
{
    let n = chars.len();
    let ghost s = chars@;
    let end = find_char(chars, ':', start);
    proof {
        lemma_find_suffix(s, ':', start as int, 0);
    }
    if end == n {
        (n, n)
    } else {
        (end, end + 1)
    }
}

} // verus!

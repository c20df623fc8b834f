//! Stack-usage records: one function per line, three fields separated by tabs.
//!
//! ```text
//! <path>:<line>:<column>:<function name> TAB <bytes> TAB <qualifier>[,<qualifier>...]
//! ```

use vstd::prelude::*;
use vstd::string::{StrSliceExecFns, StringExecFns};
use crate::decimal::{parse_number, parse_usize};
use crate::location::{parse_location, Location, LocationError, LocationView};
use crate::text::{chars_of, find, find_char, lemma_find_suffix, split_once, string_of};

verus! {

/// How the compiler arrived at a stack size.
#[derive(Debug, Clone, Copy, PartialEq, Eq, PartialOrd, Ord, Structural)]
pub enum Qualifier {
    Static,
    Dynamic,
    Bounded,
}

/// A function as a record names it: where it is defined and what it is called.
#[derive(Debug, PartialEq, Eq, PartialOrd, Ord)]
pub struct Function {
    pub location: Location,
    pub name: String,
}

/// The stack that one function uses.
#[derive(Debug, PartialEq, Eq, PartialOrd, Ord)]
pub struct StackUsage {
    pub function: Function,
    pub stack_usage: usize,
    pub qualifiers: Vec<Qualifier>,
}

/// What a `Function` stands for.
pub struct FunctionView {
    pub location: LocationView,
    pub name: Seq<char>,
}

/// What a `StackUsage` stands for.
pub struct StackUsageView {
    pub function: FunctionView,
    pub stack_usage: nat,
    pub qualifiers: Seq<Qualifier>,
}

impl View for Function {
    type V = FunctionView;

    open spec fn view(&self) -> FunctionView {
        FunctionView { location: self.location@, name: self.name@ }
    }
}

impl View for StackUsage {
    type V = StackUsageView;

    open spec fn view(&self) -> StackUsageView {
        StackUsageView {
            function: self.function@,
            stack_usage: self.stack_usage as nat,
            qualifiers: self.qualifiers@,
        }
    }
}

/// Why a text is not the first field of a record.
#[derive(Debug, Clone, Copy, PartialEq, Eq, Structural)]
pub enum FunctionError {
    /// The text does not start with a path.
    NoLocation,
    /// The path is followed by something other than a line and a column.
    Location(LocationError),
}

/// Why a line is not a record.
#[derive(Debug, Clone, Copy, PartialEq, Eq, Structural)]
pub enum StackUsageError {
    /// The line does not have exactly three fields.
    FieldCount,
    /// The first field is not a function.
    Function(FunctionError),
    /// The second field is not a number.
    InvalidUsage,
    /// The third field holds something other than `static`, `dynamic` and
    /// `bounded`.
    UnknownQualifier,
}

/// The function that a text names: a location, then the name.
pub open spec fn parse_function(s: Seq<char>) -> Result<FunctionView, FunctionError> {
    match parse_location(s) {
        Err(e) => Err(FunctionError::Location(e)),
        Ok(None) => Err(FunctionError::NoLocation),
        Ok(Some((location, name))) => Ok(FunctionView { location, name }),
    }
}

/// The three fields of a line that has exactly two tabs.
pub open spec fn record_fields(s: Seq<char>) -> Option<(Seq<char>, Seq<char>, Seq<char>)> {
    let first = find(s, '\t', 0);
    let second = find(s, '\t', first + 1);
    if first < s.len() && second < s.len() && find(s, '\t', second + 1) == s.len() {
        Some(
            (
                s.subrange(0, first),
                s.subrange(first + 1, second),
                s.subrange(second + 1, s.len() as int),
            ),
        )
    } else {
        None
    }
}

/// The qualifier that a word names.
pub open spec fn qualifier_of(word: Seq<char>) -> Option<Qualifier> {
    if word == "static"@ {
        Some(Qualifier::Static)
    } else if word == "dynamic"@ {
        Some(Qualifier::Dynamic)
    } else if word == "bounded"@ {
        Some(Qualifier::Bounded)
    } else {
        None
    }
}

/// The qualifiers that a list of words separated by commas names, if each word
/// names one.
pub open spec fn parse_qualifiers(s: Seq<char>) -> Option<Seq<Qualifier>>
    decreases s.len(),
{
    match split_once(s, ',') {
        None => match qualifier_of(s) {
            None => None,
            Some(q) => Some(seq![q]),
        },
        Some((word, rest)) => match qualifier_of(word) {
            None => None,
            Some(q) => if rest.len() >= s.len() {
                // Never taken: the rest is shorter than the whole.
                None
            } else {
                match parse_qualifiers(rest) {
                    None => None,
                    Some(more) => Some(seq![q] + more),
                }
            },
        },
    }
}

/// The record that a line holds.
pub open spec fn parse_record(s: Seq<char>) -> Result<StackUsageView, StackUsageError> {
    match record_fields(s) {
        None => Err(StackUsageError::FieldCount),
        Some((function, usage, qualifiers)) => match parse_function(function) {
            Err(e) => Err(StackUsageError::Function(e)),
            Ok(function) => match parse_number(usage) {
                None => Err(StackUsageError::InvalidUsage),
                Some(stack_usage) => match parse_qualifiers(qualifiers) {
                    None => Err(StackUsageError::UnknownQualifier),
                    Some(qualifiers) => Ok(StackUsageView { function, stack_usage, qualifiers }),
                },
            },
        },
    }
}

impl Function {
    /// Reads a function from `string`: a location, and after it the name.
    pub fn parse(string: &str) -> (out: Result<Function, FunctionError>)
        ensures
            match parse_function(string@) {
                Ok(function) => out matches Ok(f) && f@ == function,
                Err(e) => out == Err::<Function, FunctionError>(e),
            },
    {
        match Location::parse(string) {
            Err(e) => Err(FunctionError::Location(e)),
            Ok(None) => Err(FunctionError::NoLocation),
            Ok(Some((location, name))) => Ok(Function { location, name: String::from_str(name) }),
        }
    }
}

/// The qualifier that `chars[from..to]` names.
fn qualifier_at(chars: &Vec<char>, from: usize, to: usize) -> (out: Option<Qualifier>)
    requires
        from <= to <= chars.len(),
    ensures
        out == qualifier_of(chars@.subrange(from as int, to as int)),
{
    let word = string_of(chars, from, to);
    if word == String::from_str("static") {
        Some(Qualifier::Static)
    } else if word == String::from_str("dynamic") {
        Some(Qualifier::Dynamic)
    } else if word == String::from_str("bounded") {
        Some(Qualifier::Bounded)
    } else {
        None
    }
}

/// What is left to read after the qualifiers `done`: the result for the whole
/// list, given the result for the rest.
spec fn after_qualifiers(done: Seq<Qualifier>, rest: Option<Seq<Qualifier>>) -> Option<
    Seq<Qualifier>,
> {
    match rest {
        None => None,
        Some(more) => Some(done + more),
    }
}

/// The qualifiers that `chars[from..]` names.
fn qualifiers_at(chars: &Vec<char>, from: usize) -> (out: Option<Vec<Qualifier>>)
    requires
        from <= chars.len(),
    ensures
        match parse_qualifiers(chars@.subrange(from as int, chars.len() as int)) {
            Some(qualifiers) => out matches Some(v) && v@ == qualifiers,
            None => out is None,
        },
{
    let n = chars.len();
    let ghost s = chars@;
    let ghost whole = parse_qualifiers(s.subrange(from as int, n as int));
    let mut done: Vec<Qualifier> = Vec::new();
    let mut start: usize = from;
    loop
        invariant
            n == chars.len(),
            s == chars@,
            from <= start <= n,
            whole == parse_qualifiers(s.subrange(from as int, n as int)),
            after_qualifiers(done@, parse_qualifiers(s.subrange(start as int, n as int))) == whole,
        decreases n - start,
    {
        let ghost tail = s.subrange(start as int, n as int);
        let end = find_char(chars, ',', start);
        proof {
            lemma_find_suffix(s, ',', start as int, 0);
            if end < n {
                assert(tail.subrange(0, end - start) =~= s.subrange(start as int, end as int));
                assert(tail.subrange(end - start + 1, tail.len() as int) =~= s.subrange(
                    end + 1,
                    n as int,
                ));
            }
        }
        let qualifier = match qualifier_at(chars, start, end) {
            Some(q) => q,
            None => { return None; },
        };
        done.push(qualifier);
        if end == n {
            return Some(done);
        }
        start = end + 1;
    }
}

impl StackUsage {
    /// Reads one record from the line `string`. Nothing is filled in and nothing
    /// is passed over: a line with a field too few or too many, with a usage
    /// that is no number or with a qualifier that is not known is an error, on
    /// which a caller that reads compiler output is to give up.
    pub fn parse(string: &str) -> (out: Result<StackUsage, StackUsageError>)
        ensures
            match parse_record(string@) {
                Ok(record) => out matches Ok(r) && r@ == record,
                Err(e) => out == Err::<StackUsage, StackUsageError>(e),
            },
    {
        let chars = chars_of(string);
        let n = chars.len();
        let first = find_char(&chars, '\t', 0);
        if first == n {
            return Err(StackUsageError::FieldCount);
        }
        let second = find_char(&chars, '\t', first + 1);
        if second == n {
            return Err(StackUsageError::FieldCount);
        }
        if find_char(&chars, '\t', second + 1) != n {
            return Err(StackUsageError::FieldCount);
        }
        let function = match Function::parse(string.substring_char(0, first)) {
            Ok(function) => function,
            Err(e) => { return Err(StackUsageError::Function(e)); },
        };
        let stack_usage = match parse_usize(&chars, first + 1, second) {
            Some(bytes) => bytes,
            None => { return Err(StackUsageError::InvalidUsage); },
        };
        let qualifiers = match qualifiers_at(&chars, second + 1) {
            Some(qualifiers) => qualifiers,
            None => { return Err(StackUsageError::UnknownQualifier); },
        };
        Ok(StackUsage { function, stack_usage, qualifiers })
    }
}

} // verus!

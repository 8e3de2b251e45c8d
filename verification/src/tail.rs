//! A target of the dispatcher: of the lines it is fed, each a JSON document,
//! it answers with the last one, written out anew.
//!
//! Reading the lines is the caller's part. Blank lines are passed over; a
//! line that is no JSON document ends the input with an error.

use vstd::prelude::*;
use vstd::string::StrSliceExecFns;
use crate::text::{chars_of, string_views, trim, trimmed};

verus! {

/// The longest run of digits directly after a `.` that a line may hold. The
/// parser counts the digits of a fraction in sixteen bits; a longer run is
/// beyond what it can take.
pub const MAX_FRACTION_DIGITS: usize = 32767;

/// Whether `c` is a decimal digit.
pub open spec fn is_digit(c: char) -> bool {
    0x30 <= c as u32 <= 0x39
}

/// Whether the `.` at position `at` of `text` is directly followed by more
/// than [`MAX_FRACTION_DIGITS`] digits.
pub open spec fn long_fraction_at(text: Seq<char>, at: int) -> bool {
    &&& 0 <= at
    &&& at + MAX_FRACTION_DIGITS + 1 < text.len()
    &&& text[at] == '.'
    &&& forall|k: int| at < k <= at + MAX_FRACTION_DIGITS + 1 ==> is_digit(#[trigger] text[k])
}

/// Whether no `.` of `text` is directly followed by more than
/// [`MAX_FRACTION_DIGITS`] digits.
pub open spec fn fractions_fit(text: Seq<char>) -> bool {
    forall|at: int| !long_fraction_at(text, at)
}

/// Tests whether `c` is a decimal digit.
pub fn is_decimal_digit(c: char) -> (digit: bool)
    ensures
        digit == is_digit(c),
{
    let n: u32 = c as u32;
    0x30 <= n && n <= 0x39
}

/// Tests whether no `.` of `text` is directly followed by more than
/// [`MAX_FRACTION_DIGITS`] digits.
pub fn has_fitting_fractions(text: &str) -> (fit: bool)
    ensures
        fit == fractions_fit(text@),
{
    let chars = chars_of(text);
    let n: usize = chars.len();
    let mut at: usize = 0;
    while at < n
        invariant
            chars@ == text@,
            n == chars@.len(),
            at <= n,
            forall|before: int| 0 <= before < at ==> !long_fraction_at(text@, before),
        decreases n - at,
    {
        if chars[at] == '.' {
            let mut k: usize = at + 1;
            while k < n && k - at <= MAX_FRACTION_DIGITS + 1 && is_decimal_digit(chars[k])
                invariant
                    chars@ == text@,
                    n == chars@.len(),
                    at < k <= n,
                    k - at <= MAX_FRACTION_DIGITS + 2,
                    forall|j: int| at < j < k ==> is_digit(#[trigger] text@[j]),
                decreases n - k,
            {
                k += 1;
            }
            if k - at > MAX_FRACTION_DIGITS + 1 {
                assert(long_fraction_at(text@, at as int));
                return false;
            }
            assert(!long_fraction_at(text@, at as int)) by {
                if k < n {
                    assert(!is_digit(text@[k as int]));
                }
            }
        }
        at += 1;
    }
    true
}

/// Where and why the `json` crate's parser gave up on a text.
#[derive(Clone, Debug, PartialEq, Eq)]
pub enum Fault {
    /// The character `ch` may not stand at `line` and `column`, both counted
    /// from 1.
    UnexpectedCharacter { ch: char, line: usize, column: usize },
    /// The text ends before the document does.
    UnexpectedEndOfJson,
    /// The document is nested too deep, or a number has too many digits.
    ExceededDepthLimit,
    /// The text holds bytes that are no UTF-8.
    FailedUtf8Parsing,
    /// A value is not of the type that was asked for.
    WrongType(String),
}

/// What the `json` crate makes of `text`: the document written out anew, or
/// where and why its parser gave up on `text`.
pub uninterp spec fn canonical_json(text: Seq<char>) -> Result<Seq<char>, Fault>;

/// Calls `json::parse` on `text` and, on the value it gives, `JsonValue::dump`;
/// the parser's error is copied into a [`Fault`], variant by variant. What
/// comes back depends on `text` alone; it goes by the name
/// [`canonical_json`], and nothing more is claimed of it. The parser must not
/// be handed a fraction of more digits than it can count.
#[verifier::external_body]
fn reserialize(text: &str) -> (outcome: Result<String, Fault>)
    requires
        fractions_fit(text@),
    ensures
        match outcome {
            Ok(dumped) => canonical_json(text@) == Ok::<Seq<char>, Fault>(dumped@),
            Err(fault) => canonical_json(text@) == Err::<Seq<char>, Fault>(fault),
        },
{
    match json::parse(text) {
        Ok(value) => Ok(value.dump()),
        Err(json::JsonError::UnexpectedCharacter { ch, line, column }) => {
            Err(Fault::UnexpectedCharacter { ch, line, column })
        },
        Err(json::JsonError::UnexpectedEndOfJson) => Err(Fault::UnexpectedEndOfJson),
        Err(json::JsonError::ExceededDepthLimit) => Err(Fault::ExceededDepthLimit),
        Err(json::JsonError::FailedUtf8Parsing) => Err(Fault::FailedUtf8Parsing),
        Err(json::JsonError::WrongType(expected)) => Err(Fault::WrongType(expected)),
    }
}

/// What one line of input holds.
#[derive(Debug)]
pub enum NextLine {
    /// A JSON document, written out anew.
    Value(String),
    /// Nothing but white space.
    Empty,
}

impl View for NextLine {
    type V = Option<Seq<char>>;

    /// The document that the line holds, if it holds one.
    open spec fn view(&self) -> Option<Seq<char>> {
        match self {
            NextLine::Value(dumped) => Some(dumped@),
            NextLine::Empty => None,
        }
    }
}

/// Why there is no last line to answer with.
#[derive(Debug)]
pub enum TailError {
    /// No document came before the input ended.
    Empty,
    /// A line is no JSON document; the fault says where and why.
    InvalidJson(Fault),
    /// A line holds a `.` that is directly followed by more than
    /// [`MAX_FRACTION_DIGITS`] digits.
    LongFraction,
}

/// What one line of input holds, as plain values.
pub enum Reading {
    /// Nothing but white space.
    Empty,
    /// A JSON document, written out anew.
    Value(Seq<char>),
    /// Something that is no JSON document.
    Invalid(Fault),
    /// A fraction of more digits than the parser can count.
    LongFraction,
}

/// What the line `line` holds. White space around it does not count.
pub open spec fn reading_of(line: Seq<char>) -> Reading {
    let text = trimmed(line);
    if text.len() == 0 {
        Reading::Empty
    } else if !fractions_fit(text) {
        Reading::LongFraction
    } else {
        match canonical_json(text) {
            Ok(dumped) => Reading::Value(dumped),
            Err(fault) => Reading::Invalid(fault),
        }
    }
}

/// Whether `error` is the error for a line that holds `reading`.
pub open spec fn tells(error: TailError, reading: Reading) -> bool {
    match reading {
        Reading::Invalid(fault) => error == TailError::InvalidJson(fault),
        Reading::LongFraction => error is LongFraction,
        _ => false,
    }
}

/// Whether `result` is what reading a line that holds `reading` gives.
pub open spec fn reads_as(result: Result<NextLine, TailError>, reading: Reading) -> bool {
    match reading {
        Reading::Empty => result is Ok && result.unwrap() is Empty,
        Reading::Value(dumped) => result is Ok && result.unwrap()@ == Some(dumped),
        _ => result is Err && tells(result.unwrap_err(), reading),
    }
}

/// What a line that is not blank holds, from what the parser made of it.
pub fn parsed_line(outcome: Result<String, Fault>) -> (next: Result<NextLine, TailError>)
    ensures
        match outcome {
            Ok(dumped) => next is Ok && next.unwrap()@ == Some(dumped@),
            Err(fault) => next is Err && next.unwrap_err() == TailError::InvalidJson(fault),
        },
{
    match outcome {
        Ok(dumped) => Ok(NextLine::Value(dumped)),
        Err(fault) => Err(TailError::InvalidJson(fault)),
    }
}

/// Reads one line of input: a line of white space alone is empty; a line
/// with a fraction too long for the parser is an error; any other is parsed
/// as a JSON document and written out anew, or is the parser's error.
pub fn read_json_line(line: &str) -> (next: Result<NextLine, TailError>)
    ensures
        reads_as(next, reading_of(line@)),
{
    let text = trim(line);
    if text.unicode_len() == 0 {
        return Ok(NextLine::Empty);
    }
    if !has_fitting_fractions(text) {
        return Err(TailError::LongFraction);
    }
    parsed_line(reserialize(text))
}

/// What the whole input is answered with.
pub enum Answer {
    /// The last document, written out anew.
    Line(Seq<char>),
    /// The input held no document.
    Nothing,
    /// A line of the input is neither blank nor a document that the parser
    /// takes; the first such line holds this.
    Rejected(Reading),
}

/// The answer once the input has ended, `last` being the last document read.
pub open spec fn answer_at_end(last: Option<Seq<char>>) -> Answer {
    match last {
        Some(dumped) => Answer::Line(dumped),
        None => Answer::Nothing,
    }
}

/// The answer to the lines of `lines` from line `from` on, when `last` is the
/// last document read before them. Blank lines are passed over; every other
/// line must be a document.
pub open spec fn answer_from(lines: Seq<Seq<char>>, from: int, last: Option<Seq<char>>) -> Answer
    decreases lines.len() - from,
{
    if from < 0 || from >= lines.len() {
        answer_at_end(last)
    } else {
        match reading_of(lines[from]) {
            Reading::Empty => answer_from(lines, from + 1, last),
            Reading::Value(dumped) => answer_from(lines, from + 1, Some(dumped)),
            reading => Answer::Rejected(reading),
        }
    }
}

/// The answer to a whole input.
pub open spec fn answer_of(lines: Seq<Seq<char>>) -> Answer {
    answer_from(lines, 0, None)
}

/// Whether `result` gives the answer `answer`.
pub open spec fn gives(result: Result<String, TailError>, answer: Answer) -> bool {
    match answer {
        Answer::Line(dumped) => result is Ok && result.unwrap()@ == dumped,
        Answer::Nothing => result is Err && result.unwrap_err() is Empty,
        Answer::Rejected(reading) => result is Err && tells(result.unwrap_err(), reading),
    }
}

/// What follows a line of input.
#[derive(Debug)]
pub enum Step {
    /// More input is due; the value is the last document read so far.
    More(NextLine),
    /// A line was rejected; the value is the error for it.
    Done(TailError),
}

/// The answer once the input has ended: the last document read, or the
/// error that there was none.
pub fn finish(last: NextLine) -> (result: Result<String, TailError>)
    ensures
        gives(result, answer_at_end(last@)),
{
    match last {
        NextLine::Value(dumped) => Ok(dumped),
        NextLine::Empty => Err(TailError::Empty),
    }
}

/// Takes the next line of input, `last` being the last document read before
/// it. A blank line changes nothing; a document takes the place of `last`;
/// any other line is the error.
pub fn advance(last: NextLine, line: &str) -> (step: Step)
    ensures
        match reading_of(line@) {
            Reading::Empty => step is More && step->More_0@ == last@,
            Reading::Value(dumped) => step is More && step->More_0@ == Some(dumped),
            reading => step is Done && tells(step->Done_0, reading),
        },
{
    match read_json_line(line) {
        Ok(NextLine::Empty) => Step::More(last),
        Ok(next) => Step::More(next),
        Err(error) => Step::Done(error),
    }
}

/// Answers a whole input, given line by line.
pub fn last_line(lines: &Vec<String>) -> (result: Result<String, TailError>)
    ensures
        gives(result, answer_of(string_views(lines@))),
{
    let ghost all = string_views(lines@);
    let mut last = NextLine::Empty;
    let mut i: usize = 0;
    while i < lines.len()
        invariant
            i <= lines.len(),
            all == string_views(lines@),
            answer_of(all) == answer_from(all, i as int, last@),
        decreases lines.len() - i,
    {
        assert(all[i as int] == lines@[i as int]@);
        match advance(last, lines[i].as_str()) {
            Step::More(next) => {
                last = next;
            },
            Step::Done(error) => {
                return Err(error);
            },
        }
        i += 1;
    }
    finish(last)
}

} // verus!

//! An error reported by the embedded scripting engine.
//!
//! The engine itself lives outside this crate; the core only carries the
//! decoded error values around and hands them to the feedback channel.

use crate::text::push_char;
use vstd::prelude::*;

verus! {

/// The decimal digits of a number, most significant first.
pub open spec fn spec_digits(n: nat) -> Seq<char>
    decreases n,
{
    if n < 10 {
        seq![digit_char(n)]
    } else {
        spec_digits(n / 10) + seq![digit_char(n % 10)]
    }
}

/// One decimal digit as a character.
pub open spec fn digit_char(d: nat) -> char {
    if d == 0 {
        '0'
    } else if d == 1 {
        '1'
    } else if d == 2 {
        '2'
    } else if d == 3 {
        '3'
    } else if d == 4 {
        '4'
    } else if d == 5 {
        '5'
    } else if d == 6 {
        '6'
    } else if d == 7 {
        '7'
    } else if d == 8 {
        '8'
    } else {
        '9'
    }
}

/// The decimal rendering of a signed number: a minus sign and then the
/// digits of its magnitude.
pub open spec fn spec_i64_chars(v: int) -> Seq<char> {
    if v < 0 {
        seq!['-'] + spec_digits((-v) as nat)
    } else {
        spec_digits(v as nat)
    }
}

/// Append the decimal digits of `n` to `out`.
fn push_digits(out: &mut Vec<char>, n: u64)
    ensures
        final(out)@ == old(out)@ + spec_digits(n as nat),
    decreases n,
{
    if n < 10 {
        let d: char = match n {
            0 => '0',
            1 => '1',
            2 => '2',
            3 => '3',
            4 => '4',
            5 => '5',
            6 => '6',
            7 => '7',
            8 => '8',
            _ => '9',
        };
        out.push(d);
        proof {
            assert(out@ =~= old(out)@ + spec_digits(n as nat));
        }
    } else {
        push_digits(out, n / 10);
        let d = n % 10;
        let c: char = match d {
            0 => '0',
            1 => '1',
            2 => '2',
            3 => '3',
            4 => '4',
            5 => '5',
            6 => '6',
            7 => '7',
            8 => '8',
            _ => '9',
        };
        out.push(c);
        proof {
            assert(out@ =~= old(out)@ + spec_digits(n as nat));
        }
    }
}

/// Append the decimal rendering of `v` to `out`.
fn push_i64(out: &mut Vec<char>, v: i64)
    ensures
        final(out)@ == old(out)@ + spec_i64_chars(v as int),
{
    if v < 0 {
        out.push('-');
        let mag: u64 = if v == i64::MIN {
            (i64::MAX as u64) + 1
        } else {
            (-v) as u64
        };
        push_digits(out, mag);
        proof {
            assert(out@ =~= old(out)@ + spec_i64_chars(v as int));
        }
    } else {
        push_digits(out, v as u64);
    }
}

/// An exception coming from the scripting engine, fully decoded into
/// plain values.
#[derive(Clone, Debug, PartialEq, Eq)]
pub struct JsError {
    pub message: String,
    pub resource_name: String,
    pub source_line: Option<String>,
    pub line_number: Option<i64>,
    pub start_column: Option<i64>,
    pub end_column: Option<i64>,
    pub stack: Option<String>,
}

impl Default for JsError {
    /// The empty error: no message, no location, nothing reported.
    fn default() -> (r: JsError)
        ensures
            r.message@ =~= Seq::<char>::empty(),
            r.resource_name@ =~= Seq::<char>::empty(),
            r.source_line.is_none(),
            r.line_number.is_none(),
            r.start_column.is_none(),
            r.end_column.is_none(),
            r.stack.is_none(),
    {
        JsError {
            message: String::new(),
            resource_name: String::new(),
            source_line: None,
            line_number: None,
            start_column: None,
            end_column: None,
            stack: None,
        }
    }
}

impl JsError {
    /// The error message.
    pub fn message(&self) -> (r: &String)
        ensures
            r == self.message,
    {
        &self.message
    }

    /// The script resource the error points into.
    pub fn resource_name(&self) -> (r: &String)
        ensures
            r == self.resource_name,
    {
        &self.resource_name
    }

    /// The source line the error points at, when the engine reported one.
    pub fn source_line(&self) -> (r: &Option<String>)
        ensures
            r == self.source_line,
    {
        &self.source_line
    }

    /// The one-based line number, when the engine reported one.
    pub fn line_number(&self) -> (r: &Option<i64>)
        ensures
            r == self.line_number,
    {
        &self.line_number
    }

    /// The start column, when the engine reported one.
    pub fn start_column(&self) -> (r: &Option<i64>)
        ensures
            r == self.start_column,
    {
        &self.start_column
    }

    /// The end column, when the engine reported one.
    pub fn end_column(&self) -> (r: &Option<i64>)
        ensures
            r == self.end_column,
    {
        &self.end_column
    }

    /// The stack trace, when the engine reported one.
    pub fn stack(&self) -> (r: &Option<String>)
        ensures
            r == self.stack,
    {
        &self.stack
    }

    /// A minified rendering of the error:
    /// `Uncaught <message> (<resource>:<line>:<column>)`, with 0 for a
    /// line or column the engine did not report.
    pub fn display_string(&self) -> (r: String)
        ensures
            r@ == spec_display_chars(*self),
    {
        let line: i64 = match self.line_number {
            Some(v) => v,
            None => 0,
        };
        let column: i64 = match self.start_column {
            Some(v) => v,
            None => 0,
        };
        let mut out: Vec<char> = Vec::new();
        push_str_chars(&mut out, "Uncaught ");
        push_string_chars(&mut out, &self.message);
        push_str_chars(&mut out, " (");
        push_string_chars(&mut out, &self.resource_name);
        push_str_chars(&mut out, ":");
        push_i64(&mut out, line);
        push_str_chars(&mut out, ":");
        push_i64(&mut out, column);
        push_str_chars(&mut out, ")");
        proof {
            assert(out@ =~= spec_display_chars(*self));
        }
        chars_to_string(&out)
    }

    /// A full rendering of the error: the message, the source line it
    /// points at with a caret marker under the offending columns, and
    /// the stack trace — each only as far as the engine reported it.
    pub fn debug_string(&self) -> (r: String)
        ensures
            r@ == spec_debug_chars(*self),
    {
        let mut out: Vec<char> = Vec::new();
        push_str_chars(&mut out, "Uncaught ");
        push_string_chars(&mut out, &self.message);
        match &self.source_line {
            Some(sl) => {
                if sl.unicode_len() > 0 {
                    let sc: i64 = match self.start_column {
                        Some(v) => v,
                        None => 0,
                    };
                    let ec: i64 = match self.end_column {
                        Some(v) => v,
                        None => 0,
                    };
                    push_str_chars(&mut out, "\n");
                    push_string_chars(&mut out, sl);
                    push_str_chars(&mut out, "\n");
                    push_range_count(&mut out, ' ', 0, sc);
                    push_range_count(&mut out, '^', sc, ec);
                    match &self.stack {
                        Some(st) => {
                            push_str_chars(&mut out, "\n");
                            push_string_chars(&mut out, st);
                        },
                        None => {},
                    }
                } else {
                }
            },
            None => {},
        }
        proof {
            assert(out@ =~= spec_debug_chars(*self));
        }
        chars_to_string(&out)
    }
}

/// `n` copies of one character; none for a negative count.
pub open spec fn repeat_char(c: char, n: int) -> Seq<char> {
    Seq::new(
        (if n >= 0 {
            n
        } else {
            0
        }) as nat,
        |i: int| c,
    )
}

/// The characters of [`JsError::debug_string`].
pub open spec fn spec_debug_chars(e: JsError) -> Seq<char> {
    let head = "Uncaught "@ + e.message@;
    match e.source_line {
        Some(sl) => {
            if sl@.len() > 0 {
                let sc = match e.start_column {
                    Some(v) => v as int,
                    None => 0,
                };
                let ec = match e.end_column {
                    Some(v) => v as int,
                    None => 0,
                };
                let marked = head + "\n"@ + sl@ + "\n"@ + repeat_char(' ', sc) + repeat_char(
                    '^',
                    ec - sc,
                );
                match e.stack {
                    Some(st) => marked + "\n"@ + st@,
                    None => marked,
                }
            } else {
                head
            }
        },
        None => head,
    }
}

/// Append one copy of `c` for every step from `from` up to `to`, the
/// way a range loop walks it: none when the range is empty.
fn push_range_count(out: &mut Vec<char>, c: char, from: i64, to: i64)
    ensures
        final(out)@ == old(out)@ + repeat_char(c, to - from),
{
    if to <= from {
        proof {
            assert(out@ =~= old(out)@ + repeat_char(c, to - from));
        }
        return ;
    }
    let mut i: i64 = from;
    while i < to
        invariant
            from <= i <= to,
            out@ =~= old(out)@ + repeat_char(c, i - from),
        decreases to - i,
    {
        out.push(c);
        proof {
            assert(out@ =~= old(out)@ + repeat_char(c, i + 1 - from));
        }
        i += 1;
    }
}

/// The characters of [`JsError::display_string`].
pub open spec fn spec_display_chars(e: JsError) -> Seq<char> {
    "Uncaught "@ + e.message@ + " ("@ + e.resource_name@ + ":"@ + spec_i64_chars(
        match e.line_number {
            Some(v) => v as int,
            None => 0,
        },
    ) + ":"@ + spec_i64_chars(
        match e.start_column {
            Some(v) => v as int,
            None => 0,
        },
    ) + ")"@
}

/// Append the characters of a string slice.
fn push_str_chars(out: &mut Vec<char>, s: &str)
    ensures
        final(out)@ == old(out)@ + s@,
{
    let n = s.unicode_len();
    let mut i: usize = 0;
    while i < n
        invariant
            n == s@.len(),
            i <= n,
            out@ =~= old(out)@ + s@.take(i as int),
        decreases n - i,
    {
        out.push(s.get_char(i));
        proof {
            assert(out@ =~= old(out)@ + s@.take(i + 1));
        }
        i += 1;
    }
    proof {
        assert(out@ =~= old(out)@ + s@);
    }
}

/// Append the characters of an owned string.
fn push_string_chars(out: &mut Vec<char>, s: &String)
    ensures
        final(out)@ == old(out)@ + s@,
{
    push_str_chars(out, s.as_str())
}

/// The characters, as one string.
fn chars_to_string(v: &Vec<char>) -> (r: String)
    ensures
        r@ == v@,
{
    let n = v.len();
    let mut r = String::new();
    let mut i: usize = 0;
    while i < n
        invariant
            n == v@.len(),
            i <= n,
            r@ =~= v@.take(i as int),
        decreases n - i,
    {
        push_char(&mut r, v[i]);
        proof {
            assert(r@ =~= v@.take(i + 1));
        }
        i += 1;
    }
    proof {
        assert(r@ =~= v@);
    }
    r
}

} // verus!

//! The errors of the passes: a kind, and a message that names the construct
//! at fault.
use crate::text::{chars_of, push_char, string_of};
use vstd::prelude::*;
use vstd::string::*;

verus! {

/// The pass in which a compilation failed.
#[derive(Debug, Clone, Copy, PartialEq, Eq, Structural)]
pub enum ErrorKind {
    Parsing,
    DefinitionCheck,
    TypeCheck,
    MathProcessing,
}

/// An error of one of the passes after markup parsing.
#[derive(Debug, PartialEq, Eq)]
pub struct SimpleError {
    pub kind: ErrorKind,
    pub message: String,
}

/// The mathematical value of a [`SimpleError`].
pub struct SimpleErrorView {
    pub kind: ErrorKind,
    pub message: Seq<char>,
}

impl View for SimpleError {
    type V = SimpleErrorView;

    open spec fn view(&self) -> SimpleErrorView {
        SimpleErrorView { kind: self.kind, message: self.message@ }
    }
}

/// The error of kind `kind` whose message is `prefix`, `name` and `suffix`
/// in a row.
pub open spec fn error_about(
    kind: ErrorKind,
    prefix: Seq<char>,
    name: Seq<char>,
    suffix: Seq<char>,
) -> SimpleErrorView {
    SimpleErrorView { kind, message: prefix + name + suffix }
}

/// The error of kind `kind` with the fixed message `text`.
pub open spec fn error_saying(kind: ErrorKind, text: Seq<char>) -> SimpleErrorView {
    SimpleErrorView { kind, message: text }
}

impl SimpleError {
    /// An error of kind `kind` with the message `message`.
    pub fn new(kind: ErrorKind, message: String) -> (e: Self)
        ensures
            e@ == (SimpleErrorView { kind, message: message@ }),
    {
        SimpleError { kind, message }
    }

    /// An error with a fixed message.
    pub fn saying(kind: ErrorKind, text: &str) -> (e: Self)
        ensures
            e@ == error_saying(kind, text@),
    {
        SimpleError { kind, message: text.to_owned() }
    }

    /// An error whose message quotes `name` between `prefix` and `suffix`.
    pub fn about(kind: ErrorKind, prefix: &str, name: &String, suffix: &str) -> (e: Self)
        ensures
            e@ == error_about(kind, prefix@, name@, suffix@),
    {
        let mut message: String = prefix.to_owned();
        message.append(name.as_str());
        message.append(suffix);
        SimpleError { kind, message }
    }

    /// The heading under which errors of `kind` are reported.
    pub fn get_error_kind(kind: ErrorKind) -> (r: String)
        ensures
            r@ == kind_label(kind),
    {
        match kind {
            ErrorKind::Parsing => "Parsing error".to_owned(),
            ErrorKind::DefinitionCheck => "Definition check error".to_owned(),
            ErrorKind::TypeCheck => "Type check error".to_owned(),
            ErrorKind::MathProcessing => "Math processing error".to_owned(),
        }
    }

    /// The report of this error: the heading of its kind, a colon and the
    /// message.
    pub fn describe(&self) -> (r: String)
        ensures
            r@ == kind_label(self.kind) + ": "@ + self.message@,
    {
        let mut r: String = Self::get_error_kind(self.kind);
        r.append(": ");
        r.append(self.message.as_str());
        r
    }
}

/// The heading under which errors of `kind` are reported.
pub open spec fn kind_label(kind: ErrorKind) -> Seq<char> {
    match kind {
        ErrorKind::Parsing => "Parsing error"@,
        ErrorKind::DefinitionCheck => "Definition check error"@,
        ErrorKind::TypeCheck => "Type check error"@,
        ErrorKind::MathProcessing => "Math processing error"@,
    }
}

/// An error of the markup parser: what was wrong, and the index of the
/// character at which it was found (the length of the text at its end).
#[derive(Debug, PartialEq, Eq)]
pub struct ParserError {
    pub message: String,
    pub pos: usize,
}

/// The mathematical value of a [`ParserError`].
pub struct ParserErrorView {
    pub message: Seq<char>,
    pub pos: int,
}

impl View for ParserError {
    type V = ParserErrorView;

    open spec fn view(&self) -> ParserErrorView {
        ParserErrorView { message: self.message@, pos: self.pos as int }
    }
}

/// The parser's error with the message `text` at index `pos`.
pub open spec fn parse_failure(text: Seq<char>, pos: int) -> ParserErrorView {
    ParserErrorView { message: text, pos }
}

impl ParserError {
    /// The error with the message `text` at index `pos`.
    pub fn new(text: &str, pos: usize) -> (e: Self)
        ensures
            e@ == parse_failure(text@, pos as int),
    {
        ParserError { message: text.to_owned(), pos }
    }

    /// This error as one of kind [`ErrorKind::Parsing`], with the same message.
    pub fn to_simple(&self) -> (e: SimpleError)
        ensures
            e@ == error_saying(ErrorKind::Parsing, self.message@),
    {
        SimpleError { kind: ErrorKind::Parsing, message: self.message.clone() }
    }
}

/// How many line breaks `s` holds before index `pos`.
pub open spec fn breaks_before(s: Seq<char>, pos: int) -> int
    decreases pos,
{
    if pos <= 0 || pos > s.len() {
        0
    } else if s[pos - 1] == '\n' {
        breaks_before(s, pos - 1) + 1
    } else {
        breaks_before(s, pos - 1)
    }
}

/// The index at which the line of index `pos` starts: behind the last line
/// break before `pos`, or at the start of `s`.
pub open spec fn line_start(s: Seq<char>, pos: int) -> int
    decreases pos,
{
    if pos <= 0 || pos > s.len() {
        0
    } else if s[pos - 1] == '\n' {
        pos
    } else {
        line_start(s, pos - 1)
    }
}

impl ParserError {
    /// Where in `text` this error was found: the number of the line and the
    /// number of the character in that line, both counted from 0. An error
    /// behind the end of `text` is placed at its end.
    pub fn position(&self, text: &str) -> (r: (usize, usize))
        ensures
            self.pos <= text@.len() ==> r.0 == breaks_before(text@, self.pos as int) && r.1
                == self.pos - line_start(text@, self.pos as int),
            self.pos > text@.len() ==> r.0 == breaks_before(text@, text@.len() as int) && r.1
                == text@.len() - line_start(text@, text@.len() as int),
    {
        let chars: Vec<char> = chars_of(text);
        let end: usize = if self.pos <= chars.len() {
            self.pos
        } else {
            chars.len()
        };
        let mut line: usize = 0;
        let mut start: usize = 0;
        let mut i: usize = 0;
        while i < end
            invariant
                i <= end <= chars@.len(),
                chars@ == text@,
                line <= i,
                start <= i,
                line == breaks_before(chars@, i as int),
                start == line_start(chars@, i as int),
            decreases end - i,
        {
            if chars[i] == '\n' {
                line = line + 1;
                start = i + 1;
            }
            i = i + 1;
        }
        (line, end - start)
    }
}

/// The index at which the line of index `pos` ends: that of the first line
/// break from `pos` on, or the length of `s`.
pub open spec fn line_end(s: Seq<char>, pos: int) -> int
    decreases s.len() - pos,
{
    if pos < 0 || pos >= s.len() {
        s.len() as int
    } else if s[pos] == '\n' {
        pos
    } else {
        line_end(s, pos + 1)
    }
}

/// `n` spaces.
pub open spec fn spaces(n: nat) -> Seq<char> {
    Seq::new(n, |i: int| ' ')
}

/// The two lines that point at column `column` from the right: a mark above
/// the column, and under it `shown`, which takes `width` columns, ending
/// two columns before the mark.
pub open spec fn pointer_left(shown: Seq<char>, width: int, column: int) -> Seq<char> {
    spaces(column as nat) + seq!['┬', '\n'] + spaces((column - (width + 2)) as nat) + shown
        + seq![' ', '─', '┘']
}

/// The two lines that point at column `column` from the left: a mark above
/// the column, and under it a corner and `shown`.
pub open spec fn pointer_right(shown: Seq<char>, column: int) -> Seq<char> {
    spaces(column as nat) + seq!['┬', '\n'] + spaces(column as nat) + seq!['└', '─', ' '] + shown
}

/// Writes `n` spaces behind `out`.
fn push_spaces(out: &mut String, n: usize)
    ensures
        final(out)@ == old(out)@ + spaces(n as nat),
{
    let mut i: usize = 0;
    proof {
        assert(out@ =~= old(out)@ + spaces(0));
    }
    while i < n
        invariant
            i <= n,
            out@ == old(out)@ + spaces(i as nat),
        decreases n - i,
    {
        push_char(out, ' ');
        i = i + 1;
        proof {
            assert(out@ =~= old(out)@ + spaces(i as nat));
        }
    }
}

impl ParserError {
    /// The line of `text` in which this error was found, without its line
    /// break.
    pub fn line_text(&self, text: &str) -> (r: String)
        ensures
            self.pos <= text@.len() ==> r@ == text@.subrange(
                line_start(text@, self.pos as int),
                line_end(text@, self.pos as int),
            ),
            self.pos > text@.len() ==> r@ == text@.subrange(
                line_start(text@, text@.len() as int),
                text@.len() as int,
            ),
    {
        let chars: Vec<char> = chars_of(text);
        let at: usize = if self.pos <= chars.len() {
            self.pos
        } else {
            chars.len()
        };
        let mut start: usize = 0;
        let mut i: usize = 0;
        while i < at
            invariant
                i <= at <= chars@.len(),
                start <= i,
                start == line_start(chars@, i as int),
            decreases at - i,
        {
            if chars[i] == '\n' {
                start = i + 1;
            }
            i = i + 1;
        }
        let mut end: usize = at;
        while end < chars.len() && chars[end] != '\n'
            invariant
                at <= end <= chars@.len(),
                line_end(chars@, end as int) == line_end(chars@, at as int),
            decreases chars@.len() - end,
        {
            end = end + 1;
        }
        string_of(&chars, start, end)
    }

    /// The two lines that point at column `char_pos` from the right, with
    /// the message `msg`, which takes `width` columns when it is shown.
    pub fn compile_left(msg: &str, width: usize, char_pos: usize) -> (r: String)
        requires
            char_pos >= width + 2,
        ensures
            r@ == pointer_left(msg@, width as int, char_pos as int),
    {
        let mut r: String = String::new();
        push_spaces(&mut r, char_pos);
        push_char(&mut r, '┬');
        push_char(&mut r, '\n');
        push_spaces(&mut r, char_pos - (width + 2));
        r.append(msg);
        push_char(&mut r, ' ');
        push_char(&mut r, '─');
        push_char(&mut r, '┘');
        proof {
            assert(r@ =~= pointer_left(msg@, width as int, char_pos as int));
        }
        r
    }

    /// The two lines that point at column `char_pos` from the left, with the
    /// message `msg`.
    pub fn compile_right(msg: &str, char_pos: usize) -> (r: String)
        ensures
            r@ == pointer_right(msg@, char_pos as int),
    {
        let mut r: String = String::new();
        push_spaces(&mut r, char_pos);
        push_char(&mut r, '┬');
        push_char(&mut r, '\n');
        push_spaces(&mut r, char_pos);
        push_char(&mut r, '└');
        push_char(&mut r, '─');
        push_char(&mut r, ' ');
        r.append(msg);
        proof {
            assert(r@ =~= pointer_right(msg@, char_pos as int));
        }
        r
    }

    /// The lines that point at column `char_pos` with the message `msg`,
    /// which takes `width` columns: from the right where the message fits
    /// before the column, from the left where it does not.
    pub fn compile_pointer(msg: &str, width: usize, char_pos: usize) -> (r: String)
        ensures
            r@ == (if char_pos - 2 >= width {
                pointer_left(msg@, width as int, char_pos as int)
            } else {
                pointer_right(msg@, char_pos as int)
            }),
    {
        if char_pos >= 2 && char_pos - 2 >= width {
            Self::compile_left(msg, width, char_pos)
        } else {
            Self::compile_right(msg, char_pos)
        }
    }
}

} // verus!

//! Expressions: their grammar, their types and their constant folding.
//!
//! From the loosest binding to the tightest: sums and differences, products
//! and quotients, powers, and the primaries (a number, a name, a string in
//! double quotes). Operators of one level associate to the left. There are
//! no parentheses.
pub mod analysis;
pub mod errors;
pub mod types;

use crate::code_tree::types::DataType;
use crate::errors::{error_about, error_saying, ErrorKind, SimpleError, SimpleErrorView};
use crate::iter::Iter;
use crate::text::{
    char_is_digit, char_is_letter, char_is_whitespace, chars_of, is_digit, is_letter,
    is_whitespace, push_char, string_of,
};
use types::{ExprToken, ExprView, VariableType, VariableTypeView};
use vstd::prelude::*;
use vstd::string::*;

verus! {

/// What the expression parser makes of a text from some index on: a value
/// and the index behind it, or an error.
pub type Scanned<T> = Result<(T, int), SimpleErrorView>;

/// The first index from `pos` on that holds no digit.
pub open spec fn digits_end(s: Seq<char>, pos: int) -> int
    decreases s.len() - pos,
{
    if 0 <= pos < s.len() && is_digit(s[pos]) {
        digits_end(s, pos + 1)
    } else {
        pos
    }
}

/// The first index from `pos` on that holds neither a letter nor a digit.
pub open spec fn name_end(s: Seq<char>, pos: int) -> int
    decreases s.len() - pos,
{
    if 0 <= pos < s.len() && (is_letter(s[pos]) || is_digit(s[pos])) {
        name_end(s, pos + 1)
    } else {
        pos
    }
}

/// The first index from `pos` on that holds a double quote; the length of
/// `s` where there is none.
pub open spec fn quote_index(s: Seq<char>, pos: int) -> int
    decreases s.len() - pos,
{
    if 0 <= pos < s.len() && s[pos] != '"' {
        quote_index(s, pos + 1)
    } else {
        pos
    }
}

/// The number that the digit `c` stands for.
pub open spec fn digit_value(c: char) -> int {
    c as int - 48
}

/// The number that the digits `d` write in base ten.
pub open spec fn decimal_value(d: Seq<char>) -> int
    decreases d.len(),
{
    if d.len() == 0 {
        0
    } else {
        decimal_value(d.drop_last()) * 10 + digit_value(d.last())
    }
}

/// The number whose digits start at index `pos`: it has to fit into 32 bits
/// with a sign.
pub open spec fn number_at(s: Seq<char>, pos: int) -> Scanned<ExprView> {
    let end = digits_end(s, pos);
    let digits = s.subrange(pos, end);
    if decimal_value(digits) <= i32::MAX {
        Ok((ExprView::Number(decimal_value(digits) as i32), end))
    } else {
        Err(error_about(ErrorKind::MathProcessing, "Invalid number "@, digits, ""@))
    }
}

/// The name that starts at index `pos`: a reference whose type is not yet
/// known.
pub open spec fn identifier_at(s: Seq<char>, pos: int) -> Scanned<ExprView> {
    let end = name_end(s, pos);
    Ok(
        (
            ExprView::Variable(
                VariableTypeView {
                    name: s.subrange(pos, end),
                    data_type: DataType::Any,
                    is_func: false,
                },
            ),
            end,
        ),
    )
}

/// The string whose text starts at index `pos`, behind its opening quote:
/// it runs up to the next double quote, which has to be there.
pub open spec fn literal_at(s: Seq<char>, pos: int) -> Scanned<ExprView> {
    let end = quote_index(s, pos);
    if end < s.len() {
        Ok((ExprView::Literal(s.subrange(pos, end)), end + 1))
    } else {
        Err(
            error_about(
                ErrorKind::MathProcessing,
                "Unclosed `\"` for literal `"@,
                s.subrange(pos, end),
                "...`"@,
            ),
        )
    }
}

/// The primary that starts at index `pos`, behind any white space.
pub open spec fn primary_at(s: Seq<char>, pos: int) -> Scanned<ExprView>
    decreases s.len() - pos,
{
    if pos < 0 || pos >= s.len() {
        Err(error_saying(ErrorKind::MathProcessing, "Unexpected EOI"@))
    } else {
        let c = s[pos];
        if c == '"' {
            literal_at(s, pos + 1)
        } else if is_whitespace(c) {
            primary_at(s, pos + 1)
        } else if is_digit(c) {
            number_at(s, pos)
        } else if is_letter(c) {
            identifier_at(s, pos)
        } else {
            Err(error_about(ErrorKind::MathProcessing, "Unexpected char: "@, seq![c], ""@))
        }
    }
}

/// What follows a power's first operand `left` at index `pos`: any number of
/// `^` with a primary each.
pub open spec fn exponent_rest(s: Seq<char>, pos: int, left: ExprView) -> Scanned<ExprView>
    decreases s.len() - pos,
{
    if pos < 0 || pos >= s.len() {
        Ok((left, pos))
    } else if s[pos] == '^' {
        match primary_at(s, pos + 1) {
            Ok((right, p)) => if pos < p <= s.len() {
                exponent_rest(s, p, ExprView::Pow(Box::new(left), Box::new(right)))
            } else {
                Ok((left, pos))
            },
            Err(e) => Err(e),
        }
    } else if is_whitespace(s[pos]) {
        exponent_rest(s, pos + 1, left)
    } else {
        Ok((left, pos))
    }
}

/// The power that starts at index `pos`.
pub open spec fn exponent_at(s: Seq<char>, pos: int) -> Scanned<ExprView> {
    match primary_at(s, pos) {
        Ok((left, p)) => exponent_rest(s, p, left),
        Err(e) => Err(e),
    }
}

/// What follows a product's first operand `left` at index `pos`: any number
/// of `*` or `/` with a power each.
pub open spec fn term_rest(s: Seq<char>, pos: int, left: ExprView) -> Scanned<ExprView>
    decreases s.len() - pos,
{
    if pos < 0 || pos >= s.len() {
        Ok((left, pos))
    } else if s[pos] == '*' || s[pos] == '/' {
        match exponent_at(s, pos + 1) {
            Ok((right, p)) => if pos < p <= s.len() {
                term_rest(
                    s,
                    p,
                    if s[pos] == '*' {
                        ExprView::Mul(Box::new(left), Box::new(right))
                    } else {
                        ExprView::Div(Box::new(left), Box::new(right))
                    },
                )
            } else {
                Ok((left, pos))
            },
            Err(e) => Err(e),
        }
    } else if is_whitespace(s[pos]) {
        term_rest(s, pos + 1, left)
    } else {
        Ok((left, pos))
    }
}

/// The product that starts at index `pos`.
pub open spec fn term_at(s: Seq<char>, pos: int) -> Scanned<ExprView> {
    match exponent_at(s, pos) {
        Ok((left, p)) => term_rest(s, p, left),
        Err(e) => Err(e),
    }
}

/// What follows a sum's first operand `left` at index `pos`: any number of
/// `+` or `-` with a product each.
pub open spec fn expr_rest(s: Seq<char>, pos: int, left: ExprView) -> Scanned<ExprView>
    decreases s.len() - pos,
{
    if pos < 0 || pos >= s.len() {
        Ok((left, pos))
    } else if s[pos] == '+' || s[pos] == '-' {
        match term_at(s, pos + 1) {
            Ok((right, p)) => if pos < p <= s.len() {
                expr_rest(
                    s,
                    p,
                    if s[pos] == '+' {
                        ExprView::Add(Box::new(left), Box::new(right))
                    } else {
                        ExprView::Sub(Box::new(left), Box::new(right))
                    },
                )
            } else {
                Ok((left, pos))
            },
            Err(e) => Err(e),
        }
    } else if is_whitespace(s[pos]) {
        expr_rest(s, pos + 1, left)
    } else {
        Ok((left, pos))
    }
}

/// The expression that starts at index `pos`.
pub open spec fn expr_at(s: Seq<char>, pos: int) -> Scanned<ExprView> {
    match term_at(s, pos) {
        Ok((left, p)) => expr_rest(s, p, left),
        Err(e) => Err(e),
    }
}

/// The expression that the text `s` holds. It ends before the first
/// character that cannot continue it; what follows is not read.
pub open spec fn parse_expression_spec(s: Seq<char>) -> Result<ExprView, SimpleErrorView> {
    match expr_at(s, 0) {
        Ok((e, _)) => Ok(e),
        Err(e) => Err(e),
    }
}

/// Whether the outcome `r`, with the cursor left at index `end`, is what
/// `expected` says: the same value behind the same index, or the same error.
pub open spec fn scanned_agrees(
    r: Result<ExprToken, SimpleError>,
    end: int,
    expected: Scanned<ExprView>,
) -> bool {
    match (r, expected) {
        (Ok(v), Ok((w, p))) => v@ == w && end == p,
        (Err(e), Err(f)) => e@ == f,
        _ => false,
    }
}

/// A run of digits or of letters and digits, and the text up to a quote,
/// end within the text, at or behind their start.
pub proof fn lemma_run_bounds(s: Seq<char>, pos: int)
    requires
        0 <= pos <= s.len(),
    ensures
        pos <= digits_end(s, pos) <= s.len(),
        pos <= name_end(s, pos) <= s.len(),
        pos <= quote_index(s, pos) <= s.len(),
        pos < s.len() && is_digit(s[pos]) ==> pos < digits_end(s, pos),
        pos < s.len() && is_letter(s[pos]) ==> pos < name_end(s, pos),
    decreases s.len() - pos,
{
    if pos < s.len() {
        lemma_run_bounds(s, pos + 1);
    }
}

/// A primary that is read ends within the text, behind its start.
pub proof fn lemma_primary_bounds(s: Seq<char>, pos: int)
    requires
        0 <= pos,
    ensures
        primary_at(s, pos) is Ok ==> pos < primary_at(s, pos)->Ok_0.1 <= s.len(),
    decreases s.len() - pos,
{
    if pos < s.len() {
        lemma_run_bounds(s, pos);
        lemma_run_bounds(s, pos + 1);
        if s[pos] != '"' && is_whitespace(s[pos]) {
            lemma_primary_bounds(s, pos + 1);
        }
    }
}

/// What follows a first operand ends within the text, at or behind its
/// start; so the index tests in [`exponent_rest`] never fail.
pub proof fn lemma_exponent_rest_bounds(s: Seq<char>, pos: int, left: ExprView)
    requires
        0 <= pos <= s.len(),
    ensures
        exponent_rest(s, pos, left) is Ok ==> pos <= exponent_rest(s, pos, left)->Ok_0.1
            <= s.len(),
        pos < s.len() && s[pos] == '^' && primary_at(s, pos + 1) is Ok ==> pos < primary_at(
            s,
            pos + 1,
        )->Ok_0.1 <= s.len(),
    decreases s.len() - pos,
{
    if pos < s.len() {
        if s[pos] == '^' {
            lemma_primary_bounds(s, pos + 1);
            match primary_at(s, pos + 1) {
                Ok((right, p)) => {
                    lemma_exponent_rest_bounds(
                        s,
                        p,
                        ExprView::Pow(Box::new(left), Box::new(right)),
                    );
                },
                Err(_) => {},
            }
        } else if is_whitespace(s[pos]) {
            lemma_exponent_rest_bounds(s, pos + 1, left);
        }
    }
}

/// A power that is read ends within the text, behind its start.
pub proof fn lemma_exponent_bounds(s: Seq<char>, pos: int)
    requires
        0 <= pos,
    ensures
        exponent_at(s, pos) is Ok ==> pos < exponent_at(s, pos)->Ok_0.1 <= s.len(),
{
    lemma_primary_bounds(s, pos);
    match primary_at(s, pos) {
        Ok((left, p)) => {
            lemma_exponent_rest_bounds(s, p, left);
        },
        Err(_) => {},
    }
}

/// What follows a first factor ends within the text, at or behind its
/// start; so the index tests in [`term_rest`] never fail.
pub proof fn lemma_term_rest_bounds(s: Seq<char>, pos: int, left: ExprView)
    requires
        0 <= pos <= s.len(),
    ensures
        term_rest(s, pos, left) is Ok ==> pos <= term_rest(s, pos, left)->Ok_0.1 <= s.len(),
        pos < s.len() && (s[pos] == '*' || s[pos] == '/') && exponent_at(s, pos + 1) is Ok ==> pos
            < exponent_at(s, pos + 1)->Ok_0.1 <= s.len(),
    decreases s.len() - pos,
{
    if pos < s.len() {
        if s[pos] == '*' || s[pos] == '/' {
            lemma_exponent_bounds(s, pos + 1);
            match exponent_at(s, pos + 1) {
                Ok((right, p)) => {
                    lemma_term_rest_bounds(
                        s,
                        p,
                        if s[pos] == '*' {
                            ExprView::Mul(Box::new(left), Box::new(right))
                        } else {
                            ExprView::Div(Box::new(left), Box::new(right))
                        },
                    );
                },
                Err(_) => {},
            }
        } else if is_whitespace(s[pos]) {
            lemma_term_rest_bounds(s, pos + 1, left);
        }
    }
}

/// A product that is read ends within the text, behind its start.
pub proof fn lemma_term_bounds(s: Seq<char>, pos: int)
    requires
        0 <= pos,
    ensures
        term_at(s, pos) is Ok ==> pos < term_at(s, pos)->Ok_0.1 <= s.len(),
{
    lemma_exponent_bounds(s, pos);
    match exponent_at(s, pos) {
        Ok((left, p)) => {
            lemma_term_rest_bounds(s, p, left);
        },
        Err(_) => {},
    }
}

/// What follows a first term ends within the text, at or behind its start;
/// so the index tests in [`expr_rest`] never fail.
pub proof fn lemma_expr_rest_bounds(s: Seq<char>, pos: int, left: ExprView)
    requires
        0 <= pos <= s.len(),
    ensures
        expr_rest(s, pos, left) is Ok ==> pos <= expr_rest(s, pos, left)->Ok_0.1 <= s.len(),
        pos < s.len() && (s[pos] == '+' || s[pos] == '-') && term_at(s, pos + 1) is Ok ==> pos
            < term_at(s, pos + 1)->Ok_0.1 <= s.len(),
    decreases s.len() - pos,
{
    if pos < s.len() {
        if s[pos] == '+' || s[pos] == '-' {
            lemma_term_bounds(s, pos + 1);
            match term_at(s, pos + 1) {
                Ok((right, p)) => {
                    lemma_expr_rest_bounds(
                        s,
                        p,
                        if s[pos] == '+' {
                            ExprView::Add(Box::new(left), Box::new(right))
                        } else {
                            ExprView::Sub(Box::new(left), Box::new(right))
                        },
                    );
                },
                Err(_) => {},
            }
        } else if is_whitespace(s[pos]) {
            lemma_expr_rest_bounds(s, pos + 1, left);
        }
    }
}

/// An expression that is read ends within the text, behind its start.
pub proof fn lemma_expr_bounds(s: Seq<char>, pos: int)
    requires
        0 <= pos,
    ensures
        expr_at(s, pos) is Ok ==> pos < expr_at(s, pos)->Ok_0.1 <= s.len(),
{
    lemma_term_bounds(s, pos);
    match term_at(s, pos) {
        Ok((left, p)) => {
            lemma_expr_rest_bounds(s, p, left);
        },
        Err(_) => {},
    }
}

/// A parser over the text of one expression.
pub struct MathParser {
    pub iter: Iter<char>,
}

impl MathParser {
    /// A parser at the start of `text`.
    pub fn new(text: &str) -> (p: Self)
        ensures
            p.iter.vec@ == text@,
            p.iter.pos == 0,
            p.iter.wf(),
    {
        MathParser { iter: Iter::from(chars_of(text)) }
    }

    /// Reads a primary.
    fn parse_primary(&mut self) -> (r: Result<ExprToken, SimpleError>)
        requires
            old(self).iter.wf(),
        ensures
            final(self).iter.wf(),
            final(self).iter.vec@ == old(self).iter.vec@,
            scanned_agrees(
                r,
                final(self).iter.pos as int,
                primary_at(old(self).iter.vec@, old(self).iter.pos as int),
            ),
            r is Ok ==> old(self).iter.pos < final(self).iter.pos,
    {
        let ghost s = self.iter.vec@;
        let ghost start = self.iter.pos as int;
        loop
            invariant
                self.iter.wf(),
                self.iter.vec@ == s,
                s == old(self).iter.vec@,
                start == old(self).iter.pos,
                start <= self.iter.pos,
                primary_at(s, self.iter.pos as int) == primary_at(s, start),
            decreases s.len() - self.iter.pos,
        {
            match self.iter.peek() {
                None => {
                    return Err(SimpleError::saying(ErrorKind::MathProcessing, "Unexpected EOI"));
                },
                Some(c) => {
                    if c == '"' {
                        return self.process_literal();
                    } else if char_is_whitespace(c) {
                        let _ = self.iter.next();
                    } else if char_is_digit(c) {
                        return self.process_number();
                    } else if char_is_letter(c) {
                        return self.process_var();
                    } else {
                        let mut shown: String = String::new();
                        push_char(&mut shown, c);
                        assert(shown@ =~= seq![c]);
                        return Err(
                            SimpleError::about(
                                ErrorKind::MathProcessing,
                                "Unexpected char: ",
                                &shown,
                                "",
                            ),
                        );
                    }
                },
            }
        }
    }

    /// Reads a sum: the whole of an expression.
    ///
    /// On success the cursor stands behind the expression, at the first
    /// character that cannot continue it.
    pub fn parse_expr(&mut self) -> (r: Result<ExprToken, SimpleError>)
        requires
            old(self).iter.wf(),
        ensures
            final(self).iter.wf(),
            final(self).iter.vec@ == old(self).iter.vec@,
            scanned_agrees(
                r,
                final(self).iter.pos as int,
                expr_at(old(self).iter.vec@, old(self).iter.pos as int),
            ),
            r is Ok ==> old(self).iter.pos < final(self).iter.pos,
    {
        let ghost s = self.iter.vec@;
        let ghost start = self.iter.pos as int;
        let mut node: ExprToken = match self.parse_term() {
            Ok(node) => node,
            Err(e) => {
                return Err(e);
            },
        };
        loop
            invariant
                self.iter.wf(),
                self.iter.vec@ == s,
                s == old(self).iter.vec@,
                start == old(self).iter.pos,
                start < self.iter.pos,
                expr_rest(s, self.iter.pos as int, node@) == expr_at(s, start),
            decreases s.len() - self.iter.pos,
        {
            match self.iter.peek() {
                None => {
                    return Ok(node);
                },
                Some(c) => {
                    if c == '+' || c == '-' {
                        let _ = self.iter.next();
                        let right: ExprToken = match self.parse_term() {
                            Ok(right) => right,
                            Err(e) => {
                                return Err(e);
                            },
                        };
                        if c == '+' {
                            node = ExprToken::Add(Box::new(node), Box::new(right));
                        } else {
                            node = ExprToken::Sub(Box::new(node), Box::new(right));
                        }
                    } else if char_is_whitespace(c) {
                        let _ = self.iter.next();
                    } else {
                        return Ok(node);
                    }
                },
            }
        }
    }

    /// Reads a product.
    fn parse_term(&mut self) -> (r: Result<ExprToken, SimpleError>)
        requires
            old(self).iter.wf(),
        ensures
            final(self).iter.wf(),
            final(self).iter.vec@ == old(self).iter.vec@,
            scanned_agrees(
                r,
                final(self).iter.pos as int,
                term_at(old(self).iter.vec@, old(self).iter.pos as int),
            ),
            r is Ok ==> old(self).iter.pos < final(self).iter.pos,
    {
        let ghost s = self.iter.vec@;
        let ghost start = self.iter.pos as int;
        let mut node: ExprToken = match self.parse_exponent() {
            Ok(node) => node,
            Err(e) => {
                return Err(e);
            },
        };
        loop
            invariant
                self.iter.wf(),
                self.iter.vec@ == s,
                s == old(self).iter.vec@,
                start == old(self).iter.pos,
                start < self.iter.pos,
                term_rest(s, self.iter.pos as int, node@) == term_at(s, start),
            decreases s.len() - self.iter.pos,
        {
            match self.iter.peek() {
                None => {
                    return Ok(node);
                },
                Some(c) => {
                    if c == '*' || c == '/' {
                        let _ = self.iter.next();
                        let right: ExprToken = match self.parse_exponent() {
                            Ok(right) => right,
                            Err(e) => {
                                return Err(e);
                            },
                        };
                        if c == '*' {
                            node = ExprToken::Mul(Box::new(node), Box::new(right));
                        } else {
                            node = ExprToken::Div(Box::new(node), Box::new(right));
                        }
                    } else if char_is_whitespace(c) {
                        let _ = self.iter.next();
                    } else {
                        return Ok(node);
                    }
                },
            }
        }
    }

    /// Reads a power.
    fn parse_exponent(&mut self) -> (r: Result<ExprToken, SimpleError>)
        requires
            old(self).iter.wf(),
        ensures
            final(self).iter.wf(),
            final(self).iter.vec@ == old(self).iter.vec@,
            scanned_agrees(
                r,
                final(self).iter.pos as int,
                exponent_at(old(self).iter.vec@, old(self).iter.pos as int),
            ),
            r is Ok ==> old(self).iter.pos < final(self).iter.pos,
    {
        let ghost s = self.iter.vec@;
        let ghost start = self.iter.pos as int;
        let mut node: ExprToken = match self.parse_primary() {
            Ok(node) => node,
            Err(e) => {
                return Err(e);
            },
        };
        loop
            invariant
                self.iter.wf(),
                self.iter.vec@ == s,
                s == old(self).iter.vec@,
                start == old(self).iter.pos,
                start < self.iter.pos,
                exponent_rest(s, self.iter.pos as int, node@) == exponent_at(s, start),
            decreases s.len() - self.iter.pos,
        {
            match self.iter.peek() {
                None => {
                    return Ok(node);
                },
                Some(c) => {
                    if c == '^' {
                        let _ = self.iter.next();
                        let right: ExprToken = match self.parse_primary() {
                            Ok(right) => right,
                            Err(e) => {
                                return Err(e);
                            },
                        };
                        node = ExprToken::Pow(Box::new(node), Box::new(right));
                    } else if char_is_whitespace(c) {
                        let _ = self.iter.next();
                    } else {
                        return Ok(node);
                    }
                },
            }
        }
    }

    /// Reads a number. The cursor stands on its first digit.
    fn process_number(&mut self) -> (r: Result<ExprToken, SimpleError>)
        requires
            old(self).iter.wf(),
            old(self).iter.pos < old(self).iter.vec@.len(),
            is_digit(old(self).iter.vec@[old(self).iter.pos as int]),
        ensures
            final(self).iter.wf(),
            final(self).iter.vec@ == old(self).iter.vec@,
            scanned_agrees(
                r,
                final(self).iter.pos as int,
                number_at(old(self).iter.vec@, old(self).iter.pos as int),
            ),
            r is Ok ==> old(self).iter.pos < final(self).iter.pos,
    {
        let ghost s = self.iter.vec@;
        let first: usize = self.iter.pos;
        let mut value: i32 = 0;
        let mut fits: bool = true;
        proof {
            assert(s.subrange(first as int, first as int) =~= Seq::<char>::empty());
        }
        loop
            invariant
                self.iter.wf(),
                self.iter.vec@ == s,
                s == old(self).iter.vec@,
                first == old(self).iter.pos,
                first < s.len(),
                is_digit(s[first as int]),
                first <= self.iter.pos,
                digits_end(s, self.iter.pos as int) == digits_end(s, first as int),
                fits ==> 0 <= value == decimal_value(s.subrange(first as int, self.iter.pos as int)),
                !fits ==> decimal_value(s.subrange(first as int, self.iter.pos as int)) > i32::MAX,
            decreases s.len() - self.iter.pos,
        {
            let c: char = match self.iter.peek() {
                None => {
                    return self.finish_number(first, value, fits);
                },
                Some(c) => c,
            };
            if !char_is_digit(c) {
                return self.finish_number(first, value, fits);
            }
            let ghost before = s.subrange(first as int, self.iter.pos as int);
            let _ = self.iter.next();
            proof {
                let after = s.subrange(first as int, self.iter.pos as int);
                assert(after.drop_last() =~= before);
                assert(after.last() == c);
            }
            let digit: i32 = (c as u32 - 48) as i32;
            if fits && (value < 214748364 || (value == 214748364 && digit <= 7)) {
                value = value * 10 + digit;
            } else {
                fits = false;
            }
        }
    }

    /// The number read from index `first` up to the cursor.
    fn finish_number(&self, first: usize, value: i32, fits: bool) -> (r: Result<
        ExprToken,
        SimpleError,
    >)
        requires
            self.iter.wf(),
            first <= self.iter.pos,
            fits ==> value == decimal_value(self.iter.vec@.subrange(first as int, self.iter.pos as int)),
            !fits ==> decimal_value(self.iter.vec@.subrange(first as int, self.iter.pos as int))
                > i32::MAX,
        ensures
            match r {
                Ok(e) => fits && e@ == ExprView::Number(value),
                Err(e) => !fits && e@ == error_about(
                    ErrorKind::MathProcessing,
                    "Invalid number "@,
                    self.iter.vec@.subrange(first as int, self.iter.pos as int),
                    ""@,
                ),
            },
    {
        if fits {
            Ok(ExprToken::Number(value))
        } else {
            let digits: String = string_of(&self.iter.vec, first, self.iter.pos);
            Err(SimpleError::about(ErrorKind::MathProcessing, "Invalid number ", &digits, ""))
        }
    }

    /// Reads a name. The cursor stands on its first letter.
    fn process_var(&mut self) -> (r: Result<ExprToken, SimpleError>)
        requires
            old(self).iter.wf(),
            old(self).iter.pos < old(self).iter.vec@.len(),
            is_letter(old(self).iter.vec@[old(self).iter.pos as int]),
        ensures
            final(self).iter.wf(),
            final(self).iter.vec@ == old(self).iter.vec@,
            scanned_agrees(
                r,
                final(self).iter.pos as int,
                identifier_at(old(self).iter.vec@, old(self).iter.pos as int),
            ),
            r is Ok ==> old(self).iter.pos < final(self).iter.pos,
    {
        let ghost s = self.iter.vec@;
        let first: usize = self.iter.pos;
        loop
            invariant
                self.iter.wf(),
                self.iter.vec@ == s,
                s == old(self).iter.vec@,
                first == old(self).iter.pos,
                first < s.len(),
                is_letter(s[first as int]),
                first <= self.iter.pos,
                name_end(s, self.iter.pos as int) == name_end(s, first as int),
            decreases s.len() - self.iter.pos,
        {
            let more: bool = match self.iter.peek() {
                None => false,
                Some(c) => char_is_letter(c) || char_is_digit(c),
            };
            if !more {
                let name: String = string_of(&self.iter.vec, first, self.iter.pos);
                return Ok(ExprToken::Variable(VariableType::new(name, DataType::Any, false)));
            }
            let _ = self.iter.next();
        }
    }

    /// Reads a string. The cursor stands on its opening quote.
    fn process_literal(&mut self) -> (r: Result<ExprToken, SimpleError>)
        requires
            old(self).iter.wf(),
            old(self).iter.pos < old(self).iter.vec@.len(),
        ensures
            final(self).iter.wf(),
            final(self).iter.vec@ == old(self).iter.vec@,
            scanned_agrees(
                r,
                final(self).iter.pos as int,
                literal_at(old(self).iter.vec@, old(self).iter.pos + 1),
            ),
            r is Ok ==> old(self).iter.pos < final(self).iter.pos,
    {
        let ghost s = self.iter.vec@;
        let _ = self.iter.next();
        let first: usize = self.iter.pos;
        loop
            invariant
                self.iter.wf(),
                self.iter.vec@ == s,
                s == old(self).iter.vec@,
                first == old(self).iter.pos + 1,
                first <= self.iter.pos,
                quote_index(s, self.iter.pos as int) == quote_index(s, first as int),
            decreases s.len() - self.iter.pos,
        {
            match self.iter.peek() {
                None => {
                    let text: String = string_of(&self.iter.vec, first, self.iter.pos);
                    return Err(
                        SimpleError::about(
                            ErrorKind::MathProcessing,
                            "Unclosed `\"` for literal `",
                            &text,
                            "...`",
                        ),
                    );
                },
                Some(c) => {
                    if c == '"' {
                        let text: String = string_of(&self.iter.vec, first, self.iter.pos);
                        let _ = self.iter.next();
                        return Ok(ExprToken::Literal(text));
                    }
                    let _ = self.iter.next();
                },
            }
        }
    }
}

/// Parses the text of an expression: `Ok` with the expression that
/// [`parse_expression_spec`] gives, or its error.
pub fn parse_expression(text: &str) -> (r: Result<ExprToken, SimpleError>)
    ensures
        match (r, parse_expression_spec(text@)) {
            (Ok(e), Ok(v)) => e@ == v,
            (Err(e), Err(f)) => e@ == f,
            _ => false,
        },
{
    let mut parser: MathParser = MathParser::new(text);
    parser.parse_expr()
}

} // verus!

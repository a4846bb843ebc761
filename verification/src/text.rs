//! Characters and strings: the character classes of the two grammars,
//! trimming, and the conversions between strings and character vectors.
use vstd::prelude::*;
use vstd::std_specs::iter::IteratorSpec;
use vstd::string::*;

verus! {

/// White space: the code points that carry Unicode's White_Space property.
pub open spec fn is_whitespace(c: char) -> bool {
    let n = c as u32;
    (0x09 <= n <= 0x0D) || n == 0x20 || n == 0x85 || n == 0xA0 || n == 0x1680 || (0x2000 <= n
        <= 0x200A) || n == 0x2028 || n == 0x2029 || n == 0x202F || n == 0x205F || n == 0x3000
}

/// A decimal digit, `0` to `9`.
pub open spec fn is_digit(c: char) -> bool {
    '0' <= c <= '9'
}

/// A letter of the Latin alphabet, in either case.
pub open spec fn is_letter(c: char) -> bool {
    ('a' <= c <= 'z') || ('A' <= c <= 'Z')
}

/// Whether `c` is white space.
pub fn char_is_whitespace(c: char) -> (r: bool)
    ensures
        r == is_whitespace(c),
{
    let n: u32 = c as u32;
    (0x09 <= n && n <= 0x0D) || n == 0x20 || n == 0x85 || n == 0xA0 || n == 0x1680 || (0x2000 <= n
        && n <= 0x200A) || n == 0x2028 || n == 0x2029 || n == 0x202F || n == 0x205F || n == 0x3000
}

/// Whether `c` is a decimal digit.
pub fn char_is_digit(c: char) -> (r: bool)
    ensures
        r == is_digit(c),
{
    '0' <= c && c <= '9'
}

/// Whether `c` is a Latin letter.
pub fn char_is_letter(c: char) -> (r: bool)
    ensures
        r == is_letter(c),
{
    ('a' <= c && c <= 'z') || ('A' <= c && c <= 'Z')
}

/// `String::push` of the standard library: the string grows by the one
/// character `c` at its end and is otherwise unchanged.
#[verifier::external_body]
pub(crate) fn push_char(s: &mut String, c: char)
    ensures
        final(s)@ == old(s)@.push(c),
{
    s.push(c)
}

/// The characters of `s`, in order.
pub fn chars_of(s: &str) -> (v: Vec<char>)
    ensures
        v@ == s@,
{
    broadcast use vstd::string::group_string_axioms;

    let mut v: Vec<char> = Vec::new();
    let mut it = s.chars();
    loop
        invariant
            v@ + it.remaining() == s@,
            it.decrease() is Some,
        decreases it.decrease()->0,
    {
        match it.next() {
            Some(c) => {
                v.push(c);
                proof {
                    assert(v@ + it.remaining() =~= s@);
                }
            },
            None => {
                proof {
                    assert(v@ =~= s@);
                }
                return v;
            },
        }
    }
}

/// The string made of the characters `v[from..to]`.
pub fn string_of(v: &Vec<char>, from: usize, to: usize) -> (s: String)
    requires
        from <= to <= v@.len(),
    ensures
        s@ == v@.subrange(from as int, to as int),
{
    let mut s: String = String::new();
    let mut i: usize = from;
    while i < to
        invariant
            from <= i <= to <= v@.len(),
            s@ == v@.subrange(from as int, i as int),
        decreases to - i,
    {
        push_char(&mut s, v[i]);
        i = i + 1;
        assert(s@ =~= v@.subrange(from as int, i as int));
    }
    s
}

/// Whether `s` reads exactly as the text `lit`.
pub fn is_text(s: &String, lit: &str) -> (r: bool)
    ensures
        r == (s@ == lit@),
{
    let other: String = lit.to_owned();
    *s == other
}

/// How many characters at the start of `s` are white space.
pub open spec fn leading_space(s: Seq<char>) -> nat
    decreases s.len(),
{
    if s.len() > 0 && is_whitespace(s[0]) {
        1 + leading_space(s.drop_first())
    } else {
        0
    }
}

/// How many characters at the end of `s` are white space.
pub open spec fn trailing_space(s: Seq<char>) -> nat
    decreases s.len(),
{
    if s.len() > 0 && is_whitespace(s.last()) {
        1 + trailing_space(s.drop_last())
    } else {
        0
    }
}

/// `s` without the white space at its two ends.
pub open spec fn trimmed(s: Seq<char>) -> Seq<char> {
    let a = leading_space(s);
    if a == s.len() {
        Seq::empty()
    } else {
        s.subrange(a as int, s.len() - trailing_space(s))
    }
}

/// The white space at the start of `s` from index `a` on is counted one
/// character at a time.
proof fn lemma_leading_step(s: Seq<char>, a: int)
    requires
        0 <= a < s.len(),
    ensures
        is_whitespace(s[a]) ==> leading_space(s.subrange(a, s.len() as int)) == 1 + leading_space(
            s.subrange(a + 1, s.len() as int),
        ),
        !is_whitespace(s[a]) ==> leading_space(s.subrange(a, s.len() as int)) == 0,
{
    let t = s.subrange(a, s.len() as int);
    assert(t[0] == s[a]);
    assert(t.drop_first() =~= s.subrange(a + 1, s.len() as int));
}

/// The white space at the end of `s` before index `b` is counted one
/// character at a time.
proof fn lemma_trailing_step(s: Seq<char>, b: int)
    requires
        0 < b <= s.len(),
    ensures
        is_whitespace(s[b - 1]) ==> trailing_space(s.subrange(0, b)) == 1 + trailing_space(
            s.subrange(0, b - 1),
        ),
        !is_whitespace(s[b - 1]) ==> trailing_space(s.subrange(0, b)) == 0,
{
    let t = s.subrange(0, b);
    assert(t.last() == s[b - 1]);
    assert(t.drop_last() =~= s.subrange(0, b - 1));
}

/// `s` without the white space at its two ends.
pub fn trim(s: &String) -> (r: String)
    ensures
        r@ == trimmed(s@),
{
    let v: Vec<char> = chars_of(s.as_str());
    let n: usize = v.len();
    let mut a: usize = 0;
    proof {
        assert(v@.subrange(0, n as int) =~= v@);
    }
    while a < n && char_is_whitespace(v[a])
        invariant
            n == v@.len(),
            a <= n,
            leading_space(v@) == a + leading_space(v@.subrange(a as int, n as int)),
        decreases n - a,
    {
        proof {
            lemma_leading_step(v@, a as int);
        }
        a = a + 1;
    }
    if a == n {
        return String::new();
    }
    proof {
        lemma_leading_step(v@, a as int);
    }
    let mut b: usize = n;
    while b > a + 1 && char_is_whitespace(v[b - 1])
        invariant
            n == v@.len(),
            a < b <= n,
            !is_whitespace(v@[a as int]),
            trailing_space(v@) == (n - b) + trailing_space(v@.subrange(0, b as int)),
        decreases b,
    {
        proof {
            lemma_trailing_step(v@, b as int);
        }
        b = b - 1;
    }
    proof {
        lemma_trailing_step(v@, b as int);
    }
    string_of(&v, a, b)
}

} // verus!

//! The markup parser: source text to a generic tree of tags.
//!
//! The grammar is read one character at a time. [`tag_from`] says what the
//! parser makes of a text from a given index on; [`Parser::parse`] computes
//! it.
pub mod types;
pub mod writer;

use crate::errors::{parse_failure, ParserError, ParserErrorView};
use crate::iter::Iter;
use crate::text::{char_is_whitespace, is_whitespace, push_char, trim, trimmed};
use types::{
    bodies_view, props_view, ASTBody, ASTBodyView, ASTNode, ASTNodeView, ASTProp, ASTPropView,
    PropType, PropTypeView,
};
use vstd::prelude::*;
use vstd::string::*;

verus! {

/// Where the parser stands within a tag.
#[derive(Debug, Clone, Copy, PartialEq, Eq, Structural)]
pub enum ParseState {
    /// Before the opening `<`.
    Start,
    /// In the tag's name.
    Tag,
    /// Among the attributes.
    Props,
    /// Between the opening and the closing tag.
    Body,
    /// In the name of the closing tag.
    ClosingTag,
}

/// Where the parser stands within an attribute.
#[derive(Debug, Clone, Copy, PartialEq, Eq, Structural)]
pub enum PropParseState {
    Name,
    Value,
    Eq,
}

/// The kind of value an attribute has turned out to have.
#[derive(Debug, Clone, Copy, PartialEq, Eq, Structural)]
pub enum PropValueType {
    /// No value: the attribute is a flag.
    Flag,
    Literal,
    Var,
}

/// What has been read of an attribute.
pub struct PropAcc {
    pub state: PropParseState,
    pub kind: PropValueType,
    pub name: Seq<char>,
    pub buffer: Seq<char>,
}

/// What has been read of a tag.
pub struct TagAcc {
    pub state: ParseState,
    pub name: Seq<char>,
    pub children: Seq<ASTBodyView>,
    pub props: Seq<ASTPropView>,
    pub buffer: Seq<char>,
    pub closing: Seq<char>,
}

/// What a parser makes of a text from some index on: a value and the index
/// behind it, or an error.
pub type Parsed<T> = Result<(T, int), ParserErrorView>;

/// Nothing read of an attribute yet.
pub open spec fn prop_start() -> PropAcc {
    PropAcc {
        state: PropParseState::Name,
        kind: PropValueType::Flag,
        name: Seq::empty(),
        buffer: Seq::empty(),
    }
}

/// Nothing read of a tag yet.
pub open spec fn tag_start() -> TagAcc {
    TagAcc {
        state: ParseState::Start,
        name: Seq::empty(),
        children: Seq::empty(),
        props: Seq::empty(),
        buffer: Seq::empty(),
        closing: Seq::empty(),
    }
}

/// The attribute that `acc` amounts to.
pub open spec fn prop_done(acc: PropAcc) -> ASTPropView {
    ASTPropView {
        name: acc.name,
        value: match acc.kind {
            PropValueType::Flag => None,
            PropValueType::Literal => Some(PropTypeView::Literal(acc.buffer)),
            PropValueType::Var => Some(PropTypeView::Var(acc.buffer)),
        },
    }
}

/// The tag that `acc` amounts to.
pub open spec fn tag_done(acc: TagAcc, self_closing: bool) -> ASTNodeView {
    ASTNodeView { name: acc.name, children: acc.children, props: acc.props, self_closing }
}

/// The error for a text that ends too early.
pub open spec fn eof_failure(s: Seq<char>) -> ParserErrorView {
    parse_failure("Unexpected EOF"@, s.len() as int)
}

/// The attribute that starts at index `pos` of `s`, read on from `acc`.
///
/// A name runs up to `=`, white space, `/` or `>`; the last three end the
/// attribute as a flag without a value and are left unread. After `=` comes
/// a value in double quotes or in braces. A value that opens where a name is
/// expected names its attribute `arg`.
pub open spec fn prop_from(s: Seq<char>, pos: int, acc: PropAcc) -> Parsed<ASTPropView>
    decreases s.len() - pos,
{
    if pos < 0 || pos >= s.len() {
        Err(eof_failure(s))
    } else {
        let c = s[pos];
        if c == '=' {
            if acc.state == PropParseState::Name && acc.name.len() > 0 {
                prop_from(s, pos + 1, PropAcc { state: PropParseState::Eq, ..acc })
            } else {
                Err(parse_failure("Unexpected `=`"@, pos))
            }
        } else if c == '"' {
            match acc.state {
                PropParseState::Eq => prop_from(
                    s,
                    pos + 1,
                    PropAcc { state: PropParseState::Value, kind: PropValueType::Literal, ..acc },
                ),
                PropParseState::Value => if acc.kind == PropValueType::Literal {
                    Ok((prop_done(acc), pos + 1))
                } else {
                    prop_from(s, pos + 1, PropAcc { buffer: acc.buffer.push(c), ..acc })
                },
                PropParseState::Name => if acc.name.len() == 0 {
                    prop_from(
                        s,
                        pos + 1,
                        PropAcc {
                            state: PropParseState::Value,
                            kind: PropValueType::Literal,
                            name: "arg"@,
                            ..acc
                        },
                    )
                } else {
                    Err(parse_failure("Unexpected `\"`"@, pos))
                },
            }
        } else if c == '{' {
            match acc.state {
                PropParseState::Eq => prop_from(
                    s,
                    pos + 1,
                    PropAcc { state: PropParseState::Value, kind: PropValueType::Var, ..acc },
                ),
                PropParseState::Name => if acc.name.len() == 0 {
                    prop_from(
                        s,
                        pos + 1,
                        PropAcc {
                            state: PropParseState::Value,
                            kind: PropValueType::Var,
                            name: "arg"@,
                            ..acc
                        },
                    )
                } else {
                    Err(parse_failure("Unexpected `{`"@, pos))
                },
                PropParseState::Value => Err(parse_failure("Unexpected `{`"@, pos)),
            }
        } else if c == '}' {
            if acc.state == PropParseState::Value && acc.kind == PropValueType::Var {
                Ok((prop_done(acc), pos + 1))
            } else {
                Err(parse_failure("Unexpected `}`"@, pos))
            }
        } else if c == '/' {
            if acc.state == PropParseState::Value {
                prop_from(s, pos + 1, PropAcc { buffer: acc.buffer.push(c), ..acc })
            } else {
                Ok((prop_done(acc), pos))
            }
        } else if c == '>' {
            if acc.state == PropParseState::Name {
                Ok((prop_done(acc), pos))
            } else {
                Err(parse_failure("Unexpected `>`"@, pos))
            }
        } else if !is_whitespace(c) {
            match acc.state {
                PropParseState::Name => prop_from(
                    s,
                    pos + 1,
                    PropAcc { name: acc.name.push(c), ..acc },
                ),
                PropParseState::Value => prop_from(
                    s,
                    pos + 1,
                    PropAcc { buffer: acc.buffer.push(c), ..acc },
                ),
                PropParseState::Eq => Err(parse_failure("Unexpected literal"@, pos)),
            }
        } else {
            match acc.state {
                PropParseState::Name => Ok((prop_done(acc), pos)),
                PropParseState::Value => prop_from(
                    s,
                    pos + 1,
                    PropAcc { buffer: acc.buffer.push(c), ..acc },
                ),
                PropParseState::Eq => prop_from(s, pos + 1, acc),
            }
        }
    }
}

/// The index behind a comment's `-->`, sought from index `pos` on; the
/// length of `s` where there is none.
pub open spec fn scan_comment(s: Seq<char>, pos: int) -> int
    decreases s.len() - pos,
{
    if pos < 0 || pos >= s.len() {
        s.len() as int
    } else if s[pos] == '-' && pos + 1 < s.len() && s[pos + 1] == '-' {
        if pos + 2 < s.len() && s[pos + 2] == '>' {
            pos + 3
        } else {
            scan_comment(s, pos + 2)
        }
    } else {
        scan_comment(s, pos + 1)
    }
}

/// The index at which reading goes on after the `<!` at index `pos`.
///
/// `<!--` opens a comment, which runs up to and including `-->`. Anything
/// else is dropped up to and including the first character that departs
/// from `<!--`.
pub open spec fn comment_end(s: Seq<char>, pos: int) -> int {
    if pos + 2 >= s.len() {
        s.len() as int
    } else if s[pos + 2] != '-' {
        pos + 3
    } else if pos + 3 >= s.len() {
        s.len() as int
    } else if s[pos + 3] != '-' {
        pos + 4
    } else {
        scan_comment(s, pos + 4)
    }
}

/// `acc` after the text gathered in its buffer has become a child: trimmed,
/// and dropped where nothing but white space was gathered.
pub open spec fn flush_text(acc: TagAcc) -> TagAcc {
    let text = trimmed(acc.buffer);
    TagAcc {
        children: if text.len() > 0 {
            acc.children.push(ASTBodyView::String(text))
        } else {
            acc.children
        },
        buffer: Seq::empty(),
        ..acc
    }
}

/// The error for a closing tag that does not carry the name of the tag it
/// closes.
pub open spec fn mismatch_failure(closing: Seq<char>, name: Seq<char>, pos: int) -> ParserErrorView {
    parse_failure(
        "Unexpected closing tag: </"@ + closing + ">. Expected </"@ + name + ">"@,
        pos,
    )
}

/// The tag that starts at index `pos` of `s`, read on from `acc`.
///
/// `<` opens the tag, a nested tag or, before `/`, the closing tag; before
/// `!` it opens a comment, which is skipped. `>` ends the opening tag, and
/// ends the closing tag, whose name must be that of the tag. `/>` ends the
/// tag as self-closing; a `/` before anything else is dropped. White space
/// ends the name. Text between the tags becomes a child, trimmed, when the
/// next tag opens.
pub open spec fn tag_from(s: Seq<char>, pos: int, acc: TagAcc) -> Parsed<ASTNodeView>
    decreases s.len() - pos, (if acc.state == ParseState::Body { 1nat } else { 0nat }),
{
    if pos < 0 || pos >= s.len() {
        Err(eof_failure(s))
    } else {
        let c = s[pos];
        if c == '<' {
            if pos + 1 >= s.len() {
                Err(eof_failure(s))
            } else if s[pos + 1] == '!' {
                let p = comment_end(s, pos);
                if pos < p <= s.len() {
                    tag_from(s, p, acc)
                } else {
                    Err(eof_failure(s))
                }
            } else {
                match acc.state {
                    ParseState::Start => tag_from(
                        s,
                        pos + 1,
                        TagAcc { state: ParseState::Tag, ..acc },
                    ),
                    ParseState::Body => {
                        let flushed = flush_text(acc);
                        if s[pos + 1] == '/' {
                            tag_from(
                                s,
                                pos + 2,
                                TagAcc { state: ParseState::ClosingTag, ..flushed },
                            )
                        } else {
                            match tag_from(s, pos, tag_start()) {
                                Ok((child, p)) => if pos < p <= s.len() {
                                    tag_from(
                                        s,
                                        p,
                                        TagAcc {
                                            children: flushed.children.push(
                                                ASTBodyView::Tag(Box::new(child)),
                                            ),
                                            ..flushed
                                        },
                                    )
                                } else {
                                    Err(eof_failure(s))
                                },
                                Err(e) => Err(e),
                            }
                        }
                    },
                    _ => Err(parse_failure("Unexpected `<` tag"@, pos)),
                }
            }
        } else if c == '>' {
            match acc.state {
                ParseState::Props | ParseState::Tag => tag_from(
                    s,
                    pos + 1,
                    TagAcc { state: ParseState::Body, ..acc },
                ),
                ParseState::ClosingTag => if acc.name == acc.closing {
                    Ok((tag_done(acc, false), pos + 1))
                } else {
                    Err(mismatch_failure(acc.closing, acc.name, pos))
                },
                _ => Err(parse_failure("Unexpected `>` tag"@, pos)),
            }
        } else if c == '/' {
            if pos + 1 < s.len() && s[pos + 1] == '>' {
                Ok((tag_done(acc, true), pos + 2))
            } else {
                tag_from(s, pos + 1, acc)
            }
        } else if !is_whitespace(c) {
            match acc.state {
                ParseState::Tag => tag_from(s, pos + 1, TagAcc { name: acc.name.push(c), ..acc }),
                ParseState::Props => match prop_from(s, pos, prop_start()) {
                    Ok((prop, p)) => if pos < p <= s.len() {
                        tag_from(s, p, TagAcc { props: acc.props.push(prop), ..acc })
                    } else {
                        Err(eof_failure(s))
                    },
                    Err(e) => Err(e),
                },
                ParseState::ClosingTag => tag_from(
                    s,
                    pos + 1,
                    TagAcc { closing: acc.closing.push(c), ..acc },
                ),
                ParseState::Body => tag_from(
                    s,
                    pos + 1,
                    TagAcc { buffer: acc.buffer.push(c), ..acc },
                ),
                ParseState::Start => Err(parse_failure("Unexpected literal"@, pos)),
            }
        } else {
            match acc.state {
                ParseState::Tag => tag_from(s, pos + 1, TagAcc { state: ParseState::Props, ..acc }),
                ParseState::Body => tag_from(
                    s,
                    pos + 1,
                    TagAcc { buffer: acc.buffer.push(c), ..acc },
                ),
                _ => tag_from(s, pos + 1, acc),
            }
        }
    }
}

/// The tree that the text `s` holds: its first tag. What follows that tag
/// is not read.
pub open spec fn parse_text(s: Seq<char>) -> Result<ASTNodeView, ParserErrorView> {
    match tag_from(s, 0, tag_start()) {
        Ok((node, _)) => Ok(node),
        Err(e) => Err(e),
    }
}

/// Whether the outcome `r`, with the cursor left at index `end`, is what
/// `expected` says: the same value behind the same index, or the same error.
pub open spec fn agrees<T: View>(
    r: Result<T, ParserError>,
    end: int,
    expected: Parsed<T::V>,
) -> bool {
    match (r, expected) {
        (Ok(v), Ok((w, p))) => v@ == w && end == p,
        (Err(e), Err(f)) => e@ == f,
        _ => false,
    }
}

/// A comment's end lies behind the index from which it is sought, within
/// the text.
pub proof fn lemma_scan_comment_bounds(s: Seq<char>, pos: int)
    requires
        0 <= pos <= s.len(),
    ensures
        pos <= scan_comment(s, pos) <= s.len(),
    decreases s.len() - pos,
{
    if pos < s.len() {
        if s[pos] == '-' && pos + 1 < s.len() && s[pos + 1] == '-' {
            if pos + 2 < s.len() && s[pos + 2] == '>' {
            } else {
                lemma_scan_comment_bounds(s, pos + 2);
            }
        } else {
            lemma_scan_comment_bounds(s, pos + 1);
        }
    }
}

/// Reading goes on behind a `<!`, within the text.
pub proof fn lemma_comment_end_bounds(s: Seq<char>, pos: int)
    requires
        0 <= pos,
        pos + 1 < s.len(),
    ensures
        pos + 1 < comment_end(s, pos) <= s.len(),
{
    if pos + 3 < s.len() {
        lemma_scan_comment_bounds(s, pos + 4);
    }
}

/// An attribute that is read ends within the text, at or behind its start;
/// and behind its start where it starts with a character of a name or of a
/// value.
pub proof fn lemma_prop_from_bounds(s: Seq<char>, pos: int, acc: PropAcc)
    requires
        0 <= pos,
    ensures
        prop_from(s, pos, acc) is Ok ==> pos <= prop_from(s, pos, acc)->Ok_0.1 <= s.len(),
        prop_from(s, pos, acc) is Ok && pos < s.len() && !is_whitespace(s[pos]) && s[pos] != '/'
            && s[pos] != '>' ==> pos < prop_from(s, pos, acc)->Ok_0.1,
    decreases s.len() - pos,
{
    if pos < s.len() {
        lemma_prop_from_bounds(s, pos + 1, PropAcc { state: PropParseState::Eq, ..acc });
        lemma_prop_from_bounds(
            s,
            pos + 1,
            PropAcc { state: PropParseState::Value, kind: PropValueType::Literal, ..acc },
        );
        lemma_prop_from_bounds(
            s,
            pos + 1,
            PropAcc { state: PropParseState::Value, kind: PropValueType::Var, ..acc },
        );
        lemma_prop_from_bounds(
            s,
            pos + 1,
            PropAcc {
                state: PropParseState::Value,
                kind: PropValueType::Literal,
                name: "arg"@,
                ..acc
            },
        );
        lemma_prop_from_bounds(
            s,
            pos + 1,
            PropAcc {
                state: PropParseState::Value,
                kind: PropValueType::Var,
                name: "arg"@,
                ..acc
            },
        );
        lemma_prop_from_bounds(s, pos + 1, PropAcc { buffer: acc.buffer.push(s[pos]), ..acc });
        lemma_prop_from_bounds(s, pos + 1, PropAcc { name: acc.name.push(s[pos]), ..acc });
        lemma_prop_from_bounds(s, pos + 1, acc);
    }
}

/// A tag that is read ends within the text, behind its start; so the index
/// tests in [`tag_from`] never fail.
pub proof fn lemma_tag_from_bounds(s: Seq<char>, pos: int, acc: TagAcc)
    requires
        0 <= pos,
    ensures
        tag_from(s, pos, acc) is Ok ==> pos < tag_from(s, pos, acc)->Ok_0.1 <= s.len(),
    decreases s.len() - pos, (if acc.state == ParseState::Body { 1nat } else { 0nat }),
{
    if pos < s.len() {
        let c = s[pos];
        if c == '<' {
            if pos + 1 < s.len() {
                if s[pos + 1] == '!' {
                    lemma_comment_end_bounds(s, pos);
                    lemma_tag_from_bounds(s, comment_end(s, pos), acc);
                } else {
                    match acc.state {
                        ParseState::Start => {
                            lemma_tag_from_bounds(
                                s,
                                pos + 1,
                                TagAcc { state: ParseState::Tag, ..acc },
                            );
                        },
                        ParseState::Body => {
                            let flushed = flush_text(acc);
                            if s[pos + 1] == '/' {
                                lemma_tag_from_bounds(
                                    s,
                                    pos + 2,
                                    TagAcc { state: ParseState::ClosingTag, ..flushed },
                                );
                            } else {
                                lemma_tag_from_bounds(s, pos, tag_start());
                                match tag_from(s, pos, tag_start()) {
                                    Ok((child, p)) => {
                                        lemma_tag_from_bounds(
                                            s,
                                            p,
                                            TagAcc {
                                                children: flushed.children.push(
                                                    ASTBodyView::Tag(Box::new(child)),
                                                ),
                                                ..flushed
                                            },
                                        );
                                    },
                                    Err(_) => {},
                                }
                            }
                        },
                        _ => {},
                    }
                }
            }
        } else if c == '>' {
            match acc.state {
                ParseState::Props | ParseState::Tag => {
                    lemma_tag_from_bounds(s, pos + 1, TagAcc { state: ParseState::Body, ..acc });
                },
                _ => {},
            }
        } else if c == '/' {
            if !(pos + 1 < s.len() && s[pos + 1] == '>') {
                lemma_tag_from_bounds(s, pos + 1, acc);
            }
        } else if !is_whitespace(c) {
            match acc.state {
                ParseState::Tag => {
                    lemma_tag_from_bounds(s, pos + 1, TagAcc { name: acc.name.push(c), ..acc });
                },
                ParseState::Props => {
                    lemma_prop_from_bounds(s, pos, prop_start());
                    match prop_from(s, pos, prop_start()) {
                        Ok((prop, p)) => {
                            lemma_tag_from_bounds(
                                s,
                                p,
                                TagAcc { props: acc.props.push(prop), ..acc },
                            );
                        },
                        Err(_) => {},
                    }
                },
                ParseState::ClosingTag => {
                    lemma_tag_from_bounds(
                        s,
                        pos + 1,
                        TagAcc { closing: acc.closing.push(c), ..acc },
                    );
                },
                ParseState::Body => {
                    lemma_tag_from_bounds(s, pos + 1, TagAcc { buffer: acc.buffer.push(c), ..acc });
                },
                ParseState::Start => {},
            }
        } else {
            match acc.state {
                ParseState::Tag => {
                    lemma_tag_from_bounds(s, pos + 1, TagAcc { state: ParseState::Props, ..acc });
                },
                ParseState::Body => {
                    lemma_tag_from_bounds(s, pos + 1, TagAcc { buffer: acc.buffer.push(c), ..acc });
                },
                _ => {
                    lemma_tag_from_bounds(s, pos + 1, acc);
                },
            }
        }
    }
}

/// Skips what `<!` opens. The cursor stands on the `!`.
fn handle_comment(iter: &mut Iter<char>)
    requires
        old(iter).wf(),
        1 <= old(iter).pos < old(iter).vec@.len(),
    ensures
        final(iter).wf(),
        final(iter).vec@ == old(iter).vec@,
        final(iter).pos == comment_end(old(iter).vec@, old(iter).pos - 1),
        old(iter).pos < final(iter).pos,
{
    let ghost s = iter.vec@;
    let ghost start = iter.pos - 1;
    let _ = iter.next();
    match iter.next() {
        Some(c) => {
            if c != '-' {
                return ;
            }
        },
        None => {
            return ;
        },
    }
    match iter.next() {
        Some(c) => {
            if c != '-' {
                return ;
            }
        },
        None => {
            return ;
        },
    }
    proof {
        lemma_scan_comment_bounds(s, start + 4);
    }
    loop
        invariant
            iter.wf(),
            iter.vec@ == s,
            s == old(iter).vec@,
            start == old(iter).pos - 1,
            start + 4 <= iter.pos,
            scan_comment(s, iter.pos as int) == comment_end(s, start),
        decreases s.len() - iter.pos,
    {
        match iter.next() {
            None => {
                return ;
            },
            Some(c) => {
                if c == '-' {
                    let second: Option<char> = iter.peek();
                    if second == Some('-') {
                        let _ = iter.next();
                        let third: Option<char> = iter.peek();
                        if third == Some('>') {
                            let _ = iter.next();
                            return ;
                        }
                    }
                }
            },
        }
    }
}

/// Reads one attribute. The cursor stands behind the attribute's first
/// character, which is not white space, `/` or `>`.
fn process_prop(iter: &mut Iter<char>) -> (r: Result<ASTProp, ParserError>)
    requires
        old(iter).wf(),
        old(iter).pos >= 1,
        !is_whitespace(old(iter).vec@[old(iter).pos - 1]),
        old(iter).vec@[old(iter).pos - 1] != '/',
        old(iter).vec@[old(iter).pos - 1] != '>',
    ensures
        final(iter).wf(),
        final(iter).vec@ == old(iter).vec@,
        agrees(r, final(iter).pos as int, prop_from(old(iter).vec@, old(iter).pos - 1, prop_start())),
        r is Ok ==> final(iter).pos >= old(iter).pos,
{
    let ghost s = iter.vec@;
    let ghost start = iter.pos - 1;
    iter.step_back();
    let mut state: PropParseState = PropParseState::Name;
    let mut kind: PropValueType = PropValueType::Flag;
    let mut name: String = String::new();
    let mut buffer: String = String::new();
    loop
        invariant
            iter.wf(),
            iter.vec@ == s,
            s == old(iter).vec@,
            start == old(iter).pos - 1,
            0 <= start < s.len(),
            !is_whitespace(s[start]),
            s[start] != '/',
            s[start] != '>',
            start <= iter.pos,
            iter.pos == start ==> state == PropParseState::Name,
            prop_from(s, iter.pos as int, PropAcc { state, kind, name: name@, buffer: buffer@ })
                == prop_from(s, start, prop_start()),
        decreases s.len() - iter.pos,
    {
        let at: usize = iter.pos;
        let c: char = match iter.peek() {
            None => {
                return Err(ParserError::new("Unexpected EOF", iter.vec.len()));
            },
            Some(c) => c,
        };
        if c == '=' {
            if state == PropParseState::Name && name.as_str().unicode_len() > 0 {
                state = PropParseState::Eq;
                let _ = iter.next();
            } else {
                return Err(ParserError::new("Unexpected `=`", at));
            }
        } else if c == '"' {
            match state {
                PropParseState::Eq => {
                    kind = PropValueType::Literal;
                    state = PropParseState::Value;
                    let _ = iter.next();
                },
                PropParseState::Value => {
                    let _ = iter.next();
                    if kind == PropValueType::Literal {
                        return Ok(finish_prop(name, buffer, kind));
                    }
                    push_char(&mut buffer, c);
                },
                PropParseState::Name => {
                    if name.as_str().unicode_len() == 0 {
                        name = "arg".to_owned();
                        kind = PropValueType::Literal;
                        state = PropParseState::Value;
                        let _ = iter.next();
                    } else {
                        return Err(ParserError::new("Unexpected `\"`", at));
                    }
                },
            }
        } else if c == '{' {
            match state {
                PropParseState::Eq => {
                    kind = PropValueType::Var;
                    state = PropParseState::Value;
                    let _ = iter.next();
                },
                PropParseState::Name => {
                    if name.as_str().unicode_len() == 0 {
                        name = "arg".to_owned();
                        kind = PropValueType::Var;
                        state = PropParseState::Value;
                        let _ = iter.next();
                    } else {
                        return Err(ParserError::new("Unexpected `{`", at));
                    }
                },
                PropParseState::Value => {
                    return Err(ParserError::new("Unexpected `{`", at));
                },
            }
        } else if c == '}' {
            if state == PropParseState::Value && kind == PropValueType::Var {
                let _ = iter.next();
                return Ok(finish_prop(name, buffer, kind));
            } else {
                return Err(ParserError::new("Unexpected `}`", at));
            }
        } else if c == '/' {
            if state == PropParseState::Value {
                let _ = iter.next();
                push_char(&mut buffer, c);
            } else {
                return Ok(finish_prop(name, buffer, kind));
            }
        } else if c == '>' {
            if state == PropParseState::Name {
                return Ok(finish_prop(name, buffer, kind));
            } else {
                return Err(ParserError::new("Unexpected `>`", at));
            }
        } else if !char_is_whitespace(c) {
            match state {
                PropParseState::Name => {
                    let _ = iter.next();
                    push_char(&mut name, c);
                },
                PropParseState::Value => {
                    let _ = iter.next();
                    push_char(&mut buffer, c);
                },
                PropParseState::Eq => {
                    return Err(ParserError::new("Unexpected literal", at));
                },
            }
        } else {
            match state {
                PropParseState::Name => {
                    return Ok(finish_prop(name, buffer, kind));
                },
                PropParseState::Value => {
                    let _ = iter.next();
                    push_char(&mut buffer, c);
                },
                PropParseState::Eq => {
                    let _ = iter.next();
                },
            }
        }
    }
}

/// The attribute with the name `name` and the value `buffer` of kind `kind`.
fn finish_prop(name: String, buffer: String, kind: PropValueType) -> (p: ASTProp)
    ensures
        p@ == prop_done(PropAcc { state: PropParseState::Name, kind, name: name@, buffer: buffer@ }),
{
    let value: Option<PropType> = match kind {
        PropValueType::Flag => None,
        PropValueType::Literal => Some(PropType::Literal(buffer)),
        PropValueType::Var => Some(PropType::Var(buffer)),
    };
    ASTProp { name, value }
}

/// The error for a closing tag named `closing` where `name` is open.
fn mismatch_error(closing: &String, name: &String, pos: usize) -> (e: ParserError)
    ensures
        e@ == mismatch_failure(closing@, name@, pos as int),
{
    let mut message: String = "Unexpected closing tag: </".to_owned();
    message.append(closing.as_str());
    message.append(">. Expected </");
    message.append(name.as_str());
    message.append(">");
    ParserError { message, pos }
}

/// Turns the text gathered in `buffer` into a child of the tag, unless it is
/// all white space, and empties the buffer.
fn flush_buffer(children: &mut Vec<ASTBody>, buffer: &mut String)
    ensures
        final(buffer)@ == Seq::<char>::empty(),
        bodies_view(final(children)@) == if trimmed(old(buffer)@).len() > 0 {
            bodies_view(old(children)@).push(ASTBodyView::String(trimmed(old(buffer)@)))
        } else {
            bodies_view(old(children)@)
        },
{
    let text: String = trim(buffer);
    if text.as_str().unicode_len() > 0 {
        let ghost before = children@;
        children.push(ASTBody::String(text));
        assert(bodies_view(children@) =~= bodies_view(before).push(
            ASTBodyView::String(trimmed(buffer@)),
        ));
    }
    *buffer = String::new();
}

/// Reads one tag, with all that it holds, from the cursor on.
fn parse_node(iter: &mut Iter<char>) -> (r: Result<ASTNode, ParserError>)
    requires
        old(iter).wf(),
    ensures
        final(iter).wf(),
        final(iter).vec@ == old(iter).vec@,
        agrees(r, final(iter).pos as int, tag_from(old(iter).vec@, old(iter).pos as int, tag_start())),
        r is Ok ==> final(iter).pos > old(iter).pos,
    decreases old(iter).vec@.len() - old(iter).pos,
{
    let ghost s = iter.vec@;
    let ghost start = iter.pos as int;
    let mut state: ParseState = ParseState::Start;
    let mut name: String = String::new();
    let mut children: Vec<ASTBody> = Vec::new();
    let mut props: Vec<ASTProp> = Vec::new();
    let mut buffer: String = String::new();
    let mut closing: String = String::new();
    proof {
        assert(bodies_view(children@) =~= Seq::<ASTBodyView>::empty());
        assert(props_view(props@) =~= Seq::<ASTPropView>::empty());
    }
    loop
        invariant
            iter.wf(),
            iter.vec@ == s,
            s == old(iter).vec@,
            start == old(iter).pos,
            start <= iter.pos,
            state != ParseState::Start ==> start < iter.pos,
            tag_from(
                s,
                iter.pos as int,
                TagAcc {
                    state,
                    name: name@,
                    children: bodies_view(children@),
                    props: props_view(props@),
                    buffer: buffer@,
                    closing: closing@,
                },
            ) == tag_from(s, start, tag_start()),
        decreases s.len() - iter.pos,
    {
        let at: usize = iter.pos;
        let c: char = match iter.next() {
            None => {
                return Err(ParserError::new("Unexpected EOF", iter.vec.len()));
            },
            Some(c) => c,
        };
        if c == '<' {
            match iter.peek() {
                None => {
                    return Err(ParserError::new("Unexpected EOF", iter.vec.len()));
                },
                Some(d) => {
                    if d == '!' {
                        handle_comment(iter);
                    } else {
                        match state {
                            ParseState::Start => {
                                state = ParseState::Tag;
                            },
                            ParseState::Body => {
                                flush_buffer(&mut children, &mut buffer);
                                if d == '/' {
                                    let _ = iter.next();
                                    state = ParseState::ClosingTag;
                                } else {
                                    iter.step_back();
                                    let child: ASTNode = match parse_node(iter) {
                                        Ok(child) => child,
                                        Err(e) => {
                                            return Err(e);
                                        },
                                    };
                                    let ghost before = children@;
                                    children.push(ASTBody::Tag(Box::new(child)));
                                    assert(bodies_view(children@) =~= bodies_view(before).push(
                                        ASTBodyView::Tag(Box::new(child@)),
                                    ));
                                }
                            },
                            _ => {
                                return Err(ParserError::new("Unexpected `<` tag", at));
                            },
                        }
                    }
                },
            }
        } else if c == '>' {
            match state {
                ParseState::Props | ParseState::Tag => {
                    state = ParseState::Body;
                },
                ParseState::ClosingTag => {
                    if name == closing {
                        return Ok(ASTNode { name, children, props, self_closing: false });
                    } else {
                        return Err(mismatch_error(&closing, &name, at));
                    }
                },
                _ => {
                    return Err(ParserError::new("Unexpected `>` tag", at));
                },
            }
        } else if c == '/' {
            let d: Option<char> = iter.peek();
            if d == Some('>') {
                let _ = iter.next();
                return Ok(ASTNode { name, children, props, self_closing: true });
            }
        } else if !char_is_whitespace(c) {
            match state {
                ParseState::Tag => {
                    push_char(&mut name, c);
                },
                ParseState::Props => {
                    let prop: ASTProp = match process_prop(iter) {
                        Ok(prop) => prop,
                        Err(e) => {
                            return Err(e);
                        },
                    };
                    let ghost before = props@;
                    props.push(prop);
                    assert(props_view(props@) =~= props_view(before).push(prop@));
                },
                ParseState::ClosingTag => {
                    push_char(&mut closing, c);
                },
                ParseState::Body => {
                    push_char(&mut buffer, c);
                },
                ParseState::Start => {
                    return Err(ParserError::new("Unexpected literal", at));
                },
            }
        } else {
            match state {
                ParseState::Tag => {
                    state = ParseState::Props;
                },
                ParseState::Body => {
                    push_char(&mut buffer, c);
                },
                _ => {},
            }
        }
    }
}

/// A parser over one source text.
pub struct Parser {
    pub contents: String,
}

impl Parser {
    /// A parser for the text `contents`.
    pub fn new(contents: String) -> (p: Self)
        ensures
            p.contents@ == contents@,
    {
        Parser { contents }
    }

    /// Parses the text into its tree: `Ok` with the tree that [`parse_text`]
    /// gives, or its error.
    pub fn parse(&self) -> (r: Result<ASTNode, ParserError>)
        ensures
            match (r, parse_text(self.contents@)) {
                (Ok(node), Ok(v)) => node@ == v,
                (Err(e), Err(f)) => e@ == f,
                _ => false,
            },
    {
        let mut iter: Iter<char> = Iter::from(crate::text::chars_of(self.contents.as_str()));
        parse_node(&mut iter)
    }
}

} // verus!

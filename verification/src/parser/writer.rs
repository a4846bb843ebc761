//! Writing a tree back as text, and the proof that the parser reads what
//! was written as the tree that was written.
use crate::errors::ParserErrorView;
use crate::parser::types::{
    bodies_view, props_view, ASTBody, ASTBodyView, ASTNode, ASTNodeView, ASTProp, ASTPropView,
    PropType, PropTypeView,
};
use crate::parser::{
    flush_text, prop_done, prop_from, prop_start, tag_done, tag_from, tag_start, ParseState,
    PropAcc, PropParseState, PropValueType, TagAcc,
};
use crate::text::{is_whitespace, push_char, trimmed};
use vstd::prelude::*;
use vstd::string::*;

verus! {

/// The text of an attribute: its name, followed by its value, if it has
/// one, in double quotes or in braces behind `=`.
pub open spec fn prop_text(p: ASTPropView) -> Seq<char> {
    match p.value {
        None => p.name,
        Some(PropTypeView::Literal(v)) => p.name + seq!['=', '"'] + v + seq!['"'],
        Some(PropTypeView::Var(v)) => p.name + seq!['=', '{'] + v + seq!['}'],
    }
}

/// The text of the attributes `props[i..]`: each behind a space.
pub open spec fn props_text_from(props: Seq<ASTPropView>, i: int) -> Seq<char>
    decreases props.len() - i,
{
    if i < 0 || i >= props.len() {
        Seq::empty()
    } else {
        seq![' '] + prop_text(props[i]) + props_text_from(props, i + 1)
    }
}

/// The text of a tag: its name and attributes between `<` and `>`, its
/// children, and its name between `</` and `>`; or, for a self-closing tag,
/// its name and attributes between `<` and `/>`.
pub open spec fn written(n: ASTNodeView) -> Seq<char>
    decreases n, 0nat,
{
    seq!['<'] + n.name + props_text_from(n.props, 0) + (if n.self_closing {
        seq!['/', '>']
    } else {
        seq!['>'] + children_text_from(n.children, 0) + seq!['<', '/'] + n.name + seq!['>']
    })
}

/// The text of the children `children[i..]`, one behind the other.
pub open spec fn children_text_from(children: Seq<ASTBodyView>, i: int) -> Seq<char>
    decreases children, children.len() - i,
{
    if i < 0 || i >= children.len() {
        Seq::empty()
    } else {
        (match children[i] {
            ASTBodyView::String(s) => s,
            ASTBodyView::Tag(t) => written(*t),
        }) + children_text_from(children, i + 1)
    }
}

/// A character that can stand in a name: no white space and none of the
/// characters that the grammar uses.
pub open spec fn is_plain(c: char) -> bool {
    !is_whitespace(c) && c != '<' && c != '>' && c != '/' && c != '!' && c != '=' && c != '"' && c
        != '{' && c != '}'
}

/// A name that can be written: one or more plain characters.
pub open spec fn is_name(s: Seq<char>) -> bool {
    s.len() > 0 && forall|i: int| 0 <= i < s.len() ==> is_plain(#[trigger] s[i])
}

/// An attribute that can be written: a name, and a value without the
/// characters that would end it or that the grammar refuses in a value.
pub open spec fn is_writable_prop(p: ASTPropView) -> bool {
    is_name(p.name) && match p.value {
        None => true,
        Some(PropTypeView::Literal(v)) => forall|i: int|
            0 <= i < v.len() ==> (#[trigger] v[i]) != '"' && v[i] != '{' && v[i] != '}' && v[i]
                != '>' && v[i] != '=',
        Some(PropTypeView::Var(v)) => forall|i: int|
            0 <= i < v.len() ==> (#[trigger] v[i]) != '{' && v[i] != '}' && v[i] != '>' && v[i]
                != '=',
    }
}

/// A text that can be written as a child: not empty, without white space
/// at its ends, and without the characters `<`, `>` and `/`.
pub open spec fn is_writable_text(s: Seq<char>) -> bool {
    s.len() > 0 && trimmed(s) == s && forall|i: int|
        0 <= i < s.len() ==> (#[trigger] s[i]) != '<' && s[i] != '>' && s[i] != '/'
}

/// A tree that can be written: its names, attributes and texts can be, no
/// text follows a text directly, and a self-closing tag has no children.
pub open spec fn is_writable(n: ASTNodeView) -> bool
    decreases n, 0nat,
{
    is_name(n.name) && (forall|i: int|
        0 <= i < n.props.len() ==> is_writable_prop(#[trigger] n.props[i])) && (n.self_closing
        ==> n.children.len() == 0) && are_writable_from(n.children, 0)
}

/// The children `children[i..]` can be written.
pub open spec fn are_writable_from(children: Seq<ASTBodyView>, i: int) -> bool
    decreases children, children.len() - i,
{
    if i < 0 || i >= children.len() {
        true
    } else {
        (match children[i] {
            ASTBodyView::String(s) => is_writable_text(s) && (i + 1 < children.len()
                ==> children[i + 1] is Tag),
            ASTBodyView::Tag(t) => is_writable(*t),
        }) && are_writable_from(children, i + 1)
    }
}

/// Whether `s` holds the text `w` from index `pos` on.
pub open spec fn holds(s: Seq<char>, pos: int, w: Seq<char>) -> bool {
    0 <= pos && pos + w.len() <= s.len() && forall|i: int|
        0 <= i < w.len() ==> s[pos + i] == #[trigger] w[i]
}

/// A text that is held in parts is held part by part.
pub proof fn lemma_holds_split(s: Seq<char>, pos: int, a: Seq<char>, b: Seq<char>)
    requires
        holds(s, pos, a + b),
    ensures
        holds(s, pos, a),
        holds(s, pos + a.len(), b),
{
    assert forall|i: int| 0 <= i < a.len() implies s[pos + i] == #[trigger] a[i] by {
        assert((a + b)[i] == a[i]);
    }
    assert forall|i: int| 0 <= i < b.len() implies s[pos + a.len() + i] == #[trigger] b[i] by {
        assert((a + b)[a.len() + i] == b[i]);
    }
}

/// `acc` after the characters `w` were gathered in the state of `acc`: in
/// the tag's name, in the closing name, or in the text.
pub open spec fn gathered(acc: TagAcc, w: Seq<char>) -> TagAcc {
    match acc.state {
        ParseState::Tag => TagAcc { name: acc.name + w, ..acc },
        ParseState::ClosingTag => TagAcc { closing: acc.closing + w, ..acc },
        ParseState::Body => TagAcc { buffer: acc.buffer + w, ..acc },
        _ => acc,
    }
}

/// Reading a run of characters that belong to a name or to a text gathers
/// them and goes on behind them.
pub proof fn lemma_run(s: Seq<char>, pos: int, w: Seq<char>, acc: TagAcc)
    requires
        holds(s, pos, w),
        acc.state == ParseState::Tag || acc.state == ParseState::ClosingTag || acc.state
            == ParseState::Body,
        forall|i: int|
            0 <= i < w.len() ==> (#[trigger] w[i]) != '<' && w[i] != '>' && w[i] != '/' && (
            acc.state == ParseState::Body || !is_whitespace(w[i])),
    ensures
        tag_from(s, pos, acc) == tag_from(s, pos + w.len(), gathered(acc, w)),
    decreases w.len(),
{
    if w.len() == 0 {
        assert(acc.name + w =~= acc.name);
        assert(acc.closing + w =~= acc.closing);
        assert(acc.buffer + w =~= acc.buffer);
    } else {
        let c = w[0];
        assert(s[pos + 0] == c);
        let rest = w.drop_first();
        let next = gathered(acc, seq![c]);
        assert(acc.name + seq![c] =~= acc.name.push(c));
        assert(acc.closing + seq![c] =~= acc.closing.push(c));
        assert(acc.buffer + seq![c] =~= acc.buffer.push(c));
        assert(tag_from(s, pos, acc) == tag_from(s, pos + 1, next));
        assert forall|i: int| 0 <= i < rest.len() implies s[pos + 1 + i] == #[trigger] rest[i] by {
            assert(rest[i] == w[i + 1]);
        }
        assert forall|i: int| 0 <= i < rest.len() implies (#[trigger] rest[i]) != '<' && rest[i]
            != '>' && rest[i] != '/' && (next.state == ParseState::Body || !is_whitespace(
            rest[i],
        )) by {
            assert(rest[i] == w[i + 1]);
        }
        lemma_run(s, pos + 1, rest, next);
        assert(acc.name + seq![c] + rest =~= acc.name + w);
        assert(acc.closing + seq![c] + rest =~= acc.closing + w);
        assert(acc.buffer + seq![c] + rest =~= acc.buffer + w);
    }
}

/// `acc` after the characters `w` were gathered in the state of `acc`: in
/// the attribute's name, or in its value.
pub open spec fn gathered_prop(acc: PropAcc, w: Seq<char>) -> PropAcc {
    match acc.state {
        PropParseState::Name => PropAcc { name: acc.name + w, ..acc },
        PropParseState::Value => PropAcc { buffer: acc.buffer + w, ..acc },
        PropParseState::Eq => acc,
    }
}

/// Whether the character `c` can stand where `acc` is: in a name, or in a
/// value of the kind of `acc`.
pub open spec fn fits_prop(acc: PropAcc, c: char) -> bool {
    match acc.state {
        PropParseState::Name => is_plain(c),
        PropParseState::Value => c != '{' && c != '}' && c != '>' && c != '=' && (acc.kind
            == PropValueType::Var || (acc.kind == PropValueType::Literal && c != '"')),
        PropParseState::Eq => false,
    }
}

/// Reading a run of characters that belong to an attribute's name or value
/// gathers them and goes on behind them.
pub proof fn lemma_prop_run(s: Seq<char>, pos: int, w: Seq<char>, acc: PropAcc)
    requires
        holds(s, pos, w),
        acc.state != PropParseState::Eq,
        forall|i: int| 0 <= i < w.len() ==> fits_prop(acc, #[trigger] w[i]),
    ensures
        prop_from(s, pos, acc) == prop_from(s, pos + w.len(), gathered_prop(acc, w)),
    decreases w.len(),
{
    if w.len() == 0 {
        assert(acc.name + w =~= acc.name);
        assert(acc.buffer + w =~= acc.buffer);
    } else {
        let c = w[0];
        assert(s[pos + 0] == c);
        assert(fits_prop(acc, w[0]));
        let rest = w.drop_first();
        let next = gathered_prop(acc, seq![c]);
        assert(acc.name + seq![c] =~= acc.name.push(c));
        assert(acc.buffer + seq![c] =~= acc.buffer.push(c));
        assert(prop_from(s, pos, acc) == prop_from(s, pos + 1, next));
        assert forall|i: int| 0 <= i < rest.len() implies s[pos + 1 + i] == #[trigger] rest[i] by {
            assert(rest[i] == w[i + 1]);
        }
        assert forall|i: int| 0 <= i < rest.len() implies fits_prop(next, #[trigger] rest[i]) by {
            assert(rest[i] == w[i + 1]);
            assert(fits_prop(acc, w[i + 1]));
        }
        lemma_prop_run(s, pos + 1, rest, next);
        assert(acc.name + seq![c] + rest =~= acc.name + w);
        assert(acc.buffer + seq![c] + rest =~= acc.buffer + w);
    }
}

/// Whether index `pos` of `s` holds a character that ends a bare flag: a
/// space, `/` or `>`.
pub open spec fn ends_flag(s: Seq<char>, pos: int) -> bool {
    0 <= pos < s.len() && (s[pos] == ' ' || s[pos] == '/' || s[pos] == '>')
}

/// A written attribute is read as the attribute that was written.
pub proof fn lemma_prop_read(s: Seq<char>, pos: int, p: ASTPropView)
    requires
        is_writable_prop(p),
        holds(s, pos, prop_text(p)),
        ends_flag(s, pos + prop_text(p).len()),
    ensures
        prop_from(s, pos, prop_start()) == Ok::<(ASTPropView, int), ParserErrorView>(
            (p, pos + prop_text(p).len()),
        ),
{
    let start = prop_start();
    let named = PropAcc { name: p.name, ..start };
    assert(start.name + p.name =~= p.name);
    assert(gathered_prop(start, p.name) == named);
    let q = pos + p.name.len();
    match p.value {
        None => {
            lemma_prop_run(s, pos, p.name, start);
            assert(prop_done(named) == p);
        },
        Some(PropTypeView::Literal(v)) => {
            let head = p.name + seq!['=', '"'];
            lemma_holds_split(s, pos, head + v, seq!['"']);
            lemma_holds_split(s, pos, head, v);
            lemma_holds_split(s, pos, p.name, seq!['=', '"']);
            lemma_prop_run(s, pos, p.name, start);
            assert(s[q + 0] == seq!['=', '"'][0]);
            assert(s[q + 1] == seq!['=', '"'][1]);
            let opened = PropAcc {
                state: PropParseState::Value,
                kind: PropValueType::Literal,
                ..named
            };
            let before = PropAcc { state: PropParseState::Eq, ..named };
            assert(s[q] == '=');
            assert(prop_from(s, q, named) == prop_from(s, q + 1, before));
            assert(prop_from(s, q + 1, before) == prop_from(s, q + 2, opened));
            assert(head.len() == p.name.len() + 2);
            lemma_prop_run(s, q + 2, v, opened);
            let filled = gathered_prop(opened, v);
            assert(filled.buffer =~= v);
            assert(s[q + 2 + v.len() + 0] == seq!['"'][0]);
            assert(prop_done(filled) == p);
        },
        Some(PropTypeView::Var(v)) => {
            let head = p.name + seq!['=', '{'];
            lemma_holds_split(s, pos, head + v, seq!['}']);
            lemma_holds_split(s, pos, head, v);
            lemma_holds_split(s, pos, p.name, seq!['=', '{']);
            lemma_prop_run(s, pos, p.name, start);
            assert(s[q + 0] == seq!['=', '{'][0]);
            assert(s[q + 1] == seq!['=', '{'][1]);
            let opened = PropAcc {
                state: PropParseState::Value,
                kind: PropValueType::Var,
                ..named
            };
            let before = PropAcc { state: PropParseState::Eq, ..named };
            assert(s[q] == '=');
            assert(prop_from(s, q, named) == prop_from(s, q + 1, before));
            assert(prop_from(s, q + 1, before) == prop_from(s, q + 2, opened));
            assert(head.len() == p.name.len() + 2);
            lemma_prop_run(s, q + 2, v, opened);
            let filled = gathered_prop(opened, v);
            assert(filled.buffer =~= v);
            assert(s[q + 2 + v.len() + 0] == seq!['}'][0]);
            assert(prop_done(filled) == p);
        },
    }
}

/// Written attributes are read as the attributes that were written, in
/// their order.
pub proof fn lemma_props_read(
    s: Seq<char>,
    pos: int,
    props: Seq<ASTPropView>,
    i: int,
    acc: TagAcc,
)
    requires
        0 <= i <= props.len(),
        forall|k: int| 0 <= k < props.len() ==> is_writable_prop(#[trigger] props[k]),
        holds(s, pos, props_text_from(props, i)),
        pos + props_text_from(props, i).len() < s.len(),
        s[pos + props_text_from(props, i).len()] == '/' || s[pos + props_text_from(props, i).len()]
            == '>',
        acc.state == ParseState::Tag || acc.state == ParseState::Props,
    ensures
        tag_from(s, pos, acc) == tag_from(
            s,
            pos + props_text_from(props, i).len(),
            TagAcc {
                state: if i < props.len() {
                    ParseState::Props
                } else {
                    acc.state
                },
                props: acc.props + props.subrange(i, props.len() as int),
                ..acc
            },
        ),
    decreases props.len() - i,
{
    if i == props.len() {
        assert(acc.props + props.subrange(i, props.len() as int) =~= acc.props);
    } else {
        let p = props[i];
        let rest = props_text_from(props, i + 1);
        let text = prop_text(p);
        assert(is_writable_prop(props[i]));
        assert(props_text_from(props, i) == seq![' '] + text + rest);
        lemma_holds_split(s, pos, seq![' '] + text, rest);
        lemma_holds_split(s, pos, seq![' '], text);
        assert(s[pos + 0] == seq![' '][0]);
        assert(is_whitespace(' '));
        let among = TagAcc { state: ParseState::Props, ..acc };
        assert(tag_from(s, pos, acc) == tag_from(s, pos + 1, among));
        // the attribute
        assert(text.len() >= p.name.len());
        assert(p.name.len() > 0);
        assert(text[0] == p.name[0]) by {
            match p.value {
                None => {},
                Some(PropTypeView::Literal(v)) => {
                    assert((p.name + seq!['=', '"'] + v + seq!['"'])[0] == p.name[0]);
                },
                Some(PropTypeView::Var(v)) => {
                    assert((p.name + seq!['=', '{'] + v + seq!['}'])[0] == p.name[0]);
                },
            }
        }
        assert(s[pos + 1 + 0] == text[0]);
        assert(is_plain(p.name[0]));
        let end = pos + 1 + text.len();
        assert(ends_flag(s, end)) by {
            if i + 1 < props.len() {
                assert(rest == seq![' '] + prop_text(props[i + 1]) + props_text_from(props, i + 2));
                assert(rest[0] == ' ');
                assert(s[end + 0] == rest[0]);
            } else {
                assert(rest.len() == 0);
            }
        }
        lemma_prop_read(s, pos + 1, p);
        let read = TagAcc { props: among.props.push(p), ..among };
        assert(tag_from(s, pos + 1, among) == tag_from(s, end, read));
        lemma_props_read(s, end, props, i + 1, read);
        assert(among.props.push(p) + props.subrange(i + 1, props.len() as int) =~= acc.props
            + props.subrange(i, props.len() as int));
    }
}

/// The text of a tag opens with `<` and the first character of its name.
proof fn lemma_written_opens(n: ASTNodeView)
    requires
        is_name(n.name),
    ensures
        written(n).len() >= 2,
        written(n)[0] == '<',
        written(n)[1] == n.name[0],
{
    let tail = if n.self_closing {
        seq!['/', '>']
    } else {
        seq!['>'] + children_text_from(n.children, 0) + seq!['<', '/'] + n.name + seq!['>']
    };
    let head = seq!['<'] + n.name;
    assert(written(n) == head + props_text_from(n.props, 0) + tail);
    assert(head[0] == '<');
    assert(head[1] == n.name[0]);
    assert((head + props_text_from(n.props, 0))[0] == head[0]);
    assert((head + props_text_from(n.props, 0))[1] == head[1]);
}

/// Written children, with the closing tag behind them, are read as the
/// children that were written, in their order, and end the tag.
pub proof fn lemma_children_read(
    s: Seq<char>,
    pos: int,
    children: Seq<ASTBodyView>,
    i: int,
    acc: TagAcc,
)
    requires
        0 <= i <= children.len(),
        are_writable_from(children, i),
        acc.state == ParseState::Body,
        acc.closing.len() == 0,
        is_name(acc.name),
        acc.buffer.len() == 0 || (is_writable_text(acc.buffer) && (i < children.len()
            ==> children[i] is Tag)),
        holds(
            s,
            pos,
            children_text_from(children, i) + seq!['<', '/'] + acc.name + seq!['>'],
        ),
    ensures
        tag_from(s, pos, acc) == Ok::<(ASTNodeView, int), ParserErrorView>(
            (
                tag_done(
                    TagAcc {
                        children: flush_text(acc).children + children.subrange(
                            i,
                            children.len() as int,
                        ),
                        ..acc
                    },
                    false,
                ),
                pos + (children_text_from(children, i) + seq!['<', '/'] + acc.name
                    + seq!['>']).len(),
            ),
        ),
    decreases children, children.len() - i,
{
    let close = seq!['<', '/'] + acc.name + seq!['>'];
    let text = children_text_from(children, i);
    assert(text + seq!['<', '/'] + acc.name + seq!['>'] =~= text + close);
    lemma_holds_split(s, pos, text, close);
    let flushed = flush_text(acc);
    assert(trimmed(Seq::<char>::empty()).len() == 0);
    if i == children.len() {
        assert(text.len() == 0);
        lemma_holds_split(s, pos, seq!['<', '/'] + acc.name, seq!['>']);
        lemma_holds_split(s, pos, seq!['<', '/'], acc.name);
        assert(s[pos + 0] == seq!['<', '/'][0]);
        assert(s[pos + 1] == seq!['<', '/'][1]);
        let closing = TagAcc { state: ParseState::ClosingTag, ..flushed };
        assert(tag_from(s, pos, acc) == tag_from(s, pos + 2, closing));
        lemma_run(s, pos + 2, acc.name, closing);
        let named = gathered(closing, acc.name);
        assert(named.closing =~= acc.name);
        let q = pos + 2 + acc.name.len();
        assert(s[q + 0] == seq!['>'][0]);
        assert(tag_from(s, q, named) == Ok::<(ASTNodeView, int), ParserErrorView>(
            (tag_done(named, false), q + 1),
        ));
        assert(flushed.children + children.subrange(i, children.len() as int)
            =~= flushed.children);
    } else {
        match children[i] {
            ASTBodyView::Tag(t) => {
                let w = written(*t);
                let rest = children_text_from(children, i + 1);
                assert(text == w + rest);
                lemma_holds_split(s, pos, w, rest);
                assert(is_writable(*t));
                assert(is_name(t.name));
                lemma_written_opens(*t);
                assert(s[pos + 0] == w[0]);
                assert(s[pos + 1] == w[1]);
                assert(is_plain(t.name[0]));
                lemma_parse_written(*t, s, pos);
                let q = pos + w.len();
                let next = TagAcc {
                    children: flushed.children.push(ASTBodyView::Tag(Box::new(*t))),
                    ..flushed
                };
                assert(tag_from(s, pos, acc) == tag_from(s, q, next));
                assert(rest + seq!['<', '/'] + acc.name + seq!['>'] =~= rest + close);
                assert(holds(s, q, rest + close)) by {
                    assert(text + close =~= w + (rest + close));
                    lemma_holds_split(s, pos, w, rest + close);
                }
                lemma_children_read(s, q, children, i + 1, next);
                assert(flush_text(next).children == next.children);
                assert(next.children + children.subrange(i + 1, children.len() as int)
                    =~= flushed.children + children.subrange(i, children.len() as int));
                assert(w.len() + (rest + close).len() == (text + close).len());
            },
            ASTBodyView::String(w) => {
                let rest = children_text_from(children, i + 1);
                assert(text == w + rest);
                lemma_holds_split(s, pos, w, rest);
                assert(acc.buffer.len() == 0);
                lemma_run(s, pos, w, acc);
                let next = gathered(acc, w);
                assert(next.buffer =~= w);
                let q = pos + w.len();
                assert(rest + seq!['<', '/'] + acc.name + seq!['>'] =~= rest + close);
                assert(holds(s, q, rest + close)) by {
                    assert(text + close =~= w + (rest + close));
                    lemma_holds_split(s, pos, w, rest + close);
                }
                lemma_children_read(s, q, children, i + 1, next);
                assert(flush_text(next).children == acc.children.push(ASTBodyView::String(w)));
                assert(flushed.children == acc.children);
                assert(flush_text(next).children + children.subrange(
                    i + 1,
                    children.len() as int,
                ) =~= flushed.children + children.subrange(i, children.len() as int));
                assert(w.len() + (rest + close).len() == (text + close).len());
            },
        }
    }
}

/// Parsing what was written gives what was written: wherever a text holds
/// the written form of a tree that can be written, the parser reads from
/// there exactly that tree, with its names, attributes and children in
/// their order, and stops behind it.
pub proof fn lemma_parse_written(n: ASTNodeView, s: Seq<char>, pos: int)
    requires
        is_writable(n),
        holds(s, pos, written(n)),
    ensures
        tag_from(s, pos, tag_start()) == Ok::<(ASTNodeView, int), ParserErrorView>(
            (n, pos + written(n).len()),
        ),
    decreases n, 0nat,
{
    let props = props_text_from(n.props, 0);
    let tail = if n.self_closing {
        seq!['/', '>']
    } else {
        seq!['>'] + children_text_from(n.children, 0) + seq!['<', '/'] + n.name + seq!['>']
    };
    assert(written(n) == seq!['<'] + n.name + props + tail);
    lemma_holds_split(s, pos, seq!['<'] + n.name + props, tail);
    lemma_holds_split(s, pos, seq!['<'] + n.name, props);
    lemma_holds_split(s, pos, seq!['<'], n.name);
    lemma_written_opens(n);
    assert(s[pos + 0] == written(n)[0]);
    assert(s[pos + 1] == written(n)[1]);
    assert(is_plain(n.name[0]));
    let start = tag_start();
    let opened = TagAcc { state: ParseState::Tag, ..start };
    assert(tag_from(s, pos, start) == tag_from(s, pos + 1, opened));
    lemma_run(s, pos + 1, n.name, opened);
    let named = gathered(opened, n.name);
    assert(named.name =~= n.name);
    let q = pos + 1 + n.name.len();
    let e = q + props.len();
    assert(s[e + 0] == tail[0]);
    assert(tail[0] == '/' || tail[0] == '>') by {
        if !n.self_closing {
            assert((seq!['>'] + children_text_from(n.children, 0))[0] == '>');
            assert((seq!['>'] + children_text_from(n.children, 0) + seq!['<', '/'])[0] == '>');
            assert((seq!['>'] + children_text_from(n.children, 0) + seq!['<', '/'] + n.name)[0]
                == '>');
        }
    }
    lemma_props_read(s, q, n.props, 0, named);
    let filled = TagAcc {
        state: if 0 < n.props.len() {
            ParseState::Props
        } else {
            ParseState::Tag
        },
        props: named.props + n.props.subrange(0, n.props.len() as int),
        ..named
    };
    assert(filled.props =~= n.props);
    assert(tag_from(s, q, named) == tag_from(s, e, filled));
    if n.self_closing {
        assert(s[e + 1] == tail[1]);
        assert(n.children =~= Seq::<ASTBodyView>::empty());
        assert(tag_done(filled, true) == n);
    } else {
        let body = TagAcc { state: ParseState::Body, ..filled };
        assert(tag_from(s, e, filled) == tag_from(s, e + 1, body));
        let inner = children_text_from(n.children, 0) + seq!['<', '/'] + n.name + seq!['>'];
        assert(tail =~= seq!['>'] + inner);
        lemma_holds_split(s, e, seq!['>'], inner);
        assert(trimmed(Seq::<char>::empty()).len() == 0);
        lemma_children_read(s, e + 1, n.children, 0, body);
        assert(flush_text(body).children + n.children.subrange(0, n.children.len() as int)
            =~= n.children);
    }
}

/// Parsing the written form of a tree that can be written gives the tree.
pub proof fn lemma_round_trip(n: ASTNodeView)
    requires
        is_writable(n),
    ensures
        crate::parser::parse_text(written(n)) == Ok::<ASTNodeView, ParserErrorView>(n),
{
    let s = written(n);
    assert(holds(s, 0, s));
    lemma_parse_written(n, s, 0);
}

/// Writes the attribute `p` behind `out`.
fn write_prop(out: &mut String, p: &ASTProp)
    ensures
        final(out)@ == old(out)@ + prop_text(p@),
{
    out.append(p.name.as_str());
    match &p.value {
        None => {},
        Some(PropType::Literal(v)) => {
            push_char(out, '=');
            push_char(out, '"');
            out.append(v.as_str());
            push_char(out, '"');
            assert(out@ =~= old(out)@ + (p.name@ + seq!['=', '"'] + v@ + seq!['"']));
        },
        Some(PropType::Var(v)) => {
            push_char(out, '=');
            push_char(out, '{');
            out.append(v.as_str());
            push_char(out, '}');
            assert(out@ =~= old(out)@ + (p.name@ + seq!['=', '{'] + v@ + seq!['}']));
        },
    }
}

/// Writes the tag `node` behind `out`.
fn write_behind(out: &mut String, node: &ASTNode)
    ensures
        final(out)@ == old(out)@ + written(node@),
    decreases node,
{
    let ghost props = props_view(node.props@);
    let ghost children = bodies_view(node.children@);
    push_char(out, '<');
    out.append(node.name.as_str());
    let ghost head = out@;
    let mut i: usize = node.props.len();
    proof {
        assert(head =~= old(out)@ + (seq!['<'] + node.name@));
    }
    // The attributes are written from the first to the last; what is still
    // to come is the text of the attributes from index `k` on.
    let mut k: usize = 0;
    while k < i
        invariant
            k <= i == node.props@.len(),
            props == props_view(node.props@),
            out@ + props_text_from(props, k as int) == head + props_text_from(props, 0),
        decreases i - k,
    {
        let ghost before = out@;
        push_char(out, ' ');
        write_prop(out, &node.props[k]);
        proof {
            assert(props[k as int] == node.props@[k as int]@);
            assert(props_text_from(props, k as int) == seq![' '] + prop_text(props[k as int])
                + props_text_from(props, k + 1));
            assert(out@ + props_text_from(props, k + 1) =~= before + props_text_from(
                props,
                k as int,
            ));
        }
        k = k + 1;
    }
    proof {
        assert(props_text_from(props, k as int) =~= Seq::<char>::empty());
        assert(out@ =~= head + props_text_from(props, 0));
    }
    if node.self_closing {
        push_char(out, '/');
        push_char(out, '>');
        proof {
            assert(out@ =~= old(out)@ + written(node@));
        }
        return ;
    }
    push_char(out, '>');
    let ghost opened = out@;
    let n: usize = node.children.len();
    let mut j: usize = 0;
    while j < n
        invariant
            j <= n == node.children@.len(),
            children == bodies_view(node.children@),
            out@ + children_text_from(children, j as int) == opened + children_text_from(
                children,
                0,
            ),
        decreases n - j,
    {
        let ghost before = out@;
        proof {
            assert(children[j as int] == node.children@[j as int]@);
        }
        match &node.children[j] {
            ASTBody::String(text) => {
                out.append(text.as_str());
            },
            ASTBody::Tag(t) => {
                write_behind(out, t);
            },
        }
        proof {
            assert(out@ + children_text_from(children, j + 1) =~= before + children_text_from(
                children,
                j as int,
            ));
        }
        j = j + 1;
    }
    proof {
        assert(children_text_from(children, j as int) =~= Seq::<char>::empty());
        assert(out@ =~= opened + children_text_from(children, 0));
    }
    push_char(out, '<');
    push_char(out, '/');
    out.append(node.name.as_str());
    push_char(out, '>');
    proof {
        assert(out@ =~= old(out)@ + written(node@));
    }
}

/// The text of the tag `node`: what [`written`] gives.
pub fn write_node(node: &ASTNode) -> (r: String)
    ensures
        r@ == written(node@),
{
    let mut r: String = String::new();
    write_behind(&mut r, node);
    assert(r@ =~= written(node@));
    r
}

} // verus!

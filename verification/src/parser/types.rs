//! The generic tree that the markup parser builds.
use vstd::prelude::*;

verus! {

/// The value of an attribute: quoted text, or the raw text between braces.
#[derive(Debug, PartialEq, Eq)]
pub enum PropType {
    Literal(String),
    Var(String),
}

/// The mathematical value of a [`PropType`].
pub enum PropTypeView {
    Literal(Seq<char>),
    Var(Seq<char>),
}

impl View for PropType {
    type V = PropTypeView;

    open spec fn view(&self) -> PropTypeView {
        match self {
            PropType::Literal(s) => PropTypeView::Literal(s@),
            PropType::Var(s) => PropTypeView::Var(s@),
        }
    }
}

impl Clone for PropType {
    fn clone(&self) -> (r: Self)
        ensures
            r@ == self@,
    {
        match self {
            PropType::Literal(s) => PropType::Literal(s.clone()),
            PropType::Var(s) => PropType::Var(s.clone()),
        }
    }
}

/// An attribute of a tag: a name and, unless it is a bare flag, a value.
#[derive(Debug, PartialEq, Eq)]
pub struct ASTProp {
    pub name: String,
    pub value: Option<PropType>,
}

/// The mathematical value of an [`ASTProp`].
pub struct ASTPropView {
    pub name: Seq<char>,
    pub value: Option<PropTypeView>,
}

impl View for ASTProp {
    type V = ASTPropView;

    open spec fn view(&self) -> ASTPropView {
        ASTPropView {
            name: self.name@,
            value: match self.value {
                Some(v) => Some(v@),
                None => None,
            },
        }
    }
}

impl Clone for ASTProp {
    fn clone(&self) -> (r: Self)
        ensures
            r@ == self@,
    {
        let value = match &self.value {
            Some(v) => Some(v.clone()),
            None => None,
        };
        ASTProp { name: self.name.clone(), value }
    }
}

/// A child of a tag: a run of text, or a nested tag.
#[derive(Debug, PartialEq, Eq)]
pub enum ASTBody {
    String(String),
    Tag(Box<ASTNode>),
}

/// A tag: its name, its attributes and children in source order, and whether
/// it was written in the self-closing form.
#[derive(Debug, PartialEq, Eq)]
pub struct ASTNode {
    pub name: String,
    pub children: Vec<ASTBody>,
    pub props: Vec<ASTProp>,
    pub self_closing: bool,
}

/// The mathematical value of an [`ASTBody`].
pub enum ASTBodyView {
    String(Seq<char>),
    Tag(Box<ASTNodeView>),
}

/// The mathematical value of an [`ASTNode`].
pub struct ASTNodeView {
    pub name: Seq<char>,
    pub children: Seq<ASTBodyView>,
    pub props: Seq<ASTPropView>,
    pub self_closing: bool,
}

/// The values of a list of attributes, in order.
pub open spec fn props_view(props: Seq<ASTProp>) -> Seq<ASTPropView> {
    Seq::new(props.len(), |i: int| props[i]@)
}

/// The value of a child.
pub open spec fn body_view(b: ASTBody) -> ASTBodyView
    decreases b,
{
    match b {
        ASTBody::String(s) => ASTBodyView::String(s@),
        ASTBody::Tag(node) => ASTBodyView::Tag(Box::new(node_view(*node))),
    }
}

/// The values of a list of children, in order.
pub open spec fn bodies_view(bs: Seq<ASTBody>) -> Seq<ASTBodyView>
    decreases bs,
{
    Seq::new(
        bs.len(),
        |i: int|
            if 0 <= i < bs.len() {
                body_view(bs[i])
            } else {
                ASTBodyView::String(Seq::empty())
            },
    )
}

/// The value of a tag.
pub open spec fn node_view(n: ASTNode) -> ASTNodeView
    decreases n,
{
    ASTNodeView {
        name: n.name@,
        children: bodies_view(n.children@),
        props: props_view(n.props@),
        self_closing: n.self_closing,
    }
}

impl View for ASTBody {
    type V = ASTBodyView;

    open spec fn view(&self) -> ASTBodyView {
        body_view(*self)
    }
}

impl View for ASTNode {
    type V = ASTNodeView;

    open spec fn view(&self) -> ASTNodeView {
        node_view(*self)
    }
}

} // verus!

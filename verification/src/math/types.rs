//! Expression trees.
use crate::code_tree::types::DataType;
use vstd::prelude::*;

verus! {

/// A reference to a name: the name and, once the type checker has seen it,
/// the type of what it is bound to and whether that is a function.
#[derive(Debug, PartialEq, Eq)]
pub struct VariableType {
    pub name: String,
    pub data_type: DataType,
    pub is_func: bool,
}

/// The mathematical value of a [`VariableType`].
pub struct VariableTypeView {
    pub name: Seq<char>,
    pub data_type: DataType,
    pub is_func: bool,
}

impl View for VariableType {
    type V = VariableTypeView;

    open spec fn view(&self) -> VariableTypeView {
        VariableTypeView { name: self.name@, data_type: self.data_type, is_func: self.is_func }
    }
}

impl VariableType {
    /// A reference to `name` with the given type and kind.
    pub fn new(name: String, data_type: DataType, is_func: bool) -> (v: Self)
        ensures
            v@ == (VariableTypeView { name: name@, data_type, is_func }),
    {
        VariableType { name, data_type, is_func }
    }
}

impl Clone for VariableType {
    fn clone(&self) -> (r: Self)
        ensures
            r@ == self@,
    {
        VariableType {
            name: self.name.clone(),
            data_type: self.data_type,
            is_func: self.is_func,
        }
    }
}

/// An expression: a number, a reference to a name, a string, or one of the
/// five binary operations on two expressions.
#[derive(Debug, PartialEq, Eq)]
pub enum ExprToken {
    Number(i32),
    Variable(VariableType),
    Literal(String),
    Add(Box<ExprToken>, Box<ExprToken>),
    Sub(Box<ExprToken>, Box<ExprToken>),
    Mul(Box<ExprToken>, Box<ExprToken>),
    Div(Box<ExprToken>, Box<ExprToken>),
    Pow(Box<ExprToken>, Box<ExprToken>),
}

/// The mathematical value of an [`ExprToken`].
pub enum ExprView {
    Number(i32),
    Variable(VariableTypeView),
    Literal(Seq<char>),
    Add(Box<ExprView>, Box<ExprView>),
    Sub(Box<ExprView>, Box<ExprView>),
    Mul(Box<ExprView>, Box<ExprView>),
    Div(Box<ExprView>, Box<ExprView>),
    Pow(Box<ExprView>, Box<ExprView>),
}

/// The value of an expression.
pub open spec fn expr_view(e: ExprToken) -> ExprView
    decreases e,
{
    match e {
        ExprToken::Number(n) => ExprView::Number(n),
        ExprToken::Variable(v) => ExprView::Variable(v@),
        ExprToken::Literal(s) => ExprView::Literal(s@),
        ExprToken::Add(a, b) => ExprView::Add(Box::new(expr_view(*a)), Box::new(expr_view(*b))),
        ExprToken::Sub(a, b) => ExprView::Sub(Box::new(expr_view(*a)), Box::new(expr_view(*b))),
        ExprToken::Mul(a, b) => ExprView::Mul(Box::new(expr_view(*a)), Box::new(expr_view(*b))),
        ExprToken::Div(a, b) => ExprView::Div(Box::new(expr_view(*a)), Box::new(expr_view(*b))),
        ExprToken::Pow(a, b) => ExprView::Pow(Box::new(expr_view(*a)), Box::new(expr_view(*b))),
    }
}

impl View for ExprToken {
    type V = ExprView;

    open spec fn view(&self) -> ExprView {
        expr_view(*self)
    }
}

/// A copy of `e`.
pub fn clone_expr(e: &ExprToken) -> (r: ExprToken)
    ensures
        r@ == e@,
    decreases e,
{
    match e {
        ExprToken::Number(n) => ExprToken::Number(*n),
        ExprToken::Variable(v) => ExprToken::Variable(v.clone()),
        ExprToken::Literal(s) => ExprToken::Literal(s.clone()),
        ExprToken::Add(a, b) => ExprToken::Add(Box::new(clone_expr(a)), Box::new(clone_expr(b))),
        ExprToken::Sub(a, b) => ExprToken::Sub(Box::new(clone_expr(a)), Box::new(clone_expr(b))),
        ExprToken::Mul(a, b) => ExprToken::Mul(Box::new(clone_expr(a)), Box::new(clone_expr(b))),
        ExprToken::Div(a, b) => ExprToken::Div(Box::new(clone_expr(a)), Box::new(clone_expr(b))),
        ExprToken::Pow(a, b) => ExprToken::Pow(Box::new(clone_expr(a)), Box::new(clone_expr(b))),
    }
}

impl Clone for ExprToken {
    fn clone(&self) -> (r: Self)
        ensures
            r@ == self@,
    {
        clone_expr(self)
    }
}

} // verus!

//! The typed program tree.
use crate::math::types::{clone_expr, expr_view, ExprToken, ExprView};
use vstd::prelude::*;

verus! {

/// The types of the language. `Any` is internal: it stands for an argument
/// of a built-in function that takes a value of every type.
#[derive(Debug, Clone, Copy, PartialEq, Eq, Structural)]
pub enum DataType {
    Int,
    Bool,
    Str,
    Void,
    Any,
}

/// The kinds of block.
#[derive(Debug, Clone, Copy, PartialEq, Eq, Structural)]
pub enum BlockType {
    Html,
    Head,
    Main,
    Div,
    For,
}

/// A node of the program tree.
#[derive(Debug, PartialEq, Eq)]
#[allow(clippy::upper_case_acronyms)]
pub enum NodeType {
    BLOCK(BlockStruct),
    DEFINITION(DefinitionType),
    CALL(CallStruct),
    ASSIGN(AssignStruct),
    ServiceBlock(ServiceBlockType),
}

/// A block: its kind and its statements.
#[derive(Debug, PartialEq, Eq)]
pub struct BlockStruct {
    pub tag: BlockType,
    pub children: Vec<Box<NodeType>>,
}

/// A definition of a function or of a variable.
#[derive(Debug, PartialEq, Eq)]
pub enum DefinitionType {
    Function(FunctionDefinitionStruct),
    Variable(VariableDefinitionStruct),
}

/// A parameter of a function: its name and type.
#[derive(Debug, PartialEq, Eq)]
pub struct ArgStruct {
    pub name: String,
    pub data_type: DataType,
}

/// A variable: its type, name and initial value, and whether it is constant.
#[derive(Debug, PartialEq, Eq)]
pub struct VariableDefinitionStruct {
    pub data_type: DataType,
    pub name: String,
    pub value: AssignEnum,
    pub is_const: bool,
}

/// A function: its return type, name, body and parameters, and whether a
/// backend has to emit a definition for it.
#[derive(Debug, PartialEq, Eq)]
pub struct FunctionDefinitionStruct {
    pub data_type: DataType,
    pub name: String,
    pub children: Vec<Box<NodeType>>,
    pub args: Vec<ArgStruct>,
    pub must_be_compiled: bool,
}

/// An argument of a call: the parameter's name and, unless it is a bare
/// flag, its value.
#[derive(Debug, PartialEq, Eq)]
pub struct CallArgStruct {
    pub name: String,
    pub value: Option<ExprToken>,
}

/// A call of a function by name.
#[derive(Debug, PartialEq, Eq)]
pub struct CallStruct {
    pub calling_name: String,
    pub args: Vec<CallArgStruct>,
}

/// The value that a variable takes: an expression, the result of a call, or
/// nothing yet.
#[derive(Debug, PartialEq, Eq)]
pub enum AssignEnum {
    Expr(ExprToken),
    Call(Box<NodeType>),
    Empty,
}

/// An assignment to a variable.
#[derive(Debug, PartialEq, Eq)]
pub struct AssignStruct {
    pub name: String,
    pub body: AssignEnum,
}

/// The constructs that are lowered specially.
#[derive(Debug, PartialEq, Eq)]
pub enum ServiceBlockType {
    For(ForStruct),
}

/// A counting loop: its bounds, the name of its counter, and its body, whose
/// first statement defines the counter.
#[derive(Debug, PartialEq, Eq)]
pub struct ForStruct {
    pub start: ExprToken,
    pub end: ExprToken,
    pub iter_name: String,
    pub children: Vec<Box<NodeType>>,
}

/// The mathematical value of a [`NodeType`].
pub enum NodeView {
    Block(BlockView),
    Definition(DefinitionView),
    Call(CallView),
    Assign(AssignView),
    ServiceBlock(ForView),
}

/// The mathematical value of a [`BlockStruct`].
pub struct BlockView {
    pub tag: BlockType,
    pub children: Seq<NodeView>,
}

/// The mathematical value of a [`DefinitionType`].
pub enum DefinitionView {
    Function(FunctionView),
    Variable(VariableView),
}

/// The mathematical value of an [`ArgStruct`].
pub struct ArgView {
    pub name: Seq<char>,
    pub data_type: DataType,
}

/// The mathematical value of a [`VariableDefinitionStruct`].
pub struct VariableView {
    pub data_type: DataType,
    pub name: Seq<char>,
    pub value: ValueView,
    pub is_const: bool,
}

/// The mathematical value of a [`FunctionDefinitionStruct`].
pub struct FunctionView {
    pub data_type: DataType,
    pub name: Seq<char>,
    pub children: Seq<NodeView>,
    pub args: Seq<ArgView>,
    pub must_be_compiled: bool,
}

/// The mathematical value of a [`CallArgStruct`].
pub struct CallArgView {
    pub name: Seq<char>,
    pub value: Option<ExprView>,
}

/// The mathematical value of a [`CallStruct`].
pub struct CallView {
    pub calling_name: Seq<char>,
    pub args: Seq<CallArgView>,
}

/// The mathematical value of an [`AssignEnum`].
pub enum ValueView {
    Expr(ExprView),
    Call(Box<NodeView>),
    Empty,
}

/// The mathematical value of an [`AssignStruct`].
pub struct AssignView {
    pub name: Seq<char>,
    pub body: ValueView,
}

/// The mathematical value of a [`ForStruct`].
pub struct ForView {
    pub start: ExprView,
    pub end: ExprView,
    pub iter_name: Seq<char>,
    pub children: Seq<NodeView>,
}

impl View for ArgStruct {
    type V = ArgView;

    open spec fn view(&self) -> ArgView {
        ArgView { name: self.name@, data_type: self.data_type }
    }
}

impl View for CallArgStruct {
    type V = CallArgView;

    open spec fn view(&self) -> CallArgView {
        CallArgView {
            name: self.name@,
            value: match self.value {
                Some(e) => Some(e@),
                None => None,
            },
        }
    }
}

/// The values of a list of parameters, in order.
pub open spec fn args_view(args: Seq<ArgStruct>) -> Seq<ArgView> {
    Seq::new(args.len(), |i: int| args[i]@)
}

/// The values of a list of arguments, in order.
pub open spec fn call_args_view(args: Seq<CallArgStruct>) -> Seq<CallArgView> {
    Seq::new(args.len(), |i: int| args[i]@)
}

impl View for CallStruct {
    type V = CallView;

    open spec fn view(&self) -> CallView {
        CallView { calling_name: self.calling_name@, args: call_args_view(self.args@) }
    }
}

/// The value of a node.
pub open spec fn node_view(n: NodeType) -> NodeView
    decreases n,
{
    match n {
        NodeType::BLOCK(b) => NodeView::Block(
            BlockView { tag: b.tag, children: nodes_view(b.children@) },
        ),
        NodeType::DEFINITION(DefinitionType::Function(f)) => NodeView::Definition(
            DefinitionView::Function(
                FunctionView {
                    data_type: f.data_type,
                    name: f.name@,
                    children: nodes_view(f.children@),
                    args: args_view(f.args@),
                    must_be_compiled: f.must_be_compiled,
                },
            ),
        ),
        NodeType::DEFINITION(DefinitionType::Variable(v)) => NodeView::Definition(
            DefinitionView::Variable(
                VariableView {
                    data_type: v.data_type,
                    name: v.name@,
                    value: value_view(v.value),
                    is_const: v.is_const,
                },
            ),
        ),
        NodeType::CALL(c) => NodeView::Call(c@),
        NodeType::ASSIGN(a) => NodeView::Assign(
            AssignView { name: a.name@, body: value_view(a.body) },
        ),
        NodeType::ServiceBlock(ServiceBlockType::For(f)) => NodeView::ServiceBlock(
            ForView {
                start: expr_view(f.start),
                end: expr_view(f.end),
                iter_name: f.iter_name@,
                children: nodes_view(f.children@),
            },
        ),
    }
}

/// The values of a list of nodes, in order.
pub open spec fn nodes_view(ns: Seq<Box<NodeType>>) -> Seq<NodeView>
    decreases ns,
{
    Seq::new(
        ns.len(),
        |i: int|
            if 0 <= i < ns.len() {
                node_view(*ns[i])
            } else {
                NodeView::Assign(AssignView { name: Seq::empty(), body: ValueView::Empty })
            },
    )
}

/// The value of a variable's value.
pub open spec fn value_view(v: AssignEnum) -> ValueView
    decreases v,
{
    match v {
        AssignEnum::Expr(e) => ValueView::Expr(expr_view(e)),
        AssignEnum::Call(n) => ValueView::Call(Box::new(node_view(*n))),
        AssignEnum::Empty => ValueView::Empty,
    }
}

impl View for NodeType {
    type V = NodeView;

    open spec fn view(&self) -> NodeView {
        node_view(*self)
    }
}

impl View for AssignEnum {
    type V = ValueView;

    open spec fn view(&self) -> ValueView {
        value_view(*self)
    }
}

impl View for BlockStruct {
    type V = BlockView;

    open spec fn view(&self) -> BlockView {
        BlockView { tag: self.tag, children: nodes_view(self.children@) }
    }
}

impl View for FunctionDefinitionStruct {
    type V = FunctionView;

    open spec fn view(&self) -> FunctionView {
        FunctionView {
            data_type: self.data_type,
            name: self.name@,
            children: nodes_view(self.children@),
            args: args_view(self.args@),
            must_be_compiled: self.must_be_compiled,
        }
    }
}

impl View for VariableDefinitionStruct {
    type V = VariableView;

    open spec fn view(&self) -> VariableView {
        VariableView {
            data_type: self.data_type,
            name: self.name@,
            value: value_view(self.value),
            is_const: self.is_const,
        }
    }
}

impl View for DefinitionType {
    type V = DefinitionView;

    open spec fn view(&self) -> DefinitionView {
        match self {
            DefinitionType::Function(f) => DefinitionView::Function(f@),
            DefinitionType::Variable(v) => DefinitionView::Variable(v@),
        }
    }
}

impl View for AssignStruct {
    type V = AssignView;

    open spec fn view(&self) -> AssignView {
        AssignView { name: self.name@, body: value_view(self.body) }
    }
}

impl View for ForStruct {
    type V = ForView;

    open spec fn view(&self) -> ForView {
        ForView {
            start: expr_view(self.start),
            end: expr_view(self.end),
            iter_name: self.iter_name@,
            children: nodes_view(self.children@),
        }
    }
}

impl View for ServiceBlockType {
    type V = ForView;

    open spec fn view(&self) -> ForView {
        match self {
            ServiceBlockType::For(f) => f@,
        }
    }
}

impl ArgStruct {
    /// A parameter with the name `name` and the type `data_type`.
    pub fn new(name: String, data_type: DataType) -> (a: ArgStruct)
        ensures
            a@ == (ArgView { name: name@, data_type }),
    {
        ArgStruct { name, data_type }
    }
}

impl FunctionDefinitionStruct {
    /// A function without a body, as the built-in functions are declared.
    pub fn new_internal(
        name: String,
        data_type: DataType,
        args: Vec<ArgStruct>,
        must_be_compiled: bool,
    ) -> (f: FunctionDefinitionStruct)
        ensures
            f@ == (FunctionView {
                data_type,
                name: name@,
                children: Seq::empty(),
                args: args_view(args@),
                must_be_compiled,
            }),
    {
        let f = FunctionDefinitionStruct {
            data_type,
            name,
            children: Vec::new(),
            args,
            must_be_compiled,
        };
        assert(nodes_view(f.children@) =~= Seq::<NodeView>::empty());
        f
    }
}

impl AssignStruct {
    /// An assignment to `name` whose value is still to be given.
    pub fn new(name: String) -> (a: Self)
        ensures
            a@ == (AssignView { name: name@, body: ValueView::Empty }),
    {
        AssignStruct { name, body: AssignEnum::Empty }
    }
}

impl Clone for ArgStruct {
    fn clone(&self) -> (r: Self)
        ensures
            r@ == self@,
    {
        ArgStruct { name: self.name.clone(), data_type: self.data_type }
    }
}

impl Clone for CallArgStruct {
    fn clone(&self) -> (r: Self)
        ensures
            r@ == self@,
    {
        let value: Option<ExprToken> = match &self.value {
            Some(e) => Some(clone_expr(e)),
            None => None,
        };
        CallArgStruct { name: self.name.clone(), value }
    }
}

/// A copy of a list of parameters.
pub fn clone_args(args: &Vec<ArgStruct>) -> (r: Vec<ArgStruct>)
    ensures
        args_view(r@) == args_view(args@),
{
    let mut r: Vec<ArgStruct> = Vec::new();
    let mut i: usize = 0;
    while i < args.len()
        invariant
            i <= args@.len(),
            r@.len() == i,
            forall|j: int| 0 <= j < i ==> r@[j]@ == args@[j]@,
        decreases args@.len() - i,
    {
        r.push(args[i].clone());
        i = i + 1;
    }
    assert(args_view(r@) =~= args_view(args@));
    r
}

/// A copy of a list of arguments.
pub fn clone_call_args(args: &Vec<CallArgStruct>) -> (r: Vec<CallArgStruct>)
    ensures
        call_args_view(r@) == call_args_view(args@),
{
    let mut r: Vec<CallArgStruct> = Vec::new();
    let mut i: usize = 0;
    while i < args.len()
        invariant
            i <= args@.len(),
            r@.len() == i,
            forall|j: int| 0 <= j < i ==> r@[j]@ == args@[j]@,
        decreases args@.len() - i,
    {
        r.push(args[i].clone());
        i = i + 1;
    }
    assert(call_args_view(r@) =~= call_args_view(args@));
    r
}

impl Clone for CallStruct {
    fn clone(&self) -> (r: Self)
        ensures
            r@ == self@,
    {
        CallStruct { calling_name: self.calling_name.clone(), args: clone_call_args(&self.args) }
    }
}

/// A copy of `n`.
pub fn clone_node(n: &NodeType) -> (r: NodeType)
    ensures
        r@ == n@,
    decreases n,
{
    match n {
        NodeType::BLOCK(b) => NodeType::BLOCK(
            BlockStruct { tag: b.tag, children: clone_nodes(&b.children) },
        ),
        NodeType::DEFINITION(DefinitionType::Function(f)) => NodeType::DEFINITION(
            DefinitionType::Function(
                FunctionDefinitionStruct {
                    data_type: f.data_type,
                    name: f.name.clone(),
                    children: clone_nodes(&f.children),
                    args: clone_args(&f.args),
                    must_be_compiled: f.must_be_compiled,
                },
            ),
        ),
        NodeType::DEFINITION(DefinitionType::Variable(v)) => NodeType::DEFINITION(
            DefinitionType::Variable(
                VariableDefinitionStruct {
                    data_type: v.data_type,
                    name: v.name.clone(),
                    value: clone_value(&v.value),
                    is_const: v.is_const,
                },
            ),
        ),
        NodeType::CALL(c) => NodeType::CALL(c.clone()),
        NodeType::ASSIGN(a) => NodeType::ASSIGN(
            AssignStruct { name: a.name.clone(), body: clone_value(&a.body) },
        ),
        NodeType::ServiceBlock(ServiceBlockType::For(f)) => NodeType::ServiceBlock(
            ServiceBlockType::For(
                ForStruct {
                    start: clone_expr(&f.start),
                    end: clone_expr(&f.end),
                    iter_name: f.iter_name.clone(),
                    children: clone_nodes(&f.children),
                },
            ),
        ),
    }
}

/// A copy of a list of nodes.
pub fn clone_nodes(ns: &Vec<Box<NodeType>>) -> (r: Vec<Box<NodeType>>)
    ensures
        nodes_view(r@) == nodes_view(ns@),
    decreases ns,
{
    let mut r: Vec<Box<NodeType>> = Vec::new();
    let mut i: usize = 0;
    while i < ns.len()
        invariant
            i <= ns@.len(),
            r@.len() == i,
            forall|j: int| 0 <= j < i ==> node_view(*r@[j]) == node_view(*ns@[j]),
        decreases ns@.len() - i,
    {
        r.push(Box::new(clone_node(&ns[i])));
        i = i + 1;
    }
    assert(nodes_view(r@) =~= nodes_view(ns@));
    r
}

/// A copy of `v`.
pub fn clone_value(v: &AssignEnum) -> (r: AssignEnum)
    ensures
        r@ == v@,
    decreases v,
{
    match v {
        AssignEnum::Expr(e) => AssignEnum::Expr(clone_expr(e)),
        AssignEnum::Call(n) => AssignEnum::Call(Box::new(clone_node(n))),
        AssignEnum::Empty => AssignEnum::Empty,
    }
}

impl Clone for NodeType {
    fn clone(&self) -> (r: Self)
        ensures
            r@ == self@,
    {
        clone_node(self)
    }
}

impl Clone for AssignEnum {
    fn clone(&self) -> (r: Self)
        ensures
            r@ == self@,
    {
        clone_value(self)
    }
}

impl Clone for FunctionDefinitionStruct {
    fn clone(&self) -> (r: Self)
        ensures
            r@ == self@,
    {
        FunctionDefinitionStruct {
            data_type: self.data_type,
            name: self.name.clone(),
            children: clone_nodes(&self.children),
            args: clone_args(&self.args),
            must_be_compiled: self.must_be_compiled,
        }
    }
}

impl Clone for VariableDefinitionStruct {
    fn clone(&self) -> (r: Self)
        ensures
            r@ == self@,
    {
        VariableDefinitionStruct {
            data_type: self.data_type,
            name: self.name.clone(),
            value: clone_value(&self.value),
            is_const: self.is_const,
        }
    }
}

} // verus!

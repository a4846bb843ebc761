//! Lowering: from the generic tree of tags to the typed program tree.
//!
//! A tag is classified by its name. `int`, `bool`, `str` and `void` define a
//! variable or a function; `html`, `head`, `main` and `div` are blocks;
//! `for` is a loop; any other tag is a call where it is self-closing and an
//! assignment where it is not.
pub mod types;

use crate::definitions::{resolve_program, start_def_check};
use crate::errors::{error_about, error_saying, ErrorKind, SimpleError, SimpleErrorView};
use crate::libs::stdlib::{library, Std};
use crate::math::parse_expression;
use crate::math::parse_expression_spec;
use crate::math::types::{clone_expr, ExprToken, ExprView};
use crate::parser::types::{
    bodies_view, props_view, ASTBody, ASTBodyView, ASTNode, ASTNodeView, ASTProp, ASTPropView,
    PropType, PropTypeView,
};
use crate::text::{is_letter, is_text};
use crate::types::typechecker::{start_types_check, typecheck_program};
use regex::Regex;
use types::{
    args_view, call_args_view, clone_node, nodes_view, ArgStruct, ArgView, AssignEnum, AssignStruct,
    AssignView, BlockStruct, BlockType, BlockView, CallArgStruct, CallArgView, CallStruct,
    CallView, DataType, DefinitionType, DefinitionView, ForStruct, ForView,
    FunctionDefinitionStruct, FunctionView, NodeType, NodeView, ServiceBlockType, ValueView,
    VariableDefinitionStruct, VariableView,
};
use vstd::prelude::*;
use vstd::string::*;

verus! {

/// What a tag is, by its name and form.
#[derive(Debug, Clone, Copy, PartialEq, Eq, Structural)]
pub enum TempNodeType {
    Definition(DataType),
    Block(BlockType),
    ServiceBlock(BlockType),
    Call,
    Assign,
}

/// The kind of the tag named `name`.
pub open spec fn classify(name: Seq<char>, self_closing: bool) -> TempNodeType {
    if name == "int"@ {
        TempNodeType::Definition(DataType::Int)
    } else if name == "bool"@ {
        TempNodeType::Definition(DataType::Bool)
    } else if name == "str"@ {
        TempNodeType::Definition(DataType::Str)
    } else if name == "void"@ {
        TempNodeType::Definition(DataType::Void)
    } else if name == "html"@ {
        TempNodeType::Block(BlockType::Html)
    } else if name == "head"@ {
        TempNodeType::Block(BlockType::Head)
    } else if name == "main"@ {
        TempNodeType::Block(BlockType::Main)
    } else if name == "div"@ {
        TempNodeType::Block(BlockType::Div)
    } else if name == "for"@ {
        TempNodeType::ServiceBlock(BlockType::For)
    } else if self_closing {
        TempNodeType::Call
    } else {
        TempNodeType::Assign
    }
}

/// The type that a parameter's attribute names.
pub open spec fn param_type(text: Seq<char>) -> Option<DataType> {
    if text == "int"@ {
        Some(DataType::Int)
    } else if text == "str"@ {
        Some(DataType::Str)
    } else if text == "bool"@ {
        Some(DataType::Bool)
    } else {
        None
    }
}

/// A name that can be defined: one or more letters and underscores.
pub open spec fn valid_identifier(s: Seq<char>) -> bool {
    s.len() > 0 && forall|i: int| 0 <= i < s.len() ==> is_letter(#[trigger] s[i]) || s[i] == '_'
}

/// An error of lowering with a fixed message.
pub open spec fn lowering_failure(text: Seq<char>) -> SimpleErrorView {
    error_saying(ErrorKind::Parsing, text)
}

/// An error of lowering whose message quotes `name`.
pub open spec fn lowering_failure_about(
    prefix: Seq<char>,
    name: Seq<char>,
    suffix: Seq<char>,
) -> SimpleErrorView {
    error_about(ErrorKind::Parsing, prefix, name, suffix)
}

/// The first attribute named `name` among `props[i..]`.
pub open spec fn find_prop(props: Seq<ASTPropView>, name: Seq<char>, i: int) -> Option<ASTPropView>
    decreases props.len() - i,
{
    if i < 0 || i >= props.len() {
        None
    } else if props[i].name == name {
        Some(props[i])
    } else {
        find_prop(props, name, i + 1)
    }
}

/// The argument that an attribute gives to a call: quoted text is a string,
/// text in braces an expression, a bare attribute a flag.
pub open spec fn lower_arg(p: ASTPropView) -> Result<CallArgView, SimpleErrorView> {
    match p.value {
        None => Ok(CallArgView { name: p.name, value: None }),
        Some(PropTypeView::Literal(s)) => Ok(
            CallArgView { name: p.name, value: Some(ExprView::Literal(s)) },
        ),
        Some(PropTypeView::Var(s)) => match parse_expression_spec(s) {
            Ok(e) => Ok(CallArgView { name: p.name, value: Some(e) }),
            Err(e) => Err(e),
        },
    }
}

/// The arguments that the attributes `props[i..]` give, behind `done`.
pub open spec fn lower_args_from(props: Seq<ASTPropView>, i: int, done: Seq<CallArgView>) -> Result<
    Seq<CallArgView>,
    SimpleErrorView,
>
    decreases props.len() - i,
{
    if i < 0 || i >= props.len() {
        Ok(done)
    } else {
        match lower_arg(props[i]) {
            Ok(arg) => lower_args_from(props, i + 1, done.push(arg)),
            Err(e) => Err(e),
        }
    }
}

/// The arguments that the attributes `props` give to a call.
pub open spec fn lower_args(props: Seq<ASTPropView>) -> Result<Seq<CallArgView>, SimpleErrorView> {
    lower_args_from(props, 0, Seq::empty())
}

/// The bound of a loop that the attribute `name` gives: the attribute must
/// be there and have a value, whose text is read as an expression.
pub open spec fn loop_bound(props: Seq<ASTPropView>, name: Seq<char>) -> Result<
    ExprView,
    SimpleErrorView,
> {
    match find_prop(props, name, 0) {
        None => Err(lowering_failure_about("Argument `"@, name, "` in for block is required"@)),
        Some(p) => match p.value {
            None => Err(lowering_failure_about("Argument `"@, name, "` cannot be bool"@)),
            Some(PropTypeView::Literal(s)) => parse_expression_spec(s),
            Some(PropTypeView::Var(s)) => parse_expression_spec(s),
        },
    }
}

/// The name of a loop's counter: the quoted value of the attribute `i`.
pub open spec fn loop_counter(props: Seq<ASTPropView>) -> Result<Seq<char>, SimpleErrorView> {
    match find_prop(props, "i"@, 0) {
        None => Err(lowering_failure_about("Argument `"@, "i"@, "` in for block is required"@)),
        Some(p) => match p.value {
            None => Err(lowering_failure_about("Argument `"@, "i"@, "` cannot be bool"@)),
            Some(PropTypeView::Literal(s)) => Ok(s),
            Some(PropTypeView::Var(_)) => Err(lowering_failure("Argument `i` must be a literal"@)),
        },
    }
}

/// The name that a definition's attribute `name` gives: quoted, and a valid
/// identifier.
pub open spec fn defined_name(props: Seq<ASTPropView>) -> Result<Seq<char>, SimpleErrorView> {
    match find_prop(props, "name"@, 0) {
        None => Err(lowering_failure("You should define name for variable!"@)),
        Some(p) => match p.value {
            Some(PropTypeView::Literal(s)) => if valid_identifier(s) {
                Ok(s)
            } else {
                Err(lowering_failure_about("`"@, s, "` is not valid name!"@))
            },
            _ => Err(
                lowering_failure("Cannot use dynamic value for defining a variable name!"@),
            ),
        },
    }
}

/// The parameter that an attribute declares: its value is the quoted name
/// of a type.
pub open spec fn lower_param(p: ASTPropView) -> Result<ArgView, SimpleErrorView> {
    match p.value {
        None => Err(lowering_failure_about("Function argument cannot be a flag: "@, p.name, ""@)),
        Some(PropTypeView::Var(_)) => Err(
            lowering_failure_about("Function argument type cannot be a variable: "@, p.name, ""@),
        ),
        Some(PropTypeView::Literal(t)) => match param_type(t) {
            Some(data_type) => Ok(ArgView { name: p.name, data_type }),
            None => Err(
                lowering_failure_about("Unknown data type for function argument: "@, p.name, ""@),
            ),
        },
    }
}

/// The parameters that the attributes `props[i..]` declare, behind `done`:
/// every attribute but `name` is one.
pub open spec fn lower_params_from(props: Seq<ASTPropView>, i: int, done: Seq<ArgView>) -> Result<
    Seq<ArgView>,
    SimpleErrorView,
>
    decreases props.len() - i,
{
    if i < 0 || i >= props.len() {
        Ok(done)
    } else if props[i].name == "name"@ {
        lower_params_from(props, i + 1, done)
    } else {
        match lower_param(props[i]) {
            Ok(arg) => lower_params_from(props, i + 1, done.push(arg)),
            Err(e) => Err(e),
        }
    }
}

/// Whether one of `props[i..]` is named neither `name` nor, where `flags`
/// holds, `const`.
pub open spec fn has_other_props(props: Seq<ASTPropView>, i: int, flags: bool) -> bool
    decreases props.len() - i,
{
    if i < 0 || i >= props.len() {
        false
    } else if props[i].name != "name"@ && !(flags && props[i].name == "const"@) {
        true
    } else {
        has_other_props(props, i + 1, flags)
    }
}

/// Whether one of `props[i..]` is the bare flag `const`.
pub open spec fn has_const_flag(props: Seq<ASTPropView>, i: int) -> bool
    decreases props.len() - i,
{
    if i < 0 || i >= props.len() {
        false
    } else if props[i].name == "const"@ && props[i].value is None {
        true
    } else {
        has_const_flag(props, i + 1)
    }
}

/// Whether every one of `children[i..]` is a tag.
pub open spec fn all_tags_from(children: Seq<ASTBodyView>, i: int) -> bool
    decreases children.len() - i,
{
    if i < 0 || i >= children.len() {
        true
    } else {
        children[i] is Tag && all_tags_from(children, i + 1)
    }
}

/// Whether `child` is a self-closing tag named `return`.
pub open spec fn is_return_call(child: ASTBodyView) -> bool {
    match child {
        ASTBodyView::Tag(t) => t.self_closing && t.name == "return"@,
        ASTBodyView::String(_) => false,
    }
}

/// Whether a definition tag with these attributes and children defines a
/// function: it has several children, all of them tags; or its one child is
/// a self-closing `return`; or it has no child, but parameters.
pub open spec fn defines_function(props: Seq<ASTPropView>, children: Seq<ASTBodyView>) -> bool {
    if children.len() > 1 {
        all_tags_from(children, 0)
    } else if children.len() == 1 {
        is_return_call(children[0])
    } else {
        has_other_props(props, 0, false)
    }
}

/// The program node that the tag `n` lowers to.
///
/// A block holds what its child tags lower to, and takes no text. A loop
/// needs the attributes `start`, `end` and `i`; its body opens with the
/// definition of its counter as an `Int` variable whose value is `start`.
/// A definition needs a valid quoted `name`. Where it defines a function,
/// its other attributes are the parameters and its children the body;
/// otherwise it must have exactly one child, the variable's value (text is
/// read as an expression, a tag as a call), and no attributes but `name`
/// and `const`. A call's attributes are its arguments. An assignment's
/// value is its last child.
pub open spec fn lower(n: ASTNodeView) -> Result<NodeView, SimpleErrorView>
    decreases n, 0nat,
{
    match classify(n.name, n.self_closing) {
        TempNodeType::ServiceBlock(_) => match loop_bound(n.props, "start"@) {
            Err(e) => Err(e),
            Ok(start) => match loop_bound(n.props, "end"@) {
                Err(e) => Err(e),
                Ok(end) => match loop_counter(n.props) {
                    Err(e) => Err(e),
                    Ok(iter_name) => match lower_tags_from(
                        n.children,
                        0,
                        seq![
                            NodeView::Definition(
                                DefinitionView::Variable(
                                    VariableView {
                                        data_type: DataType::Int,
                                        name: iter_name,
                                        value: ValueView::Expr(start),
                                        is_const: false,
                                    },
                                ),
                            ),
                        ],
                    ) {
                        Err(e) => Err(e),
                        Ok(children) => Ok(
                            NodeView::ServiceBlock(ForView { start, end, iter_name, children }),
                        ),
                    },
                },
            },
        },
        TempNodeType::Block(tag) => match lower_tags_from(n.children, 0, Seq::empty()) {
            Err(e) => Err(e),
            Ok(children) => Ok(NodeView::Block(BlockView { tag, children })),
        },
        TempNodeType::Definition(data_type) => match defined_name(n.props) {
            Err(e) => Err(e),
            Ok(name) => if defines_function(n.props, n.children) {
                match lower_params_from(n.props, 0, Seq::empty()) {
                    Err(e) => Err(e),
                    Ok(args) => match lower_tags_from(n.children, 0, Seq::empty()) {
                        Err(e) => Err(e),
                        Ok(children) => Ok(
                            NodeView::Definition(
                                DefinitionView::Function(
                                    FunctionView {
                                        data_type,
                                        name,
                                        children,
                                        args,
                                        must_be_compiled: true,
                                    },
                                ),
                            ),
                        ),
                    },
                }
            } else if n.children.len() == 1 {
                match lower_value(n.children[0]) {
                    Err(e) => Err(e),
                    Ok(value) => if has_other_props(n.props, 0, true) {
                        Err(
                            lowering_failure_about(
                                "Variable `"@,
                                name,
                                "` definition cannot take arguments"@,
                            ),
                        )
                    } else {
                        Ok(
                            NodeView::Definition(
                                DefinitionView::Variable(
                                    VariableView {
                                        data_type,
                                        name,
                                        value,
                                        is_const: has_const_flag(n.props, 0),
                                    },
                                ),
                            ),
                        )
                    },
                }
            } else {
                Err(lowering_failure("All children should be nodes, not values!"@))
            },
        },
        TempNodeType::Call => match lower_args(n.props) {
            Err(e) => Err(e),
            Ok(args) => if n.children.len() > 0 {
                Err(lowering_failure("A call cannot have children"@))
            } else {
                Ok(NodeView::Call(CallView { calling_name: n.name, args }))
            },
        },
        TempNodeType::Assign => match lower_values_from(n.children, 0, ValueView::Empty) {
            Err(e) => Err(e),
            Ok(body) => Ok(NodeView::Assign(AssignView { name: n.name, body })),
        },
    }
}

/// What the child tags `children[i..]` lower to, behind `done`. Text among
/// them is an error.
pub open spec fn lower_tags_from(children: Seq<ASTBodyView>, i: int, done: Seq<NodeView>) -> Result<
    Seq<NodeView>,
    SimpleErrorView,
>
    decreases children, children.len() - i,
{
    if i < 0 || i >= children.len() {
        Ok(done)
    } else {
        match children[i] {
            ASTBodyView::String(_) => Err(
                lowering_failure("String tags not supported inside blocks"@),
            ),
            ASTBodyView::Tag(t) => match lower(*t) {
                Err(e) => Err(e),
                Ok(node) => lower_tags_from(children, i + 1, done.push(node)),
            },
        }
    }
}

/// The value that a child gives to a variable: text is read as an
/// expression, a tag is lowered.
pub open spec fn lower_value(child: ASTBodyView) -> Result<ValueView, SimpleErrorView>
    decreases child, 0nat,
{
    match child {
        ASTBodyView::String(s) => match parse_expression_spec(s) {
            Ok(e) => Ok(ValueView::Expr(e)),
            Err(e) => Err(e),
        },
        ASTBodyView::Tag(t) => match lower(*t) {
            Ok(node) => Ok(ValueView::Call(Box::new(node))),
            Err(e) => Err(e),
        },
    }
}

/// The value that the last of `children[i..]` gives, or `last` where there
/// is none; every child must lower.
pub open spec fn lower_values_from(children: Seq<ASTBodyView>, i: int, last: ValueView) -> Result<
    ValueView,
    SimpleErrorView,
>
    decreases children, children.len() - i,
{
    if i < 0 || i >= children.len() {
        Ok(last)
    } else {
        match lower_value(children[i]) {
            Err(e) => Err(e),
            Ok(value) => lower_values_from(children, i + 1, value),
        }
    }
}

/// `Regex::new` and `Regex::is_match` of the regex crate, for the one
/// pattern `^[a-zA-Z_]+$`: the pattern matches a text exactly when the text
/// is not empty and made of ASCII letters and underscores alone, since `^`
/// and `$` stand for the two ends of the text and the class holds those
/// characters and no others.
#[verifier::external_body]
fn matches_pattern(pattern: &str, text: &str) -> (r: bool)
    requires
        pattern@ == "^[a-zA-Z_]+$"@,
    ensures
        r == valid_identifier(text@),
{
    match Regex::new(pattern) {
        Ok(re) => re.is_match(text),
        Err(_) => false,
    }
}

/// Whether `s` can be the name of a definition.
pub fn is_valid_identifier(s: &str) -> (r: bool)
    ensures
        r == valid_identifier(s@),
{
    matches_pattern("^[a-zA-Z_]+$", s)
}

/// The type that the text of a parameter's attribute names.
pub fn get_data_type(text: &String) -> (r: Option<DataType>)
    ensures
        r == param_type(text@),
{
    if is_text(text, "int") {
        Some(DataType::Int)
    } else if is_text(text, "str") {
        Some(DataType::Str)
    } else if is_text(text, "bool") {
        Some(DataType::Bool)
    } else {
        None
    }
}

/// The kind of the tag named `name`.
fn classify_tag(name: &String, self_closing: bool) -> (r: TempNodeType)
    ensures
        r == classify(name@, self_closing),
{
    if is_text(name, "int") {
        TempNodeType::Definition(DataType::Int)
    } else if is_text(name, "bool") {
        TempNodeType::Definition(DataType::Bool)
    } else if is_text(name, "str") {
        TempNodeType::Definition(DataType::Str)
    } else if is_text(name, "void") {
        TempNodeType::Definition(DataType::Void)
    } else if is_text(name, "html") {
        TempNodeType::Block(BlockType::Html)
    } else if is_text(name, "head") {
        TempNodeType::Block(BlockType::Head)
    } else if is_text(name, "main") {
        TempNodeType::Block(BlockType::Main)
    } else if is_text(name, "div") {
        TempNodeType::Block(BlockType::Div)
    } else if is_text(name, "for") {
        TempNodeType::ServiceBlock(BlockType::For)
    } else if self_closing {
        TempNodeType::Call
    } else {
        TempNodeType::Assign
    }
}

/// An error of lowering with a fixed message.
fn lowering_error(text: &str) -> (e: SimpleError)
    ensures
        e@ == lowering_failure(text@),
{
    SimpleError::saying(ErrorKind::Parsing, text)
}

/// An error of lowering whose message quotes `name`.
fn lowering_error_about(prefix: &str, name: &String, suffix: &str) -> (e: SimpleError)
    ensures
        e@ == lowering_failure_about(prefix@, name@, suffix@),
{
    SimpleError::about(ErrorKind::Parsing, prefix, name, suffix)
}

/// The first of `props` that is named `name`.
fn find_attribute<'a>(props: &'a Vec<ASTProp>, name: &str) -> (r: Option<&'a ASTProp>)
    ensures
        match find_prop(props_view(props@), name@, 0) {
            Some(p) => r is Some && r->Some_0@ == p,
            None => r is None,
        },
{
    let ghost all = props_view(props@);
    let mut i: usize = 0;
    while i < props.len()
        invariant
            i <= props@.len(),
            all == props_view(props@),
            find_prop(all, name@, i as int) == find_prop(all, name@, 0),
        decreases props@.len() - i,
    {
        if is_text(&props[i].name, name) {
            return Some(&props[i]);
        }
        i = i + 1;
    }
    None
}

/// The argument that the attribute `prop` gives to a call.
fn call_arg(prop: &ASTProp) -> (r: Result<CallArgStruct, SimpleError>)
    ensures
        match lower_arg(prop@) {
            Ok(a) => r is Ok && r->Ok_0@ == a,
            Err(e) => r is Err && r->Err_0@ == e,
        },
{
    let value: Option<ExprToken> = match &prop.value {
        None => None,
        Some(PropType::Literal(s)) => Some(ExprToken::Literal(s.clone())),
        Some(PropType::Var(s)) => match parse_expression(s.as_str()) {
            Ok(e) => Some(e),
            Err(e) => {
                return Err(e);
            },
        },
    };
    Ok(CallArgStruct { name: prop.name.clone(), value })
}

/// The arguments that the attributes `props` give to a call.
pub fn generate_call_args(props: &Vec<ASTProp>) -> (r: Result<Vec<CallArgStruct>, SimpleError>)
    ensures
        match lower_args(props_view(props@)) {
            Ok(args) => r is Ok && call_args_view(r->Ok_0@) == args,
            Err(e) => r is Err && r->Err_0@ == e,
        },
{
    let ghost all = props_view(props@);
    let mut args: Vec<CallArgStruct> = Vec::new();
    let mut i: usize = 0;
    proof {
        assert(call_args_view(args@) =~= Seq::<CallArgView>::empty());
    }
    while i < props.len()
        invariant
            i <= props@.len(),
            all == props_view(props@),
            lower_args_from(all, i as int, call_args_view(args@)) == lower_args(all),
        decreases props@.len() - i,
    {
        let arg: CallArgStruct = match call_arg(&props[i]) {
            Ok(arg) => arg,
            Err(e) => {
                return Err(e);
            },
        };
        let ghost before = args@;
        args.push(arg);
        proof {
            assert(call_args_view(args@) =~= call_args_view(before).push(arg@));
        }
        i = i + 1;
    }
    Ok(args)
}

/// The bound of a loop that the attribute `name` gives.
fn for_bound(props: &Vec<ASTProp>, name: &str) -> (r: Result<ExprToken, SimpleError>)
    ensures
        match loop_bound(props_view(props@), name@) {
            Ok(e) => r is Ok && r->Ok_0@ == e,
            Err(e) => r is Err && r->Err_0@ == e,
        },
{
    let shown: String = name.to_owned();
    match find_attribute(props, name) {
        None => Err(lowering_error_about("Argument `", &shown, "` in for block is required")),
        Some(p) => match &p.value {
            None => Err(lowering_error_about("Argument `", &shown, "` cannot be bool")),
            Some(PropType::Literal(s)) => parse_expression(s.as_str()),
            Some(PropType::Var(s)) => parse_expression(s.as_str()),
        },
    }
}

/// The name of a loop's counter.
fn for_counter(props: &Vec<ASTProp>) -> (r: Result<String, SimpleError>)
    ensures
        match loop_counter(props_view(props@)) {
            Ok(s) => r is Ok && r->Ok_0@ == s,
            Err(e) => r is Err && r->Err_0@ == e,
        },
{
    let shown: String = "i".to_owned();
    match find_attribute(props, "i") {
        None => Err(lowering_error_about("Argument `", &shown, "` in for block is required")),
        Some(p) => match &p.value {
            None => Err(lowering_error_about("Argument `", &shown, "` cannot be bool")),
            Some(PropType::Literal(s)) => Ok(s.clone()),
            Some(PropType::Var(_)) => Err(lowering_error("Argument `i` must be a literal")),
        },
    }
}

/// The name that a definition's attributes give.
fn name_of_definition(props: &Vec<ASTProp>) -> (r: Result<String, SimpleError>)
    ensures
        match defined_name(props_view(props@)) {
            Ok(s) => r is Ok && r->Ok_0@ == s,
            Err(e) => r is Err && r->Err_0@ == e,
        },
{
    match find_attribute(props, "name") {
        None => Err(lowering_error("You should define name for variable!")),
        Some(p) => match &p.value {
            Some(PropType::Literal(s)) => {
                if is_valid_identifier(s.as_str()) {
                    Ok(s.clone())
                } else {
                    Err(lowering_error_about("`", s, "` is not valid name!"))
                }
            },
            _ => Err(lowering_error("Cannot use dynamic value for defining a variable name!")),
        },
    }
}

/// The parameter that the attribute `prop` declares.
fn function_param(prop: &ASTProp) -> (r: Result<ArgStruct, SimpleError>)
    ensures
        match lower_param(prop@) {
            Ok(a) => r is Ok && r->Ok_0@ == a,
            Err(e) => r is Err && r->Err_0@ == e,
        },
{
    match &prop.value {
        None => Err(lowering_error_about("Function argument cannot be a flag: ", &prop.name, "")),
        Some(PropType::Var(_)) => Err(
            lowering_error_about("Function argument type cannot be a variable: ", &prop.name, ""),
        ),
        Some(PropType::Literal(t)) => match get_data_type(t) {
            Some(data_type) => Ok(ArgStruct::new(prop.name.clone(), data_type)),
            None => Err(
                lowering_error_about("Unknown data type for function argument: ", &prop.name, ""),
            ),
        },
    }
}

/// The parameters that the attributes `props` declare.
fn function_params(props: &Vec<ASTProp>) -> (r: Result<Vec<ArgStruct>, SimpleError>)
    ensures
        match lower_params_from(props_view(props@), 0, Seq::empty()) {
            Ok(args) => r is Ok && args_view(r->Ok_0@) == args,
            Err(e) => r is Err && r->Err_0@ == e,
        },
{
    let ghost all = props_view(props@);
    let mut args: Vec<ArgStruct> = Vec::new();
    let mut i: usize = 0;
    proof {
        assert(args_view(args@) =~= Seq::<ArgView>::empty());
    }
    while i < props.len()
        invariant
            i <= props@.len(),
            all == props_view(props@),
            lower_params_from(all, i as int, args_view(args@)) == lower_params_from(
                all,
                0,
                Seq::empty(),
            ),
        decreases props@.len() - i,
    {
        if !is_text(&props[i].name, "name") {
            let arg: ArgStruct = match function_param(&props[i]) {
                Ok(arg) => arg,
                Err(e) => {
                    return Err(e);
                },
            };
            let ghost before = args@;
            args.push(arg);
            proof {
                assert(args_view(args@) =~= args_view(before).push(arg@));
            }
        }
        i = i + 1;
    }
    Ok(args)
}

/// Whether one of `props` is named neither `name` nor, where `flags` holds,
/// `const`.
fn other_props(props: &Vec<ASTProp>, flags: bool) -> (r: bool)
    ensures
        r == has_other_props(props_view(props@), 0, flags),
{
    let ghost all = props_view(props@);
    let mut i: usize = 0;
    while i < props.len()
        invariant
            i <= props@.len(),
            all == props_view(props@),
            has_other_props(all, i as int, flags) == has_other_props(all, 0, flags),
        decreases props@.len() - i,
    {
        if !is_text(&props[i].name, "name") && !(flags && is_text(&props[i].name, "const")) {
            return true;
        }
        i = i + 1;
    }
    false
}

/// Whether one of `props` is the bare flag `const`.
fn const_flag(props: &Vec<ASTProp>) -> (r: bool)
    ensures
        r == has_const_flag(props_view(props@), 0),
{
    let ghost all = props_view(props@);
    let mut i: usize = 0;
    while i < props.len()
        invariant
            i <= props@.len(),
            all == props_view(props@),
            has_const_flag(all, i as int) == has_const_flag(all, 0),
        decreases props@.len() - i,
    {
        if is_text(&props[i].name, "const") {
            match &props[i].value {
                None => {
                    return true;
                },
                Some(_) => {},
            }
        }
        i = i + 1;
    }
    false
}

/// Whether every one of `children` is a tag.
fn only_tags(children: &Vec<ASTBody>) -> (r: bool)
    ensures
        r == all_tags_from(bodies_view(children@), 0),
{
    let ghost all = bodies_view(children@);
    let mut i: usize = 0;
    while i < children.len()
        invariant
            i <= children@.len(),
            all == bodies_view(children@),
            all_tags_from(all, i as int) == all_tags_from(all, 0),
        decreases children@.len() - i,
    {
        match &children[i] {
            ASTBody::String(_) => {
                return false;
            },
            ASTBody::Tag(_) => {},
        }
        i = i + 1;
    }
    true
}

/// Whether a definition tag with these attributes and children defines a
/// function.
fn is_function(props: &Vec<ASTProp>, children: &Vec<ASTBody>) -> (r: bool)
    ensures
        r == defines_function(props_view(props@), bodies_view(children@)),
{
    if children.len() > 1 {
        only_tags(children)
    } else if children.len() == 1 {
        match &children[0] {
            ASTBody::Tag(t) => t.self_closing && is_text(&t.name, "return"),
            ASTBody::String(_) => false,
        }
    } else {
        other_props(props, false)
    }
}

/// Lowers the tag `tree`: `Ok` with the node that [`lower`] gives, or its
/// error.
pub fn preprocess_code_tree(tree: &ASTNode) -> (r: Result<NodeType, SimpleError>)
    ensures
        match lower(tree@) {
            Ok(n) => r is Ok && r->Ok_0@ == n,
            Err(e) => r is Err && r->Err_0@ == e,
        },
    decreases tree,
{
    match classify_tag(&tree.name, tree.self_closing) {
        TempNodeType::ServiceBlock(_) => {
            let start: ExprToken = match for_bound(&tree.props, "start") {
                Ok(e) => e,
                Err(e) => {
                    return Err(e);
                },
            };
            let end: ExprToken = match for_bound(&tree.props, "end") {
                Ok(e) => e,
                Err(e) => {
                    return Err(e);
                },
            };
            let iter_name: String = match for_counter(&tree.props) {
                Ok(s) => s,
                Err(e) => {
                    return Err(e);
                },
            };
            let counter: NodeType = NodeType::DEFINITION(
                DefinitionType::Variable(
                    VariableDefinitionStruct {
                        data_type: DataType::Int,
                        name: iter_name.clone(),
                        value: AssignEnum::Expr(clone_expr(&start)),
                        is_const: false,
                    },
                ),
            );
            let mut first: Vec<Box<NodeType>> = Vec::new();
            first.push(Box::new(counter));
            proof {
                assert(nodes_view(first@) =~= seq![counter@]);
            }
            let children: Vec<Box<NodeType>> = match lower_tags(&tree.children, first) {
                Ok(c) => c,
                Err(e) => {
                    return Err(e);
                },
            };
            Ok(
                NodeType::ServiceBlock(
                    ServiceBlockType::For(ForStruct { start, end, iter_name, children }),
                ),
            )
        },
        TempNodeType::Block(tag) => {
            let first: Vec<Box<NodeType>> = Vec::new();
            proof {
                assert(nodes_view(first@) =~= Seq::<NodeView>::empty());
            }
            let children: Vec<Box<NodeType>> = match lower_tags(&tree.children, first) {
                Ok(c) => c,
                Err(e) => {
                    return Err(e);
                },
            };
            Ok(NodeType::BLOCK(BlockStruct { tag, children }))
        },
        TempNodeType::Definition(data_type) => {
            let name: String = match name_of_definition(&tree.props) {
                Ok(s) => s,
                Err(e) => {
                    return Err(e);
                },
            };
            if is_function(&tree.props, &tree.children) {
                let args: Vec<ArgStruct> = match function_params(&tree.props) {
                    Ok(a) => a,
                    Err(e) => {
                        return Err(e);
                    },
                };
                let first: Vec<Box<NodeType>> = Vec::new();
                proof {
                    assert(nodes_view(first@) =~= Seq::<NodeView>::empty());
                }
                let children: Vec<Box<NodeType>> = match lower_tags(&tree.children, first) {
                    Ok(c) => c,
                    Err(e) => {
                        return Err(e);
                    },
                };
                Ok(
                    NodeType::DEFINITION(
                        DefinitionType::Function(
                            FunctionDefinitionStruct {
                                data_type,
                                name,
                                children,
                                args,
                                must_be_compiled: true,
                            },
                        ),
                    ),
                )
            } else if tree.children.len() == 1 {
                let value: AssignEnum = match lower_child_value(&tree.children[0]) {
                    Ok(v) => v,
                    Err(e) => {
                        return Err(e);
                    },
                };
                if other_props(&tree.props, true) {
                    return Err(
                        lowering_error_about(
                            "Variable `",
                            &name,
                            "` definition cannot take arguments",
                        ),
                    );
                }
                let is_const: bool = const_flag(&tree.props);
                Ok(
                    NodeType::DEFINITION(
                        DefinitionType::Variable(
                            VariableDefinitionStruct { data_type, name, value, is_const },
                        ),
                    ),
                )
            } else {
                Err(lowering_error("All children should be nodes, not values!"))
            }
        },
        TempNodeType::Call => {
            let args: Vec<CallArgStruct> = match generate_call_args(&tree.props) {
                Ok(a) => a,
                Err(e) => {
                    return Err(e);
                },
            };
            if tree.children.len() > 0 {
                return Err(lowering_error("A call cannot have children"));
            }
            Ok(NodeType::CALL(CallStruct { calling_name: tree.name.clone(), args }))
        },
        TempNodeType::Assign => {
            let body: AssignEnum = match lower_last_value(&tree.children) {
                Ok(v) => v,
                Err(e) => {
                    return Err(e);
                },
            };
            Ok(NodeType::ASSIGN(AssignStruct { name: tree.name.clone(), body }))
        },
    }
}

/// The value that the last of `children` gives to an assignment.
fn lower_last_value(children: &Vec<ASTBody>) -> (r: Result<AssignEnum, SimpleError>)
    ensures
        match lower_values_from(bodies_view(children@), 0, ValueView::Empty) {
            Ok(v) => r is Ok && r->Ok_0@ == v,
            Err(e) => r is Err && r->Err_0@ == e,
        },
    decreases children,
{
    let ghost all = bodies_view(children@);
    let mut body: AssignEnum = AssignEnum::Empty;
    let mut i: usize = 0;
    while i < children.len()
        invariant
            i <= children@.len(),
            all == bodies_view(children@),
            lower_values_from(all, i as int, body@) == lower_values_from(all, 0, ValueView::Empty),
        decreases children@.len() - i,
    {
        assert(all[i as int] == children@[i as int]@);
        body = match lower_child_value(&children[i]) {
            Ok(v) => v,
            Err(e) => {
                return Err(e);
            },
        };
        i = i + 1;
    }
    Ok(body)
}

/// Lowers the child tags `children` and puts them behind `done`.
fn lower_tags(children: &Vec<ASTBody>, done: Vec<Box<NodeType>>) -> (r: Result<
    Vec<Box<NodeType>>,
    SimpleError,
>)
    ensures
        match lower_tags_from(bodies_view(children@), 0, nodes_view(done@)) {
            Ok(nodes) => r is Ok && nodes_view(r->Ok_0@) == nodes,
            Err(e) => r is Err && r->Err_0@ == e,
        },
    decreases children,
{
    let ghost all = bodies_view(children@);
    let ghost first = nodes_view(done@);
    let mut nodes: Vec<Box<NodeType>> = done;
    let mut i: usize = 0;
    while i < children.len()
        invariant
            i <= children@.len(),
            all == bodies_view(children@),
            first == nodes_view(done@),
            lower_tags_from(all, i as int, nodes_view(nodes@)) == lower_tags_from(all, 0, first),
        decreases children@.len() - i,
    {
        assert(all[i as int] == children@[i as int]@);
        match &children[i] {
            ASTBody::String(_) => {
                return Err(lowering_error("String tags not supported inside blocks"));
            },
            ASTBody::Tag(t) => {
                let node: NodeType = match preprocess_code_tree(t) {
                    Ok(n) => n,
                    Err(e) => {
                        return Err(e);
                    },
                };
                let ghost before = nodes@;
                nodes.push(Box::new(node));
                proof {
                    assert(nodes_view(nodes@) =~= nodes_view(before).push(node@));
                }
            },
        }
        i = i + 1;
    }
    Ok(nodes)
}

/// The value that `child` gives to a variable.
fn lower_child_value(child: &ASTBody) -> (r: Result<AssignEnum, SimpleError>)
    ensures
        match lower_value(child@) {
            Ok(v) => r is Ok && r->Ok_0@ == v,
            Err(e) => r is Err && r->Err_0@ == e,
        },
    decreases child,
{
    match child {
        ASTBody::String(s) => match parse_expression(s.as_str()) {
            Ok(e) => Ok(AssignEnum::Expr(e)),
            Err(e) => Err(e),
        },
        ASTBody::Tag(t) => match preprocess_code_tree(t) {
            Ok(n) => Ok(AssignEnum::Call(Box::new(n))),
            Err(e) => Err(e),
        },
    }
}

/// A section of a program, ready to be checked: `head` as it is, `main`
/// with the declarations of the built-in functions before its statements.
/// Nothing else can stand directly in `html`.
pub open spec fn prepare_section(n: NodeView) -> Result<NodeView, SimpleErrorView> {
    match n {
        NodeView::Block(b) => if b.tag == BlockType::Main {
            Ok(NodeView::Block(BlockView { tag: b.tag, children: library() + b.children }))
        } else if b.tag == BlockType::Head {
            Ok(n)
        } else {
            Err(lowering_failure("Unexpected tag inside `html`!"@))
        },
        _ => Err(lowering_failure("Unexpected tag inside `html`!"@)),
    }
}

/// The sections `nodes[i..]`, ready to be checked, behind `done`.
pub open spec fn prepare_sections_from(nodes: Seq<NodeView>, i: int, done: Seq<NodeView>) -> Result<
    Seq<NodeView>,
    SimpleErrorView,
>
    decreases nodes.len() - i,
{
    if i < 0 || i >= nodes.len() {
        Ok(done)
    } else {
        match prepare_section(nodes[i]) {
            Err(e) => Err(e),
            Ok(node) => prepare_sections_from(nodes, i + 1, done.push(node)),
        }
    }
}

/// A lowered program, ready to be checked: its root is the block `html`,
/// whose sections are prepared.
pub open spec fn prepare_program(n: NodeView) -> Result<NodeView, SimpleErrorView> {
    match n {
        NodeView::Block(b) => if b.tag == BlockType::Html {
            match prepare_sections_from(b.children, 0, Seq::empty()) {
                Ok(children) => Ok(NodeView::Block(BlockView { tag: b.tag, children })),
                Err(e) => Err(e),
            }
        } else {
            Err(lowering_failure("Unexpected root tag!"@))
        },
        _ => Err(lowering_failure("Unexpected root tag!"@)),
    }
}

/// The program tree of the document `n`: lowered, prepared, resolved and
/// type-checked, in this order; the first error of the first pass that
/// fails.
pub open spec fn program_tree(n: ASTNodeView) -> Result<NodeView, SimpleErrorView> {
    match lower(n) {
        Err(e) => Err(e),
        Ok(lowered) => match prepare_program(lowered) {
            Err(e) => Err(e),
            Ok(prepared) => match resolve_program(prepared) {
                Err(e) => Err(e),
                Ok(_) => typecheck_program(prepared),
            },
        },
    }
}

/// Prepares one section of a program.
fn prepare(n: &NodeType) -> (r: Result<NodeType, SimpleError>)
    ensures
        match prepare_section(n@) {
            Ok(node) => r is Ok && r->Ok_0@ == node,
            Err(e) => r is Err && r->Err_0@ == e,
        },
{
    match n {
        NodeType::BLOCK(b) => {
            if b.tag == BlockType::Main {
                let mut children: Vec<Box<NodeType>> = Std::use_lib();
                let mut i: usize = 0;
                while i < b.children.len()
                    invariant
                        i <= b.children@.len(),
                        nodes_view(children@) == library() + nodes_view(b.children@).take(i as int),
                    decreases b.children@.len() - i,
                {
                    let node: NodeType = clone_node(&b.children[i]);
                    let ghost before = children@;
                    children.push(Box::new(node));
                    proof {
                        assert(nodes_view(b.children@)[i as int] == b.children@[i as int]@);
                        assert(nodes_view(children@) =~= nodes_view(before).push(node@));
                        assert(nodes_view(b.children@).take(i + 1) =~= nodes_view(b.children@).take(
                            i as int,
                        ).push(node@));
                        assert(nodes_view(children@) =~= library() + nodes_view(b.children@).take(
                            i + 1,
                        ));
                    }
                    i = i + 1;
                }
                proof {
                    assert(nodes_view(b.children@).take(i as int) =~= nodes_view(b.children@));
                }
                Ok(NodeType::BLOCK(BlockStruct { tag: b.tag, children }))
            } else if b.tag == BlockType::Head {
                Ok(clone_node(n))
            } else {
                Err(lowering_error("Unexpected tag inside `html`!"))
            }
        },
        _ => Err(lowering_error("Unexpected tag inside `html`!")),
    }
}

/// Prepares the sections of a program.
fn prepare_sections(nodes: &Vec<Box<NodeType>>) -> (r: Result<Vec<Box<NodeType>>, SimpleError>)
    ensures
        match prepare_sections_from(nodes_view(nodes@), 0, Seq::empty()) {
            Ok(done) => r is Ok && nodes_view(r->Ok_0@) == done,
            Err(e) => r is Err && r->Err_0@ == e,
        },
{
    let ghost all = nodes_view(nodes@);
    let mut children: Vec<Box<NodeType>> = Vec::new();
    let mut i: usize = 0;
    proof {
        assert(nodes_view(children@) =~= Seq::<NodeView>::empty());
    }
    while i < nodes.len()
        invariant
            i <= nodes@.len(),
            all == nodes_view(nodes@),
            prepare_sections_from(all, i as int, nodes_view(children@)) == prepare_sections_from(
                all,
                0,
                Seq::empty(),
            ),
        decreases nodes@.len() - i,
    {
        assert(all[i as int] == nodes@[i as int]@);
        let node: NodeType = match prepare(&nodes[i]) {
            Ok(n) => n,
            Err(e) => {
                return Err(e);
            },
        };
        let ghost before = children@;
        children.push(Box::new(node));
        proof {
            assert(nodes_view(children@) =~= nodes_view(before).push(node@));
        }
        i = i + 1;
    }
    Ok(children)
}

/// Prepares a lowered program.
fn prepare_root(n: &NodeType) -> (r: Result<NodeType, SimpleError>)
    ensures
        match prepare_program(n@) {
            Ok(node) => r is Ok && r->Ok_0@ == node,
            Err(e) => r is Err && r->Err_0@ == e,
        },
{
    match n {
        NodeType::BLOCK(b) => {
            if b.tag == BlockType::Html {
                match prepare_sections(&b.children) {
                    Ok(children) => Ok(NodeType::BLOCK(BlockStruct { tag: b.tag, children })),
                    Err(e) => Err(e),
                }
            } else {
                Err(lowering_error("Unexpected root tag!"))
            }
        },
        _ => Err(lowering_error("Unexpected root tag!")),
    }
}

/// Turns a parsed document into its program tree: `Ok` with the tree that
/// [`program_tree`] gives, or its error.
pub fn start_generating_code_tree(tree: ASTNode) -> (r: Result<NodeType, SimpleError>)
    ensures
        match program_tree(tree@) {
            Ok(node) => r is Ok && r->Ok_0@ == node,
            Err(e) => r is Err && r->Err_0@ == e,
        },
{
    let lowered: NodeType = match preprocess_code_tree(&tree) {
        Ok(n) => n,
        Err(e) => {
            return Err(e);
        },
    };
    let mut prepared: NodeType = match prepare_root(&lowered) {
        Ok(n) => n,
        Err(e) => {
            return Err(e);
        },
    };
    match start_def_check(&mut prepared) {
        Err(e) => {
            return Err(e);
        },
        Ok(_) => {},
    }
    match start_types_check(&mut prepared) {
        Err(e) => {
            return Err(e);
        },
        Ok(_) => {},
    }
    Ok(prepared)
}

/// Lowering child tags keeps what was lowered before them, in its place.
#[verifier::rlimit(100)]
proof fn lemma_lower_tags_keep(children: Seq<ASTBodyView>, i: int, done: Seq<NodeView>)
    requires
        lower_tags_from(children, i, done) is Ok,
    ensures
        lower_tags_from(children, i, done)->Ok_0.len() >= done.len(),
        forall|k: int|
            0 <= k < done.len() ==> lower_tags_from(children, i, done)->Ok_0[k] == done[k],
    decreases children.len() - i,
{
    if 0 <= i < children.len() {
        match children[i] {
            ASTBodyView::String(_) => {},
            ASTBodyView::Tag(t) => {
                let node = lower(*t)->Ok_0;
                let next = done.push(node);
                lemma_lower_tags_keep(children, i + 1, next);
                let out = lower_tags_from(children, i + 1, next)->Ok_0;
                assert(lower_tags_from(children, i, done)->Ok_0 == out);
                assert forall|k: int| 0 <= k < done.len() implies out[k] == done[k] by {
                    assert(out[k] == next[k]);
                    assert(next[k] == done[k]);
                }
            },
        }
    }
}

/// The body of a loop opens with the definition of its counter: where a tag
/// named `for` lowers, it lowers to a loop whose first statement defines
/// the counter as an `Int` variable, not constant, whose value is the
/// loop's lower bound.
#[verifier::rlimit(100)]
pub proof fn lemma_loop_defines_counter(n: ASTNodeView)
    requires
        n.name == "for"@,
        lower(n) is Ok,
    ensures
        lower(n)->Ok_0 is ServiceBlock,
        lower(n)->Ok_0->ServiceBlock_0.children.len() >= 1,
        lower(n)->Ok_0->ServiceBlock_0.children[0] == NodeView::Definition(
            DefinitionView::Variable(
                VariableView {
                    data_type: DataType::Int,
                    name: lower(n)->Ok_0->ServiceBlock_0.iter_name,
                    value: ValueView::Expr(lower(n)->Ok_0->ServiceBlock_0.start),
                    is_const: false,
                },
            ),
        ),
{
    reveal_strlit("for");
    reveal_strlit("int");
    reveal_strlit("bool");
    reveal_strlit("str");
    reveal_strlit("void");
    reveal_strlit("html");
    reveal_strlit("head");
    reveal_strlit("main");
    reveal_strlit("div");
    assert("for"@[0] == 'f');
    assert("int"@[0] == 'i');
    assert("bool"@[0] == 'b');
    assert("str"@[0] == 's');
    assert("void"@[0] == 'v');
    assert("html"@[0] == 'h');
    assert("head"@[0] == 'h');
    assert("main"@[0] == 'm');
    assert("div"@[0] == 'd');
    assert(classify(n.name, n.self_closing) == TempNodeType::ServiceBlock(BlockType::For));
    let start = loop_bound(n.props, "start"@)->Ok_0;
    let iter_name = loop_counter(n.props)->Ok_0;
    let first = seq![
        NodeView::Definition(
            DefinitionView::Variable(
                VariableView {
                    data_type: DataType::Int,
                    name: iter_name,
                    value: ValueView::Expr(start),
                    is_const: false,
                },
            ),
        ),
    ];
    lemma_lower_tags_keep(n.children, 0, first);
    let out = lower_tags_from(n.children, 0, first)->Ok_0;
    assert(out[0] == first[0]);
    assert(lower(n)->Ok_0->ServiceBlock_0.children == out);
}

} // verus!

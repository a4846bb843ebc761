//! The type checker: every value has the type that its place asks for.
//! Along the way each reference is given the type of its binding, and
//! constant expressions are folded.
use crate::code_tree::types::{
    args_view, call_args_view, clone_args, clone_value, nodes_view, ArgStruct, ArgView, AssignEnum,
    AssignStruct, AssignView, BlockStruct, BlockView, CallArgStruct, CallArgView, CallStruct,
    CallView, DataType, DefinitionType, DefinitionView, ForStruct, ForView,
    FunctionDefinitionStruct, FunctionView, NodeType, NodeView, ServiceBlockType, ValueView,
    VariableDefinitionStruct, VariableView,
};
use crate::definitions::{bind_params, with_params, Defined, DefinedView, Scope, ScopeView};
use crate::errors::{error_about, error_saying, ErrorKind, SimpleError, SimpleErrorView};
use crate::math::analysis::{folded, name_of_type, optimize_rec, type_label, typed, typed_copy};
use crate::math::types::{ExprToken, ExprView};
use crate::text::is_text;
use vstd::prelude::*;
use vstd::string::*;

verus! {

/// The error for a value of the type `got` where `expected` is asked for:
/// its message is `prefix`, `name`, `lead`, the expected type, `between`,
/// the type found and `tail` in a row.
pub open spec fn wrong_type(
    prefix: Seq<char>,
    name: Seq<char>,
    lead: Seq<char>,
    expected: DataType,
    between: Seq<char>,
    got: DataType,
    tail: Seq<char>,
) -> SimpleErrorView {
    error_about(
        ErrorKind::TypeCheck,
        prefix,
        name,
        lead + type_label(expected) + between + type_label(got) + tail,
    )
}

/// The error for a variable `name` of the type `expected` whose value has
/// the type `got`.
pub open spec fn value_failure(name: Seq<char>, expected: DataType, got: DataType) -> SimpleErrorView {
    wrong_type(
        "Value type for variable `"@,
        name,
        "` is incorrect! Expected `"@,
        expected,
        "`, got `"@,
        got,
        "`"@,
    )
}

/// The error for a function `name` that returns `expected` and whose
/// `return` gives a value of the type `got`.
pub open spec fn return_failure(name: Seq<char>, expected: DataType, got: DataType) -> SimpleErrorView {
    wrong_type(
        "Return statement inside `"@,
        name,
        "` function has wrong type: Expected "@,
        expected,
        ", got "@,
        got,
        "."@,
    )
}

/// The error for an argument `name` of the type `got` to a parameter of the
/// type `expected`.
pub open spec fn argument_failure(name: Seq<char>, expected: DataType, got: DataType) -> SimpleErrorView {
    wrong_type(
        "Argument `"@,
        name,
        "` has wrong type! Expected: `"@,
        expected,
        "`, got `"@,
        got,
        "`"@,
    )
}

/// The error for an assignment to the variable `name` of the type
/// `expected` of a value of the type `got`.
pub open spec fn assign_failure(name: Seq<char>, expected: DataType, got: DataType) -> SimpleErrorView {
    wrong_type(
        "Assign to `"@,
        name,
        "` has wrong type! Expected: `"@,
        expected,
        "`, got `"@,
        got,
        "`"@,
    )
}

/// The error for a function `name` that must return a value and has no
/// `return` among its statements.
pub open spec fn no_return_failure(name: Seq<char>) -> SimpleErrorView {
    error_about(ErrorKind::TypeCheck, "Function `"@, name, "` must have return statement"@)
}

/// The error for a bound of a loop that is not an `Int`.
pub open spec fn bound_failure(name: Seq<char>) -> SimpleErrorView {
    error_about(
        ErrorKind::TypeCheck,
        "Argument `"@,
        name,
        "` inside for block has wrong type! Expected `Int`"@,
    )
}

/// The error for a value that is neither an expression nor a call of a
/// function.
pub open spec fn misplaced_failure(name: Seq<char>) -> SimpleErrorView {
    error_about(ErrorKind::TypeCheck, "Value of `"@, name, "` is not an expression or a call"@)
}

/// The first call of `return` among `nodes[i..]`.
pub open spec fn find_return(nodes: Seq<NodeView>, i: int) -> Option<CallView>
    decreases nodes.len() - i,
{
    if i < 0 || i >= nodes.len() {
        None
    } else {
        match nodes[i] {
            NodeView::Call(c) => if c.calling_name == "return"@ {
                Some(c)
            } else {
                find_return(nodes, i + 1)
            },
            _ => find_return(nodes, i + 1),
        }
    }
}

/// The first argument named `name` among `args[i..]`.
pub open spec fn find_arg(args: Seq<CallArgView>, name: Seq<char>, i: int) -> Option<CallArgView>
    decreases args.len() - i,
{
    if i < 0 || i >= args.len() {
        None
    } else if args[i].name == name {
        Some(args[i])
    } else {
        find_arg(args, name, i + 1)
    }
}

/// The first parameter named `name` among `params[i..]`.
pub open spec fn find_param(params: Seq<ArgView>, name: Seq<char>, i: int) -> Option<ArgView>
    decreases params.len() - i,
{
    if i < 0 || i >= params.len() {
        None
    } else if params[i].name == name {
        Some(params[i])
    } else {
        find_param(params, name, i + 1)
    }
}

/// The type of what a `return` with the arguments `args` gives, in `scope`:
/// the type of its argument `arg`, which is a `Bool` where it is a bare
/// flag.
pub open spec fn returned_type(args: Seq<CallArgView>, scope: ScopeView) -> Result<
    DataType,
    SimpleErrorView,
> {
    match find_arg(args, "arg"@, 0) {
        None => Err(error_saying(ErrorKind::TypeCheck, "Unknown return tag"@)),
        Some(a) => match a.value {
            None => Ok(DataType::Bool),
            Some(e) => match typed(e, scope) {
                Ok((_, t)) => Ok(t),
                Err(e) => Err(e),
            },
        },
    }
}

/// A function named `name` that returns `data_type` and has the statements
/// `children` returns a value of its type: unless it is `Void`, the first
/// `return` among its statements gives a value of the type `data_type`.
pub open spec fn check_return(
    name: Seq<char>,
    data_type: DataType,
    children: Seq<NodeView>,
    scope: ScopeView,
) -> Result<(), SimpleErrorView> {
    if data_type == DataType::Void {
        Ok(())
    } else {
        match find_return(children, 0) {
            None => Err(no_return_failure(name)),
            Some(c) => match returned_type(c.args, scope) {
                Err(e) => Err(e),
                Ok(t) => if t == data_type {
                    Ok(())
                } else {
                    Err(return_failure(name, data_type, t))
                },
            },
        }
    }
}

/// The value of the variable `name` after the check, with its type. An
/// expression is folded and typed; a call has the type that its function
/// returns.
pub open spec fn typecheck_value(name: Seq<char>, value: ValueView, scope: ScopeView) -> Result<
    (ValueView, DataType),
    SimpleErrorView,
> {
    match value {
        ValueView::Expr(e) => match typed(folded(e, scope), scope) {
            Ok((e2, t)) => Ok((ValueView::Expr(e2), t)),
            Err(e) => Err(e),
        },
        ValueView::Call(n) => match *n {
            NodeView::Call(c) => if scope.contains_key(c.calling_name) {
                match scope[c.calling_name] {
                    DefinedView::Function(f) => Ok((value, f.data_type)),
                    DefinedView::Variable(_) => Err(misplaced_failure(name)),
                }
            } else {
                Err(misplaced_failure(name))
            },
            _ => Err(misplaced_failure(name)),
        },
        ValueView::Empty => Err(misplaced_failure(name)),
    }
}

/// An argument after the check against the parameters `params`: where a
/// parameter has its name and it has a value, the value is typed and
/// folded, and its type is the parameter's unless that is `Any`.
pub open spec fn typecheck_arg(arg: CallArgView, params: Seq<ArgView>, scope: ScopeView) -> Result<
    CallArgView,
    SimpleErrorView,
> {
    match find_param(params, arg.name, 0) {
        None => Ok(arg),
        Some(p) => match arg.value {
            None => Ok(arg),
            Some(e) => match typed(e, scope) {
                Err(e) => Err(e),
                Ok((e2, t)) => if p.data_type != DataType::Any && p.data_type != t {
                    Err(argument_failure(p.name, p.data_type, t))
                } else {
                    Ok(CallArgView { name: arg.name, value: Some(folded(e2, scope)) })
                },
            },
        },
    }
}

/// The arguments `args[i..]` after the check, behind `done`.
pub open spec fn typecheck_args_from(
    args: Seq<CallArgView>,
    i: int,
    params: Seq<ArgView>,
    scope: ScopeView,
    done: Seq<CallArgView>,
) -> Result<Seq<CallArgView>, SimpleErrorView>
    decreases args.len() - i,
{
    if i < 0 || i >= args.len() {
        Ok(done)
    } else {
        match typecheck_arg(args[i], params, scope) {
            Err(e) => Err(e),
            Ok(arg) => typecheck_args_from(args, i + 1, params, scope, done.push(arg)),
        }
    }
}

/// A call after the check: where its target is a function, its arguments
/// are checked against the function's parameters.
pub open spec fn typecheck_call(c: CallView, scope: ScopeView) -> Result<CallView, SimpleErrorView> {
    if scope.contains_key(c.calling_name) {
        match scope[c.calling_name] {
            DefinedView::Function(f) => match typecheck_args_from(
                c.args,
                0,
                f.args,
                scope,
                Seq::empty(),
            ) {
                Ok(args) => Ok(CallView { calling_name: c.calling_name, args }),
                Err(e) => Err(e),
            },
            DefinedView::Variable(_) => Ok(c),
        }
    } else {
        Ok(c)
    }
}

/// The type of the variable that `name` is bound to, if it is one.
pub open spec fn variable_type(name: Seq<char>, scope: ScopeView) -> Option<DataType> {
    if scope.contains_key(name) {
        match scope[name] {
            DefinedView::Variable(v) => Some(v.data_type),
            DefinedView::Function(_) => None,
        }
    } else {
        None
    }
}

/// The type that the function that `name` is bound to returns, if it is
/// one.
pub open spec fn function_type(name: Seq<char>, scope: ScopeView) -> Option<DataType> {
    if scope.contains_key(name) {
        match scope[name] {
            DefinedView::Function(f) => Some(f.data_type),
            DefinedView::Variable(_) => None,
        }
    } else {
        None
    }
}

/// An assignment after the check: the value has the type of the variable.
pub open spec fn typecheck_assign(a: AssignView, scope: ScopeView) -> Result<
    AssignView,
    SimpleErrorView,
> {
    match a.body {
        ValueView::Expr(e) => match variable_type(a.name, scope) {
            None => Ok(a),
            Some(expected) => match typed(e, scope) {
                Err(e) => Err(e),
                Ok((e2, t)) => if expected != t {
                    Err(assign_failure(a.name, expected, t))
                } else {
                    Ok(AssignView { name: a.name, body: ValueView::Expr(e2) })
                },
            },
        },
        ValueView::Call(n) => match *n {
            NodeView::Call(c) => match (
                variable_type(a.name, scope),
                function_type(c.calling_name, scope),
            ) {
                (Some(expected), Some(t)) => if expected != t {
                    Err(assign_failure(a.name, expected, t))
                } else {
                    Ok(a)
                },
                _ => Ok(a),
            },
            _ => Err(misplaced_failure(a.name)),
        },
        ValueView::Empty => Err(misplaced_failure(a.name)),
    }
}

/// A bound of a loop after the check: an `Int`, typed and then folded.
pub open spec fn typecheck_bound(e: ExprView, name: Seq<char>, scope: ScopeView) -> Result<
    ExprView,
    SimpleErrorView,
> {
    match typed(e, scope) {
        Err(e) => Err(e),
        Ok((e2, t)) => if t != DataType::Int {
            Err(bound_failure(name))
        } else {
            Ok(folded(e2, scope))
        },
    }
}

/// Checks the node `n` in `scope`: the node after the check, with the scope
/// in which the statement after `n` is checked, or the first error.
///
/// A variable's value has the variable's type. A function that is not
/// `Void` returns a value of its type. An argument has the type of its
/// parameter. An assigned value has the type of its variable. The bounds
/// of a loop are `Int`. Scopes are as in the resolver.
pub open spec fn typecheck(n: NodeView, scope: ScopeView) -> Result<
    (NodeView, ScopeView),
    SimpleErrorView,
>
    decreases n, 0nat,
{
    match n {
        NodeView::Block(b) => match typecheck_from(b.children, 0, scope, Seq::empty()) {
            Err(e) => Err(e),
            Ok((children, _)) => Ok((NodeView::Block(BlockView { tag: b.tag, children }), scope)),
        },
        NodeView::Definition(DefinitionView::Function(f)) => match typecheck_from(
            f.children,
            0,
            with_params(scope, f.args, f.args.len()),
            Seq::empty(),
        ) {
            Err(e) => Err(e),
            Ok((children, inner)) => match check_return(f.name, f.data_type, children, inner) {
                Err(e) => Err(e),
                Ok(_) => Ok(
                    (
                        NodeView::Definition(
                            DefinitionView::Function(FunctionView { children, ..f }),
                        ),
                        scope.insert(
                            f.name,
                            DefinedView::Function(FunctionView { children, ..f }),
                        ),
                    ),
                ),
            },
        },
        NodeView::Definition(DefinitionView::Variable(v)) => match typecheck_value(
            v.name,
            v.value,
            scope,
        ) {
            Err(e) => Err(e),
            Ok((value, t)) => if v.data_type != t {
                Err(value_failure(v.name, v.data_type, t))
            } else {
                Ok(
                    (
                        NodeView::Definition(
                            DefinitionView::Variable(VariableView { value, ..v }),
                        ),
                        scope.insert(v.name, DefinedView::Variable(VariableView { value, ..v })),
                    ),
                )
            },
        },
        NodeView::Call(c) => match typecheck_call(c, scope) {
            Err(e) => Err(e),
            Ok(call) => Ok((NodeView::Call(call), scope)),
        },
        NodeView::Assign(a) => match typecheck_assign(a, scope) {
            Err(e) => Err(e),
            Ok(assign) => Ok((NodeView::Assign(assign), scope)),
        },
        NodeView::ServiceBlock(f) => match typecheck_bound(f.start, "start"@, scope) {
            Err(e) => Err(e),
            Ok(start) => match typecheck_bound(f.end, "end"@, scope) {
                Err(e) => Err(e),
                Ok(end) => match typecheck_from(f.children, 0, scope, Seq::empty()) {
                    Err(e) => Err(e),
                    Ok((children, _)) => Ok(
                        (
                            NodeView::ServiceBlock(
                                ForView { start, end, iter_name: f.iter_name, children },
                            ),
                            scope,
                        ),
                    ),
                },
            },
        },
    }
}

/// Checks the statements `nodes[i..]` one after the other, each in the
/// scope that the one before it left: the statements after the check,
/// behind `done`, and the scope behind the last.
pub open spec fn typecheck_from(
    nodes: Seq<NodeView>,
    i: int,
    scope: ScopeView,
    done: Seq<NodeView>,
) -> Result<(Seq<NodeView>, ScopeView), SimpleErrorView>
    decreases nodes, nodes.len() - i,
{
    if i < 0 || i >= nodes.len() {
        Ok((done, scope))
    } else {
        match typecheck(nodes[i], scope) {
            Err(e) => Err(e),
            Ok((node, next)) => typecheck_from(nodes, i + 1, next, done.push(node)),
        }
    }
}

/// Checks a whole program, from the scope in which nothing is bound.
pub open spec fn typecheck_program(n: NodeView) -> Result<NodeView, SimpleErrorView> {
    match typecheck(n, Map::empty()) {
        Ok((node, _)) => Ok(node),
        Err(e) => Err(e),
    }
}

/// The error for a value of the type `got` where `expected` is asked for.
fn type_error(
    prefix: &str,
    name: &String,
    lead: &str,
    expected: DataType,
    between: &str,
    got: DataType,
    tail: &str,
) -> (e: SimpleError)
    ensures
        e@ == wrong_type(prefix@, name@, lead@, expected, between@, got, tail@),
{
    let mut suffix: String = lead.to_owned();
    suffix.append(name_of_type(expected).as_str());
    suffix.append(between);
    suffix.append(name_of_type(got).as_str());
    suffix.append(tail);
    SimpleError::about(ErrorKind::TypeCheck, prefix, name, suffix.as_str())
}

/// The error for a value that is neither an expression nor a call of a
/// function.
fn misplaced_error(name: &String) -> (e: SimpleError)
    ensures
        e@ == misplaced_failure(name@),
{
    SimpleError::about(
        ErrorKind::TypeCheck,
        "Value of `",
        name,
        "` is not an expression or a call",
    )
}

/// The first call of `return` among `nodes`.
fn find_return_call(nodes: &Vec<Box<NodeType>>) -> (r: Option<&CallStruct>)
    ensures
        match find_return(nodes_view(nodes@), 0) {
            Some(c) => r is Some && r->Some_0@ == c,
            None => r is None,
        },
{
    let ghost all = nodes_view(nodes@);
    let mut i: usize = 0;
    while i < nodes.len()
        invariant
            i <= nodes@.len(),
            all == nodes_view(nodes@),
            find_return(all, i as int) == find_return(all, 0),
        decreases nodes@.len() - i,
    {
        assert(all[i as int] == nodes@[i as int]@);
        match &*nodes[i] {
            NodeType::CALL(c) => {
                if is_text(&c.calling_name, "return") {
                    return Some(c);
                }
            },
            _ => {},
        }
        i = i + 1;
    }
    None
}

/// The first of `args` that is named `name`.
pub fn find_call_arg<'a>(args: &'a Vec<CallArgStruct>, name: &str) -> (r: Option<&'a CallArgStruct>)
    ensures
        match find_arg(call_args_view(args@), name@, 0) {
            Some(a) => r is Some && r->Some_0@ == a,
            None => r is None,
        },
{
    let ghost all = call_args_view(args@);
    let mut i: usize = 0;
    while i < args.len()
        invariant
            i <= args@.len(),
            all == call_args_view(args@),
            find_arg(all, name@, i as int) == find_arg(all, name@, 0),
        decreases args@.len() - i,
    {
        if is_text(&args[i].name, name) {
            return Some(&args[i]);
        }
        i = i + 1;
    }
    None
}

/// The first of `params` that is named `name`.
fn find_parameter<'a>(params: &'a Vec<ArgStruct>, name: &String) -> (r: Option<&'a ArgStruct>)
    ensures
        match find_param(args_view(params@), name@, 0) {
            Some(p) => r is Some && r->Some_0@ == p,
            None => r is None,
        },
{
    let ghost all = args_view(params@);
    let mut i: usize = 0;
    while i < params.len()
        invariant
            i <= params@.len(),
            all == args_view(params@),
            find_param(all, name@, i as int) == find_param(all, name@, 0),
        decreases params@.len() - i,
    {
        if params[i].name == *name {
            return Some(&params[i]);
        }
        i = i + 1;
    }
    None
}

/// The type of what a `return` with the arguments `args` gives.
fn type_returned(args: &Vec<CallArgStruct>, scope: &Scope) -> (r: Result<DataType, SimpleError>)
    ensures
        match returned_type(call_args_view(args@), scope@) {
            Ok(t) => r is Ok && r->Ok_0 == t,
            Err(e) => r is Err && r->Err_0@ == e,
        },
{
    match find_call_arg(args, "arg") {
        None => Err(SimpleError::saying(ErrorKind::TypeCheck, "Unknown return tag")),
        Some(a) => match &a.value {
            None => Ok(DataType::Bool),
            Some(e) => match typed_copy(e, scope) {
                Ok((_, t)) => Ok(t),
                Err(e) => Err(e),
            },
        },
    }
}

/// Checks that a function returns a value of its type.
fn check_function_return(
    name: &String,
    data_type: DataType,
    children: &Vec<Box<NodeType>>,
    scope: &Scope,
) -> (r: Result<(), SimpleError>)
    ensures
        match check_return(name@, data_type, nodes_view(children@), scope@) {
            Ok(_) => r is Ok,
            Err(e) => r is Err && r->Err_0@ == e,
        },
{
    if data_type == DataType::Void {
        return Ok(());
    }
    match find_return_call(children) {
        None => Err(
            SimpleError::about(
                ErrorKind::TypeCheck,
                "Function `",
                name,
                "` must have return statement",
            ),
        ),
        Some(c) => match type_returned(&c.args, scope) {
            Err(e) => Err(e),
            Ok(t) => {
                if t == data_type {
                    Ok(())
                } else {
                    Err(
                        type_error(
                            "Return statement inside `",
                            name,
                            "` function has wrong type: Expected ",
                            data_type,
                            ", got ",
                            t,
                            ".",
                        ),
                    )
                }
            },
        },
    }
}

/// Checks the value of the variable `name`.
fn check_value(name: &String, value: &AssignEnum, scope: &Scope) -> (r: Result<
    (AssignEnum, DataType),
    SimpleError,
>)
    ensures
        match typecheck_value(name@, value@, scope@) {
            Ok((v, t)) => r is Ok && r->Ok_0.0@ == v && r->Ok_0.1 == t,
            Err(e) => r is Err && r->Err_0@ == e,
        },
{
    match value {
        AssignEnum::Expr(e) => {
            let folded_value: ExprToken = optimize_rec(e, scope);
            match typed_copy(&folded_value, scope) {
                Ok((e2, t)) => Ok((AssignEnum::Expr(e2), t)),
                Err(e) => Err(e),
            }
        },
        AssignEnum::Call(n) => match &**n {
            NodeType::CALL(c) => match scope.get(&c.calling_name) {
                Some(Defined::Function(f)) => Ok((clone_value(value), f.data_type)),
                _ => Err(misplaced_error(name)),
            },
            _ => Err(misplaced_error(name)),
        },
        AssignEnum::Empty => Err(misplaced_error(name)),
    }
}

/// Checks an argument against the parameters `params`.
fn check_arg(arg: &CallArgStruct, params: &Vec<ArgStruct>, scope: &Scope) -> (r: Result<
    CallArgStruct,
    SimpleError,
>)
    ensures
        match typecheck_arg(arg@, args_view(params@), scope@) {
            Ok(a) => r is Ok && r->Ok_0@ == a,
            Err(e) => r is Err && r->Err_0@ == e,
        },
{
    let p: &ArgStruct = match find_parameter(params, &arg.name) {
        None => {
            return Ok(arg.clone());
        },
        Some(p) => p,
    };
    let e: &ExprToken = match &arg.value {
        None => {
            return Ok(arg.clone());
        },
        Some(e) => e,
    };
    match typed_copy(e, scope) {
        Err(e) => Err(e),
        Ok((e2, t)) => {
            if p.data_type != DataType::Any && p.data_type != t {
                Err(
                    type_error(
                        "Argument `",
                        &p.name,
                        "` has wrong type! Expected: `",
                        p.data_type,
                        "`, got `",
                        t,
                        "`",
                    ),
                )
            } else {
                Ok(CallArgStruct { name: arg.name.clone(), value: Some(optimize_rec(&e2, scope)) })
            }
        },
    }
}

/// Checks the arguments `args` against the parameters `params`.
fn check_args(args: &Vec<CallArgStruct>, params: &Vec<ArgStruct>, scope: &Scope) -> (r: Result<
    Vec<CallArgStruct>,
    SimpleError,
>)
    ensures
        match typecheck_args_from(
            call_args_view(args@),
            0,
            args_view(params@),
            scope@,
            Seq::empty(),
        ) {
            Ok(a) => r is Ok && call_args_view(r->Ok_0@) == a,
            Err(e) => r is Err && r->Err_0@ == e,
        },
{
    let ghost all = call_args_view(args@);
    let ghost wanted = args_view(params@);
    let mut done: Vec<CallArgStruct> = Vec::new();
    let mut i: usize = 0;
    proof {
        assert(call_args_view(done@) =~= Seq::<CallArgView>::empty());
    }
    while i < args.len()
        invariant
            i <= args@.len(),
            all == call_args_view(args@),
            wanted == args_view(params@),
            typecheck_args_from(all, i as int, wanted, scope@, call_args_view(done@))
                == typecheck_args_from(all, 0, wanted, scope@, Seq::empty()),
        decreases args@.len() - i,
    {
        let arg: CallArgStruct = match check_arg(&args[i], params, scope) {
            Ok(a) => a,
            Err(e) => {
                return Err(e);
            },
        };
        let ghost before = done@;
        done.push(arg);
        proof {
            assert(call_args_view(done@) =~= call_args_view(before).push(arg@));
        }
        i = i + 1;
    }
    Ok(done)
}

/// Checks a call.
fn check_call(c: &CallStruct, scope: &Scope) -> (r: Result<CallStruct, SimpleError>)
    ensures
        match typecheck_call(c@, scope@) {
            Ok(call) => r is Ok && r->Ok_0@ == call,
            Err(e) => r is Err && r->Err_0@ == e,
        },
{
    match scope.get(&c.calling_name) {
        Some(Defined::Function(f)) => match check_args(&c.args, &f.args, scope) {
            Ok(args) => Ok(CallStruct { calling_name: c.calling_name.clone(), args }),
            Err(e) => Err(e),
        },
        _ => Ok(c.clone()),
    }
}

/// The type of the variable that `name` is bound to, if it is one.
fn type_of_variable(name: &String, scope: &Scope) -> (r: Option<DataType>)
    ensures
        r == variable_type(name@, scope@),
{
    match scope.get(name) {
        Some(Defined::Variable(v)) => Some(v.data_type),
        _ => None,
    }
}

/// The type that the function that `name` is bound to returns, if it is
/// one.
fn type_of_function(name: &String, scope: &Scope) -> (r: Option<DataType>)
    ensures
        r == function_type(name@, scope@),
{
    match scope.get(name) {
        Some(Defined::Function(f)) => Some(f.data_type),
        _ => None,
    }
}

/// The error for an assignment of the wrong type.
fn assign_error(name: &String, expected: DataType, got: DataType) -> (e: SimpleError)
    ensures
        e@ == assign_failure(name@, expected, got),
{
    type_error("Assign to `", name, "` has wrong type! Expected: `", expected, "`, got `", got, "`")
}

/// Checks an assignment.
fn check_assign(a: &AssignStruct, scope: &Scope) -> (r: Result<AssignStruct, SimpleError>)
    ensures
        match typecheck_assign(a@, scope@) {
            Ok(assign) => r is Ok && r->Ok_0@ == assign,
            Err(e) => r is Err && r->Err_0@ == e,
        },
{
    match &a.body {
        AssignEnum::Expr(e) => match type_of_variable(&a.name, scope) {
            None => Ok(AssignStruct { name: a.name.clone(), body: clone_value(&a.body) }),
            Some(expected) => match typed_copy(e, scope) {
                Err(e) => Err(e),
                Ok((e2, t)) => {
                    if expected != t {
                        Err(assign_error(&a.name, expected, t))
                    } else {
                        Ok(AssignStruct { name: a.name.clone(), body: AssignEnum::Expr(e2) })
                    }
                },
            },
        },
        AssignEnum::Call(n) => match &**n {
            NodeType::CALL(c) => {
                let target: Option<DataType> = type_of_variable(&a.name, scope);
                let callee: Option<DataType> = type_of_function(&c.calling_name, scope);
                match (target, callee) {
                    (Some(expected), Some(t)) => {
                        if expected != t {
                            return Err(assign_error(&a.name, expected, t));
                        }
                    },
                    _ => {},
                }
                Ok(AssignStruct { name: a.name.clone(), body: clone_value(&a.body) })
            },
            _ => Err(misplaced_error(&a.name)),
        },
        AssignEnum::Empty => Err(misplaced_error(&a.name)),
    }
}

/// Checks a bound of a loop.
fn check_bound(e: &ExprToken, name: &str, scope: &Scope) -> (r: Result<ExprToken, SimpleError>)
    ensures
        match typecheck_bound(e@, name@, scope@) {
            Ok(b) => r is Ok && r->Ok_0@ == b,
            Err(e) => r is Err && r->Err_0@ == e,
        },
{
    match typed_copy(e, scope) {
        Err(e) => Err(e),
        Ok((e2, t)) => {
            if t != DataType::Int {
                let shown: String = name.to_owned();
                Err(
                    SimpleError::about(
                        ErrorKind::TypeCheck,
                        "Argument `",
                        &shown,
                        "` inside for block has wrong type! Expected `Int`",
                    ),
                )
            } else {
                Ok(optimize_rec(&e2, scope))
            }
        },
    }
}

/// Checks the node `tree` in the scope `defined`: `Ok` with the node after
/// the check, and in `defined` the scope for the statement that follows, as
/// [`typecheck`] gives them; or its error.
pub fn check(tree: &NodeType, defined: &mut Scope) -> (r: Result<NodeType, SimpleError>)
    ensures
        match typecheck(tree@, old(defined)@) {
            Ok((node, scope)) => r is Ok && r->Ok_0@ == node && final(defined)@ == scope,
            Err(e) => r is Err && r->Err_0@ == e,
        },
    decreases tree,
{
    match tree {
        NodeType::BLOCK(b) => {
            let saved: Scope = defined.clone();
            let children: Vec<Box<NodeType>> = match check_nodes(&b.children, defined) {
                Ok(c) => c,
                Err(e) => {
                    return Err(e);
                },
            };
            *defined = saved;
            Ok(NodeType::BLOCK(BlockStruct { tag: b.tag, children }))
        },
        NodeType::DEFINITION(DefinitionType::Function(fds)) => {
            let saved: Scope = defined.clone();
            bind_params(defined, &fds.args);
            let children: Vec<Box<NodeType>> = match check_nodes(&fds.children, defined) {
                Ok(c) => c,
                Err(e) => {
                    return Err(e);
                },
            };
            match check_function_return(&fds.name, fds.data_type, &children, defined) {
                Err(e) => {
                    return Err(e);
                },
                Ok(_) => {},
            }
            *defined = saved;
            let checked: FunctionDefinitionStruct = FunctionDefinitionStruct {
                data_type: fds.data_type,
                name: fds.name.clone(),
                children,
                args: clone_args(&fds.args),
                must_be_compiled: fds.must_be_compiled,
            };
            defined.insert(fds.name.clone(), Defined::Function(checked.clone()));
            Ok(NodeType::DEFINITION(DefinitionType::Function(checked)))
        },
        NodeType::DEFINITION(DefinitionType::Variable(vds)) => {
            let (value, t) = match check_value(&vds.name, &vds.value, defined) {
                Ok(p) => p,
                Err(e) => {
                    return Err(e);
                },
            };
            if vds.data_type != t {
                return Err(
                    type_error(
                        "Value type for variable `",
                        &vds.name,
                        "` is incorrect! Expected `",
                        vds.data_type,
                        "`, got `",
                        t,
                        "`",
                    ),
                );
            }
            let checked: VariableDefinitionStruct = VariableDefinitionStruct {
                data_type: vds.data_type,
                name: vds.name.clone(),
                value,
                is_const: vds.is_const,
            };
            defined.insert(vds.name.clone(), Defined::Variable(checked.clone()));
            Ok(NodeType::DEFINITION(DefinitionType::Variable(checked)))
        },
        NodeType::CALL(c) => match check_call(c, defined) {
            Ok(call) => Ok(NodeType::CALL(call)),
            Err(e) => Err(e),
        },
        NodeType::ASSIGN(a) => match check_assign(a, defined) {
            Ok(assign) => Ok(NodeType::ASSIGN(assign)),
            Err(e) => Err(e),
        },
        NodeType::ServiceBlock(ServiceBlockType::For(f)) => {
            let start: ExprToken = match check_bound(&f.start, "start", defined) {
                Ok(e) => e,
                Err(e) => {
                    return Err(e);
                },
            };
            let end: ExprToken = match check_bound(&f.end, "end", defined) {
                Ok(e) => e,
                Err(e) => {
                    return Err(e);
                },
            };
            let saved: Scope = defined.clone();
            let children: Vec<Box<NodeType>> = match check_nodes(&f.children, defined) {
                Ok(c) => c,
                Err(e) => {
                    return Err(e);
                },
            };
            *defined = saved;
            Ok(
                NodeType::ServiceBlock(
                    ServiceBlockType::For(
                        ForStruct { start, end, iter_name: f.iter_name.clone(), children },
                    ),
                ),
            )
        },
    }
}

/// Checks the statements `nodes` one after the other.
fn check_nodes(nodes: &Vec<Box<NodeType>>, defined: &mut Scope) -> (r: Result<
    Vec<Box<NodeType>>,
    SimpleError,
>)
    ensures
        match typecheck_from(nodes_view(nodes@), 0, old(defined)@, Seq::empty()) {
            Ok((done, scope)) => r is Ok && nodes_view(r->Ok_0@) == done && final(defined)@
                == scope,
            Err(e) => r is Err && r->Err_0@ == e,
        },
    decreases nodes,
{
    let ghost all = nodes_view(nodes@);
    let ghost first = defined@;
    let mut done: Vec<Box<NodeType>> = Vec::new();
    let mut i: usize = 0;
    proof {
        assert(nodes_view(done@) =~= Seq::<NodeView>::empty());
    }
    while i < nodes.len()
        invariant
            i <= nodes@.len(),
            all == nodes_view(nodes@),
            first == old(defined)@,
            typecheck_from(all, i as int, defined@, nodes_view(done@)) == typecheck_from(
                all,
                0,
                first,
                Seq::empty(),
            ),
        decreases nodes@.len() - i,
    {
        assert(all[i as int] == nodes@[i as int]@);
        let node: NodeType = match check(&nodes[i], defined) {
            Ok(n) => n,
            Err(e) => {
                return Err(e);
            },
        };
        let ghost before = done@;
        done.push(Box::new(node));
        proof {
            assert(nodes_view(done@) =~= nodes_view(before).push(node@));
        }
        i = i + 1;
    }
    Ok(done)
}

/// Checks the types of a whole program. On success the tree is the one
/// after the check, as [`typecheck_program`] gives it; on an error it is as
/// it was.
pub fn start_types_check(tree: &mut NodeType) -> (r: Result<(), SimpleError>)
    ensures
        match typecheck_program(old(tree)@) {
            Ok(node) => r is Ok && final(tree)@ == node,
            Err(e) => r is Err && r->Err_0@ == e && *final(tree) == *old(tree),
        },
{
    let mut defined: Scope = Scope::new();
    match check(tree, &mut defined) {
        Ok(node) => {
            *tree = node;
            Ok(())
        },
        Err(e) => Err(e),
    }
}

/// A variable of the type `Int` cannot take a string: the definition of an
/// `Int` variable whose value is a string literal fails, in every scope,
/// with the error of the kind `TypeCheck` that names the two types.
pub proof fn lemma_int_variable_rejects_string(v: VariableView, text: Seq<char>, scope: ScopeView)
    requires
        v.data_type == DataType::Int,
        v.value == ValueView::Expr(ExprView::Literal(text)),
    ensures
        typecheck(NodeView::Definition(DefinitionView::Variable(v)), scope) == Err::<
            (NodeView, ScopeView),
            SimpleErrorView,
        >(value_failure(v.name, DataType::Int, DataType::Str)),
        value_failure(v.name, DataType::Int, DataType::Str).kind == ErrorKind::TypeCheck,
{
}

/// Whether `n` is a call of `return`.
pub open spec fn is_return(n: NodeView) -> bool {
    match n {
        NodeView::Call(c) => c.calling_name == "return"@,
        _ => false,
    }
}

/// Whether `n` is a call of `return` whose argument `arg` is a string
/// literal.
pub open spec fn returns_text(n: NodeView) -> bool {
    match n {
        NodeView::Call(c) => c.calling_name == "return"@ && match find_arg(c.args, "arg"@, 0) {
            Some(a) => match a.value {
                Some(ExprView::Literal(_)) => true,
                _ => false,
            },
            None => false,
        },
        _ => false,
    }
}

/// The index of the first call of `return` among `nodes[i..]`; the length
/// of `nodes` where there is none.
pub open spec fn return_index(nodes: Seq<NodeView>, i: int) -> int
    decreases nodes.len() - i,
{
    if i < 0 || i >= nodes.len() {
        nodes.len() as int
    } else if is_return(nodes[i]) {
        i
    } else {
        return_index(nodes, i + 1)
    }
}

/// The first call of `return` is the node at the index of the first call
/// of `return`.
proof fn lemma_find_return_index(nodes: Seq<NodeView>, i: int)
    requires
        0 <= i <= nodes.len(),
    ensures
        i <= return_index(nodes, i) <= nodes.len(),
        return_index(nodes, i) < nodes.len() ==> is_return(nodes[return_index(nodes, i)])
            && find_return(nodes, i) == Some(nodes[return_index(nodes, i)]->Call_0),
        return_index(nodes, i) == nodes.len() ==> find_return(nodes, i) is None,
    decreases nodes.len() - i,
{
    if i < nodes.len() {
        lemma_find_return_index(nodes, i + 1);
    }
}

/// Two lists with calls of `return` at the same places have their first at
/// the same place.
proof fn lemma_same_return_index(a: Seq<NodeView>, b: Seq<NodeView>, i: int)
    requires
        a.len() == b.len(),
        0 <= i <= a.len(),
        forall|k: int| i <= k < a.len() ==> is_return(#[trigger] a[k]) == is_return(b[k]),
    ensures
        return_index(a, i) == return_index(b, i),
    decreases a.len() - i,
{
    if i < a.len() {
        assert(is_return(a[i]) == is_return(b[i]));
        lemma_same_return_index(a, b, i + 1);
    }
}

/// The check of arguments keeps their number, their names and their string
/// literals, each in its place.
proof fn lemma_checked_args(
    args: Seq<CallArgView>,
    i: int,
    params: Seq<ArgView>,
    scope: ScopeView,
    done: Seq<CallArgView>,
)
    requires
        0 <= i <= args.len(),
        typecheck_args_from(args, i, params, scope, done) is Ok,
    ensures
        typecheck_args_from(args, i, params, scope, done)->Ok_0.len() == done.len() + args.len()
            - i,
        forall|k: int|
            0 <= k < done.len() ==> typecheck_args_from(args, i, params, scope, done)->Ok_0[k]
                == done[k],
        forall|j: int|
            i <= j < args.len() ==> (#[trigger] typecheck_args_from(
                args,
                i,
                params,
                scope,
                done,
            )->Ok_0[done.len() + j - i]).name == args[j].name && (args[j].value matches Some(
                ExprView::Literal(_),
            ) ==> typecheck_args_from(args, i, params, scope, done)->Ok_0[done.len() + j
                - i].value == args[j].value),
    decreases args.len() - i,
{
    if i < args.len() {
        let arg = typecheck_arg(args[i], params, scope)->Ok_0;
        let next = done.push(arg);
        lemma_checked_args(args, i + 1, params, scope, next);
        let out = typecheck_args_from(args, i + 1, params, scope, next)->Ok_0;
        assert(typecheck_args_from(args, i, params, scope, done)->Ok_0 == out);
        assert forall|k: int| 0 <= k < done.len() implies out[k] == done[k] by {
            assert(out[k] == next[k]);
        }
        assert forall|j: int| i <= j < args.len() implies (#[trigger] out[done.len() + j
            - i]).name == args[j].name && (args[j].value matches Some(ExprView::Literal(_))
            ==> out[done.len() + j - i].value == args[j].value) by {
            if j == i {
                assert(out[done.len() as int] == next[done.len() as int]);
                assert(next[done.len() as int] == arg);
            } else {
                assert(out[next.len() + j - (i + 1)].name == args[j].name);
            }
        }
    }
}

/// Lists of arguments with the same names in the same places have their
/// first argument of a name at the same place.
proof fn lemma_same_find_arg(a: Seq<CallArgView>, b: Seq<CallArgView>, name: Seq<char>, i: int)
    requires
        a.len() == b.len(),
        0 <= i <= a.len(),
        forall|k: int| i <= k < a.len() ==> (#[trigger] a[k]).name == b[k].name,
        forall|k: int|
            i <= k < a.len() ==> ((#[trigger] a[k]).value matches Some(ExprView::Literal(_))
                ==> b[k].value == a[k].value),
    ensures
        find_arg(a, name, i) is Some == find_arg(b, name, i) is Some,
        find_arg(a, name, i) is Some && (find_arg(a, name, i)->Some_0.value matches Some(
            ExprView::Literal(_),
        )) ==> find_arg(b, name, i)->Some_0.value == find_arg(a, name, i)->Some_0.value,
    decreases a.len() - i,
{
    if i < a.len() {
        assert(a[i].name == b[i].name);
        lemma_same_find_arg(a, b, name, i + 1);
    }
}

/// The check of a node keeps what it is: a call of `return` stays one, what
/// is none does not become one, and a `return` of a string literal stays a
/// `return` of a string literal.
proof fn lemma_checked_node(n: NodeView, scope: ScopeView)
    requires
        typecheck(n, scope) is Ok,
    ensures
        is_return(typecheck(n, scope)->Ok_0.0) == is_return(n),
        returns_text(n) ==> returns_text(typecheck(n, scope)->Ok_0.0),
{
    match n {
        NodeView::Call(c) => {
            if scope.contains_key(c.calling_name) {
                match scope[c.calling_name] {
                    DefinedView::Function(f) => {
                        lemma_checked_args(c.args, 0, f.args, scope, Seq::empty());
                        let out = typecheck_args_from(c.args, 0, f.args, scope, Seq::empty())->Ok_0;
                        assert forall|k: int| 0 <= k < c.args.len() implies (#[trigger] c.args[k]).name
                            == out[k].name && (c.args[k].value matches Some(ExprView::Literal(_))
                            ==> out[k].value == c.args[k].value) by {
                            assert(out[0 + k - 0].name == c.args[k].name);
                        }
                        lemma_same_find_arg(c.args, out, "arg"@, 0);
                    },
                    DefinedView::Variable(_) => {},
                }
            }
        },
        _ => {},
    }
}

/// The check of statements keeps their number and, place by place, what
/// they are.
proof fn lemma_checked_nodes(nodes: Seq<NodeView>, i: int, scope: ScopeView, done: Seq<NodeView>)
    requires
        0 <= i <= nodes.len(),
        typecheck_from(nodes, i, scope, done) is Ok,
    ensures
        typecheck_from(nodes, i, scope, done)->Ok_0.0.len() == done.len() + nodes.len() - i,
        forall|k: int|
            0 <= k < done.len() ==> typecheck_from(nodes, i, scope, done)->Ok_0.0[k] == done[k],
        forall|j: int|
            i <= j < nodes.len() ==> is_return(
                #[trigger] typecheck_from(nodes, i, scope, done)->Ok_0.0[done.len() + j - i],
            ) == is_return(nodes[j]) && (returns_text(nodes[j]) ==> returns_text(
                typecheck_from(nodes, i, scope, done)->Ok_0.0[done.len() + j - i],
            )),
    decreases nodes.len() - i,
{
    if i < nodes.len() {
        lemma_checked_node(nodes[i], scope);
        let node = typecheck(nodes[i], scope)->Ok_0.0;
        let after = typecheck(nodes[i], scope)->Ok_0.1;
        let next = done.push(node);
        lemma_checked_nodes(nodes, i + 1, after, next);
        let out = typecheck_from(nodes, i + 1, after, next)->Ok_0.0;
        assert(typecheck_from(nodes, i, scope, done)->Ok_0.0 == out);
        assert forall|k: int| 0 <= k < done.len() implies out[k] == done[k] by {
            assert(out[k] == next[k]);
        }
        assert forall|j: int| i <= j < nodes.len() implies is_return(
            #[trigger] out[done.len() + j - i],
        ) == is_return(nodes[j]) && (returns_text(nodes[j]) ==> returns_text(
            out[done.len() + j - i],
        )) by {
            if j == i {
                assert(out[done.len() as int] == next[done.len() as int]);
                assert(next[done.len() as int] == node);
            } else {
                assert(is_return(out[next.len() + j - (i + 1)]) == is_return(nodes[j]));
            }
        }
    }
}

/// A function that returns a value needs a `return`: the definition of a
/// function whose type is not `Void` and that has no call of `return` among
/// its statements fails, in every scope. Where its statements themselves
/// pass the check, the error is of the kind `TypeCheck` and says that the
/// function must have a return statement.
pub proof fn lemma_function_needs_return(f: FunctionView, scope: ScopeView)
    requires
        f.data_type != DataType::Void,
        find_return(f.children, 0) is None,
    ensures
        typecheck(NodeView::Definition(DefinitionView::Function(f)), scope) is Err,
        typecheck_from(f.children, 0, with_params(scope, f.args, f.args.len()), Seq::empty())
            is Ok ==> typecheck(NodeView::Definition(DefinitionView::Function(f)), scope) == Err::<
            (NodeView, ScopeView),
            SimpleErrorView,
        >(no_return_failure(f.name)),
        no_return_failure(f.name).kind == ErrorKind::TypeCheck,
{
    let inner = with_params(scope, f.args, f.args.len());
    if typecheck_from(f.children, 0, inner, Seq::empty()) is Ok {
        let out = typecheck_from(f.children, 0, inner, Seq::empty())->Ok_0.0;
        lemma_checked_nodes(f.children, 0, inner, Seq::empty());
        assert forall|k: int| 0 <= k < out.len() implies is_return(#[trigger] out[k]) == is_return(
            f.children[k],
        ) by {
            assert(is_return(out[0 + k - 0]) == is_return(f.children[k]));
        }
        lemma_same_return_index(out, f.children, 0);
        lemma_find_return_index(out, 0);
        lemma_find_return_index(f.children, 0);
    }
}

/// A function must return its type: the definition of a function of the
/// type `Int` whose first `return` gives a string literal fails, in every
/// scope. Where its statements themselves pass the check, the error is of
/// the kind `TypeCheck` and names the two types.
pub proof fn lemma_int_function_rejects_string(f: FunctionView, scope: ScopeView)
    requires
        f.data_type == DataType::Int,
        find_return(f.children, 0) is Some,
        returns_text(NodeView::Call(find_return(f.children, 0)->Some_0)),
    ensures
        typecheck(NodeView::Definition(DefinitionView::Function(f)), scope) is Err,
        typecheck_from(f.children, 0, with_params(scope, f.args, f.args.len()), Seq::empty())
            is Ok ==> typecheck(NodeView::Definition(DefinitionView::Function(f)), scope) == Err::<
            (NodeView, ScopeView),
            SimpleErrorView,
        >(return_failure(f.name, DataType::Int, DataType::Str)),
        return_failure(f.name, DataType::Int, DataType::Str).kind == ErrorKind::TypeCheck,
{
    let inner = with_params(scope, f.args, f.args.len());
    if typecheck_from(f.children, 0, inner, Seq::empty()) is Ok {
        let out = typecheck_from(f.children, 0, inner, Seq::empty())->Ok_0.0;
        let after = typecheck_from(f.children, 0, inner, Seq::empty())->Ok_0.1;
        lemma_checked_nodes(f.children, 0, inner, Seq::empty());
        assert forall|k: int| 0 <= k < out.len() implies is_return(#[trigger] out[k]) == is_return(
            f.children[k],
        ) by {
            assert(is_return(out[0 + k - 0]) == is_return(f.children[k]));
        }
        lemma_same_return_index(out, f.children, 0);
        lemma_find_return_index(out, 0);
        lemma_find_return_index(f.children, 0);
        let at = return_index(f.children, 0);
        assert(at < f.children.len());
        assert(f.children[at] == NodeView::Call(find_return(f.children, 0)->Some_0));
        assert(returns_text(out[0 + at - 0]));
        let c = find_return(out, 0)->Some_0;
        assert(out[at] == NodeView::Call(c));
        assert(returned_type(c.args, after) == Ok::<DataType, SimpleErrorView>(DataType::Str));
    }
}

} // verus!

//! The built-in functions `println`, `print`, `return`, `inc` and `dec`.
//!
//! Each takes one argument of any type, named `arg`, and returns nothing. A
//! backend provides them: none has a body to emit.
use crate::code_tree::types::{
    args_view, nodes_view, ArgStruct, ArgView, CallStruct, DataType, DefinitionType,
    DefinitionView, FunctionDefinitionStruct, FunctionView, NodeType, NodeView,
};
use crate::compiler::{
    backend_error, print_name_text, print_text, process_expr_token, return_text, step_text,
};
use crate::errors::{ErrorKind, SimpleError};
use crate::math::types::{ExprToken, VariableType};
use crate::types::typechecker::find_call_arg;
use vstd::prelude::*;
use vstd::string::*;

verus! {

/// The declaration of the built-in function `name`.
pub open spec fn builtin(name: Seq<char>) -> NodeView {
    NodeView::Definition(
        DefinitionView::Function(
            FunctionView {
                data_type: DataType::Void,
                name,
                children: Seq::empty(),
                args: seq![ArgView { name: "arg"@, data_type: DataType::Any }],
                must_be_compiled: false,
            },
        ),
    )
}

/// The declarations of the built-in functions, in the order in which a
/// program sees them.
pub open spec fn library() -> Seq<NodeView> {
    seq![
        builtin("println"@),
        builtin("print"@),
        builtin("return"@),
        builtin("inc"@),
        builtin("dec"@),
    ]
}

/// The built-in functions.
pub struct Std;

impl Std {
    /// The declarations of the built-in functions.
    pub fn use_lib() -> (r: Vec<Box<NodeType>>)
        ensures
            nodes_view(r@) == library(),
    {
        let mut r: Vec<Box<NodeType>> = Vec::new();
        r.push(Box::new(Self::build_println()));
        r.push(Box::new(Self::build_print()));
        r.push(Box::new(Self::build_return()));
        r.push(Box::new(Self::build_inc()));
        r.push(Box::new(Self::build_dec()));
        assert(nodes_view(r@) =~= library());
        r
    }

    /// The declaration of the built-in function `name`.
    fn build(name: &str) -> (n: NodeType)
        ensures
            n@ == builtin(name@),
    {
        let mut args: Vec<ArgStruct> = Vec::new();
        args.push(ArgStruct::new("arg".to_owned(), DataType::Any));
        assert(args_view(args@) =~= seq![ArgView { name: "arg"@, data_type: DataType::Any }]);
        NodeType::DEFINITION(
            DefinitionType::Function(
                FunctionDefinitionStruct::new_internal(name.to_owned(), DataType::Void, args, false),
            ),
        )
    }

    /// The declaration of `println`.
    pub fn build_println() -> (n: NodeType)
        ensures
            n@ == builtin("println"@),
    {
        Self::build("println")
    }

    /// The declaration of `print`.
    pub fn build_print() -> (n: NodeType)
        ensures
            n@ == builtin("print"@),
    {
        Self::build("print")
    }

    /// The declaration of `return`.
    pub fn build_return() -> (n: NodeType)
        ensures
            n@ == builtin("return"@),
    {
        Self::build("return")
    }

    /// The declaration of `inc`.
    pub fn build_inc() -> (n: NodeType)
        ensures
            n@ == builtin("inc"@),
    {
        Self::build("inc")
    }

    /// The declaration of `dec`.
    pub fn build_dec() -> (n: NodeType)
        ensures
            n@ == builtin("dec"@),
    {
        Self::build("dec")
    }

    /// The C statement that prints the value of the reference `l`, followed
    /// by `end`.
    pub fn compile_var_println(l: &VariableType, end: &str) -> (r: Result<String, SimpleError>)
        ensures
            match print_name_text(l@, end@) {
                Ok(t) => r is Ok && r->Ok_0@ == t,
                Err(e) => r is Err && r->Err_0@ == e,
            },
    {
        let key: &str = match l.data_type {
            DataType::Int => "%d",
            DataType::Bool => "%d",
            DataType::Str => "%s",
            _ => {
                return Err(backend_error("Value of `", &l.name, "` cannot be printed"));
            },
        };
        let mut r: String = if l.is_func {
            "printf(\"<function at %d>".to_owned()
        } else {
            let mut r: String = "printf(\"".to_owned();
            r.append(key);
            r
        };
        r.append(end);
        r.append("\", ");
        r.append(l.name.as_str());
        r.append(");");
        Ok(r)
    }

    /// The C statement for a call of `println` or `print`, where what is
    /// printed is followed by `end`.
    fn compile_printing(call: &CallStruct, end: &str) -> (r: Result<String, SimpleError>)
        ensures
            match print_text(call@, end@) {
                Ok(t) => r is Ok && r->Ok_0@ == t,
                Err(e) => r is Err && r->Err_0@ == e,
            },
    {
        match find_call_arg(&call.args, "arg") {
            None => Ok(String::new()),
            Some(a) => match &a.value {
                Some(ExprToken::Literal(l)) => {
                    let mut r: String = "printf(\"".to_owned();
                    r.append(l.as_str());
                    r.append(end);
                    r.append("\");");
                    Ok(r)
                },
                Some(ExprToken::Variable(v)) => Self::compile_var_println(v, end),
                Some(e) => {
                    let mut r: String = "printf(\"%d".to_owned();
                    r.append(end);
                    r.append("\", ");
                    r.append(process_expr_token(e).as_str());
                    r.append(");");
                    Ok(r)
                },
                None => {
                    let mut r: String = "printf(\"%d".to_owned();
                    r.append(end);
                    r.append("\", true);");
                    Ok(r)
                },
            },
        }
    }

    /// The C statement for a call of `println`.
    pub fn compile_println(call: &CallStruct) -> (r: Result<String, SimpleError>)
        ensures
            match print_text(call@, "\\n"@) {
                Ok(t) => r is Ok && r->Ok_0@ == t,
                Err(e) => r is Err && r->Err_0@ == e,
            },
    {
        Self::compile_printing(call, "\\n")
    }

    /// The C statement for a call of `print`.
    pub fn compile_print(call: &CallStruct) -> (r: Result<String, SimpleError>)
        ensures
            match print_text(call@, ""@) {
                Ok(t) => r is Ok && r->Ok_0@ == t,
                Err(e) => r is Err && r->Err_0@ == e,
            },
    {
        Self::compile_printing(call, "")
    }

    /// The C statement for a call of `return`.
    pub fn compile_return(call: &CallStruct) -> (r: String)
        ensures
            r@ == return_text(call@),
    {
        match find_call_arg(&call.args, "arg") {
            None => String::new(),
            Some(a) => match &a.value {
                Some(e) => {
                    let mut r: String = "return ".to_owned();
                    r.append(process_expr_token(e).as_str());
                    r.append(";");
                    r
                },
                None => "return true;".to_owned(),
            },
        }
    }

    /// The C statement for a call of `inc` or `dec`.
    fn compile_step(call: &CallStruct, sign: &str) -> (r: Result<String, SimpleError>)
        ensures
            match step_text(call@, sign@) {
                Ok(t) => r is Ok && r->Ok_0@ == t,
                Err(e) => r is Err && r->Err_0@ == e,
            },
    {
        match find_call_arg(&call.args, "arg") {
            None => Ok(String::new()),
            Some(a) => match &a.value {
                Some(ExprToken::Variable(v)) => {
                    let mut r: String = v.name.clone();
                    r.append(sign);
                    Ok(r)
                },
                _ => Err(
                    SimpleError::saying(ErrorKind::TypeCheck, "Cannot increment non-variable type"),
                ),
            },
        }
    }

    /// The C statement for a call of `inc`.
    pub fn compile_inc(call: &CallStruct) -> (r: Result<String, SimpleError>)
        ensures
            match step_text(call@, "++;"@) {
                Ok(t) => r is Ok && r->Ok_0@ == t,
                Err(e) => r is Err && r->Err_0@ == e,
            },
    {
        Self::compile_step(call, "++;")
    }

    /// The C statement for a call of `dec`.
    pub fn compile_dec(call: &CallStruct) -> (r: Result<String, SimpleError>)
        ensures
            match step_text(call@, "--;"@) {
                Ok(t) => r is Ok && r->Ok_0@ == t,
                Err(e) => r is Err && r->Err_0@ == e,
            },
    {
        Self::compile_step(call, "--;")
    }
}

} // verus!

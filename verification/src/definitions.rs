//! The definition resolver: every name is declared before it is used, and
//! declared once.
use crate::code_tree::types::{
    args_view, call_args_view, nodes_view, ArgStruct, ArgView, AssignEnum, CallArgStruct,
    CallArgView, CallStruct, CallView, DefinitionType, DefinitionView, FunctionDefinitionStruct,
    FunctionView, NodeType, NodeView, ServiceBlockType, ValueView, VariableDefinitionStruct,
    VariableView,
};
use crate::errors::{error_about, ErrorKind, SimpleError, SimpleErrorView};
use crate::math::analysis::first_undefined;
use crate::math::types::{ExprToken, ExprView, VariableType, VariableTypeView};
use vstd::prelude::*;
use vstd::string::*;

verus! {

/// What a name is bound to: a variable or a function, with its definition.
#[derive(Debug, PartialEq, Eq)]
pub enum Defined {
    Variable(VariableDefinitionStruct),
    Function(FunctionDefinitionStruct),
}

/// The mathematical value of a [`Defined`].
pub enum DefinedView {
    Variable(VariableView),
    Function(FunctionView),
}

impl View for Defined {
    type V = DefinedView;

    open spec fn view(&self) -> DefinedView {
        match self {
            Defined::Variable(v) => DefinedView::Variable(v@),
            Defined::Function(f) => DefinedView::Function(f@),
        }
    }
}

impl Clone for Defined {
    fn clone(&self) -> (r: Self)
        ensures
            r@ == self@,
    {
        match self {
            Defined::Variable(v) => Defined::Variable(v.clone()),
            Defined::Function(f) => Defined::Function(f.clone()),
        }
    }
}

/// One entry of a scope: a name and what it is bound to.
#[derive(Debug, PartialEq, Eq)]
pub struct Binding {
    pub name: String,
    pub value: Defined,
}

/// The names that are visible at a point of the program, each with what it
/// is bound to. Entries are kept in the order of their insertion, and a
/// later entry hides an earlier one of the same name.
#[derive(Debug, PartialEq, Eq)]
pub struct Scope {
    pub entries: Vec<Binding>,
}

/// A scope as a map from names to what they are bound to.
pub type ScopeView = Map<Seq<char>, DefinedView>;

/// The map that a list of entries amounts to.
pub open spec fn scope_of(entries: Seq<Binding>) -> ScopeView
    decreases entries.len(),
{
    if entries.len() == 0 {
        Map::empty()
    } else {
        scope_of(entries.drop_last()).insert(entries.last().name@, entries.last().value@)
    }
}

impl View for Scope {
    type V = ScopeView;

    open spec fn view(&self) -> ScopeView {
        scope_of(self.entries@)
    }
}

/// The last entry of a name is the one that counts.
proof fn lemma_scope_found(entries: Seq<Binding>, name: Seq<char>, i: int)
    requires
        0 <= i < entries.len(),
        entries[i].name@ == name,
        forall|j: int| i < j < entries.len() ==> entries[j].name@ != name,
    ensures
        scope_of(entries).contains_key(name),
        scope_of(entries)[name] == entries[i].value@,
    decreases entries.len(),
{
    if i < entries.len() - 1 {
        lemma_scope_found(entries.drop_last(), name, i);
    }
}

/// A name that no entry carries is not bound.
proof fn lemma_scope_absent(entries: Seq<Binding>, name: Seq<char>)
    requires
        forall|j: int| 0 <= j < entries.len() ==> entries[j].name@ != name,
    ensures
        !scope_of(entries).contains_key(name),
    decreases entries.len(),
{
    if entries.len() > 0 {
        lemma_scope_absent(entries.drop_last(), name);
    }
}

/// Lists whose entries agree one by one amount to the same map.
proof fn lemma_scope_same(a: Seq<Binding>, b: Seq<Binding>)
    requires
        a.len() == b.len(),
        forall|j: int| 0 <= j < a.len() ==> a[j].name@ == b[j].name@ && a[j].value@ == b[j].value@,
    ensures
        scope_of(a) == scope_of(b),
    decreases a.len(),
{
    if a.len() > 0 {
        lemma_scope_same(a.drop_last(), b.drop_last());
    }
}

impl Scope {
    /// The scope in which nothing is bound.
    pub fn new() -> (s: Self)
        ensures
            s@ == Map::<Seq<char>, DefinedView>::empty(),
    {
        Scope { entries: Vec::new() }
    }

    /// What `name` is bound to, if it is bound.
    pub fn get(&self, name: &String) -> (r: Option<&Defined>)
        ensures
            match r {
                Some(d) => self@.contains_key(name@) && self@[name@] == d@,
                None => !self@.contains_key(name@),
            },
    {
        let mut i: usize = self.entries.len();
        while i > 0
            invariant
                i <= self.entries@.len(),
                forall|j: int| i <= j < self.entries@.len() ==> self.entries@[j].name@ != name@,
            decreases i,
        {
            i = i - 1;
            if self.entries[i].name == *name {
                proof {
                    lemma_scope_found(self.entries@, name@, i as int);
                }
                return Some(&self.entries[i].value);
            }
        }
        proof {
            lemma_scope_absent(self.entries@, name@);
        }
        None
    }

    /// Binds `name` to `value`, in place of what it was bound to before.
    pub fn insert(&mut self, name: String, value: Defined)
        ensures
            final(self)@ == old(self)@.insert(name@, value@),
    {
        let ghost before = self.entries@;
        self.entries.push(Binding { name, value });
        assert(self.entries@.drop_last() =~= before);
    }
}

impl Clone for Scope {
    fn clone(&self) -> (r: Self)
        ensures
            r@ == self@,
    {
        let mut entries: Vec<Binding> = Vec::new();
        let mut i: usize = 0;
        while i < self.entries.len()
            invariant
                i <= self.entries@.len(),
                entries@.len() == i,
                forall|j: int|
                    0 <= j < i ==> entries@[j].name@ == self.entries@[j].name@ && entries@[j].value@
                        == self.entries@[j].value@,
            decreases self.entries@.len() - i,
        {
            let name: String = self.entries[i].name.clone();
            let value: Defined = self.entries[i].value.clone();
            entries.push(Binding { name, value });
            i = i + 1;
        }
        proof {
            lemma_scope_same(entries@, self.entries@);
        }
        Scope { entries }
    }
}

/// An error of the resolver whose message quotes `name`.
pub open spec fn definition_failure(
    prefix: Seq<char>,
    name: Seq<char>,
    suffix: Seq<char>,
) -> SimpleErrorView {
    error_about(ErrorKind::DefinitionCheck, prefix, name, suffix)
}

/// The error for a name in an expression that is not bound.
pub open spec fn undefined_failure(name: Seq<char>) -> SimpleErrorView {
    definition_failure("Variable `"@, name, "` not defined"@)
}

/// The error for the argument `argument` given twice to `function`.
pub open spec fn duplicate_failure(argument: Seq<char>, function: Seq<char>) -> SimpleErrorView {
    definition_failure(
        "Found duplicate argument `"@,
        argument + "` in function: "@ + function,
        ""@,
    )
}

/// The error for a call of `function` without its parameter `argument`.
pub open spec fn missing_failure(argument: Seq<char>, function: Seq<char>) -> SimpleErrorView {
    definition_failure(
        "Argument `"@,
        argument + "` in function `"@ + function,
        "` call is required"@,
    )
}

/// The error for a call of `function` with an argument `argument` that it
/// does not take.
pub open spec fn unexpected_failure(argument: Seq<char>, function: Seq<char>) -> SimpleErrorView {
    definition_failure(
        "Unexpected argument `"@,
        argument + "` for function `"@ + function,
        "`"@,
    )
}

/// The names of a list of parameters.
pub open spec fn param_names(params: Seq<ArgView>) -> Seq<Seq<char>> {
    Seq::new(params.len(), |i: int| params[i].name)
}

/// The names of a list of arguments.
pub open spec fn arg_names(args: Seq<CallArgView>) -> Seq<Seq<char>> {
    Seq::new(args.len(), |i: int| args[i].name)
}

/// The first name, from index `i` on, that occurs earlier in `names`.
pub open spec fn duplicate_from(names: Seq<Seq<char>>, i: int) -> Option<Seq<char>>
    decreases names.len() - i,
{
    if i < 0 || i >= names.len() {
        None
    } else if names.take(i).contains(names[i]) {
        Some(names[i])
    } else {
        duplicate_from(names, i + 1)
    }
}

/// The first name in `names` that repeats an earlier one.
pub open spec fn first_duplicate(names: Seq<Seq<char>>) -> Option<Seq<char>> {
    duplicate_from(names, 0)
}

/// The first name in `wanted`, from index `i` on, that is not among
/// `given`.
pub open spec fn missing_from(wanted: Seq<Seq<char>>, given: Seq<Seq<char>>, i: int) -> Option<
    Seq<char>,
>
    decreases wanted.len() - i,
{
    if i < 0 || i >= wanted.len() {
        None
    } else if !given.contains(wanted[i]) {
        Some(wanted[i])
    } else {
        missing_from(wanted, given, i + 1)
    }
}

/// The arguments from index `i` on are checked in turn: the names in an
/// argument's value must be bound, and the function `f` must have a
/// parameter of the argument's name.
pub open spec fn check_args_from(
    args: Seq<CallArgView>,
    i: int,
    f: FunctionView,
    scope: ScopeView,
) -> Result<(), SimpleErrorView>
    decreases args.len() - i,
{
    if i < 0 || i >= args.len() {
        Ok(())
    } else {
        let undefined = match args[i].value {
            Some(e) => first_undefined(e, scope),
            None => None,
        };
        match undefined {
            Some(name) => Err(undefined_failure(name)),
            None => if !param_names(f.args).contains(args[i].name) {
                Err(unexpected_failure(args[i].name, f.name))
            } else {
                check_args_from(args, i + 1, f, scope)
            },
        }
    }
}

/// A call is in order when its target is bound to a function, every
/// parameter of the function is given, none is given twice, every name in
/// an argument's value is bound, and every argument is a parameter.
pub open spec fn check_call(c: CallView, scope: ScopeView) -> Result<(), SimpleErrorView> {
    if !scope.contains_key(c.calling_name) {
        Err(definition_failure("Cannot call undefined function: "@, c.calling_name, ""@))
    } else {
        match scope[c.calling_name] {
            DefinedView::Variable(v) => Err(
                definition_failure("Cannot call variable as function: "@, v.name, ""@),
            ),
            DefinedView::Function(f) => match missing_from(
                param_names(f.args),
                arg_names(c.args),
                0,
            ) {
                Some(name) => Err(missing_failure(name, f.name)),
                None => match first_duplicate(arg_names(c.args)) {
                    Some(name) => Err(duplicate_failure(name, f.name)),
                    None => check_args_from(c.args, 0, f, scope),
                },
            },
        }
    }
}

/// What a parameter is bound to in the body of its function: a constant
/// of the parameter's type whose value is the parameter itself.
pub open spec fn param_binding(p: ArgView) -> DefinedView {
    DefinedView::Variable(
        VariableView {
            data_type: p.data_type,
            name: p.name,
            value: ValueView::Expr(
                ExprView::Variable(
                    VariableTypeView { name: p.name, data_type: p.data_type, is_func: false },
                ),
            ),
            is_const: true,
        },
    )
}

/// `scope` with the first `n` of `params` bound.
pub open spec fn with_params(scope: ScopeView, params: Seq<ArgView>, n: nat) -> ScopeView
    decreases n,
{
    if n == 0 {
        scope
    } else {
        with_params(scope, params, (n - 1) as nat).insert(
            params[n - 1].name,
            param_binding(params[n - 1]),
        )
    }
}

/// The value that a call or an expression gives to a variable is in order.
pub open spec fn check_value(
    value: ValueView,
    scope: ScopeView,
    misplaced: SimpleErrorView,
) -> Result<(), SimpleErrorView> {
    match value {
        ValueView::Expr(e) => match first_undefined(e, scope) {
            Some(name) => Err(undefined_failure(name)),
            None => Ok(()),
        },
        ValueView::Call(n) => match *n {
            NodeView::Call(c) => check_call(c, scope),
            _ => Err(misplaced),
        },
        ValueView::Empty => Err(misplaced),
    }
}

/// The target of an assignment is a variable that is not constant.
pub open spec fn check_target(name: Seq<char>, scope: ScopeView) -> Result<(), SimpleErrorView> {
    if !scope.contains_key(name) {
        Err(definition_failure("Variable `"@, name, "` for assign not defined!"@))
    } else {
        match scope[name] {
            DefinedView::Function(_) => Err(
                definition_failure("Cannot assign value to `"@, name, "` function"@),
            ),
            DefinedView::Variable(v) => if v.is_const {
                Err(definition_failure("Cannot assign value to constant `"@, name, "` variable"@))
            } else {
                Ok(())
            },
        }
    }
}

/// Resolves the node `n` in `scope`: the scope in which the statement after
/// `n` is resolved, or the first error.
///
/// What a block, a function body or a loop body defines is visible in it
/// alone. A definition binds its name for what follows it, and the name
/// must be new. A function's parameters are constants in its body; the
/// function itself is bound only behind its definition.
pub open spec fn resolve(n: NodeView, scope: ScopeView) -> Result<ScopeView, SimpleErrorView>
    decreases n, 0nat,
{
    match n {
        NodeView::Block(b) => match resolve_from(b.children, 0, scope) {
            Ok(_) => Ok(scope),
            Err(e) => Err(e),
        },
        NodeView::Definition(DefinitionView::Function(f)) => match first_duplicate(
            param_names(f.args),
        ) {
            Some(name) => Err(duplicate_failure(name, f.name)),
            None => match resolve_from(
                f.children,
                0,
                with_params(scope, f.args, f.args.len()),
            ) {
                Err(e) => Err(e),
                Ok(_) => if scope.contains_key(f.name) {
                    Err(definition_failure("Cannot redefine function `"@, f.name, "`"@))
                } else {
                    Ok(scope.insert(f.name, DefinedView::Function(f)))
                },
            },
        },
        NodeView::Definition(DefinitionView::Variable(v)) => match check_value(
            v.value,
            scope,
            definition_failure("Unexpected token inside `"@, v.name, "` definition"@),
        ) {
            Err(e) => Err(e),
            Ok(_) => if scope.contains_key(v.name) {
                Err(definition_failure("Cannot redefine variable `"@, v.name, "`"@))
            } else {
                Ok(scope.insert(v.name, DefinedView::Variable(v)))
            },
        },
        NodeView::Call(c) => match check_call(c, scope) {
            Err(e) => Err(e),
            Ok(_) => Ok(scope),
        },
        NodeView::Assign(a) => match check_target(a.name, scope) {
            Err(e) => Err(e),
            Ok(_) => match check_value(
                a.body,
                scope,
                definition_failure("Unexpected token inside `"@, a.name, "` assign"@),
            ) {
                Err(e) => Err(e),
                Ok(_) => Ok(scope),
            },
        },
        NodeView::ServiceBlock(f) => match first_undefined(f.start, scope) {
            Some(name) => Err(undefined_failure(name)),
            None => match first_undefined(f.end, scope) {
                Some(name) => Err(undefined_failure(name)),
                None => match resolve_from(f.children, 0, scope) {
                    Ok(_) => Ok(scope),
                    Err(e) => Err(e),
                },
            },
        },
    }
}

/// Resolves the statements `nodes[i..]` one after the other, each in the
/// scope that the one before it left.
pub open spec fn resolve_from(nodes: Seq<NodeView>, i: int, scope: ScopeView) -> Result<
    ScopeView,
    SimpleErrorView,
>
    decreases nodes, nodes.len() - i,
{
    if i < 0 || i >= nodes.len() {
        Ok(scope)
    } else {
        match resolve(nodes[i], scope) {
            Err(e) => Err(e),
            Ok(next) => resolve_from(nodes, i + 1, next),
        }
    }
}

/// Resolves a whole program, from the scope in which nothing is bound.
pub open spec fn resolve_program(n: NodeView) -> Result<(), SimpleErrorView> {
    match resolve(n, Map::empty()) {
        Ok(_) => Ok(()),
        Err(e) => Err(e),
    }
}

/// The texts of a list of strings, in order.
pub open spec fn strings_view(v: Seq<String>) -> Seq<Seq<char>> {
    Seq::new(v.len(), |i: int| v[i]@)
}

/// Whether `name` is among the first `upto` of `names`.
fn contains_name(names: &Vec<String>, upto: usize, name: &String) -> (r: bool)
    requires
        upto <= names@.len(),
    ensures
        r == strings_view(names@).take(upto as int).contains(name@),
{
    let ghost taken = strings_view(names@).take(upto as int);
    let mut j: usize = 0;
    while j < upto
        invariant
            j <= upto <= names@.len(),
            taken == strings_view(names@).take(upto as int),
            forall|k: int| 0 <= k < j ==> taken[k] != name@,
        decreases upto - j,
    {
        if names[j] == *name {
            assert(taken[j as int] == name@);
            return true;
        }
        j = j + 1;
    }
    false
}

/// The names of the parameters `args`.
fn names_of_params(args: &Vec<ArgStruct>) -> (r: Vec<String>)
    ensures
        strings_view(r@) == param_names(args_view(args@)),
{
    let mut r: Vec<String> = Vec::new();
    let mut i: usize = 0;
    while i < args.len()
        invariant
            i <= args@.len(),
            r@.len() == i,
            forall|j: int| 0 <= j < i ==> r@[j]@ == args@[j].name@,
        decreases args@.len() - i,
    {
        r.push(args[i].name.clone());
        i = i + 1;
    }
    assert(strings_view(r@) =~= param_names(args_view(args@)));
    r
}

/// The names of the arguments `args`.
fn names_of_args(args: &Vec<CallArgStruct>) -> (r: Vec<String>)
    ensures
        strings_view(r@) == arg_names(call_args_view(args@)),
{
    let mut r: Vec<String> = Vec::new();
    let mut i: usize = 0;
    while i < args.len()
        invariant
            i <= args@.len(),
            r@.len() == i,
            forall|j: int| 0 <= j < i ==> r@[j]@ == args@[j].name@,
        decreases args@.len() - i,
    {
        r.push(args[i].name.clone());
        i = i + 1;
    }
    assert(strings_view(r@) =~= arg_names(call_args_view(args@)));
    r
}

/// The first of `names` that repeats an earlier one.
pub fn find_duplicate(names: &Vec<String>) -> (r: Option<String>)
    ensures
        match first_duplicate(strings_view(names@)) {
            Some(name) => r is Some && r->Some_0@ == name,
            None => r is None,
        },
{
    let ghost all = strings_view(names@);
    let mut i: usize = 0;
    while i < names.len()
        invariant
            i <= names@.len(),
            all == strings_view(names@),
            duplicate_from(all, i as int) == duplicate_from(all, 0),
        decreases names@.len() - i,
    {
        if contains_name(names, i, &names[i]) {
            return Some(names[i].clone());
        }
        i = i + 1;
    }
    None
}

/// `a`, `between` and `b` in a row.
fn joined(a: &String, between: &str, b: &String) -> (r: String)
    ensures
        r@ == a@ + between@ + b@,
{
    let mut r: String = a.clone();
    r.append(between);
    r.append(b.as_str());
    r
}

/// The resolver's error whose message quotes `name`.
fn definition_error(prefix: &str, name: &String, suffix: &str) -> (e: SimpleError)
    ensures
        e@ == definition_failure(prefix@, name@, suffix@),
{
    SimpleError::about(ErrorKind::DefinitionCheck, prefix, name, suffix)
}

/// Checks that no name is twice among `args`, the parameters or arguments of
/// the function `calling_name`.
pub fn check_duplicate_def(args: &Vec<String>, calling_name: &String) -> (r: Result<
    (),
    SimpleError,
>)
    ensures
        match first_duplicate(strings_view(args@)) {
            Some(name) => r is Err && r->Err_0@ == duplicate_failure(name, calling_name@),
            None => r is Ok,
        },
{
    match find_duplicate(args) {
        Some(duplicate) => {
            let both: String = joined(&duplicate, "` in function: ", calling_name);
            Err(definition_error("Found duplicate argument `", &both, ""))
        },
        None => Ok(()),
    }
}

/// Checks that the names in `e` are bound.
fn check_names(e: &ExprToken, defined: &Scope) -> (r: Result<(), SimpleError>)
    ensures
        match first_undefined(e@, defined@) {
            Some(name) => r is Err && r->Err_0@ == undefined_failure(name),
            None => r is Ok,
        },
{
    match e.check_def(defined) {
        Ok(_) => Ok(()),
        Err(e) => Err(definition_error("Variable `", &e.var_name, "` not defined")),
    }
}

/// Checks a call against the function that it names.
pub fn check_fn_call(defined: &Scope, call_struct: &CallStruct) -> (r: Result<(), SimpleError>)
    ensures
        match check_call(call_struct@, defined@) {
            Ok(_) => r is Ok,
            Err(e) => r is Err && r->Err_0@ == e,
        },
{
    let f: &FunctionDefinitionStruct = match defined.get(&call_struct.calling_name) {
        None => {
            return Err(
                definition_error("Cannot call undefined function: ", &call_struct.calling_name, ""),
            );
        },
        Some(Defined::Variable(v)) => {
            return Err(definition_error("Cannot call variable as function: ", &v.name, ""));
        },
        Some(Defined::Function(f)) => f,
    };
    let wanted: Vec<String> = names_of_params(&f.args);
    let given: Vec<String> = names_of_args(&call_struct.args);
    let ghost wanted_names = param_names(f@.args);
    let ghost given_names = arg_names(call_struct@.args);
    proof {
        assert(strings_view(given@).take(given@.len() as int) =~= given_names);
        assert(strings_view(wanted@).take(wanted@.len() as int) =~= wanted_names);
    }
    let mut i: usize = 0;
    while i < wanted.len()
        invariant
            i <= wanted@.len(),
            defined@.contains_key(call_struct.calling_name@),
            defined@[call_struct.calling_name@] == DefinedView::Function(f@),
            wanted_names == param_names(f@.args),
            given_names == arg_names(call_struct@.args),
            strings_view(wanted@) == wanted_names,
            strings_view(given@) == given_names,
            strings_view(given@).take(given@.len() as int) == given_names,
            missing_from(wanted_names, given_names, i as int) == missing_from(
                wanted_names,
                given_names,
                0,
            ),
        decreases wanted@.len() - i,
    {
        if !contains_name(&given, given.len(), &wanted[i]) {
            let both: String = joined(&wanted[i], "` in function `", &f.name);
            return Err(definition_error("Argument `", &both, "` call is required"));
        }
        i = i + 1;
    }
    match check_duplicate_def(&given, &f.name) {
        Err(e) => {
            return Err(e);
        },
        Ok(_) => {},
    }
    let mut k: usize = 0;
    while k < call_struct.args.len()
        invariant
            k <= call_struct.args@.len(),
            defined@.contains_key(call_struct.calling_name@),
            defined@[call_struct.calling_name@] == DefinedView::Function(f@),
            given_names == arg_names(call_struct@.args),
            missing_from(wanted_names, given_names, 0) is None,
            first_duplicate(given_names) is None,
            strings_view(wanted@) == wanted_names,
            wanted_names == param_names(f@.args),
            strings_view(wanted@).take(wanted@.len() as int) == wanted_names,
            check_args_from(call_struct@.args, k as int, f@, defined@) == check_args_from(
                call_struct@.args,
                0,
                f@,
                defined@,
            ),
        decreases call_struct.args@.len() - k,
    {
        let arg: &CallArgStruct = &call_struct.args[k];
        assert(call_struct@.args[k as int] == arg@);
        match &arg.value {
            Some(e) => {
                match check_names(e, defined) {
                    Err(e) => {
                        return Err(e);
                    },
                    Ok(_) => {},
                }
            },
            None => {},
        }
        if !contains_name(&wanted, wanted.len(), &arg.name) {
            let both: String = joined(&arg.name, "` for function `", &f.name);
            return Err(definition_error("Unexpected argument `", &both, "`"));
        }
        k = k + 1;
    }
    Ok(())
}

/// Binds the parameters `args` in `defined`.
pub fn bind_params(defined: &mut Scope, args: &Vec<ArgStruct>)
    ensures
        final(defined)@ == with_params(old(defined)@, args_view(args@), args@.len() as nat),
{
    let mut i: usize = 0;
    while i < args.len()
        invariant
            i <= args@.len(),
            defined@ == with_params(old(defined)@, args_view(args@), i as nat),
        decreases args@.len() - i,
    {
        let arg: &ArgStruct = &args[i];
        assert(args_view(args@)[i as int] == arg@);
        let value: AssignEnum = AssignEnum::Expr(
            ExprToken::Variable(VariableType::new(arg.name.clone(), arg.data_type, false)),
        );
        let var: Defined = Defined::Variable(
            VariableDefinitionStruct {
                data_type: arg.data_type,
                name: arg.name.clone(),
                value,
                is_const: true,
            },
        );
        defined.insert(arg.name.clone(), var);
        i = i + 1;
    }
}

/// Checks the value that a variable is given.
fn check_assigned(value: &AssignEnum, defined: &Scope, misplaced: SimpleError) -> (r: Result<
    (),
    SimpleError,
>)
    ensures
        match check_value(value@, defined@, misplaced@) {
            Ok(_) => r is Ok,
            Err(e) => r is Err && r->Err_0@ == e,
        },
{
    match value {
        AssignEnum::Expr(e) => check_names(e, defined),
        AssignEnum::Call(n) => match &**n {
            NodeType::CALL(c) => check_fn_call(defined, c),
            _ => Err(misplaced),
        },
        AssignEnum::Empty => Err(misplaced),
    }
}

/// Checks the target of an assignment.
fn check_assign_target(name: &String, defined: &Scope) -> (r: Result<(), SimpleError>)
    ensures
        match check_target(name@, defined@) {
            Ok(_) => r is Ok,
            Err(e) => r is Err && r->Err_0@ == e,
        },
{
    match defined.get(name) {
        None => Err(definition_error("Variable `", name, "` for assign not defined!")),
        Some(Defined::Function(_)) => Err(
            definition_error("Cannot assign value to `", name, "` function"),
        ),
        Some(Defined::Variable(v)) => {
            if v.is_const {
                Err(definition_error("Cannot assign value to constant `", name, "` variable"))
            } else {
                Ok(())
            }
        },
    }
}

/// Resolves the node `tree` in the scope `defined`, and leaves in `defined`
/// the scope for the statement that follows: what [`resolve`] gives.
pub fn check(tree: &NodeType, defined: &mut Scope) -> (r: Result<(), SimpleError>)
    ensures
        match resolve(tree@, old(defined)@) {
            Ok(scope) => r is Ok && final(defined)@ == scope,
            Err(e) => r is Err && r->Err_0@ == e,
        },
    decreases tree,
{
    match tree {
        NodeType::BLOCK(b) => {
            let saved: Scope = defined.clone();
            match check_all(&b.children, defined) {
                Err(e) => {
                    return Err(e);
                },
                Ok(_) => {},
            }
            *defined = saved;
            Ok(())
        },
        NodeType::DEFINITION(DefinitionType::Function(fds)) => {
            let names: Vec<String> = names_of_params(&fds.args);
            match check_duplicate_def(&names, &fds.name) {
                Err(e) => {
                    return Err(e);
                },
                Ok(_) => {},
            }
            let saved: Scope = defined.clone();
            bind_params(defined, &fds.args);
            match check_all(&fds.children, defined) {
                Err(e) => {
                    return Err(e);
                },
                Ok(_) => {},
            }
            *defined = saved;
            match defined.get(&fds.name) {
                Some(_) => {
                    return Err(definition_error("Cannot redefine function `", &fds.name, "`"));
                },
                None => {},
            }
            defined.insert(fds.name.clone(), Defined::Function(fds.clone()));
            Ok(())
        },
        NodeType::DEFINITION(DefinitionType::Variable(vds)) => {
            let misplaced: SimpleError = definition_error(
                "Unexpected token inside `",
                &vds.name,
                "` definition",
            );
            match check_assigned(&vds.value, defined, misplaced) {
                Err(e) => {
                    return Err(e);
                },
                Ok(_) => {},
            }
            match defined.get(&vds.name) {
                Some(_) => {
                    return Err(definition_error("Cannot redefine variable `", &vds.name, "`"));
                },
                None => {},
            }
            defined.insert(vds.name.clone(), Defined::Variable(vds.clone()));
            Ok(())
        },
        NodeType::CALL(c) => check_fn_call(defined, c),
        NodeType::ASSIGN(a) => {
            match check_assign_target(&a.name, defined) {
                Err(e) => {
                    return Err(e);
                },
                Ok(_) => {},
            }
            let misplaced: SimpleError = definition_error(
                "Unexpected token inside `",
                &a.name,
                "` assign",
            );
            check_assigned(&a.body, defined, misplaced)
        },
        NodeType::ServiceBlock(ServiceBlockType::For(f)) => {
            match check_names(&f.start, defined) {
                Err(e) => {
                    return Err(e);
                },
                Ok(_) => {},
            }
            match check_names(&f.end, defined) {
                Err(e) => {
                    return Err(e);
                },
                Ok(_) => {},
            }
            let saved: Scope = defined.clone();
            match check_all(&f.children, defined) {
                Err(e) => {
                    return Err(e);
                },
                Ok(_) => {},
            }
            *defined = saved;
            Ok(())
        },
    }
}

/// Resolves the statements `nodes` one after the other.
fn check_all(nodes: &Vec<Box<NodeType>>, defined: &mut Scope) -> (r: Result<(), SimpleError>)
    ensures
        match resolve_from(nodes_view(nodes@), 0, old(defined)@) {
            Ok(scope) => r is Ok && final(defined)@ == scope,
            Err(e) => r is Err && r->Err_0@ == e,
        },
    decreases nodes,
{
    let ghost all = nodes_view(nodes@);
    let ghost first = defined@;
    let mut i: usize = 0;
    while i < nodes.len()
        invariant
            i <= nodes@.len(),
            all == nodes_view(nodes@),
            first == old(defined)@,
            resolve_from(all, i as int, defined@) == resolve_from(all, 0, first),
        decreases nodes@.len() - i,
    {
        assert(all[i as int] == nodes@[i as int]@);
        match check(&nodes[i], defined) {
            Err(e) => {
                return Err(e);
            },
            Ok(_) => {},
        }
        i = i + 1;
    }
    Ok(())
}

/// Resolves a whole program: `Ok` where every name is declared before it is
/// used and declared once, the first error otherwise. The tree is not
/// changed.
pub fn start_def_check(tree: &mut NodeType) -> (r: Result<(), SimpleError>)
    ensures
        *final(tree) == *old(tree),
        match resolve_program(old(tree)@) {
            Ok(_) => r is Ok,
            Err(e) => r is Err && r->Err_0@ == e,
        },
{
    let mut defined: Scope = Scope::new();
    check(tree, &mut defined)
}

/// The name that a definition binds.
pub open spec fn definition_name(d: DefinitionView) -> Seq<char> {
    match d {
        DefinitionView::Function(f) => f.name,
        DefinitionView::Variable(v) => v.name,
    }
}

/// An error of the argument check is of the kind `DefinitionCheck`.
proof fn lemma_check_args_kind(args: Seq<CallArgView>, i: int, f: FunctionView, scope: ScopeView)
    ensures
        check_args_from(args, i, f, scope) is Err ==> check_args_from(
            args,
            i,
            f,
            scope,
        )->Err_0.kind == ErrorKind::DefinitionCheck,
    decreases args.len() - i,
{
    if 0 <= i < args.len() {
        lemma_check_args_kind(args, i + 1, f, scope);
    }
}

/// An error of the check of a call is of the kind `DefinitionCheck`.
proof fn lemma_check_call_kind(c: CallView, scope: ScopeView)
    ensures
        check_call(c, scope) is Err ==> check_call(c, scope)->Err_0.kind
            == ErrorKind::DefinitionCheck,
{
    if scope.contains_key(c.calling_name) {
        match scope[c.calling_name] {
            DefinedView::Variable(_) => {},
            DefinedView::Function(f) => {
                lemma_check_args_kind(c.args, 0, f, scope);
            },
        }
    }
}

/// An error of the check of a value is of the kind `DefinitionCheck`, where
/// the error for a misplaced node is.
proof fn lemma_check_value_kind(value: ValueView, scope: ScopeView, misplaced: SimpleErrorView)
    requires
        misplaced.kind == ErrorKind::DefinitionCheck,
    ensures
        check_value(value, scope, misplaced) is Err ==> check_value(
            value,
            scope,
            misplaced,
        )->Err_0.kind == ErrorKind::DefinitionCheck,
{
    match value {
        ValueView::Call(n) => match *n {
            NodeView::Call(c) => {
                lemma_check_call_kind(c, scope);
            },
            _ => {},
        },
        _ => {},
    }
}

/// Every error of the resolver is of the kind `DefinitionCheck`.
pub proof fn lemma_resolve_error_kind(n: NodeView, scope: ScopeView)
    ensures
        resolve(n, scope) is Err ==> resolve(n, scope)->Err_0.kind == ErrorKind::DefinitionCheck,
    decreases n, 0nat,
{
    match n {
        NodeView::Block(b) => {
            lemma_resolve_from_error_kind(b.children, 0, scope);
        },
        NodeView::Definition(DefinitionView::Function(f)) => {
            lemma_resolve_from_error_kind(f.children, 0, with_params(scope, f.args, f.args.len()));
        },
        NodeView::Definition(DefinitionView::Variable(v)) => {
            lemma_check_value_kind(
                v.value,
                scope,
                definition_failure("Unexpected token inside `"@, v.name, "` definition"@),
            );
        },
        NodeView::Call(c) => {
            lemma_check_call_kind(c, scope);
        },
        NodeView::Assign(a) => {
            lemma_check_value_kind(
                a.body,
                scope,
                definition_failure("Unexpected token inside `"@, a.name, "` assign"@),
            );
        },
        NodeView::ServiceBlock(f) => {
            lemma_resolve_from_error_kind(f.children, 0, scope);
        },
    }
}

/// Every error of the resolver on a list of statements is of the kind
/// `DefinitionCheck`.
pub proof fn lemma_resolve_from_error_kind(nodes: Seq<NodeView>, i: int, scope: ScopeView)
    ensures
        resolve_from(nodes, i, scope) is Err ==> resolve_from(nodes, i, scope)->Err_0.kind
            == ErrorKind::DefinitionCheck,
    decreases nodes, nodes.len() - i,
{
    if 0 <= i < nodes.len() {
        lemma_resolve_error_kind(nodes[i], scope);
        match resolve(nodes[i], scope) {
            Ok(next) => {
                lemma_resolve_from_error_kind(nodes, i + 1, next);
            },
            Err(_) => {},
        }
    }
}

/// What a function's body defines is not visible behind the function: a
/// function that resolves leaves the scope as it found it, but for its own
/// name. So a name that was not bound before the function, and is not the
/// function's, is still not bound behind it, and a variable defined there
/// whose value is a reference to that name fails as not defined.
pub proof fn lemma_function_body_is_closed(
    f: FunctionView,
    scope: ScopeView,
    name: Seq<char>,
    sibling: VariableView,
    reference: VariableTypeView,
)
    requires
        resolve(NodeView::Definition(DefinitionView::Function(f)), scope) is Ok,
        !scope.contains_key(name),
        name != f.name,
        reference.name == name,
        sibling.value == ValueView::Expr(ExprView::Variable(reference)),
    ensures
        resolve(NodeView::Definition(DefinitionView::Function(f)), scope)->Ok_0 == scope.insert(
            f.name,
            DefinedView::Function(f),
        ),
        !resolve(NodeView::Definition(DefinitionView::Function(f)), scope)->Ok_0.contains_key(name),
        resolve(
            NodeView::Definition(DefinitionView::Variable(sibling)),
            resolve(NodeView::Definition(DefinitionView::Function(f)), scope)->Ok_0,
        ) == Err::<ScopeView, SimpleErrorView>(undefined_failure(name)),
{
}

/// What a block or a loop defines is not visible behind it: where it
/// resolves, it leaves the scope as it found it.
pub proof fn lemma_block_is_closed(n: NodeView, scope: ScopeView)
    requires
        n is Block || n is ServiceBlock,
        resolve(n, scope) is Ok,
    ensures
        resolve(n, scope)->Ok_0 == scope,
{
}

/// A name is defined once in a scope: behind a definition that resolves, a
/// second definition of the same name, of a variable or of a function,
/// fails with an error of the kind `DefinitionCheck`. Where nothing else is
/// wrong with the second definition, the error says that the name cannot be
/// redefined.
pub proof fn lemma_redefinition_fails(first: DefinitionView, second: DefinitionView, scope: ScopeView)
    requires
        resolve(NodeView::Definition(first), scope) is Ok,
        definition_name(first) == definition_name(second),
    ensures
        resolve(NodeView::Definition(first), scope)->Ok_0.contains_key(definition_name(first)),
        resolve(
            NodeView::Definition(second),
            resolve(NodeView::Definition(first), scope)->Ok_0,
        ) is Err,
        resolve(
            NodeView::Definition(second),
            resolve(NodeView::Definition(first), scope)->Ok_0,
        )->Err_0.kind == ErrorKind::DefinitionCheck,
        match second {
            DefinitionView::Variable(v) => check_value(
                v.value,
                resolve(NodeView::Definition(first), scope)->Ok_0,
                definition_failure("Unexpected token inside `"@, v.name, "` definition"@),
            ) is Ok ==> resolve(
                NodeView::Definition(second),
                resolve(NodeView::Definition(first), scope)->Ok_0,
            ) == Err::<ScopeView, SimpleErrorView>(
                definition_failure("Cannot redefine variable `"@, v.name, "`"@),
            ),
            DefinitionView::Function(f) => first_duplicate(param_names(f.args)) is None
                && resolve_from(
                f.children,
                0,
                with_params(
                    resolve(NodeView::Definition(first), scope)->Ok_0,
                    f.args,
                    f.args.len(),
                ),
            ) is Ok ==> resolve(
                NodeView::Definition(second),
                resolve(NodeView::Definition(first), scope)->Ok_0,
            ) == Err::<ScopeView, SimpleErrorView>(
                definition_failure("Cannot redefine function `"@, f.name, "`"@),
            ),
        },
{
    let after = resolve(NodeView::Definition(first), scope)->Ok_0;
    lemma_resolve_error_kind(NodeView::Definition(second), after);
}

} // verus!

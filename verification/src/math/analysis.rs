//! What is asked of an expression once it is parsed: whether its names are
//! bound, what its type is, and what it folds to.
use crate::code_tree::types::{AssignEnum, DataType, ValueView};
use crate::definitions::{Defined, DefinedView, Scope, ScopeView};
use crate::errors::{error_about, ErrorKind, SimpleError, SimpleErrorView};
use crate::math::errors::DefinitionNotFound;
use crate::math::types::{clone_expr, ExprToken, ExprView, VariableType, VariableTypeView};
use vstd::prelude::*;
use vstd::string::*;

verus! {

/// The five binary operations.
#[derive(Debug, Clone, Copy, PartialEq, Eq, Structural)]
pub enum Operator {
    Add,
    Sub,
    Mul,
    Div,
    Pow,
}

/// The operation `op` on the operands `a` and `b`.
pub open spec fn binary(op: Operator, a: ExprView, b: ExprView) -> ExprView {
    match op {
        Operator::Add => ExprView::Add(Box::new(a), Box::new(b)),
        Operator::Sub => ExprView::Sub(Box::new(a), Box::new(b)),
        Operator::Mul => ExprView::Mul(Box::new(a), Box::new(b)),
        Operator::Div => ExprView::Div(Box::new(a), Box::new(b)),
        Operator::Pow => ExprView::Pow(Box::new(a), Box::new(b)),
    }
}

/// The first name in `e`, read from left to right, that `scope` does not
/// bind.
pub open spec fn first_undefined(e: ExprView, scope: ScopeView) -> Option<Seq<char>>
    decreases e,
{
    match e {
        ExprView::Number(_) => None,
        ExprView::Literal(_) => None,
        ExprView::Variable(v) => if scope.contains_key(v.name) {
            None
        } else {
            Some(v.name)
        },
        ExprView::Add(a, b)
        | ExprView::Sub(a, b)
        | ExprView::Mul(a, b)
        | ExprView::Div(a, b)
        | ExprView::Pow(a, b) => match first_undefined(*a, scope) {
            Some(name) => Some(name),
            None => first_undefined(*b, scope),
        },
    }
}

/// The type of what a name is bound to: a variable's type, a function's
/// return type.
pub open spec fn binding_type(d: DefinedView) -> DataType {
    match d {
        DefinedView::Variable(v) => v.data_type,
        DefinedView::Function(f) => f.data_type,
    }
}

/// The name of a type, as messages show it.
pub open spec fn type_label(t: DataType) -> Seq<char> {
    match t {
        DataType::Int => "Int"@,
        DataType::Bool => "Bool"@,
        DataType::Str => "Str"@,
        DataType::Void => "Void"@,
        DataType::Any => "Any"@,
    }
}

/// The error for a name that type inference does not find bound.
pub open spec fn unbound_failure(name: Seq<char>) -> SimpleErrorView {
    error_about(ErrorKind::MathProcessing, "Variable `"@, name, "` not defined"@)
}

/// The error for an operation whose operands have the types `a` and `b`.
pub open spec fn operand_failure(a: DataType, b: DataType) -> SimpleErrorView {
    error_about(
        ErrorKind::TypeCheck,
        "Type mismatch for math operation: "@,
        type_label(a) + " and "@ + type_label(b),
        ""@,
    )
}

/// A reference to `name` once it is resolved in `scope`.
pub open spec fn resolved(name: Seq<char>, scope: ScopeView) -> VariableTypeView {
    VariableTypeView {
        name,
        data_type: binding_type(scope[name]),
        is_func: scope[name] is Function,
    }
}

/// The type of `e` in `scope`, with `e` itself after each of its references
/// has been given the type and kind of its binding.
///
/// A number is an `Int`, a string a `Str`, a name what it is bound to. The
/// two operands of an operation must have one type, which is then the type
/// of the operation.
pub open spec fn typed(e: ExprView, scope: ScopeView) -> Result<(ExprView, DataType), SimpleErrorView>
    decreases e,
{
    match e {
        ExprView::Number(_) => Ok((e, DataType::Int)),
        ExprView::Literal(_) => Ok((e, DataType::Str)),
        ExprView::Variable(v) => if scope.contains_key(v.name) {
            Ok((ExprView::Variable(resolved(v.name, scope)), binding_type(scope[v.name])))
        } else {
            Err(unbound_failure(v.name))
        },
        ExprView::Add(a, b) => typed_pair(Operator::Add, typed(*a, scope), typed(*b, scope)),
        ExprView::Sub(a, b) => typed_pair(Operator::Sub, typed(*a, scope), typed(*b, scope)),
        ExprView::Mul(a, b) => typed_pair(Operator::Mul, typed(*a, scope), typed(*b, scope)),
        ExprView::Div(a, b) => typed_pair(Operator::Div, typed(*a, scope), typed(*b, scope)),
        ExprView::Pow(a, b) => typed_pair(Operator::Pow, typed(*a, scope), typed(*b, scope)),
    }
}

/// The type of the operation `op` on operands whose types were found as `a`
/// and `b`; the left operand's error comes first.
pub open spec fn typed_pair(
    op: Operator,
    a: Result<(ExprView, DataType), SimpleErrorView>,
    b: Result<(ExprView, DataType), SimpleErrorView>,
) -> Result<(ExprView, DataType), SimpleErrorView> {
    match a {
        Err(e) => Err(e),
        Ok((left, left_type)) => match b {
            Err(e) => Err(e),
            Ok((right, right_type)) => if left_type == right_type {
                Ok((binary(op, left, right), left_type))
            } else {
                Err(operand_failure(left_type, right_type))
            },
        },
    }
}

/// Whether `n` is a 32-bit signed integer.
pub open spec fn fits(n: int) -> bool {
    i32::MIN <= n <= i32::MAX
}

/// `b` to the power `e`.
pub open spec fn power(b: int, e: nat) -> int
    decreases e,
{
    if e == 0 {
        1
    } else {
        b * power(b, (e - 1) as nat)
    }
}

/// The quotient of `l` by `r`, rounded towards zero.
pub open spec fn quotient(l: int, r: int) -> int
    recommends
        r != 0,
{
    let a = if l < 0 {
        -l
    } else {
        l
    };
    let b = if r < 0 {
        -r
    } else {
        r
    };
    if (l < 0) == (r < 0) {
        a / b
    } else {
        -(a / b)
    }
}

/// The value of the operation `op` on the numbers `l` and `r`, where it has
/// one: there is no quotient by zero and no power with a negative exponent.
pub open spec fn computed(op: Operator, l: int, r: int) -> Option<int> {
    match op {
        Operator::Add => Some(l + r),
        Operator::Sub => Some(l - r),
        Operator::Mul => Some(l * r),
        Operator::Div => if r != 0 {
            Some(quotient(l, r))
        } else {
            None
        },
        Operator::Pow => if r >= 0 {
            Some(power(l, r as nat))
        } else {
            None
        },
    }
}

/// The operation `op` on two folded operands: its value, where both are
/// numbers and the value exists and is a 32-bit signed integer; the
/// operation itself otherwise.
pub open spec fn fold_pair(op: Operator, a: ExprView, b: ExprView) -> ExprView {
    match (a, b) {
        (ExprView::Number(l), ExprView::Number(r)) => match computed(op, l as int, r as int) {
            Some(v) => if fits(v) {
                ExprView::Number(v as i32)
            } else {
                binary(op, a, b)
            },
            None => binary(op, a, b),
        },
        _ => binary(op, a, b),
    }
}

/// What a reference `v` is replaced with: the value of the constant that it
/// names, where it names a constant whose value is an expression.
pub open spec fn propagated(v: VariableTypeView, scope: ScopeView) -> ExprView {
    if scope.contains_key(v.name) {
        match scope[v.name] {
            DefinedView::Variable(var) => match var.value {
                ValueView::Expr(x) => if var.is_const {
                    x
                } else {
                    ExprView::Variable(v)
                },
                _ => ExprView::Variable(v),
            },
            _ => ExprView::Variable(v),
        }
    } else {
        ExprView::Variable(v)
    }
}

/// `e` after constant propagation and constant folding, from the leaves up.
pub open spec fn folded(e: ExprView, scope: ScopeView) -> ExprView
    decreases e,
{
    match e {
        ExprView::Number(_) => e,
        ExprView::Literal(_) => e,
        ExprView::Variable(v) => propagated(v, scope),
        ExprView::Add(a, b) => fold_pair(Operator::Add, folded(*a, scope), folded(*b, scope)),
        ExprView::Sub(a, b) => fold_pair(Operator::Sub, folded(*a, scope), folded(*b, scope)),
        ExprView::Mul(a, b) => fold_pair(Operator::Mul, folded(*a, scope), folded(*b, scope)),
        ExprView::Div(a, b) => fold_pair(Operator::Div, folded(*a, scope), folded(*b, scope)),
        ExprView::Pow(a, b) => fold_pair(Operator::Pow, folded(*a, scope), folded(*b, scope)),
    }
}

/// Whether `e` holds no reference to a name.
pub open spec fn is_constant(e: ExprView) -> bool
    decreases e,
{
    match e {
        ExprView::Number(_) => true,
        ExprView::Literal(_) => true,
        ExprView::Variable(_) => false,
        ExprView::Add(a, b)
        | ExprView::Sub(a, b)
        | ExprView::Mul(a, b)
        | ExprView::Div(a, b)
        | ExprView::Pow(a, b) => is_constant(*a) && is_constant(*b),
    }
}

/// Folding an operation on two folded operands gives something that folds
/// to itself.
proof fn lemma_fold_pair_stable(op: Operator, a: ExprView, b: ExprView, scope: ScopeView)
    requires
        folded(a, scope) == a,
        folded(b, scope) == b,
    ensures
        folded(fold_pair(op, a, b), scope) == fold_pair(op, a, b),
{
}

/// Folding an expression without names leaves no names in it, and folding
/// the result once more changes nothing.
pub proof fn lemma_fold_idempotent(e: ExprView, scope: ScopeView)
    requires
        is_constant(e),
    ensures
        is_constant(folded(e, scope)),
        folded(folded(e, scope), scope) == folded(e, scope),
    decreases e,
{
    match e {
        ExprView::Number(_) => {},
        ExprView::Literal(_) => {},
        ExprView::Variable(_) => {},
        ExprView::Add(a, b) => {
            lemma_fold_idempotent(*a, scope);
            lemma_fold_idempotent(*b, scope);
            lemma_fold_pair_stable(Operator::Add, folded(*a, scope), folded(*b, scope), scope);
        },
        ExprView::Sub(a, b) => {
            lemma_fold_idempotent(*a, scope);
            lemma_fold_idempotent(*b, scope);
            lemma_fold_pair_stable(Operator::Sub, folded(*a, scope), folded(*b, scope), scope);
        },
        ExprView::Mul(a, b) => {
            lemma_fold_idempotent(*a, scope);
            lemma_fold_idempotent(*b, scope);
            lemma_fold_pair_stable(Operator::Mul, folded(*a, scope), folded(*b, scope), scope);
        },
        ExprView::Div(a, b) => {
            lemma_fold_idempotent(*a, scope);
            lemma_fold_idempotent(*b, scope);
            lemma_fold_pair_stable(Operator::Div, folded(*a, scope), folded(*b, scope), scope);
        },
        ExprView::Pow(a, b) => {
            lemma_fold_idempotent(*a, scope);
            lemma_fold_idempotent(*b, scope);
            lemma_fold_pair_stable(Operator::Pow, folded(*a, scope), folded(*b, scope), scope);
        },
    }
}

/// The absolute value of `n`.
pub open spec fn magnitude(n: int) -> int {
    if n < 0 {
        -n
    } else {
        n
    }
}

/// From a base of magnitude two or more, a later power is at least twice an
/// earlier one in magnitude, and none is zero.
proof fn lemma_power_grows(b: int, j: nat, k: nat)
    requires
        b <= -2 || b >= 2,
        j < k,
    ensures
        1 <= magnitude(power(b, j)),
        2 * magnitude(power(b, j)) <= magnitude(power(b, k)),
    decreases k,
{
    let p = power(b, (k - 1) as nat);
    let q = power(b, k);
    assert(q == b * p);
    if j + 1 == k {
        if j > 0 {
            lemma_power_grows(b, (j - 1) as nat, j);
        }
        assert(1 <= magnitude(p));
    } else {
        lemma_power_grows(b, j, (k - 1) as nat);
    }
    assert(2 * magnitude(p) <= magnitude(q)) by (nonlinear_arith)
        requires
            q == b * p,
            b <= -2 || b >= 2,
            magnitude(p) == (if p < 0 {
                -p
            } else {
                p
            }),
            magnitude(q) == (if q < 0 {
                -q
            } else {
                q
            }),
    ;
}

/// `base` to the power `exp`, where the exponent is not negative and the
/// power is a 32-bit signed integer.
fn checked_power(base: i32, exp: i32) -> (r: Option<i32>)
    ensures
        r == (if exp >= 0 && fits(power(base as int, exp as nat)) {
            Some(power(base as int, exp as nat) as i32)
        } else {
            None
        }),
{
    if exp < 0 {
        return None;
    }
    if base == 0 {
        assert(power(0, exp as nat) == if exp == 0 { 1int } else { 0int });
        return Some(if exp == 0 { 1 } else { 0 });
    }
    if base == 1 {
        proof {
            lemma_power_of_one(exp as nat);
        }
        return Some(1);
    }
    if base == -1 {
        proof {
            lemma_power_of_minus_one(exp as nat);
        }
        return Some(if exp % 2 == 0 { 1 } else { -1 });
    }
    let mut acc: i32 = 1;
    let mut i: i32 = 0;
    while i < exp
        invariant
            0 <= i <= exp,
            base <= -2 || base >= 2,
            acc == power(base as int, i as nat),
        decreases exp - i,
    {
        assert(-4611686018427387904 <= (acc as int) * (base as int) <= 4611686018427387904)
            by (nonlinear_arith)
            requires
                -2147483648 <= acc <= 2147483647,
                -2147483648 <= base <= 2147483647,
        ;
        let wide: i64 = (acc as i64) * (base as i64);
        assert(wide == power(base as int, (i + 1) as nat)) by (nonlinear_arith)
            requires
                wide == acc * base,
                power(base as int, (i + 1) as nat) == base * power(base as int, i as nat),
                acc == power(base as int, i as nat),
        ;
        if wide < -2147483648 || wide > 2147483647 {
            proof {
                if i + 1 < exp {
                    lemma_power_grows(base as int, (i + 1) as nat, exp as nat);
                }
            }
            return None;
        }
        acc = wide as i32;
        i = i + 1;
    }
    Some(acc)
}

/// Every power of one is one.
proof fn lemma_power_of_one(e: nat)
    ensures
        power(1, e) == 1,
    decreases e,
{
    if e > 0 {
        lemma_power_of_one((e - 1) as nat);
    }
}

/// The powers of minus one alternate between one and minus one.
proof fn lemma_power_of_minus_one(e: nat)
    ensures
        power(-1, e) == if e % 2 == 0 { 1int } else { -1int },
    decreases e,
{
    if e > 0 {
        lemma_power_of_minus_one((e - 1) as nat);
    }
}

/// The value of `op` on `l` and `r`, where it exists and is a 32-bit signed
/// integer.
fn compute(op: Operator, l: i32, r: i32) -> (v: Option<i32>)
    ensures
        v == (match computed(op, l as int, r as int) {
            Some(n) => if fits(n) {
                Some(n as i32)
            } else {
                None
            },
            None => None,
        }),
{
    match op {
        Operator::Add => narrow((l as i64) + (r as i64)),
        Operator::Sub => narrow((l as i64) - (r as i64)),
        Operator::Mul => {
            assert(-4611686018427387904 <= (l as int) * (r as int) <= 4611686018427387904)
                by (nonlinear_arith)
                requires
                    -2147483648 <= l <= 2147483647,
                    -2147483648 <= r <= 2147483647,
            ;
            narrow((l as i64) * (r as i64))
        },
        Operator::Div => {
            if r == 0 {
                None
            } else {
                let a: u64 = if l < 0 {
                    (-(l as i64)) as u64
                } else {
                    l as u64
                };
                let b: u64 = if r < 0 {
                    (-(r as i64)) as u64
                } else {
                    r as u64
                };
                let q: u64 = a / b;
                assert(q <= a) by (nonlinear_arith)
                    requires
                        q == a / b,
                        b >= 1,
                ;
                if (l < 0) == (r < 0) {
                    narrow(q as i64)
                } else {
                    narrow(-(q as i64))
                }
            }
        },
        Operator::Pow => checked_power(l, r),
    }
}

/// `n` as a 32-bit signed integer, where it is one.
fn narrow(n: i64) -> (r: Option<i32>)
    ensures
        r == (if fits(n as int) {
            Some(n as i32)
        } else {
            None
        }),
{
    if n < -2147483648 || n > 2147483647 {
        None
    } else {
        Some(n as i32)
    }
}

/// The operation `op` on the operands `a` and `b`.
fn make_binary(op: Operator, a: ExprToken, b: ExprToken) -> (r: ExprToken)
    ensures
        r@ == binary(op, a@, b@),
{
    match op {
        Operator::Add => ExprToken::Add(Box::new(a), Box::new(b)),
        Operator::Sub => ExprToken::Sub(Box::new(a), Box::new(b)),
        Operator::Mul => ExprToken::Mul(Box::new(a), Box::new(b)),
        Operator::Div => ExprToken::Div(Box::new(a), Box::new(b)),
        Operator::Pow => ExprToken::Pow(Box::new(a), Box::new(b)),
    }
}

/// Folds the operation `op` on two folded operands.
fn fold_operands(op: Operator, a: ExprToken, b: ExprToken) -> (r: ExprToken)
    ensures
        r@ == fold_pair(op, a@, b@),
{
    let value: Option<i32> = match (&a, &b) {
        (ExprToken::Number(l), ExprToken::Number(r)) => compute(op, *l, *r),
        _ => None,
    };
    match value {
        Some(v) => ExprToken::Number(v),
        None => make_binary(op, a, b),
    }
}

/// The name of a type, as messages show it.
pub fn name_of_type(t: DataType) -> (r: String)
    ensures
        r@ == type_label(t),
{
    match t {
        DataType::Int => "Int".to_owned(),
        DataType::Bool => "Bool".to_owned(),
        DataType::Str => "Str".to_owned(),
        DataType::Void => "Void".to_owned(),
        DataType::Any => "Any".to_owned(),
    }
}

/// The type of what a name is bound to.
pub fn type_of_binding(d: &Defined) -> (t: DataType)
    ensures
        t == binding_type(d@),
{
    match d {
        Defined::Variable(v) => v.data_type,
        Defined::Function(f) => f.data_type,
    }
}

/// The value of an outcome of typing.
pub open spec fn lifted(r: Result<(ExprToken, DataType), SimpleError>) -> Result<
    (ExprView, DataType),
    SimpleErrorView,
> {
    match r {
        Ok((e, t)) => Ok((e@, t)),
        Err(e) => Err(e@),
    }
}

/// Types the operation `op` from the outcomes of typing its operands.
fn type_operands(
    op: Operator,
    left: Result<(ExprToken, DataType), SimpleError>,
    right: Result<(ExprToken, DataType), SimpleError>,
) -> (r: Result<(ExprToken, DataType), SimpleError>)
    ensures
        lifted(r) == typed_pair(op, lifted(left), lifted(right)),
{
    let (a, left_type) = match left {
        Ok(p) => p,
        Err(e) => {
            return Err(e);
        },
    };
    let (b, right_type) = match right {
        Ok(p) => p,
        Err(e) => {
            return Err(e);
        },
    };
    if left_type == right_type {
        Ok((make_binary(op, a, b), left_type))
    } else {
        let mut both: String = name_of_type(left_type);
        both.append(" and ");
        both.append(name_of_type(right_type).as_str());
        Err(SimpleError::about(ErrorKind::TypeCheck, "Type mismatch for math operation: ", &both, ""))
    }
}

/// A copy of `e` in which each reference carries the type and kind of its
/// binding, with the type of the whole.
pub fn typed_copy(e: &ExprToken, scope: &Scope) -> (r: Result<(ExprToken, DataType), SimpleError>)
    ensures
        lifted(r) == typed(e@, scope@),
    decreases e,
{
    match e {
        ExprToken::Number(n) => Ok((ExprToken::Number(*n), DataType::Int)),
        ExprToken::Literal(s) => Ok((ExprToken::Literal(s.clone()), DataType::Str)),
        ExprToken::Variable(v) => match scope.get(&v.name) {
            Some(d) => {
                let t: DataType = type_of_binding(d);
                let is_func: bool = match d {
                    Defined::Function(_) => true,
                    Defined::Variable(_) => false,
                };
                Ok((ExprToken::Variable(VariableType::new(v.name.clone(), t, is_func)), t))
            },
            None => Err(
                SimpleError::about(ErrorKind::MathProcessing, "Variable `", &v.name, "` not defined"),
            ),
        },
        ExprToken::Add(a, b) => type_operands(
            Operator::Add,
            typed_copy(a, scope),
            typed_copy(b, scope),
        ),
        ExprToken::Sub(a, b) => type_operands(
            Operator::Sub,
            typed_copy(a, scope),
            typed_copy(b, scope),
        ),
        ExprToken::Mul(a, b) => type_operands(
            Operator::Mul,
            typed_copy(a, scope),
            typed_copy(b, scope),
        ),
        ExprToken::Div(a, b) => type_operands(
            Operator::Div,
            typed_copy(a, scope),
            typed_copy(b, scope),
        ),
        ExprToken::Pow(a, b) => type_operands(
            Operator::Pow,
            typed_copy(a, scope),
            typed_copy(b, scope),
        ),
    }
}

/// A folded copy of `e`.
pub fn optimize_rec(e: &ExprToken, scope: &Scope) -> (r: ExprToken)
    ensures
        r@ == folded(e@, scope@),
    decreases e,
{
    match e {
        ExprToken::Number(n) => ExprToken::Number(*n),
        ExprToken::Literal(s) => ExprToken::Literal(s.clone()),
        ExprToken::Variable(v) => {
            match scope.get(&v.name) {
                Some(Defined::Variable(var)) => {
                    if var.is_const {
                        match &var.value {
                            AssignEnum::Expr(x) => {
                                return clone_expr(x);
                            },
                            _ => {},
                        }
                    }
                },
                _ => {},
            }
            ExprToken::Variable(v.clone())
        },
        ExprToken::Add(a, b) => fold_operands(
            Operator::Add,
            optimize_rec(a, scope),
            optimize_rec(b, scope),
        ),
        ExprToken::Sub(a, b) => fold_operands(
            Operator::Sub,
            optimize_rec(a, scope),
            optimize_rec(b, scope),
        ),
        ExprToken::Mul(a, b) => fold_operands(
            Operator::Mul,
            optimize_rec(a, scope),
            optimize_rec(b, scope),
        ),
        ExprToken::Div(a, b) => fold_operands(
            Operator::Div,
            optimize_rec(a, scope),
            optimize_rec(b, scope),
        ),
        ExprToken::Pow(a, b) => fold_operands(
            Operator::Pow,
            optimize_rec(a, scope),
            optimize_rec(b, scope),
        ),
    }
}

impl ExprToken {
    /// The type of this expression in `scope`. On success each reference in
    /// it has been given the type and kind of its binding; on failure the
    /// expression is as it was.
    pub fn get_type(&mut self, scope: &Scope) -> (r: Result<DataType, SimpleError>)
        ensures
            match typed(old(self)@, scope@) {
                Ok((v, u)) => r == Ok::<DataType, SimpleError>(u) && final(self)@ == v,
                Err(f) => r is Err && r->Err_0@ == f && final(self)@ == old(self)@,
            },
    {
        match typed_copy(self, scope) {
            Ok((e, t)) => {
                *self = e;
                Ok(t)
            },
            Err(e) => Err(e),
        }
    }

    /// Checks that `scope` binds every name in this expression: `Ok`, or the
    /// error for the first name, from left to right, that is not bound.
    pub fn check_def(&self, scope: &Scope) -> (r: Result<(), DefinitionNotFound>)
        ensures
            match (r, first_undefined(self@, scope@)) {
                (Ok(_), None) => true,
                (Err(e), Some(name)) => e.var_name@ == name,
                _ => false,
            },
        decreases self,
    {
        match self {
            ExprToken::Number(_) => Ok(()),
            ExprToken::Literal(_) => Ok(()),
            ExprToken::Variable(v) => match scope.get(&v.name) {
                Some(_) => Ok(()),
                None => Err(DefinitionNotFound::new(v.name.as_str())),
            },
            ExprToken::Add(a, b)
            | ExprToken::Sub(a, b)
            | ExprToken::Mul(a, b)
            | ExprToken::Div(a, b)
            | ExprToken::Pow(a, b) => {
                match a.check_def(scope) {
                    Ok(_) => b.check_def(scope),
                    Err(e) => Err(e),
                }
            },
        }
    }

    /// Replaces this expression with what it folds to in `scope`.
    pub fn optimize(&mut self, scope: &Scope)
        ensures
            final(self)@ == folded(old(self)@, scope@),
    {
        let r: ExprToken = optimize_rec(self, scope);
        *self = r;
    }
}

} // verus!

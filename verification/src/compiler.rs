//! The C backend: from a checked program tree to the text of a C program.
//!
//! Each loop needs a label of its own. The labels are an input of the
//! rendering, [`rendered`], which takes them from a list in the order in
//! which it meets the loops; [`CLang::compile`] draws them at random.
use crate::code_tree::types::{
    args_view, call_args_view, nodes_view, ArgStruct, ArgView, AssignEnum, AssignStruct, BlockType,
    CallArgView, CallStruct, CallView, DataType, DefinitionType, DefinitionView, ForStruct,
    FunctionDefinitionStruct, NodeType, NodeView, ServiceBlockType, ValueView,
    VariableDefinitionStruct,
};
use crate::definitions::strings_view;
use crate::errors::{error_about, error_saying, ErrorKind, SimpleError, SimpleErrorView};
use crate::libs::stdlib::Std;
use crate::math::types::{ExprToken, ExprView, VariableTypeView};
use crate::text::{is_digit, is_letter, is_text, push_char};
use crate::types::typechecker::find_arg;
use rand::distr::Alphanumeric;
use rand::Rng;
use vstd::prelude::*;
use vstd::string::*;

verus! {

/// The digit that writes the number `d`, which is below ten.
pub open spec fn digit_char(d: int) -> char {
    if d == 0 {
        '0'
    } else if d == 1 {
        '1'
    } else if d == 2 {
        '2'
    } else if d == 3 {
        '3'
    } else if d == 4 {
        '4'
    } else if d == 5 {
        '5'
    } else if d == 6 {
        '6'
    } else if d == 7 {
        '7'
    } else if d == 8 {
        '8'
    } else {
        '9'
    }
}

/// The digits that write `n` in base ten.
pub open spec fn digits_text(n: nat) -> Seq<char>
    decreases n,
{
    if n < 10 {
        seq![digit_char(n as int)]
    } else {
        digits_text(n / 10).push(digit_char((n % 10) as int))
    }
}

/// The text of the number `n` in base ten, with a minus sign where it is
/// negative.
pub open spec fn number_text(n: int) -> Seq<char> {
    if n < 0 {
        seq!['-'] + digits_text((-n) as nat)
    } else {
        digits_text(n as nat)
    }
}

/// The text of an expression in C.
pub open spec fn expr_text(e: ExprView) -> Seq<char>
    decreases e,
{
    match e {
        ExprView::Number(n) => number_text(n as int),
        ExprView::Variable(v) => v.name,
        ExprView::Literal(s) => "\""@ + s + "\""@,
        ExprView::Add(l, r) => expr_text(*l) + " + "@ + expr_text(*r),
        ExprView::Sub(l, r) => expr_text(*l) + " - "@ + expr_text(*r),
        ExprView::Mul(l, r) => expr_text(*l) + " * "@ + expr_text(*r),
        ExprView::Div(l, r) => expr_text(*l) + " / "@ + expr_text(*r),
        ExprView::Pow(l, r) => "pow("@ + expr_text(*l) + ", "@ + expr_text(*r) + ")"@,
    }
}

/// The C type that stands for a type of the language.
pub open spec fn type_text(t: DataType) -> Seq<char> {
    match t {
        DataType::Int => "int"@,
        DataType::Bool => "int"@,
        DataType::Str => "char"@,
        DataType::Void => "void"@,
        DataType::Any => "int"@,
    }
}

/// The mark of a pointer, which a string is in C.
pub open spec fn pointer_text(t: DataType) -> Seq<char> {
    if t == DataType::Str {
        "*"@
    } else {
        ""@
    }
}

/// Whether a function of this name would clash with a word of C or with a
/// built-in function.
pub open spec fn is_keyword(name: Seq<char>) -> bool {
    name == "return"@ || name == "int"@ || name == "char"@ || name == "void"@ || name == "if"@
        || name == "else"@ || name == "while"@ || name == "for"@ || name == "do"@ || name
        == "break"@ || name == "continue"@ || name == "println"@ || name == "print"@
}

/// The name under which a function is emitted.
pub open spec fn function_name(name: Seq<char>) -> Seq<char> {
    if is_keyword(name) {
        name + "_func"@
    } else {
        name
    }
}

/// `parts` in a row, with `between` between one and the next.
pub open spec fn joined_text(parts: Seq<Seq<char>>, between: Seq<char>) -> Seq<char>
    decreases parts.len(),
{
    if parts.len() == 0 {
        Seq::empty()
    } else if parts.len() == 1 {
        parts[0]
    } else {
        joined_text(parts.drop_last(), between) + between + parts.last()
    }
}

/// `parts` in a row, each on a line of its own.
pub open spec fn lines_text(parts: Seq<Seq<char>>) -> Seq<char>
    decreases parts.len(),
{
    if parts.len() == 0 {
        Seq::empty()
    } else {
        lines_text(parts.drop_last()) + parts.last() + "\n"@
    }
}

/// An error of the backend: the tree holds what has no text in C.
pub open spec fn backend_failure(prefix: Seq<char>, name: Seq<char>, suffix: Seq<char>) -> SimpleErrorView {
    error_about(ErrorKind::TypeCheck, prefix, name, suffix)
}

/// The texts of the values of the arguments `args[i..]`, behind `done`.
/// Every argument must have a value.
pub open spec fn arg_texts_from(args: Seq<CallArgView>, i: int, done: Seq<Seq<char>>) -> Result<
    Seq<Seq<char>>,
    SimpleErrorView,
>
    decreases args.len() - i,
{
    if i < 0 || i >= args.len() {
        Ok(done)
    } else {
        match args[i].value {
            None => Err(backend_failure("Argument `"@, args[i].name, "` has no value"@)),
            Some(e) => arg_texts_from(args, i + 1, done.push(expr_text(e))),
        }
    }
}

/// The text of a call of a function of the program.
pub open spec fn call_text(c: CallView) -> Result<Seq<char>, SimpleErrorView> {
    match arg_texts_from(c.args, 0, Seq::empty()) {
        Err(e) => Err(e),
        Ok(texts) => Ok(function_name(c.calling_name) + "("@ + joined_text(texts, ", "@) + ");"@),
    }
}

/// The format with which `printf` shows a value of the type `t`.
pub open spec fn format_key(t: DataType) -> Option<Seq<char>> {
    match t {
        DataType::Int => Some("%d"@),
        DataType::Bool => Some("%d"@),
        DataType::Str => Some("%s"@),
        DataType::Void => None,
        DataType::Any => None,
    }
}

/// The text that prints the value of the reference `v`, followed by `end`.
pub open spec fn print_name_text(v: VariableTypeView, end: Seq<char>) -> Result<
    Seq<char>,
    SimpleErrorView,
> {
    match format_key(v.data_type) {
        None => Err(backend_failure("Value of `"@, v.name, "` cannot be printed"@)),
        Some(key) => if v.is_func {
            Ok("printf(\"<function at %d>"@ + end + "\", "@ + v.name + ");"@)
        } else {
            Ok("printf(\""@ + key + end + "\", "@ + v.name + ");"@)
        },
    }
}

/// The text of a call of `println` or `print`: what is printed is followed
/// by `end`. A call without the argument `arg` has no text.
pub open spec fn print_text(c: CallView, end: Seq<char>) -> Result<Seq<char>, SimpleErrorView> {
    match find_arg(c.args, "arg"@, 0) {
        None => Ok(Seq::empty()),
        Some(a) => match a.value {
            Some(ExprView::Literal(l)) => Ok("printf(\""@ + l + end + "\");"@),
            Some(ExprView::Variable(v)) => print_name_text(v, end),
            Some(e) => Ok("printf(\"%d"@ + end + "\", "@ + expr_text(e) + ");"@),
            None => Ok("printf(\"%d"@ + end + "\", true);"@),
        },
    }
}

/// The text of a call of `return`.
pub open spec fn return_text(c: CallView) -> Seq<char> {
    match find_arg(c.args, "arg"@, 0) {
        None => Seq::empty(),
        Some(a) => match a.value {
            Some(e) => "return "@ + expr_text(e) + ";"@,
            None => "return true;"@,
        },
    }
}

/// The text of a call of `inc` or `dec`, which puts `sign` behind the name
/// of a variable.
pub open spec fn step_text(c: CallView, sign: Seq<char>) -> Result<Seq<char>, SimpleErrorView> {
    match find_arg(c.args, "arg"@, 0) {
        None => Ok(Seq::empty()),
        Some(a) => match a.value {
            Some(ExprView::Variable(v)) => Ok(v.name + sign),
            _ => Err(error_saying(ErrorKind::TypeCheck, "Cannot increment non-variable type"@)),
        },
    }
}

/// The text of a call as a statement: of a built-in function, or of a
/// function of the program.
pub open spec fn statement_text(c: CallView) -> Result<Seq<char>, SimpleErrorView> {
    if c.calling_name == "println"@ {
        print_text(c, "\\n"@)
    } else if c.calling_name == "print"@ {
        print_text(c, ""@)
    } else if c.calling_name == "return"@ {
        Ok(return_text(c))
    } else if c.calling_name == "inc"@ {
        step_text(c, "++;"@)
    } else if c.calling_name == "dec"@ {
        step_text(c, "--;"@)
    } else {
        call_text(c)
    }
}

/// The text of the value that a variable named `name` takes.
pub open spec fn value_text(name: Seq<char>, value: ValueView) -> Result<Seq<char>, SimpleErrorView> {
    match value {
        ValueView::Expr(e) => Ok(expr_text(e)),
        ValueView::Call(n) => match *n {
            NodeView::Call(c) => call_text(c),
            _ => Err(backend_failure("Value of `"@, name, "` is not an expression or a call"@)),
        },
        ValueView::Empty => Err(
            backend_failure("Value of `"@, name, "` is not an expression or a call"@),
        ),
    }
}

/// The text of the parameter `p`.
pub open spec fn param_text(p: ArgView) -> Seq<char> {
    type_text(p.data_type) + pointer_text(p.data_type) + " "@ + p.name
}

/// The texts of the parameters `params`.
pub open spec fn param_texts(params: Seq<ArgView>) -> Seq<Seq<char>> {
    Seq::new(params.len(), |i: int| param_text(params[i]))
}

/// The label at index `next` of `labels`; the empty label behind their end.
pub open spec fn label_at(labels: Seq<Seq<char>>, next: int) -> Seq<char> {
    if 0 <= next < labels.len() {
        labels[next]
    } else {
        Seq::empty()
    }
}

/// The index of the label behind the one at index `next`.
pub open spec fn label_after(labels: Seq<Seq<char>>, next: int) -> int {
    if 0 <= next < labels.len() {
        next + 1
    } else {
        next
    }
}

/// The text of a loop with the counter `counter`, the upper bound `end`,
/// the label `label` and the statements `body`, the first of which defines
/// the counter.
pub open spec fn loop_text(
    counter: Seq<char>,
    end: Seq<char>,
    label: Seq<char>,
    body: Seq<Seq<char>>,
) -> Seq<char> {
    (if body.len() > 0 {
        body[0]
    } else {
        Seq::empty()
    }) + "\nloop_"@ + label + ":\nif("@ + counter + ">="@ + end + "){goto end_"@ + label + ";}\n"@
        + joined_text(
        if body.len() > 0 {
            body.subrange(1, body.len() as int)
        } else {
            body
        },
        "\n"@,
    ) + "\n"@ + counter + "++;\ngoto loop_"@ + label + ";\nend_"@ + label + ":"@
}

/// Whether a block leaves `n` out: a function for which no definition is to
/// be emitted.
pub open spec fn is_hidden(n: NodeView) -> bool {
    match n {
        NodeView::Definition(DefinitionView::Function(f)) => !f.must_be_compiled,
        _ => false,
    }
}

/// The text of the node `n` in C, with the index of the next label, where
/// the labels from index `next` on are free.
///
/// A `div` stands in braces, the other blocks do not; a block has each of
/// its statements on a line and leaves out the functions that are not to be
/// emitted. A statement without text is left out everywhere.
pub open spec fn rendered(n: NodeView, labels: Seq<Seq<char>>, next: int) -> Result<
    (Seq<char>, int),
    SimpleErrorView,
>
    decreases n, 0nat,
{
    match n {
        NodeView::Block(b) => match rendered_from(b.children, 0, labels, next, Seq::empty(), true) {
            Err(e) => Err(e),
            Ok((body, after)) => Ok(
                (
                    if b.tag == BlockType::Div || b.tag == BlockType::For {
                        "{\n"@ + lines_text(body) + "}"@
                    } else {
                        lines_text(body)
                    },
                    after,
                ),
            ),
        },
        NodeView::Definition(DefinitionView::Function(f)) => match rendered_from(
            f.children,
            0,
            labels,
            next,
            Seq::empty(),
            false,
        ) {
            Err(e) => Err(e),
            Ok((body, after)) => Ok(
                (
                    type_text(f.data_type) + " "@ + function_name(f.name) + "("@ + joined_text(
                        param_texts(f.args),
                        ", "@,
                    ) + ") {\n"@ + joined_text(body, "\n"@) + "\n}"@,
                    after,
                ),
            ),
        },
        NodeView::Definition(DefinitionView::Variable(v)) => match value_text(v.name, v.value) {
            Err(e) => Err(e),
            Ok(value) => Ok(
                (
                    type_text(v.data_type) + " "@ + pointer_text(v.data_type) + v.name + " = "@
                        + value + ";"@,
                    next,
                ),
            ),
        },
        NodeView::Call(c) => match statement_text(c) {
            Err(e) => Err(e),
            Ok(text) => Ok((text, next)),
        },
        NodeView::Assign(a) => match value_text(a.name, a.body) {
            Err(e) => Err(e),
            Ok(value) => Ok((a.name + " = "@ + value + ";"@, next)),
        },
        NodeView::ServiceBlock(f) => match rendered_from(
            f.children,
            0,
            labels,
            label_after(labels, next),
            Seq::empty(),
            false,
        ) {
            Err(e) => Err(e),
            Ok((body, after)) => Ok(
                (loop_text(f.iter_name, expr_text(f.end), label_at(labels, next), body), after),
            ),
        },
    }
}

/// The texts of the statements `nodes[i..]`, behind `done`, with the index
/// of the next label. Statements without text are left out, and so are,
/// where `in_block` holds, the functions that are not to be emitted.
pub open spec fn rendered_from(
    nodes: Seq<NodeView>,
    i: int,
    labels: Seq<Seq<char>>,
    next: int,
    done: Seq<Seq<char>>,
    in_block: bool,
) -> Result<(Seq<Seq<char>>, int), SimpleErrorView>
    decreases nodes, nodes.len() - i,
{
    if i < 0 || i >= nodes.len() {
        Ok((done, next))
    } else if in_block && is_hidden(nodes[i]) {
        rendered_from(nodes, i + 1, labels, next, done, in_block)
    } else {
        match rendered(nodes[i], labels, next) {
            Err(e) => Err(e),
            Ok((text, after)) => rendered_from(
                nodes,
                i + 1,
                labels,
                after,
                if text.len() > 0 {
                    done.push(text)
                } else {
                    done
                },
                in_block,
            ),
        }
    }
}

/// The text of the C program whose `main` holds `body`.
pub open spec fn program_text(body: Seq<char>) -> Seq<char> {
    "#include <stdio.h>\n#include <math.h>\n\nint main(void) {\n"@ + body + "return 0;\n}"@
}

/// The text of the C program for the tree `n`, with the labels `labels`.
pub open spec fn compiled(n: NodeView, labels: Seq<Seq<char>>) -> Result<Seq<char>, SimpleErrorView> {
    match rendered(n, labels, 0) {
        Err(e) => Err(e),
        Ok((body, _)) => Ok(program_text(body)),
    }
}

/// How many loops `n` holds.
pub open spec fn loop_count(n: NodeView) -> nat
    decreases n, 0nat,
{
    match n {
        NodeView::Block(b) => loop_count_from(b.children, 0),
        NodeView::Definition(DefinitionView::Function(f)) => loop_count_from(f.children, 0),
        NodeView::ServiceBlock(f) => 1 + loop_count_from(f.children, 0),
        _ => 0,
    }
}

/// How many loops `nodes[i..]` hold.
pub open spec fn loop_count_from(nodes: Seq<NodeView>, i: int) -> nat
    decreases nodes, nodes.len() - i,
{
    if i < 0 || i >= nodes.len() {
        0
    } else {
        loop_count(nodes[i]) + loop_count_from(nodes, i + 1)
    }
}

/// Whether `labels` are labels for the loops of `n`: one for each loop, or
/// as many as a list can hold.
pub open spec fn are_labels_for(n: NodeView, labels: Seq<Seq<char>>) -> bool {
    (labels.len() == loop_count(n) || labels.len() == usize::MAX) && forall|i: int|
        0 <= i < labels.len() ==> is_label(#[trigger] labels[i])
}

/// Whether `r` is the text of the C program for the tree `n` with some
/// labels for its loops, or the error that the tree gives.
pub open spec fn compiled_with_labels(n: NodeView, r: Result<String, SimpleError>) -> bool {
    exists|labels: Seq<Seq<char>>|
        are_labels_for(n, labels) && match #[trigger] compiled(n, labels) {
            Ok(t) => r is Ok && r->Ok_0@ == t,
            Err(e) => r is Err && r->Err_0@ == e,
        }
}

/// What a label is: seven characters, each a letter or a digit.
pub open spec fn is_label(s: Seq<char>) -> bool {
    s.len() == 7 && forall|i: int| 0 <= i < s.len() ==> is_letter(#[trigger] s[i]) || is_digit(s[i])
}

/// The digit that writes `d`.
fn digit(d: u32) -> (c: char)
    requires
        d < 10,
    ensures
        c == digit_char(d as int),
{
    if d == 0 {
        '0'
    } else if d == 1 {
        '1'
    } else if d == 2 {
        '2'
    } else if d == 3 {
        '3'
    } else if d == 4 {
        '4'
    } else if d == 5 {
        '5'
    } else if d == 6 {
        '6'
    } else if d == 7 {
        '7'
    } else if d == 8 {
        '8'
    } else {
        '9'
    }
}

/// Writes the digits of `n` behind `s`.
fn push_digits(s: &mut String, n: u32)
    ensures
        final(s)@ == old(s)@ + digits_text(n as nat),
    decreases n,
{
    if n >= 10 {
        push_digits(s, n / 10);
    }
    push_char(s, digit(n % 10));
    proof {
        if n >= 10 {
            assert(s@ =~= old(s)@ + digits_text(n as nat));
        } else {
            assert(s@ =~= old(s)@ + digits_text(n as nat));
        }
    }
}

/// The text of the number `n`.
pub fn number_string(n: i32) -> (r: String)
    ensures
        r@ == number_text(n as int),
{
    let mut r: String = String::new();
    if n < 0 {
        push_char(&mut r, '-');
        push_digits(&mut r, (-(n as i64)) as u32);
        assert(r@ =~= number_text(n as int));
    } else {
        push_digits(&mut r, n as u32);
        assert(r@ =~= number_text(n as int));
    }
    r
}

/// The text of the operation that puts `between` between its operands.
fn infix(left: String, between: &str, right: String) -> (r: String)
    ensures
        r@ == left@ + between@ + right@,
{
    let mut r: String = left;
    r.append(between);
    r.append(right.as_str());
    r
}

/// The text of an expression in C.
pub fn process_expr_token(token: &ExprToken) -> (r: String)
    ensures
        r@ == expr_text(token@),
    decreases token,
{
    match token {
        ExprToken::Number(n) => number_string(*n),
        ExprToken::Variable(v) => v.name.clone(),
        ExprToken::Literal(l) => {
            let mut r: String = "\"".to_owned();
            r.append(l.as_str());
            r.append("\"");
            r
        },
        ExprToken::Add(l, r) => infix(process_expr_token(l), " + ", process_expr_token(r)),
        ExprToken::Sub(l, r) => infix(process_expr_token(l), " - ", process_expr_token(r)),
        ExprToken::Mul(l, r) => infix(process_expr_token(l), " * ", process_expr_token(r)),
        ExprToken::Div(l, r) => infix(process_expr_token(l), " / ", process_expr_token(r)),
        ExprToken::Pow(l, r) => {
            let mut text: String = "pow(".to_owned();
            text.append(process_expr_token(l).as_str());
            text.append(", ");
            text.append(process_expr_token(r).as_str());
            text.append(")");
            text
        },
    }
}

/// Whether a function of this name would clash with a word of C or with a
/// built-in function.
pub fn is_c_keyword(name: &String) -> (r: bool)
    ensures
        r == is_keyword(name@),
{
    is_text(name, "return") || is_text(name, "int") || is_text(name, "char") || is_text(
        name,
        "void",
    ) || is_text(name, "if") || is_text(name, "else") || is_text(name, "while") || is_text(
        name,
        "for",
    ) || is_text(name, "do") || is_text(name, "break") || is_text(name, "continue") || is_text(
        name,
        "println",
    ) || is_text(name, "print")
}

/// The name under which a function is emitted.
fn emitted_name(name: &String) -> (r: String)
    ensures
        r@ == function_name(name@),
{
    let mut r: String = name.clone();
    if is_c_keyword(name) {
        r.append("_func");
    }
    r
}

/// The texts `parts[from..]` in a row, with `between` between one and the
/// next.
pub fn join(parts: &Vec<String>, from: usize, between: &str) -> (r: String)
    requires
        from <= parts@.len(),
    ensures
        r@ == joined_text(strings_view(parts@).subrange(from as int, parts@.len() as int), between@),
{
    let ghost all = strings_view(parts@);
    let mut r: String = String::new();
    let mut i: usize = from;
    proof {
        assert(all.subrange(from as int, from as int) =~= Seq::<Seq<char>>::empty());
    }
    while i < parts.len()
        invariant
            from <= i <= parts@.len(),
            all == strings_view(parts@),
            r@ == joined_text(all.subrange(from as int, i as int), between@),
        decreases parts@.len() - i,
    {
        let ghost before = all.subrange(from as int, i as int);
        let ghost after = all.subrange(from as int, i + 1);
        proof {
            assert(after.drop_last() =~= before);
            assert(after.last() == parts@[i as int]@);
        }
        if i > from {
            r.append(between);
        } else {
            assert(r@ + parts@[i as int]@ =~= parts@[i as int]@);
        }
        r.append(parts[i].as_str());
        i = i + 1;
    }
    r
}

/// The texts `parts` in a row, each on a line of its own.
fn lines(parts: &Vec<String>) -> (r: String)
    ensures
        r@ == lines_text(strings_view(parts@)),
{
    let ghost all = strings_view(parts@);
    let mut r: String = String::new();
    let mut i: usize = 0;
    proof {
        assert(all.subrange(0, 0) =~= Seq::<Seq<char>>::empty());
    }
    while i < parts.len()
        invariant
            i <= parts@.len(),
            all == strings_view(parts@),
            r@ == lines_text(all.subrange(0, i as int)),
        decreases parts@.len() - i,
    {
        let ghost before = all.subrange(0, i as int);
        let ghost after = all.subrange(0, i + 1);
        proof {
            assert(after.drop_last() =~= before);
            assert(after.last() == parts@[i as int]@);
        }
        r.append(parts[i].as_str());
        r.append("\n");
        i = i + 1;
    }
    proof {
        assert(all.subrange(0, parts@.len() as int) =~= all);
    }
    r
}

/// An error of the backend whose message quotes `name`.
pub fn backend_error(prefix: &str, name: &String, suffix: &str) -> (e: SimpleError)
    ensures
        e@ == backend_failure(prefix@, name@, suffix@),
{
    SimpleError::about(ErrorKind::TypeCheck, prefix, name, suffix)
}

/// The random source of the rand crate, `rand::rng`, sampled `length` times
/// with `Alphanumeric`: a text of `length` characters, each of them one of
/// a-z, A-Z and 0-9. Which ones is left to chance.
#[verifier::external_body]
fn random_string(length: usize) -> (r: String)
    ensures
        r@.len() == length,
        forall|i: int| 0 <= i < r@.len() ==> is_letter(#[trigger] r@[i]) || is_digit(r@[i]),
{
    rand::rng().sample_iter(&Alphanumeric).take(length).map(char::from).collect()
}

/// The C backend for one program tree.
pub struct CLang {
    pub tree: NodeType,
}

impl CLang {
    /// A backend for the tree `tree`.
    pub fn new(tree: NodeType) -> (c: Self)
        ensures
            c.tree == tree,
    {
        CLang { tree }
    }

    /// Whether the backend can emit the feature of the language that
    /// `feature` names: `c`, `loops`, `functions` and `variables` are the
    /// ones it can.
    pub fn supports_feature(&self, feature: &str) -> (r: bool)
        ensures
            r == (feature@ == "c"@ || feature@ == "loops"@ || feature@ == "functions"@ || feature@
                == "variables"@),
    {
        let name: String = feature.to_owned();
        is_text(&name, "c") || is_text(&name, "loops") || is_text(&name, "functions") || is_text(
            &name,
            "variables",
        )
    }

    /// The C type that stands for a type of the language.
    pub fn convert_types(data_type: DataType) -> (r: String)
        ensures
            r@ == type_text(data_type),
    {
        match data_type {
            DataType::Int => "int".to_owned(),
            DataType::Bool => "int".to_owned(),
            DataType::Str => "char".to_owned(),
            DataType::Void => "void".to_owned(),
            DataType::Any => "int".to_owned(),
        }
    }

    /// The text of a call of a function of the program.
    pub fn compile_call(call: &CallStruct) -> (r: Result<String, SimpleError>)
        ensures
            match call_text(call@) {
                Ok(t) => r is Ok && r->Ok_0@ == t,
                Err(e) => r is Err && r->Err_0@ == e,
            },
    {
        let ghost all = call_args_view(call.args@);
        let mut texts: Vec<String> = Vec::new();
        let mut i: usize = 0;
        proof {
            assert(strings_view(texts@) =~= Seq::<Seq<char>>::empty());
        }
        while i < call.args.len()
            invariant
                i <= call.args@.len(),
                all == call_args_view(call.args@),
                arg_texts_from(all, i as int, strings_view(texts@)) == arg_texts_from(
                    all,
                    0,
                    Seq::empty(),
                ),
            decreases call.args@.len() - i,
        {
            match &call.args[i].value {
                None => {
                    return Err(backend_error("Argument `", &call.args[i].name, "` has no value"));
                },
                Some(e) => {
                    let text: String = process_expr_token(e);
                    let ghost before = texts@;
                    texts.push(text);
                    proof {
                        assert(strings_view(texts@) =~= strings_view(before).push(text@));
                    }
                },
            }
            i = i + 1;
        }
        proof {
            assert(strings_view(texts@).subrange(0, texts@.len() as int) =~= strings_view(texts@));
        }
        let mut r: String = emitted_name(&call.calling_name);
        r.append("(");
        r.append(join(&texts, 0, ", ").as_str());
        r.append(");");
        Ok(r)
    }

    /// The text of the value that the variable `name` takes.
    fn compile_value(name: &String, value: &AssignEnum) -> (r: Result<String, SimpleError>)
        ensures
            match value_text(name@, value@) {
                Ok(t) => r is Ok && r->Ok_0@ == t,
                Err(e) => r is Err && r->Err_0@ == e,
            },
    {
        match value {
            AssignEnum::Expr(e) => Ok(process_expr_token(e)),
            AssignEnum::Call(n) => match &**n {
                NodeType::CALL(c) => Self::compile_call(c),
                _ => Err(backend_error("Value of `", name, "` is not an expression or a call")),
            },
            AssignEnum::Empty => Err(
                backend_error("Value of `", name, "` is not an expression or a call"),
            ),
        }
    }

    /// The text of the definition of a variable.
    pub fn compile_var(v: &VariableDefinitionStruct) -> (r: Result<String, SimpleError>)
        ensures
            match value_text(v@.name, v@.value) {
                Ok(value) => r is Ok && r->Ok_0@ == type_text(v.data_type) + " "@ + pointer_text(
                    v.data_type,
                ) + v.name@ + " = "@ + value + ";"@,
                Err(e) => r is Err && r->Err_0@ == e,
            },
    {
        let value: String = match Self::compile_value(&v.name, &v.value) {
            Ok(t) => t,
            Err(e) => {
                return Err(e);
            },
        };
        let mut r: String = Self::convert_types(v.data_type);
        r.append(" ");
        if v.data_type == DataType::Str {
            r.append("*");
        } else {
            r.append("");
        }
        r.append(v.name.as_str());
        r.append(" = ");
        r.append(value.as_str());
        r.append(";");
        Ok(r)
    }

    /// The text of an assignment.
    pub fn compile_assign(a: &AssignStruct) -> (r: Result<String, SimpleError>)
        ensures
            match value_text(a@.name, a@.body) {
                Ok(value) => r is Ok && r->Ok_0@ == a.name@ + " = "@ + value + ";"@,
                Err(e) => r is Err && r->Err_0@ == e,
            },
    {
        let value: String = match Self::compile_value(&a.name, &a.body) {
            Ok(t) => t,
            Err(e) => {
                return Err(e);
            },
        };
        let mut r: String = a.name.clone();
        r.append(" = ");
        r.append(value.as_str());
        r.append(";");
        Ok(r)
    }

    /// The text of a call as a statement.
    fn compile_statement(c: &CallStruct) -> (r: Result<String, SimpleError>)
        ensures
            match statement_text(c@) {
                Ok(t) => r is Ok && r->Ok_0@ == t,
                Err(e) => r is Err && r->Err_0@ == e,
            },
    {
        if is_text(&c.calling_name, "println") {
            Std::compile_println(c)
        } else if is_text(&c.calling_name, "print") {
            Std::compile_print(c)
        } else if is_text(&c.calling_name, "return") {
            Ok(Std::compile_return(c))
        } else if is_text(&c.calling_name, "inc") {
            Std::compile_inc(c)
        } else if is_text(&c.calling_name, "dec") {
            Std::compile_dec(c)
        } else {
            Self::compile_call(c)
        }
    }

    /// The texts of the parameters `args`.
    fn compile_params(args: &Vec<ArgStruct>) -> (r: Vec<String>)
        ensures
            strings_view(r@) == param_texts(args_view(args@)),
    {
        let mut r: Vec<String> = Vec::new();
        let mut i: usize = 0;
        while i < args.len()
            invariant
                i <= args@.len(),
                r@.len() == i,
                forall|j: int| 0 <= j < i ==> r@[j]@ == param_text(args@[j]@),
            decreases args@.len() - i,
        {
            let mut text: String = Self::convert_types(args[i].data_type);
            if args[i].data_type == DataType::Str {
                text.append("*");
            } else {
                text.append("");
            }
            text.append(" ");
            text.append(args[i].name.as_str());
            r.push(text);
            i = i + 1;
        }
        assert(strings_view(r@) =~= param_texts(args_view(args@)));
        r
    }

    /// The text of the definition of a function with the statements `body`.
    fn compile_fn(f: &FunctionDefinitionStruct, body: &Vec<String>) -> (r: String)
        ensures
            r@ == type_text(f.data_type) + " "@ + function_name(f.name@) + "("@ + joined_text(
                param_texts(args_view(f.args@)),
                ", "@,
            ) + ") {\n"@ + joined_text(strings_view(body@), "\n"@) + "\n}"@,
    {
        let params: Vec<String> = Self::compile_params(&f.args);
        proof {
            assert(strings_view(params@).subrange(0, params@.len() as int) =~= strings_view(
                params@,
            ));
            assert(strings_view(body@).subrange(0, body@.len() as int) =~= strings_view(body@));
        }
        let mut r: String = Self::convert_types(f.data_type);
        r.append(" ");
        r.append(emitted_name(&f.name).as_str());
        r.append("(");
        r.append(join(&params, 0, ", ").as_str());
        r.append(") {\n");
        r.append(join(body, 0, "\n").as_str());
        r.append("\n}");
        r
    }

    /// The text of a loop with the label `label` and the statements `body`.
    fn compile_for(f: &ForStruct, label: &String, body: &Vec<String>) -> (r: String)
        ensures
            r@ == loop_text(f.iter_name@, expr_text(f.end@), label@, strings_view(body@)),
    {
        let end: String = process_expr_token(&f.end);
        let mut r: String = String::new();
        let rest: String = if body.len() > 0 {
            r.append(body[0].as_str());
            join(body, 1, "\n")
        } else {
            proof {
                assert(strings_view(body@).subrange(0, 0) =~= strings_view(body@));
            }
            join(body, 0, "\n")
        };
        proof {
            assert(r@ =~= (if body@.len() > 0 {
                strings_view(body@)[0]
            } else {
                Seq::<char>::empty()
            }));
        }
        r.append("\nloop_");
        r.append(label.as_str());
        r.append(":\nif(");
        r.append(f.iter_name.as_str());
        r.append(">=");
        r.append(end.as_str());
        r.append("){goto end_");
        r.append(label.as_str());
        r.append(";}\n");
        r.append(rest.as_str());
        r.append("\n");
        r.append(f.iter_name.as_str());
        r.append("++;\ngoto loop_");
        r.append(label.as_str());
        r.append(";\nend_");
        r.append(label.as_str());
        r.append(":");
        r
    }

    /// The text of the node `node`, with the index of the next label, where
    /// the labels from index `next` on are free: what [`rendered`] gives.
    pub fn compile_node(node: &NodeType, labels: &Vec<String>, next: usize) -> (r: Result<
        (String, usize),
        SimpleError,
    >)
        ensures
            match rendered(node@, strings_view(labels@), next as int) {
                Ok((text, after)) => r is Ok && r->Ok_0.0@ == text && r->Ok_0.1 == after,
                Err(e) => r is Err && r->Err_0@ == e,
            },
        decreases node,
    {
        match node {
            NodeType::BLOCK(b) => {
                let (body, after) = match Self::compile_nodes(&b.children, labels, next, true) {
                    Ok(p) => p,
                    Err(e) => {
                        return Err(e);
                    },
                };
                let mut text: String = String::new();
                let braces: bool = b.tag == BlockType::Div || b.tag == BlockType::For;
                if braces {
                    text.append("{\n");
                }
                text.append(lines(&body).as_str());
                if braces {
                    text.append("}");
                }
                proof {
                    assert(text@ =~= (if braces {
                        "{\n"@ + lines_text(strings_view(body@)) + "}"@
                    } else {
                        lines_text(strings_view(body@))
                    }));
                }
                Ok((text, after))
            },
            NodeType::DEFINITION(DefinitionType::Function(f)) => {
                let (body, after) = match Self::compile_nodes(&f.children, labels, next, false) {
                    Ok(p) => p,
                    Err(e) => {
                        return Err(e);
                    },
                };
                Ok((Self::compile_fn(f, &body), after))
            },
            NodeType::DEFINITION(DefinitionType::Variable(v)) => match Self::compile_var(v) {
                Ok(text) => Ok((text, next)),
                Err(e) => Err(e),
            },
            NodeType::CALL(c) => match Self::compile_statement(c) {
                Ok(text) => Ok((text, next)),
                Err(e) => Err(e),
            },
            NodeType::ASSIGN(a) => match Self::compile_assign(a) {
                Ok(text) => Ok((text, next)),
                Err(e) => Err(e),
            },
            NodeType::ServiceBlock(ServiceBlockType::For(f)) => {
                let (label, inner): (String, usize) = if next < labels.len() {
                    (labels[next].clone(), next + 1)
                } else {
                    (String::new(), next)
                };
                let (body, after) = match Self::compile_nodes(&f.children, labels, inner, false) {
                    Ok(p) => p,
                    Err(e) => {
                        return Err(e);
                    },
                };
                Ok((Self::compile_for(f, &label, &body), after))
            },
        }
    }

    /// The texts of the statements `nodes`, with the index of the next
    /// label.
    fn compile_nodes(
        nodes: &Vec<Box<NodeType>>,
        labels: &Vec<String>,
        next: usize,
        in_block: bool,
    ) -> (r: Result<(Vec<String>, usize), SimpleError>)
        ensures
            match rendered_from(
                nodes_view(nodes@),
                0,
                strings_view(labels@),
                next as int,
                Seq::empty(),
                in_block,
            ) {
                Ok((texts, after)) => r is Ok && strings_view(r->Ok_0.0@) == texts && r->Ok_0.1
                    == after,
                Err(e) => r is Err && r->Err_0@ == e,
            },
        decreases nodes,
    {
        let ghost all = nodes_view(nodes@);
        let ghost names = strings_view(labels@);
        let mut done: Vec<String> = Vec::new();
        let mut at: usize = next;
        let mut i: usize = 0;
        proof {
            assert(strings_view(done@) =~= Seq::<Seq<char>>::empty());
        }
        while i < nodes.len()
            invariant
                i <= nodes@.len(),
                all == nodes_view(nodes@),
                names == strings_view(labels@),
                rendered_from(all, i as int, names, at as int, strings_view(done@), in_block)
                    == rendered_from(all, 0, names, next as int, Seq::empty(), in_block),
            decreases nodes@.len() - i,
        {
            assert(all[i as int] == nodes@[i as int]@);
            let hidden: bool = in_block && match &*nodes[i] {
                NodeType::DEFINITION(DefinitionType::Function(f)) => !f.must_be_compiled,
                _ => false,
            };
            if !hidden {
                let (text, after) = match Self::compile_node(&nodes[i], labels, at) {
                    Ok(p) => p,
                    Err(e) => {
                        return Err(e);
                    },
                };
                at = after;
                if text.as_str().unicode_len() > 0 {
                    let ghost before = done@;
                    done.push(text);
                    proof {
                        assert(strings_view(done@) =~= strings_view(before).push(text@));
                    }
                }
            }
            i = i + 1;
        }
        Ok((done, at))
    }

    /// The text of the C program for the tree, with the labels `labels`:
    /// what [`compiled`] gives.
    pub fn compile_with(&self, labels: &Vec<String>) -> (r: Result<String, SimpleError>)
        ensures
            match compiled(self.tree@, strings_view(labels@)) {
                Ok(t) => r is Ok && r->Ok_0@ == t,
                Err(e) => r is Err && r->Err_0@ == e,
            },
    {
        match Self::compile_node(&self.tree, labels, 0) {
            Err(e) => Err(e),
            Ok((body, _)) => {
                let mut r: String =
                    "#include <stdio.h>\n#include <math.h>\n\nint main(void) {\n".to_owned();
                r.append(body.as_str());
                r.append("return 0;\n}");
                Ok(r)
            },
        }
    }

    /// How many loops `node` holds, as far as that can be counted.
    fn count_loops(node: &NodeType) -> (n: usize)
        ensures
            n == loop_count(node@) || n == usize::MAX,
        decreases node,
    {
        match node {
            NodeType::BLOCK(b) => Self::count_loops_in(&b.children),
            NodeType::DEFINITION(DefinitionType::Function(f)) => Self::count_loops_in(&f.children),
            NodeType::ServiceBlock(ServiceBlockType::For(f)) => {
                let inner: usize = Self::count_loops_in(&f.children);
                if inner == usize::MAX {
                    inner
                } else {
                    inner + 1
                }
            },
            _ => 0,
        }
    }

    /// How many loops `nodes` hold, as far as that can be counted.
    fn count_loops_in(nodes: &Vec<Box<NodeType>>) -> (n: usize)
        ensures
            n == loop_count_from(nodes_view(nodes@), 0) || n == usize::MAX,
        decreases nodes,
    {
        let ghost all = nodes_view(nodes@);
        let mut n: usize = 0;
        let mut i: usize = nodes.len();
        while i > 0
            invariant
                i <= nodes@.len(),
                all == nodes_view(nodes@),
                n == loop_count_from(all, i as int) || n == usize::MAX,
            decreases i,
        {
            i = i - 1;
            assert(all[i as int] == nodes@[i as int]@);
            let here: usize = Self::count_loops(&nodes[i]);
            if here == usize::MAX || n > usize::MAX - here {
                n = usize::MAX;
            } else {
                n = n + here;
            }
        }
        n
    }

    /// The text of the C program for the tree, with labels drawn at random:
    /// there are labels, one for each loop of the tree, with which the
    /// result is what [`compiled`] gives.
    pub fn compile(&mut self) -> (r: Result<String, SimpleError>)
        ensures
            final(self).tree == old(self).tree,
            compiled_with_labels(old(self).tree@, r),
    {
        let n: usize = Self::count_loops(&self.tree);
        let mut labels: Vec<String> = Vec::new();
        let mut i: usize = 0;
        while i < n
            invariant
                i <= n,
                labels@.len() == i,
                forall|j: int| 0 <= j < i ==> is_label(#[trigger] labels@[j]@),
            decreases n - i,
        {
            labels.push(random_string(7));
            i = i + 1;
        }
        let r = self.compile_with(&labels);
        proof {
            let witness = strings_view(labels@);
            assert(witness.len() == n);
            assert forall|j: int| 0 <= j < witness.len() implies is_label(#[trigger] witness[j]) by {
                assert(is_label(labels@[j]@));
            }
            assert(are_labels_for(self.tree@, witness));
        }
        r
    }
}

/// How a backend's output becomes a program: the backend's name, the
/// compiler with its arguments, and the files that the compiler reads and
/// writes. In an argument, `{input}` and `{output}` stand for the two
/// files.
#[derive(Debug, PartialEq, Eq)]
pub struct BackendInfo {
    pub name: String,
    pub compiler: String,
    pub compiler_args: Vec<String>,
    pub input_file: String,
    pub output_file: String,
}

/// The arguments with which the C compiler is run.
pub open spec fn c_compiler_args() -> Seq<Seq<char>> {
    seq!["-O2"@, "-Wall"@, "{input}"@, "-o"@, "{output}"@]
}

/// How the output of the C backend becomes a program: `gcc` compiles
/// `./output/in.c` to `./output/out`.
pub fn get_backend_info() -> (info: BackendInfo)
    ensures
        info.name@ == "C-lang"@,
        info.compiler@ == "gcc"@,
        strings_view(info.compiler_args@) == c_compiler_args(),
        info.input_file@ == "./output/in.c"@,
        info.output_file@ == "./output/out"@,
{
    let mut compiler_args: Vec<String> = Vec::new();
    compiler_args.push("-O2".to_owned());
    compiler_args.push("-Wall".to_owned());
    compiler_args.push("{input}".to_owned());
    compiler_args.push("-o".to_owned());
    compiler_args.push("{output}".to_owned());
    assert(strings_view(compiler_args@) =~= c_compiler_args());
    BackendInfo {
        name: "C-lang".to_owned(),
        compiler: "gcc".to_owned(),
        compiler_args,
        input_file: "./output/in.c".to_owned(),
        output_file: "./output/out".to_owned(),
    }
}

/// A code generator that is made for one tree.
pub trait CompilerCodegen {
    /// A generator for the tree `tree`.
    fn new(tree: NodeType) -> Self where Self: Sized;

    /// The text of the program for the tree.
    fn compile(&mut self) -> Result<String, SimpleError>;
}

/// A backend: a code generator, and the way from its output to a program
/// that has run.
pub trait Backend {
    /// The text of the program for the tree `node`.
    fn generate_code(&mut self, node: &NodeType) -> Result<String, SimpleError>;

    /// Saves the generated text, at `path` where one is given, and says
    /// where.
    fn save_code(&self, path: Option<&str>) -> Result<String, String>;

    /// Compiles the saved text.
    fn compile(&self) -> Result<(), String>;

    /// Runs the compiled program and gives what it printed.
    fn run(&self) -> Result<String, String>;

    /// Whether the backend can emit the feature that `feature` names.
    fn supports_feature(&self, feature: &str) -> bool;
}

impl CompilerCodegen for CLang {
    fn new(tree: NodeType) -> (c: Self)
        ensures
            c.tree == tree,
    {
        CLang { tree }
    }

    fn compile(&mut self) -> (r: Result<String, SimpleError>)
        ensures
            final(self).tree == old(self).tree,
            compiled_with_labels(old(self).tree@, r),
    {
        CLang::compile(self)
    }
}

impl Backend for CLang {
    fn generate_code(&mut self, node: &NodeType) -> (r: Result<String, SimpleError>)
        ensures
            final(self).tree@ == node@,
            compiled_with_labels(node@, r),
    {
        self.tree = node.clone();
        CLang::compile(self)
    }

    fn save_code(&self, path: Option<&str>) -> (r: Result<String, String>)
        ensures
            r is Err,
            r->Err_0@ == "The C backend does not save code itself"@,
    {
        Err("The C backend does not save code itself".to_owned())
    }

    fn compile(&self) -> (r: Result<(), String>)
        ensures
            r is Err,
            r->Err_0@ == "The C backend does not compile code itself"@,
    {
        Err("The C backend does not compile code itself".to_owned())
    }

    fn run(&self) -> (r: Result<String, String>)
        ensures
            r is Err,
            r->Err_0@ == "The C backend does not run code itself"@,
    {
        Err("The C backend does not run code itself".to_owned())
    }

    fn supports_feature(&self, feature: &str) -> (r: bool)
        ensures
            r == (feature@ == "c"@ || feature@ == "loops"@ || feature@ == "functions"@ || feature@
                == "variables"@),
    {
        CLang::supports_feature(self, feature)
    }
}

} // verus!

use html8::code_tree::start_generating_code_tree;
use html8::code_tree::types::{
    AssignEnum, BlockType, CallStruct, DataType, DefinitionType, NodeType, ServiceBlockType,
    VariableDefinitionStruct,
};
use html8::definitions::{check_duplicate_def, find_duplicate, start_def_check};
use html8::errors::{ErrorKind, SimpleError};
use html8::math::types::{ExprToken, VariableType};
use html8::parser::Parser;
use html8::types::typechecker::start_types_check;

fn compile(main: &str) -> Result<NodeType, SimpleError> {
    let text = format!("<html><head></head><main>{}</main></html>", main);
    start_generating_code_tree(Parser::new(text).parse().unwrap())
}

fn statements(tree: &NodeType) -> &Vec<Box<NodeType>> {
    match tree {
        NodeType::BLOCK(html) => match &*html.children[1] {
            NodeType::BLOCK(main) => &main.children,
            other => panic!("not a block: {:?}", other),
        },
        other => panic!("not a block: {:?}", other),
    }
}

fn failure(main: &str, kind: ErrorKind) -> String {
    let e = compile(main).unwrap_err();
    assert_eq!(e.kind, kind, "{}", e.message);
    e.message
}

#[test]
fn a_folded_variable_and_a_typed_reference() {
    let tree = compile("<int name=\"x\">5+5</int><println {x}/>").unwrap();
    let main = statements(&tree);
    assert_eq!(main.len(), 7);
    assert_eq!(
        *main[5],
        NodeType::DEFINITION(DefinitionType::Variable(VariableDefinitionStruct {
            data_type: DataType::Int,
            name: "x".to_string(),
            value: AssignEnum::Expr(ExprToken::Number(10)),
            is_const: false,
        }))
    );
    match &*main[6] {
        NodeType::CALL(CallStruct { calling_name, args }) => {
            assert_eq!(calling_name, "println");
            assert_eq!(args.len(), 1);
            assert_eq!(args[0].name, "arg");
            assert_eq!(
                args[0].value,
                Some(ExprToken::Variable(VariableType::new("x".to_string(), DataType::Int, false)))
            );
        }
        other => panic!("not a call: {:?}", other),
    }
}

#[test]
fn the_built_in_functions_come_first_in_main() {
    let tree = compile("").unwrap();
    match &tree {
        NodeType::BLOCK(html) => {
            assert_eq!(html.tag, BlockType::Html);
            assert_eq!(html.children.len(), 2);
            match &*html.children[0] {
                NodeType::BLOCK(head) => {
                    assert_eq!(head.tag, BlockType::Head);
                    assert!(head.children.is_empty());
                }
                other => panic!("not a block: {:?}", other),
            }
        }
        other => panic!("not a block: {:?}", other),
    }
    let main = statements(&tree);
    let names: Vec<&str> = main
        .iter()
        .map(|n| match &**n {
            NodeType::DEFINITION(DefinitionType::Function(f)) => f.name.as_str(),
            other => panic!("not a function: {:?}", other),
        })
        .collect();
    assert_eq!(names, vec!["println", "print", "return", "inc", "dec"]);
}

#[test]
fn a_constant_is_propagated_into_what_uses_it() {
    let tree = compile("<int name=\"k\" const>2*3</int><int name=\"y\">k+1</int><println {k*y}/>").unwrap();
    let main = statements(&tree);
    match &*main[6] {
        NodeType::DEFINITION(DefinitionType::Variable(v)) => {
            assert_eq!(v.value, AssignEnum::Expr(ExprToken::Number(7)));
        }
        other => panic!("not a variable: {:?}", other),
    }
    match &*main[7] {
        NodeType::CALL(c) => {
            assert_eq!(
                c.args[0].value,
                Some(ExprToken::Mul(
                    Box::new(ExprToken::Number(6)),
                    Box::new(ExprToken::Variable(VariableType::new("y".to_string(), DataType::Int, false)))
                ))
            );
        }
        other => panic!("not a call: {:?}", other),
    }
}

#[test]
fn a_loop_from_zero_to_five() {
    let tree = compile("<for start=\"0\" end=\"5\" i=\"i\"><println {i}/></for>").unwrap();
    let main = statements(&tree);
    match &*main[5] {
        NodeType::ServiceBlock(ServiceBlockType::For(f)) => {
            assert_eq!(f.start, ExprToken::Number(0));
            assert_eq!(f.end, ExprToken::Number(5));
            assert_eq!(f.iter_name, "i");
            assert_eq!(
                *f.children[0],
                NodeType::DEFINITION(DefinitionType::Variable(VariableDefinitionStruct {
                    data_type: DataType::Int,
                    name: "i".to_string(),
                    value: AssignEnum::Expr(ExprToken::Number(0)),
                    is_const: false,
                }))
            );
            assert_eq!(f.children.len(), 2);
        }
        other => panic!("not a loop: {:?}", other),
    }
}

#[test]
fn the_bounds_of_a_loop_must_be_numbers() {
    assert_eq!(
        failure("<for start={\"a\"} end=\"5\" i=\"i\"></for>", ErrorKind::TypeCheck),
        "Argument `start` inside for block has wrong type! Expected `Int`"
    );
    assert_eq!(
        failure("<str name=\"s\">\"x\"</str><for start=\"0\" end={s} i=\"i\"></for>", ErrorKind::TypeCheck),
        "Argument `end` inside for block has wrong type! Expected `Int`"
    );
}

#[test]
fn the_counter_of_a_loop_is_not_visible_behind_it() {
    assert_eq!(
        failure("<for start=\"0\" end=\"5\" i=\"i\"></for><println {i}/>", ErrorKind::DefinitionCheck),
        "Variable `i` not defined"
    );
}

#[test]
fn what_a_function_defines_is_not_visible_behind_it() {
    assert_eq!(
        failure(
            "<void name=\"f\" a=\"int\"><int name=\"inner\">a</int><println {inner}/></void><println {inner}/>",
            ErrorKind::DefinitionCheck
        ),
        "Variable `inner` not defined"
    );
}

#[test]
fn the_parameters_of_a_function_are_not_visible_behind_it() {
    assert_eq!(
        failure(
            "<void name=\"f\" a=\"int\"><println {a}/><println {a}/></void><println {a}/>",
            ErrorKind::DefinitionCheck
        ),
        "Variable `a` not defined"
    );
}

#[test]
fn what_a_block_defines_is_not_visible_behind_it() {
    assert_eq!(
        failure("<div><int name=\"x\">1</int></div><println {x}/>", ErrorKind::DefinitionCheck),
        "Variable `x` not defined"
    );
    assert!(compile("<int name=\"x\">1</int><div><println {x}/></div>").is_ok());
}

#[test]
fn a_function_cannot_call_itself() {
    assert_eq!(
        failure("<void name=\"f\" a=\"int\"><f a={a}/><f a={a}/></void>", ErrorKind::DefinitionCheck),
        "Cannot call undefined function: f"
    );
}

#[test]
fn two_variables_of_one_name_are_an_error() {
    assert_eq!(
        failure("<int name=\"x\">1</int><int name=\"x\">2</int>", ErrorKind::DefinitionCheck),
        "Cannot redefine variable `x`"
    );
    assert_eq!(
        failure("<int name=\"x\">1</int><str name=\"x\">\"s\"</str>", ErrorKind::DefinitionCheck),
        "Cannot redefine variable `x`"
    );
}

#[test]
fn a_variable_and_a_function_of_one_name_are_an_error() {
    assert_eq!(
        failure(
            "<int name=\"x\">1</int><void name=\"x\" a=\"int\"><println {a}/><println {a}/></void>",
            ErrorKind::DefinitionCheck
        ),
        "Cannot redefine function `x`"
    );
    assert_eq!(
        failure(
            "<void name=\"x\" a=\"int\"><println {a}/><println {a}/></void><int name=\"x\">1</int>",
            ErrorKind::DefinitionCheck
        ),
        "Cannot redefine variable `x`"
    );
    assert_eq!(
        failure("<int name=\"println\">1</int>", ErrorKind::DefinitionCheck),
        "Cannot redefine variable `println`"
    );
}

#[test]
fn an_int_variable_cannot_take_a_string() {
    assert_eq!(
        failure("<int name=\"x\">\"five\"</int>", ErrorKind::TypeCheck),
        "Value type for variable `x` is incorrect! Expected `Int`, got `Str`"
    );
}

#[test]
fn a_function_that_returns_a_value_needs_a_return() {
    assert_eq!(
        failure("<int name=\"f\" a=\"int\"><println {a}/><println {a}/></int>", ErrorKind::TypeCheck),
        "Function `f` must have return statement"
    );
}

#[test]
fn a_function_must_return_its_type() {
    assert_eq!(
        failure("<int name=\"f\"><return \"text\"/></int>", ErrorKind::TypeCheck),
        "Return statement inside `f` function has wrong type: Expected Int, got Str."
    );
    assert!(compile("<int name=\"f\" a=\"int\"><return {a+1}/></int>").is_ok());
    assert!(compile("<str name=\"f\"><return \"text\"/></str>").is_ok());
    assert!(compile("<bool name=\"f\"><return arg/></bool>").is_ok());
}

#[test]
fn a_void_function_needs_no_return() {
    assert!(compile("<void name=\"f\" a=\"int\"><println {a}/><println {a}/></void>").is_ok());
}

#[test]
fn a_call_is_checked_against_its_function() {
    let f = "<int name=\"add\" a=\"int\" b=\"int\"><return {a+b}/></int>";
    assert!(compile(&format!("{}<int name=\"s\"><add a={{1}} b={{2}}/></int>", f)).is_ok());
    assert_eq!(
        failure(&format!("{}<add a={{1}}/>", f), ErrorKind::DefinitionCheck),
        "Argument `b` in function `add` call is required"
    );
    assert_eq!(
        failure(&format!("{}<add a={{1}} b={{2}} c={{3}}/>", f), ErrorKind::DefinitionCheck),
        "Unexpected argument `c` for function `add`"
    );
    assert_eq!(
        failure(&format!("{}<add a={{1}} b={{2}} a={{3}}/>", f), ErrorKind::DefinitionCheck),
        "Found duplicate argument `a` in function: add"
    );
    assert_eq!(
        failure(&format!("{}<add a={{1}} b={{q}}/>", f), ErrorKind::DefinitionCheck),
        "Variable `q` not defined"
    );
    assert_eq!(
        failure(&format!("{}<add a={{1}} b=\"two\"/>", f), ErrorKind::TypeCheck),
        "Argument `b` has wrong type! Expected: `Int`, got `Str`"
    );
    assert_eq!(
        failure(&format!("{}<str name=\"s\"><add a={{1}} b={{2}}/></str>", f), ErrorKind::TypeCheck),
        "Value type for variable `s` is incorrect! Expected `Str`, got `Int`"
    );
}

#[test]
fn calls_of_what_is_no_function() {
    assert_eq!(
        failure("<nothing/>", ErrorKind::DefinitionCheck),
        "Cannot call undefined function: nothing"
    );
    assert_eq!(
        failure("<int name=\"x\">1</int><x/>", ErrorKind::DefinitionCheck),
        "Cannot call variable as function: x"
    );
}

#[test]
fn two_parameters_of_one_name_are_an_error() {
    assert_eq!(
        failure("<void name=\"f\" a=\"int\" a=\"str\"><println {a}/><println {a}/></void>", ErrorKind::DefinitionCheck),
        "Found duplicate argument `a` in function: f"
    );
}

#[test]
fn a_built_in_function_takes_any_type() {
    assert!(compile("<println \"text\"/><println {1+2}/><print arg/>").is_ok());
}

#[test]
fn assignments_are_checked() {
    assert!(compile("<int name=\"x\">1</int><x>x+1</x>").is_ok());
    assert_eq!(
        failure("<y>1</y>", ErrorKind::DefinitionCheck),
        "Variable `y` for assign not defined!"
    );
    assert_eq!(
        failure("<int name=\"k\" const>1</int><k>2</k>", ErrorKind::DefinitionCheck),
        "Cannot assign value to constant `k` variable"
    );
    assert_eq!(
        failure("<println>2</println>", ErrorKind::DefinitionCheck),
        "Cannot assign value to `println` function"
    );
    assert_eq!(
        failure("<int name=\"x\">1</int><x>q</x>", ErrorKind::DefinitionCheck),
        "Variable `q` not defined"
    );
    assert_eq!(
        failure("<int name=\"x\">1</int><x></x>", ErrorKind::DefinitionCheck),
        "Unexpected token inside `x` assign"
    );
    assert_eq!(
        failure("<int name=\"x\">1</int><x><div></div></x>", ErrorKind::DefinitionCheck),
        "Unexpected token inside `x` assign"
    );
    assert_eq!(
        failure("<int name=\"x\">1</int><x>\"s\"</x>", ErrorKind::TypeCheck),
        "Assign to `x` has wrong type! Expected: `Int`, got `Str`"
    );
    assert_eq!(
        failure("<int name=\"x\">1</int><x><println {x}/></x>", ErrorKind::TypeCheck),
        "Assign to `x` has wrong type! Expected: `Int`, got `Void`"
    );
}

#[test]
fn a_parameter_cannot_be_assigned() {
    assert_eq!(
        failure("<void name=\"f\" a=\"int\"><a>1</a><println {a}/></void>", ErrorKind::DefinitionCheck),
        "Cannot assign value to constant `a` variable"
    );
}

#[test]
fn a_variable_must_be_defined_before_its_use() {
    assert_eq!(
        failure("<int name=\"x\">y</int><int name=\"y\">1</int>", ErrorKind::DefinitionCheck),
        "Variable `y` not defined"
    );
    assert_eq!(
        failure("<int name=\"x\">x</int>", ErrorKind::DefinitionCheck),
        "Variable `x` not defined"
    );
}

#[test]
fn operands_of_two_types_fail_the_type_check() {
    assert_eq!(
        failure("<int name=\"x\">1+\"a\"</int>", ErrorKind::TypeCheck),
        "Type mismatch for math operation: Int and Str"
    );
}

#[test]
fn the_root_must_be_html_with_head_and_main() {
    let lower = |text: &str| start_generating_code_tree(Parser::new(text.to_string()).parse().unwrap());
    let e = lower("<main></main>").unwrap_err();
    assert_eq!((e.kind, e.message.as_str()), (ErrorKind::Parsing, "Unexpected root tag!"));
    let e = lower("<f/>").unwrap_err();
    assert_eq!((e.kind, e.message.as_str()), (ErrorKind::Parsing, "Unexpected root tag!"));
    let e = lower("<html><div></div></html>").unwrap_err();
    assert_eq!((e.kind, e.message.as_str()), (ErrorKind::Parsing, "Unexpected tag inside `html`!"));
    let e = lower("<html><f/></html>").unwrap_err();
    assert_eq!((e.kind, e.message.as_str()), (ErrorKind::Parsing, "Unexpected tag inside `html`!"));
    assert!(lower("<html></html>").is_ok());
    assert!(lower("<html><main></main><head></head></html>").is_ok());
}

#[test]
fn what_head_defines_is_not_visible_in_main() {
    let text = "<html><head><int name=\"x\">1</int></head><main><println {x}/></main></html>";
    let e = start_generating_code_tree(Parser::new(text.to_string()).parse().unwrap()).unwrap_err();
    assert_eq!(e.kind, ErrorKind::DefinitionCheck);
    assert_eq!(e.message, "Variable `x` not defined");
}

#[test]
fn an_earlier_pass_fails_first() {
    assert_eq!(failure("<int name=\"x\">\"s\"</int><y>1+</y>", ErrorKind::MathProcessing), "Unexpected EOI");
    assert_eq!(
        failure("<int name=\"x\">\"s\"</int><y>1</y>", ErrorKind::DefinitionCheck),
        "Variable `y` for assign not defined!"
    );
}

#[test]
fn the_resolver_leaves_the_tree_as_it_is() {
    let text = "<html><head></head><main><int name=\"x\">5+5</int></main></html>";
    let lowered = html8::code_tree::preprocess_code_tree(&Parser::new(text.to_string()).parse().unwrap()).unwrap();
    let mut tree = lowered.clone();
    assert_eq!(start_def_check(&mut tree), Ok(()));
    assert_eq!(tree, lowered);
}

#[test]
fn the_type_checker_leaves_a_tree_that_fails_as_it_is() {
    let text = "<main><int name=\"x\">5+5</int><int name=\"y\">\"s\"</int></main>";
    let lowered = html8::code_tree::preprocess_code_tree(&Parser::new(text.to_string()).parse().unwrap()).unwrap();
    let mut tree = lowered.clone();
    let e = start_types_check(&mut tree).unwrap_err();
    assert_eq!(e.kind, ErrorKind::TypeCheck);
    assert_eq!(tree, lowered);
}

#[test]
fn checking_twice_changes_nothing_more() {
    let mut tree = compile("<int name=\"k\" const>2*3</int><int name=\"y\">k+1</int><println {k*y}/>").unwrap();
    let once = tree.clone();
    assert_eq!(start_types_check(&mut tree), Ok(()));
    assert_eq!(tree, once);
}

#[test]
fn the_first_repeated_name_is_found() {
    let names = |v: &[&str]| v.iter().map(|s| s.to_string()).collect::<Vec<String>>();
    assert_eq!(find_duplicate(&names(&[])), None);
    assert_eq!(find_duplicate(&names(&["a", "b", "c"])), None);
    assert_eq!(find_duplicate(&names(&["a", "b", "a", "b"])), Some("a".to_string()));
    assert_eq!(find_duplicate(&names(&["a", "b", "b", "a"])), Some("b".to_string()));
    assert!(check_duplicate_def(&names(&["a", "b"]), &"f".to_string()).is_ok());
    let e = check_duplicate_def(&names(&["a", "a"]), &"f".to_string()).unwrap_err();
    assert_eq!(e.kind, ErrorKind::DefinitionCheck);
    assert_eq!(e.message, "Found duplicate argument `a` in function: f");
}

#[test]
fn errors_are_reported_under_the_heading_of_their_kind() {
    assert_eq!(SimpleError::get_error_kind(ErrorKind::Parsing), "Parsing error");
    assert_eq!(SimpleError::get_error_kind(ErrorKind::DefinitionCheck), "Definition check error");
    assert_eq!(SimpleError::get_error_kind(ErrorKind::TypeCheck), "Type check error");
    assert_eq!(SimpleError::get_error_kind(ErrorKind::MathProcessing), "Math processing error");
    let e = SimpleError::new(ErrorKind::TypeCheck, "wrong".to_string());
    assert_eq!(e.describe(), "Type check error: wrong");
}

#[test]
fn a_variable_takes_an_expression_or_a_call() {
    assert_eq!(
        failure("<int name=\"y\"><div></div></int>", ErrorKind::DefinitionCheck),
        "Unexpected token inside `y` definition"
    );
    assert_eq!(
        failure("<int name=\"y\"><nothing/></int>", ErrorKind::DefinitionCheck),
        "Cannot call undefined function: nothing"
    );
}

#[test]
fn the_type_checker_alone_refuses_what_has_no_type() {
    let check = |text: &str| {
        let mut tree =
            html8::code_tree::preprocess_code_tree(&Parser::new(text.to_string()).parse().unwrap())
                .unwrap();
        start_types_check(&mut tree).unwrap_err()
    };
    let e = check("<int name=\"y\"><div></div></int>");
    assert_eq!((e.kind, e.message.as_str()), (ErrorKind::TypeCheck, "Value of `y` is not an expression or a call"));
    let e = check("<int name=\"y\"><nothing/></int>");
    assert_eq!((e.kind, e.message.as_str()), (ErrorKind::TypeCheck, "Value of `y` is not an expression or a call"));
    let e = check("<main><int name=\"x\">1</int><x></x></main>");
    assert_eq!((e.kind, e.message.as_str()), (ErrorKind::TypeCheck, "Value of `x` is not an expression or a call"));
    let e = check("<int name=\"f\"><return/></int>");
    assert_eq!((e.kind, e.message.as_str()), (ErrorKind::TypeCheck, "Unknown return tag"));
    let e = check("<int name=\"x\">q</int>");
    assert_eq!((e.kind, e.message.as_str()), (ErrorKind::MathProcessing, "Variable `q` not defined"));
}

#[test]
fn a_return_without_a_value_is_a_bool() {
    assert_eq!(
        failure("<int name=\"f\"><return arg/></int>", ErrorKind::TypeCheck),
        "Return statement inside `f` function has wrong type: Expected Int, got Bool."
    );
}

#[test]
fn the_first_return_of_a_function_counts() {
    assert!(compile("<int name=\"f\" a=\"int\"><return {a}/><return \"s\"/></int>").is_ok());
    assert_eq!(
        failure("<int name=\"f\" a=\"int\"><return \"s\"/><return {a}/></int>", ErrorKind::TypeCheck),
        "Return statement inside `f` function has wrong type: Expected Int, got Str."
    );
}

#[test]
fn a_return_sees_what_the_body_defined() {
    assert!(compile("<int name=\"f\" a=\"int\"><int name=\"b\">a*2</int><return {b}/></int>").is_ok());
}

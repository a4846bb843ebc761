use html8::code_tree::types::{
    ArgStruct, AssignEnum, AssignStruct, BlockStruct, BlockType, CallArgStruct, CallStruct,
    DataType, DefinitionType, ForStruct, FunctionDefinitionStruct, NodeType, ServiceBlockType,
    VariableDefinitionStruct,
};
use html8::code_tree::{get_data_type, is_valid_identifier, preprocess_code_tree};
use html8::errors::{ErrorKind, SimpleError};
use html8::libs::stdlib::Std;
use html8::math::types::{ExprToken, VariableType};
use html8::parser::types::{ASTBody, ASTNode};
use html8::parser::Parser;

fn lower(text: &str) -> Result<NodeType, SimpleError> {
    preprocess_code_tree(&Parser::new(text.to_string()).parse().unwrap())
}

fn failure(text: &str) -> String {
    let e = lower(text).unwrap_err();
    assert_eq!(e.kind, ErrorKind::Parsing);
    e.message
}

fn name(s: &str) -> ExprToken {
    ExprToken::Variable(VariableType::new(s.to_string(), DataType::Any, false))
}

fn variable(data_type: DataType, name: &str, value: AssignEnum, is_const: bool) -> NodeType {
    NodeType::DEFINITION(DefinitionType::Variable(VariableDefinitionStruct {
        data_type,
        name: name.to_string(),
        value,
        is_const,
    }))
}

fn call(target: &str, args: Vec<(&str, Option<ExprToken>)>) -> NodeType {
    NodeType::CALL(CallStruct {
        calling_name: target.to_string(),
        args: args
            .into_iter()
            .map(|(n, v)| CallArgStruct { name: n.to_string(), value: v })
            .collect(),
    })
}

#[test]
fn identifiers_are_letters_and_underscores() {
    assert!(is_valid_identifier("x"));
    assert!(is_valid_identifier("snake_case"));
    assert!(is_valid_identifier("_"));
    assert!(is_valid_identifier("ABC"));
    assert!(!is_valid_identifier(""));
    assert!(!is_valid_identifier("x1"));
    assert!(!is_valid_identifier("a b"));
    assert!(!is_valid_identifier("a-b"));
    assert!(!is_valid_identifier("é"));
    assert!(!is_valid_identifier("x\n"));
    assert!(!is_valid_identifier("^[a-zA-Z_]+$"));
}

#[test]
fn parameter_types() {
    assert_eq!(get_data_type(&"int".to_string()), Some(DataType::Int));
    assert_eq!(get_data_type(&"str".to_string()), Some(DataType::Str));
    assert_eq!(get_data_type(&"bool".to_string()), Some(DataType::Bool));
    assert_eq!(get_data_type(&"void".to_string()), None);
    assert_eq!(get_data_type(&"Int".to_string()), None);
}

#[test]
fn a_variable_with_text_is_an_expression() {
    assert_eq!(
        lower("<int name=\"x\">5+5</int>"),
        Ok(variable(
            DataType::Int,
            "x",
            AssignEnum::Expr(ExprToken::Add(
                Box::new(ExprToken::Number(5)),
                Box::new(ExprToken::Number(5))
            )),
            false
        ))
    );
}

#[test]
fn the_four_definition_tags_give_the_four_types() {
    for (tag, data_type) in [
        ("int", DataType::Int),
        ("bool", DataType::Bool),
        ("str", DataType::Str),
        ("void", DataType::Void),
    ] {
        let text = format!("<{} name=\"v\">1</{}>", tag, tag);
        assert_eq!(
            lower(&text),
            Ok(variable(data_type, "v", AssignEnum::Expr(ExprToken::Number(1)), false))
        );
    }
}

#[test]
fn a_constant_variable() {
    assert_eq!(
        lower("<str name=\"s\" const>\"text\"</str>"),
        Ok(variable(
            DataType::Str,
            "s",
            AssignEnum::Expr(ExprToken::Literal("text".to_string())),
            true
        ))
    );
}

#[test]
fn a_variable_with_a_tag_is_a_call() {
    assert_eq!(
        lower("<int name=\"y\" const><f a={1}/></int>"),
        Ok(variable(
            DataType::Int,
            "y",
            AssignEnum::Call(Box::new(call("f", vec![("a", Some(ExprToken::Number(1)))]))),
            true
        ))
    );
}

#[test]
fn several_tags_make_a_function() {
    assert_eq!(
        lower("<void name=\"f\" a=\"int\" b=\"str\"><println {a}/><println {b}/></void>"),
        Ok(NodeType::DEFINITION(DefinitionType::Function(FunctionDefinitionStruct {
            data_type: DataType::Void,
            name: "f".to_string(),
            children: vec![
                Box::new(call("println", vec![("arg", Some(name("a")))])),
                Box::new(call("println", vec![("arg", Some(name("b")))])),
            ],
            args: vec![
                ArgStruct::new("a".to_string(), DataType::Int),
                ArgStruct::new("b".to_string(), DataType::Str),
            ],
            must_be_compiled: true,
        })))
    );
}

#[test]
fn a_single_return_makes_a_function() {
    assert_eq!(
        lower("<int name=\"one\"><return {1}/></int>"),
        Ok(NodeType::DEFINITION(DefinitionType::Function(FunctionDefinitionStruct {
            data_type: DataType::Int,
            name: "one".to_string(),
            children: vec![Box::new(call("return", vec![("arg", Some(ExprToken::Number(1)))]))],
            args: vec![],
            must_be_compiled: true,
        })))
    );
}

#[test]
fn parameters_without_a_body_make_a_function() {
    assert_eq!(
        lower("<void name=\"f\" a=\"bool\"></void>"),
        Ok(NodeType::DEFINITION(DefinitionType::Function(FunctionDefinitionStruct {
            data_type: DataType::Void,
            name: "f".to_string(),
            children: vec![],
            args: vec![ArgStruct::new("a".to_string(), DataType::Bool)],
            must_be_compiled: true,
        })))
    );
}

#[test]
fn blocks_hold_what_their_tags_lower_to() {
    assert_eq!(
        lower("<div><x>1</x><f/></div>"),
        Ok(NodeType::BLOCK(BlockStruct {
            tag: BlockType::Div,
            children: vec![
                Box::new(NodeType::ASSIGN(AssignStruct {
                    name: "x".to_string(),
                    body: AssignEnum::Expr(ExprToken::Number(1)),
                })),
                Box::new(call("f", vec![])),
            ],
        }))
    );
    for (tag, kind) in [("html", BlockType::Html), ("head", BlockType::Head), ("main", BlockType::Main)] {
        let text = format!("<{}></{}>", tag, tag);
        assert_eq!(lower(&text), Ok(NodeType::BLOCK(BlockStruct { tag: kind, children: vec![] })));
    }
}

#[test]
fn a_self_closing_tag_is_a_call() {
    assert_eq!(
        lower("<f a={x+1} b=\"text\" c/>"),
        Ok(call(
            "f",
            vec![
                ("a", Some(ExprToken::Add(Box::new(name("x")), Box::new(ExprToken::Number(1))))),
                ("b", Some(ExprToken::Literal("text".to_string()))),
                ("c", None),
            ]
        ))
    );
}

#[test]
fn any_other_tag_is_an_assignment() {
    assert_eq!(
        lower("<x>y*2</x>"),
        Ok(NodeType::ASSIGN(AssignStruct {
            name: "x".to_string(),
            body: AssignEnum::Expr(ExprToken::Mul(Box::new(name("y")), Box::new(ExprToken::Number(2)))),
        }))
    );
    assert_eq!(
        lower("<x><f/></x>"),
        Ok(NodeType::ASSIGN(AssignStruct {
            name: "x".to_string(),
            body: AssignEnum::Call(Box::new(call("f", vec![]))),
        }))
    );
    assert_eq!(lower("<x></x>"), Ok(NodeType::ASSIGN(AssignStruct::new("x".to_string()))));
}

#[test]
fn the_last_child_of_an_assignment_counts() {
    assert_eq!(
        lower("<x>1<f/>2</x>"),
        Ok(NodeType::ASSIGN(AssignStruct {
            name: "x".to_string(),
            body: AssignEnum::Expr(ExprToken::Number(2)),
        }))
    );
}

#[test]
fn a_loop_opens_with_the_definition_of_its_counter() {
    let lowered = lower("<for start=\"0\" end=\"5\" i=\"i\"><println {i}/></for>");
    assert_eq!(
        lowered,
        Ok(NodeType::ServiceBlock(ServiceBlockType::For(ForStruct {
            start: ExprToken::Number(0),
            end: ExprToken::Number(5),
            iter_name: "i".to_string(),
            children: vec![
                Box::new(variable(DataType::Int, "i", AssignEnum::Expr(ExprToken::Number(0)), false)),
                Box::new(call("println", vec![("arg", Some(name("i")))])),
            ],
        })))
    );
}

#[test]
fn the_bounds_of_a_loop_are_expressions() {
    match lower("<for start={a+1} end={n} i=\"k\"></for>") {
        Ok(NodeType::ServiceBlock(ServiceBlockType::For(f))) => {
            assert_eq!(f.start, ExprToken::Add(Box::new(name("a")), Box::new(ExprToken::Number(1))));
            assert_eq!(f.end, name("n"));
            assert_eq!(f.iter_name, "k");
            assert_eq!(f.children.len(), 1);
        }
        other => panic!("not a loop: {:?}", other),
    }
}

#[test]
fn a_loop_needs_its_three_attributes() {
    assert_eq!(failure("<for end=\"5\" i=\"i\"></for>"), "Argument `start` in for block is required");
    assert_eq!(failure("<for start=\"0\" i=\"i\"></for>"), "Argument `end` in for block is required");
    assert_eq!(failure("<for start=\"0\" end=\"5\"></for>"), "Argument `i` in for block is required");
    assert_eq!(failure("<for start end=\"5\" i=\"i\"></for>"), "Argument `start` cannot be bool");
    assert_eq!(failure("<for start=\"0\" end i=\"i\"></for>"), "Argument `end` cannot be bool");
    assert_eq!(failure("<for start=\"0\" end=\"5\" i></for>"), "Argument `i` cannot be bool");
    assert_eq!(failure("<for start=\"0\" end=\"5\" i={i}></for>"), "Argument `i` must be a literal");
}

#[test]
fn text_in_a_block_is_an_error() {
    assert_eq!(failure("<div>text</div>"), "String tags not supported inside blocks");
    assert_eq!(failure("<main><f/>text</main>"), "String tags not supported inside blocks");
    assert_eq!(
        failure("<for start=\"0\" end=\"5\" i=\"i\">text</for>"),
        "String tags not supported inside blocks"
    );
}

#[test]
fn a_definition_needs_a_valid_quoted_name() {
    assert_eq!(failure("<int>1</int>"), "You should define name for variable!");
    assert_eq!(
        failure("<int name={x}>1</int>"),
        "Cannot use dynamic value for defining a variable name!"
    );
    assert_eq!(
        failure("<int name>1</int>"),
        "Cannot use dynamic value for defining a variable name!"
    );
    assert_eq!(failure("<int name=\"x1\">1</int>"), "`x1` is not valid name!");
    assert_eq!(failure("<int name=\"\">1</int>"), "`` is not valid name!");
}

#[test]
fn a_definition_needs_children_of_one_sort() {
    assert_eq!(failure("<int name=\"x\"></int>"), "All children should be nodes, not values!");
    assert_eq!(failure("<int name=\"x\">1<f/></int>"), "All children should be nodes, not values!");
    assert_eq!(failure("<int name=\"x\"><f/>1<g/></int>"), "All children should be nodes, not values!");
}

#[test]
fn a_variable_takes_no_arguments() {
    assert_eq!(
        failure("<int name=\"x\" a=\"int\">1</int>"),
        "Variable `x` definition cannot take arguments"
    );
}

#[test]
fn parameters_need_the_quoted_name_of_a_type() {
    assert_eq!(
        failure("<void name=\"f\" a><g/><g/></void>"),
        "Function argument cannot be a flag: a"
    );
    assert_eq!(
        failure("<void name=\"f\" a={int}><g/><g/></void>"),
        "Function argument type cannot be a variable: a"
    );
    assert_eq!(
        failure("<void name=\"f\" a=\"void\"><g/><g/></void>"),
        "Unknown data type for function argument: a"
    );
}

#[test]
fn an_error_in_an_expression_is_an_error_of_lowering() {
    let e = lower("<int name=\"x\">1+</int>").unwrap_err();
    assert_eq!(e.kind, ErrorKind::MathProcessing);
    assert_eq!(e.message, "Unexpected EOI");
    let e = lower("<f a={#}/>").unwrap_err();
    assert_eq!(e.kind, ErrorKind::MathProcessing);
    assert_eq!(e.message, "Unexpected char: #");
    let e = lower("<main><x>\"open</x></main>").unwrap_err();
    assert_eq!(e.kind, ErrorKind::MathProcessing);
}

#[test]
fn the_built_in_functions() {
    let library = Std::use_lib();
    let names: Vec<String> = library
        .iter()
        .map(|n| match &**n {
            NodeType::DEFINITION(DefinitionType::Function(f)) => {
                assert_eq!(f.data_type, DataType::Void);
                assert_eq!(f.args, vec![ArgStruct::new("arg".to_string(), DataType::Any)]);
                assert!(f.children.is_empty());
                assert!(!f.must_be_compiled);
                f.name.clone()
            }
            other => panic!("not a function: {:?}", other),
        })
        .collect();
    assert_eq!(names, vec!["println", "print", "return", "inc", "dec"]);
    assert_eq!(*library[0], Std::build_println());
    assert_eq!(*library[1], Std::build_print());
    assert_eq!(*library[2], Std::build_return());
    assert_eq!(*library[3], Std::build_inc());
    assert_eq!(*library[4], Std::build_dec());
}

#[test]
fn a_call_cannot_have_children() {
    let tree = ASTNode {
        name: "f".to_string(),
        children: vec![ASTBody::String("text".to_string())],
        props: vec![],
        self_closing: true,
    };
    let e = preprocess_code_tree(&tree).unwrap_err();
    assert_eq!(e.kind, ErrorKind::Parsing);
    assert_eq!(e.message, "A call cannot have children");
}

use html8::code_tree::start_generating_code_tree;
use html8::code_tree::types::{CallArgStruct, CallStruct, DataType, NodeType};
use html8::compiler::{is_c_keyword, join, number_string, process_expr_token, CLang};
use html8::errors::ErrorKind;
use html8::libs::stdlib::Std;
use html8::math::parse_expression;
use html8::math::types::{ExprToken, VariableType};
use html8::parser::Parser;

const HEAD: &str = "#include <stdio.h>\n#include <math.h>\n\nint main(void) {\n";
const TAIL: &str = "return 0;\n}";

fn tree(main: &str) -> NodeType {
    let text = format!("<html><head></head><main>{}</main></html>", main);
    start_generating_code_tree(Parser::new(text).parse().unwrap()).unwrap()
}

fn body(main: &str, labels: &[&str]) -> String {
    let labels: Vec<String> = labels.iter().map(|s| s.to_string()).collect();
    let text = CLang::new(tree(main)).compile_with(&labels).unwrap();
    assert!(text.starts_with(HEAD));
    assert!(text.ends_with(TAIL));
    text[HEAD.len()..text.len() - TAIL.len()].to_string()
}

fn call(name: &str, value: Option<ExprToken>) -> CallStruct {
    CallStruct {
        calling_name: name.to_string(),
        args: vec![CallArgStruct { name: "arg".to_string(), value }],
    }
}

fn typed(name: &str, data_type: DataType, is_func: bool) -> ExprToken {
    ExprToken::Variable(VariableType::new(name.to_string(), data_type, is_func))
}

#[test]
fn numbers_are_written_in_base_ten() {
    for n in [0, 7, 10, 42, 1000, 2147483647, -1, -10, -2147483648, i32::MIN + 1] {
        assert_eq!(number_string(n), n.to_string());
    }
}

#[test]
fn expressions_are_written_in_c() {
    let text = |s: &str| process_expr_token(&parse_expression(s).unwrap());
    assert_eq!(text("1+2*3"), "1 + 2 * 3");
    assert_eq!(text("a-b/c"), "a - b / c");
    assert_eq!(text("2^x"), "pow(2, x)");
    assert_eq!(text("2^x^3+1"), "pow(pow(2, x), 3) + 1");
    assert_eq!(text("\"hello\""), "\"hello\"");
    assert_eq!(process_expr_token(&ExprToken::Number(-5)), "-5");
}

#[test]
fn words_of_c_are_recognised() {
    for word in [
        "return", "int", "char", "void", "if", "else", "while", "for", "do", "break", "continue",
        "println", "print",
    ] {
        assert!(is_c_keyword(&word.to_string()));
    }
    for word in ["main", "f", "", "Int", "returns"] {
        assert!(!is_c_keyword(&word.to_string()));
    }
}

#[test]
fn texts_are_joined() {
    let parts: Vec<String> = vec!["a".to_string(), "b".to_string(), "c".to_string()];
    assert_eq!(join(&parts, 0, ", "), "a, b, c");
    assert_eq!(join(&parts, 1, "\n"), "b\nc");
    assert_eq!(join(&parts, 2, ", "), "c");
    assert_eq!(join(&parts, 3, ", "), "");
    assert_eq!(join(&Vec::new(), 0, ", "), "");
}

#[test]
fn a_variable_and_a_print() {
    assert_eq!(
        body("<int name=\"x\">5+5</int><println {x}/>", &[]),
        "int x = 10;\nprintf(\"%d\\n\", x);\n\n"
    );
}

#[test]
fn an_empty_program() {
    let text = CLang::new(tree("")).compile_with(&Vec::new()).unwrap();
    assert_eq!(text, format!("{}{}", HEAD, TAIL));
}

#[test]
fn a_string_variable_is_a_pointer() {
    assert_eq!(
        body("<str name=\"s\">\"hi\"</str><print {s}/>", &[]),
        "char *s = \"hi\";\nprintf(\"%s\", s);\n\n"
    );
}

#[test]
fn a_function_and_its_call() {
    assert_eq!(
        body(
            "<int name=\"add\" a=\"int\" b=\"str\"><return {a+1}/></int><int name=\"y\"><add a={2} b=\"s\"/></int><y><add a={y} b=\"t\"/></y>",
            &[]
        ),
        "int add(int a, char* b) {\nreturn a + 1;\n}\nint y = add(2, \"s\");;\ny = add(y, \"t\");;\n\n"
    );
}

#[test]
fn a_function_named_like_a_word_of_c_is_renamed() {
    assert_eq!(
        body("<void name=\"while\" a=\"int\"><inc {a}/><dec {a}/></void><while a={1}/>", &[]),
        "void while_func(int a) {\na++;\na--;\n}\nwhile_func(1);\n\n"
    );
}

#[test]
fn a_loop_with_its_label() {
    assert_eq!(
        body("<for start=\"0\" end={2+3} i=\"i\"><println {i}/><println \"x\"/></for>", &["AbCdEf1"]),
        "int i = 0;\nloop_AbCdEf1:\nif(i>=5){goto end_AbCdEf1;}\nprintf(\"%d\\n\", i);\nprintf(\"x\\n\");\ni++;\ngoto loop_AbCdEf1;\nend_AbCdEf1:\n\n"
    );
}

#[test]
fn nested_loops_take_their_labels_in_order() {
    let text = body(
        "<for start=\"0\" end=\"2\" i=\"i\"><for start=\"0\" end=\"3\" i=\"j\"></for></for><for start=\"0\" end=\"4\" i=\"k\"></for>",
        &["first", "second", "third"],
    );
    assert!(text.contains("loop_first:\nif(i>=2)"));
    assert!(text.contains("loop_second:\nif(j>=3)"));
    assert!(text.contains("loop_third:\nif(k>=4)"));
}

#[test]
fn a_loop_without_a_label_left_has_the_empty_label() {
    let text = body("<for start=\"0\" end=\"2\" i=\"i\"></for>", &[]);
    assert_eq!(text, "int i = 0;\nloop_:\nif(i>=2){goto end_;}\n\ni++;\ngoto loop_;\nend_:\n\n");
}

#[test]
fn a_div_stands_in_braces() {
    assert_eq!(
        body("<div><int name=\"x\">1</int></div>", &[]),
        "{\nint x = 1;\n}\n\n"
    );
}

#[test]
fn labels_are_drawn_at_random() {
    let mut backend = CLang::new(tree("<for start=\"0\" end=\"2\" i=\"i\"></for>"));
    let text = backend.compile().unwrap();
    let at = text.find("loop_").unwrap() + 5;
    let label = &text[at..at + 7];
    assert!(label.chars().all(|c| c.is_ascii_alphanumeric()));
    assert_eq!(&text[at + 7..at + 8], ":");
    assert_eq!(text.matches(label).count(), 4);
    let labels = vec![label.to_string()];
    assert_eq!(backend.compile_with(&labels).unwrap(), text);
    let mut seen = std::collections::HashSet::new();
    for _ in 0..20 {
        let text = backend.compile().unwrap();
        let at = text.find("loop_").unwrap() + 5;
        seen.insert(text[at..at + 7].to_string());
    }
    assert!(seen.len() > 1);
}

#[test]
fn printing_by_type() {
    assert_eq!(Std::compile_println(&call("println", Some(typed("n", DataType::Int, false)))).unwrap(), "printf(\"%d\\n\", n);");
    assert_eq!(Std::compile_println(&call("println", Some(typed("b", DataType::Bool, false)))).unwrap(), "printf(\"%d\\n\", b);");
    assert_eq!(Std::compile_print(&call("print", Some(typed("s", DataType::Str, false)))).unwrap(), "printf(\"%s\", s);");
    assert_eq!(Std::compile_println(&call("println", Some(typed("f", DataType::Int, true)))).unwrap(), "printf(\"<function at %d>\\n\", f);");
    assert_eq!(Std::compile_println(&call("println", Some(ExprToken::Literal("hi".to_string())))).unwrap(), "printf(\"hi\\n\");");
    assert_eq!(Std::compile_print(&call("print", Some(parse_expression("1+2").unwrap()))).unwrap(), "printf(\"%d\", 1 + 2);");
    assert_eq!(Std::compile_println(&call("println", None)).unwrap(), "printf(\"%d\\n\", true);");
    let none = CallStruct { calling_name: "println".to_string(), args: vec![] };
    assert_eq!(Std::compile_println(&none).unwrap(), "");
}

#[test]
fn a_value_without_a_printable_type_is_an_error() {
    for t in [DataType::Void, DataType::Any] {
        let e = Std::compile_println(&call("println", Some(typed("v", t, false)))).unwrap_err();
        assert_eq!(e.kind, ErrorKind::TypeCheck);
        assert_eq!(e.message, "Value of `v` cannot be printed");
    }
}

#[test]
fn returning() {
    assert_eq!(Std::compile_return(&call("return", Some(typed("n", DataType::Int, false)))), "return n;");
    assert_eq!(Std::compile_return(&call("return", Some(ExprToken::Literal("s".to_string())))), "return \"s\";");
    assert_eq!(Std::compile_return(&call("return", Some(parse_expression("a*2").unwrap()))), "return a * 2;");
    assert_eq!(Std::compile_return(&call("return", None)), "return true;");
}

#[test]
fn stepping() {
    assert_eq!(Std::compile_inc(&call("inc", Some(typed("n", DataType::Int, false)))).unwrap(), "n++;");
    assert_eq!(Std::compile_dec(&call("dec", Some(typed("n", DataType::Int, false)))).unwrap(), "n--;");
    let e = Std::compile_inc(&call("inc", Some(ExprToken::Number(1)))).unwrap_err();
    assert_eq!(e.kind, ErrorKind::TypeCheck);
    assert_eq!(e.message, "Cannot increment non-variable type");
    assert!(Std::compile_dec(&call("dec", None)).is_err());
}

#[test]
fn a_call_with_a_bare_flag_has_no_text() {
    let c = CallStruct {
        calling_name: "f".to_string(),
        args: vec![CallArgStruct { name: "a".to_string(), value: None }],
    };
    let e = CLang::compile_call(&c).unwrap_err();
    assert_eq!(e.kind, ErrorKind::TypeCheck);
    assert_eq!(e.message, "Argument `a` has no value");
}

#[test]
fn c_types() {
    assert_eq!(CLang::convert_types(DataType::Int), "int");
    assert_eq!(CLang::convert_types(DataType::Bool), "int");
    assert_eq!(CLang::convert_types(DataType::Str), "char");
    assert_eq!(CLang::convert_types(DataType::Void), "void");
    assert_eq!(CLang::convert_types(DataType::Any), "int");
}

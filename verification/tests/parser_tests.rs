use html8::errors::{ErrorKind, ParserError};
use html8::parser::types::{ASTBody, ASTNode, ASTProp, PropType};
use html8::parser::writer::write_node;
use html8::parser::Parser;

fn parse(text: &str) -> Result<ASTNode, ParserError> {
    Parser::new(text.to_string()).parse()
}

fn tag(name: &str, props: Vec<ASTProp>, children: Vec<ASTBody>, self_closing: bool) -> ASTNode {
    ASTNode { name: name.to_string(), children, props, self_closing }
}

fn literal(name: &str, value: &str) -> ASTProp {
    ASTProp { name: name.to_string(), value: Some(PropType::Literal(value.to_string())) }
}

fn var(name: &str, value: &str) -> ASTProp {
    ASTProp { name: name.to_string(), value: Some(PropType::Var(value.to_string())) }
}

fn flag(name: &str) -> ASTProp {
    ASTProp { name: name.to_string(), value: None }
}

#[test]
fn parses_an_empty_tag() {
    assert_eq!(parse("<a></a>"), Ok(tag("a", vec![], vec![], false)));
}

#[test]
fn parses_a_self_closing_tag() {
    assert_eq!(parse("<br/>"), Ok(tag("br", vec![], vec![], true)));
    assert_eq!(parse("<br />"), Ok(tag("br", vec![], vec![], true)));
}

#[test]
fn parses_text_and_trims_it() {
    assert_eq!(
        parse("<p>  hello world \n</p>"),
        Ok(tag("p", vec![], vec![ASTBody::String("hello world".to_string())], false))
    );
}

#[test]
fn white_space_alone_is_no_child() {
    assert_eq!(parse("<p>  \n </p>"), Ok(tag("p", vec![], vec![], false)));
}

#[test]
fn parses_attributes_of_all_three_kinds_in_order() {
    assert_eq!(
        parse("<int name=\"x\" const value={a + 1}></int>"),
        Ok(tag(
            "int",
            vec![literal("name", "x"), flag("const"), var("value", "a + 1")],
            vec![],
            false
        ))
    );
}

#[test]
fn a_value_without_a_name_is_called_arg() {
    assert_eq!(
        parse("<println {x}/>"),
        Ok(tag("println", vec![var("arg", "x")], vec![], true))
    );
    assert_eq!(
        parse("<println \"hello world\"/>"),
        Ok(tag("println", vec![literal("arg", "hello world")], vec![], true))
    );
}

#[test]
fn parses_nested_tags_in_order() {
    let expected = tag(
        "html",
        vec![],
        vec![
            ASTBody::Tag(Box::new(tag("head", vec![], vec![], false))),
            ASTBody::Tag(Box::new(tag(
                "main",
                vec![],
                vec![
                    ASTBody::Tag(Box::new(tag(
                        "int",
                        vec![literal("name", "x")],
                        vec![ASTBody::String("5+5".to_string())],
                        false,
                    ))),
                    ASTBody::Tag(Box::new(tag("println", vec![var("arg", "x")], vec![], true))),
                ],
                false,
            ))),
        ],
        false,
    );
    let text = "<html>\n<head></head>\n<main>\n  <int name=\"x\">5+5</int>\n  <println {x}/>\n</main>\n</html>";
    assert_eq!(parse(text), Ok(expected));
}

#[test]
fn keeps_text_and_tags_in_their_order() {
    assert_eq!(
        parse("<a>one<b/>two<c></c>three</a>"),
        Ok(tag(
            "a",
            vec![],
            vec![
                ASTBody::String("one".to_string()),
                ASTBody::Tag(Box::new(tag("b", vec![], vec![], true))),
                ASTBody::String("two".to_string()),
                ASTBody::Tag(Box::new(tag("c", vec![], vec![], false))),
                ASTBody::String("three".to_string()),
            ],
            false
        ))
    );
}

#[test]
fn serializing_and_parsing_again_gives_the_same_tree() {
    let text = "<html><head><int name=\"k\" const>7</int></head><main><for start=\"0\" end={k} i=\"i\"><println arg={i}/></for><x>k</x></main></html>";
    let tree = parse(text).unwrap();
    let written = write_node(&tree);
    assert_eq!(written, text);
    assert_eq!(parse(&written), Ok(tree));
}

#[test]
fn skips_comments() {
    assert_eq!(
        parse("<!-- a <b> comment --><a><!-- inside -->text<!----></a>"),
        Ok(tag("a", vec![], vec![ASTBody::String("text".to_string())], false))
    );
}

#[test]
fn reads_only_the_first_tag() {
    assert_eq!(parse("<a></a><b></b>"), Ok(tag("a", vec![], vec![], false)));
}

#[test]
fn a_slash_in_text_is_dropped() {
    assert_eq!(
        parse("<a>1/2</a>"),
        Ok(tag("a", vec![], vec![ASTBody::String("12".to_string())], false))
    );
}

#[test]
fn a_slash_in_a_value_is_kept() {
    assert_eq!(parse("<f {6/3}/>"), Ok(tag("f", vec![var("arg", "6/3")], vec![], true)));
}

#[test]
fn a_mismatched_closing_tag_is_an_error() {
    let e = parse("<a></b>").unwrap_err();
    assert_eq!(e.message, "Unexpected closing tag: </b>. Expected </a>");
    assert_eq!(e.pos, 6);
}

#[test]
fn a_text_that_ends_early_is_an_error() {
    for text in ["", "<", "<a", "<a>", "<a>text", "<a></a", "<a b=\"c", "<a><!-- never closed"] {
        let e = parse(text).unwrap_err();
        assert_eq!(e.message, "Unexpected EOF");
        assert_eq!(e.pos, text.chars().count());
    }
}

#[test]
fn text_before_the_first_tag_is_an_error() {
    let e = parse("x<a></a>").unwrap_err();
    assert_eq!(e.message, "Unexpected literal");
    assert_eq!(e.pos, 0);
}

#[test]
fn a_tag_that_opens_inside_a_tag_is_an_error() {
    let e = parse("<a <b>").unwrap_err();
    assert_eq!(e.message, "Unexpected `<` tag");
    assert_eq!(e.pos, 3);
}

#[test]
fn a_closing_bracket_before_any_tag_is_an_error() {
    let e = parse(">").unwrap_err();
    assert_eq!(e.message, "Unexpected `>` tag");
    assert_eq!(e.pos, 0);
}

#[test]
fn errors_inside_attributes() {
    assert_eq!(parse("<a =\"x\">").unwrap_err().message, "Unexpected `=`");
    assert_eq!(parse("<a b==\"x\">").unwrap_err().message, "Unexpected `=`");
    assert_eq!(parse("<a b\"x\">").unwrap_err().message, "Unexpected `\"`");
    assert_eq!(parse("<a b{x}>").unwrap_err().message, "Unexpected `{`");
    assert_eq!(parse("<a b=\"{\">").unwrap_err().message, "Unexpected `{`");
    assert_eq!(parse("<a }>").unwrap_err().message, "Unexpected `}`");
    assert_eq!(parse("<a b=\"}\">").unwrap_err().message, "Unexpected `}`");
    assert_eq!(parse("<a b=>").unwrap_err().message, "Unexpected `>`");
    assert_eq!(parse("<a b=c>").unwrap_err().message, "Unexpected literal");
}

#[test]
fn an_attribute_error_is_at_the_offending_character() {
    let e = parse("<a b=c>").unwrap_err();
    assert_eq!(e.pos, 5);
}

#[test]
fn a_parser_error_becomes_a_parsing_error() {
    let e = parse("<a></b>").unwrap_err().to_simple();
    assert_eq!(e.kind, ErrorKind::Parsing);
    assert_eq!(e.message, "Unexpected closing tag: </b>. Expected </a>");
    assert_eq!(e.describe(), "Parsing error: Unexpected closing tag: </b>. Expected </a>");
}

#[test]
fn an_error_is_placed_by_line_and_column() {
    let text = "<a>\n  <b>\n</c>";
    let e = parse(text).unwrap_err();
    assert_eq!(e.message, "Unexpected closing tag: </c>. Expected </b>");
    assert_eq!(e.pos, 13);
    assert_eq!(e.position(text), (2, 3));
    assert_eq!(ParserError::new("m", 0).position(text), (0, 0));
    assert_eq!(ParserError::new("m", 4).position(text), (1, 0));
    assert_eq!(ParserError::new("m", 3).position(text), (0, 3));
    assert_eq!(ParserError::new("m", 100).position(text), (2, 4));
    assert_eq!(ParserError::new("m", 5).position(""), (0, 0));
}

#[test]
fn a_tree_is_written_in_its_order() {
    let tree = tag(
        "a",
        vec![flag("f"), literal("l", "x y"), var("v", "1 + \"s\"")],
        vec![
            ASTBody::String("one".to_string()),
            ASTBody::Tag(Box::new(tag("b", vec![], vec![], true))),
            ASTBody::Tag(Box::new(tag("c", vec![], vec![ASTBody::String("two".to_string())], false))),
        ],
        false,
    );
    let text = write_node(&tree);
    assert_eq!(text, "<a f l=\"x y\" v={1 + \"s\"}>one<b/><c>two</c></a>");
    assert_eq!(parse(&text), Ok(tree));
}

#[test]
fn what_parses_is_written_and_parsed_to_the_same_tree() {
    let text = "<!-- top -->\n<html >\n  <head></head>\n  <main>\n    text <b  x=\"1\"   /> more\n  </main>\n</html>";
    let tree = parse(text).unwrap();
    assert_eq!(parse(&write_node(&tree)), Ok(tree));
}

#[test]
fn the_line_of_an_error() {
    let text = "<a>\n  <b>\n</c>\n";
    assert_eq!(ParserError::new("m", 0).line_text(text), "<a>");
    assert_eq!(ParserError::new("m", 3).line_text(text), "<a>");
    assert_eq!(ParserError::new("m", 4).line_text(text), "  <b>");
    assert_eq!(ParserError::new("m", 13).line_text(text), "</c>");
    assert_eq!(ParserError::new("m", 15).line_text(text), "");
    assert_eq!(ParserError::new("m", 99).line_text(text), "");
    assert_eq!(ParserError::new("m", 99).line_text("one line"), "one line");
    assert_eq!(ParserError::new("m", 0).line_text(""), "");
}

#[test]
fn pointing_at_a_column() {
    assert_eq!(ParserError::compile_right("wrong", 3), "   ┬\n   └─ wrong");
    assert_eq!(ParserError::compile_right("wrong", 0), "┬\n└─ wrong");
    assert_eq!(ParserError::compile_left("wrong", 5, 9), "         ┬\n  wrong ─┘");
    assert_eq!(ParserError::compile_left("wrong", 5, 7), "       ┬\nwrong ─┘");
    assert_eq!(ParserError::compile_pointer("wrong", 5, 7), "       ┬\nwrong ─┘");
    assert_eq!(ParserError::compile_pointer("wrong", 5, 6), "      ┬\n      └─ wrong");
    assert_eq!(ParserError::compile_pointer("wrong", 5, 0), "┬\n└─ wrong");
}

use wave::parser::add_class;
use wave::parser::comment;
use wave::parser::desc;
use wave::parser::elem;
use wave::parser::heading;
use wave::parser::parse_html;
use wave::parser::parse_html_with_limit;
use wave::parser::parse_nodes;
use wave::parser::parse_nodes_with_limit;
use wave::parser::text;
use wave::parser::AttrMap;
use wave::parser::BuildError;
use wave::parser::Children;
use wave::parser::Node;
use wave::parser::ParseError;
use wave::parser::ParseTree;

fn body(inner: Node) -> Node {
    elem("body".to_string(), AttrMap::new(), Children::Node(Box::new(inner)))
}

#[test]
fn test_parse_html() {
    let input = r#"
            <div class="root">
                <h1>Hello, world!</h1>
                <!-- Container with items -->
                <div class="container">
                    <div class="item item1">
                        <h2>Foo</h2>
                        <!-- This is a
                        multi-line comment. -->
                        <desc>
                            This is very nice item.
                        </desc>
                        <p>It costs 100$</p>
                    </div>
                    <div class="item item2">
                        <h2>Bar</h2>
                        <desc>
                            This is small item
                        </desc>
                        <p>It costs 20$</p>
                    </div>
                </div>
            </div>
        "#;
    let expected_result = body(elem(
        "div".to_string(),
        {
            let mut attrs = AttrMap::new();
            attrs.insert("class".to_string(), "root".to_string());
            attrs
        },
        Children::Nodes(vec![
            heading(1, "Hello, world!".to_string()),
            comment("Container with items".to_string()),
            elem(
                "div".to_string(),
                {
                    let mut attrs = AttrMap::new();
                    attrs.insert("class".to_string(), "container".to_string());
                    attrs
                },
                Children::Nodes(vec![
                    elem(
                        "div".to_string(),
                        {
                            let mut attrs = AttrMap::new();
                            attrs.insert("class".to_string(), "item item1".to_string());
                            attrs
                        },
                        Children::Nodes(vec![
                            heading(2, "Foo".to_string()),
                            comment("This is a\nmulti-line comment.".to_string()),
                            desc("This is very nice item.".to_string()),
                            text("It costs 100$".to_string()),
                        ]),
                    ),
                    elem(
                        "div".to_string(),
                        {
                            let mut attrs = AttrMap::new();
                            attrs.insert("class".to_string(), "item item2".to_string());
                            attrs
                        },
                        Children::Nodes(vec![
                            heading(2, "Bar".to_string()),
                            desc("This is small item".to_string()),
                            text("It costs 20$".to_string()),
                        ]),
                    ),
                ]),
            ),
        ]),
    ));

    let dom = parse_html(input).unwrap();
    let result = parse_nodes(dom).unwrap();

    assert_eq!(&result, &expected_result);
}

#[test]
fn test_mismatched_closing_tag() {
    let err = parse_html("<div><p>x</div>").unwrap_err();
    assert_eq!(
        err,
        ParseError::MismatchedClosingTag {
            opening_name: "p".to_string(),
            closing_name: "div".to_string(),
            position: 9,
        }
    );
}

#[test]
fn test_element_mismatched_closing_tag() {
    let err = parse_html("<div><span>x</p></div>").unwrap_err();
    match err {
        ParseError::MismatchedClosingTag { opening_name, closing_name, .. } => {
            assert_eq!(opening_name, "span");
            assert_eq!(closing_name, "p");
        }
        other => panic!("expected a mismatched closing tag, got {:?}", other),
    }
}

#[test]
fn test_heading_level_too_high() {
    let dom = parse_html("<h7>x</h7>").unwrap();
    let err = parse_nodes(dom).unwrap_err();
    assert_eq!(err, BuildError::InvalidHeadingLevel { level: 7 });
}

#[test]
fn test_heading_level_zero() {
    let dom = parse_html("<h0>x</h0>").unwrap();
    let err = parse_nodes(dom).unwrap_err();
    assert_eq!(err, BuildError::InvalidHeadingLevel { level: 0 });
}

#[test]
fn test_heading_levels_in_range() {
    for level in 1u8..=6u8 {
        let input = format!("<h{}>x</h{}>", level, level);
        let dom = parse_html(&input).unwrap();
        let result = parse_nodes(dom).unwrap();
        assert_eq!(result, body(heading(level, "x".to_string())));
    }
}

#[test]
fn test_multi_line_comment_fidelity() {
    let dom = parse_html("<!-- a\nb -->").unwrap();
    let result = parse_nodes(dom).unwrap();
    assert_eq!(result, body(comment("a\nb".to_string())));
}

#[test]
fn test_class_attribute_accumulates() {
    let mut attrs = AttrMap::new();
    add_class(&mut attrs, "item");
    add_class(&mut attrs, "item1");
    assert_eq!(attrs.get("class").cloned(), Some("item item1".to_string()));
    assert_eq!(attrs.len(), 1);
}

#[test]
fn test_other_attribute_overwrites() {
    let mut attrs = AttrMap::new();
    attrs.insert("id".to_string(), "first".to_string());
    attrs.insert("id".to_string(), "second".to_string());
    assert_eq!(attrs.get("id").cloned(), Some("second".to_string()));
    assert_eq!(attrs.len(), 1);
    assert_eq!(attrs.get("missing").cloned(), None);
}

#[test]
fn test_end_to_end_scenario() {
    let input = r#"<div class="root"><h1>Hi</h1><!-- note --><p>Cost 1$</p></div>"#;
    let dom = parse_html(input).unwrap();
    let result = parse_nodes(dom).unwrap();
    let expected = body(elem(
        "div".to_string(),
        {
            let mut attrs = AttrMap::new();
            attrs.insert("class".to_string(), "root".to_string());
            attrs
        },
        Children::Nodes(vec![
            heading(1, "Hi".to_string()),
            comment("note".to_string()),
            text("Cost 1$".to_string()),
        ]),
    ));
    assert_eq!(result, expected);
}

#[test]
fn test_determinism() {
    let input = r#"<div class="a"><p> x </p><!-- c --></div>"#;
    let first = parse_nodes(parse_html(input).unwrap());
    let second = parse_nodes(parse_html(input).unwrap());
    assert_eq!(first, second);
}

#[test]
fn test_text_is_trimmed() {
    let dom = parse_html("<div><p>  spaced  out  </p></div>").unwrap();
    let result = parse_nodes(dom).unwrap();
    let expected = body(elem(
        "div".to_string(),
        AttrMap::new(),
        Children::Nodes(vec![text("spaced  out".to_string())]),
    ));
    assert_eq!(result, expected);
}

#[test]
fn test_bare_text_run_inside_element() {
    let dom = parse_html("<div> hello there </div>").unwrap();
    let result = parse_nodes(dom).unwrap();
    let expected = body(elem(
        "div".to_string(),
        AttrMap::new(),
        Children::Nodes(vec![text("hello there".to_string())]),
    ));
    assert_eq!(result, expected);
}

#[test]
fn test_depth_limit_exceeded() {
    let mut input = String::new();
    for _ in 0..65 {
        input.push_str("<div>");
    }
    for _ in 0..65 {
        input.push_str("</div>");
    }
    let err = parse_html(&input).unwrap_err();
    assert_eq!(err, ParseError::NestingTooDeep { limit: 64 });
}

#[test]
fn test_depth_limit_within() {
    let mut input = String::new();
    for _ in 0..64 {
        input.push_str("<div>");
    }
    for _ in 0..64 {
        input.push_str("</div>");
    }
    assert!(parse_html(&input).is_ok());
}

#[test]
fn test_depth_limit_configurable() {
    assert!(parse_html_with_limit("<div><div>x</div></div>", 2).is_ok());
    assert_eq!(
        parse_html_with_limit("<div><div><div>x</div></div></div>", 2).unwrap_err(),
        ParseError::NestingTooDeep { limit: 2 }
    );
}

#[test]
fn test_syntax_error_empty_input() {
    match parse_html("").unwrap_err() {
        ParseError::SyntaxError { position, .. } => assert_eq!(position, 0),
        other => panic!("expected a syntax error, got {:?}", other),
    }
}

#[test]
fn test_syntax_error_unterminated_element() {
    match parse_html("<div>").unwrap_err() {
        ParseError::SyntaxError { position, .. } => assert_eq!(position, 5),
        other => panic!("expected a syntax error, got {:?}", other),
    }
}

#[test]
fn test_syntax_error_unterminated_comment() {
    assert!(matches!(
        parse_html("<div><!-- never closed </div>").unwrap_err(),
        ParseError::SyntaxError { .. }
    ));
}

#[test]
fn test_internal_inconsistency_on_nested_document() {
    let tree = ParseTree::Document(Box::new(ParseTree::Document(Box::new(ParseTree::Text {
        text: "x".to_string(),
    }))));
    assert_eq!(parse_nodes(tree).unwrap_err(), BuildError::InternalInconsistency);
}

#[test]
fn test_builder_depth_limit() {
    let inner = ParseTree::Element {
        tag_name: "div".to_string(),
        attr: None,
        children: vec![],
    };
    let outer = ParseTree::Element {
        tag_name: "div".to_string(),
        attr: None,
        children: vec![inner],
    };
    assert_eq!(
        parse_nodes_with_limit(ParseTree::Document(Box::new(outer)), 1).unwrap_err(),
        BuildError::NestingTooDeep { limit: 1 }
    );
}

#[test]
fn test_description_trimmed() {
    let dom = parse_html("<desc>  keep  inner  spacing  </desc>").unwrap();
    let result = parse_nodes(dom).unwrap();
    assert_eq!(result, body(desc("keep  inner  spacing".to_string())));
}

#[test]
fn test_attribute_value_captured_exactly() {
    let dom = parse_html(r#"<div id="a b  c"></div>"#).unwrap();
    let result = parse_nodes(dom).unwrap();
    let expected = body(elem(
        "div".to_string(),
        {
            let mut attrs = AttrMap::new();
            attrs.insert("id".to_string(), "a b  c".to_string());
            attrs
        },
        Children::Nodes(vec![]),
    ));
    assert_eq!(result, expected);
}

#[test]
fn test_bare_text_document() {
    let dom = parse_html("hello world").unwrap();
    let result = parse_nodes(dom).unwrap();
    assert_eq!(result, body(text("hello world".to_string())));
}

#[test]
fn test_empty_element_document() {
    let dom = parse_html("<br></br>").unwrap();
    let result = parse_nodes(dom).unwrap();
    assert_eq!(
        result,
        body(elem("br".to_string(), AttrMap::new(), Children::Nodes(vec![])))
    );
}

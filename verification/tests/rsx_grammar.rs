use proc_macro2::{TokenStream, TokenTree};
use renderx::parser::ast::attribute::Attribute;
use renderx::parser::ast::value::Value;
use renderx::parser::rsx::ast::Node;
use renderx::parser::rsx::error::Error;
use renderx::parser::rsx::grammar::{is_component_name, parse};
use renderx::token::{Delimiter, Spacing, Token};

fn convert(stream: TokenStream) -> Vec<Token> {
    stream
        .into_iter()
        .map(|tree| match tree {
            TokenTree::Ident(ident) => Token::Ident(ident.to_string()),
            TokenTree::Punct(punct) => Token::Punct(
                punct.as_char(),
                match punct.spacing() {
                    proc_macro2::Spacing::Joint => Spacing::Joint,
                    proc_macro2::Spacing::Alone => Spacing::Alone,
                },
            ),
            TokenTree::Literal(literal) => Token::Literal(literal.to_string()),
            TokenTree::Group(group) => Token::Group(
                match group.delimiter() {
                    proc_macro2::Delimiter::Parenthesis => Delimiter::Parenthesis,
                    proc_macro2::Delimiter::Brace => Delimiter::Brace,
                    proc_macro2::Delimiter::Bracket => Delimiter::Bracket,
                    proc_macro2::Delimiter::None => Delimiter::Invisible,
                },
                convert(group.stream()),
                group.to_string(),
            ),
        })
        .collect()
}

fn tokens(source: &str) -> Vec<Token> {
    convert(source.parse::<TokenStream>().unwrap())
}


fn assert_eq_nodes(source: &str, expected: Node) {
    let node = parse(tokens(source)).unwrap();
    assert_eq!(format!("{:?}", node), format!("{:?}", expected));
}

fn text(s: &str) -> Value {
    Value::Text(s.to_string())
}

fn string(s: &str) -> String {
    s.to_string()
}

#[test]
fn grammar_it_should_render_doctype_html() {
    assert_eq_nodes(
        "<!doctype html>",
        Node::Doctype {
            name: text("doctype"),
            attributes: Some(vec![Attribute { key: text("html"), value: None }]),
        },
    );
}

#[test]
fn grammar_it_should_preserve_capitalisation() {
    assert_eq_nodes(
        "<!DoCtYpE html>",
        Node::Doctype {
            name: text("DoCtYpE"),
            attributes: Some(vec![Attribute { key: text("html"), value: None }]),
        },
    );
}

#[test]
fn grammar_it_should_support_empty_comments() {
    assert_eq_nodes("<!-- -->", Node::Comment { children: None });
}

#[test]
fn grammar_it_should_support_simple_comments() {
    assert_eq_nodes(
        "<!-- this is a comment -->",
        Node::Comment { children: Some(vec![Node::Text(string("this is a comment"))]) },
    );
}

#[test]
fn grammar_it_should_parse_tags_like_they_are_text() {
    assert_eq_nodes(
        "<!-- this is a <div> </hr> comment -->",
        Node::Comment {
            children: Some(vec![Node::Text(string("this is a <div> </ hr> comment"))]),
        },
    );
}

#[test]
fn grammar_it_should_support_code() {
    assert_eq_nodes(
        r#"<!--
            this is a <div> </hr> comment
            {"this is some code"}
            "this is another string"
        -->"#,
        Node::Comment {
            children: Some(vec![
                Node::Text(string("this is a <div> </ hr> comment")),
                Node::Code(tokens(r#""this is some code""#)),
                Node::Text(string("this is another string")),
            ]),
        },
    );
}

#[test]
fn grammar_it_should_support_root_literals() {
    assert_eq_nodes("blah blah blah", Node::Text(string("blah blah blah")));
}

#[test]
fn grammar_it_should_capture_self_closing_blank_nodes() {
    assert_eq_nodes("</>", Node::Empty);
}

#[test]
fn grammar_it_should_capture_blank_nodes() {
    assert_eq_nodes("<></>", Node::Empty);
}

#[test]
fn grammar_it_should_render_the_contents_of_fragments() {
    assert_eq_nodes(
        "<>
            <h1>This is a heading</h1>
            This is some text
            <hr />
        </>",
        Node::Fragment {
            children: vec![
                Node::Open {
                    name: text("h1"),
                    attributes: None,
                    children: Some(vec![Node::Text(string("This is a heading"))]),
                },
                Node::Text(string("This is some text")),
                Node::SelfClosing { name: text("hr"), attributes: None },
            ],
        },
    );
}

#[test]
fn grammar_it_should_return_node_for_self_closing_tag() {
    assert_eq_nodes("<div/>", Node::SelfClosing { name: text("div"), attributes: None });
}

#[test]
fn grammar_it_should_return_node_for_an_empty_tag() {
    assert_eq_nodes(
        "<h1></h1>",
        Node::Open { name: text("h1"), attributes: None, children: None },
    );
}

#[test]
fn grammar_it_should_return_an_error_on_mismatched_closing_node() {
    let error = parse(tokens("<div></p>")).err().unwrap();
    assert_eq!(error, Error::MismatchedClosingTagName);
}

#[test]
fn grammar_it_should_parse_lone_attributes() {
    assert_eq_nodes(
        "<button is_disabled></button>",
        Node::Open {
            name: text("button"),
            attributes: Some(vec![Attribute { key: text("is_disabled"), value: None }]),
            children: None,
        },
    );
}

#[test]
fn it_should_not_support_hyphens_before_attribute_keys() {
    let received = parse(tokens(r#"<button --data-name="MrButton">Click me</button>"#));
    assert_eq!(received.err().unwrap(), Error::UnexpectedToken);
}

#[test]
fn grammar_it_should_parse_lone_attributes_on_self_closing_tags() {
    assert_eq_nodes(
        "<button is_disabled />",
        Node::SelfClosing {
            name: text("button"),
            attributes: Some(vec![Attribute { key: text("is_disabled"), value: None }]),
        },
    );
}

#[test]
fn grammar_it_should_parse_key_value_attributes() {
    assert_eq_nodes(
        r#"<button type="input"></button>"#,
        Node::Open {
            name: text("button"),
            attributes: Some(vec![Attribute { key: text("type"), value: Some(text("input")) }]),
            children: None,
        },
    );
}

#[test]
fn grammar_it_should_parse_key_value_attributes_on_self_closing_tags() {
    assert_eq_nodes(
        r#"<button type="input" />"#,
        Node::SelfClosing {
            name: text("button"),
            attributes: Some(vec![Attribute { key: text("type"), value: Some(text("input")) }]),
        },
    );
}

#[test]
fn grammar_it_should_parse_key_value_code_attributes() {
    assert_eq_nodes(
        r#"<button type={base_class.child("el")} />"#,
        Node::SelfClosing {
            name: text("button"),
            attributes: Some(vec![Attribute {
                key: text("type"),
                value: Some(Value::Code(tokens(r#"base_class.child("el")"#))),
            }]),
        },
    );
}

#[test]
fn grammar_it_should_parse_child_nodes() {
    assert_eq_nodes(
        "<div>
            <h1/>
        </div>",
        Node::Open {
            name: text("div"),
            attributes: None,
            children: Some(vec![Node::SelfClosing { name: text("h1"), attributes: None }]),
        },
    );
}

#[test]
fn grammar_it_should_parse_multiple_child_nodes() {
    assert_eq_nodes(
        "<div>
            <h1></h1>
            <span>
                <div></div>
            </span>
            <article />
        </div>",
        Node::Open {
            name: text("div"),
            attributes: None,
            children: Some(vec![
                Node::Open { name: text("h1"), attributes: None, children: None },
                Node::Open {
                    name: text("span"),
                    attributes: None,
                    children: Some(vec![Node::Open {
                        name: text("div"),
                        attributes: None,
                        children: None,
                    }]),
                },
                Node::SelfClosing { name: text("article"), attributes: None },
            ]),
        },
    );
}

#[test]
fn grammar_it_should_parse_code_in_a_node() {
    let code = r#"
        if foo {
            &"blah"
        } else {
            &"foobar"
        }
    "#;
    assert_eq_nodes(
        &format!("<div>{{{}}}</div>", code),
        Node::Open {
            name: text("div"),
            attributes: None,
            children: Some(vec![Node::Code(tokens(code))]),
        },
    );
}

#[test]
fn grammar_it_should_parse_text_in_a_node() {
    assert_eq_nodes(
        "<h1>
            Upgrade today!
        </h1>",
        Node::Open {
            name: text("h1"),
            attributes: None,
            children: Some(vec![Node::Text(string("Upgrade today!"))]),
        },
    );
}

#[test]
fn grammar_it_should_parse_text_and_bracket_in_a_node() {
    assert_eq_nodes(
        "<h1>
            (Upgrade today!)
        </h1>",
        Node::Open {
            name: text("h1"),
            attributes: None,
            children: Some(vec![Node::Text(string("(Upgrade today!)"))]),
        },
    );
}

#[test]
fn grammar_it_should_parse_text_and_bracket_in_a_node_complex_example() {
    assert_eq_nodes(
        "<h1>
            You should (Upgrade (to something new) today! + = 5 (maybe)) if you want to
        </h1>",
        Node::Open {
            name: text("h1"),
            attributes: None,
            children: Some(vec![Node::Text(string(
                "You should (Upgrade (to something new) today! + = 5 (maybe)) if you want to",
            ))]),
        },
    );
}

#[test]
fn grammar_it_should_parse_text_with_quotes_in_a_node() {
    assert_eq_nodes(
        r#"<h1>
            "Upgrade today!"
        </h1>"#,
        Node::Open {
            name: text("h1"),
            attributes: None,
            children: Some(vec![Node::Text(string("Upgrade today!"))]),
        },
    );
}

#[test]
fn grammar_it_should_return_fragment_if_content_after_html_in_root() {
    assert_eq_nodes(
        r#"<h1>
            "Upgrade today!"
        </h1>
        blah blah"#,
        Node::Fragment {
            children: vec![
                Node::Open {
                    name: text("h1"),
                    attributes: None,
                    children: Some(vec![Node::Text(string("Upgrade today!"))]),
                },
                Node::Text(string("blah blah")),
            ],
        },
    );
}

#[test]
fn grammar_it_should_return_fragment_if_html_after_content_in_root() {
    assert_eq_nodes(
        r#"blah blah
        <h1>
            "Upgrade today!"
        </h1>"#,
        Node::Fragment {
            children: vec![
                Node::Text(string("blah blah")),
                Node::Open {
                    name: text("h1"),
                    attributes: None,
                    children: Some(vec![Node::Text(string("Upgrade today!"))]),
                },
            ],
        },
    );
}

#[test]
fn names_may_hold_namespaces_and_hyphens() {
    assert_eq_nodes(
        "<namespace:blah></namespace:blah>",
        Node::Open { name: text("namespace:blah"), attributes: None, children: None },
    );
    assert_eq_nodes(
        "<mr-map data-name=\"x\"></mr-map>",
        Node::Open {
            name: text("mr-map"),
            attributes: Some(vec![Attribute { key: text("data-name"), value: Some(text("x")) }]),
            children: None,
        },
    );
}

#[test]
fn code_names_close_with_the_same_code_or_empty_braces() {
    assert_eq_nodes(
        "<{el}></{el}>",
        Node::Open { name: Value::Code(tokens("el")), attributes: None, children: None },
    );
    assert_eq_nodes(
        "<{el}></{}>",
        Node::Open { name: Value::Code(tokens("el")), attributes: None, children: None },
    );
    assert_eq!(
        parse(tokens("<{el}></{other}>")).err().unwrap(),
        Error::MismatchedClosingTagCode
    );
    assert_eq!(parse(tokens("<{el}></el>")).err().unwrap(), Error::MismatchedClosingTagName);
}

#[test]
fn capitalised_names_are_components() {
    assert_eq_nodes(
        r#"<HorizontalRule class="x" />"#,
        Node::SelfClosingComponent {
            name: string("HorizontalRule"),
            attributes: Some(vec![Attribute { key: text("class"), value: Some(text("x")) }]),
        },
    );
    assert_eq_nodes(
        "<Button>Click</Button>",
        Node::OpenComponent {
            name: string("Button"),
            attributes: None,
            children: Some(vec![Node::Text(string("Click"))]),
        },
    );
    assert!(is_component_name(&text("My_Button2")));
    assert!(!is_component_name(&text("button")));
    assert!(!is_component_name(&text("Mr-Map")));
    assert!(!is_component_name(&Value::Code(tokens("El"))));
}

#[test]
fn code_keys_and_text_literal_keys_are_read() {
    assert_eq_nodes(
        r#"<button {attr} "data-name"="MrButton"></button>"#,
        Node::Open {
            name: text("button"),
            attributes: Some(vec![
                Attribute { key: Value::Code(tokens("attr")), value: None },
                Attribute { key: text("data-name"), value: Some(text("MrButton")) },
            ]),
            children: None,
        },
    );
}

#[test]
fn rsx_markup_must_not_be_empty() {
    assert_eq!(parse(Vec::new()).err().unwrap(), Error::EmptyMacroStreamGiven);
}

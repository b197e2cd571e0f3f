use proc_macro2::{TokenStream, TokenTree};
use renderx::basic::ast;
use renderx::basic::ast_error::ASTError;
use renderx::basic::dom;
use renderx::basic::grammar::{parse, Attribute, Grammar, Literal, Node, Tag};
use renderx::basic::output::build;
use renderx::basic::render::html;
use renderx::token::{Delimiter, Emitted, Spacing, Token};

fn convert(stream: TokenStream) -> Vec<Token> {
    stream
        .into_iter()
        .map(|tree| match tree {
            TokenTree::Ident(ident) => Token::Ident(ident.to_string()),
            TokenTree::Punct(punct) => Token::Punct(
                punct.as_char(),
                match punct.spacing() {
                    proc_macro2::Spacing::Joint => Spacing::Joint,
                    proc_macro2::Spacing::Alone => Spacing::Alone,
                },
            ),
            TokenTree::Literal(literal) => Token::Literal(literal.to_string()),
            TokenTree::Group(group) => Token::Group(
                match group.delimiter() {
                    proc_macro2::Delimiter::Parenthesis => Delimiter::Parenthesis,
                    proc_macro2::Delimiter::Brace => Delimiter::Brace,
                    proc_macro2::Delimiter::Bracket => Delimiter::Bracket,
                    proc_macro2::Delimiter::None => Delimiter::Invisible,
                },
                convert(group.stream()),
                group.to_string(),
            ),
        })
        .collect()
}

fn tokens(source: &str) -> Vec<Token> {
    convert(source.parse::<TokenStream>().unwrap())
}

fn emitted_shape(code: &[Emitted]) -> String {
    code.iter()
        .map(|e| match e {
            Emitted::Ident(s) => s.clone(),
            Emitted::Punct(c, _) => c.to_string(),
            Emitted::Literal(s) => s.clone(),
            Emitted::Str(s) => proc_macro2::Literal::string(s).to_string(),
            Emitted::Group(d, inner) => {
                let (open, close) = delimiters(*d);
                format!("{} {} {}", open, emitted_shape(inner), close)
            }
            Emitted::Source(s) => stream_shape(s.parse::<TokenStream>().unwrap()),
        })
        .filter(|s| !s.is_empty())
        .collect::<Vec<_>>()
        .join(" ")
}

fn delimiters(d: Delimiter) -> (&'static str, &'static str) {
    match d {
        Delimiter::Parenthesis => ("(", ")"),
        Delimiter::Brace => ("{", "}"),
        Delimiter::Bracket => ("[", "]"),
        Delimiter::Invisible => ("", ""),
    }
}

fn stream_shape(stream: TokenStream) -> String {
    stream
        .into_iter()
        .map(|tree| match tree {
            TokenTree::Group(group) => {
                let (open, close) = match group.delimiter() {
                    proc_macro2::Delimiter::Parenthesis => ("(", ")"),
                    proc_macro2::Delimiter::Brace => ("{", "}"),
                    proc_macro2::Delimiter::Bracket => ("[", "]"),
                    proc_macro2::Delimiter::None => ("", ""),
                };
                format!("{} {} {}", open, stream_shape(group.stream()), close)
            }
            other => other.to_string(),
        })
        .collect::<Vec<_>>()
        .join(" ")
}

fn tag(name: &str, is_self_closing: bool, attributes: Option<Vec<Attribute>>, children: Option<Vec<Node>>) -> Node {
    Node::Tag(Tag { tag: name.to_string(), is_self_closing, attributes, children })
}

fn assert_eq_nodes(source: &str, expected: Node) {
    let node = parse(tokens(source)).unwrap().unwrap();
    assert_eq!(format!("{:?}", node), format!("{:?}", expected));
}

fn text(s: &str) -> Literal {
    Literal::Text(s.to_string())
}

#[test]
fn basic_grammar_it_should_capture_self_closing_blank_nodes() {
    assert_eq_nodes("</>", tag("", true, None, None));
}

#[test]
fn basic_grammar_it_should_capture_blank_nodes() {
    assert_eq_nodes("<></>", tag("", false, None, None));
}

#[test]
fn basic_grammar_it_should_return_node_for_self_closing_tag() {
    assert_eq_nodes("<div/>", tag("div", true, None, None));
}

#[test]
fn basic_grammar_it_should_return_node_for_an_empty_tag() {
    assert_eq_nodes("<h1></h1>", tag("h1", false, None, None));
}

#[test]
fn basic_grammar_it_should_return_an_error_on_mismatched_closing_node() {
    let result = parse(tokens("<div></p>"));
    assert_eq!(result.err().unwrap(), ASTError::MismatchedTagName);
}

#[test]
fn basic_grammar_it_should_parse_lone_attributes() {
    assert_eq_nodes(
        "<button is_disabled></button>",
        tag(
            "button",
            false,
            Some(vec![Attribute { key: "is_disabled".to_string(), value: None }]),
            None,
        ),
    );
}

#[test]
fn basic_grammar_it_should_parse_lone_attributes_on_self_closing_tags() {
    assert_eq_nodes(
        "<button is_disabled />",
        tag(
            "button",
            true,
            Some(vec![Attribute { key: "is_disabled".to_string(), value: None }]),
            None,
        ),
    );
}

#[test]
fn basic_grammar_it_should_parse_key_value_attributes() {
    assert_eq_nodes(
        r#"<button type="input"></button>"#,
        tag(
            "button",
            false,
            Some(vec![Attribute { key: "type".to_string(), value: Some(text("input")) }]),
            None,
        ),
    );
}

#[test]
fn basic_grammar_it_should_parse_key_value_attributes_on_self_closing_tags() {
    assert_eq_nodes(
        r#"<button type="input" />"#,
        tag(
            "button",
            true,
            Some(vec![Attribute { key: "type".to_string(), value: Some(text("input")) }]),
            None,
        ),
    );
}

#[test]
fn basic_grammar_it_should_parse_key_value_code_attributes() {
    assert_eq_nodes(
        r#"<button type={base_class.child("el")} />"#,
        tag(
            "button",
            true,
            Some(vec![Attribute {
                key: "type".to_string(),
                value: Some(Literal::Code("base_class . child (\"el\")".to_string())),
            }]),
            None,
        ),
    );
}

#[test]
fn basic_grammar_it_should_parse_child_nodes() {
    assert_eq_nodes(
        "<div>
            <h1/>
        </div>",
        tag("div", false, None, Some(vec![tag("h1", true, None, None)])),
    );
}

#[test]
fn basic_grammar_it_should_parse_multiple_child_nodes() {
    assert_eq_nodes(
        "<div>
            <h1></h1>
            <span>
                <div></div>
            </span>
            <article />
        </div>",
        tag(
            "div",
            false,
            None,
            Some(vec![
                tag("h1", false, None, None),
                tag("span", false, None, Some(vec![tag("div", false, None, None)])),
                tag("article", true, None, None),
            ]),
        ),
    );
}

#[test]
fn basic_grammar_it_should_parse_code_in_a_node() {
    assert_eq_nodes(
        r#"<div>
            {
                if foo {
                    &"blah"
                } else {
                    &"foobar"
                }
            }
        </div>"#,
        tag(
            "div",
            false,
            None,
            Some(vec![Node::Literal(Literal::Code(
                "if foo { & \"blah\" } else { & \"foobar\" }".to_string(),
            ))]),
        ),
    );
}

#[test]
fn basic_grammar_it_should_parse_text_in_a_node() {
    assert_eq_nodes(
        "<h1>
            Upgrade today!
        </h1>",
        tag("h1", false, None, Some(vec![Node::Literal(text("Upgrade today!"))])),
    );
}

#[test]
fn basic_grammar_it_should_parse_text_and_bracket_in_a_node() {
    assert_eq_nodes(
        "<h1>
            (Upgrade today!)
        </h1>",
        tag("h1", false, None, Some(vec![Node::Literal(text("(Upgrade today!)"))])),
    );
}

#[test]
fn basic_grammar_it_should_parse_text_and_bracket_in_a_node_complex_example() {
    assert_eq_nodes(
        "<h1>
            You should (Upgrade (to something new) today! + = 5 (maybe)) if you want to
        </h1>",
        tag(
            "h1",
            false,
            None,
            Some(vec![Node::Literal(text(
                "You should (Upgrade (to something new) today! + = 5 (maybe)) if you want to",
            ))]),
        ),
    );
}

#[test]
fn basic_grammar_it_should_parse_text_with_quotes_in_a_node() {
    assert_eq_nodes(
        r#"<h1>
            "Upgrade today!"
        </h1>"#,
        tag("h1", false, None, Some(vec![Node::Literal(text("Upgrade today!"))])),
    );
}

#[test]
fn basic_empty_markup_is_nothing() {
    assert!(parse(Vec::new()).unwrap().is_none());
    assert!(Grammar::new().parse(Vec::new()).unwrap().is_none());
}

#[test]
fn basic_a_root_that_is_no_tag_leaves_excess_tokens() {
    assert_eq!(parse(tokens("hello")).err().unwrap(), ASTError::ExcessNodesFound);
}

#[test]
fn basic_tokens_after_the_root_are_excess() {
    assert_eq!(parse(tokens("<a/> b")).err().unwrap(), ASTError::ExcessNodesFound);
    assert_eq!(parse(tokens("<a></b> c")).err().unwrap(), ASTError::ExcessNodesFound);
}

#[test]
fn basic_text_running_to_the_end_is_an_error() {
    assert_eq!(parse(tokens("<a> b")).err().unwrap(), ASTError::ChompOnEmptyNode);
}

fn assert_code(code: Vec<Emitted>, expected: &str) {
    assert_eq!(emitted_shape(&code), stream_shape(expected.parse::<TokenStream>().unwrap()));
}

fn ast_node(name: &str, is_self_closing: bool, children: Option<Vec<ast::Child>>) -> ast::Node {
    ast::Node { name: name.to_string(), is_self_closing, attributes: None, children }
}

#[test]
fn basic_output_it_should_output_simple_self_closing_nodes() {
    assert_code(
        build(ast_node("hr", true, None)),
        r#"::rsx_core::dom::Node::new_self_closing("hr", None)"#,
    );
}

#[test]
fn basic_output_it_should_output_simple_open_nodes() {
    assert_code(build(ast_node("div", false, None)), r#"::rsx_core::dom::Node::new("div", None, None)"#);
}

#[test]
fn basic_output_it_should_output_nodes_with_literals() {
    assert_code(
        build(ast_node("h1", false, Some(vec![ast::Child::Text("hello world!".to_string())]))),
        r#"::rsx_core::dom::Node::new("h1", None, Some(vec![
            ::rsx_core::dom::Child::Text("hello world!")
        ]))"#,
    );
}

#[test]
fn basic_output_nests_nodes_and_code() {
    let mut node = ast_node(
        "div",
        false,
        Some(vec![
            ast::Child::Node(ast_node("br", true, None)),
            ast::Child::Code("a + b".to_string()),
        ]),
    );
    node.attributes = Some(vec![ast::Attribute { key: "k".to_string(), value: None }]);
    assert_code(
        build(node),
        r#"::rsx_core::dom::Node::new("div", Some(vec![None]), Some(vec![
            ::rsx_core::dom::Child::Node(::rsx_core::dom::Node::new_self_closing("br", None)),
            "a + b"
        ]))"#,
    );
}

#[test]
fn basic_render_writes_named_nodes() {
    let node = dom::Node {
        name: "hr".to_string(),
        attributes: Some(vec![dom::Attribute { key: "a".to_string() }]),
        contents: dom::Contents::SelfClosing,
    };
    assert_eq!(html::render(node), "<hr a/>");
    let node = dom::Node { name: "p".to_string(), attributes: None, contents: dom::Contents::Empty };
    assert_eq!(html::render(node), "<p></p>");
    let node = dom::Node {
        name: "p".to_string(),
        attributes: None,
        contents: dom::Contents::Children(vec![dom::Child::StaticText("x".to_string())]),
    };
    assert_eq!(html::render(node), "<p>x</p>");
    let node = dom::Node {
        name: "div".to_string(),
        attributes: Some(vec![dom::Attribute { key: "hidden".to_string() }]),
        contents: dom::Contents::Children(vec![
            dom::Child::StaticText("pre".to_string()),
            dom::Child::StaticText("post".to_string()),
        ]),
    };
    assert_eq!(html::render(node), "<div hidden>prepost</div>");
}

#[test]
fn basic_render_of_a_div_holding_text() {
    let mut renderer = html::Render::new();
    let node = dom::Node {
        name: "div".to_string(),
        attributes: None,
        contents: dom::Contents::Children(vec![dom::Child::StaticText("hello".to_string())]),
    };
    renderer.render(node).unwrap();
    assert_eq!(renderer.into_string(), "<div>hello</div>");
}

#[test]
fn basic_render_of_nameless_nodes_writes_keys_and_children_only() {
    let node = dom::Node {
        name: String::new(),
        attributes: Some(vec![dom::Attribute { key: "a".to_string() }]),
        contents: dom::Contents::SelfClosing,
    };
    assert_eq!(html::render(node), " a");
    let node = dom::Node {
        name: String::new(),
        attributes: None,
        contents: dom::Contents::Children(vec![dom::Child::StaticText("t".to_string())]),
    };
    assert_eq!(html::render(node), "t");
    let mut renderer = html::Render::new();
    renderer.render(dom::Node { name: "b".to_string(), attributes: None, contents: dom::Contents::SelfClosing }).unwrap();
    assert_eq!(renderer.into_string(), "<b/>");
}

use proc_macro2::{TokenStream, TokenTree};
use renderx::text::trim_text;
use renderx::parser::ast::value::Value;
use renderx::parser::ast::{Attribute, AttributeValue, Node};
use renderx::parser::grammar::micro_vec::MicroVec;
use renderx::parser::error::Error;
use renderx::parser::grammar::parse;
use renderx::parser::grammar::token_iterator::{TokenIterator, TokenIteratorError};
use renderx::parser::output::build;
use renderx::parser::token_stream::flatten_non_braces;
use renderx::token::{Delimiter, Emitted, Spacing, Token};

fn convert(stream: TokenStream) -> Vec<Token> {
    stream
        .into_iter()
        .map(|tree| match tree {
            TokenTree::Ident(ident) => Token::Ident(ident.to_string()),
            TokenTree::Punct(punct) => Token::Punct(
                punct.as_char(),
                match punct.spacing() {
                    proc_macro2::Spacing::Joint => Spacing::Joint,
                    proc_macro2::Spacing::Alone => Spacing::Alone,
                },
            ),
            TokenTree::Literal(literal) => Token::Literal(literal.to_string()),
            TokenTree::Group(group) => Token::Group(
                match group.delimiter() {
                    proc_macro2::Delimiter::Parenthesis => Delimiter::Parenthesis,
                    proc_macro2::Delimiter::Brace => Delimiter::Brace,
                    proc_macro2::Delimiter::Bracket => Delimiter::Bracket,
                    proc_macro2::Delimiter::None => Delimiter::Invisible,
                },
                convert(group.stream()),
                group.to_string(),
            ),
        })
        .collect()
}

fn tokens(source: &str) -> Vec<Token> {
    convert(source.parse::<TokenStream>().unwrap())
}

fn printed(token: &Token) -> String {
    match token {
        Token::Ident(s) => s.clone(),
        Token::Punct(c, _) => c.to_string(),
        Token::Literal(s) => s.clone(),
        Token::Group(_, _, text) => text.clone(),
    }
}

fn emitted_shape(code: &[Emitted]) -> String {
    code.iter()
        .map(|e| match e {
            Emitted::Ident(s) => s.clone(),
            Emitted::Punct(c, _) => c.to_string(),
            Emitted::Literal(s) => s.clone(),
            Emitted::Str(s) => proc_macro2::Literal::string(s).to_string(),
            Emitted::Group(d, inner) => {
                let (open, close) = delimiters(*d);
                format!("{} {} {}", open, emitted_shape(inner), close)
            }
            Emitted::Source(s) => stream_shape(s.parse::<TokenStream>().unwrap()),
        })
        .filter(|s| !s.is_empty())
        .collect::<Vec<_>>()
        .join(" ")
}

fn delimiters(d: Delimiter) -> (&'static str, &'static str) {
    match d {
        Delimiter::Parenthesis => ("(", ")"),
        Delimiter::Brace => ("{", "}"),
        Delimiter::Bracket => ("[", "]"),
        Delimiter::Invisible => ("", ""),
    }
}

fn stream_shape(stream: TokenStream) -> String {
    stream
        .into_iter()
        .map(|tree| match tree {
            TokenTree::Group(group) => {
                let (open, close) = match group.delimiter() {
                    proc_macro2::Delimiter::Parenthesis => ("(", ")"),
                    proc_macro2::Delimiter::Brace => ("{", "}"),
                    proc_macro2::Delimiter::Bracket => ("[", "]"),
                    proc_macro2::Delimiter::None => ("", ""),
                };
                format!("{} {} {}", open, stream_shape(group.stream()), close)
            }
            other => other.to_string(),
        })
        .collect::<Vec<_>>()
        .join(" ")
}

fn assert_eq_nodes(source: &str, expected: Node) {
    let node = parse(tokens(source)).unwrap();
    assert_eq!(format!("{:?}", node), format!("{:?}", expected));
}

fn text(s: &str) -> String {
    s.to_string()
}

// ----- grammar -----

#[test]
fn mod_it_should_render_doctype_html() {
    assert_eq_nodes(
        "<!doctype html>",
        Node::Doctype {
            name: text("doctype"),
            attributes: Some(vec![Attribute { key: text("html"), value: None }]),
        },
    );
}

#[test]
fn mod_it_should_preserve_capitalisation() {
    assert_eq_nodes(
        "<!DoCtYpE html>",
        Node::Doctype {
            name: text("DoCtYpE"),
            attributes: Some(vec![Attribute { key: text("html"), value: None }]),
        },
    );
}

#[test]
fn mod_it_should_support_empty_comments() {
    assert_eq_nodes("<!-- -->", Node::Comment { children: None });
}

#[test]
fn mod_it_should_support_simple_comments() {
    assert_eq_nodes(
        "<!-- this is a comment -->",
        Node::Comment { children: Some(vec![Node::Text(text("this is a comment"))]) },
    );
}

#[test]
fn mod_it_should_parse_tags_like_they_are_text() {
    assert_eq_nodes(
        "<!-- this is a <div> </hr> comment -->",
        Node::Comment { children: Some(vec![Node::Text(text("this is a <div> </ hr> comment"))]) },
    );
}

#[test]
fn mod_it_should_support_code() {
    assert_eq_nodes(
        r#"<!--
            this is a <div> </hr> comment
            {"this is some code"}
            "this is another string"
        -->"#,
        Node::Comment {
            children: Some(vec![
                Node::Text(text("this is a <div> </ hr> comment")),
                Node::Code(tokens(r#""this is some code""#)),
                Node::Text(text("this is another string")),
            ]),
        },
    );
}

#[test]
fn mod_it_should_support_root_literals() {
    assert_eq_nodes("blah blah blah", Node::Text(text("blah blah blah")));
}

#[test]
fn mod_it_should_capture_self_closing_blank_nodes() {
    assert_eq_nodes("</>", Node::Empty);
}

#[test]
fn mod_it_should_capture_blank_nodes() {
    assert_eq_nodes("<></>", Node::Empty);
}

#[test]
fn mod_it_should_render_the_contents_of_fragments() {
    assert_eq_nodes(
        "<>
            <h1>This is a heading</h1>
            This is some text
            <hr />
        </>",
        Node::Fragment {
            children: vec![
                Node::Open {
                    name: text("h1"),
                    attributes: None,
                    children: Some(vec![Node::Text(text("This is a heading"))]),
                },
                Node::Text(text("This is some text")),
                Node::SelfClosing { name: text("hr"), attributes: None },
            ],
        },
    );
}

#[test]
fn mod_it_should_return_node_for_self_closing_tag() {
    assert_eq_nodes("<div/>", Node::SelfClosing { name: text("div"), attributes: None });
}

#[test]
fn mod_it_should_return_node_for_an_empty_tag() {
    assert_eq_nodes(
        "<h1></h1>",
        Node::Open { name: text("h1"), attributes: None, children: None },
    );
}

#[test]
fn mod_it_should_return_an_error_on_mismatched_closing_node() {
    let error = parse(tokens("<div></p>")).err().unwrap();
    assert_eq!(error, Error::MismatchedTagName);
}

#[test]
fn mod_it_should_parse_lone_attributes() {
    assert_eq_nodes(
        "<button is_disabled></button>",
        Node::Open {
            name: text("button"),
            attributes: Some(vec![Attribute { key: text("is_disabled"), value: None }]),
            children: None,
        },
    );
}

#[test]
fn mod_it_should_parse_lone_attributes_on_self_closing_tags() {
    assert_eq_nodes(
        "<button is_disabled />",
        Node::SelfClosing {
            name: text("button"),
            attributes: Some(vec![Attribute { key: text("is_disabled"), value: None }]),
        },
    );
}

#[test]
fn mod_it_should_parse_key_value_attributes() {
    assert_eq_nodes(
        r#"<button type="input"></button>"#,
        Node::Open {
            name: text("button"),
            attributes: Some(vec![Attribute {
                key: text("type"),
                value: Some(AttributeValue::Text(text("input"))),
            }]),
            children: None,
        },
    );
}

#[test]
fn mod_it_should_parse_key_value_attributes_on_self_closing_tags() {
    assert_eq_nodes(
        r#"<button type="input" />"#,
        Node::SelfClosing {
            name: text("button"),
            attributes: Some(vec![Attribute {
                key: text("type"),
                value: Some(AttributeValue::Text(text("input"))),
            }]),
        },
    );
}

#[test]
fn mod_it_should_parse_key_value_code_attributes() {
    assert_eq_nodes(
        r#"<button type={base_class.child("el")} />"#,
        Node::SelfClosing {
            name: text("button"),
            attributes: Some(vec![Attribute {
                key: text("type"),
                value: Some(AttributeValue::Code(tokens(r#"base_class.child("el")"#))),
            }]),
        },
    );
}

#[test]
fn mod_it_should_parse_child_nodes() {
    assert_eq_nodes(
        "<div>
            <h1/>
        </div>",
        Node::Open {
            name: text("div"),
            attributes: None,
            children: Some(vec![Node::SelfClosing { name: text("h1"), attributes: None }]),
        },
    );
}

#[test]
fn mod_it_should_parse_multiple_child_nodes() {
    assert_eq_nodes(
        "<div>
            <h1></h1>
            <span>
                <div></div>
            </span>
            <article />
        </div>",
        Node::Open {
            name: text("div"),
            attributes: None,
            children: Some(vec![
                Node::Open { name: text("h1"), attributes: None, children: None },
                Node::Open {
                    name: text("span"),
                    attributes: None,
                    children: Some(vec![Node::Open {
                        name: text("div"),
                        attributes: None,
                        children: None,
                    }]),
                },
                Node::SelfClosing { name: text("article"), attributes: None },
            ]),
        },
    );
}

#[test]
fn mod_it_should_parse_code_in_a_node() {
    let code = r#"
        if foo {
            &"blah"
        } else {
            &"foobar"
        }
    "#;
    assert_eq_nodes(
        &format!("<div>{{{}}}</div>", code),
        Node::Open {
            name: text("div"),
            attributes: None,
            children: Some(vec![Node::Code(tokens(code))]),
        },
    );
}

#[test]
fn mod_it_should_parse_text_in_a_node() {
    assert_eq_nodes(
        "<h1>
            Upgrade today!
        </h1>",
        Node::Open {
            name: text("h1"),
            attributes: None,
            children: Some(vec![Node::Text(text("Upgrade today!"))]),
        },
    );
}

#[test]
fn mod_it_should_parse_text_and_bracket_in_a_node() {
    assert_eq_nodes(
        "<h1>
            (Upgrade today!)
        </h1>",
        Node::Open {
            name: text("h1"),
            attributes: None,
            children: Some(vec![Node::Text(text("(Upgrade today!)"))]),
        },
    );
}

#[test]
fn mod_it_should_parse_text_and_bracket_in_a_node_complex_example() {
    assert_eq_nodes(
        "<h1>
            You should (Upgrade (to something new) today! + = 5 (maybe)) if you want to
        </h1>",
        Node::Open {
            name: text("h1"),
            attributes: None,
            children: Some(vec![Node::Text(text(
                "You should (Upgrade (to something new) today! + = 5 (maybe)) if you want to",
            ))]),
        },
    );
}

#[test]
fn mod_it_should_parse_text_with_quotes_in_a_node() {
    assert_eq_nodes(
        r#"<h1>
            "Upgrade today!"
        </h1>"#,
        Node::Open {
            name: text("h1"),
            attributes: None,
            children: Some(vec![Node::Text(text("Upgrade today!"))]),
        },
    );
}

#[test]
fn mod_it_should_return_fragment_if_content_after_html_in_root() {
    assert_eq_nodes(
        r#"<h1>
            "Upgrade today!"
        </h1>
        blah blah"#,
        Node::Fragment {
            children: vec![
                Node::Open {
                    name: text("h1"),
                    attributes: None,
                    children: Some(vec![Node::Text(text("Upgrade today!"))]),
                },
                Node::Text(text("blah blah")),
            ],
        },
    );
}

#[test]
fn mod_it_should_return_fragment_if_html_after_content_in_root() {
    assert_eq_nodes(
        r#"blah blah
        <h1>
            "Upgrade today!"
        </h1>"#,
        Node::Fragment {
            children: vec![
                Node::Text(text("blah blah")),
                Node::Open {
                    name: text("h1"),
                    attributes: None,
                    children: Some(vec![Node::Text(text("Upgrade today!"))]),
                },
            ],
        },
    );
}

#[test]
fn hyphenated_attribute_keys_are_read_whole() {
    assert_eq_nodes(
        r#"<button data-js-track data-name="MrButton"></button>"#,
        Node::Open {
            name: text("button"),
            attributes: Some(vec![
                Attribute { key: text("data-js-track"), value: None },
                Attribute {
                    key: text("data-name"),
                    value: Some(AttributeValue::Text(text("MrButton"))),
                },
            ]),
            children: None,
        },
    );
}

#[test]
fn literal_attribute_keys_lose_their_quotes() {
    assert_eq_nodes(
        r#"<button "data-name"="MrButton" />"#,
        Node::SelfClosing {
            name: text("button"),
            attributes: Some(vec![Attribute {
                key: text("data-name"),
                value: Some(AttributeValue::Text(text("MrButton"))),
            }]),
        },
    );
}

#[test]
fn empty_markup_is_refused() {
    assert_eq!(parse(Vec::new()).err().unwrap(), Error::EmptyMacroStreamGiven);
}

#[test]
fn unclosed_tags_ask_for_more_tokens() {
    assert_eq!(parse(tokens("<div>")).err().unwrap(), Error::MoreTokensExpected);
}

#[test]
fn a_missing_closing_angle_is_an_unexpected_token() {
    assert_eq!(parse(tokens("<div></div")).err().unwrap(), Error::UnexpectedToken);
}

#[test]
fn text_is_spaced_by_punctuation() {
    assert_eq_nodes(
        "Hello, world. (a [b] c) x-y",
        Node::Text(text("Hello, world. (a [b] c) x-y")),
    );
}

// ----- the token cursor -----

#[test]
fn token_iterator_it_should_flatten_parenthesis_groups() {
    let mut input = TokenIterator::new(tokens("a ( x y z ) c"));
    for expected in ["a", "(", "x", "y", "z", ")", "c"] {
        assert!(printed(&input.chomp().ok().unwrap()) == expected);
    }
}

#[test]
fn token_iterator_it_should_flatten_square_bracket_groups() {
    let mut input = TokenIterator::new(tokens("a [ x y z ] c"));
    for expected in ["a", "[", "x", "y", "z", "]", "c"] {
        assert!(printed(&input.chomp().ok().unwrap()) == expected);
    }
}

#[test]
fn token_iterator_it_should_not_flatten_brace_groups() {
    let mut input = TokenIterator::new(tokens("a { x y z } c"));
    assert!(printed(&input.chomp().ok().unwrap()) == "a");
    assert!(printed(&input.chomp().ok().unwrap()) == "{ x y z }");
    assert!(printed(&input.chomp().ok().unwrap()) == "c");
}

#[test]
fn it_should_return_true_if_puncts_ahead() {
    let mut input = TokenIterator::new(tokens("+ + = +"));
    assert!(input.is_lookahead_puncts(&['+']));
    assert!(input.is_lookahead_puncts(&['+', '+']));
    assert!(input.is_lookahead_puncts(&['+', '+', '=']));
    assert!(input.is_lookahead_puncts(&['+', '+', '=', '+']));
}

#[test]
fn it_should_return_false_if_lookahead_overflows() {
    let mut input = TokenIterator::new(tokens("+ + = +"));
    assert_eq!(false, input.is_lookahead_puncts(&['+', '+', '=', '+', '+']));
}

#[test]
fn chomping_an_empty_cursor_fails() {
    let mut input = TokenIterator::new(Vec::new());
    assert!(input.is_empty());
    assert!(matches!(input.chomp_brace_group(), Err(TokenIteratorError::ChompOnEmptyNode)));
    assert!(matches!(
        input.chomp_group(Delimiter::Parenthesis),
        Err(TokenIteratorError::ChompOnEmptyNode)
    ));
}

#[test]
fn brace_groups_are_read_as_trimmed_text() {
    let mut input = TokenIterator::new(tokens("{ a . b }"));
    assert_eq!(input.chomp_group(Delimiter::Brace).ok().unwrap(), "a . b");
}

// ----- flattening -----

#[test]
fn flatten_non_braces_it_should_flatten_parenthesis_groups() {
    let mut input = flatten_non_braces(tokens("a ( x y z ) c")).into_iter();
    for expected in ["a", "(", "x", "y", "z", ")", "c"] {
        assert!(printed(&input.next().unwrap()) == expected);
    }
}

#[test]
fn flatten_non_braces_it_should_flatten_square_bracket_groups() {
    let mut input = flatten_non_braces(tokens("a [ x y z ] c")).into_iter();
    for expected in ["a", "[", "x", "y", "z", "]", "c"] {
        assert!(printed(&input.next().unwrap()) == expected);
    }
}

#[test]
fn flatten_non_braces_it_should_not_flatten_brace_groups() {
    let mut input = flatten_non_braces(tokens("a { x y z } c")).into_iter();
    assert!(printed(&input.next().unwrap()) == "a");
    assert!(printed(&input.next().unwrap()) == "{ x y z }");
    assert!(printed(&input.next().unwrap()) == "c");
}

#[test]
fn flattening_twice_is_flattening_once() {
    let once = flatten_non_braces(tokens("a ([x] (y)) { (z) } c"));
    let once_text: Vec<String> = once.iter().map(printed).collect();
    let twice: Vec<String> = flatten_non_braces(once).iter().map(printed).collect();
    assert_eq!(once_text, twice);
    assert_eq!(once_text, vec!["a", "(", "[", "x", "]", "(", "y", ")", ")", "{ (z) }", "c"]);
}

// ----- generated code -----

fn assert_code(code: Vec<Emitted>, expected: &str) {
    assert_eq!(emitted_shape(&code), stream_shape(expected.parse::<TokenStream>().unwrap()));
}

#[test]
fn output_it_should_output_simple_self_closing_nodes() {
    let code = build(Node::SelfClosing { name: "hr".to_string(), attributes: None });
    assert_code(code, r#"::renderx::dom::Node::new_self_closing("hr", None)"#);
}

#[test]
fn output_it_should_output_simple_open_nodes() {
    let code = build(Node::Open { name: "div".to_string(), attributes: None, children: None });
    assert_code(
        code,
        r#"::renderx::dom::Node::new_open("div", None, None)"#,
    );
}

#[test]
fn output_it_should_output_nodes_with_literals() {
    let code = build(Node::Open {
        name: "h1".to_string(),
        attributes: None,
        children: Some(vec![Node::Text("hello world!".to_string())]),
    });
    assert_code(
        code,
        r#"::renderx::dom::Node::new_open("h1", None, Some(vec![
            ::renderx::dom::Node::Text {
              contents: "hello world!",
            }
        ]))"#,
    );
}

#[test]
fn attributes_generate_attribute_constructors() {
    let code = build(Node::SelfClosing {
        name: "input".to_string(),
        attributes: Some(vec![
            Attribute { key: "disabled".to_string(), value: None },
            Attribute { key: "type".to_string(), value: Some(AttributeValue::Text("text".to_string())) },
            Attribute { key: "min".to_string(), value: Some(AttributeValue::Code(tokens("a.b(1)"))) },
        ]),
    });
    assert_code(
        code,
        r#"::renderx::dom::Node::new_self_closing("input", Some(vec![
            ::renderx::dom::Attribute::new("disabled", None),
            ::renderx::dom::Attribute::new("type", Some("text")),
            ::renderx::dom::Attribute::new("min", Some(a.b(1)))
        ]))"#,
    );
}

#[test]
fn comments_and_fragments_generate_their_nodes() {
    let code = build(Node::Fragment {
        children: vec![
            Node::Comment { children: None },
            Node::Doctype { name: "doctype".to_string(), attributes: None },
            Node::Empty,
        ],
    });
    assert_code(
        code,
        r#"::renderx::dom::Node::Fragment { children: vec![
            ::renderx::dom::Node::Comment { children: None },
            ::renderx::dom::Node::Doctype { name: "doctype", attributes: None, },
            ::renderx::dom::Node::Empty
        ] }"#,
    );
}

#[test]
fn code_nodes_are_reported_before_generating() {
    let node = parse(tokens("<div>{x}</div>")).unwrap();
    assert!(!renderx::parser::output::is_code_free(&node));
    let node = parse(tokens("<div>x</div>")).unwrap();
    assert!(renderx::parser::output::is_code_free(&node));
}

#[test]
fn markup_parses_to_the_code_that_builds_it() {
    let code = renderx::parser::parse(tokens("<hr/>")).ok().unwrap();
    assert_code(code, r#"::renderx::dom::Node::new_self_closing("hr", None)"#);
    assert_eq!(
        renderx::parser::parse(tokens("<a></b>")).err().unwrap(),
        Error::MismatchedTagName
    );
}

#[test]
fn tokens_from_a_stream_are_well_formed() {
    assert!(renderx::token::tokens_are_well_formed(&tokens(r#"a "b" { c ( "d" ) } [e]"#)));
    assert!(!renderx::token::tokens_are_well_formed(&vec![Token::Literal("\"".to_string())]));
    assert!(!renderx::token::tokens_are_well_formed(&vec![Token::Group(
        Delimiter::Brace,
        vec![],
        "{ x".to_string()
    )]));
}

#[test]
fn source_text_lexes_back_to_the_tokens() {
    let original = tokens(r#"pub fn a<'b>(x: &'b str) -> Vec<u8> { x . len ( ) ; x::y }"#);
    let text = renderx::token::source_text(&original);
    let again = tokens(&text);
    assert_eq!(format!("{:?}", original), format!("{:?}", again));
}

#[test]
fn inline_text_reads_like_quoted_text() {
    let inline = parse(tokens("<button>Click Me</button>")).unwrap();
    let quoted = parse(tokens(r#"<button>"Click Me"</button>"#)).unwrap();
    assert_eq!(format!("{:?}", inline), format!("{:?}", quoted));
}

#[test]
fn micro_vecs_hold_what_is_pushed() {
    let none: MicroVec<u8> = MicroVec::new();
    assert!(matches!(none, MicroVec::Nothing));
    let one = MicroVec::new().push(1u8);
    assert!(matches!(one, MicroVec::Item(1)));
    let three = MicroVec::new().push(1u8).push(2).push(3);
    match three {
        MicroVec::Vec(items) => assert_eq!(items, vec![1, 2, 3]),
        _ => unreachable!(),
    }
}

#[test]
fn values_are_equal_by_text_or_tokens() {
    let a = Value::Code(tokens("x . y ( 1 )"));
    let b = Value::Code(tokens("x.y(1)"));
    let c = Value::Code(tokens("x.y(2)"));
    assert!(a == a);
    assert!(a == b && b == a);
    assert!(a != c);
    assert!(Value::Text("x".to_string()) == Value::Text("x".to_string()));
    assert!(Value::Text("x".to_string()) != Value::Code(tokens("x")));
    assert!(renderx::parser::token_stream_compare::token_stream_eq(&tokens("a (b)"), &tokens("a(b)")));
}

#[test]
fn trimming_removes_unicode_white_space_at_both_ends() {
    assert_eq!(trim_text("\u{3000} a  b\n\t"), "a  b");
    assert_eq!(trim_text("\u{85}\u{2028}x\u{a0}"), "x");
    assert_eq!(trim_text("\u{200b}x"), "\u{200b}x");
    assert_eq!(trim_text(" \t "), "");
    assert_eq!(trim_text(""), "");
    for s in ["  a b  ", "\u{2000}z\u{200a}", "x\u{feff}"] {
        assert_eq!(trim_text(s), s.trim());
    }
}

use proc_macro2::{TokenStream, TokenTree};
use renderx::component::error::Error;
use renderx::component::grammar::{function_of, props_of, ParsedArgument, ParsedFunction};
use renderx::component::parse;
use renderx::makro::{display_component_error, display_rsx_error};
use renderx::token::{Delimiter, Emitted, Spacing, Token};

fn convert(stream: TokenStream) -> Vec<Token> {
    stream
        .into_iter()
        .map(|tree| match tree {
            TokenTree::Ident(ident) => Token::Ident(ident.to_string()),
            TokenTree::Punct(punct) => Token::Punct(
                punct.as_char(),
                match punct.spacing() {
                    proc_macro2::Spacing::Joint => Spacing::Joint,
                    proc_macro2::Spacing::Alone => Spacing::Alone,
                },
            ),
            TokenTree::Literal(literal) => Token::Literal(literal.to_string()),
            TokenTree::Group(group) => Token::Group(
                match group.delimiter() {
                    proc_macro2::Delimiter::Parenthesis => Delimiter::Parenthesis,
                    proc_macro2::Delimiter::Brace => Delimiter::Brace,
                    proc_macro2::Delimiter::Bracket => Delimiter::Bracket,
                    proc_macro2::Delimiter::None => Delimiter::Invisible,
                },
                convert(group.stream()),
                group.to_string(),
            ),
        })
        .collect()
}

fn tokens(source: &str) -> Vec<Token> {
    convert(source.parse::<TokenStream>().unwrap())
}

fn emitted_shape(code: &[Emitted]) -> String {
    code.iter()
        .map(|e| match e {
            Emitted::Ident(s) => s.clone(),
            Emitted::Punct(c, _) => c.to_string(),
            Emitted::Literal(s) => s.clone(),
            Emitted::Str(s) => proc_macro2::Literal::string(s).to_string(),
            Emitted::Group(d, inner) => {
                let (open, close) = delimiters(*d);
                format!("{} {} {}", open, emitted_shape(inner), close)
            }
            Emitted::Source(s) => stream_shape(s.parse::<TokenStream>().unwrap()),
        })
        .filter(|s| !s.is_empty())
        .collect::<Vec<_>>()
        .join(" ")
}

fn delimiters(d: Delimiter) -> (&'static str, &'static str) {
    match d {
        Delimiter::Parenthesis => ("(", ")"),
        Delimiter::Brace => ("{", "}"),
        Delimiter::Bracket => ("[", "]"),
        Delimiter::Invisible => ("", ""),
    }
}

fn stream_shape(stream: TokenStream) -> String {
    stream
        .into_iter()
        .map(|tree| match tree {
            TokenTree::Group(group) => {
                let (open, close) = match group.delimiter() {
                    proc_macro2::Delimiter::Parenthesis => ("(", ")"),
                    proc_macro2::Delimiter::Brace => ("{", "}"),
                    proc_macro2::Delimiter::Bracket => ("[", "]"),
                    proc_macro2::Delimiter::None => ("", ""),
                };
                format!("{} {} {}", open, stream_shape(group.stream()), close)
            }
            other => other.to_string(),
        })
        .collect::<Vec<_>>()
        .join(" ")
}

fn assert_tokens_eq(expected: &str, output: Vec<Emitted>) {
    assert_eq!(stream_shape(expected.parse::<TokenStream>().unwrap()), emitted_shape(&output));
}

#[test]
fn it_should_output_component_markup_without_props() {
    let output = parse(
        tokens(""),
        tokens(
            r#"pub fn HorizontalRule() -> Node {
                rsx! {
                    <hr class="horizontal-rule" />
                }
            }"#,
        ),
    )
    .ok()
    .unwrap();

    let expected = r#"
        #[allow(non_snake_case)]
        pub struct HorizontalRule;

        impl FnOnce<()> for HorizontalRule {
            type Output = Node;
            extern "rust-call" fn call_once(self, _: ()) -> Node {
                rsx! {
                    <hr class="horizontal-rule" />
                }
            }
        }

        impl ::renderx::Component for HorizontalRule {
            type Props = ();
        }
    "#;

    assert_tokens_eq(expected, output);
}

#[test]
fn it_should_output_component_markup_with_props() {
    let output = parse(
        tokens(""),
        tokens(
            r#"pub fn MyBanner(my_props: MyBannerProps) -> Node {
                rsx! {
                    <div class="my-banner">
                        <h1>My Banner</h1>
                    </div>
                }
            }"#,
        ),
    )
    .ok()
    .unwrap();

    let expected = r#"
        #[allow(non_snake_case)]
        pub struct MyBanner;

        impl FnOnce<(MyBannerProps,)> for MyBanner {
            type Output = Node;
            extern "rust-call" fn call_once(self, (my_props,): (MyBannerProps,)) -> Node {
                rsx! {
                    <div class="my-banner">
                        <h1>My Banner</h1>
                    </div>
                }
            }
        }

        impl ::renderx::Component for MyBanner {
            type Props = MyBannerProps;
        }
    "#;

    assert_tokens_eq(expected, output);
}

#[test]
fn modifiers_and_props_attributes_are_carried() {
    let output = parse(
        tokens(""),
        tokens("const unsafe fn Thing(#[x] p: P) -> N { n() }"),
    )
    .ok()
    .unwrap();
    let expected = r#"
        #[allow(non_snake_case)]
        struct Thing;
        impl FnOnce<(P,)> for Thing {
            type Output = N;
            const unsafe extern "rust-call" fn call_once(self, #[x] (p,): (P,)) -> N { n() }
        }
        impl ::renderx::Component for Thing { type Props = P; }
    "#;
    assert_tokens_eq(expected, output);
}

fn error_of(attrs: &str, source: &str) -> Error {
    parse(tokens(attrs), tokens(source)).err().unwrap()
}

#[test]
fn component_errors_are_reported() {
    assert!(matches!(error_of("x", "fn A() -> N {}"), Error::AttributeFound));
    assert!(matches!(error_of("", ""), Error::EmptyMacroStreamGiven));
    assert!(matches!(error_of("", "fn A() {}"), Error::NoReturnType));
    assert!(matches!(error_of("", "fn A(a: X, b: Y) -> N {}"), Error::ExtraParametersFound));
    assert!(matches!(error_of("", "fn A(&self) -> N {}"), Error::SelfArgUnsupported));
    assert!(matches!(error_of("", "struct A;"), Error::SynError(_)));
}

#[test]
fn a_parsed_function_becomes_a_component_function() {
    let parsed = ParsedFunction {
        visibility: "pub".to_string(),
        constness: false,
        asyncness: true,
        unsafety: false,
        name: "Card".to_string(),
        output: Some("Node".to_string()),
        inputs: Vec::new(),
        block: "{ x }".to_string(),
    };
    let f = function_of(parsed).ok().unwrap();
    assert_eq!(f.name, "Card");
    assert_eq!(f.return_type, "Node");
    assert!(f.asyncness && !f.constness && f.props.is_none());
    let no_return = ParsedFunction {
        visibility: String::new(),
        constness: false,
        asyncness: false,
        unsafety: false,
        name: "Card".to_string(),
        output: None,
        inputs: Vec::new(),
        block: "{}".to_string(),
    };
    assert!(matches!(function_of(no_return), Err(Error::NoReturnType)));
    assert!(matches!(props_of(ParsedArgument::Receiver), Err(Error::SelfArgUnsupported)));
    let props = props_of(ParsedArgument::Typed {
        attributes: vec![],
        pattern: "p".to_string(),
        item_type: "P".to_string(),
    })
    .ok()
    .unwrap()
    .unwrap();
    assert_eq!(props.item_type, "P");
}

#[test]
fn the_one_typed_parameter_becomes_the_props() {
    let with_parameters = |inputs: Vec<ParsedArgument>| ParsedFunction {
        visibility: String::new(),
        constness: false,
        asyncness: false,
        unsafety: false,
        name: "Card".to_string(),
        output: Some("Node".to_string()),
        inputs,
        block: "{}".to_string(),
    };
    let typed = || ParsedArgument::Typed {
        attributes: vec!["#[x]".to_string()],
        pattern: "props".to_string(),
        item_type: "CardProps".to_string(),
    };
    let f = function_of(with_parameters(vec![typed()])).ok().unwrap();
    let props = f.props.unwrap();
    assert_eq!(props.attributes, vec!["#[x]".to_string()]);
    assert_eq!(props.pattern, "props");
    assert_eq!(props.item_type, "CardProps");
    assert!(matches!(
        function_of(with_parameters(vec![ParsedArgument::Receiver])),
        Err(Error::SelfArgUnsupported)
    ));
    assert!(matches!(
        function_of(with_parameters(vec![typed(), typed()])),
        Err(Error::ExtraParametersFound)
    ));
    let read = renderx::component::grammar::parse(tokens("fn Card(p: CardProps) -> Node { x }"))
        .ok()
        .unwrap();
    let props = read.props.unwrap();
    assert_eq!(props.pattern, "p");
    assert_eq!(props.item_type, "CardProps");
    let bare = renderx::component::grammar::parse(tokens("fn Card() -> Node { x }")).ok().unwrap();
    assert!(bare.props.is_none());
}

#[test]
fn errors_have_messages() {
    assert_eq!(
        display_rsx_error(&renderx::parser::rsx::error::Error::MismatchedClosingTagName),
        "Open and closing tag names don't match"
    );
    assert_eq!(
        display_rsx_error(&renderx::parser::rsx::error::Error::EmptyMacroStreamGiven),
        "Empty rsx given"
    );
    assert_eq!(
        display_component_error(&Error::AttributeFound),
        "Component macro does not support any attributes; use `#[component]` on it's own."
    );
    assert_eq!(display_component_error(&Error::SynError("bad".to_string())), "bad");
}

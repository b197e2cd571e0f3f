use renderx::dom::{Attribute, AttributeValue, Child, Node, ToAttributeValue, ToChild, ToNode};
use renderx::basic::render::Render as _;
use renderx::render::{render, Render};
use renderx::server_render::ServerRender;

fn s(text: &str) -> String {
    text.to_string()
}

fn attr<V: ToAttributeValue>(key: &str, value: V) -> Attribute {
    Attribute::new(s(key), value.to_attribute_value())
}

fn open(name: &str, attributes: Option<Vec<Attribute>>, children: Vec<Node>) -> Node {
    Node::new_open(s(name), attributes, Some(children))
}

fn text(contents: &str) -> Node {
    Node::Text { contents: s(contents) }
}

#[test]
fn it_should_build_a_node() {
    let text = "yo";

    let node = Node::new_open(
        s("h1"),
        None,
        Some(vec![
            ToNode::to_node("Hello world!"),
            ToNode::to_node(Node::Text { contents: s("hello world!") }),
            ToNode::to_node(text),
        ]),
    );

    if let Node::OpenWithChildren { name, attributes: _, child: _ } = node {
        assert_eq!(name, "h1");
    } else {
        unreachable!();
    }
}

#[test]
fn render_it_should_render_doctype_html() {
    let node = Node::Doctype {
        name: s("doctype"),
        attributes: Some(vec![attr("html", ())]),
    };
    assert_eq!("<!doctype html>", render(node).unwrap());
}

#[test]
fn doctype_capitalisation_is_kept() {
    let node = Node::Doctype { name: s("DoCtYpE"), attributes: Some(vec![attr("html", ())]) };
    assert_eq!("<!DoCtYpE html>", render(node).unwrap());
}

#[test]
fn comments_render_with_their_children() {
    assert_eq!("<!-- -->", render(Node::Comment { children: None }).unwrap());
    assert_eq!(
        "<!-- this is a comment -->",
        render(Node::Comment { children: Some(vec![text("this is a comment")]) }).unwrap()
    );
}

#[test]
fn empty_nodes_render_as_nothing() {
    assert_eq!("", render(Node::Empty).unwrap());
    assert_eq!("", render(Node::Fragment { children: vec![] }).unwrap());
}

#[test]
fn render_it_should_render_the_contents_of_fragments() {
    let node = Node::Fragment {
        children: vec![
            open("h1", None, vec![text("This is a heading")]),
            text("This is some text"),
            Node::new_self_closing(s("hr"), None),
        ],
    };
    assert_eq!("<h1>This is a heading</h1>This is some text<hr/>", render(node).unwrap());
}

#[test]
fn simple_nodes_render() {
    assert_eq!("<hr/>", render(Node::new_self_closing(s("hr"), None)).unwrap());
    assert_eq!("<div></div>", render(Node::new_open::<()>(s("div"), None, None)).unwrap());
    assert_eq!(
        "<h1>hello world!</h1>",
        render(open("h1", None, vec![text("hello world!")])).unwrap()
    );
    assert_eq!(
        "<namespace:blah></namespace:blah>",
        render(Node::new_open::<()>(s("namespace:blah"), None, None)).unwrap()
    );
}

#[test]
fn attributes_render_by_their_values() {
    let node = Node::new_self_closing(
        s("input"),
        Some(vec![attr("type", "text"), attr("min", 0i32)]),
    );
    assert_eq!("<input type=\"text\" min=\"0\"/>", render(node).unwrap());

    let none: Option<&str> = None;
    let node = Node::new_self_closing(s("input"), Some(vec![attr("type", none)]));
    assert_eq!("<input/>", render(node).unwrap());

    let node = Node::new_self_closing(s("input"), Some(vec![attr("type", Some("text"))]));
    assert_eq!("<input type=\"text\"/>", render(node).unwrap());
}

#[test]
fn boolean_attributes_render_as_keys_or_not_at_all() {
    let node = open("button", Some(vec![attr("disabled", true)]), vec![text("Click me")]);
    assert_eq!("<button disabled>Click me</button>", render(node).unwrap());
    let node = open("button", Some(vec![attr("disabled", false)]), vec![text("Click me")]);
    assert_eq!("<button>Click me</button>", render(node).unwrap());
}

#[test]
fn numbers_render_in_decimal() {
    let node = Node::new_self_closing(
        s("x"),
        Some(vec![
            attr("a", 1234567890u64),
            attr("b", -42i64),
            attr("c", i64::MIN),
            attr("d", u64::MAX),
            attr("e", 7u8),
            attr("f", 0usize),
        ]),
    );
    assert_eq!(
        "<x a=\"1234567890\" b=\"-42\" c=\"-9223372036854775808\" d=\"18446744073709551615\" e=\"7\" f=\"0\"/>",
        render(node).unwrap()
    );
}

#[test]
fn float_attribute_values_render_their_text() {
    let node = Node::new_self_closing(
        s("x"),
        Some(vec![Attribute::new(s("step"), AttributeValue::Float(0.5f64.to_string()))]),
    );
    assert_eq!("<x step=\"0.5\"/>", render(node).unwrap());
}

#[test]
fn children_render_by_their_kind() {
    assert_eq!("<p>hi</p>", render(Node::new_open(s("p"), None, Some("hi"))).unwrap());
    assert_eq!("<p></p>", render(Node::new_open(s("p"), None, Some(Node::Empty))).unwrap());
    assert_eq!("<p></p>", render(Node::new_open(s("p"), None, Some(()))).unwrap());
    let none: Option<&str> = None;
    assert_eq!("<p></p>", render(Node::new_open(s("p"), None, Some(none))).unwrap());
    assert_eq!(
        "<p><b>x</b></p>",
        render(Node::new_open(s("p"), None, Some(open("b", None, vec![text("x")])))).unwrap()
    );
    match "t".to_child() {
        Child::Text { contents } => assert_eq!(contents, "t"),
        _ => unreachable!(),
    }
}

#[test]
fn text_lists_render_as_their_texts() {
    assert_eq!("", render(Vec::<&str>::new().to_node()).unwrap());
    assert_eq!("a", render(vec!["a"].to_node()).unwrap());
    assert_eq!("abc", render(vec!["a", "b", "c"].to_node()).unwrap());
    assert_eq!("", render(().to_node()).unwrap());
    let none: Option<Node> = None;
    assert_eq!("", render(none.to_node()).unwrap());
}

#[test]
fn example_front_page_renders() {
    let html = render(Node::Fragment {
        children: vec![
            Node::Doctype { name: s("doctype"), attributes: Some(vec![attr("html", ())]) },
            open(
                "html",
                Some(vec![attr("lang", "en")]),
                vec![
                    open(
                        "head",
                        None,
                        vec![
                            open("title", None, vec![text("Example Page")]),
                            Node::Comment { children: Some(vec![text("\n  get in touch\n")]) },
                        ],
                    ),
                    open(
                        "body",
                        None,
                        vec![
                            open("header", None, vec![open("h1", None, vec![text("Example Page")])]),
                            Node::new_open::<()>(s("article"), None, None),
                            open(
                                "footer",
                                None,
                                vec![open(
                                    "p",
                                    Some(vec![attr("class", "p p--small")]),
                                    vec![text("Copyright Big Inc 2021")],
                                )],
                            ),
                        ],
                    ),
                ],
            ),
        ],
    })
    .unwrap();
    assert_eq!(
        "<!doctype html><html lang=\"en\"><head><title>Example Page</title><!-- \n  get in touch\n --></head><body><header><h1>Example Page</h1></header><article></article><footer><p class=\"p p--small\">Copyright Big Inc 2021</p></footer></body></html>",
        html
    );
}

#[test]
fn a_renderer_appends_what_it_renders() {
    let mut renderer = Render::new();
    renderer.render(text("a")).unwrap();
    renderer.render(Node::new_self_closing(s("br"), None)).unwrap();
    assert_eq!(renderer.into_string(), "a<br/>");
}

#[test]
fn a_server_render_collects_items_in_order() {
    let mut buffer = ServerRender::new();
    assert_eq!(buffer.to_string(), "");
    buffer.render("<div>").unwrap();
    buffer.render("hello").unwrap();
    buffer.render("</div>").unwrap();
    assert_eq!("<div>hello</div>", buffer.to_string());
    assert_eq!("<div>hello</div>", buffer.as_str());
    assert_eq!(String::from(buffer), "<div>hello</div>");
}

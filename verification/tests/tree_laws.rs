use fluent_web::component::run_template_passes;
use fluent_web::error::Compiler;
use fluent_web::html::{HtmlAttribute, HtmlElement, HtmlNode};
use fluent_web::ifs::parse_and_modify_html;
use fluent_web::markers::{modify_html, modify_html_by_id};
use fluent_web::reactive_text;
use fluent_web::subcomponent::find_subcomponents;

const HTML_NS: &str = "http://www.w3.org/1999/xhtml";

fn attr(name: &str, value: &str) -> HtmlAttribute {
    HtmlAttribute {
        namespace: String::new(),
        prefix: None,
        name: name.to_string(),
        value: value.to_string(),
    }
}

fn element(name: &str, attributes: Vec<HtmlAttribute>, children: Vec<HtmlNode>) -> HtmlNode {
    HtmlNode::Element(HtmlElement {
        namespace: HTML_NS.to_string(),
        prefix: None,
        name: name.to_string(),
        attributes,
        children,
    })
}

fn text(t: &str) -> HtmlNode {
    HtmlNode::Text(t.to_string())
}

fn sample_tree() -> HtmlNode {
    element(
        "body",
        vec![],
        vec![
            element(
                "div",
                vec![attr("?a", "x"), attr("title", "t"), attr("?b", "y"), attr("=c", "z")],
                vec![text("Hello {name}"), element("i", vec![attr("?d", "w")], vec![text("{n}")])],
            ),
            element("p", vec![attr("class", "k")], vec![text("plain")]),
        ],
    )
}

fn all_attribute_names(n: &HtmlNode, out: &mut Vec<String>) {
    if let HtmlNode::Element(e) = n {
        for a in &e.attributes {
            out.push(a.name.clone());
        }
        for c in &e.children {
            all_attribute_names(c, out);
        }
    }
}

fn all_texts(n: &HtmlNode, out: &mut Vec<String>) {
    match n {
        HtmlNode::Element(e) => e.children.iter().for_each(|c| all_texts(c, out)),
        HtmlNode::Text(t) => out.push(t.clone()),
        _ => {}
    }
}

fn all_element_names(n: &HtmlNode, out: &mut Vec<String>) {
    if let HtmlNode::Element(e) = n {
        out.push(e.name.clone());
        e.children.iter().for_each(|c| all_element_names(c, out));
    }
}

#[test]
fn marking_leaves_no_prefixed_attribute_and_reports_each() {
    for by_id in [false, true] {
        let mut tree = sample_tree();
        let infos = if by_id { modify_html_by_id(&mut tree, "?") } else { modify_html(&mut tree, "?") };
        // One info per `?` attribute, in tree order and attribute order.
        let reported: Vec<&str> = infos.iter().map(|i| i.attribute.as_str()).collect();
        assert_eq!(reported, vec!["a", "b", "d"]);
        assert_eq!(infos[0].id, infos[1].id);
        assert_ne!(infos[0].id, infos[2].id);
        let mut names = Vec::new();
        all_attribute_names(&tree, &mut names);
        assert!(names.iter().all(|n| !n.starts_with('?')));
        assert!(names.contains(&"=c".to_string()));
    }
}

#[test]
fn reactive_pass_leaves_no_template_text() {
    let mut tree = sample_tree();
    let texts = reactive_text::modify_html(&mut tree).unwrap();
    assert_eq!(texts.len(), 2);
    let mut left = Vec::new();
    all_texts(&tree, &mut left);
    assert_eq!(left, vec!["plain".to_string()]);
}

#[test]
fn if_pass_leaves_no_condition() {
    let mut tree = element(
        "body",
        vec![],
        vec![
            element("p", vec![attr("$if", "a")], vec![element("b", vec![attr("$if", "c")], vec![])]),
            element("div", vec![], vec![element("span", vec![attr("$if", "d")], vec![])]),
        ],
    );
    let ifs = parse_and_modify_html(&mut tree).unwrap();
    // The nested `$if` inside a replaced element is visited too.
    assert_eq!(ifs.len(), 3);
    let mut names = Vec::new();
    all_attribute_names(&tree, &mut names);
    assert!(!names.contains(&"$if".to_string()));
}

#[test]
fn component_pass_leaves_no_component_tag() {
    let tree = element(
        "body",
        vec![],
        vec![
            element("component", vec![attr("src", "a::B")], vec![]),
            element("div", vec![], vec![element("component", vec![attr("src", "C")], vec![])]),
        ],
    );
    let (out, subs) = find_subcomponents(tree).unwrap();
    assert_eq!(subs.len(), 2);
    let mut names = Vec::new();
    all_element_names(&out, &mut names);
    assert!(!names.contains(&"component".to_string()));
}

#[test]
fn all_passes_on_one_template() {
    let tree = element(
        "body",
        vec![],
        vec![
            element(
                "div",
                vec![
                    attr("?hidden", "!shown"),
                    attr("=title", "name"),
                    attr("@value", "count"),
                    attr("--color", "rgb({r}, 0, 0)"),
                ],
                vec![text("Count: {count}")],
            ),
            element("component", vec![attr("src", "crate::Sub"), attr(";done", "|e| {}")], vec![]),
            element("button", vec![attr(":click", "|e, el| {}")], vec![]),
            element("p", vec![attr("$if", "shown")], vec![text("shown")]),
        ],
    );
    let (out, parts) = run_template_passes(tree).unwrap();
    assert_eq!(parts.reactive.len(), 1);
    assert_eq!(parts.conditional.len(), 1);
    assert_eq!(parts.computed.len(), 1);
    assert_eq!(parts.props.len(), 1);
    assert_eq!(parts.css_vars.len(), 1);
    assert_eq!(parts.css_vars[0].format, "rgb({}, 0, 0)");
    assert_eq!(parts.subcomponents.len(), 1);
    assert_eq!(parts.native_events.len(), 1);
    // The sub component became a `<div>` before the `;` pass, which still finds it.
    assert_eq!(parts.custom_events.len(), 1);
    assert_eq!(parts.ifs.len(), 1);
    let mut names = Vec::new();
    all_attribute_names(&out, &mut names);
    for prefix in ["?", "=", "@", "--", ":", ";", "$if"] {
        assert!(names.iter().all(|n| !n.starts_with(prefix)), "{prefix} left");
    }
}

#[test]
fn the_first_failing_pass_stops_the_others() {
    let missing_src = element(
        "body",
        vec![],
        vec![element("component", vec![], vec![]), element("p", vec![attr("$if", "a +")], vec![])],
    );
    assert!(matches!(run_template_passes(missing_src), Err(Compiler::MissingSrc)));
    let bad_css_var = element("body", vec![], vec![element("p", vec![attr("--c", "{1 +}")], vec![])]);
    assert!(matches!(run_template_passes(bad_css_var), Err(Compiler::Parse(_))));
}

#[test]
fn marking_twice_changes_nothing_more() {
    for by_id in [false, true] {
        let mut tree = sample_tree();
        let first = if by_id { modify_html_by_id(&mut tree, "?") } else { modify_html(&mut tree, "?") };
        assert_eq!(first.len(), 3);
        let once = format!("{tree:?}");
        let second = if by_id { modify_html_by_id(&mut tree, "?") } else { modify_html(&mut tree, "?") };
        assert!(second.is_empty());
        assert_eq!(format!("{tree:?}"), once);
    }
}

#[test]
fn marking_twice_with_a_foreign_namespace_attribute() {
    let xlink = HtmlAttribute {
        namespace: "http://www.w3.org/1999/xlink".to_string(),
        prefix: Some("xlink".to_string()),
        name: "href".to_string(),
        value: "#a".to_string(),
    };
    let mut tree = element("body", vec![], vec![element("use", vec![xlink, attr("?x", "c")], vec![])]);
    let first = modify_html(&mut tree, "?");
    assert_eq!(first.len(), 1);
    let once = format!("{tree:?}");
    assert!(modify_html(&mut tree, "?").is_empty());
    assert_eq!(format!("{tree:?}"), once);
}

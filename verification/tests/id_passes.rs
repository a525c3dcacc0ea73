use fluent_web::element_ids::{find_conditional_attributes_and_set_id, find_event_listeners_and_set_id};
use fluent_web::id_component::run_id_template_passes;
use fluent_web::html::{HtmlAttribute, HtmlElement, HtmlNode};
use fluent_web::markers::{modify_html_by_id, modify_html_with_ids};
use fluent_web::reactive_text::find_reactive_nodes_and_replace_with_span;
use fluent_web::subcomponent::find_sub_components_and_replace_with_div;

const HTML_NS: &str = "http://www.w3.org/1999/xhtml";

fn attr(name: &str, value: &str) -> HtmlAttribute {
    HtmlAttribute {
        namespace: String::new(),
        prefix: None,
        name: name.to_string(),
        value: value.to_string(),
    }
}

fn element(name: &str, attributes: Vec<HtmlAttribute>, children: Vec<HtmlNode>) -> HtmlNode {
    HtmlNode::Element(HtmlElement {
        namespace: HTML_NS.to_string(),
        prefix: None,
        name: name.to_string(),
        attributes,
        children,
    })
}

fn as_element(n: &HtmlNode) -> &HtmlElement {
    match n {
        HtmlNode::Element(e) => e,
        _ => panic!("expected an element"),
    }
}

fn names(attrs: &[HtmlAttribute]) -> Vec<&str> {
    attrs.iter().map(|a| a.name.as_str()).collect()
}

#[test]
fn by_id_keeps_an_existing_id() {
    let node = element("input", vec![attr("id", "name"), attr("?disabled", "locked")], vec![]);
    let ids = vec!["FRESH".to_string()];
    let (out, infos) = modify_html_with_ids(node, "?", &ids, true);
    assert_eq!(infos[0].id, "name");
    let e = as_element(&out);
    assert_eq!(names(&e.attributes), vec!["id"]);
    assert_eq!(e.attributes[0].value, "name");
}

#[test]
fn by_id_sets_a_fresh_id() {
    let mut node = element("input", vec![attr("?disabled", "locked"), attr("type", "text")], vec![]);
    let infos = modify_html_by_id(&mut node, "?");
    assert_eq!(infos.len(), 1);
    assert!(infos[0].id.starts_with("__Fluent_UUID_"));
    let e = as_element(&node);
    // `id` goes to the end, then `?disabled` is removed and `id` takes its place.
    assert_eq!(names(&e.attributes), vec!["id", "type"]);
    assert_eq!(e.attributes[0].value, infos[0].id);
}

#[test]
fn conditional_attributes_by_id() {
    let mut node = element("div", vec![], vec![element("button", vec![attr("?disabled", "count > 3")], vec![])]);
    let conds = find_conditional_attributes_and_set_id(&mut node).unwrap();
    assert_eq!(conds.len(), 1);
    assert_eq!(conds[0].attribute, "disabled");
    let button = as_element(&as_element(&node).children[0]);
    assert_eq!(button.attributes[0].name, "id");
    assert_eq!(button.attributes[0].value, conds[0].id);

    let mut bad = element("button", vec![attr("?disabled", "count >")], vec![]);
    assert!(find_conditional_attributes_and_set_id(&mut bad).is_none());
}

#[test]
fn event_listeners_by_id() {
    let mut node = element("button", vec![attr("id", "go"), attr(":click", "count += 1;")], vec![]);
    let listeners = find_event_listeners_and_set_id(&mut node).unwrap();
    assert_eq!(listeners.len(), 1);
    assert_eq!(listeners[0].id, "go");
    assert_eq!(listeners[0].handler, "click");
    assert_eq!(listeners[0].element, "button");
    assert_eq!(listeners[0].code.stmts.len(), 1);

    let mut bad = element("button", vec![attr(":click", "let = ;")], vec![]);
    assert!(find_event_listeners_and_set_id(&mut bad).is_none());
}

#[test]
fn reactive_spans_by_id() {
    let mut node = element("p", vec![], vec![HtmlNode::Text("{a} and {b}".to_string())]);
    let texts = find_reactive_nodes_and_replace_with_span(&mut node).unwrap();
    assert_eq!(texts.len(), 1);
    assert_eq!(texts[0].text, "{} and {}");
    assert_eq!(texts[0].expressions.len(), 2);
    let span = as_element(&as_element(&node).children[0]);
    assert_eq!(span.name, "span");
    assert_eq!(span.attributes[0].name, "id");
    assert_eq!(span.attributes[0].value, texts[0].id);

    let mut bad = element("p", vec![], vec![HtmlNode::Text("{a +}".to_string())]);
    assert!(find_reactive_nodes_and_replace_with_span(&mut bad).is_none());

    let mut lone = element("p", vec![], vec![HtmlNode::Text("a } b".to_string())]);
    assert!(find_reactive_nodes_and_replace_with_span(&mut lone).is_none());
}

#[test]
fn sub_components_by_id() {
    let node = element(
        "div",
        vec![],
        vec![element("component", vec![attr("src", "crate::Counter"), attr("class", "c")], vec![])],
    );
    let (out, subs) = find_sub_components_and_replace_with_div(node).unwrap();
    assert_eq!(subs.len(), 1);
    assert_eq!(subs[0].component_source, "crate::Counter");
    let div = as_element(&as_element(&out).children[0]);
    assert_eq!(div.name, "div");
    // `src` is removed (the last attribute takes its place), then `id` is added.
    assert_eq!(names(&div.attributes), vec!["class", "id"]);
    assert_eq!(div.attributes[1].value, subs[0].id);

    let with_id = element("component", vec![attr("id", "mine"), attr("src", "A")], vec![]);
    let (out, subs) = find_sub_components_and_replace_with_div(with_id).unwrap();
    assert_eq!(subs[0].id, "mine");
    assert_eq!(names(&as_element(&out).attributes), vec!["id"]);

    let missing = element("component", vec![], vec![]);
    assert!(find_sub_components_and_replace_with_div(missing).is_none());
}

#[test]
fn all_id_passes_on_one_template() {
    let tree = element(
        "body",
        vec![],
        vec![
            element("p", vec![], vec![HtmlNode::Text("Count: {count}".to_string())]),
            element("component", vec![attr("src", "crate::Sub")], vec![]),
            element("button", vec![attr(":click", "count += 1;")], vec![]),
            element("input", vec![attr("?disabled", "count > 3")], vec![]),
        ],
    );
    let (out, parts) = run_id_template_passes(tree).unwrap();
    assert_eq!(parts.reactive.len(), 1);
    assert_eq!(parts.subcomponents.len(), 1);
    assert_eq!(parts.listeners.len(), 1);
    assert_eq!(parts.conditionals.len(), 1);
    let body = as_element(&out);
    let span = as_element(&as_element(&body.children[0]).children[0]);
    assert_eq!(span.attributes[0].name, "id");
    assert_eq!(as_element(&body.children[1]).name, "div");

    let bad = element("body", vec![], vec![element("button", vec![attr(":click", "let = ;")], vec![])]);
    assert!(run_id_template_passes(bad).is_none());
}

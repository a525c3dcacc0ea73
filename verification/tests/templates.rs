use fluent_web::css::{escape_format_braces, replace_all_in, scoped_style_block};
use fluent_web::selector_scope::scope_selector_segments;
use fluent_web::error::Compiler;
use fluent_web::html::{
    add_class, body_html, get_attribute, get_html_body, insert_attribute, remove_attribute,
    HtmlAttribute, HtmlElement, HtmlNode,
};
use fluent_web::ifs::parse_and_modify_html;
use fluent_web::markers::{
    modify_html, modify_html_closures, modify_html_custom_events, modify_html_exprs,
    modify_html_with_ids,
};
use fluent_web::reactive_text;
use fluent_web::subcomponent::find_subcomponents;

const HTML_NS: &str = "http://www.w3.org/1999/xhtml";

fn attr(name: &str, value: &str) -> HtmlAttribute {
    HtmlAttribute {
        namespace: String::new(),
        prefix: None,
        name: name.to_string(),
        value: value.to_string(),
    }
}

fn element(name: &str, attributes: Vec<HtmlAttribute>, children: Vec<HtmlNode>) -> HtmlNode {
    HtmlNode::Element(HtmlElement {
        namespace: HTML_NS.to_string(),
        prefix: None,
        name: name.to_string(),
        attributes,
        children,
    })
}

fn text(t: &str) -> HtmlNode {
    HtmlNode::Text(t.to_string())
}

fn as_element(n: &HtmlNode) -> &HtmlElement {
    match n {
        HtmlNode::Element(e) => e,
        _ => panic!("expected an element"),
    }
}

fn names(attrs: &[HtmlAttribute]) -> Vec<&str> {
    attrs.iter().map(|a| a.name.as_str()).collect()
}

#[test]
fn attribute_operations_follow_the_attribute_map() {
    let mut attrs = vec![attr("a", "1"), attr("b", "2"), attr("c", "3")];
    assert_eq!(get_attribute(&attrs, "b"), Some("2".to_string()));
    assert_eq!(get_attribute(&attrs, "z"), None);

    // Removing moves the last attribute into the hole.
    remove_attribute(&mut attrs, "a");
    assert_eq!(names(&attrs), vec!["c", "b"]);
    remove_attribute(&mut attrs, "missing");
    assert_eq!(names(&attrs), vec!["c", "b"]);

    // Inserting replaces in place or appends.
    insert_attribute(&mut attrs, "b", "two".to_string());
    assert_eq!(names(&attrs), vec!["c", "b"]);
    assert_eq!(attrs[1].value, "two");
    insert_attribute(&mut attrs, "d", "4".to_string());
    assert_eq!(names(&attrs), vec!["c", "b", "d"]);
}

#[test]
fn add_class_appends_or_creates() {
    let mut attrs = vec![attr("id", "x")];
    add_class(&mut attrs, "one");
    assert_eq!(names(&attrs), vec!["id", "class"]);
    assert_eq!(attrs[1].value, " one");
    add_class(&mut attrs, "two");
    assert_eq!(attrs[1].value, " one two");
}

#[test]
fn modify_html_tags_the_element_and_removes_prefixed_attributes() {
    let mut node = element(
        "body",
        vec![],
        vec![element(
            "div",
            vec![attr("class", "a"), attr("?hidden", "x > 1"), attr("id", "k")],
            vec![element("p", vec![attr("?open", "y")], vec![])],
        )],
    );
    let infos = modify_html(&mut node, "?");
    assert_eq!(infos.len(), 2);

    let body = as_element(&node);
    let div = as_element(&body.children[0]);
    assert_eq!(infos[0].attribute, "hidden");
    assert_eq!(infos[0].value, "x > 1");
    assert_eq!(infos[0].element, "div");
    assert_eq!(infos[0].src, None);
    assert!(infos[0].id.starts_with("__Fluent_UUID_"));
    assert_eq!(names(&div.attributes), vec!["class", "id"]);
    assert_eq!(div.attributes[0].value, format!("a {}", infos[0].id));

    let p = as_element(&div.children[0]);
    assert_eq!(infos[1].attribute, "open");
    assert_eq!(infos[1].element, "p");
    assert_eq!(names(&p.attributes), vec!["class"]);
    assert_eq!(p.attributes[0].value, format!(" {}", infos[1].id));
    assert_ne!(infos[0].id, infos[1].id);
}

#[test]
fn modify_html_with_given_ids_records_src() {
    let node = element(
        "component",
        vec![attr(";done", "|e| {}"), attr("src", "crate::Sub")],
        vec![],
    );
    let ids = vec!["ID0".to_string()];
    let (out, infos) = modify_html_with_ids(node, ";", &ids, false);
    assert_eq!(infos.len(), 1);
    assert_eq!(infos[0].id, "ID0");
    assert_eq!(infos[0].attribute, "done");
    assert_eq!(infos[0].src, Some("crate::Sub".to_string()));
    let e = as_element(&out);
    // class is added at the end, then `;done` is removed and the last attribute
    // takes its place.
    assert_eq!(names(&e.attributes), vec!["class", "src"]);
    assert_eq!(e.attributes[0].value, " ID0");
}

#[test]
fn modify_html_leaves_unmarked_trees_alone() {
    let mut node = element("div", vec![attr("class", "a")], vec![text("hi")]);
    let infos = modify_html(&mut node, "--");
    assert!(infos.is_empty());
    let e = as_element(&node);
    assert_eq!(e.attributes[0].value, "a");
}

#[test]
fn modify_html_exprs_parses_values() {
    let mut node = element("div", vec![attr("=value", "count + 1")], vec![]);
    let infos = modify_html_exprs(&mut node, "=").unwrap();
    assert_eq!(infos.len(), 1);
    assert_eq!(infos[0].attribute, "value");

    let mut bad = element("div", vec![attr("=value", "count +")], vec![]);
    assert!(matches!(modify_html_exprs(&mut bad, "="), Err(Compiler::Parse(_))));
}

#[test]
fn modify_html_closures_needs_closures() {
    let mut node = element("button", vec![attr(":click", "|e, el| {}")], vec![]);
    let infos = modify_html_closures(&mut node, ":").unwrap();
    assert_eq!(infos[0].element, "button");
    assert_eq!(infos[0].attribute, "click");

    let mut bad = element("button", vec![attr(":click", "1 + 2")], vec![]);
    assert!(matches!(modify_html_closures(&mut bad, ":"), Err(Compiler::Parse(_))));
}

#[test]
fn modify_html_custom_events_errors() {
    let mut ok = element("div", vec![attr(";input", "|e| {}"), attr("src", "InputModule")], vec![]);
    assert_eq!(modify_html_custom_events(&mut ok, ";").unwrap().len(), 1);

    let mut no_src = element("div", vec![attr(";input", "|e| {}")], vec![]);
    assert!(matches!(modify_html_custom_events(&mut no_src, ";"), Err(Compiler::MissingSrc)));

    let mut bad_closure = element("div", vec![attr(";input", "nope nope"), attr("src", "A")], vec![]);
    assert!(matches!(modify_html_custom_events(&mut bad_closure, ";"), Err(Compiler::Parse(_))));
}

#[test]
fn reactive_text_is_replaced_by_a_span() {
    let mut node = element("p", vec![], vec![text("Hi {name}!"), text("static")]);
    let texts = reactive_text::modify_html(&mut node).unwrap();
    assert_eq!(texts.len(), 1);
    assert_eq!(texts[0].text, "Hi {}!");
    assert_eq!(texts[0].expressions.len(), 1);
    let p = as_element(&node);
    let span = as_element(&p.children[0]);
    assert_eq!(span.name, "span");
    assert_eq!(span.namespace, HTML_NS);
    assert_eq!(span.attributes.len(), 1);
    assert_eq!(span.attributes[0].name, "class");
    assert_eq!(span.attributes[0].value, texts[0].id);
    assert!(span.children.is_empty());
    assert!(matches!(&p.children[1], HtmlNode::Text(t) if t == "static"));
}

#[test]
fn reactive_text_parse_error() {
    let mut node = element("p", vec![], vec![text("Hi {1 +}")]);
    assert!(matches!(reactive_text::modify_html(&mut node), Err(Compiler::Parse(_))));
}

#[test]
fn subcomponents_become_divs() {
    let node = element(
        "body",
        vec![],
        vec![element("component", vec![attr("src", "crate::Sub"), attr("id", "x")], vec![text("ignored")])],
    );
    let (out, subs) = find_subcomponents(node).unwrap();
    assert_eq!(subs.len(), 1);
    assert_eq!(subs[0].component_source, "crate::Sub");
    let body = as_element(&out);
    let div = as_element(&body.children[0]);
    assert_eq!(div.name, "div");
    assert!(div.children.is_empty());
    assert_eq!(names(&div.attributes), vec!["src", "id", "class"]);
    assert_eq!(div.attributes[2].value, format!(" {} __Fluent_Needs_Init", subs[0].id));
}

#[test]
fn subcomponent_errors() {
    let missing = element("component", vec![attr("id", "x")], vec![]);
    assert!(matches!(find_subcomponents(missing), Err(Compiler::MissingSrc)));
    let bad = element("component", vec![attr("src", "not a path!")], vec![]);
    assert!(matches!(find_subcomponents(bad), Err(Compiler::Parse(_))));
}

#[test]
fn ifs_are_replaced_by_placeholders() {
    let mut node = element(
        "body",
        vec![],
        vec![element("p", vec![attr("$if", "shown")], vec![text("Now you see me")])],
    );
    let ifs = parse_and_modify_html(&mut node).unwrap();
    assert_eq!(ifs.len(), 1);
    let body = as_element(&node);
    let placeholder = as_element(&body.children[0]);
    assert_eq!(placeholder.name, "div");
    assert_eq!(placeholder.attributes[0].name, "class");
    assert_eq!(placeholder.attributes[0].value, ifs[0].id);
    assert_eq!(ifs[0].true_case, format!("<p class=\" {}\">Now you see me</p>", ifs[0].id));
}

#[test]
fn ifs_parse_error() {
    let mut node = element("p", vec![attr("$if", "a +")], vec![]);
    assert!(matches!(parse_and_modify_html(&mut node), Err(Compiler::Parse(_))));
}

#[test]
fn parse_and_serialize_template() {
    let source = "<data>let mut x: u8 = 1;</data><template><div class=\"a\">Hi <b>there</b></div></template>";
    let body = get_html_body(source).unwrap();
    let e = as_element(&body);
    assert_eq!(e.name, "body");
    let div = as_element(&e.children[0]);
    assert_eq!(div.name, "div");
    assert_eq!(div.attributes[0].value, "a");
    assert_eq!(body_html(&body), "<div class=\"a\">Hi <b>there</b></div>");
}

#[test]
fn no_template_gives_an_empty_body() {
    let body = get_html_body("<data></data>").unwrap();
    let e = as_element(&body);
    assert_eq!(e.name, "body");
    assert!(e.children.is_empty());
    assert_eq!(body_html(&body), "");
}

#[test]
fn frameset_template_builds_no_body() {
    assert!(get_html_body("<template><frameset></frameset></template>").is_none());
}

#[test]
fn template_tags_out_of_order_give_an_empty_body() {
    let body = get_html_body("</template><template><p>x</p>").unwrap();
    let e = as_element(&body);
    assert_eq!(e.name, "body");
    assert!(e.children.is_empty());
}

#[test]
fn odd_templates_do_not_crash() {
    for s in ["", "<template>", "</template>", "<template></template>", "<template><body><frameset>",
        "<template><head></head><frameset><frame></frameset></template>", "<<template>>>"] {
        let _ = get_html_body(s);
    }
}

#[test]
fn css_text_helpers() {
    assert_eq!(escape_format_braces("a{b}c"), "a{{b}}c");
    assert_eq!(replace_all_in("aXbXXc", "X", "-"), "a-b--c");
    assert_eq!(replace_all_in("aaa", "aa", "b"), "ba");
}

#[test]
fn scoped_style_block_example() {
    let css = "p:where(#M *){color:red}";
    assert_eq!(scoped_style_block(css, "M"), "<style>p:where(#{root} *){{color:red}}</style>");
}

#[test]
fn scoped_style_renders_with_root() {
    // Filling `{root}` and undoing the doubled braces gives the CSS with the
    // marker replaced by the root id.
    let block = scoped_style_block("#MARK a{x:y}", "MARK");
    let rendered = block
        .replace("{root}", "app")
        .replace("{{", "{")
        .replace("}}", "}");
    assert_eq!(rendered, "<style>#app a{x:y}</style>");
}

fn parts_text(parts: Vec<fluent_web::selector_scope::SelectorPart<&str, char>>) -> String {
    parts
        .into_iter()
        .map(|p| match p {
            fluent_web::selector_scope::SelectorPart::Component(c) => c.to_string(),
            fluent_web::selector_scope::SelectorPart::Combinator(k) => format!("[{k}]"),
        })
        .collect::<Vec<_>>()
        .join("")
}

#[test]
fn scope_selector_segments_adds_scope_at_both_ends() {
    // `a > b c`, walked from the right: `c`, then `b` joined by ` `, then `a` by `>`.
    let segments = vec![(vec!["c"], None), (vec!["b"], Some(' ')), (vec!["a"], Some('>'))];
    assert_eq!(parts_text(scope_selector_segments(segments, "R", "L")), "aL[>]b[ ]cR");
    // A single compound selector gets both.
    let single = vec![(vec!["p", ".x"], None)];
    assert_eq!(parts_text(scope_selector_segments(single, "R", "L")), "p.xRL");
}

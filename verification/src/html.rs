//! A plain model of the HTML tree of a component template, its attribute
//! operations, and the trusted bridge to the HTML parser and serializer.
//!
//! The tree is what `kuchikiki` builds from a template: elements with a
//! namespace, an optional prefix and a local name, attributes in the order of
//! their map, and child nodes. Attribute names are looked up in the null
//! namespace, new attributes go to the end, and removing one moves the last
//! attribute into its place, as the `indexmap` behind `kuchikiki` does.

use vstd::prelude::*;
use vstd::string::*;
use crate::text::{
    same_text, push_char, find_top_level_tag, tag_region_in_order, tag_region_is_ordered,
    top_level_tag_content,
};
use html5ever::tendril::TendrilSink;

verus! {

broadcast use vstd::seq_lib::group_seq_properties;

// ---------------------------------------------------------------------------
// Views
// ---------------------------------------------------------------------------

/// An attribute as plain text.
pub struct AttrView {
    pub namespace: Seq<char>,
    pub prefix: Option<Seq<char>>,
    pub name: Seq<char>,
    pub value: Seq<char>,
}

/// A node as plain text.
pub enum NodeView {
    Element {
        namespace: Seq<char>,
        prefix: Option<Seq<char>>,
        name: Seq<char>,
        attributes: Seq<AttrView>,
        children: Seq<NodeView>,
    },
    Text(Seq<char>),
    Comment(Seq<char>),
    ProcessingInstruction(Seq<char>, Seq<char>),
    Doctype(Seq<char>),
    Fragment(Seq<NodeView>),
}

pub open spec fn opt_view(o: Option<String>) -> Option<Seq<char>> {
    match o {
        Some(s) => Some(s@),
        None => None,
    }
}

// ---------------------------------------------------------------------------
// The tree
// ---------------------------------------------------------------------------

/// An attribute: namespace URL (empty for ordinary attributes), prefix, local
/// name and value.
#[derive(Clone, Debug)]
pub struct HtmlAttribute {
    pub namespace: String,
    pub prefix: Option<String>,
    pub name: String,
    pub value: String,
}

impl View for HtmlAttribute {
    type V = AttrView;

    open spec fn view(&self) -> AttrView {
        AttrView {
            namespace: self.namespace@,
            prefix: opt_view(self.prefix),
            name: self.name@,
            value: self.value@,
        }
    }
}

/// An element: namespace URL, prefix, local name, attributes and children.
#[derive(Debug)]
pub struct HtmlElement {
    pub namespace: String,
    pub prefix: Option<String>,
    pub name: String,
    pub attributes: Vec<HtmlAttribute>,
    pub children: Vec<HtmlNode>,
}

/// A node of the tree.
#[derive(Debug)]
pub enum HtmlNode {
    Element(HtmlElement),
    Text(String),
    Comment(String),
    ProcessingInstruction(String, String),
    Doctype(String),
    /// A document or document fragment: only its children are written out.
    Fragment(Vec<HtmlNode>),
}

pub open spec fn attrs_view(attrs: Seq<HtmlAttribute>) -> Seq<AttrView> {
    attrs.map_values(|a: HtmlAttribute| a@)
}

impl View for HtmlNode {
    type V = NodeView;

    open spec fn view(&self) -> NodeView
        decreases self,
    {
        match self {
            HtmlNode::Element(e) => NodeView::Element {
                namespace: e.namespace@,
                prefix: opt_view(e.prefix),
                name: e.name@,
                attributes: attrs_view(e.attributes@),
                children: nodes_view(e.children@),
            },
            HtmlNode::Text(t) => NodeView::Text(t@),
            HtmlNode::Comment(t) => NodeView::Comment(t@),
            HtmlNode::ProcessingInstruction(t, d) => NodeView::ProcessingInstruction(t@, d@),
            HtmlNode::Doctype(n) => NodeView::Doctype(n@),
            HtmlNode::Fragment(c) => NodeView::Fragment(nodes_view(c@)),
        }
    }
}

/// The views of a sequence of nodes.
pub open spec fn nodes_view(s: Seq<HtmlNode>) -> Seq<NodeView>
    decreases s,
{
    if s.len() == 0 {
        Seq::empty()
    } else {
        nodes_view(s.drop_last()).push(s.last().view())
    }
}

/// `nodes_view` is the view of each node.
pub proof fn lemma_nodes_view(s: Seq<HtmlNode>)
    ensures
        nodes_view(s).len() == s.len(),
        forall|i: int| 0 <= i < s.len() ==> #[trigger] nodes_view(s)[i] == s[i]@,
    decreases s.len(),
{
    if s.len() > 0 {
        lemma_nodes_view(s.drop_last());
        let v = nodes_view(s);
        assert(v == nodes_view(s.drop_last()).push(s.last()@));
        assert forall|i: int| 0 <= i < s.len() implies #[trigger] v[i] == s[i]@ by {
            if i < s.len() - 1 {
                assert(v[i] == nodes_view(s.drop_last())[i]);
                assert(s.drop_last()[i] == s[i]);
            }
        }
    }
}

/// Number of nodes in a tree.
pub open spec fn node_size(n: NodeView) -> nat
    decreases n,
{
    match n {
        NodeView::Element { children, .. } => 1 + nodes_size(children),
        NodeView::Fragment(children) => 1 + nodes_size(children),
        _ => 1,
    }
}

/// Number of nodes in a list of trees.
pub open spec fn nodes_size(s: Seq<NodeView>) -> nat
    decreases s,
{
    if s.len() == 0 {
        0
    } else {
        nodes_size(s.drop_last()) + node_size(s.last())
    }
}

/// Each tree of a list is no larger than the list.
pub proof fn lemma_nodes_size(s: Seq<NodeView>, i: int)
    requires
        0 <= i < s.len(),
    ensures
        node_size(s[i]) <= nodes_size(s),
    decreases s.len(),
{
    if i < s.len() - 1 {
        lemma_nodes_size(s.drop_last(), i);
    }
}

// ---------------------------------------------------------------------------
// Attribute operations (specification)
// ---------------------------------------------------------------------------

/// `class`
pub open spec fn class_name() -> Seq<char> {
    seq!['c', 'l', 'a', 's', 's']
}

/// `src`
pub open spec fn src_name() -> Seq<char> {
    seq!['s', 'r', 'c']
}

/// `div`
pub open spec fn div_name() -> Seq<char> {
    seq!['d', 'i', 'v']
}

/// `span`
pub open spec fn span_name() -> Seq<char> {
    seq!['s', 'p', 'a', 'n']
}

/// The HTML namespace URL, `http://www.w3.org/1999/xhtml`.
pub open spec fn html_ns() -> Seq<char> {
    seq![
        'h', 't', 't', 'p', ':', '/', '/', 'w', 'w', 'w', '.', 'w', '3', '.', 'o', 'r', 'g', '/',
        '1', '9', '9', '9', '/', 'x', 'h', 't', 'm', 'l',
    ]
}

/// The attribute `name` in the null namespace is at index `i`.
pub open spec fn attr_is(a: AttrView, name: Seq<char>) -> bool {
    a.namespace.len() == 0 && a.name == name
}

/// The first index `>= i` of the attribute `name` in the null namespace.
pub open spec fn attr_index_from(attrs: Seq<AttrView>, name: Seq<char>, i: int) -> Option<int>
    decreases attrs.len() - i,
{
    if i < 0 || i >= attrs.len() {
        None
    } else if attr_is(attrs[i], name) {
        Some(i)
    } else {
        attr_index_from(attrs, name, i + 1)
    }
}

/// The index of the attribute `name` in the null namespace.
pub open spec fn attr_index(attrs: Seq<AttrView>, name: Seq<char>) -> Option<int> {
    attr_index_from(attrs, name, 0)
}

/// The value of the attribute `name` (`Attributes::get`).
pub open spec fn attr_get(attrs: Seq<AttrView>, name: Seq<char>) -> Option<Seq<char>> {
    match attr_index(attrs, name) {
        Some(i) => Some(attrs[i].value),
        None => None,
    }
}

/// A plain attribute in the null namespace.
pub open spec fn plain_attr(name: Seq<char>, value: Seq<char>) -> AttrView {
    AttrView { namespace: Seq::empty(), prefix: None, name, value }
}

/// Sets the attribute `name` (`Attributes::insert`): in place if present,
/// otherwise at the end.
pub open spec fn attr_insert(attrs: Seq<AttrView>, name: Seq<char>, value: Seq<char>) -> Seq<
    AttrView,
> {
    match attr_index(attrs, name) {
        Some(i) => attrs.update(i, plain_attr(name, value)),
        None => attrs.push(plain_attr(name, value)),
    }
}

/// Removes the attribute `name` (`Attributes::remove`): the last attribute
/// takes its place.
pub open spec fn attr_remove(attrs: Seq<AttrView>, name: Seq<char>) -> Seq<AttrView> {
    match attr_index(attrs, name) {
        Some(i) => attrs.update(i, attrs.last()).drop_last(),
        None => attrs,
    }
}

/// Appends ` class` to the `class` attribute, creating it if needed.
pub open spec fn attr_add_class(attrs: Seq<AttrView>, class: Seq<char>) -> Seq<AttrView> {
    match attr_index(attrs, class_name()) {
        Some(i) => attrs.update(
            i,
            AttrView { value: attrs[i].value + seq![' '] + class, ..attrs[i] },
        ),
        None => attrs.push(plain_attr(class_name(), seq![' '] + class)),
    }
}

pub proof fn lemma_attr_index_from(attrs: Seq<AttrView>, name: Seq<char>, i: int)
    requires
        0 <= i,
    ensures
        attr_index_from(attrs, name, i) matches Some(k) ==> i <= k < attrs.len() && attr_is(
            attrs[k],
            name,
        ),
    decreases attrs.len() - i,
{
    if i < attrs.len() && !attr_is(attrs[i], name) {
        lemma_attr_index_from(attrs, name, i + 1);
    }
}

/// No two attributes in the null namespace share a name, as for the attributes
/// that the HTML parser builds (they are keyed by namespace and name).
pub open spec fn plain_names_unique(attrs: Seq<AttrView>) -> bool {
    forall|i: int, j: int|
        0 <= i < j < attrs.len() && (#[trigger] attrs[i]).namespace.len() == 0 && (
        #[trigger] attrs[j]).namespace.len() == 0 ==> attrs[i].name != attrs[j].name
}

/// Some attribute in the null namespace is named `m`.
pub open spec fn has_plain_name(attrs: Seq<AttrView>, m: Seq<char>) -> bool {
    exists|i: int| 0 <= i < attrs.len() && attr_is(#[trigger] attrs[i], m)
}

/// Some attribute is named `m`.
pub open spec fn has_name(attrs: Seq<AttrView>, m: Seq<char>) -> bool {
    exists|i: int| 0 <= i < attrs.len() && (#[trigger] attrs[i]).name == m
}

/// No attribute from `i` on is the attribute `name` when the search finds none.
pub proof fn lemma_attr_index_none(attrs: Seq<AttrView>, name: Seq<char>, i: int)
    requires
        0 <= i,
        attr_index_from(attrs, name, i) is None,
    ensures
        forall|j: int| i <= j < attrs.len() ==> !attr_is(#[trigger] attrs[j], name),
    decreases attrs.len() - i,
{
    if i < attrs.len() {
        lemma_attr_index_none(attrs, name, i + 1);
    }
}

/// The attribute `name` is found exactly when some attribute in the null
/// namespace has that name.
proof fn lemma_attr_index_found(attrs: Seq<AttrView>, name: Seq<char>)
    ensures
        attr_index(attrs, name) matches Some(i) ==> 0 <= i < attrs.len() && attr_is(attrs[i], name),
        attr_index(attrs, name) is None ==> !has_plain_name(attrs, name),
{
    lemma_attr_index_from(attrs, name, 0);
    if attr_index(attrs, name) is None {
        lemma_attr_index_none(attrs, name, 0);
    }
}

/// Removing an attribute keeps every attribute that is not the removed one.
pub proof fn lemma_remove_keeps_others(attrs: Seq<AttrView>, n: Seq<char>)
    ensures
        forall|k: int|
            0 <= k < attrs.len() && !attr_is(#[trigger] attrs[k], n) ==> attr_remove(
                attrs,
                n,
            ).contains(attrs[k]),
{
    lemma_attr_index_found(attrs, n);
    let r = attr_remove(attrs, n);
    assert forall|k: int| 0 <= k < attrs.len() && !attr_is(#[trigger] attrs[k], n) implies r.contains(
        attrs[k],
    ) by {
        match attr_index(attrs, n) {
            None => {
                assert(r[k] == attrs[k]);
            },
            Some(i) => {
                let len = attrs.len();
                assert(k != i);
                if k == len - 1 {
                    assert(r[i] == attrs[k]);
                } else {
                    assert(r[k] == attrs[k]);
                }
            },
        }
    }
}

/// The class of attributes, or nothing when they have none.
pub open spec fn class_or_empty(attrs: Seq<AttrView>) -> Seq<char> {
    match attr_get(attrs, class_name()) {
        Some(v) => v,
        None => Seq::empty(),
    }
}

/// Adding a class keeps every other attribute, adds none but `class`, and the
/// class becomes the old class (or nothing), a space and the added class.
pub proof fn lemma_add_class_keeps_others(attrs: Seq<AttrView>, class: Seq<char>)
    ensures
        forall|k: int|
            0 <= k < attrs.len() && !attr_is(#[trigger] attrs[k], class_name()) ==> attr_add_class(
                attrs,
                class,
            ).contains(attrs[k]),
        forall|k: int|
            0 <= k < attr_add_class(attrs, class).len() && !attr_is(
                #[trigger] attr_add_class(attrs, class)[k],
                class_name(),
            ) ==> attrs.contains(attr_add_class(attrs, class)[k]),
        exists|k: int|
            0 <= k < attr_add_class(attrs, class).len() && attr_is(
                #[trigger] attr_add_class(attrs, class)[k],
                class_name(),
            ) && attr_add_class(attrs, class)[k].value == class_or_empty(attrs) + seq![' ']
                + class,
{
    lemma_attr_index_found(attrs, class_name());
    let r = attr_add_class(attrs, class);
    match attr_index(attrs, class_name()) {
        Some(i) => {
            assert forall|k: int| 0 <= k < attrs.len() && !attr_is(
                #[trigger] attrs[k],
                class_name(),
            ) implies r.contains(attrs[k]) by {
                assert(r[k] == attrs[k]);
            }
            assert forall|k: int| 0 <= k < r.len() && !attr_is(#[trigger] r[k], class_name())
                implies attrs.contains(r[k]) by {
                assert(k != i);
                assert(attrs[k] == r[k]);
            }
            assert(attr_is(r[i], class_name()));
        },
        None => {
            assert(r == attrs.push(plain_attr(class_name(), seq![' '] + class)));
            assert forall|k: int| 0 <= k < attrs.len() && !attr_is(
                #[trigger] attrs[k],
                class_name(),
            ) implies r.contains(attrs[k]) by {
                assert(r[k] == attrs[k]);
            }
            assert forall|k: int| 0 <= k < r.len() && !attr_is(#[trigger] r[k], class_name())
                implies attrs.contains(r[k]) by {
                assert(k < attrs.len());
                assert(attrs[k] == r[k]);
            }
            assert(Seq::<char>::empty() + seq![' '] + class =~= seq![' '] + class);
            assert(attr_is(r[attrs.len() as int], class_name()));
        },
    }
}

/// With unique names in the null namespace, removing another attribute leaves
/// the class as it was.
pub proof fn lemma_remove_keeps_class(attrs: Seq<AttrView>, n: Seq<char>)
    requires
        plain_names_unique(attrs),
        n != class_name(),
    ensures
        class_or_empty(attr_remove(attrs, n)) == class_or_empty(attrs),
{
    let r = attr_remove(attrs, n);
    lemma_remove_names(attrs, n);
    lemma_remove_keeps_others(attrs, n);
    lemma_attr_index_found(attrs, class_name());
    lemma_attr_index_found(r, class_name());
    match attr_index(attrs, class_name()) {
        Some(c) => {
            assert(r.contains(attrs[c]));
            let c2 = choose|c2: int| 0 <= c2 < r.len() && r[c2] == attrs[c];
            assert(has_plain_name(r, class_name()));
            let c3 = attr_index(r, class_name())->0;
            assert(attrs.contains(r[c3]));
            let j = choose|j: int| 0 <= j < attrs.len() && attrs[j] == r[c3];
            if j != c {
                if j < c {
                    assert(attrs[j].name != attrs[c].name);
                } else {
                    assert(attrs[c].name != attrs[j].name);
                }
            }
        },
        None => {
            if attr_index(r, class_name()) is Some {
                let c3 = attr_index(r, class_name())->0;
                assert(attrs.contains(r[c3]));
                let j = choose|j: int| 0 <= j < attrs.len() && attrs[j] == r[c3];
                assert(has_plain_name(attrs, class_name()));
            }
        },
    }
}

/// Removing an attribute takes exactly its name away from the null namespace,
/// keeps the names there unique, and keeps only attributes that were there.
pub proof fn lemma_remove_names(attrs: Seq<AttrView>, n: Seq<char>)
    requires
        plain_names_unique(attrs),
    ensures
        plain_names_unique(attr_remove(attrs, n)),
        forall|m: Seq<char>|
            has_plain_name(attr_remove(attrs, n), m) <==> (has_plain_name(attrs, m) && m != n),
        forall|k: int|
            0 <= k < attr_remove(attrs, n).len() ==> attrs.contains(
                #[trigger] attr_remove(attrs, n)[k],
            ),
{
    lemma_attr_index_found(attrs, n);
    let r = attr_remove(attrs, n);
    match attr_index(attrs, n) {
        None => {
            assert forall|k: int| 0 <= k < r.len() implies attrs.contains(#[trigger] r[k]) by {
                assert(attrs[k] == r[k]);
            }
        },
        Some(i) => {
            let len = attrs.len();
            assert(r == attrs.update(i, attrs.last()).drop_last());
            assert(r.len() == len - 1);
            assert forall|k: int| 0 <= k < r.len() implies #[trigger] r[k] == (if k == i {
                attrs[len - 1]
            } else {
                attrs[k]
            }) by {}
            assert forall|k: int| 0 <= k < r.len() implies attrs.contains(#[trigger] r[k]) by {
                if k == i {
                    assert(attrs[len - 1] == r[k]);
                } else {
                    assert(attrs[k] == r[k]);
                }
            }
            assert forall|k1: int, k2: int|
                0 <= k1 < k2 < r.len() && (#[trigger] r[k1]).namespace.len() == 0 && (
                #[trigger] r[k2]).namespace.len() == 0 implies r[k1].name != r[k2].name by {
                let f1 = if k1 == i { len - 1 } else { k1 };
                let f2 = if k2 == i { len - 1 } else { k2 };
                assert(f1 != f2);
                if f1 < f2 {
                    assert(attrs[f1].name != attrs[f2].name);
                } else {
                    assert(attrs[f2].name != attrs[f1].name);
                }
            }
            assert forall|m: Seq<char>| has_plain_name(r, m) <==> (has_plain_name(attrs, m) && m
                != n) by {
                if has_plain_name(r, m) {
                    let k = choose|k: int| 0 <= k < r.len() && attr_is(#[trigger] r[k], m);
                    let f = if k == i { len - 1 } else { k };
                    assert(attr_is(attrs[f], m));
                    assert(f != i);
                    if m == n {
                        if f < i {
                            assert(attrs[f].name != attrs[i].name);
                        } else {
                            assert(attrs[i].name != attrs[f].name);
                        }
                    }
                }
                if has_plain_name(attrs, m) && m != n {
                    let j = choose|j: int| 0 <= j < attrs.len() && attr_is(#[trigger] attrs[j], m);
                    assert(j != i);
                    if j == len - 1 {
                        assert(attr_is(r[i], m));
                    } else {
                        assert(attr_is(r[j], m));
                    }
                }
            }
        },
    }
}

/// Adding a class keeps the names in the null namespace unique; every attribute
/// is an old one or `class`.
pub proof fn lemma_add_class_names(attrs: Seq<AttrView>, class: Seq<char>)
    requires
        plain_names_unique(attrs),
    ensures
        plain_names_unique(attr_add_class(attrs, class)),
        forall|k: int|
            0 <= k < attr_add_class(attrs, class).len() ==> attrs.contains(
                #[trigger] attr_add_class(attrs, class)[k],
            ) || attr_add_class(attrs, class)[k].name == class_name(),
{
    lemma_attr_index_found(attrs, class_name());
    let r = attr_add_class(attrs, class);
    match attr_index(attrs, class_name()) {
        Some(i) => {
            assert forall|k: int| 0 <= k < r.len() implies (#[trigger] r[k]).name == attrs[k].name
                && r[k].namespace == attrs[k].namespace by {}
            assert forall|k: int| 0 <= k < r.len() implies attrs.contains(#[trigger] r[k])
                || r[k].name == class_name() by {
                if k != i {
                    assert(attrs[k] == r[k]);
                }
            }
        },
        None => {
            assert(r == attrs.push(plain_attr(class_name(), seq![' '] + class)));
            assert forall|k: int| 0 <= k < r.len() implies attrs.contains(#[trigger] r[k])
                || r[k].name == class_name() by {
                if k < attrs.len() {
                    assert(attrs[k] == r[k]);
                }
            }
            assert forall|k1: int, k2: int|
                0 <= k1 < k2 < r.len() && (#[trigger] r[k1]).namespace.len() == 0 && (
                #[trigger] r[k2]).namespace.len() == 0 implies r[k1].name != r[k2].name by {
                if k2 == attrs.len() {
                    assert(!attr_is(attrs[k1], class_name()));
                }
            }
        },
    }
}

/// Setting an attribute keeps the names in the null namespace unique; every
/// attribute is an old one or the one named `name`.
pub proof fn lemma_insert_names(attrs: Seq<AttrView>, name: Seq<char>, value: Seq<char>)
    requires
        plain_names_unique(attrs),
    ensures
        plain_names_unique(attr_insert(attrs, name, value)),
        forall|k: int|
            0 <= k < attr_insert(attrs, name, value).len() ==> attrs.contains(
                #[trigger] attr_insert(attrs, name, value)[k],
            ) || attr_insert(attrs, name, value)[k].name == name,
{
    lemma_attr_index_found(attrs, name);
    let r = attr_insert(attrs, name, value);
    match attr_index(attrs, name) {
        Some(i) => {
            assert forall|k: int| 0 <= k < r.len() implies (#[trigger] r[k]).name == attrs[k].name
                && (r[k].namespace.len() == 0 <==> attrs[k].namespace.len() == 0) by {}
            assert forall|k: int| 0 <= k < r.len() implies attrs.contains(#[trigger] r[k])
                || r[k].name == name by {
                if k != i {
                    assert(attrs[k] == r[k]);
                }
            }
        },
        None => {
            assert(r == attrs.push(plain_attr(name, value)));
            assert forall|k: int| 0 <= k < r.len() implies attrs.contains(#[trigger] r[k])
                || r[k].name == name by {
                if k < attrs.len() {
                    assert(attrs[k] == r[k]);
                }
            }
            assert forall|k1: int, k2: int|
                0 <= k1 < k2 < r.len() && (#[trigger] r[k1]).namespace.len() == 0 && (
                #[trigger] r[k2]).namespace.len() == 0 implies r[k1].name != r[k2].name by {
                if k2 == attrs.len() {
                    assert(!attr_is(attrs[k1], name));
                }
            }
        },
    }
}

// ---------------------------------------------------------------------------
// Attribute operations (executable)
// ---------------------------------------------------------------------------

/// A copy of an optional string.
pub fn clone_text_option(o: &Option<String>) -> (r: Option<String>)
    ensures
        opt_view(r) == opt_view(*o),
{
    match o {
        Some(s) => Some(s.clone()),
        None => None,
    }
}

/// A copy of an attribute.
pub fn clone_attribute(a: &HtmlAttribute) -> (r: HtmlAttribute)
    ensures
        r@ == a@,
{
    HtmlAttribute {
        namespace: a.namespace.clone(),
        prefix: clone_text_option(&a.prefix),
        name: a.name.clone(),
        value: a.value.clone(),
    }
}

/// Index of the attribute `name` in the null namespace.
pub fn find_attribute(attributes: &Vec<HtmlAttribute>, name: &str) -> (r: Option<usize>)
    ensures
        r matches Some(k) ==> attr_index(attrs_view(attributes@), name@) == Some(k as int) && k
            < attributes@.len(),
        r is None ==> attr_index(attrs_view(attributes@), name@) is None,
{
    let ghost av = attrs_view(attributes@);
    let mut i: usize = 0;
    while i < attributes.len()
        invariant
            av == attrs_view(attributes@),
            i <= attributes@.len(),
            attr_index(av, name@) == attr_index_from(av, name@, i as int),
        decreases attributes.len() - i,
    {
        let a = &attributes[i];
        assert(av[i as int] == a@);
        if a.namespace.as_str().is_empty() && same_text(a.name.as_str(), name) {
            return Some(i);
        }
        i += 1;
    }
    None
}

/// The value of the attribute `name` (`Attributes::get`).
pub fn get_attribute(attributes: &Vec<HtmlAttribute>, name: &str) -> (r: Option<String>)
    ensures
        opt_view(r) == attr_get(attrs_view(attributes@), name@),
{
    match find_attribute(attributes, name) {
        Some(i) => Some(attributes[i].value.clone()),
        None => None,
    }
}

/// Removes the attribute `name` (`Attributes::remove`).
pub fn remove_attribute(attributes: &mut Vec<HtmlAttribute>, name: &str)
    ensures
        attrs_view(final(attributes)@) == attr_remove(attrs_view(old(attributes)@), name@),
{
    match find_attribute(attributes, name) {
        Some(i) => {
            let ghost before = attributes@;
            let _ = attributes.swap_remove(i);
            assert(attrs_view(attributes@) =~= attr_remove(attrs_view(before), name@));
        },
        None => {},
    }
}

/// Sets the attribute `name` (`Attributes::insert`).
pub fn insert_attribute(attributes: &mut Vec<HtmlAttribute>, name: &str, value: String)
    ensures
        attrs_view(final(attributes)@) == attr_insert(attrs_view(old(attributes)@), name@, value@),
{
    let attr = HtmlAttribute {
        namespace: String::new(),
        prefix: None,
        name: String::from_str(name),
        value,
    };
    let ghost before = attributes@;
    match find_attribute(attributes, name) {
        Some(i) => {
            attributes.set(i, attr);
        },
        None => {
            attributes.push(attr);
        },
    }
    assert(attrs_view(attributes@) =~= attr_insert(attrs_view(before), name@, value@));
}

/// Adds a class to the `class` attribute, creating the attribute if it is not
/// there: the attribute's value becomes the old value, a space and `class`.
pub fn add_class(attributes: &mut Vec<HtmlAttribute>, class: &str)
    ensures
        attrs_view(final(attributes)@) == attr_add_class(attrs_view(old(attributes)@), class@),
{
    let ghost before = attributes@;
    let class_attr = String::from_str("class");
    proof {
        reveal_strlit("class");
    }
    assert(class_attr@ =~= class_name());
    match find_attribute(attributes, class_attr.as_str()) {
        Some(i) => {
            let old_attr = &attributes[i];
            let mut value = old_attr.value.clone();
            push_char(&mut value, ' ');
            value.append(class);
            let new_attr = HtmlAttribute {
                namespace: old_attr.namespace.clone(),
                prefix: clone_text_option(&old_attr.prefix),
                name: old_attr.name.clone(),
                value,
            };
            proof {
                let av = attrs_view(before);
                assert(av[i as int] == before[i as int]@);
                assert(new_attr@.value =~= av[i as int].value + seq![' '] + class@);
                assert(new_attr@ == AttrView {
                    value: av[i as int].value + seq![' '] + class@,
                    ..av[i as int]
                });
            }
            attributes.set(i, new_attr);
        },
        None => {
            let mut value = String::new();
            push_char(&mut value, ' ');
            value.append(class);
            let new_attr = HtmlAttribute {
                namespace: String::new(),
                prefix: None,
                name: class_attr,
                value,
            };
            assert(new_attr@ =~= plain_attr(class_name(), seq![' '] + class@));
            attributes.push(new_attr);
        },
    }
    assert(attrs_view(attributes@) =~= attr_add_class(attrs_view(before), class@));
}

// ---------------------------------------------------------------------------
// The bridge to `kuchikiki` and `html5ever`
// ---------------------------------------------------------------------------

#[verifier::external_type_specification]
#[verifier::external_body]
pub struct ExNodeRef(kuchikiki::NodeRef);

#[verifier::external_type_specification]
#[verifier::external_body]
pub struct ExElementData(kuchikiki::ElementData);

#[verifier::external_type_specification]
#[verifier::external_body]
pub struct ExKuchikikiAttribute(kuchikiki::Attribute);

#[verifier::external_type_specification]
#[verifier::external_body]
pub struct ExExpandedName(kuchikiki::ExpandedName);

/// The `<body>` element that `kuchikiki` (with `html5ever`, dropping the
/// doctype) builds from a template, as a plain tree; `None` when the parser
/// builds none (a `<frameset>` takes its place).
pub uninterp spec fn parsed_body(template: Seq<char>) -> Option<NodeView>;

/// The view of an optional node.
pub open spec fn opt_node_view(o: Option<HtmlNode>) -> Option<NodeView> {
    match o {
        Some(n) => Some(n@),
        None => None,
    }
}

/// The HTML text that `html5ever::serialize` writes for a list of sibling nodes.
pub uninterp spec fn serialized_html(nodes: Seq<NodeView>) -> Seq<char>;

/// Converts one `kuchikiki` attribute entry; moves the names and value into
/// plain strings.
#[verifier::external_body]
fn attribute_from_dom(name: &kuchikiki::ExpandedName, attr: &kuchikiki::Attribute) -> HtmlAttribute {
    HtmlAttribute {
        namespace: name.ns.to_string(),
        prefix: attr.prefix.as_ref().map(|p| p.to_string()),
        name: name.local.to_string(),
        value: attr.value.clone(),
    }
}

/// Converts a `kuchikiki` element with its attributes (in map order) and
/// children.
#[verifier::external_body]
fn element_from_dom(node: &kuchikiki::NodeRef, e: &kuchikiki::ElementData) -> HtmlElement {
    HtmlElement {
        namespace: e.name.ns.to_string(),
        prefix: e.name.prefix.as_ref().map(|p| p.to_string()),
        name: e.name.local.to_string(),
        attributes: e.attributes.borrow().map.iter().map(|(k, a)| attribute_from_dom(k, a)).collect(),
        children: node.children().map(|c| node_from_dom(&c)).collect(),
    }
}

/// Converts a `kuchikiki` node, one arm per kind of node.
#[verifier::external_body]
fn node_from_dom(node: &kuchikiki::NodeRef) -> HtmlNode {
    match node.data() {
        kuchikiki::NodeData::Element(e) => HtmlNode::Element(element_from_dom(node, e)),
        kuchikiki::NodeData::Text(t) => HtmlNode::Text(t.borrow().clone()),
        kuchikiki::NodeData::Comment(t) => HtmlNode::Comment(t.borrow().clone()),
        kuchikiki::NodeData::ProcessingInstruction(p) => HtmlNode::ProcessingInstruction(p.borrow().0.clone(), p.borrow().1.clone()),
        kuchikiki::NodeData::Doctype(d) => HtmlNode::Doctype(d.name.clone()),
        kuchikiki::NodeData::Document(_) | kuchikiki::NodeData::DocumentFragment => HtmlNode::Fragment(node.children().map(|c| node_from_dom(&c)).collect()),
    }
}

/// `body`
pub open spec fn body_name() -> Seq<char> {
    seq!['b', 'o', 'd', 'y']
}

/// Parses a template with `kuchikiki::parse_html_with_options` (doctype
/// dropped) and returns its `<body>` element, found with the selector `body`,
/// or `None` when the document has none (the parser puts a `<frameset>` in its
/// place). The HTML parser itself never fails, and the selector `body` is
/// valid. A body found is an element named `body`; what else the tree holds is
/// named, not stated.
#[verifier::external_body]
pub(crate) fn parse_template_body(template: &str) -> (r: Option<HtmlNode>)
    ensures
        opt_node_view(r) == parsed_body(template@),
        r matches Some(n) ==> n@ is Element && n@->name == body_name(),
{
    let opts = kuchikiki::ParseOpts { tree_builder: html5ever::tree_builder::TreeBuilderOpts { drop_doctype: true, ..Default::default() }, ..Default::default() };
    let parsed = kuchikiki::parse_html_with_options(opts).from_utf8().read_from(&mut template.as_bytes()).expect("reading from a byte slice cannot fail");
    let body = parsed.select("body").expect("`body` is a valid selector").next();
    body.map(|b| node_from_dom(b.as_node()))
}

/// Converts a plain attribute into a `kuchikiki` attribute entry.
#[verifier::external_body]
fn attribute_to_dom(a: &HtmlAttribute) -> (kuchikiki::ExpandedName, kuchikiki::Attribute) {
    (
        kuchikiki::ExpandedName::new(a.namespace.as_str(), a.name.as_str()),
        kuchikiki::Attribute { prefix: a.prefix.as_deref().map(html5ever::Prefix::from), value: a.value.clone() },
    )
}

/// Converts a plain element, with its attributes in order and its children.
#[verifier::external_body]
fn element_to_dom(e: &HtmlElement) -> kuchikiki::NodeRef {
    let prefix = e.prefix.as_deref().map(html5ever::Prefix::from);
    let name = html5ever::QualName::new(prefix, e.namespace.as_str().into(), e.name.as_str().into());
    let element = kuchikiki::NodeRef::new_element(name, e.attributes.iter().map(attribute_to_dom));
    e.children.iter().for_each(|c| element.append(node_to_dom(c)));
    element
}

/// Converts a plain node into a `kuchikiki` node, one arm per kind of node.
#[verifier::external_body]
fn node_to_dom(node: &HtmlNode) -> kuchikiki::NodeRef {
    match node {
        HtmlNode::Element(e) => element_to_dom(e),
        HtmlNode::Text(t) => kuchikiki::NodeRef::new_text(t.clone()),
        HtmlNode::Comment(t) => kuchikiki::NodeRef::new_comment(t.clone()),
        HtmlNode::ProcessingInstruction(t, d) => kuchikiki::NodeRef::new_processing_instruction(t.clone(), d.clone()),
        HtmlNode::Doctype(n) => kuchikiki::NodeRef::new_doctype(n.clone(), "", ""),
        HtmlNode::Fragment(c) => fragment_to_dom(c),
    }
}

/// A `kuchikiki` document fragment holding the converted nodes.
#[verifier::external_body]
fn fragment_to_dom(nodes: &Vec<HtmlNode>) -> kuchikiki::NodeRef {
    let fragment = kuchikiki::NodeRef::new(kuchikiki::NodeData::DocumentFragment);
    nodes.iter().for_each(|c| fragment.append(node_to_dom(c)));
    fragment
}

/// Writes sibling nodes as HTML with `html5ever::serialize` (children only, the
/// default options). Writing into a `Vec<u8>` cannot fail and the serializer
/// writes only UTF-8 text. What the text holds is named, not stated.
#[verifier::external_body]
pub(crate) fn serialize_nodes(nodes: &Vec<HtmlNode>) -> (r: String)
    ensures
        r@ == serialized_html(nodes_view(nodes@)),
{
    let mut out = Vec::new();
    html5ever::serialize(&mut out, &fragment_to_dom(nodes), html5ever::serialize::SerializeOpts::default()).expect("writing to a Vec cannot fail");
    String::from_utf8(out).expect("the serializer writes UTF-8")
}

// ---------------------------------------------------------------------------
// A component's template
// ---------------------------------------------------------------------------

/// `template`
pub open spec fn template_tag() -> Seq<char> {
    seq!['t', 'e', 'm', 'p', 'l', 'a', 't', 'e']
}

/// The text of the `<template>` section, or nothing when there is none or
/// when its closing tag comes before the end of its opening tag.
pub open spec fn template_text(source: Seq<char>) -> Seq<char> {
    if !tag_region_in_order(source, template_tag()) {
        Seq::empty()
    } else {
        match top_level_tag_content(source, template_tag()) {
            Some(t) => t,
            None => Seq::empty(),
        }
    }
}

/// The `<body>` that the HTML parser builds from a component's `<template>`
/// section (from nothing, when the file has no well formed one), or `None`
/// when the parser builds no body.
pub fn get_html_body(source_content: &str) -> (r: Option<HtmlNode>)
    ensures
        opt_node_view(r) == parsed_body(template_text(source_content@)),
        r matches Some(n) ==> n@ is Element && n@->name == body_name(),
{
    let tag = String::from_str("template");
    proof {
        reveal_strlit("template");
        reveal_strlit("");
    }
    assert(tag@ =~= template_tag());
    assert(""@ =~= Seq::<char>::empty());
    if !tag_region_is_ordered(source_content, tag.as_str()) {
        return parse_template_body("");
    }
    match find_top_level_tag(source_content, tag.as_str()) {
        Some(t) => parse_template_body(t),
        None => parse_template_body(""),
    }
}

/// What a component renders at first: the HTML of its body's children.
pub open spec fn rendered_body(body: NodeView) -> Seq<char> {
    match body {
        NodeView::Element { children, .. } => serialized_html(children),
        NodeView::Fragment(children) => serialized_html(children),
        _ => Seq::empty(),
    }
}

/// The HTML of the body's children, as the component renders it at first.
pub fn body_html(body: &HtmlNode) -> (r: String)
    ensures
        r@ == rendered_body(body@),
{
    match body {
        HtmlNode::Element(e) => serialize_nodes(&e.children),
        HtmlNode::Fragment(children) => serialize_nodes(children),
        _ => String::new(),
    }
}

} // verus!

//! Finding the attributes of a template that start with a prefix, such as
//! `?hidden="cond"`, `=value="expr"`, `@prop="expr"`, `:click="..."` or
//! `--color="..."`, taking them off their element and tagging the element (with
//! a class, or by its `id`) so that generated code can find it again.

use vstd::prelude::*;
use vstd::string::*;
use crate::html::{
    AttrView, NodeView, HtmlNode, HtmlElement, HtmlAttribute, opt_view, attr_remove, attr_get,
    attr_add_class, attr_insert, src_name, attrs_view, nodes_view, add_class, remove_attribute,
    get_attribute, insert_attribute,
    clone_attribute, node_size, nodes_size, lemma_nodes_size,
    lemma_nodes_view, class_name, plain_names_unique, has_name, has_plain_name, attr_is,
    lemma_remove_names, lemma_add_class_names, lemma_insert_names,
};
use crate::ids::{is_fluent_id, uuid};
use crate::text::{starts_with, text_starts_with, skip_chars};
use crate::error::Compiler;
use crate::template::{parses_as_expr, parse_expr};

verus! {

broadcast use vstd::seq_lib::group_seq_properties;

/// What was taken off an element, as plain text.
pub struct InfoView {
    pub id: Seq<char>,
    pub attribute: Seq<char>,
    pub value: Seq<char>,
    pub element: Seq<char>,
    pub src: Option<Seq<char>>,
}

/// Info about one attribute taken off an element.
#[derive(Debug)]
pub struct ModifiedHtmlInfo {
    /// The class given to the element.
    pub id: String,
    /// The attribute's name without the prefix.
    pub attribute: String,
    /// The attribute's value.
    pub value: String,
    /// The element's local name.
    pub element: String,
    /// The element's `src` attribute, used by custom event listeners.
    pub src: Option<String>,
}

impl View for ModifiedHtmlInfo {
    type V = InfoView;

    open spec fn view(&self) -> InfoView {
        InfoView {
            id: self.id@,
            attribute: self.attribute@,
            value: self.value@,
            element: self.element@,
            src: opt_view(self.src),
        }
    }
}

pub open spec fn infos_view(s: Seq<ModifiedHtmlInfo>) -> Seq<InfoView> {
    s.map_values(|i: ModifiedHtmlInfo| i@)
}

// ---------------------------------------------------------------------------
// Specification
// ---------------------------------------------------------------------------

/// The attributes whose local name starts with `prefix`, in order.
pub open spec fn prefixed_attrs(attrs: Seq<AttrView>, prefix: Seq<char>) -> Seq<AttrView>
    decreases attrs.len(),
{
    if attrs.len() == 0 {
        Seq::empty()
    } else {
        let rest = prefixed_attrs(attrs.drop_last(), prefix);
        if starts_with(attrs.last().name, prefix) {
            rest.push(attrs.last())
        } else {
            rest
        }
    }
}

/// Removes the marked attributes one after another, recording each with the
/// element's `src` attribute as it stands right after the removal.
pub open spec fn strip_marked(
    attrs: Seq<AttrView>,
    marked: Seq<AttrView>,
    prefix: Seq<char>,
    id: Seq<char>,
    element: Seq<char>,
) -> (Seq<AttrView>, Seq<InfoView>)
    decreases marked.len(),
{
    if marked.len() == 0 {
        (attrs, Seq::empty())
    } else {
        let (a, infos) = strip_marked(attrs, marked.drop_last(), prefix, id, element);
        let m = marked.last();
        let a2 = attr_remove(a, m.name);
        (
            a2,
            infos.push(
                InfoView {
                    id,
                    attribute: m.name.skip(prefix.len() as int),
                    value: m.value,
                    element,
                    src: attr_get(a2, src_name()),
                },
            ),
        )
    }
}

/// `id`
pub open spec fn id_name() -> Seq<char> {
    seq!['i', 'd']
}

/// How an element with marked attributes is tagged: the id it is known by and
/// its attributes after tagging. With `by_id`, it keeps its own `id` attribute
/// if it has one and otherwise gets `fresh` as its `id`; without, `fresh` is
/// added to its classes.
pub open spec fn tag_element(attrs: Seq<AttrView>, fresh: Seq<char>, by_id: bool) -> (
    Seq<char>,
    Seq<AttrView>,
) {
    if by_id {
        match attr_get(attrs, id_name()) {
            Some(v) => (v, attrs),
            None => (fresh, attr_insert(attrs, id_name(), fresh)),
        }
    } else {
        (fresh, attr_add_class(attrs, fresh))
    }
}

/// An element's new attributes and infos: unchanged when nothing is marked,
/// otherwise the element is tagged and the marked attributes are removed.
pub open spec fn mark_element(
    attrs: Seq<AttrView>,
    prefix: Seq<char>,
    fresh: Seq<char>,
    element: Seq<char>,
    by_id: bool,
) -> (Seq<AttrView>, Seq<InfoView>) {
    let marked = prefixed_attrs(attrs, prefix);
    if marked.len() == 0 {
        (attrs, Seq::empty())
    } else {
        let (id, tagged) = tag_element(attrs, fresh, by_id);
        strip_marked(tagged, marked, prefix, id, element)
    }
}

/// How many ids a node uses: one for every element with a marked attribute.
pub open spec fn marked_count(n: NodeView, prefix: Seq<char>) -> nat
    decreases n,
{
    match n {
        NodeView::Element { attributes, children, .. } => (if prefixed_attrs(
            attributes,
            prefix,
        ).len() > 0 {
            1nat
        } else {
            0nat
        }) + marked_count_all(children, prefix),
        _ => 0,
    }
}

/// How many ids a list of nodes uses.
pub open spec fn marked_count_all(ns: Seq<NodeView>, prefix: Seq<char>) -> nat
    decreases ns,
{
    if ns.len() == 0 {
        0
    } else {
        marked_count_all(ns.drop_last(), prefix) + marked_count(ns.last(), prefix)
    }
}

/// A node after marking, with the ids taken from the front of `ids` in tree
/// order: an element first, then its children.
pub open spec fn mark_node(n: NodeView, prefix: Seq<char>, ids: Seq<Seq<char>>, by_id: bool) -> (
    NodeView,
    Seq<InfoView>,
)
    decreases n,
{
    match n {
        NodeView::Element { namespace, prefix: p, name, attributes, children } => {
            let own = prefixed_attrs(attributes, prefix).len() > 0;
            let (attrs2, infos) = mark_element(attributes, prefix, ids[0], name, by_id);
            let rest = if own {
                ids.drop_first()
            } else {
                ids
            };
            let (children2, infos2) = mark_nodes(children, prefix, rest, by_id);
            (
                NodeView::Element {
                    namespace,
                    prefix: p,
                    name,
                    attributes: attrs2,
                    children: children2,
                },
                infos + infos2,
            )
        },
        _ => (n, Seq::empty()),
    }
}

/// Sibling nodes after marking, left to right.
pub open spec fn mark_nodes(ns: Seq<NodeView>, prefix: Seq<char>, ids: Seq<Seq<char>>, by_id: bool) -> (
    Seq<NodeView>,
    Seq<InfoView>,
)
    decreases ns,
{
    if ns.len() == 0 {
        (Seq::empty(), Seq::empty())
    } else {
        let (a, infos1) = mark_nodes(ns.drop_last(), prefix, ids, by_id);
        let used = marked_count_all(ns.drop_last(), prefix);
        let (b, infos2) = mark_node(ns.last(), prefix, ids.skip(used as int), by_id);
        (a.push(b), infos1 + infos2)
    }
}

// ---------------------------------------------------------------------------
// The law: no marked attribute is left
// ---------------------------------------------------------------------------

/// No attribute's name starts with `prefix`.
pub open spec fn no_prefixed(attrs: Seq<AttrView>, prefix: Seq<char>) -> bool {
    forall|i: int| 0 <= i < attrs.len() ==> !starts_with(#[trigger] attrs[i].name, prefix)
}

/// Every element of the tree satisfies `no_prefixed`.
pub open spec fn no_prefixed_tree(n: NodeView, prefix: Seq<char>) -> bool
    decreases n,
{
    match n {
        NodeView::Element { attributes, children, .. } => no_prefixed(attributes, prefix)
            && no_prefixed_all(children, prefix),
        _ => true,
    }
}

/// Every element of the trees satisfies `no_prefixed`.
pub open spec fn no_prefixed_all(ns: Seq<NodeView>, prefix: Seq<char>) -> bool
    decreases ns,
{
    if ns.len() == 0 {
        true
    } else {
        no_prefixed_all(ns.drop_last(), prefix) && no_prefixed_tree(ns.last(), prefix)
    }
}

/// The attributes are as the HTML parser builds them, as far as marking with
/// `prefix` reads them: no two in the null namespace share a name, and every
/// one whose name starts with the prefix is in the null namespace (the parser
/// puts only fixed names such as `xlink:href` or `xml:lang` in other
/// namespaces).
pub open spec fn marks_plain(attrs: Seq<AttrView>, prefix: Seq<char>) -> bool {
    &&& plain_names_unique(attrs)
    &&& forall|i: int|
        0 <= i < attrs.len() && starts_with((#[trigger] attrs[i]).name, prefix)
            ==> attrs[i].namespace.len() == 0
}

/// Every element of the tree satisfies `marks_plain`.
pub open spec fn marks_plain_tree(n: NodeView, prefix: Seq<char>) -> bool
    decreases n,
{
    match n {
        NodeView::Element { attributes, children, .. } => marks_plain(attributes, prefix)
            && marks_plain_all(children, prefix),
        _ => true,
    }
}

/// Every element of the trees satisfies `marks_plain`.
pub open spec fn marks_plain_all(ns: Seq<NodeView>, prefix: Seq<char>) -> bool
    decreases ns,
{
    if ns.len() == 0 {
        true
    } else {
        marks_plain_all(ns.drop_last(), prefix) && marks_plain_tree(ns.last(), prefix)
    }
}

/// The attribute that tags an element: `id` with `by_id`, `class` otherwise.
pub open spec fn tag_attribute(by_id: bool) -> Seq<char> {
    if by_id {
        id_name()
    } else {
        class_name()
    }
}

/// `has_name` on a sequence with one more attribute.
proof fn lemma_has_name_push(a: Seq<AttrView>, x: AttrView, m: Seq<char>)
    ensures
        has_name(a.push(x), m) <==> (has_name(a, m) || x.name == m),
{
    if has_name(a.push(x), m) {
        let k = choose|k: int| 0 <= k < a.push(x).len() && (#[trigger] a.push(x)[k]).name == m;
        if k < a.len() {
            assert(a[k].name == m);
        }
    }
    if has_name(a, m) {
        let k = choose|k: int| 0 <= k < a.len() && (#[trigger] a[k]).name == m;
        assert(a.push(x)[k].name == m);
    }
    if x.name == m {
        assert(a.push(x)[a.len() as int].name == m);
    }
}

/// Every attribute whose name starts with the prefix is picked.
proof fn lemma_prefixed_has(attrs: Seq<AttrView>, prefix: Seq<char>, x: Seq<char>)
    requires
        has_name(attrs, x),
        starts_with(x, prefix),
    ensures
        has_name(prefixed_attrs(attrs, prefix), x),
    decreases attrs.len(),
{
    let k = choose|k: int| 0 <= k < attrs.len() && (#[trigger] attrs[k]).name == x;
    let rest = prefixed_attrs(attrs.drop_last(), prefix);
    assert(attrs == attrs.drop_last().push(attrs.last()));
    if k < attrs.len() - 1 {
        assert(attrs.drop_last()[k].name == x);
        lemma_prefixed_has(attrs.drop_last(), prefix, x);
        lemma_has_name_push(rest, attrs.last(), x);
    } else {
        lemma_has_name_push(rest, attrs.last(), x);
    }
}

/// Stripping takes exactly the marked names away from the null namespace and
/// keeps only attributes that were there.
proof fn lemma_strip_names(
    a: Seq<AttrView>,
    marked: Seq<AttrView>,
    prefix: Seq<char>,
    id: Seq<char>,
    element: Seq<char>,
)
    requires
        plain_names_unique(a),
    ensures
        plain_names_unique(strip_marked(a, marked, prefix, id, element).0),
        forall|m: Seq<char>|
            has_plain_name(strip_marked(a, marked, prefix, id, element).0, m) <==> (
            has_plain_name(a, m) && !has_name(marked, m)),
        forall|k: int|
            0 <= k < strip_marked(a, marked, prefix, id, element).0.len() ==> a.contains(
                #[trigger] strip_marked(a, marked, prefix, id, element).0[k],
            ),
    decreases marked.len(),
{
    if marked.len() > 0 {
        lemma_strip_names(a, marked.drop_last(), prefix, id, element);
        let prev = strip_marked(a, marked.drop_last(), prefix, id, element).0;
        lemma_remove_names(prev, marked.last().name);
        let r = strip_marked(a, marked, prefix, id, element).0;
        assert(r == attr_remove(prev, marked.last().name));
        assert(marked == marked.drop_last().push(marked.last()));
        assert forall|m: Seq<char>| has_plain_name(r, m) <==> (has_plain_name(a, m) && !has_name(
            marked,
            m,
        )) by {
            lemma_has_name_push(marked.drop_last(), marked.last(), m);
        }
        assert forall|k: int| 0 <= k < r.len() implies a.contains(#[trigger] r[k]) by {
            assert(prev.contains(r[k]));
            let j = choose|j: int| 0 <= j < prev.len() && prev[j] == r[k];
            assert(a.contains(prev[j]));
        }
    }
}

/// After marking one element, none of its attributes starts with the prefix,
/// when its attributes are as the parser builds them and the tagging attribute
/// does not start with the prefix.
pub proof fn lemma_mark_element_removes_prefixed(
    attrs: Seq<AttrView>,
    prefix: Seq<char>,
    fresh: Seq<char>,
    element: Seq<char>,
    by_id: bool,
)
    requires
        marks_plain(attrs, prefix),
        !starts_with(tag_attribute(by_id), prefix),
    ensures
        no_prefixed(mark_element(attrs, prefix, fresh, element, by_id).0, prefix),
{
    let marked = prefixed_attrs(attrs, prefix);
    let r = mark_element(attrs, prefix, fresh, element, by_id).0;
    if marked.len() == 0 {
        assert forall|i: int| 0 <= i < attrs.len() implies !starts_with(
            #[trigger] attrs[i].name,
            prefix,
        ) by {
            if starts_with(attrs[i].name, prefix) {
                assert(has_name(attrs, attrs[i].name));
                lemma_prefixed_has(attrs, prefix, attrs[i].name);
            }
        }
    } else {
        let (id, tagged) = tag_element(attrs, fresh, by_id);
        if by_id {
            match attr_get(attrs, id_name()) {
                Some(_) => {
                    assert forall|k: int| 0 <= k < tagged.len() implies attrs.contains(
                        #[trigger] tagged[k],
                    ) || tagged[k].name == tag_attribute(by_id) by {
                        assert(attrs[k] == tagged[k]);
                    }
                },
                None => {
                    lemma_insert_names(attrs, id_name(), fresh);
                },
            }
        } else {
            lemma_add_class_names(attrs, fresh);
        }
        assert(plain_names_unique(tagged));
        assert(forall|k: int|
            0 <= k < tagged.len() ==> attrs.contains(#[trigger] tagged[k]) || tagged[k].name
                == tag_attribute(by_id));
        lemma_strip_names(tagged, marked, prefix, id, element);
        assert forall|i: int| 0 <= i < r.len() implies !starts_with(#[trigger] r[i].name, prefix) by {
            let x = r[i].name;
            if starts_with(x, prefix) {
                assert(tagged.contains(r[i]));
                let t = choose|t: int| 0 <= t < tagged.len() && tagged[t] == r[i];
                assert(x != tag_attribute(by_id));
                assert(attrs.contains(tagged[t]));
                let j = choose|j: int| 0 <= j < attrs.len() && attrs[j] == r[i];
                assert(starts_with(attrs[j].name, prefix));
                assert(attrs[j].namespace.len() == 0);
                assert(attr_is(r[i], x));
                assert(has_plain_name(r, x));
                assert(has_name(attrs, x));
                lemma_prefixed_has(attrs, prefix, x);
            }
        }
    }
}

/// After marking, no element of the tree has an attribute that starts with
/// the prefix, when every element's attributes are as the HTML parser makes
/// them and the tagging attribute (`class`, or `id`) does not
/// start with the prefix. This holds whatever ids are used.
pub proof fn lemma_mark_node_removes_prefixed(
    n: NodeView,
    prefix: Seq<char>,
    ids: Seq<Seq<char>>,
    by_id: bool,
)
    requires
        marks_plain_tree(n, prefix),
        !starts_with(tag_attribute(by_id), prefix),
    ensures
        no_prefixed_tree(mark_node(n, prefix, ids, by_id).0, prefix),
    decreases n, 0nat,
{
    match n {
        NodeView::Element { namespace, prefix: p, name, attributes, children } => {
            lemma_mark_element_removes_prefixed(attributes, prefix, ids[0], name, by_id);
            let own = prefixed_attrs(attributes, prefix).len() > 0;
            let rest = if own {
                ids.drop_first()
            } else {
                ids
            };
            lemma_mark_nodes_removes_prefixed(children, prefix, rest, by_id);
        },
        _ => {},
    }
}

/// The same for sibling trees.
pub proof fn lemma_mark_nodes_removes_prefixed(
    ns: Seq<NodeView>,
    prefix: Seq<char>,
    ids: Seq<Seq<char>>,
    by_id: bool,
)
    requires
        marks_plain_all(ns, prefix),
        !starts_with(tag_attribute(by_id), prefix),
    ensures
        no_prefixed_all(mark_nodes(ns, prefix, ids, by_id).0, prefix),
    decreases ns, 1nat,
{
    if ns.len() > 0 {
        lemma_mark_nodes_removes_prefixed(ns.drop_last(), prefix, ids, by_id);
        let used = marked_count_all(ns.drop_last(), prefix);
        lemma_mark_node_removes_prefixed(ns.last(), prefix, ids.skip(used as int), by_id);
        let (a, _) = mark_nodes(ns.drop_last(), prefix, ids, by_id);
        let (b, _) = mark_node(ns.last(), prefix, ids.skip(used as int), by_id);
        assert(a.push(b).drop_last() =~= a);
    }
}

// ---------------------------------------------------------------------------
// The law: every info comes from an attribute with the prefix
// ---------------------------------------------------------------------------

/// Some element named `element` in the tree has an attribute named `name`.
pub open spec fn tree_has_attribute(n: NodeView, element: Seq<char>, name: Seq<char>) -> bool
    decreases n,
{
    match n {
        NodeView::Element { name: e, attributes, children, .. } => (e == element && exists|i: int|
            0 <= i < attributes.len() && (#[trigger] attributes[i]).name == name)
            || trees_have_attribute(children, element, name),
        _ => false,
    }
}

/// The same for sibling trees.
pub open spec fn trees_have_attribute(ns: Seq<NodeView>, element: Seq<char>, name: Seq<char>) -> bool
    decreases ns,
{
    if ns.len() == 0 {
        false
    } else {
        trees_have_attribute(ns.drop_last(), element, name) || tree_has_attribute(
            ns.last(),
            element,
            name,
        )
    }
}

/// The marked attributes are attributes of the element whose names start with
/// the prefix.
proof fn lemma_prefixed_attrs_from(attrs: Seq<AttrView>, prefix: Seq<char>)
    ensures
        forall|k: int|
            0 <= k < prefixed_attrs(attrs, prefix).len() ==> attrs.contains(
                #[trigger] prefixed_attrs(attrs, prefix)[k],
            ) && starts_with(prefixed_attrs(attrs, prefix)[k].name, prefix),
    decreases attrs.len(),
{
    if attrs.len() > 0 {
        lemma_prefixed_attrs_from(attrs.drop_last(), prefix);
        let rest = prefixed_attrs(attrs.drop_last(), prefix);
        let all = prefixed_attrs(attrs, prefix);
        assert forall|k: int| 0 <= k < all.len() implies attrs.contains(#[trigger] all[k])
            && starts_with(all[k].name, prefix) by {
            if k < rest.len() {
                assert(all[k] == rest[k]);
                let j = choose|j: int| 0 <= j < attrs.drop_last().len() && attrs.drop_last()[j]
                    == rest[k];
                assert(attrs[j] == rest[k]);
            } else {
                assert(all[k] == attrs.last());
                assert(attrs[attrs.len() - 1] == attrs.last());
            }
        }
    }
}

/// Every info that marking a tree reports stands for an attribute of the tree:
/// the element the info names has an attribute named the prefix followed by
/// the info's attribute.
pub proof fn lemma_mark_node_infos_from_attributes(
    n: NodeView,
    prefix: Seq<char>,
    ids: Seq<Seq<char>>,
    by_id: bool,
)
    ensures
        forall|k: int|
            0 <= k < mark_node(n, prefix, ids, by_id).1.len() ==> tree_has_attribute(
                n,
                (#[trigger] mark_node(n, prefix, ids, by_id).1[k]).element,
                prefix + mark_node(n, prefix, ids, by_id).1[k].attribute,
            ),
    decreases n, 0nat,
{
    match n {
        NodeView::Element { namespace, prefix: p, name, attributes, children } => {
            let marked = prefixed_attrs(attributes, prefix);
            let own = mark_element(attributes, prefix, ids[0], name, by_id).1;
            lemma_prefixed_attrs_from(attributes, prefix);
            if marked.len() > 0 {
                let (id, tagged) = tag_element(attributes, ids[0], by_id);
                lemma_strip_infos(tagged, marked, prefix, id, name);
            }
            let rest = if marked.len() > 0 {
                ids.drop_first()
            } else {
                ids
            };
            lemma_mark_nodes_infos_from_attributes(children, prefix, rest, by_id);
            let infos2 = mark_nodes(children, prefix, rest, by_id).1;
            let all = mark_node(n, prefix, ids, by_id).1;
            assert(all == own + infos2);
            assert forall|k: int| 0 <= k < all.len() implies tree_has_attribute(
                n,
                (#[trigger] all[k]).element,
                prefix + all[k].attribute,
            ) by {
                if k < own.len() {
                    let m = marked[k];
                    assert(attributes.contains(m) && starts_with(m.name, prefix));
                    assert(prefix + m.name.skip(prefix.len() as int) =~= m.name);
                    let j = choose|j: int| 0 <= j < attributes.len() && attributes[j] == m;
                    assert(attributes[j].name == prefix + all[k].attribute);
                } else {
                    assert(all[k] == infos2[k - own.len()]);
                }
            }
        },
        _ => {},
    }
}

/// The same for sibling trees.
pub proof fn lemma_mark_nodes_infos_from_attributes(
    ns: Seq<NodeView>,
    prefix: Seq<char>,
    ids: Seq<Seq<char>>,
    by_id: bool,
)
    ensures
        forall|k: int|
            0 <= k < mark_nodes(ns, prefix, ids, by_id).1.len() ==> trees_have_attribute(
                ns,
                (#[trigger] mark_nodes(ns, prefix, ids, by_id).1[k]).element,
                prefix + mark_nodes(ns, prefix, ids, by_id).1[k].attribute,
            ),
    decreases ns, 1nat,
{
    if ns.len() > 0 {
        lemma_mark_nodes_infos_from_attributes(ns.drop_last(), prefix, ids, by_id);
        let used = marked_count_all(ns.drop_last(), prefix);
        lemma_mark_node_infos_from_attributes(ns.last(), prefix, ids.skip(used as int), by_id);
        let r1 = mark_nodes(ns.drop_last(), prefix, ids, by_id).1;
        let r2 = mark_node(ns.last(), prefix, ids.skip(used as int), by_id).1;
        let all = mark_nodes(ns, prefix, ids, by_id).1;
        assert(all == r1 + r2);
        assert forall|k: int| 0 <= k < all.len() implies trees_have_attribute(
            ns,
            (#[trigger] all[k]).element,
            prefix + all[k].attribute,
        ) by {
            if k < r1.len() {
                assert(all[k] == r1[k]);
            } else {
                assert(all[k] == r2[k - r1.len()]);
            }
        }
    }
}

// ---------------------------------------------------------------------------
// The law: marking twice changes nothing more
// ---------------------------------------------------------------------------

/// Without an attribute that starts with the prefix, none is marked.
proof fn lemma_no_prefixed_marks_none(attrs: Seq<AttrView>, prefix: Seq<char>)
    requires
        no_prefixed(attrs, prefix),
    ensures
        prefixed_attrs(attrs, prefix).len() == 0,
    decreases attrs.len(),
{
    if attrs.len() > 0 {
        assert(!starts_with(attrs[attrs.len() - 1].name, prefix));
        lemma_no_prefixed_marks_none(attrs.drop_last(), prefix);
    }
}

/// A tree with no attribute that starts with the prefix is left as it is, with
/// nothing reported and no id used.
pub proof fn lemma_mark_node_unmarked(n: NodeView, prefix: Seq<char>, ids: Seq<Seq<char>>, by_id: bool)
    requires
        no_prefixed_tree(n, prefix),
    ensures
        mark_node(n, prefix, ids, by_id) == (n, Seq::<InfoView>::empty()),
        marked_count(n, prefix) == 0,
    decreases n, 0nat,
{
    match n {
        NodeView::Element { attributes, children, .. } => {
            lemma_no_prefixed_marks_none(attributes, prefix);
            lemma_mark_nodes_unmarked(children, prefix, ids, by_id);
            let (c2, i2) = mark_nodes(children, prefix, ids, by_id);
            assert(Seq::<InfoView>::empty() + i2 =~= Seq::<InfoView>::empty());
        },
        _ => {},
    }
}

/// The same for sibling trees.
pub proof fn lemma_mark_nodes_unmarked(
    ns: Seq<NodeView>,
    prefix: Seq<char>,
    ids: Seq<Seq<char>>,
    by_id: bool,
)
    requires
        no_prefixed_all(ns, prefix),
    ensures
        mark_nodes(ns, prefix, ids, by_id) == (ns, Seq::<InfoView>::empty()),
        marked_count_all(ns, prefix) == 0,
    decreases ns, 1nat,
{
    if ns.len() > 0 {
        lemma_mark_nodes_unmarked(ns.drop_last(), prefix, ids, by_id);
        let used = marked_count_all(ns.drop_last(), prefix);
        lemma_mark_node_unmarked(ns.last(), prefix, ids.skip(used as int), by_id);
        assert(ns.drop_last().push(ns.last()) =~= ns);
        assert(Seq::<InfoView>::empty() + Seq::<InfoView>::empty() =~= Seq::<InfoView>::empty());
    }
}

/// Marking is idempotent: on a tree that marking has already run over, a
/// second run with the same prefix reports nothing, uses no id and leaves the
/// tree as it is, when every element's attributes are as the HTML parser builds
/// them and the tagging attribute does not start with the prefix.
pub proof fn lemma_mark_node_twice(
    n: NodeView,
    prefix: Seq<char>,
    first_ids: Seq<Seq<char>>,
    second_ids: Seq<Seq<char>>,
    by_id: bool,
)
    requires
        marks_plain_tree(n, prefix),
        !starts_with(tag_attribute(by_id), prefix),
    ensures
        ({
            let once = mark_node(n, prefix, first_ids, by_id).0;
            &&& mark_node(once, prefix, second_ids, by_id) == (once, Seq::<InfoView>::empty())
            &&& marked_count(once, prefix) == 0
        }),
{
    lemma_mark_node_removes_prefixed(n, prefix, first_ids, by_id);
    lemma_mark_node_unmarked(mark_node(n, prefix, first_ids, by_id).0, prefix, second_ids, by_id);
}

// ---------------------------------------------------------------------------
// The law: one info per marked attribute
// ---------------------------------------------------------------------------

/// How many attributes of the tree start with the prefix.
pub open spec fn prefixed_count(n: NodeView, prefix: Seq<char>) -> nat
    decreases n,
{
    match n {
        NodeView::Element { attributes, children, .. } => prefixed_attrs(attributes, prefix).len()
            + prefixed_count_all(children, prefix),
        _ => 0,
    }
}

/// The same for sibling trees.
pub open spec fn prefixed_count_all(ns: Seq<NodeView>, prefix: Seq<char>) -> nat
    decreases ns,
{
    if ns.len() == 0 {
        0
    } else {
        prefixed_count_all(ns.drop_last(), prefix) + prefixed_count(ns.last(), prefix)
    }
}

/// Stripping reports each marked attribute, in order.
proof fn lemma_strip_infos(
    a: Seq<AttrView>,
    marked: Seq<AttrView>,
    prefix: Seq<char>,
    id: Seq<char>,
    element: Seq<char>,
)
    ensures
        strip_marked(a, marked, prefix, id, element).1.len() == marked.len(),
        forall|k: int|
            0 <= k < marked.len() ==> {
                let info = #[trigger] strip_marked(a, marked, prefix, id, element).1[k];
                &&& info.attribute == marked[k].name.skip(prefix.len() as int)
                &&& info.value == marked[k].value
                &&& info.id == id
                &&& info.element == element
            },
    decreases marked.len(),
{
    if marked.len() > 0 {
        lemma_strip_infos(a, marked.drop_last(), prefix, id, element);
        let prev = strip_marked(a, marked.drop_last(), prefix, id, element).1;
        let now = strip_marked(a, marked, prefix, id, element).1;
        assert forall|k: int| 0 <= k < marked.len() - 1 implies #[trigger] now[k] == prev[k] by {}
        assert(marked.drop_last().len() == marked.len() - 1);
        assert forall|k: int| 0 <= k < marked.len() - 1 implies marked.drop_last()[k] == marked[k] by {}
    }
}

/// Marking a tree reports exactly one info for every attribute that starts
/// with the prefix, whatever ids are used; each info of an element carries the
/// attribute's name without the prefix and its value, in the element's
/// attribute order.
pub proof fn lemma_mark_node_reports_each(
    n: NodeView,
    prefix: Seq<char>,
    ids: Seq<Seq<char>>,
    by_id: bool,
)
    ensures
        mark_node(n, prefix, ids, by_id).1.len() == prefixed_count(n, prefix),
    decreases n, 0nat,
{
    match n {
        NodeView::Element { namespace, prefix: p, name, attributes, children } => {
            let marked = prefixed_attrs(attributes, prefix);
            if marked.len() > 0 {
                let (id, tagged) = tag_element(attributes, ids[0], by_id);
                lemma_strip_infos(tagged, marked, prefix, id, name);
            }
            let own = marked.len() > 0;
            let rest = if own {
                ids.drop_first()
            } else {
                ids
            };
            lemma_mark_nodes_reports_each(children, prefix, rest, by_id);
        },
        _ => {},
    }
}

/// The same for sibling trees.
pub proof fn lemma_mark_nodes_reports_each(
    ns: Seq<NodeView>,
    prefix: Seq<char>,
    ids: Seq<Seq<char>>,
    by_id: bool,
)
    ensures
        mark_nodes(ns, prefix, ids, by_id).1.len() == prefixed_count_all(ns, prefix),
    decreases ns, 1nat,
{
    if ns.len() > 0 {
        lemma_mark_nodes_reports_each(ns.drop_last(), prefix, ids, by_id);
        let used = marked_count_all(ns.drop_last(), prefix);
        lemma_mark_node_reports_each(ns.last(), prefix, ids.skip(used as int), by_id);
    }
}

/// Each info of a marked element carries a marked attribute's name without the
/// prefix and its value, in attribute order, and the id the element is known by.
pub proof fn lemma_mark_element_infos(
    attrs: Seq<AttrView>,
    prefix: Seq<char>,
    fresh: Seq<char>,
    element: Seq<char>,
    by_id: bool,
)
    ensures
        mark_element(attrs, prefix, fresh, element, by_id).1.len() == prefixed_attrs(
            attrs,
            prefix,
        ).len(),
        forall|k: int|
            0 <= k < prefixed_attrs(attrs, prefix).len() ==> {
                let info = #[trigger] mark_element(attrs, prefix, fresh, element, by_id).1[k];
                &&& info.attribute == prefixed_attrs(attrs, prefix)[k].name.skip(
                    prefix.len() as int,
                )
                &&& info.value == prefixed_attrs(attrs, prefix)[k].value
                &&& info.id == tag_element(attrs, fresh, by_id).0
                &&& info.element == element
            },
{
    let marked = prefixed_attrs(attrs, prefix);
    if marked.len() > 0 {
        let (id, tagged) = tag_element(attrs, fresh, by_id);
        lemma_strip_infos(tagged, marked, prefix, id, element);
    }
}

// ---------------------------------------------------------------------------
// Executable code
// ---------------------------------------------------------------------------

/// The view of an element node, with its children as `nodes_view`.
pub proof fn lemma_element_view(e: HtmlElement)
    ensures
        HtmlNode::Element(e)@ == (NodeView::Element {
            namespace: e.namespace@,
            prefix: opt_view(e.prefix),
            name: e.name@,
            attributes: attrs_view(e.attributes@),
            children: nodes_view(e.children@),
        }),
{
}

/// Copies of the attributes whose name starts with `prefix`, in order.
fn collect_prefixed(attributes: &Vec<HtmlAttribute>, prefix: &str) -> (r: Vec<HtmlAttribute>)
    ensures
        attrs_view(r@) == prefixed_attrs(attrs_view(attributes@), prefix@),
{
    let ghost av = attrs_view(attributes@);
    let mut r: Vec<HtmlAttribute> = Vec::new();
    let mut i: usize = 0;
    while i < attributes.len()
        invariant
            av == attrs_view(attributes@),
            i <= attributes@.len(),
            attrs_view(r@) == prefixed_attrs(av.take(i as int), prefix@),
        decreases attributes.len() - i,
    {
        assert(av.take(i + 1).drop_last() =~= av.take(i as int));
        assert(av.take(i + 1).last() == attributes@[i as int]@);
        if text_starts_with(attributes[i].name.as_str(), prefix) {
            let ghost before = r@;
            r.push(clone_attribute(&attributes[i]));
            assert(attrs_view(r@) =~= attrs_view(before).push(attributes@[i as int]@));
        }
        i += 1;
    }
    assert(av.take(attributes@.len() as int) =~= av);
    r
}

/// Tags an element, as [`tag_element`] says, and returns the id it is known by.
pub(crate) fn tag_element_attributes(attributes: &mut Vec<HtmlAttribute>, fresh: &String, by_id: bool) -> (id:
    String)
    ensures
        (id@, attrs_view(final(attributes)@)) == tag_element(
            attrs_view(old(attributes)@),
            fresh@,
            by_id,
        ),
{
    if by_id {
        let id_attr = String::from_str("id");
        proof {
            reveal_strlit("id");
        }
        assert(id_attr@ =~= id_name());
        match get_attribute(attributes, id_attr.as_str()) {
            Some(v) => v,
            None => {
                insert_attribute(attributes, id_attr.as_str(), fresh.clone());
                fresh.clone()
            },
        }
    } else {
        add_class(attributes, fresh.as_str());
        fresh.clone()
    }
}

/// Takes the marked attributes off one element's attributes: tags the element
/// when anything is marked, then removes each marked attribute.
fn mark_element_attributes(
    attributes: &mut Vec<HtmlAttribute>,
    prefix: &str,
    fresh: &String,
    element: &String,
    by_id: bool,
) -> (infos: Vec<ModifiedHtmlInfo>)
    ensures
        (attrs_view(final(attributes)@), infos_view(infos@)) == mark_element(
            attrs_view(old(attributes)@),
            prefix@,
            fresh@,
            element@,
            by_id,
        ),
{
    let ghost start = attrs_view(attributes@);
    let marked = collect_prefixed(attributes, prefix);
    let mut infos: Vec<ModifiedHtmlInfo> = Vec::new();
    if marked.len() == 0 {
        assert(infos_view(infos@) =~= Seq::<InfoView>::empty());
        return infos;
    }
    let id = tag_element_attributes(attributes, fresh, by_id);
    let ghost mv = attrs_view(marked@);
    let ghost tagged = attrs_view(attributes@);
    let prefix_len = prefix.unicode_len();
    let src = String::from_str("src");
    proof {
        reveal_strlit("src");
    }
    assert(src@ =~= src_name());
    let mut j: usize = 0;
    assert(mv.take(0) =~= Seq::<AttrView>::empty());
    assert(infos_view(infos@) =~= Seq::<InfoView>::empty());
    while j < marked.len()
        invariant
            mv == attrs_view(marked@),
            mv == prefixed_attrs(start, prefix@),
            (id@, tagged) == tag_element(start, fresh@, by_id),
            j <= marked@.len(),
            prefix_len == prefix@.len(),
            src@ == src_name(),
            (attrs_view(attributes@), infos_view(infos@)) == strip_marked(
                tagged,
                mv.take(j as int),
                prefix@,
                id@,
                element@,
            ),
        decreases marked.len() - j,
    {
        assert(mv.take(j + 1).drop_last() =~= mv.take(j as int));
        assert(mv.take(j + 1).last() == marked@[j as int]@);
        let m = &marked[j];
        remove_attribute(attributes, m.name.as_str());
        proof {
            lemma_prefixed_start(start, prefix@, j as int);
        }
        let attribute = skip_chars(m.name.as_str(), prefix_len);
        let info = ModifiedHtmlInfo {
            id: id.clone(),
            attribute,
            value: m.value.clone(),
            element: element.clone(),
            src: get_attribute(attributes, src.as_str()),
        };
        let ghost before = infos@;
        infos.push(info);
        assert(infos_view(infos@) =~= infos_view(before).push(info@));
        j += 1;
    }
    assert(mv.take(marked@.len() as int) =~= mv);
    infos
}

/// Every attribute picked by `prefixed_attrs` starts with the prefix.
proof fn lemma_prefixed_start(attrs: Seq<AttrView>, prefix: Seq<char>, j: int)
    requires
        0 <= j < prefixed_attrs(attrs, prefix).len(),
    ensures
        starts_with(prefixed_attrs(attrs, prefix)[j].name, prefix),
    decreases attrs.len(),
{
    if attrs.len() > 0 {
        let rest = prefixed_attrs(attrs.drop_last(), prefix);
        if j < rest.len() {
            lemma_prefixed_start(attrs.drop_last(), prefix, j);
        }
    }
}

/// Marking a prefix of siblings uses no more ids than marking them all.
proof fn lemma_count_prefix(all: Seq<NodeView>, prefix: Seq<char>, i: int)
    requires
        0 <= i < all.len(),
    ensures
        marked_count_all(all.take(i), prefix) + marked_count(all[i], prefix) == marked_count_all(
            all.take(i + 1),
            prefix,
        ),
        marked_count_all(all.take(i + 1), prefix) <= marked_count_all(all, prefix),
    decreases all.len(),
{
    assert(all.take(i + 1).drop_last() =~= all.take(i));
    if i + 1 < all.len() {
        lemma_count_prefix(all.drop_last(), prefix, i);
        assert(all.drop_last().take(i + 1) =~= all.take(i + 1));
        assert(all.drop_last().take(i) =~= all.take(i));
    } else {
        assert(all.take(i + 1) =~= all);
    }
}

/// Marks one node and its subtree, taking ids from `ids` at `pos` on.
fn mark_node_exec(node: HtmlNode, prefix: &str, ids: &Vec<String>, pos: usize, by_id: bool) -> (r: (
    HtmlNode,
    Vec<ModifiedHtmlInfo>,
    usize,
))
    requires
        pos + marked_count(node@, prefix@) <= ids@.len(),
    ensures
        (r.0@, infos_view(r.1@)) == mark_node(node@, prefix@, ids.deep_view().skip(pos as int), by_id),
        r.2 == marked_count(node@, prefix@),
    decreases node_size(node@), 0nat,
{
    let _ids_len = ids.len();
    let ghost nv = node@;
    match node {
        HtmlNode::Element(e) => {
            proof {
                lemma_element_view(e);
            }
            let HtmlElement { namespace, prefix: p, name, mut attributes, children } = e;
            let ghost av = attrs_view(attributes@);
            let marked = collect_prefixed(&attributes, prefix);
            let own = marked.len() > 0;
            assert(own == (prefixed_attrs(av, prefix@).len() > 0));
            assert(marked_count(nv, prefix@) == (if own { 1nat } else { 0nat }) + marked_count_all(
                nodes_view(children@),
                prefix@,
            ));
            let mut infos: Vec<ModifiedHtmlInfo> = Vec::new();
            let mut next = pos;
            if own {
                infos = mark_element_attributes(&mut attributes, prefix, &ids[pos], &name, by_id);
                next = pos + 1;
            } else {
                let ghost id0 = ids.deep_view().skip(pos as int)[0];
                assert(mark_element(av, prefix@, id0, name@, by_id) == (av, Seq::<InfoView>::empty()));
                assert(infos_view(infos@) =~= Seq::<InfoView>::empty());
            }
            assert(ids.deep_view().skip(pos as int)[0] == ids@[pos as int]@ || !own);
            assert(own ==> ids.deep_view().skip(pos as int).drop_first() =~= ids.deep_view().skip(
                next as int,
            ));
            assert(!own ==> ids.deep_view().skip(pos as int) =~= ids.deep_view().skip(next as int));
            let (children2, infos2, used) = mark_nodes_exec(children, prefix, ids, next, by_id);
            let ghost i1 = infos@;
            let mut infos = infos;
            let mut more = infos2;
            infos.append(&mut more);
            let out = HtmlElement { namespace, prefix: p, name, attributes, children: children2 };
            proof {
                lemma_element_view(out);
                assert(infos_view(infos@) =~= infos_view(i1) + infos_view(infos2@));
            }
            (HtmlNode::Element(out), infos, next - pos + used)
        },
        other => {
            let infos: Vec<ModifiedHtmlInfo> = Vec::new();
            assert(infos_view(infos@) =~= Seq::<InfoView>::empty());
            (other, infos, 0)
        },
    }
}

/// Marks sibling nodes left to right, taking ids from `ids` at `pos` on.
fn mark_nodes_exec(nodes: Vec<HtmlNode>, prefix: &str, ids: &Vec<String>, pos: usize, by_id: bool) -> (r: (
    Vec<HtmlNode>,
    Vec<ModifiedHtmlInfo>,
    usize,
))
    requires
        pos + marked_count_all(nodes_view(nodes@), prefix@) <= ids@.len(),
    ensures
        (nodes_view(r.0@), infos_view(r.1@)) == mark_nodes(
            nodes_view(nodes@),
            prefix@,
            ids.deep_view().skip(pos as int),
            by_id,
        ),
        r.2 == marked_count_all(nodes_view(nodes@), prefix@),
    decreases nodes_size(nodes_view(nodes@)), 1nat,
{
    let _ids_len = ids.len();
    let ghost all = nodes_view(nodes@);
    let ghost orig = nodes@;
    let ghost whole = nodes;
    let ghost idv = ids.deep_view().skip(pos as int);
    let mut rest = nodes;
    let mut out: Vec<HtmlNode> = Vec::new();
    let mut infos: Vec<ModifiedHtmlInfo> = Vec::new();
    let mut used: usize = pos;
    let mut i: usize = 0;
    let n = rest.len();
    assert(all.take(0) =~= Seq::<NodeView>::empty());
    assert(nodes_view(out@) =~= Seq::<NodeView>::empty());
    assert(infos_view(infos@) =~= Seq::<InfoView>::empty());
    #[verifier::loop_isolation(false)]
    while i < n
        invariant
            n == orig.len(),
            orig == whole@,
            all == nodes_view(orig),
            idv == ids.deep_view().skip(pos as int),
            i <= n,
            rest@ == orig.skip(i as int),
            used == pos + marked_count_all(all.take(i as int), prefix@),
            pos + marked_count_all(all, prefix@) <= ids@.len(),
            (nodes_view(out@), infos_view(infos@)) == mark_nodes(all.take(i as int), prefix@, idv, by_id),
        decreases n - i,
    {
        let c = rest.remove(0);
        assert(c == orig[i as int]);
        proof {
            lemma_nodes_view(orig);
        }
        assert(all.take(i + 1).drop_last() =~= all.take(i as int));
        assert(all.take(i + 1).last() == c@);
        proof {
            lemma_count_prefix(all, prefix@, i as int);
            lemma_nodes_size(all, i as int);
            assert(used + marked_count(c@, prefix@) <= ids@.len());
        }
        let (c2, more_infos, c_used) = mark_node_exec(c, prefix, ids, used, by_id);
        proof {
            assert(ids.deep_view().skip(used as int) =~= idv.skip(
                marked_count_all(all.take(i as int), prefix@) as int,
            ));
        }
        let ghost o1 = out@;
        let ghost f1 = infos@;
        out.push(c2);
        let mut more = more_infos;
        infos.append(&mut more);
        assert(out@.drop_last() =~= o1);
        assert(nodes_view(out@) == nodes_view(o1).push(c2@));
        assert(infos_view(infos@) =~= infos_view(f1) + infos_view(more_infos@));
        used = used + c_used;
        i += 1;
        assert(rest@ =~= orig.skip(i as int));
    }
    proof {
        lemma_nodes_view(orig);
    }
    assert(all.take(n as int) =~= all);
    (out, infos, used - pos)
}

/// The new entries of `ids` are fresh compiler ids, and the old ones are kept.
pub open spec fn drew_ids(before: Seq<String>, after: Seq<String>, n: nat) -> bool {
    &&& after.len() == before.len() + n
    &&& after.take(before.len() as int) == before
    &&& forall|i: int| before.len() <= i < after.len() ==> is_fluent_id(#[trigger] after[i]@)
}

/// Draws one fresh id for every element of the tree with a marked attribute.
fn draw_ids_node(node: &HtmlNode, prefix: &str, ids: &mut Vec<String>)
    ensures
        drew_ids(old(ids)@, final(ids)@, marked_count(node@, prefix@)),
    decreases node_size(node@), 0nat,
{
    match node {
        HtmlNode::Element(e) => {
            let marked = collect_prefixed(&e.attributes, prefix);
            let ghost before = ids@;
            if marked.len() > 0 {
                ids.push(uuid());
            }
            let ghost mid = ids@;
            assert(mid.take(before.len() as int) =~= before);
            draw_ids_nodes(&e.children, prefix, ids);
            assert(ids@.take(before.len() as int) =~= before) by {
                assert forall|k: int| 0 <= k < before.len() implies ids@[k] == before[k] by {
                    assert(ids@.take(mid.len() as int)[k] == ids@[k]);
                    assert(mid.take(before.len() as int)[k] == mid[k]);
                }
            }
            assert forall|k: int| before.len() <= k < ids@.len() implies is_fluent_id(
                #[trigger] ids@[k]@,
            ) by {
                if k < mid.len() {
                    assert(ids@.take(mid.len() as int)[k] == ids@[k]);
                }
            }
            assert(marked_count(node@, prefix@) == (if marked@.len() > 0 { 1nat } else { 0nat })
                + marked_count_all(nodes_view(e.children@), prefix@));
        },
        _ => {
            assert(ids@.take(ids@.len() as int) =~= ids@);
        },
    }
}

/// Draws ids for sibling trees, left to right.
fn draw_ids_nodes(nodes: &Vec<HtmlNode>, prefix: &str, ids: &mut Vec<String>)
    ensures
        drew_ids(old(ids)@, final(ids)@, marked_count_all(nodes_view(nodes@), prefix@)),
    decreases nodes_size(nodes_view(nodes@)), 1nat,
{
    let ghost all = nodes_view(nodes@);
    let ghost start = ids@;
    proof {
        lemma_nodes_view(nodes@);
    }
    assert(all.take(0) =~= Seq::<NodeView>::empty());
    assert(ids@.take(start.len() as int) =~= start);
    let mut i: usize = 0;
    #[verifier::loop_isolation(false)]
    while i < nodes.len()
        invariant
            i <= nodes@.len(),
            all == nodes_view(nodes@),
            drew_ids(start, ids@, marked_count_all(all.take(i as int), prefix@)),
        decreases nodes.len() - i,
    {
        proof {
            lemma_nodes_size(all, i as int);
            lemma_count_prefix(all, prefix@, i as int);
        }
        let ghost mid = ids@;
        draw_ids_node(&nodes[i], prefix, ids);
        assert(ids@.take(start.len() as int) =~= start) by {
            assert forall|k: int| 0 <= k < start.len() implies ids@[k] == start[k] by {
                assert(ids@.take(mid.len() as int)[k] == ids@[k]);
                assert(mid.take(start.len() as int)[k] == mid[k]);
            }
        }
        assert forall|k: int| start.len() <= k < ids@.len() implies is_fluent_id(
            #[trigger] ids@[k]@,
        ) by {
            if k < mid.len() {
                assert(ids@.take(mid.len() as int)[k] == ids@[k]);
            }
        }
        i += 1;
    }
    assert(all.take(nodes@.len() as int) =~= all);
}

/// Takes the attributes starting with `prefix` off every element of the tree,
/// tagging the `k`th element (in tree order) that had such an attribute with
/// `ids[k]` (as a class, or with `by_id` as its `id` unless it has one), and
/// reports what was taken, in tree order.
pub fn modify_html_with_ids(node: HtmlNode, prefix: &str, ids: &Vec<String>, by_id: bool) -> (r: (
    HtmlNode,
    Vec<ModifiedHtmlInfo>,
))
    requires
        marked_count(node@, prefix@) <= ids@.len(),
    ensures
        (r.0@, infos_view(r.1@)) == mark_node(node@, prefix@, ids.deep_view(), by_id),
{
    let (n, infos, _) = mark_node_exec(node, prefix, ids, 0, by_id);
    assert(ids.deep_view().skip(0) =~= ids.deep_view());
    (n, infos)
}

/// Marks the tree with fresh ids.
fn mark_tree(node: &mut HtmlNode, prefix: &str, by_id: bool) -> (r: Vec<ModifiedHtmlInfo>)
    ensures
        exists|ids: Seq<Seq<char>>|
            {
                &&& ids.len() == marked_count(old(node)@, prefix@)
                &&& forall|k: int| 0 <= k < ids.len() ==> is_fluent_id(#[trigger] ids[k])
                &&& (final(node)@, infos_view(r@)) == mark_node(old(node)@, prefix@, ids, by_id)
            },
{
    let mut ids: Vec<String> = Vec::new();
    draw_ids_node(node, prefix, &mut ids);
    let mut taken = HtmlNode::Text(String::new());
    std::mem::swap(&mut taken, node);
    let (n, infos) = modify_html_with_ids(taken, prefix, &ids, by_id);
    *node = n;
    proof {
        let w = ids.deep_view();
        assert forall|k: int| 0 <= k < w.len() implies is_fluent_id(#[trigger] w[k]) by {
            assert(w[k] == ids@[k]@);
        }
    }
    infos
}

/// Finds the attributes whose name starts with `prefix` (such as `?` for
/// conditional attributes), removes them from their elements, tags each such
/// element with a fresh id as a class, and reports every removed attribute, in
/// tree order.
pub fn modify_html(node: &mut HtmlNode, prefix: &str) -> (r: Vec<ModifiedHtmlInfo>)
    ensures
        exists|ids: Seq<Seq<char>>|
            {
                &&& ids.len() == marked_count(old(node)@, prefix@)
                &&& forall|k: int| 0 <= k < ids.len() ==> is_fluent_id(#[trigger] ids[k])
                &&& (final(node)@, infos_view(r@)) == mark_node(old(node)@, prefix@, ids, false)
            },
{
    mark_tree(node, prefix, false)
}

/// Like [`modify_html`], but each element with such attributes is known by its
/// `id` attribute: the one it has, or else a fresh id set as its `id`.
pub fn modify_html_by_id(node: &mut HtmlNode, prefix: &str) -> (r: Vec<ModifiedHtmlInfo>)
    ensures
        exists|ids: Seq<Seq<char>>|
            {
                &&& ids.len() == marked_count(old(node)@, prefix@)
                &&& forall|k: int| 0 <= k < ids.len() ==> is_fluent_id(#[trigger] ids[k])
                &&& (final(node)@, infos_view(r@)) == mark_node(old(node)@, prefix@, ids, true)
            },
{
    mark_tree(node, prefix, true)
}

// ---------------------------------------------------------------------------
// Marked attributes with their values parsed as Rust
// ---------------------------------------------------------------------------

/// Same as [`ModifiedHtmlInfo`] but with the value parsed as code.
pub struct ModifiedHtmlInfoWithCode<T, S> {
    /// The class given to the element.
    pub id: String,
    /// The attribute's name without the prefix.
    pub attribute: String,
    /// The attribute's value, parsed.
    pub code: T,
    /// The element's local name.
    pub element: String,
    /// The `src` attribute, parsed, where the caller needs it.
    pub src: S,
}

impl<T, S> ModifiedHtmlInfoWithCode<T, S> {
    /// The same info without the parsed parts.
    pub open spec fn matches_info(&self, info: InfoView) -> bool {
        &&& self.id@ == info.id
        &&& self.attribute@ == info.attribute
        &&& self.element@ == info.element
    }
}

/// Whether `src` parses as a closure (`syn::parse_str::<syn::ExprClosure>`).
pub uninterp spec fn parses_as_closure(src: Seq<char>) -> bool;

/// Whether `src` parses as a token stream (`syn::parse_str::<TokenStream>`).
pub uninterp spec fn parses_as_tokens(src: Seq<char>) -> bool;

#[verifier::external_type_specification]
#[verifier::external_body]
pub struct ExExprClosure(syn::ExprClosure);

#[verifier::external_type_specification]
#[verifier::external_body]
pub struct ExTokenStream(proc_macro2::TokenStream);

/// `syn::parse_str::<syn::ExprClosure>`: success is a function of the text;
/// the closure and the error are left unsaid.
#[verifier::external_body]
fn parse_closure(src: &str) -> (r: Result<syn::ExprClosure, syn::Error>)
    ensures
        r is Ok <==> parses_as_closure(src@),
{
    syn::parse_str(src)
}

/// `syn::parse_str::<proc_macro2::TokenStream>`: success is a function of the
/// text; the tokens and the error are left unsaid.
#[verifier::external_body]
fn parse_tokens(src: &str) -> (r: Result<proc_macro2::TokenStream, syn::Error>)
    ensures
        r is Ok <==> parses_as_tokens(src@),
{
    syn::parse_str(src)
}

/// Every info's value parses as an expression.
pub open spec fn all_values_parse(infos: Seq<InfoView>) -> bool {
    forall|k: int| 0 <= k < infos.len() ==> parses_as_expr(#[trigger] infos[k].value)
}

/// Every info's value parses as a closure.
pub open spec fn all_values_are_closures(infos: Seq<InfoView>) -> bool {
    forall|k: int| 0 <= k < infos.len() ==> parses_as_closure(#[trigger] infos[k].value)
}

/// What goes wrong with a custom event listener: its closure does not parse
/// (`Some(false)`), or it has no `src` (`Some(true)`), or its `src` does not parse
/// (`Some(false)`).
pub open spec fn custom_failure(info: InfoView) -> Option<bool> {
    if !parses_as_closure(info.value) {
        Some(false)
    } else {
        match info.src {
            None => Some(true),
            Some(src) => if parses_as_tokens(src) {
                None
            } else {
                Some(false)
            },
        }
    }
}

/// The first info, in order, with a custom listener failure.
pub open spec fn first_custom_failure(infos: Seq<InfoView>) -> Option<bool>
    decreases infos.len(),
{
    if infos.len() == 0 {
        None
    } else {
        match custom_failure(infos[0]) {
            Some(f) => Some(f),
            None => first_custom_failure(infos.drop_first()),
        }
    }
}

/// The parsed infos match the plain ones, one for one.
pub open spec fn all_match<T, S>(v: Seq<ModifiedHtmlInfoWithCode<T, S>>, infos: Seq<InfoView>) -> bool {
    &&& v.len() == infos.len()
    &&& forall|k: int| 0 <= k < infos.len() ==> (#[trigger] v[k]).matches_info(infos[k])
}

/// The outcome of [`modify_html`] for some ids.
pub open spec fn marked_with(
    before: NodeView,
    after: NodeView,
    prefix: Seq<char>,
    ids: Seq<Seq<char>>,
    infos: Seq<InfoView>,
) -> bool {
    &&& ids.len() == marked_count(before, prefix)
    &&& forall|k: int| 0 <= k < ids.len() ==> is_fluent_id(#[trigger] ids[k])
    &&& (after, infos) == mark_node(before, prefix, ids, false)
}

/// Parses every info's value as a Rust expression, keeping the rest. Fails with
/// [`Compiler::Parse`] exactly when some value does not parse.
pub fn parse_info_exprs(infos: Vec<ModifiedHtmlInfo>) -> (r: Result<
    Vec<ModifiedHtmlInfoWithCode<syn::Expr, ()>>,
    Compiler,
>)
    ensures
        r is Ok <==> all_values_parse(infos_view(infos@)),
        r matches Ok(v) ==> all_match(v@, infos_view(infos@)),
        r matches Err(e) ==> e is Parse,
{
    let ghost iv = infos_view(infos@);
    let mut out: Vec<ModifiedHtmlInfoWithCode<syn::Expr, ()>> = Vec::new();
    let mut rest = infos;
    let total = rest.len();
    let mut i: usize = 0;
    #[verifier::loop_isolation(false)]
    while i < total
        invariant
            total == iv.len(),
            i <= total,
            infos_view(rest@) == iv.skip(i as int),
            out@.len() == i,
            forall|k: int| 0 <= k < i ==> (#[trigger] out@[k]).matches_info(iv[k]),
            forall|k: int| 0 <= k < i ==> parses_as_expr(#[trigger] iv[k].value),
        decreases total - i,
    {
        let ghost rs = rest@;
        assert(rs.len() == infos_view(rs).len());
        let info = rest.remove(0);
        assert(info@ == iv[i as int]);
        assert(infos_view(rest@) =~= iv.skip(i + 1));
        match parse_expr(info.value.as_str()) {
            Ok(code) => {
                out.push(
                    ModifiedHtmlInfoWithCode {
                        id: info.id,
                        attribute: info.attribute,
                        code,
                        element: info.element,
                        src: (),
                    },
                );
            },
            Err(e) => {
                assert(!parses_as_expr(iv[i as int].value));
                return Err(Compiler::Parse(e));
            },
        }
        i += 1;
    }
    Ok(out)
}

/// Parses every info's value as a Rust closure (native event listeners).
/// Fails with [`Compiler::Parse`] exactly when some value is not a closure.
pub fn parse_info_closures(infos: Vec<ModifiedHtmlInfo>) -> (r: Result<
    Vec<ModifiedHtmlInfoWithCode<syn::ExprClosure, ()>>,
    Compiler,
>)
    ensures
        r is Ok <==> all_values_are_closures(infos_view(infos@)),
        r matches Ok(v) ==> all_match(v@, infos_view(infos@)),
        r matches Err(e) ==> e is Parse,
{
    let ghost iv = infos_view(infos@);
    let mut out: Vec<ModifiedHtmlInfoWithCode<syn::ExprClosure, ()>> = Vec::new();
    let mut rest = infos;
    let total = rest.len();
    let mut i: usize = 0;
    #[verifier::loop_isolation(false)]
    while i < total
        invariant
            total == iv.len(),
            i <= total,
            infos_view(rest@) == iv.skip(i as int),
            out@.len() == i,
            forall|k: int| 0 <= k < i ==> (#[trigger] out@[k]).matches_info(iv[k]),
            forall|k: int| 0 <= k < i ==> parses_as_closure(#[trigger] iv[k].value),
        decreases total - i,
    {
        let ghost rs = rest@;
        assert(rs.len() == infos_view(rs).len());
        let info = rest.remove(0);
        assert(info@ == iv[i as int]);
        assert(infos_view(rest@) =~= iv.skip(i + 1));
        match parse_closure(info.value.as_str()) {
            Ok(code) => {
                out.push(
                    ModifiedHtmlInfoWithCode {
                        id: info.id,
                        attribute: info.attribute,
                        code,
                        element: info.element,
                        src: (),
                    },
                );
            },
            Err(e) => {
                assert(!parses_as_closure(iv[i as int].value));
                return Err(Compiler::Parse(e));
            },
        }
        i += 1;
    }
    Ok(out)
}

/// Parses every info's value as a Rust closure and its `src` as tokens (custom
/// event listeners). Fails at the first info, in order, whose closure does not
/// parse ([`Compiler::Parse`]), that has no `src` ([`Compiler::MissingSrc`]) or
/// whose `src` does not parse ([`Compiler::Parse`]).
pub fn parse_info_custom_events(infos: Vec<ModifiedHtmlInfo>) -> (r: Result<
    Vec<ModifiedHtmlInfoWithCode<syn::ExprClosure, proc_macro2::TokenStream>>,
    Compiler,
>)
    ensures
        r is Ok <==> first_custom_failure(infos_view(infos@)) is None,
        r matches Ok(v) ==> all_match(v@, infos_view(infos@)),
        r matches Err(e) ==> (e is MissingSrc <==> first_custom_failure(infos_view(infos@))
            == Some(true)),
        r matches Err(e) ==> e is Parse || e is MissingSrc,
{
    let ghost iv = infos_view(infos@);
    let mut out: Vec<ModifiedHtmlInfoWithCode<syn::ExprClosure, proc_macro2::TokenStream>> =
        Vec::new();
    let mut rest = infos;
    let total = rest.len();
    let mut i: usize = 0;
    #[verifier::loop_isolation(false)]
    while i < total
        invariant
            total == iv.len(),
            i <= total,
            infos_view(rest@) == iv.skip(i as int),
            out@.len() == i,
            forall|k: int| 0 <= k < i ==> (#[trigger] out@[k]).matches_info(iv[k]),
            first_custom_failure(iv) == first_custom_failure(iv.skip(i as int)),
        decreases total - i,
    {
        let ghost rs = rest@;
        assert(rs.len() == infos_view(rs).len());
        let info = rest.remove(0);
        assert(info@ == iv[i as int]);
        assert(infos_view(rest@) =~= iv.skip(i + 1));
        assert(iv.skip(i as int)[0] == iv[i as int]);
        assert(iv.skip(i as int).drop_first() =~= iv.skip(i + 1));
        let code = match parse_closure(info.value.as_str()) {
            Ok(code) => code,
            Err(e) => {
                return Err(Compiler::Parse(e));
            },
        };
        let src = match info.src {
            None => {
                return Err(Compiler::MissingSrc);
            },
            Some(val) => match parse_tokens(val.as_str()) {
                Ok(tokens) => tokens,
                Err(e) => {
                    return Err(Compiler::Parse(e));
                },
            },
        };
        out.push(
            ModifiedHtmlInfoWithCode {
                id: info.id,
                attribute: info.attribute,
                code,
                element: info.element,
                src,
            },
        );
        i += 1;
    }
    assert(iv.skip(total as int) =~= Seq::<InfoView>::empty());
    Ok(out)
}

/// Like [`modify_html`], then parses every removed attribute's value as a Rust
/// expression. Fails with [`Compiler::Parse`] exactly when some value does not
/// parse.
pub fn modify_html_exprs(node: &mut HtmlNode, prefix: &str) -> (r: Result<
    Vec<ModifiedHtmlInfoWithCode<syn::Expr, ()>>,
    Compiler,
>)
    ensures
        exists|ids: Seq<Seq<char>>, infos: Seq<InfoView>|
            {
                &&& #[trigger] marked_with(old(node)@, final(node)@, prefix@, ids, infos)
                &&& (r is Ok <==> all_values_parse(infos))
                &&& (r matches Ok(v) ==> all_match(v@, infos))
            },
        r matches Err(e) ==> e is Parse,
{
    let ghost before = node@;
    let infos = modify_html(node, prefix);
    let ghost ids = choose|ids: Seq<Seq<char>>|
        {
            &&& ids.len() == marked_count(before, prefix@)
            &&& forall|k: int| 0 <= k < ids.len() ==> is_fluent_id(#[trigger] ids[k])
            &&& (node@, infos_view(infos@)) == mark_node(before, prefix@, ids, false)
        };
    let ghost iv = infos_view(infos@);
    assert(marked_with(before, node@, prefix@, ids, iv));
    parse_info_exprs(infos)
}

/// Like [`modify_html`], then parses every removed attribute's value as a Rust
/// closure (native event listeners). Fails with [`Compiler::Parse`] exactly when
/// some value is not a closure.
pub fn modify_html_closures(node: &mut HtmlNode, prefix: &str) -> (r: Result<
    Vec<ModifiedHtmlInfoWithCode<syn::ExprClosure, ()>>,
    Compiler,
>)
    ensures
        exists|ids: Seq<Seq<char>>, infos: Seq<InfoView>|
            {
                &&& #[trigger] marked_with(old(node)@, final(node)@, prefix@, ids, infos)
                &&& (r is Ok <==> all_values_are_closures(infos))
                &&& (r matches Ok(v) ==> all_match(v@, infos))
            },
        r matches Err(e) ==> e is Parse,
{
    let ghost before = node@;
    let infos = modify_html(node, prefix);
    let ghost ids = choose|ids: Seq<Seq<char>>|
        {
            &&& ids.len() == marked_count(before, prefix@)
            &&& forall|k: int| 0 <= k < ids.len() ==> is_fluent_id(#[trigger] ids[k])
            &&& (node@, infos_view(infos@)) == mark_node(before, prefix@, ids, false)
        };
    let ghost iv = infos_view(infos@);
    assert(marked_with(before, node@, prefix@, ids, iv));
    parse_info_closures(infos)
}

/// Like [`modify_html`], then parses every removed attribute's value as a Rust
/// closure and the element's `src` as tokens (custom event listeners); fails as
/// [`parse_info_custom_events`] does.
pub fn modify_html_custom_events(node: &mut HtmlNode, prefix: &str) -> (r: Result<
    Vec<ModifiedHtmlInfoWithCode<syn::ExprClosure, proc_macro2::TokenStream>>,
    Compiler,
>)
    ensures
        exists|ids: Seq<Seq<char>>, infos: Seq<InfoView>|
            {
                &&& #[trigger] marked_with(old(node)@, final(node)@, prefix@, ids, infos)
                &&& (r is Ok <==> first_custom_failure(infos) is None)
                &&& (r matches Ok(v) ==> all_match(v@, infos))
                &&& (r matches Err(e) ==> (e is MissingSrc <==> first_custom_failure(infos)
                    == Some(true)))
            },
        r matches Err(e) ==> e is Parse || e is MissingSrc,
{
    let ghost before = node@;
    let infos = modify_html(node, prefix);
    let ghost ids = choose|ids: Seq<Seq<char>>|
        {
            &&& ids.len() == marked_count(before, prefix@)
            &&& forall|k: int| 0 <= k < ids.len() ==> is_fluent_id(#[trigger] ids[k])
            &&& (node@, infos_view(infos@)) == mark_node(before, prefix@, ids, false)
        };
    let ghost iv = infos_view(infos@);
    assert(marked_with(before, node@, prefix@, ids, iv));
    parse_info_custom_events(infos)
}

} // verus!

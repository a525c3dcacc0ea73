//! Sub components: every `<component src="path::to::Component">` tag is replaced
//! by a `<div>` that keeps its attributes and gets two classes: a fresh id and
//! `__Fluent_Needs_Init`, so that generated code can mount the sub component.
//! Components that find their elements by `id` get the tag's attributes without
//! `src`, known by the tag's `id` or by a fresh one.

use vstd::prelude::*;
use vstd::string::*;
use crate::error::Compiler;
use crate::html::{
    AttrView, NodeView, HtmlNode, HtmlElement, HtmlAttribute, attr_get, attr_add_class, src_name,
    div_name, html_ns, attrs_view, nodes_view, node_size, nodes_size, lemma_nodes_size,
    lemma_nodes_view, get_attribute, add_class, attr_remove, remove_attribute,
};
use crate::markers::{tag_element, tag_element_attributes};
use crate::ids::{is_fluent_id, uuid};
use crate::text::same_text;

verus! {

broadcast use vstd::seq_lib::group_seq_properties;

/// `component`
pub open spec fn component_tag() -> Seq<char> {
    seq!['c', 'o', 'm', 'p', 'o', 'n', 'e', 'n', 't']
}

/// `__Fluent_Needs_Init`
pub open spec fn needs_init_class() -> Seq<char> {
    seq![
        '_', '_', 'F', 'l', 'u', 'e', 'n', 't', '_', 'N', 'e', 'e', 'd', 's', '_', 'I', 'n', 'i',
        't',
    ]
}

/// Whether `src` parses as a Rust path (`syn::parse_str::<syn::Path>`).
pub uninterp spec fn parses_as_path(src: Seq<char>) -> bool;

#[verifier::external_type_specification]
#[verifier::external_body]
pub struct ExPath(syn::Path);

/// `syn::parse_str::<syn::Path>`. Whether parsing succeeds is a function of the
/// text alone; what the path holds, and the error, are left unsaid.
#[verifier::external_body]
fn parse_path(src: &str) -> (r: Result<syn::Path, syn::Error>)
    ensures
        r is Ok <==> parses_as_path(src@),
{
    syn::parse_str(src)
}

/// Why a `<component>` tag cannot be compiled.
pub enum SubFailure {
    MissingSrc,
    Parse,
}

/// A mounted sub component as plain text: its id and the source of its path.
pub struct SubView {
    pub id: Seq<char>,
    pub source: Seq<char>,
}

/// Data used to create a sub component.
pub struct SubComponentData {
    /// The sub component's id.
    pub id: String,
    /// Path to the component, with generics.
    pub component_name: syn::Path,
    /// The text of that path, from the `src` attribute.
    pub component_source: String,
}

impl View for SubComponentData {
    type V = SubView;

    open spec fn view(&self) -> SubView {
        SubView { id: self.id@, source: self.component_source@ }
    }
}

/// The node is a `<component>` element.
pub open spec fn is_component(n: NodeView) -> bool {
    n is Element && n->name == component_tag()
}

/// The first failure, in tree order, stopping at the first one.
pub open spec fn sub_failure(n: NodeView) -> Option<SubFailure>
    decreases n,
{
    match n {
        NodeView::Element { name, attributes, children, .. } => if name == component_tag() {
            match attr_get(attributes, src_name()) {
                None => Some(SubFailure::MissingSrc),
                Some(src) => if parses_as_path(src) {
                    None
                } else {
                    Some(SubFailure::Parse)
                },
            }
        } else {
            sub_failure_all(children)
        },
        _ => None,
    }
}

/// The first failure among sibling trees.
pub open spec fn sub_failure_all(ns: Seq<NodeView>) -> Option<SubFailure>
    decreases ns,
{
    if ns.len() == 0 {
        None
    } else {
        match sub_failure_all(ns.drop_last()) {
            Some(f) => Some(f),
            None => sub_failure(ns.last()),
        }
    }
}

/// How many `<component>` tags are replaced.
pub open spec fn sub_count(n: NodeView) -> nat
    decreases n,
{
    match n {
        NodeView::Element { name, children, .. } => if name == component_tag() {
            1
        } else {
            sub_count_all(children)
        },
        _ => 0,
    }
}

/// How many `<component>` tags are replaced among sibling trees.
pub open spec fn sub_count_all(ns: Seq<NodeView>) -> nat
    decreases ns,
{
    if ns.len() == 0 {
        0
    } else {
        sub_count_all(ns.drop_last()) + sub_count(ns.last())
    }
}

/// How the `<div>` that takes a `<component>` tag's place is tagged: the id it
/// is known by and its attributes. Without `by_id`, the tag's attributes with
/// the fresh id and `__Fluent_Needs_Init` added as classes; with `by_id`, the
/// tag's attributes without `src`, known by their `id` or else given the fresh
/// one as `id`.
pub open spec fn component_tagging(attrs: Seq<AttrView>, fresh: Seq<char>, by_id: bool) -> (
    Seq<char>,
    Seq<AttrView>,
) {
    if by_id {
        tag_element(attr_remove(attrs, src_name()), fresh, true)
    } else {
        (fresh, attr_add_class(attr_add_class(attrs, fresh), needs_init_class()))
    }
}

/// The `<div>` that takes a `<component>` tag's place, with no children.
pub open spec fn component_div(attrs: Seq<AttrView>, fresh: Seq<char>, by_id: bool) -> NodeView {
    NodeView::Element {
        namespace: html_ns(),
        prefix: None,
        name: div_name(),
        attributes: component_tagging(attrs, fresh, by_id).1,
        children: Seq::empty(),
    }
}

/// A tree with its `<component>` tags replaced (when nothing fails), with the
/// ids used in tree order, and the sub components in tree order. Nothing inside
/// a `<component>` tag is looked at.
pub open spec fn sub_node(n: NodeView, ids: Seq<Seq<char>>, by_id: bool) -> (NodeView, Seq<SubView>)
    decreases n,
{
    match n {
        NodeView::Element { namespace, prefix, name, attributes, children } => if name
            == component_tag() {
            (
                component_div(attributes, ids[0], by_id),
                seq![
                    SubView {
                        id: component_tagging(attributes, ids[0], by_id).0,
                        source: attr_get(attributes, src_name())->0,
                    },
                ],
            )
        } else {
            let (c2, subs) = sub_nodes(children, ids, by_id);
            (NodeView::Element { namespace, prefix, name, attributes, children: c2 }, subs)
        },
        _ => (n, Seq::empty()),
    }
}

/// Sibling trees with their `<component>` tags replaced, left to right.
pub open spec fn sub_nodes(ns: Seq<NodeView>, ids: Seq<Seq<char>>, by_id: bool) -> (Seq<NodeView>, Seq<SubView>)
    decreases ns,
{
    if ns.len() == 0 {
        (Seq::empty(), Seq::empty())
    } else {
        let used = sub_count_all(ns.drop_last());
        let (a, s1) = sub_nodes(ns.drop_last(), ids.take(used as int), by_id);
        let (b, s2) = sub_node(ns.last(), ids.skip(used as int), by_id);
        (a.push(b), s1 + s2)
    }
}

pub open spec fn subs_view(s: Seq<SubComponentData>) -> Seq<SubView> {
    s.map_values(|d: SubComponentData| d@)
}

/// The error a failure is reported with.
pub open spec fn failure_matches(f: SubFailure, e: Compiler) -> bool {
    match f {
        SubFailure::MissingSrc => e is MissingSrc,
        SubFailure::Parse => e is Parse,
    }
}

// ---------------------------------------------------------------------------
// The law: when nothing fails, no `<component>` tag is left
// ---------------------------------------------------------------------------

/// No element of the tree is a `<component>` tag.
pub open spec fn no_component_tree(n: NodeView) -> bool
    decreases n,
{
    match n {
        NodeView::Element { name, children, .. } => name != component_tag() && no_component_all(
            children,
        ),
        _ => true,
    }
}

/// The same for sibling trees.
pub open spec fn no_component_all(ns: Seq<NodeView>) -> bool
    decreases ns,
{
    if ns.len() == 0 {
        true
    } else {
        no_component_all(ns.drop_last()) && no_component_tree(ns.last())
    }
}

/// When every `<component>` tag has a `src` that is a path, each was replaced
/// by a `<div>`: none is left.
pub proof fn lemma_components_all_replaced(n: NodeView, ids: Seq<Seq<char>>, by_id: bool)
    requires
        sub_failure(n) is None,
    ensures
        no_component_tree(sub_node(n, ids, by_id).0),
    decreases n, 0nat,
{
    match n {
        NodeView::Element { name, children, .. } => {
            if name == component_tag() {
                assert(div_name() != component_tag()) by {
                    assert(div_name().len() != component_tag().len());
                }
            } else {
                lemma_components_all_replaced_all(children, ids, by_id);
            }
        },
        _ => {},
    }
}

/// The same for sibling trees.
pub proof fn lemma_components_all_replaced_all(ns: Seq<NodeView>, ids: Seq<Seq<char>>, by_id: bool)
    requires
        sub_failure_all(ns) is None,
    ensures
        no_component_all(sub_nodes(ns, ids, by_id).0),
    decreases ns, 1nat,
{
    if ns.len() > 0 {
        let used = sub_count_all(ns.drop_last());
        let (a, _) = sub_nodes(ns.drop_last(), ids.take(used as int), by_id);
        let (b, _) = sub_node(ns.last(), ids.skip(used as int), by_id);
        lemma_components_all_replaced_all(ns.drop_last(), ids.take(used as int), by_id);
        lemma_components_all_replaced(ns.last(), ids.skip(used as int), by_id);
        assert(a.push(b).drop_last() =~= a);
    }
}

// ---------------------------------------------------------------------------
// Executable code
// ---------------------------------------------------------------------------

/// Replaces one `<component>` element.
fn replace_component(attributes: Vec<HtmlAttribute>, by_id: bool) -> (r: Result<(HtmlNode, SubComponentData, String), Compiler>)
    ensures
        match attr_get(attrs_view(attributes@), src_name()) {
            None => (r matches Err(e) && e is MissingSrc),
            Some(src) => if parses_as_path(src) {
                (r matches Ok((n, d, fresh)) && is_fluent_id(fresh@) && n@ == component_div(
                    attrs_view(attributes@),
                    fresh@,
                    by_id,
                ) && d@ == (SubView {
                    id: component_tagging(attrs_view(attributes@), fresh@, by_id).0,
                    source: src,
                }))
            } else {
                (r matches Err(e) && e is Parse)
            },
        },
{
    let src_key = String::from_str("src");
    proof {
        reveal_strlit("src");
    }
    assert(src_key@ =~= src_name());
    let source = match get_attribute(&attributes, src_key.as_str()) {
        Some(s) => s,
        None => return Err(Compiler::MissingSrc),
    };
    let component_name = match parse_path(source.as_str()) {
        Ok(p) => p,
        Err(e) => return Err(Compiler::Parse(e)),
    };
    let fresh = uuid();
    let mut attributes = attributes;
    let needs_init = String::from_str("__Fluent_Needs_Init");
    let div = String::from_str("div");
    let ns = String::from_str("http://www.w3.org/1999/xhtml");
    proof {
        reveal_strlit("__Fluent_Needs_Init");
        reveal_strlit("div");
        reveal_strlit("http://www.w3.org/1999/xhtml");
    }
    assert(needs_init@ =~= needs_init_class());
    assert(div@ =~= div_name());
    assert(ns@ =~= html_ns());
    let id = if by_id {
        remove_attribute(&mut attributes, src_key.as_str());
        tag_element_attributes(&mut attributes, &fresh, true)
    } else {
        add_class(&mut attributes, fresh.as_str());
        add_class(&mut attributes, needs_init.as_str());
        fresh.clone()
    };
    let children: Vec<HtmlNode> = Vec::new();
    assert(nodes_view(children@) =~= Seq::<NodeView>::empty());
    let node = HtmlNode::Element(HtmlElement { namespace: ns, prefix: None, name: div, attributes, children });
    Ok((node, SubComponentData { id, component_name, component_source: source }, fresh))
}

/// The pass on one tree; returns the new tree, the sub components and the ids
/// drawn, or the first failure.
fn sub_node_exec(node: HtmlNode, by_id: bool) -> (r: Result<(HtmlNode, Vec<SubComponentData>, Vec<String>), Compiler>)
    ensures
        sub_failure(node@) matches Some(f) ==> (r matches Err(e) && failure_matches(f, e)),
        sub_failure(node@) is None ==> (r matches Ok((n, subs, ids)) && {
            &&& ids@.len() == sub_count(node@)
            &&& forall|k: int| 0 <= k < ids@.len() ==> is_fluent_id(#[trigger] ids@[k]@)
            &&& (n@, subs_view(subs@)) == sub_node(node@, ids.deep_view(), by_id)
        }),
    decreases node_size(node@), 0nat,
{
    let ghost nv = node@;
    match node {
        HtmlNode::Element(e) => {
            let HtmlElement { namespace, prefix, name, attributes, children } = e;
            let tag = String::from_str("component");
            proof {
                reveal_strlit("component");
            }
            assert(tag@ =~= component_tag());
            if same_text(name.as_str(), tag.as_str()) {
                let (div, data, fresh) = replace_component(attributes, by_id)?;
                let mut ids: Vec<String> = Vec::new();
                ids.push(fresh);
                let mut subs: Vec<SubComponentData> = Vec::new();
                subs.push(data);
                proof {
                    assert(ids.deep_view()[0] == ids@[0]@);
                    assert(subs_view(subs@) =~= seq![data@]);
                }
                Ok((div, subs, ids))
            } else {
                let (children2, subs, ids) = sub_nodes_exec(children, by_id)?;
                let out = HtmlElement { namespace, prefix, name, attributes, children: children2 };
                Ok((HtmlNode::Element(out), subs, ids))
            }
        },
        other => {
            let subs: Vec<SubComponentData> = Vec::new();
            let ids: Vec<String> = Vec::new();
            assert(subs_view(subs@) =~= Seq::<SubView>::empty());
            Ok((other, subs, ids))
        },
    }
}

/// The pass on sibling trees, left to right, stopping at the first failure.
fn sub_nodes_exec(nodes: Vec<HtmlNode>, by_id: bool) -> (r: Result<(Vec<HtmlNode>, Vec<SubComponentData>, Vec<String>), Compiler>)
    ensures
        sub_failure_all(nodes_view(nodes@)) matches Some(f) ==> (r matches Err(e) && failure_matches(f, e)),
        sub_failure_all(nodes_view(nodes@)) is None ==> (r matches Ok((ns, subs, ids)) && {
            &&& ids@.len() == sub_count_all(nodes_view(nodes@))
            &&& forall|k: int| 0 <= k < ids@.len() ==> is_fluent_id(#[trigger] ids@[k]@)
            &&& (nodes_view(ns@), subs_view(subs@)) == sub_nodes(nodes_view(nodes@), ids.deep_view(), by_id)
        }),
    decreases nodes_size(nodes_view(nodes@)), 1nat,
{
    let ghost all = nodes_view(nodes@);
    let ghost orig = nodes@;
    proof {
        lemma_nodes_view(orig);
    }
    let mut rest = nodes;
    let mut out: Vec<HtmlNode> = Vec::new();
    let mut subs: Vec<SubComponentData> = Vec::new();
    let mut ids: Vec<String> = Vec::new();
    let n = rest.len();
    let mut i: usize = 0;
    assert(all.take(0) =~= Seq::<NodeView>::empty());
    assert(nodes_view(out@) =~= Seq::<NodeView>::empty());
    assert(subs_view(subs@) =~= Seq::<SubView>::empty());
    #[verifier::loop_isolation(false)]
    while i < n
        invariant
            n == orig.len(),
            i <= n,
            rest@ == orig.skip(i as int),
            sub_failure_all(all.take(i as int)) is None,
            ids@.len() == sub_count_all(all.take(i as int)),
            forall|k: int| 0 <= k < ids@.len() ==> is_fluent_id(#[trigger] ids@[k]@),
            (nodes_view(out@), subs_view(subs@)) == sub_nodes(all.take(i as int), ids.deep_view(), by_id),
        decreases n - i,
    {
        let c = rest.remove(0);
        assert(c == orig[i as int]);
        assert(all.take(i + 1).drop_last() =~= all.take(i as int));
        assert(all.take(i + 1).last() == c@);
        proof {
            lemma_nodes_size(all, i as int);
            lemma_failure_prefix(all, i as int);
        }
        let (c2, more, more_ids) = match sub_node_exec(c, by_id) {
            Ok(v) => v,
            Err(e) => {
                return Err(e);
            },
        };
        let ghost o1 = out@;
        let ghost s1 = subs@;
        let ghost i1 = ids.deep_view();
        out.push(c2);
        let mut more_subs = more;
        subs.append(&mut more_subs);
        let mut new_ids = more_ids;
        ids.append(&mut new_ids);
        proof {
            assert(out@.drop_last() =~= o1);
            assert(subs_view(subs@) =~= subs_view(s1) + subs_view(more@));
            let d = ids.deep_view();
            assert(d.take(i1.len() as int) =~= i1);
            assert(d.skip(i1.len() as int) =~= more_ids.deep_view());
            assert forall|k: int| 0 <= k < ids@.len() implies is_fluent_id(#[trigger] ids@[k]@) by {
                if k >= i1.len() {
                    assert(ids@[k] == more_ids@[k - i1.len()]);
                }
            }
        }
        i += 1;
        assert(rest@ =~= orig.skip(i as int));
    }
    assert(all.take(n as int) =~= all);
    Ok((out, subs, ids))
}

/// A failure in a prefix of siblings is the failure of the whole list.
proof fn lemma_failure_prefix(all: Seq<NodeView>, i: int)
    requires
        0 <= i < all.len(),
        sub_failure_all(all.take(i)) is None,
    ensures
        sub_failure_all(all.take(i + 1)) == sub_failure(all[i]),
        sub_failure(all[i]) is Some ==> sub_failure_all(all) == sub_failure(all[i]),
    decreases all.len(),
{
    assert(all.take(i + 1).drop_last() =~= all.take(i));
    if i + 1 < all.len() {
        assert(all.drop_last().take(i + 1) =~= all.take(i + 1));
        assert(all.drop_last().take(i) =~= all.take(i));
        lemma_failure_prefix(all.drop_last(), i);
    } else {
        assert(all.take(i + 1) =~= all);
    }
}

/// Finds `<component>` tags, parses their `src` as a Rust path and replaces each
/// with a `<div>` holding its attributes, a fresh id and `__Fluent_Needs_Init`
/// as classes. Tags inside a `<component>` are not looked at.
///
/// Fails at the first `<component>` (in tree order) without a `src` attribute
/// ([`Compiler::MissingSrc`]) or whose `src` is not a path ([`Compiler::Parse`]).
pub fn find_subcomponents(node: HtmlNode) -> (r: Result<(HtmlNode, Vec<SubComponentData>), Compiler>)
    ensures
        sub_failure(node@) matches Some(f) ==> (r matches Err(e) && failure_matches(f, e)),
        sub_failure(node@) is None ==> (r matches Ok((n, subs)) && exists|ids: Seq<Seq<char>>|
            {
                &&& ids.len() == sub_count(node@)
                &&& forall|k: int| 0 <= k < ids.len() ==> is_fluent_id(#[trigger] ids[k])
                &&& (n@, subs_view(subs@)) == sub_node(node@, ids, false)
            }),
{
    let (n, subs, ids) = sub_node_exec(node, false)?;
    proof {
        let d = ids.deep_view();
        assert forall|k: int| 0 <= k < d.len() implies is_fluent_id(#[trigger] d[k]) by {
            assert(d[k] == ids@[k]@);
        }
    }
    Ok((n, subs))
}

/// Like [`find_subcomponents`], for components mounted by element id: each
/// `<component>` tag becomes a `<div>` with the tag's attributes but `src`,
/// known by its `id` attribute, or else by a fresh id set as its `id`. `None`
/// where a `<component>` has no `src` or its `src` is not a path.
pub fn find_sub_components_and_replace_with_div(node: HtmlNode) -> (r: Option<
    (HtmlNode, Vec<SubComponentData>),
>)
    ensures
        r is None <==> sub_failure(node@) is Some,
        r matches Some((n, subs)) ==> exists|ids: Seq<Seq<char>>|
            {
                &&& ids.len() == sub_count(node@)
                &&& forall|k: int| 0 <= k < ids.len() ==> is_fluent_id(#[trigger] ids[k])
                &&& (n@, subs_view(subs@)) == sub_node(node@, ids, true)
            },
{
    match sub_node_exec(node, true) {
        Ok((n, subs, ids)) => {
            proof {
                let d = ids.deep_view();
                assert forall|k: int| 0 <= k < d.len() implies is_fluent_id(#[trigger] d[k]) by {
                    assert(d[k] == ids@[k]@);
                }
            }
            Some((n, subs))
        },
        Err(_) => None,
    }
}

} // verus!

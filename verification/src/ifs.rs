//! Conditional rendering: an element with a `$if="condition"` attribute is
//! replaced by an empty `<div>` placeholder tagged with a fresh id, and its HTML
//! (without the `$if`, with the id as a class) is kept to be rendered when the
//! condition holds.

use vstd::prelude::*;
use vstd::string::*;
use crate::error::Compiler;
use crate::html::{
    AttrView, NodeView, HtmlNode, HtmlElement, HtmlAttribute, attr_remove, attr_add_class,
    class_name, div_name, html_ns, plain_attr, attrs_view, nodes_view, node_size, nodes_size,
    lemma_nodes_size, lemma_nodes_view, remove_attribute, add_class, serialize_nodes,
    serialized_html, attr_is, plain_names_unique, has_plain_name, class_or_empty,
    lemma_remove_names, lemma_remove_keeps_others, lemma_add_class_keeps_others,
    lemma_remove_keeps_class,
};
use crate::ids::{is_fluent_id, uuid};
use crate::template::{parses_as_expr, parse_expr};
use crate::text::same_text;

verus! {

broadcast use vstd::seq_lib::group_seq_properties;

/// `$if`
pub open spec fn if_attr_name() -> Seq<char> {
    seq!['$', 'i', 'f']
}

/// The index of the first attribute named `$if`, in any namespace.
pub open spec fn if_index_from(attrs: Seq<AttrView>, i: int) -> Option<int>
    decreases attrs.len() - i,
{
    if i < 0 || i >= attrs.len() {
        None
    } else if attrs[i].name == if_attr_name() {
        Some(i)
    } else {
        if_index_from(attrs, i + 1)
    }
}

pub open spec fn if_index(attrs: Seq<AttrView>) -> Option<int> {
    if_index_from(attrs, 0)
}

/// The condition of an element, if it has one.
pub open spec fn if_condition(attrs: Seq<AttrView>) -> Option<Seq<char>> {
    match if_index(attrs) {
        Some(i) => Some(attrs[i].value),
        None => None,
    }
}

/// An element is replaced when it has a condition that parses.
pub open spec fn replaces_if(attrs: Seq<AttrView>) -> bool {
    if_condition(attrs) matches Some(c) && parses_as_expr(c)
}

/// A replaced element as plain text: its id and the HTML for the true case.
pub struct IfView {
    pub id: Seq<char>,
    pub true_case: Seq<char>,
}

/// Information needed to compile an `$if`.
pub struct IfInfo {
    /// Element id.
    pub id: String,
    /// Condition expression.
    pub expression: syn::Expr,
    /// HTML for the true case.
    pub true_case: String,
}

impl View for IfInfo {
    type V = IfView;

    open spec fn view(&self) -> IfView {
        IfView { id: self.id@, true_case: self.true_case@ }
    }
}

/// The empty `<div class="id">` placeholder.
pub open spec fn if_placeholder(id: Seq<char>) -> NodeView {
    NodeView::Element {
        namespace: html_ns(),
        prefix: None,
        name: div_name(),
        attributes: seq![plain_attr(class_name(), id)],
        children: Seq::empty(),
    }
}

/// The element shown when the condition holds: without `$if`, with the id as a
/// class, and with its children as they were.
pub open spec fn shown_element(n: NodeView, id: Seq<char>) -> NodeView {
    NodeView::Element {
        namespace: n->namespace,
        prefix: n->prefix,
        name: n->name,
        attributes: attr_add_class(attr_remove(n->attributes, if_attr_name()), id),
        children: n->children,
    }
}

/// The element shown for a replaced `$if` is the element itself less its `$if`:
/// it keeps its name, namespace and children, keeps every other attribute
/// (other than `class`) with its value, gains no attribute but `class`, has no
/// `$if` left, and its class is its old class (or nothing), a space and the id.
/// This holds when no two of its attributes in the null namespace share a name,
/// as for every element the HTML parser builds.
pub proof fn lemma_shown_element_keeps_attributes(n: NodeView, id: Seq<char>)
    requires
        n is Element,
        plain_names_unique(n->attributes),
    ensures
        ({
            let before = n->attributes;
            let shown = shown_element(n, id);
            let after = shown->attributes;
            &&& shown is Element
            &&& shown->name == n->name
            &&& shown->namespace == n->namespace
            &&& shown->children == n->children
            &&& forall|k: int|
                0 <= k < before.len() && before[k].name != if_attr_name() && before[k].name
                    != class_name() ==> after.contains(#[trigger] before[k])
            &&& forall|k: int|
                0 <= k < after.len() && !attr_is(#[trigger] after[k], class_name())
                    ==> before.contains(after[k]) && !attr_is(after[k], if_attr_name())
            &&& exists|k: int|
                0 <= k < after.len() && attr_is(#[trigger] after[k], class_name())
                    && after[k].value == class_or_empty(before) + seq![' '] + id
        }),
{
    let before = n->attributes;
    let r = attr_remove(before, if_attr_name());
    let after = attr_add_class(r, id);
    assert(if_attr_name() != class_name()) by {
        assert(if_attr_name()[0] != class_name()[0]);
    }
    lemma_remove_names(before, if_attr_name());
    lemma_remove_keeps_others(before, if_attr_name());
    lemma_remove_keeps_class(before, if_attr_name());
    lemma_add_class_keeps_others(r, id);
    assert forall|k: int|
        0 <= k < before.len() && before[k].name != if_attr_name() && before[k].name
            != class_name() implies after.contains(#[trigger] before[k]) by {
        assert(!attr_is(before[k], if_attr_name()));
        assert(r.contains(before[k]));
        let j = choose|j: int| 0 <= j < r.len() && r[j] == before[k];
        assert(!attr_is(r[j], class_name()));
    }
    assert forall|k: int| 0 <= k < after.len() && !attr_is(#[trigger] after[k], class_name())
        implies before.contains(after[k]) && !attr_is(after[k], if_attr_name()) by {
        assert(r.contains(after[k]));
        let j = choose|j: int| 0 <= j < r.len() && r[j] == after[k];
        assert(before.contains(r[j]));
        if attr_is(after[k], if_attr_name()) {
            assert(has_plain_name(r, if_attr_name()));
        }
    }
    assert(shown_element(n, id)->attributes == after);
    let c = choose|c: int|
        0 <= c < after.len() && attr_is(#[trigger] after[c], class_name()) && after[c].value
            == class_or_empty(r) + seq![' '] + id;
    assert(after[c].value == class_or_empty(before) + seq![' '] + id);
}

/// How many ids a tree uses: one per replaced element, its children included.
pub open spec fn if_count(n: NodeView) -> nat
    decreases n,
{
    match n {
        NodeView::Element { attributes, children, .. } => (if replaces_if(attributes) {
            1nat
        } else {
            0nat
        }) + if_count_all(children),
        _ => 0,
    }
}

pub open spec fn if_count_all(ns: Seq<NodeView>) -> nat
    decreases ns,
{
    if ns.len() == 0 {
        0
    } else {
        if_count_all(ns.drop_last()) + if_count(ns.last())
    }
}

/// The pass on a tree: every node is visited before its children. A replaced
/// element's children are still visited afterwards (their results are kept, the
/// changes to them are not, since the element was already written out). An
/// element whose condition does not parse gives `None` and stays.
pub open spec fn if_node(n: NodeView, ids: Seq<Seq<char>>) -> (NodeView, Seq<Option<IfView>>)
    decreases n,
{
    match n {
        NodeView::Element { namespace, prefix, name, attributes, children } => {
            if replaces_if(attributes) {
                let id = ids[0];
                let (_c2, results) = if_nodes(children, ids.drop_first());
                (
                    if_placeholder(id),
                    seq![Some(IfView { id, true_case: serialized_html(seq![shown_element(n, id)]) })]
                        + results,
                )
            } else {
                let (c2, results) = if_nodes(children, ids);
                let own = if if_condition(attributes) is Some {
                    seq![None]
                } else {
                    Seq::empty()
                };
                (NodeView::Element { namespace, prefix, name, attributes, children: c2 }, own + results)
            }
        },
        _ => (n, Seq::empty()),
    }
}

pub open spec fn if_nodes(ns: Seq<NodeView>, ids: Seq<Seq<char>>) -> (Seq<NodeView>, Seq<Option<IfView>>)
    decreases ns,
{
    if ns.len() == 0 {
        (Seq::empty(), Seq::empty())
    } else {
        let used = if_count_all(ns.drop_last());
        let (a, r1) = if_nodes(ns.drop_last(), ids.take(used as int));
        let (b, r2) = if_node(ns.last(), ids.skip(used as int));
        (a.push(b), r1 + r2)
    }
}

pub open spec fn first_if_failure(results: Seq<Option<IfView>>) -> bool {
    exists|i: int| 0 <= i < results.len() && results[i] is None
}

pub open spec fn if_result_view(r: Result<IfInfo, Compiler>) -> Option<IfView> {
    match r {
        Ok(t) => Some(t@),
        Err(_) => None,
    }
}

pub open spec fn if_results_view(s: Seq<Result<IfInfo, Compiler>>) -> Seq<Option<IfView>> {
    s.map_values(|r: Result<IfInfo, Compiler>| if_result_view(r))
}

// ---------------------------------------------------------------------------
// The law: when every condition parses, no `$if` is left
// ---------------------------------------------------------------------------

/// No element of the tree has a `$if` attribute.
pub open spec fn no_if_tree(n: NodeView) -> bool
    decreases n,
{
    match n {
        NodeView::Element { attributes, children, .. } => if_index(attributes) is None
            && no_if_all(children),
        _ => true,
    }
}

/// No element of the trees has a `$if` attribute.
pub open spec fn no_if_all(ns: Seq<NodeView>) -> bool
    decreases ns,
{
    if ns.len() == 0 {
        true
    } else {
        no_if_all(ns.drop_last()) && no_if_tree(ns.last())
    }
}

/// No failure in a concatenation means none in either part.
proof fn lemma_no_failure_split(a: Seq<Option<IfView>>, b: Seq<Option<IfView>>)
    requires
        !first_if_failure(a + b),
    ensures
        !first_if_failure(a),
        !first_if_failure(b),
{
    if first_if_failure(a) {
        let i = choose|i: int| 0 <= i < a.len() && a[i] is None;
        assert((a + b)[i] is None);
    }
    if first_if_failure(b) {
        let i = choose|i: int| 0 <= i < b.len() && b[i] is None;
        assert((a + b)[a.len() + i] is None);
    }
}

/// When every condition of the tree parses, the tree the pass leaves has no
/// `$if` attribute: each element that had one became a placeholder.
pub proof fn lemma_ifs_leave_no_condition(n: NodeView, ids: Seq<Seq<char>>)
    requires
        !first_if_failure(if_node(n, ids).1),
    ensures
        no_if_tree(if_node(n, ids).0),
    decreases n, 0nat,
{
    match n {
        NodeView::Element { namespace, prefix, name, attributes, children } => {
            if replaces_if(attributes) {
                let p = seq![plain_attr(class_name(), ids[0])];
                assert(p[0].name != if_attr_name()) by {
                    assert(p[0].name.len() != if_attr_name().len());
                }
                assert(if_index_from(p, 1) is None);
                assert(if_index(p) is None);
            } else {
                let (c2, results) = if_nodes(children, ids);
                let own = if if_condition(attributes) is Some {
                    seq![None]
                } else {
                    Seq::<Option<IfView>>::empty()
                };
                lemma_no_failure_split(own, results);
                if if_condition(attributes) is Some {
                    assert(own[0] is None);
                }
                lemma_ifs_leave_no_condition_all(children, ids);
            }
        },
        _ => {},
    }
}

/// The same for sibling trees.
pub proof fn lemma_ifs_leave_no_condition_all(ns: Seq<NodeView>, ids: Seq<Seq<char>>)
    requires
        !first_if_failure(if_nodes(ns, ids).1),
    ensures
        no_if_all(if_nodes(ns, ids).0),
    decreases ns, 1nat,
{
    if ns.len() > 0 {
        let used = if_count_all(ns.drop_last());
        let (a, r1) = if_nodes(ns.drop_last(), ids.take(used as int));
        let (b, r2) = if_node(ns.last(), ids.skip(used as int));
        lemma_no_failure_split(r1, r2);
        lemma_ifs_leave_no_condition_all(ns.drop_last(), ids.take(used as int));
        lemma_ifs_leave_no_condition(ns.last(), ids.skip(used as int));
        assert(a.push(b).drop_last() =~= a);
    }
}

// ---------------------------------------------------------------------------
// Executable code
// ---------------------------------------------------------------------------

/// The index of the first attribute named `$if`, in any namespace.
fn find_if_attribute(attributes: &Vec<HtmlAttribute>) -> (r: Option<usize>)
    ensures
        r matches Some(k) ==> if_index(attrs_view(attributes@)) == Some(k as int) && k
            < attributes@.len(),
        r is None ==> if_index(attrs_view(attributes@)) is None,
{
    let ghost av = attrs_view(attributes@);
    let key = String::from_str("$if");
    proof {
        reveal_strlit("$if");
    }
    assert(key@ =~= if_attr_name());
    let mut i: usize = 0;
    while i < attributes.len()
        invariant
            av == attrs_view(attributes@),
            key@ == if_attr_name(),
            i <= attributes@.len(),
            if_index(av) == if_index_from(av, i as int),
        decreases attributes.len() - i,
    {
        assert(av[i as int] == attributes@[i as int]@);
        if same_text(attributes[i].name.as_str(), key.as_str()) {
            return Some(i);
        }
        i += 1;
    }
    None
}

/// A fresh empty `<div class="id">`.
fn new_placeholder(id: &String) -> (r: HtmlNode)
    ensures
        r@ == if_placeholder(id@),
{
    let class = String::from_str("class");
    let div = String::from_str("div");
    let ns = String::from_str("http://www.w3.org/1999/xhtml");
    proof {
        reveal_strlit("class");
        reveal_strlit("div");
        reveal_strlit("http://www.w3.org/1999/xhtml");
    }
    assert(class@ =~= class_name());
    assert(div@ =~= div_name());
    assert(ns@ =~= html_ns());
    let attr = HtmlAttribute { namespace: String::new(), prefix: None, name: class, value: id.clone() };
    let mut attributes = Vec::new();
    attributes.push(attr);
    let children: Vec<HtmlNode> = Vec::new();
    proof {
        assert(attrs_view(attributes@) =~= seq![plain_attr(class_name(), id@)]);
        assert(nodes_view(children@) =~= Seq::<NodeView>::empty());
    }
    HtmlNode::Element(HtmlElement { namespace: ns, prefix: None, name: div, attributes, children })
}

/// The pass on one tree; returns the new tree, the results and the ids drawn.
fn if_node_exec(node: HtmlNode) -> (r: (HtmlNode, Vec<Result<IfInfo, Compiler>>, Vec<String>))
    ensures
        r.2@.len() == if_count(node@),
        forall|k: int| 0 <= k < r.2@.len() ==> is_fluent_id(#[trigger] r.2@[k]@),
        (r.0@, if_results_view(r.1@)) == if_node(node@, r.2.deep_view()),
        forall|k: int| 0 <= k < r.1@.len() ==> (#[trigger] r.1@[k] matches Err(e) ==> e is Parse),
    decreases node_size(node@), 0nat,
{
    let ghost nv = node@;
    match node {
        HtmlNode::Element(e) => {
            let HtmlElement { namespace, prefix, name, mut attributes, children } = e;
            let ghost av = attrs_view(attributes@);
            let ghost cv = nodes_view(children@);
            let found = find_if_attribute(&attributes);
            let mut own: Vec<Result<IfInfo, Compiler>> = Vec::new();
            let mut ids: Vec<String> = Vec::new();
            match found {
                Some(k) => {
                    let cond = attributes[k].value.clone();
                    assert(if_condition(av) == Some(cond@));
                    match parse_expr(cond.as_str()) {
                        Ok(expression) => {
                            let id = uuid();
                            let key = String::from_str("$if");
                            proof {
                                reveal_strlit("$if");
                            }
                            assert(key@ =~= if_attr_name());
                            remove_attribute(&mut attributes, key.as_str());
                            add_class(&mut attributes, id.as_str());
                            let shown = HtmlNode::Element(HtmlElement { namespace, prefix, name, attributes, children });
                            assert(shown@ == shown_element(nv, id@));
                            let mut holder: Vec<HtmlNode> = Vec::new();
                            holder.push(shown);
                            proof {
                                lemma_nodes_view(holder@);
                                assert(nodes_view(holder@) =~= seq![shown_element(nv, id@)]);
                            }
                            let true_case = serialize_nodes(&holder);
                            let shown = holder.pop().unwrap();
                            let inner_children = match shown {
                                HtmlNode::Element(e2) => e2.children,
                                _ => {
                                    assert(false);
                                    Vec::new()
                                },
                            };
                            assert(nodes_view(inner_children@) == cv);
                            proof {
                                lemma_nodes_size(seq![nv], 0);
                            }
                            let (_c2, more, more_ids) = if_nodes_exec(inner_children);
                            let placeholder = new_placeholder(&id);
                            ids.push(id.clone());
                            own.push(Ok(IfInfo { id, expression, true_case }));
                            let ghost o1 = own@;
                            let ghost i1 = ids@;
                            let mut more_results = more;
                            own.append(&mut more_results);
                            let mut new_ids = more_ids;
                            ids.append(&mut new_ids);
                            proof {
                                assert(if_results_view(own@) =~= if_results_view(o1) + if_results_view(more@));
                                assert(ids.deep_view().drop_first() =~= more_ids.deep_view());
                                assert forall|j: int| 0 <= j < ids@.len() implies is_fluent_id(#[trigger] ids@[j]@) by {
                                    if j >= 1 {
                                        assert(ids@[j] == more_ids@[j - 1]);
                                    }
                                }
                                assert forall|j: int| 0 <= j < own@.len() implies (#[trigger] own@[j] matches Err(e) ==> e is Parse) by {
                                    if j >= 1 {
                                        assert(own@[j] == more@[j - 1]);
                                    }
                                }
                            }
                            return (placeholder, own, ids);
                        },
                        Err(err) => {
                            own.push(Err(Compiler::Parse(err)));
                        },
                    }
                },
                None => {},
            }
            let (children2, more, more_ids) = if_nodes_exec(children);
            let ghost o1 = own@;
            let mut more_results = more;
            own.append(&mut more_results);
            let mut new_ids = more_ids;
            ids.append(&mut new_ids);
            let out = HtmlElement { namespace, prefix, name, attributes, children: children2 };
            proof {
                assert(if_results_view(own@) =~= if_results_view(o1) + if_results_view(more@));
                assert(ids@ =~= more_ids@);
                assert(ids.deep_view() =~= more_ids.deep_view());
                assert forall|j: int| 0 <= j < own@.len() implies (#[trigger] own@[j] matches Err(e) ==> e is Parse) by {
                    if j >= o1.len() {
                        assert(own@[j] == more@[j - o1.len()]);
                    }
                }
                if if_condition(av) is Some {
                    assert(if_results_view(o1) =~= seq![None::<IfView>]);
                } else {
                    assert(if_results_view(o1) =~= Seq::<Option<IfView>>::empty());
                }
            }
            (HtmlNode::Element(out), own, ids)
        },
        other => {
            let results: Vec<Result<IfInfo, Compiler>> = Vec::new();
            let ids: Vec<String> = Vec::new();
            assert(if_results_view(results@) =~= Seq::<Option<IfView>>::empty());
            (other, results, ids)
        },
    }
}

/// The pass on sibling trees, left to right.
#[verifier::spinoff_prover]
#[verifier::rlimit(30)]
fn if_nodes_exec(nodes: Vec<HtmlNode>) -> (r: (Vec<HtmlNode>, Vec<Result<IfInfo, Compiler>>, Vec<String>))
    ensures
        r.2@.len() == if_count_all(nodes_view(nodes@)),
        forall|k: int| 0 <= k < r.2@.len() ==> is_fluent_id(#[trigger] r.2@[k]@),
        (nodes_view(r.0@), if_results_view(r.1@)) == if_nodes(nodes_view(nodes@), r.2.deep_view()),
        forall|k: int| 0 <= k < r.1@.len() ==> (#[trigger] r.1@[k] matches Err(e) ==> e is Parse),
    decreases nodes_size(nodes_view(nodes@)), 1nat,
{
    let ghost all = nodes_view(nodes@);
    let ghost orig = nodes@;
    proof {
        lemma_nodes_view(orig);
    }
    let mut rest = nodes;
    let mut out: Vec<HtmlNode> = Vec::new();
    let mut results: Vec<Result<IfInfo, Compiler>> = Vec::new();
    let mut ids: Vec<String> = Vec::new();
    let n = rest.len();
    let mut i: usize = 0;
    assert(all.take(0) =~= Seq::<NodeView>::empty());
    assert(nodes_view(out@) =~= Seq::<NodeView>::empty());
    assert(if_results_view(results@) =~= Seq::<Option<IfView>>::empty());
    #[verifier::loop_isolation(false)]
    while i < n
        invariant
            n == orig.len(),
            i <= n,
            rest@ == orig.skip(i as int),
            ids@.len() == if_count_all(all.take(i as int)),
            forall|k: int| 0 <= k < ids@.len() ==> is_fluent_id(#[trigger] ids@[k]@),
            (nodes_view(out@), if_results_view(results@)) == if_nodes(all.take(i as int), ids.deep_view()),
            forall|k: int| 0 <= k < results@.len() ==> (#[trigger] results@[k] matches Err(e) ==> e is Parse),
        decreases n - i,
    {
        let c = rest.remove(0);
        assert(c == orig[i as int]);
        assert(all.take(i + 1).drop_last() =~= all.take(i as int));
        assert(all.take(i + 1).last() == c@);
        proof {
            lemma_nodes_size(all, i as int);
        }
        let (c2, more, more_ids) = if_node_exec(c);
        let ghost o1 = out@;
        let ghost r1 = results@;
        let ghost i1 = ids.deep_view();
        out.push(c2);
        let mut more_results = more;
        results.append(&mut more_results);
        let mut new_ids = more_ids;
        ids.append(&mut new_ids);
        proof {
            assert(out@.drop_last() =~= o1);
            assert(if_results_view(results@) =~= if_results_view(r1) + if_results_view(more@));
            let d = ids.deep_view();
            assert(d.take(i1.len() as int) =~= i1);
            assert(d.skip(i1.len() as int) =~= more_ids.deep_view());
            assert forall|k: int| 0 <= k < ids@.len() implies is_fluent_id(#[trigger] ids@[k]@) by {
                if k >= i1.len() {
                    assert(ids@[k] == more_ids@[k - i1.len()]);
                }
            }
            assert forall|k: int| 0 <= k < results@.len() implies (#[trigger] results@[k] matches Err(e) ==> e is Parse) by {
                if k >= r1.len() {
                    assert(results@[k] == more@[k - r1.len()]);
                }
            }
        }
        i += 1;
        assert(rest@ =~= orig.skip(i as int));
    }
    assert(all.take(n as int) =~= all);
    (out, results, ids)
}

/// The infos when nothing failed: each result unwrapped.
pub open spec fn all_ifs(results: Seq<Option<IfView>>, infos: Seq<IfView>) -> bool {
    &&& infos.len() == results.len()
    &&& forall|k: int| 0 <= k < infos.len() ==> results[k] == Some(#[trigger] infos[k])
}

/// Parses the `$if` conditions and replaces each element that has one with an
/// empty `<div>` placeholder whose class is a fresh id; the element's HTML,
/// without `$if` and with the id added as a class, becomes the true case.
///
/// Nodes are visited before their children. Returns the infos in visiting
/// order, or the parse error of the first condition (in that order) that is not
/// valid Rust; such an element stays as it is.
pub fn parse_and_modify_html(node: &mut HtmlNode) -> (r: Result<Vec<IfInfo>, Compiler>)
    ensures
        exists|ids: Seq<Seq<char>>|
            {
                &&& ids.len() == if_count(old(node)@)
                &&& forall|k: int| 0 <= k < ids.len() ==> is_fluent_id(#[trigger] ids[k])
                &&& final(node)@ == if_node(old(node)@, ids).0
                &&& (r is Err <==> first_if_failure(if_node(old(node)@, ids).1))
                &&& (r matches Ok(v) ==> all_ifs(
                    if_node(old(node)@, ids).1,
                    v@.map_values(|t: IfInfo| t@),
                ))
            },
        r matches Err(e) ==> e is Parse,
{
    let mut taken = HtmlNode::Text(String::new());
    std::mem::swap(&mut taken, node);
    let ghost before = taken@;
    let (n, results, ids) = if_node_exec(taken);
    *node = n;
    let ghost d = ids.deep_view();
    let ghost rv = if_results_view(results@);
    assert(d.len() == ids@.len());
    proof {
        assert forall|k: int| 0 <= k < d.len() implies is_fluent_id(#[trigger] d[k]) by {
            assert(d[k] == ids@[k]@);
        }
    }
    let mut infos: Vec<IfInfo> = Vec::new();
    let mut rest = results;
    let total = rest.len();
    let mut i: usize = 0;
    while i < total
        invariant
            total == rv.len(),
            rv == if_node(before, d).1,
            d.len() == if_count(before),
            before == old(node)@,
            node@ == if_node(before, d).0,
            forall|k: int| 0 <= k < d.len() ==> is_fluent_id(#[trigger] d[k]),
            i <= total,
            if_results_view(rest@) == rv.skip(i as int),
            forall|k: int| 0 <= k < rest@.len() ==> (#[trigger] rest@[k] matches Err(e) ==> e is Parse),
            infos@.len() == i,
            forall|k: int| 0 <= k < i ==> rv[k] == Some(#[trigger] infos@[k]@),
        decreases total - i,
    {
        let ghost rs = rest@;
        assert(rs.len() == if_results_view(rs).len());
        let item = rest.remove(0);
        assert(if_results_view(rs)[0] == rv[i as int]);
        assert(if_results_view(rest@) =~= rv.skip(i + 1)) by {
            assert(if_results_view(rest@) =~= if_results_view(rs).drop_first());
        }
        assert forall|k: int| 0 <= k < rest@.len() implies (#[trigger] rest@[k] matches Err(e) ==> e is Parse) by {
            assert(rest@[k] == rs[k + 1]);
        }
        match item {
            Ok(t) => {
                infos.push(t);
            },
            Err(e) => {
                assert(rv[i as int] is None);
                assert(first_if_failure(rv));
                assert(rs[0] matches Err(e) ==> e is Parse);
                return Err(e);
            },
        }
        i += 1;
    }
    proof {
        let tv = infos@.map_values(|t: IfInfo| t@);
        assert(all_ifs(rv, tv));
        assert(!first_if_failure(rv)) by {
            if first_if_failure(rv) {
                let k = choose|k: int| 0 <= k < rv.len() && rv[k] is None;
                assert(rv[k] == Some(infos@[k]@));
            }
        }
    }
    Ok(infos)
}

} // verus!

//! Reactive text: every text node of a template with `{expr}` parts is replaced
//! by an empty `<span>` tagged with a fresh id (as its class, or as its `id`),
//! which generated code fills with the formatted text.

use vstd::prelude::*;
use vstd::string::*;
use crate::error::Compiler;
use crate::html::{
    AttrView, NodeView, HtmlNode, HtmlElement, HtmlAttribute, class_name, span_name, html_ns,
    plain_attr, attrs_view, nodes_view, node_size, nodes_size, lemma_nodes_size, lemma_nodes_view,
};
use crate::ids::{is_fluent_id, uuid};
use crate::markers::id_name;
use crate::template::{template_format, template_exprs, parses_as_expr, extract_format_strings};

verus! {

broadcast use vstd::seq_lib::group_seq_properties;

/// A replaced text node as plain text: the span's id, the format string and the
/// number of expressions.
pub struct ReactiveView {
    pub id: Seq<char>,
    pub text: Seq<char>,
    pub expression_count: nat,
}

/// The reactive text of one `<span>`.
pub struct ReactiveText {
    /// Id of the span element, used to update it later.
    pub id: String,
    /// The format text.
    pub text: String,
    /// The expressions, one for each `{}` of the text.
    pub expressions: Vec<syn::Expr>,
}

impl View for ReactiveText {
    type V = ReactiveView;

    open spec fn view(&self) -> ReactiveView {
        ReactiveView { id: self.id@, text: self.text@, expression_count: self.expressions@.len() }
    }
}

/// Every expression source parses.
pub open spec fn all_parse(exprs: Seq<Seq<char>>) -> bool {
    forall|i: int| 0 <= i < exprs.len() ==> parses_as_expr(#[trigger] exprs[i])
}

/// The attribute that tags a span: `id` with `by_id`, `class` otherwise.
pub open spec fn span_tag(by_id: bool) -> Seq<char> {
    if by_id {
        id_name()
    } else {
        class_name()
    }
}

/// The empty `<span class="id">` (or `<span id="id">`) that takes a text
/// node's place.
pub open spec fn reactive_span(id: Seq<char>, by_id: bool) -> NodeView {
    NodeView::Element {
        namespace: html_ns(),
        prefix: None,
        name: span_name(),
        attributes: seq![plain_attr(span_tag(by_id), id)],
        children: Seq::empty(),
    }
}

/// A text node is replaced when it has expressions and all of them parse.
pub open spec fn replaces_text(t: Seq<char>) -> bool {
    template_exprs(t).len() > 0 && all_parse(template_exprs(t))
}

/// The result of one text node: `None` for an expression that does not parse,
/// otherwise the replaced span's reactive text.
pub open spec fn text_result(t: Seq<char>, id: Seq<char>) -> Seq<Option<ReactiveView>> {
    if !all_parse(template_exprs(t)) {
        seq![None]
    } else if template_exprs(t).len() > 0 {
        seq![
            Some(
                ReactiveView {
                    id,
                    text: template_format(t),
                    expression_count: template_exprs(t).len(),
                },
            ),
        ]
    } else {
        Seq::empty()
    }
}

/// How many ids a tree uses: one for each replaced text node.
pub open spec fn reactive_count(n: NodeView) -> nat
    decreases n,
{
    match n {
        NodeView::Text(t) => if replaces_text(t) {
            1
        } else {
            0
        },
        NodeView::Element { children, .. } => reactive_count_all(children),
        _ => 0,
    }
}

/// How many ids a list of trees uses.
pub open spec fn reactive_count_all(ns: Seq<NodeView>) -> nat
    decreases ns,
{
    if ns.len() == 0 {
        0
    } else {
        reactive_count_all(ns.drop_last()) + reactive_count(ns.last())
    }
}

/// A tree after replacing its reactive text nodes, with `ids` the ids used, in
/// tree order, and the results of the text nodes in tree order.
pub open spec fn react_node(n: NodeView, ids: Seq<Seq<char>>, by_id: bool) -> (NodeView, Seq<
    Option<ReactiveView>,
>)
    decreases n,
{
    match n {
        NodeView::Text(t) => (
            if replaces_text(t) {
                reactive_span(ids[0], by_id)
            } else {
                n
            },
            text_result(t, ids[0]),
        ),
        NodeView::Element { namespace, prefix, name, attributes, children } => {
            let (c2, results) = react_nodes(children, ids, by_id);
            (NodeView::Element { namespace, prefix, name, attributes, children: c2 }, results)
        },
        _ => (n, Seq::empty()),
    }
}

/// Sibling trees after replacement, left to right; each takes its share of
/// `ids`.
pub open spec fn react_nodes(ns: Seq<NodeView>, ids: Seq<Seq<char>>, by_id: bool) -> (Seq<NodeView>, Seq<
    Option<ReactiveView>,
>)
    decreases ns,
{
    if ns.len() == 0 {
        (Seq::empty(), Seq::empty())
    } else {
        let used = reactive_count_all(ns.drop_last());
        let (a, r1) = react_nodes(ns.drop_last(), ids.take(used as int), by_id);
        let (b, r2) = react_node(ns.last(), ids.skip(used as int), by_id);
        (a.push(b), r1 + r2)
    }
}

/// The outcome of the whole pass: the first failure, or all reactive texts.
pub open spec fn first_failure(results: Seq<Option<ReactiveView>>) -> bool {
    exists|i: int| 0 <= i < results.len() && results[i] is None
}

// ---------------------------------------------------------------------------
// The law: when every expression parses, no text with `{}` is left
// ---------------------------------------------------------------------------

/// No text node reached through elements has an expression.
pub open spec fn no_template_text(n: NodeView) -> bool
    decreases n,
{
    match n {
        NodeView::Text(t) => template_exprs(t).len() == 0,
        NodeView::Element { children, .. } => no_template_text_all(children),
        _ => true,
    }
}

/// The same for sibling trees.
pub open spec fn no_template_text_all(ns: Seq<NodeView>) -> bool
    decreases ns,
{
    if ns.len() == 0 {
        true
    } else {
        no_template_text_all(ns.drop_last()) && no_template_text(ns.last())
    }
}

/// No failure in a concatenation means none in either part.
proof fn lemma_no_failure_split(a: Seq<Option<ReactiveView>>, b: Seq<Option<ReactiveView>>)
    requires
        !first_failure(a + b),
    ensures
        !first_failure(a),
        !first_failure(b),
{
    if first_failure(a) {
        let i = choose|i: int| 0 <= i < a.len() && a[i] is None;
        assert((a + b)[i] is None);
    }
    if first_failure(b) {
        let i = choose|i: int| 0 <= i < b.len() && b[i] is None;
        assert((a + b)[a.len() + i] is None);
    }
}

/// When every expression of the tree parses, every text node with `{}` parts
/// was replaced by a span: none is left.
pub proof fn lemma_reactive_text_all_replaced(n: NodeView, ids: Seq<Seq<char>>, by_id: bool)
    requires
        !first_failure(react_node(n, ids, by_id).1),
    ensures
        no_template_text(react_node(n, ids, by_id).0),
    decreases n, 0nat,
{
    match n {
        NodeView::Text(t) => {
            if !all_parse(template_exprs(t)) {
                assert(text_result(t, ids[0])[0] is None);
            }
        },
        NodeView::Element { children, .. } => {
            lemma_reactive_text_all_replaced_all(children, ids, by_id);
        },
        _ => {},
    }
}

/// The same for sibling trees.
pub proof fn lemma_reactive_text_all_replaced_all(
    ns: Seq<NodeView>,
    ids: Seq<Seq<char>>,
    by_id: bool,
)
    requires
        !first_failure(react_nodes(ns, ids, by_id).1),
    ensures
        no_template_text_all(react_nodes(ns, ids, by_id).0),
    decreases ns, 1nat,
{
    if ns.len() > 0 {
        let used = reactive_count_all(ns.drop_last());
        let (a, r1) = react_nodes(ns.drop_last(), ids.take(used as int), by_id);
        let (b, r2) = react_node(ns.last(), ids.skip(used as int), by_id);
        lemma_no_failure_split(r1, r2);
        lemma_reactive_text_all_replaced_all(ns.drop_last(), ids.take(used as int), by_id);
        lemma_reactive_text_all_replaced(ns.last(), ids.skip(used as int), by_id);
        assert(a.push(b).drop_last() =~= a);
    }
}

// ---------------------------------------------------------------------------
// Executable code
// ---------------------------------------------------------------------------

/// A fresh empty `<span class="id">` (or `<span id="id">`).
fn new_reactive_span(id: &String, by_id: bool) -> (r: HtmlNode)
    ensures
        r@ == reactive_span(id@, by_id),
{
    let class = if by_id {
        let a = String::from_str("id");
        proof {
            reveal_strlit("id");
        }
        assert(a@ =~= id_name());
        a
    } else {
        let a = String::from_str("class");
        proof {
            reveal_strlit("class");
        }
        assert(a@ =~= class_name());
        a
    };
    let span = String::from_str("span");
    let ns = String::from_str("http://www.w3.org/1999/xhtml");
    proof {
        reveal_strlit("span");
        reveal_strlit("http://www.w3.org/1999/xhtml");
    }
    assert(span@ =~= span_name());
    assert(ns@ =~= html_ns());
    let attr = HtmlAttribute { namespace: String::new(), prefix: None, name: class, value: id.clone() };
    let mut attributes = Vec::new();
    attributes.push(attr);
    let children: Vec<HtmlNode> = Vec::new();
    let r = HtmlNode::Element(HtmlElement { namespace: ns, prefix: None, name: span, attributes, children });
    proof {
        assert(attrs_view(attributes@) =~= seq![plain_attr(span_tag(by_id), id@)]);
        assert(nodes_view(children@) =~= Seq::<NodeView>::empty());
    }
    r
}

/// The view of a result.
pub open spec fn result_view(r: Result<ReactiveText, Compiler>) -> Option<ReactiveView> {
    match r {
        Ok(t) => Some(t@),
        Err(_) => None,
    }
}

pub open spec fn results_view(s: Seq<Result<ReactiveText, Compiler>>) -> Seq<Option<ReactiveView>> {
    s.map_values(|r: Result<ReactiveText, Compiler>| result_view(r))
}

/// The pass on one tree; returns the new tree, the results and the ids drawn.
fn react_node_exec(node: HtmlNode, by_id: bool) -> (r: (HtmlNode, Vec<Result<ReactiveText, Compiler>>, Vec<String>))
    ensures
        r.2@.len() == reactive_count(node@),
        forall|k: int| 0 <= k < r.2@.len() ==> is_fluent_id(#[trigger] r.2@[k]@),
        (r.0@, results_view(r.1@)) == react_node(node@, r.2.deep_view(), by_id),
        forall|k: int| 0 <= k < r.1@.len() ==> (#[trigger] r.1@[k] matches Err(e) ==> e is Parse),
    decreases node_size(node@), 0nat,
{
    let ghost nv = node@;
    match node {
        HtmlNode::Text(t) => {
            let mut results: Vec<Result<ReactiveText, Compiler>> = Vec::new();
            let mut ids: Vec<String> = Vec::new();
            match extract_format_strings(t.as_str()) {
                Ok((format, expressions)) => {
                    if expressions.len() > 0 {
                        let id = uuid();
                        let span = new_reactive_span(&id, by_id);
                        ids.push(id.clone());
                        results.push(Ok(ReactiveText { id, text: format, expressions }));
                        assert(results_view(results@) =~= text_result(t@, ids.deep_view()[0]));
                        (span, results, ids)
                    } else {
                        assert(results_view(results@) =~= text_result(t@, ids.deep_view()[0]));
                        (HtmlNode::Text(t), results, ids)
                    }
                },
                Err(e) => {
                    results.push(Err(e));
                    assert(results_view(results@) =~= text_result(t@, ids.deep_view()[0]));
                    (HtmlNode::Text(t), results, ids)
                },
            }
        },
        HtmlNode::Element(e) => {
            let HtmlElement { namespace, prefix, name, attributes, children } = e;
            let (children2, results, ids) = react_nodes_exec(children, by_id);
            let out = HtmlElement { namespace, prefix, name, attributes, children: children2 };
            (HtmlNode::Element(out), results, ids)
        },
        other => {
            let results: Vec<Result<ReactiveText, Compiler>> = Vec::new();
            let ids: Vec<String> = Vec::new();
            assert(results_view(results@) =~= Seq::<Option<ReactiveView>>::empty());
            (other, results, ids)
        },
    }
}

/// The pass on sibling trees, left to right.
fn react_nodes_exec(nodes: Vec<HtmlNode>, by_id: bool) -> (r: (Vec<HtmlNode>, Vec<Result<ReactiveText, Compiler>>, Vec<String>))
    ensures
        r.2@.len() == reactive_count_all(nodes_view(nodes@)),
        forall|k: int| 0 <= k < r.2@.len() ==> is_fluent_id(#[trigger] r.2@[k]@),
        (nodes_view(r.0@), results_view(r.1@)) == react_nodes(nodes_view(nodes@), r.2.deep_view(), by_id),
        forall|k: int| 0 <= k < r.1@.len() ==> (#[trigger] r.1@[k] matches Err(e) ==> e is Parse),
    decreases nodes_size(nodes_view(nodes@)), 1nat,
{
    let ghost all = nodes_view(nodes@);
    let ghost orig = nodes@;
    proof {
        lemma_nodes_view(orig);
    }
    let mut rest = nodes;
    let mut out: Vec<HtmlNode> = Vec::new();
    let mut results: Vec<Result<ReactiveText, Compiler>> = Vec::new();
    let mut ids: Vec<String> = Vec::new();
    let n = rest.len();
    let mut i: usize = 0;
    assert(all.take(0) =~= Seq::<NodeView>::empty());
    assert(nodes_view(out@) =~= Seq::<NodeView>::empty());
    assert(results_view(results@) =~= Seq::<Option<ReactiveView>>::empty());
    #[verifier::loop_isolation(false)]
    while i < n
        invariant
            n == orig.len(),
            i <= n,
            rest@ == orig.skip(i as int),
            ids@.len() == reactive_count_all(all.take(i as int)),
            forall|k: int| 0 <= k < ids@.len() ==> is_fluent_id(#[trigger] ids@[k]@),
            (nodes_view(out@), results_view(results@)) == react_nodes(all.take(i as int), ids.deep_view(), by_id),
            forall|k: int| 0 <= k < results@.len() ==> (#[trigger] results@[k] matches Err(e) ==> e is Parse),
        decreases n - i,
    {
        let c = rest.remove(0);
        assert(c == orig[i as int]);
        assert(all.take(i + 1).drop_last() =~= all.take(i as int));
        assert(all.take(i + 1).last() == c@);
        proof {
            lemma_nodes_size(all, i as int);
        }
        let (c2, more, more_ids) = react_node_exec(c, by_id);
        let ghost o1 = out@;
        let ghost r1 = results@;
        let ghost i1 = ids.deep_view();
        out.push(c2);
        let mut more_results = more;
        results.append(&mut more_results);
        let mut new_ids = more_ids;
        ids.append(&mut new_ids);
        proof {
            assert(out@.drop_last() =~= o1);
            assert(results_view(results@) =~= results_view(r1) + results_view(more@));
            let d = ids.deep_view();
            assert(d.take(i1.len() as int) =~= i1);
            assert(d.skip(i1.len() as int) =~= more_ids.deep_view());
            assert forall|k: int| 0 <= k < ids@.len() implies is_fluent_id(#[trigger] ids@[k]@) by {
                if k >= i1.len() {
                    assert(ids@[k] == more_ids@[k - i1.len()]);
                }
            }
            assert forall|k: int| 0 <= k < results@.len() implies (#[trigger] results@[k] matches Err(e) ==> e is Parse) by {
                if k >= r1.len() {
                    assert(results@[k] == more@[k - r1.len()]);
                }
            }
        }
        i += 1;
        assert(rest@ =~= orig.skip(i as int));
    }
    assert(all.take(n as int) =~= all);
    (out, results, ids)
}

/// The reactive texts when nothing failed: each result unwrapped.
pub open spec fn all_texts(results: Seq<Option<ReactiveView>>, texts: Seq<ReactiveView>) -> bool {
    &&& texts.len() == results.len()
    &&& forall|k: int| 0 <= k < texts.len() ==> results[k] == Some(#[trigger] texts[k])
}

/// The pass on a whole tree, the spans tagged by class or by `id`.
fn react_tree(node: &mut HtmlNode, by_id: bool) -> (r: Result<Vec<ReactiveText>, Compiler>)
    ensures
        exists|ids: Seq<Seq<char>>|
            {
                &&& ids.len() == reactive_count(old(node)@)
                &&& forall|k: int| 0 <= k < ids.len() ==> is_fluent_id(#[trigger] ids[k])
                &&& final(node)@ == react_node(old(node)@, ids, by_id).0
                &&& (r is Err <==> first_failure(react_node(old(node)@, ids, by_id).1))
                &&& (r matches Ok(v) ==> all_texts(
                    react_node(old(node)@, ids, by_id).1,
                    v@.map_values(|t: ReactiveText| t@),
                ))
            },
        r matches Err(e) ==> e is Parse,
{
    let mut taken = HtmlNode::Text(String::new());
    std::mem::swap(&mut taken, node);
    let ghost before = taken@;
    let (n, results, ids) = react_node_exec(taken, by_id);
    *node = n;
    let ghost d = ids.deep_view();
    let ghost rv = results_view(results@);
    assert(d.len() == ids@.len());
    proof {
        assert forall|k: int| 0 <= k < d.len() implies is_fluent_id(#[trigger] d[k]) by {
            assert(d[k] == ids@[k]@);
        }
    }
    let mut texts: Vec<ReactiveText> = Vec::new();
    let mut rest = results;
    let total = rest.len();
    let mut i: usize = 0;
    while i < total
        invariant
            total == rv.len(),
            rv == react_node(before, d, by_id).1,
            d.len() == reactive_count(before),
            before == old(node)@,
            node@ == react_node(before, d, by_id).0,
            forall|k: int| 0 <= k < d.len() ==> is_fluent_id(#[trigger] d[k]),
            i <= total,
            results_view(rest@) == rv.skip(i as int),
            forall|k: int| 0 <= k < rest@.len() ==> (#[trigger] rest@[k] matches Err(e) ==> e is Parse),
            texts@.len() == i,
            forall|k: int| 0 <= k < i ==> rv[k] == Some(#[trigger] texts@[k]@),
        decreases total - i,
    {
        let ghost rs = rest@;
        assert(rs.len() == results_view(rs).len());
        let item = rest.remove(0);
        assert(results_view(rs)[0] == rv[i as int]);
        assert(results_view(rest@) =~= rv.skip(i + 1)) by {
            assert(results_view(rest@) =~= results_view(rs).drop_first());
        }
        assert forall|k: int| 0 <= k < rest@.len() implies (#[trigger] rest@[k] matches Err(e) ==> e is Parse) by {
            assert(rest@[k] == rs[k + 1]);
        }
        match item {
            Ok(t) => {
                texts.push(t);
            },
            Err(e) => {
                assert(rv[i as int] is None);
                assert(first_failure(rv));
                assert(rs[0] matches Err(e) ==> e is Parse);
                assert(d.len() == reactive_count(before));
                assert(node@ == react_node(before, d, by_id).0);
                return Err(e);
            },
        }
        i += 1;
    }
    proof {
        let tv = texts@.map_values(|t: ReactiveText| t@);
        assert(all_texts(rv, tv));
        assert(!first_failure(rv)) by {
            if first_failure(rv) {
                let k = choose|k: int| 0 <= k < rv.len() && rv[k] is None;
                assert(rv[k] == Some(texts@[k]@));
            }
        }
        assert(d.len() == reactive_count(before));
        assert(node@ == react_node(before, d, by_id).0);
    }
    Ok(texts)
}

/// The outcome of the pass for some fresh ids.
pub open spec fn reacted(before: NodeView, after: NodeView, ids: Seq<Seq<char>>, by_id: bool) -> bool {
    &&& ids.len() == reactive_count(before)
    &&& forall|k: int| 0 <= k < ids.len() ==> is_fluent_id(#[trigger] ids[k])
    &&& after == react_node(before, ids, by_id).0
}

/// Finds all text with `{}` and replaces each such text node with an empty
/// `<span>` that generated code can target: the span's class is a fresh id.
///
/// Returns the reactive text of every replaced node in tree order, or the parse
/// error of the first text node (in tree order) whose expressions are not all
/// valid Rust; such a node stays as it is, the other nodes are replaced anyway.
pub fn modify_html(node: &mut HtmlNode) -> (r: Result<Vec<ReactiveText>, Compiler>)
    ensures
        exists|ids: Seq<Seq<char>>|
            {
                &&& #[trigger] reacted(old(node)@, final(node)@, ids, false)
                &&& (r is Err <==> first_failure(react_node(old(node)@, ids, false).1))
                &&& (r matches Ok(v) ==> all_texts(
                    react_node(old(node)@, ids, false).1,
                    v@.map_values(|t: ReactiveText| t@),
                ))
            },
        r matches Err(e) ==> e is Parse,
{
    let ghost before = node@;
    let r = react_tree(node, false);
    let ghost ids = choose|ids: Seq<Seq<char>>|
        {
            &&& ids.len() == reactive_count(before)
            &&& forall|k: int| 0 <= k < ids.len() ==> is_fluent_id(#[trigger] ids[k])
            &&& node@ == react_node(before, ids, false).0
            &&& (r is Err <==> first_failure(react_node(before, ids, false).1))
            &&& (r matches Ok(v) ==> all_texts(
                react_node(before, ids, false).1,
                v@.map_values(|t: ReactiveText| t@),
            ))
        };
    assert(reacted(before, node@, ids, false));
    r
}

/// Like [`modify_html`], but each span gets the fresh id as its `id`
/// attribute. `None` where some text node's expressions are not all valid
/// Rust (a `}` with no `{` before it closes an empty expression, which is none);
/// the other text nodes are replaced all the same. A caller that cannot go on
/// without the expressions stops on `None`.
pub fn find_reactive_nodes_and_replace_with_span(node: &mut HtmlNode) -> (r: Option<
    Vec<ReactiveText>,
>)
    ensures
        exists|ids: Seq<Seq<char>>|
            {
                &&& #[trigger] reacted(old(node)@, final(node)@, ids, true)
                &&& (r is None <==> first_failure(react_node(old(node)@, ids, true).1))
                &&& (r matches Some(v) ==> all_texts(
                    react_node(old(node)@, ids, true).1,
                    v@.map_values(|t: ReactiveText| t@),
                ))
            },
{
    let ghost before = node@;
    let r = react_tree(node, true);
    let ghost ids = choose|ids: Seq<Seq<char>>|
        {
            &&& ids.len() == reactive_count(before)
            &&& forall|k: int| 0 <= k < ids.len() ==> is_fluent_id(#[trigger] ids[k])
            &&& node@ == react_node(before, ids, true).0
            &&& (r is Err <==> first_failure(react_node(before, ids, true).1))
            &&& (r matches Ok(v) ==> all_texts(
                react_node(before, ids, true).1,
                v@.map_values(|t: ReactiveText| t@),
            ))
        };
    assert(reacted(before, node@, ids, true));
    match r {
        Ok(v) => Some(v),
        Err(_) => None,
    }
}

} // verus!

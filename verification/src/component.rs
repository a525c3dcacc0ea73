//! All template passes of a component, in the order the compiler runs them:
//! reactive text, conditional attributes (`?`), computed attributes (`=`) and
//! props (`@`), CSS variables (`--`), sub components, native (`:`) and custom
//! (`;`) event listeners, and last the `$if` blocks. The first pass that fails
//! stops the others.

use vstd::prelude::*;
use vstd::string::*;
use crate::error::Compiler;
use crate::html::{HtmlNode, NodeView};
use crate::ids::is_fluent_id;
use crate::ifs::{if_node, if_count, first_if_failure, all_ifs, IfInfo, parse_and_modify_html};
use crate::markers::{
    InfoView, ModifiedHtmlInfo, ModifiedHtmlInfoWithCode, infos_view, mark_node, marked_count,
    marked_with, all_values_parse, all_values_are_closures, first_custom_failure, all_match,
    modify_html, modify_html_exprs, modify_html_closures, modify_html_custom_events,
    tree_has_attribute, prefixed_count, lemma_mark_node_infos_from_attributes,
    lemma_mark_node_reports_each,
};
use crate::reactive_text::{
    react_node, reactive_count, first_failure, all_texts, all_parse, reacted, ReactiveText,
};
use crate::subcomponent::{sub_node, sub_count, sub_failure, subs_view, SubComponentData, find_subcomponents};
use crate::template::{template_exprs, template_format, extract_format_strings};

verus! {

broadcast use vstd::seq_lib::group_seq_properties;

/// A CSS variable set by a `--name="..."` attribute, with its value split into
/// a format string and expressions.
pub struct CssVar {
    /// The attribute taken off the element.
    pub info: ModifiedHtmlInfo,
    /// The value with `{}` for each expression.
    pub format: String,
    /// The expressions.
    pub expressions: Vec<syn::Expr>,
}

/// What the passes found in a template.
pub struct TemplateParts {
    pub reactive: Vec<ReactiveText>,
    pub conditional: Vec<ModifiedHtmlInfoWithCode<syn::Expr, ()>>,
    pub computed: Vec<ModifiedHtmlInfoWithCode<syn::Expr, ()>>,
    pub props: Vec<ModifiedHtmlInfoWithCode<syn::Expr, ()>>,
    pub css_vars: Vec<CssVar>,
    pub subcomponents: Vec<SubComponentData>,
    pub native_events: Vec<ModifiedHtmlInfoWithCode<syn::ExprClosure, ()>>,
    pub custom_events: Vec<ModifiedHtmlInfoWithCode<syn::ExprClosure, proc_macro2::TokenStream>>,
    pub ifs: Vec<IfInfo>,
}

// ---------------------------------------------------------------------------
// The passes, numbered in running order
// ---------------------------------------------------------------------------

/// The prefix of a marker pass.
pub open spec fn pass_prefix(k: nat) -> Seq<char> {
    if k == 1 {
        seq!['?']
    } else if k == 2 {
        seq!['=']
    } else if k == 3 {
        seq!['@']
    } else if k == 4 {
        seq!['-', '-']
    } else if k == 6 {
        seq![':']
    } else {
        seq![';']
    }
}

/// The tree after pass `k`, for the ids it used.
pub open spec fn pass_tree(t: NodeView, ids: Seq<Seq<char>>, k: nat) -> NodeView {
    if k == 0 {
        react_node(t, ids, false).0
    } else if k == 5 {
        sub_node(t, ids, false).0
    } else if k == 8 {
        if_node(t, ids).0
    } else {
        mark_node(t, pass_prefix(k), ids, false).0
    }
}

/// How many fresh ids pass `k` uses.
pub open spec fn pass_id_count(t: NodeView, k: nat) -> nat {
    if k == 0 {
        reactive_count(t)
    } else if k == 5 {
        sub_count(t)
    } else if k == 8 {
        if_count(t)
    } else {
        marked_count(t, pass_prefix(k))
    }
}

/// The ids of a pass are as many fresh compiler ids as it uses.
pub open spec fn pass_ids_ok(t: NodeView, ids: Seq<Seq<char>>, k: nat) -> bool {
    &&& ids.len() == pass_id_count(t, k)
    &&& forall|i: int| 0 <= i < ids.len() ==> is_fluent_id(#[trigger] ids[i])
}

/// The value of every CSS variable is reactive text whose expressions parse.
pub open spec fn css_values_parse(infos: Seq<InfoView>) -> bool {
    forall|k: int| 0 <= k < infos.len() ==> all_parse(template_exprs(#[trigger] infos[k].value))
}

/// Pass `k` succeeds on the tree.
pub open spec fn pass_ok(t: NodeView, ids: Seq<Seq<char>>, k: nat) -> bool {
    if k == 0 {
        !first_failure(react_node(t, ids, false).1)
    } else if k == 1 || k == 2 || k == 3 {
        all_values_parse(mark_node(t, pass_prefix(k), ids, false).1)
    } else if k == 4 {
        css_values_parse(mark_node(t, pass_prefix(k), ids, false).1)
    } else if k == 5 {
        sub_failure(t) is None
    } else if k == 6 {
        all_values_are_closures(mark_node(t, pass_prefix(k), ids, false).1)
    } else if k == 7 {
        first_custom_failure(mark_node(t, pass_prefix(k), ids, false).1) is None
    } else {
        !first_if_failure(if_node(t, ids).1)
    }
}

/// The tree before pass `k`, for the ids of the passes before it.
pub open spec fn stage(t0: NodeView, ids: Seq<Seq<Seq<char>>>, k: nat) -> NodeView
    decreases k,
{
    if k == 0 {
        t0
    } else {
        pass_tree(stage(t0, ids, (k - 1) as nat), ids[k - 1], (k - 1) as nat)
    }
}

/// Pass `k` ran with proper ids and succeeded.
pub open spec fn pass_done(t0: NodeView, ids: Seq<Seq<Seq<char>>>, k: nat) -> bool {
    &&& pass_ids_ok(stage(t0, ids, k), ids[k as int], k)
    &&& pass_ok(stage(t0, ids, k), ids[k as int], k)
}

/// Pass `k` was reached and failed.
pub open spec fn fails_at(t0: NodeView, ids: Seq<Seq<Seq<char>>>, k: nat) -> bool {
    &&& forall|j: nat| j < k ==> #[trigger] pass_done(t0, ids, j)
    &&& !pass_ok(stage(t0, ids, k), ids[k as int], k)
}

/// The CSS variables match the infos of the `--` pass, one for one.
pub open spec fn css_vars_match(v: Seq<CssVar>, infos: Seq<InfoView>) -> bool {
    &&& v.len() == infos.len()
    &&& forall|k: int|
        0 <= k < infos.len() ==> {
            &&& (#[trigger] v[k]).info@ == infos[k]
            &&& v[k].format@ == template_format(infos[k].value)
            &&& v[k].expressions@.len() == template_exprs(infos[k].value).len()
        }
}

/// What each pass found, for the ids the passes used.
pub open spec fn parts_match(t0: NodeView, ids: Seq<Seq<Seq<char>>>, p: TemplateParts) -> bool {
    &&& all_texts(
        react_node(stage(t0, ids, 0), ids[0], false).1,
        p.reactive@.map_values(|t: ReactiveText| t@),
    )
    &&& all_match(p.conditional@, mark_node(stage(t0, ids, 1), pass_prefix(1), ids[1], false).1)
    &&& all_match(p.computed@, mark_node(stage(t0, ids, 2), pass_prefix(2), ids[2], false).1)
    &&& all_match(p.props@, mark_node(stage(t0, ids, 3), pass_prefix(3), ids[3], false).1)
    &&& css_vars_match(p.css_vars@, mark_node(stage(t0, ids, 4), pass_prefix(4), ids[4], false).1)
    &&& subs_view(p.subcomponents@) == sub_node(stage(t0, ids, 5), ids[5], false).1
    &&& all_match(p.native_events@, mark_node(stage(t0, ids, 6), pass_prefix(6), ids[6], false).1)
    &&& all_match(p.custom_events@, mark_node(stage(t0, ids, 7), pass_prefix(7), ids[7], false).1)
    &&& all_ifs(if_node(stage(t0, ids, 8), ids[8]).1, p.ifs@.map_values(|i: IfInfo| i@))
}

/// The outcome of all passes on `t0` with the given ids: on success every pass
/// succeeded, the tree is the last one and the parts are what the passes
/// found; on failure some pass was reached and failed.
pub open spec fn passes_outcome(
    t0: NodeView,
    ids: Seq<Seq<Seq<char>>>,
    r: Result<(HtmlNode, TemplateParts), Compiler>,
) -> bool {
    &&& ids.len() == 9
    &&& match r {
        Ok((out, parts)) => {
            &&& forall|k: nat| k < 9 ==> #[trigger] pass_done(t0, ids, k)
            &&& out@ == stage(t0, ids, 9)
            &&& parts_match(t0, ids, parts)
        },
        Err(e) => {
            &&& (e is Parse || e is MissingSrc)
            &&& exists|k: nat| k < 9 && #[trigger] fails_at(t0, ids, k)
        },
    }
}

// ---------------------------------------------------------------------------
// Executable code
// ---------------------------------------------------------------------------

/// `stage` only looks at the ids of the passes before `k`.
proof fn lemma_stage_prefix(t0: NodeView, a: Seq<Seq<Seq<char>>>, b: Seq<Seq<Seq<char>>>, k: nat)
    requires
        k <= a.len(),
        k <= b.len(),
        a.take(k as int) == b.take(k as int),
    ensures
        stage(t0, a, k) == stage(t0, b, k),
    decreases k,
{
    if k > 0 {
        assert(a.take(k - 1) =~= a.take(k as int).take(k - 1));
        assert(b.take(k - 1) =~= b.take(k as int).take(k - 1));
        lemma_stage_prefix(t0, a, b, (k - 1) as nat);
        assert(a[k - 1] == a.take(k as int)[k - 1]);
        assert(b[k - 1] == b.take(k as int)[k - 1]);
    }
}

/// `pass_done` only looks at the ids of the passes up to `k`.
proof fn lemma_done_prefix(t0: NodeView, a: Seq<Seq<Seq<char>>>, b: Seq<Seq<Seq<char>>>, k: nat)
    requires
        k < a.len(),
        k < b.len(),
        a.take((k + 1) as int) == b.take((k + 1) as int),
    ensures
        pass_done(t0, a, k) == pass_done(t0, b, k),
        pass_ok(stage(t0, a, k), a[k as int], k) == pass_ok(stage(t0, b, k), b[k as int], k),
{
    assert(a.take(k as int) =~= a.take((k + 1) as int).take(k as int));
    assert(b.take(k as int) =~= b.take((k + 1) as int).take(k as int));
    lemma_stage_prefix(t0, a, b, k);
    assert(a[k as int] == a.take((k + 1) as int)[k as int]);
    assert(b[k as int] == b.take((k + 1) as int)[k as int]);
}

/// The ids chosen so far, padded to all passes with no ids.
pub open spec fn padded(acc: Seq<Seq<Seq<char>>>) -> Seq<Seq<Seq<char>>> {
    acc + Seq::new((9 - acc.len()) as nat, |i: int| Seq::<Seq<char>>::empty())
}

/// What holds after the first `k` passes succeeded with the ids in `acc`.
pub open spec fn progress(t0: NodeView, acc: Seq<Seq<Seq<char>>>, t: NodeView) -> bool {
    &&& acc.len() <= 9
    &&& stage(t0, acc, acc.len()) == t
    &&& forall|j: nat| j < acc.len() ==> #[trigger] pass_done(t0, acc, j)
}

/// One more pass succeeded.
proof fn lemma_progress_step(
    t0: NodeView,
    acc: Seq<Seq<Seq<char>>>,
    t: NodeView,
    ids: Seq<Seq<char>>,
    t2: NodeView,
)
    requires
        progress(t0, acc, t),
        acc.len() < 9,
        pass_ids_ok(t, ids, acc.len()),
        pass_ok(t, ids, acc.len()),
        t2 == pass_tree(t, ids, acc.len()),
    ensures
        progress(t0, acc.push(ids), t2),
{
    let acc2 = acc.push(ids);
    let k = acc.len();
    assert(acc2.take(k as int) =~= acc.take(k as int));
    lemma_stage_prefix(t0, acc, acc2, k);
    assert(acc2[k as int] == ids);
    assert(stage(t0, acc2, k + 1) == pass_tree(stage(t0, acc2, k), acc2[k as int], k));
    assert forall|j: nat| j < acc2.len() implies #[trigger] pass_done(t0, acc2, j) by {
        if j < k {
            assert(acc.take((j + 1) as int) =~= acc2.take((j + 1) as int));
            lemma_done_prefix(t0, acc, acc2, j);
        }
    }
}

/// A pass failed: the padded ids witness the failure.
proof fn lemma_progress_fail(t0: NodeView, acc: Seq<Seq<Seq<char>>>, t: NodeView, ids: Seq<Seq<char>>)
    requires
        progress(t0, acc, t),
        acc.len() < 9,
        !pass_ok(t, ids, acc.len()),
    ensures
        fails_at(t0, padded(acc.push(ids)), acc.len()),
        padded(acc.push(ids)).len() == 9,
{
    let k = acc.len();
    let w = padded(acc.push(ids));
    assert(w.len() == 9);
    assert(w.take(k as int) =~= acc.take(k as int));
    lemma_stage_prefix(t0, acc, w, k);
    assert(w[k as int] == ids);
    assert forall|j: nat| j < k implies #[trigger] pass_done(t0, w, j) by {
        assert(acc.take((j + 1) as int) =~= w.take((j + 1) as int));
        lemma_done_prefix(t0, acc, w, j);
    }
}

/// A pass failed: some ids witness the outcome of the whole run.
proof fn lemma_outcome_fail(
    t0: NodeView,
    acc: Seq<Seq<Seq<char>>>,
    t: NodeView,
    ids: Seq<Seq<char>>,
    r: Result<(HtmlNode, TemplateParts), Compiler>,
)
    requires
        progress(t0, acc, t),
        acc.len() < 9,
        !pass_ok(t, ids, acc.len()),
        r matches Err(e) && (e is Parse || e is MissingSrc),
    ensures
        exists|w: Seq<Seq<Seq<char>>>| #[trigger] passes_outcome(t0, w, r),
{
    lemma_progress_fail(t0, acc, t, ids);
    let w = padded(acc.push(ids));
    assert(fails_at(t0, w, acc.len()));
    assert(passes_outcome(t0, w, r));
}

/// Parses the value of each CSS variable as reactive text; fails with the
/// parse error of the first one whose expressions do not all parse.
fn parse_css_vars(infos: Vec<ModifiedHtmlInfo>) -> (r: Result<Vec<CssVar>, Compiler>)
    ensures
        r is Ok <==> css_values_parse(infos_view(infos@)),
        r matches Ok(v) ==> css_vars_match(v@, infos_view(infos@)),
        r matches Err(e) ==> e is Parse,
{
    let ghost iv = infos_view(infos@);
    let mut out: Vec<CssVar> = Vec::new();
    let mut rest = infos;
    let total = rest.len();
    let mut i: usize = 0;
    #[verifier::loop_isolation(false)]
    while i < total
        invariant
            total == iv.len(),
            i <= total,
            infos_view(rest@) == iv.skip(i as int),
            out@.len() == i,
            forall|k: int|
                0 <= k < i ==> {
                    &&& (#[trigger] out@[k]).info@ == iv[k]
                    &&& out@[k].format@ == template_format(iv[k].value)
                    &&& out@[k].expressions@.len() == template_exprs(iv[k].value).len()
                },
            forall|k: int| 0 <= k < i ==> all_parse(template_exprs(#[trigger] iv[k].value)),
        decreases total - i,
    {
        let ghost rs = rest@;
        assert(rs.len() == infos_view(rs).len());
        let info = rest.remove(0);
        assert(info@ == iv[i as int]);
        assert(infos_view(rest@) =~= iv.skip(i + 1));
        match extract_format_strings(info.value.as_str()) {
            Ok((format, expressions)) => {
                out.push(CssVar { info, format, expressions });
            },
            Err(e) => {
                assert(!all_parse(template_exprs(iv[i as int].value)));
                return Err(e);
            },
        }
        i += 1;
    }
    Ok(out)
}

/// The reactive text pass, with the ids it used.
fn reactive_pass(node: &mut HtmlNode) -> (r: (Result<Vec<ReactiveText>, Compiler>, Ghost<Seq<Seq<char>>>))
    ensures
        pass_ids_ok(old(node)@, r.1@, 0),
        final(node)@ == pass_tree(old(node)@, r.1@, 0),
        r.0 is Ok <==> pass_ok(old(node)@, r.1@, 0),
        r.0 matches Ok(v) ==> all_texts(
            react_node(old(node)@, r.1@, false).1,
            v@.map_values(|t: ReactiveText| t@),
        ),
        r.0 matches Err(e) ==> e is Parse,
{
    let ghost before = node@;
    let res = crate::reactive_text::modify_html(node);
    let ghost ids = choose|ids: Seq<Seq<char>>|
        {
            &&& #[trigger] reacted(before, node@, ids, false)
            &&& (res is Err <==> first_failure(react_node(before, ids, false).1))
            &&& (res matches Ok(v) ==> all_texts(
                react_node(before, ids, false).1,
                v@.map_values(|t: ReactiveText| t@),
            ))
        };
    (res, Ghost(ids))
}

/// A pass over attributes whose values are expressions, with the ids it used.
fn expr_pass(node: &mut HtmlNode, prefix: &str) -> (r: (
    Result<Vec<ModifiedHtmlInfoWithCode<syn::Expr, ()>>, Compiler>,
    Ghost<Seq<Seq<char>>>,
))
    ensures
        r.1@.len() == marked_count(old(node)@, prefix@),
        forall|i: int| 0 <= i < r.1@.len() ==> is_fluent_id(#[trigger] r.1@[i]),
        final(node)@ == mark_node(old(node)@, prefix@, r.1@, false).0,
        r.0 is Ok <==> all_values_parse(mark_node(old(node)@, prefix@, r.1@, false).1),
        r.0 matches Ok(v) ==> all_match(v@, mark_node(old(node)@, prefix@, r.1@, false).1),
        r.0 matches Err(e) ==> e is Parse,
{
    let ghost before = node@;
    let res = modify_html_exprs(node, prefix);
    let ghost pair = choose|ids: Seq<Seq<char>>, infos: Seq<InfoView>|
        {
            &&& #[trigger] marked_with(before, node@, prefix@, ids, infos)
            &&& (res is Ok <==> all_values_parse(infos))
            &&& (res matches Ok(v) ==> all_match(v@, infos))
        };
    (res, Ghost(pair.0))
}

/// The native event listener pass, with the ids it used.
fn closure_pass(node: &mut HtmlNode, prefix: &str) -> (r: (
    Result<Vec<ModifiedHtmlInfoWithCode<syn::ExprClosure, ()>>, Compiler>,
    Ghost<Seq<Seq<char>>>,
))
    ensures
        r.1@.len() == marked_count(old(node)@, prefix@),
        forall|i: int| 0 <= i < r.1@.len() ==> is_fluent_id(#[trigger] r.1@[i]),
        final(node)@ == mark_node(old(node)@, prefix@, r.1@, false).0,
        r.0 is Ok <==> all_values_are_closures(mark_node(old(node)@, prefix@, r.1@, false).1),
        r.0 matches Ok(v) ==> all_match(v@, mark_node(old(node)@, prefix@, r.1@, false).1),
        r.0 matches Err(e) ==> e is Parse,
{
    let ghost before = node@;
    let res = modify_html_closures(node, prefix);
    let ghost pair = choose|ids: Seq<Seq<char>>, infos: Seq<InfoView>|
        {
            &&& #[trigger] marked_with(before, node@, prefix@, ids, infos)
            &&& (res is Ok <==> all_values_are_closures(infos))
            &&& (res matches Ok(v) ==> all_match(v@, infos))
        };
    (res, Ghost(pair.0))
}

/// The custom event listener pass, with the ids it used.
fn custom_pass(node: &mut HtmlNode, prefix: &str) -> (r: (
    Result<Vec<ModifiedHtmlInfoWithCode<syn::ExprClosure, proc_macro2::TokenStream>>, Compiler>,
    Ghost<Seq<Seq<char>>>,
))
    ensures
        r.1@.len() == marked_count(old(node)@, prefix@),
        forall|i: int| 0 <= i < r.1@.len() ==> is_fluent_id(#[trigger] r.1@[i]),
        final(node)@ == mark_node(old(node)@, prefix@, r.1@, false).0,
        r.0 is Ok <==> first_custom_failure(mark_node(old(node)@, prefix@, r.1@, false).1) is None,
        r.0 matches Ok(v) ==> all_match(v@, mark_node(old(node)@, prefix@, r.1@, false).1),
        r.0 matches Err(e) ==> e is Parse || e is MissingSrc,
{
    let ghost before = node@;
    let res = modify_html_custom_events(node, prefix);
    let ghost pair = choose|ids: Seq<Seq<char>>, infos: Seq<InfoView>|
        {
            &&& #[trigger] marked_with(before, node@, prefix@, ids, infos)
            &&& (res is Ok <==> first_custom_failure(infos) is None)
            &&& (res matches Ok(v) ==> all_match(v@, infos))
            &&& (res matches Err(e) ==> (e is MissingSrc <==> first_custom_failure(infos) == Some(
                true,
            )))
        };
    (res, Ghost(pair.0))
}

/// The CSS variable pass, with the ids it used.
fn css_var_pass(node: &mut HtmlNode, prefix: &str) -> (r: (Result<Vec<CssVar>, Compiler>, Ghost<
    Seq<Seq<char>>,
>))
    ensures
        r.1@.len() == marked_count(old(node)@, prefix@),
        forall|i: int| 0 <= i < r.1@.len() ==> is_fluent_id(#[trigger] r.1@[i]),
        final(node)@ == mark_node(old(node)@, prefix@, r.1@, false).0,
        r.0 is Ok <==> css_values_parse(mark_node(old(node)@, prefix@, r.1@, false).1),
        r.0 matches Ok(v) ==> css_vars_match(v@, mark_node(old(node)@, prefix@, r.1@, false).1),
        r.0 matches Err(e) ==> e is Parse,
{
    let ghost before = node@;
    let infos = modify_html(node, prefix);
    let ghost ids = choose|ids: Seq<Seq<char>>|
        {
            &&& ids.len() == marked_count(before, prefix@)
            &&& forall|k: int| 0 <= k < ids.len() ==> is_fluent_id(#[trigger] ids[k])
            &&& (node@, infos_view(infos@)) == mark_node(before, prefix@, ids, false)
        };
    (parse_css_vars(infos), Ghost(ids))
}

/// The sub component pass, with the ids it used.
fn sub_pass(node: HtmlNode) -> (r: (Result<(HtmlNode, Vec<SubComponentData>), Compiler>, Ghost<
    Seq<Seq<char>>,
>))
    ensures
        r.0 is Ok <==> pass_ok(node@, r.1@, 5),
        r.0 matches Ok((n, subs)) ==> {
            &&& pass_ids_ok(node@, r.1@, 5)
            &&& n@ == pass_tree(node@, r.1@, 5)
            &&& subs_view(subs@) == sub_node(node@, r.1@, false).1
        },
        r.0 matches Err(e) ==> e is Parse || e is MissingSrc,
{
    let ghost before = node@;
    let res = find_subcomponents(node);
    let ghost ids = if res is Ok {
        choose|ids: Seq<Seq<char>>|
            {
                &&& ids.len() == sub_count(before)
                &&& forall|k: int| 0 <= k < ids.len() ==> is_fluent_id(#[trigger] ids[k])
                &&& (res->Ok_0.0@, subs_view(res->Ok_0.1@)) == sub_node(before, ids, false)
            }
    } else {
        Seq::empty()
    };
    proof {
        if sub_failure(before) is Some {
            let f = sub_failure(before)->0;
            assert(res matches Err(e) && crate::subcomponent::failure_matches(f, e));
        }
    }
    (res, Ghost(ids))
}

/// The `$if` pass, with the ids it used.
fn if_pass(node: &mut HtmlNode) -> (r: (Result<Vec<IfInfo>, Compiler>, Ghost<Seq<Seq<char>>>))
    ensures
        pass_ids_ok(old(node)@, r.1@, 8),
        final(node)@ == pass_tree(old(node)@, r.1@, 8),
        r.0 is Ok <==> pass_ok(old(node)@, r.1@, 8),
        r.0 matches Ok(v) ==> all_ifs(if_node(old(node)@, r.1@).1, v@.map_values(|i: IfInfo| i@)),
        r.0 matches Err(e) ==> e is Parse,
{
    let ghost before = node@;
    let res = parse_and_modify_html(node);
    let ghost ids = choose|ids: Seq<Seq<char>>|
        {
            &&& ids.len() == if_count(before)
            &&& forall|k: int| 0 <= k < ids.len() ==> is_fluent_id(#[trigger] ids[k])
            &&& node@ == if_node(before, ids).0
            &&& (res is Err <==> first_if_failure(if_node(before, ids).1))
            &&& (res matches Ok(v) ==> all_ifs(
                if_node(before, ids).1,
                v@.map_values(|t: IfInfo| t@),
            ))
        };
    (res, Ghost(ids))
}

/// Runs all template passes on a component's `<body>`, in order, each with
/// fresh ids, and returns the tree they leave and what they found; the first
/// pass that fails stops the others and its error is returned.
#[verifier::spinoff_prover]
#[verifier::rlimit(60)]
pub fn run_template_passes(body: HtmlNode) -> (r: Result<(HtmlNode, TemplateParts), Compiler>)
    ensures
        exists|ids: Seq<Seq<Seq<char>>>| #[trigger] passes_outcome(body@, ids, r),
{
    let ghost t0 = body@;
    let mut node = body;
    let ghost mut acc: Seq<Seq<Seq<char>>> = Seq::empty();
    assert(progress(t0, acc, node@));

    // Reactive text.
    let ghost t = node@;
    let (res, ids) = reactive_pass(&mut node);
    let reactive = match res {
        Ok(v) => v,
        Err(e) => {
            let r = Err(e);
            proof {
                lemma_outcome_fail(t0, acc, t, ids@, r);
            }
            return r;
        },
    };
    proof {
        lemma_progress_step(t0, acc, t, ids@, node@);
        acc = acc.push(ids@);
    }

    // Conditional attributes.
    let ghost t = node@;
    let prefix = String::from_str("?");
    proof {
        reveal_strlit("?");
    }
    assert(prefix@ =~= pass_prefix(1));
    let (res, ids) = expr_pass(&mut node, prefix.as_str());
    let conditional = match res {
        Ok(v) => v,
        Err(e) => {
            let r = Err(e);
            proof {
                lemma_outcome_fail(t0, acc, t, ids@, r);
            }
            return r;
        },
    };
    proof {
        lemma_progress_step(t0, acc, t, ids@, node@);
        acc = acc.push(ids@);
    }

    // Computed attributes.
    let ghost t = node@;
    let prefix = String::from_str("=");
    proof {
        reveal_strlit("=");
    }
    assert(prefix@ =~= pass_prefix(2));
    let (res, ids) = expr_pass(&mut node, prefix.as_str());
    let computed = match res {
        Ok(v) => v,
        Err(e) => {
            let r = Err(e);
            proof {
                lemma_outcome_fail(t0, acc, t, ids@, r);
            }
            return r;
        },
    };
    proof {
        lemma_progress_step(t0, acc, t, ids@, node@);
        acc = acc.push(ids@);
    }

    // Props.
    let ghost t = node@;
    let prefix = String::from_str("@");
    proof {
        reveal_strlit("@");
    }
    assert(prefix@ =~= pass_prefix(3));
    let (res, ids) = expr_pass(&mut node, prefix.as_str());
    let props = match res {
        Ok(v) => v,
        Err(e) => {
            let r = Err(e);
            proof {
                lemma_outcome_fail(t0, acc, t, ids@, r);
            }
            return r;
        },
    };
    proof {
        lemma_progress_step(t0, acc, t, ids@, node@);
        acc = acc.push(ids@);
    }

    // CSS variables.
    let ghost t = node@;
    let prefix = String::from_str("--");
    proof {
        reveal_strlit("--");
    }
    assert(prefix@ =~= pass_prefix(4));
    let (res, ids) = css_var_pass(&mut node, prefix.as_str());
    let css_vars = match res {
        Ok(v) => v,
        Err(e) => {
            let r = Err(e);
            proof {
                lemma_outcome_fail(t0, acc, t, ids@, r);
            }
            return r;
        },
    };
    proof {
        lemma_progress_step(t0, acc, t, ids@, node@);
        acc = acc.push(ids@);
    }

    // Sub components.
    let ghost t = node@;
    let (res, ids) = sub_pass(node);
    let (after_subs, subcomponents) = match res {
        Ok(v) => v,
        Err(e) => {
            let r = Err(e);
            proof {
                lemma_outcome_fail(t0, acc, t, ids@, r);
            }
            return r;
        },
    };
    let mut node = after_subs;
    proof {
        lemma_progress_step(t0, acc, t, ids@, node@);
        acc = acc.push(ids@);
    }

    // Native event listeners.
    let ghost t = node@;
    let prefix = String::from_str(":");
    proof {
        reveal_strlit(":");
    }
    assert(prefix@ =~= pass_prefix(6));
    let (res, ids) = closure_pass(&mut node, prefix.as_str());
    let native_events = match res {
        Ok(v) => v,
        Err(e) => {
            let r = Err(e);
            proof {
                lemma_outcome_fail(t0, acc, t, ids@, r);
            }
            return r;
        },
    };
    proof {
        lemma_progress_step(t0, acc, t, ids@, node@);
        acc = acc.push(ids@);
    }

    // Custom event listeners.
    let ghost t = node@;
    let prefix = String::from_str(";");
    proof {
        reveal_strlit(";");
    }
    assert(prefix@ =~= pass_prefix(7));
    let (res, ids) = custom_pass(&mut node, prefix.as_str());
    let custom_events = match res {
        Ok(v) => v,
        Err(e) => {
            let r = Err(e);
            proof {
                lemma_outcome_fail(t0, acc, t, ids@, r);
            }
            return r;
        },
    };
    proof {
        lemma_progress_step(t0, acc, t, ids@, node@);
        acc = acc.push(ids@);
    }

    // `$if` blocks, last.
    let ghost t = node@;
    let (res, ids) = if_pass(&mut node);
    let ifs = match res {
        Ok(v) => v,
        Err(e) => {
            let r = Err(e);
            proof {
                lemma_outcome_fail(t0, acc, t, ids@, r);
            }
            return r;
        },
    };
    proof {
        lemma_progress_step(t0, acc, t, ids@, node@);
        acc = acc.push(ids@);
    }

    let parts = TemplateParts {
        reactive,
        conditional,
        computed,
        props,
        css_vars,
        subcomponents,
        native_events,
        custom_events,
        ifs,
    };
    let r = Ok((node, parts));
    proof {
        assert(acc.len() == 9);
        assert(passes_outcome(t0, acc, r));
    }
    r
}

// ---------------------------------------------------------------------------
// The law: each marker pass reads the attributes with its own prefix
// ---------------------------------------------------------------------------

/// Each marker pass reports the attributes written with its own prefix, and
/// only those: conditional attributes are the ones written `?name`, computed
/// attributes `=name`, props `@name`, CSS variables `--name`, native events
/// `:name` and custom events `;name`. For each pass there is one report per
/// attribute with its prefix in the tree the pass runs on, and each report
/// names an element of that tree with an attribute made of the prefix and the
/// reported name.
pub proof fn lemma_marker_passes_read_their_prefix(
    t0: NodeView,
    ids: Seq<Seq<Seq<char>>>,
    parts: TemplateParts,
)
    requires
        parts_match(t0, ids, parts),
    ensures
        parts.conditional@.len() == prefixed_count(stage(t0, ids, 1), seq!['?']),
        forall|i: int|
            0 <= i < parts.conditional@.len() ==> tree_has_attribute(
                stage(t0, ids, 1),
                (#[trigger] parts.conditional@[i]).element@,
                seq!['?'] + parts.conditional@[i].attribute@,
            ),
        parts.computed@.len() == prefixed_count(stage(t0, ids, 2), seq!['=']),
        forall|i: int|
            0 <= i < parts.computed@.len() ==> tree_has_attribute(
                stage(t0, ids, 2),
                (#[trigger] parts.computed@[i]).element@,
                seq!['='] + parts.computed@[i].attribute@,
            ),
        parts.props@.len() == prefixed_count(stage(t0, ids, 3), seq!['@']),
        forall|i: int|
            0 <= i < parts.props@.len() ==> tree_has_attribute(
                stage(t0, ids, 3),
                (#[trigger] parts.props@[i]).element@,
                seq!['@'] + parts.props@[i].attribute@,
            ),
        parts.native_events@.len() == prefixed_count(stage(t0, ids, 6), seq![':']),
        forall|i: int|
            0 <= i < parts.native_events@.len() ==> tree_has_attribute(
                stage(t0, ids, 6),
                (#[trigger] parts.native_events@[i]).element@,
                seq![':'] + parts.native_events@[i].attribute@,
            ),
        parts.custom_events@.len() == prefixed_count(stage(t0, ids, 7), seq![';']),
        forall|i: int|
            0 <= i < parts.custom_events@.len() ==> tree_has_attribute(
                stage(t0, ids, 7),
                (#[trigger] parts.custom_events@[i]).element@,
                seq![';'] + parts.custom_events@[i].attribute@,
            ),
        parts.css_vars@.len() == prefixed_count(stage(t0, ids, 4), seq!['-', '-']),
        forall|i: int|
            0 <= i < parts.css_vars@.len() ==> tree_has_attribute(
                stage(t0, ids, 4),
                (#[trigger] parts.css_vars@[i]).info@.element,
                seq!['-', '-'] + parts.css_vars@[i].info@.attribute,
            ),
{
    assert(pass_prefix(1) =~= seq!['?']);
    lemma_mark_node_reports_each(stage(t0, ids, 1), seq!['?'], ids[1], false);
    lemma_mark_node_infos_from_attributes(stage(t0, ids, 1), seq!['?'], ids[1], false);
    assert(pass_prefix(2) =~= seq!['=']);
    lemma_mark_node_reports_each(stage(t0, ids, 2), seq!['='], ids[2], false);
    lemma_mark_node_infos_from_attributes(stage(t0, ids, 2), seq!['='], ids[2], false);
    assert(pass_prefix(3) =~= seq!['@']);
    lemma_mark_node_reports_each(stage(t0, ids, 3), seq!['@'], ids[3], false);
    lemma_mark_node_infos_from_attributes(stage(t0, ids, 3), seq!['@'], ids[3], false);
    assert(pass_prefix(6) =~= seq![':']);
    lemma_mark_node_reports_each(stage(t0, ids, 6), seq![':'], ids[6], false);
    lemma_mark_node_infos_from_attributes(stage(t0, ids, 6), seq![':'], ids[6], false);
    assert(pass_prefix(7) =~= seq![';']);
    lemma_mark_node_reports_each(stage(t0, ids, 7), seq![';'], ids[7], false);
    lemma_mark_node_infos_from_attributes(stage(t0, ids, 7), seq![';'], ids[7], false);
    assert(pass_prefix(4) =~= seq!['-', '-']);
    lemma_mark_node_reports_each(stage(t0, ids, 4), seq!['-', '-'], ids[4], false);
    lemma_mark_node_infos_from_attributes(stage(t0, ids, 4), seq!['-', '-'], ids[4], false);
    assert forall|i: int| 0 <= i < parts.conditional@.len() implies tree_has_attribute(
        stage(t0, ids, 1),
        (#[trigger] parts.conditional@[i]).element@,
        seq!['?'] + parts.conditional@[i].attribute@,
    ) by {
        assert(parts.conditional@[i].matches_info(mark_node(stage(t0, ids, 1), seq!['?'], ids[1], false).1[i]));
    }
    assert forall|i: int| 0 <= i < parts.computed@.len() implies tree_has_attribute(
        stage(t0, ids, 2),
        (#[trigger] parts.computed@[i]).element@,
        seq!['='] + parts.computed@[i].attribute@,
    ) by {
        assert(parts.computed@[i].matches_info(mark_node(stage(t0, ids, 2), seq!['='], ids[2], false).1[i]));
    }
    assert forall|i: int| 0 <= i < parts.props@.len() implies tree_has_attribute(
        stage(t0, ids, 3),
        (#[trigger] parts.props@[i]).element@,
        seq!['@'] + parts.props@[i].attribute@,
    ) by {
        assert(parts.props@[i].matches_info(mark_node(stage(t0, ids, 3), seq!['@'], ids[3], false).1[i]));
    }
    assert forall|i: int| 0 <= i < parts.native_events@.len() implies tree_has_attribute(
        stage(t0, ids, 6),
        (#[trigger] parts.native_events@[i]).element@,
        seq![':'] + parts.native_events@[i].attribute@,
    ) by {
        assert(parts.native_events@[i].matches_info(mark_node(stage(t0, ids, 6), seq![':'], ids[6], false).1[i]));
    }
    assert forall|i: int| 0 <= i < parts.custom_events@.len() implies tree_has_attribute(
        stage(t0, ids, 7),
        (#[trigger] parts.custom_events@[i]).element@,
        seq![';'] + parts.custom_events@[i].attribute@,
    ) by {
        assert(parts.custom_events@[i].matches_info(mark_node(stage(t0, ids, 7), seq![';'], ids[7], false).1[i]));
    }
    assert forall|i: int| 0 <= i < parts.css_vars@.len() implies tree_has_attribute(
        stage(t0, ids, 4),
        (#[trigger] parts.css_vars@[i]).info@.element,
        seq!['-', '-'] + parts.css_vars@[i].info@.attribute,
    ) by {
        assert(parts.css_vars@[i].info@ == mark_node(stage(t0, ids, 4), seq!['-', '-'], ids[4], false).1[i]);
    }
}

} // verus!

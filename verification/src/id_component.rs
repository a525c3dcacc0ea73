//! All template passes of a component whose elements are found by `id`, in
//! the order the compiler runs them: reactive text, sub components, event
//! listeners (`:`) and conditional attributes (`?`). Where a pass meets a
//! value that is not the Rust it should be, the run has no result (`None`).

use vstd::prelude::*;
use crate::element_ids::{
    ConditionalAttribute, EventListener, conditional_prefix, listener_prefix, conditions_parse,
    listener_code_parses, conditionals_match, listeners_match, marked_by_id,
    find_conditional_attributes_and_set_id, find_event_listeners_and_set_id,
};
use crate::html::{HtmlNode, NodeView};
use crate::ids::is_fluent_id;
use crate::markers::{InfoView, mark_node, marked_count};
use crate::reactive_text::{
    react_node, reactive_count, first_failure, all_texts, reacted, ReactiveText,
    find_reactive_nodes_and_replace_with_span,
};
use crate::subcomponent::{
    sub_node, sub_count, sub_failure, subs_view, SubComponentData,
    find_sub_components_and_replace_with_div,
};

verus! {

broadcast use vstd::seq_lib::group_seq_properties;

/// What the passes found in a template.
pub struct IdTemplateParts {
    pub reactive: Vec<ReactiveText>,
    pub subcomponents: Vec<SubComponentData>,
    pub listeners: Vec<EventListener>,
    pub conditionals: Vec<ConditionalAttribute>,
}

/// The tree after pass `k`, for the ids it used.
pub open spec fn id_pass_tree(t: NodeView, ids: Seq<Seq<char>>, k: nat) -> NodeView {
    if k == 0 {
        react_node(t, ids, true).0
    } else if k == 1 {
        sub_node(t, ids, true).0
    } else if k == 2 {
        mark_node(t, listener_prefix(), ids, true).0
    } else {
        mark_node(t, conditional_prefix(), ids, true).0
    }
}

/// The ids of pass `k` are as many fresh compiler ids as it uses.
pub open spec fn id_pass_ids_ok(t: NodeView, ids: Seq<Seq<char>>, k: nat) -> bool {
    &&& ids.len() == (if k == 0 {
        reactive_count(t)
    } else if k == 1 {
        sub_count(t)
    } else if k == 2 {
        marked_count(t, listener_prefix())
    } else {
        marked_count(t, conditional_prefix())
    })
    &&& forall|i: int| 0 <= i < ids.len() ==> is_fluent_id(#[trigger] ids[i])
}

/// Pass `k` succeeds on the tree.
pub open spec fn id_pass_ok(t: NodeView, ids: Seq<Seq<char>>, k: nat) -> bool {
    if k == 0 {
        !first_failure(react_node(t, ids, true).1)
    } else if k == 1 {
        sub_failure(t) is None
    } else if k == 2 {
        listener_code_parses(mark_node(t, listener_prefix(), ids, true).1)
    } else {
        conditions_parse(mark_node(t, conditional_prefix(), ids, true).1)
    }
}

/// The tree before pass `k`.
pub open spec fn id_stage(t0: NodeView, ids: Seq<Seq<Seq<char>>>, k: nat) -> NodeView
    decreases k,
{
    if k == 0 {
        t0
    } else {
        id_pass_tree(id_stage(t0, ids, (k - 1) as nat), ids[k - 1], (k - 1) as nat)
    }
}

/// Pass `k` ran with proper ids and succeeded.
pub open spec fn id_pass_done(t0: NodeView, ids: Seq<Seq<Seq<char>>>, k: nat) -> bool {
    &&& id_pass_ids_ok(id_stage(t0, ids, k), ids[k as int], k)
    &&& id_pass_ok(id_stage(t0, ids, k), ids[k as int], k)
}

/// Pass `k` was reached and failed.
pub open spec fn id_fails_at(t0: NodeView, ids: Seq<Seq<Seq<char>>>, k: nat) -> bool {
    &&& forall|j: nat| j < k ==> #[trigger] id_pass_done(t0, ids, j)
    &&& !id_pass_ok(id_stage(t0, ids, k), ids[k as int], k)
}

/// What each pass found, for the ids the passes used.
pub open spec fn id_parts_match(t0: NodeView, ids: Seq<Seq<Seq<char>>>, p: IdTemplateParts) -> bool {
    &&& all_texts(
        react_node(id_stage(t0, ids, 0), ids[0], true).1,
        p.reactive@.map_values(|t: ReactiveText| t@),
    )
    &&& subs_view(p.subcomponents@) == sub_node(id_stage(t0, ids, 1), ids[1], true).1
    &&& listeners_match(p.listeners@, mark_node(id_stage(t0, ids, 2), listener_prefix(), ids[2], true).1)
    &&& conditionals_match(
        p.conditionals@,
        mark_node(id_stage(t0, ids, 3), conditional_prefix(), ids[3], true).1,
    )
}

/// The outcome of all passes on `t0` with the given ids.
pub open spec fn id_passes_outcome(
    t0: NodeView,
    ids: Seq<Seq<Seq<char>>>,
    r: Option<(HtmlNode, IdTemplateParts)>,
) -> bool {
    &&& ids.len() == 4
    &&& match r {
        Some((out, parts)) => {
            &&& forall|k: nat| k < 4 ==> #[trigger] id_pass_done(t0, ids, k)
            &&& out@ == id_stage(t0, ids, 4)
            &&& id_parts_match(t0, ids, parts)
        },
        None => exists|k: nat| k < 4 && #[trigger] id_fails_at(t0, ids, k),
    }
}

/// What holds after the first passes succeeded with the ids in `acc`.
pub open spec fn id_progress(t0: NodeView, acc: Seq<Seq<Seq<char>>>, t: NodeView) -> bool {
    &&& acc.len() <= 4
    &&& id_stage(t0, acc, acc.len()) == t
    &&& forall|j: nat| j < acc.len() ==> #[trigger] id_pass_done(t0, acc, j)
}

/// `id_stage` only looks at the ids of the passes before `k`.
proof fn lemma_id_stage_prefix(
    t0: NodeView,
    a: Seq<Seq<Seq<char>>>,
    b: Seq<Seq<Seq<char>>>,
    k: nat,
)
    requires
        k <= a.len(),
        k <= b.len(),
        a.take(k as int) == b.take(k as int),
    ensures
        id_stage(t0, a, k) == id_stage(t0, b, k),
    decreases k,
{
    if k > 0 {
        assert(a.take(k - 1) =~= a.take(k as int).take(k - 1));
        assert(b.take(k - 1) =~= b.take(k as int).take(k - 1));
        lemma_id_stage_prefix(t0, a, b, (k - 1) as nat);
        assert(a[k - 1] == a.take(k as int)[k - 1]);
        assert(b[k - 1] == b.take(k as int)[k - 1]);
    }
}

/// `id_pass_done` only looks at the ids of the passes up to `k`.
proof fn lemma_id_done_prefix(
    t0: NodeView,
    a: Seq<Seq<Seq<char>>>,
    b: Seq<Seq<Seq<char>>>,
    k: nat,
)
    requires
        k < a.len(),
        k < b.len(),
        a.take((k + 1) as int) == b.take((k + 1) as int),
    ensures
        id_pass_done(t0, a, k) == id_pass_done(t0, b, k),
{
    assert(a.take(k as int) =~= a.take((k + 1) as int).take(k as int));
    assert(b.take(k as int) =~= b.take((k + 1) as int).take(k as int));
    lemma_id_stage_prefix(t0, a, b, k);
    assert(a[k as int] == a.take((k + 1) as int)[k as int]);
    assert(b[k as int] == b.take((k + 1) as int)[k as int]);
}

/// One more pass succeeded.
proof fn lemma_id_progress_step(
    t0: NodeView,
    acc: Seq<Seq<Seq<char>>>,
    t: NodeView,
    ids: Seq<Seq<char>>,
    t2: NodeView,
)
    requires
        id_progress(t0, acc, t),
        acc.len() < 4,
        id_pass_ids_ok(t, ids, acc.len()),
        id_pass_ok(t, ids, acc.len()),
        t2 == id_pass_tree(t, ids, acc.len()),
    ensures
        id_progress(t0, acc.push(ids), t2),
{
    let acc2 = acc.push(ids);
    let k = acc.len();
    assert(acc2.take(k as int) =~= acc.take(k as int));
    lemma_id_stage_prefix(t0, acc, acc2, k);
    assert(acc2[k as int] == ids);
    assert forall|j: nat| j < acc2.len() implies #[trigger] id_pass_done(t0, acc2, j) by {
        if j < k {
            assert(acc.take((j + 1) as int) =~= acc2.take((j + 1) as int));
            lemma_id_done_prefix(t0, acc, acc2, j);
        }
    }
}

/// A pass failed: some ids witness the outcome of the whole run.
proof fn lemma_id_outcome_fail(
    t0: NodeView,
    acc: Seq<Seq<Seq<char>>>,
    t: NodeView,
    ids: Seq<Seq<char>>,
)
    requires
        id_progress(t0, acc, t),
        acc.len() < 4,
        !id_pass_ok(t, ids, acc.len()),
    ensures
        exists|w: Seq<Seq<Seq<char>>>| #[trigger] id_passes_outcome(t0, w, None),
{
    let k = acc.len();
    let w = acc.push(ids) + Seq::new((3 - k) as nat, |i: int| Seq::<Seq<char>>::empty());
    assert(w.len() == 4);
    assert(w.take(k as int) =~= acc.take(k as int));
    lemma_id_stage_prefix(t0, acc, w, k);
    assert(w[k as int] == ids);
    assert forall|j: nat| j < k implies #[trigger] id_pass_done(t0, w, j) by {
        assert(acc.take((j + 1) as int) =~= w.take((j + 1) as int));
        lemma_id_done_prefix(t0, acc, w, j);
    }
    assert(id_fails_at(t0, w, k));
    assert(id_passes_outcome(t0, w, None));
}

/// The reactive text pass, with the ids it used.
fn id_reactive_pass(node: &mut HtmlNode) -> (r: (Option<Vec<ReactiveText>>, Ghost<Seq<Seq<char>>>))
    ensures
        id_pass_ids_ok(old(node)@, r.1@, 0),
        final(node)@ == id_pass_tree(old(node)@, r.1@, 0),
        r.0 is Some <==> id_pass_ok(old(node)@, r.1@, 0),
        r.0 matches Some(v) ==> all_texts(
            react_node(old(node)@, r.1@, true).1,
            v@.map_values(|t: ReactiveText| t@),
        ),
{
    let ghost before = node@;
    let res = find_reactive_nodes_and_replace_with_span(node);
    let ghost ids = choose|ids: Seq<Seq<char>>|
        {
            &&& #[trigger] reacted(before, node@, ids, true)
            &&& (res is None <==> first_failure(react_node(before, ids, true).1))
            &&& (res matches Some(v) ==> all_texts(
                react_node(before, ids, true).1,
                v@.map_values(|t: ReactiveText| t@),
            ))
        };
    (res, Ghost(ids))
}

/// The sub component pass, with the ids it used.
fn id_sub_pass(node: HtmlNode) -> (r: (Option<(HtmlNode, Vec<SubComponentData>)>, Ghost<
    Seq<Seq<char>>,
>))
    ensures
        r.0 is Some <==> id_pass_ok(node@, r.1@, 1),
        r.0 matches Some((n, subs)) ==> {
            &&& id_pass_ids_ok(node@, r.1@, 1)
            &&& n@ == id_pass_tree(node@, r.1@, 1)
            &&& subs_view(subs@) == sub_node(node@, r.1@, true).1
        },
{
    let ghost before = node@;
    let res = find_sub_components_and_replace_with_div(node);
    let ghost ids = if res is Some {
        choose|ids: Seq<Seq<char>>|
            {
                &&& ids.len() == sub_count(before)
                &&& forall|k: int| 0 <= k < ids.len() ==> is_fluent_id(#[trigger] ids[k])
                &&& (res->Some_0.0@, subs_view(res->Some_0.1@)) == sub_node(before, ids, true)
            }
    } else {
        Seq::empty()
    };
    (res, Ghost(ids))
}

/// The event listener pass, with the ids it used.
fn id_listener_pass(node: &mut HtmlNode) -> (r: (Option<Vec<EventListener>>, Ghost<Seq<Seq<char>>>))
    ensures
        id_pass_ids_ok(old(node)@, r.1@, 2),
        final(node)@ == id_pass_tree(old(node)@, r.1@, 2),
        r.0 is Some <==> id_pass_ok(old(node)@, r.1@, 2),
        r.0 matches Some(v) ==> listeners_match(
            v@,
            mark_node(old(node)@, listener_prefix(), r.1@, true).1,
        ),
{
    let ghost before = node@;
    let res = find_event_listeners_and_set_id(node);
    let ghost pair = choose|ids: Seq<Seq<char>>, infos: Seq<InfoView>|
        {
            &&& #[trigger] marked_by_id(before, node@, listener_prefix(), ids, infos)
            &&& (res is Some <==> listener_code_parses(infos))
            &&& (res matches Some(v) ==> listeners_match(v@, infos))
        };
    (res, Ghost(pair.0))
}

/// The conditional attribute pass, with the ids it used.
fn id_conditional_pass(node: &mut HtmlNode) -> (r: (Option<Vec<ConditionalAttribute>>, Ghost<
    Seq<Seq<char>>,
>))
    ensures
        id_pass_ids_ok(old(node)@, r.1@, 3),
        final(node)@ == id_pass_tree(old(node)@, r.1@, 3),
        r.0 is Some <==> id_pass_ok(old(node)@, r.1@, 3),
        r.0 matches Some(v) ==> conditionals_match(
            v@,
            mark_node(old(node)@, conditional_prefix(), r.1@, true).1,
        ),
{
    let ghost before = node@;
    let res = find_conditional_attributes_and_set_id(node);
    let ghost pair = choose|ids: Seq<Seq<char>>, infos: Seq<InfoView>|
        {
            &&& #[trigger] marked_by_id(before, node@, conditional_prefix(), ids, infos)
            &&& (res is Some <==> conditions_parse(infos))
            &&& (res matches Some(v) ==> conditionals_match(v@, infos))
        };
    (res, Ghost(pair.0))
}

/// Runs the passes on a component's `<body>` in order, each with fresh ids,
/// and returns the tree they leave and what they found; `None` when a pass
/// meets a value that is not the Rust it should be (the later passes do not
/// run).
#[verifier::spinoff_prover]
#[verifier::rlimit(40)]
pub fn run_id_template_passes(body: HtmlNode) -> (r: Option<(HtmlNode, IdTemplateParts)>)
    ensures
        exists|ids: Seq<Seq<Seq<char>>>| #[trigger] id_passes_outcome(body@, ids, r),
{
    let ghost t0 = body@;
    let mut node = body;
    let ghost mut acc: Seq<Seq<Seq<char>>> = Seq::empty();
    assert(id_progress(t0, acc, node@));

    let ghost t = node@;
    let (res, ids) = id_reactive_pass(&mut node);
    let reactive = match res {
        Some(v) => v,
        None => {
            proof {
                lemma_id_outcome_fail(t0, acc, t, ids@);
            }
            return None;
        },
    };
    proof {
        lemma_id_progress_step(t0, acc, t, ids@, node@);
        acc = acc.push(ids@);
    }

    let ghost t = node@;
    let (res, ids) = id_sub_pass(node);
    let (after_subs, subcomponents) = match res {
        Some(v) => v,
        None => {
            proof {
                lemma_id_outcome_fail(t0, acc, t, ids@);
            }
            return None;
        },
    };
    let mut node = after_subs;
    proof {
        lemma_id_progress_step(t0, acc, t, ids@, node@);
        acc = acc.push(ids@);
    }

    let ghost t = node@;
    let (res, ids) = id_listener_pass(&mut node);
    let listeners = match res {
        Some(v) => v,
        None => {
            proof {
                lemma_id_outcome_fail(t0, acc, t, ids@);
            }
            return None;
        },
    };
    proof {
        lemma_id_progress_step(t0, acc, t, ids@, node@);
        acc = acc.push(ids@);
    }

    let ghost t = node@;
    let (res, ids) = id_conditional_pass(&mut node);
    let conditionals = match res {
        Some(v) => v,
        None => {
            proof {
                lemma_id_outcome_fail(t0, acc, t, ids@);
            }
            return None;
        },
    };
    proof {
        lemma_id_progress_step(t0, acc, t, ids@, node@);
        acc = acc.push(ids@);
    }

    let r = Some((node, IdTemplateParts { reactive, subcomponents, listeners, conditionals }));
    proof {
        assert(acc.len() == 4);
        assert(id_passes_outcome(t0, acc, r));
    }
    r
}

} // verus!

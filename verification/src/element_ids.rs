//! Template passes that make elements findable by their `id` attribute, for
//! components that look their elements up with `#id` selectors: conditional
//! attributes (`?attr="cond"`) and event listeners (`:event="code"`).
//!
//! An element with such attributes keeps its own `id` if it has one and
//! otherwise gets a fresh one. Where a value is not the Rust it should be, these
//! passes report no result (`None`): the tree is changed all the same.

use vstd::prelude::*;
use vstd::string::*;
use crate::html::{HtmlNode, NodeView};
use crate::ids::is_fluent_id;
use crate::markers::{InfoView, ModifiedHtmlInfo, infos_view, marked_count, mark_node, modify_html_by_id};
use crate::template::{parses_as_expr, parse_expr};

verus! {

broadcast use vstd::seq_lib::group_seq_properties;

/// The outcome of [`modify_html_by_id`] for some fresh ids.
pub open spec fn marked_by_id(
    before: NodeView,
    after: NodeView,
    prefix: Seq<char>,
    ids: Seq<Seq<char>>,
    infos: Seq<InfoView>,
) -> bool {
    &&& ids.len() == marked_count(before, prefix)
    &&& forall|k: int| 0 <= k < ids.len() ==> is_fluent_id(#[trigger] ids[k])
    &&& (after, infos) == mark_node(before, prefix, ids, true)
}

/// `?`
pub open spec fn conditional_prefix() -> Seq<char> {
    seq!['?']
}

/// `:`
pub open spec fn listener_prefix() -> Seq<char> {
    seq![':']
}

/// A conditional attribute: the attribute is present exactly when the condition
/// holds.
pub struct ConditionalAttribute {
    /// The element's id.
    pub id: String,
    /// The attribute's name, without `?`.
    pub attribute: String,
    /// The condition.
    pub condition: syn::Expr,
}

/// An event listener: the code runs when the event fires on the element.
pub struct EventListener {
    /// The element's id.
    pub id: String,
    /// The DOM event's name, without `:`.
    pub handler: String,
    /// The code, as a block.
    pub code: syn::Block,
    /// The element's local name.
    pub element: String,
}

/// Whether `src` parses as a Rust block (`syn::parse_str::<syn::Block>`).
pub uninterp spec fn parses_as_block(src: Seq<char>) -> bool;

#[verifier::external_type_specification]
#[verifier::external_body]
pub struct ExBlock(syn::Block);

/// `syn::parse_str::<syn::Block>`. Whether parsing succeeds is a function of the
/// text alone; the block and the error are left unsaid.
#[verifier::external_body]
fn parse_block(src: &str) -> (r: Result<syn::Block, syn::Error>)
    ensures
        r is Ok <==> parses_as_block(src@),
{
    syn::parse_str(src)
}

/// `{code}`: listener code as a block.
pub open spec fn braced(code: Seq<char>) -> Seq<char> {
    seq!['{'] + code + seq!['}']
}

/// Every value parses as an expression.
pub open spec fn conditions_parse(infos: Seq<InfoView>) -> bool {
    forall|k: int| 0 <= k < infos.len() ==> parses_as_expr(#[trigger] infos[k].value)
}

/// Every value, in braces, parses as a block.
pub open spec fn listener_code_parses(infos: Seq<InfoView>) -> bool {
    forall|k: int| 0 <= k < infos.len() ==> parses_as_block(braced(#[trigger] infos[k].value))
}

/// The conditional attributes match the infos, one for one.
pub open spec fn conditionals_match(v: Seq<ConditionalAttribute>, infos: Seq<InfoView>) -> bool {
    &&& v.len() == infos.len()
    &&& forall|k: int|
        0 <= k < infos.len() ==> (#[trigger] v[k]).id@ == infos[k].id && v[k].attribute@
            == infos[k].attribute
}

/// The listeners match the infos, one for one.
pub open spec fn listeners_match(v: Seq<EventListener>, infos: Seq<InfoView>) -> bool {
    &&& v.len() == infos.len()
    &&& forall|k: int|
        0 <= k < infos.len() ==> (#[trigger] v[k]).id@ == infos[k].id && v[k].handler@
            == infos[k].attribute && v[k].element@ == infos[k].element
}

/// Parses each info's value as a condition; `None` when one does not parse.
fn conditions_from(infos: Vec<ModifiedHtmlInfo>) -> (r: Option<Vec<ConditionalAttribute>>)
    ensures
        r is Some <==> conditions_parse(infos_view(infos@)),
        r matches Some(v) ==> conditionals_match(v@, infos_view(infos@)),
{
    let ghost iv = infos_view(infos@);
    let mut out: Vec<ConditionalAttribute> = Vec::new();
    let mut rest = infos;
    let total = rest.len();
    let mut i: usize = 0;
    #[verifier::loop_isolation(false)]
    while i < total
        invariant
            total == iv.len(),
            i <= total,
            infos_view(rest@) == iv.skip(i as int),
            out@.len() == i,
            forall|k: int|
                0 <= k < i ==> (#[trigger] out@[k]).id@ == iv[k].id && out@[k].attribute@
                    == iv[k].attribute,
            forall|k: int| 0 <= k < i ==> parses_as_expr(#[trigger] iv[k].value),
        decreases total - i,
    {
        let ghost rs = rest@;
        assert(rs.len() == infos_view(rs).len());
        let info = rest.remove(0);
        assert(info@ == iv[i as int]);
        assert(infos_view(rest@) =~= iv.skip(i + 1));
        match parse_expr(info.value.as_str()) {
            Ok(condition) => {
                out.push(ConditionalAttribute { id: info.id, attribute: info.attribute, condition });
            },
            Err(_) => {
                assert(!parses_as_expr(iv[i as int].value));
                return None;
            },
        }
        i += 1;
    }
    Some(out)
}

/// Parses each info's value, in braces, as listener code; `None` when one does
/// not parse.
fn listeners_from(infos: Vec<ModifiedHtmlInfo>) -> (r: Option<Vec<EventListener>>)
    ensures
        r is Some <==> listener_code_parses(infos_view(infos@)),
        r matches Some(v) ==> listeners_match(v@, infos_view(infos@)),
{
    let ghost iv = infos_view(infos@);
    let mut out: Vec<EventListener> = Vec::new();
    let mut rest = infos;
    let total = rest.len();
    let mut i: usize = 0;
    #[verifier::loop_isolation(false)]
    while i < total
        invariant
            total == iv.len(),
            i <= total,
            infos_view(rest@) == iv.skip(i as int),
            out@.len() == i,
            forall|k: int|
                0 <= k < i ==> (#[trigger] out@[k]).id@ == iv[k].id && out@[k].handler@
                    == iv[k].attribute && out@[k].element@ == iv[k].element,
            forall|k: int| 0 <= k < i ==> parses_as_block(braced(#[trigger] iv[k].value)),
        decreases total - i,
    {
        let ghost rs = rest@;
        assert(rs.len() == infos_view(rs).len());
        let info = rest.remove(0);
        assert(info@ == iv[i as int]);
        assert(infos_view(rest@) =~= iv.skip(i + 1));
        let mut src = String::new();
        crate::text::push_char(&mut src, '{');
        src.append(info.value.as_str());
        crate::text::push_char(&mut src, '}');
        assert(src@ =~= braced(info.value@));
        match parse_block(src.as_str()) {
            Ok(code) => {
                out.push(
                    EventListener {
                        id: info.id,
                        handler: info.attribute,
                        code,
                        element: info.element,
                    },
                );
            },
            Err(_) => {
                assert(!parses_as_block(braced(iv[i as int].value)));
                return None;
            },
        }
        i += 1;
    }
    Some(out)
}

/// Finds the `?attr="condition"` attributes, takes them off their elements,
/// makes each such element findable by `id`, and parses the conditions, in tree
/// order. `None` when a condition is not a Rust expression.
pub fn find_conditional_attributes_and_set_id(node: &mut HtmlNode) -> (r: Option<
    Vec<ConditionalAttribute>,
>)
    ensures
        exists|ids: Seq<Seq<char>>, infos: Seq<InfoView>|
            {
                &&& #[trigger] marked_by_id(
                    old(node)@,
                    final(node)@,
                    conditional_prefix(),
                    ids,
                    infos,
                )
                &&& (r is Some <==> conditions_parse(infos))
                &&& (r matches Some(v) ==> conditionals_match(v@, infos))
            },
{
    let ghost before = node@;
    let prefix = String::from_str("?");
    proof {
        reveal_strlit("?");
    }
    assert(prefix@ =~= conditional_prefix());
    let infos = modify_html_by_id(node, prefix.as_str());
    let ghost ids = choose|ids: Seq<Seq<char>>|
        {
            &&& ids.len() == marked_count(before, prefix@)
            &&& forall|k: int| 0 <= k < ids.len() ==> is_fluent_id(#[trigger] ids[k])
            &&& (node@, infos_view(infos@)) == mark_node(before, prefix@, ids, true)
        };
    let ghost iv = infos_view(infos@);
    assert(marked_by_id(before, node@, conditional_prefix(), ids, iv));
    conditions_from(infos)
}

/// Finds the `:event="code"` attributes, takes them off their elements, makes
/// each such element findable by `id`, and parses the code in braces as a
/// block, in tree order. `None` when some code is not a Rust block.
pub fn find_event_listeners_and_set_id(node: &mut HtmlNode) -> (r: Option<Vec<EventListener>>)
    ensures
        exists|ids: Seq<Seq<char>>, infos: Seq<InfoView>|
            {
                &&& #[trigger] marked_by_id(old(node)@, final(node)@, listener_prefix(), ids, infos)
                &&& (r is Some <==> listener_code_parses(infos))
                &&& (r matches Some(v) ==> listeners_match(v@, infos))
            },
{
    let ghost before = node@;
    let prefix = String::from_str(":");
    proof {
        reveal_strlit(":");
    }
    assert(prefix@ =~= listener_prefix());
    let infos = modify_html_by_id(node, prefix.as_str());
    let ghost ids = choose|ids: Seq<Seq<char>>|
        {
            &&& ids.len() == marked_count(before, prefix@)
            &&& forall|k: int| 0 <= k < ids.len() ==> is_fluent_id(#[trigger] ids[k])
            &&& (node@, infos_view(infos@)) == mark_node(before, prefix@, ids, true)
        };
    let ghost iv = infos_view(infos@);
    assert(marked_by_id(before, node@, listener_prefix(), ids, iv));
    listeners_from(infos)
}

} // verus!

//! What generated components use at run time: the CSS selectors that find
//! their elements, the state machine behind `if` blocks, fresh ids, and the
//! traits that component data and events implement.
//!
//! Selectors are scoped to a component: `#root #el:not(#root .__Fluent_Component *)`
//! matches `#el` inside the component mounted at `#root` but not inside any
//! sub component mounted within it.

use vstd::prelude::*;
use vstd::string::*;
use crate::ids::{fluent_id_prefix, is_v4_uuid, runtime_id_from, new_uuid_v4_text};

verus! {

// ---------------------------------------------------------------------------
// Selectors
// ---------------------------------------------------------------------------

/// `:not(#root .__Fluent_Component *)`: leaves out what sub components hold.
pub open spec fn outside_sub_components(root: Seq<char>) -> Seq<char> {
    ":not(#"@ + root + " .__Fluent_Component *)"@
}

/// `#id`.
pub open spec fn id_selector_text(id: Seq<char>) -> Seq<char> {
    "#"@ + id
}

/// `#root #element:not(#root .__Fluent_Component *)`.
pub open spec fn element_selector_text(root: Seq<char>, element: Seq<char>) -> Seq<char> {
    "#"@ + root + " #"@ + element + outside_sub_components(root)
}

/// `#root scope selector:not(#root .__Fluent_Component *)`.
pub open spec fn elements_selector_text(
    root: Seq<char>,
    scope: Seq<char>,
    selector: Seq<char>,
) -> Seq<char> {
    "#"@ + root + " "@ + scope + " "@ + selector + outside_sub_components(root)
}

/// The scope part of a selector for the class of an `if` block: `.class`, or
/// nothing for the whole component.
pub open spec fn class_scope(scope: Option<Seq<char>>) -> Seq<char> {
    match scope {
        None => Seq::empty(),
        Some(s) => "."@ + s,
    }
}

/// The scope part of a selector given as selector text, or nothing.
pub open spec fn raw_scope(scope: Option<Seq<char>>) -> Seq<char> {
    match scope {
        None => Seq::empty(),
        Some(s) => s,
    }
}

/// Appends a literal.
fn push_lit(s: &mut String, lit: &str)
    ensures
        final(s)@ == old(s)@ + lit@,
{
    s.append(lit);
}

/// Appends `:not(#root .__Fluent_Component *)`.
fn push_outside_sub_components(s: &mut String, root: &str)
    ensures
        final(s)@ == old(s)@ + outside_sub_components(root@),
{
    let ghost start = s@;
    push_lit(s, ":not(#");
    s.append(root);
    push_lit(s, " .__Fluent_Component *)");
    assert(s@ =~= start + outside_sub_components(root@));
}

/// The selector of the element with id `id`: `#id`.
pub fn id_selector(id: &str) -> (r: String)
    ensures
        r@ == id_selector_text(id@),
{
    let mut r = String::new();
    push_lit(&mut r, "#");
    r.append(id);
    assert(r@ =~= id_selector_text(id@));
    r
}

/// The selector of the element with id `element_id` inside the component
/// mounted at `component_id`, outside its sub components.
pub fn element_selector(component_id: &str, element_id: &str) -> (r: String)
    ensures
        r@ == element_selector_text(component_id@, element_id@),
{
    let mut r = String::new();
    push_lit(&mut r, "#");
    r.append(component_id);
    push_lit(&mut r, " #");
    r.append(element_id);
    push_outside_sub_components(&mut r, component_id);
    assert(r@ =~= element_selector_text(component_id@, element_id@));
    r
}

/// Builds `#root scope selector:not(#root .__Fluent_Component *)`.
fn scoped_selector(component_id: &str, scope: &str, selector: &str) -> (r: String)
    ensures
        r@ == elements_selector_text(component_id@, scope@, selector@),
{
    let mut r = String::new();
    push_lit(&mut r, "#");
    r.append(component_id);
    push_lit(&mut r, " ");
    r.append(scope);
    push_lit(&mut r, " ");
    r.append(selector);
    push_outside_sub_components(&mut r, component_id);
    assert(r@ =~= elements_selector_text(component_id@, scope@, selector@));
    r
}

/// The selector of the elements matching `selector` inside the component
/// mounted at `component_id`, outside its sub components; with a scope, only
/// those inside the elements of class `scope` (an `if` block that was shown).
pub fn elements_selector(component_id: &str, selector: &str, scope: Option<&str>) -> (r: String)
    ensures
        r@ == elements_selector_text(
            component_id@,
            class_scope(
                match scope {
                    None => None,
                    Some(s) => Some(s@),
                },
            ),
            selector@,
        ),
{
    match scope {
        None => {
            proof {
                reveal_strlit("");
            }
            assert(""@ =~= Seq::<char>::empty());
            scoped_selector(component_id, "", selector)
        },
        Some(s) => {
            let mut class = String::new();
            push_lit(&mut class, ".");
            class.append(s);
            assert(class@ =~= "."@ + s@);
            scoped_selector(component_id, class.as_str(), selector)
        },
    }
}

/// Like [`elements_selector`], with the scope given as selector text.
pub fn elements_selector_raw(component_id: &str, selector: &str, scope: Option<String>) -> (r:
    String)
    ensures
        r@ == elements_selector_text(
            component_id@,
            raw_scope(
                match scope {
                    None => None,
                    Some(s) => Some(s@),
                },
            ),
            selector@,
        ),
{
    match scope {
        None => {
            proof {
                reveal_strlit("");
            }
            assert(""@ =~= Seq::<char>::empty());
            scoped_selector(component_id, "", selector)
        },
        Some(s) => scoped_selector(component_id, s.as_str(), selector),
    }
}

// ---------------------------------------------------------------------------
// `if` blocks
// ---------------------------------------------------------------------------

/// `true`, the state of a shown block.
pub open spec fn shown_state() -> Seq<char> {
    seq!['t', 'r', 'u', 'e']
}

/// `false`, the state of a hidden block.
pub open spec fn hidden_state() -> Seq<char> {
    seq!['f', 'a', 'l', 's', 'e']
}

/// The state of an `if` element: its `__Fluent_If` attribute, `false` when it
/// has none.
pub open spec fn if_state(attribute: Option<Seq<char>>) -> Seq<char> {
    match attribute {
        None => hidden_state(),
        Some(s) => s,
    }
}

/// What to do with one element of an `if` block.
#[derive(Debug, PartialEq, Eq, Structural)]
pub enum IfChange {
    /// Replace the placeholder by the block's content, marked `true`, then run
    /// the component's updates and one time setup inside it.
    Show,
    /// Replace the content by an empty placeholder `div` of the block's class,
    /// marked `false`.
    Hide,
    /// Leave the element as it is.
    Keep,
}

/// The change for a condition and an element's state: show a hidden block when
/// the condition holds, hide a shown one when it does not, keep it otherwise.
pub open spec fn if_change_spec(condition: bool, state: Seq<char>) -> IfChange {
    if condition && state == hidden_state() {
        IfChange::Show
    } else if !condition && state == shown_state() {
        IfChange::Hide
    } else {
        IfChange::Keep
    }
}

/// The element's `__Fluent_If` attribute after a change.
pub open spec fn attribute_after(change: IfChange, attribute: Option<Seq<char>>) -> Option<
    Seq<char>,
> {
    match change {
        IfChange::Show => Some(shown_state()),
        IfChange::Hide => Some(hidden_state()),
        IfChange::Keep => attribute,
    }
}

/// An attribute that the runtime writes: absent, `true` or `false`.
pub open spec fn is_known_state(attribute: Option<Seq<char>>) -> bool {
    match attribute {
        None => true,
        Some(s) => s == shown_state() || s == hidden_state(),
    }
}

/// Compares with `true` and `false`.
fn state_is(s: &str, shown: bool) -> (r: bool)
    ensures
        r == (s@ == if shown {
            shown_state()
        } else {
            hidden_state()
        }),
{
    let chars = crate::text::chars_of(s);
    let n = chars.len();
    if shown {
        let r = n == 4 && chars[0] == 't' && chars[1] == 'r' && chars[2] == 'u' && chars[3]
            == 'e';
        if r {
            assert(s@ =~= shown_state());
        }
        r
    } else {
        let r = n == 5 && chars[0] == 'f' && chars[1] == 'a' && chars[2] == 'l' && chars[3]
            == 's' && chars[4] == 'e';
        if r {
            assert(s@ =~= hidden_state());
        }
        r
    }
}

/// Decides what happens to one element of an `if` block, given the block's
/// condition and the element's `__Fluent_If` attribute.
pub fn if_change(condition: bool, attribute: Option<&str>) -> (r: IfChange)
    ensures
        r == if_change_spec(
            condition,
            if_state(
                match attribute {
                    None => None,
                    Some(s) => Some(s@),
                },
            ),
        ),
{
    match attribute {
        None => {
            if condition {
                IfChange::Show
            } else {
                IfChange::Keep
            }
        },
        Some(s) => {
            if condition && state_is(s, false) {
                IfChange::Show
            } else if !condition && state_is(s, true) {
                IfChange::Hide
            } else {
                IfChange::Keep
            }
        },
    }
}

/// Deciding again right after a change, on the same condition, changes nothing.
pub proof fn lemma_if_change_settles(condition: bool, attribute: Option<Seq<char>>)
    ensures
        if_change_spec(
            condition,
            if_state(attribute_after(if_change_spec(condition, if_state(attribute)), attribute)),
        ) == IfChange::Keep,
{
    assert(shown_state() != hidden_state());
}

/// From a state the runtime wrote, an element ends up shown exactly when the
/// condition holds.
pub proof fn lemma_if_state_follows_condition(condition: bool, attribute: Option<Seq<char>>)
    requires
        is_known_state(attribute),
    ensures
        if_state(attribute_after(if_change_spec(condition, if_state(attribute)), attribute)) == (
        if condition {
            shown_state()
        } else {
            hidden_state()
        }),
{
    assert(shown_state() != hidden_state());
}

// ---------------------------------------------------------------------------
// Ids
// ---------------------------------------------------------------------------

/// A fresh id for an element created at run time, such as
/// `__Fluent_UUID_67e55044-10b1-426f-9247-bb680e5fe0c8`: the prefix, then the
/// hyphenated text of a random version 4 UUID.
pub fn uuid() -> (id: String)
    ensures
        exists|raw: Seq<char>| is_v4_uuid(raw) && id@ == fluent_id_prefix() + raw,
{
    let raw = new_uuid_v4_text();
    runtime_id_from(raw.as_str())
}

// ---------------------------------------------------------------------------
// Traits for component code
// ---------------------------------------------------------------------------

/// How a value is shown in the page.
pub trait DomDisplay {
    /// The text that stands for the value.
    fn dom_display(&self) -> String;
}

/// `format!("{value}")`: the value's text from its `Display` impl; what that
/// text is, the impl decides, and nothing is claimed of it.
#[verifier::external_body]
fn display_text<T: std::fmt::Display>(value: &T) -> String {
    format!("{value}")
}

/// Shows a value through its `Display` impl.
impl<T: std::fmt::Debug + std::fmt::Display> DomDisplay for T {
    fn dom_display(&self) -> String {
        display_text(self)
    }
}

/// The text that stands for a value in the page: what the value's
/// [`DomDisplay::dom_display`] gives for it.
pub fn display<T: DomDisplay>(value: &T) -> (r: String)
    ensures
        call_ensures(T::dom_display, (value,), r),
{
    value.dom_display()
}

/// The type of an event, seen from a component that listens for it.
pub trait EventWrapper {
    /// The event's own type.
    type Real;
}

} // verus!

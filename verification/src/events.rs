//! Event listeners in templates.
//!
//! `:click="|event, element| ..."` on an element listens for a DOM event with a
//! closure that gets the event and the element, typed as the element's
//! `web_sys` type (`HtmlButtonElement` for `<button>`). `;name="..."` on a
//! sub component listens for one of its custom events.

use vstd::prelude::*;
use vstd::string::*;
use crate::error::Compiler;
use crate::text::{chars_of, push_char, same_text};

verus! {

// ---------------------------------------------------------------------------
// Element types
// ---------------------------------------------------------------------------

/// ASCII upper case of one character; others are unchanged.
pub open spec fn ascii_upper(c: char) -> char {
    if 'a' <= c && c <= 'z' {
        ((c as u32) - 32) as char
    } else {
        c
    }
}

/// The name with its first character in ASCII upper case.
pub open spec fn capitalized(name: Seq<char>) -> Seq<char>
    recommends
        name.len() > 0,
{
    seq![ascii_upper(name[0])] + name.drop_first()
}

/// `A`, what `a` becomes.
pub open spec fn capital_a() -> Seq<char> {
    seq!['A']
}

/// `Anchor`: `<a>` is an `HtmlAnchorElement`.
pub open spec fn anchor() -> Seq<char> {
    seq!['A', 'n', 'c', 'h', 'o', 'r']
}

/// `Html{Name}Element` for a capitalised element name.
pub open spec fn html_element_type_text(cap: Seq<char>) -> Seq<char> {
    seq!['H', 't', 'm', 'l'] + cap + seq!['E', 'l', 'e', 'm', 'e', 'n', 't']
}

/// The `web_sys` type of an element, `Html{Name}Element`, with `<a>` as
/// `HtmlAnchorElement`.
pub open spec fn element_type_text(element: Seq<char>) -> Seq<char>
    recommends
        element.len() > 0,
{
    let cap = capitalized(element);
    html_element_type_text(if cap == capital_a() { anchor() } else { cap })
}

/// ASCII upper case of one character.
fn to_ascii_upper(c: char) -> (r: char)
    ensures
        r == ascii_upper(c),
{
    if 'a' <= c && c <= 'z' {
        let code: u32 = c as u32;
        let up: u8 = (code - 32) as u8;
        let r = up as char;
        assert(r == ((c as u32) - 32) as char);
        r
    } else {
        c
    }
}

/// Appends the characters of a literal given as a slice.
fn push_all(s: &mut String, cs: &[char])
    ensures
        final(s)@ == old(s)@ + cs@,
{
    crate::text::push_chars(s, cs);
}

/// `Html{cap}Element`.
fn html_element_type_of(cap: &[char]) -> (r: String)
    ensures
        r@ == html_element_type_text(cap@),
{
    let mut r = String::new();
    let html: [char; 4] = ['H', 't', 'm', 'l'];
    let element: [char; 7] = ['E', 'l', 'e', 'm', 'e', 'n', 't'];
    push_all(&mut r, &html);
    push_all(&mut r, cap);
    push_all(&mut r, &element);
    assert(html@ =~= seq!['H', 't', 'm', 'l']);
    assert(element@ =~= seq!['E', 'l', 'e', 'm', 'e', 'n', 't']);
    assert(r@ =~= html_element_type_text(cap@));
    r
}

/// The name with its first character in ASCII upper case.
fn capitalize(name: &Vec<char>) -> (r: Vec<char>)
    requires
        name@.len() > 0,
    ensures
        r@ == capitalized(name@),
{
    let mut r: Vec<char> = Vec::new();
    r.push(to_ascii_upper(name[0]));
    let mut i: usize = 1;
    while i < name.len()
        invariant
            1 <= i <= name@.len(),
            r@ == seq![ascii_upper(name@[0])] + name@.subrange(1, i as int),
        decreases name.len() - i,
    {
        r.push(name[i]);
        assert(r@ =~= seq![ascii_upper(name@[0])] + name@.subrange(1, i + 1));
        i += 1;
    }
    assert(name@.subrange(1, name@.len() as int) =~= name@.drop_first());
    r
}

/// The `web_sys` type that a native listener's element is cast to, such as
/// `HtmlButtonElement` for `button` and `HtmlAnchorElement` for `a`. An empty
/// element name is [`Compiler::WrongSyntax`].
pub fn element_type_name(element: &str) -> (r: Result<String, Compiler>)
    ensures
        element@.len() == 0 <==> r is Err,
        r matches Err(e) ==> e matches Compiler::WrongSyntax(m) && m@
            == "Event handler cant be empty name"@,
        r matches Ok(name) ==> name@ == element_type_text(element@),
{
    let chars = chars_of(element);
    if chars.len() == 0 {
        let m = "Event handler cant be empty name";
        return Err(Compiler::WrongSyntax(m));
    }
    let cap = capitalize(&chars);
    if cap.len() == 1 && cap[0] == 'A' {
        assert(cap@ =~= capital_a());
        let a: [char; 6] = ['A', 'n', 'c', 'h', 'o', 'r'];
        assert(a@ =~= anchor());
        Ok(html_element_type_of(&a))
    } else {
        assert(cap@ != capital_a());
        Ok(html_element_type_of(cap.as_slice()))
    }
}

/// The `web_sys` type of an element as listeners found by element id name it:
/// `Html{Name}Element` with no alias for `a`.
pub fn html_element_type(element: &str) -> (r: String)
    requires
        element@.len() > 0,
    ensures
        r@ == html_element_type_text(capitalized(element@)),
{
    let chars = chars_of(element);
    let cap = capitalize(&chars);
    html_element_type_of(cap.as_slice())
}

// ---------------------------------------------------------------------------
// Event types
// ---------------------------------------------------------------------------

/// The `web_sys` event type that a DOM event is read as.
#[derive(Debug, PartialEq, Eq, Structural)]
pub enum EventCategory {
    Keyboard,
    Mouse,
    Form,
    Window,
    DragDrop,
    Clipboard,
    Media,
    Other,
}

/// The category of each known DOM event; `None` for any other name.
pub open spec fn event_category_of(h: Seq<char>) -> Option<EventCategory> {
    if h == "keydown"@ || h == "keyup"@ || h == "keypress"@ {
        Some(EventCategory::Keyboard)
    } else if h == "click"@ || h == "dblclick"@ || h == "mousedown"@ || h == "mouseup"@ || h
        == "mousemove"@ || h == "mouseover"@ || h == "mouseout"@ || h == "mouseenter"@ || h
        == "mouseleave"@ || h == "contextmenu"@ || h == "wheel"@ {
        Some(EventCategory::Mouse)
    } else if h == "submit"@ || h == "change"@ || h == "focus"@ || h == "blur"@ || h == "input"@
        || h == "reset"@ || h == "select"@ {
        Some(EventCategory::Form)
    } else if h == "load"@ || h == "beforeunload"@ || h == "unload"@ || h == "resize"@ || h
        == "scroll"@ {
        Some(EventCategory::Window)
    } else if h == "drag"@ || h == "dragstart"@ || h == "dragend"@ || h == "dragenter"@ || h
        == "dragleave"@ || h == "dragover"@ || h == "drop"@ {
        Some(EventCategory::DragDrop)
    } else if h == "cut"@ || h == "copy"@ || h == "paste"@ {
        Some(EventCategory::Clipboard)
    } else if h == "play"@ || h == "pause"@ || h == "ended"@ || h == "timeupdate"@ || h
        == "canplay"@ || h == "canplaythrough"@ || h == "volumechange"@ || h == "seeked"@ || h
        == "seeking"@ || h == "durationchange"@ || h == "loadedmetadata"@ || h == "loadeddata"@
        || h == "progress"@ || h == "ratechange"@ || h == "stalled"@ || h == "suspend"@ || h
        == "waiting"@ {
        Some(EventCategory::Media)
    } else if h == "error"@ || h == "online"@ || h == "offline"@ || h == "message"@ || h
        == "popstate"@ || h == "storage"@ {
        Some(EventCategory::Other)
    } else {
        None
    }
}

/// The DOM events that listeners know, each with the category its event is
/// read as: `keydown`, `keyup` and `keypress` are keyboard events, `click` and
/// the other pointer events mouse events, and so on through form, window,
/// drag and drop, clipboard, media and other events.
#[verifier::rlimit(60)]
#[verifier::spinoff_prover]
pub proof fn lemma_event_category_table()
    ensures
        event_category_of(seq!['k', 'e', 'y', 'd', 'o', 'w', 'n']) == Some(EventCategory::Keyboard),
        event_category_of(seq!['k', 'e', 'y', 'u', 'p']) == Some(EventCategory::Keyboard),
        event_category_of(seq!['k', 'e', 'y', 'p', 'r', 'e', 's', 's']) == Some(EventCategory::Keyboard),
        event_category_of(seq!['c', 'l', 'i', 'c', 'k']) == Some(EventCategory::Mouse),
        event_category_of(seq!['d', 'b', 'l', 'c', 'l', 'i', 'c', 'k']) == Some(EventCategory::Mouse),
        event_category_of(seq!['m', 'o', 'u', 's', 'e', 'd', 'o', 'w', 'n']) == Some(EventCategory::Mouse),
        event_category_of(seq!['m', 'o', 'u', 's', 'e', 'u', 'p']) == Some(EventCategory::Mouse),
        event_category_of(seq!['m', 'o', 'u', 's', 'e', 'm', 'o', 'v', 'e']) == Some(EventCategory::Mouse),
        event_category_of(seq!['m', 'o', 'u', 's', 'e', 'o', 'v', 'e', 'r']) == Some(EventCategory::Mouse),
        event_category_of(seq!['m', 'o', 'u', 's', 'e', 'o', 'u', 't']) == Some(EventCategory::Mouse),
        event_category_of(seq!['m', 'o', 'u', 's', 'e', 'e', 'n', 't', 'e', 'r']) == Some(EventCategory::Mouse),
        event_category_of(seq!['m', 'o', 'u', 's', 'e', 'l', 'e', 'a', 'v', 'e']) == Some(EventCategory::Mouse),
        event_category_of(seq!['c', 'o', 'n', 't', 'e', 'x', 't', 'm', 'e', 'n', 'u']) == Some(EventCategory::Mouse),
        event_category_of(seq!['w', 'h', 'e', 'e', 'l']) == Some(EventCategory::Mouse),
        event_category_of(seq!['s', 'u', 'b', 'm', 'i', 't']) == Some(EventCategory::Form),
        event_category_of(seq!['c', 'h', 'a', 'n', 'g', 'e']) == Some(EventCategory::Form),
        event_category_of(seq!['f', 'o', 'c', 'u', 's']) == Some(EventCategory::Form),
        event_category_of(seq!['b', 'l', 'u', 'r']) == Some(EventCategory::Form),
        event_category_of(seq!['i', 'n', 'p', 'u', 't']) == Some(EventCategory::Form),
        event_category_of(seq!['r', 'e', 's', 'e', 't']) == Some(EventCategory::Form),
        event_category_of(seq!['s', 'e', 'l', 'e', 'c', 't']) == Some(EventCategory::Form),
        event_category_of(seq!['l', 'o', 'a', 'd']) == Some(EventCategory::Window),
        event_category_of(seq!['b', 'e', 'f', 'o', 'r', 'e', 'u', 'n', 'l', 'o', 'a', 'd']) == Some(EventCategory::Window),
        event_category_of(seq!['u', 'n', 'l', 'o', 'a', 'd']) == Some(EventCategory::Window),
        event_category_of(seq!['r', 'e', 's', 'i', 'z', 'e']) == Some(EventCategory::Window),
        event_category_of(seq!['s', 'c', 'r', 'o', 'l', 'l']) == Some(EventCategory::Window),
        event_category_of(seq!['d', 'r', 'a', 'g']) == Some(EventCategory::DragDrop),
        event_category_of(seq!['d', 'r', 'a', 'g', 's', 't', 'a', 'r', 't']) == Some(EventCategory::DragDrop),
        event_category_of(seq!['d', 'r', 'a', 'g', 'e', 'n', 'd']) == Some(EventCategory::DragDrop),
        event_category_of(seq!['d', 'r', 'a', 'g', 'e', 'n', 't', 'e', 'r']) == Some(EventCategory::DragDrop),
        event_category_of(seq!['d', 'r', 'a', 'g', 'l', 'e', 'a', 'v', 'e']) == Some(EventCategory::DragDrop),
        event_category_of(seq!['d', 'r', 'a', 'g', 'o', 'v', 'e', 'r']) == Some(EventCategory::DragDrop),
        event_category_of(seq!['d', 'r', 'o', 'p']) == Some(EventCategory::DragDrop),
        event_category_of(seq!['c', 'u', 't']) == Some(EventCategory::Clipboard),
        event_category_of(seq!['c', 'o', 'p', 'y']) == Some(EventCategory::Clipboard),
        event_category_of(seq!['p', 'a', 's', 't', 'e']) == Some(EventCategory::Clipboard),
        event_category_of(seq!['p', 'l', 'a', 'y']) == Some(EventCategory::Media),
        event_category_of(seq!['p', 'a', 'u', 's', 'e']) == Some(EventCategory::Media),
        event_category_of(seq!['e', 'n', 'd', 'e', 'd']) == Some(EventCategory::Media),
        event_category_of(seq!['t', 'i', 'm', 'e', 'u', 'p', 'd', 'a', 't', 'e']) == Some(EventCategory::Media),
        event_category_of(seq!['c', 'a', 'n', 'p', 'l', 'a', 'y']) == Some(EventCategory::Media),
        event_category_of(seq!['c', 'a', 'n', 'p', 'l', 'a', 'y', 't', 'h', 'r', 'o', 'u', 'g', 'h']) == Some(EventCategory::Media),
        event_category_of(seq!['v', 'o', 'l', 'u', 'm', 'e', 'c', 'h', 'a', 'n', 'g', 'e']) == Some(EventCategory::Media),
        event_category_of(seq!['s', 'e', 'e', 'k', 'e', 'd']) == Some(EventCategory::Media),
        event_category_of(seq!['s', 'e', 'e', 'k', 'i', 'n', 'g']) == Some(EventCategory::Media),
        event_category_of(seq!['d', 'u', 'r', 'a', 't', 'i', 'o', 'n', 'c', 'h', 'a', 'n', 'g', 'e']) == Some(EventCategory::Media),
        event_category_of(seq!['l', 'o', 'a', 'd', 'e', 'd', 'm', 'e', 't', 'a', 'd', 'a', 't', 'a']) == Some(EventCategory::Media),
        event_category_of(seq!['l', 'o', 'a', 'd', 'e', 'd', 'd', 'a', 't', 'a']) == Some(EventCategory::Media),
        event_category_of(seq!['p', 'r', 'o', 'g', 'r', 'e', 's', 's']) == Some(EventCategory::Media),
        event_category_of(seq!['r', 'a', 't', 'e', 'c', 'h', 'a', 'n', 'g', 'e']) == Some(EventCategory::Media),
        event_category_of(seq!['s', 't', 'a', 'l', 'l', 'e', 'd']) == Some(EventCategory::Media),
        event_category_of(seq!['s', 'u', 's', 'p', 'e', 'n', 'd']) == Some(EventCategory::Media),
        event_category_of(seq!['w', 'a', 'i', 't', 'i', 'n', 'g']) == Some(EventCategory::Media),
        event_category_of(seq!['e', 'r', 'r', 'o', 'r']) == Some(EventCategory::Other),
        event_category_of(seq!['o', 'n', 'l', 'i', 'n', 'e']) == Some(EventCategory::Other),
        event_category_of(seq!['o', 'f', 'f', 'l', 'i', 'n', 'e']) == Some(EventCategory::Other),
        event_category_of(seq!['m', 'e', 's', 's', 'a', 'g', 'e']) == Some(EventCategory::Other),
        event_category_of(seq!['p', 'o', 'p', 's', 't', 'a', 't', 'e']) == Some(EventCategory::Other),
        event_category_of(seq!['s', 't', 'o', 'r', 'a', 'g', 'e']) == Some(EventCategory::Other),
{
    reveal_strlit("keydown");
    reveal_strlit("keyup");
    reveal_strlit("keypress");
    reveal_strlit("click");
    reveal_strlit("dblclick");
    reveal_strlit("mousedown");
    reveal_strlit("mouseup");
    reveal_strlit("mousemove");
    reveal_strlit("mouseover");
    reveal_strlit("mouseout");
    reveal_strlit("mouseenter");
    reveal_strlit("mouseleave");
    reveal_strlit("contextmenu");
    reveal_strlit("wheel");
    reveal_strlit("submit");
    reveal_strlit("change");
    reveal_strlit("focus");
    reveal_strlit("blur");
    reveal_strlit("input");
    reveal_strlit("reset");
    reveal_strlit("select");
    reveal_strlit("load");
    reveal_strlit("beforeunload");
    reveal_strlit("unload");
    reveal_strlit("resize");
    reveal_strlit("scroll");
    reveal_strlit("drag");
    reveal_strlit("dragstart");
    reveal_strlit("dragend");
    reveal_strlit("dragenter");
    reveal_strlit("dragleave");
    reveal_strlit("dragover");
    reveal_strlit("drop");
    reveal_strlit("cut");
    reveal_strlit("copy");
    reveal_strlit("paste");
    reveal_strlit("play");
    reveal_strlit("pause");
    reveal_strlit("ended");
    reveal_strlit("timeupdate");
    reveal_strlit("canplay");
    reveal_strlit("canplaythrough");
    reveal_strlit("volumechange");
    reveal_strlit("seeked");
    reveal_strlit("seeking");
    reveal_strlit("durationchange");
    reveal_strlit("loadedmetadata");
    reveal_strlit("loadeddata");
    reveal_strlit("progress");
    reveal_strlit("ratechange");
    reveal_strlit("stalled");
    reveal_strlit("suspend");
    reveal_strlit("waiting");
    reveal_strlit("error");
    reveal_strlit("online");
    reveal_strlit("offline");
    reveal_strlit("message");
    reveal_strlit("popstate");
    reveal_strlit("storage");
    assert(seq!['k', 'e', 'y', 'd', 'o', 'w', 'n'] =~= "keydown"@);
    assert(seq!['k', 'e', 'y', 'u', 'p'] =~= "keyup"@);
    assert(seq!['k', 'e', 'y', 'p', 'r', 'e', 's', 's'] =~= "keypress"@);
    assert(seq!['c', 'l', 'i', 'c', 'k'] =~= "click"@);
    assert(seq!['d', 'b', 'l', 'c', 'l', 'i', 'c', 'k'] =~= "dblclick"@);
    assert(seq!['m', 'o', 'u', 's', 'e', 'd', 'o', 'w', 'n'] =~= "mousedown"@);
    assert(seq!['m', 'o', 'u', 's', 'e', 'u', 'p'] =~= "mouseup"@);
    assert(seq!['m', 'o', 'u', 's', 'e', 'm', 'o', 'v', 'e'] =~= "mousemove"@);
    assert(seq!['m', 'o', 'u', 's', 'e', 'o', 'v', 'e', 'r'] =~= "mouseover"@);
    assert(seq!['m', 'o', 'u', 's', 'e', 'o', 'u', 't'] =~= "mouseout"@);
    assert(seq!['m', 'o', 'u', 's', 'e', 'e', 'n', 't', 'e', 'r'] =~= "mouseenter"@);
    assert(seq!['m', 'o', 'u', 's', 'e', 'l', 'e', 'a', 'v', 'e'] =~= "mouseleave"@);
    assert(seq!['c', 'o', 'n', 't', 'e', 'x', 't', 'm', 'e', 'n', 'u'] =~= "contextmenu"@);
    assert(seq!['w', 'h', 'e', 'e', 'l'] =~= "wheel"@);
    assert(seq!['s', 'u', 'b', 'm', 'i', 't'] =~= "submit"@);
    assert(seq!['c', 'h', 'a', 'n', 'g', 'e'] =~= "change"@);
    assert(seq!['f', 'o', 'c', 'u', 's'] =~= "focus"@);
    assert(seq!['b', 'l', 'u', 'r'] =~= "blur"@);
    assert(seq!['i', 'n', 'p', 'u', 't'] =~= "input"@);
    assert(seq!['r', 'e', 's', 'e', 't'] =~= "reset"@);
    assert(seq!['s', 'e', 'l', 'e', 'c', 't'] =~= "select"@);
    assert(seq!['l', 'o', 'a', 'd'] =~= "load"@);
    assert(seq!['b', 'e', 'f', 'o', 'r', 'e', 'u', 'n', 'l', 'o', 'a', 'd'] =~= "beforeunload"@);
    assert(seq!['u', 'n', 'l', 'o', 'a', 'd'] =~= "unload"@);
    assert(seq!['r', 'e', 's', 'i', 'z', 'e'] =~= "resize"@);
    assert(seq!['s', 'c', 'r', 'o', 'l', 'l'] =~= "scroll"@);
    assert(seq!['d', 'r', 'a', 'g'] =~= "drag"@);
    assert(seq!['d', 'r', 'a', 'g', 's', 't', 'a', 'r', 't'] =~= "dragstart"@);
    assert(seq!['d', 'r', 'a', 'g', 'e', 'n', 'd'] =~= "dragend"@);
    assert(seq!['d', 'r', 'a', 'g', 'e', 'n', 't', 'e', 'r'] =~= "dragenter"@);
    assert(seq!['d', 'r', 'a', 'g', 'l', 'e', 'a', 'v', 'e'] =~= "dragleave"@);
    assert(seq!['d', 'r', 'a', 'g', 'o', 'v', 'e', 'r'] =~= "dragover"@);
    assert(seq!['d', 'r', 'o', 'p'] =~= "drop"@);
    assert(seq!['c', 'u', 't'] =~= "cut"@);
    assert(seq!['c', 'o', 'p', 'y'] =~= "copy"@);
    assert(seq!['p', 'a', 's', 't', 'e'] =~= "paste"@);
    assert(seq!['p', 'l', 'a', 'y'] =~= "play"@);
    assert(seq!['p', 'a', 'u', 's', 'e'] =~= "pause"@);
    assert(seq!['e', 'n', 'd', 'e', 'd'] =~= "ended"@);
    assert(seq!['t', 'i', 'm', 'e', 'u', 'p', 'd', 'a', 't', 'e'] =~= "timeupdate"@);
    assert(seq!['c', 'a', 'n', 'p', 'l', 'a', 'y'] =~= "canplay"@);
    assert(seq!['c', 'a', 'n', 'p', 'l', 'a', 'y', 't', 'h', 'r', 'o', 'u', 'g', 'h'] =~= "canplaythrough"@);
    assert(seq!['v', 'o', 'l', 'u', 'm', 'e', 'c', 'h', 'a', 'n', 'g', 'e'] =~= "volumechange"@);
    assert(seq!['s', 'e', 'e', 'k', 'e', 'd'] =~= "seeked"@);
    assert(seq!['s', 'e', 'e', 'k', 'i', 'n', 'g'] =~= "seeking"@);
    assert(seq!['d', 'u', 'r', 'a', 't', 'i', 'o', 'n', 'c', 'h', 'a', 'n', 'g', 'e'] =~= "durationchange"@);
    assert(seq!['l', 'o', 'a', 'd', 'e', 'd', 'm', 'e', 't', 'a', 'd', 'a', 't', 'a'] =~= "loadedmetadata"@);
    assert(seq!['l', 'o', 'a', 'd', 'e', 'd', 'd', 'a', 't', 'a'] =~= "loadeddata"@);
    assert(seq!['p', 'r', 'o', 'g', 'r', 'e', 's', 's'] =~= "progress"@);
    assert(seq!['r', 'a', 't', 'e', 'c', 'h', 'a', 'n', 'g', 'e'] =~= "ratechange"@);
    assert(seq!['s', 't', 'a', 'l', 'l', 'e', 'd'] =~= "stalled"@);
    assert(seq!['s', 'u', 's', 'p', 'e', 'n', 'd'] =~= "suspend"@);
    assert(seq!['w', 'a', 'i', 't', 'i', 'n', 'g'] =~= "waiting"@);
    assert(seq!['e', 'r', 'r', 'o', 'r'] =~= "error"@);
    assert(seq!['o', 'n', 'l', 'i', 'n', 'e'] =~= "online"@);
    assert(seq!['o', 'f', 'f', 'l', 'i', 'n', 'e'] =~= "offline"@);
    assert(seq!['m', 'e', 's', 's', 'a', 'g', 'e'] =~= "message"@);
    assert(seq!['p', 'o', 'p', 's', 't', 'a', 't', 'e'] =~= "popstate"@);
    assert(seq!['s', 't', 'o', 'r', 'a', 'g', 'e'] =~= "storage"@);
}

/// Whether the DOM event name is one that listeners know how to type.
pub fn is_known_event(handler: &str) -> (r: bool)
    ensures
        r == (event_category_of(handler@) is Some),
{
    event_category_lookup(handler).is_some()
}

/// Looks the category up; `None` for an unknown event.
fn event_category_lookup(h: &str) -> (r: Option<EventCategory>)
    ensures
        r == event_category_of(h@),
{
    if same_text(h, "keydown") || same_text(h, "keyup") || same_text(h, "keypress") {
        Some(EventCategory::Keyboard)
    } else if same_text(h, "click") || same_text(h, "dblclick") || same_text(h, "mousedown")
        || same_text(h, "mouseup") || same_text(h, "mousemove") || same_text(h, "mouseover")
        || same_text(h, "mouseout") || same_text(h, "mouseenter") || same_text(h, "mouseleave")
        || same_text(h, "contextmenu") || same_text(h, "wheel") {
        Some(EventCategory::Mouse)
    } else if same_text(h, "submit") || same_text(h, "change") || same_text(h, "focus")
        || same_text(h, "blur") || same_text(h, "input") || same_text(h, "reset") || same_text(
        h,
        "select",
    ) {
        Some(EventCategory::Form)
    } else if same_text(h, "load") || same_text(h, "beforeunload") || same_text(h, "unload")
        || same_text(h, "resize") || same_text(h, "scroll") {
        Some(EventCategory::Window)
    } else if same_text(h, "drag") || same_text(h, "dragstart") || same_text(h, "dragend")
        || same_text(h, "dragenter") || same_text(h, "dragleave") || same_text(h, "dragover")
        || same_text(h, "drop") {
        Some(EventCategory::DragDrop)
    } else if same_text(h, "cut") || same_text(h, "copy") || same_text(h, "paste") {
        Some(EventCategory::Clipboard)
    } else if same_text(h, "play") || same_text(h, "pause") || same_text(h, "ended")
        || same_text(h, "timeupdate") || same_text(h, "canplay") || same_text(
        h,
        "canplaythrough",
    ) || same_text(h, "volumechange") || same_text(h, "seeked") || same_text(h, "seeking")
        || same_text(h, "durationchange") || same_text(h, "loadedmetadata") || same_text(
        h,
        "loadeddata",
    ) || same_text(h, "progress") || same_text(h, "ratechange") || same_text(h, "stalled")
        || same_text(h, "suspend") || same_text(h, "waiting") {
        Some(EventCategory::Media)
    } else if same_text(h, "error") || same_text(h, "online") || same_text(h, "offline")
        || same_text(h, "message") || same_text(h, "popstate") || same_text(h, "storage") {
        Some(EventCategory::Other)
    } else {
        None
    }
}

/// The category of a known DOM event, such as [`EventCategory::Mouse`] for
/// `click`.
pub fn event_category(handler: &str) -> (r: EventCategory)
    requires
        event_category_of(handler@) is Some,
    ensures
        Some(r) == event_category_of(handler@),
{
    match event_category_lookup(handler) {
        Some(c) => c,
        None => {
            assert(false);
            EventCategory::Other
        },
    }
}

/// The name of a category's `web_sys` type, such as `MouseEvent`.
pub open spec fn event_type_text(c: EventCategory) -> Seq<char> {
    match c {
        EventCategory::Keyboard => "KeyboardEvent"@,
        EventCategory::Mouse => "MouseEvent"@,
        EventCategory::Form => "FormEvent"@,
        EventCategory::Window => "WindowEvent"@,
        EventCategory::DragDrop => "DragDropEvent"@,
        EventCategory::Clipboard => "ClipboardEvent"@,
        EventCategory::Media => "MediaEvent"@,
        EventCategory::Other => "OtherEvent"@,
    }
}

/// The name of a category's `web_sys` type, such as `MouseEvent`.
pub fn event_type_name(c: &EventCategory) -> (r: String)
    ensures
        r@ == event_type_text(*c),
{
    match c {
        EventCategory::Keyboard => String::from_str("KeyboardEvent"),
        EventCategory::Mouse => String::from_str("MouseEvent"),
        EventCategory::Form => String::from_str("FormEvent"),
        EventCategory::Window => String::from_str("WindowEvent"),
        EventCategory::DragDrop => String::from_str("DragDropEvent"),
        EventCategory::Clipboard => String::from_str("ClipboardEvent"),
        EventCategory::Media => String::from_str("MediaEvent"),
        EventCategory::Other => String::from_str("OtherEvent"),
    }
}

// ---------------------------------------------------------------------------
// Putting listeners together
// ---------------------------------------------------------------------------

/// `.id`: the selector of the elements tagged with a class.
pub open spec fn class_selector_text(id: Seq<char>) -> Seq<char> {
    seq!['.'] + id
}

/// `.id`: the selector of the elements tagged with a class.
pub fn class_selector(id: &str) -> (r: String)
    ensures
        r@ == class_selector_text(id@),
{
    let mut r = String::new();
    push_char(&mut r, '.');
    r.append(id);
    assert(r@ =~= class_selector_text(id@));
    r
}

/// Every listener compiled.
pub open spec fn all_ok<T>(results: Seq<Result<T, Compiler>>) -> bool {
    forall|i: int| 0 <= i < results.len() ==> (#[trigger] results[i]) is Ok
}

/// The value of a compiled listener.
pub open spec fn ok_value<T>(r: Result<T, Compiler>) -> T {
    match r {
        Ok(v) => v,
        Err(_) => arbitrary(),
    }
}

/// The listeners of a template once each was compiled: all of them when every
/// one compiled, and none at all when any one failed (the failure is not
/// reported).
pub fn keep_if_all_compiled<T>(results: Vec<Result<T, Compiler>>) -> (r: Vec<T>)
    ensures
        all_ok(results@) ==> r@ == results@.map_values(|x: Result<T, Compiler>| ok_value(x)),
        !all_ok(results@) ==> r@.len() == 0,
{
    let ghost orig = results@;
    let mut out: Vec<T> = Vec::new();
    let mut rest = results;
    let n = rest.len();
    let mut i: usize = 0;
    #[verifier::loop_isolation(false)]
    while i < n
        invariant
            n == orig.len(),
            i <= n,
            rest@ == orig.skip(i as int),
            out@ == orig.take(i as int).map_values(|x: Result<T, Compiler>| ok_value(x)),
            forall|k: int| 0 <= k < i ==> (#[trigger] orig[k]) is Ok,
        decreases n - i,
    {
        let ghost before = rest@;
        let x = rest.remove(0);
        assert(x == orig[i as int]);
        assert(rest@ =~= orig.skip(i + 1));
        match x {
            Ok(v) => {
                out.push(v);
                assert(out@ =~= orig.take(i + 1).map_values(
                    |x: Result<T, Compiler>| ok_value(x),
                ));
            },
            Err(_) => {
                assert(!all_ok(orig));
                return Vec::new();
            },
        }
        i += 1;
    }
    assert(orig.take(n as int) =~= orig);
    out
}

} // verus!

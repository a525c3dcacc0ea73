use fluent_web::change::ChangeDetector;
use fluent_web::error::Compiler;
use fluent_web::events::{
    class_selector, element_type_name, event_category, event_type_name, html_element_type,
    is_known_event, keep_if_all_compiled, EventCategory,
};
use fluent_web::runtime::{
    display, element_selector, elements_selector, elements_selector_raw, id_selector, if_change,
    uuid, IfChange,
};

#[test]
fn selectors() {
    assert_eq!(id_selector("app"), "#app");
    assert_eq!(
        element_selector("app", "title"),
        "#app #title:not(#app .__Fluent_Component *)"
    );
    assert_eq!(
        elements_selector("app", ".x", None),
        "#app  .x:not(#app .__Fluent_Component *)"
    );
    assert_eq!(
        elements_selector("app", ".x", Some("blk")),
        "#app .blk .x:not(#app .__Fluent_Component *)"
    );
    assert_eq!(
        elements_selector_raw("app", ".x", Some("#blk".to_string())),
        "#app #blk .x:not(#app .__Fluent_Component *)"
    );
    assert_eq!(
        elements_selector_raw("app", ".x", None),
        "#app  .x:not(#app .__Fluent_Component *)"
    );
}

#[test]
fn if_changes() {
    assert_eq!(if_change(true, None), IfChange::Show);
    assert_eq!(if_change(true, Some("false")), IfChange::Show);
    assert_eq!(if_change(true, Some("true")), IfChange::Keep);
    assert_eq!(if_change(false, Some("true")), IfChange::Hide);
    assert_eq!(if_change(false, Some("false")), IfChange::Keep);
    assert_eq!(if_change(false, None), IfChange::Keep);
    assert_eq!(if_change(true, Some("other")), IfChange::Keep);
    assert_eq!(if_change(false, Some("other")), IfChange::Keep);
}

#[test]
fn if_change_settles_after_one_step() {
    for condition in [true, false] {
        for state in [None, Some("true"), Some("false"), Some("x")] {
            let change = if_change(condition, state);
            let after = match change {
                IfChange::Show => Some("true"),
                IfChange::Hide => Some("false"),
                IfChange::Keep => state,
            };
            assert_eq!(if_change(condition, after), IfChange::Keep);
            if state != Some("x") {
                let expected = if condition { "true" } else { "false" };
                assert_eq!(after.unwrap_or("false"), expected);
            }
        }
    }
}

#[test]
fn runtime_uuid_keeps_hyphens() {
    let id = uuid();
    assert!(id.starts_with("__Fluent_UUID_"));
    assert_eq!(id.len(), 14 + 36);
    assert_eq!(id.matches('-').count(), 4);
    let b = id.as_bytes();
    for k in [8, 13, 18, 23] {
        assert_eq!(b[14 + k], b'-');
    }
    assert_eq!(b[14 + 14], b'4');
    assert!(matches!(b[14 + 19], b'8' | b'9' | b'a' | b'b'));
}

#[test]
fn display_uses_display_impl() {
    assert_eq!(display(&42u32), "42");
    assert_eq!(display(&"hi"), "hi");
}

#[test]
fn element_types() {
    assert_eq!(element_type_name("button").unwrap(), "HtmlButtonElement");
    assert_eq!(element_type_name("a").unwrap(), "HtmlAnchorElement");
    assert_eq!(element_type_name("A").unwrap(), "HtmlAnchorElement");
    assert_eq!(element_type_name("abbr").unwrap(), "HtmlAbbrElement");
    assert!(matches!(element_type_name(""), Err(Compiler::WrongSyntax(_))));
    assert_eq!(html_element_type("a"), "HtmlAElement");
    assert_eq!(html_element_type("input"), "HtmlInputElement");
}

#[test]
fn event_categories() {
    assert_eq!(event_category("click"), EventCategory::Mouse);
    assert_eq!(event_category("keyup"), EventCategory::Keyboard);
    assert_eq!(event_category("input"), EventCategory::Form);
    assert_eq!(event_category("scroll"), EventCategory::Window);
    assert_eq!(event_category("drop"), EventCategory::DragDrop);
    assert_eq!(event_category("paste"), EventCategory::Clipboard);
    assert_eq!(event_category("waiting"), EventCategory::Media);
    assert_eq!(event_category("storage"), EventCategory::Other);
    assert!(is_known_event("dblclick"));
    assert!(!is_known_event("Click"));
    assert!(!is_known_event(""));
    assert_eq!(event_type_name(&EventCategory::Mouse), "MouseEvent");
    assert_eq!(event_type_name(&EventCategory::DragDrop), "DragDropEvent");
}

#[test]
fn class_selectors() {
    assert_eq!(class_selector("__Fluent_UUID_x"), ".__Fluent_UUID_x");
}

#[test]
fn listeners_are_all_or_nothing() {
    let all: Vec<Result<u8, Compiler>> = vec![Ok(1), Ok(2)];
    assert_eq!(keep_if_all_compiled(all), vec![1, 2]);
    let one_bad: Vec<Result<u8, Compiler>> = vec![Ok(1), Err(Compiler::MissingSrc), Ok(3)];
    assert!(keep_if_all_compiled(one_bad).is_empty());
    let none: Vec<Result<u8, Compiler>> = vec![];
    assert!(keep_if_all_compiled(none).is_empty());
}

#[test]
fn change_detector_tracks_reads_and_writes() {
    let mut d = ChangeDetector::new(5u32);
    assert!(!d.was_read());
    assert!(!d.was_written());
    {
        let mut g = d.borrow();
        assert_eq!(*g.get(), 5);
    }
    assert!(d.was_read());
    assert!(!d.was_written());
    {
        let mut w = d.borrow_mut();
        *w.get_mut() = 7;
    }
    assert!(d.was_read());
    assert!(d.was_written());
    d.clear();
    assert!(!d.was_read());
    assert!(!d.was_written());
    {
        let mut w = d.borrow_mut();
        assert_eq!(*w.get(), 7);
    }
    assert!(d.was_read());
    assert!(!d.was_written());
}

#[test]
fn borrowing_without_access_changes_nothing() {
    let mut d = ChangeDetector::new(String::from("x"));
    {
        let _g = d.borrow();
    }
    {
        let _w = d.borrow_mut();
    }
    assert!(!d.was_read());
    assert!(!d.was_written());
}

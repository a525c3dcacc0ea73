use fluent_web::ids::{fluent_id_from, runtime_id_from, uuid};
use fluent_web::template::{extract_format_strings, split_format_template};
use fluent_web::text::{find_top_level_tag, replace_char_in, same_text, tag_region_is_ordered};
use fluent_web::error::Compiler;

#[test]
fn test_find() {
    const CONTENT: &str = "<a>Hello World</a> <b>123</b>";

    assert_eq!("Hello World", find_top_level_tag(CONTENT, "a").unwrap());
    assert_eq!("123", find_top_level_tag(CONTENT, "b").unwrap())
}

#[test]
fn find_top_level_tag_missing_tags() {
    assert_eq!(find_top_level_tag("<data>let mut x: u8 = 1;</data>", "style"), None);
    assert_eq!(find_top_level_tag("<data>let mut x: u8 = 1;", "data"), None);
    assert_eq!(find_top_level_tag("no tags</data>", "data"), None);
}

#[test]
fn find_top_level_tag_takes_first_pair_and_keeps_inner_markup() {
    let doc = "<template><div>{x}</div></template><style>a{}</style><template>x</template>";
    assert_eq!(find_top_level_tag(doc, "template"), Some("<div>{x}</div>"));
    assert_eq!(find_top_level_tag(doc, "style"), Some("a{}"));
    assert_eq!(find_top_level_tag("<data></data>", "data"), Some(""));
}

#[test]
fn tag_region_order() {
    assert!(tag_region_is_ordered("<a>x</a>", "a"));
    assert!(tag_region_is_ordered("nothing here", "a"));
    assert!(!tag_region_is_ordered("</a> <a>", "a"));
}

#[test]
fn compiler_uuid_shape() {
    let id = uuid();
    assert_eq!(id.len(), "__Fluent_UUID_".len() + 36);
    assert!(id.starts_with("__Fluent_UUID_"));
    assert!(!id.contains('-'));
    assert!(id[14..].chars().all(|c| c == '_' || c.is_ascii_hexdigit()));
    let b = id.as_bytes();
    for k in 0..36 {
        if [8, 13, 18, 23].contains(&k) {
            assert_eq!(b[14 + k], b'_');
        } else {
            assert!(matches!(b[14 + k], b'0'..=b'9' | b'a'..=b'f'));
        }
    }
    assert_eq!(b[28], b'4');
    assert!(matches!(b[33], b'8' | b'9' | b'a' | b'b'));
    assert_ne!(uuid(), uuid());
}

#[test]
fn ids_from_raw_uuid_text() {
    let raw = "67e55044-10b1-426f-9247-bb680e5fe0c8";
    assert_eq!(fluent_id_from(raw), "__Fluent_UUID_67e55044_10b1_426f_9247_bb680e5fe0c8");
    assert_eq!(runtime_id_from(raw), "__Fluent_UUID_67e55044-10b1-426f-9247-bb680e5fe0c8");
}

#[test]
fn text_helpers() {
    assert_eq!(replace_char_in("a-b-c", '-', '_'), "a_b_c");
    assert!(same_text("click", "click"));
    assert!(!same_text("click", "clicks"));
}

#[test]
fn split_format_template_examples() {
    let (format, exprs) = split_format_template("Hello {name}, you are {age + 1}!");
    assert_eq!(format, "Hello {}, you are {}!");
    assert_eq!(exprs, vec!["name".to_string(), "age + 1".to_string()]);

    let (format, exprs) = split_format_template("plain text");
    assert_eq!(format, "plain text");
    assert!(exprs.is_empty());

    // An opening brace starts over: what came before it in the braces is dropped.
    let (format, exprs) = split_format_template("{a{b}");
    assert_eq!(format, "{{}");
    assert_eq!(exprs, vec!["b".to_string()]);

    // A closing brace alone closes an empty expression.
    let (format, exprs) = split_format_template("x}");
    assert_eq!(format, "x}");
    assert_eq!(exprs, vec!["".to_string()]);
}

#[test]
fn extract_format_strings_ok_and_parse_error() {
    let (format, exprs) = extract_format_strings("Count: {count * 2}").unwrap();
    assert_eq!(format, "Count: {}");
    assert_eq!(exprs.len(), 1);

    match extract_format_strings("Broken {1 +}") {
        Err(Compiler::Parse(_)) => {}
        other => panic!("expected a parse error, got {:?}", other.is_ok()),
    }
}

#[test]
fn split_format_template_round_trip() {
    let text = "Hi {a} and {b.c()}!";
    let (format, exprs) = split_format_template(text);
    let mut rebuilt = String::new();
    let mut rest = exprs.iter();
    let mut chars = format.chars().peekable();
    while let Some(c) = chars.next() {
        if c == '{' && chars.peek() == Some(&'}') {
            chars.next();
            rebuilt.push('{');
            rebuilt.push_str(rest.next().unwrap());
            rebuilt.push('}');
        } else {
            rebuilt.push(c);
        }
    }
    assert_eq!(rebuilt, text);
    assert!(rest.next().is_none());
}

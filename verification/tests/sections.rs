use fluent_web::error::Compiler;
use fluent_web::sections::{
    parse_component_sections, parse_data_and_props_segement, parse_data_segement,
    parse_define_section, parse_events, parse_events_if_valid, parse_generics_section,
};

#[test]
fn data_section_statements() {
    let v = parse_data_and_props_segement("let mut a: u8 = 1;\nlet mut b: String = String::new();", false)
        .unwrap();
    assert_eq!(v.len(), 2);
    assert_eq!(v[0].target.to_string(), "a");
    assert_eq!(v[1].target.to_string(), "b");
    assert!(v.iter().all(|s| !s.is_prop));
    let p = parse_data_and_props_segement("let mut c: i32 = -1;", true).unwrap();
    assert_eq!(p.len(), 1);
    assert!(p[0].is_prop);
}

#[test]
fn empty_data_section() {
    assert!(parse_data_and_props_segement("", false).unwrap().is_empty());
    assert!(parse_data_segement("").unwrap().is_empty());
}

#[test]
fn data_section_parse_error() {
    assert!(matches!(parse_data_and_props_segement("let mut = ;", false), Err(Compiler::Parse(_))));
    assert!(matches!(parse_data_segement("let mut = ;"), Err(Compiler::Parse(_))));
}

#[test]
fn data_section_wrong_statement() {
    let src = "let mut a: u8 = 1;\nlet b: u8 = 2;";
    match parse_data_and_props_segement(src, false) {
        Err(Compiler::WrongSyntaxInDataSection { src: s, err_span }) => {
            assert_eq!(s, src);
            assert_eq!(err_span.offset(), 19);
        }
        _ => panic!("expected a data section error"),
    }
    assert!(matches!(
        parse_data_segement("let mut x = 1;"),
        Err(Compiler::WrongSyntaxInDataSection { .. })
    ));
    match parse_data_and_props_segement("let count: u8 = 0;", true) {
        Err(Compiler::WrongSyntaxInDataSection { src, err_span }) => {
            assert_eq!(src, "let count: u8 = 0;");
            assert_eq!(err_span.offset(), 0);
        }
        _ => panic!("expected a data section error"),
    }
    for bad in ["let ref mut a: u8 = 1;", "let mut a: u8 = 1 else { return };", "fn f() {}", "1 + 2;"] {
        assert!(matches!(
            parse_data_and_props_segement(bad, false),
            Err(Compiler::WrongSyntaxInDataSection { .. })
        ));
    }
}

#[test]
fn data_section_error_offset_counts_bytes() {
    let src = "let mut \u{e9}: u8 = 1;\nlet b: u8 = 2;";
    match parse_data_and_props_segement(src, false) {
        Err(Compiler::WrongSyntaxInDataSection { err_span, .. }) => {
            assert_eq!(err_span.offset(), 20);
        }
        _ => panic!("expected a data section error"),
    }
}

#[test]
fn data_statement_parts() {
    let v = parse_data_segement("let mut n: Vec<u8> = vec![1];").unwrap();
    assert_eq!(v.len(), 1);
    assert_eq!(v[0].target.to_string(), "n");
    assert_eq!(quote::ToTokens::to_token_stream(&v[0].type_).to_string().replace(' ', ""), "Vec<u8>");
    assert_eq!(quote::ToTokens::to_token_stream(&v[0].init_value).to_string().replace(' ', ""), "vec![1]");
}

#[test]
fn generics_section() {
    assert!(parse_generics_section("<data></data>").unwrap().is_none());
    let g = parse_generics_section("<generics><T: Clone></generics>").unwrap().unwrap();
    assert_eq!(g.params.len(), 1);
    assert!(matches!(parse_generics_section("<generics><T:</generics>"), Err(Compiler::Parse(_))));
}

#[test]
fn define_section() {
    assert!(parse_define_section("").unwrap().items.is_empty());
    let f = parse_define_section("<define>struct A; fn f() {}</define>").unwrap();
    assert_eq!(f.items.len(), 2);
    assert!(matches!(parse_define_section("<define>fn</define>"), Err(Compiler::Parse(_))));
}

#[test]
fn component_sections() {
    let source = "<props>let mut p: u8 = 0;</props><data>let mut a: u8 = 1;</data>\
        <setup>let x = 1;</setup><template><p>{a}</p></template>";
    let c = parse_component_sections(source).unwrap();
    assert!(c.generics.is_none());
    assert_eq!(c.props.len(), 1);
    assert!(c.props[0].is_prop);
    assert_eq!(c.data.len(), 1);
    assert!(!c.data[0].is_prop);
    assert!(c.define.items.is_empty());
    assert!(c.body.is_some());
}

#[test]
fn component_sections_first_error() {
    assert!(matches!(
        parse_component_sections("<data>let a = 1;</data><setup>(</setup>"),
        Err(Compiler::WrongSyntaxInDataSection { .. })
    ));
    assert!(matches!(parse_component_sections("<setup>(</setup>"), Err(Compiler::Parse(_))));
}

#[test]
fn events_section() {
    let v = parse_events("<events>struct A; struct B { x: u8 }</events>").unwrap();
    assert_eq!(v.len(), 2);
    assert_eq!(v[1].ident.to_string(), "B");
    assert!(parse_events("<data></data>").unwrap().is_empty());
    match parse_events("<events>struct A; fn f() {}</events>") {
        Err(Compiler::WrongSyntax(m)) => assert_eq!(m, "<events> to only contain structs"),
        _ => panic!("expected WrongSyntax"),
    }
    assert!(parse_events_if_valid("<events>struct</events>").is_none());
    assert!(parse_events_if_valid("<events>struct A;</events>").unwrap().is_ok());
}

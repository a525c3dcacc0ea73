//! The Rust sections of a component file: `<generics>`, `<props>`, `<data>`,
//! `<define>`, `<setup>` and `<events>`, parsed with `syn`, and the template's
//! body.

use vstd::prelude::*;
use vstd::string::*;
use crate::error::Compiler;
use crate::element_ids::{braced, parses_as_block};
use crate::html::{get_html_body, opt_node_view, parsed_body, template_text, HtmlNode};
use crate::template::{parse_expr, parses_as_expr};
use crate::text::{find_top_level_tag, tag_region_in_order, top_level_tag_content};

verus! {

#[verifier::external_type_specification]
#[verifier::external_body]
pub struct ExStmt(syn::Stmt);

#[verifier::external_type_specification]
#[verifier::external_body]
pub struct ExIdent(syn::Ident);

#[verifier::external_type_specification]
#[verifier::external_body]
pub struct ExType(syn::Type);

#[verifier::external_type_specification]
#[verifier::external_body]
pub struct ExFile(syn::File);

#[verifier::external_type_specification]
#[verifier::external_body]
pub struct ExGenerics(syn::Generics);

#[verifier::external_type_specification]
#[verifier::external_body]
pub struct ExItem(syn::Item);

#[verifier::external_type_specification]
#[verifier::external_body]
pub struct ExItemStruct(syn::ItemStruct);

/// A statement of a `<data>` or `<props>` section: `let mut TARGET: TYPE = INIT;`.
pub struct DataStatement {
    /// Name of the field.
    pub target: syn::Ident,
    /// Its type, used in the struct definition.
    pub type_: syn::Type,
    /// The expression that gives its initial value.
    pub init_value: syn::Expr,
    /// Whether the statement is in `<props>` (else in `<data>`).
    pub is_prop: bool,
}

/// The form of each statement that `syn` finds in `src` parsed as a block, in
/// order: for `let NAME: TYPE = VALUE ...;` with a plain name pattern, whether
/// it has `ref` before the name, `mut` before the name and an `else` block
/// after the value; `None` for any other statement.
pub uninterp spec fn block_statement_forms(src: Seq<char>) -> Seq<Option<(bool, bool, bool)>>;

/// Whether `src` parses as a Rust file (`syn::parse_str::<syn::File>`).
pub uninterp spec fn parses_as_file(src: Seq<char>) -> bool;

/// For each item of `src` parsed as a Rust file, in order, whether it is a
/// struct.
pub uninterp spec fn file_item_is_struct(src: Seq<char>) -> Seq<bool>;

/// Whether `src` parses as a struct item (`syn::parse_str::<syn::ItemStruct>`).
pub uninterp spec fn parses_as_item_struct(src: Seq<char>) -> bool;

/// How many bytes `c` takes in UTF-8.
pub open spec fn utf8_len(c: char) -> nat {
    if (c as u32) < 0x80 {
        1
    } else if (c as u32) < 0x800 {
        2
    } else if (c as u32) < 0x10000 {
        3
    } else {
        4
    }
}

/// Walks `src` from character `i`, at 0-based `line` and `col` and byte
/// `offset`, until the walk has reached line `loc_line` and column `loc_col`
/// counted from 1 (or the end of the text), and gives the byte offset there.
pub open spec fn location_scan(
    src: Seq<char>,
    i: int,
    line: int,
    col: int,
    offset: int,
    loc_line: int,
    loc_col: int,
) -> int
    decreases src.len() - i,
{
    if i < 0 || i >= src.len() || (line + 1 >= loc_line && col + 1 >= loc_col) {
        offset
    } else if src[i] == '\n' {
        location_scan(src, i + 1, line + 1, 0, offset + utf8_len(src[i]), loc_line, loc_col)
    } else {
        location_scan(src, i + 1, line, col + 1, offset + utf8_len(src[i]), loc_line, loc_col)
    }
}

/// The byte offset of a line and column (both counted from 1) in `src`, as
/// `miette::SourceOffset::from_location` finds it.
pub open spec fn location_offset(src: Seq<char>, line: usize, column: usize) -> int {
    location_scan(src, 0, 0, 0, 0, line as int, column as int)
}

/// What a data statement's checks read of a `syn::Stmt`.
pub enum StatementShape {
    /// `let NAME: TYPE = VALUE ...;` with a plain name pattern.
    TypedLet {
        /// Whether there is `ref` before the name, `mut` before the name and an
        /// `else` block after the value.
        form: (bool, bool, bool),
        /// The name.
        target: syn::Ident,
        /// The type.
        type_: syn::Type,
        /// The value.
        init_value: syn::Expr,
    },
    /// Any other statement.
    Other,
}

/// The form of a statement, as [`block_statement_forms`] gives it.
pub open spec fn shape_form(s: StatementShape) -> Option<(bool, bool, bool)> {
    match s {
        StatementShape::TypedLet { form, .. } => Some(form),
        StatementShape::Other => None,
    }
}

/// `syn::parse_str::<syn::Block>`, taking each statement of the block apart: a
/// `let` with a typed name pattern and a value gives its form and parts,
/// anything else [`StatementShape::Other`]; the statement's tokens come along
/// for error reports. Whether parsing succeeds and the statements' forms are a
/// function of the text alone; the parts, tokens and error are left unsaid.
#[verifier::external_body]
fn parse_block_shapes(src: &str) -> (r: Result<Vec<(StatementShape, proc_macro2::TokenStream)>, syn::Error>)
    ensures
        r is Ok <==> parses_as_block(src@),
        r matches Ok(v) ==> v@.len() == block_statement_forms(src@).len() && forall|i: int|
            0 <= i < v@.len() ==> shape_form((#[trigger] v@[i]).0) == block_statement_forms(src@)[i],
{
    let block = syn::parse_str::<syn::Block>(src)?;
    Ok(block.stmts.into_iter().map(|stmt| {
        let tokens = quote::ToTokens::to_token_stream(&stmt);
        match stmt {
            syn::Stmt::Local(syn::Local { pat: syn::Pat::Type(t), init: Some(i), .. }) => match *t.pat {
                syn::Pat::Ident(p) => (StatementShape::TypedLet {
                    form: (p.by_ref.is_some(), p.mutability.is_some(), i.diverge.is_some()),
                    target: p.ident, type_: *t.ty, init_value: *i.expr }, tokens),
                _ => (StatementShape::Other, tokens),
            },
            _ => (StatementShape::Other, tokens),
        }
    }).collect())
}

/// Line and column where the tokens start and end (`proc_macro2` span
/// locations, lines from 1). Spans depend on how the tokens were parsed, so
/// nothing is claimed of the numbers.
#[verifier::external_body]
fn token_locations(tokens: proc_macro2::TokenStream) -> (usize, usize, usize, usize) {
    let span = syn::Error::new_spanned(tokens, "").span();
    let (start, end) = (span.start(), span.end());
    (start.line, start.column, end.line, end.column)
}

/// `syn::parse_str::<syn::File>`. Whether parsing succeeds is a function of the
/// text alone; the file and the error are left unsaid.
#[verifier::external_body]
fn parse_file(src: &str) -> (r: Result<syn::File, syn::Error>)
    ensures
        r is Ok <==> parses_as_file(src@),
{
    syn::parse_str(src)
}

/// `syn::parse_str::<syn::File>`, telling each item of the file that is a
/// struct (`Ok`) from any other item (`Err`), in order. Whether parsing
/// succeeds and which items are structs are a function of the text alone; the
/// items and the error are left unsaid.
#[verifier::external_body]
fn parse_file_structs(src: &str) -> (r: Result<Vec<Result<syn::ItemStruct, syn::Item>>, syn::Error>)
    ensures
        r is Ok <==> parses_as_file(src@),
        r matches Ok(v) ==> v@.len() == file_item_is_struct(src@).len() && forall|i: int|
            0 <= i < v@.len() ==> ((#[trigger] v@[i]) is Ok <==> file_item_is_struct(src@)[i]),
{
    let file = syn::parse_str::<syn::File>(src)?;
    Ok(file.items.into_iter().map(|item| match item {
        syn::Item::Struct(s) => Ok(s),
        other => Err(other),
    }).collect())
}

/// `syn::parse_str::<syn::ItemStruct>`, handing out the struct's generics.
/// Whether parsing succeeds is a function of the text alone; the generics and
/// the error are left unsaid.
#[verifier::external_body]
fn parse_item_struct_generics(src: &str) -> (r: Result<syn::Generics, syn::Error>)
    ensures
        r is Ok <==> parses_as_item_struct(src@),
{
    syn::parse_str::<syn::ItemStruct>(src).map(|item| item.generics)
}

/// `miette::SourceOffset::from_location(src, line, column)`: the byte offset of
/// a line and column in `src`, found by walking the text character by
/// character as [`location_offset`] states.
#[verifier::external_body]
fn offset_of_location(src: &str, line: usize, column: usize) -> (r: usize)
    ensures
        r == location_offset(src@, line, column),
{
    miette::SourceOffset::from_location(src, line, column).offset()
}

/// `miette::SourceSpan::new(offset, length)`.
#[verifier::external_body]
fn new_source_span(offset: usize, length: usize) -> miette::SourceSpan {
    miette::SourceSpan::new(offset.into(), length)
}

/// Where in a section the tokens of a statement stand, for the error report.
/// The section was parsed with one extra line in front, which is taken off.
fn statement_span(section: &str, tokens: proc_macro2::TokenStream) -> miette::SourceSpan {
    let (start_line, start_column, end_line, end_column) = token_locations(tokens);
    let start = offset_of_location(section, start_line.saturating_sub(1), start_column);
    let end = offset_of_location(section, end_line.saturating_sub(1), end_column);
    let length = if start <= end { (end - start).saturating_add(1) } else { 1 };
    new_source_span(start, length)
}

/// The text that a `<data>` or `<props>` section is parsed from: the section
/// between `{` and `}` lines.
pub open spec fn data_block_text(section: Seq<char>) -> Seq<char> {
    seq!['{', '\n'] + section + seq!['\n', '}']
}

fn data_block_string(section: &str) -> (s: String)
    ensures
        s@ == data_block_text(section@),
{
    let mut s = String::from_str("{\n");
    proof {
        reveal_strlit("{\n");
        reveal_strlit("\n}");
    }
    s.append(section);
    s.append("\n}");
    s
}

/// `let mut NAME: TYPE = VALUE;`: a typed `let` with `mut`, no `ref` and no
/// `else`.
pub open spec fn is_data_form(f: Option<(bool, bool, bool)>) -> bool {
    f == Some((false, true, false))
}

/// Every statement has the data form.
pub open spec fn all_data_forms(forms: Seq<Option<(bool, bool, bool)>>) -> bool {
    forall|i: int| 0 <= i < forms.len() ==> is_data_form(#[trigger] forms[i])
}

/// The block parses and every statement of it is `let mut NAME: TYPE = VALUE;`.
pub open spec fn data_block_accepted(block: Seq<char>) -> bool {
    parses_as_block(block) && all_data_forms(block_statement_forms(block))
}

/// The statements of a section parsed from `block`, the section's text in
/// braces: each must be `let mut NAME: TYPE = VALUE;`, and the first that is not
/// is reported with where it stands in the section.
fn data_statements_of(block: &str, section: &str, is_prop: bool) -> (r: Result<
    Vec<DataStatement>,
    Compiler,
>)
    ensures
        r matches Err(Compiler::Parse(_)) <==> !parses_as_block(block@),
        r is Ok <==> data_block_accepted(block@),
        r matches Ok(v) ==> v@.len() == block_statement_forms(block@).len() && forall|i: int|
            0 <= i < v@.len() ==> (#[trigger] v@[i]).is_prop == is_prop,
        r matches Err(e) ==> e is Parse || (e matches Compiler::WrongSyntaxInDataSection {
            src,
            ..
        } && src@ == section@),
{
    let shapes = match parse_block_shapes(block) {
        Ok(v) => v,
        Err(e) => return Err(Compiler::Parse(e)),
    };
    let ghost forms = block_statement_forms(block@);
    let mut out: Vec<DataStatement> = Vec::new();
    let mut rest = shapes;
    while rest.len() > 0
        invariant
            out@.len() + rest@.len() == forms.len(),
            forms == block_statement_forms(block@),
            parses_as_block(block@),
            forall|j: int| 0 <= j < out@.len() ==> is_data_form(#[trigger] forms[j]),
            forall|k: int|
                0 <= k < rest@.len() ==> shape_form((#[trigger] rest@[k]).0) == forms[out@.len()
                    + k],
            forall|i: int| 0 <= i < out@.len() ==> (#[trigger] out@[i]).is_prop == is_prop,
        decreases rest@.len(),
    {
        let ghost before = rest@;
        let (shape, tokens) = rest.remove(0);
        assert(shape_form(shape) == forms[out@.len() as int]);
        assert forall|k: int| 0 <= k < rest@.len() implies shape_form((#[trigger] rest@[k]).0)
            == forms[out@.len() + 1 + k] by {
            assert(rest@[k] == before[k + 1]);
        }
        match shape {
            StatementShape::TypedLet { form: (false, true, false), target, type_, init_value } => {
                out.push(DataStatement { target, type_, init_value, is_prop });
            },
            _ => {
                assert(!is_data_form(forms[out@.len() as int]));
                let err_span = statement_span(section, tokens);
                return Err(
                    Compiler::WrongSyntaxInDataSection { src: section.to_owned(), err_span },
                );
            },
        }
    }
    assert(all_data_forms(forms));
    Ok(out)
}

/// Parses a `<data>` or `<props>` section. Every statement must be
/// `let mut NAME: TYPE = VALUE;`; the first that is not gives
/// [`Compiler::WrongSyntaxInDataSection`] with the section and where the
/// statement stands in it. Text that is no Rust block gives [`Compiler::Parse`].
pub fn parse_data_and_props_segement(data_section: &str, is_prop: bool) -> (r: Result<
    Vec<DataStatement>,
    Compiler,
>)
    ensures
        r matches Err(Compiler::Parse(_)) <==> !parses_as_block(data_block_text(data_section@)),
        r is Ok <==> data_block_accepted(data_block_text(data_section@)),
        r matches Ok(v) ==> v@.len() == block_statement_forms(data_block_text(data_section@)).len()
            && forall|i: int| 0 <= i < v@.len() ==> (#[trigger] v@[i]).is_prop == is_prop,
        r matches Err(e) ==> e is Parse || (e matches Compiler::WrongSyntaxInDataSection {
            src,
            ..
        } && src@ == data_section@),
{
    let text = data_block_string(data_section);
    data_statements_of(text.as_str(), data_section, is_prop)
}

/// Parses a `<data>` section read as `{section}`, as the element id pipeline
/// reads it. The statements are not props.
pub fn parse_data_segement(data_section: &str) -> (r: Result<Vec<DataStatement>, Compiler>)
    ensures
        r matches Err(Compiler::Parse(_)) <==> !parses_as_block(braced(data_section@)),
        r is Ok <==> data_block_accepted(braced(data_section@)),
        r matches Ok(v) ==> v@.len() == block_statement_forms(braced(data_section@)).len() && forall|
            i: int,
        | 0 <= i < v@.len() ==> !(#[trigger] v@[i]).is_prop,
        r matches Err(e) ==> e is Parse || (e matches Compiler::WrongSyntaxInDataSection {
            src,
            ..
        } && src@ == data_section@),
{
    let mut text = String::from_str("{");
    proof {
        reveal_strlit("{");
        reveal_strlit("}");
    }
    text.append(data_section);
    text.append("}");
    assert(text@ =~= braced(data_section@));
    data_statements_of(text.as_str(), data_section, false)
}

/// `generics`, `props`, `data`, `define`, `setup`.
pub open spec fn generics_tag() -> Seq<char> {
    seq!['g', 'e', 'n', 'e', 'r', 'i', 'c', 's']
}

pub open spec fn props_tag() -> Seq<char> {
    seq!['p', 'r', 'o', 'p', 's']
}

pub open spec fn data_tag() -> Seq<char> {
    seq!['d', 'a', 't', 'a']
}

pub open spec fn define_tag() -> Seq<char> {
    seq!['d', 'e', 'f', 'i', 'n', 'e']
}

pub open spec fn setup_tag() -> Seq<char> {
    seq!['s', 'e', 't', 'u', 'p']
}

/// The content of a section, or nothing when the file has none.
pub open spec fn section_text(source: Seq<char>, tag: Seq<char>) -> Seq<char> {
    match top_level_tag_content(source, tag) {
        Some(t) => t,
        None => Seq::empty(),
    }
}

/// The struct that a `<generics>` section is parsed in: `struct Fake{generics};`.
pub open spec fn fake_struct_text(generics: Seq<char>) -> Seq<char> {
    seq!['s', 't', 'r', 'u', 'c', 't', ' ', 'F', 'a', 'k', 'e'] + generics + seq![';']
}

/// The `<generics>` section is absent or parses.
pub open spec fn generics_parse(source: Seq<char>) -> bool {
    match top_level_tag_content(source, generics_tag()) {
        Some(g) => parses_as_item_struct(fake_struct_text(g)),
        None => true,
    }
}

/// Every Rust section is accepted: `<generics>` is absent or parses, `<props>`
/// and `<data>` hold only `let mut NAME: TYPE = VALUE;`, `<define>` parses as a
/// file and `<setup>` in braces as an expression.
pub open spec fn sections_accepted(source: Seq<char>) -> bool {
    &&& generics_parse(source)
    &&& data_block_accepted(data_block_text(section_text(source, props_tag())))
    &&& data_block_accepted(data_block_text(section_text(source, data_tag())))
    &&& parses_as_file(section_text(source, define_tag()))
    &&& parses_as_expr(braced(section_text(source, setup_tag())))
}

/// Every Rust section's tags stand in order, so that each can be cut out.
pub open spec fn sections_in_order(source: Seq<char>) -> bool {
    &&& tag_region_in_order(source, generics_tag())
    &&& tag_region_in_order(source, props_tag())
    &&& tag_region_in_order(source, data_tag())
    &&& tag_region_in_order(source, define_tag())
    &&& tag_region_in_order(source, setup_tag())
}

/// The parsed sections of a component file.
pub struct ComponentSections {
    /// The generics of `<generics>`, if the file has that section.
    pub generics: Option<syn::Generics>,
    /// The statements of `<props>`.
    pub props: Vec<DataStatement>,
    /// The statements of `<data>`.
    pub data: Vec<DataStatement>,
    /// The items of `<define>`.
    pub define: syn::File,
    /// `<setup>` as a block expression.
    pub setup: syn::Expr,
    /// The `<body>` that the HTML parser builds from `<template>`, if any.
    pub body: Option<HtmlNode>,
}

/// A section's content, or `""` when the file has none.
fn section_or_empty<'a>(source: &'a str, tag: &str) -> (r: &'a str)
    requires
        tag_region_in_order(source@, tag@),
    ensures
        r@ == section_text(source@, tag@),
{
    proof {
        reveal_strlit("");
    }
    match find_top_level_tag(source, tag) {
        Some(t) => t,
        None => "",
    }
}

/// Parses the `<generics>` section, if the file has one, as the generics of
/// `struct Fake{generics};`.
pub fn parse_generics_section(source: &str) -> (r: Result<Option<syn::Generics>, Compiler>)
    requires
        tag_region_in_order(source@, generics_tag()),
    ensures
        r is Err <==> !generics_parse(source@),
        r matches Err(e) ==> e is Parse,
        r matches Ok(g) ==> (g is None <==> top_level_tag_content(source@, generics_tag()) is None),
{
    let tag = "generics";
    proof {
        reveal_strlit("generics");
        reveal_strlit("struct Fake");
        reveal_strlit(";");
    }
    assert(tag@ =~= generics_tag());
    match find_top_level_tag(source, tag) {
        None => Ok(None),
        Some(g) => {
            let mut text = String::from_str("struct Fake");
            text.append(g);
            text.append(";");
            assert(text@ =~= fake_struct_text(g@));
            match parse_item_struct_generics(text.as_str()) {
                Ok(generics) => Ok(Some(generics)),
                Err(e) => Err(Compiler::Parse(e)),
            }
        },
    }
}

/// Parses the `<define>` section (empty when the file has none) as a Rust file.
pub fn parse_define_section(source: &str) -> (r: Result<syn::File, Compiler>)
    requires
        tag_region_in_order(source@, define_tag()),
    ensures
        r is Ok <==> parses_as_file(section_text(source@, define_tag())),
        r matches Err(e) ==> e is Parse,
{
    let tag = "define";
    proof {
        reveal_strlit("define");
    }
    assert(tag@ =~= define_tag());
    match parse_file(section_or_empty(source, tag)) {
        Ok(f) => Ok(f),
        Err(e) => Err(Compiler::Parse(e)),
    }
}

/// `events`
pub open spec fn events_tag() -> Seq<char> {
    seq!['e', 'v', 'e', 'n', 't', 's']
}

/// Every item is a struct.
pub open spec fn all_structs(kinds: Seq<bool>) -> bool {
    forall|i: int| 0 <= i < kinds.len() ==> #[trigger] kinds[i]
}

/// The structs of the `<events>` section (empty when the file has none), which
/// must parse as a Rust file; an item that is not a struct is
/// [`Compiler::WrongSyntax`].
pub fn parse_events(source: &str) -> (r: Result<Vec<syn::ItemStruct>, Compiler>)
    requires
        tag_region_in_order(source@, events_tag()),
        parses_as_file(section_text(source@, events_tag())),
    ensures
        r is Ok <==> all_structs(file_item_is_struct(section_text(source@, events_tag()))),
        r matches Ok(v) ==> v@.len() == file_item_is_struct(
            section_text(source@, events_tag()),
        ).len(),
        r matches Err(e) ==> e matches Compiler::WrongSyntax(m) && m@
            == "<events> to only contain structs"@,
{
    let tag = "events";
    proof {
        reveal_strlit("events");
    }
    assert(tag@ =~= events_tag());
    let section = section_or_empty(source, tag);
    let items = match parse_file_structs(section) {
        Ok(v) => v,
        Err(_) => {
            assert(false);
            return Ok(Vec::new());
        },
    };
    let ghost kinds = file_item_is_struct(section@);
    let mut out: Vec<syn::ItemStruct> = Vec::new();
    let mut rest = items;
    while rest.len() > 0
        invariant
            out@.len() + rest@.len() == kinds.len(),
            kinds == file_item_is_struct(section@),
            parses_as_file(section@),
            section@ == section_text(source@, events_tag()),
            forall|j: int| 0 <= j < out@.len() ==> #[trigger] kinds[j],
            forall|k: int|
                0 <= k < rest@.len() ==> ((#[trigger] rest@[k]) is Ok <==> kinds[out@.len() + k]),
        decreases rest@.len(),
    {
        let ghost before = rest@;
        let item = rest.remove(0);
        assert(item is Ok <==> kinds[out@.len() as int]);
        assert forall|k: int| 0 <= k < rest@.len() implies ((#[trigger] rest@[k]) is Ok
            <==> kinds[out@.len() + 1 + k]) by {
            assert(rest@[k] == before[k + 1]);
        }
        match item {
            Ok(s) => out.push(s),
            Err(_) => {
                assert(!all_structs(kinds));
                let m = "<events> to only contain structs";
                return Err(Compiler::WrongSyntax(m));
            },
        }
    }
    assert(all_structs(kinds));
    Ok(out)
}

/// [`parse_events`] where the `<events>` section parses as a Rust file, `None`
/// where it does not.
pub fn parse_events_if_valid(source: &str) -> (r: Option<Result<Vec<syn::ItemStruct>, Compiler>>)
    requires
        tag_region_in_order(source@, events_tag()),
    ensures
        r is None <==> !parses_as_file(section_text(source@, events_tag())),
        r matches Some(Ok(_)) <==> parses_as_file(section_text(source@, events_tag()))
            && all_structs(file_item_is_struct(section_text(source@, events_tag()))),
        r matches Some(Ok(v)) ==> v@.len() == file_item_is_struct(
            section_text(source@, events_tag()),
        ).len(),
        r matches Some(Err(e)) ==> e matches Compiler::WrongSyntax(m) && m@
            == "<events> to only contain structs"@,
{
    let tag = "events";
    proof {
        reveal_strlit("events");
    }
    assert(tag@ =~= events_tag());
    match parse_file(section_or_empty(source, tag)) {
        Ok(_) => Some(parse_events(source)),
        Err(_) => None,
    }
}

/// Parses the Rust sections of a component file in the order the compiler
/// reads them (`<generics>`, `<props>`, `<data>`, `<define>`, `<setup>`), stopping
/// at the first error, and builds the template's body. A missing section counts
/// as empty.
pub fn parse_component_sections(source: &str) -> (r: Result<ComponentSections, Compiler>)
    requires
        sections_in_order(source@),
    ensures
        r is Ok <==> sections_accepted(source@),
        r matches Err(e) ==> e is Parse || e is WrongSyntaxInDataSection,
        r matches Err(Compiler::WrongSyntaxInDataSection { src, .. }) ==> (src@ == section_text(
            source@,
            props_tag(),
        ) && generics_parse(source@)) || (src@ == section_text(source@, data_tag())
            && generics_parse(source@) && data_block_accepted(
            data_block_text(section_text(source@, props_tag())),
        )),
        !generics_parse(source@) ==> r matches Err(Compiler::Parse(_)),
        r matches Ok(c) ==> {
            &&& (c.generics is None <==> top_level_tag_content(source@, generics_tag()) is None)
            &&& c.props@.len() == block_statement_forms(
                data_block_text(section_text(source@, props_tag())),
            ).len()
            &&& forall|i: int| 0 <= i < c.props@.len() ==> (#[trigger] c.props@[i]).is_prop
            &&& c.data@.len() == block_statement_forms(
                data_block_text(section_text(source@, data_tag())),
            ).len()
            &&& forall|i: int| 0 <= i < c.data@.len() ==> !(#[trigger] c.data@[i]).is_prop
            &&& opt_node_view(c.body) == parsed_body(template_text(source@))
        },
{
    proof {
        reveal_strlit("props");
        reveal_strlit("data");
        reveal_strlit("setup");
        reveal_strlit("{");
        reveal_strlit("}");
    }
    let generics = parse_generics_section(source)?;
    let props_tag_str = "props";
    assert(props_tag_str@ =~= props_tag());
    let props = parse_data_and_props_segement(section_or_empty(source, props_tag_str), true)?;
    let data_tag_str = "data";
    assert(data_tag_str@ =~= data_tag());
    let data = parse_data_and_props_segement(section_or_empty(source, data_tag_str), false)?;
    let define = parse_define_section(source)?;
    let setup_tag_str = "setup";
    assert(setup_tag_str@ =~= setup_tag());
    let setup_section = section_or_empty(source, setup_tag_str);
    let mut setup_text = String::from_str("{");
    setup_text.append(setup_section);
    setup_text.append("}");
    assert(setup_text@ =~= braced(setup_section@));
    let setup = match parse_expr(setup_text.as_str()) {
        Ok(x) => x,
        Err(e) => return Err(Compiler::Parse(e)),
    };
    let body = get_html_body(source);
    Ok(ComponentSections { generics, props, data, define, setup, body })
}

} // verus!

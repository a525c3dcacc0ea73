//! Splitting reactive text such as `Count: {count + 1}` into a format string
//! (`Count: {}`) and the Rust expressions that fill it.

use vstd::prelude::*;
use crate::error::Compiler;
use crate::text::{count_char, push_char, string_from_chars, chars_of};

verus! {

broadcast use vstd::seq_lib::group_seq_properties;

/// The scanner state: the format string so far, the finished expressions, the
/// expression being read, and whether the scanner is inside `{ }`.
pub type ScanState = (Seq<char>, Seq<Seq<char>>, Seq<char>, bool);

/// The state before any character was read.
pub open spec fn scan_start() -> ScanState {
    (Seq::empty(), Seq::empty(), Seq::empty(), false)
}

/// One character: `{` opens an expression and is kept in the format string, `}`
/// closes the current expression and is kept too; any other character goes to
/// the current expression inside braces and to the format string outside.
pub open spec fn scan_step(st: ScanState, c: char) -> ScanState {
    if c == '{' {
        (st.0.push('{'), st.1, Seq::empty(), true)
    } else if c == '}' {
        (st.0.push('}'), st.1.push(st.2), Seq::empty(), false)
    } else if st.3 {
        (st.0, st.1, st.2.push(c), true)
    } else {
        (st.0.push(c), st.1, st.2, false)
    }
}

/// The state after reading all of `text`.
pub open spec fn scan_template(text: Seq<char>) -> ScanState
    decreases text.len(),
{
    if text.len() == 0 {
        scan_start()
    } else {
        scan_step(scan_template(text.drop_last()), text.last())
    }
}

/// The format string of `text`.
pub open spec fn template_format(text: Seq<char>) -> Seq<char> {
    scan_template(text).0
}

/// The expressions of `text`, in order.
pub open spec fn template_exprs(text: Seq<char>) -> Seq<Seq<char>> {
    scan_template(text).1
}

/// Whether `src` parses as a Rust expression (`syn::parse_str::<syn::Expr>`).
pub uninterp spec fn parses_as_expr(src: Seq<char>) -> bool;

#[verifier::external_type_specification]
#[verifier::external_body]
pub struct ExExpr(syn::Expr);

/// `syn::parse_str::<syn::Expr>`. Whether parsing succeeds is a function of the
/// text alone, and empty text is no expression; what the parsed expression
/// holds, and the error's message and span, are left unsaid.
#[verifier::external_body]
pub(crate) fn parse_expr(src: &str) -> (r: Result<syn::Expr, syn::Error>)
    ensures
        r is Ok <==> parses_as_expr(src@),
        src@.len() == 0 ==> r is Err,
{
    syn::parse_str(src)
}

/// Splits `text` into the format string and the source of each expression.
pub fn split_format_template(text: &str) -> (r: (String, Vec<String>))
    ensures
        r.0@ == template_format(text@),
        r.1.deep_view() == template_exprs(text@),
{
    let chars = chars_of(text);
    let mut format_string = String::new();
    let mut expressions: Vec<String> = Vec::new();
    let mut current: Vec<char> = Vec::new();
    let mut in_template = false;
    let mut i: usize = 0;
    while i < chars.len()
        invariant
            chars@ == text@,
            i <= chars@.len(),
            scan_template(text@.take(i as int)) == (
                format_string@,
                expressions.deep_view(),
                current@,
                in_template,
            ),
        decreases chars.len() - i,
    {
        let c = chars[i];
        assert(text@.take(i + 1).drop_last() =~= text@.take(i as int));
        let ghost prev = expressions.deep_view();
        if c == '{' {
            in_template = true;
            push_char(&mut format_string, '{');
            current = Vec::new();
        } else if c == '}' {
            in_template = false;
            push_char(&mut format_string, '}');
            let s = string_from_chars(current.as_slice());
            expressions.push(s);
            assert(expressions.deep_view() =~= prev.push(current@));
            current = Vec::new();
        } else if in_template {
            current.push(c);
        } else {
            push_char(&mut format_string, c);
        }
        i += 1;
        assert(current@ =~= scan_template(text@.take(i as int)).2);
    }
    assert(text@.take(chars@.len() as int) =~= text@);
    (format_string, expressions)
}

/// Extracts the Rust code from reactive text: returns the text with just `{}`
/// for each expression, and the parsed expressions.
///
/// Fails with [`Compiler::Parse`] exactly when one of the expressions is not
/// valid Rust.
pub fn extract_format_strings(text: &str) -> (r: Result<(String, Vec<syn::Expr>), Compiler>)
    ensures
        r is Ok <==> forall|i: int|
            0 <= i < template_exprs(text@).len() ==> parses_as_expr(
                #[trigger] template_exprs(text@)[i],
            ),
        r matches Ok((f, es)) ==> f@ == template_format(text@) && es@.len()
            == template_exprs(text@).len(),
        r matches Err(e) ==> e is Parse,
{
    let (format_string, sources) = split_format_template(text);
    let ghost exprs = template_exprs(text@);
    let mut parsed: Vec<syn::Expr> = Vec::new();
    let mut i: usize = 0;
    while i < sources.len()
        invariant
            sources.deep_view() == exprs,
            exprs == template_exprs(text@),
            i <= sources@.len(),
            parsed@.len() == i,
            forall|j: int| 0 <= j < i ==> parses_as_expr(#[trigger] exprs[j]),
        decreases sources.len() - i,
    {
        assert(sources@[i as int]@ == exprs[i as int]);
        match parse_expr(sources[i].as_str()) {
            Ok(e) => parsed.push(e),
            Err(err) => {
                assert(sources.deep_view().len() == sources@.len());
                assert(i < template_exprs(text@).len());
                assert(!parses_as_expr(template_exprs(text@)[i as int]));
                return Err(Compiler::Parse(err));
            },
        }
        i += 1;
    }
    Ok((format_string, parsed))
}

// ---------------------------------------------------------------------------
// Laws of the scanner
// ---------------------------------------------------------------------------

/// One expression is collected for every `}` in the text, and the format string
/// keeps every brace of the text.
pub proof fn lemma_scan_counts(text: Seq<char>)
    ensures
        template_exprs(text).len() == count_char(text, '}'),
        count_char(template_format(text), '{') == count_char(text, '{'),
        count_char(template_format(text), '}') == count_char(text, '}'),
    decreases text.len(),
{
    if text.len() > 0 {
        lemma_scan_counts(text.drop_last());
        let st = scan_template(text.drop_last());
        let c = text.last();
        if c == '{' || c == '}' || !st.3 {
            assert(scan_template(text).0.drop_last() =~= st.0);
        } else {
            assert(scan_template(text).0 =~= st.0);
        }
    }
}

/// Text without braces has no expressions and is its own format string.
pub proof fn lemma_plain_text_unchanged(text: Seq<char>)
    requires
        !text.contains('{'),
        !text.contains('}'),
    ensures
        template_format(text) == text,
        template_exprs(text).len() == 0,
        !scan_template(text).3,
    decreases text.len(),
{
    if text.len() > 0 {
        assert(!text.drop_last().contains('{'));
        assert(!text.drop_last().contains('}'));
        assert(text.contains(text.last()));
        lemma_plain_text_unchanged(text.drop_last());
        assert(template_format(text) =~= text);
    }
}

/// How many braces are open at the end of `text`: `{` minus `}`.
pub open spec fn open_braces(text: Seq<char>) -> int {
    count_char(text, '{') - count_char(text, '}')
}

/// Braces alternate in `text`: every `{` comes when none is open, every `}`
/// when one is open (so `{}` parts never nest or close twice).
pub open spec fn braces_alternate(text: Seq<char>) -> bool
    decreases text.len(),
{
    if text.len() == 0 {
        true
    } else {
        &&& braces_alternate(text.drop_last())
        &&& (text.last() == '{' ==> open_braces(text.drop_last()) == 0)
        &&& (text.last() == '}' ==> open_braces(text.drop_last()) == 1)
    }
}

/// The text that a format string and its expressions stand for: each `{}` is
/// filled with its expression in braces, the last `{}` with the last one.
pub open spec fn fill_back(format: Seq<char>, exprs: Seq<Seq<char>>) -> Seq<char>
    decreases format.len(),
{
    if format.len() >= 2 && format[format.len() - 2] == '{' && format.last() == '}' && exprs.len()
        > 0 {
        fill_back(format.take(format.len() - 2), exprs.drop_last()) + seq!['{'] + exprs.last()
            + seq!['}']
    } else if format.len() > 0 {
        fill_back(format.drop_last(), exprs) + seq![format.last()]
    } else {
        Seq::empty()
    }
}

/// What the scanner knows of a text whose braces alternate: it is inside braces
/// exactly when one is open, the format string then ends with that `{`, and
/// filling the format string back gives the text (with what is read of the
/// open expression after it).
proof fn lemma_scan_rebuilds(text: Seq<char>)
    requires
        braces_alternate(text),
    ensures
        scan_template(text).3 <==> open_braces(text) == 1,
        open_braces(text) == 0 || open_braces(text) == 1,
        scan_template(text).3 ==> scan_template(text).0.len() > 0 && scan_template(text).0.last()
            == '{',
        fill_back(scan_template(text).0, scan_template(text).1) + (if scan_template(text).3 {
            scan_template(text).2
        } else {
            Seq::empty()
        }) == text,
    decreases text.len(),
{
    if text.len() > 0 {
        let p = text.drop_last();
        let c = text.last();
        lemma_scan_rebuilds(p);
        let st = scan_template(p);
        let f = st.0;
        assert(text == p.push(c));
        if c == '{' {
            let f2 = f.push('{');
            assert(f2.drop_last() =~= f);
            assert(fill_back(f2, st.1) == fill_back(f, st.1) + seq!['{']);
            assert(fill_back(f2, st.1) + Seq::<char>::empty() =~= text);
        } else if c == '}' {
            let f2 = f.push('}');
            let e2 = st.1.push(st.2);
            assert(f2.take(f2.len() - 2) =~= f.drop_last());
            assert(e2.drop_last() =~= st.1);
            assert(f.drop_last().push('{') =~= f);
            assert(fill_back(f, st.1) == fill_back(f.drop_last(), st.1) + seq!['{']) by {
                if f.len() >= 2 && f[f.len() - 2] == '{' && f.last() == '}' && st.1.len() > 0 {
                } else {
                    assert(f.drop_last() == f.drop_last());
                }
            }
            assert(fill_back(f2, e2) == fill_back(f.drop_last(), st.1) + seq!['{'] + st.2 + seq![
                '}',
            ]);
            assert(fill_back(f2, e2) + Seq::<char>::empty() =~= text);
        } else if st.3 {
            assert(st.2.push(c) =~= st.2 + seq![c]);
            assert(fill_back(f, st.1) + st.2.push(c) =~= text);
        } else {
            let f2 = f.push(c);
            assert(f2.drop_last() =~= f);
            assert(fill_back(f2, st.1) == fill_back(f, st.1) + seq![c]);
            assert(fill_back(f2, st.1) + Seq::<char>::empty() =~= text);
        }
    }
}

/// Reactive text whose braces alternate and are all closed is given back by
/// its format string with each `{}` filled with its expression in braces:
/// splitting loses nothing.
pub proof fn lemma_split_round_trip(text: Seq<char>)
    requires
        braces_alternate(text),
        open_braces(text) == 0,
    ensures
        fill_back(template_format(text), template_exprs(text)) == text,
{
    lemma_scan_rebuilds(text);
    assert(fill_back(template_format(text), template_exprs(text)) + Seq::<char>::empty()
        =~= fill_back(template_format(text), template_exprs(text)));
}

} // verus!

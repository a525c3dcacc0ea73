//! Turning printed, scoped CSS into a `<style>` block of the component's
//! `format!` template, with `{root}` where the component's root id goes.

use vstd::prelude::*;
use vstd::string::*;
use crate::text::{chars_of, push_char, push_chars, occurs_at, matches_at};
use crate::ids::{is_fluent_id, uuid};

verus! {

broadcast use vstd::seq_lib::group_seq_properties;

/// `{` doubled to `{{` and `}` doubled to `}}`, as `format!` reads them back.
pub open spec fn escape_braces(s: Seq<char>) -> Seq<char>
    decreases s.len(),
{
    if s.len() == 0 {
        Seq::empty()
    } else {
        let c = s[0];
        let head = if c == '{' {
            seq!['{', '{']
        } else if c == '}' {
            seq!['}', '}']
        } else {
            seq![c]
        };
        head + escape_braces(s.drop_first())
    }
}

/// Every occurrence of `pat` replaced by `rep`, scanning from the left and never
/// overlapping (what `str::replace` does for a non-empty pattern).
pub open spec fn replace_all(s: Seq<char>, pat: Seq<char>, rep: Seq<char>) -> Seq<char>
    recommends
        pat.len() > 0,
    decreases s.len(),
{
    if pat.len() == 0 || s.len() == 0 {
        s
    } else if s.len() >= pat.len() && s.take(pat.len() as int) == pat {
        rep + replace_all(s.skip(pat.len() as int), pat, rep)
    } else {
        seq![s[0]] + replace_all(s.drop_first(), pat, rep)
    }
}

/// `{root}`
pub open spec fn root_placeholder() -> Seq<char> {
    seq!['{', 'r', 'o', 'o', 't', '}']
}

/// `<style>`
pub open spec fn style_open() -> Seq<char> {
    seq!['<', 's', 't', 'y', 'l', 'e', '>']
}

/// `</style>`
pub open spec fn style_close() -> Seq<char> {
    seq!['<', '/', 's', 't', 'y', 'l', 'e', '>']
}

/// The `<style>` block for printed CSS whose scoping selectors use `marker` in
/// place of the root id.
pub open spec fn scoped_style(css: Seq<char>, marker: Seq<char>) -> Seq<char> {
    style_open() + replace_all(escape_braces(css), marker, root_placeholder()) + style_close()
}

/// What `format!` makes of a template that uses only `{{`, `}}` and `{root}`,
/// with `root` for the named argument.
pub open spec fn format_fill(t: Seq<char>, root: Seq<char>) -> Seq<char>
    decreases t.len(),
{
    if t.len() == 0 {
        Seq::empty()
    } else if t.len() >= 2 && t[0] == '{' && t[1] == '{' {
        seq!['{'] + format_fill(t.skip(2), root)
    } else if t.len() >= 2 && t[0] == '}' && t[1] == '}' {
        seq!['}'] + format_fill(t.skip(2), root)
    } else if t.len() >= 6 && t.take(6) == root_placeholder() {
        root + format_fill(t.skip(6), root)
    } else {
        seq![t[0]] + format_fill(t.drop_first(), root)
    }
}

/// No `{` and no `}`.
pub open spec fn brace_free(s: Seq<char>) -> bool {
    !s.contains('{') && !s.contains('}')
}

// ---------------------------------------------------------------------------
// Executable code
// ---------------------------------------------------------------------------

/// Doubles every brace of `s`.
pub fn escape_format_braces(s: &str) -> (r: String)
    ensures
        r@ == escape_braces(s@),
{
    let v = chars_of(s);
    let mut r = String::new();
    let mut k: usize = 0;
    while k < v.len()
        invariant
            v@ == s@,
            k <= v@.len(),
            escape_braces(s@) == r@ + escape_braces(s@.skip(k as int)),
        decreases v.len() - k,
    {
        let c = v[k];
        assert(s@.skip(k as int).drop_first() =~= s@.skip(k + 1));
        if c == '{' {
            push_char(&mut r, '{');
            push_char(&mut r, '{');
        } else if c == '}' {
            push_char(&mut r, '}');
            push_char(&mut r, '}');
        } else {
            push_char(&mut r, c);
        }
        proof {
            let t = s@.skip(k as int);
            assert(t[0] == c);
        }
        assert(escape_braces(s@) =~= r@ + escape_braces(s@.skip(k + 1)));
        k += 1;
    }
    assert(s@.skip(v@.len() as int) =~= Seq::<char>::empty());
    r
}

/// Replaces every occurrence of `pat` in `s` by `rep`, from the left and without
/// overlaps.
pub fn replace_all_in(s: &str, pat: &str, rep: &str) -> (r: String)
    requires
        pat@.len() > 0,
    ensures
        r@ == replace_all(s@, pat@, rep@),
{
    let v = chars_of(s);
    let p = chars_of(pat);
    let rv = chars_of(rep);
    let mut r = String::new();
    let mut k: usize = 0;
    while k < v.len()
        invariant
            v@ == s@,
            p@ == pat@,
            rv@ == rep@,
            p@.len() > 0,
            k <= v@.len(),
            replace_all(s@, pat@, rep@) == r@ + replace_all(s@.skip(k as int), pat@, rep@),
        decreases v.len() - k,
    {
        let ghost t = s@.skip(k as int);
        if matches_at(&v, &p, k) {
            proof {
                assert(t.take(p@.len() as int) =~= s@.subrange(k as int, k + p@.len()));
                assert(t.skip(p@.len() as int) =~= s@.skip(k + p@.len()));
            }
            push_chars(&mut r, &rv);
            k += p.len();
        } else {
            proof {
                if t.len() >= p@.len() {
                    assert(t.take(p@.len() as int) =~= s@.subrange(k as int, k + p@.len()));
                }
                assert(t.drop_first() =~= s@.skip(k + 1));
            }
            push_char(&mut r, v[k]);
            k += 1;
        }
    }
    assert(s@.skip(v@.len() as int) =~= Seq::<char>::empty());
    r
}

/// Wraps printed CSS into the component's `<style>` block: braces are doubled
/// for `format!`, and `marker`, the stand-in id used in the scoping selectors,
/// becomes `{root}`.
pub fn scoped_style_block(css: &str, marker: &str) -> (r: String)
    requires
        marker@.len() > 0,
    ensures
        r@ == scoped_style(css@, marker@),
{
    let escaped = escape_format_braces(css);
    let root = String::from_str("{root}");
    proof {
        reveal_strlit("{root}");
    }
    assert(root@ =~= root_placeholder());
    let replaced = replace_all_in(escaped.as_str(), marker, root.as_str());
    let mut r = String::from_str("<style>");
    proof {
        reveal_strlit("<style>");
    }
    assert(r@ =~= style_open());
    r.append(replaced.as_str());
    let close = String::from_str("</style>");
    proof {
        reveal_strlit("</style>");
    }
    assert(close@ =~= style_close());
    r.append(close.as_str());
    assert(r@ =~= scoped_style(css@, marker@));
    r
}

/// Holds the stand-in id that the scoping selectors of a component's CSS use
/// where the component's root id goes.
pub struct CssTransformer {
    /// The stand-in id, replaced by `{root}` once the CSS is printed.
    pub replacement_string: String,
}

impl CssTransformer {
    /// A transformer with a fresh id as its stand-in.
    pub fn new() -> (r: Self)
        ensures
            is_fluent_id(r.replacement_string@),
    {
        CssTransformer { replacement_string: uuid() }
    }
}

/// `--name`: the CSS custom property set by a `--name="..."` attribute.
pub fn css_var_property(attribute: &str) -> (r: String)
    ensures
        r@ == seq!['-', '-'] + attribute@,
{
    let mut r = String::new();
    push_char(&mut r, '-');
    push_char(&mut r, '-');
    r.append(attribute);
    assert(r@ =~= seq!['-', '-'] + attribute@);
    r
}

// ---------------------------------------------------------------------------
// The law: rendering the style block puts the root id where the marker was
// ---------------------------------------------------------------------------

/// Dropping the first character keeps a text brace free.
proof fn lemma_brace_free_drop_first(s: Seq<char>)
    requires
        s.len() > 0,
        brace_free(s),
    ensures
        brace_free(s.drop_first()),
{
    let t = s.drop_first();
    if t.contains('{') {
        let j = choose|j: int| 0 <= j < t.len() && #[trigger] t[j] == '{';
        assert(s[j + 1] == t[j]);
        assert(s.contains('{'));
    }
    if t.contains('}') {
        let j = choose|j: int| 0 <= j < t.len() && #[trigger] t[j] == '}';
        assert(s[j + 1] == t[j]);
        assert(s.contains('}'));
    }
}

proof fn lemma_escape_brace_free(s: Seq<char>)
    requires
        brace_free(s),
    ensures
        escape_braces(s) == s,
    decreases s.len(),
{
    if s.len() > 0 {
        assert(s.contains(s[0]));
        lemma_brace_free_drop_first(s);
        lemma_escape_brace_free(s.drop_first());
        assert(seq![s[0]] + s.drop_first() =~= s);
    }
}

proof fn lemma_escape_append(a: Seq<char>, b: Seq<char>)
    ensures
        escape_braces(a + b) == escape_braces(a) + escape_braces(b),
    decreases a.len(),
{
    if a.len() == 0 {
        assert(a + b =~= b);
    } else {
        assert((a + b).drop_first() =~= a.drop_first() + b);
        lemma_escape_append(a.drop_first(), b);
        assert((a + b)[0] == a[0]);
    }
}

/// When the first `n` escaped characters hold no brace, they are the first `n`
/// characters of the text itself.
proof fn lemma_escape_prefix(s: Seq<char>, n: int)
    requires
        0 <= n <= escape_braces(s).len(),
        brace_free(escape_braces(s).take(n)),
    ensures
        n <= s.len(),
        s.take(n) == escape_braces(s).take(n),
    decreases s.len(),
{
    if n == 0 {
        assert(s.take(0) =~= escape_braces(s).take(0));
    } else {
        let e = escape_braces(s);
        if s.len() == 0 {
        } else {
            let c = s[0];
            assert(e.take(n).contains(e[0]));
            assert(e[0] == c || (c == '{' && e[0] == '{') || (c == '}' && e[0] == '}'));
            assert(c != '{' && c != '}');
            assert(e =~= seq![c] + escape_braces(s.drop_first()));
            let e2 = escape_braces(s.drop_first());
            assert(e2.take(n - 1) =~= e.take(n).drop_first());
            lemma_brace_free_drop_first(e.take(n));
            lemma_escape_prefix(s.drop_first(), n - 1);
            assert(s.take(n) =~= seq![c] + s.drop_first().take(n - 1));
        }
    }
}

proof fn lemma_fill_prefix(a: Seq<char>, b: Seq<char>, root: Seq<char>)
    requires
        brace_free(a),
    ensures
        format_fill(a + b, root) == a + format_fill(b, root),
    decreases a.len(),
{
    if a.len() == 0 {
        assert(a + b =~= b);
    } else {
        assert(a.contains(a[0]));
        assert((a + b)[0] == a[0]);
        lemma_brace_free_drop_first(a);
        assert((a + b).drop_first() =~= a.drop_first() + b);
        lemma_fill_prefix(a.drop_first(), b, root);
        if (a + b).len() >= 6 {
            assert((a + b).take(6)[0] == a[0]);
        }
        assert(seq![a[0]] + (a.drop_first() + format_fill(b, root)) =~= a + format_fill(b, root));
    }
}

/// Rendering the style block with `format!` and a root id gives the printed CSS
/// with that id wherever the marker stood, every brace kept as it was.
///
/// This holds for any marker that is not empty and holds no brace, such as the
/// ids made by [`crate::ids::uuid`].
#[verifier::spinoff_prover]
#[verifier::rlimit(40)]
pub proof fn lemma_scoped_style_renders(css: Seq<char>, marker: Seq<char>, root: Seq<char>)
    requires
        marker.len() > 0,
        brace_free(marker),
    ensures
        format_fill(replace_all(escape_braces(css), marker, root_placeholder()), root)
            == replace_all(css, marker, root),
    decreases css.len(),
{
    let e = escape_braces(css);
    if css.len() == 0 {
    } else if css.len() >= marker.len() && css.take(marker.len() as int) == marker {
        let rest = css.skip(marker.len() as int);
        assert(css =~= marker + rest);
        lemma_escape_append(marker, rest);
        lemma_escape_brace_free(marker);
        assert(e =~= marker + escape_braces(rest));
        assert(e.take(marker.len() as int) =~= marker);
        assert(e.skip(marker.len() as int) =~= escape_braces(rest));
        lemma_scoped_style_renders(rest, marker, root);
        let tail = replace_all(escape_braces(rest), marker, root_placeholder());
        assert(root_placeholder().take(6) =~= root_placeholder());
        assert((root_placeholder() + tail).take(6) =~= root_placeholder());
        assert((root_placeholder() + tail).skip(6) =~= tail);
        assert(format_fill(root_placeholder() + tail, root) == root + format_fill(tail, root));
    } else {
        let c = css[0];
        let rest = css.drop_first();
        assert(css =~= seq![c] + rest);
        assert(seq![c].drop_first() =~= Seq::<char>::empty());
        assert(escape_braces(Seq::<char>::empty()) == Seq::<char>::empty());
        lemma_escape_append(seq![c], rest);
        lemma_scoped_style_renders(rest, marker, root);
        let tail = replace_all(escape_braces(rest), marker, root_placeholder());
        assert(marker.contains(marker[0]));
        if c == '{' || c == '}' {
            let pair = if c == '{' { seq!['{', '{'] } else { seq!['}', '}'] };
            assert(escape_braces(seq![c]) =~= pair);
            assert(e =~= pair + escape_braces(rest));
            // The marker does not start with a brace, so neither position matches.
            assert(!(e.len() >= marker.len() && e.take(marker.len() as int) == marker)) by {
                if e.len() >= marker.len() && e.take(marker.len() as int) == marker {
                    assert(marker[0] == e.take(marker.len() as int)[0]);
                    assert(e[0] == c);
                    assert(marker.contains(c));
                }
            }
            assert(e.drop_first() =~= seq![c] + escape_braces(rest));
            let e1 = e.drop_first();
            assert(!(e1.len() >= marker.len() && e1.take(marker.len() as int) == marker)) by {
                if e1.len() >= marker.len() && e1.take(marker.len() as int) == marker {
                    assert(marker[0] == e1.take(marker.len() as int)[0]);
                    assert(e1[0] == c);
                    assert(marker.contains(c));
                }
            }
            assert(e1.drop_first() =~= escape_braces(rest));
            let out = seq![c] + (seq![c] + tail);
            assert(e[0] == c && e1[0] == c);
            assert(replace_all(e1, marker, root_placeholder()) == seq![c] + tail);
            assert(replace_all(e, marker, root_placeholder()) == seq![c] + replace_all(
                e1,
                marker,
                root_placeholder(),
            ));
            assert(replace_all(e, marker, root_placeholder()) == out);
            assert(out.skip(2) =~= tail);
            assert(format_fill(out, root) == seq![c] + format_fill(tail, root));
        } else {
            assert(escape_braces(seq![c]) =~= seq![c]);
            assert(e =~= seq![c] + escape_braces(rest));
            assert(!(e.len() >= marker.len() && e.take(marker.len() as int) == marker)) by {
                if e.len() >= marker.len() && e.take(marker.len() as int) == marker {
                    assert(brace_free(e.take(marker.len() as int)));
                    lemma_escape_prefix(css, marker.len() as int);
                }
            }
            assert(e.drop_first() =~= escape_braces(rest));
            let out = seq![c] + tail;
            assert(replace_all(e, marker, root_placeholder()) == out);
            lemma_fill_prefix(seq![c], tail, root);
        }
    }
}

} // verus!

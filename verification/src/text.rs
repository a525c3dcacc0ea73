//! Character-level string tools: searching, building and rewriting strings,
//! plus the top-level section finder used on `.fluent` sources.

use vstd::prelude::*;
use vstd::string::*;

verus! {

broadcast use vstd::seq_lib::group_seq_properties;

// ---------------------------------------------------------------------------
// Specifications
// ---------------------------------------------------------------------------

/// `needle` occurs in `hay` starting at index `i`.
pub open spec fn occurs_at(hay: Seq<char>, needle: Seq<char>, i: int) -> bool {
    &&& 0 <= i
    &&& i + needle.len() <= hay.len()
    &&& hay.subrange(i, i + needle.len()) == needle
}

/// The first index `>= i` at which `needle` occurs in `hay`.
pub open spec fn find_from(hay: Seq<char>, needle: Seq<char>, i: int) -> Option<int>
    decreases hay.len() + 1 - i,
{
    if i < 0 || i + needle.len() > hay.len() {
        None
    } else if occurs_at(hay, needle, i) {
        Some(i)
    } else {
        find_from(hay, needle, i + 1)
    }
}

/// The first index at which `needle` occurs in `hay` (what `str::find` reports,
/// counted in characters).
pub open spec fn find_first(hay: Seq<char>, needle: Seq<char>) -> Option<int> {
    find_from(hay, needle, 0)
}

/// `<tag>`
pub open spec fn open_tag(tag: Seq<char>) -> Seq<char> {
    seq!['<'] + tag + seq!['>']
}

/// `</tag>`
pub open spec fn close_tag(tag: Seq<char>) -> Seq<char> {
    seq!['<', '/'] + tag + seq!['>']
}

/// Start and end of the content of the first `<tag>` section: from just after the
/// first `<tag>` to the first `</tag>`.
pub open spec fn tag_region(doc: Seq<char>, tag: Seq<char>) -> Option<(int, int)> {
    match (find_first(doc, open_tag(tag)), find_first(doc, close_tag(tag))) {
        (Some(i), Some(j)) => Some((i + open_tag(tag).len(), j)),
        _ => None,
    }
}

/// The region is a real slice: the closing tag does not start before the end of
/// the opening tag.
pub open spec fn tag_region_in_order(doc: Seq<char>, tag: Seq<char>) -> bool {
    tag_region(doc, tag) matches Some((s, e)) ==> s <= e
}

/// The content of the first `<tag>` section, if both tags are present.
pub open spec fn top_level_tag_content(doc: Seq<char>, tag: Seq<char>) -> Option<Seq<char>> {
    match tag_region(doc, tag) {
        Some((s, e)) => Some(doc.subrange(s, e)),
        None => None,
    }
}

/// Every occurrence of `from` replaced by `to`.
pub open spec fn replace_char(s: Seq<char>, from: char, to: char) -> Seq<char> {
    s.map_values(|c: char| if c == from { to } else { c })
}

/// Number of occurrences of `c` in `s`.
pub open spec fn count_char(s: Seq<char>, c: char) -> nat
    decreases s.len(),
{
    if s.len() == 0 {
        0
    } else {
        count_char(s.drop_last(), c) + (if s.last() == c { 1nat } else { 0nat })
    }
}

// ---------------------------------------------------------------------------
// Lemmas about the search
// ---------------------------------------------------------------------------

/// What `find_from` answers: the least occurrence at or after `i`, or none.
pub proof fn lemma_find_from(hay: Seq<char>, needle: Seq<char>, i: int)
    requires
        0 <= i,
    ensures
        find_from(hay, needle, i) matches Some(k) ==> {
            &&& i <= k
            &&& occurs_at(hay, needle, k)
            &&& forall|j: int| i <= j < k ==> !occurs_at(hay, needle, j)
        },
        find_from(hay, needle, i) is None ==> forall|j: int| i <= j ==> !occurs_at(
            hay,
            needle,
            j,
        ),
    decreases hay.len() + 1 - i,
{
    if i + needle.len() > hay.len() {
    } else if occurs_at(hay, needle, i) {
    } else {
        lemma_find_from(hay, needle, i + 1);
    }
}

// ---------------------------------------------------------------------------
// Executable helpers
// ---------------------------------------------------------------------------

/// Appends one character (`String::push`).
#[verifier::external_body]
pub(crate) fn push_char(s: &mut String, c: char)
    ensures
        final(s)@ == old(s)@.push(c),
{
    s.push(c);
}

/// The characters of a string slice.
pub fn chars_of(s: &str) -> (v: Vec<char>)
    ensures
        v@ == s@,
{
    let mut v: Vec<char> = Vec::new();
    let n = s.unicode_len();
    let mut i: usize = 0;
    while i < n
        invariant
            n == s@.len(),
            i <= n,
            v@ == s@.take(i as int),
        decreases n - i,
    {
        let c = s.get_char(i);
        v.push(c);
        assert(v@ =~= s@.take(i + 1));
        i += 1;
    }
    assert(v@ =~= s@);
    v
}

/// Builds a string from characters.
pub fn string_from_chars(v: &[char]) -> (s: String)
    ensures
        s@ == v@,
{
    let mut s = String::new();
    let mut i: usize = 0;
    while i < v.len()
        invariant
            i <= v@.len(),
            s@ == v@.take(i as int),
        decreases v.len() - i,
    {
        push_char(&mut s, v[i]);
        assert(s@ =~= v@.take(i + 1));
        i += 1;
    }
    assert(v@.take(v@.len() as int) =~= v@);
    s
}

/// Appends characters to a string.
pub fn push_chars(s: &mut String, v: &[char])
    ensures
        final(s)@ == old(s)@ + v@,
{
    let ghost start = s@;
    let mut i: usize = 0;
    while i < v.len()
        invariant
            i <= v@.len(),
            s@ == start + v@.take(i as int),
        decreases v.len() - i,
    {
        push_char(s, v[i]);
        assert(s@ =~= start + v@.take(i + 1));
        i += 1;
    }
    assert(v@.take(v@.len() as int) =~= v@);
}

/// Does `needle` occur in `hay` at index `i`?
pub fn matches_at(hay: &[char], needle: &[char], i: usize) -> (b: bool)
    ensures
        b == occurs_at(hay@, needle@, i as int),
{
    if i > hay.len() || needle.len() > hay.len() - i {
        return false;
    }
    let mut j: usize = 0;
    while j < needle.len()
        invariant
            i + needle@.len() <= hay@.len(),
            hay@.len() <= usize::MAX,
            j <= needle@.len(),
            forall|k: int| 0 <= k < j ==> hay@[i + k] == needle@[k],
        decreases needle.len() - j,
    {
        if hay[i + j] != needle[j] {
            assert(hay@.subrange(i as int, i + needle@.len())[j as int] != needle@[j as int]);
            return false;
        }
        j += 1;
    }
    assert(hay@.subrange(i as int, i + needle@.len()) =~= needle@);
    true
}

/// The first index at which `needle` occurs in `hay`.
pub fn find_chars(hay: &[char], needle: &[char]) -> (r: Option<usize>)
    ensures
        r matches Some(k) ==> find_first(hay@, needle@) == Some(k as int),
        r is None ==> find_first(hay@, needle@) is None,
{
    if needle.len() > hay.len() {
        return None;
    }
    let limit = hay.len() - needle.len();
    let mut i: usize = 0;
    loop
        invariant
            limit == hay@.len() - needle@.len(),
            i <= limit,
            find_first(hay@, needle@) == find_from(hay@, needle@, i as int),
        decreases limit - i,
    {
        if matches_at(hay, needle, i) {
            return Some(i);
        }
        if i == limit {
            assert(find_from(hay@, needle@, i + 1) is None);
            assert(find_from(hay@, needle@, i as int) == find_from(hay@, needle@, i + 1));
            return None;
        }
        i += 1;
    }
}

/// The string with every `from` character replaced by `to`.
pub fn replace_char_in(s: &str, from: char, to: char) -> (r: String)
    ensures
        r@ == replace_char(s@, from, to),
{
    let v = chars_of(s);
    let mut r = String::new();
    let mut i: usize = 0;
    while i < v.len()
        invariant
            v@ == s@,
            i <= v@.len(),
            r@ == replace_char(s@.take(i as int), from, to),
        decreases v.len() - i,
    {
        let c = v[i];
        if c == from {
            push_char(&mut r, to);
        } else {
            push_char(&mut r, c);
        }
        assert(r@ =~= replace_char(s@.take(i + 1), from, to));
        i += 1;
    }
    assert(s@.take(v@.len() as int) =~= s@);
    r
}

// ---------------------------------------------------------------------------
// Top level sections
// ---------------------------------------------------------------------------

/// `<tag>` as a string.
pub fn open_tag_string(tag: &str) -> (r: String)
    ensures
        r@ == open_tag(tag@),
{
    let mut r = String::new();
    push_char(&mut r, '<');
    r.append(tag);
    push_char(&mut r, '>');
    assert(r@ =~= open_tag(tag@));
    r
}

/// `</tag>` as a string.
pub fn close_tag_string(tag: &str) -> (r: String)
    ensures
        r@ == close_tag(tag@),
{
    let mut r = String::new();
    push_char(&mut r, '<');
    push_char(&mut r, '/');
    r.append(tag);
    push_char(&mut r, '>');
    assert(r@ =~= close_tag(tag@));
    r
}

/// Whether [`find_top_level_tag`] may be called: the first `</tag>` does not start
/// before the end of the first `<tag>` (slicing would otherwise be out of order).
pub fn tag_region_is_ordered(document: &str, tag: &str) -> (b: bool)
    ensures
        b == tag_region_in_order(document@, tag@),
{
    let doc = chars_of(document);
    let _doc_len = doc.len();
    let open = chars_of(open_tag_string(tag).as_str());
    let close = chars_of(close_tag_string(tag).as_str());
    match (find_chars(&doc, &open), find_chars(&doc, &close)) {
        (Some(i), Some(j)) => {
            proof {
                lemma_find_from(doc@, open@, 0);
                assert(occurs_at(doc@, open@, i as int));
            }
            i + open.len() <= j
        },
        _ => true,
    }
}

/// Finds the content of a top level section such as `<data> ... </data>`.
///
/// A real HTML parser would rewrite the Rust code inside these sections, so they
/// are cut out as text: the content runs from just after the first `<tag>` to the
/// first `</tag>`. Returns `None` when either tag is missing.
pub fn find_top_level_tag<'a>(document: &'a str, tag: &str) -> (r: Option<&'a str>)
    requires
        tag_region_in_order(document@, tag@),
    ensures
        r matches Some(s) ==> top_level_tag_content(document@, tag@) == Some(s@),
        r is None ==> top_level_tag_content(document@, tag@) is None,
{
    let doc = chars_of(document);
    let _doc_len = doc.len();
    let open = chars_of(open_tag_string(tag).as_str());
    let close = chars_of(close_tag_string(tag).as_str());
    let index_first = match find_chars(&doc, &open) {
        Some(i) => i,
        None => return None,
    };
    proof {
        lemma_find_from(doc@, open@, 0);
        assert(occurs_at(doc@, open@, index_first as int));
    }
    let region_start = index_first + open.len();
    let region_end = match find_chars(&doc, &close) {
        Some(j) => j,
        None => return None,
    };
    proof {
        lemma_find_from(doc@, close@, 0);
    }
    Some(document.substring_char(region_start, region_end))
}

// ---------------------------------------------------------------------------
// The law: a section written out is found again
// ---------------------------------------------------------------------------

/// In `<tag>content</tag>`, where neither the tag nor the content holds `>`,
/// the section is in order and its content is exactly `content`. This holds for
/// the empty content too, where the closing tag starts right where the opening
/// tag ends.
pub proof fn lemma_written_section_found(tag: Seq<char>, content: Seq<char>)
    requires
        !tag.contains('>'),
        !content.contains('>'),
    ensures
        ({
            let doc = seq!['<'] + tag + seq!['>'] + content + seq!['<', '/'] + tag + seq!['>'];
            &&& tag_region_in_order(doc, tag)
            &&& top_level_tag_content(doc, tag) == Some(content)
        }),
{
    let doc = seq!['<'] + tag + seq!['>'] + content + seq!['<', '/'] + tag + seq!['>'];
    let o = open_tag(tag);
    let c = close_tag(tag);
    let l = tag.len() as int;
    let j0 = l + 2 + content.len();
    assert(doc =~= o + content + c);
    assert(doc.len() == j0 + l + 3);
    assert(occurs_at(doc, o, 0)) by {
        assert(doc.subrange(0, o.len() as int) =~= o);
    }
    assert(find_first(doc, o) == Some(0int));
    assert(occurs_at(doc, c, j0)) by {
        assert(doc.subrange(j0, j0 + c.len()) =~= c);
    }
    assert forall|j: int| 0 <= j < j0 implies !occurs_at(doc, c, j) by {
        if occurs_at(doc, c, j) {
            let p = j + l + 2;
            assert(doc.subrange(j, j + c.len())[l + 2] == c[l + 2]);
            assert(doc[p] == '>');
            if p < j0 {
                assert(doc[p] == content[p - l - 2]);
                assert(content.contains(doc[p]));
            } else {
                let q = p - j0;
                if q >= 2 {
                    assert(doc[p] == tag[q - 2]);
                    assert(tag.contains(doc[p]));
                }
            }
        }
    }
    lemma_find_from(doc, c, 0);
    match find_first(doc, c) {
        Some(k) => {
            if k > j0 {
                assert(!occurs_at(doc, c, j0));
            }
            assert(k == j0);
        },
        None => {
            assert(!occurs_at(doc, c, j0));
        },
    }
    assert(doc.subrange(l + 2, j0) =~= content);
}

} // verus!

verus! {

/// `s` begins with `p`.
pub open spec fn starts_with(s: Seq<char>, p: Seq<char>) -> bool {
    s.len() >= p.len() && s.take(p.len() as int) == p
}

/// Whether two strings hold the same characters.
pub fn same_text(a: &str, b: &str) -> (r: bool)
    ensures
        r == (a@ == b@),
{
    let va = chars_of(a);
    let vb = chars_of(b);
    if va.len() != vb.len() {
        return false;
    }
    let mut i: usize = 0;
    while i < va.len()
        invariant
            va@ == a@,
            vb@ == b@,
            va@.len() == vb@.len(),
            i <= va@.len(),
            forall|k: int| 0 <= k < i ==> va@[k] == vb@[k],
        decreases va.len() - i,
    {
        if va[i] != vb[i] {
            return false;
        }
        i += 1;
    }
    assert(va@ =~= vb@);
    true
}

/// Whether `s` begins with `p`.
pub fn text_starts_with(s: &str, p: &str) -> (r: bool)
    ensures
        r == starts_with(s@, p@),
{
    let vs = chars_of(s);
    let vp = chars_of(p);
    let r = matches_at(&vs, &vp, 0);
    proof {
        if vs@.len() >= vp@.len() {
            assert(vs@.subrange(0, vp@.len() as int) =~= vs@.take(vp@.len() as int));
        }
    }
    r
}

/// `s` without its first `n` characters.
pub fn skip_chars(s: &str, n: usize) -> (r: String)
    requires
        n <= s@.len(),
    ensures
        r@ == s@.skip(n as int),
{
    let len = s.unicode_len();
    let part = s.substring_char(n, len);
    String::from_str(part)
}

} // verus!

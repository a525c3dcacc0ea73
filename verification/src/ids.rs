//! Unique identifiers for generated elements and functions.

use vstd::prelude::*;
use vstd::string::*;
use crate::text::{replace_char, replace_char_in};

verus! {

/// `__Fluent_UUID_`
pub open spec fn fluent_id_prefix() -> Seq<char> {
    seq!['_', '_', 'F', 'l', 'u', 'e', 'n', 't', '_', 'U', 'U', 'I', 'D', '_']
}

/// A lower case hexadecimal digit.
pub open spec fn is_lower_hex(c: char) -> bool {
    ('0' <= c && c <= '9') || ('a' <= c && c <= 'f')
}

/// The hyphenated text form of a UUID: `8-4-4-4-12` lower case hex digits.
pub open spec fn is_hyphenated_uuid(s: Seq<char>) -> bool {
    &&& s.len() == 36
    &&& forall|i: int|
        0 <= i < 36 ==> if i == 8 || i == 13 || i == 18 || i == 23 {
            s[i] == '-'
        } else {
            is_lower_hex(#[trigger] s[i])
        }
}

/// The digit that carries the RFC 4122 variant: `8`, `9`, `a` or `b`.
pub open spec fn is_variant_digit(c: char) -> bool {
    c == '8' || c == '9' || c == 'a' || c == 'b'
}

/// The hyphenated text of a random (version 4) UUID: the version digit `4`
/// comes first in the third group, a variant digit first in the fourth.
pub open spec fn is_v4_uuid(s: Seq<char>) -> bool {
    &&& is_hyphenated_uuid(s)
    &&& s[14] == '4'
    &&& is_variant_digit(s[19])
}

/// An id made by the compiler: the prefix, then the text of a random UUID with
/// `_` in place of each `-`, such as
/// `__Fluent_UUID_67e55044_10b1_426f_9247_bb680e5fe0c8`.
pub open spec fn is_fluent_id(s: Seq<char>) -> bool {
    &&& s.len() == fluent_id_prefix().len() + 36
    &&& s.take(fluent_id_prefix().len() as int) == fluent_id_prefix()
    &&& forall|i: int|
        fluent_id_prefix().len() <= i < s.len() ==> if i == 22 || i == 27 || i == 32 || i == 37 {
            s[i] == '_'
        } else {
            is_lower_hex(#[trigger] s[i])
        }
    &&& s[28] == '4'
    &&& is_variant_digit(s[33])
}

/// A character allowed in a Rust identifier, a CSS class name and an HTML id.
pub open spec fn is_ident_char(c: char) -> bool {
    ('0' <= c && c <= '9') || ('a' <= c && c <= 'z') || ('A' <= c && c <= 'Z') || c == '_'
}

/// Every character can stand in an identifier.
pub open spec fn is_ident_text(s: Seq<char>) -> bool {
    forall|i: int| 0 <= i < s.len() ==> is_ident_char(#[trigger] s[i])
}

/// Text of a fresh random UUID from `uuid::Uuid::new_v4().to_string()`.
/// The `uuid` crate sets the version bits to 4 and the variant bits to RFC 4122
/// and formats the UUID in the hyphenated lower case form
/// `67e55044-10b1-426f-9247-bb680e5fe0c8`; which random digits come out is left
/// open.
#[verifier::external_body]
pub(crate) fn new_uuid_v4_text() -> (s: String)
    ensures
        is_v4_uuid(s@),
{
    uuid::Uuid::new_v4().to_string()
}

/// `__Fluent_UUID_` as a string.
fn fluent_id_prefix_string() -> (s: String)
    ensures
        s@ == fluent_id_prefix(),
{
    let s = String::from_str("__Fluent_UUID_");
    proof {
        reveal_strlit("__Fluent_UUID_");
    }
    assert(s@ =~= fluent_id_prefix());
    s
}

/// The compiler's id for a UUID text: the prefix, then the text with every `-`
/// turned into `_`, so that the id can stand in Rust identifiers.
pub fn fluent_id_from(raw: &str) -> (id: String)
    ensures
        id@ == fluent_id_prefix() + replace_char(raw@, '-', '_'),
{
    let mut id = fluent_id_prefix_string();
    let tail = replace_char_in(raw, '-', '_');
    id.append(tail.as_str());
    id
}

/// The runtime's id for a UUID text: the prefix, then the text unchanged.
pub fn runtime_id_from(raw: &str) -> (id: String)
    ensures
        id@ == fluent_id_prefix() + raw@,
{
    let mut id = fluent_id_prefix_string();
    id.append(raw);
    id
}

/// A fresh id for elements and generated functions, such as
/// `__Fluent_UUID_67e55044_10b1_426f_9247_bb680e5fe0c8`.
pub fn uuid() -> (id: String)
    ensures
        is_fluent_id(id@),
{
    let raw = new_uuid_v4_text();
    let id = fluent_id_from(raw.as_str());
    proof {
        let p = fluent_id_prefix();
        assert(id@.take(p.len() as int) =~= p);
        assert forall|i: int| p.len() <= i < id@.len() implies if i == 22 || i == 27 || i == 32
            || i == 37 {
            id@[i] == '_'
        } else {
            is_lower_hex(#[trigger] id@[i])
        } by {
            assert(id@[i] == replace_char(raw@, '-', '_')[i - p.len()]);
            assert(0 <= i - p.len() < 36);
            assert(raw@[i - p.len()] == '-' || is_lower_hex(raw@[i - p.len()]));
        }
        assert(id@[28] == replace_char(raw@, '-', '_')[14]);
        assert(id@[33] == replace_char(raw@, '-', '_')[19]);
    }
    id
}

/// Compiler ids can stand in Rust identifiers, CSS class names and HTML ids:
/// they hold only ASCII letters, digits and `_`.
pub proof fn lemma_fluent_id_is_ident(s: Seq<char>)
    requires
        is_fluent_id(s),
    ensures
        is_ident_text(s),
{
    let p = fluent_id_prefix();
    assert forall|i: int| 0 <= i < s.len() implies is_ident_char(#[trigger] s[i]) by {
        if i < p.len() {
            assert(s[i] == s.take(p.len() as int)[i]);
        } else {
            assert(is_lower_hex(s[i]) || s[i] == '_');
        }
    }
}

/// Compiler ids are never empty and never contain `-`, `{`, `}` or spaces.
pub proof fn lemma_fluent_id_has_no_braces(s: Seq<char>)
    requires
        is_fluent_id(s),
    ensures
        s.len() > 0,
        !s.contains('{'),
        !s.contains('}'),
        !s.contains('-'),
        !s.contains(' '),
{
    lemma_fluent_id_is_ident(s);
}

} // verus!

//! JSON text of flat objects whose values are strings, as stored history
//! entries hold them.
use vstd::prelude::*;

use crate::text::text_less;

verus! {

/// The lower-case hexadecimal digit of `n` (below sixteen).
pub open spec fn hex_digit(n: int) -> char {
    "0123456789abcdef"@[n]
}

/// How one character is written inside a JSON string: `"` and `\` behind a
/// backslash, backspace, tab, line feed, form feed and carriage return by
/// their short escapes, every other character below U+0020 as `\u00` and
/// two lower-case hexadecimal digits, and any other character as itself.
pub open spec fn json_escape(c: char) -> Seq<char> {
    if c == '"' {
        seq!['\\', '"']
    } else if c == '\\' {
        seq!['\\', '\\']
    } else if c == '\u{8}' {
        seq!['\\', 'b']
    } else if c == '\t' {
        seq!['\\', 't']
    } else if c == '\n' {
        seq!['\\', 'n']
    } else if c == '\u{c}' {
        seq!['\\', 'f']
    } else if c == '\r' {
        seq!['\\', 'r']
    } else if (c as u32) < 0x20 {
        seq!['\\', 'u', '0', '0', hex_digit((c as int) / 16), hex_digit((c as int) % 16)]
    } else {
        seq![c]
    }
}

/// The characters of `s`, each written as `json_escape` writes it.
pub open spec fn json_chars(s: Seq<char>) -> Seq<char>
    decreases s.len(),
{
    if s.len() == 0 {
        Seq::empty()
    } else {
        json_chars(s.drop_last()) + json_escape(s.last())
    }
}

/// `s` as a JSON string: between double quotes, escaped.
pub open spec fn json_string(s: Seq<char>) -> Seq<char> {
    seq!['"'] + json_chars(s) + seq!['"']
}

/// One member of a JSON object: the key, a colon and the value.
pub open spec fn json_member(key: Seq<char>, value: Seq<char>) -> Seq<char> {
    json_string(key) + ":"@ + json_string(value)
}

/// The compact JSON text of an object with four string members, in the
/// order given.
pub open spec fn json_object4(
    k0: Seq<char>,
    v0: Seq<char>,
    k1: Seq<char>,
    v1: Seq<char>,
    k2: Seq<char>,
    v2: Seq<char>,
    k3: Seq<char>,
    v3: Seq<char>,
) -> Seq<char> {
    "{"@ + json_member(k0, v0) + ","@ + json_member(k1, v1) + ","@ + json_member(k2, v2) + ","@
        + json_member(k3, v3) + "}"@
}

/// `serde_json::to_string` of a `BTreeMap<&str, &str>` made of four pairs.
/// The map walks its keys in increasing order, byte by byte, which for
/// UTF-8 text is the order of `text_less`; with the keys given already in
/// that order, serde_json's compact writer puts out `{`, the members
/// separated by `,`, each as a quoted, escaped key, `:` and a quoted,
/// escaped value, and `}`. Writing strings into a `Vec` does not fail, so
/// the empty fallback is never taken.
#[verifier::external_body]
fn encode_object4(
    k0: &str,
    v0: &str,
    k1: &str,
    v1: &str,
    k2: &str,
    v2: &str,
    k3: &str,
    v3: &str,
) -> (r: String)
    requires
        text_less(k0@, k1@),
        text_less(k1@, k2@),
        text_less(k2@, k3@),
    ensures
        r@ == json_object4(k0@, v0@, k1@, v1@, k2@, v2@, k3@, v3@),
{
    serde_json::to_string(&std::collections::BTreeMap::from([(k0, v0), (k1, v1), (k2, v2), (k3, v3)]))
        .unwrap_or_default()
}

/// The JSON text of a history entry: its four members in the order of
/// their keys.
pub open spec fn history_json(
    timestamp: Seq<char>,
    from_status: Seq<char>,
    to_status: Seq<char>,
    note: Seq<char>,
) -> Seq<char> {
    json_object4(
        "from_status"@,
        from_status,
        "note"@,
        note,
        "timestamp"@,
        timestamp,
        "to_status"@,
        to_status,
    )
}

/// Writes a history entry as JSON (see `history_json`).
pub fn encode_history(timestamp: &str, from_status: &str, to_status: &str, note: &str) -> (r: String)
    ensures
        r@ == history_json(timestamp@, from_status@, to_status@, note@),
{
    proof {
        reveal_strlit("from_status");
        reveal_strlit("note");
        reveal_strlit("timestamp");
        reveal_strlit("to_status");
        assert(text_less("from_status"@, "note"@));
        assert(text_less("note"@, "timestamp"@));
        assert(text_less("timestamp"@, "to_status"@)) by {
            reveal_strlit("imestamp");
            reveal_strlit("o_status");
            assert("timestamp"@.drop_first() =~= "imestamp"@);
            assert("to_status"@.drop_first() =~= "o_status"@);
            assert(text_less("imestamp"@, "o_status"@));
        }
    }
    encode_object4("from_status", from_status, "note", note, "timestamp", timestamp, "to_status", to_status)
}

} // verus!

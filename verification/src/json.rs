//! JSON texts.

use vstd::prelude::*;

verus! {

/// The JSON list of some texts.
pub uninterp spec fn texts_json(list: Seq<Seq<char>>) -> Seq<char>;

/// The texts of a JSON list; none where the text is no JSON list of strings.
pub uninterp spec fn json_texts(json: Seq<char>) -> Option<Seq<Seq<char>>>;

/// A JSON text without insignificant whitespace; none where it is no JSON.
pub uninterp spec fn compact_json(text: Seq<char>) -> Option<Seq<char>>;

/// Whether a JSON text is plain from a position on: outside of strings there is
/// no point and no `e` behind a digit, so that no number has a fraction or an
/// exponent, and lists and objects are nested at most 127 deep. `quoted` tells
/// whether the position is in a string, `depth` how deep it is.
pub open spec fn plain_from(text: Seq<char>, i: nat, quoted: bool, depth: int) -> bool
    decreases text.len() + 1 - i,
{
    if i >= text.len() {
        true
    } else {
        let c = text[i as int];
        if quoted {
            if c == '\\' {
                plain_from(text, i + 2, true, depth)
            } else {
                plain_from(text, i + 1, c != '"', depth)
            }
        } else if c == '.' || (c == 'e' && i > 0 && '0' <= text[i - 1] <= '9') {
            false
        } else if c == '[' || c == '{' {
            depth < 127 && plain_from(text, i + 1, false, depth + 1)
        } else if c == ']' || c == '}' {
            plain_from(text, i + 1, false, depth - 1)
        } else {
            plain_from(text, i + 1, c == '"', depth)
        }
    }
}

/// Whether a JSON text has an object at a position whose first name is one that
/// `serde_json` reserves for itself.
pub open spec fn reserved_at(text: Seq<char>, i: int) -> bool {
    let start = "{\"$serde_json::private::"@;
    0 <= i && i + start.len() <= text.len() && text.subrange(i, i + start.len()) == start
}

/// Whether a JSON text is plain: without fractions and exponents, not nested too
/// deep, and without reserved names.
pub open spec fn plain_json(text: Seq<char>) -> bool {
    plain_from(text, 0, false, 0) && forall|i: int| !#[trigger] reserved_at(text, i)
}

/// Whether a compact JSON text stays as it is when it is read again, where it is
/// plain.
pub open spec fn stays_compact(json: Option<Seq<char>>) -> bool {
    json matches Some(c) ==> (plain_json(c) ==> compact_json(c) == Some(c))
}

/// Calls `serde_json::to_string` on a list of texts, which does not fail.
/// Reading the result gives the list back.
#[verifier::external_body]
pub(crate) fn write_texts(list: &Vec<String>) -> (r: String)
    ensures
        r@ == texts_json(list.deep_view()),
        json_texts(r@) == Some(list.deep_view()),
{
    serde_json::to_string(list).unwrap_or_default()
}

/// Calls `serde_json::from_str` for a list of texts; none where it fails.
#[verifier::external_body]
pub(crate) fn read_texts(json: &str) -> (r: Option<Vec<String>>)
    ensures
        r.deep_view() == json_texts(json@),
{
    serde_json::from_str::<Vec<String>>(json).ok()
}

/// Calls `serde_json::from_str` for a `serde_json::Value` and writes the value
/// by `Value::to_string`; none where the text is no JSON. A plain result reads
/// back as itself: strings, whole numbers and the rest are written as what they
/// are read from. Of other results this is not claimed: numbers with a fraction
/// are read with a rounding error, what is nested deeper is not read at all, and
/// an object whose first name is reserved is read as something else.
#[verifier::external_body]
pub(crate) fn compact(text: &str) -> (r: Option<String>)
    ensures
        r.deep_view() == compact_json(text@),
        stays_compact(r.deep_view()),
{
    match serde_json::from_str::<serde_json::Value>(text) {
        Ok(value) => Some(value.to_string()),
        Err(_) => None,
    }
}

/// A text as a JSON string.
pub uninterp spec fn text_json(text: Seq<char>) -> Seq<char>;

/// Calls `serde_json::to_string` on a text, which does not fail.
#[verifier::external_body]
pub(crate) fn write_text(text: &str) -> (r: String)
    ensures
        r@ == text_json(text@),
{
    serde_json::to_string(text).unwrap_or_default()
}

/// The texts that a column holds: none at all where it is no JSON list.
pub open spec fn column_texts(json: Seq<char>) -> Seq<Seq<char>> {
    match json_texts(json) {
        Some(list) => list,
        None => Seq::empty(),
    }
}

/// The texts that were read, or none at all.
pub fn texts_or_none(read: Option<Vec<String>>) -> (r: Vec<String>)
    ensures
        r.deep_view() == (match read.deep_view() {
            Some(list) => list,
            None => Seq::<Seq<char>>::empty(),
        }),
{
    match read {
        Some(list) => list,
        None => {
            let none: Vec<String> = Vec::new();
            assert(none.deep_view() =~= Seq::empty());
            none
        },
    }
}

/// Reads the texts of a column.
pub fn column_list(json: &str) -> (r: Vec<String>)
    ensures
        r.deep_view() == column_texts(json@),
{
    texts_or_none(read_texts(json))
}

/// A JSON text in compact form; `{}` where it is no JSON.
pub open spec fn json_or_empty(text: Seq<char>) -> Seq<char> {
    match compact_json(text) {
        Some(json) => json,
        None => "{}"@,
    }
}

/// The JSON text that was read, or `{}`.
pub fn json_or_braces(read: Option<String>) -> (r: String)
    ensures
        r@ == (match read.deep_view() {
            Some(json) => json,
            None => "{}"@,
        }),
{
    match read {
        Some(json) => json,
        None => "{}".to_owned(),
    }
}

/// Brings a JSON text into compact form, and what is no JSON to `{}`.
pub fn normalise(text: &str) -> (r: String)
    ensures
        r@ == json_or_empty(text@),
        stays_compact(compact_json(text@)),
{
    json_or_braces(compact(text))
}

// --- What the calls do ---

/// The texts of a column are those of its JSON list, and none where it is none; what was
/// read is taken as it is.
pub proof fn columns_hold_the_texts_of_their_lists(
    json: &str,
    list: Vec<String>,
    read: Option<Vec<String>>,
    texts: Vec<String>,
)
    requires
        call_ensures(column_list, (json,), list),
        call_ensures(texts_or_none, (read,), texts),
    ensures
        json_texts(json@) matches Some(l) ==> list.deep_view() == l,
        json_texts(json@) is None ==> list@.len() == 0,
        read matches Some(l) ==> texts.deep_view() == l.deep_view(),
        read is None ==> texts@.len() == 0,
{
    assert(list.deep_view().len() == list@.len());
    assert(texts.deep_view().len() == texts@.len());
}

/// A JSON text is brought into compact form, and what is none becomes an empty object.
pub proof fn texts_are_brought_into_compact_form(
    text: &str,
    r: String,
    read: Option<String>,
    q: String,
)
    requires
        call_ensures(normalise, (text,), r),
        call_ensures(json_or_braces, (read,), q),
    ensures
        compact_json(text@) matches Some(json) ==> r@ == json,
        compact_json(text@) is None ==> r@ == "{}"@,
        read matches Some(json) ==> q@ == json@,
        read is None ==> q@ == "{}"@,
{
}

} // verus!

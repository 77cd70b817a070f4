//! HTTP header maps: what `hyper::header::HeaderMap` holds, and the few operations used on it.

use hyper::header::{HeaderMap, HeaderValue};
use vstd::prelude::*;
use vstd::string::*;

verus! {

/// The header map of `hyper`.
#[verifier::external_type_specification]
#[verifier::external_body]
#[verifier::reject_recursive_types(T)]
pub struct ExHeaderMap<T>(hyper::header::HeaderMap<T>);

/// The value of a header, in bytes.
#[verifier::external_type_specification]
#[verifier::external_body]
pub struct ExHeaderValue(hyper::header::HeaderValue);

/// The values of a header map, by name.
pub type HeaderValues = Map<Seq<char>, Seq<Seq<u8>>>;

/// What a header map holds: for each name, in lowercase, its values in the order they were added.
pub uninterp spec fn header_values(headers: HeaderMap) -> Map<Seq<char>, Seq<Seq<u8>>>;

/// The number of names in a header map.
pub uninterp spec fn header_count(headers: HeaderMap) -> nat;

/// Whether `c` may stand in a header name.
pub open spec fn name_char(c: char) -> bool {
    ||| 'a' <= c <= 'z'
    ||| 'A' <= c <= 'Z'
    ||| '0' <= c <= '9'
    ||| c == '!' || c == '#' || c == '$' || c == '%' || c == '&' || c == '\''
    ||| c == '*' || c == '+' || c == '-' || c == '.' || c == '^' || c == '_'
    ||| c == '`' || c == '|' || c == '~'
}

/// The header name that a text stands for: the text in lowercase, if it is a name at all.
pub open spec fn header_name(text: Seq<char>) -> Option<Seq<char>> {
    if 1 <= text.len() <= 65535 && forall|i: int|
        0 <= i < text.len() ==> name_char(#[trigger] text[i]) {
        Some(crate::text::ascii_lowercase(text))
    } else {
        None
    }
}

/// Whether a text is a header name in lowercase.
pub open spec fn lowercase_name(text: Seq<char>) -> bool {
    header_name(text) == Some(text)
}

/// Whether a byte shows as ASCII text.
pub open spec fn visible_byte(b: u8) -> bool {
    32 <= b < 127 || b == 9
}

/// A value as text, where every byte of it is visible ASCII.
pub open spec fn value_str(value: Seq<u8>) -> Option<Seq<char>> {
    if forall|i: int| 0 <= i < value.len() ==> visible_byte(#[trigger] value[i]) {
        Some(value.map_values(|b: u8| b as char))
    } else {
        None
    }
}

/// The first value of a header as text, where there is one and every byte of it is visible ASCII.
pub open spec fn header_str(values: HeaderValues, name: Seq<char>) -> Option<Seq<char>> {
    if values.contains_key(name) {
        value_str(values[name][0])
    } else {
        None
    }
}

/// Whether a text can be a header's value: no control character but the tab stands in it.
pub open spec fn header_value_text(text: Seq<char>) -> bool {
    forall|i: int|
        0 <= i < text.len() ==> {
            let c = #[trigger] text[i] as u32;
            (c >= 32 && c != 127) || c == 9
        }
}

/// Names that a map may hold for one more insertion to find room. The map keeps at most 32768 slots,
/// and with fewer names than a fifth of them an insertion never asks for more.
pub const INSERT_ROOM: usize = 6553;

/// What came of setting a header.
#[derive(Debug, Clone, Copy, PartialEq, Eq, Structural)]
pub enum Placed {
    /// The header has the value.
    Done,
    /// The text cannot be a header's value.
    NotValue,
    /// The map has no room for more names.
    Full,
}

/// `HeaderMap::new`: a map without headers.
#[verifier::external_body]
pub(crate) fn no_headers() -> (r: HeaderMap)
    ensures
        header_values(r) == HeaderValues::empty(),
        header_count(r) == 0,
{
    HeaderMap::new()
}

/// `HeaderMap::get`, then `HeaderValue::to_str`: the first value under a name, if there is one and
/// it is visible ASCII. Any other outcome is `None`.
#[verifier::external_body]
pub(crate) fn header_text(headers: &HeaderMap, name: &str) -> (r: Option<String>)
    requires
        lowercase_name(name@),
    ensures
        match r {
            Some(text) => header_str(header_values(*headers), name@) == Some(text@),
            None => header_str(header_values(*headers), name@) is None,
        },
{
    headers.get(name)?.to_str().ok().map(str::to_owned)
}

/// `HeaderMap::get_all`, then `HeaderValue::to_str` on each value: the values under a name in their
/// order, each as text if it is visible ASCII and `None` if it is not.
#[verifier::external_body]
pub(crate) fn header_texts(headers: &HeaderMap, name: &str) -> (r: Vec<Option<String>>)
    requires
        lowercase_name(name@),
    ensures
        r@.len() == (if header_values(*headers).contains_key(name@) {
            header_values(*headers)[name@].len()
        } else {
            0
        }),
        forall|i: int|
            0 <= i < r@.len() ==> crate::text::optional_text(#[trigger] r@[i]) == value_str(
                header_values(*headers)[name@][i],
            ),
{
    headers.get_all(name).iter().map(|value| value.to_str().ok().map(str::to_owned)).collect()
}

/// `HeaderMap::contains_key`: whether a value stands under a name.
#[verifier::external_body]
pub(crate) fn has_header(headers: &HeaderMap, name: &str) -> (r: bool)
    requires
        lowercase_name(name@),
    ensures
        r == header_values(*headers).contains_key(name@),
{
    headers.contains_key(name)
}

/// `HeaderMap::remove`: takes out every value under the name that a text stands for, and nothing
/// where it stands for none.
#[verifier::external_body]
pub(crate) fn remove_header(headers: &mut HeaderMap, name: &str)
    ensures
        header_values(*final(headers)) == (match header_name(name@) {
            Some(key) => header_values(*old(headers)).remove(key),
            None => header_values(*old(headers)),
        }),
        header_count(*final(headers)) <= header_count(*old(headers)),
{
    headers.remove(name);
}

/// `HeaderValue::from_str`, then `HeaderMap::try_insert`: makes a text the only value under a name.
/// Where the text cannot be a value, or the map is full, the map holds what it held. How many names
/// a map takes beyond `INSERT_ROOM` depends on how they hash, and is left open.
#[verifier::external_body]
pub(crate) fn set_header(headers: &mut HeaderMap, name: &'static str, value: &str) -> (r: Placed)
    requires
        lowercase_name(name@),
    ensures
        r is NotValue <==> !header_value_text(value@),
        r is Full ==> header_count(*old(headers)) > INSERT_ROOM,
        header_values(*final(headers)) == (if r is Done {
            header_values(*old(headers)).insert(name@, seq![value.spec_bytes()])
        } else {
            header_values(*old(headers))
        }),
        header_count(*final(headers)) <= header_count(*old(headers)) + (if r is Done {
            1int
        } else {
            0int
        }),
{
    match HeaderValue::from_str(value) {
        Ok(value) => match headers.try_insert(name, value) {
            Ok(_) => Placed::Done,
            Err(_) => Placed::Full,
        },
        Err(_) => Placed::NotValue,
    }
}

/// A text of small letters and hyphens is a header name in lowercase.
pub proof fn lemma_lowercase_name(text: Seq<char>)
    requires
        1 <= text.len() <= 65535,
        forall|i: int|
            0 <= i < text.len() ==> 'a' <= #[trigger] text[i] <= 'z' || text[i] == '-',
    ensures
        lowercase_name(text),
{
    assert(crate::text::ascii_lowercase(text) =~= text);
}

}

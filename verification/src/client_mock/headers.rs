//! Response headers, kept in the header map of the `http` crate.

use http::{HeaderMap, HeaderName, HeaderValue};
use vstd::prelude::*;
use vstd::utf8::encode_utf8;

verus! {

/// `bytes::Bytes`, the bytes of an encoded message.
#[verifier::external_type_specification]
#[verifier::external_body]
pub struct ExBytes(bytes::Bytes);

/// `http::HeaderMap`, which holds the headers of a response.
#[verifier::external_type_specification]
#[verifier::external_body]
#[verifier::reject_recursive_types(T)]
pub struct ExHeaderMap<T>(http::HeaderMap<T>);

/// `http::HeaderValue`, the value of one header.
#[verifier::external_type_specification]
#[verifier::external_body]
pub struct ExHeaderValue(http::HeaderValue);

/// What a header map holds: for each header name, in lower case, its values in the order in
/// which they were added.
pub uninterp spec fn header_contents(headers: HeaderMap) -> Map<Seq<char>, Seq<Seq<u8>>>;

/// The contents of a header map that nothing was added to.
pub open spec fn no_headers() -> Map<Seq<char>, Seq<Seq<u8>>> {
    Map::empty()
}

/// The number of header names that a header map takes whatever the names are. Past it, an
/// insertion can panic: the map gives up when its table, at its largest, is a fifth full and
/// the names collide.
pub const MAX_HEADER_NAMES: usize = 6553;

/// The characters of a header name: those of an HTTP token.
pub open spec fn is_token_char(c: char) -> bool {
    ||| '0' <= c <= '9'
    ||| 'A' <= c <= 'Z'
    ||| '^' <= c <= 'z'
    ||| c == '!'
    ||| '#' <= c <= '\''
    ||| c == '*'
    ||| c == '+'
    ||| c == '-'
    ||| c == '.'
    ||| c == '|'
    ||| c == '~'
}

/// A header name is a token of at most 65535 characters.
pub open spec fn valid_header_name(name: Seq<char>) -> bool {
    &&& 1 <= name.len() <= 65535
    &&& forall|i: int| 0 <= i < name.len() ==> is_token_char(#[trigger] name[i])
}

/// A character of a header name in lower case.
pub open spec fn lower_char(c: char) -> char {
    if 'A' <= c <= 'Z' {
        (c as u8 + 32) as char
    } else {
        c
    }
}

/// A header name in lower case, the form in which a header map keeps it.
pub open spec fn lower_name(name: Seq<char>) -> Seq<char> {
    Seq::new(name.len(), |i: int| lower_char(name[i]))
}

/// The bytes that a header value can hold: all but the control characters, with the tab.
pub open spec fn is_value_byte(b: u8) -> bool {
    b == 9 || (32 <= b && b != 127)
}

pub open spec fn valid_header_value(value: Seq<u8>) -> bool {
    forall|i: int| 0 <= i < value.len() ==> is_value_byte(#[trigger] value[i])
}

/// The bytes of a header value that reads as text: visible ASCII, the space and the tab.
pub open spec fn is_text_byte(b: u8) -> bool {
    b == 9 || 32 <= b < 127
}

pub open spec fn is_header_text(value: Seq<u8>) -> bool {
    forall|i: int| 0 <= i < value.len() ==> is_text_byte(#[trigger] value[i])
}

/// ASCII bytes as characters.
pub open spec fn ascii_chars(value: Seq<u8>) -> Seq<char> {
    Seq::new(value.len(), |i: int| value[i] as char)
}

/// Calls `HeaderMap::new`. The new map holds nothing.
#[verifier::external_body]
pub(crate) fn empty_headers() -> (headers: HeaderMap)
    ensures
        header_contents(headers) == no_headers(),
{
    HeaderMap::new()
}

/// Calls `HeaderValue::from_str`. It takes a text whose UTF-8 bytes may all stand in a header
/// value, beyond ASCII too, and keeps those bytes; it refuses every other text.
#[verifier::external_body]
pub(crate) fn parse_header_value(text: &str) -> (value: Option<Vec<u8>>)
    ensures
        value is Some <==> valid_header_value(encode_utf8(text@)),
        value matches Some(v) ==> v@ == encode_utf8(text@),
{
    match HeaderValue::from_str(text) {
        Ok(value) => Some(value.as_bytes().to_vec()),
        Err(_) => None,
    }
}

/// Calls `str::parse` for `HeaderName`. It takes the valid header names and turns them into
/// lower case; it refuses every other text.
#[verifier::external_body]
pub(crate) fn parse_header_name(text: &str) -> (name: Option<String>)
    ensures
        name is Some <==> valid_header_name(text@),
        name matches Some(n) ==> n@ == lower_name(text@),
{
    match text.parse::<HeaderName>() {
        Ok(name) => Some(name.as_str().to_string()),
        Err(_) => None,
    }
}

/// Calls `HeaderMap::insert`. The value takes the place of all values that the map held under
/// the name; the other names keep theirs. The number of names is bounded because the map
/// panics when it cannot grow.
#[verifier::external_body]
pub(crate) fn insert_header(headers: &mut HeaderMap, name: &str, value: &[u8])
    requires
        valid_header_name(name@),
        lower_name(name@) == name@,
        valid_header_value(value@),
        header_contents(*old(headers)).dom().finite(),
        header_contents(*old(headers)).dom().len() <= MAX_HEADER_NAMES,
    ensures
        header_contents(*final(headers)) == header_contents(*old(headers)).insert(
            name@,
            seq![value@],
        ),
{
    let name = HeaderName::from_bytes(name.as_bytes()).unwrap();
    let value = HeaderValue::from_bytes(value).unwrap();
    headers.insert(name, value);
}

/// Calls `HeaderMap::get`. Of the values under a name it gives the first.
#[verifier::external_body]
pub(crate) fn get_header(headers: &HeaderMap, name: &str) -> (value: Option<Vec<u8>>)
    requires
        valid_header_name(name@),
    ensures
        value is Some <==> header_contents(*headers).contains_key(lower_name(name@)),
        value matches Some(v) ==> v@ == header_contents(*headers)[lower_name(name@)][0],
{
    match headers.get(name) {
        Some(value) => Some(value.as_bytes().to_vec()),
        None => None,
    }
}

/// Calls `HeaderValue::to_str`. It reads a value of visible ASCII characters as text; it
/// refuses every other value.
#[verifier::external_body]
pub(crate) fn header_text(value: &[u8]) -> (text: Option<String>)
    ensures
        text is Some <==> is_header_text(value@),
        text matches Some(t) ==> t@ == ascii_chars(value@),
{
    match HeaderValue::from_bytes(value) {
        Ok(value) => match value.to_str() {
            Ok(text) => Some(text.to_string()),
            Err(_) => None,
        },
        Err(_) => None,
    }
}

/// A text may stand in a header value if and only if none of its bytes is a control character
/// other than the tab.
pub proof fn law_header_value_has_no_control_bytes(value: Seq<u8>)
    ensures
        valid_header_value(value) <==> forall|i: int|
            0 <= i < value.len() ==> #[trigger] value[i] == 9 || (value[i] >= 32 && value[i]
                != 127),
{
}

/// A header value reads as text if and only if all its bytes are visible ASCII characters,
/// spaces or tabs.
pub proof fn law_header_text_is_visible_ascii(value: Seq<u8>)
    ensures
        is_header_text(value) <==> forall|i: int|
            0 <= i < value.len() ==> #[trigger] value[i] == 9 || 32 <= value[i] <= 126,
        ascii_chars(value).len() == value.len(),
        forall|i: int|
            0 <= i < value.len() ==> (#[trigger] ascii_chars(value)[i]) as int == value[i],
{
}

/// A header name is made of ASCII letters, digits and some marks, at least one and at most
/// 65535 of them.
pub proof fn law_header_name_is_token(name: Seq<char>)
    ensures
        valid_header_name(name) <==> 0 < name.len() < 65536 && forall|i: int|
            0 <= i < name.len() ==> 'a' <= #[trigger] name[i] <= 'z' || 'A' <= name[i] <= 'Z' || '0'
                <= name[i] <= '9' || name[i] == '!' || name[i] == '#' || name[i] == '$' || name[i]
                == '%' || name[i] == '&' || name[i] == '\'' || name[i] == '*' || name[i] == '+'
                || name[i] == '-' || name[i] == '.' || name[i] == '^' || name[i] == '_' || name[i]
                == '`' || name[i] == '|' || name[i] == '~',
{
    if valid_header_name(name) {
        assert forall|i: int| 0 <= i < name.len() implies is_token_char(#[trigger] name[i]) by {}
    }
}

/// The lower case of a header name has lower case letters in the place of its capitals, and is
/// the name otherwise.
pub proof fn law_lower_name_changes_capitals_only(name: Seq<char>, i: int)
    requires
        0 <= i < name.len(),
    ensures
        lower_name(name).len() == name.len(),
        'A' <= name[i] <= 'Z' ==> lower_name(name)[i] as int == name[i] as int + 32,
        !('A' <= name[i] <= 'Z') ==> lower_name(name)[i] == name[i],
{
}

} // verus!

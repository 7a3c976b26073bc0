//! Response definitions, and the headers that they are rendered to.

use super::decimal::{format_u64, parse_u64};
use super::headers::{
    empty_headers, get_header, header_text, insert_header, parse_header_name, parse_header_value,
    MAX_HEADER_NAMES,
};
use super::status::MockStatus;
use bytes::Bytes;
use http::HeaderMap;
use vstd::prelude::*;

verus! {

use super::decimal::{decimal, is_digit, law_only_digits_are_read, law_parse_undoes_format,
    lemma_decimal_digits, parsed_u64};
use super::headers::{ascii_chars, header_contents, is_header_text, is_text_byte, is_token_char,
    lower_name, no_headers, valid_header_name, valid_header_value};
use super::status::StatusView;
use vstd::utf8::{char_is_scalar, encode_scalar, encode_utf8, is_ascii_chars, is_ascii_chars_encode_utf8,
    last_continuation_byte};

/// The header that carries the delay of a response, in milliseconds.
pub open spec fn delay_header() -> Seq<char> {
    "mock-delay-ms"@
}

/// The headers of a response with the given metadata. The pairs are inserted one after the
/// other: the last value under a name stays, and a pair whose value cannot stand in a header
/// is left out.
pub open spec fn rendered_pairs(pairs: Seq<(Seq<char>, Seq<char>)>) -> Map<
    Seq<char>,
    Seq<Seq<u8>>,
>
    decreases pairs.len(),
{
    if pairs.len() == 0 {
        no_headers()
    } else {
        let earlier = rendered_pairs(pairs.drop_last());
        let value = encode_utf8(pairs.last().1);
        if valid_header_value(value) {
            earlier.insert(lower_name(pairs.last().0), seq![value])
        } else {
            earlier
        }
    }
}

/// The headers of a response with the given metadata and delay.
pub open spec fn rendered_headers(
    pairs: Seq<(Seq<char>, Seq<char>)>,
    delay_ms: Option<u64>,
) -> Map<Seq<char>, Seq<Seq<u8>>> {
    match delay_ms {
        Some(delay) => rendered_pairs(pairs).insert(
            delay_header(),
            seq![encode_utf8(decimal(delay as nat))],
        ),
        None => rendered_pairs(pairs),
    }
}

/// Whether the keys of all pairs that become headers are header names.
pub open spec fn valid_keys(pairs: Seq<(Seq<char>, Seq<char>)>) -> bool {
    forall|i: int|
        0 <= i < pairs.len() && valid_header_value(encode_utf8((#[trigger] pairs[i]).1))
            ==> valid_header_name(pairs[i].0)
}

/// The delay that headers ask for: the number in the delay header, if it holds one that is
/// not zero.
pub open spec fn requested_delay(headers: Map<Seq<char>, Seq<Seq<u8>>>) -> Option<u64> {
    let value = headers[delay_header()][0];
    if headers.contains_key(delay_header()) && is_header_text(value) {
        match parsed_u64(ascii_chars(value)) {
            Some(delay) if delay > 0 => Some(delay),
            _ => None,
        }
    } else {
        None
    }
}

/// What a handler answers: the encoded response with its headers, or an error status.
pub type ReplyView = Result<(Bytes, Map<Seq<char>, Seq<Seq<u8>>>), StatusView>;

/// What an answer says.
pub open spec fn reply_view(reply: Result<(Bytes, HeaderMap), MockStatus>) -> ReplyView {
    match reply {
        Ok((bytes, headers)) => Ok((bytes, header_contents(headers))),
        Err(status) => Err(status@),
    }
}

/// Predefined response for a mock gRPC service
pub struct MockResponseDefinition<Resp> {
    /// The response to return
    pub response: Option<Resp>,
    /// Status to return (if error)
    pub status: Option<MockStatus>,
    /// Additional metadata as key-value pairs
    pub metadata_pairs: Vec<(String, String)>,
    /// Delay before responding (simulates network latency)
    pub delay_ms: Option<u64>,
}

impl<Resp> MockResponseDefinition<Resp> {
    /// The metadata of the response, in the order in which it was added.
    pub open spec fn metadata(self) -> Seq<(Seq<char>, Seq<char>)> {
        self.metadata_pairs@.map_values(|pair: (String, String)| (pair.0@, pair.1@))
    }

    /// The headers of the response.
    pub open spec fn rendered(self) -> Map<Seq<char>, Seq<Seq<u8>>> {
        rendered_headers(self.metadata(), self.delay_ms)
    }

    /// Whether the metadata and the delay can be made into headers.
    pub open spec fn renderable(self) -> bool {
        &&& valid_keys(self.metadata())
        &&& self.rendered().dom().len() <= MAX_HEADER_NAMES
    }
}

proof fn lemma_rendered_pairs_finite(pairs: Seq<(Seq<char>, Seq<char>)>)
    ensures
        rendered_pairs(pairs).dom().finite(),
    decreases pairs.len(),
{
    if pairs.len() > 0 {
        lemma_rendered_pairs_finite(pairs.drop_last());
    }
}

/// More pairs never take a header away.
proof fn lemma_rendered_pairs_grow(pairs: Seq<(Seq<char>, Seq<char>)>, n: int)
    requires
        0 <= n <= pairs.len(),
    ensures
        rendered_pairs(pairs.take(n)).dom().subset_of(rendered_pairs(pairs).dom()),
    decreases pairs.len(),
{
    if n == pairs.len() {
        assert(pairs.take(n) =~= pairs);
    } else {
        assert(pairs.drop_last().take(n) =~= pairs.take(n));
        lemma_rendered_pairs_grow(pairs.drop_last(), n);
    }
}

/// Headers that already name too many stay too many.
proof fn lemma_too_many_names(
    pairs: Seq<(Seq<char>, Seq<char>)>,
    delay_ms: Option<u64>,
    n: int,
    limit: nat,
)
    requires
        0 <= n <= pairs.len(),
        rendered_pairs(pairs.take(n)).dom().len() > limit,
    ensures
        rendered_headers(pairs, delay_ms).dom().len() > limit,
{
    let all = rendered_headers(pairs, delay_ms).dom();
    lemma_rendered_pairs_finite(pairs);
    lemma_rendered_pairs_grow(pairs, n);
    vstd::set_lib::lemma_len_subset(rendered_pairs(pairs.take(n)).dom(), all);
}

proof fn lemma_delay_header_is_name()
    ensures
        valid_header_name(delay_header()),
        lower_name(delay_header()) == delay_header(),
{
    reveal_strlit("mock-delay-ms");
    assert(lower_name(delay_header()) =~= delay_header());
}

/// The notation of a number is ASCII, and so are its bytes.
proof fn lemma_decimal_bytes(n: nat)
    ensures
        valid_header_value(encode_utf8(decimal(n))),
        is_header_text(encode_utf8(decimal(n))),
        ascii_chars(encode_utf8(decimal(n))) == decimal(n),
{
    let text = decimal(n);
    lemma_decimal_digits(n);
    assert(is_ascii_chars(text)) by {
        assert forall|i: int| 0 <= i < text.len() implies '\0' <= #[trigger] text[i]
            <= '\u{7f}' by {
            assert(is_digit(text[i]));
        }
    }
    is_ascii_chars_encode_utf8(text);
    assert forall|i: int| 0 <= i < text.len() implies is_text_byte(#[trigger] encode_utf8(text)[i])
        && encode_utf8(text)[i] as char == text[i] by {
        assert(is_digit(text[i]));
    }
    assert(ascii_chars(encode_utf8(text)) =~= text);
}

impl<Resp> MockResponseDefinition<Resp> {
    /// Makes the metadata and the delay into headers, if they can be made into headers.
    fn collect_headers(&self) -> (headers: Option<HeaderMap>)
        ensures
            headers is Some <==> self.renderable(),
            headers matches Some(h) ==> header_contents(h) == self.rendered(),
    {
        let ghost pairs = self.metadata();
        let mut headers = empty_headers();
        // The number of names in `headers`
        let mut names: usize = 0;
        let mut i: usize = 0;
        assert(pairs.take(0) =~= Seq::empty());
        while i < self.metadata_pairs.len()
            invariant
                i <= self.metadata_pairs.len(),
                pairs == self.metadata(),
                header_contents(headers) == rendered_pairs(pairs.take(i as int)),
                names == header_contents(headers).dom().len(),
                names <= MAX_HEADER_NAMES,
                valid_keys(pairs.take(i as int)),
            decreases self.metadata_pairs.len() - i,
        {
            let (key, value) = &self.metadata_pairs[i];
            let ghost before = pairs.take(i as int);
            let ghost after = pairs.take(i + 1);
            proof {
                assert(after.drop_last() =~= before);
                assert(pairs[i as int] == (key@, value@));
                lemma_rendered_pairs_finite(before);
                lemma_rendered_pairs_finite(after);
            }
            if let Some(header_value) = parse_header_value(value.as_str()) {
                let name = match parse_header_name(key.as_str()) {
                    Some(name) => name,
                    None => {
                        assert(!valid_keys(pairs));
                        return None;
                    },
                };
                proof {
                    lemma_lower_name_is_name(key@);
                }
                if get_header(&headers, name.as_str()).is_none() {
                    if names == MAX_HEADER_NAMES {
                        proof {
                            lemma_too_many_names(
                                pairs,
                                self.delay_ms,
                                i + 1,
                                MAX_HEADER_NAMES as nat,
                            );
                        }
                        return None;
                    }
                    names = names + 1;
                }
                insert_header(&mut headers, name.as_str(), header_value.as_slice());
            }
            proof {
                assert forall|k: int|
                    0 <= k < after.len() && valid_header_value(
                        encode_utf8((#[trigger] after[k]).1),
                    ) implies valid_header_name(after[k].0) by {
                    if k < i {
                        assert(after[k] == before[k]);
                    }
                }
            }
            i = i + 1;
        }
        proof {
            assert(pairs.take(i as int) =~= pairs);
            lemma_rendered_pairs_finite(pairs);
        }
        if let Some(delay) = self.delay_ms {
            proof {
                lemma_decimal_bytes(delay as nat);
                lemma_delay_header_is_name();
            }
            if let Some(header_value) = parse_header_value(format_u64(delay).as_str()) {
                if get_header(&headers, "mock-delay-ms").is_none() && names == MAX_HEADER_NAMES {
                    return None;
                }
                insert_header(&mut headers, "mock-delay-ms", header_value.as_slice());
            }
        }
        Some(headers)
    }
}

/// A valid header name in lower case is a valid header name in lower case.
proof fn lemma_lower_name_is_name(name: Seq<char>)
    requires
        valid_header_name(name),
    ensures
        valid_header_name(lower_name(name)),
        lower_name(lower_name(name)) == lower_name(name),
{
    assert forall|i: int| 0 <= i < name.len() implies is_token_char(#[trigger] lower_name(name)[i])
        by {
        assert(is_token_char(name[i]));
    }
    assert(lower_name(lower_name(name)) =~= lower_name(name));
}

impl<Resp: Clone> Clone for MockResponseDefinition<Resp> {
    fn clone(&self) -> (copy: Self)
        ensures
            match self.response {
                Some(response) => copy.response is Some && cloned(response, copy.response->0),
                None => copy.response is None,
            },
            match self.status {
                Some(status) => copy.status is Some && copy.status->0@ == status@,
                None => copy.status is None,
            },
            copy.metadata() == self.metadata(),
            copy.metadata_pairs@ == self.metadata_pairs@,
            copy.delay_ms == self.delay_ms,
    {
        let mut metadata_pairs: Vec<(String, String)> = Vec::new();
        let mut i: usize = 0;
        while i < self.metadata_pairs.len()
            invariant
                i <= self.metadata_pairs.len(),
                metadata_pairs@ == self.metadata_pairs@.take(i as int),
            decreases self.metadata_pairs.len() - i,
        {
            let (key, value) = &self.metadata_pairs[i];
            metadata_pairs.push((key.clone(), value.clone()));
            i = i + 1;
        }
        assert(self.metadata_pairs@.take(i as int) =~= self.metadata_pairs@);
        MockResponseDefinition {
            response: match &self.response {
                Some(response) => Some(response.clone()),
                None => None,
            },
            status: match &self.status {
                Some(status) => Some(status.clone()),
                None => None,
            },
            metadata_pairs,
            delay_ms: self.delay_ms,
        }
    }
}

impl<Resp> Default for MockResponseDefinition<Resp> {
    fn default() -> (definition: Self)
        ensures
            definition.response is None,
            definition.status is None,
            definition.metadata() == Seq::<(Seq<char>, Seq<char>)>::empty(),
            definition.metadata_pairs@.len() == 0,
            definition.delay_ms is None,
    {
        let definition = MockResponseDefinition {
            response: None,
            status: None,
            metadata_pairs: Vec::new(),
            delay_ms: None,
        };
        assert(definition.metadata() =~= Seq::empty());
        definition
    }
}

impl<Resp> MockResponseDefinition<Resp> {
    /// Create a new success response definition
    ///
    /// # Arguments
    /// * `response` - The successful response to return
    pub fn ok(response: Resp) -> (definition: Self)
        ensures
            definition.response == Some(response),
            definition.status is None,
            definition.metadata() == Seq::<(Seq<char>, Seq<char>)>::empty(),
            definition.metadata_pairs@.len() == 0,
            definition.delay_ms is None,
    {
        let definition = MockResponseDefinition {
            response: Some(response),
            status: None,
            metadata_pairs: Vec::new(),
            delay_ms: None,
        };
        assert(definition.metadata() =~= Seq::empty());
        definition
    }

    /// Create a new error response definition
    ///
    /// # Arguments
    /// * `status` - The error status to return
    pub fn err(status: MockStatus) -> (definition: Self)
        ensures
            definition.response is None,
            definition.status == Some(status),
            definition.metadata() == Seq::<(Seq<char>, Seq<char>)>::empty(),
            definition.metadata_pairs@.len() == 0,
            definition.delay_ms is None,
    {
        let definition = MockResponseDefinition {
            response: None,
            status: Some(status),
            metadata_pairs: Vec::new(),
            delay_ms: None,
        };
        assert(definition.metadata() =~= Seq::empty());
        definition
    }

    /// Add a metadata entry to the response
    ///
    /// # Arguments
    /// * `key` - The metadata key
    /// * `value` - The metadata value
    ///
    /// # Returns
    /// Self with the added metadata
    pub fn with_metadata(self, key: &str, value: &str) -> (definition: Self)
        ensures
            definition.response == self.response,
            definition.status == self.status,
            definition.metadata() == self.metadata().push((key@, value@)),
            definition.metadata_pairs@.len() == self.metadata_pairs@.len() + 1,
            definition.metadata_pairs@.drop_last() == self.metadata_pairs@,
            definition.metadata_pairs@.last().0@ == key@,
            definition.metadata_pairs@.last().1@ == value@,
            definition.delay_ms == self.delay_ms,
    {
        let mut definition = self;
        definition.metadata_pairs.push((key.to_string(), value.to_string()));
        assert(definition.metadata() =~= self.metadata().push((key@, value@)));
        assert(definition.metadata_pairs@.drop_last() =~= self.metadata_pairs@);
        definition
    }

    /// Add a delay to simulate network latency
    ///
    /// # Arguments
    /// * `delay_ms` - The delay in milliseconds
    ///
    /// # Returns
    /// Self with the added delay
    pub fn with_delay(self, delay_ms: u64) -> (definition: Self)
        ensures
            definition.response == self.response,
            definition.status == self.status,
            definition.metadata() == self.metadata(),
            definition.metadata_pairs == self.metadata_pairs,
            definition.delay_ms == Some(delay_ms),
    {
        let mut definition = self;
        definition.delay_ms = Some(delay_ms);
        definition
    }

    /// Tells whether the metadata and the delay can be made into headers.
    pub fn is_renderable(&self) -> (renderable: bool)
        ensures
            renderable == self.renderable(),
    {
        self.collect_headers().is_some()
    }
}

/// Creates the headers of a response from its definition.
pub fn create_headers_from_def<Resp>(definition: &MockResponseDefinition<Resp>) -> (headers:
    HeaderMap)
    requires
        definition.renderable(),
    ensures
        header_contents(headers) == definition.rendered(),
{
    match definition.collect_headers() {
        Some(headers) => headers,
        None => vstd::pervasive::unreached(),
    }
}

/// The delay that an answer itself asks for, in milliseconds. Only the headers of a success
/// can.
pub open spec fn reply_delay(reply: ReplyView) -> Option<u64> {
    match reply {
        Ok((_, headers)) => requested_delay(headers),
        Err(_) => None,
    }
}

/// The time to wait before an answer with a definition's delay is handed over, in
/// milliseconds. Where there is none, or the delay is zero, the caller need not wait. Without
/// a defined delay, the headers of the answer can ask for one.
pub open spec fn defined_delay(delay_ms: Option<u64>, reply: ReplyView) -> Option<u64> {
    match delay_ms {
        Some(delay) => if delay > 0 {
            Some(delay)
        } else {
            None
        },
        None => reply_delay(reply),
    }
}

/// Reads the delay that an answer asks for from its headers, in milliseconds.
pub fn response_delay(reply: &Result<(Bytes, HeaderMap), MockStatus>) -> (delay_ms: Option<u64>)
    ensures
        delay_ms == reply_delay(reply_view(*reply)),
{
    proof {
        lemma_delay_header_is_name();
    }
    if let Ok((_response_bytes, headers)) = reply {
        if let Some(delay_value) = get_header(headers, "mock-delay-ms") {
            if let Some(delay_text) = header_text(delay_value.as_slice()) {
                if let Some(delay) = parse_u64(delay_text.as_str()) {
                    if delay > 0 {
                        return Some(delay);
                    }
                }
            }
        }
    }
    None
}

/// Of the pairs under one name, the last that can stand in a header decides: its value, and
/// no other, stands in the headers of the response. The delay header is left to the delay
/// where there is one.
pub proof fn law_last_value_stays(
    pairs: Seq<(Seq<char>, Seq<char>)>,
    delay_ms: Option<u64>,
    last: int,
)
    requires
        0 <= last < pairs.len(),
        valid_header_value(encode_utf8(pairs[last].1)),
        forall|i: int|
            last < i < pairs.len() && valid_header_value(encode_utf8((#[trigger] pairs[i]).1))
                ==> lower_name(pairs[i].0) != lower_name(pairs[last].0),
        delay_ms is None || lower_name(pairs[last].0) != delay_header(),
    ensures
        rendered_headers(pairs, delay_ms).contains_key(lower_name(pairs[last].0)),
        rendered_headers(pairs, delay_ms)[lower_name(pairs[last].0)] == seq![
            encode_utf8(pairs[last].1),
        ],
    decreases pairs.len(),
{
    if last < pairs.len() - 1 {
        let earlier = pairs.drop_last();
        assert(earlier[last] == pairs[last]);
        assert forall|i: int|
            last < i < earlier.len() && valid_header_value(encode_utf8((#[trigger] earlier[i]).1))
            implies lower_name(earlier[i].0) != lower_name(earlier[last].0) by {
            assert(earlier[i] == pairs[i]);
        }
        law_last_value_stays(earlier, delay_ms, last);
        assert(pairs.last() == pairs[pairs.len() - 1]);
    }
}

/// A response has no headers but those of its metadata and of its delay.
pub proof fn law_headers_come_from_definition(
    pairs: Seq<(Seq<char>, Seq<char>)>,
    delay_ms: Option<u64>,
    name: Seq<char>,
)
    requires
        rendered_headers(pairs, delay_ms).contains_key(name),
    ensures
        (delay_ms is Some && name == delay_header()) || exists|i: int|
            0 <= i < pairs.len() && lower_name((#[trigger] pairs[i]).0) == name
                && valid_header_value(encode_utf8(pairs[i].1))
                && rendered_headers(pairs, delay_ms)[name] == seq![encode_utf8(pairs[i].1)],
    decreases pairs.len(),
{
    if delay_ms is Some && name == delay_header() {
    } else {
        let earlier = pairs.drop_last();
        let last = pairs.last();
        if valid_header_value(encode_utf8(last.1)) && lower_name(last.0) == name {
            assert(pairs[pairs.len() - 1] == last);
        } else {
            law_headers_come_from_definition(earlier, delay_ms, name);
            let i = choose|i: int|
                0 <= i < earlier.len() && lower_name((#[trigger] earlier[i]).0) == name
                    && valid_header_value(encode_utf8(earlier[i].1))
                    && rendered_headers(earlier, delay_ms)[name] == seq![
                    encode_utf8(earlier[i].1),
                ];
            assert(pairs[i] == earlier[i]);
        }
    }
}

/// A response that is defined with a delay is delayed by it, whatever its metadata. A delay
/// of zero is none.
pub proof fn law_delay_is_kept(pairs: Seq<(Seq<char>, Seq<char>)>, delay: u64)
    ensures
        requested_delay(rendered_headers(pairs, Some(delay))) == if delay > 0 {
            Some(delay)
        } else {
            None
        },
{
    lemma_decimal_bytes(delay as nat);
    law_parse_undoes_format(delay);
}

/// A response that is defined without a delay, and without metadata under the name of the
/// delay header, is not delayed.
pub proof fn law_no_delay_without_definition(pairs: Seq<(Seq<char>, Seq<char>)>)
    requires
        forall|i: int|
            0 <= i < pairs.len() ==> lower_name((#[trigger] pairs[i]).0) != delay_header(),
    ensures
        requested_delay(rendered_headers(pairs, None)) is None,
{
    if rendered_headers(pairs, None).contains_key(delay_header()) {
        law_headers_come_from_definition(pairs, None, delay_header());
    }
}

/// The view of an answer keeps all that the answer holds: the bytes of a response and the
/// contents of its headers, or the status.
pub proof fn law_reply_view_keeps_all(reply: Result<(Bytes, HeaderMap), MockStatus>)
    ensures
        reply is Ok <==> reply_view(reply) is Ok,
        reply matches Ok((bytes, headers)) ==> reply_view(reply)->Ok_0.0 == bytes && reply_view(
            reply,
        )->Ok_0.1 == header_contents(headers),
        reply matches Err(status) ==> reply_view(reply)->Err_0 == status@,
{
}

/// The metadata of a definition is the pairs that it holds, in their order.
pub proof fn law_metadata_is_the_pairs<Resp>(definition: MockResponseDefinition<Resp>, i: int)
    requires
        0 <= i < definition.metadata_pairs@.len(),
    ensures
        definition.metadata().len() == definition.metadata_pairs@.len(),
        definition.metadata()[i].0 == definition.metadata_pairs@[i].0@,
        definition.metadata()[i].1 == definition.metadata_pairs@[i].1@,
{
}

/// The headers of a response hold every pair of its definition that has a valid value and is
/// the last such pair under its name: that value, and no other, stands under the name. Only a
/// defined delay takes the place of a pair under the name of the delay header.
pub proof fn law_metadata_is_in_headers<Resp>(
    definition: MockResponseDefinition<Resp>,
    last: int,
)
    requires
        0 <= last < definition.metadata_pairs@.len(),
        valid_header_value(encode_utf8(definition.metadata_pairs@[last].1@)),
        forall|i: int|
            last < i < definition.metadata_pairs@.len() && valid_header_value(
                encode_utf8((#[trigger] definition.metadata_pairs@[i]).1@),
            ) ==> lower_name(definition.metadata_pairs@[i].0@) != lower_name(
                definition.metadata_pairs@[last].0@,
            ),
        definition.delay_ms is None || lower_name(definition.metadata_pairs@[last].0@)
            != "mock-delay-ms"@,
    ensures
        definition.rendered().contains_key(lower_name(definition.metadata_pairs@[last].0@)),
        definition.rendered()[lower_name(definition.metadata_pairs@[last].0@)] == seq![
            encode_utf8(definition.metadata_pairs@[last].1@),
        ],
{
    let pairs = definition.metadata();
    assert forall|i: int|
        last < i < pairs.len() && valid_header_value(
            encode_utf8((#[trigger] pairs[i]).1),
        ) implies lower_name(pairs[i].0) != lower_name(pairs[last].0) by {
        assert(pairs[i].0 == definition.metadata_pairs@[i].0@);
    }
    law_last_value_stays(pairs, definition.delay_ms, last);
}

/// The headers of a response hold its delay in decimal notation.
pub proof fn law_delay_is_in_headers<Resp>(definition: MockResponseDefinition<Resp>, delay: u64)
    requires
        definition.delay_ms == Some(delay),
    ensures
        definition.rendered().contains_key("mock-delay-ms"@),
        definition.rendered()["mock-delay-ms"@] == seq![encode_utf8(decimal(delay as nat))],
{
}

/// The headers of a response hold nothing but its metadata and its delay.
pub proof fn law_no_other_headers<Resp>(
    definition: MockResponseDefinition<Resp>,
    name: Seq<char>,
)
    requires
        definition.rendered().contains_key(name),
    ensures
        (definition.delay_ms is Some && name == "mock-delay-ms"@) || exists|i: int|
            0 <= i < definition.metadata_pairs@.len() && lower_name(
                (#[trigger] definition.metadata_pairs@[i]).0@,
            ) == name && valid_header_value(encode_utf8(definition.metadata_pairs@[i].1@))
                && definition.rendered()[name] == seq![
                encode_utf8(definition.metadata_pairs@[i].1@),
            ],
{
    law_headers_come_from_definition(definition.metadata(), definition.delay_ms, name);
    if !(definition.delay_ms is Some && name == delay_header()) {
        let pairs = definition.metadata();
        let i = choose|i: int|
            0 <= i < pairs.len() && lower_name((#[trigger] pairs[i]).0) == name
                && valid_header_value(encode_utf8(pairs[i].1)) && definition.rendered()[name]
                == seq![encode_utf8(pairs[i].1)];
        assert(pairs[i].0 == definition.metadata_pairs@[i].0@);
    }
}

/// Headers can be made of a definition if and only if the key of every pair with a valid value
/// is a header name, and there are not too many names.
pub proof fn law_headers_need_valid_keys<Resp>(definition: MockResponseDefinition<Resp>)
    ensures
        definition.renderable() <==> definition.rendered().dom().len() <= 6553 && forall|i: int|
            0 <= i < definition.metadata_pairs@.len() && valid_header_value(
                encode_utf8((#[trigger] definition.metadata_pairs@[i]).1@),
            ) ==> valid_header_name(definition.metadata_pairs@[i].0@),
{
    let pairs = definition.metadata();
    if valid_keys(pairs) {
        assert forall|i: int|
            0 <= i < definition.metadata_pairs@.len() && valid_header_value(
                encode_utf8((#[trigger] definition.metadata_pairs@[i]).1@),
            ) implies valid_header_name(definition.metadata_pairs@[i].0@) by {
            assert(pairs[i].0 == definition.metadata_pairs@[i].0@);
        }
    }
    if !valid_keys(pairs) {
        let i = choose|i: int|
            0 <= i < pairs.len() && valid_header_value(encode_utf8((#[trigger] pairs[i]).1))
                && !valid_header_name(pairs[i].0);
        assert(pairs[i].0 == definition.metadata_pairs@[i].0@);
    }
}

/// An error asks for no delay.
pub proof fn law_errors_ask_for_no_delay(reply: ReplyView)
    requires
        reply is Err,
    ensures
        reply_delay(reply) is None,
{
}

/// A response without the delay header asks for no delay.
pub proof fn law_no_delay_without_header(
    bytes: Bytes,
    headers: Map<Seq<char>, Seq<Seq<u8>>>,
)
    requires
        !headers.contains_key("mock-delay-ms"@),
    ensures
        reply_delay(ReplyView::Ok((bytes, headers))) is None,
{
}

/// A response asks for the number that the first value of its delay header reads as, if that is
/// not zero. A value that is not text asks for none.
pub proof fn law_delay_header_is_read(
    bytes: Bytes,
    headers: Map<Seq<char>, Seq<Seq<u8>>>,
    text: Seq<char>,
)
    requires
        headers.contains_key("mock-delay-ms"@),
        headers["mock-delay-ms"@].len() > 0,
        headers["mock-delay-ms"@][0] == encode_utf8(text),
        forall|i: int|
            0 <= i < encode_utf8(text).len() ==> #[trigger] encode_utf8(text)[i] == 9
                || encode_utf8(text)[i] >= 32 && encode_utf8(text)[i] != 127,
    ensures
        reply_delay(ReplyView::Ok((bytes, headers))) == match parsed_u64(text) {
            Some(delay) => if delay > 0 {
                Some(delay)
            } else {
                None
            },
            None => None,
        },
{
    let value = encode_utf8(text);
    if is_ascii_chars(text) {
        is_ascii_chars_encode_utf8(text);
        assert forall|i: int| 0 <= i < value.len() implies is_text_byte(#[trigger] value[i])
            && value[i] as char == text[i] by {
            assert('\0' <= text[i] <= '\u{7f}');
        }
        assert(ascii_chars(value) =~= text);
    } else {
        let i = choose|i: int| 0 <= i < text.len() && !('\0' <= #[trigger] text[i] <= '\u{7f}');
        if parsed_u64(text) is Some {
            law_only_digits_are_read(text);
        }
        let j = lemma_not_ascii_bytes(text, i);
        assert(!is_text_byte(value[j]));
    }
}

/// A delay header whose first value holds a byte that is not visible ASCII, a space or a tab
/// asks for no delay.
pub proof fn law_unreadable_delay_header_is_none(
    bytes: Bytes,
    headers: Map<Seq<char>, Seq<Seq<u8>>>,
    i: int,
)
    requires
        headers.contains_key("mock-delay-ms"@),
        headers["mock-delay-ms"@].len() > 0,
        0 <= i < headers["mock-delay-ms"@][0].len(),
        headers["mock-delay-ms"@][0][i] != 9,
        !(32 <= headers["mock-delay-ms"@][0][i] <= 126),
    ensures
        reply_delay(ReplyView::Ok((bytes, headers))) is None,
{
    assert(!is_text_byte(headers["mock-delay-ms"@][0][i]));
}

proof fn lemma_not_ascii_char(c: char)
    requires
        !('\0' <= c <= '\u{7f}'),
    ensures
        encode_scalar(c as u32).len() > 0,
        encode_scalar(c as u32).last() >= 128,
{
    let scalar = c as u32;
    char_is_scalar(c);
    assert(last_continuation_byte(scalar) >= 128) by (bit_vector);
}

/// A character beyond ASCII is encoded in bytes beyond ASCII.
proof fn lemma_not_ascii_bytes(text: Seq<char>, i: int) -> (j: int)
    requires
        0 <= i < text.len(),
        !('\0' <= text[i] <= '\u{7f}'),
    ensures
        0 <= j < encode_utf8(text).len(),
        encode_utf8(text)[j] >= 128,
    decreases text.len(),
{
    let rest = text.drop_first();
    let first = encode_scalar(text[0] as u32);
    assert(encode_utf8(text) == first + encode_utf8(rest));
    if i == 0 {
        lemma_not_ascii_char(text[0]);
        assert(encode_utf8(text)[first.len() - 1] == first[first.len() - 1]);
        first.len() - 1
    } else {
        let j = lemma_not_ascii_bytes(rest, i - 1);
        assert(encode_utf8(text)[first.len() + j] == encode_utf8(rest)[j]);
        first.len() + j
    }
}

} // verus!

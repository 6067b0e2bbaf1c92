//! Identifiers and payloads as text.
use crate::streaming;
use base64::Engine;
use vstd::prelude::*;
use vstd::string::StrSliceExecFns;

verus! {

/// The base64url text of a byte string, without padding.
pub uninterp spec fn base64url(bytes: Seq<u8>) -> Seq<char>;

/// The bytes that a base64url text without padding stands for, if it is one.
pub uninterp spec fn base64url_decoded(text: Seq<char>) -> Option<Seq<u8>>;

/// The hyphenated lower-case text of a UUID: its thirty-two hexadecimal digits
/// in groups of eight, four, four, four and twelve.
pub open spec fn uuid_text(id: u128) -> Seq<char> {
    let digits = streaming::hex_text(id as nat, 32);
    digits.subrange(0, 8) + "-"@ + digits.subrange(8, 12) + "-"@ + digits.subrange(12, 16) + "-"@
        + digits.subrange(16, 20) + "-"@ + digits.subrange(20, 32)
}

/// Calls `Engine::encode` of the `base64` crate with its `URL_SAFE_NO_PAD`
/// engine. The result depends on the bytes alone and is named by `base64url`.
/// Left out are byte strings so long that the text's length overflows.
#[verifier::external_body]
fn encode_base64url(bytes: &[u8]) -> (r: String)
    requires
        bytes@.len() <= usize::MAX / 4,
    ensures
        r@ == base64url(bytes@),
{
    base64::engine::general_purpose::URL_SAFE_NO_PAD.encode(bytes)
}

/// Calls `Engine::decode` of the `base64` crate with its `URL_SAFE_NO_PAD`
/// engine. Whether the text is accepted, and the bytes, depend on the text
/// alone and are named by `base64url_decoded`.
#[verifier::external_body]
fn decode_base64url(text: &str) -> (r: Option<Vec<u8>>)
    ensures
        match r {
            Some(bytes) => base64url_decoded(text@) == Some(bytes@),
            None => base64url_decoded(text@) is None,
        },
{
    base64::engine::general_purpose::URL_SAFE_NO_PAD.decode(text).ok()
}

/// The bytes of a random UUID: four bits say its version and two its variant.
pub open spec fn random_uuid(bytes: Seq<u8>) -> bool {
    &&& bytes.len() == 16
    &&& bytes[6] / 16 == 4
    &&& bytes[8] / 64 == 2
}

/// Calls `Uuid::new_v4` of the `uuid` crate and takes the bytes of the fresh
/// UUID. They are random but for the version and the variant.
#[verifier::external_body]
fn fresh_uuid_bytes() -> (r: Vec<u8>)
    ensures
        random_uuid(r@),
{
    uuid::Uuid::new_v4().as_bytes().to_vec()
}

/// Calls `Uuid::from_u128` and the `Display` of the `uuid` crate, which writes
/// the identifier's digits in lower case with hyphens between the groups.
#[verifier::external_body]
pub(crate) fn text_of_uuid(id: u128) -> (r: String)
    ensures
        r@ == uuid_text(id),
{
    uuid::Uuid::from_u128(id).to_string()
}

/// The nonce of a run, from the bytes of a fresh UUID.
pub fn nonce_of(bytes: &[u8]) -> (r: String)
    requires
        bytes@.len() == 16,
    ensures
        r@ == base64url(bytes@),
{
    encode_base64url(bytes)
}

/// A fresh nonce for a run: the bytes of a random UUID in base64url.
pub fn run_nonce() -> (r: String)
    ensures
        exists|bytes: Seq<u8>| random_uuid(bytes) && r@ == #[trigger] base64url(bytes),
{
    let bytes: Vec<u8> = fresh_uuid_bytes();
    nonce_of(bytes.as_slice())
}

/// The first full stop at or behind `from`, or the end.
pub open spec fn segment_end(text: Seq<char>, from: int) -> int
    decreases text.len() - from,
{
    if from >= text.len() || text[from] == '.' {
        from
    } else {
        segment_end(text, from + 1)
    }
}

/// The middle one of exactly three segments between full stops.
pub open spec fn middle_segment(text: Seq<char>) -> Option<Seq<char>> {
    let first = segment_end(text, 0);
    let second = segment_end(text, first + 1);
    if first < text.len() && second < text.len() && segment_end(text, second + 1) == text.len() {
        Some(text.subrange(first + 1, second))
    } else {
        None
    }
}

/// Why the payload of a signed receipt cannot be read.
#[derive(Clone, Copy, Debug, PartialEq, Eq, Structural)]
pub enum PayloadFault {
    /// There are not exactly three segments.
    NotSegmented,
    /// The middle segment is not base64url.
    NotBase64,
}

/// The payload bytes of a compact signed receipt.
pub open spec fn payload_of(jws: Seq<char>) -> Result<Seq<u8>, PayloadFault> {
    match middle_segment(jws) {
        None => Err(PayloadFault::NotSegmented),
        Some(segment) => match base64url_decoded(segment) {
            None => Err(PayloadFault::NotBase64),
            Some(bytes) => Ok(bytes),
        },
    }
}

/// The payload segment of a compact signed receipt: a header, a payload and a
/// signature with full stops between them.
pub fn payload_segment(jws: &str) -> (r: Option<&str>)
    ensures
        match r {
            Some(segment) => middle_segment(jws@) == Some(segment@),
            None => middle_segment(jws@) is None,
        },
{
    let n: usize = jws.unicode_len();
    let mut first: usize = 0;
    while first < n && jws.get_char(first) != '.'
        invariant
            n == jws@.len(),
            first <= n,
            segment_end(jws@, 0) == segment_end(jws@, first as int),
        decreases n - first,
    {
        first = first + 1;
    }
    if first >= n {
        return None;
    }
    let start: usize = first + 1;
    let mut end: usize = start;
    while end < n && jws.get_char(end) != '.'
        invariant
            n == jws@.len(),
            start <= end <= n,
            segment_end(jws@, start as int) == segment_end(jws@, end as int),
        decreases n - end,
    {
        end = end + 1;
    }
    if end >= n {
        return None;
    }
    let mut last: usize = end + 1;
    while last < n && jws.get_char(last) != '.'
        invariant
            n == jws@.len(),
            end + 1 <= last <= n,
            segment_end(jws@, end + 1) == segment_end(jws@, last as int),
        decreases n - last,
    {
        last = last + 1;
    }
    if last < n {
        return None;
    }
    Some(jws.substring_char(start, end))
}

proof fn lemma_segment_end(text: Seq<char>, from: int)
    requires
        0 <= from <= text.len(),
    ensures
        from <= segment_end(text, from) <= text.len(),
        segment_end(text, from) < text.len() ==> text[segment_end(text, from)] == '.',
        forall|i: int| from <= i < segment_end(text, from) ==> #[trigger] text[i] != '.',
    decreases text.len() - from,
{
    if from < text.len() && text[from] != '.' {
        lemma_segment_end(text, from + 1);
    }
}

/// A text without a full stop.
pub open spec fn unparted(text: Seq<char>) -> bool {
    forall|i: int| 0 <= i < text.len() ==> #[trigger] text[i] != '.'
}

proof fn lemma_segment_end_is(text: Seq<char>, from: int, end: int)
    requires
        0 <= from <= end <= text.len(),
        end == text.len() || text[end] == '.',
        forall|i: int| from <= i < end ==> #[trigger] text[i] != '.',
    ensures
        segment_end(text, from) == end,
    decreases end - from,
{
    if from < end {
        assert(text[from] != '.');
        lemma_segment_end_is(text, from + 1, end);
    }
}

/// What stands between two full stops is the payload, whatever it is: of three
/// texts without full stops, joined by full stops, the middle one comes back.
pub proof fn law_the_middle_of_three_is_the_payload(
    header: Seq<char>,
    payload: Seq<char>,
    signature: Seq<char>,
)
    requires
        unparted(header),
        unparted(payload),
        unparted(signature),
    ensures
        middle_segment(header + seq!['.'] + payload + seq!['.'] + signature) == Some(payload),
{
    let text = header + seq!['.'] + payload + seq!['.'] + signature;
    let first = header.len() as int;
    let second = first + 1 + payload.len();
    assert forall|i: int| 0 <= i < first implies #[trigger] text[i] != '.' by {
        assert(text[i] == header[i]);
    }
    lemma_segment_end_is(text, 0, first);
    assert forall|i: int| first + 1 <= i < second implies #[trigger] text[i] != '.' by {
        assert(text[i] == payload[i - first - 1]);
    }
    lemma_segment_end_is(text, first + 1, second);
    assert forall|i: int| second + 1 <= i < text.len() implies #[trigger] text[i] != '.' by {
        assert(text[i] == signature[i - second - 1]);
    }
    lemma_segment_end_is(text, second + 1, text.len() as int);
    assert(text.subrange(first + 1, second) =~= payload);
}

/// Only a text of exactly three parts has a payload: where one is found, the
/// text is the payload between two texts, joined by full stops, and none of
/// the three holds a full stop.
pub proof fn law_only_three_parts_have_a_payload(text: Seq<char>)
    ensures
        middle_segment(text) matches Some(payload) ==> exists|header: Seq<char>, signature: Seq<char>|
            unparted(header) && unparted(payload) && unparted(signature) && text == (
            #[trigger] (header + seq!['.'] + payload + seq!['.'] + signature)),
{
    if middle_segment(text) is Some {
        let payload = middle_segment(text)->0;
        let first = segment_end(text, 0);
        lemma_segment_end(text, 0);
        let second = segment_end(text, first + 1);
        lemma_segment_end(text, first + 1);
        lemma_segment_end(text, second + 1);
        let header = text.subrange(0, first);
        let signature = text.subrange(second + 1, text.len() as int);
        assert(text =~= header + seq!['.'] + payload + seq!['.'] + signature);
        assert forall|i: int| 0 <= i < payload.len() implies #[trigger] payload[i] != '.' by {
            assert(payload[i] == text[first + 1 + i]);
        }
        assert forall|i: int| 0 <= i < signature.len() implies #[trigger] signature[i] != '.' by {
            assert(signature[i] == text[second + 1 + i]);
        }
        assert(unparted(header));
    }
}

/// A payload is read from the middle part alone: a header or a signature says
/// nothing of it, and each fault has its own cause.
pub proof fn law_a_payload_depends_on_its_part(
    header: Seq<char>,
    payload: Seq<char>,
    signature: Seq<char>,
    text: Seq<char>,
)
    requires
        unparted(header),
        unparted(payload),
        unparted(signature),
    ensures
        payload_of(header + seq!['.'] + payload + seq!['.'] + signature) == (match base64url_decoded(
            payload,
        ) {
            Some(bytes) => Ok::<Seq<u8>, PayloadFault>(bytes),
            None => Err::<Seq<u8>, PayloadFault>(PayloadFault::NotBase64),
        }),
        middle_segment(text) is None ==> payload_of(text) == Err::<Seq<u8>, PayloadFault>(
            PayloadFault::NotSegmented,
        ),
{
    law_the_middle_of_three_is_the_payload(header, payload, signature);
}

/// Decodes the payload of a compact signed receipt.
pub fn decode_payload(jws: &str) -> (r: Result<Vec<u8>, PayloadFault>)
    ensures
        match r {
            Ok(bytes) => payload_of(jws@) == Ok::<Seq<u8>, PayloadFault>(bytes@),
            Err(fault) => payload_of(jws@) == Err::<Seq<u8>, PayloadFault>(fault),
        },
{
    match payload_segment(jws) {
        None => Err(PayloadFault::NotSegmented),
        Some(segment) => match decode_base64url(segment) {
            None => Err(PayloadFault::NotBase64),
            Some(bytes) => Ok(bytes),
        },
    }
}

} // verus!

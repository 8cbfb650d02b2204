//! The byte layout of records and operations, as mathematics.
//!
//! A text is written as a four-byte little-endian count of its UTF-8 bytes, then those
//! bytes. A record is its prompt, a presence byte followed by the response where there
//! is one, and a final byte for the processed flag. An operation is a selector byte
//! followed by its text. Everything here is specification: the executable codecs are
//! stated against these functions.
use vstd::arithmetic::div_mod::lemma_fundamental_div_mod_converse;
use vstd::prelude::*;
use vstd::utf8::*;

verus! {

/// The persisted entity, seen as plain mathematical values.
pub struct Record {
    pub prompt: Seq<char>,
    pub response: Option<Seq<char>>,
    pub is_processed: bool,
}

/// One of the two operations a payload can select.
pub enum Operation {
    Submit { text: Seq<char> },
    Respond { text: Seq<char> },
}

impl Record {
    /// A record is closed exactly when it carries a response.
    pub open spec fn consistent(self) -> bool {
        self.is_processed <==> self.response is Some
    }

    /// The record that a submission of `prompt` creates.
    pub open spec fn fresh(prompt: Seq<char>) -> Record {
        Record { prompt, response: None, is_processed: false }
    }

    /// This record closed with `response`.
    pub open spec fn answered(self, response: Seq<char>) -> Record {
        Record { prompt: self.prompt, response: Some(response), is_processed: true }
    }
}

/// The four bytes of `n` as a 32-bit count, least significant byte first.
pub open spec fn le32(n: nat) -> Seq<u8> {
    seq![
        (n % 256) as u8,
        ((n / 256) % 256) as u8,
        ((n / 65536) % 256) as u8,
        ((n / 16777216) % 256) as u8,
    ]
}

/// The count that the first four bytes of `bytes` stand for.
pub open spec fn le32_value(bytes: Seq<u8>) -> nat
    recommends
        bytes.len() >= 4,
{
    (bytes[0] as nat) + 256 * (bytes[1] as nat) + 65536 * (bytes[2] as nat) + 16777216 * (
    bytes[3] as nat)
}

/// Whether the UTF-8 form of `text` is short enough for a 32-bit count.
pub open spec fn text_fits(text: Seq<char>) -> bool {
    encode_utf8(text).len() <= u32::MAX
}

/// How many bytes a text field takes.
pub open spec fn text_len(text: Seq<char>) -> nat {
    4 + encode_utf8(text).len()
}

/// A text field: the count of UTF-8 bytes, then the bytes.
pub open spec fn text_bytes(text: Seq<char>) -> Seq<u8> {
    le32(encode_utf8(text).len()) + encode_utf8(text)
}

/// Reads a text field from the front of `bytes`: the text and how many bytes it took.
/// There is none where fewer than four bytes are left, where the count exceeds what
/// follows it, or where the counted bytes are not UTF-8.
pub open spec fn parse_text(bytes: Seq<u8>) -> Option<(Seq<char>, nat)> {
    if bytes.len() < 4 {
        None
    } else {
        let n = le32_value(bytes);
        if bytes.len() < 4 + n {
            None
        } else {
            let payload = bytes.subrange(4, 4 + n as int);
            if valid_utf8(payload) {
                Some((decode_utf8(payload), 4 + n))
            } else {
                None
            }
        }
    }
}

/// The presence byte and, where present, the text after it.
pub open spec fn optional_text_bytes(text: Option<Seq<char>>) -> Seq<u8> {
    match text {
        None => seq![0u8],
        Some(t) => seq![1u8] + text_bytes(t),
    }
}

/// How many bytes an optional text field takes.
pub open spec fn optional_text_len(text: Option<Seq<char>>) -> nat {
    match text {
        None => 1,
        Some(t) => 1 + text_len(t),
    }
}

/// Reads an optional text field from the front of `bytes`. The presence byte must be
/// 0 or 1.
pub open spec fn parse_optional_text(bytes: Seq<u8>) -> Option<(Option<Seq<char>>, nat)> {
    if bytes.len() < 1 {
        None
    } else if bytes[0] == 0 {
        Some((None, 1))
    } else if bytes[0] == 1 {
        match parse_text(bytes.skip(1)) {
            Some((text, used)) => Some((Some(text), 1 + used)),
            None => None,
        }
    } else {
        None
    }
}

/// The byte of a flag.
pub open spec fn flag_byte(flag: bool) -> u8 {
    if flag {
        1
    } else {
        0
    }
}

/// Reads a flag from the front of `bytes`. The byte must be 0 or 1.
pub open spec fn parse_flag(bytes: Seq<u8>) -> Option<bool> {
    if bytes.len() < 1 {
        None
    } else if bytes[0] == 0 {
        Some(false)
    } else if bytes[0] == 1 {
        Some(true)
    } else {
        None
    }
}

/// Whether both texts of a record are short enough to be written.
pub open spec fn record_fits(record: Record) -> bool {
    &&& text_fits(record.prompt)
    &&& record.response matches Some(t) ==> text_fits(t)
}

/// The encoded size of a record.
pub open spec fn record_len(record: Record) -> nat {
    text_len(record.prompt) + optional_text_len(record.response) + 1
}

/// The encoding of a record.
pub open spec fn record_bytes(record: Record) -> Seq<u8> {
    text_bytes(record.prompt) + optional_text_bytes(record.response) + seq![
        flag_byte(record.is_processed),
    ]
}

/// Reads a record from the front of `bytes`: the record and its encoded size. Bytes
/// after the record are not looked at.
pub open spec fn parse_record(bytes: Seq<u8>) -> Option<(Record, nat)> {
    match parse_text(bytes) {
        None => None,
        Some((prompt, used)) => match parse_optional_text(bytes.skip(used as int)) {
            None => None,
            Some((response, more)) => match parse_flag(bytes.skip((used + more) as int)) {
                None => None,
                Some(is_processed) => Some(
                    (Record { prompt, response, is_processed }, used + more + 1),
                ),
            },
        },
    }
}

/// `buffer` after `image` has been written over its front.
pub open spec fn overwritten(buffer: Seq<u8>, image: Seq<u8>) -> Seq<u8>
    recommends
        image.len() <= buffer.len(),
{
    image + buffer.skip(image.len() as int)
}

/// The text that an operation carries.
pub open spec fn operation_text(op: Operation) -> Seq<char> {
    match op {
        Operation::Submit { text } => text,
        Operation::Respond { text } => text,
    }
}

/// The selector byte of an operation.
pub open spec fn operation_tag(op: Operation) -> u8 {
    match op {
        Operation::Submit { .. } => 0,
        Operation::Respond { .. } => 1,
    }
}

/// The payload of an operation: the selector byte, then the text.
pub open spec fn operation_bytes(op: Operation) -> Seq<u8> {
    seq![operation_tag(op)] + text_bytes(operation_text(op))
}

/// Reads an operation from a whole payload. The selector must be 0 or 1 and the text
/// must end where the payload ends.
pub open spec fn parse_operation(bytes: Seq<u8>) -> Option<Operation> {
    if bytes.len() < 1 || bytes[0] > 1 {
        None
    } else {
        match parse_text(bytes.skip(1)) {
            Some((text, used)) => if 1 + used == bytes.len() {
                if bytes[0] == 0 {
                    Some(Operation::Submit { text })
                } else {
                    Some(Operation::Respond { text })
                }
            } else {
                None
            },
            None => None,
        }
    }
}

/// A count below 2^32 is read back from its four bytes, whatever follows them.
pub proof fn lemma_le32_read_back(n: nat, tail: Seq<u8>)
    requires
        n <= u32::MAX,
    ensures
        le32(n).len() == 4,
        le32_value(le32(n) + tail) == n,
{
    let b = le32(n) + tail;
    assert(b[0] == le32(n)[0]);
    assert(b[1] == le32(n)[1]);
    assert(b[2] == le32(n)[2]);
    assert(b[3] == le32(n)[3]);
}

/// Four bytes are the count that they stand for, and that count is below 2^32.
pub proof fn lemma_le32_canonical(bytes: Seq<u8>)
    requires
        bytes.len() >= 4,
    ensures
        le32_value(bytes) <= u32::MAX,
        le32(le32_value(bytes)) == bytes.take(4),
{
    let a = bytes[0] as int;
    let b = bytes[1] as int;
    let c = bytes[2] as int;
    let d = bytes[3] as int;
    let v = le32_value(bytes) as int;
    lemma_fundamental_div_mod_converse(v, 256, b + 256 * c + 65536 * d, a);
    lemma_fundamental_div_mod_converse(v, 65536, c + 256 * d, a + 256 * b);
    lemma_fundamental_div_mod_converse(v, 16777216, d, a + 256 * b + 65536 * c);
    lemma_fundamental_div_mod_converse(b + 256 * c + 65536 * d, 256, c + 256 * d, b);
    lemma_fundamental_div_mod_converse(c + 256 * d, 256, d, c);
    lemma_fundamental_div_mod_converse(d, 256, 0, d);
    assert(le32(le32_value(bytes)) =~= bytes.take(4));
}

/// A text that fits is read back from its field, whatever follows the field.
pub proof fn lemma_text_round_trip(text: Seq<char>, tail: Seq<u8>)
    requires
        text_fits(text),
    ensures
        text_bytes(text).len() == text_len(text),
        parse_text(text_bytes(text) + tail) == Some((text, text_len(text))),
{
    let payload = encode_utf8(text);
    let n = payload.len();
    let bytes = text_bytes(text) + tail;
    lemma_le32_read_back(n, payload + tail);
    assert(bytes =~= le32(n) + (payload + tail));
    assert(bytes.subrange(4, 4 + n as int) =~= payload);
    encode_utf8_valid_utf8(text);
    encode_utf8_decode_utf8(text);
}

/// What a text field parses to is written back as the very bytes that were read.
pub proof fn lemma_text_canonical(bytes: Seq<u8>)
    requires
        parse_text(bytes) is Some,
    ensures
        parse_text(bytes) matches Some((text, used)) && {
            &&& text_fits(text)
            &&& used == text_len(text)
            &&& used <= bytes.len()
            &&& text_bytes(text) == bytes.take(used as int)
        },
{
    let n = le32_value(bytes);
    let payload = bytes.subrange(4, 4 + n as int);
    lemma_le32_canonical(bytes);
    decode_utf8_encode_utf8(payload);
    assert(text_bytes(decode_utf8(payload)) =~= bytes.take(4 + n as int));
}

/// An optional text that fits is read back from its field, whatever follows the field.
pub proof fn lemma_optional_text_round_trip(text: Option<Seq<char>>, tail: Seq<u8>)
    requires
        text matches Some(t) ==> text_fits(t),
    ensures
        optional_text_bytes(text).len() == optional_text_len(text),
        parse_optional_text(optional_text_bytes(text) + tail) == Some(
            (text, optional_text_len(text)),
        ),
{
    let bytes = optional_text_bytes(text) + tail;
    match text {
        None => {
            assert(bytes[0] == 0);
        },
        Some(t) => {
            lemma_text_round_trip(t, tail);
            assert(bytes[0] == 1);
            assert(bytes.skip(1) =~= text_bytes(t) + tail);
        },
    }
}

/// Dropping the first part of a concatenation leaves the second.
proof fn lemma_skip_front(front: Seq<u8>, back: Seq<u8>)
    ensures
        (front + back).skip(front.len() as int) == back,
{
    assert((front + back).skip(front.len() as int) =~= back);
}

/// Round trip: a record whose texts fit is read back from its encoding, whatever bytes
/// follow the encoding.
pub proof fn theorem_record_round_trip(record: Record, tail: Seq<u8>)
    requires
        record_fits(record),
    ensures
        record_bytes(record).len() == record_len(record),
        parse_record(record_bytes(record) + tail) == Some((record, record_len(record))),
{
    let prompt = text_bytes(record.prompt);
    let response = optional_text_bytes(record.response);
    let flag = seq![flag_byte(record.is_processed)];
    let bytes = record_bytes(record) + tail;
    let used = text_len(record.prompt);
    let more = optional_text_len(record.response);
    let after_prompt = response + (flag + tail);
    let after_response = flag + tail;
    lemma_text_round_trip(record.prompt, after_prompt);
    lemma_optional_text_round_trip(record.response, after_response);
    assert(bytes == prompt + after_prompt) by {
        assert(bytes =~= prompt + after_prompt);
    }
    assert(bytes.skip(used as int) == after_prompt) by {
        lemma_skip_front(prompt, after_prompt);
    }
    assert(bytes.skip((used + more) as int) == after_response) by {
        lemma_skip_front(prompt + response, after_response);
        assert(bytes =~= (prompt + response) + after_response);
    }
    assert(parse_flag(after_response) == Some(record.is_processed)) by {
        assert(after_response[0] == flag_byte(record.is_processed));
    }
}

/// Round trip through a buffer: after a record whose texts fit has been written over
/// the front of a buffer that is large enough, the buffer reads back as that record.
pub proof fn theorem_written_record_reads_back(record: Record, buffer: Seq<u8>)
    requires
        record_fits(record),
        record_len(record) <= buffer.len(),
    ensures
        overwritten(buffer, record_bytes(record)).len() == buffer.len(),
        parse_record(overwritten(buffer, record_bytes(record))) == Some(
            (record, record_len(record)),
        ),
{
    theorem_record_round_trip(record, buffer.skip(record_bytes(record).len() as int));
}

/// What an optional text field parses to is written back as the very bytes that were
/// read.
pub proof fn lemma_optional_text_canonical(bytes: Seq<u8>)
    requires
        parse_optional_text(bytes) is Some,
    ensures
        parse_optional_text(bytes) matches Some((text, used)) && {
            &&& text matches Some(t) ==> text_fits(t)
            &&& used == optional_text_len(text)
            &&& used <= bytes.len()
            &&& optional_text_bytes(text) == bytes.take(used as int)
        },
{
    if bytes[0] == 1 {
        let rest = bytes.skip(1);
        lemma_text_canonical(rest);
        let (t, n) = parse_text(rest).unwrap();
        assert(optional_text_bytes(Some(t)) =~= bytes.take(1 + n as int));
    } else {
        assert(optional_text_bytes(None) =~= bytes.take(1));
    }
}

/// No two encodings of one record: what a buffer reads as is encoded by exactly the
/// bytes that were read, its texts fit, and its size is within the buffer.
pub proof fn theorem_record_canonical(bytes: Seq<u8>)
    requires
        parse_record(bytes) is Some,
    ensures
        parse_record(bytes) matches Some((record, used)) && {
            &&& record_fits(record)
            &&& used == record_len(record)
            &&& used <= bytes.len()
            &&& record_bytes(record) == bytes.take(used as int)
        },
{
    lemma_text_canonical(bytes);
    let (prompt, used) = parse_text(bytes).unwrap();
    let rest = bytes.skip(used as int);
    lemma_optional_text_canonical(rest);
    let (response, more) = parse_optional_text(rest).unwrap();
    let last = bytes.skip((used + more) as int);
    let flag = parse_flag(last).unwrap();
    let record = Record { prompt, response, is_processed: flag };
    assert(last[0] == flag_byte(flag));
    assert(record_bytes(record) =~= bytes.take((used + more + 1) as int)) by {
        assert(text_bytes(prompt) == bytes.take(used as int));
        assert(optional_text_bytes(response) == rest.take(more as int));
        assert forall|i: int| 0 <= i < used + more + 1 implies record_bytes(record)[i]
            == bytes[i] by {
            if i < used {
                assert(record_bytes(record)[i] == bytes.take(used as int)[i]);
            } else if i < used + more {
                assert(record_bytes(record)[i] == rest.take(more as int)[i - used]);
            } else {
                assert(record_bytes(record)[i] == last[0]);
            }
        }
    }
}

/// Round trip for operations: an operation whose text fits is read back from its
/// payload.
pub proof fn theorem_operation_round_trip(op: Operation)
    requires
        text_fits(operation_text(op)),
    ensures
        operation_bytes(op).len() == 1 + text_len(operation_text(op)),
        parse_operation(operation_bytes(op)) == Some(op),
{
    let bytes = operation_bytes(op);
    lemma_text_round_trip(operation_text(op), Seq::<u8>::empty());
    assert(bytes.skip(1) =~= text_bytes(operation_text(op)) + Seq::<u8>::empty());
    assert(bytes[0] == operation_tag(op));
}

/// A payload that reads as an operation is that operation's payload, byte for byte.
pub proof fn theorem_operation_canonical(bytes: Seq<u8>)
    requires
        parse_operation(bytes) is Some,
    ensures
        parse_operation(bytes) matches Some(op) && {
            &&& text_fits(operation_text(op))
            &&& operation_bytes(op) == bytes
        },
{
    let rest = bytes.skip(1);
    lemma_text_canonical(rest);
    let (text, used) = parse_text(rest).unwrap();
    let op = parse_operation(bytes).unwrap();
    assert(rest.take(used as int) =~= rest);
    assert(operation_bytes(op) =~= bytes);
}

} // verus!

//! The body of a publish request.
//!
//! Each event is encoded on its own, as a JSON object with a trailing comma. The encodings of a
//! batch are strung together, and [`make_body`] strips the last comma and puts the rest in a list.

use vstd::prelude::*;
use vstd::slice::slice_to_vec;
use vstd::string::StringExecFns;
use vstd::utf8::decode_utf8;
use vstd::utf8::encode_utf8;
use vstd::utf8::encode_utf8_decode_utf8;
use vstd::utf8::is_ascii_chars;
use vstd::utf8::is_ascii_chars_encode_utf8;

use crate::base64_format::base64_decoded;
use crate::base64_format::base64_len;
use crate::base64_format::base64_text;
use crate::base64_format::is_base64;
use crate::base64_format::is_base64_char;
use crate::base64_format::law_base64_alphabet;
use crate::base64_format::law_base64_decodes;
use crate::buffer::base64_encode;
use crate::buffer::buffer_into_vec;
use crate::buffer::buffer_put;
use crate::buffer::buffer_with_capacity;
use crate::event::LogEvent;
use crate::json::json_text;
use crate::json::to_string;
use crate::text::lemma_encode_utf8_concat;
use crate::text::lemma_encode_utf8_injective;

verus! {

/// The text that encodes one message: a JSON object with the payload as its data, and a comma.
pub open spec fn message_text(payload: Seq<char>) -> Seq<char> {
    "{\"data\":\""@ + payload + "\"},"@
}

/// The payload of an event: the base64 encoding of its JSON text.
pub open spec fn payload_of(json: Seq<char>) -> Seq<char> {
    base64_text(encode_utf8(json))
}

/// The JSON text that a payload encodes.
pub open spec fn json_of(payload: Seq<char>) -> Seq<char> {
    decode_utf8(base64_decoded(payload))
}

/// The payload of `json` can be put in a JSON string as it is, it comes in whole groups of four
/// characters, and decoding it gives `json` back.
pub open spec fn is_recoverable(json: Seq<char>) -> bool {
    &&& is_base64(payload_of(json))
    &&& payload_of(json).len() % 4 == 0
    &&& json_of(payload_of(json)) == json
}

/// Every JSON text can be told from its payload: decoding the payload gives the bytes of the text,
/// and so the text.
pub proof fn law_payload_is_recoverable(json: Seq<char>)
    ensures
        is_recoverable(json),
        base64_decoded(payload_of(json)) == encode_utf8(json),
        decode_utf8(base64_decoded(payload_of(json))) == json,
{
    law_base64_alphabet(encode_utf8(json));
    law_base64_decodes(encode_utf8(json));
    encode_utf8_decode_utf8(json);
}

/// The body of a request with the encoded events `logs`, without their last byte.
pub open spec fn body_of(logs: Seq<u8>) -> Seq<u8> {
    encode_utf8("{\"messages\":["@) + (if logs.len() > 0 {
        logs.drop_last()
    } else {
        logs
    }) + encode_utf8("]}"@)
}

proof fn lemma_body_literals()
    ensures
        encode_utf8("{\"messages\":["@).len() == 13,
        encode_utf8("]}"@).len() == 2,
{
    reveal_strlit("{\"messages\":[");
    reveal_strlit("]}");
    assert(is_ascii_chars("{\"messages\":["@));
    assert(is_ascii_chars("]}"@));
    is_ascii_chars_encode_utf8("{\"messages\":["@);
    is_ascii_chars_encode_utf8("]}"@);
}

/// The body of a publish request: the encoded events `logs`, without their trailing comma, in a
/// list of messages.
pub fn make_body(logs: Vec<u8>) -> (r: Vec<u8>)
    requires
        logs@.len() + 16 <= isize::MAX,
    ensures
        r@ == body_of(logs@),
{
    proof {
        lemma_body_literals();
    }
    let mut body = buffer_with_capacity(logs.len() + 16);
    buffer_put(&mut body, "{\"messages\":[".as_bytes());
    if logs.len() > 0 {
        buffer_put(&mut body, vstd::slice::slice_subrange(logs.as_slice(), 0, logs.len() - 1));
    }
    buffer_put(&mut body, "]}".as_bytes());
    let r = buffer_into_vec(body);
    assert(r@ =~= body_of(logs@));
    r
}

/// The encoding of an event with this payload: the payload as the data of a JSON object, and a
/// comma.
pub fn frame_payload(payload: &str) -> (r: Vec<u8>)
    ensures
        r@ == encode_utf8(message_text(payload@)),
{
    let text = "{\"data\":\"".to_owned().concat(payload).concat("\"},");
    slice_to_vec(text.as_str().as_bytes())
}

/// The encoding of an event whose JSON text is `json`: the text in base64 as the data of a JSON
/// object, and a comma. The encoding tells what the text was.
pub fn encode_json(json: &str) -> (r: Vec<u8>)
    requires
        base64_len(encode_utf8(json@).len()) <= isize::MAX,
    ensures
        r@ == encode_utf8(message_text(payload_of(json@))),
        is_recoverable(json@),
{
    proof {
        law_payload_is_recoverable(json@);
    }
    let payload = base64_encode(json.as_bytes());
    frame_payload(payload.as_str())
}

/// The encoding of an event: its JSON text in base64 as the data of a JSON object, and a comma.
/// The encoding tells what the JSON text was.
///
/// The text is written by `serde_json`; an event whose encoding would be too long to allocate is
/// left out (see [`try_encode_event`]).
pub fn encode_event(event: &LogEvent) -> (r: Vec<u8>)
    requires
        base64_len(encode_utf8(json_text(event.unflattened)).len()) <= isize::MAX,
    ensures
        r@ == encode_utf8(message_text(payload_of(json_text(event.unflattened)))),
        is_recoverable(json_text(event.unflattened)),
{
    let json = to_string(&event.unflattened).unwrap();
    encode_json(json.as_str())
}

/// The encoding of an event, or `None` where it would be too long to allocate.
pub fn try_encode_event(event: &LogEvent) -> (r: Option<Vec<u8>>)
    ensures
        match r {
            Some(bytes) => {
                &&& base64_len(encode_utf8(json_text(event.unflattened)).len()) <= isize::MAX
                &&& bytes@ == encode_utf8(message_text(payload_of(json_text(event.unflattened))))
                &&& is_recoverable(json_text(event.unflattened))
            },
            None => base64_len(encode_utf8(json_text(event.unflattened)).len()) > isize::MAX,
        },
{
    let json = to_string(&event.unflattened).unwrap();
    let len = json.as_str().as_bytes().len();
    let groups = len / 3 + if len % 3 == 0 { 0usize } else { 1usize };
    assert(groups == (len + 2) / 3);
    if groups <= isize::MAX as usize / 4 {
        Some(encode_json(json.as_str()))
    } else {
        None
    }
}

/// An encoding holds its whole payload, however long, as the one value of a JSON object with the
/// one key `data`, and ends in a comma.
pub proof fn law_message_holds_whole_payload(payload: Seq<char>)
    ensures
        ({
            let text = message_text(payload);
            let start = "{\"data\":\""@.len() as int;
            let end = start + payload.len();
            &&& text.subrange(0, start) == "{\"data\":\""@
            &&& text.subrange(start, end) == payload
            &&& text.skip(end) == "\"},"@
            &&& text.len() == payload.len() + 12
            &&& text.last() == ','
        }),
{
    let text = message_text(payload);
    let start = "{\"data\":\""@.len() as int;
    let end = start + payload.len();
    reveal_strlit("{\"data\":\"");
    reveal_strlit("\"},");
    assert(text.subrange(0, start) =~= "{\"data\":\""@);
    assert(text.subrange(start, end) =~= payload);
    assert(text.skip(end) =~= "\"},"@);
}

/// A body holds every byte of the encoded events but the last, in place, between the opening and the
/// closing of a list of messages.
pub proof fn law_body_holds_all_but_last_byte(logs: Seq<u8>)
    ensures
        ({
            let body = body_of(logs);
            let kept = if logs.len() > 0 {
                logs.len() - 1
            } else {
                0
            };
            &&& body.len() == 13 + kept + 2
            &&& body.subrange(0, 13) == encode_utf8("{\"messages\":["@)
            &&& forall|i: int| 0 <= i < kept ==> body[13 + i] == #[trigger] logs[i]
            &&& body.skip(13 + kept) == encode_utf8("]}"@)
        }),
{
    lemma_body_literals();
    let body = body_of(logs);
    let kept = if logs.len() > 0 {
        logs.len() - 1
    } else {
        0
    };
    assert(body.subrange(0, 13) =~= encode_utf8("{\"messages\":["@));
    assert(body.skip(13 + kept) =~= encode_utf8("]}"@));
}

// Batches

/// The encodings of events with these payloads, one after the other.
pub open spec fn batch_text(payloads: Seq<Seq<char>>) -> Seq<char>
    decreases payloads.len(),
{
    if payloads.len() == 0 {
        Seq::empty()
    } else {
        message_text(payloads[0]) + batch_text(payloads.drop_first())
    }
}

/// The JSON object of one message.
pub open spec fn object_text(payload: Seq<char>) -> Seq<char> {
    "{\"data\":\""@ + payload + "\"}"@
}

/// The JSON objects of messages with these payloads, with commas between them.
pub open spec fn joined_text(payloads: Seq<Seq<char>>) -> Seq<char>
    decreases payloads.len(),
{
    if payloads.len() == 0 {
        Seq::empty()
    } else if payloads.len() == 1 {
        object_text(payloads[0])
    } else {
        object_text(payloads[0]) + ","@ + joined_text(payloads.drop_first())
    }
}

/// A JSON object whose member `messages` lists the messages with these payloads.
pub open spec fn request_text(payloads: Seq<Seq<char>>) -> Seq<char> {
    "{\"messages\":["@ + joined_text(payloads) + "]}"@
}

/// No payload holds a quotation mark, so none ends its string early.
pub open spec fn quote_free(payloads: Seq<Seq<char>>) -> bool {
    forall|i: int, j: int|
        0 <= i < payloads.len() && 0 <= j < payloads[i].len() ==> #[trigger] payloads[i][j] != '"'
}

proof fn lemma_batch_is_joined(payloads: Seq<Seq<char>>)
    requires
        payloads.len() > 0,
    ensures
        batch_text(payloads) == joined_text(payloads) + ","@,
    decreases payloads.len(),
{
    reveal_strlit("\"},");
    reveal_strlit("\"}");
    reveal_strlit(",");
    assert(message_text(payloads[0]) =~= object_text(payloads[0]) + ","@);
    if payloads.len() == 1 {
        assert(batch_text(payloads.drop_first()) =~= Seq::<char>::empty());
        assert(batch_text(payloads) =~= joined_text(payloads) + ","@);
    } else {
        lemma_batch_is_joined(payloads.drop_first());
        assert(batch_text(payloads) =~= joined_text(payloads) + ","@);
    }
}

/// Stringing one more encoded event to the encodings of a batch gives the encodings of the longer
/// batch.
pub proof fn law_batch_grows_by_message(payloads: Seq<Seq<char>>, payload: Seq<char>)
    ensures
        encode_utf8(batch_text(payloads.push(payload))) == encode_utf8(batch_text(payloads))
            + encode_utf8(message_text(payload)),
{
    lemma_batch_push(payloads, payload);
    lemma_encode_utf8_concat(batch_text(payloads), message_text(payload));
}

proof fn lemma_batch_push(payloads: Seq<Seq<char>>, payload: Seq<char>)
    ensures
        batch_text(payloads.push(payload)) == batch_text(payloads) + message_text(payload),
    decreases payloads.len(),
{
    let longer = payloads.push(payload);
    if payloads.len() == 0 {
        assert(batch_text(longer.drop_first()) =~= Seq::<char>::empty());
        assert(batch_text(longer) =~= batch_text(payloads) + message_text(payload));
    } else {
        lemma_batch_push(payloads.drop_first(), payload);
        assert(longer.drop_first() =~= payloads.drop_first().push(payload));
        assert(batch_text(longer) =~= batch_text(payloads) + message_text(payload));
    }
}

/// The body made of a batch of encoded events, however many they are, is a JSON object that lists
/// their messages in order: the comma that each encoding brings separates them, and the last one
/// is gone.
pub proof fn law_body_lists_messages(payloads: Seq<Seq<char>>)
    ensures
        body_of(encode_utf8(batch_text(payloads))) == encode_utf8(request_text(payloads)),
{
    let logs = encode_utf8(batch_text(payloads));
    let open = "{\"messages\":["@;
    let joined = joined_text(payloads);
    lemma_encode_utf8_concat(open, joined);
    lemma_encode_utf8_concat(open + joined, "]}"@);
    if payloads.len() == 0 {
        assert(joined =~= Seq::<char>::empty());
        assert(logs =~= encode_utf8(joined));
    } else {
        lemma_batch_is_joined(payloads);
        lemma_encode_utf8_concat(joined, ","@);
        reveal_strlit(",");
        assert(is_ascii_chars(","@));
        is_ascii_chars_encode_utf8(","@);
        assert(logs.drop_last() =~= encode_utf8(joined));
    }
}

proof fn lemma_batch_text_injective(a: Seq<Seq<char>>, b: Seq<Seq<char>>)
    requires
        quote_free(a),
        quote_free(b),
        batch_text(a) == batch_text(b),
    ensures
        a == b,
    decreases a.len(),
{
    reveal_strlit("{\"data\":\"");
    reveal_strlit("\"},");
    if a.len() == 0 || b.len() == 0 {
        if a.len() > 0 {
            assert(batch_text(a).len() >= message_text(a[0]).len() > 0);
        }
        if b.len() > 0 {
            assert(batch_text(b).len() >= message_text(b[0]).len() > 0);
        }
        assert(a =~= b);
    } else {
        let text = batch_text(a);
        let start = "{\"data\":\""@.len() as int;
        let (p, q) = (a[0], b[0]);
        // Both payloads end at the first quotation mark.
        if p.len() < q.len() {
            assert(text[start + p.len()] == '"');
            assert(text[start + p.len()] == q[p.len() as int]);
            assert(b[0][p.len() as int] != '"');
        } else if q.len() < p.len() {
            assert(text[start + q.len()] == '"');
            assert(text[start + q.len()] == p[q.len() as int]);
            assert(a[0][q.len() as int] != '"');
        }
        assert(p =~= text.subrange(start, start + p.len()));
        assert(q =~= text.subrange(start, start + q.len()));
        let (rest_a, rest_b) = (a.drop_first(), b.drop_first());
        let end = message_text(p).len() as int;
        assert(batch_text(rest_a) =~= text.skip(end));
        assert(batch_text(rest_b) =~= text.skip(end));
        assert(quote_free(rest_a)) by {
            assert forall|i: int, j: int|
                0 <= i < rest_a.len() && 0 <= j < rest_a[i].len() implies #[trigger] rest_a[i][j]
                != '"' by {
                assert(a[i + 1][j] != '"');
            }
        }
        assert(quote_free(rest_b)) by {
            assert forall|i: int, j: int|
                0 <= i < rest_b.len() && 0 <= j < rest_b[i].len() implies #[trigger] rest_b[i][j]
                != '"' by {
                assert(b[i + 1][j] != '"');
            }
        }
        lemma_batch_text_injective(rest_a, rest_b);
        assert(a =~= seq![p] + rest_a);
        assert(b =~= seq![q] + rest_b);
    }
}

/// The body of a publish request tells which messages it carries, and in which order: batches of
/// payloads without quotation marks, as base64 payloads are, have different bodies unless they are
/// the same.
pub proof fn law_body_determines_messages(a: Seq<Seq<char>>, b: Seq<Seq<char>>)
    requires
        quote_free(a),
        quote_free(b),
        body_of(encode_utf8(batch_text(a))) == body_of(encode_utf8(batch_text(b))),
    ensures
        a == b,
{
    law_body_lists_messages(a);
    law_body_lists_messages(b);
    lemma_encode_utf8_injective(request_text(a), request_text(b));
    let (ta, tb) = (request_text(a), request_text(b));
    let start = "{\"messages\":["@.len() as int;
    let (ja, jb) = (joined_text(a), joined_text(b));
    assert(ja =~= ta.subrange(start, start + ja.len()));
    assert(jb =~= tb.subrange(start, start + jb.len()));
    assert(ja == jb);
    reveal_strlit("{\"data\":\"");
    if a.len() > 0 {
        lemma_batch_is_joined(a);
        assert(ja.len() > 0);
    }
    if b.len() > 0 {
        lemma_batch_is_joined(b);
        assert(jb.len() > 0);
    }
    lemma_batch_text_injective(a, b);
}

/// Payloads in base64, as [`encode_event`] writes them, hold no quotation mark.
pub proof fn law_base64_is_quote_free(payloads: Seq<Seq<char>>)
    requires
        forall|i: int| 0 <= i < payloads.len() ==> is_base64(#[trigger] payloads[i]),
    ensures
        quote_free(payloads),
{
    assert forall|i: int, j: int|
        0 <= i < payloads.len() && 0 <= j < payloads[i].len() implies #[trigger] payloads[i][j]
        != '"' by {
        assert(is_base64(payloads[i]));
        assert(is_base64_char(payloads[i][j]));
    }
}

/// The payloads of events with these JSON texts.
pub open spec fn payloads_of(texts: Seq<Seq<char>>) -> Seq<Seq<char>> {
    texts.map_values(|json: Seq<char>| payload_of(json))
}

/// The body of the request that carries events with these JSON texts.
pub open spec fn body_for(texts: Seq<Seq<char>>) -> Seq<u8> {
    body_of(encode_utf8(batch_text(payloads_of(texts))))
}

/// Each event of a batch can be told from the body of the request that carries it: batches have
/// different bodies unless the JSON texts of their events are the same, in the same order.
pub proof fn law_body_determines_events(a: Seq<Seq<char>>, b: Seq<Seq<char>>)
    requires
        body_for(a) == body_for(b),
    ensures
        a == b,
{
    law_body_reads_back(a);
    law_body_reads_back(b);
}

// Runs

/// The payloads of the messages that a body lists.
pub open spec fn messages_of(body: Seq<u8>) -> Seq<Seq<char>> {
    choose|payloads: Seq<Seq<char>>|
        quote_free(payloads) && body == encode_utf8(#[trigger] request_text(payloads))
}

/// The JSON texts that a body carries.
pub open spec fn texts_of(body: Seq<u8>) -> Seq<Seq<char>> {
    messages_of(body).map_values(|payload: Seq<char>| json_of(payload))
}

/// The JSON texts that the bodies of several requests carry, one body after the other.
pub open spec fn read_back(bodies: Seq<Seq<u8>>) -> Seq<Seq<char>>
    decreases bodies.len(),
{
    if bodies.len() == 0 {
        Seq::empty()
    } else {
        texts_of(bodies[0]) + read_back(bodies.drop_first())
    }
}

/// Reading the body of a request gives back the JSON texts of the events that it was made of, in
/// order: as many as there were, none lost and none twice.
pub proof fn law_body_reads_back(texts: Seq<Seq<char>>)
    ensures
        messages_of(body_for(texts)) == payloads_of(texts),
        texts_of(body_for(texts)) == texts,
{
    let payloads = payloads_of(texts);
    assert forall|i: int| 0 <= i < payloads.len() implies is_base64(#[trigger] payloads[i]) by {
        law_payload_is_recoverable(texts[i]);
    }
    law_base64_is_quote_free(payloads);
    law_body_lists_messages(payloads);
    let read = messages_of(body_for(texts));
    assert(quote_free(read) && body_for(texts) == encode_utf8(request_text(read)));
    law_body_lists_messages(read);
    law_body_determines_messages(read, payloads);
    assert forall|i: int| 0 <= i < texts.len() implies json_of(payloads[i])
        == #[trigger] texts[i] by {
        law_payload_is_recoverable(texts[i]);
    }
    assert(texts_of(body_for(texts)) =~= texts);
}

/// However the events of a run are cut into batches, reading the bodies of its requests in the
/// order of the batches gives back exactly the JSON texts of the events, in order.
pub proof fn law_run_reads_back(batches: Seq<Seq<Seq<char>>>)
    ensures
        read_back(batches.map_values(|texts: Seq<Seq<char>>| body_for(texts))) == batches.flatten(),
    decreases batches.len(),
{
    let bodies = batches.map_values(|texts: Seq<Seq<char>>| body_for(texts));
    if batches.len() > 0 {
        let rest = batches.drop_first();
        law_body_reads_back(batches[0]);
        law_run_reads_back(rest);
        assert(bodies.drop_first() =~= rest.map_values(|texts: Seq<Seq<char>>| body_for(texts)));
    }
}

} // verus!

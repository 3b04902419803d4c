//! The edge of the plugin: what comes in as bytes, and what goes out as bytes.

use crate::call::Call;
use crate::connections::Connections;
use crate::db::{handle, take_pending_diagnostics};
#[allow(unused_imports)]
use crate::db::{plan, planned};
use crate::json::{parse_json, Json, JsonView};
#[allow(unused_imports)]
use crate::json::{
    field_of, json_text, no_fields, parsed_json, readable, text_list, texts_view, with_field,
};
use crate::text::lossy;
#[allow(unused_imports)]
use crate::text::lossy_text;
use vstd::prelude::*;
use vstd::string::*;
use vstd::utf8::*;

verus! {

/// The answer of success.
pub open spec fn ok_reply() -> JsonView {
    with_field(no_fields(), "ok"@, JsonView::Bool(true))
}

/// The answer of failure.
pub open spec fn error_reply(error: Seq<char>) -> JsonView {
    with_field(
        with_field(no_fields(), "ok"@, JsonView::Bool(false)),
        "error"@,
        JsonView::Text(error),
    )
}

/// The text in a stretch of memory.
pub open spec fn memory_text(bytes: Seq<u8>) -> Seq<char> {
    if bytes.len() == 0 {
        Seq::empty()
    } else {
        lossy_text(bytes)
    }
}

/// The request in a stretch of memory: one that is not JSON counts as one without fields.
pub open spec fn memory_request(bytes: Seq<u8>) -> JsonView {
    match parsed_json(memory_text(bytes)) {
        Some(v) => v,
        None => no_fields(),
    }
}

/// The address and the length of an answer in one number: the address in the low half.
pub open spec fn packed_answer(ptr: u32, len: nat) -> int {
    if len == 0 {
        0
    } else {
        ptr + len * 0x1_0000_0000
    }
}

/// An answer with diagnostics: they join an object, and nothing else.
pub open spec fn with_diagnostics(answer: JsonView, diagnostics: Seq<Seq<char>>) -> JsonView {
    with_field(answer, "diagnostics"@, text_list(diagnostics))
}

/// The bytes of a value's JSON text.
pub open spec fn json_bytes(v: JsonView) -> Seq<u8> {
    encode_utf8(json_text(v))
}

/// An answer in bytes, with diagnostics.
pub open spec fn attached(response: Seq<u8>, diagnostics: Seq<Seq<char>>) -> Seq<u8> {
    if diagnostics.len() == 0 {
        response
    } else if response.len() == 0 {
        json_bytes(with_diagnostics(no_fields(), diagnostics))
    } else {
        match parsed_json(lossy_text(response)) {
            Some(v) => json_bytes(with_diagnostics(v, diagnostics)),
            None => response,
        }
    }
}

/// The address and the length of an answer come back from its number, and only the number
/// of no answer is zero.
pub proof fn law_answers_can_be_found(ptr: u32, len: u32, found: (u32, u32))
    requires
        len > 0,
        packed_answer(ptr, len as nat) == found.0 + found.1 * 0x1_0000_0000,
    ensures
        found == (ptr, len),
        packed_answer(ptr, len as nat) != 0,
{
}

/// Diagnostics become one field of an answer that is an object; its other fields stay as
/// they are.
pub proof fn law_diagnostics_are_added(
    fields: Map<Seq<char>, JsonView>,
    diagnostics: Seq<Seq<char>>,
    key: Seq<char>,
)
    ensures
        field_of(with_diagnostics(JsonView::Object(fields), diagnostics), key) == if key
            == "diagnostics"@ {
            Some(text_list(diagnostics))
        } else {
            field_of(JsonView::Object(fields), key)
        },
{
}

/// What the host has put in memory is read whole: a text is what its bytes decode to, and a
/// request is the value that this text stands for, or one without fields where it is not JSON.
pub proof fn law_memory_is_read_whole(bytes: Seq<u8>)
    ensures
        bytes.len() > 0 ==> memory_text(bytes) == lossy_text(bytes),
        bytes.len() == 0 ==> memory_text(bytes).len() == 0,
        parsed_json(memory_text(bytes)) is Some ==> Some(memory_request(bytes)) == parsed_json(
            memory_text(bytes),
        ),
        parsed_json(memory_text(bytes)) is None ==> memory_request(bytes) == JsonView::Object(
            Map::empty(),
        ),
{
}

/// An answer goes out as the bytes of its JSON text, and where there is none, so does nothing.
pub proof fn law_answers_go_out_as_text(v: JsonView, ptr: u32)
    ensures
        json_bytes(v) == encode_utf8(json_text(v)),
        packed_answer(ptr, 0) == 0,
        ok_reply() == JsonView::Object(map!["ok"@ => JsonView::Bool(true)]),
{
}

/// A failure goes out with its error, all of it.
pub proof fn law_failures_go_out_with_their_error(error: Seq<char>)
    ensures
        error_reply(error) == JsonView::Object(
            map!["ok"@ => JsonView::Bool(false)].insert("error"@, JsonView::Text(error)),
        ),
{
}

/// Diagnostics are merged as follows. Without any, the answer is untouched. Where there is no
/// answer, an object is made that holds them alone. An answer that is an object holds them,
/// all and in order, as one more field; one that is another value is printed again; and one
/// that is not JSON is untouched.
pub proof fn law_diagnostics_are_merged(response: Seq<u8>, diagnostics: Seq<Seq<char>>)
    ensures
        ({
            let all = JsonView::List(diagnostics.map_values(|t: Seq<char>| JsonView::Text(t)));
            let r = attached(response, diagnostics);
            let v = parsed_json(lossy_text(response));
            &&& diagnostics.len() == 0 ==> r == response
            &&& diagnostics.len() > 0 && response.len() == 0 ==> r == encode_utf8(
                json_text(JsonView::Object(map!["diagnostics"@ => all])),
            )
            &&& diagnostics.len() > 0 && response.len() > 0 ==> match v {
                Some(JsonView::Object(m)) => r == encode_utf8(
                    json_text(JsonView::Object(m.insert("diagnostics"@, all))),
                ),
                Some(other) => r == encode_utf8(json_text(other)),
                None => r == response,
            }
        }),
{
}

/// Diagnostics reach the answer of their own call alone: `left` is what `attach_diagnostics`
/// leaves pending, and to it a later call adds what is `pushed` then. The later answer gets
/// that and no more, and stays as it is where nothing was pushed.
pub proof fn law_diagnostics_reach_one_answer(
    left: Seq<String>,
    pushed: Seq<String>,
    later: Seq<u8>,
)
    requires
        left.len() == 0,
    ensures
        attached(later, texts_view(left + pushed)) == attached(later, texts_view(pushed)),
        pushed.len() == 0 ==> attached(later, texts_view(left + pushed)) == later,
{
    assert(left + pushed =~= pushed);
    assert(texts_view(pushed).len() == pushed.len());
}

/// The text in a stretch of memory.
pub fn read_str(bytes: &[u8]) -> (r: String)
    ensures
        r@ == memory_text(bytes@),
        valid_utf8(bytes@) ==> r@ == decode_utf8(bytes@),
{
    if bytes.len() == 0 {
        return String::new();
    }
    lossy(bytes)
}

/// The number that tells the host where an answer is: zero for no answer, otherwise the
/// address of the block that holds it and its length.
pub fn return_bytes(bytes: &[u8], ptr: u32) -> (r: u64)
    requires
        bytes@.len() <= u32::MAX,
    ensures
        r == packed_answer(ptr, bytes@.len()),
{
    if bytes.len() == 0 {
        return 0;
    }
    let len: u64 = bytes.len() as u64;
    let low: u64 = ptr as u64;
    assert((low & 0xffff_ffff) | (len << 32) == low + len * 0x1_0000_0000) by (bit_vector)
        requires
            low <= 0xffff_ffff,
            len <= 0xffff_ffff,
    ;
    (low & 0xffff_ffff) | (len << 32)
}

/// The address and the length in the number of an answer.
pub fn unpack(packed: u64) -> (r: (u32, u32))
    ensures
        packed == r.0 + r.1 * 0x1_0000_0000,
{
    let low: u64 = packed & 0xffff_ffff;
    let high: u64 = packed >> 32;
    assert(low <= 0xffff_ffff && high <= 0xffff_ffff && packed == low + high * 0x1_0000_0000)
        by (bit_vector)
        requires
            low == packed & 0xffff_ffff,
            high == packed >> 32,
    ;
    (low as u32, high as u32)
}

/// The bytes of an answer's JSON text.
pub fn return_json(v: &Json) -> (r: Vec<u8>)
    ensures
        r@ == json_bytes(v@),
        r@.len() > 0,
        readable(v@, 127) ==> parsed_json(json_text(v@)) == Some(v@),
{
    let text = v.to_text();
    proof {
        encode_utf8_decode_utf8(text@);
    }
    text.as_str().as_bytes_vec()
}

/// The answer to what has no result but success.
pub fn ok_err(r: Result<(), String>) -> (j: Json)
    ensures
        j@ == match r {
            Ok(_) => ok_reply(),
            Err(e) => error_reply(e@),
        },
{
    match r {
        Ok(()) => Json::object().with("ok", Json::Bool(true)),
        Err(e) => Json::object().with("ok", Json::Bool(false)).with("error", Json::Text(e)),
    }
}

/// Starts a call from what the host has put in memory.
pub fn plugin_call(verb: &[u8], body: &[u8], connections: &mut Connections) -> (r: Call)
    ensures
        (r@, final(connections)@) == planned(
            old(connections)@,
            plan(memory_text(verb@), memory_request(body@)),
        ),
{
    let verb = read_str(verb);
    let body = match parse_json(read_str(body).as_str()) {
        Some(j) => j,
        None => Json::object(),
    };
    handle(verb.as_str(), &body, connections)
}

/// An answer with diagnostics: they join an object, and nothing else.
pub fn merge_diagnostics(answer: Json, diagnostics: Vec<String>) -> (r: Json)
    ensures
        r@ == with_diagnostics(answer@, texts_view(diagnostics@)),
{
    answer.with("diagnostics", Json::texts(diagnostics))
}

/// Merges the diagnostics that are pending into the answer of their call. Without any the
/// answer stays as it is; where there is no answer, one is made to carry them; and an answer
/// that is not JSON is passed on unchanged, without them. In every case none are pending
/// afterwards, so that none reaches the answer of a later call.
pub fn attach_diagnostics(response: Vec<u8>, pending: &mut Vec<String>) -> (r: Vec<u8>)
    ensures
        r@ == attached(response@, texts_view(old(pending)@)),
        final(pending)@.len() == 0,
        old(pending)@.len() == 0 ==> r@ == response@,
        old(pending)@.len() > 0 && response@.len() > 0 && valid_utf8(response@) ==> lossy_text(
            response@,
        ) == decode_utf8(response@),
        response@.len() > 0 && parsed_json(lossy_text(response@)) is None ==> r@ == response@,
{
    let diagnostics = take_pending_diagnostics(pending);
    if diagnostics.len() == 0 {
        return response;
    }
    if response.len() == 0 {
        return return_json(&merge_diagnostics(Json::object(), diagnostics));
    }
    let text = read_str(response.as_slice());
    match parse_json(text.as_str()) {
        Some(value) => return_json(&merge_diagnostics(value, diagnostics)),
        None => response,
    }
}

/// The bytes of a call's answer and of the diagnostics that are pending. An answer that
/// comes back from its own text carries them as one more field. None are pending afterwards.
pub fn respond(answer: &Json, pending: &mut Vec<String>) -> (r: Vec<u8>)
    ensures
        r@ == attached(json_bytes(answer@), texts_view(old(pending)@)),
        final(pending)@.len() == 0,
        readable(answer@, 127) ==> r@ == json_bytes(
            if old(pending)@.len() == 0 {
                answer@
            } else {
                with_diagnostics(answer@, texts_view(old(pending)@))
            },
        ),
{
    let response = return_json(answer);
    proof {
        encode_utf8_decode_utf8(json_text(answer@));
        encode_utf8_valid_utf8(json_text(answer@));
    }
    attach_diagnostics(response, pending)
}

} // verus!

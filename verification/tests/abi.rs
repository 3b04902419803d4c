use libsql_plugin::abi::{
    attach_diagnostics, merge_diagnostics, ok_err, plugin_call, read_str, respond, return_bytes,
    return_json, unpack,
};
use libsql_plugin::connections::Connections;
use libsql_plugin::db::take_pending_diagnostics;
use libsql_plugin::driver::Action;
use libsql_plugin::json::Json;

fn text(bytes: Vec<u8>) -> String {
    String::from_utf8(bytes).unwrap()
}

fn notes(n: usize) -> Vec<String> {
    (0..n).map(|i| format!("note {i}")).collect()
}

#[test]
fn memory_is_read_as_text() {
    assert_eq!(read_str(b""), "");
    assert_eq!(read_str("caf\u{e9}".as_bytes()), "caf\u{e9}");
    assert_eq!(read_str(b"a\xc3("), "a\u{fffd}(");
}

#[test]
fn an_answer_is_packed_and_found() {
    assert_eq!(return_bytes(b"", 64), 0);
    assert_eq!(return_bytes(b"abc", 64), 64 + (3u64 << 32));
    assert_eq!(unpack(return_bytes(b"abc", u32::MAX)), (u32::MAX, 3));
    assert_eq!(unpack(u64::MAX), (u32::MAX, u32::MAX));
    assert_eq!(unpack(0), (0, 0));
}

#[test]
fn answers_are_json_text() {
    assert_eq!(text(return_json(&ok_err(Ok(())))), "{\"ok\":true}");
    assert_eq!(
        text(return_json(&ok_err(Err("no \"luck\"".to_string())))),
        "{\"error\":\"no \\\"luck\\\"\",\"ok\":false}"
    );
}

#[test]
fn a_call_starts_from_bytes() {
    let mut connections = Connections::new();
    let call = plugin_call(b"exec", b"{\"path\":\"/f\"}", &mut connections);
    assert_eq!(call.action(), Some(Action::Open { path: "/f".to_string(), flags: 6 }));
    let call = plugin_call(b"dr\xffop", b"", &mut connections);
    assert_eq!(
        call.answer().unwrap().get("verb"),
        Some(&Json::text("dr\u{fffd}op"))
    );
}

#[test]
fn a_request_that_is_not_json_has_no_fields() {
    let mut connections = Connections::new();
    for body in ["", "{", "{\"path\":\"/f\"} x"] {
        let call = plugin_call(b"exec", body.as_bytes(), &mut connections);
        assert_eq!(call.action(), Some(Action::Open { path: ":memory:".to_string(), flags: 6 }));
    }
}

#[test]
fn without_diagnostics_nothing_changes() {
    assert_eq!(attach_diagnostics(b"{ }".to_vec(), &mut vec![]), b"{ }".to_vec());
    assert_eq!(attach_diagnostics(vec![0xff], &mut vec![]), vec![0xff]);
    assert_eq!(attach_diagnostics(vec![], &mut vec![]), Vec::<u8>::new());
}

#[test]
fn diagnostics_join_an_object() {
    assert_eq!(
        text(attach_diagnostics(b"{\"ok\": true}".to_vec(), &mut notes(2))),
        "{\"diagnostics\":[\"note 0\",\"note 1\"],\"ok\":true}"
    );
    assert_eq!(
        text(attach_diagnostics(b"{\"diagnostics\":1}".to_vec(), &mut notes(1))),
        "{\"diagnostics\":[\"note 0\"]}"
    );
}

#[test]
fn diagnostics_do_not_join_anything_else() {
    assert_eq!(text(attach_diagnostics(b" [1, 2]".to_vec(), &mut notes(1))), "[1,2]");
    assert_eq!(attach_diagnostics(b"oops".to_vec(), &mut notes(1)), b"oops".to_vec());
    assert_eq!(attach_diagnostics(b"oops\xff".to_vec(), &mut notes(1)), b"oops\xff".to_vec());
    assert_eq!(merge_diagnostics(Json::Null, notes(1)), Json::Null);
}

#[test]
fn diagnostics_without_answer_are_not_lost() {
    assert_eq!(text(attach_diagnostics(vec![], &mut notes(1))), "{\"diagnostics\":[\"note 0\"]}");
}

#[test]
fn a_call_is_answered_with_its_diagnostics() {
    let answer = ok_err(Ok(()));
    assert_eq!(text(respond(&answer, &mut vec![])), "{\"ok\":true}");
    assert_eq!(
        text(respond(&answer, &mut notes(1))),
        "{\"diagnostics\":[\"note 0\"],\"ok\":true}"
    );
}

#[test]
fn no_diagnostics_are_left_pending() {
    for response in [&b""[..], b"{}", b"[1]", b"oops\xff"] {
        let mut pending = notes(2);
        attach_diagnostics(response.to_vec(), &mut pending);
        assert!(pending.is_empty());
        assert_eq!(attach_diagnostics(b" {}".to_vec(), &mut pending), b" {}".to_vec());
    }
    let mut pending = notes(1);
    respond(&ok_err(Ok(())), &mut pending);
    assert_eq!(text(respond(&ok_err(Ok(())), &mut pending)), "{\"ok\":true}");
}

#[test]
fn pending_diagnostics_are_taken() {
    let mut pending = notes(2);
    assert_eq!(take_pending_diagnostics(&mut pending), notes(2));
    assert_eq!(take_pending_diagnostics(&mut pending), notes(0));
}

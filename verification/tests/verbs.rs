use libsql_plugin::connections::{Connections, Target};
use libsql_plugin::db::{handle, str_params};
use libsql_plugin::driver::Action;
use libsql_plugin::json::{parse_json, Json};

/// The answer to a request that needs nothing of SQLite.
fn reply(verb: &str, body: &str) -> String {
    let mut connections = Connections::new();
    let body = parse_json(body).unwrap();
    let call = handle(verb, &body, &mut connections);
    assert_eq!(call.action(), None);
    call.answer().unwrap().to_text()
}

/// The first call into SQLite that a request leads to.
fn first_action(verb: &str, body: &str) -> Option<Action<String, Vec<u8>>> {
    let mut connections = Connections::new();
    let body = parse_json(body).unwrap();
    handle(verb, &body, &mut connections).action()
}

#[test]
fn inert_verbs_are_answered_at_once() {
    for verb in ["open", "close", "begin", "commit", "rollback", "finalize"] {
        assert_eq!(reply(verb, "{\"path\":\"/f\"}"), "{\"ok\":true}");
    }
}

#[test]
fn there_are_no_dbs_to_list() {
    assert_eq!(reply("list_dbs", "{}"), "{\"dbs\":[],\"ok\":true}");
}

#[test]
fn prepare_points_to_its_successor() {
    assert_eq!(
        reply("prepare", "{}"),
        "{\"error\":\"prepare/finalize handles removed -- use prepare_execute (or exec_params) which does prepare+bind+step+finalize atomically per call\",\"ok\":false}"
    );
}

#[test]
fn an_unknown_verb_is_named() {
    assert_eq!(
        reply("drop", "[]"),
        "{\"error\":\"unknown_verb\",\"ok\":false,\"verb\":\"drop\"}"
    );
    assert_eq!(reply("", "{}"), "{\"error\":\"unknown_verb\",\"ok\":false,\"verb\":\"\"}");
}

#[test]
fn capabilities_are_told() {
    assert_eq!(
        reply("capabilities", "{}"),
        "{\"inert_verbs\":[\"open\",\"close\",\"begin\",\"commit\",\"rollback\"],\"ok\":true,\"payload_field\":{\"list_dbs\":\"dbs\",\"query\":\"rows\",\"query_params\":\"rows\",\"serialize\":\"bytes_b64\"},\"plugin\":\"libsql\",\"stateless_per_call\":true,\"verbs\":[\"open\",\"close\",\"exec\",\"exec_params\",\"query\",\"query_params\",\"prepare_execute\",\"execute_bound\",\"begin\",\"commit\",\"rollback\",\"serialize\",\"deserialize\",\"list_dbs\",\"version\",\"capabilities\"]}"
    );
}

#[test]
fn every_capability_is_handled() {
    let told = parse_json(&reply("capabilities", "{}")).unwrap();
    for verb in told.get("verbs").unwrap().as_array().unwrap() {
        let mut connections = Connections::new();
        let call = handle(verb.as_str().unwrap(), &Json::object(), &mut connections);
        if let Some(answer) = call.answer() {
            assert_eq!(answer.get("ok"), Some(&Json::Bool(true)));
        }
    }
}

#[test]
fn parameters_become_texts() {
    let body = parse_json("{\"params\":[\"a\",1,-2.5,true,null,[\"x\"]]}").unwrap();
    assert_eq!(str_params(&body), vec!["a", "1", "-2.5", "true", "null", "[\"x\"]"]);
    let none: Vec<String> = vec![];
    for body in ["{}", "{\"params\":\"a\"}", "{\"params\":[]}", "[]", "null"] {
        assert_eq!(str_params(&parse_json(body).unwrap()), none);
    }
}

#[test]
fn a_request_without_path_is_in_memory() {
    let open = Some(Action::Open { path: ":memory:".to_string(), flags: 6 });
    assert_eq!(first_action("exec", "{}"), open);
    assert_eq!(first_action("exec", "{\"path\":5}"), open);
    assert_eq!(first_action("exec", "{\"db\":5,\"db_name\":\"n\"}"), open);
    assert_eq!(first_action("exec", "{\"db\":\"n\"}"), Some(Action::LockMemory));
    assert_eq!(first_action("exec", "{\"db_name\":\"n\"}"), Some(Action::LockMemory));
}

#[test]
fn a_handled_request_keeps_nothing_before_it_has_run() {
    let mut connections = Connections::new();
    let body = parse_json("{\"path\":\"/f\"}").unwrap();
    let call = handle("query", &body, &mut connections);
    assert_eq!(call.action(), Some(Action::Open { path: "/f".to_string(), flags: 6 }));
    assert_eq!(connections.find(&Target::File("/f".to_string())), None);
}

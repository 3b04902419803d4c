use libsql_plugin::call::{libsql_version, Call};
use libsql_plugin::connections::{with_db, Connections, Target};
use libsql_plugin::db::handle;
use libsql_plugin::driver::{Action, Event, SQLITE_NULL};
use libsql_plugin::json::{parse_json, Json};
use libsql_plugin::operation::Job;
use serde_json::Number;

type A = Action<String, Vec<u8>>;
type E = Event<String, Vec<u8>>;

fn s(t: &str) -> String {
    t.to_string()
}

fn b(t: &str) -> Option<Vec<u8>> {
    Some(t.as_bytes().to_vec())
}

/// Runs a request against a script of expected calls and their results.
fn run(connections: &mut Connections, verb: &str, body: &str, script: Vec<(A, E)>) -> String {
    let body = parse_json(body).unwrap();
    let mut call = handle(verb, &body, connections);
    for (expected, event) in script {
        assert_eq!(call.action(), Some(expected));
        assert_eq!(call.answer(), None);
        call = call.resume(connections, event);
    }
    assert_eq!(call.action(), None);
    call.answer().unwrap().to_text()
}

/// The calls that open a connection whose mode is read back as `mode`.
fn opening(path: &str, db: u64, mode: &str) -> Vec<(A, E)> {
    vec![
        (Action::Open { path: s(path), flags: 6 }, Event::Handle { code: 0, handle: db }),
        (Action::BusyTimeout { db, ms: 8_000 }, Event::Done),
        (
            Action::Exec { db, sql: s("PRAGMA journal_mode=WAL;") },
            Event::Executed { code: 0, message: None },
        ),
        (
            Action::Prepare { db, sql: s("PRAGMA journal_mode;") },
            Event::Handle { code: 0, handle: 900 },
        ),
        (Action::Step { stmt: 900 }, Event::Code(100)),
        (Action::ColumnText { stmt: 900, index: 0 }, Event::Text(b(mode))),
        (Action::Finalize { stmt: 900 }, Event::Done),
        (Action::ResetProgress, Event::Done),
        (Action::ProgressHandler { db, interval: 10_000 }, Event::Done),
    ]
}

/// The calls that open a connection to a path known to be converted.
fn reopening(path: &str, db: u64) -> Vec<(A, E)> {
    vec![
        (Action::Open { path: s(path), flags: 6 }, Event::Handle { code: 0, handle: db }),
        (Action::BusyTimeout { db, ms: 8_000 }, Event::Done),
        (Action::ResetProgress, Event::Done),
        (Action::ProgressHandler { db, interval: 10_000 }, Event::Done),
    ]
}

fn exec_ok(db: u64, sql: &str) -> Vec<(A, E)> {
    vec![(Action::Exec { db, sql: s(sql) }, Event::Executed { code: 0, message: None })]
}

fn joined(parts: Vec<Vec<(A, E)>>) -> Vec<(A, E)> {
    parts.into_iter().flatten().collect()
}

#[test]
fn a_file_is_opened_once() {
    let mut c = Connections::new();
    let body = "{\"path\":\"C:\\\\p\\\\gm.db\",\"sql\":\"x\",\"db\":\"gm\"}";
    let first = run(
        &mut c,
        "exec",
        body,
        joined(vec![opening("/p/gm.db", 7, "wal"), exec_ok(7, "x")]),
    );
    assert_eq!(first, "{\"ok\":true}");
    assert_eq!(c.find(&Target::File(s("/p/gm.db"))), Some(7));
    assert_eq!(c.find(&Target::Memory(s("gm"))), None);
    let second = run(&mut c, "exec", "{\"path\":\"/p/gm.db\",\"sql\":\"y\"}", exec_ok(7, "y"));
    assert_eq!(second, "{\"ok\":true}");
}

#[test]
fn different_files_get_different_connections() {
    let mut c = Connections::new();
    run(
        &mut c,
        "exec",
        "{\"path\":\"/a\",\"db\":\"gm\"}",
        joined(vec![opening("/a", 7, "wal"), exec_ok(7, "")]),
    );
    run(
        &mut c,
        "exec",
        "{\"path\":\"/b\",\"db\":\"gm\"}",
        joined(vec![opening("/b", 8, "wal"), exec_ok(8, "")]),
    );
    assert_eq!(c.find(&Target::File(s("/a"))), Some(7));
    assert_eq!(c.find(&Target::File(s("/b"))), Some(8));
}

#[test]
fn a_named_memory_database_is_kept() {
    let mut c = Connections::new();
    let lock = || vec![(Action::LockMemory, Event::Locked(None))];
    run(
        &mut c,
        "exec",
        "{\"db\":\"n\",\"sql\":\"x\"}",
        joined(vec![lock(), opening(":memory:", 7, "memory"), exec_ok(7, "x")]),
    );
    assert_eq!(c.find(&Target::Memory(s("n"))), Some(7));
    run(
        &mut c,
        "exec",
        "{\"path\":\":memory:\",\"db_name\":\"n\",\"sql\":\"y\"}",
        joined(vec![lock(), exec_ok(7, "y")]),
    );
}

#[test]
fn a_scratch_database_is_closed() {
    let mut c = Connections::new();
    let script = |db: u64| {
        joined(vec![
            opening(":memory:", db, "memory"),
            exec_ok(db, "x"),
            vec![(Action::Close { db }, Event::Done)],
        ])
    };
    assert_eq!(run(&mut c, "exec", "{\"sql\":\"x\"}", script(7)), "{\"ok\":true}");
    assert_eq!(run(&mut c, "exec", "{\"sql\":\"x\",\"db\":\"\"}", script(8)), "{\"ok\":true}");
    assert_eq!(c.find(&Target::Scratch), None);
}

#[test]
fn a_converted_path_is_not_converted_again() {
    let mut c = Connections::new();
    let close = |db: u64| vec![(Action::Close { db }, Event::Done)];
    run(
        &mut c,
        "exec",
        "{}",
        joined(vec![opening(":memory:", 7, "WAL"), exec_ok(7, ""), close(7)]),
    );
    run(&mut c, "exec", "{}", joined(vec![reopening(":memory:", 8), exec_ok(8, ""), close(8)]));
}

#[test]
fn a_contended_conversion_is_tried_again() {
    let mut c = Connections::new();
    let contended = |db: u64| -> Vec<(A, E)> {
        vec![
            (
                Action::Open { path: s(":memory:"), flags: 6 },
                Event::Handle { code: 0, handle: db },
            ),
            (Action::BusyTimeout { db, ms: 8_000 }, Event::Done),
            (
                Action::Exec { db, sql: s("PRAGMA journal_mode=WAL;") },
                Event::Executed { code: 5, message: b("database is locked") },
            ),
            (Action::ResetProgress, Event::Done),
            (Action::ProgressHandler { db, interval: 10_000 }, Event::Done),
            (Action::Exec { db, sql: s("") }, Event::Executed { code: 0, message: None }),
            (Action::Close { db }, Event::Done),
        ]
    };
    run(&mut c, "exec", "{}", contended(7));
    run(&mut c, "exec", "{}", contended(8));
}

#[test]
fn a_mode_that_cannot_be_read_back_does_not_count() {
    let mut c = Connections::new();
    let body = "{\"path\":\"/f\"}";
    let mut script = opening("/f", 7, "wal");
    script.truncate(3);
    script.push((
        Action::Prepare { db: 7, sql: s("PRAGMA journal_mode;") },
        Event::Handle { code: 1, handle: 0 },
    ));
    script.push((Action::ResetProgress, Event::Done));
    script.push((Action::ProgressHandler { db: 7, interval: 10_000 }, Event::Done));
    script.extend(exec_ok(7, ""));
    assert_eq!(run(&mut c, "exec", body, script), "{\"ok\":true}");

    let mut script = opening("/g", 8, "wal");
    script.truncate(4);
    script.push((Action::Step { stmt: 900 }, Event::Code(101)));
    script.push((Action::Finalize { stmt: 900 }, Event::Done));
    script.push((Action::ResetProgress, Event::Done));
    script.push((Action::ProgressHandler { db: 8, interval: 10_000 }, Event::Done));
    script.extend(exec_ok(8, ""));
    assert_eq!(run(&mut c, "exec", "{\"path\":\"/g\"}", script), "{\"ok\":true}");
}

#[test]
fn a_file_that_cannot_be_opened_is_told() {
    let mut c = Connections::new();
    let body = "{\"path\":\"/f\",\"sql\":\"x\"}";
    let answer = run(
        &mut c,
        "exec",
        body,
        vec![
            (Action::Open { path: s("/f"), flags: 6 }, Event::Handle { code: 14, handle: 7 }),
            (Action::ErrorMessage { db: 7 }, Event::Text(b("unable to open"))),
            (Action::CloseFailed { db: 7 }, Event::Done),
        ],
    );
    assert_eq!(
        answer,
        "{\"error\":\"sqlite3_open_v2 /f rc=14 msg=unable to open\",\"ok\":false}"
    );
    assert_eq!(c.find(&Target::File(s("/f"))), None);
    let answer = run(
        &mut c,
        "exec",
        body,
        vec![(Action::Open { path: s("/f"), flags: 6 }, Event::Handle { code: 7, handle: 0 })],
    );
    assert_eq!(answer, "{\"error\":\"sqlite3_open_v2 /f rc=7\",\"ok\":false}");
}

#[test]
fn a_path_with_a_nul_byte_is_refused() {
    let mut c = Connections::new();
    let answer = run(&mut c, "exec", "{\"path\":\"/f\\u0000\"}", vec![]);
    assert_eq!(
        answer,
        "{\"error\":\"nul byte found in provided data at position: 2\",\"ok\":false}"
    );
}

#[test]
fn a_poisoned_registry_is_told() {
    let mut c = Connections::new();
    let answer = run(
        &mut c,
        "exec",
        "{\"db\":\"n\"}",
        vec![(Action::LockMemory, Event::Locked(Some(s("poisoned lock"))))],
    );
    assert_eq!(answer, "{\"error\":\"memory registry poisoned: poisoned lock\",\"ok\":false}");
}

/// Connections with `/f` opened as connection 7.
fn with_f() -> Connections {
    let mut c = Connections::new();
    run(
        &mut c,
        "exec",
        "{\"path\":\"/f\"}",
        joined(vec![opening("/f", 7, "wal"), exec_ok(7, "")]),
    );
    c
}

#[test]
fn a_failed_exec_is_told() {
    let mut c = with_f();
    let answer = run(
        &mut c,
        "exec",
        "{\"path\":\"/f\",\"sql\":\"x\"}",
        vec![
            (
                Action::Exec { db: 7, sql: s("x") },
                Event::Executed { code: 5, message: b("database is locked") },
            ),
            (Action::ExtendedCode { db: 7 }, Event::Code(261)),
        ],
    );
    assert_eq!(answer, "{\"error\":\"exec rc=5 ext=261 msg=database is locked\",\"ok\":false}");
    let answer = run(
        &mut c,
        "exec",
        "{\"path\":\"/f\",\"sql\":\"x\"}",
        vec![
            (Action::Exec { db: 7, sql: s("x") }, Event::Executed { code: 1, message: None }),
            (Action::ExtendedCode { db: 7 }, Event::Code(1)),
        ],
    );
    assert_eq!(answer, "{\"error\":\"exec rc=1 ext=1 msg=unknown\",\"ok\":false}");
    let answer = run(&mut c, "exec", "{\"path\":\"/f\",\"sql\":\"\\u0000\"}", vec![]);
    assert_eq!(
        answer,
        "{\"error\":\"nul byte found in provided data at position: 0\",\"ok\":false}"
    );
}

#[test]
fn a_query_gives_its_rows() {
    let mut c = with_f();
    let code = |n: i32| Event::Code(n);
    let answer = run(
        &mut c,
        "query",
        "{\"path\":\"/f\",\"sql\":\"q\",\"params\":[\"a\",2,null,[1],{\"k\":true}]}",
        vec![
            (Action::Prepare { db: 7, sql: s("q") }, Event::Handle { code: 0, handle: 50 }),
            (Action::BindText { stmt: 50, index: 1, text: s("a") }, code(0)),
            (Action::BindText { stmt: 50, index: 2, text: s("2") }, code(0)),
            (Action::BindText { stmt: 50, index: 3, text: s("null") }, code(0)),
            (Action::BindText { stmt: 50, index: 4, text: s("[1]") }, code(0)),
            (Action::BindText { stmt: 50, index: 5, text: s("{\"k\":true}") }, code(0)),
            (Action::ColumnCount { stmt: 50 }, code(2)),
            (Action::ColumnName { stmt: 50, index: 0 }, Event::Text(b("n"))),
            (Action::ColumnName { stmt: 50, index: 1 }, Event::Text(b("t"))),
            (Action::Step { stmt: 50 }, code(100)),
            (Action::ColumnType { stmt: 50, index: 0 }, code(1)),
            (Action::ColumnInteger { stmt: 50, index: 0 }, Event::Integer(-5)),
            (Action::ColumnType { stmt: 50, index: 1 }, code(3)),
            (Action::ColumnText { stmt: 50, index: 1 }, Event::Text(b("x"))),
            (Action::Step { stmt: 50 }, code(100)),
            (Action::ColumnType { stmt: 50, index: 0 }, code(2)),
            (
                Action::ColumnReal { stmt: 50, index: 0 },
                Event::Real(Number::from_f64(1.5)),
            ),
            (Action::ColumnType { stmt: 50, index: 1 }, code(4)),
            (Action::ColumnBlob { stmt: 50, index: 1 }, Event::Blob { present: true, len: 12 }),
            (Action::Step { stmt: 50 }, code(101)),
            (Action::Finalize { stmt: 50 }, Event::Done),
        ],
    );
    assert_eq!(
        answer,
        "{\"ok\":true,\"rows\":[{\"n\":-5,\"t\":\"x\"},{\"n\":1.5,\"t\":\"blob:12b\"}]}"
    );
}

/// The calls of a query that gives one row with one column.
fn one_row(db: u64) -> Vec<(A, E)> {
    vec![
        (Action::Prepare { db, sql: s("q") }, Event::Handle { code: 0, handle: 50 }),
        (Action::ColumnCount { stmt: 50 }, Event::Code(1)),
        (Action::ColumnName { stmt: 50, index: 0 }, Event::Text(b("n"))),
        (Action::Step { stmt: 50 }, Event::Code(100)),
        (Action::ColumnType { stmt: 50, index: 0 }, Event::Code(1)),
        (Action::ColumnInteger { stmt: 50, index: 0 }, Event::Integer(1)),
        (Action::Step { stmt: 50 }, Event::Code(101)),
        (Action::Finalize { stmt: 50 }, Event::Done),
    ]
}

#[test]
fn a_query_gives_its_rows_on_every_target() {
    let rows = "{\"ok\":true,\"rows\":[{\"n\":1}]}";
    let mut c = Connections::new();
    let file = joined(vec![opening("/f", 7, "wal"), one_row(7)]);
    assert_eq!(run(&mut c, "query", "{\"path\":\"/f\",\"sql\":\"q\"}", file), rows);
    let memory = joined(vec![
        vec![(Action::LockMemory, Event::Locked(None))],
        opening(":memory:", 8, "memory"),
        one_row(8),
    ]);
    assert_eq!(run(&mut c, "query", "{\"db\":\"a\",\"sql\":\"q\"}", memory), rows);
    let again = joined(vec![vec![(Action::LockMemory, Event::Locked(None))], one_row(8)]);
    assert_eq!(run(&mut c, "query", "{\"db\":\"a\",\"sql\":\"q\"}", again), rows);
    let scratch = joined(vec![
        opening(":memory:", 9, "memory"),
        one_row(9),
        vec![(Action::Close { db: 9 }, Event::Done)],
    ]);
    assert_eq!(run(&mut c, "query", "{\"sql\":\"q\"}", scratch), rows);
}

#[test]
fn different_names_get_different_connections() {
    let mut c = Connections::new();
    for (name, db) in [("a", 7), ("b", 8)] {
        let script = joined(vec![
            vec![(Action::LockMemory, Event::Locked(None))],
            opening(":memory:", db, "memory"),
            exec_ok(db, ""),
        ]);
        run(&mut c, "exec", &format!("{{\"db\":\"{name}\"}}"), script);
    }
    assert_eq!(c.find(&Target::Memory(s("a"))), Some(7));
    assert_eq!(c.find(&Target::Memory(s("b"))), Some(8));
}

#[test]
fn of_columns_with_one_name_the_last_counts() {
    let mut c = with_f();
    let answer = run(
        &mut c,
        "query_params",
        "{\"path\":\"/f\",\"sql\":\"q\"}",
        vec![
            (Action::Prepare { db: 7, sql: s("q") }, Event::Handle { code: 0, handle: 50 }),
            (Action::ColumnCount { stmt: 50 }, Event::Code(2)),
            (Action::ColumnName { stmt: 50, index: 0 }, Event::Text(b("n"))),
            (Action::ColumnName { stmt: 50, index: 1 }, Event::Text(b("n"))),
            (Action::Step { stmt: 50 }, Event::Code(100)),
            (Action::ColumnType { stmt: 50, index: 0 }, Event::Code(1)),
            (Action::ColumnInteger { stmt: 50, index: 0 }, Event::Integer(1)),
            (Action::ColumnType { stmt: 50, index: 1 }, Event::Code(SQLITE_NULL)),
            (Action::Step { stmt: 50 }, Event::Code(101)),
            (Action::Finalize { stmt: 50 }, Event::Done),
        ],
    );
    assert_eq!(answer, "{\"ok\":true,\"rows\":[{\"n\":null}]}");
}

#[test]
fn a_query_without_columns_gives_empty_rows() {
    let mut c = with_f();
    let answer = run(
        &mut c,
        "query",
        "{\"path\":\"/f\"}",
        vec![
            (Action::Prepare { db: 7, sql: s("") }, Event::Handle { code: 0, handle: 50 }),
            (Action::ColumnCount { stmt: 50 }, Event::Code(0)),
            (Action::Step { stmt: 50 }, Event::Code(100)),
            (Action::Step { stmt: 50 }, Event::Code(101)),
            (Action::Finalize { stmt: 50 }, Event::Done),
        ],
    );
    assert_eq!(answer, "{\"ok\":true,\"rows\":[{}]}");
}

#[test]
fn a_failed_query_tells_its_steps() {
    let mut c = with_f();
    let body = "{\"path\":\"/f\",\"sql\":\"q\",\"params\":[\"a\"]}";
    let prepare = |code: i32| -> (A, E) {
        (Action::Prepare { db: 7, sql: s("q") }, Event::Handle { code, handle: 50 })
    };
    let bind = |code: i32| -> (A, E) {
        (Action::BindText { stmt: 50, index: 1, text: s("a") }, Event::Code(code))
    };
    let answer = run(
        &mut c,
        "query",
        body,
        vec![
            prepare(1),
            (Action::ErrorMessage { db: 7 }, Event::Text(b("syntax error"))),
            (Action::ReadProgress, Event::Steps(0)),
        ],
    );
    assert_eq!(
        answer,
        "{\"error\":\"prepare rc=1 msg=syntax error (vm_steps=0)\",\"ok\":false}"
    );
    let answer = run(
        &mut c,
        "query",
        body,
        vec![
            prepare(0),
            bind(25),
            (Action::Finalize { stmt: 50 }, Event::Done),
            (Action::ReadProgress, Event::Steps(3)),
        ],
    );
    assert_eq!(answer, "{\"error\":\"bind param 0 rc=25 (vm_steps=3)\",\"ok\":false}");
    let answer = run(
        &mut c,
        "query",
        body,
        vec![
            prepare(0),
            bind(0),
            (Action::ColumnCount { stmt: 50 }, Event::Code(0)),
            (Action::Step { stmt: 50 }, Event::Code(9)),
            (Action::ErrorMessage { db: 7 }, Event::Text(b("interrupted"))),
            (Action::Finalize { stmt: 50 }, Event::Done),
            (Action::ReadProgress, Event::Steps(2_000_001)),
        ],
    );
    assert_eq!(
        answer,
        "{\"error\":\"step rc=9 msg=interrupted (vm_steps=2000001)\",\"ok\":false}"
    );
    let answer = run(
        &mut c,
        "query",
        "{\"path\":\"/f\",\"sql\":\"q\",\"params\":[\"a\",\"b\\u0000\"]}",
        vec![(Action::ReadProgress, Event::Steps(1))],
    );
    assert_eq!(
        answer,
        "{\"error\":\"nul byte found in provided data at position: 1 (vm_steps=1)\",\"ok\":false}"
    );
}

#[test]
fn a_scratch_database_is_closed_after_a_failed_query() {
    let mut c = Connections::new();
    let answer = run(
        &mut c,
        "query",
        "{\"sql\":\"q\"}",
        joined(vec![
            opening(":memory:", 7, "memory"),
            vec![
                (Action::Prepare { db: 7, sql: s("q") }, Event::Handle { code: 1, handle: 0 }),
                (Action::ErrorMessage { db: 7 }, Event::Text(b("no"))),
                (Action::Close { db: 7 }, Event::Done),
                (Action::ReadProgress, Event::Steps(0)),
            ],
        ]),
    );
    assert_eq!(answer, "{\"error\":\"prepare rc=1 msg=no (vm_steps=0)\",\"ok\":false}");
}

#[test]
fn a_statement_with_parameters_is_stepped_once() {
    let body = "{\"path\":\"/f\",\"sql\":\"q\",\"params\":[\"a\"]}";
    for verb in ["exec_params", "prepare_execute", "execute_bound"] {
        for step in [100, 101] {
            let mut c = with_f();
            let answer = run(
                &mut c,
                verb,
                body,
                vec![
                    (
                        Action::Prepare { db: 7, sql: s("q") },
                        Event::Handle { code: 0, handle: 50 },
                    ),
                    (Action::BindText { stmt: 50, index: 1, text: s("a") }, Event::Code(0)),
                    (Action::Step { stmt: 50 }, Event::Code(step)),
                    (Action::Finalize { stmt: 50 }, Event::Done),
                ],
            );
            assert_eq!(answer, "{\"ok\":true}");
        }
    }
    let mut c = with_f();
    let answer = run(
        &mut c,
        "exec_params",
        "{\"path\":\"/f\",\"sql\":\"q\",\"params\":{}}",
        vec![
            (Action::Prepare { db: 7, sql: s("q") }, Event::Handle { code: 0, handle: 50 }),
            (Action::Step { stmt: 50 }, Event::Code(19)),
            (Action::Finalize { stmt: 50 }, Event::Done),
            (Action::ErrorMessage { db: 7 }, Event::Text(b("constraint"))),
        ],
    );
    assert_eq!(answer, "{\"error\":\"step rc=19 msg=constraint\",\"ok\":false}");
}

#[test]
fn a_snapshot_comes_as_base64() {
    let mut c = with_f();
    let answer = run(
        &mut c,
        "serialize",
        "{\"path\":\"/f\"}",
        vec![
            (
                Action::Serialize { db: 7, schema: s("main"), options: 0 },
                Event::Block { at: 70, size: 3 },
            ),
            (Action::ReadBlock { at: 70, size: 3 }, Event::Bytes(vec![1, 2, 3])),
            (Action::Free { at: 70 }, Event::Done),
        ],
    );
    assert_eq!(answer, "{\"bytes_b64\":\"AQID\",\"data\":\"AQID\",\"ok\":true}");
    for (at, size) in [(0, 0), (0, 9), (70, 0), (70, -1)] {
        let answer = run(
            &mut c,
            "serialize",
            "{\"path\":\"/f\"}",
            vec![(
                Action::Serialize { db: 7, schema: s("main"), options: 0 },
                Event::Block { at, size },
            )],
        );
        assert_eq!(
            answer,
            format!("{{\"error\":\"serialize null (size={size})\",\"ok\":false}}")
        );
    }
}

#[test]
fn a_snapshot_is_restored() {
    for field in ["data", "bytes_b64"] {
        let mut c = with_f();
        let answer = run(
            &mut c,
            "deserialize",
            &format!("{{\"path\":\"/f\",\"{field}\":\"AQID\"}}"),
            vec![
                (Action::Allocate { amount: 3 }, Event::Block { at: 70, size: 3 }),
                (Action::FillBlock { at: 70, bytes: vec![1, 2, 3] }, Event::Done),
                (
                    Action::Deserialize { db: 7, schema: s("main"), at: 70, size: 3, options: 3 },
                    Event::Code(0),
                ),
            ],
        );
        assert_eq!(answer, "{\"ok\":true}");
    }
}

#[test]
fn a_refused_snapshot_is_told() {
    let mut c = with_f();
    let body = "{\"path\":\"/f\",\"data\":5,\"bytes_b64\":\"AQID\"}";
    let answer = run(
        &mut c,
        "deserialize",
        body,
        vec![
            (Action::Allocate { amount: 3 }, Event::Block { at: 70, size: 3 }),
            (Action::FillBlock { at: 70, bytes: vec![1, 2, 3] }, Event::Done),
            (
                Action::Deserialize { db: 7, schema: s("main"), at: 70, size: 3, options: 3 },
                Event::Code(1),
            ),
        ],
    );
    assert_eq!(answer, "{\"error\":\"deserialize rc=1\",\"ok\":false}");
    let answer = run(
        &mut c,
        "deserialize",
        body,
        vec![(Action::Allocate { amount: 3 }, Event::Block { at: 0, size: 3 })],
    );
    assert_eq!(answer, "{\"error\":\"malloc failed\",\"ok\":false}");
    let answer = run(&mut c, "deserialize", "{\"path\":\"/f\",\"data\":\"*\"}", vec![]);
    assert_eq!(answer, "{\"error\":\"invalid base64 input\",\"ok\":false}");
    let answer = run(
        &mut c,
        "deserialize",
        "{\"path\":\"/f\"}",
        vec![(Action::Allocate { amount: 0 }, Event::Block { at: 0, size: 0 })],
    );
    assert_eq!(answer, "{\"error\":\"malloc failed\",\"ok\":false}");
}

#[test]
fn the_version_is_told() {
    let mut c = Connections::new();
    let answer =
        run(&mut c, "version", "{}", vec![(Action::LibVersion, Event::Text(b("3.45.1")))]);
    assert_eq!(answer, "{\"ok\":true,\"version\":\"3.45.1\"}");
    let answer = run(&mut c, "version", "{}", vec![(Action::LibVersion, Event::Text(None))]);
    assert_eq!(answer, "{\"ok\":true,\"version\":\"unknown\"}");
    assert_eq!(libsql_version(Some(b"3\xff".to_vec())), "3\u{fffd}");
}

#[test]
fn only_the_answer_to_the_pending_call_counts() {
    let mut c = with_f();
    let job = Job::Exec { sql: s("x") };
    let mut call = Call::start(&mut c, Target::File(s("/f")), job);
    for event in [Event::Done, Event::Code(0), Event::Text(None), Event::Steps(3)] {
        call = call.resume(&mut c, event);
        assert_eq!(call.action(), Some(Action::Exec { db: 7, sql: s("x") }));
    }
    call = call.resume(&mut c, Event::Executed { code: 0, message: None });
    assert_eq!(call.action(), None);
    call = call.resume(&mut c, Event::Executed { code: 1, message: None });
    assert_eq!(call.answer().unwrap().get("ok"), Some(&Json::Bool(true)));
}

#[test]
fn every_answer_tells_and_comes_back() {
    let mut c = with_f();
    let answers = vec![
        run(&mut c, "open", "{}", vec![]),
        run(&mut c, "nope", "{}", vec![]),
        run(&mut c, "capabilities", "{}", vec![]),
        run(&mut c, "exec", "{\"path\":\"/f\",\"sql\":\"x\"}", exec_ok(7, "x")),
        run(
            &mut c,
            "query",
            "{\"path\":\"/f\",\"sql\":\"\\u0000\"}",
            vec![(Action::ReadProgress, Event::Steps(0))],
        ),
    ];
    for text in answers {
        let answer = parse_json(&text).unwrap();
        assert_eq!(answer.to_text(), text);
        match answer.get("ok") {
            Some(Json::Bool(true)) => {}
            Some(Json::Bool(false)) => assert!(answer.get("error").unwrap().as_str().is_some()),
            other => panic!("no ok in {other:?}"),
        }
    }
}

#[test]
fn names_count_for_memory_alone() {
    assert_eq!(with_db("/f", Some("n")), Target::File(s("/f")));
    assert_eq!(with_db("", None), Target::File(s("")));
    assert_eq!(with_db(":memory:", Some("n")), Target::Memory(s("n")));
    assert_eq!(with_db(":memory:", Some("")), Target::Scratch);
    assert_eq!(with_db(":memory:", None), Target::Scratch);
}

//! What holds of every answer.

use crate::abi::{error_reply, ok_reply};
use crate::base64::encoded;
use crate::call::{
    call_after, call_next, connecting, lock_error, opened, outcome_reply, running, version_reply,
    CallView,
};
use crate::connections::{kept, target_path, ConnectionsView, Target, TargetView};
use crate::db::{
    capabilities_reply, capability_verbs, inert_verbs, is_known, law_named_verbs_are_handled,
    lemma_reply_fields, lemma_verbs, payload_fields, plan, planned, unknown_reply, PlanView,
};
use crate::driver::{Event, EventView};
use crate::json::{
    field_of, integer_number, no_fields, readable, text_list, text_of, with_field, JsonView,
};
use crate::open::{
    converted_next, open_error, opening_next, opening_start, Opening, OpeningView,
};
use crate::operation::{
    deserialize_error, exec_error, operation_next, operation_start, serialize_error, Job, JobView,
    Operation, OperationView,
};
use crate::statement::{
    bind_error, column_json, params_complaint, prepare_error, statement_next, step_error, Outcome,
    OutcomeView, Phase, StatementView,
};
use crate::text::nul_complaint;
use vstd::prelude::*;

verus! {

/// Whether an answer says that it succeeded.
pub open spec fn succeeded(answer: JsonView) -> bool {
    field_of(answer, "ok"@) == Some(JsonView::Bool(true))
}

/// Whether an answer says that it failed.
pub open spec fn failed(answer: JsonView) -> bool {
    field_of(answer, "ok"@) == Some(JsonView::Bool(false))
}

/// Whether an answer has a payload.
pub open spec fn has_payload(answer: JsonView) -> bool {
    ||| field_of(answer, "rows"@) is Some
    ||| field_of(answer, "data"@) is Some
    ||| field_of(answer, "bytes_b64"@) is Some
    ||| field_of(answer, "dbs"@) is Some
    ||| field_of(answer, "version"@) is Some
}

/// Whether an answer is an object that says how it went: of success without an error, or of
/// failure with the error as a text and without a payload.
pub open spec fn tells(answer: JsonView) -> bool {
    &&& answer is Object
    &&& succeeded(answer) || failed(answer)
    &&& failed(answer) <==> field_of(answer, "error"@) is Some
    &&& failed(answer) ==> text_of(field_of(answer, "error"@)) is Some && !has_payload(answer)
}

/// Whether a call that has its answer tells.
spec fn told(c: CallView) -> bool {
    c matches CallView::Finished(answer) ==> tells(answer)
}

proof fn lemma_replies_tell()
    ensures
        forall|o: OutcomeView| tells(#[trigger] outcome_reply(o)),
        forall|error: Seq<char>| tells(#[trigger] error_reply(error)),
        forall|version: Option<Seq<u8>>| tells(#[trigger] version_reply(version)),
{
    lemma_reply_fields();
    assert forall|o: OutcomeView| tells(#[trigger] outcome_reply(o)) by {}
    assert forall|error: Seq<char>| tells(#[trigger] error_reply(error)) by {}
    assert forall|version: Option<Seq<u8>>| tells(#[trigger] version_reply(version)) by {}
}

proof fn lemma_told_run(w: ConnectionsView, c: CallView, events: Seq<EventView>)
    requires
        told(c),
    ensures
        told(call_after(w, c, events).0),
    decreases events.len(),
{
    if events.len() > 0 {
        let (c2, w2) = call_next(w, c, events[0]);
        lemma_replies_tell();
        assert(told(c2));
        lemma_told_run(w2, c2, events.skip(1));
    }
}

/// Every answer is an object that tells whether the request succeeded, carries an error
/// exactly where it did not, and a payload only where it did: whatever the request, and
/// whatever comes back from SQLite.
pub proof fn law_answers_tell(
    w: ConnectionsView,
    verb: Seq<char>,
    body: JsonView,
    events: Seq<EventView>,
)
    ensures
        call_after(w, planned(w, plan(verb, body)).0, events).0 matches CallView::Finished(answer)
            ==> tells(answer),
{
    let c = planned(w, plan(verb, body)).0;
    lemma_replies_tell();
    lemma_reply_fields();
    assert(tells(unknown_reply(verb)));
    assert(tells(ok_reply()));
    assert(tells(capabilities_reply()));
    assert(tells(with_field(ok_reply(), "dbs"@, JsonView::List(Seq::empty()))));
    assert(told(c));
    lemma_told_run(w, c, events);
}

/// Whether the answer to a query holds rows exactly where it succeeded.
spec fn query_answer(answer: JsonView) -> bool {
    ||| succeeded(answer) && (field_of(answer, "rows"@) matches Some(v) && v is List)
    ||| failed(answer) && field_of(answer, "rows"@) is None
}

/// Whether the answer to a snapshot holds the text of an image that one of the events
/// brought, exactly where it succeeded.
spec fn snapshot_answer(answer: JsonView, events: Seq<EventView>) -> bool {
    ||| succeeded(answer) && exists|image: Seq<u8>| #[trigger]
        events.contains(EventView::Bytes(image)) && field_of(answer, "bytes_b64"@) == Some(
            JsonView::Text(encoded(image)),
        )
    ||| failed(answer) && field_of(answer, "bytes_b64"@) is None
}

/// Whether a call is that of a query.
spec fn query_call(c: CallView) -> bool {
    match c {
        CallView::Lock { name, job } => job is Query,
        CallView::Opening { target, job, opening } => job is Query,
        CallView::Running { close, query, operation } => operation matches Operation::Statement(s)
            && s.query,
        CallView::Closing { db, query, outcome } => outcome is Rows || outcome is Failed,
        CallView::Progress { error } => true,
        CallView::Version => false,
        CallView::Finished(answer) => query_answer(answer),
    }
}

/// Whether a call is that of a snapshot whose image one of the events brings.
spec fn snapshot_call(c: CallView, events: Seq<EventView>) -> bool {
    match c {
        CallView::Lock { name, job } => job is Serialize,
        CallView::Opening { target, job, opening } => job is Serialize,
        CallView::Running { close, query, operation } => match operation {
            Operation::Serialize { db } => true,
            Operation::ReadImage { at, size } => true,
            Operation::FreeImage { at, bytes } => events.contains(EventView::Bytes(bytes)),
            _ => false,
        },
        CallView::Closing { db, query, outcome } => match outcome {
            Outcome::Image(bytes) => events.contains(EventView::Bytes(bytes)),
            Outcome::Failed(error) => true,
            _ => false,
        },
        CallView::Progress { error } => true,
        CallView::Version => false,
        CallView::Finished(answer) => snapshot_answer(answer, events),
    }
}

/// The answers to outcomes are those of their verbs.
proof fn lemma_payloads(events: Seq<EventView>)
    ensures
        forall|error: Seq<char>|
            query_answer(#[trigger] error_reply(error)) && snapshot_answer(
                error_reply(error),
                events,
            ),
        forall|rows: Seq<JsonView>| query_answer(#[trigger] outcome_reply(Outcome::Rows(rows))),
        forall|image: Seq<u8>| #[trigger]
            events.contains(EventView::Bytes(image)) ==> snapshot_answer(
                outcome_reply(Outcome::Image(image)),
                events,
            ),
{
    lemma_reply_fields();
    assert forall|error: Seq<char>|
        query_answer(#[trigger] error_reply(error)) && snapshot_answer(
            error_reply(error),
            events,
        ) by {
        assert(failed(error_reply(error)));
    }
    assert forall|rows: Seq<JsonView>| query_answer(
        #[trigger] outcome_reply(Outcome::Rows(rows)),
    ) by {
        assert(succeeded(outcome_reply(Outcome::Rows(rows))));
    }
    assert forall|image: Seq<u8>| #[trigger] events.contains(EventView::Bytes(image)) implies
        snapshot_answer(outcome_reply(Outcome::Image(image)), events) by {
        assert(succeeded(outcome_reply(Outcome::Image(image))));
    }
}

proof fn lemma_query_run(w: ConnectionsView, c: CallView, events: Seq<EventView>)
    requires
        query_call(c),
    ensures
        query_call(call_after(w, c, events).0),
    decreases events.len(),
{
    if events.len() > 0 {
        let (c2, w2) = call_next(w, c, events[0]);
        lemma_payloads(events);
        assert(query_call(c2));
        lemma_query_run(w2, c2, events.skip(1));
    }
}

proof fn lemma_snapshot_run(
    w: ConnectionsView,
    c: CallView,
    events: Seq<EventView>,
    all: Seq<EventView>,
)
    requires
        snapshot_call(c, all),
        forall|i: int| 0 <= i < events.len() ==> all.contains(#[trigger] events[i]),
    ensures
        snapshot_call(call_after(w, c, events).0, all),
    decreases events.len(),
{
    if events.len() > 0 {
        let (c2, w2) = call_next(w, c, events[0]);
        lemma_payloads(all);
        assert(all.contains(events[0]));
        assert(snapshot_call(c2, all));
        lemma_snapshot_run(w2, c2, events.skip(1), all);
    }
}

/// Whether an answer holds the payload of a verb in a field: rows, the text of an image that
/// one of the events brought, or the empty list of databases.
pub open spec fn holds_payload(
    verb: Seq<char>,
    answer: JsonView,
    field: Seq<char>,
    events: Seq<EventView>,
) -> bool {
    if verb == "serialize"@ {
        exists|image: Seq<u8>| #[trigger]
            events.contains(EventView::Bytes(image)) && field_of(answer, field) == Some(
                JsonView::Text(encoded(image)),
            )
    } else if verb == "list_dbs"@ {
        field_of(answer, field) == Some(JsonView::List(Seq::empty()))
    } else {
        field_of(answer, field) matches Some(v) && v is List
    }
}

/// The answer to a verb, at the end of any run, holds its payload in the field that the
/// plugin names for it where the request succeeded, and has no such field where it failed.
pub proof fn law_payloads_are_where_they_are_said_to_be(
    w: ConnectionsView,
    verb: Seq<char>,
    body: JsonView,
    events: Seq<EventView>,
)
    requires
        field_of(payload_fields(), verb) is Some,
    ensures
        ({
            let field = text_of(field_of(payload_fields(), verb))->0;
            call_after(w, planned(w, plan(verb, body)).0, events).0 matches CallView::Finished(
                answer,
            ) ==> {
                &&& succeeded(answer) || failed(answer)
                &&& succeeded(answer) ==> holds_payload(verb, answer, field, events)
                &&& failed(answer) ==> field_of(answer, field) is None
            }
        }),
{
    lemma_verbs();
    lemma_reply_fields();
    lemma_payloads(events);
    let c = planned(w, plan(verb, body)).0;
    if verb == "query"@ || verb == "query_params"@ {
        assert(query_call(c));
        lemma_query_run(w, c, events);
    } else if verb == "serialize"@ {
        assert(snapshot_call(c, events));
        lemma_snapshot_run(w, c, events, events);
    } else {
        assert(verb == "list_dbs"@);
        let answer = with_field(ok_reply(), "dbs"@, JsonView::List(Seq::empty()));
        assert(c == CallView::Finished(answer));
        assert(succeeded(answer));
        lemma_answered(w, answer, events);
    }
}

/// A call that has its answer keeps it.
proof fn lemma_answered(w: ConnectionsView, answer: JsonView, events: Seq<EventView>)
    ensures
        call_after(w, CallView::Finished(answer), events).0 == CallView::Finished(answer),
    decreases events.len(),
{
    if events.len() > 0 {
        lemma_answered(w, answer, events.skip(1));
    }
}

/// Whether an error is one of those that come of handling a verb, by its first letter.
spec fn of_handling(error: Seq<char>) -> bool {
    error.len() > 0 && error[0] != 'u'
}

/// Whether an answer that holds an error holds one of those, and names no verb.
spec fn handled_answer(answer: JsonView) -> bool {
    &&& field_of(answer, "verb"@) is None
    &&& text_of(field_of(answer, "error"@)) matches Some(error) ==> of_handling(error)
}

/// Whether an outcome that is a failure is one of those.
spec fn handled_outcome(o: OutcomeView) -> bool {
    o matches Outcome::Failed(error) ==> of_handling(error)
}

/// Whether an opening that has failed has one of those errors.
spec fn handled_opening(o: OpeningView) -> bool {
    match o {
        Opening::CloseFailed { db, error } => of_handling(error),
        Opening::Failed { error } => of_handling(error),
        _ => true,
    }
}

/// Whether a statement that has failed has one of those errors.
spec fn handled_statement(s: StatementView) -> bool {
    match s.phase {
        Phase::StepFailed { error } => of_handling(error),
        Phase::Failed { error } => of_handling(error),
        _ => true,
    }
}

/// Whether an operation that has failed has one of those errors.
spec fn handled_operation(o: OperationView) -> bool {
    match o {
        Operation::Statement(s) => handled_statement(s),
        Operation::Finished(outcome) => handled_outcome(outcome),
        _ => true,
    }
}

/// Whether a call that has failed has one of those errors.
spec fn handled_call(c: CallView) -> bool {
    match c {
        CallView::Opening { target, job, opening } => handled_opening(opening),
        CallView::Running { close, query, operation } => handled_operation(operation),
        CallView::Closing { db, query, outcome } => handled_outcome(outcome),
        CallView::Progress { error } => of_handling(error),
        CallView::Finished(answer) => handled_answer(answer),
        _ => true,
    }
}

/// The errors of texts that cannot be handed to SQLite.
proof fn lemma_nul_complaints(params: Seq<Seq<char>>)
    ensures
        forall|t: Seq<char>|
            (#[trigger] nul_complaint(t)) matches Some(error) ==> of_handling(error),
        params_complaint(params) matches Some(error) ==> of_handling(error),
    decreases params.len(),
{
    reveal_strlit("nul byte found in provided data at position: ");
    if params.len() > 0 {
        lemma_nul_complaints(params.skip(1));
    }
}

/// The errors of opening a connection.
proof fn lemma_opening_errors()
    ensures
        forall|path: Seq<char>, detail: Seq<char>| of_handling(#[trigger] open_error(path, detail)),
        forall|reason: Seq<char>| of_handling(#[trigger] lock_error(reason)),
{
    reveal_strlit("sqlite3_open_v2 ");
    reveal_strlit("memory registry poisoned: ");
}

/// The errors of a statement.
proof fn lemma_statement_errors()
    ensures
        forall|code: i32, m: Seq<char>| of_handling(#[trigger] prepare_error(code, m)),
        forall|at: int, code: i32| of_handling(#[trigger] bind_error(at, code)),
        forall|code: i32, m: Seq<char>| of_handling(#[trigger] step_error(code, m)),
{
    reveal_strlit("prepare rc=");
    reveal_strlit("bind param ");
    reveal_strlit("step rc=");
}

/// The errors of the other operations.
proof fn lemma_operation_errors()
    ensures
        forall|code: i32, extended: i32, m: Seq<char>|
            of_handling(#[trigger] exec_error(code, extended, m)),
        forall|size: i64| of_handling(#[trigger] serialize_error(size)),
        forall|code: i32| of_handling(#[trigger] deserialize_error(code)),
        of_handling("malloc failed"@),
{
    reveal_strlit("exec rc=");
    reveal_strlit("serialize null (size=");
    reveal_strlit("deserialize rc=");
    reveal_strlit("malloc failed");
}

proof fn lemma_handled_replies()
    ensures
        forall|error: Seq<char>|
            of_handling(error) ==> handled_answer(#[trigger] error_reply(error)),
        forall|o: OutcomeView| handled_outcome(o) ==> handled_answer(#[trigger] outcome_reply(o)),
        forall|version: Option<Seq<u8>>| handled_answer(#[trigger] version_reply(version)),
{
    lemma_reply_fields();
}

proof fn lemma_start_handled(db: u64, job: JobView)
    ensures
        handled_operation(operation_start(db, job)),
{
    match job {
        Job::Query { sql, params } => {
            lemma_nul_complaints(params);
        },
        Job::ExecParams { sql, params } => {
            lemma_nul_complaints(params);
        },
        _ => {
            lemma_nul_complaints(Seq::empty());
        },
    }
}

proof fn lemma_operation_handled(o: OperationView, e: EventView)
    requires
        handled_operation(o),
    ensures
        handled_operation(operation_next(o, e)),
{
    lemma_operation_errors();
    if let Operation::Statement(s) = o {
        lemma_statement_errors();
        assert(handled_statement(statement_next(s, e)));
    }
}

proof fn lemma_opened_handled(
    w: ConnectionsView,
    t: TargetView,
    job: JobView,
    o: OpeningView,
)
    requires
        handled_opening(o),
    ensures
        handled_call(opened(w, t, job, o).0),
{
    lemma_handled_replies();
    if let Opening::Ready { db } = o {
        lemma_start_handled(db, job);
    }
}

proof fn lemma_connecting_handled(w: ConnectionsView, t: TargetView, job: JobView)
    ensures
        handled_call(connecting(w, t, job).0),
{
    lemma_handled_replies();
    match kept(w, t) {
        Some(db) => {
            lemma_start_handled(db, job);
        },
        None => {
            lemma_nul_complaints(Seq::empty());
            lemma_opened_handled(w, t, job, opening_start(target_path(t)));
        },
    }
}

proof fn lemma_handled_next(w: ConnectionsView, c: CallView, e: EventView)
    requires
        handled_call(c),
    ensures
        handled_call(call_next(w, c, e).0),
{
    lemma_handled_replies();
    match c {
        CallView::Lock { name, job } => {
            lemma_opening_errors();
            lemma_connecting_handled(w, Target::Memory(name), job);
        },
        CallView::Opening { target, job, opening } => {
            lemma_opening_errors();
            lemma_opened_handled(
                ConnectionsView { converted: converted_next(opening, w.converted, e), ..w },
                target,
                job,
                opening_next(opening, w.converted, e),
            );
        },
        CallView::Running { close, query, operation } => {
            lemma_operation_handled(operation, e);
        },
        _ => {},
    }
}

proof fn lemma_handled_run(w: ConnectionsView, c: CallView, events: Seq<EventView>)
    requires
        handled_call(c),
    ensures
        handled_call(call_after(w, c, events).0),
    decreases events.len(),
{
    if events.len() > 0 {
        let (c2, w2) = call_next(w, c, events[0]);
        lemma_handled_next(w, c, events[0]);
        lemma_handled_run(w2, c2, events.skip(1));
    }
}

proof fn lemma_planned_handled(w: ConnectionsView, verb: Seq<char>, body: JsonView)
    requires
        is_known(verb),
    ensures
        handled_call(planned(w, plan(verb, body)).0),
{
    lemma_handled_replies();
    lemma_reply_fields();
    law_named_verbs_are_handled(verb, body);
    match plan(verb, body) {
        PlanView::Reply(answer) => {
            reveal_strlit("invalid base64 input");
            reveal_strlit(
                "prepare/finalize handles removed -- use prepare_execute (or exec_params) which does prepare+bind+step+finalize atomically per call",
            );
            assert(handled_answer(ok_reply()));
            assert(handled_answer(capabilities_reply()));
            assert(handled_answer(
                with_field(ok_reply(), "dbs"@, JsonView::List(Seq::empty())),
            ));
        },
        PlanView::Version => {},
        PlanView::Run { target, job } => {
            lemma_connecting_handled(w, target, job);
        },
    }
}

/// A request ends in the error `unknown_verb`, and names its verb, exactly where the verb is
/// none that the plugin handles: whatever comes back from SQLite.
pub proof fn law_only_unknown_verbs_are_answered_as_unknown(
    w: ConnectionsView,
    verb: Seq<char>,
    body: JsonView,
    events: Seq<EventView>,
)
    ensures
        call_after(w, planned(w, plan(verb, body)).0, events).0 matches CallView::Finished(answer)
            ==> {
            &&& text_of(field_of(answer, "error"@)) == Some("unknown_verb"@) <==> !is_known(verb)
            &&& field_of(answer, "verb"@) == if is_known(verb) {
                None
            } else {
                Some(JsonView::Text(verb))
            }
        },
{
    let c = planned(w, plan(verb, body)).0;
    reveal_strlit("unknown_verb");
    if is_known(verb) {
        lemma_planned_handled(w, verb, body);
        lemma_handled_run(w, c, events);
    } else {
        law_named_verbs_are_handled(verb, body);
        lemma_reply_fields();
        lemma_answered(w, unknown_reply(verb), events);
    }
}

/// Whether every value of a row comes back from its own text.
spec fn plain_row(row: Map<Seq<char>, JsonView>) -> bool {
    forall|k: Seq<char>| #[trigger] row.contains_key(k) ==> readable(row[k], 0)
}

/// Whether rows are objects of such values.
spec fn plain_rows(rows: Seq<JsonView>) -> bool {
    forall|i: int|
        0 <= i < rows.len() ==> ((#[trigger] rows[i]) matches JsonView::Object(m) && plain_row(m))
}

/// Whether a statement has collected only such rows.
spec fn plain_statement(s: StatementView) -> bool {
    plain_rows(s.rows) && plain_row(s.row)
}

/// Whether an outcome has only such rows.
spec fn plain_outcome(o: OutcomeView) -> bool {
    o matches Outcome::Rows(rows) ==> plain_rows(rows)
}

/// Whether an operation has only such rows.
spec fn plain_operation(o: OperationView) -> bool {
    match o {
        Operation::Statement(s) => plain_statement(s),
        Operation::Finished(outcome) => plain_outcome(outcome),
        _ => true,
    }
}

/// Whether a call has only such rows, or an answer that comes back from its own text.
spec fn plain_call(c: CallView) -> bool {
    match c {
        CallView::Running { close, query, operation } => plain_operation(operation),
        CallView::Closing { db, query, outcome } => plain_outcome(outcome),
        CallView::Finished(answer) => readable(answer, 127),
        _ => true,
    }
}

/// Whether an event brings a real number.
pub open spec fn brings_real(e: EventView) -> bool {
    e matches Event::Real(n) && n is Some
}

/// A value without arrays and objects comes back at any depth.
proof fn lemma_flat(v: JsonView, levels: nat)
    requires
        readable(v, 0),
    ensures
        readable(v, levels),
{
}

/// An object with one more field that comes back comes back.
proof fn lemma_with_field(v: JsonView, key: Seq<char>, j: JsonView, levels: nat)
    requires
        readable(v, levels),
        v is Object,
        levels > 0,
        readable(j, (levels - 1) as nat),
    ensures
        readable(with_field(v, key, j), levels),
        with_field(v, key, j) is Object,
{
    let m = v->Object_0;
    let n = m.insert(key, j);
    assert forall|k: Seq<char>| #[trigger] n.contains_key(k) implies readable(
        n[k],
        (levels - 1) as nat,
    ) by {
        if k != key {
            assert(m.contains_key(k));
        }
    }
}

proof fn lemma_texts_readable(texts: Seq<Seq<char>>, levels: nat)
    requires
        levels > 0,
    ensures
        readable(text_list(texts), levels),
{
    let items = text_list(texts)->List_0;
    assert forall|i: int| 0 <= i < items.len() implies readable(
        #[trigger] items[i],
        (levels - 1) as nat,
    ) by {
        assert(items[i] == JsonView::Text(texts[i]));
    }
}

proof fn lemma_rows_readable(rows: Seq<JsonView>)
    requires
        plain_rows(rows),
    ensures
        readable(JsonView::List(rows), 126),
{
    assert forall|i: int| 0 <= i < rows.len() implies readable(#[trigger] rows[i], 125) by {
        let m = rows[i]->Object_0;
        assert forall|k: Seq<char>| #[trigger] m.contains_key(k) implies readable(m[k], 124) by {
            lemma_flat(m[k], 124);
        }
    }
}

proof fn lemma_outcome_readable(o: OutcomeView)
    requires
        plain_outcome(o),
    ensures
        readable(outcome_reply(o), 127),
{
    lemma_errors_readable();
    match o {
        Outcome::Done => {},
        Outcome::Rows(rows) => {
            lemma_rows_readable(rows);
            lemma_with_field(ok_reply(), "rows"@, JsonView::List(rows), 127);
        },
        Outcome::Image(bytes) => {
            let b64 = JsonView::Text(encoded(bytes));
            lemma_with_field(ok_reply(), "data"@, b64, 127);
            lemma_with_field(with_field(ok_reply(), "data"@, b64), "bytes_b64"@, b64, 127);
        },
        Outcome::Failed(error) => {},
    }
}

proof fn lemma_column_flat(kind: i32, e: EventView)
    requires
        !brings_real(e),
    ensures
        column_json(kind, e) matches Some(j) ==> readable(j, 0),
{
    if let Event::Integer(n) = e {
        assert(readable(JsonView::Number(integer_number(n)), 0));
    }
}

proof fn lemma_statement_plain(s: StatementView, e: EventView)
    requires
        plain_statement(s),
        !brings_real(e),
    ensures
        plain_statement(statement_next(s, e)),
{
    assert forall|kind: i32| (#[trigger] column_json(kind, e)) matches Some(j) implies readable(
        column_json(kind, e)->0,
        0,
    ) by {
        lemma_column_flat(kind, e);
    }
}

proof fn lemma_running_plain(close: Option<u64>, query: bool, o: OperationView)
    requires
        plain_operation(o),
    ensures
        plain_call(running(close, query, o)),
{
    if let Operation::Finished(outcome) = o {
        lemma_outcome_readable(outcome);
    }
}

proof fn lemma_start_plain(db: u64, job: JobView)
    ensures
        plain_operation(operation_start(db, job)),
{
}

proof fn lemma_errors_readable()
    ensures
        forall|error: Seq<char>| readable(#[trigger] error_reply(error), 127),
        forall|version: Option<Seq<u8>>| readable(#[trigger] version_reply(version), 127),
        readable(ok_reply(), 127),
{
    lemma_with_field(no_fields(), "ok"@, JsonView::Bool(true), 127);
    lemma_with_field(no_fields(), "ok"@, JsonView::Bool(false), 127);
    let failed = with_field(no_fields(), "ok"@, JsonView::Bool(false));
    assert forall|error: Seq<char>| readable(#[trigger] error_reply(error), 127) by {
        lemma_with_field(failed, "error"@, JsonView::Text(error), 127);
    }
    assert forall|version: Option<Seq<u8>>| readable(#[trigger] version_reply(version), 127) by {
        let text = text_of(field_of(version_reply(version), "version"@))->0;
        lemma_with_field(ok_reply(), "version"@, JsonView::Text(text), 127);
    }
}

proof fn lemma_capabilities_readable()
    ensures
        readable(capabilities_reply(), 127),
{
    lemma_errors_readable();
    let rows = JsonView::Text("rows"@);
    let p1 = with_field(no_fields(), "query"@, rows);
    let p2 = with_field(p1, "query_params"@, rows);
    let p3 = with_field(p2, "serialize"@, JsonView::Text("bytes_b64"@));
    lemma_with_field(no_fields(), "query"@, rows, 126);
    lemma_with_field(p1, "query_params"@, rows, 126);
    lemma_with_field(p2, "serialize"@, JsonView::Text("bytes_b64"@), 126);
    lemma_with_field(p3, "list_dbs"@, JsonView::Text("dbs"@), 126);
    let c1 = with_field(ok_reply(), "plugin"@, JsonView::Text("libsql"@));
    let c2 = with_field(c1, "verbs"@, text_list(capability_verbs()));
    let c3 = with_field(c2, "inert_verbs"@, text_list(inert_verbs()));
    let c4 = with_field(c3, "payload_field"@, payload_fields());
    lemma_texts_readable(capability_verbs(), 126);
    lemma_texts_readable(inert_verbs(), 126);
    lemma_with_field(ok_reply(), "plugin"@, JsonView::Text("libsql"@), 127);
    lemma_with_field(c1, "verbs"@, text_list(capability_verbs()), 127);
    lemma_with_field(c2, "inert_verbs"@, text_list(inert_verbs()), 127);
    lemma_with_field(c3, "payload_field"@, payload_fields(), 127);
    lemma_with_field(c4, "stateless_per_call"@, JsonView::Bool(true), 127);
}

proof fn lemma_next_plain(w: ConnectionsView, c: CallView, e: EventView)
    requires
        plain_call(c),
        !brings_real(e),
    ensures
        plain_call(call_next(w, c, e).0),
{
    lemma_errors_readable();
    assert forall|db: u64, job: JobView| plain_operation(#[trigger] operation_start(db, job)) by {
        lemma_start_plain(db, job);
    }
    assert forall|close: Option<u64>, query: bool, o: OperationView| plain_operation(
        o,
    ) implies plain_call(#[trigger] running(close, query, o)) by {
        lemma_running_plain(close, query, o);
    }
    match c {
        CallView::Running { close, query, operation } => {
            if let Operation::Statement(s) = operation {
                lemma_statement_plain(s, e);
            }
            assert(plain_operation(operation_next(operation, e)));
        },
        CallView::Closing { db, query, outcome } => {
            lemma_outcome_readable(outcome);
        },
        _ => {},
    }
}

proof fn lemma_run_plain(w: ConnectionsView, c: CallView, events: Seq<EventView>)
    requires
        plain_call(c),
        forall|i: int| 0 <= i < events.len() ==> !brings_real(#[trigger] events[i]),
    ensures
        plain_call(call_after(w, c, events).0),
    decreases events.len(),
{
    if events.len() > 0 {
        let (c2, w2) = call_next(w, c, events[0]);
        lemma_next_plain(w, c, events[0]);
        lemma_run_plain(w2, c2, events.skip(1));
    }
}

/// Every answer comes back from its own text, whatever the request and whatever comes back
/// from SQLite but a real number: so diagnostics can always join it.
pub proof fn law_answers_come_back(
    w: ConnectionsView,
    verb: Seq<char>,
    body: JsonView,
    events: Seq<EventView>,
)
    requires
        forall|i: int| 0 <= i < events.len() ==> !brings_real(#[trigger] events[i]),
    ensures
        call_after(w, planned(w, plan(verb, body)).0, events).0 matches CallView::Finished(answer)
            ==> readable(answer, 127),
{
    let c = planned(w, plan(verb, body)).0;
    lemma_errors_readable();
    lemma_capabilities_readable();
    lemma_with_field(error_reply("unknown_verb"@), "verb"@, JsonView::Text(verb), 127);
    lemma_with_field(ok_reply(), "dbs"@, JsonView::List(Seq::empty()), 127);
    assert forall|db: u64, job: JobView| plain_operation(#[trigger] operation_start(db, job)) by {
        lemma_start_plain(db, job);
    }
    assert forall|close: Option<u64>, query: bool, o: OperationView| plain_operation(
        o,
    ) implies plain_call(#[trigger] running(close, query, o)) by {
        lemma_running_plain(close, query, o);
    }
    assert(plain_call(c));
    lemma_run_plain(w, c, events);
}

} // verus!

//! The verbs of the plugin.

use crate::abi::ok_err;
#[allow(unused_imports)]
use crate::abi::{error_reply, ok_reply};
use crate::base64::base64_decode;
#[allow(unused_imports)]
use crate::base64::{decoded, law_decode_encode};
use crate::call::{Call, CallView};
#[allow(unused_imports)]
use crate::call::{call_start, outcome_reply};
use crate::connections::{with_db, Connections, ConnectionsView, TargetView};
#[allow(unused_imports)]
use crate::connections::{target_of, Target};
use crate::json::{text_field, Json, JsonView};
#[allow(unused_imports)]
use crate::json::{
    field_of, items_of, json_text, list_view, no_fields, text_list, text_of, texts_view, with_field,
};
use crate::operation::{Job, JobView};
#[allow(unused_imports)]
use crate::path::guest_path;
use crate::path::to_wasi_guest_path;
#[allow(unused_imports)]
use crate::statement::Outcome;
use crate::text::same_text;
use vstd::prelude::*;
use vstd::string::*;
#[allow(unused_imports)]
use vstd::utf8::encode_utf8;

verus! {

/// The path of a request, as the plugin's file system knows it: `:memory:` where none is
/// given.
pub open spec fn request_path(body: JsonView) -> Seq<char> {
    guest_path(
        match text_of(field_of(body, "path"@)) {
            Some(p) => p,
            None => ":memory:"@,
        },
    )
}

/// The name of a request's database: the field `db`, and `db_name` only where that one is
/// missing.
pub open spec fn request_name(body: JsonView) -> Option<Seq<char>> {
    match field_of(body, "db"@) {
        Some(v) => text_of(Some(v)),
        None => text_of(field_of(body, "db_name"@)),
    }
}

/// The connection that a request is for.
pub open spec fn request_target(body: JsonView) -> TargetView {
    target_of(request_path(body), request_name(body))
}

/// The statement of a request.
pub open spec fn request_sql(body: JsonView) -> Seq<char> {
    match text_of(field_of(body, "sql"@)) {
        Some(sql) => sql,
        None => Seq::empty(),
    }
}

/// The text that is bound for a parameter: a string as it is, anything else as JSON text.
pub open spec fn param_text(v: JsonView) -> Seq<char> {
    match v {
        JsonView::Text(t) => t,
        _ => json_text(v),
    }
}

/// The parameters of a request.
pub open spec fn request_params(body: JsonView) -> Seq<Seq<char>> {
    match items_of(field_of(body, "params"@)) {
        Some(items) => items.map_values(|v: JsonView| param_text(v)),
        None => Seq::empty(),
    }
}

/// The image of a request as Base64 text: the field `data`, or else `bytes_b64`.
pub open spec fn request_image(body: JsonView) -> Seq<char> {
    match text_of(field_of(body, "data"@)) {
        Some(t) => t,
        None => match text_of(field_of(body, "bytes_b64"@)) {
            Some(t) => t,
            None => Seq::empty(),
        },
    }
}

/// The verbs that the plugin names when it is asked what it can do.
pub open spec fn capability_verbs() -> Seq<Seq<char>> {
    seq![
        "open"@,
        "close"@,
        "exec"@,
        "exec_params"@,
        "query"@,
        "query_params"@,
        "prepare_execute"@,
        "execute_bound"@,
        "begin"@,
        "commit"@,
        "rollback"@,
        "serialize"@,
        "deserialize"@,
        "list_dbs"@,
        "version"@,
        "capabilities"@,
    ]
}

/// The verbs that are accepted and do nothing.
pub open spec fn inert_verbs() -> Seq<Seq<char>> {
    seq!["open"@, "close"@, "begin"@, "commit"@, "rollback"@]
}

/// The field of the answer that holds a verb's payload.
pub open spec fn payload_fields() -> JsonView {
    with_field(
        with_field(
            with_field(
                with_field(no_fields(), "query"@, JsonView::Text("rows"@)),
                "query_params"@,
                JsonView::Text("rows"@),
            ),
            "serialize"@,
            JsonView::Text("bytes_b64"@),
        ),
        "list_dbs"@,
        JsonView::Text("dbs"@),
    )
}

/// What the plugin can do.
pub open spec fn capabilities_reply() -> JsonView {
    with_field(
        with_field(
            with_field(
                with_field(
                    with_field(ok_reply(), "plugin"@, JsonView::Text("libsql"@)),
                    "verbs"@,
                    text_list(capability_verbs()),
                ),
                "inert_verbs"@,
                text_list(inert_verbs()),
            ),
            "payload_field"@,
            payload_fields(),
        ),
        "stateless_per_call"@,
        JsonView::Bool(true),
    )
}

/// The answer to a verb that does not exist.
pub open spec fn unknown_reply(verb: Seq<char>) -> JsonView {
    with_field(error_reply("unknown_verb"@), "verb"@, JsonView::Text(verb))
}

/// What a request comes to: an answer at once, a question to SQLite, or a job.
pub enum PlanView {
    Reply(JsonView),
    Version,
    Run { target: TargetView, job: JobView },
}

/// What a request comes to.
pub open spec fn plan(verb: Seq<char>, body: JsonView) -> PlanView {
    let target = request_target(body);
    let sql = request_sql(body);
    let params = request_params(body);
    if inert_verbs().contains(verb) || verb == "finalize"@ {
        PlanView::Reply(ok_reply())
    } else if verb == "list_dbs"@ {
        PlanView::Reply(with_field(ok_reply(), "dbs"@, JsonView::List(Seq::empty())))
    } else if verb == "capabilities"@ {
        PlanView::Reply(capabilities_reply())
    } else if verb == "exec"@ {
        PlanView::Run { target, job: Job::Exec { sql } }
    } else if verb == "query"@ || verb == "query_params"@ {
        PlanView::Run { target, job: Job::Query { sql, params } }
    } else if verb == "exec_params"@ || verb == "prepare_execute"@ || verb == "execute_bound"@ {
        PlanView::Run { target, job: Job::ExecParams { sql, params } }
    } else if verb == "prepare"@ {
        PlanView::Reply(
            error_reply(
                "prepare/finalize handles removed -- use prepare_execute (or exec_params) which does prepare+bind+step+finalize atomically per call"@,
            ),
        )
    } else if verb == "serialize"@ {
        PlanView::Run { target, job: Job::Serialize }
    } else if verb == "deserialize"@ {
        match decoded(encode_utf8(request_image(body))) {
            Some(bytes) => PlanView::Run { target, job: Job::Deserialize { bytes } },
            None => PlanView::Reply(error_reply("invalid base64 input"@)),
        }
    } else if verb == "version"@ {
        PlanView::Version
    } else {
        PlanView::Reply(unknown_reply(verb))
    }
}

/// Where the call of a request starts.
pub open spec fn planned(w: ConnectionsView, p: PlanView) -> (CallView, ConnectionsView) {
    match p {
        PlanView::Reply(answer) => (CallView::Finished(answer), w),
        PlanView::Version => (CallView::Version, w),
        PlanView::Run { target, job } => call_start(w, target, job),
    }
}

/// The verbs that are not answered as unknown.
pub open spec fn is_known(verb: Seq<char>) -> bool {
    capability_verbs().contains(verb) || verb == "prepare"@ || verb == "finalize"@
}

/// The verbs of the plugin, told apart by their letters.
pub proof fn lemma_verbs()
    ensures
        "open"@.len() == 4 && "open"@[0] == 'o',
        "exec"@.len() == 4 && "exec"@[0] == 'e',
        "close"@.len() == 5 && "close"@[0] == 'c',
        "begin"@.len() == 5 && "begin"@[0] == 'b',
        "query"@.len() == 5 && "query"@[0] == 'q',
        "commit"@.len() == 6,
        "version"@.len() == 7 && "version"@[0] == 'v',
        "prepare"@.len() == 7 && "prepare"@[0] == 'p',
        "rollback"@.len() == 8 && "rollback"@[0] == 'r',
        "list_dbs"@.len() == 8 && "list_dbs"@[0] == 'l',
        "finalize"@.len() == 8 && "finalize"@[0] == 'f',
        "serialize"@.len() == 9,
        "exec_params"@.len() == 11 && "exec_params"@[0] == 'e',
        "deserialize"@.len() == 11 && "deserialize"@[0] == 'd',
        "query_params"@.len() == 12 && "query_params"@[0] == 'q',
        "capabilities"@.len() == 12 && "capabilities"@[0] == 'c',
        "execute_bound"@.len() == 13,
        "prepare_execute"@.len() == 15,
{
    reveal_strlit("open");
    reveal_strlit("exec");
    reveal_strlit("close");
    reveal_strlit("begin");
    reveal_strlit("query");
    reveal_strlit("commit");
    reveal_strlit("version");
    reveal_strlit("prepare");
    reveal_strlit("rollback");
    reveal_strlit("list_dbs");
    reveal_strlit("finalize");
    reveal_strlit("serialize");
    reveal_strlit("exec_params");
    reveal_strlit("deserialize");
    reveal_strlit("query_params");
    reveal_strlit("capabilities");
    reveal_strlit("execute_bound");
    reveal_strlit("prepare_execute");
}

/// The names of an answer's fields, told apart by their letters.
pub proof fn lemma_reply_fields()
    ensures
        "ok"@.len() == 2,
        "dbs"@.len() == 3,
        "rows"@.len() == 4 && "rows"@[0] == 'r',
        "data"@.len() == 4 && "data"@[0] == 'd',
        "verb"@.len() == 4 && "verb"@[0] == 'v',
        "error"@.len() == 5 && "error"@[0] == 'e',
        "verbs"@.len() == 5 && "verbs"@[0] == 'v',
        "plugin"@.len() == 6,
        "version"@.len() == 7,
        "bytes_b64"@.len() == 9,
        "inert_verbs"@.len() == 11,
        "payload_field"@.len() == 13,
        "stateless_per_call"@.len() == 18,
{
    reveal_strlit("ok");
    reveal_strlit("dbs");
    reveal_strlit("rows");
    reveal_strlit("data");
    reveal_strlit("verb");
    reveal_strlit("error");
    reveal_strlit("verbs");
    reveal_strlit("plugin");
    reveal_strlit("version");
    reveal_strlit("bytes_b64");
    reveal_strlit("inert_verbs");
    reveal_strlit("payload_field");
    reveal_strlit("stateless_per_call");
}

/// Routing is by path: for a real path the name of the database is ignored, so requests
/// reach the same connection exactly where their paths are the same.
pub proof fn law_paths_route(a: JsonView, b: JsonView)
    requires
        request_path(a) != ":memory:"@,
        request_path(b) != ":memory:"@,
    ensures
        request_target(a) == Target::File(request_path(a)),
        request_target(a) == request_target(b) <==> request_path(a) == request_path(b),
{
}

/// For `:memory:` the name is the identity: requests reach the same database exactly where
/// their names are the same, and one without a name gets a database of its own.
pub proof fn law_names_route_in_memory(a: JsonView, name: Seq<char>)
    requires
        request_path(a) == ":memory:"@,
    ensures
        name.len() > 0 ==> (request_target(a) == Target::Memory(name) <==> request_name(a) == Some(
            name,
        )),
        request_target(a) is Scratch <==> (request_name(a) is None || request_name(a)->0.len()
            == 0),
{
}

/// The inert verbs are answered with success at once: nothing is asked of SQLite, and what
/// is kept stays as it is.
pub proof fn law_inert_verbs_do_nothing(w: ConnectionsView, verb: Seq<char>, body: JsonView)
    requires
        inert_verbs().contains(verb),
    ensures
        planned(w, plan(verb, body)) == (CallView::Finished(ok_reply()), w),
{
}

/// The plugin tells what it can do without side effects.
pub proof fn law_capabilities_have_no_side_effects(w: ConnectionsView, body: JsonView)
    ensures
        planned(w, plan("capabilities"@, body)) == (CallView::Finished(capabilities_reply()), w),
{
    lemma_verbs();
}

/// A verb is answered as unknown exactly where it is none of those that the plugin names,
/// nor one of the two that only point to their successors.
pub proof fn law_named_verbs_are_handled(verb: Seq<char>, body: JsonView)
    ensures
        is_known(verb) <==> plan(verb, body) != PlanView::Reply(unknown_reply(verb)),
{
    lemma_verbs();
    lemma_reply_fields();
    let v = capability_verbs();
    assert(v[0] == "open"@ && v[1] == "close"@ && v[2] == "exec"@ && v[3] == "exec_params"@ && v[4]
        == "query"@ && v[5] == "query_params"@ && v[6] == "prepare_execute"@ && v[7]
        == "execute_bound"@ && v[8] == "begin"@ && v[9] == "commit"@ && v[10] == "rollback"@
        && v[11] == "serialize"@ && v[12] == "deserialize"@ && v[13] == "list_dbs"@ && v[14]
        == "version"@ && v[15] == "capabilities"@);
    let i = inert_verbs();
    assert(i[0] == "open"@ && i[1] == "close"@ && i[2] == "begin"@ && i[3] == "commit"@ && i[4]
        == "rollback"@);
    let unknown = unknown_reply(verb);
    assert(field_of(unknown, "ok"@) == Some(JsonView::Bool(false)));
    assert(field_of(unknown, "verb"@) is Some);
    assert(field_of(ok_reply(), "ok"@) == Some(JsonView::Bool(true)));
    assert(field_of(capabilities_reply(), "ok"@) == Some(JsonView::Bool(true)));
    assert(field_of(
        with_field(ok_reply(), "dbs"@, JsonView::List(Seq::empty())),
        "ok"@,
    ) == Some(JsonView::Bool(true)));
    assert forall|error: Seq<char>| field_of(#[trigger] error_reply(error), "verb"@) is None by {}
}

/// The verbs that run one statement with parameters do the same, under whatever name.
pub proof fn law_statement_verbs_agree(body: JsonView)
    ensures
        plan("prepare_execute"@, body) == plan("exec_params"@, body),
        plan("execute_bound"@, body) == plan("exec_params"@, body),
        plan("query_params"@, body) == plan("query"@, body),
        plan("exec_params"@, body) == (PlanView::Run {
            target: request_target(body),
            job: Job::ExecParams { sql: request_sql(body), params: request_params(body) },
        }),
        plan("query"@, body) == (PlanView::Run {
            target: request_target(body),
            job: Job::Query { sql: request_sql(body), params: request_params(body) },
        }),
{
    lemma_verbs();
}

/// An image comes back from its snapshot: a request to restore that carries the text from
/// the answer to a snapshot, in `data` or else in `bytes_b64`, hands the same bytes to
/// SQLite.
pub proof fn law_snapshots_restore(body: JsonView, image: Seq<u8>)
    requires
        ({
            let snapshot = outcome_reply(Outcome::Image(image));
            let data = field_of(body, "data"@);
            let other = field_of(body, "bytes_b64"@);
            ||| data is Some && data == field_of(snapshot, "data"@)
            ||| text_of(data) is None && other is Some && other == field_of(snapshot, "bytes_b64"@)
        }),
    ensures
        plan("deserialize"@, body) == (PlanView::Run {
            target: request_target(body),
            job: Job::Deserialize { bytes: image },
        }),
{
    lemma_verbs();
    lemma_reply_fields();
    law_decode_encode(image);
}

/// What a request asks for is read from its fields as they stand there. The path is rewritten
/// for the plugin's file system, and is `:memory:` where none is given. The name is the text
/// of `db`, or of `db_name` where there is no field `db` at all. The statement is empty where
/// none is given.
pub proof fn law_requests_are_read_as_they_stand(m: Map<Seq<char>, JsonView>, t: Seq<char>)
    ensures
        ({
            let body = JsonView::Object(m);
            &&& m.contains_pair("path"@, JsonView::Text(t)) ==> request_path(body) == guest_path(t)
            &&& !m.contains_key("path"@) || !(m["path"@] is Text) ==> request_path(body)
                == ":memory:"@
            &&& m.contains_pair("db"@, JsonView::Text(t)) ==> request_name(body) == Some(t)
            &&& m.contains_key("db"@) && !(m["db"@] is Text) ==> request_name(body) is None
            &&& !m.contains_key("db"@) && m.contains_pair("db_name"@, JsonView::Text(t))
                ==> request_name(body) == Some(t)
            &&& !m.contains_key("db"@) && (!m.contains_key("db_name"@) || !(m["db_name"@] is Text))
                ==> request_name(body) is None
            &&& m.contains_pair("sql"@, JsonView::Text(t)) ==> request_sql(body) == t
            &&& !m.contains_key("sql"@) || !(m["sql"@] is Text) ==> request_sql(body).len() == 0
            &&& m.contains_pair("data"@, JsonView::Text(t)) ==> request_image(body) == t
            &&& (!m.contains_key("data"@) || !(m["data"@] is Text)) && m.contains_pair(
                "bytes_b64"@,
                JsonView::Text(t),
            ) ==> request_image(body) == t
            &&& (!m.contains_key("data"@) || !(m["data"@] is Text)) && (!m.contains_key(
                "bytes_b64"@,
            ) || !(m["bytes_b64"@] is Text)) ==> request_image(body).len() == 0
        }),
{
}

/// A request that is no object has no fields: it is for a scratch database, with an empty
/// statement, no parameters and an empty image.
pub proof fn law_other_requests_have_no_fields(body: JsonView)
    requires
        !(body is Object),
    ensures
        request_path(body) == ":memory:"@,
        request_name(body) is None,
        request_target(body) == TargetView::Scratch,
        request_sql(body).len() == 0,
        request_params(body).len() == 0,
        request_image(body).len() == 0,
{
}

/// A request is for the file of its path, or for `:memory:` for the database of its name,
/// where it gives one.
pub proof fn law_requests_are_for_their_path_and_name(body: JsonView)
    ensures
        request_path(body) != ":memory:"@ ==> request_target(body) == TargetView::File(
            request_path(body),
        ),
        request_path(body) == ":memory:"@ && request_name(body) is Some && request_name(
            body,
        )->0.len() > 0 ==> request_target(body) == TargetView::Memory(request_name(body)->0),
        request_path(body) == ":memory:"@ && (request_name(body) is None || request_name(
            body,
        )->0.len() == 0) ==> request_target(body) == TargetView::Scratch,
{
}

/// There is one parameter for each item of the list `params`, in order: a string stands for
/// its own characters, whatever they are, and any other value for its JSON text. Where
/// `params` is no list, or is missing, there are none.
pub proof fn law_parameters_are_the_items(m: Map<Seq<char>, JsonView>, items: Seq<JsonView>)
    ensures
        ({
            let params = request_params(JsonView::Object(m));
            &&& m.contains_pair("params"@, JsonView::List(items)) ==> params.len() == items.len()
                && forall|i: int|
                0 <= i < items.len() ==> (#[trigger] items[i] matches JsonView::Text(t) ==> params[i]
                    == t)
            &&& m.contains_pair("params"@, JsonView::List(items)) ==> forall|i: int|
                0 <= i < items.len() && !(#[trigger] items[i] is Text) ==> params[i] == json_text(
                    items[i],
                )
            &&& !m.contains_key("params"@) || !(m["params"@] is List) ==> params.len() == 0
        }),
{
}

/// Every verb that runs on a database runs on the one that the request is for, with what the
/// request gives: the statement, its parameters, or the image. So what one verb does to a
/// database the others see, for the same path and name.
pub proof fn law_verbs_run_on_the_database_of_the_request(body: JsonView)
    ensures
        plan("exec"@, body) == (PlanView::Run {
            target: request_target(body),
            job: Job::Exec { sql: request_sql(body) },
        }),
        plan("query"@, body) == (PlanView::Run {
            target: request_target(body),
            job: Job::Query { sql: request_sql(body), params: request_params(body) },
        }),
        plan("query_params"@, body) == (PlanView::Run {
            target: request_target(body),
            job: Job::Query { sql: request_sql(body), params: request_params(body) },
        }),
        plan("exec_params"@, body) == (PlanView::Run {
            target: request_target(body),
            job: Job::ExecParams { sql: request_sql(body), params: request_params(body) },
        }),
        plan("prepare_execute"@, body) == (PlanView::Run {
            target: request_target(body),
            job: Job::ExecParams { sql: request_sql(body), params: request_params(body) },
        }),
        plan("execute_bound"@, body) == (PlanView::Run {
            target: request_target(body),
            job: Job::ExecParams { sql: request_sql(body), params: request_params(body) },
        }),
        plan("serialize"@, body) == (PlanView::Run {
            target: request_target(body),
            job: Job::Serialize,
        }),
        match decoded(encode_utf8(request_image(body))) {
            Some(bytes) => plan("deserialize"@, body) == (PlanView::Run {
                target: request_target(body),
                job: Job::Deserialize { bytes },
            }),
            None => plan("deserialize"@, body) == PlanView::Reply(
                JsonView::Object(
                    map!["ok"@ => JsonView::Bool(false)].insert(
                        "error"@,
                        JsonView::Text("invalid base64 input"@),
                    ),
                ),
            ),
        },
{
    lemma_verbs();
}

/// Every other verb is answered at once, whatever the request: the inert ones with success
/// alone, `list_dbs` with an empty list, `prepare` with a pointer to its successor, and an
/// unknown one with its name. Only the version is asked of SQLite.
pub proof fn law_other_verbs_are_answered_at_once(body: JsonView, verb: Seq<char>)
    ensures
        ({
            let ok = map!["ok"@ => JsonView::Bool(true)];
            let failed = map!["ok"@ => JsonView::Bool(false)];
            let done = PlanView::Reply(JsonView::Object(ok));
            &&& plan("open"@, body) == done
            &&& plan("close"@, body) == done
            &&& plan("begin"@, body) == done
            &&& plan("commit"@, body) == done
            &&& plan("rollback"@, body) == done
            &&& plan("finalize"@, body) == done
            &&& plan("list_dbs"@, body) == PlanView::Reply(
                JsonView::Object(ok.insert("dbs"@, JsonView::List(Seq::empty()))),
            )
            &&& plan("version"@, body) == PlanView::Version
            &&& plan("prepare"@, body) == PlanView::Reply(
                JsonView::Object(
                    failed.insert(
                        "error"@,
                        JsonView::Text(
                            "prepare/finalize handles removed -- use prepare_execute (or exec_params) which does prepare+bind+step+finalize atomically per call"@,
                        ),
                    ),
                ),
            )
            &&& !is_known(verb) ==> plan(verb, body) == PlanView::Reply(
                JsonView::Object(
                    failed.insert("error"@, JsonView::Text("unknown_verb"@)).insert(
                        "verb"@,
                        JsonView::Text(verb),
                    ),
                ),
            )
        }),
{
    lemma_verbs();
    law_named_verbs_are_handled(verb, body);
    let i = inert_verbs();
    assert(i[0] == "open"@ && i[1] == "close"@ && i[2] == "begin"@ && i[3] == "commit"@ && i[4]
        == "rollback"@);
}

/// What a request comes to is what happens: an answer is the answer, and nothing that is kept
/// changes; the version is asked for; and a job starts on its target.
pub proof fn law_plans_are_followed(
    w: ConnectionsView,
    answer: JsonView,
    target: TargetView,
    job: JobView,
)
    ensures
        planned(w, PlanView::Reply(answer)) == (CallView::Finished(answer), w),
        planned(w, PlanView::Version) == (CallView::Version, w),
        planned(w, PlanView::Run { target, job }) == call_start(w, target, job),
{
}

/// The plugin tells which verbs it handles, which of them do nothing, and where an answer
/// holds its payload.
pub proof fn law_capabilities_are_told_in_full()
    ensures
        field_of(capabilities_reply(), "ok"@) == Some(JsonView::Bool(true)),
        field_of(capabilities_reply(), "plugin"@) == Some(JsonView::Text("libsql"@)),
        field_of(capabilities_reply(), "stateless_per_call"@) == Some(JsonView::Bool(true)),
        field_of(capabilities_reply(), "payload_field"@) == Some(payload_fields()),
        field_of(capabilities_reply(), "verbs"@) matches Some(JsonView::List(verbs)) && verbs.len()
            == 16 && forall|i: int|
            0 <= i < 16 ==> #[trigger] verbs[i] == JsonView::Text(capability_verbs()[i]),
        field_of(capabilities_reply(), "inert_verbs"@) matches Some(JsonView::List(verbs))
            && verbs.len() == 5 && forall|i: int|
            0 <= i < 5 ==> #[trigger] verbs[i] == JsonView::Text(inert_verbs()[i]),
{
    lemma_reply_fields();
}

/// Takes the diagnostics that are pending, and leaves none.
pub fn take_pending_diagnostics(pending: &mut Vec<String>) -> (r: Vec<String>)
    ensures
        r@ == old(pending)@,
        final(pending)@.len() == 0,
{
    let mut taken: Vec<String> = Vec::new();
    std::mem::swap(&mut taken, pending);
    taken
}

/// The parameters of a request.
pub fn str_params(body: &Json) -> (r: Vec<String>)
    ensures
        texts_view(r@) == request_params(body@),
{
    let mut params: Vec<String> = Vec::new();
    let items = match body.get("params") {
        Some(p) => p.as_array(),
        None => None,
    };
    match items {
        Some(items) => {
            let ghost all = request_params(body@);
            let mut i: usize = 0;
            while i < items.len()
                invariant
                    i <= items@.len(),
                    all == list_view(items@).map_values(|v: JsonView| param_text(v)),
                    params@.len() == i,
                    forall|k: int| 0 <= k < i ==> (#[trigger] params@[k])@ == all[k],
                decreases items@.len() - i,
            {
                let x = &items[i];
                assert(all[i as int] == param_text(x@));
                let t = match x.as_str() {
                    Some(s) => s.to_owned(),
                    None => x.to_text(),
                };
                params.push(t);
                i += 1;
            }
            assert(texts_view(params@) =~= all);
        },
        None => {
            assert(texts_view(params@) =~= Seq::empty());
        },
    }
    params
}

/// The statement of a request.
fn sql_of(body: &Json) -> (r: String)
    ensures
        r@ == request_sql(body@),
{
    match text_field(body, "sql") {
        Some(sql) => sql.to_owned(),
        None => String::new(),
    }
}

/// Whether a verb is accepted and does nothing.
fn is_inert(verb: &str) -> (r: bool)
    ensures
        r == (inert_verbs().contains(verb@) || verb@ == "finalize"@),
{
    let r = same_text(verb, "open") || same_text(verb, "close") || same_text(verb, "begin")
        || same_text(verb, "commit") || same_text(verb, "rollback");
    proof {
        let v = inert_verbs();
        assert(v[0] == "open"@ && v[1] == "close"@ && v[2] == "begin"@ && v[3] == "commit"@ && v[4]
            == "rollback"@);
    }
    r || same_text(verb, "finalize")
}

/// What the plugin can do.
fn capabilities() -> (r: Json)
    ensures
        r@ == capabilities_reply(),
{
    let verbs: Vec<String> = vec![
        "open".to_owned(),
        "close".to_owned(),
        "exec".to_owned(),
        "exec_params".to_owned(),
        "query".to_owned(),
        "query_params".to_owned(),
        "prepare_execute".to_owned(),
        "execute_bound".to_owned(),
        "begin".to_owned(),
        "commit".to_owned(),
        "rollback".to_owned(),
        "serialize".to_owned(),
        "deserialize".to_owned(),
        "list_dbs".to_owned(),
        "version".to_owned(),
        "capabilities".to_owned(),
    ];
    let inert: Vec<String> = vec![
        "open".to_owned(),
        "close".to_owned(),
        "begin".to_owned(),
        "commit".to_owned(),
        "rollback".to_owned(),
    ];
    assert(texts_view(verbs@) =~= capability_verbs());
    assert(texts_view(inert@) =~= inert_verbs());
    let payload = Json::object().with("query", Json::text("rows")).with(
        "query_params",
        Json::text("rows"),
    ).with("serialize", Json::text("bytes_b64")).with("list_dbs", Json::text("dbs"));
    ok_err(Ok(())).with("plugin", Json::text("libsql")).with("verbs", Json::texts(verbs)).with(
        "inert_verbs",
        Json::texts(inert),
    ).with("payload_field", payload).with("stateless_per_call", Json::Bool(true))
}

/// Starts the call of a request.
pub fn handle(verb: &str, body: &Json, connections: &mut Connections) -> (r: Call)
    ensures
        (r@, final(connections)@) == planned(old(connections)@, plan(verb@, body@)),
{
    let raw_path = match text_field(body, "path") {
        Some(p) => p,
        None => ":memory:",
    };
    let path = to_wasi_guest_path(raw_path);
    let db_name = match body.get("db") {
        Some(v) => v.as_str(),
        None => text_field(body, "db_name"),
    };
    let target = with_db(path.as_str(), db_name);
    if is_inert(verb) {
        Call::answered(ok_err(Ok(())))
    } else if same_text(verb, "list_dbs") {
        let none: Vec<Json> = Vec::new();
        let dbs = Json::List(none);
        assert(dbs@->List_0 =~= Seq::empty());
        Call::answered(ok_err(Ok(())).with("dbs", dbs))
    } else if same_text(verb, "capabilities") {
        Call::answered(capabilities())
    } else if same_text(verb, "exec") {
        Call::start(connections, target, Job::Exec { sql: sql_of(body) })
    } else if same_text(verb, "query") || same_text(verb, "query_params") {
        Call::start(
            connections,
            target,
            Job::Query { sql: sql_of(body), params: str_params(body) },
        )
    } else if same_text(verb, "exec_params") || same_text(verb, "prepare_execute") || same_text(
        verb,
        "execute_bound",
    ) {
        Call::start(
            connections,
            target,
            Job::ExecParams { sql: sql_of(body), params: str_params(body) },
        )
    } else if same_text(verb, "prepare") {
        Call::answered(
            ok_err(
                Err(
                    "prepare/finalize handles removed -- use prepare_execute (or exec_params) which does prepare+bind+step+finalize atomically per call".to_owned(),
                ),
            ),
        )
    } else if same_text(verb, "serialize") {
        Call::start(connections, target, Job::Serialize)
    } else if same_text(verb, "deserialize") {
        let b64 = match text_field(body, "data") {
            Some(t) => t,
            None => match text_field(body, "bytes_b64") {
                Some(t) => t,
                None => "",
            },
        };
        proof {
            reveal_strlit("");
            assert(""@ =~= Seq::empty());
        }
        match base64_decode(b64) {
            Ok(bytes) => Call::start(connections, target, Job::Deserialize { bytes }),
            Err(e) => Call::answered(ok_err(Err(e))),
        }
    } else if same_text(verb, "version") {
        Call::version()
    } else {
        Call::answered(
            ok_err(Err("unknown_verb".to_owned())).with("verb", Json::text(verb)),
        )
    }
}

} // verus!

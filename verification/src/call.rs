//! One call of the plugin, from its connection to its answer.
//!
//! A call finds or opens its connection, does its job, closes a scratch database and
//! answers. Until it has finished one call into SQLite is pending.

use crate::abi::ok_err;
#[allow(unused_imports)]
use crate::abi::{error_reply, ok_reply};
use crate::base64::base64_encode;
#[allow(unused_imports)]
use crate::base64::encoded;
use crate::connections::{Connections, ConnectionsView, Target, TargetView};
#[allow(unused_imports)]
use crate::connections::{keeping, kept, target_path};
use crate::driver::{Action, ActionView, Event, EventView};
#[allow(unused_imports)]
use crate::driver::{action_view, answers, bytes_view};
use crate::json::{Json, JsonView};
#[allow(unused_imports)]
use crate::json::{lemma_list_view, with_field};
use crate::open::{open_fresh, Opening, OpeningView};
#[allow(unused_imports)]
use crate::open::{converted_next, opening_action, opening_next, opening_start};
use crate::operation::{Job, JobView, NewJob, Operation, OperationView, RunningOperation};
#[allow(unused_imports)]
use crate::operation::{operation_action, operation_next, operation_start};
use crate::statement::{Outcome, OutcomeView};
use crate::text::{decimal_u64, lossy};
#[allow(unused_imports)]
use crate::text::{decimal, lossy_text};
use vstd::prelude::*;
use vstd::string::*;

verus! {

/// The answer to a job that has ended.
pub open spec fn outcome_reply(o: OutcomeView) -> JsonView {
    match o {
        Outcome::Done => ok_reply(),
        Outcome::Rows(rows) => with_field(ok_reply(), "rows"@, JsonView::List(rows)),
        Outcome::Image(bytes) => with_field(
            with_field(ok_reply(), "data"@, JsonView::Text(encoded(bytes))),
            "bytes_b64"@,
            JsonView::Text(encoded(bytes)),
        ),
        Outcome::Failed(error) => error_reply(error),
    }
}

/// The answer that tells SQLite's version.
pub open spec fn version_reply(version: Option<Seq<u8>>) -> JsonView {
    with_field(
        ok_reply(),
        "version"@,
        JsonView::Text(
            match version {
                Some(bytes) => lossy_text(bytes),
                None => "unknown"@,
            },
        ),
    )
}

/// The error of a failed query: it tells how far the statement got.
pub open spec fn counted_error(error: Seq<char>, steps: u64) -> Seq<char> {
    error + " (vm_steps="@ + decimal(steps as int) + ")"@
}

/// Why a named in-memory database cannot be reached.
pub open spec fn lock_error(reason: Seq<char>) -> Seq<char> {
    "memory registry poisoned: "@ + reason
}

/// A call on its way, as the contracts speak of it. `query` says that the job is a query,
/// `close` which connection is to be closed at the end.
pub enum CallView {
    /// The registry of in-memory databases is to be locked.
    Lock { name: Seq<char>, job: JobView },
    /// The connection is being opened.
    Opening { target: TargetView, job: JobView, opening: OpeningView },
    /// The job is running.
    Running { close: Option<u64>, query: bool, operation: OperationView },
    /// The scratch database is to be closed.
    Closing { db: u64, query: bool, outcome: OutcomeView },
    /// A query has failed, and the count of progress callbacks is to be read.
    Progress { error: Seq<char> },
    /// The version is to be read.
    Version,
    /// The answer is there.
    Finished(JsonView),
}

/// The call that is pending.
pub open spec fn call_action(c: CallView) -> Option<ActionView> {
    match c {
        CallView::Lock { name, job } => Some(Action::LockMemory),
        CallView::Opening { target, job, opening } => opening_action(opening),
        CallView::Running { close, query, operation } => operation_action(operation),
        CallView::Closing { db, query, outcome } => Some(Action::Close { db }),
        CallView::Progress { error } => Some(Action::ReadProgress),
        CallView::Version => Some(Action::LibVersion),
        CallView::Finished(answer) => None,
    }
}

/// A job has ended, and its connection needs nothing more: a failed query still has its
/// progress read.
pub open spec fn concluded(query: bool, o: OutcomeView) -> CallView {
    match o {
        Outcome::Failed(error) => if query {
            CallView::Progress { error }
        } else {
            CallView::Finished(outcome_reply(o))
        },
        _ => CallView::Finished(outcome_reply(o)),
    }
}

/// A job that is running, or has ended.
pub open spec fn running(close: Option<u64>, query: bool, o: OperationView) -> CallView {
    match o {
        Operation::Finished(outcome) => match close {
            Some(db) => CallView::Closing { db, query, outcome },
            None => concluded(query, outcome),
        },
        _ => CallView::Running { close, query, operation: o },
    }
}

/// What is to be closed after a job on a connection opened for a target.
pub open spec fn to_close(t: TargetView, db: u64) -> Option<u64> {
    if t is Scratch && db != 0 {
        Some(db)
    } else {
        None
    }
}

/// A connection that is being opened, is open, or could not be: an open one is kept, and
/// the job starts on it.
pub open spec fn opened(
    w: ConnectionsView,
    t: TargetView,
    job: JobView,
    o: OpeningView,
) -> (CallView, ConnectionsView) {
    match o {
        Opening::Ready { db } => (
            running(to_close(t, db), job is Query, operation_start(db, job)),
            keeping(w, t, db),
        ),
        Opening::Failed { error } => (concluded(job is Query, Outcome::Failed(error)), w),
        _ => (CallView::Opening { target: t, job, opening: o }, w),
    }
}

/// Finds the connection of a target, or starts to open it.
pub open spec fn connecting(
    w: ConnectionsView,
    t: TargetView,
    job: JobView,
) -> (CallView, ConnectionsView) {
    match kept(w, t) {
        Some(db) => (running(None, job is Query, operation_start(db, job)), w),
        None => opened(w, t, job, opening_start(target_path(t))),
    }
}

/// Where a call starts that does a job on a target.
pub open spec fn call_start(w: ConnectionsView, t: TargetView, job: JobView) -> (
    CallView,
    ConnectionsView,
) {
    match t {
        Target::Memory(name) => (CallView::Lock { name, job }, w),
        _ => connecting(w, t, job),
    }
}

/// The state after an event. One that does not answer the pending call changes nothing.
pub open spec fn call_next(w: ConnectionsView, c: CallView, e: EventView) -> (
    CallView,
    ConnectionsView,
) {
    match (c, e) {
        (CallView::Lock { name, job }, Event::Locked(poison)) => match poison {
            Some(reason) => (concluded(job is Query, Outcome::Failed(lock_error(reason))), w),
            None => connecting(w, Target::Memory(name), job),
        },
        (CallView::Opening { target, job, opening }, e) => opened(
            ConnectionsView { converted: converted_next(opening, w.converted, e), ..w },
            target,
            job,
            opening_next(opening, w.converted, e),
        ),
        (CallView::Running { close, query, operation }, e) => (
            running(close, query, operation_next(operation, e)),
            w,
        ),
        (CallView::Closing { db, query, outcome }, Event::Done) => (concluded(query, outcome), w),
        (CallView::Progress { error }, Event::Steps(n)) => (
            CallView::Finished(error_reply(counted_error(error, n))),
            w,
        ),
        (CallView::Version, Event::Text(version)) => (
            CallView::Finished(version_reply(version)),
            w,
        ),
        _ => (c, w),
    }
}

/// A call after events, and the connections that are kept then.
pub open spec fn call_after(w: ConnectionsView, c: CallView, events: Seq<EventView>) -> (
    CallView,
    ConnectionsView,
)
    decreases events.len(),
{
    if events.len() == 0 {
        (c, w)
    } else {
        let (c2, w2) = call_next(w, c, events[0]);
        call_after(w2, c2, events.skip(1))
    }
}

/// Whether a call has finished or has a call into SQLite pending.
pub open spec fn alive(c: CallView) -> bool {
    c is Finished || call_action(c) is Some
}

/// Whether an operation has finished or has a call into SQLite pending.
spec fn operation_alive(o: OperationView) -> bool {
    o is Finished || operation_action(o) is Some
}

proof fn lemma_operation_alive(o: OperationView, e: EventView)
    requires
        operation_alive(o),
    ensures
        operation_alive(operation_next(o, e)),
{
}

proof fn lemma_start_alive(db: u64, job: JobView)
    ensures
        operation_alive(operation_start(db, job)),
{
}

/// A call that is alive stays alive.
proof fn lemma_alive(w: ConnectionsView, c: CallView, e: EventView)
    requires
        alive(c),
    ensures
        alive(call_next(w, c, e).0),
{
    match c {
        CallView::Lock { name, job } => {
            match kept(w, Target::Memory(name)) {
                Some(db) => {
                    lemma_start_alive(db, job);
                },
                None => {},
            }
        },
        CallView::Opening { target, job, opening } => {
            match opening_next(opening, w.converted, e) {
                Opening::Ready { db } => {
                    lemma_start_alive(db, job);
                },
                _ => {},
            }
        },
        CallView::Running { close, query, operation } => {
            lemma_operation_alive(operation, e);
        },
        _ => {},
    }
}

/// A call is never stuck: from its start on, and whatever events come, it has its answer or
/// a call into SQLite pending.
pub proof fn law_calls_are_never_stuck(
    w: ConnectionsView,
    t: TargetView,
    job: JobView,
    events: Seq<EventView>,
)
    ensures
        alive(call_after(w, call_start(w, t, job).0, events).0),
{
    let c = call_start(w, t, job).0;
    match kept(w, t) {
        Some(db) => {
            lemma_start_alive(db, job);
        },
        None => {},
    }
    lemma_alive_run(w, c, events);
}

proof fn lemma_alive_run(w: ConnectionsView, c: CallView, events: Seq<EventView>)
    requires
        alive(c),
    ensures
        alive(call_after(w, c, events).0),
    decreases events.len(),
{
    if events.len() > 0 {
        lemma_alive(w, c, events[0]);
        let (c2, w2) = call_next(w, c, events[0]);
        lemma_alive_run(w2, c2, events.skip(1));
    }
}

/// Only the answer to the pending call moves a call on: any other event changes nothing,
/// and neither does an event that comes after the answer.
pub proof fn law_only_answers_count(w: ConnectionsView, c: CallView, e: EventView)
    requires
        alive(c),
        call_action(c) matches Some(a) ==> !answers(a, e),
    ensures
        call_next(w, c, e) == (c, w),
{
    match c {
        CallView::Opening { target, job, opening } => {
            assert(opening_next(opening, w.converted, e) == opening);
            assert(converted_next(opening, w.converted, e) == w.converted);
        },
        CallView::Running { close, query, operation } => {
            assert(operation_next(operation, e) == operation);
        },
        _ => {},
    }
}

/// The states of a call.
enum State {
    Lock { name: String, job: NewJob },
    Opening { target: Target<String>, job: NewJob, opening: Opening<String> },
    Running { close: Option<u64>, query: bool, operation: RunningOperation },
    Closing { db: u64, query: bool, outcome: Outcome<String, Vec<u8>, Vec<Json>> },
    Progress { error: String },
    Version,
    Finished(Json),
}

/// A call on its way.
pub struct Call {
    state: State,
}

impl View for Call {
    type V = CallView;

    closed spec fn view(&self) -> CallView {
        match self.state {
            State::Lock { name, job } => CallView::Lock { name: name@, job: job@ },
            State::Opening { target, job, opening } => CallView::Opening {
                target: target@,
                job: job@,
                opening: opening@,
            },
            State::Running { close, query, operation } => CallView::Running {
                close,
                query,
                operation: operation@,
            },
            State::Closing { db, query, outcome } => CallView::Closing {
                db,
                query,
                outcome: outcome@,
            },
            State::Progress { error } => CallView::Progress { error: error@ },
            State::Version => CallView::Version,
            State::Finished(answer) => CallView::Finished(answer@),
        }
    }
}

impl Call {
    /// A call has its answer or a call into SQLite pending.
    #[verifier::type_invariant]
    spec fn wf(self) -> bool {
        alive(self@)
    }
}

/// The answer to a job that has ended.
fn reply_outcome(o: Outcome<String, Vec<u8>, Vec<Json>>) -> (r: Json)
    ensures
        r@ == outcome_reply(o@),
{
    match o {
        Outcome::Done => ok_err(Ok(())),
        Outcome::Rows(rows) => {
            proof {
                lemma_list_view(rows);
            }
            ok_err(Ok(())).with("rows", Json::List(rows))
        },
        Outcome::Image(bytes) => {
            let b64 = base64_encode(bytes.as_slice());
            ok_err(Ok(())).with("data", Json::text(b64.as_str())).with("bytes_b64", Json::Text(b64))
        },
        Outcome::Failed(error) => ok_err(Err(error)),
    }
}

/// SQLite's version from what `sqlite3_libversion` gave.
pub fn libsql_version(version: Option<Vec<u8>>) -> (r: String)
    ensures
        r@ == match bytes_view(version) {
            Some(bytes) => lossy_text(bytes),
            None => "unknown"@,
        },
{
    match version {
        Some(bytes) => lossy(bytes.as_slice()),
        None => "unknown".to_owned(),
    }
}

/// A job has ended, and its connection needs nothing more.
fn conclude(query: bool, o: Outcome<String, Vec<u8>, Vec<Json>>) -> (r: Call)
    ensures
        r@ == concluded(query, o@),
{
    match o {
        Outcome::Failed(error) => {
            if query {
                Call { state: State::Progress { error } }
            } else {
                Call { state: State::Finished(reply_outcome(Outcome::Failed(error))) }
            }
        },
        o => Call { state: State::Finished(reply_outcome(o)) },
    }
}

/// A job that is running, or has ended.
fn run(close: Option<u64>, query: bool, o: RunningOperation) -> (r: Call)
    requires
        operation_alive(o@),
    ensures
        r@ == running(close, query, o@),
{
    match o {
        Operation::Finished(outcome) => match close {
            Some(db) => Call { state: State::Closing { db, query, outcome } },
            None => conclude(query, outcome),
        },
        operation => Call { state: State::Running { close, query, operation } },
    }
}

/// Whether a job is a query.
fn is_query(job: &NewJob) -> (r: bool)
    ensures
        r == (job@ is Query),
{
    matches!(job, Job::Query { .. })
}

/// A connection that is being opened, is open, or could not be.
fn open_or_run(
    connections: &mut Connections,
    target: Target<String>,
    job: NewJob,
    o: Opening<String>,
) -> (r: Call)
    ensures
        (r@, final(connections)@) == opened(old(connections)@, target@, job@, o@),
{
    let query = is_query(&job);
    match o {
        Opening::Ready { db } => {
            let close = match &target {
                Target::Scratch => {
                    if db != 0 {
                        Some(db)
                    } else {
                        None
                    }
                },
                _ => None,
            };
            connections.keep(target, db);
            proof {
                lemma_start_alive(db, job@);
            }
            run(close, query, Operation::start(db, job))
        },
        Opening::Failed { error } => conclude(query, Outcome::Failed(error)),
        opening => Call { state: State::Opening { target, job, opening } },
    }
}

/// Finds the connection of a target, or starts to open it.
fn connect(connections: &mut Connections, target: Target<String>, job: NewJob) -> (r: Call)
    ensures
        (r@, final(connections)@) == connecting(old(connections)@, target@, job@),
{
    match connections.find(&target) {
        Some(db) => {
            proof {
                lemma_start_alive(db, job@);
            }
            run(None, is_query(&job), Operation::start(db, job))
        },
        None => {
            let opening = match &target {
                Target::File(path) => open_fresh(path.as_str()),
                _ => open_fresh(":memory:"),
            };
            open_or_run(connections, target, job, opening)
        },
    }
}

/// Starts a job on the file at `path`: its connection is opened once and kept.
pub fn with_path_db(connections: &mut Connections, path: String, job: NewJob) -> (r: Call)
    ensures
        (r@, final(connections)@) == call_start(old(connections)@, Target::File(path@), job@),
{
    connect(connections, Target::File(path), job)
}

/// Starts a job on the in-memory database of that name: its registry is locked first.
pub fn with_memory_db(name: String, job: NewJob) -> (r: Call)
    ensures
        forall|w: ConnectionsView|
            (r@, w) == #[trigger] call_start(w, Target::Memory(name@), job@),
{
    Call { state: State::Lock { name, job } }
}

impl Call {
    /// Starts a job on a target.
    pub fn start(connections: &mut Connections, target: Target<String>, job: NewJob) -> (r: Call)
        ensures
            (r@, final(connections)@) == call_start(old(connections)@, target@, job@),
    {
        match target {
            Target::Memory(name) => with_memory_db(name, job),
            Target::Scratch => connect(connections, Target::Scratch, job),
            Target::File(path) => with_path_db(connections, path, job),
        }
    }

    /// A call that has its answer already.
    pub fn answered(answer: Json) -> (r: Call)
        ensures
            r@ == CallView::Finished(answer@),
    {
        Call { state: State::Finished(answer) }
    }

    /// A call that asks for SQLite's version.
    pub fn version() -> (r: Call)
        ensures
            r@ == CallView::Version,
    {
        Call { state: State::Version }
    }

    /// The call into SQLite that is pending.
    pub fn action(&self) -> (r: Option<Action<String, Vec<u8>>>)
        ensures
            action_view(r) == call_action(self@),
            r is None <==> self@ is Finished,
    {
        proof {
            use_type_invariant(self);
        }
        match &self.state {
            State::Lock { name: _, job: _ } => Some(Action::LockMemory),
            State::Opening { target: _, job: _, opening } => opening.action(),
            State::Running { close: _, query: _, operation } => operation.action(),
            State::Closing { db, query: _, outcome: _ } => Some(Action::Close { db: *db }),
            State::Progress { error: _ } => Some(Action::ReadProgress),
            State::Version => Some(Action::LibVersion),
            State::Finished(_) => None,
        }
    }

    /// Takes an event in.
    pub fn resume(self, connections: &mut Connections, e: Event<String, Vec<u8>>) -> (r: Call)
        ensures
            (r@, final(connections)@) == call_next(old(connections)@, self@, e@),
    {
        proof {
            use_type_invariant(&self);
            if let CallView::Running { close, query, operation } = self@ {
                lemma_operation_alive(operation, e@);
            }
        }
        match (self.state, e) {
            (State::Lock { name, job }, Event::Locked(poison)) => match poison {
                Some(reason) => {
                    let mut error = "memory registry poisoned: ".to_owned();
                    error.append(reason.as_str());
                    conclude(is_query(&job), Outcome::Failed(error))
                },
                None => connect(connections, Target::Memory(name), job),
            },
            (State::Opening { target, job, opening }, e) => {
                let opening = connections.advance(opening, e);
                open_or_run(connections, target, job, opening)
            },
            (State::Running { close, query, operation }, e) => run(
                close,
                query,
                operation.resume(e),
            ),
            (State::Closing { db: _, query, outcome }, Event::Done) => conclude(query, outcome),
            (State::Progress { error }, Event::Steps(n)) => {
                let mut error = error;
                error.append(" (vm_steps=");
                error.append(decimal_u64(n).as_str());
                error.append(")");
                Call::answered(ok_err(Err(error)))
            },
            (State::Version, Event::Text(version)) => {
                let version = libsql_version(version);
                Call::answered(ok_err(Ok(())).with("version", Json::Text(version)))
            },
            (state, _) => Call { state },
        }
    }

    /// The answer, once it is there.
    pub fn answer(&self) -> (r: Option<&Json>)
        ensures
            match r {
                Some(j) => self@ == CallView::Finished(j@),
                None => !(self@ is Finished),
            },
    {
        match &self.state {
            State::Finished(answer) => Some(answer),
            _ => None,
        }
    }
}

} // verus!

//! Whole calls, from their start to their answer.

use crate::base64::encoded;
use crate::call::{
    call_action, call_after, call_next, call_start, concluded, connecting, running, to_close,
    CallView,
};
use crate::connections::{kept, target_path, ConnectionsView, TargetView};
use crate::driver::{ActionView, EventView};
use crate::json::JsonView;
use crate::open::{opening_action, opening_after, opening_start, OpeningView};
use crate::operation::{
    operation_action, operation_next, operation_start, JobView, OperationView,
};
use crate::statement::{Outcome, OutcomeView};
use crate::text::{decimal, lossy_text};
use vstd::prelude::*;

verus! {

/// An operation after events.
pub open spec fn operation_after(o: OperationView, events: Seq<EventView>) -> OperationView
    decreases events.len(),
{
    if events.len() == 0 {
        o
    } else {
        operation_after(operation_next(o, events[0]), events.skip(1))
    }
}

/// Whether a job on a connection ends with that outcome at the last of the events.
pub open spec fn ends_with(
    db: u64,
    job: JobView,
    events: Seq<EventView>,
    outcome: OutcomeView,
) -> bool {
    let o = operation_start(db, job);
    &&& operation_after(o, events) == OperationView::Finished(outcome)
    &&& events.len() > 0 ==> !(operation_after(o, events.drop_last()) is Finished)
}

/// Whether the connection of a target is `db`: it is kept, and nothing is opened, or the
/// last of the events brings it.
pub open spec fn opens_to(
    w: ConnectionsView,
    t: TargetView,
    opens: Seq<EventView>,
    db: u64,
) -> bool {
    match kept(w, t) {
        Some(known) => opens.len() == 0 && db == known,
        None => {
            &&& opens.len() > 0
            &&& opening_after(target_path(t), w.converted, opens).0 == (OpeningView::Ready { db })
            &&& !(opening_after(target_path(t), w.converted, opens.drop_last()).0 is Ready)
        },
    }
}

/// The event that locks the registry of in-memory databases, where the target needs it.
pub open spec fn lock_events(t: TargetView) -> Seq<EventView> {
    if t is Memory {
        seq![EventView::Locked(None)]
    } else {
        Seq::empty()
    }
}

/// The event that closes a scratch database.
pub open spec fn close_events(t: TargetView, db: u64) -> Seq<EventView> {
    if t is Scratch && db != 0 {
        seq![EventView::Done]
    } else {
        Seq::empty()
    }
}

/// The event that tells a failed query's progress.
pub open spec fn progress_events(job: JobView, outcome: OutcomeView, steps: u64) -> Seq<
    EventView,
> {
    if job is Query && outcome is Failed {
        seq![EventView::Steps(steps)]
    } else {
        Seq::empty()
    }
}

/// The events of a whole call.
pub open spec fn whole_events(
    t: TargetView,
    job: JobView,
    db: u64,
    opens: Seq<EventView>,
    events: Seq<EventView>,
    outcome: OutcomeView,
    steps: u64,
) -> Seq<EventView> {
    lock_events(t) + opens + events + close_events(t, db) + progress_events(job, outcome, steps)
}

/// The answer to a job that ends with an outcome: success with its payload, or failure with
/// its error, to which a query adds how far it got.
pub open spec fn job_reply(job: JobView, outcome: OutcomeView, steps: u64) -> JsonView {
    let ok = map!["ok"@ => JsonView::Bool(true)];
    JsonView::Object(
        match outcome {
            Outcome::Done => ok,
            Outcome::Rows(rows) => ok.insert("rows"@, JsonView::List(rows)),
            Outcome::Image(bytes) => ok.insert("data"@, JsonView::Text(encoded(bytes))).insert(
                "bytes_b64"@,
                JsonView::Text(encoded(bytes)),
            ),
            Outcome::Failed(error) => map!["ok"@ => JsonView::Bool(false)].insert(
                "error"@,
                JsonView::Text(
                    if job is Query {
                        error + " (vm_steps="@ + decimal(steps as int) + ")"@
                    } else {
                        error
                    },
                ),
            ),
        },
    )
}

proof fn lemma_call_concat(
    w: ConnectionsView,
    c: CallView,
    a: Seq<EventView>,
    b: Seq<EventView>,
)
    ensures
        ({
            let (c1, w1) = call_after(w, c, a);
            call_after(w, c, a + b) == call_after(w1, c1, b)
        }),
    decreases a.len(),
{
    if a.len() == 0 {
        assert(a + b =~= b);
    } else {
        let (c1, w1) = call_next(w, c, a[0]);
        assert((a + b).skip(1) =~= a.skip(1) + b);
        lemma_call_concat(w1, c1, a.skip(1), b);
    }
}

proof fn lemma_call_one(w: ConnectionsView, c: CallView, e: EventView)
    ensures
        call_after(w, c, seq![e]) == call_next(w, c, e),
{
    assert(seq![e].skip(1) =~= Seq::empty());
    reveal_with_fuel(call_after, 2);
}

/// An opening that has ended stays as it is.
proof fn lemma_opening_ended(
    path: Seq<char>,
    converted: Set<Seq<char>>,
    events: Seq<EventView>,
    n: int,
)
    requires
        0 <= n <= events.len(),
        ({
            let o = opening_after(path, converted, events.take(n)).0;
            o is Ready || o is Failed
        }),
    ensures
        opening_after(path, converted, events).0 == opening_after(
            path,
            converted,
            events.take(n),
        ).0,
    decreases events.len(),
{
    if n == events.len() {
        assert(events.take(n) =~= events);
    } else {
        assert(events.drop_last().take(n) =~= events.take(n));
        lemma_opening_ended(path, converted, events.drop_last(), n);
    }
}

/// A call follows its opening as long as that has not ended.
proof fn lemma_call_opens(
    w: ConnectionsView,
    t: TargetView,
    job: JobView,
    opens: Seq<EventView>,
    n: int,
)
    requires
        kept(w, t) is None,
        0 <= n < opens.len(),
        ({
            let o = opening_after(target_path(t), w.converted, opens.drop_last()).0;
            !(o is Ready) && !(o is Failed)
        }),
    ensures
        ({
            let (o, converted) = opening_after(target_path(t), w.converted, opens.take(n));
            call_after(w, connecting(w, t, job).0, opens.take(n)) == (
                CallView::Opening { target: t, job, opening: o },
                ConnectionsView { converted, ..w },
            )
        }),
    decreases n,
{
    let path = target_path(t);
    let (o, converted) = opening_after(path, w.converted, opens.take(n));
    assert(opens.drop_last().take(n) =~= opens.take(n));
    if o is Ready || o is Failed {
        lemma_opening_ended(path, w.converted, opens.drop_last(), n);
    }
    if n == 0 {
        assert(opens.take(0) =~= Seq::empty());
    } else {
        lemma_call_opens(w, t, job, opens, n - 1);
        let c = connecting(w, t, job).0;
        let before = opens.take(n - 1);
        let e = opens[n - 1];
        assert(opens.take(n) =~= before + seq![e]);
        assert(opens.take(n).drop_last() =~= before);
        lemma_call_concat(w, c, before, seq![e]);
        let (c1, w1) = call_after(w, c, before);
        lemma_call_one(w1, c1, e);
    }
}

/// A call whose connection is there starts its job on it.
proof fn lemma_call_opened(
    w: ConnectionsView,
    t: TargetView,
    job: JobView,
    opens: Seq<EventView>,
    db: u64,
)
    requires
        opens_to(w, t, opens, db),
    ensures
        ({
            let (c, now) = call_after(w, connecting(w, t, job).0, opens);
            &&& c == running(to_close(t, db), job is Query, operation_start(db, job))
            &&& kept(now, t) == (if t is Scratch {
                None::<u64>
            } else {
                Some(db)
            })
        }),
{
    if kept(w, t) is None {
        let n = opens.len() - 1;
        let c = connecting(w, t, job).0;
        assert(opens =~= opens.take(n) + seq![opens[n]]);
        assert(opens.drop_last() =~= opens.take(n));
        lemma_call_opens(w, t, job, opens, n);
        lemma_call_concat(w, c, opens.take(n), seq![opens[n]]);
        let (c1, w1) = call_after(w, c, opens.take(n));
        lemma_call_one(w1, c1, opens[n]);
    }
}

/// An operation that has finished stays as it is.
proof fn lemma_operation_ended(o: OperationView, events: Seq<EventView>)
    requires
        o is Finished,
    ensures
        operation_after(o, events) == o,
    decreases events.len(),
{
    if events.len() > 0 {
        lemma_operation_ended(o, events.skip(1));
    }
}

/// A call follows its job to the end.
proof fn lemma_call_follows(
    w: ConnectionsView,
    close: Option<u64>,
    query: bool,
    o: OperationView,
    events: Seq<EventView>,
    outcome: OutcomeView,
)
    requires
        operation_after(o, events) == OperationView::Finished(outcome),
        events.len() > 0 ==> !(operation_after(o, events.drop_last()) is Finished),
    ensures
        call_after(w, running(close, query, o), events) == (
            running(close, query, OperationView::Finished(outcome)),
            w,
        ),
    decreases events.len(),
{
    if events.len() > 0 {
        if o is Finished {
            lemma_operation_ended(o, events.drop_last());
        }
        let next = operation_next(o, events[0]);
        if events.len() > 1 {
            assert(events.skip(1).drop_last() =~= events.drop_last().skip(1));
        }
        lemma_call_follows(w, close, query, next, events.skip(1), outcome);
    }
}

/// A call does its job once, on the connection of its target, and answers with how the job
/// ended: whether the connection was kept or is newly opened, behind its lock for a named
/// in-memory database, and with a scratch database closed first. Afterwards the connection
/// is kept, but for that of a scratch database.
pub proof fn law_calls_answer_with_their_outcome(
    w: ConnectionsView,
    t: TargetView,
    job: JobView,
    db: u64,
    opens: Seq<EventView>,
    events: Seq<EventView>,
    outcome: OutcomeView,
    steps: u64,
)
    requires
        opens_to(w, t, opens, db),
        ends_with(db, job, events, outcome),
    ensures
        ({
            let (c, now) = call_after(
                w,
                call_start(w, t, job).0,
                whole_events(t, job, db, opens, events, outcome, steps),
            );
            &&& c == CallView::Finished(job_reply(job, outcome, steps))
            &&& kept(now, t) == (if t is Scratch {
                None::<u64>
            } else {
                Some(db)
            })
        }),
{
    let lock = lock_events(t);
    let close = close_events(t, db);
    let progress = progress_events(job, outcome, steps);
    let query = job is Query;
    let c0 = call_start(w, t, job).0;
    lemma_call_concat(w, c0, lock + opens + events + close, progress);
    lemma_call_concat(w, c0, lock + opens + events, close);
    lemma_call_concat(w, c0, lock + opens, events);
    lemma_call_concat(w, c0, lock, opens);
    if t is Memory {
        lemma_call_one(w, c0, EventView::Locked(None));
    }
    let c1 = connecting(w, t, job).0;
    assert(call_after(w, c0, lock).0 == c1);
    assert(call_after(w, c0, lock).1 == w) by {
        assert(connecting(w, t, job).1 == w);
    }
    lemma_call_opened(w, t, job, opens, db);
    let (c2, w2) = call_after(w, c1, opens);
    lemma_call_follows(w2, to_close(t, db), query, operation_start(db, job), events, outcome);
    let (c3, w3) = call_after(w2, c2, events);
    if to_close(t, db) is Some {
        lemma_call_one(w3, c3, EventView::Done);
    }
    let (c4, w4) = call_after(w3, c3, close);
    assert(c4 == concluded(query, outcome));
    if query && outcome is Failed {
        lemma_call_one(w4, c4, EventView::Steps(steps));
    }
}

/// A call whose connection cannot be opened answers with the reason, and what is kept stays
/// as it is.
pub proof fn law_failed_openings_are_told(
    w: ConnectionsView,
    t: TargetView,
    job: JobView,
    opens: Seq<EventView>,
    error: Seq<char>,
    steps: u64,
    other: TargetView,
)
    requires
        kept(w, t) is None,
        opening_after(target_path(t), w.converted, opens).0 == (OpeningView::Failed { error }),
        opens.len() > 0 ==> !(opening_after(
            target_path(t),
            w.converted,
            opens.drop_last(),
        ).0 is Failed),
    ensures
        ({
            let outcome = OutcomeView::Failed(error);
            let (c, now) = call_after(
                w,
                call_start(w, t, job).0,
                lock_events(t) + opens + progress_events(job, outcome, steps),
            );
            &&& c == CallView::Finished(job_reply(job, outcome, steps))
            &&& kept(now, other) == kept(w, other)
        }),
{
    let outcome = OutcomeView::Failed(error);
    let path = target_path(t);
    let lock = lock_events(t);
    let progress = progress_events(job, outcome, steps);
    let c0 = call_start(w, t, job).0;
    let c1 = connecting(w, t, job).0;
    lemma_call_concat(w, c0, lock + opens, progress);
    lemma_call_concat(w, c0, lock, opens);
    if t is Memory {
        lemma_call_one(w, c0, EventView::Locked(None));
    }
    assert(call_after(w, c0, lock) == (c1, w));
    if opens.len() > 0 {
        let n = opens.len() - 1;
        assert(opens =~= opens.take(n) + seq![opens[n]]);
        assert(opens.drop_last() =~= opens.take(n));
        if opening_after(path, w.converted, opens.drop_last()).0 is Ready {
            lemma_opening_ended(path, w.converted, opens, n);
        }
        lemma_call_opens(w, t, job, opens, n);
        lemma_call_concat(w, c1, opens.take(n), seq![opens[n]]);
        let (c2, w2) = call_after(w, c1, opens.take(n));
        lemma_call_one(w2, c2, opens[n]);
    }
    let (c3, w3) = call_after(w, c1, opens);
    assert(c3 == concluded(job is Query, outcome));
    if job is Query {
        lemma_call_one(w3, c3, EventView::Steps(steps));
    }
}

/// A call on a named in-memory database starts with the lock of their registry, and where
/// that is poisoned it answers so. Any other call starts with its connection.
pub proof fn law_named_databases_are_locked_first(
    w: ConnectionsView,
    name: Seq<char>,
    job: JobView,
    reason: Seq<char>,
    steps: u64,
)
    ensures
        ({
            let start = call_start(w, TargetView::Memory(name), job).0;
            let outcome = OutcomeView::Failed("memory registry poisoned: "@ + reason);
            &&& call_action(start) == Some(ActionView::LockMemory)
            &&& call_after(
                w,
                start,
                seq![EventView::Locked(Some(reason))] + progress_events(job, outcome, steps),
            ) == (CallView::Finished(job_reply(job, outcome, steps)), w)
        }),
{
    let start = call_start(w, TargetView::Memory(name), job).0;
    let outcome = OutcomeView::Failed("memory registry poisoned: "@ + reason);
    lemma_call_concat(
        w,
        start,
        seq![EventView::Locked(Some(reason))],
        progress_events(job, outcome, steps),
    );
    lemma_call_one(w, start, EventView::Locked(Some(reason)));
    let (c, w1) = call_next(w, start, EventView::Locked(Some(reason)));
    if job is Query {
        lemma_call_one(w1, c, EventView::Steps(steps));
    }
    assert(c == concluded(job is Query, outcome));
}

/// While its connection is being opened, a call asks for what the opening asks for.
pub proof fn law_calls_ask_for_what_their_opening_asks(
    w: ConnectionsView,
    t: TargetView,
    job: JobView,
    opens: Seq<EventView>,
    n: int,
)
    requires
        kept(w, t) is None,
        0 <= n < opens.len(),
        ({
            let o = opening_after(target_path(t), w.converted, opens.drop_last()).0;
            !(o is Ready) && !(o is Failed)
        }),
    ensures
        ({
            let (o, converted) = opening_after(target_path(t), w.converted, opens.take(n));
            let (c, now) = call_after(
                w,
                call_start(w, t, job).0,
                lock_events(t) + opens.take(n),
            );
            call_action(c) == opening_action(o) && now.converted == converted
        }),
{
    let c0 = call_start(w, t, job).0;
    lemma_call_concat(w, c0, lock_events(t), opens.take(n));
    if t is Memory {
        lemma_call_one(w, c0, EventView::Locked(None));
    }
    assert(opens.drop_last().take(0) =~= Seq::empty());
    if opening_start(target_path(t)) is Failed {
        lemma_opening_ended(target_path(t), w.converted, opens.drop_last(), 0);
    }
    assert(call_after(w, c0, lock_events(t)) == (connecting(w, t, job).0, w));
    lemma_call_opens(w, t, job, opens, n);
}

/// While its job runs, a call asks for what the job asks for; and then it asks for the closing
/// of a scratch database, and for a failed query how far it got.
pub proof fn law_calls_ask_for_what_their_job_asks(
    w: ConnectionsView,
    t: TargetView,
    job: JobView,
    db: u64,
    opens: Seq<EventView>,
    events: Seq<EventView>,
    n: int,
    outcome: OutcomeView,
)
    requires
        opens_to(w, t, opens, db),
        ends_with(db, job, events, outcome),
        0 <= n <= events.len(),
    ensures
        ({
            let c = call_after(
                w,
                call_start(w, t, job).0,
                lock_events(t) + opens + events.take(n),
            ).0;
            let closed = call_after(
                w,
                call_start(w, t, job).0,
                lock_events(t) + opens + events + close_events(t, db),
            ).0;
            &&& n < events.len() ==> call_action(c) == operation_action(
                operation_after(operation_start(db, job), events.take(n)),
            )
            &&& n == events.len() && t is Scratch && db != 0 ==> call_action(c) == Some(
                ActionView::Close { db },
            )
            &&& job is Query && outcome is Failed ==> call_action(closed) == Some(
                ActionView::ReadProgress,
            )
        }),
{
    let c0 = call_start(w, t, job).0;
    let c1 = connecting(w, t, job).0;
    let lock = lock_events(t);
    let close = close_events(t, db);
    let query = job is Query;
    let o = operation_start(db, job);
    assert(events.take(events.len() as int) =~= events);
    lemma_call_concat(w, c0, lock + opens + events, close);
    lemma_call_concat(w, c0, lock + opens, events);
    lemma_call_concat(w, c0, lock + opens, events.take(n));
    lemma_call_concat(w, c0, lock, opens);
    if t is Memory {
        lemma_call_one(w, c0, EventView::Locked(None));
    }
    assert(call_after(w, c0, lock).0 == c1);
    assert(call_after(w, c0, lock).1 == w) by {
        assert(connecting(w, t, job).1 == w);
    }
    lemma_call_opened(w, t, job, opens, db);
    let (c2, w2) = call_after(w, c1, opens);
    lemma_call_follows(w2, to_close(t, db), query, o, events, outcome);
    let (c3, w3) = call_after(w2, c2, events);
    if to_close(t, db) is Some {
        lemma_call_one(w3, c3, EventView::Done);
    }
    if n < events.len() {
        lemma_call_runs(w2, to_close(t, db), query, o, events, n);
    }
}

/// A call follows its job on the way.
proof fn lemma_call_runs(
    w: ConnectionsView,
    close: Option<u64>,
    query: bool,
    o: OperationView,
    events: Seq<EventView>,
    n: int,
)
    requires
        0 <= n < events.len(),
        !(operation_after(o, events.drop_last()) is Finished),
    ensures
        call_after(w, running(close, query, o), events.take(n)) == (
            CallView::Running { close, query, operation: operation_after(o, events.take(n)) },
            w,
        ),
    decreases n,
{
    if o is Finished {
        lemma_operation_ended(o, events.drop_last());
    }
    if n == 0 {
        assert(events.take(0) =~= Seq::empty());
    } else {
        let next = operation_next(o, events[0]);
        assert(events.skip(1).drop_last() =~= events.drop_last().skip(1));
        assert(events.take(n).skip(1) =~= events.skip(1).take(n - 1));
        assert(events.take(n)[0] == events[0]);
        lemma_call_runs(w, close, query, next, events.skip(1), n - 1);
    }
}

/// The version is asked for, and answered as SQLite gives it, or as unknown.
pub proof fn law_the_version_is_told(w: ConnectionsView, version: Option<Seq<u8>>)
    ensures
        call_action(CallView::Version) == Some(ActionView::LibVersion),
        call_next(w, CallView::Version, EventView::Text(version)) == (
            CallView::Finished(
                JsonView::Object(
                    map!["ok"@ => JsonView::Bool(true)].insert(
                        "version"@,
                        JsonView::Text(
                            match version {
                                Some(bytes) => lossy_text(bytes),
                                None => "unknown"@,
                            },
                        ),
                    ),
                ),
            ),
            w,
        ),
{
    assert(Map::<Seq<char>, JsonView>::empty().insert("ok"@, JsonView::Bool(true)) =~= map![
        "ok"@ => JsonView::Bool(true)
    ]);
}

} // verus!

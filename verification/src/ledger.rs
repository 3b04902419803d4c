//! What SQLite holds for the library while a call runs.
//!
//! A call opens connections, prepares statements and takes blocks of memory. This module
//! keeps account of them: nothing is used that is not held, and a call that has finished
//! has given back all that it does not keep for later calls.

use crate::abi::error_reply;
use crate::call::{call_action, call_after, call_next, call_start, connecting, CallView};
use crate::connections::{kept, ConnectionsView, Target, TargetView};
use crate::driver::{Action, ActionView, Event, EventView, DESERIALIZE_FREEONCLOSE, SQLITE_OK};
use crate::json::{field_of, JsonView};
use crate::open::{opening_action, opening_next, Opening, OpeningView};
use crate::operation::{
    operation_action, operation_next, operation_start, JobView, Operation, OperationView,
};
use crate::statement::{statement_action, statement_next, statement_outcome, Phase, StatementView};
use vstd::multiset::Multiset;
use vstd::prelude::*;

verus! {

/// What SQLite holds: connections, statements and blocks of memory.
#[verifier::ext_equal]
pub struct Ledger {
    pub connections: Multiset<u64>,
    pub statements: Multiset<u64>,
    pub blocks: Multiset<u64>,
}

/// A multiset with one thing more, or as it is.
pub open spec fn with_one(m: Multiset<u64>, h: Option<u64>) -> Multiset<u64> {
    match h {
        Some(x) => m.insert(x),
        None => m,
    }
}

/// What SQLite holds for the library once an event has answered an action. A block that is
/// handed over with `sqlite3_deserialize` is SQLite's own where the options say so, whether
/// the image is taken or refused; otherwise it is still to be given back.
pub open spec fn ledger_next(l: Ledger, a: Option<ActionView>, e: EventView) -> Ledger {
    match (a, e) {
        (Some(Action::Open { path, flags }), Event::Handle { code, handle }) => if handle != 0 {
            Ledger { connections: l.connections.insert(handle), ..l }
        } else {
            l
        },
        (Some(Action::CloseFailed { db }), Event::Done) => Ledger {
            connections: l.connections.remove(db),
            ..l
        },
        (Some(Action::Close { db }), Event::Done) => Ledger {
            connections: l.connections.remove(db),
            ..l
        },
        (Some(Action::Prepare { db, sql }), Event::Handle { code, handle }) => if code
            == SQLITE_OK {
            Ledger { statements: l.statements.insert(handle), ..l }
        } else {
            l
        },
        (Some(Action::Finalize { stmt }), Event::Done) => Ledger {
            statements: l.statements.remove(stmt),
            ..l
        },
        (Some(Action::Serialize { db, schema, options }), Event::Block { at, size }) => if at
            != 0 {
            Ledger { blocks: l.blocks.insert(at), ..l }
        } else {
            l
        },
        (Some(Action::Allocate { amount }), Event::Block { at, size }) => if at != 0 {
            Ledger { blocks: l.blocks.insert(at), ..l }
        } else {
            l
        },
        (
            Some(Action::Deserialize { db, schema, at, size, options }),
            Event::Code(code),
        ) => if options % 2 == DESERIALIZE_FREEONCLOSE {
            Ledger { blocks: l.blocks.remove(at), ..l }
        } else {
            l
        },
        (Some(Action::Free { at }), Event::Done) => Ledger { blocks: l.blocks.remove(at), ..l },
        _ => l,
    }
}

/// Whether an action uses only what SQLite holds.
pub open spec fn uses_held(l: Ledger, a: Option<ActionView>) -> bool {
    match a {
        None => true,
        Some(a) => match a {
            Action::LockMemory => true,
            Action::Open { path, flags } => true,
            Action::ErrorMessage { db } => l.connections.contains(db),
            Action::ExtendedCode { db } => l.connections.contains(db),
            Action::CloseFailed { db } => l.connections.contains(db),
            Action::Close { db } => l.connections.contains(db),
            Action::BusyTimeout { db, ms } => l.connections.contains(db),
            Action::Exec { db, sql } => l.connections.contains(db),
            Action::Prepare { db, sql } => l.connections.contains(db),
            Action::BindText { stmt, index, text } => l.statements.contains(stmt),
            Action::ColumnCount { stmt } => l.statements.contains(stmt),
            Action::ColumnName { stmt, index } => l.statements.contains(stmt),
            Action::Step { stmt } => l.statements.contains(stmt),
            Action::ColumnType { stmt, index } => l.statements.contains(stmt),
            Action::ColumnInteger { stmt, index } => l.statements.contains(stmt),
            Action::ColumnReal { stmt, index } => l.statements.contains(stmt),
            Action::ColumnText { stmt, index } => l.statements.contains(stmt),
            Action::ColumnBlob { stmt, index } => l.statements.contains(stmt),
            Action::Finalize { stmt } => l.statements.contains(stmt),
            Action::ResetProgress => true,
            Action::ProgressHandler { db, interval } => l.connections.contains(db),
            Action::ReadProgress => true,
            Action::Serialize { db, schema, options } => l.connections.contains(db),
            Action::ReadBlock { at, size } => l.blocks.contains(at),
            Action::Allocate { amount } => true,
            Action::FillBlock { at, bytes } => l.blocks.contains(at),
            Action::Deserialize { db, schema, at, size, options } => l.connections.contains(db)
                && l.blocks.contains(at),
            Action::Free { at } => l.blocks.contains(at),
            Action::LibVersion => true,
        },
    }
}

/// What SQLite promises of its results: a connection that has been opened is there, and is
/// none of those that are held; and an image has a size.
pub open spec fn plausible(l: Ledger, a: Option<ActionView>, e: EventView) -> bool {
    match (a, e) {
        (Some(Action::Open { path, flags }), Event::Handle { code, handle }) => (code == SQLITE_OK
            ==> handle != 0) && (handle != 0 ==> !l.connections.contains(handle)),
        (Some(Action::Serialize { db, schema, options }), Event::Block { at, size }) => at != 0
            ==> size > 0,
        _ => true,
    }
}

/// What SQLite holds after the events of a call.
pub open spec fn held_after(
    w: ConnectionsView,
    c: CallView,
    l: Ledger,
    events: Seq<EventView>,
) -> Ledger
    decreases events.len(),
{
    if events.len() == 0 {
        l
    } else {
        let (c2, w2) = call_next(w, c, events[0]);
        held_after(w2, c2, ledger_next(l, call_action(c), events[0]), events.skip(1))
    }
}

/// Whether SQLite keeps its promises in each of a call's events.
pub open spec fn plausible_run(
    w: ConnectionsView,
    c: CallView,
    l: Ledger,
    events: Seq<EventView>,
) -> bool
    decreases events.len(),
{
    events.len() > 0 ==> {
        let (c2, w2) = call_next(w, c, events[0]);
        let l2 = ledger_next(l, call_action(c), events[0]);
        plausible(l, call_action(c), events[0]) && plausible_run(w2, c2, l2, events.skip(1))
    }
}

/// Whether every connection that is kept is held.
pub open spec fn kept_are_held(w: ConnectionsView, l: Ledger) -> bool {
    forall|t: TargetView|
        (#[trigger] kept(w, t)) matches Some(db) ==> l.connections.contains(db)
}

/// The ledger once a call on a target has finished: all is as it was but for a connection
/// that is newly kept.
pub open spec fn settled_ledger(
    l: Ledger,
    before: ConnectionsView,
    now: ConnectionsView,
    t: TargetView,
) -> Ledger {
    Ledger {
        connections: match kept(before, t) {
            Some(_) => l.connections,
            None => with_one(l.connections, kept(now, t)),
        },
        ..l
    }
}

/// The connection that an opening holds.
spec fn opening_connection(o: OpeningView) -> Option<u64> {
    match o {
        Opening::Open { path } => None,
        Opening::Message { path, code, db } => Some(db),
        Opening::CloseFailed { db, error } => Some(db),
        Opening::Busy { path, db } => Some(db),
        Opening::Convert { path, db } => Some(db),
        Opening::Prepare { path, db } => Some(db),
        Opening::Step { path, db, stmt } => Some(db),
        Opening::Text { path, db, stmt } => Some(db),
        Opening::Finalize { path, db, stmt, wal } => Some(db),
        Opening::Reset { db } => Some(db),
        Opening::Handler { db } => Some(db),
        Opening::Ready { db } => Some(db),
        Opening::Failed { error } => None,
    }
}

/// The statement that an opening holds.
spec fn opening_statement(o: OpeningView) -> Option<u64> {
    match o {
        Opening::Step { path, db, stmt } => Some(stmt),
        Opening::Text { path, db, stmt } => Some(stmt),
        Opening::Finalize { path, db, stmt, wal } => Some(stmt),
        _ => None,
    }
}

/// The statement that a statement on its way holds.
spec fn held_statement(s: StatementView) -> Option<u64> {
    match s.phase {
        Phase::Prepare => None,
        Phase::PrepareMessage { code } => None,
        Phase::RanMessage { code } => None,
        Phase::Done => None,
        Phase::Failed { error } => None,
        _ => Some(s.stmt),
    }
}

/// The statement that an operation holds.
spec fn operation_statement(o: OperationView) -> Option<u64> {
    match o {
        Operation::Statement(s) => held_statement(s),
        _ => None,
    }
}

/// The block that an operation holds.
spec fn operation_block(o: OperationView) -> Option<u64> {
    match o {
        Operation::ReadImage { at, size } => Some(at),
        Operation::FreeImage { at, bytes } => Some(at),
        Operation::Fill { db, at, bytes } => Some(at),
        Operation::Deserialize { db, at, size } => Some(at),
        _ => None,
    }
}

/// Whether an operation runs on a connection.
spec fn runs_on(o: OperationView, on: u64) -> bool {
    match o {
        Operation::Exec { db, sql } => db == on,
        Operation::ExecCode { db, code, message } => db == on,
        Operation::Statement(s) => s.db == on,
        Operation::Serialize { db } => db == on,
        Operation::Allocate { db, bytes } => db == on,
        Operation::Fill { db, at, bytes } => db == on,
        Operation::Deserialize { db, at, size } => db == on,
        _ => true,
    }
}

/// What a call holds beside what is kept.
spec fn holding(base: Ledger, c: CallView) -> Ledger {
    match c {
        CallView::Opening { target, job, opening } => Ledger {
            connections: with_one(base.connections, opening_connection(opening)),
            statements: with_one(base.statements, opening_statement(opening)),
            ..base
        },
        CallView::Running { close, query, operation } => Ledger {
            connections: with_one(base.connections, close),
            statements: with_one(base.statements, operation_statement(operation)),
            blocks: with_one(base.blocks, operation_block(operation)),
        },
        CallView::Closing { db, query, outcome } => Ledger {
            connections: base.connections.insert(db),
            ..base
        },
        _ => base,
    }
}

/// What ties the state of a call on a target to the connections that are kept.
spec fn tied(w: ConnectionsView, t: TargetView, c: CallView) -> bool {
    match c {
        CallView::Lock { name, job } => t == Target::Memory(name),
        CallView::Opening { target, job, opening } => target == t && kept(w, t) is None && (
        opening_connection(opening) matches Some(db) ==> db != 0),
        CallView::Running { close, query, operation } => match close {
            Some(db) => runs_on(operation, db),
            None => kept(w, t) matches Some(db) && runs_on(operation, db),
        },
        _ => true,
    }
}

/// Whether connections are as before but for one that is newly kept for a target.
pub open spec fn same_but(before: ConnectionsView, now: ConnectionsView, t: TargetView) -> bool {
    &&& forall|other: TargetView|
        other != t ==> #[trigger] kept(now, other) == kept(before, other)
    &&& kept(before, t) is Some ==> kept(now, t) == kept(before, t)
}

/// The account of a call on its way.
spec fn accounted(
    before: ConnectionsView,
    l0: Ledger,
    t: TargetView,
    w: ConnectionsView,
    c: CallView,
    l: Ledger,
) -> bool {
    &&& kept_are_held(before, l0)
    &&& same_but(before, w, t)
    &&& tied(w, t, c)
    &&& l == holding(settled_ledger(l0, before, w, t), c)
}

proof fn lemma_held_and_kept(
    before: ConnectionsView,
    l0: Ledger,
    t: TargetView,
    w: ConnectionsView,
    c: CallView,
    l: Ledger,
)
    requires
        accounted(before, l0, t, w, c, l),
    ensures
        kept_are_held(w, l),
{
    let base = settled_ledger(l0, before, w, t);
    assert forall|other: TargetView|
        (#[trigger] kept(w, other)) matches Some(db) implies l.connections.contains(
        kept(w, other)->0,
    ) by {
        if other != t {
            assert(kept(before, other) == kept(w, other));
        } else if kept(before, t) is Some {
            assert(kept(before, t) == kept(w, t));
        }
        assert(base.connections.contains(kept(w, other)->0));
    }
}

proof fn lemma_uses_held(
    before: ConnectionsView,
    l0: Ledger,
    t: TargetView,
    w: ConnectionsView,
    c: CallView,
    l: Ledger,
)
    requires
        accounted(before, l0, t, w, c, l),
    ensures
        uses_held(l, call_action(c)),
{
    lemma_held_and_kept(before, l0, t, w, c, l);
    match c {
        CallView::Running { close, query, operation } => {
            if close is None {
                assert(kept(w, t) is Some);
            }
        },
        _ => {},
    }
}

/// A call starts with all accounted for.
proof fn lemma_start(w: ConnectionsView, l: Ledger, t: TargetView, job: JobView)
    requires
        kept_are_held(w, l),
    ensures
        ({
            let (c, w2) = call_start(w, t, job);
            w2 == w && accounted(w, l, t, w2, c, l)
        }),
{
    lemma_connecting(w, l, t, job);
}

proof fn lemma_operation_start(db: u64, job: JobView)
    ensures
        ({
            let o = operation_start(db, job);
            &&& runs_on(o, db)
            &&& operation_statement(o) is None
            &&& operation_block(o) is None
        }),
{
}

proof fn lemma_connecting(w: ConnectionsView, l: Ledger, t: TargetView, job: JobView)
    requires
        kept_are_held(w, l),
    ensures
        ({
            let (c, w2) = connecting(w, t, job);
            w2 == w && accounted(w, l, t, w2, c, l)
        }),
{
    let (c, w2) = connecting(w, t, job);
    match kept(w, t) {
        Some(db) => {
            lemma_operation_start(db, job);
        },
        None => {},
    }
    assert(l =~= holding(settled_ledger(l, w, w2, t), c));
}

/// What an opening holds after an event is what the ledger says.
proof fn lemma_opening_step(o: OpeningView, converted: Set<Seq<char>>, e: EventView, base: Ledger)
    requires
        plausible(
            Ledger {
                connections: with_one(base.connections, opening_connection(o)),
                statements: with_one(base.statements, opening_statement(o)),
                ..base
            },
            opening_action(o),
            e,
        ),
        opening_connection(o) matches Some(db) ==> db != 0,
        !(o is Ready),
        !(o is Failed),
    ensures
        ({
            let next = opening_next(o, converted, e);
            let l = Ledger {
                connections: with_one(base.connections, opening_connection(o)),
                statements: with_one(base.statements, opening_statement(o)),
                ..base
            };
            &&& (opening_connection(next) matches Some(db) ==> db != 0)
            &&& ledger_next(l, opening_action(o), e) == (Ledger {
                connections: with_one(base.connections, opening_connection(next)),
                statements: with_one(base.statements, opening_statement(next)),
                ..base
            })
            &&& (next is Ready || next is Failed ==> opening_statement(next) is None)
            &&& (next is Failed ==> opening_connection(next) is None)
        }),
{
    let next = opening_next(o, converted, e);
    let l = Ledger {
        connections: with_one(base.connections, opening_connection(o)),
        statements: with_one(base.statements, opening_statement(o)),
        ..base
    };
    assert(ledger_next(l, opening_action(o), e) =~= (Ledger {
        connections: with_one(base.connections, opening_connection(next)),
        statements: with_one(base.statements, opening_statement(next)),
        ..base
    }));
}

/// What a statement on its way holds after an event is what the ledger says.
proof fn lemma_statement_step(s: StatementView, e: EventView, base: Ledger)
    ensures
        ({
            let next = statement_next(s, e);
            let l = Ledger { statements: with_one(base.statements, held_statement(s)), ..base };
            &&& next.db == s.db
            &&& ledger_next(l, statement_action(s), e) == (Ledger {
                statements: with_one(base.statements, held_statement(next)),
                ..base
            })
            &&& (statement_outcome(next) is Some ==> held_statement(next) is None)
        }),
{
    let next = statement_next(s, e);
    let l = Ledger { statements: with_one(base.statements, held_statement(s)), ..base };
    assert(ledger_next(l, statement_action(s), e) =~= (Ledger {
        statements: with_one(base.statements, held_statement(next)),
        ..base
    }));
}

/// What an operation holds after an event is what the ledger says.
proof fn lemma_operation_step(o: OperationView, e: EventView, base: Ledger, db: u64)
    requires
        plausible(base, operation_action(o), e),
        runs_on(o, db),
    ensures
        ({
            let next = operation_next(o, e);
            let l = Ledger {
                statements: with_one(base.statements, operation_statement(o)),
                blocks: with_one(base.blocks, operation_block(o)),
                ..base
            };
            &&& runs_on(next, db)
            &&& ledger_next(l, operation_action(o), e) == (Ledger {
                statements: with_one(base.statements, operation_statement(next)),
                blocks: with_one(base.blocks, operation_block(next)),
                ..base
            })
        }),
{
    let next = operation_next(o, e);
    let l = Ledger {
        statements: with_one(base.statements, operation_statement(o)),
        blocks: with_one(base.blocks, operation_block(o)),
        ..base
    };
    let want = Ledger {
        statements: with_one(base.statements, operation_statement(next)),
        blocks: with_one(base.blocks, operation_block(next)),
        ..base
    };
    match o {
        Operation::Statement(s) => {
            lemma_statement_step(s, e, base);
        },
        _ => {
            assert(ledger_next(l, operation_action(o), e) =~= want);
        },
    }
}

/// An event leaves all accounted for.
proof fn lemma_step(
    before: ConnectionsView,
    l0: Ledger,
    t: TargetView,
    w: ConnectionsView,
    c: CallView,
    l: Ledger,
    e: EventView,
)
    requires
        accounted(before, l0, t, w, c, l),
        plausible(l, call_action(c), e),
    ensures
        ({
            let (c2, w2) = call_next(w, c, e);
            accounted(before, l0, t, w2, c2, ledger_next(l, call_action(c), e))
        }),
{
    let (c2, w2) = call_next(w, c, e);
    let l2 = ledger_next(l, call_action(c), e);
    let base = settled_ledger(l0, before, w, t);
    let base2 = settled_ledger(l0, before, w2, t);
    match c {
        CallView::Lock { name, job } => {
            match kept(w, t) {
                Some(db) => {
                    lemma_operation_start(db, job);
                },
                None => {},
            }
            assert(l2 =~= holding(base2, c2));
        },
        CallView::Opening { target, job, opening } => {
            if opening is Ready || opening is Failed {
                assert(opening_next(opening, w.converted, e) == opening);
            } else {
                lemma_opening_step(opening, w.converted, e, base);
            }
            match opening_next(opening, w.converted, e) {
                Opening::Ready { db } => {
                    lemma_operation_start(db, job);
                    assert(l2 =~= holding(base2, c2));
                },
                _ => {
                    assert(l2 =~= holding(base2, c2));
                },
            }
        },
        CallView::Running { close, query, operation } => {
            let db = match close {
                Some(db) => db,
                None => kept(w, t)->0,
            };
            lemma_operation_step(
                operation,
                e,
                Ledger { connections: with_one(base.connections, close), ..base },
                db,
            );
            assert(l2 =~= holding(base2, c2));
        },
        CallView::Closing { db, query, outcome } => {
            assert(l2 =~= holding(base2, c2));
        },
        _ => {},
    }
    assert forall|other: TargetView| other != t implies #[trigger] kept(w2, other) == kept(
        before,
        other,
    ) by {
        assert(kept(w, other) == kept(before, other));
        assert(kept(w2, other) == kept(w, other));
    }
}

/// Events leave all accounted for.
proof fn lemma_run(
    before: ConnectionsView,
    l0: Ledger,
    t: TargetView,
    w: ConnectionsView,
    c: CallView,
    l: Ledger,
    events: Seq<EventView>,
)
    requires
        accounted(before, l0, t, w, c, l),
        plausible_run(w, c, l, events),
    ensures
        ({
            let (c2, w2) = call_after(w, c, events);
            accounted(before, l0, t, w2, c2, held_after(w, c, l, events))
        }),
    decreases events.len(),
{
    if events.len() > 0 {
        let (c2, w2) = call_next(w, c, events[0]);
        lemma_step(before, l0, t, w, c, l, events[0]);
        lemma_run(
            before,
            l0,
            t,
            w2,
            c2,
            ledger_next(l, call_action(c), events[0]),
            events.skip(1),
        );
    }
}

/// As long as SQLite keeps its promises, a call on a target uses only what SQLite holds: it
/// closes nothing that is kept, and touches no statement after finalizing it and no block
/// after giving it back. It changes the connection of no other target, and replaces none
/// that is kept. When it has finished, every statement that it prepared is finalized, every
/// block is given back or is SQLite's own, and every connection that it opened is closed or
/// kept. So no cached connection has a statement pending.
pub proof fn law_calls_settle_up(
    w: ConnectionsView,
    l: Ledger,
    t: TargetView,
    job: JobView,
    events: Seq<EventView>,
)
    requires
        kept_are_held(w, l),
        plausible_run(w, call_start(w, t, job).0, l, events),
    ensures
        call_start(w, t, job).1 == w,
        ({
            let (c, now) = call_after(w, call_start(w, t, job).0, events);
            let held = held_after(w, call_start(w, t, job).0, l, events);
            &&& uses_held(held, call_action(c))
            &&& kept_are_held(now, held)
            &&& same_but(w, now, t)
            &&& (c is Finished ==> held == settled_ledger(l, w, now, t))
        }),
{
    let start = call_start(w, t, job).0;
    lemma_start(w, l, t, job);
    lemma_run(w, l, t, w, start, l, events);
    let (c, now) = call_after(w, start, events);
    let held = held_after(w, start, l, events);
    lemma_uses_held(w, l, t, now, c, held);
    lemma_held_and_kept(w, l, t, now, c, held);
}

/// The connection that an action names.
pub open spec fn named_connection(a: Option<ActionView>) -> Option<u64> {
    match a {
        Some(Action::ErrorMessage { db }) => Some(db),
        Some(Action::ExtendedCode { db }) => Some(db),
        Some(Action::CloseFailed { db }) => Some(db),
        Some(Action::Close { db }) => Some(db),
        Some(Action::BusyTimeout { db, ms }) => Some(db),
        Some(Action::Exec { db, sql }) => Some(db),
        Some(Action::Prepare { db, sql }) => Some(db),
        Some(Action::ProgressHandler { db, interval }) => Some(db),
        Some(Action::Serialize { db, schema, options }) => Some(db),
        Some(Action::Deserialize { db, schema, at, size, options }) => Some(db),
        _ => None,
    }
}

/// Whether a call on a target with a kept connection is about that connection.
spec fn reuses(t: TargetView, db: u64, c: CallView) -> bool {
    match c {
        CallView::Lock { name, job } => t == Target::Memory(name),
        CallView::Opening { target, job, opening } => false,
        CallView::Running { close, query, operation } => close is None && runs_on(operation, db),
        CallView::Closing { db: other, query, outcome } => false,
        _ => true,
    }
}

proof fn lemma_reuses_run(
    w: ConnectionsView,
    t: TargetView,
    db: u64,
    c: CallView,
    events: Seq<EventView>,
)
    requires
        kept(w, t) == Some(db),
        reuses(t, db, c),
    ensures
        ({
            let (c2, w2) = call_after(w, c, events);
            w2 == w && reuses(t, db, c2)
        }),
    decreases events.len(),
{
    if events.len() > 0 {
        let (c2, w2) = call_next(w, c, events[0]);
        match c {
            CallView::Lock { name, job } => {
                lemma_operation_start(db, job);
            },
            CallView::Running { close, query, operation } => {
                lemma_runs_on_next(operation, events[0], db);
            },
            _ => {},
        }
        lemma_reuses_run(w2, t, db, c2, events.skip(1));
    }
}

proof fn lemma_runs_on_next(o: OperationView, e: EventView, db: u64)
    requires
        runs_on(o, db),
    ensures
        runs_on(operation_next(o, e), db),
{
}

/// A target whose connection is kept gets that connection, whatever comes back from SQLite:
/// nothing is opened, nothing is closed, the count of progress callbacks goes on, every
/// action that names a connection names this one, and what is kept stays as it is.
pub proof fn law_kept_connections_are_reused(
    w: ConnectionsView,
    t: TargetView,
    job: JobView,
    events: Seq<EventView>,
)
    requires
        kept(w, t) is Some,
    ensures
        ({
            let (c, now) = call_after(w, call_start(w, t, job).0, events);
            let a = call_action(c);
            &&& now == w
            &&& !(a matches Some(Action::Open { .. }))
            &&& !(a matches Some(Action::Close { .. }))
            &&& !(a matches Some(Action::CloseFailed { .. }))
            &&& a != Some(ActionView::ResetProgress)
            &&& (named_connection(a) is Some ==> named_connection(a) == kept(w, t))
        }),
{
    let db = kept(w, t)->0;
    lemma_operation_start(db, job);
    lemma_reuses_run(w, t, db, call_start(w, t, job).0, events);
}

/// What ties a call on a target to the connections when it is about to keep one.
spec fn keeps_at_most(w: ConnectionsView, t: TargetView, c: CallView) -> bool {
    match c {
        CallView::Lock { name, job } => t == Target::Memory(name),
        CallView::Opening { target, job, opening } => target == t && kept(w, t) is None,
        _ => true,
    }
}

proof fn lemma_keeps_at_most_run(
    w: ConnectionsView,
    t: TargetView,
    c: CallView,
    events: Seq<EventView>,
    other: TargetView,
)
    requires
        keeps_at_most(w, t, c),
    ensures
        ({
            let now = call_after(w, c, events).1;
            &&& kept(w, other) is Some ==> kept(now, other) == kept(w, other)
            &&& other != t ==> kept(now, other) == kept(w, other)
        }),
    decreases events.len(),
{
    if events.len() > 0 {
        let (c2, w2) = call_next(w, c, events[0]);
        lemma_keeps_at_most_run(w2, t, c2, events.skip(1), other);
    }
}

/// Nothing is ever evicted: whatever a call does and whatever comes back from SQLite, a
/// connection that is kept stays kept, and a call on one target keeps none for another.
pub proof fn law_nothing_is_evicted(
    w: ConnectionsView,
    t: TargetView,
    job: JobView,
    events: Seq<EventView>,
    other: TargetView,
)
    ensures
        ({
            let now = call_after(w, call_start(w, t, job).0, events).1;
            &&& kept(w, other) is Some ==> kept(now, other) == kept(w, other)
            &&& other != t ==> kept(now, other) == kept(w, other)
        }),
{
    lemma_keeps_at_most_run(w, t, call_start(w, t, job).0, events, other);
}

/// Whether a call on a target that is not scratch keeps its connection if it succeeds.
spec fn keeps(w: ConnectionsView, t: TargetView, c: CallView) -> bool {
    match c {
        CallView::Lock { name, job } => t == Target::Memory(name),
        CallView::Opening { target, job, opening } => target == t,
        CallView::Running { close, query, operation } => close is None && (kept(w, t) matches Some(
            db,
        ) && runs_on(operation, db)),
        CallView::Closing { db, query, outcome } => false,
        CallView::Progress { error } => true,
        CallView::Version => false,
        CallView::Finished(answer) => kept(w, t) is Some || field_of(answer, "ok"@) == Some(
            JsonView::Bool(false),
        ),
    }
}

proof fn lemma_failures_say_so()
    ensures
        forall|error: Seq<char>|
            field_of(#[trigger] error_reply(error), "ok"@) == Some(JsonView::Bool(false)),
{
    reveal_strlit("ok");
    reveal_strlit("error");
    assert("ok"@.len() != "error"@.len());
}

proof fn lemma_keeps_run(w: ConnectionsView, t: TargetView, c: CallView, events: Seq<EventView>)
    requires
        !(t is Scratch),
        keeps(w, t, c),
    ensures
        ({
            let (c2, w2) = call_after(w, c, events);
            keeps(w2, t, c2)
        }),
    decreases events.len(),
{
    if events.len() > 0 {
        let (c2, w2) = call_next(w, c, events[0]);
        lemma_failures_say_so();
        assert forall|db: u64, job: JobView| runs_on(#[trigger] operation_start(db, job), db) by {
            lemma_operation_start(db, job);
        }
        if let CallView::Running { close, query, operation } = c {
            lemma_runs_on_next(operation, events[0], kept(w, t)->0);
        }
        assert(keeps(w2, t, c2));
        lemma_keeps_run(w2, t, c2, events.skip(1));
    }
}

/// A call that succeeds leaves the connection of a file or a named in-memory database kept,
/// for every later call to find.
pub proof fn law_successful_calls_keep_their_connection(
    w: ConnectionsView,
    t: TargetView,
    job: JobView,
    events: Seq<EventView>,
)
    requires
        !(t is Scratch),
    ensures
        ({
            let (c, now) = call_after(w, call_start(w, t, job).0, events);
            c matches CallView::Finished(answer) && field_of(answer, "ok"@) == Some(
                JsonView::Bool(true),
            ) ==> kept(now, t) is Some
        }),
{
    lemma_failures_say_so();
    lemma_keeps_start(w, t, job);
    lemma_keeps_run(w, t, call_start(w, t, job).0, events);
}

proof fn lemma_keeps_start(w: ConnectionsView, t: TargetView, job: JobView)
    requires
        !(t is Scratch),
    ensures
        keeps(w, t, call_start(w, t, job).0),
{
    lemma_failures_say_so();
    if let Some(db) = kept(w, t) {
        lemma_operation_start(db, job);
    }
}

/// The job of a call on a file or a named in-memory database runs on the connection that is
/// kept for it, whether it was kept before or is newly so.
pub proof fn law_jobs_run_on_the_kept_connection(
    w: ConnectionsView,
    t: TargetView,
    job: JobView,
    events: Seq<EventView>,
)
    requires
        !(t is Scratch),
    ensures
        ({
            let (c, now) = call_after(w, call_start(w, t, job).0, events);
            let named = named_connection(call_action(c));
            c is Running ==> kept(now, t) is Some && (named is Some ==> named == kept(now, t))
        }),
{
    lemma_keeps_start(w, t, job);
    lemma_keeps_run(w, t, call_start(w, t, job).0, events);
}

/// Whether no connection is kept for two targets.
pub open spec fn isolated(w: ConnectionsView) -> bool {
    forall|a: TargetView, b: TargetView|
        a != b && (#[trigger] kept(w, a)) is Some && (#[trigger] kept(w, b)) is Some ==> kept(w, a)
            != kept(w, b)
}

/// Whether the connection that a call is opening is kept for no target.
spec fn opens_anew(w: ConnectionsView, c: CallView) -> bool {
    c matches CallView::Opening { target, job, opening } ==> (opening_connection(
        opening,
    ) matches Some(db) ==> forall|t: TargetView| #[trigger] kept(w, t) != Some(db))
}

/// The connection of an opening is the one that SQLite gave, to the end.
proof fn lemma_opening_connection(o: OpeningView, converted: Set<Seq<char>>, e: EventView)
    ensures
        ({
            let next = opening_connection(opening_next(o, converted, e));
            ||| next is None
            ||| next == opening_connection(o)
            ||| o is Open && (e matches Event::Handle { code, handle } && next == Some(handle))
        }),
{
}

proof fn lemma_isolated_step(
    before: ConnectionsView,
    l0: Ledger,
    t: TargetView,
    w: ConnectionsView,
    c: CallView,
    l: Ledger,
    e: EventView,
)
    requires
        accounted(before, l0, t, w, c, l),
        plausible(l, call_action(c), e),
        isolated(w),
        opens_anew(w, c),
    ensures
        ({
            let (c2, w2) = call_next(w, c, e);
            isolated(w2) && opens_anew(w2, c2)
        }),
{
    let (c2, w2) = call_next(w, c, e);
    lemma_held_and_kept(before, l0, t, w, c, l);
    if let CallView::Opening { target, job, opening } = c {
        lemma_opening_connection(opening, w.converted, e);
        let next = opening_next(opening, w.converted, e);
        if let Some(db) = opening_connection(next) {
            assert forall|any: TargetView| #[trigger] kept(w, any) != Some(db) by {
                if opening_connection(opening) == Some(db) {
                } else {
                    assert(db != 0 ==> !l.connections.contains(db));
                }
            }
        }
        match next {
            Opening::Ready { db } => {
                assert forall|a: TargetView, b: TargetView|
                    a != b && (#[trigger] kept(w2, a)) is Some && (#[trigger] kept(w2, b)) is Some
                        implies kept(w2, a) != kept(w2, b) by {
                    assert(kept(w, a) != Some(db) && kept(w, b) != Some(db));
                    assert(a != t ==> kept(w2, a) == kept(w, a));
                    assert(b != t ==> kept(w2, b) == kept(w, b));
                }
            },
            _ => {
                assert forall|any: TargetView| #[trigger] kept(w2, any) == kept(w, any) by {}
            },
        }
    } else {
        assert(w2 == w);
    }
}

proof fn lemma_isolated_run(
    before: ConnectionsView,
    l0: Ledger,
    t: TargetView,
    w: ConnectionsView,
    c: CallView,
    l: Ledger,
    events: Seq<EventView>,
)
    requires
        accounted(before, l0, t, w, c, l),
        plausible_run(w, c, l, events),
        isolated(w),
        opens_anew(w, c),
    ensures
        isolated(call_after(w, c, events).1),
    decreases events.len(),
{
    if events.len() > 0 {
        let (c2, w2) = call_next(w, c, events[0]);
        let l2 = ledger_next(l, call_action(c), events[0]);
        lemma_step(before, l0, t, w, c, l, events[0]);
        lemma_isolated_step(before, l0, t, w, c, l, events[0]);
        lemma_isolated_run(before, l0, t, w2, c2, l2, events.skip(1));
    }
}

/// A call keeps connections apart: where no connection was kept for two targets, none is
/// afterwards.
pub proof fn law_calls_keep_connections_apart(
    w: ConnectionsView,
    l: Ledger,
    t: TargetView,
    job: JobView,
    events: Seq<EventView>,
)
    requires
        kept_are_held(w, l),
        isolated(w),
        plausible_run(w, call_start(w, t, job).0, l, events),
    ensures
        isolated(call_after(w, call_start(w, t, job).0, events).1),
{
    lemma_start(w, l, t, job);
    lemma_isolated_run(w, l, t, w, call_start(w, t, job).0, l, events);
}

/// One call of many: its target, its job, and the events that come to it.
pub struct Visit {
    pub target: TargetView,
    pub job: JobView,
    pub events: Seq<EventView>,
}

/// What is kept and what SQLite holds after calls in a row.
pub open spec fn after_visits(w: ConnectionsView, l: Ledger, visits: Seq<Visit>) -> (
    ConnectionsView,
    Ledger,
)
    decreases visits.len(),
{
    if visits.len() == 0 {
        (w, l)
    } else {
        let (w1, l1) = after_visits(w, l, visits.drop_last());
        let v = visits.last();
        let c = call_start(w1, v.target, v.job).0;
        (call_after(w1, c, v.events).1, held_after(w1, c, l1, v.events))
    }
}

/// Whether SQLite keeps its promises in calls in a row.
pub open spec fn plausible_visits(w: ConnectionsView, l: Ledger, visits: Seq<Visit>) -> bool
    decreases visits.len(),
{
    visits.len() > 0 ==> {
        let (w1, l1) = after_visits(w, l, visits.drop_last());
        let v = visits.last();
        &&& plausible_visits(w, l, visits.drop_last())
        &&& plausible_run(w1, call_start(w1, v.target, v.job).0, l1, v.events)
    }
}

/// The connection that the job of the call at `i` is asking for, if it is asking for one.
pub open spec fn asked_connection(
    w: ConnectionsView,
    l: Ledger,
    visits: Seq<Visit>,
    i: int,
) -> Option<u64> {
    let w1 = after_visits(w, l, visits.take(i)).0;
    let v = visits[i];
    let c = call_after(w1, call_start(w1, v.target, v.job).0, v.events).0;
    if c is Running {
        named_connection(call_action(c))
    } else {
        None
    }
}

/// Over any number of calls, connections stay apart, and all that are kept are held.
pub proof fn law_connections_stay_apart(w: ConnectionsView, l: Ledger, visits: Seq<Visit>)
    requires
        kept_are_held(w, l),
        isolated(w),
        plausible_visits(w, l, visits),
    ensures
        kept_are_held(after_visits(w, l, visits).0, after_visits(w, l, visits).1),
        isolated(after_visits(w, l, visits).0),
    decreases visits.len(),
{
    if visits.len() > 0 {
        let v = visits.last();
        let (w1, l1) = after_visits(w, l, visits.drop_last());
        law_connections_stay_apart(w, l, visits.drop_last());
        law_calls_settle_up(w1, l1, v.target, v.job, v.events);
        law_calls_keep_connections_apart(w1, l1, v.target, v.job, v.events);
    }
}

/// Over any number of calls, what is kept stays kept.
pub proof fn law_nothing_is_evicted_by_many_calls(
    w: ConnectionsView,
    l: Ledger,
    visits: Seq<Visit>,
    n: int,
    t: TargetView,
)
    requires
        0 <= n <= visits.len(),
        kept(after_visits(w, l, visits.take(n)).0, t) is Some,
    ensures
        kept(after_visits(w, l, visits).0, t) == kept(after_visits(w, l, visits.take(n)).0, t),
    decreases visits.len(),
{
    if n == visits.len() {
        assert(visits.take(n) =~= visits);
    } else {
        let v = visits.last();
        let before = visits.drop_last();
        let w1 = after_visits(w, l, before).0;
        assert(before.take(n) =~= visits.take(n));
        law_nothing_is_evicted_by_many_calls(w, l, before, n, t);
        law_nothing_is_evicted(w1, v.target, v.job, v.events, t);
    }
}

/// Whether SQLite has kept its promises in the first of calls in a row, too.
proof fn lemma_plausible_prefix(w: ConnectionsView, l: Ledger, visits: Seq<Visit>, n: int)
    requires
        0 <= n <= visits.len(),
        plausible_visits(w, l, visits),
    ensures
        plausible_visits(w, l, visits.take(n)),
    decreases visits.len(),
{
    if n == visits.len() {
        assert(visits.take(n) =~= visits);
    } else {
        assert(visits.drop_last().take(n) =~= visits.take(n));
        lemma_plausible_prefix(w, l, visits.drop_last(), n);
    }
}

proof fn lemma_asked_is_kept(w: ConnectionsView, l: Ledger, visits: Seq<Visit>, i: int)
    requires
        0 <= i < visits.len(),
        !(visits[i].target is Scratch),
        asked_connection(w, l, visits, i) is Some,
    ensures
        kept(after_visits(w, l, visits.take(i + 1)).0, visits[i].target) == asked_connection(
            w,
            l,
            visits,
            i,
        ),
{
    let v = visits[i];
    let w1 = after_visits(w, l, visits.take(i)).0;
    assert(visits.take(i + 1).drop_last() =~= visits.take(i));
    assert(visits.take(i + 1).last() == v);
    law_jobs_run_on_the_kept_connection(w1, v.target, v.job, v.events);
}

/// Of any two calls on files or named in-memory databases, however many lie between them,
/// the jobs use the same connection exactly where the path or the name is the same.
pub proof fn law_one_connection_for_each_target(
    w: ConnectionsView,
    l: Ledger,
    visits: Seq<Visit>,
    i: int,
    j: int,
)
    requires
        kept_are_held(w, l),
        isolated(w),
        plausible_visits(w, l, visits),
        0 <= i <= j < visits.len(),
        !(visits[i].target is Scratch),
        !(visits[j].target is Scratch),
        asked_connection(w, l, visits, i) is Some,
        asked_connection(w, l, visits, j) is Some,
    ensures
        asked_connection(w, l, visits, i) == asked_connection(w, l, visits, j)
            <==> visits[i].target == visits[j].target,
{
    let run = visits.take(j + 1);
    lemma_asked_is_kept(w, l, visits, i);
    lemma_asked_is_kept(w, l, visits, j);
    assert(run.take(i + 1) =~= visits.take(i + 1));
    law_nothing_is_evicted_by_many_calls(w, l, run, i + 1, visits[i].target);
    lemma_plausible_prefix(w, l, visits, j + 1);
    law_connections_stay_apart(w, l, run);
    let now = after_visits(w, l, run).0;
    assert(kept(now, visits[i].target) == asked_connection(w, l, visits, i));
    assert(kept(now, visits[j].target) == asked_connection(w, l, visits, j));
}

} // verus!

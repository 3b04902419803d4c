//! What a statement gives back of what SQLite reports.

use crate::abi::ok_reply;
use crate::call::{call_after, call_start, CallView};
use crate::connections::{ConnectionsView, TargetView};
use crate::db::{law_parameters_are_the_items, request_params, request_sql};
use crate::driver::{ActionView, Event, EventView, SQLITE_DONE, SQLITE_OK, SQLITE_ROW};
use crate::json::{field_of, integer_number, with_field, JsonView};
use crate::operation::{
    operation_action, operation_start, settled, Job, JobView, OperationView,
};
use crate::runs::{
    close_events, law_calls_answer_with_their_outcome, lock_events, operation_after, opens_to,
    whole_events,
};
use crate::statement::{
    bind_phase, column_json, has_value, name_phase, params_complaint, past_column,
    statement_action, statement_next, statement_outcome, statement_start, texts_complaint,
    with_column, OutcomeView, Phase, PhaseView, StatementView,
};
use crate::text::{
    all_clean, c_text, decimal, first_nul, is_clean, law_complaints_tell_the_first_nul, lossy_text,
    told,
};
use vstd::prelude::*;

verus! {

/// A statement after events.
pub open spec fn statement_after(s: StatementView, events: Seq<EventView>) -> StatementView
    decreases events.len(),
{
    if events.len() == 0 {
        s
    } else {
        statement_after(statement_next(s, events[0]), events.skip(1))
    }
}

/// A column of a row as SQLite reports it: its type, and its value where that type has one.
pub struct Column {
    pub kind: i32,
    pub value: EventView,
}

/// Whether the value of a column is of its type: an integer, a real, a text or a blob. Of
/// any other type there is no value.
pub open spec fn is_sound(c: Column) -> bool {
    &&& c.kind == 1 ==> c.value is Integer
    &&& c.kind == 2 ==> c.value is Real
    &&& c.kind == 3 ==> c.value is Text
    &&& c.kind == 4 ==> c.value is Blob
}

/// What a column reads as: an integer as the number of that integer, a real as its number or
/// null where it has none, a text as what its bytes decode to or null where it is missing, a
/// blob as its length or null where it is missing or empty, and anything else as null.
pub open spec fn column_reads(c: Column) -> JsonView {
    match c.value {
        Event::Integer(n) if c.kind == 1 => JsonView::Number(integer_number(n)),
        Event::Real(Some(n)) if c.kind == 2 => JsonView::Number(n),
        Event::Text(Some(bytes)) if c.kind == 3 => JsonView::Text(lossy_text(bytes)),
        Event::Blob { present, len } if c.kind == 4 && present && len > 0 => JsonView::Text(
            "blob:"@ + decimal(len as int) + "b"@,
        ),
        _ => JsonView::Null,
    }
}

/// The events of a column.
pub open spec fn column_events(c: Column) -> Seq<EventView> {
    if 1 <= c.kind <= 4 {
        seq![Event::Code(c.kind), c.value]
    } else {
        seq![Event::Code(c.kind)]
    }
}

/// The events of the columns from `at` on.
pub open spec fn columns_events(columns: Seq<Column>, at: int) -> Seq<EventView>
    decreases columns.len() - at,
{
    if at < columns.len() {
        column_events(columns[at]) + columns_events(columns, at + 1)
    } else {
        Seq::empty()
    }
}

/// The events of the rows from `at` on.
pub open spec fn rows_events(rows: Seq<Seq<Column>>, at: int) -> Seq<EventView>
    decreases rows.len() - at,
{
    if at < rows.len() {
        seq![Event::Code(SQLITE_ROW)] + columns_events(rows[at], 0) + rows_events(rows, at + 1)
    } else {
        Seq::empty()
    }
}

/// What the first `n` columns of a row read as, by name. Of columns with the same name the
/// last one counts.
pub open spec fn row_reads(names: Seq<Seq<char>>, columns: Seq<Column>, n: int) -> Map<
    Seq<char>,
    JsonView,
>
    decreases n,
{
    if n <= 0 {
        Map::empty()
    } else {
        row_reads(names, columns, n - 1).insert(names[n - 1], column_reads(columns[n - 1]))
    }
}

/// What rows read as.
pub open spec fn rows_read(names: Seq<Seq<char>>, rows: Seq<Seq<Column>>) -> Seq<JsonView> {
    rows.map_values(
        |columns: Seq<Column>| JsonView::Object(row_reads(names, columns, names.len() as int)),
    )
}

/// The names of columns as SQLite reports them.
pub open spec fn names_events(names: Seq<Option<Seq<u8>>>) -> Seq<EventView> {
    names.map_values(|n: Option<Seq<u8>>| EventView::Text(n))
}

/// What names of columns read as.
pub open spec fn names_read(names: Seq<Option<Seq<u8>>>) -> Seq<Seq<char>> {
    names.map_values(
        |n: Option<Seq<u8>>|
            match n {
                Some(bytes) => lossy_text(bytes),
                None => Seq::empty(),
            },
    )
}

/// That many successes.
pub open spec fn successes(n: nat) -> Seq<EventView> {
    Seq::new(n, |i: int| EventView::Code(SQLITE_OK))
}

/// The events of a statement that is prepared and has its first `n` parameters bound.
pub open spec fn bound_events(stmt: u64, n: nat) -> Seq<EventView> {
    seq![EventView::Handle { code: SQLITE_OK, handle: stmt }] + successes(n)
}

/// The events of a query that succeeds.
pub open spec fn query_events(
    stmt: u64,
    params: nat,
    names: Seq<Option<Seq<u8>>>,
    rows: Seq<Seq<Column>>,
) -> Seq<EventView> {
    bound_events(stmt, params) + seq![EventView::Code(names.len() as i32)] + names_events(names)
        + rows_events(rows, 0) + seq![EventView::Code(SQLITE_DONE), EventView::Done]
}

/// Clean texts draw no complaint.
proof fn lemma_clean(sql: Seq<char>, params: Seq<Seq<char>>)
    requires
        all_clean(sql, params),
    ensures
        texts_complaint(sql, params) is None,
        params_complaint(params) is None,
    decreases params.len(),
{
    law_complaints_tell_the_first_nul(sql);
    if params.len() > 0 {
        assert(is_clean(params[0]));
        law_complaints_tell_the_first_nul(params[0]);
        assert forall|i: int| 0 <= i < params.skip(1).len() implies is_clean(
            #[trigger] params.skip(1)[i],
        ) by {
            assert(params.skip(1)[i] == params[i + 1]);
        }
        lemma_clean(sql, params.skip(1));
    }
}

proof fn lemma_after_concat(s: StatementView, a: Seq<EventView>, b: Seq<EventView>)
    ensures
        statement_after(s, a + b) == statement_after(statement_after(s, a), b),
    decreases a.len(),
{
    if a.len() == 0 {
        assert(a + b =~= b);
    } else {
        assert((a + b).skip(1) =~= a.skip(1) + b);
        lemma_after_concat(statement_next(s, a[0]), a.skip(1), b);
    }
}

proof fn lemma_after_one(s: StatementView, e: EventView)
    ensures
        statement_after(s, seq![e]) == statement_next(s, e),
{
    assert(seq![e].skip(1) =~= Seq::empty());
    reveal_with_fuel(statement_after, 2);
}

proof fn lemma_after_two(s: StatementView, e: EventView, f: EventView)
    ensures
        statement_after(s, seq![e, f]) == statement_next(statement_next(s, e), f),
{
    assert(seq![e, f].skip(1) =~= seq![f]);
    lemma_after_one(statement_next(s, e), f);
}

/// Each success binds one parameter.
proof fn lemma_bound(s: StatementView, done: nat, n: nat)
    requires
        s.params.len() <= usize::MAX,
        done + n <= s.params.len(),
        s.phase == bind_phase(s, done as int),
    ensures
        statement_after(s, successes(n)) == (StatementView {
            phase: bind_phase(s, (done + n) as int),
            ..s
        }),
    decreases n,
{
    if n > 0 {
        let next = statement_next(s, Event::Code(SQLITE_OK));
        assert(successes(n).skip(1) =~= successes((n - 1) as nat));
        assert(next == (StatementView { phase: bind_phase(s, done as int + 1), ..s }));
        lemma_bound(next, done + 1, (n - 1) as nat);
    }
}

/// A prepared statement after its first parameters.
proof fn lemma_prepared(s: StatementView, stmt: u64, n: nat)
    requires
        s.phase == PhaseView::Prepare,
        s.params.len() <= usize::MAX,
        n <= s.params.len(),
    ensures
        statement_after(s, bound_events(stmt, n)) == (StatementView {
            stmt,
            phase: bind_phase(s, n as int),
            ..s
        }),
{
    let first = seq![EventView::Handle { code: SQLITE_OK, handle: stmt }];
    let next = statement_next(s, first[0]);
    lemma_after_one(s, first[0]);
    lemma_after_concat(s, first, successes(n));
    lemma_bound(next, 0, n);
}

/// Each name is taken in.
proof fn lemma_named(s: StatementView, names: Seq<Option<Seq<u8>>>, at: int)
    requires
        names.len() <= i32::MAX,
        0 <= at <= names.len(),
        s.phase == name_phase(names.len() as i32, at),
        s.names == names_read(names.take(at)),
    ensures
        statement_after(s, names_events(names.skip(at))) == (StatementView {
            names: names_read(names),
            phase: Phase::Step { count: names.len() as i32 },
            ..s
        }),
    decreases names.len() - at,
{
    if at < names.len() {
        let next = statement_next(s, Event::Text(names[at]));
        assert(names_events(names.skip(at)).skip(1) =~= names_events(names.skip(at + 1)));
        assert(names_read(names.take(at + 1)) =~= names_read(names.take(at)).push(
            c_text(names[at]),
        ));
        lemma_named(next, names, at + 1);
    } else {
        assert(names.take(at) =~= names);
    }
}

/// A column reads as its value does.
proof fn lemma_column_json(c: Column)
    requires
        is_sound(c),
    ensures
        has_value(c.kind) <==> 1 <= c.kind <= 4,
        has_value(c.kind) ==> column_json(c.kind, c.value) == Some(column_reads(c)),
        !has_value(c.kind) ==> column_reads(c) == JsonView::Null,
{
}

/// Each column is taken in, and the last one completes the row.
proof fn lemma_columns(s: StatementView, columns: Seq<Column>, count: i32, at: int)
    requires
        s.names.len() == count,
        columns.len() == count,
        forall|i: int| 0 <= i < columns.len() ==> is_sound(#[trigger] columns[i]),
        0 <= at <= count,
        s.row == row_reads(s.names, columns, at),
    ensures
        statement_after(past_column(s, count, at), columns_events(columns, at)) == (StatementView {
            rows: s.rows.push(JsonView::Object(row_reads(s.names, columns, count as int))),
            row: Map::empty(),
            phase: Phase::Step { count },
            ..s
        }),
    decreases count - at,
{
    if at < count {
        let before = past_column(s, count, at);
        let c = columns[at];
        let read = StatementView {
            row: s.row.insert(s.names[at], column_reads(c)),
            phase: before.phase,
            ..s
        };
        lemma_after_concat(before, column_events(c), columns_events(columns, at + 1));
        assert(is_sound(c));
        lemma_column_json(c);
        if has_value(c.kind) {
            lemma_after_two(before, Event::Code(c.kind), c.value);
            assert(statement_after(before, column_events(c)) == with_column(
                StatementView { phase: Phase::Value { count, at: at as i32, kind: c.kind }, ..s },
                count,
                at as i32,
                column_reads(c),
            ));
        } else {
            lemma_after_one(before, Event::Code(c.kind));
        }
        assert(statement_after(before, column_events(c)) == past_column(read, count, at + 1));
        lemma_columns(read, columns, count, at + 1);
    }
}

/// Each row is taken in.
proof fn lemma_rows(s: StatementView, rows: Seq<Seq<Column>>, count: i32, at: int)
    requires
        s.query,
        s.names.len() == count,
        forall|i: int| 0 <= i < rows.len() ==> (#[trigger] rows[i]).len() == count,
        forall|i: int, j: int|
            0 <= i < rows.len() && 0 <= j < rows[i].len() ==> is_sound(#[trigger] rows[i][j]),
        s.phase == (PhaseView::Step { count }),
        s.row == Map::<Seq<char>, JsonView>::empty(),
        0 <= at <= rows.len(),
        s.rows == rows_read(s.names, rows.take(at)),
    ensures
        statement_after(s, rows_events(rows, at)) == (StatementView {
            rows: rows_read(s.names, rows),
            ..s
        }),
    decreases rows.len() - at,
{
    if at < rows.len() {
        let head = seq![EventView::Code(SQLITE_ROW)];
        let body = columns_events(rows[at], 0);
        let stepped = statement_next(s, head[0]);
        let full = StatementView {
            rows: s.rows.push(JsonView::Object(row_reads(s.names, rows[at], count as int))),
            ..s
        };
        lemma_after_one(s, head[0]);
        lemma_after_concat(s, head + body, rows_events(rows, at + 1));
        lemma_after_concat(s, head, body);
        assert(stepped == past_column(s, count, 0));
        lemma_columns(s, rows[at], count, 0);
        assert(statement_after(s, head + body) == full);
        assert(rows_read(s.names, rows.take(at + 1)) =~= full.rows);
        lemma_rows(full, rows, count, at + 1);
    } else {
        assert(rows.take(at) =~= rows);
    }
}

/// Parameters are bound in order, each at its own place: with the first `n` bound, the next
/// one is pending.
pub proof fn law_parameters_are_bound_in_order(
    query: bool,
    db: u64,
    sql: Seq<char>,
    params: Seq<Seq<char>>,
    stmt: u64,
    n: nat,
)
    requires
        params.len() <= usize::MAX,
        n < params.len(),
        all_clean(sql, params),
    ensures
        statement_action(
            statement_after(statement_start(query, db, sql, params), bound_events(stmt, n)),
        ) == Some(ActionView::BindText { stmt, index: (n + 1) as i32, text: params[n as int] }),
{
    lemma_clean(sql, params);
    lemma_prepared(statement_start(query, db, sql, params), stmt, n);
}

/// A query that has read all its rows waits for the next.
proof fn lemma_query_reads(
    db: u64,
    sql: Seq<char>,
    params: Seq<Seq<char>>,
    stmt: u64,
    names: Seq<Option<Seq<u8>>>,
    rows: Seq<Seq<Column>>,
)
    requires
        params.len() <= usize::MAX,
        names.len() <= i32::MAX,
        all_clean(sql, params),
        forall|i: int| 0 <= i < rows.len() ==> (#[trigger] rows[i]).len() == names.len(),
        forall|i: int, j: int|
            0 <= i < rows.len() && 0 <= j < rows[i].len() ==> is_sound(#[trigger] rows[i][j]),
    ensures
        ({
            let s = statement_after(
                statement_start(true, db, sql, params),
                bound_events(stmt, params.len()) + seq![EventView::Code(names.len() as i32)]
                    + names_events(names) + rows_events(rows, 0),
            );
            s == (StatementView {
                query: true,
                db,
                stmt,
                sql,
                params,
                names: names_read(names),
                rows: rows_read(names_read(names), rows),
                row: Map::empty(),
                phase: Phase::Step { count: names.len() as i32 },
            })
        }),
{
    lemma_clean(sql, params);
    let s = statement_start(true, db, sql, params);
    let count = names.len() as i32;
    let bound = bound_events(stmt, params.len());
    let counted = seq![EventView::Code(count)];
    let named = names_events(names);
    let read = rows_events(rows, 0);
    lemma_after_concat(s, bound + counted + named, read);
    lemma_after_concat(s, bound + counted, named);
    lemma_after_concat(s, bound, counted);
    lemma_prepared(s, stmt, params.len());
    let s1 = statement_after(s, bound);
    lemma_after_one(s1, counted[0]);
    let s2 = statement_next(s1, counted[0]);
    assert(names.skip(0) =~= names);
    assert(names_read(names.take(0)) =~= Seq::empty());
    lemma_named(s2, names, 0);
    let s3 = statement_after(s2, named);
    assert(rows_read(s3.names, rows.take(0)) =~= Seq::empty());
    lemma_rows(s3, rows, count, 0);
}

/// A query that succeeds gives every row that SQLite reports, in order and no other, each
/// as the object of its columns.
pub proof fn law_queries_give_all_rows(
    db: u64,
    sql: Seq<char>,
    params: Seq<Seq<char>>,
    stmt: u64,
    names: Seq<Option<Seq<u8>>>,
    rows: Seq<Seq<Column>>,
)
    requires
        params.len() <= usize::MAX,
        names.len() <= i32::MAX,
        all_clean(sql, params),
        forall|i: int| 0 <= i < rows.len() ==> (#[trigger] rows[i]).len() == names.len(),
        forall|i: int, j: int|
            0 <= i < rows.len() && 0 <= j < rows[i].len() ==> is_sound(#[trigger] rows[i][j]),
    ensures
        statement_outcome(
            statement_after(
                statement_start(true, db, sql, params),
                query_events(stmt, params.len(), names, rows),
            ),
        ) == Some(OutcomeView::Rows(rows_read(names_read(names), rows))),
{
    let s = statement_start(true, db, sql, params);
    let front = bound_events(stmt, params.len()) + seq![EventView::Code(names.len() as i32)]
        + names_events(names) + rows_events(rows, 0);
    let end = seq![EventView::Code(SQLITE_DONE), EventView::Done];
    lemma_query_reads(db, sql, params, stmt, names, rows);
    lemma_after_concat(s, front, end);
    lemma_after_two(statement_after(s, front), end[0], end[1]);
}

/// A statement that is run for its effect succeeds where its only step ends it or brings a
/// row, and leaves any further row unread.
pub proof fn law_statements_run_once(
    db: u64,
    sql: Seq<char>,
    params: Seq<Seq<char>>,
    stmt: u64,
    step: i32,
)
    requires
        params.len() <= usize::MAX,
        all_clean(sql, params),
    ensures
        ({
            let s = statement_after(
                statement_start(false, db, sql, params),
                bound_events(stmt, params.len()) + seq![EventView::Code(step), EventView::Done],
            );
            &&& (step == SQLITE_DONE || step == SQLITE_ROW ==> statement_outcome(s) == Some(
                OutcomeView::Done,
            ))
            &&& (step != SQLITE_DONE && step != SQLITE_ROW ==> statement_outcome(s) is None
                && statement_action(s) == Some(ActionView::ErrorMessage { db }))
        }),
{
    let s = statement_start(false, db, sql, params);
    let bound = bound_events(stmt, params.len());
    lemma_clean(sql, params);
    let end = seq![EventView::Code(step), EventView::Done];
    lemma_prepared(s, stmt, params.len());
    lemma_after_concat(s, bound, end);
    lemma_after_two(statement_after(s, bound), end[0], end[1]);
}

/// A query that succeeds has not ended before the last of its events.
proof fn lemma_query_ends_last(
    db: u64,
    sql: Seq<char>,
    params: Seq<Seq<char>>,
    stmt: u64,
    names: Seq<Option<Seq<u8>>>,
    rows: Seq<Seq<Column>>,
)
    requires
        params.len() <= usize::MAX,
        names.len() <= i32::MAX,
        all_clean(sql, params),
        forall|i: int| 0 <= i < rows.len() ==> (#[trigger] rows[i]).len() == names.len(),
        forall|i: int, j: int|
            0 <= i < rows.len() && 0 <= j < rows[i].len() ==> is_sound(#[trigger] rows[i][j]),
    ensures
        statement_outcome(
            statement_after(
                statement_start(true, db, sql, params),
                query_events(stmt, params.len(), names, rows).drop_last(),
            ),
        ) is None,
{
    let s = statement_start(true, db, sql, params);
    let front = bound_events(stmt, params.len()) + seq![EventView::Code(names.len() as i32)]
        + names_events(names) + rows_events(rows, 0);
    let end = seq![EventView::Code(SQLITE_DONE)];
    assert(query_events(stmt, params.len(), names, rows).drop_last() =~= front + end);
    lemma_query_reads(db, sql, params, stmt, names, rows);
    lemma_after_concat(s, front, end);
    lemma_after_one(statement_after(s, front), end[0]);
}

/// An operation follows its statement.
proof fn lemma_operation_follows(s: StatementView, events: Seq<EventView>)
    ensures
        operation_after(settled(s), events) == settled(statement_after(s, events)),
    decreases events.len(),
{
    if events.len() > 0 {
        let next = statement_next(s, events[0]);
        if statement_outcome(s) is Some {
            assert(next == s);
        }
        lemma_operation_follows(next, events.skip(1));
    }
}

/// A query is answered with every row that SQLite reports, in order and no other, each as
/// the object of its columns: on a connection that is kept or newly opened, on a file, on a
/// named in-memory database behind its lock, and on a scratch database that is closed.
pub proof fn law_queries_are_answered_with_all_rows(
    w: ConnectionsView,
    t: TargetView,
    db: u64,
    opens: Seq<EventView>,
    sql: Seq<char>,
    params: Seq<Seq<char>>,
    stmt: u64,
    names: Seq<Option<Seq<u8>>>,
    rows: Seq<Seq<Column>>,
)
    requires
        opens_to(w, t, opens, db),
        params.len() <= usize::MAX,
        names.len() <= i32::MAX,
        all_clean(sql, params),
        forall|i: int| 0 <= i < rows.len() ==> (#[trigger] rows[i]).len() == names.len(),
        forall|i: int, j: int|
            0 <= i < rows.len() && 0 <= j < rows[i].len() ==> is_sound(#[trigger] rows[i][j]),
    ensures
        call_after(
            w,
            call_start(w, t, Job::Query { sql, params }).0,
            lock_events(t) + opens + query_events(stmt, params.len(), names, rows) + close_events(
                t,
                db,
            ),
        ).0 == CallView::Finished(
            with_field(
                ok_reply(),
                "rows"@,
                JsonView::List(rows_read(names_read(names), rows)),
            ),
        ),
{
    let job = JobView::Query { sql, params };
    let s = statement_start(true, db, sql, params);
    let events = query_events(stmt, params.len(), names, rows);
    lemma_clean(sql, params);
    let outcome = OutcomeView::Rows(rows_read(names_read(names), rows));
    law_queries_give_all_rows(db, sql, params, stmt, names, rows);
    lemma_query_ends_last(db, sql, params, stmt, names, rows);
    lemma_operation_follows(s, events);
    lemma_operation_follows(s, events.drop_last());
    law_calls_answer_with_their_outcome(w, t, job, db, opens, events, outcome, 0);
    assert(whole_events(t, job, db, opens, events, outcome, 0) =~= lock_events(t) + opens + events
        + close_events(t, db));
}

/// The operation of a statement is where the statement is, asks for what it asks for, and
/// ends as it ends.
pub proof fn law_operations_follow_their_statement(
    query: bool,
    db: u64,
    sql: Seq<char>,
    params: Seq<Seq<char>>,
    events: Seq<EventView>,
)
    ensures
        ({
            let job = if query {
                JobView::Query { sql, params }
            } else {
                JobView::ExecParams { sql, params }
            };
            let s = statement_after(statement_start(query, db, sql, params), events);
            let o = operation_after(operation_start(db, job), events);
            match statement_outcome(s) {
                Some(outcome) => o == OperationView::Finished(outcome),
                None => !(o is Finished) && operation_action(o) == statement_action(s),
            }
        }),
{
    lemma_operation_follows(statement_start(query, db, sql, params), events);
}

/// A statement whose texts can be handed to SQLite starts with the preparing of its text as
/// it was given. Otherwise it has failed, and nothing is asked of SQLite: the error tells
/// where the first zero byte stands in the statement, or else in the first parameter that has
/// one.
pub proof fn law_statements_are_prepared_as_given(
    query: bool,
    db: u64,
    sql: Seq<char>,
    params: Seq<Seq<char>>,
    k: int,
    at: int,
)
    ensures
        ({
            let s = statement_start(query, db, sql, params);
            let refused = Some(
                OutcomeView::Failed(
                    "nul byte found in provided data at position: "@ + decimal(at),
                ),
            );
            &&& all_clean(sql, params) ==> statement_outcome(s) is None && statement_action(s)
                == Some(ActionView::Prepare { db, sql })
            &&& first_nul(sql, at) ==> statement_outcome(s) == refused && statement_action(s)
                is None
            &&& is_clean(sql) && 0 <= k < params.len() && all_clean(sql, params.take(k))
                && first_nul(params[k], at) ==> statement_outcome(s) == refused
                && statement_action(s) is None
        }),
{
    if all_clean(sql, params) {
        lemma_clean(sql, params);
    }
    law_complaints_tell_the_first_nul(sql);
    if is_clean(sql) && 0 <= k < params.len() && all_clean(sql, params.take(k)) && first_nul(
        params[k],
        at,
    ) {
        lemma_first_complaint(sql, params, k, at);
    }
}

proof fn lemma_first_complaint(sql: Seq<char>, params: Seq<Seq<char>>, k: int, at: int)
    requires
        0 <= k < params.len(),
        all_clean(sql, params.take(k)),
        first_nul(params[k], at),
    ensures
        params_complaint(params) == Some(
            "nul byte found in provided data at position: "@ + decimal(at),
        ),
    decreases k,
{
    law_complaints_tell_the_first_nul(params[0]);
    if k > 0 {
        assert(is_clean(params.take(k)[0]));
        assert(params.skip(1)[k - 1] == params[k]);
        assert forall|i: int| 0 <= i < params.skip(1).take(k - 1).len() implies is_clean(
            #[trigger] params.skip(1).take(k - 1)[i],
        ) by {
            assert(params.skip(1).take(k - 1)[i] == params.take(k)[i + 1]);
        }
        lemma_first_complaint(sql, params.skip(1), k - 1, at);
    }
}

/// A statement that cannot be prepared fails with the code and SQLite's message, whatever the
/// code, and has nothing to finalize.
pub proof fn law_failed_preparations_are_told(
    query: bool,
    db: u64,
    sql: Seq<char>,
    params: Seq<Seq<char>>,
    code: i32,
    handle: u64,
    message: Option<Seq<u8>>,
)
    requires
        all_clean(sql, params),
        code != 0,
    ensures
        ({
            let s = statement_start(query, db, sql, params);
            let refused = statement_after(s, seq![EventView::Handle { code, handle }]);
            let ended = statement_after(
                s,
                seq![EventView::Handle { code, handle }, EventView::Text(message)],
            );
            &&& statement_outcome(refused) is None
            &&& statement_action(refused) == Some(ActionView::ErrorMessage { db })
            &&& statement_outcome(ended) == Some(
                OutcomeView::Failed(told("prepare rc="@, code, message)),
            )
        }),
{
    let s = statement_start(query, db, sql, params);
    lemma_clean(sql, params);
    lemma_after_one(s, EventView::Handle { code, handle });
    lemma_after_two(s, EventView::Handle { code, handle }, EventView::Text(message));
}

/// A parameter that cannot be bound ends its statement, whatever the code: the statement is
/// finalized, and the error tells which parameter it was, counted from zero.
pub proof fn law_failed_bindings_are_told(
    query: bool,
    db: u64,
    sql: Seq<char>,
    params: Seq<Seq<char>>,
    stmt: u64,
    n: nat,
    code: i32,
)
    requires
        params.len() <= usize::MAX,
        n < params.len(),
        all_clean(sql, params),
        code != 0,
    ensures
        ({
            let s = statement_start(query, db, sql, params);
            let refused = statement_after(s, bound_events(stmt, n) + seq![EventView::Code(code)]);
            let ended = statement_after(
                s,
                bound_events(stmt, n) + seq![EventView::Code(code), EventView::Done],
            );
            &&& statement_outcome(refused) is None
            &&& statement_action(refused) == Some(ActionView::Finalize { stmt })
            &&& statement_outcome(ended) == Some(
                OutcomeView::Failed(
                    "bind param "@ + decimal(n as int) + " rc="@ + decimal(code as int),
                ),
            )
        }),
{
    let s = statement_start(query, db, sql, params);
    let bound = bound_events(stmt, n);
    lemma_clean(sql, params);
    lemma_prepared(s, stmt, n);
    lemma_after_concat(s, bound, seq![EventView::Code(code)]);
    lemma_after_concat(s, bound, seq![EventView::Code(code), EventView::Done]);
    lemma_after_one(statement_after(s, bound), EventView::Code(code));
    lemma_after_two(statement_after(s, bound), EventView::Code(code), EventView::Done);
}

/// Once all parameters are bound, a query has its columns counted and then named, one after
/// the other from the first on, and then the first row is fetched. Any other statement is
/// stepped at once.
pub proof fn law_columns_are_named_in_order(
    db: u64,
    sql: Seq<char>,
    params: Seq<Seq<char>>,
    stmt: u64,
    names: Seq<Option<Seq<u8>>>,
    n: int,
)
    requires
        params.len() <= usize::MAX,
        names.len() <= i32::MAX,
        all_clean(sql, params),
        0 <= n <= names.len(),
    ensures
        ({
            let bound = bound_events(stmt, params.len());
            let query = statement_start(true, db, sql, params);
            let run = statement_start(false, db, sql, params);
            let named = statement_after(
                query,
                bound + seq![EventView::Code(names.len() as i32)] + names_events(names.take(n)),
            );
            &&& statement_action(statement_after(run, bound)) == Some(ActionView::Step { stmt })
            &&& statement_action(statement_after(query, bound)) == Some(
                ActionView::ColumnCount { stmt },
            )
            &&& n < names.len() ==> statement_action(named) == Some(
                ActionView::ColumnName { stmt, index: n as i32 },
            )
            &&& n == names.len() ==> statement_action(named) == Some(ActionView::Step { stmt })
        }),
{
    let bound = bound_events(stmt, params.len());
    let counted = seq![EventView::Code(names.len() as i32)];
    let query = statement_start(true, db, sql, params);
    lemma_clean(sql, params);
    lemma_prepared(query, stmt, params.len());
    lemma_prepared(statement_start(false, db, sql, params), stmt, params.len());
    lemma_after_concat(query, bound + counted, names_events(names.take(n)));
    lemma_after_concat(query, bound, counted);
    let s1 = statement_after(query, bound);
    lemma_after_one(s1, counted[0]);
    lemma_named_so_far(statement_next(s1, counted[0]), names, n);
}

/// Each of the first names is taken in.
proof fn lemma_named_so_far(s: StatementView, names: Seq<Option<Seq<u8>>>, n: int)
    requires
        names.len() <= i32::MAX,
        0 <= n <= names.len(),
        s.phase == name_phase(names.len() as i32, 0),
        s.names.len() == 0,
    ensures
        statement_after(s, names_events(names.take(n))) == (StatementView {
            names: names_read(names.take(n)),
            phase: name_phase(names.len() as i32, n),
            ..s
        }),
    decreases n,
{
    if n == 0 {
        assert(names_events(names.take(0)) =~= Seq::empty());
        assert(names_read(names.take(0)) =~= s.names);
    } else {
        let e = EventView::Text(names[n - 1]);
        let before = names_events(names.take(n - 1));
        lemma_named_so_far(s, names, n - 1);
        assert(names_events(names.take(n)) =~= before + seq![e]);
        lemma_after_concat(s, before, seq![e]);
        lemma_after_one(statement_after(s, before), e);
        assert(names_read(names.take(n)) =~= names_read(names.take(n - 1)).push(
            c_text(names[n - 1]),
        ));
    }
}

/// The events of a query that has read rows, and waits for the next.
pub open spec fn read_events(
    stmt: u64,
    params: nat,
    names: Seq<Option<Seq<u8>>>,
    rows: Seq<Seq<Column>>,
) -> Seq<EventView> {
    bound_events(stmt, params) + seq![EventView::Code(names.len() as i32)] + names_events(names)
        + rows_events(rows, 0)
}

/// Whether rows have a value of its type for each of that many columns.
pub open spec fn all_sound(rows: Seq<Seq<Column>>, columns: nat) -> bool {
    &&& forall|i: int| 0 <= i < rows.len() ==> (#[trigger] rows[i]).len() == columns
    &&& forall|i: int, j: int|
        0 <= i < rows.len() && 0 <= j < rows[i].len() ==> is_sound(#[trigger] rows[i][j])
}

/// After any rows a query is stepped again. A step that brings no row and is not the end
/// fails it, whatever the code: SQLite is asked why, the statement is finalized, and the
/// error tells both. The step that is the end has the statement finalized.
pub proof fn law_failed_steps_are_told(
    db: u64,
    sql: Seq<char>,
    params: Seq<Seq<char>>,
    stmt: u64,
    names: Seq<Option<Seq<u8>>>,
    rows: Seq<Seq<Column>>,
    code: i32,
    message: Option<Seq<u8>>,
)
    requires
        params.len() <= usize::MAX,
        names.len() <= i32::MAX,
        all_clean(sql, params),
        all_sound(rows, names.len()),
        code != 100,
    ensures
        ({
            let s = statement_start(true, db, sql, params);
            let read = read_events(stmt, params.len(), names, rows);
            let stepped = statement_after(s, read + seq![EventView::Code(code)]);
            let asked = statement_after(
                s,
                read + seq![EventView::Code(code), EventView::Text(message)],
            );
            let ended = statement_next(asked, EventView::Done);
            &&& statement_action(statement_after(s, read)) == Some(ActionView::Step { stmt })
            &&& statement_outcome(stepped) is None
            &&& code == 101 ==> statement_action(stepped) == Some(ActionView::Finalize { stmt })
            &&& code != 101 ==> statement_action(stepped) == Some(ActionView::ErrorMessage { db })
                && statement_action(asked) == Some(ActionView::Finalize { stmt })
                && statement_outcome(asked) is None && statement_outcome(ended) == Some(
                OutcomeView::Failed(told("step rc="@, code, message)),
            )
        }),
{
    let s = statement_start(true, db, sql, params);
    let read = read_events(stmt, params.len(), names, rows);
    lemma_query_reads(db, sql, params, stmt, names, rows);
    lemma_after_concat(s, read, seq![EventView::Code(code)]);
    lemma_after_concat(s, read, seq![EventView::Code(code), EventView::Text(message)]);
    lemma_after_one(statement_after(s, read), EventView::Code(code));
    lemma_after_two(statement_after(s, read), EventView::Code(code), EventView::Text(message));
}

/// The first columns of a row are taken in.
proof fn lemma_columns_so_far(s: StatementView, columns: Seq<Column>, count: i32, n: int)
    requires
        s.names.len() == count,
        columns.len() == count,
        forall|i: int| 0 <= i < columns.len() ==> is_sound(#[trigger] columns[i]),
        0 <= n < count,
        s.row == Map::<Seq<char>, JsonView>::empty(),
    ensures
        statement_after(past_column(s, count, 0), columns_events(columns.take(n), 0)) == (
        StatementView {
            row: row_reads(s.names, columns, n),
            phase: Phase::Type { count, at: n as i32 },
            ..s
        }),
    decreases n,
{
    if n == 0 {
        assert(columns_events(columns.take(0), 0) =~= Seq::empty());
    } else {
        let c = columns[n - 1];
        let start = past_column(s, count, 0);
        let before = columns_events(columns.take(n - 1), 0);
        lemma_columns_so_far(s, columns, count, n - 1);
        lemma_columns_events_snoc(columns.take(n), 0);
        assert(columns.take(n).drop_last() =~= columns.take(n - 1));
        assert(is_sound(c));
        lemma_column_json(c);
        lemma_after_concat(start, before, column_events(c));
        let at = statement_after(start, before);
        if has_value(c.kind) {
            lemma_after_two(at, Event::Code(c.kind), c.value);
        } else {
            lemma_after_one(at, Event::Code(c.kind));
        }
    }
}

proof fn lemma_columns_events_snoc(columns: Seq<Column>, at: int)
    requires
        0 <= at < columns.len(),
    ensures
        columns_events(columns, at) == columns_events(columns.drop_last(), at) + column_events(
            columns.last(),
        ),
    decreases columns.len() - at,
{
    let front = columns.drop_last();
    if at < columns.len() - 1 {
        lemma_columns_events_snoc(columns, at + 1);
        assert(front[at] == columns[at]);
        assert(columns_events(columns, at) =~= columns_events(front, at) + column_events(
            columns.last(),
        ));
    } else {
        assert(columns_events(columns, at + 1) =~= Seq::empty());
        assert(columns_events(front, at) =~= Seq::empty());
        assert(columns_events(columns, at) =~= columns_events(front, at) + column_events(
            columns.last(),
        ));
    }
}

/// In a row, after any rows before it, the columns are read one after the other: of each its
/// type, and then its value by that type.
pub proof fn law_columns_are_read_in_order(
    db: u64,
    sql: Seq<char>,
    params: Seq<Seq<char>>,
    stmt: u64,
    names: Seq<Option<Seq<u8>>>,
    rows: Seq<Seq<Column>>,
    row: Seq<Column>,
    n: int,
    kind: i32,
)
    requires
        params.len() <= usize::MAX,
        names.len() <= i32::MAX,
        all_clean(sql, params),
        all_sound(rows, names.len()),
        all_sound(seq![row], names.len()),
        0 <= n < names.len(),
    ensures
        ({
            let s = statement_start(true, db, sql, params);
            let so_far = read_events(stmt, params.len(), names, rows) + seq![
                EventView::Code(100),
            ] + columns_events(row.take(n), 0);
            let at = statement_after(s, so_far);
            let typed = statement_action(statement_next(at, EventView::Code(kind)));
            let index = n as i32;
            &&& statement_action(at) == Some(ActionView::ColumnType { stmt, index })
            &&& kind == 1 ==> typed == Some(ActionView::ColumnInteger { stmt, index })
            &&& kind == 2 ==> typed == Some(ActionView::ColumnReal { stmt, index })
            &&& kind == 3 ==> typed == Some(ActionView::ColumnText { stmt, index })
            &&& kind == 4 ==> typed == Some(ActionView::ColumnBlob { stmt, index })
        }),
{
    let s = statement_start(true, db, sql, params);
    let read = read_events(stmt, params.len(), names, rows);
    let fetched = seq![EventView::Code(100)];
    let columns = columns_events(row.take(n), 0);
    lemma_query_reads(db, sql, params, stmt, names, rows);
    lemma_after_concat(s, read + fetched, columns);
    lemma_after_concat(s, read, fetched);
    let before = statement_after(s, read);
    lemma_after_one(before, fetched[0]);
    assert(seq![row][0] == row);
    assert forall|i: int| 0 <= i < row.len() implies is_sound(#[trigger] row[i]) by {
        assert(is_sound(seq![row][0][i]));
    }
    lemma_columns_so_far(before, row, names.len() as i32, n);
}

/// A statement run for its effect is finalized after its only step, and where that step
/// failed, whatever the code, the error tells the code and what SQLite said of it.
pub proof fn law_failed_statements_are_told(
    db: u64,
    sql: Seq<char>,
    params: Seq<Seq<char>>,
    stmt: u64,
    step: i32,
    message: Option<Seq<u8>>,
)
    requires
        params.len() <= usize::MAX,
        all_clean(sql, params),
    ensures
        ({
            let s = statement_start(false, db, sql, params);
            let bound = bound_events(stmt, params.len());
            let stepped = statement_after(s, bound + seq![EventView::Code(step)]);
            let ended = statement_after(s, bound + seq![EventView::Code(step), EventView::Done]);
            &&& statement_action(stepped) == Some(ActionView::Finalize { stmt })
            &&& statement_outcome(stepped) is None
            &&& step == 100 || step == 101 ==> statement_outcome(ended) == Some(OutcomeView::Done)
            &&& step != 100 && step != 101 ==> statement_outcome(ended) is None
                && statement_action(ended) == Some(ActionView::ErrorMessage { db })
                && statement_outcome(statement_next(ended, EventView::Text(message))) == Some(
                OutcomeView::Failed(told("step rc="@, step, message)),
            )
        }),
{
    let s = statement_start(false, db, sql, params);
    let bound = bound_events(stmt, params.len());
    lemma_clean(sql, params);
    lemma_prepared(s, stmt, params.len());
    lemma_after_concat(s, bound, seq![EventView::Code(step)]);
    lemma_after_concat(s, bound, seq![EventView::Code(step), EventView::Done]);
    lemma_after_one(statement_after(s, bound), EventView::Code(step));
    lemma_after_two(statement_after(s, bound), EventView::Code(step), EventView::Done);
}

/// What a row reads as under a name is what the last column of that name reads as.
proof fn lemma_row_reads(names: Seq<Seq<char>>, columns: Seq<Column>, n: int, j: int)
    requires
        0 <= j < n <= names.len(),
        forall|k: int| j < k < n ==> #[trigger] names[k] != names[j],
    ensures
        row_reads(names, columns, n).contains_key(names[j]),
        row_reads(names, columns, n)[names[j]] == column_reads(columns[j]),
    decreases n,
{
    if j < n - 1 {
        assert(names[n - 1] != names[j]);
        lemma_row_reads(names, columns, n - 1, j);
    }
}

proof fn lemma_row_names(names: Seq<Seq<char>>, columns: Seq<Column>, n: int, key: Seq<char>)
    requires
        0 <= n <= names.len(),
        forall|k: int| 0 <= k < names.len() ==> #[trigger] names[k] != key,
    ensures
        !row_reads(names, columns, n).contains_key(key),
    decreases n,
{
    if n > 0 {
        assert(names[n - 1] != key);
        lemma_row_names(names, columns, n - 1, key);
    }
}

/// The answer to a query holds one object for each row that SQLite reports, in order. In it
/// each column stands under its name, where no later column has that name: every integer as
/// the number of that same integer, every real as its number or as null where it has none,
/// every text as all that its bytes decode to or as null where it is missing, every blob as
/// its length in bytes or as null where it is missing or empty, and anything else as null.
/// No other name stands in it.
pub proof fn law_columns_arrive_as_sqlite_reports_them(
    w: ConnectionsView,
    t: TargetView,
    db: u64,
    opens: Seq<EventView>,
    sql: Seq<char>,
    params: Seq<Seq<char>>,
    stmt: u64,
    names: Seq<Option<Seq<u8>>>,
    rows: Seq<Seq<Column>>,
    i: int,
    j: int,
    other: Seq<char>,
)
    requires
        opens_to(w, t, opens, db),
        params.len() <= usize::MAX,
        names.len() <= i32::MAX,
        all_clean(sql, params),
        all_sound(rows, names.len()),
        0 <= i < rows.len(),
        0 <= j < names.len(),
        forall|k: int|
            j < k < names.len() ==> #[trigger] names_read(names)[k] != names_read(names)[j],
    ensures
        ({
            let c = rows[i][j];
            let name = match names[j] {
                Some(bytes) => lossy_text(bytes),
                None => Seq::empty(),
            };
            call_after(
                w,
                call_start(w, t, Job::Query { sql, params }).0,
                lock_events(t) + opens + query_events(stmt, params.len(), names, rows)
                    + close_events(t, db),
            ).0 matches CallView::Finished(answer) && field_of(answer, "ok"@) == Some(
                JsonView::Bool(true),
            ) && (field_of(answer, "rows"@) matches Some(JsonView::List(out)) && out.len()
                == rows.len() && (out[i] matches JsonView::Object(m) && {
                &&& m.contains_key(name)
                &&& c.kind == 1 ==> m[name] == JsonView::Number(integer_number(c.value->Integer_0))
                &&& c.kind == 2 ==> m[name] == match c.value->Real_0 {
                    Some(n) => JsonView::Number(n),
                    None => JsonView::Null,
                }
                &&& c.kind == 3 ==> m[name] == match c.value->Text_0 {
                    Some(bytes) => JsonView::Text(lossy_text(bytes)),
                    None => JsonView::Null,
                }
                &&& c.kind == 4 ==> m[name] == if c.value->present && c.value->Blob_len > 0 {
                    JsonView::Text("blob:"@ + decimal(c.value->Blob_len as int) + "b"@)
                } else {
                    JsonView::Null
                }
                &&& !(1 <= c.kind <= 4) ==> m[name] == JsonView::Null
                &&& (forall|k: int|
                    0 <= k < names.len() ==> #[trigger] names_read(names)[k] != other)
                    ==> !m.contains_key(other)
            }))
        }),
{
    law_queries_are_answered_with_all_rows(w, t, db, opens, sql, params, stmt, names, rows);
    let read = names_read(names);
    lemma_row_reads(read, rows[i], read.len() as int, j);
    if forall|k: int| 0 <= k < names.len() ==> #[trigger] names_read(names)[k] != other {
        lemma_row_names(read, rows[i], read.len() as int, other);
    }
    assert(is_sound(rows[i][j]));
    reveal_strlit("ok");
    reveal_strlit("rows");
    assert("ok"@.len() != "rows"@.len());
}

/// A string among the parameters of a request is bound in its place, character for character.
pub proof fn law_strings_are_bound_as_they_stand(
    m: Map<Seq<char>, JsonView>,
    items: Seq<JsonView>,
    t: Seq<char>,
    query: bool,
    db: u64,
    stmt: u64,
    n: nat,
)
    requires
        m.contains_pair("params"@, JsonView::List(items)),
        n < items.len() <= usize::MAX,
        items[n as int] == JsonView::Text(t),
        all_clean(request_sql(JsonView::Object(m)), request_params(JsonView::Object(m))),
    ensures
        ({
            let body = JsonView::Object(m);
            let s = statement_start(query, db, request_sql(body), request_params(body));
            statement_action(statement_after(s, bound_events(stmt, n))) == Some(
                ActionView::BindText { stmt, index: (n + 1) as i32, text: t },
            )
        }),
{
    let body = JsonView::Object(m);
    law_parameters_are_the_items(m, items);
    law_parameters_are_bound_in_order(query, db, request_sql(body), request_params(body), stmt, n);
}

} // verus!

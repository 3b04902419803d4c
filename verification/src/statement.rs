//! One prepared statement: prepared, bound, stepped and finalized within one call.

use crate::driver::{
    Action, ActionView, Event, EventView, SQLITE_BLOB, SQLITE_DONE, SQLITE_FLOAT, SQLITE_INTEGER,
    SQLITE_OK, SQLITE_ROW, SQLITE_TEXT,
};
#[allow(unused_imports)]
use crate::driver::action_view;
use crate::json::{number_from, Json, JsonView};
#[allow(unused_imports)]
use crate::json::{
    fields_view, integer_number, json_view, lemma_fields_view_push, list_view, texts_view,
};
use crate::text::{c_string, decimal_i64, decimal_u64, lossy, nul_error};
#[allow(unused_imports)]
use crate::text::{c_text, decimal, lossy_text, nul_complaint};
use vstd::prelude::*;
use vstd::string::*;

verus! {

/// How far a statement has come; in each phase but the last two one call is pending.
pub enum Phase<T> {
    /// The statement is to be prepared.
    Prepare,
    /// Preparing failed, and the connection is to say why.
    PrepareMessage { code: i32 },
    /// The parameter after the first `done` is to be bound.
    Bind { done: usize },
    /// Binding failed, and the statement is to be finalized.
    BindFailed { param: usize, code: i32 },
    /// The columns are to be counted.
    Count,
    /// The name of column `at` is to be read.
    Name { count: i32, at: i32 },
    /// The next row is to be fetched.
    Step { count: i32 },
    /// The type of column `at` is to be read.
    Type { count: i32, at: i32 },
    /// The value of column `at` is to be read.
    Value { count: i32, at: i32, kind: i32 },
    /// Fetching failed, and the connection is to say why.
    StepMessage { code: i32 },
    /// Fetching failed, and the statement is to be finalized.
    StepFailed { error: T },
    /// All rows are there, and the statement is to be finalized.
    Finish,
    /// The statement has run, and is to be finalized.
    Ran { code: i32 },
    /// Running failed, and the connection is to say why.
    RanMessage { code: i32 },
    /// The statement has succeeded.
    Done,
    /// The statement has failed.
    Failed { error: T },
}

/// A phase, as the contracts speak of it.
pub type PhaseView = Phase<Seq<char>>;

/// A statement on its way, as the contracts speak of it. A query collects rows; any other
/// statement is run for its effect.
pub struct StatementView {
    pub query: bool,
    pub db: u64,
    pub stmt: u64,
    pub sql: Seq<char>,
    pub params: Seq<Seq<char>>,
    pub names: Seq<Seq<char>>,
    pub rows: Seq<JsonView>,
    pub row: Map<Seq<char>, JsonView>,
    pub phase: PhaseView,
}

/// Why a statement could not be prepared.
pub open spec fn prepare_error(code: i32, message: Seq<char>) -> Seq<char> {
    "prepare rc="@ + decimal(code as int) + " msg="@ + message
}

/// Why a parameter could not be bound.
pub open spec fn bind_error(at: int, code: i32) -> Seq<char> {
    "bind param "@ + decimal(at) + " rc="@ + decimal(code as int)
}

/// Why a statement could not be stepped.
pub open spec fn step_error(code: i32, message: Seq<char>) -> Seq<char> {
    "step rc="@ + decimal(code as int) + " msg="@ + message
}

/// How an operation on a database ended: with texts of type `T`, bytes of type `B` and
/// rows of type `R`.
#[derive(Debug, PartialEq)]
pub enum Outcome<T, B, R> {
    Done,
    Rows(R),
    Image(B),
    Failed(T),
}

/// An outcome, as the contracts speak of it.
pub type OutcomeView = Outcome<Seq<char>, Seq<u8>, Seq<JsonView>>;

impl View for Outcome<String, Vec<u8>, Vec<Json>> {
    type V = OutcomeView;

    open spec fn view(&self) -> OutcomeView {
        match *self {
            Outcome::Done => Outcome::Done,
            Outcome::Rows(rows) => Outcome::Rows(list_view(rows@)),
            Outcome::Image(bytes) => Outcome::Image(bytes@),
            Outcome::Failed(error) => Outcome::Failed(error@),
        }
    }
}

/// How a statement ended, if it has.
pub open spec fn statement_outcome(s: StatementView) -> Option<OutcomeView> {
    match s.phase {
        Phase::Done => Some(
            if s.query {
                Outcome::Rows(s.rows)
            } else {
                Outcome::Done
            },
        ),
        Phase::Failed { error } => Some(Outcome::Failed(error)),
        _ => None,
    }
}

/// The first complaint about a NUL byte among parameters.
pub open spec fn params_complaint(params: Seq<Seq<char>>) -> Option<Seq<char>>
    decreases params.len(),
{
    if params.len() == 0 {
        None
    } else {
        match nul_complaint(params[0]) {
            Some(error) => Some(error),
            None => params_complaint(params.skip(1)),
        }
    }
}

/// The first complaint about a NUL byte in a statement's text or parameters.
pub open spec fn texts_complaint(sql: Seq<char>, params: Seq<Seq<char>>) -> Option<Seq<char>> {
    match nul_complaint(sql) {
        Some(error) => Some(error),
        None => params_complaint(params),
    }
}

/// Where a statement starts: before it is prepared, unless a text cannot be handed to SQLite.
pub open spec fn statement_start(
    query: bool,
    db: u64,
    sql: Seq<char>,
    params: Seq<Seq<char>>,
) -> StatementView {
    StatementView {
        query,
        db,
        stmt: 0,
        sql,
        params,
        names: Seq::empty(),
        rows: Seq::empty(),
        row: Map::empty(),
        phase: match texts_complaint(sql, params) {
            Some(error) => Phase::Failed { error },
            None => Phase::Prepare,
        },
    }
}

/// The call that is pending.
pub open spec fn statement_action(s: StatementView) -> Option<ActionView> {
    let db = s.db;
    let stmt = s.stmt;
    match s.phase {
        Phase::Prepare => Some(Action::Prepare { db, sql: s.sql }),
        Phase::PrepareMessage { code } => Some(Action::ErrorMessage { db }),
        Phase::Bind { done } => Some(
            Action::BindText { stmt, index: (done + 1) as i32, text: s.params[done as int] },
        ),
        Phase::BindFailed { param, code } => Some(Action::Finalize { stmt }),
        Phase::Count => Some(Action::ColumnCount { stmt }),
        Phase::Name { count, at } => Some(Action::ColumnName { stmt, index: at }),
        Phase::Step { count } => Some(Action::Step { stmt }),
        Phase::Type { count, at } => Some(Action::ColumnType { stmt, index: at }),
        Phase::Value { count, at, kind } => Some(
            if kind == SQLITE_INTEGER {
                Action::ColumnInteger { stmt, index: at }
            } else if kind == SQLITE_FLOAT {
                Action::ColumnReal { stmt, index: at }
            } else if kind == SQLITE_TEXT {
                Action::ColumnText { stmt, index: at }
            } else {
                Action::ColumnBlob { stmt, index: at }
            },
        ),
        Phase::StepMessage { code } => Some(Action::ErrorMessage { db }),
        Phase::StepFailed { error } => Some(Action::Finalize { stmt }),
        Phase::Finish => Some(Action::Finalize { stmt }),
        Phase::Ran { code } => Some(Action::Finalize { stmt }),
        Phase::RanMessage { code } => Some(Action::ErrorMessage { db }),
        Phase::Done => None,
        Phase::Failed { error } => None,
    }
}

/// Whether a column of that type has a value to read; one of any other type is null.
pub open spec fn has_value(kind: i32) -> bool {
    kind == SQLITE_INTEGER || kind == SQLITE_FLOAT || kind == SQLITE_TEXT || kind == SQLITE_BLOB
}

/// The JSON of a column's value: of a blob only its length, and null for what is missing,
/// empty or not finite. `None` where the event brings no value of that type.
pub open spec fn column_json(kind: i32, e: EventView) -> Option<JsonView> {
    match e {
        Event::Integer(n) => if kind == SQLITE_INTEGER {
            Some(JsonView::Number(integer_number(n)))
        } else {
            None
        },
        Event::Real(n) => if kind == SQLITE_FLOAT {
            Some(
                match n {
                    Some(n) => JsonView::Number(n),
                    None => JsonView::Null,
                },
            )
        } else {
            None
        },
        Event::Text(t) => if kind == SQLITE_TEXT {
            Some(
                match t {
                    Some(bytes) => JsonView::Text(lossy_text(bytes)),
                    None => JsonView::Null,
                },
            )
        } else {
            None
        },
        Event::Blob { present, len } => if kind == SQLITE_BLOB {
            Some(
                if present && len > 0 {
                    JsonView::Text("blob:"@ + decimal(len as int) + "b"@)
                } else {
                    JsonView::Null
                },
            )
        } else {
            None
        },
        _ => None,
    }
}

/// The phase that binds the parameter after the first `done`, or the one after binding.
pub open spec fn bind_phase(s: StatementView, done: int) -> PhaseView {
    if done < s.params.len() {
        Phase::Bind { done: done as usize }
    } else if s.query {
        Phase::Count
    } else {
        Phase::Step { count: 0 }
    }
}

/// The phase that names column `at`, or the one after all are named.
pub open spec fn name_phase(count: i32, at: int) -> PhaseView {
    if at < count {
        Phase::Name { count, at: at as i32 }
    } else {
        Phase::Step { count }
    }
}

/// The state with the value of column `at` in the current row, and past that column.
pub open spec fn with_column(s: StatementView, count: i32, at: i32, j: JsonView) -> StatementView {
    past_column(StatementView { row: s.row.insert(s.names[at as int], j), ..s }, count, at + 1)
}

/// The state before column `at`: a row that has all its columns is complete.
pub open spec fn past_column(s: StatementView, count: i32, at: int) -> StatementView {
    if at < count {
        StatementView { phase: Phase::Type { count, at: at as i32 }, ..s }
    } else {
        StatementView {
            rows: s.rows.push(JsonView::Object(s.row)),
            row: Map::empty(),
            phase: Phase::Step { count },
            ..s
        }
    }
}

/// The state after an event. One that does not answer the pending call changes nothing.
pub open spec fn statement_next(s: StatementView, e: EventView) -> StatementView {
    match (s.phase, e) {
        (Phase::Prepare, Event::Handle { code, handle }) => if code == SQLITE_OK {
            StatementView { stmt: handle, phase: bind_phase(s, 0), ..s }
        } else {
            StatementView { phase: Phase::PrepareMessage { code }, ..s }
        },
        (Phase::PrepareMessage { code }, Event::Text(m)) => StatementView {
            phase: Phase::Failed { error: prepare_error(code, c_text(m)) },
            ..s
        },
        (Phase::Bind { done }, Event::Code(code)) => if code == SQLITE_OK {
            StatementView { phase: bind_phase(s, done + 1), ..s }
        } else {
            StatementView { phase: Phase::BindFailed { param: done, code }, ..s }
        },
        (Phase::BindFailed { param, code }, Event::Done) => StatementView {
            phase: Phase::Failed { error: bind_error(param as int, code) },
            ..s
        },
        (Phase::Count, Event::Code(count)) => StatementView { phase: name_phase(count, 0), ..s },
        (Phase::Name { count, at }, Event::Text(t)) => StatementView {
            names: s.names.push(c_text(t)),
            phase: name_phase(count, at + 1),
            ..s
        },
        (Phase::Step { count }, Event::Code(code)) => if !s.query {
            StatementView { phase: Phase::Ran { code }, ..s }
        } else if code == SQLITE_DONE {
            StatementView { phase: Phase::Finish, ..s }
        } else if code == SQLITE_ROW {
            past_column(s, count, 0)
        } else {
            StatementView { phase: Phase::StepMessage { code }, ..s }
        },
        (Phase::Type { count, at }, Event::Code(kind)) => if has_value(kind) {
            StatementView { phase: Phase::Value { count, at, kind }, ..s }
        } else {
            with_column(s, count, at, JsonView::Null)
        },
        (Phase::Value { count, at, kind }, e) => match column_json(kind, e) {
            Some(j) => with_column(s, count, at, j),
            None => s,
        },
        (Phase::StepMessage { code }, Event::Text(m)) => StatementView {
            phase: Phase::StepFailed { error: step_error(code, c_text(m)) },
            ..s
        },
        (Phase::StepFailed { error }, Event::Done) => StatementView {
            phase: Phase::Failed { error },
            ..s
        },
        (Phase::Finish, Event::Done) => StatementView { phase: Phase::Done, ..s },
        (Phase::Ran { code }, Event::Done) => if code == SQLITE_DONE || code == SQLITE_ROW {
            StatementView { phase: Phase::Done, ..s }
        } else {
            StatementView { phase: Phase::RanMessage { code }, ..s }
        },
        (Phase::RanMessage { code }, Event::Text(m)) => StatementView {
            phase: Phase::Failed { error: step_error(code, c_text(m)) },
            ..s
        },
        _ => s,
    }
}

impl View for Phase<String> {
    type V = PhaseView;

    open spec fn view(&self) -> PhaseView {
        match *self {
            Phase::Prepare => Phase::Prepare,
            Phase::PrepareMessage { code } => Phase::PrepareMessage { code },
            Phase::Bind { done } => Phase::Bind { done },
            Phase::BindFailed { param, code } => Phase::BindFailed { param, code },
            Phase::Count => Phase::Count,
            Phase::Name { count, at } => Phase::Name { count, at },
            Phase::Step { count } => Phase::Step { count },
            Phase::Type { count, at } => Phase::Type { count, at },
            Phase::Value { count, at, kind } => Phase::Value { count, at, kind },
            Phase::StepMessage { code } => Phase::StepMessage { code },
            Phase::StepFailed { error } => Phase::StepFailed { error: error@ },
            Phase::Finish => Phase::Finish,
            Phase::Ran { code } => Phase::Ran { code },
            Phase::RanMessage { code } => Phase::RanMessage { code },
            Phase::Done => Phase::Done,
            Phase::Failed { error } => Phase::Failed { error: error@ },
        }
    }
}

/// A statement on its way.
pub struct Statement {
    query: bool,
    db: u64,
    stmt: u64,
    sql: String,
    params: Vec<String>,
    names: Vec<String>,
    rows: Vec<Json>,
    row: Vec<(String, Json)>,
    phase: Phase<String>,
}

impl View for Statement {
    type V = StatementView;

    closed spec fn view(&self) -> StatementView {
        StatementView {
            query: self.query,
            db: self.db,
            stmt: self.stmt,
            sql: self.sql@,
            params: texts_view(self.params@),
            names: texts_view(self.names@),
            rows: list_view(self.rows@),
            row: fields_view(self.row@, self.row@.len()),
            phase: self.phase@,
        }
    }
}

/// The JSON of a column's value: `None` where the event brings no value of that type.
pub fn column_value(kind: i32, e: Event<String, Vec<u8>>) -> (r: Option<Json>)
    ensures
        match r {
            Some(j) => column_json(kind, e@) == Some(j@),
            None => column_json(kind, e@) is None,
        },
        kind == 1 ==> (e@ matches Event::Integer(n) ==> r matches Some(j) && j@
            == JsonView::Number(integer_number(n))),
        kind == 3 ==> (e@ matches Event::Text(Some(bytes)) ==> r matches Some(j) && j@
            == JsonView::Text(lossy_text(bytes))),
{
    match e {
        Event::Integer(n) => if kind == SQLITE_INTEGER {
            Some(Json::Number(number_from(n)))
        } else {
            None
        },
        Event::Real(n) => if kind == SQLITE_FLOAT {
            match n {
                Some(n) => Some(Json::Number(n)),
                None => Some(Json::Null),
            }
        } else {
            None
        },
        Event::Text(t) => if kind == SQLITE_TEXT {
            match t {
                Some(bytes) => Some(Json::Text(lossy(bytes.as_slice()))),
                None => Some(Json::Null),
            }
        } else {
            None
        },
        Event::Blob { present, len } => if kind == SQLITE_BLOB {
            if present && len > 0 {
                let mut t = "blob:".to_owned();
                t.append(decimal_u64(len as u64).as_str());
                t.append("b");
                Some(Json::Text(t))
            } else {
                Some(Json::Null)
            }
        } else {
            None
        },
        _ => None,
    }
}

impl Statement {
    /// What the current phase needs of the rest.
    #[verifier::type_invariant]
    spec fn wf(self) -> bool {
        match self.phase {
            Phase::Bind { done } => done < self.params@.len() && self.names@.len() == 0,
            Phase::Name { count, at } => 0 <= at < count && self.names@.len() == at,
            Phase::Step { count } => count > 0 ==> self.names@.len() == count,
            Phase::Type { count, at } => 0 <= at < count && self.names@.len() == count,
            Phase::Value { count, at, kind } => 0 <= at < count && self.names@.len() == count
                && has_value(kind),
            Phase::Prepare => self.names@.len() == 0,
            Phase::Count => self.names@.len() == 0,
            _ => true,
        }
    }

    /// Starts a statement on a connection.
    pub fn start(query: bool, db: u64, sql: String, params: Vec<String>) -> (r: Self)
        ensures
            r@ == statement_start(query, db, sql@, texts_view(params@)),
    {
        let phase = match texts_error(sql.as_str(), &params) {
            Some(error) => Phase::Failed { error },
            None => Phase::Prepare,
        };
        let r = Statement {
            query,
            db,
            stmt: 0,
            sql,
            params,
            names: Vec::new(),
            rows: Vec::new(),
            row: Vec::new(),
            phase,
        };
        proof {
            assert(r@.names =~= Seq::empty());
            assert(r@.rows =~= Seq::empty());
        }
        r
    }

    /// The call that is pending.
    pub fn action(&self) -> (r: Option<Action<String, Vec<u8>>>)
        ensures
            action_view(r) == statement_action(self@),
    {
        proof {
            use_type_invariant(self);
        }
        let db = self.db;
        let stmt = self.stmt;
        let params = &self.params;
        assert(params@.len() == params.len());
        match &self.phase {
            Phase::Prepare => Some(Action::Prepare { db, sql: self.sql.clone() }),
            Phase::PrepareMessage { code: _ } => Some(Action::ErrorMessage { db }),
            Phase::Bind { done } => Some(
                Action::BindText {
                    stmt,
                    index: (*done + 1) as i32,
                    text: params[*done].clone(),
                },
            ),
            Phase::BindFailed { param: _, code: _ } => Some(Action::Finalize { stmt }),
            Phase::Count => Some(Action::ColumnCount { stmt }),
            Phase::Name { count: _, at } => Some(Action::ColumnName { stmt, index: *at }),
            Phase::Step { count: _ } => Some(Action::Step { stmt }),
            Phase::Type { count: _, at } => Some(Action::ColumnType { stmt, index: *at }),
            Phase::Value { count: _, at, kind } => Some(
                if *kind == SQLITE_INTEGER {
                    Action::ColumnInteger { stmt, index: *at }
                } else if *kind == SQLITE_FLOAT {
                    Action::ColumnReal { stmt, index: *at }
                } else if *kind == SQLITE_TEXT {
                    Action::ColumnText { stmt, index: *at }
                } else {
                    Action::ColumnBlob { stmt, index: *at }
                },
            ),
            Phase::StepMessage { code: _ } => Some(Action::ErrorMessage { db }),
            Phase::StepFailed { error: _ } => Some(Action::Finalize { stmt }),
            Phase::Finish => Some(Action::Finalize { stmt }),
            Phase::Ran { code: _ } => Some(Action::Finalize { stmt }),
            Phase::RanMessage { code: _ } => Some(Action::ErrorMessage { db }),
            Phase::Done => None,
            Phase::Failed { error: _ } => None,
        }
    }

    /// Takes an event in.
    pub fn resume(self, e: Event<String, Vec<u8>>) -> (r: Self)
        ensures
            r@ == statement_next(self@, e@),
    {
        proof {
            use_type_invariant(&self);
        }
        let Statement { query, db, stmt, sql, params, names, rows, row, phase } = self;
        let mut stmt = stmt;
        let mut names = names;
        let mut rows = rows;
        let mut row = row;
        let next: Phase<String> = match (phase, e) {
            (Phase::Prepare, Event::Handle { code, handle }) => {
                if code == SQLITE_OK {
                    stmt = handle;
                    after_bound(query, params.len(), 0)
                } else {
                    Phase::PrepareMessage { code }
                }
            },
            (Phase::PrepareMessage { code }, Event::Text(m)) => Phase::Failed {
                error: rc_msg("prepare rc=", code, c_string(m).as_str()),
            },
            (Phase::Bind { done }, Event::Code(code)) => {
                if code == SQLITE_OK {
                    after_bound(query, params.len(), done + 1)
                } else {
                    Phase::BindFailed { param: done, code }
                }
            },
            (Phase::BindFailed { param, code }, Event::Done) => {
                let mut error = "bind param ".to_owned();
                error.append(decimal_u64(param as u64).as_str());
                error.append(" rc=");
                error.append(decimal_i64(code as i64).as_str());
                Phase::Failed { error }
            },
            (Phase::Count, Event::Code(count)) => {
                if 0 < count {
                    Phase::Name { count, at: 0 }
                } else {
                    Phase::Step { count }
                }
            },
            (Phase::Name { count, at }, Event::Text(t)) => {
                let name = c_string(t);
                let ghost old_names = names@;
                names.push(name);
                proof {
                    assert(texts_view(names@) =~= texts_view(old_names).push(name@));
                }
                if at + 1 < count {
                    Phase::Name { count, at: at + 1 }
                } else {
                    Phase::Step { count }
                }
            },
            (Phase::Step { count }, Event::Code(code)) => {
                if !query {
                    Phase::Ran { code }
                } else if code == SQLITE_DONE {
                    Phase::Finish
                } else if code == SQLITE_ROW {
                    before_column(&mut rows, &mut row, count, 0)
                } else {
                    Phase::StepMessage { code }
                }
            },
            (Phase::Type { count, at }, Event::Code(kind)) => {
                if kind == SQLITE_INTEGER || kind == SQLITE_FLOAT || kind == SQLITE_TEXT || kind
                    == SQLITE_BLOB {
                    Phase::Value { count, at, kind }
                } else {
                    proof {
                        lemma_fields_view_push(row@, (names@[at as int], Json::Null));
                    }
                    row.push((names[at as usize].clone(), Json::Null));
                    before_column(&mut rows, &mut row, count, at + 1)
                }
            },
            (Phase::Value { count, at, kind }, e) => {
                match column_value(kind, e) {
                    Some(j) => {
                        proof {
                            lemma_fields_view_push(row@, (names@[at as int], j));
                        }
                        row.push((names[at as usize].clone(), j));
                        before_column(&mut rows, &mut row, count, at + 1)
                    },
                    None => Phase::Value { count, at, kind },
                }
            },
            (Phase::StepMessage { code }, Event::Text(m)) => Phase::StepFailed {
                error: rc_msg("step rc=", code, c_string(m).as_str()),
            },
            (Phase::StepFailed { error }, Event::Done) => Phase::Failed { error },
            (Phase::Finish, Event::Done) => Phase::Done,
            (Phase::Ran { code }, Event::Done) => {
                if code == SQLITE_DONE || code == SQLITE_ROW {
                    Phase::Done
                } else {
                    Phase::RanMessage { code }
                }
            },
            (Phase::RanMessage { code }, Event::Text(m)) => Phase::Failed {
                error: rc_msg("step rc=", code, c_string(m).as_str()),
            },
            (phase, _) => phase,
        };
        Statement { query, db, stmt, sql, params, names, rows, row, phase: next }
    }

    /// How the statement ended, or the statement where it has not.
    pub fn outcome(self) -> (r: Result<Outcome<String, Vec<u8>, Vec<Json>>, Statement>)
        ensures
            match r {
                Ok(o) => statement_outcome(self@) == Some(o@),
                Err(s) => statement_outcome(self@) is None && s@ == self@,
            },
    {
        match self.phase {
            Phase::Done => {
                if self.query {
                    Ok(Outcome::Rows(self.rows))
                } else {
                    Ok(Outcome::Done)
                }
            },
            Phase::Failed { error } => Ok(Outcome::Failed(error)),
            _ => Err(self),
        }
    }
}

/// The phase that binds the parameter after the first `done`, or the one after binding.
fn after_bound(query: bool, params: usize, done: usize) -> (r: Phase<String>)
    ensures
        r@ == if done < params {
            PhaseView::Bind { done }
        } else if query {
            PhaseView::Count
        } else {
            PhaseView::Step { count: 0 }
        },
{
    if done < params {
        Phase::Bind { done }
    } else if query {
        Phase::Count
    } else {
        Phase::Step { count: 0 }
    }
}

/// The phase before column `at`: a row that has all its columns joins the rows.
fn before_column(
    rows: &mut Vec<Json>,
    row: &mut Vec<(String, Json)>,
    count: i32,
    at: i32,
) -> (r: Phase<String>)
    ensures
        at < count ==> r@ == (PhaseView::Type { count, at }) && *final(rows) == *old(rows)
            && *final(row) == *old(row),
        at >= count ==> r@ == (PhaseView::Step { count }) && list_view(final(rows)@) == list_view(
            old(rows)@,
        ).push(JsonView::Object(fields_view(old(row)@, old(row)@.len()))) && final(row)@.len() == 0,
{
    if at < count {
        Phase::Type { count, at }
    } else {
        let mut full: Vec<(String, Json)> = Vec::new();
        std::mem::swap(&mut full, row);
        let j = Json::Object(full);
        let ghost old_rows = rows@;
        rows.push(j);
        proof {
            assert(list_view(rows@) =~= list_view(old_rows).push(json_view(j)));
        }
        Phase::Step { count }
    }
}

/// A failure with its result code and SQLite's message.
fn rc_msg(what: &str, code: i32, message: &str) -> (r: String)
    ensures
        r@ == what@ + decimal(code as int) + " msg="@ + message@,
{
    let mut r = what.to_owned();
    r.append(decimal_i64(code as i64).as_str());
    r.append(" msg=");
    r.append(message);
    r
}

/// The first complaint about a NUL byte in a statement's text or parameters.
fn texts_error(sql: &str, params: &Vec<String>) -> (r: Option<String>)
    ensures
        match r {
            Some(m) => texts_complaint(sql@, texts_view(params@)) == Some(m@),
            None => texts_complaint(sql@, texts_view(params@)) is None,
        },
{
    match nul_error(sql) {
        Some(error) => Some(error),
        None => {
            let ghost all = texts_view(params@);
            let mut i: usize = 0;
            assert(all.skip(0) =~= all);
            while i < params.len()
                invariant
                    i <= params@.len(),
                    all == texts_view(params@),
                    nul_complaint(sql@) is None,
                    params_complaint(all) == params_complaint(all.skip(i as int)),
                decreases params@.len() - i,
            {
                assert(all.skip(i as int).skip(1) =~= all.skip(i + 1));
                assert(all.skip(i as int)[0] == params@[i as int]@);
                match nul_error(params[i].as_str()) {
                    Some(error) => {
                        return Some(error);
                    },
                    None => {},
                }
                i += 1;
            }
            None
        },
    }
}

/// What is said of an outcome is what it holds.
pub proof fn law_outcomes_say_what_they_hold(o: Outcome<String, Vec<u8>, Vec<Json>>)
    ensures
        match o {
            Outcome::Done => o@ == OutcomeView::Done,
            Outcome::Rows(rows) => o@ matches Outcome::Rows(s) && s.len() == rows@.len() && forall|
                i: int,
            |
                0 <= i < rows@.len() ==> #[trigger] s[i] == rows@[i]@,
            Outcome::Image(bytes) => o@ == OutcomeView::Image(bytes@),
            Outcome::Failed(error) => o@ == OutcomeView::Failed(error@),
        },
{
}

} // verus!

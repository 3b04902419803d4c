//! What a call does with its connection.

use crate::driver::{Action, ActionView, Event, EventView, DESERIALIZE_OPTIONS, SQLITE_OK};
#[allow(unused_imports)]
use crate::driver::{action_view, DESERIALIZE_FREEONCLOSE, DESERIALIZE_RESIZEABLE};
use crate::json::{Json, JsonView};
#[allow(unused_imports)]
use crate::json::texts_view;
use crate::statement::{Outcome, Statement, StatementView};
#[allow(unused_imports)]
use crate::statement::{statement_action, statement_next, statement_outcome, statement_start};
use crate::text::{decimal_i64, lossy, nul_error};
#[allow(unused_imports)]
use crate::text::{
    decimal, first_nul, is_clean, law_complaints_tell_the_first_nul, lossy_text, nul_complaint,
};
use vstd::prelude::*;
use vstd::slice::slice_to_vec;
use vstd::string::*;

verus! {

/// What is to be done with a connection: with texts of type `T`, lists of them of type `L`
/// and bytes of type `B`.
#[derive(Debug, PartialEq)]
pub enum Job<T, L, B> {
    /// Run statements for their effect.
    Exec { sql: T },
    /// Run one statement with parameters and collect its rows.
    Query { sql: T, params: L },
    /// Run one statement with parameters for its effect.
    ExecParams { sql: T, params: L },
    /// Take an image of the database.
    Serialize,
    /// Put an image in the place of the database.
    Deserialize { bytes: B },
}

/// A job, as the contracts speak of it.
pub type JobView = Job<Seq<char>, Seq<Seq<char>>, Seq<u8>>;

/// A job to be run.
pub type NewJob = Job<String, Vec<String>, Vec<u8>>;

impl View for Job<String, Vec<String>, Vec<u8>> {
    type V = JobView;

    open spec fn view(&self) -> JobView {
        match *self {
            Job::Exec { sql } => Job::Exec { sql: sql@ },
            Job::Query { sql, params } => Job::Query { sql: sql@, params: texts_view(params@) },
            Job::ExecParams { sql, params } => Job::ExecParams {
                sql: sql@,
                params: texts_view(params@),
            },
            Job::Serialize => Job::Serialize,
            Job::Deserialize { bytes } => Job::Deserialize { bytes: bytes@ },
        }
    }
}

/// How far a job has come; in each state but the last one call is pending.
pub enum Operation<T, B, S, R> {
    /// The statements are to be run.
    Exec { db: u64, sql: T },
    /// They failed, and the connection is to give the extended code.
    ExecCode { db: u64, code: i32, message: T },
    /// A statement is on its way.
    Statement(S),
    /// The image is to be taken.
    Serialize { db: u64 },
    /// The image is to be copied out.
    ReadImage { at: u64, size: i64 },
    /// The block of the image is to be freed.
    FreeImage { at: u64, bytes: B },
    /// Memory for the image is to be had.
    Allocate { db: u64, bytes: B },
    /// The image is to be copied into it.
    Fill { db: u64, at: u64, bytes: B },
    /// The image is to be put in place.
    Deserialize { db: u64, at: u64, size: i64 },
    /// The job has ended.
    Finished(Outcome<T, B, R>),
}

/// An operation, as the contracts speak of it.
pub type OperationView = Operation<Seq<char>, Seq<u8>, StatementView, Seq<JsonView>>;

/// An operation on its way.
pub type RunningOperation = Operation<String, Vec<u8>, Statement, Vec<Json>>;

impl View for Operation<String, Vec<u8>, Statement, Vec<Json>> {
    type V = OperationView;

    open spec fn view(&self) -> OperationView {
        match *self {
            Operation::Exec { db, sql } => Operation::Exec { db, sql: sql@ },
            Operation::ExecCode { db, code, message } => Operation::ExecCode {
                db,
                code,
                message: message@,
            },
            Operation::Statement(s) => Operation::Statement(s@),
            Operation::Serialize { db } => Operation::Serialize { db },
            Operation::ReadImage { at, size } => Operation::ReadImage { at, size },
            Operation::FreeImage { at, bytes } => Operation::FreeImage { at, bytes: bytes@ },
            Operation::Allocate { db, bytes } => Operation::Allocate { db, bytes: bytes@ },
            Operation::Fill { db, at, bytes } => Operation::Fill { db, at, bytes: bytes@ },
            Operation::Deserialize { db, at, size } => Operation::Deserialize { db, at, size },
            Operation::Finished(o) => Operation::Finished(o@),
        }
    }
}

/// Why statements could not be run.
pub open spec fn exec_error(code: i32, extended: i32, message: Seq<char>) -> Seq<char> {
    "exec rc="@ + decimal(code as int) + " ext="@ + decimal(extended as int) + " msg="@ + message
}

/// The message of a failed run.
pub open spec fn exec_message(message: Option<Seq<u8>>) -> Seq<char> {
    match message {
        Some(bytes) => lossy_text(bytes),
        None => "unknown"@,
    }
}

/// Why an image could not be taken.
pub open spec fn serialize_error(size: i64) -> Seq<char> {
    "serialize null (size="@ + decimal(size as int) + ")"@
}

/// Why an image could not be put in place.
pub open spec fn deserialize_error(code: i32) -> Seq<char> {
    "deserialize rc="@ + decimal(code as int)
}

/// A statement that has ended ends its operation.
pub open spec fn settled(s: StatementView) -> OperationView {
    match statement_outcome(s) {
        Some(o) => Operation::Finished(o),
        None => Operation::Statement(s),
    }
}

/// Where a job starts.
pub open spec fn operation_start(db: u64, job: JobView) -> OperationView {
    match job {
        Job::Exec { sql } => match nul_complaint(sql) {
            Some(error) => Operation::Finished(Outcome::Failed(error)),
            None => Operation::Exec { db, sql },
        },
        Job::Query { sql, params } => settled(statement_start(true, db, sql, params)),
        Job::ExecParams { sql, params } => settled(statement_start(false, db, sql, params)),
        Job::Serialize => Operation::Serialize { db },
        Job::Deserialize { bytes } => Operation::Allocate { db, bytes },
    }
}

/// The call that is pending.
pub open spec fn operation_action(o: OperationView) -> Option<ActionView> {
    match o {
        Operation::Exec { db, sql } => Some(Action::Exec { db, sql }),
        Operation::ExecCode { db, code, message } => Some(Action::ExtendedCode { db }),
        Operation::Statement(s) => statement_action(s),
        Operation::Serialize { db } => Some(
            Action::Serialize { db, schema: "main"@, options: 0 },
        ),
        Operation::ReadImage { at, size } => Some(Action::ReadBlock { at, size }),
        Operation::FreeImage { at, bytes } => Some(Action::Free { at }),
        Operation::Allocate { db, bytes } => Some(
            Action::Allocate { amount: (bytes.len() as i64) as u64 },
        ),
        Operation::Fill { db, at, bytes } => Some(Action::FillBlock { at, bytes }),
        Operation::Deserialize { db, at, size } => Some(
            Action::Deserialize {
                db,
                schema: "main"@,
                at,
                size,
                options: DESERIALIZE_OPTIONS,
            },
        ),
        Operation::Finished(o) => None,
    }
}

/// The state after an event. One that does not answer the pending call changes nothing.
pub open spec fn operation_next(o: OperationView, e: EventView) -> OperationView {
    match (o, e) {
        (Operation::Exec { db, sql }, Event::Executed { code, message }) => if code == SQLITE_OK {
            Operation::Finished(Outcome::Done)
        } else {
            Operation::ExecCode { db, code, message: exec_message(message) }
        },
        (
            Operation::ExecCode { db, code, message },
            Event::Code(extended),
        ) => Operation::Finished(Outcome::Failed(exec_error(code, extended, message))),
        (Operation::Statement(s), e) => settled(statement_next(s, e)),
        (Operation::Serialize { db }, Event::Block { at, size }) => if at == 0 || size <= 0 {
            Operation::Finished(Outcome::Failed(serialize_error(size)))
        } else {
            Operation::ReadImage { at, size }
        },
        (Operation::ReadImage { at, size }, Event::Bytes(bytes)) => Operation::FreeImage {
            at,
            bytes,
        },
        (Operation::FreeImage { at, bytes }, Event::Done) => Operation::Finished(
            Outcome::Image(bytes),
        ),
        (Operation::Allocate { db, bytes }, Event::Block { at, size }) => if at == 0 {
            Operation::Finished(Outcome::Failed("malloc failed"@))
        } else {
            Operation::Fill { db, at, bytes }
        },
        (Operation::Fill { db, at, bytes }, Event::Done) => Operation::Deserialize {
            db,
            at,
            size: bytes.len() as i64,
        },
        (Operation::Deserialize { db, at, size }, Event::Code(code)) => if code == SQLITE_OK {
            Operation::Finished(Outcome::Done)
        } else {
            Operation::Finished(Outcome::Failed(deserialize_error(code)))
        },
        _ => o,
    }
}

/// The statements of an `exec` are handed to SQLite as they were given. It succeeds exactly
/// where SQLite returns its code of success. For every other code the extended code is asked
/// for, and the error tells both codes and SQLite's message.
pub proof fn law_exec_succeeds_only_with_sqlite(
    db: u64,
    sql: Seq<char>,
    code: i32,
    message: Option<Seq<u8>>,
    extended: i32,
)
    requires
        is_clean(sql),
    ensures
        ({
            let start = operation_start(db, Job::Exec { sql });
            let ran = operation_next(start, EventView::Executed { code, message });
            let told = operation_next(ran, EventView::Code(extended));
            &&& operation_action(start) == Some(ActionView::Exec { db, sql })
            &&& ran == OperationView::Finished(Outcome::Done) <==> code == 0
            &&& code != 0 ==> !(ran is Finished) && operation_action(ran) == Some(
                ActionView::ExtendedCode { db },
            ) && told == OperationView::Finished(
                Outcome::Failed(
                    "exec rc="@ + decimal(code as int) + " ext="@ + decimal(extended as int)
                        + " msg="@ + match message {
                        Some(bytes) => lossy_text(bytes),
                        None => "unknown"@,
                    },
                ),
            )
        }),
{
    law_complaints_tell_the_first_nul(sql);
}

/// An `exec` whose text has a zero byte fails before SQLite is asked, and tells where the
/// first one stands.
pub proof fn law_exec_refuses_zero_bytes(db: u64, sql: Seq<char>, at: int)
    requires
        first_nul(sql, at),
    ensures
        operation_start(db, Job::Exec { sql }) == OperationView::Finished(
            Outcome::Failed("nul byte found in provided data at position: "@ + decimal(at)),
        ),
{
    law_complaints_tell_the_first_nul(sql);
}

/// A snapshot is of the connection's main database. It gives the bytes of the block that
/// SQLite made, and gives the block back. Without a block, or with one that has no size, it
/// fails and tells the size.
pub proof fn law_snapshots_hold_the_block(db: u64, at: u64, size: i64, bytes: Seq<u8>)
    ensures
        ({
            let start = operation_start(db, Job::Serialize);
            let taken = operation_next(start, EventView::Block { at, size });
            let copied = operation_next(taken, EventView::Bytes(bytes));
            let freed = operation_next(copied, EventView::Done);
            &&& operation_action(start) == Some(
                ActionView::Serialize { db, schema: "main"@, options: 0 },
            )
            &&& at != 0 && size > 0 ==> operation_action(taken) == Some(
                ActionView::ReadBlock { at, size },
            ) && operation_action(copied) == Some(ActionView::Free { at }) && freed
                == OperationView::Finished(Outcome::Image(bytes))
            &&& at == 0 || size <= 0 ==> taken == OperationView::Finished(
                Outcome::Failed("serialize null (size="@ + decimal(size as int) + ")"@),
            )
        }),
{
}

/// A restored image is copied into memory of its size and handed over whole, for SQLite to
/// own: whether SQLite takes the image or refuses it, the memory is SQLite's to free, and
/// nothing more is done with it. It succeeds exactly where SQLite returns its code of
/// success, and without memory it fails before anything is handed over.
pub proof fn law_restores_hand_over_the_image(
    db: u64,
    bytes: Seq<u8>,
    at: u64,
    size: i64,
    code: i32,
)
    requires
        bytes.len() <= i64::MAX,
        at != 0,
    ensures
        DESERIALIZE_OPTIONS == DESERIALIZE_FREEONCLOSE + DESERIALIZE_RESIZEABLE,
        ({
            let start = operation_start(db, Job::Deserialize { bytes });
            let had = operation_next(start, EventView::Block { at, size });
            let filled = operation_next(had, EventView::Done);
            let told = operation_next(filled, EventView::Code(code));
            &&& operation_action(start) == Some(
                ActionView::Allocate { amount: bytes.len() as u64 },
            )
            &&& operation_next(start, EventView::Block { at: 0, size })
                == OperationView::Finished(Outcome::Failed("malloc failed"@))
            &&& operation_action(had) == Some(ActionView::FillBlock { at, bytes })
            &&& operation_action(filled) == Some(
                ActionView::Deserialize {
                    db,
                    schema: "main"@,
                    at,
                    size: bytes.len() as i64,
                    options: 3,
                },
            )
            &&& (code == 0 ==> told == OperationView::Finished(Outcome::Done))
            &&& (code != 0 ==> told == OperationView::Finished(
                Outcome::Failed("deserialize rc="@ + decimal(code as int)),
            ))
        }),
{
}

/// Starts the run of statements for their effect.
pub fn exec(db: u64, sql: String) -> (r: RunningOperation)
    ensures
        r@ == operation_start(db, Job::Exec { sql: sql@ }),
{
    match nul_error(sql.as_str()) {
        Some(error) => Operation::Finished(Outcome::Failed(error)),
        None => Operation::Exec { db, sql },
    }
}

/// Starts one statement with parameters whose rows are collected.
pub fn query(db: u64, sql: String, params: Vec<String>) -> (r: RunningOperation)
    ensures
        r@ == operation_start(db, Job::Query { sql: sql@, params: texts_view(params@) }),
{
    settle(Statement::start(true, db, sql, params))
}

/// Starts one statement with parameters that is run for its effect.
pub fn exec_params(db: u64, sql: String, params: Vec<String>) -> (r: RunningOperation)
    ensures
        r@ == operation_start(db, Job::ExecParams { sql: sql@, params: texts_view(params@) }),
{
    settle(Statement::start(false, db, sql, params))
}

/// Starts to take an image of the database.
pub fn serialize(db: u64) -> (r: RunningOperation)
    ensures
        r@ == operation_start(db, Job::Serialize),
{
    Operation::Serialize { db }
}

/// Starts to put an image in the place of the database.
pub fn deserialize(db: u64, bytes: Vec<u8>) -> (r: RunningOperation)
    ensures
        r@ == operation_start(db, Job::Deserialize { bytes: bytes@ }),
{
    Operation::Allocate { db, bytes }
}

/// A statement that has ended ends its operation.
fn settle(s: Statement) -> (r: RunningOperation)
    ensures
        r@ == settled(s@),
{
    match s.outcome() {
        Ok(o) => Operation::Finished(o),
        Err(s) => Operation::Statement(s),
    }
}

impl Operation<String, Vec<u8>, Statement, Vec<Json>> {
    /// Starts a job on a connection.
    pub fn start(db: u64, job: NewJob) -> (r: Self)
        ensures
            r@ == operation_start(db, job@),
    {
        match job {
            Job::Exec { sql } => exec(db, sql),
            Job::Query { sql, params } => query(db, sql, params),
            Job::ExecParams { sql, params } => exec_params(db, sql, params),
            Job::Serialize => serialize(db),
            Job::Deserialize { bytes } => deserialize(db, bytes),
        }
    }

    /// The call that is pending.
    pub fn action(&self) -> (r: Option<Action<String, Vec<u8>>>)
        ensures
            action_view(r) == operation_action(self@),
    {
        match self {
            Operation::Exec { db, sql } => Some(Action::Exec { db: *db, sql: sql.clone() }),
            Operation::ExecCode { db, code: _, message: _ } => Some(
                Action::ExtendedCode { db: *db },
            ),
            Operation::Statement(s) => s.action(),
            Operation::Serialize { db } => Some(
                Action::Serialize { db: *db, schema: "main".to_owned(), options: 0 },
            ),
            Operation::ReadImage { at, size } => Some(Action::ReadBlock { at: *at, size: *size }),
            Operation::FreeImage { at, bytes: _ } => Some(Action::Free { at: *at }),
            Operation::Allocate { db: _, bytes } => Some(
                Action::Allocate { amount: (bytes.len() as i64) as u64 },
            ),
            Operation::Fill { db: _, at, bytes } => Some(
                Action::FillBlock { at: *at, bytes: slice_to_vec(bytes.as_slice()) },
            ),
            Operation::Deserialize { db, at, size } => Some(
                Action::Deserialize {
                    db: *db,
                    schema: "main".to_owned(),
                    at: *at,
                    size: *size,
                    options: DESERIALIZE_OPTIONS,
                },
            ),
            Operation::Finished(_) => None,
        }
    }

    /// Takes an event in.
    pub fn resume(self, e: Event<String, Vec<u8>>) -> (r: Self)
        ensures
            r@ == operation_next(self@, e@),
    {
        match (self, e) {
            (Operation::Exec { db, sql: _ }, Event::Executed { code, message }) => {
                if code == SQLITE_OK {
                    Operation::Finished(Outcome::Done)
                } else {
                    let message = match message {
                        Some(bytes) => lossy(bytes.as_slice()),
                        None => "unknown".to_owned(),
                    };
                    Operation::ExecCode { db, code, message }
                }
            },
            (Operation::ExecCode { db: _, code, message }, Event::Code(extended)) => {
                let mut error = "exec rc=".to_owned();
                error.append(decimal_i64(code as i64).as_str());
                error.append(" ext=");
                error.append(decimal_i64(extended as i64).as_str());
                error.append(" msg=");
                error.append(message.as_str());
                Operation::Finished(Outcome::Failed(error))
            },
            (Operation::Statement(s), e) => settle(s.resume(e)),
            (Operation::Serialize { db: _ }, Event::Block { at, size }) => {
                if at == 0 || size <= 0 {
                    let mut error = "serialize null (size=".to_owned();
                    error.append(decimal_i64(size).as_str());
                    error.append(")");
                    Operation::Finished(Outcome::Failed(error))
                } else {
                    Operation::ReadImage { at, size }
                }
            },
            (Operation::ReadImage { at, size: _ }, Event::Bytes(bytes)) => Operation::FreeImage {
                at,
                bytes,
            },
            (Operation::FreeImage { at: _, bytes }, Event::Done) => Operation::Finished(
                Outcome::Image(bytes),
            ),
            (Operation::Allocate { db, bytes }, Event::Block { at, size: _ }) => {
                if at == 0 {
                    Operation::Finished(Outcome::Failed("malloc failed".to_owned()))
                } else {
                    Operation::Fill { db, at, bytes }
                }
            },
            (Operation::Fill { db, at, bytes }, Event::Done) => Operation::Deserialize {
                db,
                at,
                size: bytes.len() as i64,
            },
            (Operation::Deserialize { db: _, at: _, size: _ }, Event::Code(code)) => {
                if code == SQLITE_OK {
                    Operation::Finished(Outcome::Done)
                } else {
                    let mut error = "deserialize rc=".to_owned();
                    error.append(decimal_i64(code as i64).as_str());
                    Operation::Finished(Outcome::Failed(error))
                }
            },
            (o, _) => o,
        }
    }
}

/// What is said of a job is what it holds.
pub proof fn law_jobs_say_what_they_hold(job: NewJob)
    ensures
        match job {
            Job::Exec { sql } => job@ == JobView::Exec { sql: sql@ },
            Job::Query { sql, params } => job@ == JobView::Query {
                sql: sql@,
                params: texts_view(params@),
            },
            Job::ExecParams { sql, params } => job@ == JobView::ExecParams {
                sql: sql@,
                params: texts_view(params@),
            },
            Job::Serialize => job@ == JobView::Serialize,
            Job::Deserialize { bytes } => job@ == JobView::Deserialize { bytes: bytes@ },
        },
{
}

} // verus!

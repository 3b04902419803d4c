//! The calls into SQLite that the library asks for, and what comes back from them.
//!
//! The library never calls SQLite itself. It names the next call as an [`Action`]; whoever
//! drives it makes that call and hands the result back as an [`Event`]. Connections,
//! statements and blocks of memory are known by a number that the driver chooses, and zero
//! stands for none.

use serde_json::Number;
use vstd::prelude::*;

verus! {

/// SQLite's result codes that the library tells apart from failure.
pub const SQLITE_OK: i32 = 0;

pub const SQLITE_ROW: i32 = 100;

pub const SQLITE_DONE: i32 = 101;

/// SQLite's types of a column's value.
pub const SQLITE_INTEGER: i32 = 1;

pub const SQLITE_FLOAT: i32 = 2;

pub const SQLITE_TEXT: i32 = 3;

pub const SQLITE_BLOB: i32 = 4;

pub const SQLITE_NULL: i32 = 5;

/// A database is opened for reading and writing, and made where there is none.
pub const OPEN_FLAGS: i32 = 6;

/// SQLite owns a restored image: it frees the image once it is done with it, and at once
/// where it refuses it.
pub const DESERIALIZE_FREEONCLOSE: u32 = 1;

/// A restored image may grow, which SQLite allows of an image that it owns.
pub const DESERIALIZE_RESIZEABLE: u32 = 2;

/// How an image is restored: SQLite owns it, and it may grow.
pub const DESERIALIZE_OPTIONS: u32 = 3;

/// How long a statement waits for a lock: well under the host's deadline for one call, so
/// that contention is reported instead of ending the instance.
pub const BUSY_TIMEOUT_MS: i32 = 8_000;

/// How many steps of SQLite's machine lie between two calls of the progress handler.
pub const PROGRESS_HANDLER_VM_STEP_INTERVAL: i32 = 10_000;

/// The next call to make, with texts of type `T` and bytes of type `B`.
#[derive(Debug, PartialEq)]
pub enum Action<T, B> {
    /// Take the lock of the registry of named in-memory databases.
    LockMemory,
    /// `sqlite3_open_v2`.
    Open { path: T, flags: i32 },
    /// `sqlite3_errmsg`.
    ErrorMessage { db: u64 },
    /// `sqlite3_extended_errcode`.
    ExtendedCode { db: u64 },
    /// `sqlite3_close`, after a failed opening.
    CloseFailed { db: u64 },
    /// `sqlite3_close_v2`.
    Close { db: u64 },
    /// `sqlite3_busy_timeout`.
    BusyTimeout { db: u64, ms: i32 },
    /// `sqlite3_exec`.
    Exec { db: u64, sql: T },
    /// `sqlite3_prepare_v2`.
    Prepare { db: u64, sql: T },
    /// `sqlite3_bind_text`; the text stays alive until the statement is finalized.
    BindText { stmt: u64, index: i32, text: T },
    /// `sqlite3_column_count`.
    ColumnCount { stmt: u64 },
    /// `sqlite3_column_name`.
    ColumnName { stmt: u64, index: i32 },
    /// `sqlite3_step`.
    Step { stmt: u64 },
    /// `sqlite3_column_type`.
    ColumnType { stmt: u64, index: i32 },
    /// `sqlite3_column_int64`.
    ColumnInteger { stmt: u64, index: i32 },
    /// `sqlite3_column_double`.
    ColumnReal { stmt: u64, index: i32 },
    /// `sqlite3_column_text`.
    ColumnText { stmt: u64, index: i32 },
    /// `sqlite3_column_bytes` and `sqlite3_column_blob`.
    ColumnBlob { stmt: u64, index: i32 },
    /// `sqlite3_finalize`.
    Finalize { stmt: u64 },
    /// Set the count of progress callbacks to zero.
    ResetProgress,
    /// `sqlite3_progress_handler`.
    ProgressHandler { db: u64, interval: i32 },
    /// Read the count of progress callbacks.
    ReadProgress,
    /// `sqlite3_serialize`.
    Serialize { db: u64, schema: T, options: u32 },
    /// Copy a block of memory out.
    ReadBlock { at: u64, size: i64 },
    /// `sqlite3_malloc64`.
    Allocate { amount: u64 },
    /// Copy bytes into a block of memory.
    FillBlock { at: u64, bytes: B },
    /// `sqlite3_deserialize`.
    Deserialize { db: u64, schema: T, at: u64, size: i64, options: u32 },
    /// `sqlite3_free`.
    Free { at: u64 },
    /// `sqlite3_libversion`.
    LibVersion,
}

/// What came back from a call, with texts of type `T` and bytes of type `B`.
#[derive(Debug, PartialEq)]
pub enum Event<T, B> {
    /// The call has been made.
    Done,
    /// A result code, a count or a type.
    Code(i32),
    /// A result code with a connection or a statement.
    Handle { code: i32, handle: u64 },
    /// The result code and the message of `sqlite3_exec`.
    Executed { code: i32, message: Option<B> },
    /// The bytes of a C text, or none for a null pointer.
    Text(Option<B>),
    /// An integer column.
    Integer(i64),
    /// A real column, or none where it is not finite.
    Real(Option<Number>),
    /// Whether a blob column has a pointer, and its length.
    Blob { present: bool, len: usize },
    /// A block of memory and its size.
    Block { at: u64, size: i64 },
    /// The bytes of a block of memory.
    Bytes(B),
    /// The count of progress callbacks.
    Steps(u64),
    /// The lock is held, or why it is poisoned.
    Locked(Option<T>),
}

/// An action, as the contracts speak of it.
pub type ActionView = Action<Seq<char>, Seq<u8>>;

/// An event, as the contracts speak of it.
pub type EventView = Event<Seq<char>, Seq<u8>>;

/// The bytes of an optional byte string.
pub open spec fn bytes_view(b: Option<Vec<u8>>) -> Option<Seq<u8>> {
    match b {
        Some(v) => Some(v@),
        None => None,
    }
}

impl View for Action<String, Vec<u8>> {
    type V = ActionView;

    open spec fn view(&self) -> ActionView {
        match *self {
            Action::LockMemory => Action::LockMemory,
            Action::Open { path, flags } => Action::Open { path: path@, flags },
            Action::ErrorMessage { db } => Action::ErrorMessage { db },
            Action::ExtendedCode { db } => Action::ExtendedCode { db },
            Action::CloseFailed { db } => Action::CloseFailed { db },
            Action::Close { db } => Action::Close { db },
            Action::BusyTimeout { db, ms } => Action::BusyTimeout { db, ms },
            Action::Exec { db, sql } => Action::Exec { db, sql: sql@ },
            Action::Prepare { db, sql } => Action::Prepare { db, sql: sql@ },
            Action::BindText { stmt, index, text } => Action::BindText { stmt, index, text: text@ },
            Action::ColumnCount { stmt } => Action::ColumnCount { stmt },
            Action::ColumnName { stmt, index } => Action::ColumnName { stmt, index },
            Action::Step { stmt } => Action::Step { stmt },
            Action::ColumnType { stmt, index } => Action::ColumnType { stmt, index },
            Action::ColumnInteger { stmt, index } => Action::ColumnInteger { stmt, index },
            Action::ColumnReal { stmt, index } => Action::ColumnReal { stmt, index },
            Action::ColumnText { stmt, index } => Action::ColumnText { stmt, index },
            Action::ColumnBlob { stmt, index } => Action::ColumnBlob { stmt, index },
            Action::Finalize { stmt } => Action::Finalize { stmt },
            Action::ResetProgress => Action::ResetProgress,
            Action::ProgressHandler { db, interval } => Action::ProgressHandler { db, interval },
            Action::ReadProgress => Action::ReadProgress,
            Action::Serialize { db, schema, options } => Action::Serialize {
                db,
                schema: schema@,
                options,
            },
            Action::ReadBlock { at, size } => Action::ReadBlock { at, size },
            Action::Allocate { amount } => Action::Allocate { amount },
            Action::FillBlock { at, bytes } => Action::FillBlock { at, bytes: bytes@ },
            Action::Deserialize { db, schema, at, size, options } => Action::Deserialize {
                db,
                schema: schema@,
                at,
                size,
                options,
            },
            Action::Free { at } => Action::Free { at },
            Action::LibVersion => Action::LibVersion,
        }
    }
}

impl View for Event<String, Vec<u8>> {
    type V = EventView;

    open spec fn view(&self) -> EventView {
        match *self {
            Event::Done => Event::Done,
            Event::Code(n) => Event::Code(n),
            Event::Handle { code, handle } => Event::Handle { code, handle },
            Event::Executed { code, message } => Event::Executed {
                code,
                message: bytes_view(message),
            },
            Event::Text(t) => Event::Text(bytes_view(t)),
            Event::Integer(n) => Event::Integer(n),
            Event::Real(n) => Event::Real(n),
            Event::Blob { present, len } => Event::Blob { present, len },
            Event::Block { at, size } => Event::Block { at, size },
            Event::Bytes(b) => Event::Bytes(b@),
            Event::Steps(n) => Event::Steps(n),
            Event::Locked(Some(m)) => Event::Locked(Some(m@)),
            Event::Locked(None) => Event::Locked(None),
        }
    }
}

/// The view of an optional action.
pub open spec fn action_view(a: Option<Action<String, Vec<u8>>>) -> Option<ActionView> {
    match a {
        Some(a) => Some(a@),
        None => None,
    }
}

/// Whether an event is of the kind that answers an action.
pub open spec fn answers(a: ActionView, e: EventView) -> bool {
    match a {
        Action::LockMemory => e is Locked,
        Action::Open { .. } => e is Handle,
        Action::ErrorMessage { .. } => e is Text,
        Action::ExtendedCode { .. } => e is Code,
        Action::CloseFailed { .. } => e is Done,
        Action::Close { .. } => e is Done,
        Action::BusyTimeout { .. } => e is Done,
        Action::Exec { .. } => e is Executed,
        Action::Prepare { .. } => e is Handle,
        Action::BindText { .. } => e is Code,
        Action::ColumnCount { .. } => e is Code,
        Action::ColumnName { .. } => e is Text,
        Action::Step { .. } => e is Code,
        Action::ColumnType { .. } => e is Code,
        Action::ColumnInteger { .. } => e is Integer,
        Action::ColumnReal { .. } => e is Real,
        Action::ColumnText { .. } => e is Text,
        Action::ColumnBlob { .. } => e is Blob,
        Action::Finalize { .. } => e is Done,
        Action::ResetProgress => e is Done,
        Action::ProgressHandler { .. } => e is Done,
        Action::ReadProgress => e is Steps,
        Action::Serialize { .. } => e is Block,
        Action::ReadBlock { .. } => e is Bytes,
        Action::Allocate { .. } => e is Block,
        Action::FillBlock { .. } => e is Done,
        Action::Deserialize { .. } => e is Code,
        Action::Free { .. } => e is Done,
        Action::LibVersion => e is Text,
    }
}

/// What is said of an action is what it holds: the same call on the same handles, with the
/// characters of its texts and the bytes of its blocks.
pub proof fn law_actions_say_what_they_hold(a: Action<String, Vec<u8>>)
    ensures
        match a {
            Action::Open { path, flags } => a@ == ActionView::Open { path: path@, flags },
            Action::Exec { db, sql } => a@ == ActionView::Exec { db, sql: sql@ },
            Action::Prepare { db, sql } => a@ == ActionView::Prepare { db, sql: sql@ },
            Action::BindText { stmt, index, text } => a@ == ActionView::BindText {
                stmt,
                index,
                text: text@,
            },
            Action::Serialize { db, schema, options } => a@ == ActionView::Serialize {
                db,
                schema: schema@,
                options,
            },
            Action::FillBlock { at, bytes } => a@ == ActionView::FillBlock { at, bytes: bytes@ },
            Action::Deserialize { db, schema, at, size, options } => a@
                == ActionView::Deserialize { db, schema: schema@, at, size, options },
            Action::LockMemory => a@ == ActionView::LockMemory,
            Action::ErrorMessage { db } => a@ == ActionView::ErrorMessage { db },
            Action::ExtendedCode { db } => a@ == ActionView::ExtendedCode { db },
            Action::CloseFailed { db } => a@ == ActionView::CloseFailed { db },
            Action::Close { db } => a@ == ActionView::Close { db },
            Action::BusyTimeout { db, ms } => a@ == ActionView::BusyTimeout { db, ms },
            Action::ColumnCount { stmt } => a@ == ActionView::ColumnCount { stmt },
            Action::ColumnName { stmt, index } => a@ == ActionView::ColumnName { stmt, index },
            Action::Step { stmt } => a@ == ActionView::Step { stmt },
            Action::ColumnType { stmt, index } => a@ == ActionView::ColumnType { stmt, index },
            Action::ColumnInteger { stmt, index } => a@ == ActionView::ColumnInteger {
                stmt,
                index,
            },
            Action::ColumnReal { stmt, index } => a@ == ActionView::ColumnReal { stmt, index },
            Action::ColumnText { stmt, index } => a@ == ActionView::ColumnText { stmt, index },
            Action::ColumnBlob { stmt, index } => a@ == ActionView::ColumnBlob { stmt, index },
            Action::Finalize { stmt } => a@ == ActionView::Finalize { stmt },
            Action::ResetProgress => a@ == ActionView::ResetProgress,
            Action::ProgressHandler { db, interval } => a@ == ActionView::ProgressHandler {
                db,
                interval,
            },
            Action::ReadProgress => a@ == ActionView::ReadProgress,
            Action::ReadBlock { at, size } => a@ == ActionView::ReadBlock { at, size },
            Action::Allocate { amount } => a@ == ActionView::Allocate { amount },
            Action::Free { at } => a@ == ActionView::Free { at },
            Action::LibVersion => a@ == ActionView::LibVersion,
        },
        action_view(Some(a)) == Some(a@),
        action_view(None) is None,
{
}

/// What is said of an event is what it holds.
pub proof fn law_events_say_what_they_hold(e: Event<String, Vec<u8>>)
    ensures
        match e {
            Event::Done => e@ == EventView::Done,
            Event::Code(n) => e@ == EventView::Code(n),
            Event::Handle { code, handle } => e@ == EventView::Handle { code, handle },
            Event::Executed { code, message: Some(m) } => e@ == EventView::Executed {
                code,
                message: Some(m@),
            },
            Event::Executed { code, message: None } => e@ == EventView::Executed {
                code,
                message: None,
            },
            Event::Text(Some(t)) => e@ == EventView::Text(Some(t@)),
            Event::Text(None) => e@ == EventView::Text(None),
            Event::Integer(n) => e@ == EventView::Integer(n),
            Event::Real(n) => e@ == EventView::Real(n),
            Event::Blob { present, len } => e@ == EventView::Blob { present, len },
            Event::Block { at, size } => e@ == EventView::Block { at, size },
            Event::Bytes(b) => e@ == EventView::Bytes(b@),
            Event::Steps(n) => e@ == EventView::Steps(n),
            Event::Locked(Some(m)) => e@ == EventView::Locked(Some(m@)),
            Event::Locked(None) => e@ == EventView::Locked(None),
        },
{
}

/// The codes, flags and limits, as SQLite and the host know them.
pub proof fn law_codes()
    ensures
        SQLITE_OK == 0 && SQLITE_ROW == 100 && SQLITE_DONE == 101,
        SQLITE_INTEGER == 1 && SQLITE_FLOAT == 2 && SQLITE_TEXT == 3 && SQLITE_BLOB == 4
            && SQLITE_NULL == 5,
        OPEN_FLAGS == 2 + 4 && DESERIALIZE_OPTIONS == 1 + 2,
        BUSY_TIMEOUT_MS == 8_000 && PROGRESS_HANDLER_VM_STEP_INTERVAL == 10_000,
{
}

} // verus!

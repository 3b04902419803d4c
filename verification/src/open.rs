//! Opening a connection: one that waits for locks, is in write-ahead mode where the file
//! allows it, and cannot run a statement without end.

use crate::driver::{
    Action, ActionView, Event, EventView, BUSY_TIMEOUT_MS, OPEN_FLAGS,
    PROGRESS_HANDLER_VM_STEP_INTERVAL, SQLITE_OK, SQLITE_ROW,
};
#[allow(unused_imports)]
use crate::driver::{action_view, answers, bytes_view};
use crate::text::{c_string, decimal_i64, is_wal, lossy, nul_error};
#[allow(unused_imports)]
use crate::text::{
    c_text, decimal, first_nul, is_clean, law_complaints_tell_the_first_nul,
    law_wal_is_three_letters, lossy_text, nul_complaint, reads_wal, told,
};
use vstd::hash_set::StringHashSet;
use vstd::prelude::*;
use vstd::string::*;

verus! {

/// How far the opening of a connection has come; in each state but the last two one call
/// is pending.
pub enum Opening<T> {
    /// The file is to be opened.
    Open { path: T },
    /// Opening failed with a half-open connection, which is to say why.
    Message { path: T, code: i32, db: u64 },
    /// The half-open connection is to be closed.
    CloseFailed { db: u64, error: T },
    /// The connection is to wait for locks.
    Busy { path: T, db: u64 },
    /// The database is to be put in write-ahead mode.
    Convert { path: T, db: u64 },
    /// The mode is to be read back: the statement is to be prepared.
    Prepare { path: T, db: u64 },
    /// The mode's row is to be fetched.
    Step { path: T, db: u64, stmt: u64 },
    /// The mode's text is to be read.
    Text { path: T, db: u64, stmt: u64 },
    /// The statement is to be finalized.
    Finalize { path: T, db: u64, stmt: u64, wal: bool },
    /// The count of progress callbacks is to be set to zero.
    Reset { db: u64 },
    /// The progress handler is to be installed.
    Handler { db: u64 },
    /// The connection is open.
    Ready { db: u64 },
    /// There is no connection.
    Failed { error: T },
}

/// An opening, as the contracts speak of it.
pub type OpeningView = Opening<Seq<char>>;

impl View for Opening<String> {
    type V = OpeningView;

    open spec fn view(&self) -> OpeningView {
        match *self {
            Opening::Open { path } => Opening::Open { path: path@ },
            Opening::Message { path, code, db } => Opening::Message { path: path@, code, db },
            Opening::CloseFailed { db, error } => Opening::CloseFailed { db, error: error@ },
            Opening::Busy { path, db } => Opening::Busy { path: path@, db },
            Opening::Convert { path, db } => Opening::Convert { path: path@, db },
            Opening::Prepare { path, db } => Opening::Prepare { path: path@, db },
            Opening::Step { path, db, stmt } => Opening::Step { path: path@, db, stmt },
            Opening::Text { path, db, stmt } => Opening::Text { path: path@, db, stmt },
            Opening::Finalize { path, db, stmt, wal } => Opening::Finalize {
                path: path@,
                db,
                stmt,
                wal,
            },
            Opening::Reset { db } => Opening::Reset { db },
            Opening::Handler { db } => Opening::Handler { db },
            Opening::Ready { db } => Opening::Ready { db },
            Opening::Failed { error } => Opening::Failed { error: error@ },
        }
    }
}

/// Why a file could not be opened.
pub open spec fn open_error(path: Seq<char>, detail: Seq<char>) -> Seq<char> {
    "sqlite3_open_v2 "@ + path + " "@ + detail
}

/// Whether the text of the journal mode says that the database is in write-ahead mode.
pub open spec fn mode_is_wal(mode: Option<Seq<u8>>) -> bool {
    match mode {
        Some(bytes) => reads_wal(lossy_text(bytes)),
        None => false,
    }
}

/// Where an opening starts: at the file, unless its path cannot be handed to SQLite.
pub open spec fn opening_start(path: Seq<char>) -> OpeningView {
    match nul_complaint(path) {
        Some(error) => Opening::Failed { error },
        None => Opening::Open { path },
    }
}

/// The call that is pending.
pub open spec fn opening_action(o: OpeningView) -> Option<ActionView> {
    match o {
        Opening::Open { path } => Some(Action::Open { path, flags: OPEN_FLAGS }),
        Opening::Message { path, code, db } => Some(Action::ErrorMessage { db }),
        Opening::CloseFailed { db, error } => Some(Action::CloseFailed { db }),
        Opening::Busy { path, db } => Some(Action::BusyTimeout { db, ms: BUSY_TIMEOUT_MS }),
        Opening::Convert { path, db } => Some(
            Action::Exec { db, sql: "PRAGMA journal_mode=WAL;"@ },
        ),
        Opening::Prepare { path, db } => Some(Action::Prepare { db, sql: "PRAGMA journal_mode;"@ }),
        Opening::Step { path, db, stmt } => Some(Action::Step { stmt }),
        Opening::Text { path, db, stmt } => Some(Action::ColumnText { stmt, index: 0 }),
        Opening::Finalize { path, db, stmt, wal } => Some(Action::Finalize { stmt }),
        Opening::Reset { db } => Some(Action::ResetProgress),
        Opening::Handler { db } => Some(
            Action::ProgressHandler { db, interval: PROGRESS_HANDLER_VM_STEP_INTERVAL },
        ),
        Opening::Ready { db } => None,
        Opening::Failed { error } => None,
    }
}

/// The state after an event. `converted` holds the paths known to be in write-ahead mode.
/// An event that does not answer the pending call changes nothing.
pub open spec fn opening_next(
    o: OpeningView,
    converted: Set<Seq<char>>,
    e: EventView,
) -> OpeningView {
    match (o, e) {
        (Opening::Open { path }, Event::Handle { code, handle }) => if code == SQLITE_OK {
            Opening::Busy { path, db: handle }
        } else if handle == 0 {
            Opening::Failed { error: open_error(path, "rc="@ + decimal(code as int)) }
        } else {
            Opening::Message { path, code, db: handle }
        },
        (Opening::Message { path, code, db }, Event::Text(message)) => Opening::CloseFailed {
            db,
            error: open_error(
                path,
                "rc="@ + decimal(code as int) + " msg="@ + c_text(message),
            ),
        },
        (Opening::CloseFailed { db, error }, Event::Done) => Opening::Failed { error },
        (Opening::Busy { path, db }, Event::Done) => if converted.contains(path) {
            Opening::Reset { db }
        } else {
            Opening::Convert { path, db }
        },
        (Opening::Convert { path, db }, Event::Executed { code, message }) => if code
            == SQLITE_OK {
            Opening::Prepare { path, db }
        } else {
            Opening::Reset { db }
        },
        (Opening::Prepare { path, db }, Event::Handle { code, handle }) => if code == SQLITE_OK {
            Opening::Step { path, db, stmt: handle }
        } else {
            Opening::Reset { db }
        },
        (Opening::Step { path, db, stmt }, Event::Code(code)) => if code == SQLITE_ROW {
            Opening::Text { path, db, stmt }
        } else {
            Opening::Finalize { path, db, stmt, wal: false }
        },
        (Opening::Text { path, db, stmt }, Event::Text(mode)) => Opening::Finalize {
            path,
            db,
            stmt,
            wal: mode_is_wal(mode),
        },
        (Opening::Finalize { path, db, stmt, wal }, Event::Done) => Opening::Reset { db },
        (Opening::Reset { db }, Event::Done) => Opening::Handler { db },
        (Opening::Handler { db }, Event::Done) => Opening::Ready { db },
        _ => o,
    }
}

/// The paths known to be in write-ahead mode after an event: one is added once the mode
/// has been read back as such.
pub open spec fn converted_next(
    o: OpeningView,
    converted: Set<Seq<char>>,
    e: EventView,
) -> Set<Seq<char>> {
    match (o, e) {
        (Opening::Finalize { path, db, stmt, wal }, Event::Done) => if wal {
            converted.insert(path)
        } else {
            converted
        },
        _ => converted,
    }
}

/// Whether the text of the journal mode says that the database is in write-ahead mode.
/// SQLite reports success while it leaves the mode as it was, so only this text tells.
pub fn journal_mode_is_wal(mode: Option<Vec<u8>>) -> (r: bool)
    ensures
        r == mode_is_wal(bytes_view(mode)),
{
    match mode {
        Some(bytes) => is_wal(lossy(bytes.as_slice()).as_str()),
        None => false,
    }
}

/// Starts the opening of a connection to `path`.
pub fn open_fresh(path: &str) -> (r: Opening<String>)
    ensures
        r@ == opening_start(path@),
{
    match nul_error(path) {
        Some(error) => Opening::Failed { error },
        None => Opening::Open { path: path.to_owned() },
    }
}

impl Opening<String> {
    /// The call that is pending.
    pub fn action(&self) -> (r: Option<Action<String, Vec<u8>>>)
        ensures
            action_view(r) == opening_action(self@),
    {
        match self {
            Opening::Open { path } => Some(Action::Open { path: path.clone(), flags: OPEN_FLAGS }),
            Opening::Message { path: _, code: _, db } => Some(Action::ErrorMessage { db: *db }),
            Opening::CloseFailed { db, error: _ } => Some(Action::CloseFailed { db: *db }),
            Opening::Busy { path: _, db } => Some(
                Action::BusyTimeout { db: *db, ms: BUSY_TIMEOUT_MS },
            ),
            Opening::Convert { path: _, db } => Some(
                Action::Exec { db: *db, sql: "PRAGMA journal_mode=WAL;".to_owned() },
            ),
            Opening::Prepare { path: _, db } => Some(
                Action::Prepare { db: *db, sql: "PRAGMA journal_mode;".to_owned() },
            ),
            Opening::Step { path: _, db: _, stmt } => Some(Action::Step { stmt: *stmt }),
            Opening::Text { path: _, db: _, stmt } => Some(
                Action::ColumnText { stmt: *stmt, index: 0 },
            ),
            Opening::Finalize { path: _, db: _, stmt, wal: _ } => Some(
                Action::Finalize { stmt: *stmt },
            ),
            Opening::Reset { db: _ } => Some(Action::ResetProgress),
            Opening::Handler { db } => Some(
                Action::ProgressHandler { db: *db, interval: PROGRESS_HANDLER_VM_STEP_INTERVAL },
            ),
            Opening::Ready { db: _ } => None,
            Opening::Failed { error: _ } => None,
        }
    }

    /// Takes an event in. `converted` holds the paths known to be in write-ahead mode.
    pub fn resume(self, converted: &mut StringHashSet, e: Event<String, Vec<u8>>) -> (r: Self)
        ensures
            r@ == opening_next(self@, old(converted)@, e@),
            final(converted)@ == converted_next(self@, old(converted)@, e@),
    {
        match (self, e) {
            (Opening::Open { path }, Event::Handle { code, handle }) => {
                if code == SQLITE_OK {
                    Opening::Busy { path, db: handle }
                } else if handle == 0 {
                    let mut detail = "rc=".to_owned();
                    detail.append(decimal_i64(code as i64).as_str());
                    Opening::Failed { error: open_failure(path.as_str(), detail.as_str()) }
                } else {
                    Opening::Message { path, code, db: handle }
                }
            },
            (Opening::Message { path, code, db }, Event::Text(message)) => {
                let mut detail = "rc=".to_owned();
                detail.append(decimal_i64(code as i64).as_str());
                detail.append(" msg=");
                detail.append(c_string(message).as_str());
                Opening::CloseFailed {
                    db,
                    error: open_failure(path.as_str(), detail.as_str()),
                }
            },
            (Opening::CloseFailed { db: _, error }, Event::Done) => Opening::Failed { error },
            (Opening::Busy { path, db }, Event::Done) => {
                if converted.contains(path.as_str()) {
                    Opening::Reset { db }
                } else {
                    Opening::Convert { path, db }
                }
            },
            (Opening::Convert { path, db }, Event::Executed { code, message: _ }) => {
                if code == SQLITE_OK {
                    Opening::Prepare { path, db }
                } else {
                    Opening::Reset { db }
                }
            },
            (Opening::Prepare { path, db }, Event::Handle { code, handle }) => {
                if code == SQLITE_OK {
                    Opening::Step { path, db, stmt: handle }
                } else {
                    Opening::Reset { db }
                }
            },
            (Opening::Step { path, db, stmt }, Event::Code(code)) => {
                if code == SQLITE_ROW {
                    Opening::Text { path, db, stmt }
                } else {
                    Opening::Finalize { path, db, stmt, wal: false }
                }
            },
            (Opening::Text { path, db, stmt }, Event::Text(mode)) => Opening::Finalize {
                path,
                db,
                stmt,
                wal: journal_mode_is_wal(mode),
            },
            (Opening::Finalize { path, db, stmt: _, wal }, Event::Done) => {
                if wal {
                    converted.insert(path);
                }
                Opening::Reset { db }
            },
            (Opening::Reset { db }, Event::Done) => Opening::Handler { db },
            (Opening::Handler { db }, Event::Done) => Opening::Ready { db },
            (o, _) => o,
        }
    }
}

/// An opening after events, and the paths known to be in write-ahead mode then.
pub open spec fn opening_after(
    path: Seq<char>,
    converted: Set<Seq<char>>,
    events: Seq<EventView>,
) -> (OpeningView, Set<Seq<char>>)
    decreases events.len(),
{
    if events.len() == 0 {
        (opening_start(path), converted)
    } else {
        let (o, known) = opening_after(path, converted, events.drop_last());
        (opening_next(o, known, events.last()), converted_next(o, known, events.last()))
    }
}

/// Whether the event at an index answers an action that was pending then.
pub open spec fn made(
    path: Seq<char>,
    converted: Set<Seq<char>>,
    events: Seq<EventView>,
    at: int,
    a: ActionView,
) -> bool {
    &&& 0 <= at < events.len()
    &&& opening_action(opening_after(path, converted, events.take(at)).0) == Some(a)
    &&& answers(a, events[at])
}

/// The connection of an opening that is past the setting of its timeout.
spec fn waiting(o: OpeningView) -> Option<u64> {
    match o {
        Opening::Convert { path, db } => Some(db),
        Opening::Prepare { path, db } => Some(db),
        Opening::Step { path, db, stmt } => Some(db),
        Opening::Text { path, db, stmt } => Some(db),
        Opening::Finalize { path, db, stmt, wal } => Some(db),
        Opening::Reset { db } => Some(db),
        Opening::Handler { db } => Some(db),
        Opening::Ready { db } => Some(db),
        _ => None,
    }
}

/// The path that an opening still knows.
spec fn known_path(o: OpeningView) -> Option<Seq<char>> {
    match o {
        Opening::Open { path } => Some(path),
        Opening::Message { path, code, db } => Some(path),
        Opening::Busy { path, db } => Some(path),
        Opening::Convert { path, db } => Some(path),
        Opening::Prepare { path, db } => Some(path),
        Opening::Step { path, db, stmt } => Some(path),
        Opening::Text { path, db, stmt } => Some(path),
        Opening::Finalize { path, db, stmt, wal } => Some(path),
        _ => None,
    }
}

/// Where in the events of an opening its guards were set.
struct Guards {
    timeout: int,
    reset: int,
    handler: int,
}

/// Where in the events of an opening its mode was set and read, and on what.
struct Conversion {
    db: u64,
    stmt: u64,
    set: int,
    read: int,
}

/// Whether the event at `i` answers the setting of the mode on `db`, with success.
pub open spec fn mode_set(
    path: Seq<char>,
    converted: Set<Seq<char>>,
    events: Seq<EventView>,
    i: int,
    db: u64,
) -> bool {
    &&& made(path, converted, events, i, Action::Exec { db, sql: "PRAGMA journal_mode=WAL;"@ })
    &&& (events[i] matches Event::Executed { code, message } && code == SQLITE_OK)
}

/// Whether the event at `j` answers the reading of the mode, as write-ahead.
pub open spec fn mode_read(
    path: Seq<char>,
    converted: Set<Seq<char>>,
    events: Seq<EventView>,
    j: int,
    stmt: u64,
) -> bool {
    &&& made(path, converted, events, j, Action::ColumnText { stmt, index: 0 })
    &&& (events[j] matches Event::Text(mode) && mode_is_wal(mode))
}

/// Whether the mode was set with success, and read back as write-ahead later on.
pub open spec fn read_back(
    path: Seq<char>,
    converted: Set<Seq<char>>,
    events: Seq<EventView>,
) -> bool {
    exists|i: int, j: int, db: u64, stmt: u64|
        i < j && #[trigger] mode_set(path, converted, events, i, db) && #[trigger] mode_read(
            path,
            converted,
            events,
            j,
            stmt,
        )
}

/// What is known of the guards of an opening from its state.
spec fn guarded(
    path: Seq<char>,
    converted: Set<Seq<char>>,
    events: Seq<EventView>,
    h: Guards,
) -> bool {
    let o = opening_after(path, converted, events).0;
    &&& (waiting(o) matches Some(db) ==> made(
        path,
        converted,
        events,
        h.timeout,
        Action::BusyTimeout { db, ms: BUSY_TIMEOUT_MS },
    ))
    &&& (o is Handler || o is Ready ==> h.timeout < h.reset && made(
        path,
        converted,
        events,
        h.reset,
        Action::ResetProgress,
    ))
    &&& (o matches Opening::Ready { db } ==> h.reset < h.handler && made(
        path,
        converted,
        events,
        h.handler,
        Action::ProgressHandler { db, interval: PROGRESS_HANDLER_VM_STEP_INTERVAL },
    ))
}

/// What is known of the conversion of an opening from its state.
spec fn converting(
    path: Seq<char>,
    converted: Set<Seq<char>>,
    events: Seq<EventView>,
    h: Conversion,
) -> bool {
    let (o, known) = opening_after(path, converted, events);
    &&& (known_path(o) matches Some(p) ==> p == path && known == converted)
    &&& (o is Prepare || o is Step || o is Text || o is Finalize ==> mode_set(
        path,
        converted,
        events,
        h.set,
        h.db,
    ))
    &&& (known != converted || (o matches Opening::Finalize { path: p, db, stmt, wal } && wal)
        ==> h.set < h.read && mode_set(path, converted, events, h.set, h.db) && mode_read(
        path,
        converted,
        events,
        h.read,
        h.stmt,
    ))
    &&& (known == converted || known == converted.insert(path))
}

proof fn lemma_made_longer(
    path: Seq<char>,
    converted: Set<Seq<char>>,
    events: Seq<EventView>,
    at: int,
    a: ActionView,
)
    requires
        events.len() > 0,
        made(path, converted, events.drop_last(), at, a),
    ensures
        made(path, converted, events, at, a),
{
    assert(events.drop_last().take(at) =~= events.take(at));
}

/// The guards of an opening can be found among its events.
proof fn lemma_guarded(
    path: Seq<char>,
    converted: Set<Seq<char>>,
    events: Seq<EventView>,
) -> (h: Guards)
    ensures
        guarded(path, converted, events, h),
    decreases events.len(),
{
    if events.len() == 0 {
        Guards { timeout: 0, reset: 0, handler: 0 }
    } else {
        let before = events.drop_last();
        let n = events.len() - 1;
        let e = events.last();
        let h = lemma_guarded(path, converted, before);
        let (o, known) = opening_after(path, converted, before);
        assert(events.take(n) =~= before);
        if let Some(db) = waiting(o) {
            lemma_made_longer(
                path,
                converted,
                events,
                h.timeout,
                Action::BusyTimeout { db, ms: BUSY_TIMEOUT_MS },
            );
        }
        if o is Handler || o is Ready {
            lemma_made_longer(path, converted, events, h.reset, Action::ResetProgress);
        }
        if let Opening::Ready { db } = o {
            lemma_made_longer(
                path,
                converted,
                events,
                h.handler,
                Action::ProgressHandler { db, interval: PROGRESS_HANDLER_VM_STEP_INTERVAL },
            );
        }
        Guards {
            timeout: if o is Busy && e is Done {
                n
            } else {
                h.timeout
            },
            reset: if o is Reset && e is Done {
                n
            } else {
                h.reset
            },
            handler: if o is Handler && e is Done {
                n
            } else {
                h.handler
            },
        }
    }
}

/// The conversion of an opening can be found among its events.
proof fn lemma_converting(
    path: Seq<char>,
    converted: Set<Seq<char>>,
    events: Seq<EventView>,
) -> (h: Conversion)
    ensures
        converting(path, converted, events, h),
    decreases events.len(),
{
    if events.len() == 0 {
        Conversion { db: 0, stmt: 0, set: 0, read: 0 }
    } else {
        let before = events.drop_last();
        let n = events.len() - 1;
        let h = lemma_converting(path, converted, before);
        let (o, known) = opening_after(path, converted, before);
        assert(events.take(n) =~= before);
        if mode_set(path, converted, before, h.set, h.db) {
            lemma_made_longer(
                path,
                converted,
                events,
                h.set,
                Action::Exec { db: h.db, sql: "PRAGMA journal_mode=WAL;"@ },
            );
        }
        if mode_read(path, converted, before, h.read, h.stmt) {
            lemma_made_longer(
                path,
                converted,
                events,
                h.read,
                Action::ColumnText { stmt: h.stmt, index: 0 },
            );
        }
        match (o, events.last()) {
            (Opening::Convert { path: p, db }, Event::Executed { code, message }) => Conversion {
                db,
                set: n,
                ..h
            },
            (Opening::Text { path: p, db, stmt }, Event::Text(mode)) => Conversion {
                stmt,
                read: n,
                ..h
            },
            _ => h,
        }
    }
}

/// A connection that is open waits for locks and is guarded: its timeout was set first,
/// then the count of progress callbacks started again, and then the progress handler was
/// installed.
pub proof fn law_open_connections_wait_and_are_guarded(
    path: Seq<char>,
    converted: Set<Seq<char>>,
    events: Seq<EventView>,
)
    ensures
        opening_after(path, converted, events).0 matches Opening::Ready { db } ==> exists|
            i: int,
            j: int,
            k: int,
        |
            i < j < k && #[trigger] made(
                path,
                converted,
                events,
                i,
                Action::BusyTimeout { db, ms: BUSY_TIMEOUT_MS },
            ) && #[trigger] made(path, converted, events, j, Action::ResetProgress)
                && #[trigger] made(
                path,
                converted,
                events,
                k,
                Action::ProgressHandler { db, interval: PROGRESS_HANDLER_VM_STEP_INTERVAL },
            ),
{
    let h = lemma_guarded(path, converted, events);
}

/// The timeout is set before the conversion to write-ahead mode is tried, so that the
/// conversion waits for its lock.
pub proof fn law_the_timeout_comes_before_the_conversion(
    path: Seq<char>,
    converted: Set<Seq<char>>,
    events: Seq<EventView>,
    db: u64,
    sql: Seq<char>,
)
    requires
        opening_action(opening_after(path, converted, events).0) == Some(
            ActionView::Exec { db, sql },
        ),
    ensures
        exists|i: int| #[trigger]
            made(
                path,
                converted,
                events,
                i,
                Action::BusyTimeout { db, ms: BUSY_TIMEOUT_MS },
            ),
{
    let h = lemma_guarded(path, converted, events);
}

/// A path counts as converted only once the mode has been set with success and read back;
/// a failed or contended attempt leaves it to be tried again. No other path is touched.
pub proof fn law_only_what_is_read_back_counts(
    path: Seq<char>,
    converted: Set<Seq<char>>,
    events: Seq<EventView>,
)
    ensures
        ({
            let known = opening_after(path, converted, events).1;
            known != converted ==> known == converted.insert(path) && read_back(
                path,
                converted,
                events,
            )
        }),
{
    let h = lemma_converting(path, converted, events);
}

/// A path whose mode has been read back as write-ahead is known, or about to be.
proof fn lemma_read_back_counts(
    path: Seq<char>,
    converted: Set<Seq<char>>,
    events: Seq<EventView>,
    j: int,
    stmt: u64,
)
    requires
        mode_read(path, converted, events, j, stmt),
    ensures
        ({
            let (o, known) = opening_after(path, converted, events);
            known.contains(path) || (o matches Opening::Finalize { path: p, db, stmt: s, wal } && p
                == path && wal)
        }),
    decreases events.len(),
{
    let before = events.drop_last();
    let (o, known) = opening_after(path, converted, before);
    if j == events.len() - 1 {
        assert(events.take(j) =~= before);
        let h = lemma_converting(path, converted, before);
        assert(o is Text);
    } else {
        assert(before.take(j) =~= events.take(j));
        lemma_read_back_counts(path, converted, before, j, stmt);
    }
}

/// An opening that succeeds on a path not yet known to be converted makes it known exactly
/// where the mode was set with success and read back as write-ahead.
pub proof fn law_what_is_read_back_counts(
    path: Seq<char>,
    converted: Set<Seq<char>>,
    events: Seq<EventView>,
)
    requires
        !converted.contains(path),
        opening_after(path, converted, events).0 is Ready,
    ensures
        ({
            let known = opening_after(path, converted, events).1;
            &&& read_back(path, converted, events) ==> known == converted.insert(path)
            &&& !read_back(path, converted, events) ==> known == converted
        }),
{
    let h = lemma_converting(path, converted, events);
    if read_back(path, converted, events) {
        let (i, j, db, stmt) = choose|i: int, j: int, db: u64, stmt: u64|
            i < j && #[trigger] mode_set(path, converted, events, i, db) && #[trigger] mode_read(
                path,
                converted,
                events,
                j,
                stmt,
            );
        lemma_read_back_counts(path, converted, events, j, stmt);
    }
}

/// Whether an opening is past its attempt to convert.
spec fn tried(o: OpeningView) -> bool {
    o is Prepare || o is Step || o is Text || o is Finalize || o is Reset || o is Handler
        || o is Ready
}

/// What was made before the last of the events was made without it.
proof fn lemma_made_shorter(
    path: Seq<char>,
    converted: Set<Seq<char>>,
    events: Seq<EventView>,
    at: int,
    a: ActionView,
)
    requires
        made(path, converted, events, at, a),
        at < events.len() - 1,
    ensures
        made(path, converted, events.drop_last(), at, a),
{
    assert(events.drop_last().take(at) =~= events.take(at));
}

/// Of an opening on a path not yet converted: where its only attempt to convert was made.
proof fn lemma_tried(
    path: Seq<char>,
    converted: Set<Seq<char>>,
    events: Seq<EventView>,
) -> (i: int)
    requires
        !converted.contains(path),
    ensures
        ({
            let o = opening_after(path, converted, events).0;
            &&& tried(o) ==> waiting(o) is Some && made(
                path,
                converted,
                events,
                i,
                Action::Exec { db: waiting(o)->0, sql: "PRAGMA journal_mode=WAL;"@ },
            )
            &&& forall|j: int, db: u64, sql: Seq<char>| #[trigger]
                made(path, converted, events, j, Action::Exec { db, sql }) ==> tried(o) && j == i
        }),
    decreases events.len(),
{
    if events.len() == 0 {
        0
    } else {
        let before = events.drop_last();
        let n = events.len() - 1;
        let i = lemma_tried(path, converted, before);
        let h = lemma_converting(path, converted, before);
        let (o, known) = opening_after(path, converted, before);
        let next = opening_after(path, converted, events).0;
        assert(events.take(n) =~= before);
        if tried(o) {
            lemma_made_longer(
                path,
                converted,
                events,
                i,
                Action::Exec { db: waiting(o)->0, sql: "PRAGMA journal_mode=WAL;"@ },
            );
        }
        let at = if o is Convert && events.last() is Executed {
            n
        } else {
            i
        };
        assert forall|j: int, db: u64, sql: Seq<char>| #[trigger]
            made(path, converted, events, j, Action::Exec { db, sql }) implies tried(next) && j
            == at by {
            if j < n {
                lemma_made_shorter(path, converted, events, j, Action::Exec { db, sql });
            }
        }
        at
    }
}

/// An opening that succeeds on a path not yet converted tries to convert it exactly once,
/// on its own connection, and runs nothing else.
pub proof fn law_one_conversion_is_tried(
    path: Seq<char>,
    converted: Set<Seq<char>>,
    events: Seq<EventView>,
)
    requires
        !converted.contains(path),
    ensures
        opening_after(path, converted, events).0 matches Opening::Ready { db } ==> exists|i: int| {
            &&& #[trigger] made(
                path,
                converted,
                events,
                i,
                Action::Exec { db, sql: "PRAGMA journal_mode=WAL;"@ },
            )
            &&& forall|j: int, other: u64, sql: Seq<char>| #[trigger]
                made(path, converted, events, j, Action::Exec { db: other, sql }) ==> j == i
        },
{
    let i = lemma_tried(path, converted, events);
}

/// An opening sets the count of progress callbacks to zero only once it has a connection.
proof fn lemma_reset_last(path: Seq<char>, converted: Set<Seq<char>>, events: Seq<EventView>)
    ensures
        ({
            let o = opening_after(path, converted, events).0;
            o is Handler || o is Ready || forall|j: int|
                !(#[trigger] made(path, converted, events, j, Action::ResetProgress))
        }),
    decreases events.len(),
{
    if events.len() > 0 {
        let before = events.drop_last();
        let n = events.len() - 1;
        lemma_reset_last(path, converted, before);
        let o = opening_after(path, converted, events).0;
        assert(events.take(n) =~= before);
        if !(o is Handler || o is Ready) {
            assert forall|j: int|
                !(#[trigger] made(path, converted, events, j, Action::ResetProgress)) by {
                if made(path, converted, events, j, Action::ResetProgress) && j < n {
                    lemma_made_shorter(path, converted, events, j, Action::ResetProgress);
                }
            }
        }
    }
}

/// An opening that fails leaves the count of progress callbacks as it is.
pub proof fn law_failed_openings_leave_the_count(
    path: Seq<char>,
    converted: Set<Seq<char>>,
    events: Seq<EventView>,
    j: int,
)
    requires
        opening_after(path, converted, events).0 is Failed,
    ensures
        !made(path, converted, events, j, Action::ResetProgress),
{
    lemma_reset_last(path, converted, events);
}

/// A path that counts as converted is not converted again.
pub proof fn law_converted_paths_are_left_alone(
    path: Seq<char>,
    converted: Set<Seq<char>>,
    events: Seq<EventView>,
)
    requires
        converted.contains(path),
    ensures
        ({
            let (o, known) = opening_after(path, converted, events);
            &&& known == converted
            &&& !(opening_action(o) matches Some(Action::Exec { .. }))
            &&& !(opening_action(o) matches Some(Action::Prepare { .. }))
        }),
{
    lemma_left_alone(path, converted, events);
}

proof fn lemma_left_alone(path: Seq<char>, converted: Set<Seq<char>>, events: Seq<EventView>)
    requires
        converted.contains(path),
    ensures
        ({
            let (o, known) = opening_after(path, converted, events);
            &&& known == converted
            &&& (known_path(o) matches Some(p) ==> p == path)
            &&& !(o is Convert || o is Prepare || o is Step || o is Text || o is Finalize)
        }),
    decreases events.len(),
{
    if events.len() > 0 {
        lemma_left_alone(path, converted, events.drop_last());
    }
}

/// Why a file could not be opened.
fn open_failure(path: &str, detail: &str) -> (r: String)
    ensures
        r@ == open_error(path@, detail@),
{
    let mut r = "sqlite3_open_v2 ".to_owned();
    r.append(path);
    r.append(" ");
    r.append(detail);
    r
}

/// A path that can be handed to SQLite is opened as it was given, for reading and writing,
/// and made where there is none. One with a zero byte is refused before SQLite is asked.
pub proof fn law_paths_are_opened_as_given(path: Seq<char>, at: int)
    ensures
        is_clean(path) ==> opening_action(opening_start(path)) == Some(
            ActionView::Open { path, flags: 6 },
        ),
        first_nul(path, at) ==> opening_start(path) == (OpeningView::Failed {
            error: "nul byte found in provided data at position: "@ + decimal(at),
        }),
{
    law_complaints_tell_the_first_nul(path);
}

/// An opening succeeds exactly where SQLite returns its code of success. For every other code
/// it fails, and the error tells the path, the code and, where there is a half-open connection
/// to ask, SQLite's message. That connection is closed.
pub proof fn law_failed_openings_tell_the_path(
    path: Seq<char>,
    converted: Set<Seq<char>>,
    code: i32,
    db: u64,
    message: Option<Seq<u8>>,
)
    requires
        is_clean(path),
    ensures
        ({
            let start = opening_start(path);
            let opened = opening_next(start, converted, EventView::Handle { code, handle: db });
            let asked = opening_next(opened, converted, EventView::Text(message));
            let closed = opening_next(asked, converted, EventView::Done);
            let failure = "sqlite3_open_v2 "@ + path + " "@;
            &&& code == 0 ==> opening_action(opened) == Some(
                ActionView::BusyTimeout { db, ms: 8_000 },
            )
            &&& code != 0 && db == 0 ==> opened == (OpeningView::Failed {
                error: failure + ("rc="@ + decimal(code as int)),
            })
            &&& code != 0 && db != 0 ==> {
                &&& opening_action(opened) == Some(ActionView::ErrorMessage { db })
                &&& opening_action(asked) == Some(ActionView::CloseFailed { db })
                &&& closed == (OpeningView::Failed {
                    error: failure + told("rc="@, code, message),
                })
            }
        }),
{
    law_complaints_tell_the_first_nul(path);
}

/// A connection that is open is set up step by step. Its timeout is eight seconds. A path not
/// yet known to be converted is converted, and where SQLite reports success the mode is read
/// back; the path becomes known exactly where that text is `wal`, in whatever case. Whatever
/// comes of this, the count of progress callbacks starts again, the handler is installed for
/// every ten thousand steps, and the connection is ready.
pub proof fn law_connections_are_set_up_step_by_step(
    path: Seq<char>,
    converted: Set<Seq<char>>,
    db: u64,
    code: i32,
    message: Option<Seq<u8>>,
    prepared: i32,
    stmt: u64,
    step: i32,
    mode: Option<Seq<u8>>,
)
    requires
        is_clean(path),
    ensures
        ({
            let opened = opening_next(
                opening_start(path),
                converted,
                EventView::Handle { code: 0, handle: db },
            );
            let waits = opening_next(opened, converted, EventView::Done);
            let ran = opening_next(waits, converted, EventView::Executed { code, message });
            let asked = opening_next(
                ran,
                converted,
                EventView::Handle { code: prepared, handle: stmt },
            );
            let fetched = opening_next(asked, converted, EventView::Code(step));
            let read = opening_next(fetched, converted, EventView::Text(mode));
            &&& opening_action(opened) == Some(ActionView::BusyTimeout { db, ms: 8_000 })
            &&& converted.contains(path) ==> guards(waits, converted, db)
            &&& !converted.contains(path) ==> {
                &&& opening_action(waits) == Some(
                    ActionView::Exec { db, sql: "PRAGMA journal_mode=WAL;"@ },
                )
                &&& code != 0 ==> guards(ran, converted, db)
                &&& code == 0 ==> opening_action(ran) == Some(
                    ActionView::Prepare { db, sql: "PRAGMA journal_mode;"@ },
                )
                &&& code == 0 && prepared != 0 ==> guards(asked, converted, db)
                &&& code == 0 && prepared == 0 ==> opening_action(asked) == Some(
                    ActionView::Step { stmt },
                )
                &&& code == 0 && prepared == 0 && step != 100 ==> finalizes(
                    fetched,
                    converted,
                    stmt,
                    db,
                ) && converted_next(fetched, converted, EventView::Done) == converted
                &&& code == 0 && prepared == 0 && step == 100 ==> {
                    &&& opening_action(fetched) == Some(ActionView::ColumnText { stmt, index: 0 })
                    &&& finalizes(read, converted, stmt, db)
                    &&& converted_next(read, converted, EventView::Done) == if is_wal_text(mode) {
                        converted.insert(path)
                    } else {
                        converted
                    }
                }
            }
        }),
{
    law_complaints_tell_the_first_nul(path);
    if let Some(bytes) = mode {
        law_wal_is_three_letters(lossy_text(bytes));
    }
}

/// Whether a text is `wal`, each letter in either case.
pub open spec fn is_wal_text(mode: Option<Seq<u8>>) -> bool {
    mode matches Some(bytes) && {
        let t = lossy_text(bytes);
        t.len() == 3 && (t[0] == 'w' || t[0] == 'W') && (t[1] == 'a' || t[1] == 'A') && (t[2] == 'l'
            || t[2] == 'L')
    }
}

/// Whether an opening starts the count again, installs the handler and is ready.
pub open spec fn guards(o: OpeningView, converted: Set<Seq<char>>, db: u64) -> bool {
    let counted = opening_next(o, converted, EventView::Done);
    &&& opening_action(o) == Some(ActionView::ResetProgress)
    &&& opening_action(counted) == Some(ActionView::ProgressHandler { db, interval: 10_000 })
    &&& opening_next(counted, converted, EventView::Done) == (OpeningView::Ready { db })
}

/// Whether an opening finalizes its statement and then sets its guards.
pub open spec fn finalizes(
    o: OpeningView,
    converted: Set<Seq<char>>,
    stmt: u64,
    db: u64,
) -> bool {
    let known = converted_next(o, converted, EventView::Done);
    &&& opening_action(o) == Some(ActionView::Finalize { stmt })
    &&& guards(opening_next(o, converted, EventView::Done), known, db)
}

/// A mode is write-ahead exactly where its text is `wal`, each letter in either case.
pub proof fn law_write_ahead_mode_reads_wal(mode: Option<Seq<u8>>)
    ensures
        mode_is_wal(mode) <==> is_wal_text(mode),
{
    if let Some(bytes) = mode {
        law_wal_is_three_letters(lossy_text(bytes));
    }
}

/// Nothing becomes known of a path before the mode is read back.
pub proof fn law_paths_become_known_at_the_end(
    o: OpeningView,
    converted: Set<Seq<char>>,
    e: EventView,
)
    requires
        !(opening_action(o) matches Some(Action::Finalize { .. })) || !(e is Done),
    ensures
        converted_next(o, converted, e) == converted,
{
}

} // verus!

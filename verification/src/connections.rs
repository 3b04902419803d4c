//! The connections that outlive a call.
//!
//! A file's connection is kept under its path, and a named in-memory database under its
//! name, so that a later call finds what an earlier one left. An in-memory database
//! without a name is scratch: it lives for one call.

use crate::driver::Event;
use crate::open::Opening;
#[allow(unused_imports)]
use crate::open::{converted_next, opening_next};
use crate::text::same_text;
use vstd::hash_map::StringHashMap;
use vstd::hash_set::StringHashSet;
use vstd::prelude::*;
use vstd::string::*;

verus! {

/// Which connection a call is for.
#[derive(Debug, PartialEq)]
pub enum Target<T> {
    /// The in-memory database of that name.
    Memory(T),
    /// An in-memory database for this call alone.
    Scratch,
    /// The file at that path.
    File(T),
}

/// A target, as the contracts speak of it.
pub type TargetView = Target<Seq<char>>;

impl View for Target<String> {
    type V = TargetView;

    open spec fn view(&self) -> TargetView {
        match *self {
            Target::Memory(name) => Target::Memory(name@),
            Target::Scratch => Target::Scratch,
            Target::File(path) => Target::File(path@),
        }
    }
}

/// Which connection a path and a name stand for: the name counts for `:memory:` alone.
pub open spec fn target_of(path: Seq<char>, name: Option<Seq<char>>) -> TargetView {
    if path == ":memory:"@ {
        match name {
            Some(n) => if n.len() > 0 {
                Target::Memory(n)
            } else {
                Target::Scratch
            },
            None => Target::Scratch,
        }
    } else {
        Target::File(path)
    }
}

/// The path that is opened for a target.
pub open spec fn target_path(t: TargetView) -> Seq<char> {
    match t {
        Target::File(path) => path,
        _ => ":memory:"@,
    }
}

/// The connections that outlive a call, as the contracts speak of them.
pub struct ConnectionsView {
    /// The in-memory databases, by name.
    pub memory: Map<Seq<char>, u64>,
    /// The files, by path.
    pub files: Map<Seq<char>, u64>,
    /// The paths known to be in write-ahead mode.
    pub converted: Set<Seq<char>>,
}

/// The connection that is kept for a target.
pub open spec fn kept(w: ConnectionsView, t: TargetView) -> Option<u64> {
    match t {
        Target::Memory(name) => if w.memory.contains_key(name) {
            Some(w.memory[name])
        } else {
            None
        },
        Target::Scratch => None,
        Target::File(path) => if w.files.contains_key(path) {
            Some(w.files[path])
        } else {
            None
        },
    }
}

/// The connections once the one of a target is kept; that of a scratch database is not.
pub open spec fn keeping(w: ConnectionsView, t: TargetView, db: u64) -> ConnectionsView {
    match t {
        Target::Memory(name) => ConnectionsView { memory: w.memory.insert(name, db), ..w },
        Target::Scratch => w,
        Target::File(path) => ConnectionsView { files: w.files.insert(path, db), ..w },
    }
}

/// The connections that outlive a call.
pub struct Connections {
    memory: StringHashMap<u64>,
    files: StringHashMap<u64>,
    converted: StringHashSet,
}

impl View for Connections {
    type V = ConnectionsView;

    closed spec fn view(&self) -> ConnectionsView {
        ConnectionsView {
            memory: self.memory@,
            files: self.files@,
            converted: self.converted@,
        }
    }
}

/// Which connection a path and a name stand for. The name is consulted for `:memory:`
/// alone; for a real path routing is by the path, so that two projects which use one name
/// with different files cannot collide.
pub fn with_db(path: &str, db_name: Option<&str>) -> (r: Target<String>)
    ensures
        r@ == target_of(
            path@,
            match db_name {
                Some(n) => Some(n@),
                None => None,
            },
        ),
{
    if same_text(path, ":memory:") {
        match db_name {
            Some(name) => {
                if name.is_empty() {
                    Target::Scratch
                } else {
                    Target::Memory(name.to_owned())
                }
            },
            None => Target::Scratch,
        }
    } else {
        Target::File(path.to_owned())
    }
}

impl Connections {
    /// No connection yet.
    pub fn new() -> (r: Self)
        ensures
            r@ == (ConnectionsView {
                memory: Map::empty(),
                files: Map::empty(),
                converted: Set::empty(),
            }),
    {
        Connections {
            memory: StringHashMap::new(),
            files: StringHashMap::new(),
            converted: StringHashSet::new(),
        }
    }

    /// The connection that is kept for a target.
    pub fn find(&self, target: &Target<String>) -> (r: Option<u64>)
        ensures
            r == kept(self@, target@),
    {
        let found = match target {
            Target::Memory(name) => self.memory.get(name.as_str()),
            Target::Scratch => None,
            Target::File(path) => self.files.get(path.as_str()),
        };
        match found {
            Some(db) => Some(*db),
            None => None,
        }
    }

    /// Keeps the connection of a target; that of a scratch database is not kept.
    pub(crate) fn keep(&mut self, target: Target<String>, db: u64)
        ensures
            final(self)@ == keeping(old(self)@, target@, db),
    {
        match target {
            Target::Memory(name) => {
                self.memory.insert(name, db);
            },
            Target::Scratch => {},
            Target::File(path) => {
                self.files.insert(path, db);
            },
        }
    }

    /// Takes an event into an opening.
    pub(crate) fn advance(&mut self, opening: Opening<String>, e: Event<String, Vec<u8>>) -> (r:
        Opening<String>)
        ensures
            r@ == opening_next(opening@, old(self)@.converted, e@),
            final(self)@ == (ConnectionsView {
                converted: converted_next(opening@, old(self)@.converted, e@),
                ..old(self)@
            }),
    {
        opening.resume(&mut self.converted, e)
    }
}

/// What is said of a target is what it holds.
pub proof fn law_targets_say_what_they_hold(t: Target<String>)
    ensures
        match t {
            Target::Memory(name) => t@ == TargetView::Memory(name@),
            Target::Scratch => t@ == TargetView::Scratch,
            Target::File(path) => t@ == TargetView::File(path@),
        },
{
}

/// A path that is not `:memory:` stands for its file, whatever the name. For `:memory:` a
/// name that is not empty stands for the database of that very name, and anything else for a
/// scratch database.
pub proof fn law_targets_are_their_path_or_name(
    path: Seq<char>,
    name: Option<Seq<char>>,
    n: Seq<char>,
)
    ensures
        path != ":memory:"@ ==> target_of(path, name) == TargetView::File(path),
        n.len() > 0 ==> target_of(":memory:"@, Some(n)) == TargetView::Memory(n),
        target_of(":memory:"@, Some(Seq::empty())) == TargetView::Scratch,
        target_of(":memory:"@, None) == TargetView::Scratch,
        target_path(TargetView::File(path)) == path,
        target_path(TargetView::Memory(n)) == ":memory:"@,
        target_path(TargetView::Scratch) == ":memory:"@,
{
}

/// What is kept for a target is found under it, and under it alone; a scratch database is
/// not kept.
pub proof fn law_what_is_kept_is_found(
    w: ConnectionsView,
    t: TargetView,
    db: u64,
    other: TargetView,
)
    ensures
        !(t is Scratch) ==> kept(keeping(w, t, db), t) == Some(db),
        t is Scratch ==> keeping(w, t, db) == w && kept(w, t) is None,
        other != t ==> kept(keeping(w, t, db), other) == kept(w, other),
        keeping(w, t, db).converted == w.converted,
        forall|n: Seq<char>|
            w.memory.contains_key(n) ==> #[trigger] kept(w, TargetView::Memory(n)) == Some(
                w.memory[n],
            ),
        forall|n: Seq<char>|
            !w.memory.contains_key(n) ==> #[trigger] kept(w, TargetView::Memory(n)) is None,
        forall|p: Seq<char>|
            w.files.contains_key(p) ==> #[trigger] kept(w, TargetView::File(p)) == Some(w.files[p]),
        forall|p: Seq<char>|
            !w.files.contains_key(p) ==> #[trigger] kept(w, TargetView::File(p)) is None,
{
}

} // verus!

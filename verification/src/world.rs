//! A file system that answers the copier, as a mathematical value.
//!
//! A [`World`] holds a source, a destination and the source directories that
//! are open for reading. [`World::respond`] says what carrying out an action
//! does to it and which event it reports; [`advance`] lets the copier take
//! that event. Writes to the destination always succeed here; reading the
//! source fails where the source does not hold what the action asks for.

use vstd::prelude::*;
use crate::copier::{ActionModel, CopierModel, EventModel};
use crate::tree::{with_dirs, Node, Tree};

verus! {

pub struct World {
    /// What stands at the source path; `None` if nothing does.
    pub source: Option<Tree>,
    /// What stands at each path under the destination path.
    pub destination: Map<Seq<Seq<char>>, Node>,
    /// For each source directory that is open, outermost first, the entries
    /// not yet handed out.
    pub open_dirs: Seq<Seq<(Seq<char>, Tree)>>,
    /// The error that a failing read reports.
    pub fault: std::io::Error,
}

impl World {
    /// What the source holds at `path`, if anything.
    pub open spec fn source_at(self, path: Seq<Seq<char>>) -> Option<Tree> {
        match self.source {
            Some(tree) => tree.at(path),
            None => None,
        }
    }

    /// The world after `action` has been carried out, and the event that
    /// reports it.
    pub open spec fn respond(self, action: ActionModel) -> (World, EventModel) {
        match action {
            ActionModel::CreateDirAll(path) => (
                World { destination: with_dirs(self.destination, path), ..self },
                EventModel::Done,
            ),
            ActionModel::ReadDir(path) => match self.source_at(path) {
                Some(Tree::Dir(entries)) => (
                    World { open_dirs: self.open_dirs.push(entries), ..self },
                    EventModel::Done,
                ),
                _ => (self, EventModel::Failed(self.fault)),
            },
            ActionModel::NextEntry => if self.open_dirs.len() == 0 {
                (self, EventModel::Failed(self.fault))
            } else if self.open_dirs.last().len() == 0 {
                (World { open_dirs: self.open_dirs.drop_last(), ..self }, EventModel::EndOfDir)
            } else {
                (
                    World {
                        open_dirs: self.open_dirs.drop_last().push(self.open_dirs.last().skip(1)),
                        ..self
                    },
                    EventModel::Entry {
                        name: self.open_dirs.last()[0].0,
                        is_dir: self.open_dirs.last()[0].1.is_dir(),
                    },
                )
            },
            ActionModel::CopyFile(path) => match self.source_at(path) {
                Some(Tree::File(bytes)) => (
                    World { destination: self.destination.insert(path, Node::File(bytes)), ..self },
                    EventModel::Done,
                ),
                _ => (self, EventModel::Failed(self.fault)),
            },
            ActionModel::Finish(_) => (self, EventModel::Done),
        }
    }
}

/// A copy under way: the copier, the action it has handed out, and the world
/// in which that action is carried out.
pub struct Run {
    pub copier: CopierModel,
    pub pending: ActionModel,
    pub world: World,
}

impl Run {
    /// A copy of `source` into `destination` before its first action.
    pub open spec fn begin(
        source: Option<Tree>,
        destination: Map<Seq<Seq<char>>, Node>,
        fault: std::io::Error,
    ) -> Run {
        Run {
            copier: CopierModel::initial(),
            pending: CopierModel::first_action(),
            world: World { source, destination, open_dirs: Seq::empty(), fault },
        }
    }

    /// Whether the copier has handed out `Finish`.
    pub open spec fn is_over(self) -> bool {
        self.pending is Finish
    }

    /// One round: the pending action is carried out and the copier takes the
    /// event. A run that is over stays as it is, and so does one whose event
    /// the copier does not accept.
    pub open spec fn advance(self) -> Run {
        let (world, event) = self.world.respond(self.pending);
        if self.is_over() || !self.copier.accepts(event) {
            self
        } else {
            Run {
                copier: self.copier.after(event),
                pending: self.copier.action_on(event),
                world,
            }
        }
    }

    /// `rounds` rounds.
    pub open spec fn advance_by(self, rounds: nat) -> Run
        decreases rounds,
    {
        if rounds == 0 {
            self
        } else {
            self.advance().advance_by((rounds - 1) as nat)
        }
    }
}

/// The rounds that the first `count` entries of the directory `dir` take.
pub open spec fn rounds_of_entries(dir: Tree, count: nat) -> nat
    decreases dir, 0nat, count,
{
    if count == 0 || count > dir.entries().len() {
        0
    } else {
        rounds_of_entries(dir, (count - 1) as nat) + rounds_of_entry(dir.entries()[count - 1].1)
    }
}

/// The rounds that one entry takes: two for a file (found, copied), and for a
/// directory four (found, created, opened, exhausted) beside those of its
/// entries.
pub open spec fn rounds_of_entry(entry: Tree) -> nat
    decreases entry, 1nat, 0nat,
{
    match entry {
        Tree::File(_) => 2,
        Tree::Dir(entries) => 4 + rounds_of_entries(entry, entries.len()),
    }
}

/// The rounds that copying the directory `source` takes.
pub open spec fn rounds_of_copy(source: Tree) -> nat {
    3 + rounds_of_entries(source, source.entries().len())
}

} // verus!

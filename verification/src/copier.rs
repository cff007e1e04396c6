//! The decisions of a recursive directory copy, as a state machine.
//!
//! A [`Copier`] never touches a file system. It hands out one [`Action`] at a
//! time; the caller carries it out and reports what came of it as an
//! [`Event`]. Paths are sequences of entry names, relative to the source root
//! (for reading) and to the destination root (for writing).

use vstd::prelude::*;

verus! {

/// `std::io::Error`, carried through unopened: the copier hands a reported
/// error back to the caller as it got it and reads nothing from it.
#[verifier::external_type_specification]
#[verifier::external_body]
pub struct ExIoError(std::io::Error);

/// The names of a path, each as a sequence of characters.
pub open spec fn names(path: Seq<String>) -> Seq<Seq<char>> {
    path.map_values(|name: String| name@)
}

/// What the caller reports after carrying out an action.
pub enum Event {
    /// The directory was created, the directory was opened, or the file was
    /// copied.
    Done,
    /// The directory being read has a further entry, of this name.
    Entry { name: String, is_dir: bool },
    /// The directory being read has no further entry; the caller has closed it.
    EndOfDir,
    /// The action failed.
    Failed(std::io::Error),
}

/// An [`Event`] as contracts see it.
pub enum EventModel {
    Done,
    Entry { name: Seq<char>, is_dir: bool },
    EndOfDir,
    Failed(std::io::Error),
}

impl View for Event {
    type V = EventModel;

    open spec fn view(&self) -> EventModel {
        match *self {
            Event::Done => EventModel::Done,
            Event::Entry { name, is_dir } => EventModel::Entry { name: name@, is_dir },
            Event::EndOfDir => EventModel::EndOfDir,
            Event::Failed(error) => EventModel::Failed(error),
        }
    }
}

/// What the caller is to do next.
pub enum Action {
    /// Make sure that the destination holds a directory at this path,
    /// creating it and every missing ancestor.
    CreateDirAll(Vec<String>),
    /// Open the source directory at this path for reading; it becomes the
    /// directory being read until its entries run out.
    ReadDir(Vec<String>),
    /// Fetch the next entry of the directory being read.
    NextEntry,
    /// Copy the bytes of the source file at this path to the same path in the
    /// destination, replacing a file that is there.
    CopyFile(Vec<String>),
    /// The copy is over, with this outcome.
    Finish(Result<(), std::io::Error>),
}

/// An [`Action`] as contracts see it.
pub enum ActionModel {
    CreateDirAll(Seq<Seq<char>>),
    ReadDir(Seq<Seq<char>>),
    NextEntry,
    CopyFile(Seq<Seq<char>>),
    Finish(Result<(), std::io::Error>),
}

impl View for Action {
    type V = ActionModel;

    open spec fn view(&self) -> ActionModel {
        match *self {
            Action::CreateDirAll(path) => ActionModel::CreateDirAll(names(path@)),
            Action::ReadDir(path) => ActionModel::ReadDir(names(path@)),
            Action::NextEntry => ActionModel::NextEntry,
            Action::CopyFile(path) => ActionModel::CopyFile(names(path@)),
            Action::Finish(outcome) => ActionModel::Finish(outcome),
        }
    }
}

impl ActionModel {
    /// Whether `event` can report how carrying out this action went.
    pub open spec fn answered_by(self, event: EventModel) -> bool {
        match self {
            ActionModel::NextEntry => event is Entry || event is EndOfDir || event is Failed,
            ActionModel::Finish(_) => false,
            _ => event is Done || event is Failed,
        }
    }
}

/// Which answer the copier is waiting for.
#[derive(Clone, Copy, PartialEq, Eq, Structural, Debug)]
pub enum Phase {
    /// `CreateDirAll` of the current directory is out.
    Creating,
    /// `ReadDir` of the current directory is out.
    Opening,
    /// `NextEntry` is out: the current directory is being read.
    Listing,
    /// `CopyFile` of an entry of the current directory is out.
    Copying,
    /// `Finish` was handed out; no further event is taken.
    Finished,
}

/// A [`Copier`] as contracts see it.
pub struct CopierModel {
    /// The directory the copy is working in, relative to both roots.
    pub dir: Seq<Seq<char>>,
    pub phase: Phase,
}

impl CopierModel {
    /// The copier before its first event, with `first_action()` handed out.
    pub open spec fn initial() -> CopierModel {
        CopierModel { dir: Seq::empty(), phase: Phase::Creating }
    }

    /// The action that starts a copy: create the destination root.
    pub open spec fn first_action() -> ActionModel {
        ActionModel::CreateDirAll(Seq::empty())
    }

    /// Whether `event` answers the action that is out.
    pub open spec fn accepts(self, event: EventModel) -> bool {
        match event {
            EventModel::Done => self.phase == Phase::Creating || self.phase == Phase::Opening
                || self.phase == Phase::Copying,
            EventModel::Entry { .. } => self.phase == Phase::Listing,
            EventModel::EndOfDir => self.phase == Phase::Listing,
            EventModel::Failed(_) => self.phase != Phase::Finished,
        }
    }

    /// The state after `event`.
    ///
    /// A failure ends the copy where it stands. A created directory is opened
    /// next, and an opened one is read. An entry that is a directory becomes
    /// the current directory; any other entry is copied as a file while the
    /// current directory stays. When the entries run out the copy goes back
    /// to the parent directory, or ends if the directory was the root.
    pub open spec fn after(self, event: EventModel) -> CopierModel {
        match event {
            EventModel::Done => CopierModel {
                dir: self.dir,
                phase: if self.phase == Phase::Creating {
                    Phase::Opening
                } else {
                    Phase::Listing
                },
            },
            EventModel::Entry { name, is_dir } => if is_dir {
                CopierModel { dir: self.dir.push(name), phase: Phase::Creating }
            } else {
                CopierModel { dir: self.dir, phase: Phase::Copying }
            },
            EventModel::EndOfDir => if self.dir.len() == 0 {
                CopierModel { dir: self.dir, phase: Phase::Finished }
            } else {
                CopierModel { dir: self.dir.drop_last(), phase: Phase::Listing }
            },
            EventModel::Failed(_) => CopierModel { dir: self.dir, phase: Phase::Finished },
        }
    }

    /// The action handed out in answer to `event`.
    pub open spec fn action_on(self, event: EventModel) -> ActionModel {
        match event {
            EventModel::Done => if self.phase == Phase::Creating {
                ActionModel::ReadDir(self.dir)
            } else {
                ActionModel::NextEntry
            },
            EventModel::Entry { name, is_dir } => if is_dir {
                ActionModel::CreateDirAll(self.dir.push(name))
            } else {
                ActionModel::CopyFile(self.dir.push(name))
            },
            EventModel::EndOfDir => if self.dir.len() == 0 {
                ActionModel::Finish(Ok(()))
            } else {
                ActionModel::NextEntry
            },
            EventModel::Failed(error) => ActionModel::Finish(Err(error)),
        }
    }
}

/// At the start the copier accepts exactly the events that answer its first
/// action.
pub proof fn law_start_accepts_the_answers()
    ensures
        forall|next: EventModel|
            CopierModel::first_action().answered_by(next) <==> CopierModel::initial().accepts(next),
{
}

/// After an event that it accepted, the copier accepts exactly the events
/// that answer the action it handed out.
pub proof fn law_step_accepts_the_answers(state: CopierModel, event: EventModel)
    requires
        state.accepts(event),
    ensures
        forall|next: EventModel|
            state.action_on(event).answered_by(next) <==> state.after(event).accepts(next),
{
}

/// A failure is accepted whenever the copy is not over, and ends it: the
/// copier hands the error back and accepts no further event.
pub proof fn law_failure_is_final(state: CopierModel, error: std::io::Error)
    requires
        state.phase != Phase::Finished,
    ensures
        state.accepts(EventModel::Failed(error)),
        state.action_on(EventModel::Failed(error)) == ActionModel::Finish(Err(error)),
        forall|next: EventModel| !state.after(EventModel::Failed(error)).accepts(next),
{
}

/// A copy of `path`, name by name.
fn clone_path(path: &Vec<String>) -> (copy: Vec<String>)
    ensures
        copy@ == path@,
{
    let mut copy: Vec<String> = Vec::new();
    let mut i: usize = 0;
    while i < path.len()
        invariant
            i <= path.len(),
            copy@ == path@.take(i as int),
        decreases path.len() - i,
    {
        copy.push(path[i].clone());
        assert(path@.take(i + 1) == path@.take(i as int).push(path@[i as int]));
        i = i + 1;
    }
    assert(path@.take(path@.len() as int) == path@);
    copy
}

/// The state of one recursive copy.
pub struct Copier {
    dir: Vec<String>,
    phase: Phase,
}

impl View for Copier {
    type V = CopierModel;

    closed spec fn view(&self) -> CopierModel {
        CopierModel { dir: names(self.dir@), phase: self.phase }
    }
}

impl Copier {
    /// Starts a copy: the copier, and the first action to carry out.
    pub fn start() -> (begun: (Copier, Action))
        ensures
            begun.0@ == CopierModel::initial(),
            begun.1@ == CopierModel::first_action(),
            forall|next: EventModel| begun.1@.answered_by(next) <==> begun.0@.accepts(next),
    {
        let copier = Copier { dir: Vec::new(), phase: Phase::Creating };
        let action = Action::CreateDirAll(Vec::new());
        assert(names(Seq::<String>::empty()) =~= Seq::<Seq<char>>::empty());
        (copier, action)
    }

    /// Whether the copy is over.
    pub fn is_finished(&self) -> (finished: bool)
        ensures
            finished == (self@.phase == Phase::Finished),
    {
        self.phase == Phase::Finished
    }

    /// Whether `event` answers the action that is out.
    pub fn accepts(&self, event: &Event) -> (accepted: bool)
        ensures
            accepted == self@.accepts(event@),
    {
        match event {
            Event::Done => self.phase == Phase::Creating || self.phase == Phase::Opening
                || self.phase == Phase::Copying,
            Event::Entry { .. } => self.phase == Phase::Listing,
            Event::EndOfDir => self.phase == Phase::Listing,
            Event::Failed(_) => self.phase != Phase::Finished,
        }
    }

    /// Takes the answer to the action that is out and hands out the next one.
    pub fn step(&mut self, event: Event) -> (action: Action)
        requires
            old(self)@.accepts(event@),
        ensures
            final(self)@ == old(self)@.after(event@),
            action@ == old(self)@.action_on(event@),
            forall|next: EventModel| action@.answered_by(next) <==> final(self)@.accepts(next),
    {
        match event {
            Event::Done => {
                if self.phase == Phase::Creating {
                    self.phase = Phase::Opening;
                    Action::ReadDir(clone_path(&self.dir))
                } else {
                    self.phase = Phase::Listing;
                    Action::NextEntry
                }
            },
            Event::Entry { name, is_dir } => {
                let mut target = clone_path(&self.dir);
                proof {
                    assert(names(target@.push(name)) =~= names(target@).push(name@));
                }
                if is_dir {
                    self.dir.push(name.clone());
                    self.phase = Phase::Creating;
                    target.push(name);
                    Action::CreateDirAll(target)
                } else {
                    self.phase = Phase::Copying;
                    target.push(name);
                    Action::CopyFile(target)
                }
            },
            Event::EndOfDir => {
                if self.dir.len() == 0 {
                    self.phase = Phase::Finished;
                    Action::Finish(Ok(()))
                } else {
                    proof {
                        assert(names(self.dir@.drop_last()) =~= names(self.dir@).drop_last());
                    }
                    self.dir.pop();
                    self.phase = Phase::Listing;
                    Action::NextEntry
                }
            },
            Event::Failed(error) => {
                self.phase = Phase::Finished;
                Action::Finish(Err(error))
            },
        }
    }
}

} // verus!

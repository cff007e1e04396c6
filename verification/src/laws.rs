//! What a whole copy does, proved of the copier run against a [`World`].
//!
//! A `World` takes every write to the destination and lists every source
//! directory without error, so these laws say what the copier's decisions
//! amount to when nothing fails on the way. What a failure does is said by
//! `law_failure_is_final` of the copier.

use vstd::prelude::*;
use crate::copier::{
    law_start_accepts_the_answers,
    law_step_accepts_the_answers,
    ActionModel,
    CopierModel,
    EventModel,
    Phase,
};
use crate::run_lemmas::{lemma_advance_by_one, lemma_advance_by_sum, lemma_entries_run, listing};
use crate::tree::{copied, with_dirs, Node, Tree};
use crate::tree_lemmas::lemma_copied_at_root;
use crate::world::{rounds_of_copy, rounds_of_entries, Run, World};

verus! {

/// The run that copies the directory `source` into `destination`, after the
/// rounds that the copy takes.
pub open spec fn copy_of(
    source: Tree,
    destination: Map<Seq<Seq<char>>, Node>,
    fault: std::io::Error,
) -> Run {
    Run::begin(Some(source), destination, fault).advance_by(rounds_of_copy(source))
}

/// A run is in step when the copier accepts exactly the events that answer
/// the pending action.
pub open spec fn in_step(run: Run) -> bool {
    forall|event: EventModel| run.pending.answered_by(event) <==> run.copier.accepts(event)
}

/// A run starts in step.
pub proof fn law_begin_in_step(
    source: Option<Tree>,
    destination: Map<Seq<Seq<char>>, Node>,
    fault: std::io::Error,
)
    ensures
        in_step(Run::begin(source, destination, fault)),
{
    law_start_accepts_the_answers();
}

/// A run in step stays in step, and while it is not over each round makes
/// the copier take what the world reports: no such run is stuck.
pub proof fn law_advance_in_step(run: Run)
    requires
        in_step(run),
    ensures
        in_step(run.advance()),
        !run.is_over() ==> run.copier.accepts(run.world.respond(run.pending).1),
{
    let event = run.world.respond(run.pending).1;
    if !run.is_over() {
        assert(run.pending.answered_by(event));
        law_step_accepts_the_answers(run.copier, event);
    }
}

/// A run that is over stays as it is, however many rounds follow.
pub proof fn law_over_is_final(run: Run, rounds: nat)
    requires
        run.is_over(),
    ensures
        run.advance_by(rounds) == run,
    decreases rounds,
{
    if rounds > 0 {
        law_over_is_final(run, (rounds - 1) as nat);
    }
}

/// Copying a directory tree ends in success after `rounds_of_copy(source)`
/// rounds, with every source directory closed again and the source as it
/// was. The destination then holds exactly `copied(destination, source)`:
/// the tree laid over what was there.
pub proof fn law_copy_succeeds(
    source: Tree,
    destination: Map<Seq<Seq<char>>, Node>,
    fault: std::io::Error,
)
    requires
        source.is_dir(),
        source.well_formed(),
    ensures
        copy_of(source, destination, fault) == (Run {
            copier: CopierModel { dir: Seq::empty(), phase: Phase::Finished },
            pending: ActionModel::Finish(Ok(())),
            world: World {
                source: Some(source),
                destination: copied(destination, source),
                open_dirs: Seq::empty(),
                fault,
            },
        }),
{
    let root = Seq::<Seq<char>>::empty();
    let none = Seq::<Seq<(Seq<char>, Tree)>>::empty();
    let entries = source.entries();
    let inside = rounds_of_entries(source, entries.len());
    let start = Run::begin(Some(source), destination, fault);
    let created = Run {
        copier: CopierModel { dir: root, phase: Phase::Opening },
        pending: ActionModel::ReadDir(root),
        world: World {
            source: Some(source),
            destination: with_dirs(destination, root),
            open_dirs: none,
            fault,
        },
    };
    let opened = listing(source, root, none, entries, with_dirs(destination, root), fault);
    let read = listing(source, root, none, Seq::empty(), copied(destination, source), fault);
    let done = Run {
        copier: CopierModel { dir: root, phase: Phase::Finished },
        pending: ActionModel::Finish(Ok(())),
        world: World {
            source: Some(source),
            destination: copied(destination, source),
            open_dirs: none,
            fault,
        },
    };

    assert(start.advance() == created);
    assert(created.advance() == opened);
    assert(start.advance_by(2) == opened) by {
        assert(start.advance_by(2) == created.advance_by(1));
        lemma_advance_by_one(created);
    }
    lemma_entries_run(source, root, source, entries.len(), none, destination, fault);
    assert(entries.skip(entries.len() as int) =~= Seq::empty());
    assert(entries.take(entries.len() as int) =~= entries);
    lemma_copied_at_root(destination, source);
    assert(opened.advance_by(inside) == read);
    assert(read.advance() == done) by {
        assert(none.push(Seq::<(Seq<char>, Tree)>::empty()).drop_last() =~= none);
    }
    lemma_advance_by_one(read);
    lemma_advance_by_sum(start, 2, inside);
    lemma_advance_by_sum(start, 2 + inside, 1);
}

/// After a copy, whatever the source holds at a path stands at the same path
/// in the destination: a directory as a directory, a file with the same
/// bytes.
pub proof fn law_copy_holds_source(
    source: Tree,
    destination: Map<Seq<Seq<char>>, Node>,
    fault: std::io::Error,
    path: Seq<Seq<char>>,
)
    requires
        source.is_dir(),
        source.well_formed(),
        source.at(path) is Some,
    ensures
        copy_of(source, destination, fault).world.destination.contains_key(path),
        copy_of(source, destination, fault).world.destination[path] == source.at(
            path,
        )->Some_0.node(),
{
    law_copy_succeeds(source, destination, fault);
}

/// A copy removes nothing: where the source holds nothing, the destination
/// is as it was.
pub proof fn law_copy_keeps_the_rest(
    source: Tree,
    destination: Map<Seq<Seq<char>>, Node>,
    fault: std::io::Error,
    path: Seq<Seq<char>>,
)
    requires
        source.is_dir(),
        source.well_formed(),
        source.at(path) is None,
    ensures
        copy_of(source, destination, fault).world.destination.contains_key(path)
            == destination.contains_key(path),
        destination.contains_key(path) ==> copy_of(
            source,
            destination,
            fault,
        ).world.destination[path] == destination[path],
{
    law_copy_succeeds(source, destination, fault);
}

/// Copying the same tree a second time changes nothing in the destination.
pub proof fn law_copy_twice(
    source: Tree,
    destination: Map<Seq<Seq<char>>, Node>,
    fault: std::io::Error,
)
    requires
        source.is_dir(),
        source.well_formed(),
    ensures
        copy_of(
            source,
            copy_of(source, destination, fault).world.destination,
            fault,
        ).world.destination == copy_of(source, destination, fault).world.destination,
{
    let once = copied(destination, source);
    law_copy_succeeds(source, destination, fault);
    law_copy_succeeds(source, once, fault);
    assert(copied(once, source) =~= once);
}

/// Where the source is missing, or is no directory, the destination root is
/// created all the same; the copy then fails with the error of opening the
/// source, after two rounds.
pub proof fn law_unreadable_source(
    source: Option<Tree>,
    destination: Map<Seq<Seq<char>>, Node>,
    fault: std::io::Error,
)
    requires
        source is None || !source->Some_0.is_dir(),
    ensures
        Run::begin(source, destination, fault).advance_by(2) == (Run {
            copier: CopierModel { dir: Seq::empty(), phase: Phase::Finished },
            pending: ActionModel::Finish(Err(fault)),
            world: World {
                source,
                destination: destination.insert(Seq::empty(), Node::Dir),
                open_dirs: Seq::empty(),
                fault,
            },
        }),
{
    let root = Seq::<Seq<char>>::empty();
    let start = Run::begin(source, destination, fault);
    assert(with_dirs(destination, root) =~= destination.insert(root, Node::Dir)) by {
        assert forall|q: Seq<Seq<char>>| #[trigger] q.is_prefix_of(root) <==> q == root by {
            if q.len() == 0 {
                assert(q =~= root);
                assert(q =~= root.subrange(0, 0));
            }
        }
    }
    let created = start.advance();
    assert(created.pending == ActionModel::ReadDir(root));
    assert(created.world.source_at(root) == source);
    lemma_advance_by_one(created);
    assert(start.advance_by(2) == created.advance_by(1));
}

} // verus!

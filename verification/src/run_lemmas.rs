//! How a run moves through a directory of the source, entry by entry.

use vstd::prelude::*;
use crate::copier::{ActionModel, CopierModel, Phase};
use crate::tree::{copied_at, with_dirs, Node, Tree};
use crate::tree_lemmas::{
    lemma_at_push,
    lemma_copied_empty_dir,
    lemma_copied_file,
    lemma_copied_next_entry,
    lemma_entry_named_some,
};
use crate::world::{rounds_of_entries, rounds_of_entry, Run, World};

verus! {

/// A run that is reading the source directory at `dir`, with `remaining`
/// still to come from it and `outer` open around it.
pub open spec fn listing(
    source: Tree,
    dir: Seq<Seq<char>>,
    outer: Seq<Seq<(Seq<char>, Tree)>>,
    remaining: Seq<(Seq<char>, Tree)>,
    destination: Map<Seq<Seq<char>>, Node>,
    fault: std::io::Error,
) -> Run {
    Run {
        copier: CopierModel { dir, phase: Phase::Listing },
        pending: ActionModel::NextEntry,
        world: World { source: Some(source), destination, open_dirs: outer.push(remaining), fault },
    }
}

/// Rounds add up.
pub proof fn lemma_advance_by_sum(run: Run, first: nat, second: nat)
    ensures
        run.advance_by(first + second) == run.advance_by(first).advance_by(second),
    decreases first,
{
    if first > 0 {
        lemma_advance_by_sum(run.advance(), (first - 1) as nat, second);
        assert((first + second - 1) as nat == (first - 1) as nat + second);
    }
}

/// One round is one `advance`.
pub proof fn lemma_advance_by_one(run: Run)
    ensures
        run.advance_by(1) == run.advance(),
{
    assert(run.advance().advance_by(0) == run.advance());
}

/// Reading the first `count` entries of a directory that was just opened
/// copies them, and leaves the others to come.
pub proof fn lemma_entries_run(
    source: Tree,
    dir: Seq<Seq<char>>,
    tree: Tree,
    count: nat,
    outer: Seq<Seq<(Seq<char>, Tree)>>,
    destination: Map<Seq<Seq<char>>, Node>,
    fault: std::io::Error,
)
    requires
        source.at(dir) == Some(tree),
        tree.is_dir(),
        tree.well_formed(),
        count <= tree.entries().len(),
    ensures
        listing(
            source,
            dir,
            outer,
            tree.entries(),
            with_dirs(destination, dir),
            fault,
        ).advance_by(rounds_of_entries(tree, count)) == listing(
            source,
            dir,
            outer,
            tree.entries().skip(count as int),
            copied_at(destination, Tree::Dir(tree.entries().take(count as int)), dir),
            fault,
        ),
    decreases tree, 0nat, count,
{
    let entries = tree.entries();
    let start = listing(source, dir, outer, entries, with_dirs(destination, dir), fault);
    if count == 0 {
        lemma_copied_empty_dir(destination, dir);
        assert(entries.skip(0) =~= entries);
        assert(entries.take(0) =~= Seq::empty());
    } else {
        let index = count - 1;
        let sofar = copied_at(destination, Tree::Dir(entries.take(index)), dir);
        lemma_entries_run(source, dir, tree, index as nat, outer, destination, fault);
        lemma_entry_run(source, dir, tree, index, outer, sofar, fault);
        lemma_copied_next_entry(destination, entries, index, dir);
        lemma_advance_by_sum(
            start,
            rounds_of_entries(tree, index as nat),
            rounds_of_entry(entries[index].1),
        );
    }
}

/// Reading one entry of a directory copies it to the path of that name under
/// the directory, and leaves the entries after it to come.
pub proof fn lemma_entry_run(
    source: Tree,
    dir: Seq<Seq<char>>,
    tree: Tree,
    index: int,
    outer: Seq<Seq<(Seq<char>, Tree)>>,
    destination: Map<Seq<Seq<char>>, Node>,
    fault: std::io::Error,
)
    requires
        source.at(dir) == Some(tree),
        tree.is_dir(),
        tree.well_formed(),
        0 <= index < tree.entries().len(),
    ensures
        listing(
            source,
            dir,
            outer,
            tree.entries().skip(index),
            destination,
            fault,
        ).advance_by(rounds_of_entry(tree.entries()[index].1)) == listing(
            source,
            dir,
            outer,
            tree.entries().skip(index + 1),
            copied_at(destination, tree.entries()[index].1, dir.push(tree.entries()[index].0)),
            fault,
        ),
    decreases tree.entries()[index].1, 1nat, 0nat,
{
    let entries = tree.entries();
    let name = entries[index].0;
    let entry = entries[index].1;
    let below = dir.push(name);
    let rest = entries.skip(index + 1);
    let start = listing(source, dir, outer, entries.skip(index), destination, fault);

    assert(source.at(below) == Some(entry)) by {
        lemma_at_push(source, dir, name);
        lemma_entry_named_some(entries, index);
    }
    assert(entries.skip(index)[0] == entries[index]);
    assert(entries.skip(index).skip(1) =~= rest);
    assert(outer.push(entries.skip(index)).drop_last() =~= outer);

    match entry {
        Tree::File(bytes) => {
            let found = Run {
                copier: CopierModel { dir, phase: Phase::Copying },
                pending: ActionModel::CopyFile(below),
                world: World {
                    source: Some(source),
                    destination,
                    open_dirs: outer.push(rest),
                    fault,
                },
            };
            assert(start.advance() == found);
            lemma_copied_file(destination, bytes, below);
            assert(found.advance() == listing(
                source,
                dir,
                outer,
                rest,
                copied_at(destination, entry, below),
                fault,
            ));
            lemma_advance_by_one(found);
            assert(start.advance_by(2) == start.advance().advance_by(1));
        },
        Tree::Dir(inner) => {
            let around = outer.push(rest);
            let found = Run {
                copier: CopierModel { dir: below, phase: Phase::Creating },
                pending: ActionModel::CreateDirAll(below),
                world: World { source: Some(source), destination, open_dirs: around, fault },
            };
            let created = Run {
                copier: CopierModel { dir: below, phase: Phase::Opening },
                pending: ActionModel::ReadDir(below),
                world: World {
                    source: Some(source),
                    destination: with_dirs(destination, below),
                    open_dirs: around,
                    fault,
                },
            };
            let opened = listing(source, below, around, inner, with_dirs(destination, below), fault);
            let read = listing(
                source,
                below,
                around,
                Seq::empty(),
                copied_at(destination, entry, below),
                fault,
            );
            let closed = listing(
                source,
                dir,
                outer,
                rest,
                copied_at(destination, entry, below),
                fault,
            );
            let inside = rounds_of_entries(entry, inner.len());

            assert(start.advance() == found);
            assert(found.advance() == created);
            assert(created.advance() == opened);
            assert(start.advance_by(3) == opened) by {
                assert(start.advance_by(3) == found.advance_by(2));
                assert(found.advance_by(2) == created.advance_by(1));
                lemma_advance_by_one(created);
            }
            assert(entries[index].1.well_formed());
            lemma_entries_run(source, below, entry, inner.len(), around, destination, fault);
            assert(inner.skip(inner.len() as int) =~= Seq::empty());
            assert(inner.take(inner.len() as int) =~= inner);
            assert(opened.advance_by(inside) == read);
            assert(read.advance() == closed) by {
                assert(around.push(Seq::<(Seq<char>, Tree)>::empty()).drop_last() =~= around);
                assert(below.drop_last() =~= dir);
            }
            lemma_advance_by_one(read);
            lemma_advance_by_sum(start, 3, inside);
            lemma_advance_by_sum(start, 3 + inside, 1);
        },
    }
}

} // verus!

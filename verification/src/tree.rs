//! Directory trees and destinations as mathematical values.
//!
//! A [`Tree`] is what a source holds: a file with its bytes, or a directory
//! with its entries in the order in which the file system lists them. A
//! destination is a map from paths to what stands there ([`Node`]).

use vstd::prelude::*;

verus! {

/// What stands at one path of a destination.
pub enum Node {
    File(Seq<u8>),
    Dir,
}

/// A file, or a directory with its named entries in listing order.
pub enum Tree {
    File(Seq<u8>),
    Dir(Seq<(Seq<char>, Tree)>),
}

/// The entry of `entries` that bears `name` (the last one, should several
/// bear it).
pub open spec fn entry_named(entries: Seq<(Seq<char>, Tree)>, name: Seq<char>) -> Option<Tree>
    decreases entries.len(),
{
    if entries.len() == 0 {
        None
    } else if entries.last().0 == name {
        Some(entries.last().1)
    } else {
        entry_named(entries.drop_last(), name)
    }
}

/// No two of `entries` bear the same name.
pub open spec fn distinct_names(entries: Seq<(Seq<char>, Tree)>) -> bool {
    forall|i: int, j: int|
        0 <= i < j < entries.len() ==> (#[trigger] entries[i]).0 != (#[trigger] entries[j]).0
}

impl Tree {
    pub open spec fn is_dir(self) -> bool {
        self is Dir
    }

    /// The entries of a directory; a file has none.
    pub open spec fn entries(self) -> Seq<(Seq<char>, Tree)> {
        match self {
            Tree::File(_) => Seq::empty(),
            Tree::Dir(entries) => entries,
        }
    }

    /// What a destination holds once this tree stands at one of its paths.
    pub open spec fn node(self) -> Node {
        match self {
            Tree::File(bytes) => Node::File(bytes),
            Tree::Dir(_) => Node::Dir,
        }
    }

    /// Within every directory of the tree, each name occurs once.
    pub open spec fn well_formed(self) -> bool
        decreases self,
    {
        match self {
            Tree::File(_) => true,
            Tree::Dir(entries) => distinct_names(entries) && forall|i: int|
                0 <= i < entries.len() ==> (#[trigger] entries[i]).1.well_formed(),
        }
    }

    /// What is found by following `path` down from this tree, if anything.
    pub open spec fn at(self, path: Seq<Seq<char>>) -> Option<Tree>
        decreases path.len(),
    {
        if path.len() == 0 {
            Some(self)
        } else {
            match entry_named(self.entries(), path[0]) {
                Some(entry) => entry.at(path.skip(1)),
                None => None,
            }
        }
    }
}

/// `destination` after every missing directory on the way to `path`, and at
/// `path` itself, has been created.
pub open spec fn with_dirs(destination: Map<Seq<Seq<char>>, Node>, path: Seq<Seq<char>>) -> Map<
    Seq<Seq<char>>,
    Node,
> {
    Map::new(
        |q: Seq<Seq<char>>| destination.contains_key(q) || q.is_prefix_of(path),
        |q: Seq<Seq<char>>|
            if q.is_prefix_of(path) {
                Node::Dir
            } else {
                destination[q]
            },
    )
}

/// Whether copying `tree` to `path` writes at `q`: at the directories that
/// lead to a copied directory, and at everything of `tree`, each under `path`.
pub open spec fn written(tree: Tree, path: Seq<Seq<char>>, q: Seq<Seq<char>>) -> bool {
    (tree.is_dir() && q.is_prefix_of(path)) || (path.is_prefix_of(q) && tree.at(
        q.skip(path.len() as int),
    ) is Some)
}

/// `destination` after `tree` has been copied to `path`: what the copy
/// writes stands as in `tree`, and everything else is as it was.
pub open spec fn copied_at(
    destination: Map<Seq<Seq<char>>, Node>,
    tree: Tree,
    path: Seq<Seq<char>>,
) -> Map<Seq<Seq<char>>, Node> {
    Map::new(
        |q: Seq<Seq<char>>| destination.contains_key(q) || written(tree, path, q),
        |q: Seq<Seq<char>>|
            if path.is_prefix_of(q) && tree.at(q.skip(path.len() as int)) is Some {
                tree.at(q.skip(path.len() as int))->Some_0.node()
            } else if tree.is_dir() && q.is_prefix_of(path) {
                Node::Dir
            } else {
                destination[q]
            },
    )
}

/// `destination` after `tree` has been copied onto its root.
pub open spec fn copied(destination: Map<Seq<Seq<char>>, Node>, tree: Tree) -> Map<
    Seq<Seq<char>>,
    Node,
> {
    Map::new(
        |q: Seq<Seq<char>>| destination.contains_key(q) || tree.at(q) is Some,
        |q: Seq<Seq<char>>|
            match tree.at(q) {
                Some(found) => found.node(),
                None => destination[q],
            },
    )
}

} // verus!

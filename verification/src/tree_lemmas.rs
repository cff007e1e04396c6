//! Facts about trees and about what a copy leaves in a destination.

use vstd::prelude::*;
use crate::tree::{copied, copied_at, distinct_names, entry_named, with_dirs, Node, Tree};

verus! {

/// A name that no entry bears finds nothing.
pub proof fn lemma_entry_named_none(entries: Seq<(Seq<char>, Tree)>, name: Seq<char>)
    requires
        forall|i: int| 0 <= i < entries.len() ==> (#[trigger] entries[i]).0 != name,
    ensures
        entry_named(entries, name) is None,
    decreases entries.len(),
{
    if entries.len() > 0 {
        assert(entries.last() == entries[entries.len() - 1]);
        let shorter = entries.drop_last();
        assert forall|i: int| 0 <= i < shorter.len() implies (#[trigger] shorter[i]).0 != name by {
            assert(shorter[i] == entries[i]);
        }
        lemma_entry_named_none(shorter, name);
    }
}

/// Among distinct names, the name of an entry finds that entry.
pub proof fn lemma_entry_named_some(entries: Seq<(Seq<char>, Tree)>, index: int)
    requires
        distinct_names(entries),
        0 <= index < entries.len(),
    ensures
        entry_named(entries, entries[index].0) == Some(entries[index].1),
    decreases entries.len(),
{
    let last = entries.len() - 1;
    assert(entries.last() == entries[last]);
    if index < last {
        let shorter = entries.drop_last();
        assert(entries[index].0 != entries[last].0);
        assert(shorter[index] == entries[index]);
        assert forall|i: int, j: int| 0 <= i < j < shorter.len() implies (#[trigger] shorter[i]).0
            != (#[trigger] shorter[j]).0 by {
            assert(shorter[i] == entries[i]);
            assert(shorter[j] == entries[j]);
        }
        lemma_entry_named_some(shorter, index);
    }
}

/// One more name at the end of a path looks among the entries of what the
/// path leads to.
pub proof fn lemma_at_push(tree: Tree, path: Seq<Seq<char>>, name: Seq<char>)
    ensures
        tree.at(path.push(name)) == match tree.at(path) {
            Some(found) => entry_named(found.entries(), name),
            None => None,
        },
    decreases path.len(),
{
    let longer = path.push(name);
    if path.len() == 0 {
        assert(longer[0] == name);
        assert(longer.skip(1).len() == 0);
        match entry_named(tree.entries(), name) {
            Some(entry) => {
                assert(entry.at(longer.skip(1)) == Some(entry));
            },
            None => {},
        }
    } else {
        assert(longer[0] == path[0]);
        assert(longer.skip(1) =~= path.skip(1).push(name));
        match entry_named(tree.entries(), path[0]) {
            Some(entry) => {
                lemma_at_push(entry, path.skip(1), name);
            },
            None => {},
        }
    }
}

/// Creating a directory and its ancestors is copying an empty directory.
pub proof fn lemma_copied_empty_dir(
    destination: Map<Seq<Seq<char>>, Node>,
    path: Seq<Seq<char>>,
)
    ensures
        with_dirs(destination, path) == copied_at(destination, Tree::Dir(Seq::empty()), path),
{
    let empty = Tree::Dir(Seq::empty());
    assert forall|q: Seq<Seq<char>>| path.is_prefix_of(q) implies (#[trigger] empty.at(
        q.skip(path.len() as int),
    ) is Some <==> q.is_prefix_of(path)) by {
        let rest = q.skip(path.len() as int);
        if rest.len() == 0 {
            assert(q =~= path);
        } else {
            assert(entry_named(empty.entries(), rest[0]) is None);
        }
    }
    assert(with_dirs(destination, path) =~= copied_at(destination, empty, path));
}

/// Writing one file is copying a file.
pub proof fn lemma_copied_file(
    destination: Map<Seq<Seq<char>>, Node>,
    bytes: Seq<u8>,
    path: Seq<Seq<char>>,
)
    ensures
        destination.insert(path, Node::File(bytes)) == copied_at(
            destination,
            Tree::File(bytes),
            path,
        ),
{
    let file = Tree::File(bytes);
    assert forall|q: Seq<Seq<char>>| path.is_prefix_of(q) implies (#[trigger] file.at(
        q.skip(path.len() as int),
    ) is Some <==> q == path) by {
        let rest = q.skip(path.len() as int);
        if rest.len() == 0 {
            assert(q =~= path);
        } else {
            assert(entry_named(file.entries(), rest[0]) is None);
        }
    }
    assert(path.is_prefix_of(path));
    assert(path.skip(path.len() as int).len() == 0);
    assert(destination.insert(path, Node::File(bytes)) =~= copied_at(destination, file, path));
}

/// Copying onto the root writes exactly where the tree holds something.
pub proof fn lemma_copied_at_root(destination: Map<Seq<Seq<char>>, Node>, tree: Tree)
    ensures
        copied_at(destination, tree, Seq::empty()) == copied(destination, tree),
{
    let root = Seq::<Seq<char>>::empty();
    assert forall|q: Seq<Seq<char>>| #[trigger] q.skip(0) == q && root.is_prefix_of(q) by {
        assert(q.skip(0) =~= q);
    }
    assert forall|q: Seq<Seq<char>>| q.is_prefix_of(root) implies tree.at(q) is Some by {
        assert(q.len() == 0);
    }
    assert(copied_at(destination, tree, root) =~= copied(destination, tree));
}

/// Copying the first `index` entries of a directory and then the next one is
/// copying the first `index + 1`.
pub proof fn lemma_copied_next_entry(
    destination: Map<Seq<Seq<char>>, Node>,
    entries: Seq<(Seq<char>, Tree)>,
    index: int,
    path: Seq<Seq<char>>,
)
    requires
        distinct_names(entries),
        0 <= index < entries.len(),
    ensures
        copied_at(
            copied_at(destination, Tree::Dir(entries.take(index)), path),
            entries[index].1,
            path.push(entries[index].0),
        ) == copied_at(destination, Tree::Dir(entries.take(index + 1)), path),
{
    let name = entries[index].0;
    let entry = entries[index].1;
    let before = Tree::Dir(entries.take(index));
    let after = Tree::Dir(entries.take(index + 1));
    let below = path.push(name);
    let len = path.len() as int;
    let inner = copied_at(destination, before, path);
    let left = copied_at(inner, entry, below);
    let right = copied_at(destination, after, path);

    assert(entries.take(index + 1).last() == entries[index]);
    assert(entries.take(index + 1).drop_last() =~= entries.take(index));
    assert(entry_named(entries.take(index), name) is None) by {
        assert forall|i: int| 0 <= i < entries.take(index).len() implies (
        #[trigger] entries.take(index)[i]).0 != name by {
            assert(entries.take(index)[i] == entries[i]);
        }
        lemma_entry_named_none(entries.take(index), name);
    }
    assert(path.is_prefix_of(below));

    assert forall|q: Seq<Seq<char>>|
        #![trigger left.contains_key(q)]
        #![trigger right.contains_key(q)]
        left.contains_key(q) == right.contains_key(q) && (left.contains_key(q) ==> left[q]
            == right[q]) by {
        if q.is_prefix_of(path) {
            assert(q.is_prefix_of(below));
            assert(!below.is_prefix_of(q));
            if path.is_prefix_of(q) {
                assert(q.skip(len).len() == 0);
            }
        } else if path.is_prefix_of(q) {
            let rest = q.skip(len);
            assert(rest.len() > 0);
            assert(rest[0] == q[len]);
            if rest[0] == name {
                assert(below.is_prefix_of(q)) by {
                    assert(below =~= q.subrange(0, len + 1));
                }
                assert(q.skip(len + 1) =~= rest.skip(1));
                assert(after.at(rest) == entry.at(rest.skip(1)));
                assert(before.at(rest) is None);
                if q.is_prefix_of(below) {
                    assert(q =~= below);
                    assert(rest.skip(1).len() == 0);
                }
            } else {
                assert(!below.is_prefix_of(q)) by {
                    if below.is_prefix_of(q) {
                        assert(below[len] == q.subrange(0, len + 1)[len]);
                    }
                }
                assert(!q.is_prefix_of(below)) by {
                    if q.is_prefix_of(below) {
                        assert(q.len() == len + 1);
                        assert(q[len] == below.subrange(0, len + 1)[len]);
                    }
                }
                assert(after.at(rest) == before.at(rest));
            }
        } else {
            assert(!below.is_prefix_of(q)) by {
                if below.is_prefix_of(q) {
                    assert(path =~= q.subrange(0, len)) by {
                        assert forall|i: int| 0 <= i < len implies path[i] == q[i] by {
                            assert(below[i] == q.subrange(0, len + 1)[i]);
                        }
                    }
                }
            }
            assert(!q.is_prefix_of(below)) by {
                if q.is_prefix_of(below) {
                    if q.len() <= len {
                        assert(q =~= path.subrange(0, q.len() as int)) by {
                            assert forall|i: int| 0 <= i < q.len() implies q[i] == path[i] by {
                                assert(q[i] == below.subrange(0, q.len() as int)[i]);
                            }
                        }
                    } else {
                        assert(path =~= q.subrange(0, len)) by {
                            assert forall|i: int| 0 <= i < len implies path[i] == q[i] by {
                                assert(q[i] == below.subrange(0, q.len() as int)[i]);
                            }
                        }
                    }
                }
            }
        }
    }
    assert(left =~= right);
}

} // verus!

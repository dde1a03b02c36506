//! What unpacking layers does to the files of the root, as a map from the
//! path below the root to the file's contents. Each layer's entries are
//! written in archive order, and the layers in manifest order, into the same
//! root; the destination of each entry is the one `resolve_entry_path`
//! computes. Whiteout markers get no meaning of their own: like any other
//! entry, they are written as files.
use vstd::prelude::*;

use crate::paths::{join, resolve};

verus! {

/// Where an entry at `p` is written below the root, if anywhere.
pub open spec fn destination(p: Seq<u8>) -> Option<Seq<u8>> {
    match resolve(p) {
        Some(parts) => Some(join(parts)),
        None => None,
    }
}

/// The root after writing the entries `(path, contents)` in order; `None`
/// where an entry lies outside the root, which fails the whole layer.
pub open spec fn unpack_layer(
    root: Map<Seq<u8>, Seq<u8>>,
    entries: Seq<(Seq<u8>, Seq<u8>)>,
) -> Option<Map<Seq<u8>, Seq<u8>>>
    decreases entries.len(),
{
    if entries.len() == 0 {
        Some(root)
    } else {
        match unpack_layer(root, entries.drop_last()) {
            None => None,
            Some(m) => match destination(entries.last().0) {
                None => None,
                Some(d) => Some(m.insert(d, entries.last().1)),
            },
        }
    }
}

/// A layer that unpacks holds no entry outside the root.
pub proof fn lemma_unpacked_entries_inside(
    root: Map<Seq<u8>, Seq<u8>>,
    entries: Seq<(Seq<u8>, Seq<u8>)>,
    i: int,
)
    requires
        unpack_layer(root, entries) is Some,
        0 <= i < entries.len(),
    ensures
        destination(entries[i].0) is Some,
    decreases entries.len(),
{
    if i < entries.len() - 1 {
        lemma_unpacked_entries_inside(root, entries.drop_last(), i);
    }
}

/// The last entry of a layer written at a destination decides what the
/// destination holds afterwards, whatever the root held before.
pub proof fn lemma_last_write_wins(
    root: Map<Seq<u8>, Seq<u8>>,
    entries: Seq<(Seq<u8>, Seq<u8>)>,
    i: int,
)
    requires
        unpack_layer(root, entries) is Some,
        0 <= i < entries.len(),
        forall|j: int| i < j < entries.len() ==> destination(#[trigger] entries[j].0) != destination(
            entries[i].0,
        ),
    ensures
        destination(entries[i].0) is Some,
        unpack_layer(root, entries)->Some_0.contains_key(destination(entries[i].0)->Some_0),
        unpack_layer(root, entries)->Some_0[destination(entries[i].0)->Some_0] == entries[i].1,
    decreases entries.len(),
{
    lemma_unpacked_entries_inside(root, entries, i);
    if i < entries.len() - 1 {
        let prefix = entries.drop_last();
        assert forall|j: int| i < j < prefix.len() implies destination(#[trigger] prefix[j].0)
            != destination(prefix[i].0) by {
            assert(prefix[j] == entries[j]);
        }
        lemma_last_write_wins(root, prefix, i);
        lemma_unpacked_entries_inside(root, entries, entries.len() - 1);
    }
}

/// Layers overlay one another in order: where the second layer writes a
/// path that the first layer also wrote, the root ends up with the second
/// layer's contents there.
pub proof fn lemma_later_layer_wins(
    root: Map<Seq<u8>, Seq<u8>>,
    first: Seq<(Seq<u8>, Seq<u8>)>,
    second: Seq<(Seq<u8>, Seq<u8>)>,
    i: int,
)
    requires
        unpack_layer(root, first) is Some,
        unpack_layer(unpack_layer(root, first)->Some_0, second) is Some,
        0 <= i < second.len(),
        forall|j: int| i < j < second.len() ==> destination(#[trigger] second[j].0) != destination(
            second[i].0,
        ),
    ensures
        unpack_layer(unpack_layer(root, first)->Some_0, second)->Some_0[destination(
            second[i].0,
        )->Some_0] == second[i].1,
{
    lemma_last_write_wins(unpack_layer(root, first)->Some_0, second, i);
}

} // verus!

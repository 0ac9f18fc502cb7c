//! The entries of a directory.

use vstd::prelude::*;
use crate::error::{Error, ErrorView};
use crate::iso::metadata::{Metadata, metadata_views};
use crate::iso::node::{NodeView, Tree};

verus! {

/// The entries of a directory, as they were when it was read.
#[derive(Debug)]
pub struct ReadDir {
    /// The metadata of each entry.
    pub entries: Vec<Metadata>,
}

impl View for ReadDir {
    type V = Seq<NodeView>;

    open spec fn view(&self) -> Seq<NodeView> {
        metadata_views(self.entries@)
    }
}

impl ReadDir {
    /// The entries of the directory at `dir` of `tree`, which has been
    /// read.
    pub fn new(tree: &Tree, dir: usize) -> (r: Result<ReadDir, Error>)
        requires
            tree.wf(),
            dir < tree.nodes@.len(),
            tree.nodes@[dir as int].record.is_dir ==> tree.loaded(dir as int),
        ensures
            match r {
                Ok(entries) => tree.nodes@[dir as int].record.is_dir && entries@ == tree.child_nodes(dir as int),
                Err(e) => !tree.nodes@[dir as int].record.is_dir && e@ == ErrorView::DirectoryExpected,
            },
    {
        let node = &tree.nodes[dir];
        if !node.record.is_dir {
            return Err(Error::DirectoryExpected);
        }
        assert(tree.node_wf(dir as int));
        match &node.contents {
            None => Err(Error::DirectoryExpected),
            Some(places) => {
                let mut entries: Vec<Metadata> = Vec::new();
                let mut k: usize = 0;
                while k < places.len()
                    invariant
                        tree.wf(),
                        dir < tree.nodes@.len(),
                        tree.loaded(dir as int),
                        places@ == tree.places(dir as int),
                        k <= places@.len(),
                        entries@.len() == k,
                        forall|j: int| 0 <= j < k ==> (#[trigger] entries@[j])@ == tree.child_nodes(dir as int)[j],
                    decreases places@.len() - k,
                {
                    assert(tree.node_wf(dir as int));
                    entries.push(Metadata::of(&tree.nodes[places[k]]));
                    k = k + 1;
                }
                let listing = ReadDir { entries };
                assert(listing@ =~= tree.child_nodes(dir as int));
                Ok(listing)
            },
        }
    }

    /// The number of entries.
    pub fn len(&self) -> (count: usize)
        ensures
            count == self@.len(),
    {
        self.entries.len()
    }

    /// The entry at `index`.
    pub fn get(&self, index: usize) -> (entry: &Metadata)
        requires
            index < self@.len(),
        ensures
            entry@ == self@[index as int],
    {
        &self.entries[index]
    }

    /// The entries, in the order in which the directory holds them.
    pub fn into_vec(self) -> (entries: Vec<Metadata>)
        ensures
            metadata_views(entries@) == self@,
    {
        self.entries
    }
}

} // verus!

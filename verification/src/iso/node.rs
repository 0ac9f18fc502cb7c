//! The tree of the directories and files that have been seen.
//!
//! The nodes of the tree live in one vector, the root first. A directory
//! whose entries have been read holds the places of its children; a
//! directory that has not been read yet, and a file, holds none.

use vstd::prelude::*;
use vstd::string::StringExecFns;
use crate::error::{Error, ErrorView};
use crate::iso::directory::{DirectoryScan, has_name, index_of_name, is_listing, lemma_index_of_name, record_views};
use crate::iso::path::{Component, ComponentView};
use crate::iso::record::{Record, RecordView};

verus! {

/// A file or a directory at its place in the tree.
#[derive(Debug)]
pub struct Node {
    /// The absolute path of the node.
    pub path: String,
    /// The directory record that describes the node.
    pub record: Record,
    /// The places in the tree of the entries of a directory that has been
    /// read.
    pub contents: Option<Vec<usize>>,
}

/// What a node is, without its place in the tree.
pub struct NodeView {
    pub path: Seq<char>,
    pub record: RecordView,
}

impl View for Node {
    type V = NodeView;

    open spec fn view(&self) -> NodeView {
        NodeView { path: self.path@, record: self.record@ }
    }
}

/// The path of the root.
pub open spec fn root_path() -> Seq<char> {
    seq!['/']
}

/// The path of the entry `name` of the directory at `parent`: the two
/// joined by a separator, unless `parent` ends in one.
pub open spec fn child_path(parent: Seq<char>, name: Seq<char>) -> Seq<char> {
    if parent.len() > 0 && parent.last() == '/' {
        parent + name
    } else {
        parent + seq!['/'] + name
    }
}

/// The node of the root directory that `record` describes.
pub open spec fn root_node(record: RecordView) -> NodeView {
    NodeView { path: root_path(), record }
}

/// The node of the entry `record` of the directory `parent`.
pub open spec fn child_node(parent: NodeView, record: RecordView) -> NodeView {
    NodeView { path: child_path(parent.path, record.name), record }
}

/// Joins the path of a directory and the name of an entry.
pub fn join(parent: &String, name: &str) -> (path: String)
    ensures
        path@ == child_path(parent@, name@),
{
    let mut path = parent.clone();
    let s = parent.as_str();
    let n = s.unicode_len();
    if !(n > 0 && s.get_char(n - 1) == '/') {
        path.append("/");
        proof {
            reveal_strlit("/");
            assert("/"@ =~= seq!['/']);
        }
    }
    path.append(name);
    path
}

impl Node {
    /// The node of the root directory that `record` describes.
    pub fn create_root(record: Record) -> (node: Node)
        ensures
            node@ == root_node(record@),
            node.record == record,
            node.contents is None,
    {
        let path = String::from_str("/");
        proof {
            reveal_strlit("/");
            assert(path@ =~= root_path());
        }
        Node { path, record, contents: None }
    }

    /// The node of the entry `record` of this directory.
    pub fn create_child(&self, record: Record) -> (node: Node)
        ensures
            node@ == child_node(self@, record@),
            node.record == record,
            node.contents is None,
    {
        let path = join(&self.path, record.name.as_str());
        Node { path, record, contents: None }
    }
}

/// The nodes that have been seen, the root first.
#[derive(Debug)]
pub struct Tree {
    pub nodes: Vec<Node>,
}

impl Tree {
    /// Whether the entries of the node at `i` have been read.
    pub open spec fn loaded(&self, i: int) -> bool {
        self.nodes@[i].contents is Some
    }

    /// The places of the entries of the node at `i`.
    pub open spec fn places(&self, i: int) -> Seq<usize> {
        self.nodes@[i].contents->Some_0@
    }

    /// The nodes of the entries of the node at `i`, in order.
    pub open spec fn child_nodes(&self, i: int) -> Seq<NodeView> {
        Seq::new(self.places(i).len(), |k: int| self.nodes@[self.places(i)[k] as int]@)
    }

    /// The records of the entries of the node at `i`, in order.
    pub open spec fn children(&self, i: int) -> Seq<RecordView> {
        Seq::new(self.places(i).len(), |k: int| self.nodes@[self.places(i)[k] as int].record@)
    }

    /// True when the node at `i` is as a node of the tree must be: only a
    /// directory holds entries; they lie behind it in the vector, their
    /// paths continue its path, none has a name of the directory itself or
    /// of its parent, and no two have the same name.
    pub open spec fn node_wf(&self, i: int) -> bool {
        self.loaded(i) ==> {
            &&& self.nodes@[i].record.is_dir
            &&& forall|k: int|
                0 <= k < self.places(i).len() ==> {
                    &&& i < #[trigger] self.places(i)[k] < self.nodes@.len()
                    &&& self.nodes@[self.places(i)[k] as int]@ == child_node(
                        self.nodes@[i]@,
                        self.nodes@[self.places(i)[k] as int].record@,
                    )
                }
            &&& is_listing(self.children(i))
        }
    }

    /// True when the tree is as a tree must be: it holds its root, whose
    /// path is `/`, and each node is as it must be.
    pub open spec fn wf(&self) -> bool {
        &&& self.nodes@.len() >= 1
        &&& self.nodes@[0].path@ == root_path()
        &&& forall|i: int| 0 <= i < self.nodes@.len() ==> #[trigger] self.node_wf(i)
    }

    /// The tree that holds only the root directory that `record` describes.
    pub fn new(record: Record) -> (tree: Tree)
        ensures
            tree.wf(),
            tree.nodes@.len() == 1,
            tree.nodes@[0]@ == root_node(record@),
            !tree.loaded(0),
    {
        let mut nodes: Vec<Node> = Vec::new();
        nodes.push(Node::create_root(record));
        let tree = Tree { nodes };
        assert(tree.node_wf(0));
        tree
    }

    /// Gives the directory at `dir`, which has not been read, the entries
    /// `listing`.
    pub fn attach(&mut self, dir: usize, listing: Vec<Record>)
        requires
            old(self).wf(),
            dir < old(self).nodes@.len(),
            old(self).nodes@[dir as int].record.is_dir,
            !old(self).loaded(dir as int),
            is_listing(record_views(listing@)),
        ensures
            final(self).wf(),
            final(self).nodes@.len() == old(self).nodes@.len() + listing@.len(),
            forall|i: int|
                0 <= i < old(self).nodes@.len() && i != dir ==> final(self).nodes@[i] == old(self).nodes@[i],
            final(self).nodes@[dir as int]@ == old(self).nodes@[dir as int]@,
            final(self).loaded(dir as int),
            final(self).children(dir as int) == record_views(listing@),
            forall|i: int| old(self).nodes@.len() <= i < final(self).nodes@.len() ==> !final(self).loaded(i),
    {
        let ghost before = self.nodes@;
        let mut places: Vec<usize> = Vec::new();
        let mut k: usize = 0;
        while k < listing.len()
            invariant
                k <= listing@.len(),
                dir < before.len(),
                before == old(self).nodes@,
                self.nodes@.len() == before.len() + k,
                places@.len() == k,
                forall|i: int| 0 <= i < before.len() ==> self.nodes@[i] == before[i],
                forall|j: int|
                    0 <= j < k ==> {
                        &&& #[trigger] places@[j] == before.len() + j
                        &&& self.nodes@[before.len() + j].contents is None
                        &&& self.nodes@[before.len() + j]@ == child_node(before[dir as int]@, listing@[j]@)
                    },
            decreases listing@.len() - k,
        {
            let child = self.nodes[dir].create_child(listing[k].duplicate());
            places.push(self.nodes.len());
            self.nodes.push(child);
            k = k + 1;
        }
        let ghost grown = self.nodes@;
        let node = Node {
            path: self.nodes[dir].path.clone(),
            record: self.nodes[dir].record.duplicate(),
            contents: Some(places),
        };
        self.nodes.set(dir, node);
        proof {
            let after = self.nodes@;
            assert(self.places(dir as int) == places@);
            assert(self.children(dir as int) =~= record_views(listing@));
            assert forall|i: int| before.len() <= i < after.len() implies !self.loaded(i) by {
                assert(after[i] == grown[i]);
                assert(places@[i - before.len()] == i);
            }
            assert forall|i: int| 0 <= i < after.len() implies #[trigger] self.node_wf(i) by {
                if i == dir {
                } else if i < before.len() {
                    assert(after[i] == before[i]);
                    assert(old(self).node_wf(i));
                    if old(self).loaded(i) {
                        assert forall|k: int| 0 <= k < self.places(i).len() implies {
                            &&& i < #[trigger] self.places(i)[k] < after.len()
                            &&& after[self.places(i)[k] as int]@ == child_node(
                                after[i]@,
                                after[self.places(i)[k] as int].record@,
                            )
                        } by {
                            let c = old(self).places(i)[k] as int;
                            assert(i < c < before.len());
                            assert(after[c]@ == before[c]@);
                        }
                        assert(self.children(i) =~= old(self).children(i)) by {
                            assert forall|k: int| 0 <= k < self.places(i).len() implies self.children(i)[k]
                                == old(self).children(i)[k] by {
                                let c = old(self).places(i)[k] as int;
                                assert(i < c < before.len());
                                assert(after[c]@ == before[c]@);
                            }
                        }
                    }
                } else {
                    assert(after[i] == grown[i]);
                    assert(places@[i - before.len()] == i);
                }
            }
        }
    }

    /// What looking for the entry `name` of the node at `dir` gives: the
    /// place of the entry, or nothing where the directory has not been read
    /// yet. It fails where the node is a file, and where the directory has
    /// been read and holds no such entry.
    pub open spec fn spec_child(&self, dir: int, name: Seq<char>) -> Result<Option<usize>, ErrorView> {
        if !self.nodes@[dir].record.is_dir {
            Err(ErrorView::DirectoryExpected)
        } else if !self.loaded(dir) {
            Ok(None)
        } else if has_name(self.children(dir), name) {
            Ok(Some(self.places(dir)[index_of_name(self.children(dir), name)]))
        } else {
            Err(ErrorView::NotFound(child_path(self.nodes@[dir].path@, name)))
        }
    }

    /// True when `stack` holds the places of a chain of nodes from the root
    /// down.
    pub open spec fn is_chain(&self, stack: Seq<usize>) -> bool {
        &&& stack.len() >= 1
        &&& stack[0] == 0
        &&& forall|k: int| 0 <= k < stack.len() ==> #[trigger] stack[k] < self.nodes@.len()
    }

    /// The nodes at the places in `stack`.
    pub open spec fn chain(&self, stack: Seq<usize>) -> Seq<NodeView> {
        Seq::new(stack.len(), |k: int| self.nodes@[stack[k] as int]@)
    }

    /// Where one step of a path leads from the node that `stack` ends in:
    /// the new stack, or nothing where the step enters a directory that has
    /// not been read yet.
    pub open spec fn spec_step(&self, stack: Seq<usize>, step: ComponentView) -> Result<
        Option<Seq<usize>>,
        ErrorView,
    > {
        match step {
            ComponentView::Prefix => Err(ErrorView::InvalidPathComponent),
            ComponentView::RootDir => Ok(Some(stack.subrange(0, 1))),
            ComponentView::CurDir => Ok(Some(stack)),
            ComponentView::ParentDir => if stack.len() <= 1 {
                Err(ErrorView::InvalidPathComponent)
            } else {
                Ok(Some(stack.drop_last()))
            },
            ComponentView::Normal(name) => match self.spec_child(stack.last() as int, name) {
                Err(e) => Err(e),
                Ok(None) => Ok(None),
                Ok(Some(place)) => Ok(Some(stack.push(place))),
            },
        }
    }

    /// Looks for the entry `name` of the node at `dir`.
    pub fn child(&self, dir: usize, name: &String) -> (r: Result<Option<usize>, Error>)
        requires
            self.wf(),
            dir < self.nodes@.len(),
        ensures
            match (r, self.spec_child(dir as int, name@)) {
                (Ok(found), Ok(want)) => found == want,
                (Err(e), Err(want_e)) => e@ == want_e,
                _ => false,
            },
            r matches Ok(Some(place)) ==> dir < place < self.nodes@.len(),
    {
        assert(self.node_wf(dir as int));
        let node = &self.nodes[dir];
        if !node.record.is_dir {
            return Err(Error::DirectoryExpected);
        }
        match &node.contents {
            None => Ok(None),
            Some(places) => {
                let ghost listing = self.children(dir as int);
                let mut k: usize = 0;
                while k < places.len()
                    invariant
                        self.wf(),
                        dir < self.nodes@.len(),
                        self.loaded(dir as int),
                        places@ == self.places(dir as int),
                        listing == self.children(dir as int),
                        is_listing(listing),
                        k <= places@.len(),
                        forall|j: int| 0 <= j < k ==> (#[trigger] listing[j]).name != name@,
                    decreases places@.len() - k,
                {
                    assert(self.node_wf(dir as int));
                    let place = places[k];
                    if self.nodes[place].record.name == *name {
                        proof {
                            assert(listing[k as int].name == name@);
                            lemma_index_of_name(listing, k as int);
                        }
                        return Ok(Some(place));
                    }
                    k = k + 1;
                }
                Err(Error::NotFound(join(&node.path, name.as_str())))
            },
        }
    }

    /// Takes one step of a path from the node that `stack` ends in. Returns
    /// `false`, and leaves `stack` as it was, where the step enters a
    /// directory that has not been read yet.
    pub fn step(&self, stack: &mut Vec<usize>, component: &Component) -> (r: Result<bool, Error>)
        requires
            self.wf(),
            self.is_chain(old(stack)@),
        ensures
            self.is_chain(final(stack)@),
            match (r, self.spec_step(old(stack)@, component@)) {
                (Ok(true), Ok(Some(next))) => final(stack)@ == next,
                (Ok(false), Ok(None)) => final(stack)@ == old(stack)@,
                (Err(e), Err(want_e)) => e@ == want_e,
                _ => false,
            },
    {
        match component {
            Component::Prefix => Err(Error::InvalidPathComponent),
            Component::RootDir => {
                stack.truncate(1);
                Ok(true)
            },
            Component::CurDir => Ok(true),
            Component::ParentDir => {
                if stack.len() <= 1 {
                    Err(Error::InvalidPathComponent)
                } else {
                    stack.pop();
                    assert(stack@ =~= old(stack)@.drop_last());
                    Ok(true)
                }
            },
            Component::Normal(name) => {
                let here = stack[stack.len() - 1];
                match self.child(here, name)? {
                    Some(place) => {
                        stack.push(place);
                        Ok(true)
                    },
                    None => Ok(false),
                }
            },
        }
    }

    /// Starts to read the entries of the node at `dir`. Returns nothing
    /// where they have been read before, and fails where the node is a
    /// file.
    pub fn begin(&self, dir: usize) -> (r: Result<Option<DirectoryScan>, Error>)
        requires
            self.wf(),
            dir < self.nodes@.len(),
        ensures
            match r {
                Ok(Some(scan)) => {
                    &&& self.nodes@[dir as int].record.is_dir
                    &&& !self.loaded(dir as int)
                    &&& scan.wf()
                    &&& scan.extent == self.nodes@[dir as int].record.extent
                    &&& scan.data_length == self.nodes@[dir as int].record.data_length
                    &&& scan.total == 0
                    &&& scan.listing@.len() == 0
                    &&& !scan.finished
                },
                Ok(None) => self.nodes@[dir as int].record.is_dir && self.loaded(dir as int),
                Err(e) => !self.nodes@[dir as int].record.is_dir && e == Error::DirectoryExpected,
            },
    {
        let node = &self.nodes[dir];
        if !node.record.is_dir {
            Err(Error::DirectoryExpected)
        } else if node.contents.is_some() {
            Ok(None)
        } else {
            Ok(Some(DirectoryScan::new(&node.record)))
        }
    }
}

} // verus!

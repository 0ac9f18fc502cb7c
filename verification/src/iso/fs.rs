//! The filesystem of an image held in memory.

use vstd::prelude::*;
use vstd::slice::slice_subrange;
use crate::error::{Error, ErrorView, IoErrorKind};
use crate::iso::directory::{DirectoryScan, has_name, index_of_name, is_listing, record_views, spec_children, spec_scan_directory};
use crate::iso::node::{NodeView, Tree, child_node, child_path, root_node};
use crate::iso::file::IsoFile;
use crate::iso::metadata::Metadata;
use crate::iso::path::{Component, ComponentView, components, spec_components, views};
use crate::iso::readdir::ReadDir;
use crate::iso::record::{Record, RecordView};
use crate::iso::volume::{FIRST_DESCRIPTOR, VolumeScan, descriptors_of, sector_of, spec_open};

verus! {

/// The entry `name` of the directory `dir`, read from `image`.
pub open spec fn spec_child(image: Seq<u8>, dir: NodeView, name: Seq<char>) -> Result<NodeView, ErrorView> {
    if !dir.record.is_dir {
        Err(ErrorView::DirectoryExpected)
    } else {
        match spec_children(image, dir.record) {
            Err(e) => Err(e@),
            Ok(listing) => if has_name(listing, name) {
                Ok(child_node(dir, listing[index_of_name(listing, name)]))
            } else {
                Err(ErrorView::NotFound(child_path(dir.path, name)))
            },
        }
    }
}

/// Where one step of a path leads from the node that `chain` ends in.
/// `chain` holds the nodes from the root down to that node.
pub open spec fn spec_step(image: Seq<u8>, chain: Seq<NodeView>, step: ComponentView) -> Result<
    Seq<NodeView>,
    ErrorView,
> {
    match step {
        ComponentView::Prefix => Err(ErrorView::InvalidPathComponent),
        ComponentView::RootDir => Ok(chain.subrange(0, 1)),
        ComponentView::CurDir => Ok(chain),
        ComponentView::ParentDir => if chain.len() <= 1 {
            Err(ErrorView::InvalidPathComponent)
        } else {
            Ok(chain.drop_last())
        },
        ComponentView::Normal(name) => match spec_child(image, chain.last(), name) {
            Err(e) => Err(e),
            Ok(node) => Ok(chain.push(node)),
        },
    }
}

/// Where the steps `steps` lead from the node that `chain` ends in.
pub open spec fn spec_walk(image: Seq<u8>, chain: Seq<NodeView>, steps: Seq<ComponentView>) -> Result<
    Seq<NodeView>,
    ErrorView,
>
    decreases steps.len(),
{
    if steps.len() == 0 {
        Ok(chain)
    } else {
        match spec_step(image, chain, steps[0]) {
            Err(e) => Err(e),
            Ok(next) => spec_walk(image, next, steps.drop_first()),
        }
    }
}

/// The node that the steps `steps` lead to from the root directory that
/// `root` describes.
pub open spec fn spec_resolve(image: Seq<u8>, root: RecordView, steps: Seq<ComponentView>) -> Result<
    NodeView,
    ErrorView,
> {
    match spec_walk(image, seq![root_node(root)], steps) {
        Err(e) => Err(e),
        Ok(chain) => Ok(chain.last()),
    }
}

/// The node at `path`, counted from the root directory that `root`
/// describes.
pub open spec fn spec_node(image: Seq<u8>, root: RecordView, path: Seq<char>) -> Result<NodeView, ErrorView> {
    spec_resolve(image, root, spec_components(path))
}

/// The nodes of the entries in `listing` of the directory `dir`, in order.
pub open spec fn entry_nodes(dir: NodeView, listing: Seq<RecordView>) -> Seq<NodeView> {
    Seq::new(listing.len(), |k: int| child_node(dir, listing[k]))
}

/// The entries of the directory at `path`.
pub open spec fn spec_read_dir(image: Seq<u8>, root: RecordView, path: Seq<char>) -> Result<
    Seq<NodeView>,
    ErrorView,
> {
    match spec_node(image, root, path) {
        Err(e) => Err(e),
        Ok(dir) => if !dir.record.is_dir {
            Err(ErrorView::DirectoryExpected)
        } else {
            match spec_children(image, dir.record) {
                Err(e) => Err(e@),
                Ok(listing) => Ok(entry_nodes(dir, listing)),
            }
        },
    }
}

/// Where the data of the file at `path` starts in the image, and its
/// length in bytes.
pub open spec fn spec_open_file(image: Seq<u8>, root: RecordView, block_size: u16, path: Seq<char>) -> Result<
    (int, int),
    ErrorView,
> {
    match spec_node(image, root, path) {
        Err(e) => Err(e),
        Ok(node) => if node.record.is_dir {
            Err(ErrorView::FileExpected)
        } else {
            Ok((node.record.extent * block_size, node.record.data_length as int))
        },
    }
}

/// True when `chain` is a line of descent from the root: it starts with a
/// node whose path is `/`, and the path of each further node is the path of
/// the node before it joined with its own name.
pub open spec fn is_lineage(chain: Seq<NodeView>) -> bool {
    &&& chain.len() >= 1
    &&& chain[0].path == crate::iso::node::root_path()
    &&& forall|k: int|
        1 <= k < chain.len() ==> (#[trigger] chain[k]).path == child_path(chain[k - 1].path, chain[k].record.name)
}

/// The names of the nodes of `chain` below its first, in order.
pub open spec fn names_below(chain: Seq<NodeView>) -> Seq<Seq<char>> {
    Seq::new((chain.len() - 1) as nat, |k: int| chain[k + 1].record.name)
}

/// The path that the names `names` make, from the root down: each name is
/// joined to the path of the names before it.
pub open spec fn path_of(names: Seq<Seq<char>>) -> Seq<char>
    decreases names.len(),
{
    if names.len() == 0 {
        crate::iso::node::root_path()
    } else {
        child_path(path_of(names.drop_last()), names.last())
    }
}

/// The path of the node that ends a line of descent is made of the names
/// of the nodes of the line below the root.
pub proof fn lemma_lineage_path(chain: Seq<NodeView>)
    requires
        is_lineage(chain),
    ensures
        chain.last().path == path_of(names_below(chain)),
    decreases chain.len(),
{
    if chain.len() > 1 {
        let front = chain.drop_last();
        assert(is_lineage(front)) by {
            assert forall|k: int| 1 <= k < front.len() implies (#[trigger] front[k]).path == child_path(
                front[k - 1].path,
                front[k].record.name,
            ) by {
                assert(front[k] == chain[k]);
                assert(front[k - 1] == chain[k - 1]);
            }
        }
        lemma_lineage_path(front);
        assert(names_below(chain).drop_last() =~= names_below(front));
        assert(names_below(chain).last() == chain.last().record.name);
        assert(front.last() == chain[chain.len() - 2]);
    } else {
        assert(names_below(chain) =~= Seq::<Seq<char>>::empty());
    }
}

/// The path of every node of a line of descent is absolute: it starts with
/// the separator.
pub proof fn lemma_lineage_is_absolute(chain: Seq<NodeView>, k: int)
    requires
        is_lineage(chain),
        0 <= k < chain.len(),
    ensures
        chain[k].path.len() >= 1,
        chain[k].path[0] == '/',
    decreases k,
{
    if k > 0 {
        lemma_lineage_is_absolute(chain, k - 1);
        assert(chain[k].path == child_path(chain[k - 1].path, chain[k].record.name));
    }
}

/// A step from a line of descent leads to a line of descent.
pub proof fn lemma_step_keeps_lineage(image: Seq<u8>, chain: Seq<NodeView>, step: ComponentView)
    requires
        is_lineage(chain),
    ensures
        spec_step(image, chain, step) matches Ok(next) ==> is_lineage(next),
{
    match spec_step(image, chain, step) {
        Err(_) => {},
        Ok(next) => {
            assert forall|k: int| 1 <= k < next.len() implies (#[trigger] next[k]).path == child_path(
                next[k - 1].path,
                next[k].record.name,
            ) by {
                if k < chain.len() {
                    assert(next[k] == chain[k]);
                    assert(next[k - 1] == chain[k - 1]);
                }
            }
        },
    }
}

/// Steps from a line of descent lead to a line of descent.
pub proof fn lemma_walk_keeps_lineage(image: Seq<u8>, chain: Seq<NodeView>, steps: Seq<ComponentView>)
    requires
        is_lineage(chain),
    ensures
        spec_walk(image, chain, steps) matches Ok(last) ==> is_lineage(last),
    decreases steps.len(),
{
    if steps.len() > 0 {
        lemma_step_keeps_lineage(image, chain, steps[0]);
        match spec_step(image, chain, steps[0]) {
            Err(_) => {},
            Ok(next) => {
                lemma_walk_keeps_lineage(image, next, steps.drop_first());
            },
        }
    }
}

/// The path of every node that a path leads to is absolute, and it is the
/// names of the node's ancestors and its own, from the root down, each
/// joined to what precedes: the node ends a line of descent from the root.
pub proof fn law_node_path(image: Seq<u8>, root: RecordView, path: Seq<char>)
    ensures
        spec_node(image, root, path) matches Ok(node) ==> {
            &&& node.path.len() >= 1
            &&& node.path[0] == '/'
            &&& exists|chain: Seq<NodeView>|
                {
                    &&& #[trigger] is_lineage(chain)
                    &&& chain.last() == node
                    &&& node.path == path_of(names_below(chain))
                }
        },
{
    let start = seq![root_node(root)];
    assert(is_lineage(start));
    lemma_walk_keeps_lineage(image, start, spec_components(path));
    match spec_walk(image, start, spec_components(path)) {
        Err(_) => {},
        Ok(chain) => {
            lemma_lineage_is_absolute(chain, chain.len() - 1);
            lemma_lineage_path(chain);
            assert(is_lineage(chain) && chain.last() == chain.last());
        },
    }
}

/// The entries of a directory never hold the directory's entry for itself
/// or for its parent, and no two of them have the same name.
pub proof fn law_read_dir_names(image: Seq<u8>, root: RecordView, path: Seq<char>)
    ensures
        spec_read_dir(image, root, path) matches Ok(entries) ==> {
            &&& forall|k: int|
                0 <= k < entries.len() ==> !crate::iso::directory::is_sentinel((#[trigger] entries[k]).record.name)
            &&& forall|j: int, k: int|
                0 <= j < entries.len() && 0 <= k < entries.len() && j != k ==> (#[trigger] entries[j]).record.name != (
                #[trigger] entries[k]).record.name
        },
{
    match spec_node(image, root, path) {
        Err(_) => {},
        Ok(dir) => {
            crate::iso::directory::law_children_are_a_listing(image, dir.record);
            match spec_children(image, dir.record) {
                Err(_) => {},
                Ok(listing) => {
                    let entries = entry_nodes(dir, listing);
                    assert forall|k: int| 0 <= k < entries.len() implies !crate::iso::directory::is_sentinel(
                        (#[trigger] entries[k]).record.name,
                    ) by {
                        assert(entries[k].record == listing[k]);
                    }
                    assert forall|j: int, k: int|
                        0 <= j < entries.len() && 0 <= k < entries.len() && j != k implies (
                    #[trigger] entries[j]).record.name != (#[trigger] entries[k]).record.name by {
                        assert(entries[j].record == listing[j]);
                        assert(entries[k].record == listing[k]);
                    }
                },
            }
        },
    }
}

/// True when reading the directory at `path` of the filesystem `before` gave
/// `result` and left the filesystem as `after`.
pub open spec fn read_dir_gives(before: IsoFs, path: Seq<char>, result: Result<ReadDir, Error>, after: IsoFs) -> bool {
    &&& after.wf()
    &&& before.grown_to(&after)
    &&& match (result, spec_read_dir(before.image@, before.root(), path)) {
        (Ok(entries), Ok(want)) => entries@ == want,
        (Err(e), Err(want_e)) => e@ == want_e,
        _ => false,
    }
}

/// Reading a directory twice gives the same both times: the same entries
/// in the same order, or the same failure.
pub proof fn law_read_dir_twice(
    before: IsoFs,
    path: Seq<char>,
    first: Result<ReadDir, Error>,
    between: IsoFs,
    second: Result<ReadDir, Error>,
    after: IsoFs,
)
    requires
        before.wf(),
        read_dir_gives(before, path, first, between),
        read_dir_gives(between, path, second, after),
    ensures
        match (first, second) {
            (Ok(a), Ok(b)) => a@ == b@,
            (Err(a), Err(b)) => a@ == b@,
            _ => false,
        },
{
    assert(between.tree.nodes@[0]@ == before.tree.nodes@[0]@);
}

/// An ISO-9660 filesystem read from an image held in memory.
#[derive(Debug)]
pub struct IsoFs {
    /// The bytes of the image.
    pub image: Vec<u8>,
    /// The directories and files seen so far.
    pub tree: Tree,
    /// The size in bytes of a logical block.
    pub block_size: u16,
}

impl IsoFs {
    /// The record of the root directory.
    pub open spec fn root(&self) -> RecordView {
        self.tree.nodes@[0].record@
    }

    /// True when the filesystem is as it must be: the tree is in order, the
    /// root and the block size are those that the image's descriptors
    /// give, and each directory that has been read holds the entries that
    /// the image gives for it.
    pub open spec fn wf(&self) -> bool {
        &&& self.tree.wf()
        &&& spec_open(self.image@) == Ok::<(RecordView, u16), Error>((self.root(), self.block_size))
        &&& forall|i: int|
            0 <= i < self.tree.nodes@.len() && #[trigger] self.tree.loaded(i) ==> spec_children(
                self.image@,
                self.tree.nodes@[i].record@,
            ) == Ok::<Seq<RecordView>, Error>(self.tree.children(i))
    }

    /// True when `later` is this filesystem after more of it has been read:
    /// the image is the same, and each node seen before is still in its
    /// place.
    pub open spec fn grown_to(&self, later: &IsoFs) -> bool {
        &&& later.image@ == self.image@
        &&& later.block_size == self.block_size
        &&& later.tree.nodes@.len() >= self.tree.nodes@.len()
        &&& forall|i: int| 0 <= i < self.tree.nodes@.len() ==> (#[trigger] later.tree.nodes@[i])@ == self.tree.nodes@[i]@
    }

    /// Opens the filesystem in the image `buffer`.
    pub fn from_buffer(buffer: Vec<u8>) -> (r: Result<IsoFs, Error>)
        ensures
            match r {
                Ok(fs) => {
                    &&& fs.wf()
                    &&& fs.image@ == buffer@
                    &&& fs.tree.nodes@.len() == 1
                    &&& !fs.tree.loaded(0)
                    &&& spec_open(buffer@) == Ok::<(RecordView, u16), Error>((fs.root(), fs.block_size))
                },
                Err(e) => spec_open(buffer@) == Err::<(RecordView, u16), Error>(e),
            },
    {
        let mut scan = VolumeScan::new();
        let mut index: usize = FIRST_DESCRIPTOR;
        let len = buffer.len();
        let sectors = len / 2048;
        while !scan.terminated && index < sectors
            invariant
                len == buffer@.len(),
                sectors == len / 2048,
                FIRST_DESCRIPTOR <= index,
                spec_open(buffer@) == scan.outcome(descriptors_of(buffer@), index as int),
            decreases sectors - index,
        {
            let sector = slice_subrange(buffer.as_slice(), index * 2048, index * 2048 + 2048);
            assert(sector@ == sector_of(buffer@, index as int));
            assert(descriptors_of(buffer@)[index as int] == crate::iso::descriptors::spec_volume_descriptor(sector@));
            scan.feed(sector)?;
            index = index + 1;
        }
        let (root, block_size) = scan.finish()?;
        let tree = Tree::new(root);
        Ok(IsoFs { image: buffer, tree, block_size })
    }

    /// Runs the scan of a directory, just begun, over the image. Returns the
    /// entries of the directory.
    pub fn parse_children(&self, begun: DirectoryScan) -> (r: Result<Vec<Record>, Error>)
        requires
            begun.wf(),
            begun.total == 0,
            begun.listing@.len() == 0,
            !begun.finished,
        ensures
            match (r, spec_scan_directory(self.image@, begun.extent, begun.data_length, 0, seq![])) {
                (Ok(listing), Ok(want)) => record_views(listing@) == want && is_listing(want),
                (Err(e), Err(want_e)) => e == want_e,
                _ => false,
            },
    {
        let ghost extent = begun.extent;
        let ghost data_length = begun.data_length;
        let mut scan = begun;
        assert(record_views(scan.listing@) =~= Seq::<RecordView>::empty());
        while !scan.is_done()
            invariant
                scan.wf(),
                extent == begun.extent,
                data_length == begun.data_length,
                scan.extent == extent,
                scan.data_length == data_length,
                spec_scan_directory(self.image@, extent, data_length, 0, seq![]) == scan.outcome(self.image@),
            decreases scan.data_length + 2048 - scan.total,
        {
            let position = scan.position();
            let len = self.image.len();
            if (len as u64) < position || len as u64 - position < 2048 {
                return Err(Error::Io(IoErrorKind::UnexpectedEof));
            }
            let start = position as usize;
            let sector = slice_subrange(self.image.as_slice(), start, start + 2048);
            scan.feed(sector)?;
        }
        Ok(scan.into_listing())
    }

    /// Reads the entries of the directory at `dir`, unless they have been
    /// read before. A failure leaves the filesystem as it was.
    pub fn load_children(&mut self, dir: usize) -> (r: Result<(), Error>)
        requires
            old(self).wf(),
            dir < old(self).tree.nodes@.len(),
        ensures
            final(self).wf(),
            old(self).grown_to(final(self)),
            forall|i: int|
                0 <= i < old(self).tree.nodes@.len() && old(self).tree.loaded(i) ==> final(self).tree.loaded(i),
            match r {
                Ok(_) => {
                    &&& old(self).tree.nodes@[dir as int].record.is_dir
                    &&& final(self).tree.loaded(dir as int)
                    &&& is_listing(final(self).tree.children(dir as int))
                    &&& spec_children(old(self).image@, old(self).tree.nodes@[dir as int].record@) == Ok::<
                        Seq<RecordView>,
                        Error,
                    >(final(self).tree.children(dir as int))
                },
                Err(e) => {
                    &&& *final(self) == *old(self)
                    &&& if old(self).tree.nodes@[dir as int].record.is_dir {
                        spec_children(old(self).image@, old(self).tree.nodes@[dir as int].record@) == Err::<
                            Seq<RecordView>,
                            Error,
                        >(e)
                    } else {
                        e == Error::DirectoryExpected
                    }
                },
            },
    {
        let scan = match self.tree.begin(dir)? {
            None => {
                assert(self.tree.loaded(dir as int));
                assert(self.tree.node_wf(dir as int));
                return Ok(());
            },
            Some(scan) => scan,
        };
        let listing = self.parse_children(scan)?;
        let ghost before = self.tree;
        self.tree.attach(dir, listing);
        proof {
            let after = self.tree;
            assert(after.node_wf(dir as int));
            assert forall|i: int| 0 <= i < after.nodes@.len() && #[trigger] after.loaded(i) implies spec_children(
                self.image@,
                after.nodes@[i].record@,
            ) == Ok::<Seq<RecordView>, Error>(after.children(i)) by {
                if i != dir {
                    assert(i < before.nodes@.len());
                    assert(after.nodes@[i] == before.nodes@[i]);
                    assert(before.loaded(i));
                    assert(before.node_wf(i));
                    assert(after.children(i) =~= before.children(i)) by {
                        assert forall|k: int| 0 <= k < after.places(i).len() implies after.children(i)[k]
                            == before.children(i)[k] by {
                            let c = before.places(i)[k] as int;
                            assert(i < c < before.nodes@.len());
                            assert(after.nodes@[c]@ == before.nodes@[c]@);
                        }
                    }
                }
            }
        }
        Ok(())
    }

    /// Finds the entry `name` of the directory at `dir`, reading the
    /// directory first where that has not been done.
    pub fn child(&mut self, dir: usize, name: &String) -> (r: Result<usize, Error>)
        requires
            old(self).wf(),
            dir < old(self).tree.nodes@.len(),
        ensures
            final(self).wf(),
            old(self).grown_to(final(self)),
            match (r, spec_child(old(self).image@, old(self).tree.nodes@[dir as int]@, name@)) {
                (Ok(place), Ok(want)) => {
                    &&& place < final(self).tree.nodes@.len()
                    &&& final(self).tree.nodes@[place as int]@ == want
                },
                (Err(e), Err(want_e)) => e@ == want_e,
                _ => false,
            },
    {
        self.load_children(dir)?;
        assert(self.tree.node_wf(dir as int));
        assert(self.tree.loaded(dir as int));
        match self.tree.child(dir, name)? {
            Some(place) => Ok(place),
            None => Err(Error::DirectoryExpected),
        }
    }

    /// Takes one step of a path from the node that `stack` ends in, reading
    /// the directory that it enters where that has not been done.
    pub fn step(&mut self, stack: &mut Vec<usize>, component: &Component) -> (r: Result<(), Error>)
        requires
            old(self).wf(),
            old(self).tree.is_chain(old(stack)@),
        ensures
            final(self).wf(),
            old(self).grown_to(final(self)),
            final(self).tree.is_chain(final(stack)@),
            match (r, spec_step(old(self).image@, old(self).tree.chain(old(stack)@), component@)) {
                (Ok(_), Ok(next)) => final(self).tree.chain(final(stack)@) == next,
                (Err(e), Err(want_e)) => e@ == want_e,
                _ => false,
            },
    {
        let ghost before = self.tree.chain(stack@);
        let here = stack[stack.len() - 1];
        if let Component::Normal(_) = component {
            self.load_children(here)?;
        }
        proof {
            assert(self.tree.chain(stack@) =~= before) by {
                assert forall|k: int| 0 <= k < stack@.len() implies self.tree.chain(stack@)[k] == before[k] by {
                    assert(stack@[k] < old(self).tree.nodes@.len());
                    assert(self.tree.nodes@[stack@[k] as int]@ == old(self).tree.nodes@[stack@[k] as int]@);
                }
            }
            assert(forall|k: int| 0 <= k < stack@.len() ==> #[trigger] stack@[k] < self.tree.nodes@.len());
            assert(self.tree.node_wf(here as int));
            assert(self.tree.nodes@[here as int]@ == before.last());
        }
        let moved = self.tree.step(stack, component)?;
        proof {
            match component@ {
                ComponentView::RootDir => {
                    assert(self.tree.chain(stack@) =~= before.subrange(0, 1));
                },
                ComponentView::ParentDir => {
                    assert(self.tree.chain(stack@) =~= before.drop_last());
                },
                ComponentView::Normal(name) => {
                    assert(self.tree.loaded(here as int));
                    let place = stack@.last();
                    assert(self.tree.chain(stack@) =~= before.push(self.tree.nodes@[place as int]@));
                },
                _ => {},
            }
        }
        if moved {
            Ok(())
        } else {
            Err(Error::DirectoryExpected)
        }
    }

    /// Follows the steps `steps` from the root, and returns the place in
    /// the tree of the node that they lead to.
    pub fn walk(&mut self, steps: &Vec<Component>) -> (r: Result<usize, Error>)
        requires
            old(self).wf(),
        ensures
            final(self).wf(),
            old(self).grown_to(final(self)),
            match (r, spec_resolve(old(self).image@, old(self).root(), views(steps@))) {
                (Ok(place), Ok(want)) => {
                    &&& place < final(self).tree.nodes@.len()
                    &&& final(self).tree.nodes@[place as int]@ == want
                },
                (Err(e), Err(want_e)) => e@ == want_e,
                _ => false,
            },
    {
        let ghost image = self.image@;
        let ghost all = views(steps@);
        let ghost start = seq![root_node(self.root())];
        let mut stack: Vec<usize> = Vec::new();
        stack.push(0);
        assert(self.tree.chain(stack@) =~= start);
        assert(all.subrange(0, all.len() as int) =~= all);
        let mut i: usize = 0;
        while i < steps.len()
            invariant
                i <= steps@.len(),
                all == views(steps@),
                image == old(self).image@,
                start == seq![root_node(old(self).root())],
                self.wf(),
                old(self).grown_to(self),
                self.tree.is_chain(stack@),
                spec_walk(image, start, all) == spec_walk(
                    image,
                    self.tree.chain(stack@),
                    all.subrange(i as int, all.len() as int),
                ),
            decreases steps@.len() - i,
        {
            let ghost left = all.subrange(i as int, all.len() as int);
            let ghost here = *self;
            assert(left[0] == steps@[i as int]@);
            assert(left.drop_first() =~= all.subrange(i + 1, all.len() as int));
            self.step(&mut stack, &steps[i])?;
            proof {
                assert forall|k: int| 0 <= k < old(self).tree.nodes@.len() implies (
                #[trigger] self.tree.nodes@[k])@ == old(self).tree.nodes@[k]@ by {
                    assert(here.tree.nodes@[k]@ == old(self).tree.nodes@[k]@);
                }
            }
            i = i + 1;
        }
        let place = stack[stack.len() - 1];
        assert(self.tree.chain(stack@).last() == self.tree.nodes@[place as int]@);
        Ok(place)
    }

    /// Finds the node at `path`, and returns its place in the tree.
    pub fn node(&mut self, path: &str) -> (r: Result<usize, Error>)
        requires
            old(self).wf(),
        ensures
            final(self).wf(),
            old(self).grown_to(final(self)),
            match (r, spec_node(old(self).image@, old(self).root(), path@)) {
                (Ok(place), Ok(want)) => {
                    &&& place < final(self).tree.nodes@.len()
                    &&& final(self).tree.nodes@[place as int]@ == want
                },
                (Err(e), Err(want_e)) => e@ == want_e,
                _ => false,
            },
    {
        let steps = components(path);
        self.walk(&steps)
    }

    /// What is known of the file or directory at `path`.
    pub fn metadata(&mut self, path: &str) -> (r: Result<Metadata, Error>)
        requires
            old(self).wf(),
        ensures
            final(self).wf(),
            old(self).grown_to(final(self)),
            match (r, spec_node(old(self).image@, old(self).root(), path@)) {
                (Ok(metadata), Ok(want)) => metadata@ == want,
                (Err(e), Err(want_e)) => e@ == want_e,
                _ => false,
            },
    {
        let place = self.node(path)?;
        Ok(Metadata::of(&self.tree.nodes[place]))
    }

    /// The entries of the directory at `path`.
    pub fn read_dir(&mut self, path: &str) -> (r: Result<ReadDir, Error>)
        requires
            old(self).wf(),
        ensures
            read_dir_gives(*old(self), path@, r, *final(self)),
    {
        let place = self.node(path)?;
        let ghost found = *self;
        self.load_children(place)?;
        proof {
            assert forall|k: int| 0 <= k < old(self).tree.nodes@.len() implies (#[trigger] self.tree.nodes@[k])@
                == old(self).tree.nodes@[k]@ by {
                assert(found.tree.nodes@[k]@ == old(self).tree.nodes@[k]@);
            }
            assert(self.tree.node_wf(place as int));
            assert(self.tree.child_nodes(place as int) =~= entry_nodes(
                self.tree.nodes@[place as int]@,
                self.tree.children(place as int),
            ));
        }
        ReadDir::new(&self.tree, place)
    }

    /// Whether `path` leads to a directory.
    pub fn is_dir(&mut self, path: &str) -> (b: bool)
        requires
            old(self).wf(),
        ensures
            final(self).wf(),
            old(self).grown_to(final(self)),
            b == (spec_node(old(self).image@, old(self).root(), path@) matches Ok(node) && node.record.is_dir),
    {
        match self.node(path) {
            Ok(place) => self.tree.nodes[place].record.is_dir,
            Err(_) => false,
        }
    }

    /// Whether `path` leads to a file.
    pub fn is_file(&mut self, path: &str) -> (b: bool)
        requires
            old(self).wf(),
        ensures
            final(self).wf(),
            old(self).grown_to(final(self)),
            b == (spec_node(old(self).image@, old(self).root(), path@) matches Ok(node) && !node.record.is_dir),
    {
        match self.node(path) {
            Ok(place) => !self.tree.nodes[place].record.is_dir,
            Err(_) => false,
        }
    }

    /// Whether `path` leads to a file or a directory.
    pub fn path_exists(&mut self, path: &str) -> (b: bool)
        requires
            old(self).wf(),
        ensures
            final(self).wf(),
            old(self).grown_to(final(self)),
            b == (spec_node(old(self).image@, old(self).root(), path@) is Ok),
    {
        self.node(path).is_ok()
    }

    /// Finds the file at `path`: where its data starts in the image, and
    /// its length in bytes.
    pub fn locate_file(&mut self, path: &str) -> (r: Result<(u64, u32), Error>)
        requires
            old(self).wf(),
        ensures
            final(self).wf(),
            old(self).grown_to(final(self)),
            match (r, spec_open_file(old(self).image@, old(self).root(), old(self).block_size, path@)) {
                (Ok((start, length)), Ok((want_start, want_length))) => {
                    &&& start == want_start
                    &&& length == want_length
                    &&& start + length <= u64::MAX
                },
                (Err(e), Err(want_e)) => e@ == want_e,
                _ => false,
            },
    {
        let place = self.node(path)?;
        let record = &self.tree.nodes[place].record;
        if record.is_dir {
            return Err(Error::FileExpected);
        }
        assert(record.extent * self.block_size <= 0xFFFF_FFFF * 0xFFFF) by (nonlinear_arith)
            requires
                0 <= record.extent <= 0xFFFF_FFFF,
                0 <= self.block_size <= 0xFFFF,
        ;
        let start: u64 = record.extent as u64 * self.block_size as u64;
        Ok((start, record.data_length))
    }

    /// Opens the file at `path` for reading.
    pub fn open_file<'a>(&'a mut self, path: &str) -> (r: Result<IsoFile<'a>, Error>)
        requires
            old(self).wf(),
        ensures
            final(self).wf(),
            old(self).grown_to(final(self)),
            match (r, spec_open_file(old(self).image@, old(self).root(), old(self).block_size, path@)) {
                (Ok(file), Ok((want_start, want_length))) => {
                    &&& file.wf()
                    &&& file.image@ == old(self).image@
                    &&& file.position.start == want_start
                    &&& file.position.length == want_length
                    &&& file.position.pos == 0
                },
                (Err(e), Err(want_e)) => e@ == want_e,
                _ => false,
            },
    {
        let (start, length) = self.locate_file(path)?;
        Ok(IsoFile::new(self.image.as_slice(), start, length))
    }
}

} // verus!

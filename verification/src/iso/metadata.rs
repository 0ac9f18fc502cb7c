//! What is known of one file or directory.

use vstd::prelude::*;
use crate::error::{Error, ErrorView};
use crate::iso::file::IsoFile;
use crate::iso::fs::{IsoFs, spec_open_file, spec_read_dir};
use crate::iso::node::{Node, NodeView};
use crate::iso::record::Record;

verus! {

/// The path and the directory record of a file or directory.
#[derive(Debug)]
pub struct Metadata {
    /// The absolute path.
    pub path: String,
    /// The directory record.
    pub record: Record,
}

impl View for Metadata {
    type V = NodeView;

    open spec fn view(&self) -> NodeView {
        NodeView { path: self.path@, record: self.record@ }
    }
}

/// The views of the metadata in `entries`, in order.
pub open spec fn metadata_views(entries: Seq<Metadata>) -> Seq<NodeView> {
    entries.map_values(|m: Metadata| m@)
}

impl Metadata {
    /// The metadata of `node`.
    pub fn of(node: &Node) -> (metadata: Metadata)
        ensures
            metadata@ == node@,
    {
        Metadata { path: node.path.clone(), record: node.record.duplicate() }
    }

    /// Whether this is a directory.
    pub fn is_dir(&self) -> (b: bool)
        ensures
            b == self.record.is_dir,
    {
        self.record.is_dir
    }

    /// Whether this is a file.
    pub fn is_file(&self) -> (b: bool)
        ensures
            b == !self.record.is_dir,
    {
        !self.is_dir()
    }

    /// The name of the file or directory.
    pub fn name(&self) -> (name: &str)
        ensures
            name@ == self.record.name@,
    {
        self.record.name.as_str()
    }

    /// The absolute path of the file or directory.
    pub fn path(&self) -> (path: &str)
        ensures
            path@ == self.path@,
    {
        self.path.as_str()
    }

    /// The entries of this directory in the filesystem `iso`.
    pub fn read_dir(&self, iso: &mut IsoFs) -> (r: Result<Vec<Metadata>, Error>)
        requires
            old(iso).wf(),
        ensures
            final(iso).wf(),
            old(iso).grown_to(final(iso)),
            match (r, spec_read_dir(old(iso).image@, old(iso).root(), self.path@)) {
                (Ok(entries), Ok(want)) => self.record.is_dir && metadata_views(entries@) == want,
                (Err(e), Err(want_e)) => e@ == want_e,
                (Err(e), Ok(_)) => !self.record.is_dir && e@ == ErrorView::DirectoryExpected,
                _ => false,
            },
    {
        let entries = iso.read_dir(self.path.as_str())?;
        if self.is_dir() {
            Ok(entries.into_vec())
        } else {
            Err(Error::DirectoryExpected)
        }
    }

    /// Opens this file in the filesystem `iso` for reading.
    pub fn open_file<'a>(&self, iso: &'a mut IsoFs) -> (r: Result<IsoFile<'a>, Error>)
        requires
            old(iso).wf(),
        ensures
            final(iso).wf(),
            old(iso).grown_to(final(iso)),
            match (r, spec_open_file(old(iso).image@, old(iso).root(), old(iso).block_size, self.path@)) {
                (Ok(file), Ok((want_start, want_length))) => {
                    &&& file.wf()
                    &&& file.image@ == old(iso).image@
                    &&& file.position.start == want_start
                    &&& file.position.length == want_length
                    &&& file.position.pos == 0
                },
                (Err(e), Err(want_e)) => e@ == want_e,
                _ => false,
            },
    {
        iso.open_file(self.path.as_str())
    }
}

} // verus!

//! Reading the entries of a directory, sector by sector.
//!
//! A directory's data is a run of sectors. In each sector records follow
//! one another until a zero length byte or the end of the sector. The scan
//! takes the sectors one at a time, so that it can be fed from any source.

use vstd::prelude::*;
use vstd::slice::slice_subrange;
use crate::error::Error;
use crate::iso::descriptors::SECTOR_SIZE;
use crate::iso::record::{Record, RecordView, parent_name, record, self_name, spec_record};
use crate::parsers::rest;

verus! {

/// The views of the records in `records`, in order.
pub open spec fn record_views(records: Seq<Record>) -> Seq<RecordView> {
    records.map_values(|r: Record| r@)
}

/// True when `name` is one of the two names that every directory holds for
/// itself and for its parent.
pub open spec fn is_sentinel(name: Seq<char>) -> bool {
    name == self_name() || name == parent_name()
}

/// True when some entry of `entries` has the name `name`.
pub open spec fn has_name(entries: Seq<RecordView>, name: Seq<char>) -> bool {
    exists|k: int| 0 <= k < entries.len() && #[trigger] entries[k].name == name
}

/// The place in `entries` of an entry with the name `name`, where there is
/// one.
pub open spec fn index_of_name(entries: Seq<RecordView>, name: Seq<char>) -> int {
    choose|k: int| 0 <= k < entries.len() && #[trigger] entries[k].name == name
}

/// True when `entries` can be the contents of a directory: no entry has a
/// name of the directory itself or of its parent, and no two entries have
/// the same name.
pub open spec fn is_listing(entries: Seq<RecordView>) -> bool {
    &&& forall|k: int| 0 <= k < entries.len() ==> !is_sentinel(#[trigger] entries[k].name)
    &&& forall|j: int, k: int|
        0 <= j < entries.len() && 0 <= k < entries.len() && j != k ==> #[trigger] entries[j].name
            != #[trigger] entries[k].name
}

/// The listing `entries` with `entry` added: in the place of the entry of
/// the same name where there is one, and else at the end.
pub open spec fn with_entry(entries: Seq<RecordView>, entry: RecordView) -> Seq<RecordView> {
    if has_name(entries, entry.name) {
        entries.update(index_of_name(entries, entry.name), entry)
    } else {
        entries.push(entry)
    }
}

/// True when `entry`, found in the directory whose data starts at block
/// `extent`, is the entry for itself of another directory: the sign that
/// the scan has run past the end of its own directory.
pub open spec fn is_overshoot(entry: RecordView, extent: u32) -> bool {
    entry.name == self_name() && entry.extent != extent
}

/// The result of scanning `sector` from the position `at` on, for the
/// directory at block `extent` whose entries so far are `listing`: the
/// listing with the sector's entries added, and whether the scan ran past
/// the end of the directory.
///
/// The scan of a sector ends at a zero length byte or at the end of the
/// sector. An entry for the directory itself or for its parent is passed
/// over. A record that cannot be decoded fails the scan.
pub open spec fn spec_scan_sector(sector: Seq<u8>, at: int, extent: u32, listing: Seq<RecordView>) -> Result<
    (Seq<RecordView>, bool),
    Error,
>
    decreases sector.len() - at,
{
    if at < 0 || at >= sector.len() || sector[at] == 0 {
        Ok((listing, false))
    } else {
        match spec_record(rest(sector, at)) {
            Err(e) => Err(e),
            Ok((_, entry)) => if is_overshoot(entry, extent) {
                Ok((listing, true))
            } else {
                spec_scan_sector(
                    sector,
                    at + sector[at],
                    extent,
                    if is_sentinel(entry.name) {
                        listing
                    } else {
                        with_entry(listing, entry)
                    },
                )
            },
        }
    }
}

/// The entries of the directory at block `extent` with `data_length` bytes
/// of data, read from `image`, when `total` bytes of it have been scanned
/// into `listing`.
///
/// Sectors are scanned until as many bytes as the directory's data are
/// read, or the scan runs past the end of the directory. A sector that
/// `image` does not hold whole fails the scan.
pub open spec fn spec_scan_directory(
    image: Seq<u8>,
    extent: u32,
    data_length: u32,
    total: int,
    listing: Seq<RecordView>,
) -> Result<Seq<RecordView>, Error>
    decreases data_length + 2048 - total,
{
    if total < 0 || total >= data_length as int {
        Ok(listing)
    } else {
        let start = extent * 2048 + total;
        if image.len() < start + 2048 {
            Err(Error::Io(crate::error::IoErrorKind::UnexpectedEof))
        } else {
            match spec_scan_sector(image.subrange(start, start + 2048), 0, extent, listing) {
                Err(e) => Err(e),
                Ok((longer, finished)) => if finished {
                    Ok(longer)
                } else {
                    spec_scan_directory(image, extent, data_length, total + 2048, longer)
                },
            }
        }
    }
}

/// The entries of the directory that `directory` describes, read from
/// `image`.
pub open spec fn spec_children(image: Seq<u8>, directory: RecordView) -> Result<Seq<RecordView>, Error> {
    spec_scan_directory(image, directory.extent, directory.data_length, 0, seq![])
}

/// In a listing, the place of an entry with a given name is the only one.
pub proof fn lemma_index_of_name(entries: Seq<RecordView>, k: int)
    requires
        is_listing(entries),
        0 <= k < entries.len(),
    ensures
        has_name(entries, entries[k].name),
        index_of_name(entries, entries[k].name) == k,
{
    let name = entries[k].name;
    let chosen = index_of_name(entries, name);
    assert(0 <= chosen < entries.len() && entries[chosen].name == name);
}

/// Adding an entry that is no sentinel to a listing gives a listing.
pub proof fn lemma_with_entry_is_listing(entries: Seq<RecordView>, entry: RecordView)
    requires
        is_listing(entries),
        !is_sentinel(entry.name),
    ensures
        is_listing(with_entry(entries, entry)),
{
    let longer = with_entry(entries, entry);
    if has_name(entries, entry.name) {
        let at = index_of_name(entries, entry.name);
        assert(0 <= at < entries.len() && entries[at].name == entry.name);
        assert forall|k: int| 0 <= k < longer.len() implies !is_sentinel(#[trigger] longer[k].name) by {
            if k != at {
                assert(longer[k] == entries[k]);
            }
        }
        assert forall|j: int, k: int|
            0 <= j < longer.len() && 0 <= k < longer.len() && j != k implies #[trigger] longer[j].name
            != #[trigger] longer[k].name by {
            assert(longer[j].name == entries[j].name);
            assert(longer[k].name == entries[k].name);
        }
    } else {
        assert forall|k: int| 0 <= k < longer.len() implies !is_sentinel(#[trigger] longer[k].name) by {
            if k < entries.len() {
                assert(longer[k] == entries[k]);
            }
        }
        assert forall|j: int, k: int|
            0 <= j < longer.len() && 0 <= k < longer.len() && j != k implies #[trigger] longer[j].name
            != #[trigger] longer[k].name by {
            if j < entries.len() && k < entries.len() {
                assert(longer[j].name == entries[j].name);
                assert(longer[k].name == entries[k].name);
            } else if j < entries.len() {
                assert(longer[j].name == entries[j].name);
            } else {
                assert(longer[k].name == entries[k].name);
            }
        }
    }
}

/// Scanning a sector into a listing gives a listing.
pub proof fn lemma_scan_sector_is_listing(sector: Seq<u8>, at: int, extent: u32, listing: Seq<RecordView>)
    requires
        is_listing(listing),
    ensures
        spec_scan_sector(sector, at, extent, listing) matches Ok((longer, _)) ==> is_listing(longer),
    decreases sector.len() - at,
{
    if at < 0 || at >= sector.len() || sector[at] == 0 {
    } else {
        match spec_record(rest(sector, at)) {
            Err(_) => {},
            Ok((_, entry)) => {
                if !is_overshoot(entry, extent) {
                    if is_sentinel(entry.name) {
                        lemma_scan_sector_is_listing(sector, at + sector[at], extent, listing);
                    } else {
                        lemma_with_entry_is_listing(listing, entry);
                        lemma_scan_sector_is_listing(sector, at + sector[at], extent, with_entry(listing, entry));
                    }
                }
            },
        }
    }
}

/// Scanning a directory into a listing gives a listing.
pub proof fn lemma_scan_directory_is_listing(
    image: Seq<u8>,
    extent: u32,
    data_length: u32,
    total: int,
    listing: Seq<RecordView>,
)
    requires
        is_listing(listing),
    ensures
        spec_scan_directory(image, extent, data_length, total, listing) matches Ok(longer) ==> is_listing(longer),
    decreases data_length + 2048 - total,
{
    if total < 0 || total >= data_length as int {
    } else {
        let start = extent * 2048 + total;
        if image.len() >= start + 2048 {
            let sector = image.subrange(start, start + 2048);
            lemma_scan_sector_is_listing(sector, 0, extent, listing);
            match spec_scan_sector(sector, 0, extent, listing) {
                Err(_) => {},
                Ok((longer, finished)) => {
                    if !finished {
                        lemma_scan_directory_is_listing(image, extent, data_length, total + 2048, longer);
                    }
                },
            }
        }
    }
}

/// The entries that an image gives for a directory never hold the
/// directory's entry for itself or for its parent, and no two of them have
/// the same name.
pub proof fn law_children_are_a_listing(image: Seq<u8>, directory: RecordView)
    ensures
        spec_children(image, directory) matches Ok(listing) ==> is_listing(listing),
{
    lemma_scan_directory_is_listing(image, directory.extent, directory.data_length, 0, seq![]);
}

/// Whether `name` is the name of a directory's entry for itself.
pub fn is_self_name(name: &String) -> (b: bool)
    ensures
        b == (name@ == self_name()),
{
    let s = name.as_str();
    let b = s.unicode_len() == 1 && s.get_char(0) == '\0';
    proof {
        if b {
            assert(name@ =~= self_name());
        }
    }
    b
}

/// Whether `name` is the name of a directory's entry for its parent.
pub fn is_parent_name(name: &String) -> (b: bool)
    ensures
        b == (name@ == parent_name()),
{
    let s = name.as_str();
    let b = s.unicode_len() == 1 && s.get_char(0) == '\x01';
    proof {
        if b {
            assert(name@ =~= parent_name());
        }
    }
    b
}

/// The place of the entry named `name` in `entries`, if there is one.
pub fn find_name(entries: &Vec<Record>, name: &String) -> (found: Option<usize>)
    requires
        is_listing(record_views(entries@)),
    ensures
        match found {
            Some(k) => {
                &&& k < entries@.len()
                &&& has_name(record_views(entries@), name@)
                &&& index_of_name(record_views(entries@), name@) == k
            },
            None => !has_name(record_views(entries@), name@),
        },
{
    let ghost views = record_views(entries@);
    let mut k: usize = 0;
    while k < entries.len()
        invariant
            k <= entries@.len(),
            views == record_views(entries@),
            is_listing(views),
            forall|j: int| 0 <= j < k ==> (#[trigger] views[j]).name != name@,
        decreases entries@.len() - k,
    {
        if entries[k].name == *name {
            proof {
                assert(views[k as int].name == name@);
                lemma_index_of_name(views, k as int);
            }
            return Some(k);
        }
        k = k + 1;
    }
    None
}

/// Adds `entry` to the listing `entries`, in the place of the entry of the
/// same name where there is one.
pub fn add_entry(entries: &mut Vec<Record>, entry: Record)
    requires
        is_listing(record_views(old(entries)@)),
        !is_sentinel(entry@.name),
    ensures
        record_views(final(entries)@) == with_entry(record_views(old(entries)@), entry@),
        is_listing(record_views(final(entries)@)),
{
    let ghost before = record_views(entries@);
    proof {
        lemma_with_entry_is_listing(before, entry@);
    }
    match find_name(entries, &entry.name) {
        Some(k) => {
            entries.set(k, entry);
            assert(record_views(entries@) =~= before.update(k as int, entry@));
        },
        None => {
            entries.push(entry);
            assert(record_views(entries@) =~= before.push(entry@));
        },
    }
}

/// Scans one sector of a directory's data, adding its entries to `listing`.
/// Returns whether the scan ran past the end of the directory.
pub fn scan_sector(sector: &[u8], extent: u32, listing: &mut Vec<Record>) -> (r: Result<bool, Error>)
    requires
        is_listing(record_views(old(listing)@)),
    ensures
        is_listing(record_views(final(listing)@)),
        match spec_scan_sector(sector@, 0, extent, record_views(old(listing)@)) {
            Err(e) => r == Err::<bool, Error>(e),
            Ok((longer, finished)) => r == Ok::<bool, Error>(finished) && record_views(final(listing)@) == longer,
        },
{
    let ghost begin = record_views(listing@);
    let mut at: usize = 0;
    while at < sector.len() && sector[at] != 0
        invariant
            at <= sector@.len(),
            begin == record_views(old(listing)@),
            is_listing(record_views(listing@)),
            spec_scan_sector(sector@, 0, extent, begin) == spec_scan_sector(
                sector@,
                at as int,
                extent,
                record_views(listing@),
            ),
        decreases sector@.len() - at,
    {
        let length = sector[at] as usize;
        let (_, entry) = record(slice_subrange(sector, at, sector.len()))?;
        if is_self_name(&entry.name) && entry.extent != extent {
            return Ok(true);
        }
        if !is_self_name(&entry.name) && !is_parent_name(&entry.name) {
            add_entry(listing, entry);
        }
        at = at + length;
    }
    Ok(false)
}

/// The state of reading one directory.
pub struct DirectoryScan {
    /// The block at which the directory's data starts.
    pub extent: u32,
    /// The length in bytes of the directory's data.
    pub data_length: u32,
    /// The number of bytes scanned so far.
    pub total: u64,
    /// The entries found so far.
    pub listing: Vec<Record>,
    /// Whether the scan ran past the end of the directory.
    pub finished: bool,
}

impl DirectoryScan {
    /// True when the state is one that a scan can be in.
    pub open spec fn wf(&self) -> bool {
        &&& is_listing(record_views(self.listing@))
        &&& self.total <= self.data_length + SECTOR_SIZE
    }

    /// True when no further sector is wanted.
    pub open spec fn spec_is_done(&self) -> bool {
        self.finished || self.total >= self.data_length
    }

    /// The position in the image of the sector that the scan wants next.
    pub open spec fn spec_position(&self) -> int {
        self.extent * SECTOR_SIZE + self.total
    }

    /// The entries that the scan ends with when it goes on over `image`.
    pub open spec fn outcome(&self, image: Seq<u8>) -> Result<Seq<RecordView>, Error> {
        if self.finished {
            Ok(record_views(self.listing@))
        } else {
            spec_scan_directory(
                image,
                self.extent,
                self.data_length,
                self.total as int,
                record_views(self.listing@),
            )
        }
    }

    /// Starts to read the directory that `directory` describes.
    pub fn new(directory: &Record) -> (scan: DirectoryScan)
        ensures
            scan.wf(),
            scan.extent == directory.extent,
            scan.data_length == directory.data_length,
            scan.total == 0,
            scan.listing@.len() == 0,
            !scan.finished,
    {
        DirectoryScan {
            extent: directory.extent,
            data_length: directory.data_length,
            total: 0,
            listing: Vec::new(),
            finished: false,
        }
    }

    /// Whether no further sector is wanted.
    pub fn is_done(&self) -> (done: bool)
        ensures
            done == self.spec_is_done(),
    {
        self.finished || self.total >= self.data_length as u64
    }

    /// The position in the image of the sector that the scan wants next.
    pub fn position(&self) -> (offset: u64)
        requires
            self.wf(),
        ensures
            offset == self.spec_position(),
    {
        self.extent as u64 * SECTOR_SIZE as u64 + self.total
    }

    /// Scans the next sector of the directory's data.
    pub fn feed(&mut self, sector: &[u8]) -> (r: Result<(), Error>)
        requires
            old(self).wf(),
            !old(self).spec_is_done(),
        ensures
            final(self).wf(),
            final(self).extent == old(self).extent,
            final(self).data_length == old(self).data_length,
            match spec_scan_sector(sector@, 0, old(self).extent, record_views(old(self).listing@)) {
                Err(e) => r == Err::<(), Error>(e),
                Ok((longer, finished)) => {
                    &&& r is Ok
                    &&& record_views(final(self).listing@) == longer
                    &&& final(self).finished == finished
                    &&& final(self).total == old(self).total + SECTOR_SIZE
                },
            },
    {
        let finished = scan_sector(sector, self.extent, &mut self.listing)?;
        self.finished = finished;
        self.total = self.total + SECTOR_SIZE as u64;
        Ok(())
    }

    /// The entries found, once the scan is done.
    pub fn into_listing(self) -> (listing: Vec<Record>)
        requires
            self.wf(),
        ensures
            listing == self.listing,
            is_listing(record_views(listing@)),
    {
        self.listing
    }
}

} // verus!

//! Finding the volume: the descriptors are read one sector at a time, from
//! sector 16 on, up to the set terminator.

use vstd::prelude::*;
use crate::error::Error;
use crate::iso::descriptors::{VolumeDescriptor, VolumeDescriptorView, spec_volume_descriptor};
use crate::iso::record::{Record, RecordView};

verus! {

/// The sector that holds the first volume descriptor.
pub const FIRST_DESCRIPTOR: usize = 16;

/// The bytes of the sector `index` of `image`.
pub open spec fn sector_of(image: Seq<u8>, index: int) -> Seq<u8> {
    image.subrange(index * 2048, (index + 1) * 2048)
}

/// What each whole sector of `image` holds when it is read as a volume
/// descriptor.
pub open spec fn descriptors_of(image: Seq<u8>) -> Seq<Result<VolumeDescriptorView, Error>> {
    Seq::new((image.len() / 2048) as nat, |index: int| spec_volume_descriptor(sector_of(image, index)))
}

/// What a volume needs to be read: the record of its root directory and the
/// size of its logical blocks.
pub open spec fn found_or(found: Option<(RecordView, u16)>) -> Result<(RecordView, u16), Error> {
    match found {
        Some(volume) => Ok(volume),
        None => Err(Error::NoPrimaryVolumeDescriptor),
    }
}

/// The result of reading the descriptors in `sectors` from the place
/// `index` on, when `found` is what the last primary volume descriptor
/// before that place gave.
///
/// A sector that cannot be decoded fails the scan with its failure. The set
/// terminator ends it, and there must have been a primary volume descriptor
/// by then. Sectors that end before the set terminator fail it.
pub open spec fn spec_scan_volume(
    sectors: Seq<Result<VolumeDescriptorView, Error>>,
    index: int,
    found: Option<(RecordView, u16)>,
) -> Result<(RecordView, u16), Error>
    decreases sectors.len() - index,
{
    if index < 0 || index >= sectors.len() {
        Err(Error::NoSetTerminator)
    } else {
        match sectors[index] {
            Err(e) => Err(e),
            Ok(VolumeDescriptorView::Terminator(_)) => found_or(found),
            Ok(VolumeDescriptorView::Primary(primary)) => spec_scan_volume(
                sectors,
                index + 1,
                Some((primary.root, primary.block_size)),
            ),
            Ok(VolumeDescriptorView::Boot(_)) => spec_scan_volume(sectors, index + 1, found),
        }
    }
}

/// The record of the root directory and the size of the logical blocks of
/// the volume in `image`.
pub open spec fn spec_open(image: Seq<u8>) -> Result<(RecordView, u16), Error> {
    spec_scan_volume(descriptors_of(image), FIRST_DESCRIPTOR as int, None)
}

/// True when the sector at `index` holds a primary volume descriptor.
pub open spec fn is_primary(sectors: Seq<Result<VolumeDescriptorView, Error>>, index: int) -> bool {
    &&& 0 <= index < sectors.len()
    &&& sectors[index] matches Ok(VolumeDescriptorView::Primary(_))
}

/// True when the sector at `index` holds a set terminator.
pub open spec fn is_terminator(sectors: Seq<Result<VolumeDescriptorView, Error>>, index: int) -> bool {
    &&& 0 <= index < sectors.len()
    &&& sectors[index] matches Ok(VolumeDescriptorView::Terminator(_))
}

/// True when the sector at `index` holds a descriptor after which the set
/// goes on.
pub open spec fn continues(sectors: Seq<Result<VolumeDescriptorView, Error>>, index: int) -> bool {
    &&& 0 <= index < sectors.len()
    &&& sectors[index] is Ok
    &&& !(sectors[index]->Ok_0 is Terminator)
}

/// True when the descriptors from the sector `from` on can all be read up
/// to the set terminator in the sector `end`.
pub open spec fn terminated_at(sectors: Seq<Result<VolumeDescriptorView, Error>>, from: int, end: int) -> bool {
    &&& from <= end
    &&& forall|s: int| from <= s < end ==> #[trigger] continues(sectors, s)
    &&& is_terminator(sectors, end)
}

/// True when one of the sectors from `from` up to `end` holds a primary
/// volume descriptor.
pub open spec fn primary_before(sectors: Seq<Result<VolumeDescriptorView, Error>>, from: int, end: int) -> bool {
    exists|p: int| from <= p < end && #[trigger] is_primary(sectors, p)
}

/// True when reading the descriptors from the sector `from` on reaches the
/// set terminator with a primary volume descriptor at hand: one read before
/// (`found`), or one on the way.
pub open spec fn opens(sectors: Seq<Result<VolumeDescriptorView, Error>>, from: int, found: bool) -> bool {
    exists|end: int| #[trigger] terminated_at(sectors, from, end) && (found || primary_before(sectors, from, end))
}

/// Reading the descriptors from the sector `index` on succeeds exactly when
/// they can all be read up to a set terminator and a primary volume
/// descriptor is at hand by then.
pub proof fn lemma_scan_volume(
    sectors: Seq<Result<VolumeDescriptorView, Error>>,
    index: int,
    found: Option<(RecordView, u16)>,
)
    requires
        index >= 0,
    ensures
        spec_scan_volume(sectors, index, found) is Ok <==> opens(sectors, index, found is Some),
    decreases sectors.len() - index,
{
    if continues(sectors, index) {
        let next = match sectors[index]->Ok_0 {
            VolumeDescriptorView::Primary(primary) => Some((primary.root, primary.block_size)),
            _ => found,
        };
        lemma_scan_volume(sectors, index + 1, next);
        assert(spec_scan_volume(sectors, index, found) == spec_scan_volume(sectors, index + 1, next));
        assert(!is_terminator(sectors, index));
        if opens(sectors, index + 1, next is Some) {
            let end = choose|end: int| #[trigger]
                terminated_at(sectors, index + 1, end) && (next is Some || primary_before(sectors, index + 1, end));
            assert(terminated_at(sectors, index, end));
            if is_primary(sectors, index) {
                assert(primary_before(sectors, index, end));
            } else if !(found is Some) {
                let p = choose|p: int| index + 1 <= p < end && #[trigger] is_primary(sectors, p);
                assert(index <= p < end && is_primary(sectors, p));
            }
            assert(opens(sectors, index, found is Some));
        }
        if opens(sectors, index, found is Some) {
            let end = choose|end: int| #[trigger]
                terminated_at(sectors, index, end) && (found is Some || primary_before(sectors, index, end));
            assert(terminated_at(sectors, index + 1, end));
            if !(next is Some) {
                let p = choose|p: int| index <= p < end && #[trigger] is_primary(sectors, p);
                assert(!is_primary(sectors, index));
                assert(index + 1 <= p < end && is_primary(sectors, p));
                assert(primary_before(sectors, index + 1, end));
            }
            assert(opens(sectors, index + 1, next is Some));
        }
    } else {
        assert forall|end: int| #[trigger] terminated_at(sectors, index, end) implies end == index by {
            if index < end {
                assert(continues(sectors, index));
            }
        }
        if is_terminator(sectors, index) {
            assert(spec_scan_volume(sectors, index, found) == found_or(found));
            assert(terminated_at(sectors, index, index));
            assert(!primary_before(sectors, index, index));
        } else {
            assert(spec_scan_volume(sectors, index, found) is Err);
        }
    }
}

/// An image can be opened exactly when its descriptors, from sector 16 on,
/// can all be read up to a set terminator and one of them before the
/// terminator is a primary volume descriptor.
pub proof fn law_open(image: Seq<u8>)
    ensures
        spec_open(image) is Ok <==> exists|end: int| #[trigger]
            terminated_at(descriptors_of(image), FIRST_DESCRIPTOR as int, end) && primary_before(
                descriptors_of(image),
                FIRST_DESCRIPTOR as int,
                end,
            ),
{
    lemma_scan_volume(descriptors_of(image), FIRST_DESCRIPTOR as int, None);
}

/// The state of reading the descriptors of a volume.
#[derive(Debug)]
pub struct VolumeScan {
    /// The record of the root directory, once a primary volume descriptor
    /// has been read.
    pub root: Option<Record>,
    /// The size of a logical block, once a primary volume descriptor has
    /// been read.
    pub block_size: u16,
    /// Whether the set terminator has been read.
    pub terminated: bool,
}

impl VolumeScan {
    /// What the last primary volume descriptor gave, if there was one.
    pub open spec fn found(&self) -> Option<(RecordView, u16)> {
        match self.root {
            Some(root) => Some((root@, self.block_size)),
            None => None,
        }
    }

    /// The result that the scan ends with when it goes on over `sectors`
    /// from the place `index`.
    pub open spec fn outcome(&self, sectors: Seq<Result<VolumeDescriptorView, Error>>, index: int) -> Result<
        (RecordView, u16),
        Error,
    > {
        if self.terminated {
            found_or(self.found())
        } else {
            spec_scan_volume(sectors, index, self.found())
        }
    }

    /// Starts to read the descriptors of a volume.
    pub fn new() -> (scan: VolumeScan)
        ensures
            scan.found() is None,
            !scan.terminated,
    {
        VolumeScan { root: None, block_size: 0, terminated: false }
    }

    /// Reads the next descriptor from `sector`. Returns whether it was the
    /// set terminator, after which no further sector is wanted.
    pub fn feed(&mut self, sector: &[u8]) -> (r: Result<bool, Error>)
        requires
            !old(self).terminated,
        ensures
            match spec_volume_descriptor(sector@) {
                Err(e) => r == Err::<bool, Error>(e) && *final(self) == *old(self),
                Ok(VolumeDescriptorView::Terminator(_)) => {
                    &&& r == Ok::<bool, Error>(true)
                    &&& final(self).terminated
                    &&& final(self).found() == old(self).found()
                },
                Ok(VolumeDescriptorView::Primary(primary)) => {
                    &&& r == Ok::<bool, Error>(false)
                    &&& !final(self).terminated
                    &&& final(self).found() == Some((primary.root, primary.block_size))
                },
                Ok(VolumeDescriptorView::Boot(_)) => {
                    &&& r == Ok::<bool, Error>(false)
                    &&& !final(self).terminated
                    &&& final(self).found() == old(self).found()
                },
            },
    {
        match VolumeDescriptor::parse(sector)? {
            VolumeDescriptor::Terminator(_) => {
                self.terminated = true;
                Ok(true)
            },
            VolumeDescriptor::Primary(primary) => {
                self.block_size = primary.block_size;
                self.root = Some(primary.root);
                Ok(false)
            },
            VolumeDescriptor::Boot(_) => Ok(false),
        }
    }

    /// Ends the scan: the record of the root directory and the size of the
    /// logical blocks, where the set terminator was read after a primary
    /// volume descriptor.
    pub fn finish(self) -> (r: Result<(Record, u16), Error>)
        ensures
            match r {
                Ok((root, block_size)) => self.terminated && self.found() == Some((root@, block_size)),
                Err(e) => if self.terminated {
                    self.found() is None && e == Error::NoPrimaryVolumeDescriptor
                } else {
                    e == Error::NoSetTerminator
                },
            },
    {
        if !self.terminated {
            return Err(Error::NoSetTerminator);
        }
        match self.root {
            Some(root) => Ok((root, self.block_size)),
            None => Err(Error::NoPrimaryVolumeDescriptor),
        }
    }
}

} // verus!

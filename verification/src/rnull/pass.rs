//! What becomes of a device and of the bios of a request when the request is processed.

use super::tree::Disk;
use crate::block::bio::{lemma_extents, lemma_shape_wf, op_stays, BioView, Extent};
use crate::block::SECTOR_SIZE;
use vstd::prelude::*;

verus! {

/// How far the processing of a bio has got: the device, the bio, the sector that comes next, and
/// whether every segment so far went through.
#[verifier::ext_equal]
pub struct BioPass {
    pub disk: Disk,
    pub bio: BioView,
    pub sector: int,
    pub ok: bool,
}

/// Performs `command` on one segment.
pub open spec fn pass_segment(command: u32, e: Extent, p: BioPass) -> BioPass {
    let addr = p.sector * SECTOR_SIZE;
    let data = p.bio.data(e);
    BioPass {
        disk: p.disk.transferred(command, addr, data),
        bio: p.bio.put(e, p.disk.delivered(command, addr, data)),
        sector: p.sector + e.len / SECTOR_SIZE as int,
        ok: p.disk.accepts(command, addr, e.len),
    }
}

/// Performs `command` on one segment after another, up to the first that does not go through.
pub open spec fn pass_segments(command: u32, es: Seq<Extent>, p: BioPass) -> BioPass
    decreases es.len(),
{
    if es.len() == 0 || !p.ok {
        p
    } else {
        pass_segments(command, es.drop_first(), pass_segment(command, es[0], p))
    }
}

/// Performs `command` on the segments of a bio.
pub open spec fn pass_bio(command: u32, disk: Disk, bio: BioView, sector: int) -> BioPass {
    pass_segments(command, bio.extents(), BioPass { disk, bio, sector, ok: true })
}

/// What the processing of some bios has come to: the device, the bios, and whether every segment
/// went through.
#[verifier::ext_equal]
pub struct Pass {
    pub disk: Disk,
    pub bios: Seq<BioView>,
    pub ok: bool,
}

/// Performs `command` on one bio after another, up to the first segment that does not go through.
pub open spec fn pass_bios(command: u32, disk: Disk, bios: Seq<BioView>, sector: int) -> Pass
    decreases bios.len(),
{
    if bios.len() == 0 {
        Pass { disk, bios, ok: true }
    } else {
        let p = pass_bio(command, disk, bios[0], sector);
        if p.ok {
            let rest = pass_bios(command, p.disk, bios.drop_first(), p.sector);
            Pass { bios: seq![p.bio] + rest.bios, ..rest }
        } else {
            Pass { disk: p.disk, bios: bios.update(0, p.bio), ok: false }
        }
    }
}

/// The number of sectors that processing these segments moves on by.
pub open spec fn sectors_of(es: Seq<Extent>) -> int
    decreases es.len(),
{
    if es.len() == 0 {
        0
    } else {
        es[0].len / SECTOR_SIZE as int + sectors_of(es.drop_first())
    }
}

/// The number of sectors that processing these bios moves on by.
pub open spec fn sectors_in(bios: Seq<BioView>) -> int
    decreases bios.len(),
{
    if bios.len() == 0 {
        0
    } else {
        sectors_of(bios[0].extents()) + sectors_in(bios.drop_first())
    }
}

/// Processing segments does not move back.
pub proof fn lemma_sectors_of_nonneg(es: Seq<Extent>)
    requires
        forall|i: int| 0 <= i < es.len() ==> 0 <= (#[trigger] es[i]).len,
    ensures
        sectors_of(es) >= 0,
    decreases es.len(),
{
    if es.len() > 0 {
        lemma_sectors_of_nonneg(es.drop_first());
    }
}

/// Processing bios does not move back.
pub proof fn lemma_sectors_in_nonneg(bios: Seq<BioView>)
    requires
        forall|i: int| 0 <= i < bios.len() ==> (#[trigger] bios[i]).wf(),
    ensures
        sectors_in(bios) >= 0,
    decreases bios.len(),
{
    if bios.len() > 0 {
        let bio = bios[0];
        lemma_shape_wf(bio);
        lemma_extents(bio.shape(), op_stays(bio.opf), bio.iter.cursor());
        lemma_sectors_of_nonneg(bio.extents());
        lemma_sectors_in_nonneg(bios.drop_first());
    }
}

} // verus!

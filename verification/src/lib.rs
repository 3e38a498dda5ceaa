//! Assembly of a bootable UEFI disk image, done entirely in memory.
//!
//! The pipeline has two stages. First a set of input files is packed into a
//! freshly formatted FAT filesystem image sized to fit them with slack
//! ([`fat::create_fat_filesystem`]). Then that image is wrapped in a raw disk
//! image carrying a protective MBR, a GPT header/partition-table pair and a
//! single EFI System Partition whose bytes are the FAT image
//! ([`disk::create_gpt_disk`]). The FAT and GPT binary encodings themselves
//! come from the `fatfs` and `gpt` crates; everything around those calls --
//! sizing, path decomposition, geometry, the verbatim copy -- is verified.

pub mod disk;
pub mod fat;
pub mod fileset;
pub mod paths;
pub mod sizes;

use vstd::prelude::*;
use crate::disk::{create_gpt_disk, disk_build_ok, DiskError, DiskImage};
use crate::fat::{create_fat_filesystem, fat_build_ok, fat_build_outcome, fat_error_stage, FatError};
use crate::fileset::FileSet;
use crate::sizes::{lemma_fat_size_props, spec_fat_size};

verus! {

/// Why a whole pipeline run failed: in its FAT stage or its GPT stage.
#[derive(Debug)]
pub enum BuildError {
    /// The FAT builder failed.
    Fat(FatError),
    /// The GPT assembler failed.
    Disk(DiskError),
}

/// Runs the whole pipeline: packs `files` into a FAT image tagged with
/// `volume_label`, then wraps that image in a GPT-partitioned raw disk
/// image. The GPT stage cannot fail, so the pipeline succeeds exactly
/// when the FAT build does -- always, for an empty set -- and any error
/// names its FAT stage. On success the FAT image is the exact bytes of
/// [`fat_build_outcome`]: it carries exactly the input files and their
/// ancestor directories, and sits verbatim inside the returned disk
/// image.
pub fn build_disk_image(files: &FileSet, volume_label: [u8; 11]) -> (r: Result<
    DiskImage,
    BuildError,
>)
    requires
        files.wf(),
        spec_fat_size(files.spec_total()) + 65536 <= usize::MAX,
    ensures
        r is Ok <==> fat_build_outcome(*files, volume_label@) is Some,
        files.entries@.len() == 0 ==> r is Ok,
        r matches Err(e) ==> (e matches BuildError::Fat(fe) && fat_error_stage(fe, *files)),
        r matches Ok(d) ==> (fat_build_outcome(*files, volume_label@) matches Some(img)
            && fat_build_ok(*files, volume_label@, img) && disk_build_ok(
            img,
            d.bytes@,
            d.partition_start as int,
            d.partition_size as int,
        )),
{
    proof {
        crate::fileset::lemma_total_bytes_nonneg(files.entries@);
        lemma_fat_size_props(files.spec_total());
    }
    let fat = match create_fat_filesystem(files, volume_label) {
        Ok(f) => f,
        Err(e) => {
            return Err(BuildError::Fat(e));
        },
    };
    match create_gpt_disk(&fat) {
        Ok(d) => {
            proof {
                assert(fat_build_ok(*files, volume_label@, fat@));
            }
            Ok(d)
        },
        Err(e) => Err(BuildError::Disk(e)),
    }
}

} // verus!

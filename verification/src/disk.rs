//! Wrapping a FAT image into a GPT-partitioned raw disk image.
//!
//! The disk image is a byte vector holding, from offset 0: a protective
//! MBR sector, the primary GPT header and partition array, the single
//! EFI System Partition (a verbatim copy of the FAT image), and the
//! backup GPT array and header. The GPT binary encoding comes from the
//! `gpt` crate; the protective MBR sector itself is fully deterministic
//! and stated byte for byte by [`mbr_sector`]. The assembler,
//! [`create_gpt_disk`], is verified: disk sizing, the last-LBA clamp and
//! the verbatim partition copy are all pinned down.

use vstd::prelude::*;
use crate::fat::zero_vec;

verus! {

/// Why a disk assembly failed. Each variant names the failing stage.
#[derive(Debug)]
pub enum DiskError {
    /// Writing the protective MBR failed.
    Mbr,
    /// Creating the blank GPT structure failed.
    CreateStructure,
    /// Clearing the partition table failed.
    UpdatePartitions,
    /// Adding the EFI System Partition failed.
    AddPartition,
    /// The partition just added could not be found again.
    PartitionLookup,
    /// Reading the partition's byte offset failed.
    StartOffset,
    /// Writing the GPT headers and arrays out failed.
    WriteTable,
}

/// The four little-endian bytes of `x`.
pub open spec fn u32_le(x: u32) -> Seq<u8> {
    seq![
        (x as int % 256) as u8,
        ((x as int / 256) % 256) as u8,
        ((x as int / 65536) % 256) as u8,
        ((x as int / 16777216) % 256) as u8,
    ]
}

/// The 512 bytes of a protective MBR sector: zeroed boot code and disk
/// signature, one partition record at offset 446 (CHS start 0/2/0, type
/// 0xEE, CHS end 255/255/255, first LBA 1, `last_lba` sectors), three
/// zero records, and the 0x55 0xAA signature.
pub open spec fn mbr_sector(last_lba: u32) -> Seq<u8> {
    Seq::new(
        512,
        |i: int|
            if i == 448 {
                2u8
            } else if i == 450 {
                0xEEu8
            } else if 451 <= i <= 453 {
                0xFFu8
            } else if i == 454 {
                1u8
            } else if 458 <= i <= 461 {
                u32_le(last_lba)[i - 458]
            } else if i == 510 {
                0x55u8
            } else if i == 511 {
                0xAAu8
            } else {
                0u8
            },
    )
}

/// The protective MBR's last-LBA field for a disk of `disk_len` bytes:
/// `disk_len / 512 - 1`, clamped to the largest 32-bit value when the
/// disk exceeds the 32-bit addressable range.
pub open spec fn spec_last_lba(disk_len: int) -> u32 {
    if disk_len / 512 - 1 > 0xFFFFFFFF {
        0xFFFFFFFFu32
    } else {
        (disk_len / 512 - 1) as u32
    }
}

/// Computes the protective MBR's last-LBA field for a disk of
/// `disk_size` bytes.
pub fn last_lba_for(disk_size: u64) -> (r: u32)
    requires
        disk_size >= 512,
    ensures
        r == spec_last_lba(disk_size as int),
{
    let sectors_less_one = disk_size / 512 - 1;
    if sectors_less_one > 0xFFFFFFFF {
        0xFFFFFFFF
    } else {
        sectors_less_one as u32
    }
}

/// Relies on `gpt::mbr::ProtectiveMBR::with_lb_size` and
/// `ProtectiveMBR::overwrite_lba0`: serializes the protective MBR
/// described by [`mbr_sector`] over the first 512 bytes of the buffer
/// and touches nothing else. On an in-memory buffer of at least one
/// sector nothing can fail, so it always succeeds.
#[verifier::external_body]
fn mbr_write(disk: &mut Vec<u8>, last_lba: u32) -> (r: Result<(), DiskError>)
    requires
        old(disk)@.len() >= 512,
    ensures
        r is Ok,
        final(disk)@.len() == old(disk)@.len(),
        r is Ok ==> final(disk)@ == mbr_sector(last_lba) + old(disk)@.skip(512),
{
    let mbr = gpt::mbr::ProtectiveMBR::with_lb_size(last_lba);
    mbr.overwrite_lba0(&mut std::io::Cursor::new(disk)).map_err(|_| DiskError::Mbr)?;
    Ok(())
}

/// Relies on the `gpt` crate's disk session --
/// `gpt::GptConfig::create_from_device` over 512-byte blocks,
/// `GptDisk::update_partitions` with an empty table,
/// `GptDisk::add_partition` for one partition named "boot" of
/// `partition_size` bytes and type EFI System (first-fit placement, no
/// extra alignment), `Partition::bytes_start` and `GptDisk::write` --
/// to write primary and backup GPT structures into the buffer. The
/// structures occupy sectors 1..34 and the last 33 sectors, so the
/// first sector is untouched and the returned byte offset leaves the
/// partition clear of both: it starts at or after sector 34, on a
/// sector boundary, and `partition_size` bytes fit before the backup
/// structures. The written structures declare exactly one partition,
/// the cleared table plus the "boot" row, consistently in primary and
/// backup. On an in-memory buffer of this geometry no stage can fail,
/// so the session always succeeds.
#[verifier::external_body]
fn gpt_write_table(disk: &mut Vec<u8>, partition_size: u64) -> (r: Result<u64, DiskError>)
    requires
        partition_size > 0,
        old(disk)@.len() == partition_size + 65536,
    ensures
        r is Ok,
        final(disk)@.len() == old(disk)@.len(),
        final(disk)@.subrange(0, 512) == old(disk)@.subrange(0, 512),
        r matches Ok(off) ==> 17408 <= off && off % 512 == 0,
        r matches Ok(off) ==> off + partition_size + 16896 <= old(disk)@.len(),
        r matches Ok(off) ==> gpt_primary_table(final(disk)@.subrange(512, 17408)) == boot_partition_row(off as int, partition_size as int),
        r matches Ok(off) ==> gpt_backup_consistent(final(disk)@.subrange(512, 17408), final(disk)@.subrange(old(disk)@.len() - 16896, old(disk)@.len() as int)),
{
    let mut cur = std::io::Cursor::new(disk);
    let mut g = gpt::GptConfig::new().writable(true).logical_block_size(
        gpt::disk::LogicalBlockSize::Lb512,
    ).create_from_device(&mut cur, None).map_err(|_| DiskError::CreateStructure)?;
    g.update_partitions(std::collections::BTreeMap::new()).map_err(
        |_| DiskError::UpdatePartitions,
    )?;
    let id = g.add_partition("boot", partition_size, gpt::partition_types::EFI, 0, None)
        .map_err(|_| DiskError::AddPartition)?;
    let part = g.partitions().get(&id).ok_or(DiskError::PartitionLookup)?;
    let off = part.bytes_start(gpt::disk::LogicalBlockSize::Lb512).map_err(
        |_| DiskError::StartOffset,
    )?;
    g.write().map_err(|_| DiskError::WriteTable)?;
    Ok(off)
}

/// The partition rows a GPT reader decodes from a disk's primary
/// structures -- the header sector (LBA 1) followed by the 128-entry
/// partition array (LBAs 2..34), 16896 bytes in all: the used entries,
/// each as (name, starting byte offset, declared byte length, whether
/// the type is EFI System). A pure observation of those bytes.
pub uninterp spec fn gpt_primary_table(primary: Seq<u8>) -> Seq<(Seq<char>, int, int, bool)>;

/// Whether the backup structures in a disk's 33 tail sectors (the
/// backup partition array followed by the backup header at the last
/// LBA) declare the same table as the given primary structures, per
/// GPT's redundancy rules.
pub uninterp spec fn gpt_backup_consistent(primary: Seq<u8>, tail: Seq<u8>) -> bool;

/// The one-row table the assembler declares: a partition named "boot"
/// starting at byte `off`, its declared length `size` rounded up to
/// whole sectors, of type EFI System.
pub open spec fn boot_partition_row(off: int, size: int) -> Seq<(Seq<char>, int, int, bool)> {
    seq![("boot"@, off, ((size - 1) / 512 + 1) * 512, true)]
}

/// A finished raw disk image and where its single partition sits.
pub struct DiskImage {
    /// The whole image, MBR first.
    pub bytes: Vec<u8>,
    /// Byte offset of the EFI System Partition inside `bytes`.
    pub partition_start: u64,
    /// Byte length of the EFI System Partition.
    pub partition_size: u64,
}

/// What a successful disk assembly guarantees for a FAT image `fat`:
/// the disk is exactly 64 KiB longer, the partition region is a
/// verbatim copy of `fat` placed clear of all MBR/GPT structures, the
/// first sector is the protective MBR of [`mbr_sector`], and its
/// last-LBA field at bytes 458..462 carries the clamped sector count;
/// and the GPT structures declare, consistently in primary and backup,
/// exactly one partition: "boot", of type EFI System, at that offset.
pub open spec fn disk_build_ok(fat: Seq<u8>, bytes: Seq<u8>, start: int, size: int) -> bool {
    &&& size == fat.len()
    &&& bytes.len() == fat.len() + 65536
    &&& 17408 <= start
    &&& start % 512 == 0
    &&& start + size + 16896 <= bytes.len()
    &&& bytes.subrange(start, start + size) == fat
    &&& bytes.subrange(0, 512) == mbr_sector(spec_last_lba(bytes.len() as int))
    &&& bytes.subrange(458, 462) == u32_le(spec_last_lba(bytes.len() as int))
    &&& gpt_primary_table(bytes.subrange(512, 17408)) == boot_partition_row(start, size)
    &&& gpt_backup_consistent(bytes.subrange(512, 17408), bytes.subrange(bytes.len() - 16896, bytes.len() as int))
}

/// Wraps `fat_image` in a raw disk image: sizes the disk to the
/// partition plus 64 KiB of headroom, writes the protective MBR with
/// the clamped last-LBA field, writes the GPT structures for one EFI
/// System Partition named "boot", and copies the FAT image verbatim to
/// the partition's byte offset. On an in-memory buffer no stage can
/// fail, so the assembly always succeeds.
pub fn create_gpt_disk(fat_image: &Vec<u8>) -> (r: Result<DiskImage, DiskError>)
    requires
        fat_image@.len() > 0,
        fat_image@.len() + 65536 <= usize::MAX,
    ensures
        r is Ok,
        r matches Ok(d) ==> disk_build_ok(
            fat_image@,
            d.bytes@,
            d.partition_start as int,
            d.partition_size as int,
        ),
{
    let partition_size: u64 = fat_image.len() as u64;
    let disk_size: u64 = partition_size + 65536;
    let mut bytes = zero_vec(disk_size as usize);
    let last = last_lba_for(disk_size);
    match mbr_write(&mut bytes, last) {
        Ok(_) => (),
        Err(e) => {
            return Err(e);
        },
    }
    let off64: u64 = match gpt_write_table(&mut bytes, partition_size) {
        Ok(o) => o,
        Err(e) => {
            return Err(e);
        },
    };
    proof {
        assert(bytes@.subrange(0, 512) =~= mbr_sector(last));
    }
    let ghost tbl = bytes@.subrange(512, 17408);
    let ghost tail = bytes@.subrange(bytes@.len() - 16896, bytes@.len() as int);
    let off: usize = off64 as usize;
    let mut i: usize = 0;
    while i < fat_image.len()
        invariant
            off == off64,
            fat_image@.len() + 65536 <= usize::MAX,
            bytes@.len() == fat_image@.len() + 65536,
            17408 <= off64,
            off64 + fat_image@.len() + 16896 <= bytes@.len(),
            0 <= i <= fat_image@.len(),
            last == spec_last_lba(bytes@.len() as int),
            bytes@.subrange(0, 512) == mbr_sector(last),
            bytes@.subrange(512, 17408) == tbl,
            bytes@.subrange(bytes@.len() - 16896, bytes@.len() as int) == tail,
            gpt_primary_table(tbl) == boot_partition_row(off64 as int, partition_size as int),
            gpt_backup_consistent(tbl, tail),
            forall|j: int| 0 <= j < i ==> bytes@[off64 + j] == fat_image@[j],
        decreases fat_image@.len() - i,
    {
        let b = fat_image[i];
        bytes.set(off + i, b);
        proof {
            assert(bytes@.subrange(0, 512) =~= mbr_sector(last));
            assert(bytes@.subrange(512, 17408) =~= tbl);
            assert(bytes@.subrange(bytes@.len() - 16896, bytes@.len() as int) =~= tail);
        }
        i += 1;
    }
    proof {
        assert(bytes@.subrange(off64 as int, off64 + partition_size) =~= fat_image@);
        assert forall|k: int| 0 <= k < 4 implies bytes@.subrange(458, 462)[k] == u32_le(
            last,
        )[k] by {
            assert(bytes@.subrange(0, 512)[458 + k] == mbr_sector(last)[458 + k]);
        }
        assert(bytes@.subrange(458, 462) =~= u32_le(last));
    }
    Ok(DiskImage { bytes, partition_start: off64, partition_size })
}

/// Two successful assemblies of the same FAT image agree on disk
/// length, partition size, MBR sector, and partition bytes.
pub proof fn lemma_disk_build_deterministic(
    fat: Seq<u8>,
    b1: Seq<u8>,
    s1: int,
    z1: int,
    b2: Seq<u8>,
    s2: int,
    z2: int,
)
    requires
        disk_build_ok(fat, b1, s1, z1),
        disk_build_ok(fat, b2, s2, z2),
    ensures
        b1.len() == b2.len(),
        z1 == z2,
        b1.subrange(0, 512) == b2.subrange(0, 512),
        b1.subrange(s1, s1 + z1) == b2.subrange(s2, s2 + z2),
{
}

} // verus!

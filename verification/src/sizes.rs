//! Sizing policy for the FAT filesystem image.
//!
//! The image must hold the input bytes plus the volume's own metadata
//! (reserved sectors, allocation tables, directory entries). The policy:
//! pad the needed byte count by 64 KiB, round up to a whole number of
//! mebibytes, then add one more mebibyte of headroom.

use vstd::prelude::*;

verus! {

/// One mebibyte, the rounding unit of the sizing policy.
pub const MIB: u64 = 1024 * 1024;

/// Fixed padding added to the input byte count before rounding.
pub const SIZE_SLACK: u64 = 64 * 1024;

/// `x` rounded up to the next multiple of one mebibyte.
pub open spec fn round_up_mib(x: int) -> int {
    ((x + 0x100000 - 1) / 0x100000) * 0x100000
}

/// The byte length of the FAT image built for `needed` bytes of input:
/// round `needed + 64 KiB` up to a whole mebibyte, then add one mebibyte.
pub open spec fn spec_fat_size(needed: int) -> int {
    round_up_mib(needed + 0x10000) + 0x100000
}

/// Rounding up never shrinks: the rounded value covers `x`.
proof fn lemma_round_up_mib_ge(x: int)
    ensures
        round_up_mib(x) >= x,
        round_up_mib(x) % 0x100000 == 0,
{
    let m = 0x100000;
    vstd::arithmetic::div_mod::lemma_fundamental_div_mod(x + m - 1, m);
    vstd::arithmetic::div_mod::lemma_mod_bound(x + m - 1, m);
    vstd::arithmetic::div_mod::lemma_mod_multiples_basic((x + m - 1) / m, m);
}

/// The image length is a whole number of mebibytes, exceeds the padded
/// input size, and is never below two mebibytes.
pub proof fn lemma_fat_size_props(needed: int)
    requires
        needed >= 0,
    ensures
        spec_fat_size(needed) % 0x100000 == 0,
        spec_fat_size(needed) >= needed + 0x10000 + 0x100000,
        spec_fat_size(needed) >= 0x200000,
{
    lemma_round_up_mib_ge(needed + 0x10000);
    let r = round_up_mib(needed + 0x10000);
    assert(r % 0x100000 == 0 && r >= 0x10000 ==> r >= 0x100000) by (nonlinear_arith);
    assert(spec_fat_size(needed) % 0x100000 == 0) by {
        assert(r % 0x100000 == 0 ==> (r + 0x100000) % 0x100000 == 0) by (nonlinear_arith);
    }
}

/// Computes the image length for `needed` input bytes.
pub fn fat_size(needed: u64) -> (r: u64)
    requires
        spec_fat_size(needed as int) <= u64::MAX,
    ensures
        r == spec_fat_size(needed as int),
{
    proof {
        lemma_fat_size_props(needed as int);
        vstd::arithmetic::div_mod::lemma_div_plus_one(needed + 0xFFFF, 0x100000);
        assert(((needed + 0xFFFF) / 0x100000 + 1) * 0x100000 == round_up_mib(needed as int + 0x10000))
            by (nonlinear_arith)
        requires
            (needed + 0xFFFF) / 0x100000 + 1 == (needed as int + 0x10000 + 0x100000 - 1) / 0x100000,
        ;
    }
    ((needed + (SIZE_SLACK - 1)) / MIB + 1) * MIB + MIB
}

} // verus!

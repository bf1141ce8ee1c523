//! Boot parameters: the constants decoded from sector 0 of the volume.

use vstd::prelude::*;
use vstd::arithmetic::power2::{lemma2_to64, lemma_pow2_adds, lemma_pow2_strictly_increases, pow2};
use vstd::bits::lemma_u64_shl_is_mul;
use vstd::bytes::{spec_u16_from_le_bytes, spec_u32_from_le_bytes, u16_from_le_bytes, u32_from_le_bytes};
use vstd::slice::slice_subrange;
use crate::OpenError;

verus! {

/// Represents VolumeFlags in the boot sector.
#[derive(Clone, Copy, Debug)]
pub struct VolumeFlags(pub u16);

impl VolumeFlags {
    /// Index of the active FAT: bit 0 of the flags.
    pub fn active_fat(self) -> (r: usize)
        ensures
            r == self.spec_active_fat(),
            r <= 1,
    {
        let b = self.0;
        proof {
            assert(b & 1 <= 1) by (bit_vector);
        }
        (b & 1) as usize
    }

    pub open spec fn spec_active_fat(self) -> int {
        (self.0 & 1) as int
    }
}

/// Geometry and layout constants decoded from the boot sector.
#[derive(Clone, Copy, Debug)]
pub struct Params {
    pub fat_offset: u64,
    pub fat_length: u64,
    pub cluster_heap_offset: u64,
    pub cluster_count: usize,
    pub first_cluster_of_root_directory: usize,
    pub volume_flags: VolumeFlags,
    pub bytes_per_sector: u64,
    pub sectors_per_cluster: u64,
    pub number_of_fats: u8,
}

/// The boot sector carries the exFAT signature: bytes 3..11 spell
/// `"EXFAT   "` and bytes 11..64 are all zero.
pub open spec fn spec_signature_ok(s: Seq<u8>) -> bool {
    &&& s[3] == 0x45u8
    &&& s[4] == 0x58u8
    &&& s[5] == 0x46u8
    &&& s[6] == 0x41u8
    &&& s[7] == 0x54u8
    &&& s[8] == 0x20u8
    &&& s[9] == 0x20u8
    &&& s[10] == 0x20u8
    &&& forall|i: int| 11 <= i < 64 ==> s[i] == 0u8
}

impl Params {
    /// Bytes covered by one cluster.
    pub open spec fn spec_cluster_size(self) -> int {
        self.sectors_per_cluster * self.bytes_per_sector
    }

    /// Every mounted volume satisfies this: sector size is a power of two
    /// in [512, 4096], a cluster covers at most 2^25 bytes, and all
    /// sector-addressed fields fit in 32 bits.
    pub open spec fn wf(self) -> bool {
        &&& (self.bytes_per_sector == 512 || self.bytes_per_sector == 1024
            || self.bytes_per_sector == 2048 || self.bytes_per_sector == 4096)
        &&& 1 <= self.sectors_per_cluster
        &&& 512 <= self.spec_cluster_size() <= 0x2000000
        &&& self.spec_cluster_size() % 32 == 0
        &&& (self.number_of_fats == 1 || self.number_of_fats == 2)
        &&& self.fat_offset <= u32::MAX
        &&& self.fat_length <= u32::MAX
        &&& self.cluster_heap_offset <= u32::MAX
        &&& self.cluster_count <= u32::MAX
        &&& self.first_cluster_of_root_directory <= u32::MAX
    }

    pub fn cluster_size(&self) -> (r: u64)
        requires
            self.wf(),
        ensures
            r == self.spec_cluster_size(),
    {
        self.sectors_per_cluster * self.bytes_per_sector
    }

    /// Decodes the boot sector. Accepts exactly the sectors that carry the
    /// exFAT signature, a BytesPerSectorShift in 9..=12, a
    /// SectorsPerClusterShift of at most 25 minus that, and 1 or 2 FATs.
    pub fn load(boot: &Vec<u8>) -> (r: Result<Params, OpenError>)
        requires
            boot@.len() == 512,
        ensures
            r matches Ok(p) ==> p.wf(),
            r matches Ok(p) ==> {
                &&& spec_signature_ok(boot@)
                &&& p.fat_offset == spec_u32_from_le_bytes(boot@.subrange(80, 84)) as u64
                &&& p.fat_length == spec_u32_from_le_bytes(boot@.subrange(84, 88)) as u64
                &&& p.cluster_heap_offset == spec_u32_from_le_bytes(boot@.subrange(88, 92)) as u64
                &&& p.cluster_count == spec_u32_from_le_bytes(boot@.subrange(92, 96)) as usize
                &&& p.first_cluster_of_root_directory == spec_u32_from_le_bytes(
                    boot@.subrange(96, 100),
                ) as usize
                &&& p.volume_flags.0 == spec_u16_from_le_bytes(boot@.subrange(106, 108))
                &&& p.bytes_per_sector == 1u64 << (boot@[108] as u64)
                &&& p.sectors_per_cluster == 1u64 << (boot@[109] as u64)
                &&& p.number_of_fats == boot@[110]
            },
            r == Err::<Params, OpenError>(OpenError::NotExFat) <==> !spec_signature_ok(boot@),
            r == Err::<Params, OpenError>(OpenError::InvalidBytesPerSectorShift) <==> (
                spec_signature_ok(boot@) && !(9 <= boot@[108] <= 12)),
            r == Err::<Params, OpenError>(OpenError::InvalidSectorsPerClusterShift) <==> (
                spec_signature_ok(boot@) && 9 <= boot@[108] <= 12 && boot@[109] > 25 - boot@[108]),
            r == Err::<Params, OpenError>(OpenError::InvalidNumberOfFats) <==> (
                spec_signature_ok(boot@) && 9 <= boot@[108] <= 12 && boot@[109] <= 25 - boot@[108]
                && !(boot@[110] == 1 || boot@[110] == 2)),
            r is Ok <==> (spec_signature_ok(boot@) && 9 <= boot@[108] <= 12
                && boot@[109] <= 25 - boot@[108] && (boot@[110] == 1 || boot@[110] == 2)),
    {
        if !(boot[3] == 0x45 && boot[4] == 0x58 && boot[5] == 0x46 && boot[6] == 0x41
            && boot[7] == 0x54 && boot[8] == 0x20 && boot[9] == 0x20 && boot[10] == 0x20) {
            return Err(OpenError::NotExFat);
        }
        let mut i: usize = 11;
        while i < 64
            invariant
                11 <= i <= 64,
                boot@.len() == 512,
                forall|j: int| 11 <= j < i ==> boot@[j] == 0u8,
            decreases 64 - i,
        {
            if boot[i] != 0 {
                return Err(OpenError::NotExFat);
            }
            i = i + 1;
        }

        let bps_shift = boot[108];
        if !(9 <= bps_shift && bps_shift <= 12) {
            return Err(OpenError::InvalidBytesPerSectorShift);
        }
        let spc_shift = boot[109];
        if spc_shift > 25 - bps_shift {
            return Err(OpenError::InvalidSectorsPerClusterShift);
        }
        let nfats = boot[110];
        if !(nfats == 1 || nfats == 2) {
            return Err(OpenError::InvalidNumberOfFats);
        }

        let bytes_per_sector = 1u64 << (bps_shift as u64);
        let sectors_per_cluster = 1u64 << (spc_shift as u64);

        proof {
            lemma_cluster_geometry(bps_shift as u64, spc_shift as u64);
        }

        Ok(Params {
            fat_offset: u32_from_le_bytes(slice_subrange(boot.as_slice(), 80, 84)) as u64,
            fat_length: u32_from_le_bytes(slice_subrange(boot.as_slice(), 84, 88)) as u64,
            cluster_heap_offset: u32_from_le_bytes(slice_subrange(boot.as_slice(), 88, 92)) as u64,
            cluster_count: u32_from_le_bytes(slice_subrange(boot.as_slice(), 92, 96)) as usize,
            first_cluster_of_root_directory: u32_from_le_bytes(
                slice_subrange(boot.as_slice(), 96, 100),
            ) as usize,
            volume_flags: VolumeFlags(u16_from_le_bytes(slice_subrange(boot.as_slice(), 106, 108))),
            bytes_per_sector,
            sectors_per_cluster,
            number_of_fats: nfats,
        })
    }
}

/// With a sector shift in 9..=12 and a total shift of at most 25, the two
/// decoded sizes multiply to a cluster size in [512, 2^25] divisible by 32.
proof fn lemma_cluster_geometry(b: u64, s: u64)
    requires
        9 <= b <= 12,
        s <= 25 - b,
    ensures
        (1u64 << b) == pow2(b as nat),
        (1u64 << s) == pow2(s as nat),
        (1u64 << b) == 512 || (1u64 << b) == 1024 || (1u64 << b) == 2048 || (1u64 << b) == 4096,
        1 <= (1u64 << s),
        512 <= (1u64 << s) as int * (1u64 << b) as int <= 0x2000000,
        ((1u64 << s) as int * (1u64 << b) as int) % 32 == 0,
{
    lemma2_to64();
    assert(pow2(b as nat) <= pow2(12)) by {
        if b < 12 {
            lemma_pow2_strictly_increases(b as nat, 12);
        }
    }
    assert(pow2(s as nat) <= pow2(16)) by {
        if s < 16 {
            lemma_pow2_strictly_increases(s as nat, 16);
        }
    }
    lemma_u64_shl_is_mul(1u64, b);
    lemma_u64_shl_is_mul(1u64, s);
    lemma_pow2_adds(s as nat, b as nat);
    assert(pow2((s + b) as nat) >= pow2(9)) by {
        if 9 < s + b {
            lemma_pow2_strictly_increases(9, (s + b) as nat);
        }
    }
    assert(pow2((s + b) as nat) <= pow2(25)) by {
        if s + b < 25 {
            lemma_pow2_strictly_increases((s + b) as nat, 25);
        }
    }
    lemma_pow2_adds(5, (s + b - 5) as nat);
    assert((32 * pow2((s + b - 5) as nat)) as int % 32 == 0) by {
        vstd::arithmetic::div_mod::lemma_mod_multiples_basic(
            pow2((s + b - 5) as nat) as int,
            32,
        );
    }
}

} // verus!

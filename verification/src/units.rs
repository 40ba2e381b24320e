use vstd::prelude::*;

verus! {

/// Bytes in one mebibyte.
pub const MIB: u64 = 1048576;

/// Bytes in one gibibyte.
pub const GIB: u64 = 1073741824;

/// Whole mebibytes in `bytes`, rounded down, as `bytes / 1024 / 1024`.
pub fn bytes_to_mib(bytes: u64) -> (mib: u64)
    ensures
        mib == bytes / 1024 / 1024,
        mib == bytes / MIB,
{
    proof {
        vstd::arithmetic::div_mod::lemma_div_denominator(bytes as int, 1024, 1024);
    }
    bytes / 1024 / 1024
}

/// Whole gibibytes in `bytes`, rounded down, as `bytes / 1024 / 1024 / 1024`.
pub fn bytes_to_gib(bytes: u64) -> (gib: u64)
    ensures
        gib == bytes / 1024 / 1024 / 1024,
        gib == bytes / GIB,
{
    proof {
        vstd::arithmetic::div_mod::lemma_div_denominator(bytes as int, 1024, 1024);
        vstd::arithmetic::div_mod::lemma_div_denominator(bytes as int, 1048576, 1024);
    }
    bytes / 1024 / 1024 / 1024
}

/// Memory figures of the report, each in whole mebibytes.
pub struct MemoryUsage {
    pub used_mb: u64,
    pub total_mb: u64,
    pub free_mb: u64,
}

/// The memory part of the report: used, total and free bytes, each turned
/// into whole mebibytes.
pub fn memory_usage(total_bytes: u64, used_bytes: u64, free_bytes: u64) -> (m: MemoryUsage)
    ensures
        m.total_mb == total_bytes / MIB,
        m.used_mb == used_bytes / MIB,
        m.free_mb == free_bytes / MIB,
{
    MemoryUsage {
        used_mb: bytes_to_mib(used_bytes),
        total_mb: bytes_to_mib(total_bytes),
        free_mb: bytes_to_mib(free_bytes),
    }
}

} // verus!

use vstd::prelude::*;

use crate::units::{bytes_to_gib, GIB};

verus! {

/// One mounted disk as read from the machine: its name, its size and the
/// space still available on it, in bytes.
pub struct DiskSample {
    pub name: String,
    pub total_bytes: u64,
    pub available_bytes: u64,
}

/// One disk line of the report, its figures in whole gibibytes.
pub struct DiskUsage {
    pub name: String,
    pub total_gb: u64,
    pub free_gb: u64,
    pub used_gb: u64,
}

/// The available space of `d` does not exceed its size, so that the used
/// space `total - available` is defined.
pub open spec fn disk_is_consistent(d: DiskSample) -> bool {
    d.available_bytes <= d.total_bytes
}

/// The report line of disk `d`: total, available and used space (size less
/// available), each in whole gibibytes.
pub open spec fn disk_usage_of(d: DiskSample) -> DiskUsage {
    DiskUsage {
        name: d.name,
        total_gb: d.total_bytes / GIB,
        free_gb: d.available_bytes / GIB,
        used_gb: ((d.total_bytes - d.available_bytes) / (GIB as int)) as u64,
    }
}

/// The report line of one disk.
pub fn disk_usage(d: &DiskSample) -> (u: DiskUsage)
    requires
        disk_is_consistent(*d),
    ensures
        u == disk_usage_of(*d),
        u.name == d.name,
        u.total_gb == d.total_bytes / GIB,
        u.free_gb == d.available_bytes / GIB,
        u.used_gb == (d.total_bytes - d.available_bytes) / (GIB as int),
{
    DiskUsage {
        name: d.name.clone(),
        total_gb: bytes_to_gib(d.total_bytes),
        free_gb: bytes_to_gib(d.available_bytes),
        used_gb: bytes_to_gib(d.total_bytes - d.available_bytes),
    }
}

/// Whether every disk of `disks` is consistent, so that its used space is
/// defined.
pub fn disks_are_consistent(disks: &Vec<DiskSample>) -> (ok: bool)
    ensures
        ok == forall|i: int| 0 <= i < disks.len() ==> disk_is_consistent(#[trigger] disks@[i]),
{
    let mut i: usize = 0;
    while i < disks.len()
        invariant
            i <= disks.len(),
            forall|j: int| 0 <= j < i ==> disk_is_consistent(#[trigger] disks@[j]),
        decreases disks.len() - i,
    {
        if disks[i].available_bytes > disks[i].total_bytes {
            return false;
        }
        i = i + 1;
    }
    true
}

/// The disk lines of the report: one for each disk, in the order given.
pub fn summarize_disks(disks: &Vec<DiskSample>) -> (lines: Vec<DiskUsage>)
    requires
        forall|i: int| 0 <= i < disks.len() ==> disk_is_consistent(#[trigger] disks@[i]),
    ensures
        lines.len() == disks.len(),
        forall|i: int| 0 <= i < disks.len() ==> #[trigger] lines@[i] == disk_usage_of(disks@[i]),
        forall|i: int| 0 <= i < disks.len() ==> {
            &&& (#[trigger] lines@[i]).name == disks@[i].name
            &&& lines@[i].total_gb == disks@[i].total_bytes / GIB
            &&& lines@[i].free_gb == disks@[i].available_bytes / GIB
            &&& lines@[i].used_gb == (disks@[i].total_bytes - disks@[i].available_bytes) / (GIB as int)
        },
{
    let mut lines: Vec<DiskUsage> = Vec::new();
    let mut i: usize = 0;
    while i < disks.len()
        invariant
            i <= disks.len(),
            lines.len() == i,
            forall|j: int| 0 <= j < disks.len() ==> disk_is_consistent(#[trigger] disks@[j]),
            forall|j: int| 0 <= j < i ==> #[trigger] lines@[j] == disk_usage_of(disks@[j]),
            forall|j: int| 0 <= j < i ==> {
                &&& (#[trigger] lines@[j]).name == disks@[j].name
                &&& lines@[j].total_gb == disks@[j].total_bytes / GIB
                &&& lines@[j].free_gb == disks@[j].available_bytes / GIB
                &&& lines@[j].used_gb == (disks@[j].total_bytes - disks@[j].available_bytes) / (GIB as int)
            },
        decreases disks.len() - i,
    {
        let line = disk_usage(&disks[i]);
        lines.push(line);
        i = i + 1;
    }
    lines
}

/// Law: a disk's used and free figures, each rounded down to whole
/// gibibytes, add up to its total figure or fall short of it by one.
pub proof fn lemma_disk_figures_add_up(d: DiskSample)
    requires
        disk_is_consistent(d),
    ensures
        disk_usage_of(d).used_gb + disk_usage_of(d).free_gb <= disk_usage_of(d).total_gb,
        disk_usage_of(d).total_gb <= disk_usage_of(d).used_gb + disk_usage_of(d).free_gb + 1,
{
    let g = GIB as int;
    let a = (d.total_bytes - d.available_bytes) as int;
    let b = d.available_bytes as int;
    vstd::arithmetic::div_mod::lemma_fundamental_div_mod(a, g);
    vstd::arithmetic::div_mod::lemma_fundamental_div_mod(b, g);
    vstd::arithmetic::div_mod::lemma_fundamental_div_mod(a + b, g);
    assert(a / g + b / g <= (a + b) / g <= a / g + b / g + 1) by (nonlinear_arith)
        requires
            g > 0,
            a == g * (a / g) + a % g,
            b == g * (b / g) + b % g,
            a + b == g * ((a + b) / g) + (a + b) % g,
            0 <= a % g < g,
            0 <= b % g < g,
            0 <= (a + b) % g < g,
    ;
}

/// Law: a disk line counts whole gibibytes of the disk's own figures:
/// `total_gb` gibibytes fit in its size, `free_gb` in its available space
/// and `used_gb` in its used space (size less available), and in each case
/// one more gibibyte would not.
pub proof fn lemma_disk_line_in_gibibytes(d: DiskSample)
    requires
        disk_is_consistent(d),
    ensures
        disk_usage_of(d).name == d.name,
        disk_usage_of(d).total_gb * GIB <= d.total_bytes < (disk_usage_of(d).total_gb + 1) * GIB,
        disk_usage_of(d).free_gb * GIB <= d.available_bytes < (disk_usage_of(d).free_gb + 1) * GIB,
        disk_usage_of(d).used_gb * GIB <= d.total_bytes - d.available_bytes
            < (disk_usage_of(d).used_gb + 1) * GIB,
{
    let g = GIB as int;
    vstd::arithmetic::div_mod::lemma_fundamental_div_mod(d.total_bytes as int, g);
    vstd::arithmetic::div_mod::lemma_fundamental_div_mod(d.available_bytes as int, g);
    vstd::arithmetic::div_mod::lemma_fundamental_div_mod(d.total_bytes - d.available_bytes, g);
}

} // verus!

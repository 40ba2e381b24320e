use vstd::prelude::*;

use crate::network::{network_usage_of, summarize_networks, NetworkSample, NetworkUsage, NETWORK_COUNT};
use crate::processes::{is_top_list, top_processes, ProcessSample, TopProcess, TOP_PROCESS_COUNT};
use crate::storage::{disk_is_consistent, disk_usage_of, summarize_disks, DiskSample, DiskUsage};
use crate::text::{format_uptime, uptime_text};
use crate::units::{memory_usage, MemoryUsage, GIB, MIB};

verus! {

/// The whole-number readings of the machine that the metrics report is made
/// from: memory in bytes, the running processes, the disks, the network
/// interfaces, and the uptime in seconds.
pub struct MachineReading {
    pub total_memory: u64,
    pub used_memory: u64,
    pub free_memory: u64,
    pub processes: Vec<ProcessSample>,
    pub disks: Vec<DiskSample>,
    pub networks: Vec<NetworkSample>,
    pub uptime_secs: u64,
}

/// The whole-number figures and texts of the metrics report.
pub struct MetricsReport {
    pub memory: MemoryUsage,
    pub top_processes: Vec<TopProcess>,
    pub disks: Vec<DiskUsage>,
    pub networks: Vec<NetworkUsage>,
    pub uptime: String,
}

/// Every disk of the reading is consistent (available space within size).
pub open spec fn reading_is_consistent(r: MachineReading) -> bool {
    forall|i: int| 0 <= i < r.disks.len() ==> disk_is_consistent(#[trigger] r.disks@[i])
}

/// Turns a reading of the machine into the figures of the metrics report:
/// memory in whole mebibytes, the processes with the most memory, every
/// disk in whole gibibytes, the first interfaces' traffic in whole
/// mebibytes, and the uptime as hours and minutes.
pub fn summarize(reading: &MachineReading) -> (report: MetricsReport)
    requires
        reading_is_consistent(*reading),
    ensures
        report.memory.total_mb == reading.total_memory / MIB,
        report.memory.used_mb == reading.used_memory / MIB,
        report.memory.free_mb == reading.free_memory / MIB,
        is_top_list(reading.processes@, report.top_processes@, TOP_PROCESS_COUNT as int),
        report.disks.len() == reading.disks.len(),
        forall|i: int| 0 <= i < reading.disks.len() ==> #[trigger] report.disks@[i] == disk_usage_of(reading.disks@[i]),
        forall|i: int| 0 <= i < reading.disks.len() ==> {
            &&& (#[trigger] report.disks@[i]).total_gb == reading.disks@[i].total_bytes / GIB
            &&& report.disks@[i].free_gb == reading.disks@[i].available_bytes / GIB
            &&& report.disks@[i].used_gb == (reading.disks@[i].total_bytes - reading.disks@[i].available_bytes) / (GIB as int)
        },
        report.networks.len() == if reading.networks.len() < NETWORK_COUNT { reading.networks.len() } else { NETWORK_COUNT },
        forall|i: int| 0 <= i < report.networks.len() ==> #[trigger] report.networks@[i] == network_usage_of(reading.networks@[i]),
        forall|i: int| 0 <= i < report.networks.len() ==> {
            &&& (#[trigger] report.networks@[i]).rx_mb == reading.networks@[i].received_bytes / MIB
            &&& report.networks@[i].tx_mb == reading.networks@[i].transmitted_bytes / MIB
        },
        report.uptime@ == uptime_text(reading.uptime_secs),
{
    MetricsReport {
        memory: memory_usage(reading.total_memory, reading.used_memory, reading.free_memory),
        top_processes: top_processes(&reading.processes),
        disks: summarize_disks(&reading.disks),
        networks: summarize_networks(&reading.networks),
        uptime: format_uptime(reading.uptime_secs),
    }
}

} // verus!

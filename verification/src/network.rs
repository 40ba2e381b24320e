use vstd::prelude::*;

use crate::units::{bytes_to_mib, MIB};

verus! {

/// How many network interfaces the report lists.
pub const NETWORK_COUNT: usize = 4;

/// One network interface as read from the machine: its name and the bytes
/// received and sent over it in all.
pub struct NetworkSample {
    pub name: String,
    pub received_bytes: u64,
    pub transmitted_bytes: u64,
}

/// One interface line of the report, its traffic in whole mebibytes.
pub struct NetworkUsage {
    pub name: String,
    pub rx_mb: u64,
    pub tx_mb: u64,
}

/// The report line of interface `n`.
pub open spec fn network_usage_of(n: NetworkSample) -> NetworkUsage {
    NetworkUsage { name: n.name, rx_mb: n.received_bytes / MIB, tx_mb: n.transmitted_bytes / MIB }
}

/// The report line of one interface.
pub fn network_usage(n: &NetworkSample) -> (u: NetworkUsage)
    ensures
        u == network_usage_of(*n),
        u.name == n.name,
        u.rx_mb == n.received_bytes / MIB,
        u.tx_mb == n.transmitted_bytes / MIB,
{
    NetworkUsage {
        name: n.name.clone(),
        rx_mb: bytes_to_mib(n.received_bytes),
        tx_mb: bytes_to_mib(n.transmitted_bytes),
    }
}

/// The interface lines of the report: one for each of the first
/// `NETWORK_COUNT` interfaces, in the order given (all of them where there
/// are fewer).
pub fn summarize_networks(networks: &Vec<NetworkSample>) -> (lines: Vec<NetworkUsage>)
    ensures
        lines.len() == if networks.len() < NETWORK_COUNT { networks.len() } else { NETWORK_COUNT },
        forall|i: int| 0 <= i < lines.len() ==> #[trigger] lines@[i] == network_usage_of(networks@[i]),
        forall|i: int| 0 <= i < lines.len() ==> {
            &&& (#[trigger] lines@[i]).name == networks@[i].name
            &&& lines@[i].rx_mb == networks@[i].received_bytes / MIB
            &&& lines@[i].tx_mb == networks@[i].transmitted_bytes / MIB
        },
{
    let mut lines: Vec<NetworkUsage> = Vec::new();
    let mut i: usize = 0;
    while i < networks.len() && i < NETWORK_COUNT
        invariant
            i <= networks.len(),
            i <= NETWORK_COUNT,
            lines.len() == i,
            forall|j: int| 0 <= j < i ==> #[trigger] lines@[j] == network_usage_of(networks@[j]),
            forall|j: int| 0 <= j < i ==> {
                &&& (#[trigger] lines@[j]).name == networks@[j].name
                &&& lines@[j].rx_mb == networks@[j].received_bytes / MIB
                &&& lines@[j].tx_mb == networks@[j].transmitted_bytes / MIB
            },
        decreases networks.len() - i,
    {
        let line = network_usage(&networks[i]);
        lines.push(line);
        i = i + 1;
    }
    lines
}

/// Law: an interface line counts whole mebibytes of the interface's own
/// totals: `rx_mb` mebibytes fit in the bytes received and one more would
/// not, and likewise `tx_mb` for the bytes sent.
pub proof fn lemma_network_line_in_mebibytes(n: NetworkSample)
    ensures
        network_usage_of(n).name == n.name,
        network_usage_of(n).rx_mb * MIB <= n.received_bytes < (network_usage_of(n).rx_mb + 1) * MIB,
        network_usage_of(n).tx_mb * MIB <= n.transmitted_bytes < (network_usage_of(n).tx_mb + 1) * MIB,
{
    let m = MIB as int;
    vstd::arithmetic::div_mod::lemma_fundamental_div_mod(n.received_bytes as int, m);
    vstd::arithmetic::div_mod::lemma_fundamental_div_mod(n.transmitted_bytes as int, m);
}

} // verus!

use system_monitor::network::{network_usage, summarize_networks, NetworkSample, NETWORK_COUNT};
use system_monitor::port::{parse_port, port_setting, DEFAULT_PORT};
use system_monitor::processes::{top_processes, ProcessSample, TOP_PROCESS_COUNT};
use system_monitor::report::{summarize, MachineReading};
use system_monitor::storage::{disk_usage, disks_are_consistent, summarize_disks, DiskSample};
use system_monitor::text::{format_uptime, startup_message, uptime_parts};
use system_monitor::units::{bytes_to_gib, bytes_to_mib, memory_usage, GIB, MIB};

fn process(name: &str, memory_bytes: u64) -> ProcessSample {
    ProcessSample { name: name.to_string(), memory_bytes }
}

fn disk(name: &str, total_bytes: u64, available_bytes: u64) -> DiskSample {
    DiskSample { name: name.to_string(), total_bytes, available_bytes }
}

fn net(name: &str, received_bytes: u64, transmitted_bytes: u64) -> NetworkSample {
    NetworkSample { name: name.to_string(), received_bytes, transmitted_bytes }
}

#[test]
fn mebibytes_round_down() {
    assert_eq!(MIB, 1024 * 1024);
    assert_eq!(bytes_to_mib(0), 0);
    assert_eq!(bytes_to_mib(MIB - 1), 0);
    assert_eq!(bytes_to_mib(MIB), 1);
    assert_eq!(bytes_to_mib(5 * MIB + 123), 5);
    assert_eq!(bytes_to_mib(u64::MAX), u64::MAX / 1024 / 1024);
}

#[test]
fn gibibytes_round_down() {
    assert_eq!(GIB, 1024 * 1024 * 1024);
    assert_eq!(bytes_to_gib(GIB - 1), 0);
    assert_eq!(bytes_to_gib(3 * GIB + 7), 3);
    assert_eq!(bytes_to_gib(u64::MAX), 17179869183);
}

#[test]
fn memory_in_mebibytes() {
    let m = memory_usage(16 * GIB, 6 * GIB + 5 * MIB + 1, 10 * GIB - 5 * MIB - 1);
    assert_eq!(m.total_mb, 16384);
    assert_eq!(m.used_mb, 6149);
    assert_eq!(m.free_mb, 10234);
}

#[test]
fn disk_figures() {
    let d = disk("/dev/sda1", 500 * GIB + 300, 120 * GIB + 700);
    let u = disk_usage(&d);
    assert_eq!(u.name, "/dev/sda1");
    assert_eq!(u.total_gb, 500);
    assert_eq!(u.free_gb, 120);
    assert_eq!(u.used_gb, 379);
    // used + free falls one short of total here, never more
    assert_eq!(u.used_gb + u.free_gb + 1, u.total_gb);
}

#[test]
fn disk_figures_add_up_exactly() {
    let u = disk_usage(&disk("d", 10 * GIB, 4 * GIB));
    assert_eq!((u.total_gb, u.free_gb, u.used_gb), (10, 4, 6));
    assert_eq!(u.used_gb + u.free_gb, u.total_gb);
}

#[test]
fn inconsistent_disk_is_caught() {
    let disks = vec![disk("a", 10, 5), disk("b", 10, 11)];
    assert!(!disks_are_consistent(&disks));
    assert!(disks_are_consistent(&vec![disk("a", 10, 10), disk("b", 0, 0)]));
    assert!(disks_are_consistent(&Vec::new()));
}

#[test]
fn every_disk_is_listed_in_order() {
    let disks = vec![disk("a", 2 * GIB, GIB), disk("b", 8 * GIB, 0), disk("c", 0, 0)];
    let lines = summarize_disks(&disks);
    assert_eq!(lines.len(), 3);
    assert_eq!(lines[0].name, "a");
    assert_eq!(lines[1].name, "b");
    assert_eq!(lines[1].used_gb, 8);
    assert_eq!(lines[2].total_gb, 0);
}

#[test]
fn network_traffic_in_mebibytes() {
    let u = network_usage(&net("eth0", 3 * MIB + 5, MIB - 1));
    assert_eq!(u.name, "eth0");
    assert_eq!(u.rx_mb, 3);
    assert_eq!(u.tx_mb, 0);
}

#[test]
fn only_first_four_interfaces() {
    assert_eq!(NETWORK_COUNT, 4);
    let nets: Vec<NetworkSample> =
        (0..6u64).map(|i| net(&format!("if{}", i), i * MIB, 2 * i * MIB)).collect();
    let lines = summarize_networks(&nets);
    assert_eq!(lines.len(), 4);
    for (i, line) in lines.iter().enumerate() {
        assert_eq!(line.name, format!("if{}", i));
        assert_eq!(line.rx_mb, i as u64);
        assert_eq!(line.tx_mb, 2 * i as u64);
    }
    let few = summarize_networks(&vec![net("lo", 0, 0)]);
    assert_eq!(few.len(), 1);
    assert!(summarize_networks(&Vec::new()).is_empty());
}

#[test]
fn top_processes_most_memory_first() {
    let samples = vec![
        process("a", 5 * MIB),
        process("b", 50 * MIB),
        process("c", 20 * MIB),
    ];
    let top = top_processes(&samples);
    let names: Vec<&str> = top.iter().map(|p| p.name.as_str()).collect();
    assert_eq!(names, vec!["b", "c", "a"]);
    assert_eq!(top[0].position, 1);
    assert_eq!(top[0].memory_mb, 50);
    assert_eq!(top[2].memory_mb, 5);
}

#[test]
fn top_processes_ties_keep_sample_order() {
    // 3 MiB + 10 bytes and 3 MiB + 900 bytes are equal in whole mebibytes
    let samples = vec![
        process("x", 3 * MIB + 10),
        process("y", 7 * MIB),
        process("z", 3 * MIB + 900),
        process("w", 3 * MIB),
    ];
    let top = top_processes(&samples);
    let positions: Vec<usize> = top.iter().map(|p| p.position).collect();
    assert_eq!(positions, vec![1, 0, 2, 3]);
}

#[test]
fn top_processes_keeps_ten() {
    assert_eq!(TOP_PROCESS_COUNT, 10);
    let samples: Vec<ProcessSample> =
        (0..25u64).map(|i| process(&format!("p{}", i), ((i * 7) % 25) * MIB)).collect();
    let top = top_processes(&samples);
    assert_eq!(top.len(), 10);
    let mbs: Vec<u64> = top.iter().map(|p| p.memory_mb).collect();
    assert_eq!(mbs, vec![24, 23, 22, 21, 20, 19, 18, 17, 16, 15]);
    for p in &top {
        assert_eq!(samples[p.position].name, p.name);
    }
    assert!(top_processes(&Vec::new()).is_empty());
}

#[test]
fn uptime_hours_and_minutes() {
    assert_eq!(uptime_parts(0), (0, 0));
    assert_eq!(uptime_parts(3725), (1, 2));
    assert_eq!(uptime_parts(90061), (25, 1));
    assert_eq!(format_uptime(3725), "1h 2m");
    assert_eq!(format_uptime(59), "0h 0m");
    assert_eq!(format_uptime(36000 + 3599), "10h 59m");
    assert_eq!(format_uptime(u64::MAX), format!("{}h {}m", u64::MAX / 3600, (u64::MAX % 3600) / 60));
}

#[test]
fn startup_line() {
    assert_eq!(startup_message(3000), "Server running on port 3000");
    assert_eq!(startup_message(0), "Server running on port 0");
    assert_eq!(startup_message(65535), "Server running on port 65535");
}

#[test]
fn port_text_is_read_as_u16() {
    assert_eq!(parse_port("3000"), Some(3000));
    assert_eq!(parse_port("0"), Some(0));
    assert_eq!(parse_port("65535"), Some(65535));
    assert_eq!(parse_port("00080"), Some(80));
    assert_eq!(parse_port("+8080"), Some(8080));
    assert_eq!(parse_port("65536"), None);
    assert_eq!(parse_port("99999999999999999999"), None);
    assert_eq!(parse_port(""), None);
    assert_eq!(parse_port("+"), None);
    assert_eq!(parse_port("-"), None);
    assert_eq!(parse_port("-1"), None);
    assert_eq!(parse_port("++1"), None);
    assert_eq!(parse_port(" 80"), None);
    assert_eq!(parse_port("80a"), None);
    assert_eq!(parse_port("8\u{0663}"), None);
}

#[test]
fn port_text_agrees_with_std() {
    for text in ["1", "+1", "007", "65535", "65536", "", "+", "-", "-0", "1_0", "4e3", "+-1", "٣"] {
        assert_eq!(parse_port(text), text.parse::<u16>().ok(), "text {:?}", text);
    }
    for p in [0u16, 1, 9, 10, 443, 3000, 65535] {
        assert_eq!(parse_port(&p.to_string()), Some(p));
    }
}

#[test]
fn port_setting_defaults_to_3001() {
    assert_eq!(DEFAULT_PORT, 3001);
    assert_eq!(port_setting(None), Some(3001));
    assert_eq!(port_setting(Some("8080")), Some(8080));
    assert_eq!(port_setting(Some("web")), None);
}

#[test]
fn reported_port_reads_back() {
    for p in [0u16, 80, 3000, 65535] {
        let line = startup_message(p);
        let text = line.strip_prefix("Server running on port ").unwrap();
        assert_eq!(parse_port(text), Some(p));
    }
}

#[test]
fn whole_report() {
    let reading = MachineReading {
        total_memory: 8 * GIB,
        used_memory: 3 * GIB,
        free_memory: 5 * GIB,
        processes: vec![process("init", MIB), process("db", 900 * MIB), process("web", 120 * MIB)],
        disks: vec![disk("root", 100 * GIB, 40 * GIB)],
        networks: vec![net("lo", 10 * MIB, 10 * MIB), net("eth0", 2048 * MIB, 512 * MIB)],
        uptime_secs: 2 * 3600 + 15 * 60 + 42,
    };
    let report = summarize(&reading);
    assert_eq!(report.memory.total_mb, 8192);
    assert_eq!(report.memory.used_mb, 3072);
    assert_eq!(report.memory.free_mb, 5120);
    let names: Vec<&str> = report.top_processes.iter().map(|p| p.name.as_str()).collect();
    assert_eq!(names, vec!["db", "web", "init"]);
    assert_eq!(report.disks.len(), 1);
    assert_eq!(report.disks[0].used_gb, 60);
    assert_eq!(report.networks.len(), 2);
    assert_eq!(report.networks[1].rx_mb, 2048);
    assert_eq!(report.uptime, "2h 15m");
}

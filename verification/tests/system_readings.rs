use macmon::models::cpu::{usage, usage_fits_u64, CpuCore, CpuSample, TickKind};
use macmon::models::memory::MemoryInfo;
use macmon::models::process::ProcessInfo;
use macmon::system::cpu::{sample_from_load, CpuSampler};
use macmon::system::disk::{io_totals, io_totals_fit, storage_fits_u64, storage_usage, BlockCounts, DiskSampler};
use macmon::system::memory::{pages_fit_u64, sample, VmStatistics};
use macmon::system::network::{totals, totals_fit, InterfaceCounters, NetworkSampler};
use macmon::system::processes::{
    nul_terminated_len, path_len, pids_to_query, state_char, user_name, ProcessSampler,
};

fn ticks(user: u64, system: u64, idle: u64, nice: u64) -> CpuCore {
    CpuCore { user, system, idle, nice }
}

#[test]
fn cpu_sampler_first_reading_gives_no_usage() {
    let mut s = CpuSampler::new();
    assert!(s.sample(Some(CpuSample { cores: vec![ticks(1, 2, 3, 4)] })).is_none());
    assert!(s.sample(None).is_none());
    let u = s.sample(Some(CpuSample { cores: vec![ticks(11, 7, 13, 4)] })).unwrap();
    assert_eq!((u.user, u.system, u.idle, u.total), (10, 5, 10, 25));
    assert_eq!((u.cores[0].busy, u.cores[0].total), (15, 25));
}

#[test]
fn cpu_usage_of_equal_readings_is_zero() {
    let a = CpuSample { cores: vec![ticks(5, 6, 7, 8), ticks(1, 1, 1, 1)] };
    let b = CpuSample { cores: vec![ticks(5, 6, 7, 8), ticks(1, 1, 1, 1)] };
    let u = usage(&a, &b);
    assert_eq!((u.user, u.system, u.idle, u.total), (0, 0, 0, 0));
    assert!(u.cores.iter().all(|c| c.busy == 0 && c.total == 0));
}

#[test]
fn cpu_busy_never_exceeds_total() {
    let a = CpuSample { cores: vec![ticks(100, 100, 100, 100), ticks(0, 0, 0, 0)] };
    let b = CpuSample { cores: vec![ticks(150, 90, 400, 101), ticks(3, 4, 0, 5)] };
    let u = usage(&a, &b);
    for c in &u.cores {
        assert!(c.busy <= c.total);
    }
    assert!(u.user + u.system <= u.total);
    assert_eq!((u.cores[0].busy, u.cores[0].total), (51, 351));
    assert_eq!((u.cores[1].busy, u.cores[1].total), (12, 12));
}

#[test]
fn cpu_usage_pairs_cores_by_position() {
    let a = CpuSample { cores: vec![ticks(0, 0, 0, 0), ticks(0, 0, 0, 0), ticks(0, 0, 0, 0)] };
    let b = CpuSample { cores: vec![ticks(1, 0, 1, 0)] };
    assert_eq!(usage(&a, &b).cores.len(), 1);
}

#[test]
fn cpu_ticks_report_overflow() {
    let big = CpuSample { cores: vec![ticks(u64::MAX, 0, 0, 1)] };
    assert_eq!(big.checked_ticks(TickKind::User), None);
    assert_eq!(big.checked_ticks(TickKind::System), Some(0));
    let small = CpuSample { cores: vec![ticks(1, 2, 3, 4), ticks(10, 20, 30, 40)] };
    assert_eq!(small.checked_ticks(TickKind::User), Some(55));
    assert_eq!(small.idle_ticks(), 33);
    assert!(usage_fits_u64(&small, &small));
    assert!(!usage_fits_u64(&small, &big));
}

fn vm(page_size: u64) -> VmStatistics {
    VmStatistics { page_size, free: 10, active: 20, inactive: 30, wired: 40, compressed: 50, purgeable: 60 }
}

#[test]
fn memory_is_page_counts_times_page_size() {
    let m = sample(Some(1 << 34), Some(vm(16384)), Some((1 << 30, 1 << 20))).unwrap();
    assert_eq!(m.physical, 1 << 34);
    assert_eq!(m.free, 10 * 16384);
    assert_eq!(m.active, 20 * 16384);
    assert_eq!(m.inactive, 30 * 16384);
    assert_eq!(m.wired, 40 * 16384);
    assert_eq!(m.compressed, 50 * 16384);
    assert_eq!(m.purgeable, 60 * 16384);
    assert_eq!((m.swap_total, m.swap_used), (1 << 30, 1 << 20));
    assert_eq!(m.used(), (20 + 40 + 50) * 16384);
    assert_eq!(m.cached(), (30 + 60) * 16384);
}

#[test]
fn memory_without_swap_reads_zero_swap() {
    let m = sample(Some(8), Some(vm(4096)), None).unwrap();
    assert_eq!((m.swap_total, m.swap_used), (0, 0));
}

#[test]
fn memory_needs_size_and_statistics() {
    assert!(sample(None, Some(vm(4096)), Some((1, 1))).is_none());
    assert!(sample(Some(8), None, Some((1, 1))).is_none());
}

#[test]
fn memory_page_overflow_is_detected() {
    assert!(pages_fit_u64(&vm(4096)));
    assert!(!pages_fit_u64(&vm(u64::MAX / 2)));
    let m = MemoryInfo {
        physical: 0,
        free: 0,
        active: u64::MAX,
        inactive: 0,
        wired: 1,
        compressed: 0,
        purgeable: 0,
        swap_total: 0,
        swap_used: 0,
    };
    assert!(!m.sums_fit());
}

#[test]
fn storage_is_blocks_times_block_size() {
    let counts = BlockCounts { blocks: 1000, free: 300, available: 250, block_size: 4096 };
    assert!(storage_fits_u64(&counts));
    assert_eq!(storage_usage(Some(counts)), Some((1000 * 4096, 700 * 4096, 250 * 4096)));
    assert_eq!(storage_usage(None), None);
    let odd = BlockCounts { blocks: 1, free: 2, available: 0, block_size: 1 };
    assert!(!storage_fits_u64(&odd));
}

#[test]
fn io_totals_add_the_drivers_that_report() {
    let drivers = vec![Some((100, 200)), None, Some((1, 2))];
    assert!(io_totals_fit(&drivers));
    assert_eq!(io_totals(Some(drivers)), Some((101, 202)));
    assert_eq!(io_totals(Some(vec![None, Some((0, 0))])), None);
    assert_eq!(io_totals(Some(Vec::new())), None);
    assert_eq!(io_totals(None), None);
    assert!(!io_totals_fit(&vec![Some((u64::MAX, 0)), Some((1, 0))]));
}

#[test]
fn disk_sampler_rates_need_two_io_readings() {
    let mut s = DiskSampler::new();
    let d = s.sample(Some((10, 5, 5)), Some((100, 100)), 1_000).unwrap();
    assert_eq!((d.read_rate.bytes, d.write_rate.bytes, d.read_rate.nanos), (0, 0, 0));
    let d = s.sample(Some((10, 6, 4)), None, 2_000).unwrap();
    assert_eq!((d.read_rate.bytes, d.write_rate.bytes), (0, 0));
    let d = s.sample(Some((10, 6, 4)), Some((150, 130)), 3_000).unwrap();
    assert_eq!((d.read_rate.bytes, d.write_rate.bytes), (0, 0));
    let d = s.sample(Some((10, 6, 4)), Some((250, 100)), 4_500).unwrap();
    assert_eq!((d.read_rate.bytes, d.read_rate.nanos), (100, 1_500));
    assert_eq!((d.write_rate.bytes, d.write_rate.nanos), (0, 1_500));
    assert!(s.sample(None, Some((1, 1)), 5_000).is_none());
}

fn iface(is_link: bool, is_loopback: bool, bytes: Option<(u32, u32)>) -> InterfaceCounters {
    InterfaceCounters { is_link, is_loopback, bytes }
}

#[test]
fn network_totals_count_link_entries_but_loopback() {
    let ifaces = vec![
        iface(true, false, Some((1000, 10))),
        iface(true, true, Some((5000, 5000))),
        iface(false, false, Some((7, 7))),
        iface(true, false, None),
        iface(true, false, Some((u32::MAX, 1))),
    ];
    assert!(totals_fit(&ifaces));
    assert_eq!(totals(Some(ifaces)), Some((1000 + u32::MAX as u64, 11)));
    assert_eq!(totals(None), None);
    assert_eq!(totals(Some(Vec::new())), Some((0, 0)));
}

#[test]
fn network_sampler_reports_growth_and_never_negative() {
    let mut s = NetworkSampler::new();
    let u = s.sample(Some((500, 500)), 10).unwrap();
    assert_eq!((u.download_rate.bytes, u.upload_rate.bytes), (0, 0));
    assert!(s.sample(None, 20).is_none());
    let u = s.sample(Some((800, 100)), 40).unwrap();
    assert_eq!((u.download_rate.bytes, u.download_rate.nanos), (300, 30));
    assert_eq!((u.upload_rate.bytes, u.upload_rate.nanos), (0, 30));
    let u = s.sample(Some((900, 100)), 30).unwrap();
    assert_eq!((u.download_rate.bytes, u.download_rate.nanos), (100, 0));
}

#[test]
fn pid_listing_keeps_positive_pids_that_were_filled() {
    let pids = vec![5, 0, -1, 7, 9, 11];
    assert_eq!(pids_to_query(&pids, 16), Some(vec![5, 7]));
    assert_eq!(pids_to_query(&pids, 100), Some(vec![5, 7, 9, 11]));
    assert_eq!(pids_to_query(&pids, 3), Some(Vec::new()));
    assert_eq!(pids_to_query(&pids, 0), None);
    assert_eq!(pids_to_query(&pids, -4), None);
}

#[test]
fn strings_end_at_the_first_nul() {
    let raw = b"launchd\0junk";
    assert_eq!(nul_terminated_len(raw, raw.len()), 7);
    assert_eq!(nul_terminated_len(raw, 4), 4);
    assert_eq!(nul_terminated_len(b"abc", 3), 3);
    assert_eq!(nul_terminated_len(b"\0", 1), 0);
}

#[test]
fn executable_path_length() {
    let buf = b"/usr/bin/top\0\0\0\0";
    assert_eq!(path_len(buf, 16), Some(12));
    assert_eq!(path_len(buf, 5), Some(5));
    assert_eq!(path_len(buf, 0), None);
    assert_eq!(path_len(buf, -1), None);
}

#[test]
fn user_names_fall_back_to_the_uid() {
    assert_eq!(user_name(Some("root".to_string()), 0), "root");
    assert_eq!(user_name(Some(String::new()), 501), "501");
    assert_eq!(user_name(None, 4294967295), "4294967295");
}

#[test]
fn status_letters() {
    let letters: String = (0..7).map(state_char).collect();
    assert_eq!(letters, "?IRSTZ?");
    assert_eq!(state_char(1000), '?');
}

#[test]
fn process_from_task_adds_user_and_system_time() {
    let p = ProcessInfo::from_task(42, "zsh".to_string(), 3, 1, 1_500, 500, 4096);
    assert_eq!(p.pid, 42);
    assert_eq!(p.name, "zsh");
    assert_eq!(p.state, 'S');
    assert_eq!(p.cpu_time, 2_000);
    assert_eq!(p.cpu, 0);
    assert_eq!(f64::from_bits(p.cpu), 0.0);
    assert_eq!(p.memory, 4096);
}

#[test]
fn process_sampler_deltas_and_cpu_usage() {
    let make = |pid: i32, cpu_time: u64| ProcessInfo {
        pid,
        name: format!("p{pid}"),
        state: 'R',
        threads: 1,
        cpu_time,
        cpu: 0,
        memory: 1,
    };
    let mut s = ProcessSampler::new();
    let first = s.sample(Some(vec![make(1, 0), make(2, 100)]), 0).unwrap();
    assert_eq!(first.window, None);
    let second = s.sample(Some(vec![make(1, 600_000_000), make(2, 100)]), 1_000_000_000).unwrap();
    assert_eq!(second.window, Some(1_000_000_000));
    assert_eq!(second.cpu_deltas, vec![600_000_000, 0]);
    let cpu: Vec<u64> = second
        .cpu_deltas
        .iter()
        .map(|d| (*d as f64 / 1e9 / 1.0 * 100.0).to_bits())
        .collect();
    let listed = second.with_cpu(cpu);
    assert!((f64::from_bits(listed[0].cpu) - 60.0).abs() < 1e-9);
    assert_eq!(f64::from_bits(listed[1].cpu), 0.0);
    assert_eq!(listed[0].cpu_time, 600_000_000);
}

#[test]
fn load_array_gives_four_counters_per_core() {
    let s = sample_from_load(&vec![1, 2, 3, 4, 10, 20, 30, -1]);
    assert_eq!(s.cores.len(), 2);
    let c = &s.cores[0];
    assert_eq!((c.user, c.system, c.idle, c.nice), (1, 2, 3, 4));
    let c = &s.cores[1];
    assert_eq!((c.user, c.system, c.idle, c.nice), (10, 20, 30, u64::MAX));
    assert!(sample_from_load(&Vec::new()).cores.is_empty());
}

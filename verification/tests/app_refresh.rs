use macmon::app::{App, Key, Readings, Screen, CPU_REFRESH};
use macmon::models::cpu::{CpuCore, CpuSample};
use macmon::models::memory::MemoryInfo;
use macmon::models::process::{ProcessDetails, ProcessInfo};

const SECOND: u64 = 1_000_000_000;

fn process(pid: i32, cpu: f64, memory: u64, cpu_time: u64) -> ProcessInfo {
    ProcessInfo {
        pid,
        name: format!("p{pid}"),
        state: 'S',
        threads: 2,
        cpu_time,
        cpu: cpu.to_bits(),
        memory,
    }
}

fn nothing() -> Readings {
    Readings { cpu: None, memory: None, network: None, storage: None, io: None, processes: None }
}

fn ticks(user: u64, system: u64, idle: u64, nice: u64) -> CpuCore {
    CpuCore { user, system, idle, nice }
}

fn memory(active: u64) -> MemoryInfo {
    MemoryInfo {
        physical: 16 << 30,
        free: 1 << 30,
        active,
        inactive: 2 << 30,
        wired: 1 << 30,
        compressed: 512 << 20,
        purgeable: 1 << 20,
        swap_total: 2 << 30,
        swap_used: 0,
    }
}

#[test]
fn readings_that_are_not_due_are_ignored() {
    let mut app = App::new(0);
    let readings = Readings {
        processes: Some(vec![process(1, 1.0, 10, 0)]),
        memory: Some(memory(1 << 30)),
        network: Some((5, 5)),
        storage: Some((100, 50, 50)),
        ..nothing()
    };
    assert!(!app.refresh(SECOND / 2, readings));
    assert!(app.process_list().is_empty());
    assert!(app.memory().is_none());
    assert!(app.network_usage().is_none());
    assert!(app.disk_info().is_none());
}

#[test]
fn due_follows_the_refresh_periods() {
    let app = App::new(0);
    let d = app.due(CPU_REFRESH);
    assert!(d.cpu && !d.memory && !d.network && !d.disk && !d.processes);
    let d = app.due(SECOND - 1);
    assert!(d.cpu && !d.memory);
    let d = app.due(SECOND);
    assert!(d.cpu && d.memory && d.network && d.disk && d.processes);
    let later = App::new(5 * SECOND);
    let d = later.due(SECOND);
    assert!(!d.cpu && !d.memory && !d.network && !d.disk && !d.processes);
}

#[test]
fn cpu_usage_needs_two_readings() {
    let mut app = App::new(0);
    let first = CpuSample { cores: vec![ticks(100, 50, 1000, 0), ticks(10, 10, 500, 5)] };
    assert!(!app.refresh(CPU_REFRESH, Readings { cpu: Some(first), ..nothing() }));
    assert!(app.cpu_usage().is_none());
    let second = CpuSample { cores: vec![ticks(160, 70, 1100, 0), ticks(20, 10, 580, 15)] };
    assert!(app.refresh(2 * CPU_REFRESH, Readings { cpu: Some(second), ..nothing() }));
    let u = app.cpu_usage().as_ref().unwrap();
    assert_eq!(u.user, 60 + 10 + 10);
    assert_eq!(u.system, 20);
    assert_eq!(u.idle, 180);
    assert_eq!(u.total, 280);
    assert_eq!(u.cores.len(), 2);
    assert_eq!((u.cores[0].busy, u.cores[0].total), (80, 180));
    assert_eq!((u.cores[1].busy, u.cores[1].total), (20, 100));
}

#[test]
fn cpu_readings_too_large_for_64_bits_are_refused() {
    let mut app = App::new(0);
    app.refresh(CPU_REFRESH, Readings { cpu: Some(CpuSample { cores: vec![ticks(1, 1, 1, 1)] }), ..nothing() });
    let huge = Readings {
        cpu: Some(CpuSample { cores: vec![ticks(u64::MAX, 0, 0, 0), ticks(u64::MAX, 0, 0, 0)] }),
        ..nothing()
    };
    assert!(!app.accepts(2 * CPU_REFRESH, &huge));
    assert!(app.accepts(CPU_REFRESH + 1, &huge));
}

#[test]
fn memory_change_counts_as_update() {
    let mut app = App::new(0);
    assert!(app.refresh(SECOND, Readings { memory: Some(memory(4 << 30)), ..nothing() }));
    assert!(*app.memory() == Some(memory(4 << 30)));
    assert!(!app.refresh(2 * SECOND, Readings { memory: Some(memory(4 << 30)), ..nothing() }));
    assert!(app.refresh(3 * SECOND, Readings { memory: Some(memory(5 << 30)), ..nothing() }));
    assert!(app.refresh(4 * SECOND, nothing()));
    assert!(app.memory().is_none());
}

#[test]
fn network_rates_are_growth_over_elapsed_time() {
    let mut app = App::new(0);
    assert!(app.refresh(SECOND, Readings { network: Some((100, 50)), ..nothing() }));
    let u = app.network_usage().as_ref().unwrap();
    assert_eq!((u.total_downloaded, u.total_uploaded), (100, 50));
    assert_eq!((u.download_rate.bytes, u.download_rate.nanos), (0, 0));
    assert!(app.refresh(3 * SECOND, Readings { network: Some((300, 40)), ..nothing() }));
    let u = app.network_usage().as_ref().unwrap();
    assert_eq!((u.download_rate.bytes, u.download_rate.nanos), (200, 2 * SECOND));
    assert_eq!((u.upload_rate.bytes, u.upload_rate.nanos), (0, 2 * SECOND));
    assert_eq!((u.total_downloaded, u.total_uploaded), (300, 40));
}

#[test]
fn failed_network_reading_keeps_the_last_usage() {
    let mut app = App::new(0);
    app.refresh(SECOND, Readings { network: Some((100, 50)), ..nothing() });
    assert!(!app.refresh(2 * SECOND, nothing()));
    assert_eq!(app.network_usage().as_ref().unwrap().total_downloaded, 100);
}

#[test]
fn disk_rates_are_growth_of_the_driver_totals() {
    let mut app = App::new(0);
    let first = Readings { storage: Some((1000, 400, 600)), io: Some((10, 20)), ..nothing() };
    assert!(app.refresh(SECOND, first));
    let d = app.disk_info().as_ref().unwrap();
    assert_eq!((d.capacity, d.used, d.available), (1000, 400, 600));
    assert_eq!((d.read_rate.bytes, d.write_rate.bytes), (0, 0));
    let second = Readings { storage: Some((1000, 410, 590)), io: Some((110, 20)), ..nothing() };
    assert!(app.refresh(2 * SECOND, second));
    let d = app.disk_info().as_ref().unwrap();
    assert_eq!((d.used, d.available), (410, 590));
    assert_eq!((d.read_rate.bytes, d.read_rate.nanos), (100, SECOND));
    assert_eq!((d.write_rate.bytes, d.write_rate.nanos), (0, SECOND));
}

#[test]
fn shrinking_list_clamps_the_selection() {
    let mut app = App::new(0);
    let list = vec![process(1, 3.0, 1, 0), process(2, 2.0, 1, 0), process(3, 1.0, 1, 0)];
    app.refresh(SECOND, Readings { processes: Some(list), ..nothing() });
    app.on_key(Key::Down);
    app.on_key(Key::Down);
    assert_eq!(app.selection(), 2);
    app.refresh(2 * SECOND, Readings { processes: Some(vec![process(9, 1.0, 1, 0)]), ..nothing() });
    assert_eq!(app.selection(), 0);
    app.refresh(3 * SECOND, Readings { processes: Some(Vec::new()), ..nothing() });
    assert_eq!(app.selection(), 0);
    assert!(app.process_list().is_empty());
}

#[test]
fn shown_details_follow_the_list() {
    let mut app = App::new(0);
    app.refresh(SECOND, Readings { processes: Some(vec![process(7, 1.0, 100, 0)]), ..nothing() });
    app.on_key(Key::Enter);
    app.open_details(Some(ProcessDetails {
        pid: 7,
        name: "p7".to_string(),
        parent: 1,
        user: "me".to_string(),
        state: 'S',
        cpu: 0,
        memory: 0,
        threads: 2,
        executable: "/usr/bin/p7".to_string(),
    }));
    let updated = app.refresh(
        2 * SECOND,
        Readings { processes: Some(vec![process(7, 12.5, 900, 0)]), ..nothing() },
    );
    assert!(updated);
    match app.view() {
        Screen::Details { details, .. } => {
            assert_eq!(f64::from_bits(details.cpu), 12.5);
            assert_eq!(details.memory, 900);
            assert_eq!(details.executable, "/usr/bin/p7");
        }
        Screen::List => panic!("details expected"),
    }
}

#[test]
fn process_samples_report_cpu_time_deltas() {
    let mut app = App::new(0);
    let first = app
        .sample_processes(Some(vec![process(1, 0.0, 1, 1_000), process(2, 0.0, 1, 5_000)]), SECOND)
        .unwrap();
    assert_eq!(first.window, None);
    assert_eq!(first.cpu_deltas, vec![0, 0]);
    let second = app
        .sample_processes(
            Some(vec![process(2, 0.0, 1, 7_500), process(3, 0.0, 1, 100), process(1, 0.0, 1, 400)]),
            3 * SECOND,
        )
        .unwrap();
    assert_eq!(second.window, Some(2 * SECOND));
    assert_eq!(second.cpu_deltas, vec![2_500, 0, 0]);
    assert!(app.sample_processes(None, 4 * SECOND).is_none());
}

#[test]
fn processes_are_sampled_once_per_period() {
    let mut app = App::new(0);
    assert!(app.sample_processes(Some(vec![process(1, 0.0, 1, 0)]), SECOND / 2).is_none());
    let sample = app.sample_processes(Some(vec![process(1, 0.0, 1, 10)]), SECOND).unwrap();
    assert_eq!(sample.cpu_deltas, vec![0]);
    app.refresh(SECOND, Readings { processes: Some(vec![process(1, 0.0, 1, 10)]), ..nothing() });
    assert!(app.sample_processes(Some(vec![process(1, 0.0, 1, 20)]), SECOND + SECOND / 2).is_none());
    let sample = app.sample_processes(Some(vec![process(1, 0.0, 1, 30)]), 2 * SECOND).unwrap();
    assert_eq!(sample.cpu_deltas, vec![20]);
    assert_eq!(sample.window, Some(SECOND));
}

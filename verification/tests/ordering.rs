use macmon::models::float_bits::{floats_equal, total_order_key};
use macmon::models::process::{ProcessInfo, SortBy};
use macmon::models::sort::{goes_before, name_less, sort_processes, sorted};

fn process(pid: i32, name: &str, cpu: f64, memory: u64) -> ProcessInfo {
    ProcessInfo {
        pid,
        name: name.to_string(),
        state: 'S',
        threads: 1,
        cpu_time: 0,
        cpu: cpu.to_bits(),
        memory,
    }
}

fn pids(list: &[ProcessInfo]) -> Vec<i32> {
    list.iter().map(|p| p.pid).collect()
}

#[test]
fn cpu_order_is_the_total_order_of_doubles_descending() {
    let values = [1.0, f64::NAN, -0.0, 0.0, -1.0, f64::INFINITY, -f64::NAN, 0.25];
    let list: Vec<ProcessInfo> =
        values.iter().enumerate().map(|(i, v)| process(i as i32, "x", *v, 0)).collect();
    let mut expected: Vec<(i32, f64)> = values.iter().enumerate().map(|(i, v)| (i as i32, *v)).collect();
    expected.sort_by(|a, b| b.1.total_cmp(&a.1));
    let got = sorted(list, SortBy::Cpu);
    assert_eq!(pids(&got), expected.iter().map(|e| e.0).collect::<Vec<_>>());
    assert_eq!(pids(&got), vec![1, 5, 0, 7, 3, 2, 4, 6]);
}

#[test]
fn total_order_key_follows_total_cmp() {
    let values = [f64::NEG_INFINITY, -2.5, -0.0, 0.0, 1e-300, 3.0, f64::INFINITY, f64::NAN];
    for a in values {
        for b in values {
            let by_key = total_order_key(a.to_bits()).cmp(&total_order_key(b.to_bits()));
            assert_eq!(by_key, a.total_cmp(&b), "{a} vs {b}");
        }
    }
}

#[test]
fn floats_compare_as_doubles() {
    let values = [0.0, -0.0, 1.5, -1.5, f64::NAN, f64::INFINITY, f64::NEG_INFINITY, 5e-324];
    for a in values {
        for b in values {
            assert_eq!(floats_equal(a.to_bits(), b.to_bits()), a == b, "{a} vs {b}");
        }
    }
}

#[test]
fn memory_order_is_largest_first_and_stable() {
    let mut list = vec![
        process(1, "a", 0.0, 10),
        process(2, "b", 0.0, 30),
        process(3, "c", 0.0, 10),
        process(4, "d", 0.0, 30),
        process(5, "e", 0.0, 20),
    ];
    sort_processes(&mut list, SortBy::Memory);
    assert_eq!(pids(&list), vec![2, 4, 5, 1, 3]);
}

#[test]
fn pid_order_is_smallest_first() {
    let mut list = vec![process(300, "a", 0.0, 0), process(-1, "b", 0.0, 0), process(2, "c", 0.0, 0)];
    sort_processes(&mut list, SortBy::Pid);
    assert_eq!(pids(&list), vec![-1, 2, 300]);
}

#[test]
fn name_order_is_byte_order() {
    let mut list = vec![
        process(1, "safari", 0.0, 0),
        process(2, "Finder", 0.0, 0),
        process(3, "é", 0.0, 0),
        process(4, "s", 0.0, 0),
        process(5, "zsh", 0.0, 0),
        process(6, "Finder", 0.0, 0),
    ];
    sort_processes(&mut list, SortBy::Name);
    assert_eq!(pids(&list), vec![2, 6, 4, 1, 5, 3]);
}

#[test]
fn name_less_matches_string_order() {
    let names = ["", "a", "ab", "b", "B", "é", "e\u{301}", "zzz", "a\u{0}"];
    for a in names {
        for b in names {
            assert_eq!(name_less(&a.to_string(), &b.to_string()), a < b, "{a:?} vs {b:?}");
        }
    }
}

#[test]
fn goes_before_is_strict() {
    let a = process(1, "a", 2.0, 5);
    let b = process(2, "b", 2.0, 5);
    for by in [SortBy::Cpu, SortBy::Memory] {
        assert!(!goes_before(&a, &b, by));
        assert!(!goes_before(&b, &a, by));
    }
    assert!(goes_before(&a, &b, SortBy::Pid));
    assert!(!goes_before(&b, &a, SortBy::Pid));
    assert!(goes_before(&a, &b, SortBy::Name));
}

#[test]
fn sorting_a_sorted_list_keeps_it() {
    for by in [SortBy::Cpu, SortBy::Memory, SortBy::Pid, SortBy::Name] {
        let list = vec![
            process(4, "d", 1.0, 7),
            process(1, "a", 9.0, 7),
            process(3, "a", 1.0, 2),
            process(2, "c", 0.5, 9),
        ];
        let once = sorted(list, by);
        let before = pids(&once);
        let twice = sorted(once, by);
        assert_eq!(pids(&twice), before);
    }
}

#[test]
fn sorting_empty_and_single_lists() {
    assert!(sorted(Vec::new(), SortBy::Name).is_empty());
    assert_eq!(pids(&sorted(vec![process(9, "x", 1.0, 1)], SortBy::Cpu)), vec![9]);
}

#[test]
fn sorting_matches_a_stable_sort_on_large_lists() {
    let names = ["kernel_task", "Finder", "zsh", "Safari", "zsh", "launchd", "é", "a"];
    let cpus = [0.0, 1.5, -0.0, 99.9, 1.5, f64::NAN, 12.25, 0.5];
    let list: Vec<(i32, &str, f64, u64)> = (0..3000)
        .map(|i: i32| {
            let k = (i as usize).wrapping_mul(2654435761) % 1000;
            (i, names[k % names.len()], cpus[(k / 7) % cpus.len()], (k % 13) as u64 * 4096)
        })
        .collect();
    let build = || -> Vec<ProcessInfo> {
        list.iter().map(|(pid, name, cpu, mem)| process(*pid, name, *cpu, *mem)).collect()
    };
    for by in [SortBy::Cpu, SortBy::Memory, SortBy::Pid, SortBy::Name] {
        let mut expected = list.clone();
        match by {
            SortBy::Cpu => expected.sort_by(|a, b| b.2.total_cmp(&a.2)),
            SortBy::Memory => expected.sort_by_key(|p| std::cmp::Reverse(p.3)),
            SortBy::Pid => expected.sort_by_key(|p| p.0),
            SortBy::Name => expected.sort_by(|a, b| a.1.cmp(b.1)),
        }
        let got = sorted(build(), by);
        assert_eq!(pids(&got), expected.iter().map(|p| p.0).collect::<Vec<_>>());
    }
}

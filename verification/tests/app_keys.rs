use macmon::app::{redraw_after, Action, App, Event, Key, Readings, Screen};
use macmon::models::process::{ProcessDetails, ProcessInfo, SortBy};

const SECOND: u64 = 1_000_000_000;

fn process(pid: i32, name: &str, cpu: f64, memory: u64) -> ProcessInfo {
    ProcessInfo {
        pid,
        name: name.to_string(),
        state: 'R',
        threads: 1,
        cpu_time: 0,
        cpu: cpu.to_bits(),
        memory,
    }
}

fn details(pid: i32) -> ProcessDetails {
    ProcessDetails {
        pid,
        name: "ignored".to_string(),
        parent: 1,
        user: "root".to_string(),
        state: 'S',
        cpu: 0f64.to_bits(),
        memory: 0,
        threads: 4,
        executable: "/bin/ignored".to_string(),
    }
}

fn nothing() -> Readings {
    Readings { cpu: None, memory: None, network: None, storage: None, io: None, processes: None }
}

fn with_processes(list: Vec<ProcessInfo>) -> Readings {
    Readings { processes: Some(list), ..nothing() }
}

/// A monitor that read the list `[10: editor 5%, 20: shell 50%, 30: daemon 0.5%]` one
/// second after it started.
fn loaded() -> App {
    let mut app = App::new(0);
    let list = vec![
        process(10, "editor", 5.0, 300),
        process(20, "shell", 50.0, 100),
        process(30, "daemon", 0.5, 200),
    ];
    assert!(app.accepts(SECOND, &with_processes(copy(&list))));
    assert!(app.refresh(SECOND, with_processes(list)));
    app
}

fn copy(list: &[ProcessInfo]) -> Vec<ProcessInfo> {
    list.iter()
        .map(|p| ProcessInfo {
            pid: p.pid,
            name: p.name.clone(),
            state: p.state,
            threads: p.threads,
            cpu_time: p.cpu_time,
            cpu: p.cpu,
            memory: p.memory,
        })
        .collect()
}

fn pids(app: &App) -> Vec<i32> {
    app.process_list().iter().map(|p| p.pid).collect()
}

fn in_list(app: &App) -> bool {
    matches!(app.view(), Screen::List)
}

fn in_details(app: &App, pid: i32, confirming: bool) -> bool {
    match app.view() {
        Screen::Details { details, confirm_kill } => details.pid == pid && *confirm_kill == confirming,
        Screen::List => false,
    }
}

#[test]
fn new_monitor_shows_an_empty_list_by_cpu() {
    let app = App::new(0);
    assert!(!app.should_quit());
    assert!(app.process_list().is_empty());
    assert_eq!(app.selection(), 0);
    assert!(app.sort_by() == SortBy::Cpu);
    assert!(in_list(&app));
    assert!(app.cpu_usage().is_none());
    assert!(app.memory().is_none());
    assert!(app.network_usage().is_none());
    assert!(app.disk_info().is_none());
}

#[test]
fn refreshed_list_is_ordered_by_cpu_highest_first() {
    let app = loaded();
    assert_eq!(pids(&app), vec![20, 10, 30]);
}

#[test]
fn selection_moves_and_stays_inside_the_list() {
    let mut app = loaded();
    assert!(app.on_key(Key::Char('k')) == Action::Nothing);
    assert_eq!(app.selection(), 0);
    app.on_key(Key::Char('j'));
    assert_eq!(app.selection(), 1);
    app.on_key(Key::Down);
    assert_eq!(app.selection(), 2);
    app.on_key(Key::Down);
    app.on_key(Key::Char('j'));
    assert_eq!(app.selection(), 2);
    app.on_key(Key::Up);
    assert_eq!(app.selection(), 1);
    app.on_key(Key::Char('k'));
    app.on_key(Key::Up);
    assert_eq!(app.selection(), 0);
}

#[test]
fn moving_on_an_empty_list_keeps_selection_zero() {
    let mut app = App::new(0);
    app.on_key(Key::Down);
    app.on_key(Key::Char('j'));
    assert_eq!(app.selection(), 0);
}

#[test]
fn sort_keys_order_the_list() {
    let mut app = loaded();
    app.on_key(Key::Char('m'));
    assert!(app.sort_by() == SortBy::Memory);
    assert_eq!(pids(&app), vec![10, 30, 20]);
    app.on_key(Key::Char('p'));
    assert!(app.sort_by() == SortBy::Pid);
    assert_eq!(pids(&app), vec![10, 20, 30]);
    app.on_key(Key::Char('a'));
    assert!(app.sort_by() == SortBy::Name);
    assert_eq!(pids(&app), vec![30, 10, 20]);
    app.on_key(Key::Char('c'));
    assert!(app.sort_by() == SortBy::Cpu);
    assert_eq!(pids(&app), vec![20, 10, 30]);
}

#[test]
fn sort_key_twice_changes_nothing_more() {
    let mut app = loaded();
    app.on_key(Key::Char('j'));
    app.on_key(Key::Char('a'));
    let once = pids(&app);
    let selection = app.selection();
    app.on_key(Key::Char('a'));
    assert_eq!(pids(&app), once);
    assert_eq!(app.selection(), selection);
}

#[test]
fn sorting_keeps_tied_processes_in_their_order() {
    let mut app = App::new(0);
    let list = vec![
        process(3, "c", 1.0, 100),
        process(1, "a", 2.0, 100),
        process(2, "b", 3.0, 50),
        process(4, "d", 4.0, 100),
    ];
    app.refresh(SECOND, with_processes(list));
    assert_eq!(pids(&app), vec![4, 2, 1, 3]);
    app.on_key(Key::Char('m'));
    assert_eq!(pids(&app), vec![4, 1, 3, 2]);
}

#[test]
fn sort_keeps_every_process() {
    let mut app = loaded();
    app.on_key(Key::Char('a'));
    let mut seen = pids(&app);
    seen.sort();
    assert_eq!(seen, vec![10, 20, 30]);
}

#[test]
fn enter_asks_for_the_selected_process() {
    let mut app = loaded();
    app.on_key(Key::Down);
    assert!(app.on_key(Key::Enter) == Action::OpenDetails(10));
    assert!(in_list(&app));
}

#[test]
fn enter_on_an_empty_list_does_nothing() {
    let mut app = App::new(0);
    assert!(app.on_key(Key::Enter) == Action::Nothing);
    app.open_details(Some(details(5)));
    assert!(in_list(&app));
}

#[test]
fn details_take_usage_from_the_list() {
    let mut app = loaded();
    app.on_key(Key::Enter);
    app.open_details(Some(details(20)));
    match app.view() {
        Screen::Details { details, confirm_kill } => {
            assert_eq!(details.pid, 20);
            assert_eq!(f64::from_bits(details.cpu), 50.0);
            assert_eq!(details.memory, 100);
            assert_eq!(details.user, "root");
            assert!(!confirm_kill);
        }
        Screen::List => panic!("details expected"),
    }
}

#[test]
fn unreadable_details_keep_the_list() {
    let mut app = loaded();
    app.on_key(Key::Enter);
    app.open_details(None);
    assert!(in_list(&app));
}

#[test]
fn back_from_details_returns_to_the_same_list() {
    for back in [Key::Char('b'), Key::Esc] {
        let mut app = loaded();
        app.on_key(Key::Down);
        app.on_key(Key::Enter);
        app.open_details(Some(details(10)));
        assert!(in_details(&app, 10, false));
        assert!(app.on_key(back) == Action::Nothing);
        assert!(in_list(&app));
        assert!(!app.should_quit());
        assert_eq!(app.selection(), 1);
        assert_eq!(pids(&app), vec![20, 10, 30]);
    }
}

#[test]
fn kill_needs_confirmation() {
    let mut app = loaded();
    app.on_key(Key::Enter);
    app.open_details(Some(details(20)));
    assert!(app.on_key(Key::Char('y')) == Action::Nothing);
    assert!(in_details(&app, 20, false));
    assert!(app.on_key(Key::Char('k')) == Action::Nothing);
    assert!(in_details(&app, 20, true));
    assert!(app.on_key(Key::Char('y')) == Action::Kill(20));
    assert!(in_list(&app));
    assert_eq!(pids(&app), vec![20, 10, 30]);
}

#[test]
fn kill_can_be_cancelled() {
    for cancel in [Key::Char('n'), Key::Char('b'), Key::Esc] {
        let mut app = loaded();
        app.on_key(Key::Enter);
        app.open_details(Some(details(20)));
        app.on_key(Key::Char('k'));
        assert!(app.on_key(cancel) == Action::Nothing);
        assert!(in_details(&app, 20, false));
        assert!(!app.should_quit());
    }
}

#[test]
fn q_quits_from_the_confirmation_without_killing() {
    let mut app = loaded();
    app.on_key(Key::Enter);
    app.open_details(Some(details(20)));
    app.on_key(Key::Char('k'));
    assert!(app.on_key(Key::Char('q')) == Action::Nothing);
    assert!(app.should_quit());
}

#[test]
fn other_keys_leave_the_confirmation_open() {
    let mut app = loaded();
    app.on_key(Key::Enter);
    app.open_details(Some(details(20)));
    app.on_key(Key::Char('k'));
    assert!(app.on_key(Key::Char('x')) == Action::Nothing);
    assert!(app.on_key(Key::Enter) == Action::Nothing);
    assert!(app.on_key(Key::Other) == Action::Nothing);
    assert!(!app.should_quit());
    assert!(in_details(&app, 20, true));
}

#[test]
fn q_and_esc_quit_from_the_list() {
    let mut app = loaded();
    app.on_key(Key::Char('q'));
    assert!(app.should_quit());
    let mut app = loaded();
    app.on_key(Key::Esc);
    assert!(app.should_quit());
}

#[test]
fn q_quits_from_the_details() {
    let mut app = loaded();
    app.on_key(Key::Enter);
    app.open_details(Some(details(20)));
    app.on_key(Key::Char('q'));
    assert!(app.should_quit());
    assert!(in_details(&app, 20, false));
}

#[test]
fn quitting_is_final() {
    let mut app = loaded();
    app.on_key(Key::Char('q'));
    for key in [Key::Char('j'), Key::Char('c'), Key::Enter, Key::Esc, Key::Other, Key::Up] {
        app.on_key(key);
        assert!(app.should_quit());
    }
}

#[test]
fn unknown_keys_do_nothing() {
    let mut app = loaded();
    assert!(app.on_key(Key::Other) == Action::Nothing);
    assert!(app.on_key(Key::Char('x')) == Action::Nothing);
    assert!(!app.should_quit());
    assert_eq!(app.selection(), 0);
    assert!(app.sort_by() == SortBy::Cpu);
}

#[test]
fn redraw_follows_keys_resizes_and_updates() {
    assert!(redraw_after(false, &Event::Key(Key::Other), false));
    assert!(redraw_after(false, &Event::Resize, false));
    assert!(!redraw_after(false, &Event::Tick, false));
    assert!(redraw_after(false, &Event::Tick, true));
    assert!(redraw_after(true, &Event::Tick, false));
}

#[test]
fn details_open_only_when_asked_for() {
    let mut app = loaded();
    app.open_details(Some(details(20)));
    assert!(in_list(&app));
    app.on_key(Key::Enter);
    app.open_details(Some(details(10)));
    assert!(in_list(&app));
    app.open_details(Some(details(20)));
    assert!(in_list(&app));
    app.on_key(Key::Enter);
    app.on_key(Key::Down);
    app.open_details(Some(details(20)));
    assert!(in_list(&app));
    app.on_key(Key::Enter);
    app.open_details(Some(details(10)));
    assert!(in_details(&app, 10, false));
}

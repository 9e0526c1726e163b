use monitor::client::{
    add_data, can_add_data, device_id_of, LocalAddress, Plan, Schedule, WindowInfo,
};
use monitor::http::Add;
use monitor::tally::Tally;
use monitor::xprop::{parse_active_window, parse_window_info};
use monitor::{ActiveProgram, Program};

fn window(program: &str, title: &str) -> Option<WindowInfo> {
    Some(WindowInfo { program: program.to_string(), title: title.to_string() })
}

fn active_entries(tally: &Tally<ActiveProgram>) -> Vec<(String, u32)> {
    let mut entries = Vec::new();
    for i in 0..tally.len() {
        entries.push((tally.key_at(i).serialize(), *tally.value_at(i)));
    }
    entries.sort();
    entries
}

fn open_entries(tally: &Tally<Program>) -> Vec<(String, u32)> {
    let mut entries = Vec::new();
    for i in 0..tally.len() {
        entries.push((tally.key_at(i).program.clone(), *tally.value_at(i)));
    }
    entries.sort();
    entries
}

fn entry(key: &str, secs: u32) -> (String, u32) {
    (key.to_string(), secs)
}

#[test]
fn test_active() {
    let active_id = parse_active_window(b"_NET_ACTIVE_WINDOW(WINDOW)|0x3a00007").unwrap();
    let data = parse_window_info(
        b"_NET_WM_NAME(UTF8_STRING)|\"Cat Videos\"|WM_CLASS(STRING)|\"firefox\"|_NET_WM_WINDOW_TYPE(ATOM)|_NET_WM_WINDOW_TYPE_NORMAL",
    )
    .unwrap()
    .unwrap();
    println!("id = {}", active_id);
    println!("program = {}", &data.program);
    println!("title = {}", &data.title);
}

#[test]
fn test_device_id() {
    println!("{:?}", device_id_of(&LocalAddress::V4([192, 168, 1, 42])));
}

#[test]
fn tick_counts_every_described_window_as_open() {
    let mut add = Add::new(1);
    let seen = vec![
        (10, window("firefox", "Cat Videos \u{2014} Mozilla Firefox")),
        (11, window("code", "main.rs - monitor - Code")),
        (12, window("gnome-terminal-server", "bash")),
    ];
    add_data(&mut add, 99, &seen);
    assert_eq!(open_entries(&add.open), vec![
        entry("Code", 1),
        entry("Firefox", 1),
        entry("Gnome Terminal Server", 1)
    ]);
    assert_eq!(active_entries(&add.active), vec![]);
}

#[test]
fn tick_counts_the_focused_window_as_active() {
    let mut add = Add::new(1);
    let seen = vec![
        (10, window("firefox", "Song - YouTube \u{2014} Mozilla Firefox")),
        (11, window("code", "main.rs - monitor - Code")),
    ];
    add_data(&mut add, 11, &seen);
    assert_eq!(active_entries(&add.active), vec![entry("Code|monitor", 1)]);
    add_data(&mut add, 10, &seen);
    add_data(&mut add, 10, &seen);
    assert_eq!(active_entries(&add.active), vec![
        entry("Code|monitor", 1),
        entry("Firefox|youtube.com", 2)
    ]);
    assert_eq!(open_entries(&add.open), vec![entry("Code", 3), entry("Firefox", 3)]);
}

#[test]
fn windows_of_one_program_add_up() {
    let mut add = Add::new(1);
    let seen = vec![
        (10, window("firefox", "a \u{2014} Mozilla Firefox")),
        (11, window("Firefox", "b \u{2014} Mozilla Firefox")),
        (12, window("firefox", "c - YouTube \u{2014} Mozilla Firefox")),
    ];
    add_data(&mut add, 12, &seen);
    assert_eq!(open_entries(&add.open), vec![entry("Firefox", 3)]);
    assert_eq!(active_entries(&add.active), vec![entry("Firefox|youtube.com", 1)]);
}

#[test]
fn excluded_window_contributes_nothing() {
    let mut with = Add::new(1);
    let mut without = Add::new(1);
    let seen = vec![(10, window("firefox", "a")), (11, None), (12, window("code", "b"))];
    let rest = vec![(10, window("firefox", "a")), (12, window("code", "b"))];
    add_data(&mut with, 10, &seen);
    add_data(&mut without, 10, &rest);
    assert_eq!(open_entries(&with.open), open_entries(&without.open));
    assert_eq!(active_entries(&with.active), active_entries(&without.active));
}

#[test]
fn excluded_window_contributes_nothing_even_when_focused() {
    let mut add = Add::new(1);
    let seen = vec![(10, None), (11, window("code", "b"))];
    add_data(&mut add, 10, &seen);
    assert_eq!(active_entries(&add.active), vec![]);
    assert_eq!(open_entries(&add.open), vec![entry("Code", 1)]);
    let mut none = Add::new(1);
    add_data(&mut none, 10, &vec![(10, None)]);
    assert_eq!(none.active.len(), 0);
    assert_eq!(none.open.len(), 0);
}

#[test]
fn tick_without_windows_counts_nothing() {
    let mut add = Add::new(1);
    add_data(&mut add, 0, &Vec::new());
    assert_eq!(add.device, 1);
    assert_eq!(add.active.len(), 0);
    assert_eq!(add.open.len(), 0);
}

#[test]
fn tick_that_would_leave_the_range_is_told() {
    let mut add = Add::new(1);
    add.open.insert(Program { program: "Firefox".to_string() }, u32::MAX - 1);
    let one = vec![(10, window("firefox", "a"))];
    let two = vec![(10, window("firefox", "a")), (11, window("firefox", "b"))];
    assert!(can_add_data(&add, 0, &one));
    assert!(!can_add_data(&add, 0, &two));
    add_data(&mut add, 0, &one);
    assert_eq!(open_entries(&add.open), vec![entry("Firefox", u32::MAX)]);
    assert!(!can_add_data(&add, 0, &one));
    assert!(can_add_data(&add, 0, &vec![(10, window("code", "a")), (11, None)]));
    let mut focused = Add::new(1);
    focused.active.insert(ActiveProgram { program: "Code".to_string(), subprogram: None }, u32::MAX);
    assert!(!can_add_data(&focused, 10, &vec![(10, window("code", "a"))]));
    assert!(can_add_data(&focused, 11, &vec![(10, window("code", "a"))]));
}

#[test]
fn device_id_is_the_end_of_the_address() {
    assert_eq!(device_id_of(&LocalAddress::V4([192, 168, 1, 42])), 42);
    assert_eq!(device_id_of(&LocalAddress::V4([10, 0, 0, 255])), 255);
    assert_eq!(device_id_of(&LocalAddress::V6([0xfe80, 0, 0, 0, 1, 2, 3, 0xbeef])), 0xbeef);
}

#[test]
fn schedule_sends_the_device_first_and_the_report_next() {
    let mut schedule = Schedule::new();
    assert_eq!(schedule.step(false), Plan { count: true, send_usage: false, send_device: true });
    assert_eq!(schedule.step(false), Plan { count: true, send_usage: true, send_device: false });
    assert_eq!(schedule.step(false), Plan { count: true, send_usage: false, send_device: false });
}

#[test]
fn schedule_sends_the_report_every_fifteenth_tick() {
    let mut schedule = Schedule::new();
    let mut usage = Vec::new();
    let mut device = Vec::new();
    for tick in 0..500u32 {
        let plan = schedule.step(false);
        assert!(plan.count);
        if plan.send_usage {
            usage.push(tick);
        }
        if plan.send_device {
            device.push(tick);
        }
    }
    let expected_usage: Vec<u32> = (0..500).filter(|t| t % 15 == 1).collect();
    assert_eq!(usage, expected_usage);
    assert_eq!(device, vec![0, 120, 240, 360, 480]);
}

#[test]
fn schedule_stands_still_while_the_session_is_locked() {
    let mut schedule = Schedule::new();
    schedule.step(false);
    for _ in 0..100 {
        assert_eq!(schedule.step(true), Plan { count: false, send_usage: false, send_device: false });
    }
    assert_eq!(schedule.step(false), Plan { count: true, send_usage: true, send_device: false });
}

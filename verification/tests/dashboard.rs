use supermarket::format::{gib_label, percent_label, u64_to_string};
use supermarket::layout::{compute_layout, Region};
use supermarket::percent::{cpu_fill, cpu_label_value, mem_percent, proc_percent};
use supermarket::rank::rank_top;
use supermarket::render::FramePlan;
use supermarket::snapshot::{ProcessInfo, Snapshot, SnapshotError};
use supermarket::state::{App, Key, TermEvent};

fn proc(pid: u32, name: &str, memory: u64) -> ProcessInfo {
    ProcessInfo { pid, name: name.to_string(), memory }
}

fn full_snapshot(total: u64, used: u64, cpu_centi: u32, procs: Vec<ProcessInfo>) -> Snapshot {
    Snapshot::new(
        Some("linux".to_string()),
        Some("box".to_string()),
        Some("1.2".to_string()),
        Some("6.1.0".to_string()),
        Some(8),
        total,
        used,
        cpu_centi,
        procs,
    )
    .unwrap()
}

#[test]
fn memory_percent_half_is_fifty() {
    assert_eq!(mem_percent(8_000_000_000, 16_000_000_000), 50);
}

#[test]
fn memory_percent_rounds_half_up() {
    // 1/3 -> 33.33 rounds down, 2/3 -> 66.67 rounds up
    assert_eq!(mem_percent(1, 3), 33);
    assert_eq!(mem_percent(2, 3), 67);
    // exactly half a percent rounds up: 5/1000 of 100% = 0.5%
    assert_eq!(mem_percent(5, 1000), 1);
}

#[test]
fn memory_percent_stays_in_range() {
    assert_eq!(mem_percent(0, 16_000_000_000), 0);
    assert_eq!(mem_percent(16_000_000_000, 16_000_000_000), 100);
}

#[test]
fn memory_percent_zero_total_is_zero() {
    assert_eq!(mem_percent(0, 0), 0);
}

#[test]
fn cpu_fill_truncates_and_label_rounds() {
    // raw 99.6%: gauge fill 99, label 100
    assert_eq!(cpu_fill(9960), 99);
    assert_eq!(cpu_label_value(9960), 100);
    // raw 37.8%: gauge fill 37, label 38
    assert_eq!(cpu_fill(3780), 37);
    assert_eq!(cpu_label_value(3780), 38);
    // raw 43.2%: both 43
    assert_eq!(cpu_fill(4320), 43);
    assert_eq!(cpu_label_value(4320), 43);
}

#[test]
fn cpu_fill_clamps_bursts_label_does_not() {
    // raw 250%: multi-core burst; the fill is clamped, the label is not
    assert_eq!(cpu_fill(25000), 100);
    assert_eq!(cpu_label_value(25000), 250);
}

#[test]
fn proc_percent_truncates() {
    assert_eq!(proc_percent(8_000_000_000, 16_000_000_000), 50);
    assert_eq!(proc_percent(1, 3), 33);
    // 99.9% truncates to 99
    assert_eq!(proc_percent(999, 1000), 99);
}

#[test]
fn proc_percent_zero_total_is_zero() {
    assert_eq!(proc_percent(123, 0), 0);
}

#[test]
fn ranking_sorts_descending() {
    let procs = vec![proc(1, "a", 10), proc(2, "b", 30), proc(3, "c", 20)];
    let ranked = rank_top(procs);
    let names: Vec<&str> = ranked.iter().map(|p| p.name.as_str()).collect();
    assert_eq!(names, vec!["b", "c", "a"]);
}

#[test]
fn ranking_is_stable_on_ties() {
    let procs = vec![
        proc(1, "a", 100),
        proc(2, "b", 200),
        proc(3, "c", 100),
        proc(4, "d", 200),
    ];
    let ranked = rank_top(procs);
    let names: Vec<&str> = ranked.iter().map(|p| p.name.as_str()).collect();
    // equal memory keeps provider order: b before d, a before c
    assert_eq!(names, vec!["b", "d", "a", "c"]);
}

#[test]
fn ranking_caps_at_ten_rows() {
    let procs: Vec<ProcessInfo> = (0..25).map(|i| proc(i, &format!("p{}", i), i as u64)).collect();
    let ranked = rank_top(procs);
    assert_eq!(ranked.len(), 10);
    // and shows all rows when fewer than ten exist
    let few: Vec<ProcessInfo> = (0..3).map(|i| proc(i, &format!("p{}", i), i as u64)).collect();
    assert_eq!(rank_top(few).len(), 3);
    assert_eq!(rank_top(Vec::new()).len(), 0);
}

#[test]
fn selected_index_cycles_forward() {
    let mut app = App::default();
    let mut seen = vec![app.curr];
    for _ in 0..3 {
        app.handle_key_event(Key::Right);
        seen.push(app.curr);
    }
    assert_eq!(seen, vec![0, 1, 2, 0]);
    assert!(!app.exit);
}

#[test]
fn selected_index_cycles_backward() {
    let mut app = App::default();
    let mut seen = vec![app.curr];
    for _ in 0..3 {
        app.handle_key_event(Key::Left);
        seen.push(app.curr);
    }
    assert_eq!(seen, vec![0, 2, 1, 0]);
    assert!(!app.exit);
}

#[test]
fn selected_index_never_leaves_range() {
    let mut app = App::default();
    let keys = [Key::Right, Key::Left, Key::Right, Key::Right, Key::Left, Key::Right];
    for _ in 0..50 {
        for k in keys {
            app.handle_key_event(k);
            assert!(app.curr < 3);
        }
    }
}

#[test]
fn quit_key_requests_exit_and_other_keys_do_not() {
    let mut app = App::default();
    app.handle_key_event(Key::Char('x'));
    assert!(!app.exit);
    app.handle_key_event(Key::Char('q'));
    assert!(app.exit);
    // exit is monotonic: further keys keep it set
    app.handle_key_event(Key::Right);
    assert!(app.exit);
}

#[test]
fn non_press_events_are_ignored() {
    let mut app = App::default();
    app.handle_events(TermEvent::Other);
    assert!(!app.exit);
    assert_eq!(app.curr, 0);
    app.handle_events(TermEvent::KeyPress(Key::Right));
    assert_eq!(app.curr, 1);
}

#[test]
fn quit_as_first_event_draws_exactly_once() {
    let mut app = App::default();
    let events = vec![
        TermEvent::KeyPress(Key::Char('q')),
        TermEvent::KeyPress(Key::Right),
    ];
    let draws = app.run(&events);
    assert_eq!(draws, 1);
    assert!(app.exit);
    assert_eq!(app.curr, 0);
}

#[test]
fn run_alternates_one_draw_per_event() {
    let mut app = App::default();
    let events = vec![
        TermEvent::Other,
        TermEvent::KeyPress(Key::Right),
        TermEvent::KeyPress(Key::Char('q')),
        TermEvent::KeyPress(Key::Left),
    ];
    let draws = app.run(&events);
    // one draw per consumed event; the event after quit is never consumed
    assert_eq!(draws, 3);
    assert!(app.exit);
    assert_eq!(app.curr, 1);
}

#[test]
fn run_consumes_whole_script_without_quit() {
    let mut app = App::default();
    let events = vec![
        TermEvent::KeyPress(Key::Right),
        TermEvent::KeyPress(Key::Left),
        TermEvent::Other,
    ];
    let draws = app.run(&events);
    assert_eq!(draws, 3);
    assert!(!app.exit);
    assert_eq!(app.curr, 0);
}

#[test]
fn run_with_no_events_draws_nothing_more() {
    let mut app = App::default();
    let draws = app.run(&Vec::new());
    assert_eq!(draws, 0);
    assert!(!app.exit);
}

#[test]
fn missing_kernel_version_fails_the_build() {
    let r = Snapshot::new(
        Some("linux".to_string()),
        Some("box".to_string()),
        Some("1.2".to_string()),
        None,
        Some(8),
        16_000_000_000,
        8_000_000_000,
        3780,
        Vec::new(),
    );
    assert_eq!(r.err(), Some(SnapshotError::MissingKernelVersion));
}

#[test]
fn first_missing_field_wins() {
    let r = Snapshot::new(
        None,
        None,
        Some("1.2".to_string()),
        None,
        None,
        0,
        0,
        0,
        Vec::new(),
    );
    assert_eq!(r.err(), Some(SnapshotError::MissingOsName));
    let r = Snapshot::new(
        Some("linux".to_string()),
        Some("box".to_string()),
        Some("1.2".to_string()),
        Some("6.1.0".to_string()),
        None,
        0,
        0,
        0,
        Vec::new(),
    );
    assert_eq!(r.err(), Some(SnapshotError::MissingCoreCount));
}

#[test]
fn complete_snapshot_builds() {
    let s = full_snapshot(16_000_000_000, 8_000_000_000, 3780, vec![proc(1, "a", 5)]);
    assert_eq!(s.os_name, "linux");
    assert_eq!(s.host_name, "box");
    assert_eq!(s.os_version, "1.2");
    assert_eq!(s.kernel_version, "6.1.0");
    assert_eq!(s.core_count, 8);
    assert_eq!(s.total_memory, 16_000_000_000);
    assert_eq!(s.used_memory, 8_000_000_000);
    assert_eq!(s.processes.len(), 1);
}

#[test]
fn numerals_format_exactly() {
    assert_eq!(u64_to_string(0), "0");
    assert_eq!(u64_to_string(7), "7");
    assert_eq!(u64_to_string(1234567890), "1234567890");
    assert_eq!(percent_label(50), "50%");
    assert_eq!(percent_label(0), "0%");
    assert_eq!(percent_label(100), "100%");
}

#[test]
fn gib_label_has_two_decimals() {
    // 16 GB is 14.901... GiB, shown rounded to two places
    assert_eq!(gib_label(16_000_000_000), "14.90 GB");
    assert_eq!(gib_label(1 << 30), "1.00 GB");
    assert_eq!(gib_label(3 << 29), "1.50 GB");
    assert_eq!(gib_label(0), "0.00 GB");
    // rounding at the second decimal place: just below and above half
    assert_eq!(gib_label(5_368_709), "0.00 GB");
    assert_eq!(gib_label(5_368_710), "0.01 GB");
}

#[test]
fn layout_halves_sum_to_full_width() {
    let area = Region { x: 0, y: 0, width: 101, height: 40 };
    let r = compute_layout(area);
    assert_eq!(r.system_info.width, 50);
    assert_eq!(r.memory_gauge.width, 51);
    assert_eq!(r.system_info.width + r.memory_gauge.width, area.width);
    assert_eq!(r.memory_gauge.x, 50);
}

#[test]
fn layout_stacks_fixed_rows() {
    let area = Region { x: 0, y: 0, width: 100, height: 40 };
    let r = compute_layout(area);
    assert_eq!(r.system_info.height, 6);
    assert_eq!(r.specs.height, 34);
    assert_eq!(r.memory_gauge.height, 3);
    assert_eq!(r.cpu_gauge.height, 3);
    assert_eq!(r.process_table.height, 13);
    assert_eq!(r.spare.height, 21);
    assert_eq!(r.cpu_gauge.y, 3);
    assert_eq!(r.process_table.y, 6);
    assert_eq!(r.spare.y, 19);
}

#[test]
fn layout_shrinks_on_tiny_terminals() {
    let area = Region { x: 2, y: 1, width: 9, height: 5 };
    let r = compute_layout(area);
    assert_eq!(r.system_info.height, 5);
    assert_eq!(r.specs.height, 0);
    assert_eq!(r.memory_gauge.height, 3);
    assert_eq!(r.cpu_gauge.height, 2);
    assert_eq!(r.process_table.height, 0);
    assert_eq!(r.spare.height, 0);
    assert_eq!(r.system_info.width, 4);
    assert_eq!(r.memory_gauge.width, 5);
    assert_eq!(r.memory_gauge.x, 6);
}

fn twelve_process_plan() -> FramePlan {
    let procs: Vec<ProcessInfo> =
        (1..=12).map(|i| proc(i, &format!("p{}", i), (i as u64) * 1_000_000_000)).collect();
    let snap = full_snapshot(16_000_000_000, 8_000_000_000, 3780, procs);
    let app = App::default();
    app.render(snap, Region { x: 0, y: 0, width: 100, height: 40 })
}

#[test]
fn frame_scenario_matches_expected_values() {
    let plan = twelve_process_plan();
    assert_eq!(plan.memory_gauge.label, "50%");
    assert_eq!(plan.memory_gauge.fill, 50);
    assert_eq!(plan.cpu_gauge.fill, 37);
    assert_eq!(plan.cpu_gauge.label, "38%");
    assert_eq!(plan.rows.len(), 10);
    let names: Vec<&str> = plan.rows.iter().map(|r| r.name.as_str()).collect();
    assert_eq!(
        names,
        vec!["p12", "p11", "p10", "p9", "p8", "p7", "p6", "p5", "p4", "p3"]
    );
    // 12 GB of 16 GB truncates to 75%
    assert_eq!(plan.rows[0].memory_label, "75%");
    // 3 GB of 16 GB is 18.75%, truncated to 18%
    assert_eq!(plan.rows[9].memory_label, "18%");
}

#[test]
fn frame_panels_carry_identity_and_specs() {
    let plan = twelve_process_plan();
    assert_eq!(plan.memory_gauge.title, "Used Memory");
    assert_eq!(plan.cpu_gauge.title, "CPU Usage");
    assert_eq!(plan.table_title, "Processes");
    assert_eq!(plan.header_name, "Name");
    assert_eq!(plan.header_memory, "Memory Usage");
    assert_eq!(plan.system_title, "System Information");
    assert_eq!(plan.system_lines.len(), 4);
    assert_eq!(plan.system_lines[0].heading, "System Name: ");
    assert_eq!(plan.system_lines[0].value, "linux");
    assert_eq!(plan.system_lines[1].heading, "Host Name: ");
    assert_eq!(plan.system_lines[1].value, "box");
    assert_eq!(plan.system_lines[2].heading, "OS Version: ");
    assert_eq!(plan.system_lines[2].value, "1.2");
    assert_eq!(plan.system_lines[3].heading, "Kernel Version: ");
    assert_eq!(plan.system_lines[3].value, "6.1.0");
    assert_eq!(plan.specs_title, "Specs");
    assert_eq!(plan.specs_lines.len(), 2);
    assert_eq!(plan.specs_lines[0].heading, "Core Count: ");
    assert_eq!(plan.specs_lines[0].value, "8");
    assert_eq!(plan.specs_lines[1].heading, "Total RAM: ");
    assert_eq!(plan.specs_lines[1].value, "14.90 GB");
}

#[test]
fn table_banding_alternates_from_first_row() {
    let plan = twelve_process_plan();
    for (i, row) in plan.rows.iter().enumerate() {
        assert_eq!(row.banded, i % 2 == 0);
    }
}

#[test]
fn render_guards_zero_total_memory() {
    let snap = full_snapshot(0, 0, 0, vec![proc(1, "a", 5)]);
    let app = App::default();
    let plan = app.render(snap, Region { x: 0, y: 0, width: 80, height: 24 });
    assert_eq!(plan.memory_gauge.fill, 0);
    assert_eq!(plan.memory_gauge.label, "0%");
    assert_eq!(plan.rows[0].memory_label, "0%");
    assert_eq!(plan.specs_lines[1].value, "0.00 GB");
}

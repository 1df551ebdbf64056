//! The pane registry: building, focus cycling, event dispatch, watches and
//! the interrupt flag.

use procstat::container::{Container, EventOutcome, FileEntry};
use procstat::screen::{Attr, Key, TermOp};
use procstat::{Error, Opt};

fn attr() -> Attr {
    Attr { lines: 40, cols: 120, color_attr: 0, standout_attr: 7 }
}

fn opts(layout: &[usize]) -> Opt {
    let mut o = Opt::default();
    o.layout = layout.to_vec();
    o
}

fn entry(path: &[u8], content: Option<&[u8]>) -> FileEntry {
    FileEntry { path: path.to_vec(), content: content.map(|c| c.to_vec()) }
}

/// The scenario registry: spec "12" on a 120 by 40 terminal with two files.
fn scenario() -> Container {
    let files = vec![
        entry(b"one", Some(b"1\n")),
        entry(b"two", Some(b"2\n")),
    ];
    let (co, _) = Container::new(&files, attr(), &opts(&[1, 2])).unwrap();
    co
}

#[test]
fn test_build_two_column_scenario() {
    // spec "12", no rotation, 120 by 40: one full column plus two stacked
    // panes, focus on pane 0
    let co = scenario();
    assert_eq!(co.v.len(), 3);
    let f = &co.v[0].frame;
    assert_eq!((f.ylen, f.xlen, f.ypos, f.xpos), (40, 60, 0, 0));
    let f = &co.v[1].frame;
    assert_eq!((f.ylen, f.xlen, f.ypos, f.xpos), (20, 60, 0, 60));
    let f = &co.v[2].frame;
    assert_eq!((f.ylen, f.xlen, f.ypos, f.xpos), (20, 60, 20, 60));
    assert_eq!(co.biv, vec![0, 1]);
    assert_eq!(co.ci, 0);
    assert!(co.v[0].frame.focus);
    assert!(!co.v[1].frame.focus);
    assert!(!co.v[0].is_dead());
    assert!(!co.v[1].is_dead());
    assert!(co.v[2].is_dead());
    assert_eq!(co.v[0].frame.title, b"one".to_vec());
}

#[test]
fn test_focus_next_wraps() {
    // next-pane moves focus to pane 1, and pressing it again wraps to 0
    let mut co = scenario();
    let o = opts(&[1, 2]);
    co.parse_event(Key::Char('l' as u32), 40, 120, &o).unwrap();
    assert_eq!(co.ci, 1);
    assert!(co.v[1].frame.focus);
    assert!(!co.v[0].frame.focus);
    co.parse_event(Key::Char('l' as u32), 40, 120, &o).unwrap();
    assert_eq!(co.ci, 0);
    assert!(co.v[0].frame.focus);
}

#[test]
fn test_focus_cycle_returns_home() {
    // N live panes: N next-pane presses return the focus home
    let mut co = scenario();
    let o = opts(&[1, 2]);
    let n = co.biv.len();
    for _ in 0..n {
        co.parse_event(Key::Right, 40, 120, &o).unwrap();
    }
    assert_eq!(co.ci, 0);
}

#[test]
fn test_focus_prev_undoes_next() {
    let mut co = scenario();
    let o = opts(&[1, 2]);
    co.parse_event(Key::Right, 40, 120, &o).unwrap();
    co.parse_event(Key::Left, 40, 120, &o).unwrap();
    assert_eq!(co.ci, 0);
}

#[test]
fn test_focus_with_dead_panes_skipped() {
    // only live panes take part in the cycle
    let files = vec![
        entry(b"one", Some(b"1\n")),
        entry(b"gone", None),
        entry(b"three", Some(b"3\n")),
    ];
    let (mut co, _) = Container::new(&files, attr(), &opts(&[1, 1, 1])).unwrap();
    assert_eq!(co.biv, vec![0, 2]);
    let o = opts(&[1, 1, 1]);
    co.parse_event(Key::Right, 40, 120, &o).unwrap();
    assert_eq!(co.ci, 2);
    co.parse_event(Key::Right, 40, 120, &o).unwrap();
    assert_eq!(co.ci, 0);
}

#[test]
fn test_scroll_keys() {
    let files = vec![entry(b"one", Some(b"a\nb\nc\nd\ne\n"))];
    let (mut co, _) = Container::new(&files, attr(), &opts(&[1])).unwrap();
    let o = opts(&[1]);
    let out = co.parse_event(Key::Char('$' as u32), 40, 120, &o).unwrap();
    assert_eq!(co.v[0].offset, 5);
    assert!(out.notify);
    co.parse_event(Key::Char('k' as u32), 40, 120, &o).unwrap();
    assert_eq!(co.v[0].offset, 4);
    co.parse_event(Key::Char('0' as u32), 40, 120, &o).unwrap();
    assert_eq!(co.v[0].offset, 0);
    co.parse_event(Key::Down, 40, 120, &o).unwrap();
    assert_eq!(co.v[0].offset, 1);
    co.parse_event(Key::Up, 40, 120, &o).unwrap();
    assert_eq!(co.v[0].offset, 0);
    // a full page is the terminal height, clamped to the line count
    co.parse_event(Key::Char(6), 40, 120, &o).unwrap();
    assert_eq!(co.v[0].offset, 5);
    co.parse_event(Key::Char(2), 40, 120, &o).unwrap();
    assert_eq!(co.v[0].offset, 0);
}

#[test]
fn test_half_page_scroll() {
    let content: Vec<u8> = (0..60).flat_map(|i| format!("l{}\n", i).into_bytes()).collect();
    let files = vec![entry(b"one", Some(&content))];
    let (mut co, _) = Container::new(&files, attr(), &opts(&[1])).unwrap();
    let o = opts(&[1]);
    // half a 40-line page down, then up
    co.parse_event(Key::Char(4), 40, 120, &o).unwrap();
    assert_eq!(co.v[0].offset, 20);
    co.parse_event(Key::Char(21), 40, 120, &o).unwrap();
    assert_eq!(co.v[0].offset, 0);
}

#[test]
fn test_wakeup_key() {
    let mut co = scenario();
    let o = opts(&[1, 2]);
    let out = co.parse_event(Key::Char('q' as u32), 40, 120, &o).unwrap();
    assert!(out.notify);
    assert!(out.cmds.is_empty());
    assert!(out.term.is_empty());
    assert_eq!(co.ci, 0);
}

#[test]
fn test_idle_key_does_nothing() {
    let mut co = scenario();
    let o = opts(&[1, 2]);
    let out = co.parse_event(Key::Idle, 40, 120, &o).unwrap();
    assert!(!out.notify);
    assert!(out.cmds.is_empty());
}

#[test]
fn test_resize_rebuilds() {
    let mut co = scenario();
    let o = opts(&[1, 2]);
    let out = co.parse_event(Key::Resize, 30, 90, &o).unwrap();
    assert_eq!(out.term, vec![TermOp::Clear]);
    assert_eq!(co.attr.lines, 30);
    assert_eq!(co.attr.cols, 90);
    let f = &co.v[0].frame;
    assert_eq!((f.ylen, f.xlen, f.ypos, f.xpos), (30, 45, 0, 0));
    // the attachments survive a rebuild
    assert!(!co.v[0].is_dead());
    assert_eq!(co.v[0].frame.title, b"one".to_vec());
}

#[test]
fn test_resize_too_small_reports_error() {
    let mut co = scenario();
    let o = opts(&[1, 2]);
    assert_eq!(
        co.parse_event(Key::Resize, 1, 1, &o).map(|_: EventOutcome| ()),
        Err(Error::BadLayout)
    );
}

#[test]
fn test_watch_handles_map_to_panes() {
    let mut co = scenario();
    co.register_watch(41, 0).unwrap();
    co.register_watch(42, 1).unwrap();
    assert_eq!(co.lookup_watch(41), Some(0));
    assert_eq!(co.lookup_watch(42), Some(1));
    assert_eq!(co.lookup_watch(77), None);
    assert_eq!(co.register_watch(43, 99), Err(Error::Other));
}

#[test]
fn test_watch_handle_reregistered_latest_wins() {
    // re-registering a handle overwrites the mapping, as a map insert would
    let mut co = scenario();
    co.register_watch(41, 0).unwrap();
    co.register_watch(41, 1).unwrap();
    assert_eq!(co.lookup_watch(41), Some(1));
}

#[test]
fn test_focus_defaults_to_first_live_pane() {
    // with the first file unreadable, the focus starts on the first live
    // pane, not on the dead one
    let files = vec![
        entry(b"gone", None),
        entry(b"two", Some(b"2\n")),
        entry(b"three", Some(b"3\n")),
    ];
    let (co, _) = Container::new(&files, attr(), &opts(&[1, 1, 1])).unwrap();
    assert_eq!(co.biv, vec![1, 2]);
    assert_eq!(co.ci, 1);
    assert!(!co.v[0].frame.focus);
    assert!(co.v[1].frame.focus);
    assert!(!co.v[2].frame.focus);
}

#[test]
fn test_no_live_panes_no_focus_and_noop_navigation() {
    // with no file attached nothing is focused, and pane navigation does
    // nothing
    let files = vec![entry(b"gone", None)];
    let (mut co, _) = Container::new(&files, attr(), &opts(&[1])).unwrap();
    assert!(co.biv.is_empty());
    assert!(!co.v[0].frame.focus);
    let o = opts(&[1]);
    let out = co.parse_event(Key::Right, 40, 120, &o).unwrap();
    assert!(out.cmds.is_empty());
    assert_eq!(co.ci, 0);
    assert!(!co.v[0].frame.focus);
    let out = co.parse_event(Key::Left, 40, 120, &o).unwrap();
    assert!(out.cmds.is_empty());
    assert_eq!(co.ci, 0);
}

#[test]
fn test_update_pane_rescans() {
    let mut co = scenario();
    co.update_pane(0, b"x\ny\nz\n").unwrap();
    assert_eq!(co.v[0].buffer.get_max_line(), 3);
    assert_eq!(co.update_pane(99, b""), Err(Error::Other));
}

#[test]
fn test_interrupt_flag_observed() {
    // a repaint task checks the flag after every wait on the condition
    // variable; once raised it must see it on the next check and stop
    let mut co = scenario();
    assert!(!co.is_interrupted());
    co.set_interrupted();
    let mut cycles = 0;
    loop {
        // one simulated wait cycle
        cycles += 1;
        if co.is_interrupted() {
            break;
        }
    }
    assert_eq!(cycles, 1);
}

#[test]
fn test_initial_delay() {
    assert_eq!(procstat::container::initial_delay(1, 0, false), 1000);
    assert_eq!(procstat::container::initial_delay(2, 500, false), 2500);
    for _ in 0..10 {
        assert!(procstat::container::initial_delay(1, 0, true) < 1000);
        // a sub-second interval bounds its own jitter
        assert!(procstat::container::initial_delay(0, 500, true) < 500);
    }
    assert_eq!(procstat::container::initial_delay(0, 0, true), 0);
}

//! The line buffer: attach, read, escape, number, re-scan and
//! change-highlight.

use procstat::buffer::Buffer;
use procstat::Error;

fn live_buffer(content: &[u8]) -> Buffer {
    let mut b = Buffer::new();
    b.init(content).unwrap();
    b
}

#[test]
fn test_new_buffer_is_dead() {
    let b = Buffer::new();
    assert!(b.is_dead());
    assert_eq!(b.get_max_line(), 0);
}

#[test]
fn test_attach_counts_lines() {
    let b = live_buffer(b"alpha\nbeta\n");
    assert!(!b.is_dead());
    assert_eq!(b.get_max_line(), 2);
}

#[test]
fn test_attach_counts_unterminated_last_line() {
    assert_eq!(live_buffer(b"alpha\nbeta").get_max_line(), 2);
    assert_eq!(live_buffer(b"").get_max_line(), 0);
    assert_eq!(live_buffer(b"\n").get_max_line(), 1);
}

#[test]
fn test_attach_twice_fails() {
    let mut b = live_buffer(b"x\n");
    assert_eq!(b.init(b"y\n"), Err(Error::AlreadyAttached));
    assert_eq!(b.get_max_line(), 1);
}

#[test]
fn test_readline_in_order() {
    let mut b = live_buffer(b"alpha\nbeta\n");
    let r = b.readline(false, false).unwrap();
    assert_eq!(r.pos, 0);
    assert_eq!(r.text, b"alpha".to_vec());
    assert!(!r.changed);
    let r = b.readline(false, false).unwrap();
    assert_eq!(r.pos, 1);
    assert_eq!(r.text, b"beta".to_vec());
    assert_eq!(b.readline(false, false), Err(Error::EndOfBuffer));
}

#[test]
fn test_readline_on_dead_buffer() {
    let mut b = Buffer::new();
    assert_eq!(b.readline(false, false), Err(Error::Other));
    assert_eq!(b.clear(), Err(Error::Other));
}

#[test]
fn test_rewind_restarts() {
    let mut b = live_buffer(b"a\nb\n");
    b.readline(false, false).unwrap();
    b.readline(false, false).unwrap();
    b.clear().unwrap();
    assert_eq!(b.readline(false, false).unwrap().pos, 0);
}

#[test]
fn test_percent_doubled_once() {
    let mut b = live_buffer(b"cpu 50% busy\n");
    let r = b.readline(false, false).unwrap();
    assert_eq!(r.text, b"cpu 50%% busy".to_vec());
    let pct = r.text.iter().filter(|&&c| c == b'%').count();
    assert_eq!(pct, 2);
}

#[test]
fn test_line_numbers_prefixed() {
    let mut content = Vec::new();
    for i in 1..=12 {
        content.extend_from_slice(format!("line{}\n", i).as_bytes());
    }
    let mut b = live_buffer(&content);
    for i in 1..=12 {
        let r = b.readline(true, false).unwrap();
        assert_eq!(r.text, format!("{} line{}", i, i).into_bytes());
    }
}

#[test]
fn test_rescan_append() {
    // attach K lines, append M lines, re-scan: K + M lines, and reading
    // from K yields exactly the appended lines
    let mut b = live_buffer(b"one\ntwo\n");
    assert_eq!(b.get_max_line(), 2);
    b.update(b"one\ntwo\nthree\nfour\n");
    assert_eq!(b.get_max_line(), 4);
    b.clear().unwrap();
    for _ in 0..2 {
        b.readline(false, false).unwrap();
    }
    assert_eq!(b.readline(false, false).unwrap().text, b"three".to_vec());
    assert_eq!(b.readline(false, false).unwrap().text, b"four".to_vec());
    assert_eq!(b.readline(false, false), Err(Error::EndOfBuffer));
}

#[test]
fn test_rescan_on_dead_buffer_is_noop() {
    let mut b = Buffer::new();
    b.update(b"one\n");
    assert!(b.is_dead());
    assert_eq!(b.get_max_line(), 0);
}

#[test]
fn test_change_highlight() {
    let mut b = live_buffer(b"stable\n");
    // first tracked read: nothing remembered yet
    assert!(!b.readline(false, true).unwrap().changed);
    b.clear().unwrap();
    // identical content: no change
    assert!(!b.readline(false, true).unwrap().changed);
    b.clear().unwrap();
    // differing content: change reported
    b.update(b"shifted\n");
    assert!(b.readline(false, true).unwrap().changed);
    b.clear().unwrap();
    // and remembered, so reading it again reports none
    assert!(!b.readline(false, true).unwrap().changed);
}

#[test]
fn test_change_highlight_off() {
    let mut b = live_buffer(b"stable\n");
    assert!(!b.readline(false, false).unwrap().changed);
    b.clear().unwrap();
    b.update(b"shifted\n");
    // tracking off: never reported as changed
    assert!(!b.readline(false, false).unwrap().changed);
}

#[test]
fn test_cursor_kept_across_rescan() {
    let mut b = live_buffer(b"a\nb\nc\n");
    b.readline(false, false).unwrap();
    b.update(b"a\nb\nc\nd\n");
    // the cursor stays where it was
    assert_eq!(b.readline(false, false).unwrap().pos, 1);
}

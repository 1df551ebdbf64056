//! One pane: geometry, scrolling and the repaint algorithm.

use procstat::screen::{Attr, Part, ScreenOp, WinCmd};
use procstat::window::Window;
use procstat::Error;

fn attr() -> Attr {
    Attr { lines: 40, cols: 120, color_attr: 0, standout_attr: 7 }
}

/// A 10 by 12 window (8 by 10 inner panel) with the given file content.
fn pane(content: &[u8]) -> Window {
    let (mut w, _) = Window::new(10, 12, 0, 0, &attr()).unwrap();
    w.attach_buffer(b"file", content).unwrap();
    w
}

fn prints(cmds: &[WinCmd]) -> Vec<(usize, bool, Vec<u8>)> {
    cmds.iter()
        .filter_map(|c| match &c.op {
            ScreenOp::Print { y, standout, text, .. } => Some((*y, *standout, text.clone())),
            _ => None,
        })
        .collect()
}

#[test]
fn test_window_new_geometry() {
    let (w, cmds) = Window::new(10, 12, 3, 4, &attr()).unwrap();
    assert_eq!((w.frame.ylen, w.frame.xlen, w.frame.ypos, w.frame.xpos), (10, 12, 3, 4));
    assert_eq!((w.panel.ylen, w.panel.xlen, w.panel.ypos, w.panel.xpos), (8, 10, 4, 5));
    assert!(w.is_dead());
    assert_eq!(w.offset, 0);
    assert_eq!(cmds.len(), 7);
    assert!(matches!(cmds[0].op, ScreenOp::Alloc { ylen: 10, xlen: 12, ypos: 3, xpos: 4 }));
    assert_eq!(cmds[0].part, Part::Frame);
    assert!(matches!(cmds[3].op, ScreenOp::Alloc { ylen: 8, xlen: 10, ypos: 4, xpos: 5 }));
    assert_eq!(cmds[3].part, Part::Panel);
}

#[test]
fn test_window_too_small_rejected() {
    assert!(matches!(Window::new(1, 12, 0, 0, &attr()), Err(Error::BadLayout)));
    assert!(matches!(Window::new(10, 1, 0, 0, &attr()), Err(Error::BadLayout)));
}

#[test]
fn test_scroll_clamp_sequences() {
    let mut w = pane(b"a\nb\nc\nd\ne\n");
    let deltas: [isize; 9] = [3, -1, 100, 4, -200, 1, 2, 2, 2];
    for d in deltas {
        w.goto_current(d);
        assert!(w.offset <= 5);
    }
    w.goto_head();
    assert_eq!(w.offset, 0);
    w.goto_tail();
    assert_eq!(w.offset, 5);
    w.goto_current(-2);
    assert_eq!(w.offset, 3);
    w.goto_current(100);
    assert_eq!(w.offset, 5);
}

#[test]
fn test_truncated_file_offset_clamped() {
    // a re-scan with fewer lines may leave the offset dangling; the next
    // scroll clamps it back into range
    let mut w = pane(b"a\nb\nc\nd\ne\n");
    w.goto_tail();
    assert_eq!(w.offset, 5);
    w.update_buffer(b"a\nb\n");
    assert_eq!(w.offset, 5);
    w.goto_current(1);
    assert_eq!(w.offset, 2);
}

#[test]
fn test_repaint_clips_to_width() {
    let mut w = pane(b"0123456789abcdef\nshort\n");
    let cmds = w.repaint(false, false, false, 7).unwrap();
    assert!(matches!(cmds[0], WinCmd { part: Part::Panel, op: ScreenOp::Erase }));
    assert!(matches!(cmds[cmds.len() - 1], WinCmd { part: Part::Panel, op: ScreenOp::Refresh }));
    let p = prints(&cmds);
    // inner width is 10: the long line is clipped, one row each
    assert_eq!(p.len(), 2);
    assert_eq!(p[0], (0, false, b"0123456789".to_vec()));
    assert_eq!(p[1], (1, false, b"short".to_vec()));
}

#[test]
fn test_repaint_folds_long_lines() {
    let mut w = pane(b"0123456789abcdef\nshort\n");
    let cmds = w.repaint(false, true, false, 7).unwrap();
    let p = prints(&cmds);
    // the 16-byte line keeps its tail and consumes two rows of width 10
    assert_eq!(p.len(), 2);
    assert_eq!(p[0], (0, false, b"0123456789abcdef".to_vec()));
    assert_eq!(p[1], (2, false, b"short".to_vec()));
}

#[test]
fn test_repaint_skips_before_offset() {
    let mut w = pane(b"a\nb\nc\n");
    w.goto_current(1);
    let cmds = w.repaint(false, false, false, 7).unwrap();
    let p = prints(&cmds);
    assert_eq!(p.len(), 2);
    assert_eq!(p[0], (0, false, b"b".to_vec()));
    assert_eq!(p[1], (1, false, b"c".to_vec()));
}

#[test]
fn test_repaint_escapes_once() {
    // the percent sign is doubled at the read boundary and only there:
    // repainting prints the escaped text as it is
    let mut w = pane(b"50%\n");
    let cmds = w.repaint(false, false, false, 7).unwrap();
    let p = prints(&cmds);
    assert_eq!(p[0].2, b"50%%".to_vec());
    let again = w.repaint(false, false, false, 7).unwrap();
    assert_eq!(prints(&again)[0].2, b"50%%".to_vec());
}

#[test]
fn test_repaint_marks_changed_lines() {
    let mut w = pane(b"one\ntwo\n");
    let first = prints(&w.repaint(false, false, true, 7).unwrap());
    assert!(first.iter().all(|p| !p.1));
    // nothing changed: a second pass stays quiet
    let second = prints(&w.repaint(false, false, true, 7).unwrap());
    assert!(second.iter().all(|p| !p.1));
    // one line changed: only it lights up
    w.update_buffer(b"one\nTWO\n");
    let third = prints(&w.repaint(false, false, true, 7).unwrap());
    assert_eq!(third.iter().map(|p| p.1).collect::<Vec<_>>(), vec![false, true]);
}

#[test]
fn test_repaint_dead_window_paints_nothing() {
    let (mut w, _) = Window::new(10, 12, 0, 0, &attr()).unwrap();
    assert_eq!(w.repaint(false, false, false, 7).unwrap().len(), 0);
}

#[test]
fn test_repaint_with_line_numbers() {
    let mut w = pane(b"alpha\nbeta\n");
    let p = prints(&w.repaint(true, false, false, 7).unwrap());
    assert_eq!(p[0].2, b"1 alpha".to_vec());
    assert_eq!(p[1].2, b"2 beta".to_vec());
}

#[test]
fn test_attach_sets_title() {
    let (mut w, _) = Window::new(10, 12, 0, 0, &attr()).unwrap();
    let cmds = w.attach_buffer(b"/var/log/messages", b"x\n").unwrap();
    assert_eq!(w.frame.title, b"/var/log/messages".to_vec());
    assert!(matches!(&cmds[0].op, ScreenOp::Print { text, .. } if text == &b"/var/log/messages".to_vec()));
    assert!(matches!(w.attach_buffer(b"other", b"y\n"), Err(Error::AlreadyAttached)));
}

#[test]
fn test_focus_highlights_title() {
    let (mut w, _) = Window::new(10, 12, 0, 0, &attr()).unwrap();
    w.attach_buffer(b"f", b"x\n").unwrap();
    let cmds = w.focus(true, 7);
    assert!(w.frame.focus);
    assert!(matches!(cmds[0].op, ScreenOp::Print { standout: true, attr: 7, .. }));
    let cmds = w.focus(false, 0);
    assert!(!w.frame.focus);
    assert!(matches!(cmds[0].op, ScreenOp::Print { standout: false, .. }));
}

#[test]
fn test_resize_resets_offset() {
    let mut w = pane(b"a\nb\nc\n");
    w.goto_tail();
    let cmds = w.resize(20, 30, 1, 2, &attr()).unwrap();
    assert_eq!(w.offset, 0);
    assert_eq!((w.frame.ylen, w.frame.xlen), (20, 30));
    assert_eq!((w.panel.ylen, w.panel.xlen), (18, 28));
    assert_eq!(cmds.len(), 8);
    // both surfaces are reshaped and moved to the new rectangle
    assert!(matches!(cmds[0].op, ScreenOp::Resize { ylen: 20, xlen: 30 }));
    assert!(matches!(cmds[1].op, ScreenOp::MoveTo { ypos: 1, xpos: 2 }));
    assert!(matches!(cmds[5].op, ScreenOp::Resize { ylen: 18, xlen: 28 }));
    assert!(matches!(cmds[6].op, ScreenOp::MoveTo { ypos: 2, xpos: 3 }));
}

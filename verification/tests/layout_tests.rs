//! The grid layout engine on concrete terminals: exact rectangles, full
//! coverage, no overlap.

use procstat::layout::{layout_rects, Rect};

fn rect(ylen: usize, xlen: usize, ypos: usize, xpos: usize) -> Rect {
    Rect { ylen, xlen, ypos, xpos }
}

fn total_area(rects: &[Rect]) -> usize {
    rects.iter().map(|r| r.ylen * r.xlen).sum()
}

fn overlap(a: &Rect, b: &Rect) -> bool {
    let y = a.ypos.max(b.ypos) < (a.ypos + a.ylen).min(b.ypos + b.ylen);
    let x = a.xpos.max(b.xpos) < (a.xpos + a.xlen).min(b.xpos + b.xlen);
    y && x
}

fn assert_tiles(yy: usize, xx: usize, spec: &[usize], rotate: bool) {
    let rects = layout_rects(yy, xx, &spec.to_vec(), rotate).unwrap();
    let want: usize = spec.iter().map(|&v| if v == 0 { 1 } else { v }).sum();
    assert_eq!(rects.len(), want);
    assert_eq!(total_area(&rects), yy * xx);
    for (i, a) in rects.iter().enumerate() {
        assert!(a.ypos + a.ylen <= yy);
        assert!(a.xpos + a.xlen <= xx);
        for b in rects.iter().skip(i + 1) {
            assert!(!overlap(a, b));
        }
    }
}

#[test]
fn test_layout_two_columns() {
    // a 120 by 40 terminal split as "12": one full-height column, then a
    // column of two stacked panes
    let rects = layout_rects(40, 120, &vec![1, 2], false).unwrap();
    assert_eq!(rects.len(), 3);
    assert_eq!(rects[0], rect(40, 60, 0, 0));
    assert_eq!(rects[1], rect(20, 60, 0, 60));
    assert_eq!(rects[2], rect(20, 60, 20, 60));
}

#[test]
fn test_layout_remainder_goes_last() {
    let rects = layout_rects(41, 100, &vec![3], false).unwrap();
    assert_eq!(rects.len(), 3);
    assert_eq!(rects[0], rect(13, 100, 0, 0));
    assert_eq!(rects[1], rect(13, 100, 13, 0));
    // the last pane absorbs the remainder
    assert_eq!(rects[2], rect(15, 100, 26, 0));
}

#[test]
fn test_layout_rotated() {
    // "12" rotated: one full-width row, then a row of two panes
    let rects = layout_rects(40, 120, &vec![1, 2], true).unwrap();
    assert_eq!(rects.len(), 3);
    assert_eq!(rects[0], rect(20, 120, 0, 0));
    assert_eq!(rects[1], rect(20, 60, 20, 0));
    assert_eq!(rects[2], rect(20, 60, 20, 60));
}

#[test]
fn test_layout_zero_coerced_to_one() {
    let rects = layout_rects(30, 80, &vec![0], false).unwrap();
    assert_eq!(rects.len(), 1);
    assert_eq!(rects[0], rect(30, 80, 0, 0));
}

#[test]
fn test_layout_empty_spec_rejected() {
    assert_eq!(layout_rects(30, 80, &Vec::new(), false), Err(procstat::Error::BadLayout));
    assert_eq!(layout_rects(30, 80, &Vec::new(), true), Err(procstat::Error::BadLayout));
}

#[test]
fn test_layout_tiles_many_shapes() {
    assert_tiles(40, 120, &[1, 2], false);
    assert_tiles(40, 120, &[1, 2], true);
    assert_tiles(43, 127, &[3, 1, 5], false);
    assert_tiles(43, 127, &[3, 1, 5], true);
    assert_tiles(1, 1, &[9, 9, 9], false);
    assert_tiles(0, 50, &[2], false);
    assert_tiles(24, 80, &[0, 0], true);
    assert_tiles(17, 19, &[15, 1, 7, 2], false);
}

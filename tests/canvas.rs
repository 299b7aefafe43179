use geom_recorder::canvas::{Points, Segs};

#[test]
fn points_start_empty() {
    let p = Points::new();
    assert_eq!(p.len(), 0);
    assert!(p.x().is_empty());
    assert!(p.y().is_empty());
    assert!(p.condense().is_empty());
}

#[test]
fn points_add_splits_coordinates() {
    let mut p = Points::new();
    p.add(1, -2);
    p.add(3, 4);
    assert_eq!(p.len(), 2);
    assert_eq!(p.x(), &[1, 3]);
    assert_eq!(p.y(), &[-2, 4]);
}

#[test]
fn points_condense_three() {
    let mut p = Points::new();
    p.add(0, 0);
    p.add(1, 1);
    p.add(2, 2);
    assert_eq!(p.len(), 3);
    assert_eq!(p.condense(), vec![(0, 0), (1, 1), (2, 2)]);
}

#[test]
fn points_pop_on_empty_is_noop() {
    let mut p = Points::new();
    p.pop();
    assert_eq!(p.len(), 0);
    p.add(7, 8);
    assert_eq!(p.len(), 1);
    assert_eq!(p.condense(), vec![(7, 8)]);
}

#[test]
fn points_pop_removes_last() {
    let mut p = Points::new();
    p.add(1, 2);
    p.add(3, 4);
    p.pop();
    assert_eq!(p.condense(), vec![(1, 2)]);
}

#[test]
fn points_add_then_pop_value_round_trip() {
    let mut p = Points::new();
    p.add(5, 6);
    p.add(i32::MIN, i32::MAX);
    assert_eq!(p.pop_value(), (i32::MIN, i32::MAX));
    assert_eq!(p.len(), 1);
    assert_eq!(p.condense(), vec![(5, 6)]);
}

#[test]
fn points_length_counts_adds_less_pops() {
    let mut p = Points::new();
    for i in 0..10 {
        p.add(i, -i);
    }
    for _ in 0..4 {
        p.pop();
    }
    assert_eq!(p.len(), 6);
    p.pop();
    p.pop();
    p.pop();
    p.pop();
    p.pop();
    p.pop();
    p.pop();
    assert_eq!(p.len(), 0);
}

#[test]
fn segs_add_interleaves_endpoints() {
    let mut s = Segs::new();
    s.add(0, 1, 2, 3);
    s.add(4, 5, 6, 7);
    assert_eq!(s.len(), 2);
    assert_eq!(s.x(), &[0, 2, 4, 6]);
    assert_eq!(s.y(), &[1, 3, 5, 7]);
}

#[test]
fn segs_pop_removes_one_segment() {
    let mut s = Segs::new();
    s.add(0, 1, 2, 3);
    s.add(4, 5, 6, 7);
    s.pop();
    assert_eq!(s.len(), 1);
    assert_eq!(s.x(), &[0, 2]);
    assert_eq!(s.y(), &[1, 3]);
}

#[test]
fn segs_pop_on_empty_is_noop() {
    let mut s = Segs::new();
    s.pop();
    assert_eq!(s.len(), 0);
    assert!(s.x().is_empty());
}

#[test]
fn segs_add_then_pop_value_round_trip() {
    let mut s = Segs::new();
    s.add(9, 9, 9, 9);
    s.add(1, 2, 3, 4);
    assert_eq!(s.pop_value(), ((1, 2), (3, 4)));
    assert_eq!(s.len(), 1);
    assert_eq!(s.pop_value(), ((9, 9), (9, 9)));
    assert_eq!(s.len(), 0);
}

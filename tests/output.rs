use geom_recorder::halt::{halt_action, HaltAction, HOLD};
use geom_recorder::Output;

#[test]
fn deferred_mutations_wait_for_replay() {
    let mut o = Output::new();
    o.points_add(1, 1);
    o.segs_add(0, 0, 5, 5);
    o.rays_add(1, 2, 3, 4);
    assert_eq!(o.points_len(), 0);
    assert_eq!(o.segs_len(), 0);
    assert_eq!(o.rays_len(), 0);
    assert!(!o.done());
}

#[test]
fn scenario_deferred_complete() {
    let mut o = Output::new();
    o.points_add(1, 1);
    o.segs_add(0, 0, 5, 5);
    o.points_pop();
    o.complete();
    assert!(o.done());
    assert_eq!(o.points_len(), 0);
    assert!(o.points_condense().is_empty());
    assert_eq!(o.segs_len(), 1);
    assert_eq!(o.segs_x(), &[0, 5]);
    assert_eq!(o.segs_y(), &[0, 5]);
}

#[test]
fn scenario_direct_points() {
    let mut o = Output::with_stepping(false);
    o.points_add(0, 0);
    o.points_add(1, 1);
    o.points_add(2, 2);
    o.complete();
    assert_eq!(o.points_len(), 3);
    assert_eq!(o.points_condense(), vec![(0, 0), (1, 1), (2, 2)]);
    assert_eq!(o.points_x(), &[0, 1, 2]);
    assert_eq!(o.points_y(), &[0, 1, 2]);
}

#[test]
fn step_applies_one_event_at_a_time() {
    let mut o = Output::new();
    o.points_add(1, 2);
    o.rays_add(0, 0, 1, 0);
    o.points_add(3, 4);
    o.step();
    assert_eq!(o.points_condense(), vec![(1, 2)]);
    assert_eq!(o.rays_len(), 0);
    o.step();
    assert_eq!(o.rays_len(), 1);
    assert_eq!(o.rays_x(), &[0, 1]);
    assert_eq!(o.rays_y(), &[0, 0]);
    assert!(!o.done());
    o.step();
    assert_eq!(o.points_condense(), vec![(1, 2), (3, 4)]);
    assert!(o.done());
}

#[test]
fn step_when_done_changes_nothing() {
    let mut o = Output::new();
    o.step();
    assert!(o.done());
    o.segs_add(1, 1, 2, 2);
    o.complete();
    o.step();
    o.step();
    assert!(o.done());
    assert_eq!(o.segs_len(), 1);
    assert_eq!(o.segs_x(), &[1, 2]);
    assert_eq!(o.points_len(), 0);
}

#[test]
fn complete_matches_repeated_step() {
    let mut a = Output::new();
    let mut b = Output::new();
    for o in [&mut a, &mut b] {
        o.points_add(1, 1);
        o.segs_add(0, 0, 5, 5);
        o.rays_add(2, 2, 3, 3);
        o.points_add(4, 4);
        o.segs_pop();
        o.rays_pop();
        o.rays_pop();
        o.points_pop();
    }
    a.complete();
    for _ in 0..8 {
        b.step();
    }
    assert!(a.done());
    assert!(b.done());
    assert_eq!(a.points_condense(), b.points_condense());
    assert_eq!(a.points_condense(), vec![(1, 1)]);
    assert_eq!(a.segs_len(), 0);
    assert_eq!(b.segs_len(), 0);
    assert_eq!(a.rays_len(), 0);
    assert_eq!(b.rays_len(), 0);
}

#[test]
fn replayed_pops_on_empty_canvases_are_discarded() {
    let mut o = Output::new();
    o.points_pop();
    o.segs_pop();
    o.rays_pop();
    o.segs_add(1, 2, 3, 4);
    o.complete();
    assert!(o.done());
    assert_eq!(o.points_len(), 0);
    assert_eq!(o.segs_len(), 1);
    assert_eq!(o.rays_len(), 0);
}

#[test]
fn complete_resumes_after_more_records() {
    let mut o = Output::new();
    o.points_add(1, 1);
    o.complete();
    o.points_add(2, 2);
    assert_eq!(o.points_len(), 1);
    assert!(!o.done());
    o.complete();
    assert_eq!(o.points_condense(), vec![(1, 1), (2, 2)]);
}

#[test]
fn reads_repeat_without_mutation() {
    let mut o = Output::new();
    o.points_add(1, 2);
    o.complete();
    let first = o.points_x().to_vec();
    let second = o.points_x().to_vec();
    assert_eq!(first, second);
    assert_eq!(o.points_y(), o.points_y());
}

#[test]
fn stepping_mode_applies_at_once() {
    let mut o = Output::with_stepping(true);
    assert!(o.is_stepping());
    o.points_add(3, 3);
    assert_eq!(o.points_len(), 1);
    o.segs_add(0, 0, 1, 1);
    o.rays_add(2, 2, 4, 4);
    assert_eq!(o.segs_len(), 1);
    assert_eq!(o.rays_len(), 1);
    o.segs_pop();
    o.rays_pop();
    o.points_pop();
    assert_eq!(o.segs_len(), 0);
    assert_eq!(o.rays_len(), 0);
    assert_eq!(o.points_len(), 0);
    assert!(o.done());
    o.step();
    o.complete();
    assert_eq!(o.points_len(), 0);
}

#[test]
fn deferred_mode_is_default() {
    let o = Output::new();
    assert!(!o.is_stepping());
}

#[test]
fn halt_holds_on_zero() {
    assert_eq!(halt_action(HOLD), HaltAction::Spin);
    assert_eq!(halt_action(0), HaltAction::Spin);
}

#[test]
fn halt_releases_and_resets_on_nonzero() {
    assert_eq!(halt_action(1), HaltAction::Resume { reset: 0 });
    assert_eq!(halt_action(255), HaltAction::Resume { reset: HOLD });
}

#[test]
fn scenario_stepping_released() {
    let mut o = Output::with_stepping(true);
    o.points_add(3, 3);
    let mut cell: u8 = HOLD;
    let mut spins: u32 = 0;
    loop {
        match halt_action(cell) {
            HaltAction::Spin => {
                spins += 1;
                cell = 1;
            }
            HaltAction::Resume { reset } => {
                cell = reset;
                break;
            }
        }
    }
    assert_eq!(spins, 1);
    assert_eq!(cell, HOLD);
    assert_eq!(o.points_len(), 1);
}

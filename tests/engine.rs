use pointer_rotate::engine::{Event, Rotator, EV_REL, EV_SYN, REL_WHEEL, REL_X, REL_Y};
use pointer_rotate::rotation::{Rotation, SCALE};

const EV_KEY: u16 = 1;
const BTN_LEFT: u16 = 0x110;

fn ev(kind: u16, code: u16, value: i32) -> Event {
    Event { kind, code, value }
}

fn sync() -> Event {
    ev(EV_SYN, 0, 0)
}

fn quarter_turn() -> Rotator {
    Rotator::new(Rotation::from_fixed(SCALE, 0).unwrap())
}

#[test]
fn motion_frame_gives_rotated_pair_then_sync() {
    let mut r = quarter_turn();
    let out = r.handle_batch(&vec![
        ev(EV_REL, REL_X, 4),
        ev(EV_REL, REL_Y, 3),
        ev(EV_REL, REL_X, 6),
        sync(),
    ]);
    assert_eq!(out, vec![ev(EV_REL, REL_X, -3), ev(EV_REL, REL_Y, 10), sync()]);
    assert_eq!((r.dx, r.dy), (0, 0));
}

#[test]
fn quarter_turn_of_ten_along_x() {
    let mut r = quarter_turn();
    assert!(r.handle(ev(EV_REL, REL_X, 10)).is_empty());
    assert_eq!((r.dx, r.dy), (10, 0));
    let out = r.handle(sync());
    assert_eq!(out, vec![ev(EV_REL, REL_X, 0), ev(EV_REL, REL_Y, 10), sync()]);
}

#[test]
fn sync_without_motion_is_forwarded_alone() {
    let mut r = quarter_turn();
    assert_eq!(r.handle(sync()), vec![sync()]);
    assert_eq!((r.dx, r.dy), (0, 0));
}

#[test]
fn button_press_is_forwarded_at_once() {
    let mut r = quarter_turn();
    let press = ev(EV_KEY, BTN_LEFT, 1);
    assert_eq!(r.handle(press), vec![press]);
    let out = r.handle_batch(&vec![ev(EV_REL, REL_X, 5), press, sync()]);
    assert_eq!(out, vec![press, ev(EV_REL, REL_X, 0), ev(EV_REL, REL_Y, 5), sync()]);
}

#[test]
fn wheel_is_forwarded_unrotated() {
    let mut r = quarter_turn();
    let wheel = ev(EV_REL, REL_WHEEL, -1);
    assert_eq!(r.handle(ev(EV_REL, REL_X, 2)), vec![]);
    assert_eq!(r.handle(wheel), vec![wheel]);
    assert_eq!((r.dx, r.dy), (2, 0));
}

#[test]
fn three_empty_frames_forward_three_syncs() {
    let mut r = quarter_turn();
    let mut all = Vec::new();
    for _ in 0..3 {
        all.extend(r.handle_batch(&vec![sync()]));
    }
    assert_eq!(all, vec![sync(), sync(), sync()]);
    assert_eq!(all.iter().filter(|e| e.kind == EV_REL).count(), 0);
}

#[test]
fn other_sync_codes_also_close_the_frame() {
    let mut r = Rotator::new(Rotation::identity());
    let dropped = ev(EV_SYN, 3, 0);
    r.handle(ev(EV_REL, REL_Y, -2));
    assert_eq!(r.handle(dropped), vec![ev(EV_REL, REL_X, 0), ev(EV_REL, REL_Y, -2), dropped]);
}

#[test]
fn motion_sum_saturates() {
    let mut r = Rotator::new(Rotation::identity());
    r.handle(ev(EV_REL, REL_X, i32::MAX));
    r.handle(ev(EV_REL, REL_X, 5));
    r.handle(ev(EV_REL, REL_Y, i32::MIN));
    r.handle(ev(EV_REL, REL_Y, -5));
    assert_eq!((r.dx, r.dy), (i32::MAX, i32::MIN));
}

#[test]
fn batch_matches_event_by_event() {
    let evs = vec![
        ev(EV_REL, REL_X, 7),
        ev(EV_KEY, BTN_LEFT, 1),
        ev(EV_REL, REL_Y, -4),
        sync(),
        ev(EV_REL, REL_WHEEL, 1),
        sync(),
        ev(EV_REL, REL_X, -1),
    ];
    let rot = Rotation::from_fixed(SCALE / 2, 952205001410).unwrap();
    let mut a = Rotator::new(rot);
    let mut b = Rotator::new(rot);
    let batch = a.handle_batch(&evs);
    let mut single = Vec::new();
    for e in &evs {
        single.extend(b.handle(*e));
    }
    assert_eq!(batch, single);
    assert_eq!((a.dx, a.dy), (-1, 0));
    assert_eq!((b.dx, b.dy), (-1, 0));
}

#[test]
fn every_sync_forwarded_once_in_order() {
    let mut r = quarter_turn();
    let s1 = ev(EV_SYN, 0, 0);
    let s2 = ev(EV_SYN, 3, 0);
    let s3 = ev(EV_SYN, 0, 1);
    let evs = vec![
        ev(EV_REL, REL_X, 1),
        s1,
        ev(EV_KEY, BTN_LEFT, 0),
        s2,
        ev(EV_REL, REL_Y, 9),
        ev(EV_REL, REL_X, -4),
        s3,
    ];
    let out = r.handle_batch(&evs);
    let syncs: Vec<Event> = out.iter().copied().filter(|e| e.kind == EV_SYN).collect();
    assert_eq!(syncs, vec![s1, s2, s3]);
    assert_eq!(out.len(), 8);
    assert_eq!(out[5..], [ev(EV_REL, REL_X, -9), ev(EV_REL, REL_Y, -4), s3]);
}

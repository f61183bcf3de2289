//! Frame-by-frame forwarding of input events with rotated relative motion.
//!
//! Relative X and Y motion is summed until a synchronization event closes
//! the frame; the sum is then rotated and sent ahead of that event. Every
//! other event goes through at once and unchanged.
use vstd::prelude::*;

use crate::rotation::{clamp_i32, Rotation};

verus! {

/// Event type of synchronization events.
pub const EV_SYN: u16 = 0;

/// Event type of relative-axis events.
pub const EV_REL: u16 = 2;

/// Relative axis code of horizontal motion.
pub const REL_X: u16 = 0;

/// Relative axis code of vertical motion.
pub const REL_Y: u16 = 1;

/// Relative axis code of the scroll wheel.
pub const REL_WHEEL: u16 = 8;

/// One input event as the kernel reports it: type, code and value.
#[derive(Clone, Copy, Debug, PartialEq, Eq)]
pub struct Event {
    pub kind: u16,
    pub code: u16,
    pub value: i32,
}

impl Event {
    /// A relative-axis event.
    pub open spec fn rel(code: u16, value: i32) -> Event {
        Event { kind: EV_REL, code, value }
    }

    /// Motion along X or Y, which the engine holds back until the frame ends.
    pub open spec fn is_motion(self) -> bool {
        self.kind == EV_REL && (self.code == REL_X || self.code == REL_Y)
    }

    /// Any synchronization event closes the frame.
    pub open spec fn is_sync(self) -> bool {
        self.kind == EV_SYN
    }
}

/// The events forwarded for `ev` when `(dx, dy)` has been summed so far.
pub open spec fn emitted(rot: Rotation, dx: i32, dy: i32, ev: Event) -> Seq<Event> {
    if ev.is_motion() {
        seq![]
    } else if ev.is_sync() && (dx != 0 || dy != 0) {
        seq![
            Event::rel(REL_X, clamp_i32(rot.rotated_x(dx as int, dy as int)) as i32),
            Event::rel(REL_Y, clamp_i32(rot.rotated_y(dx as int, dy as int)) as i32),
            ev,
        ]
    } else {
        seq![ev]
    }
}

/// The summed motion after `ev`; each sum saturates at the `i32` bounds.
pub open spec fn next_sum(dx: i32, dy: i32, ev: Event) -> (i32, i32) {
    if ev.is_motion() && ev.code == REL_X {
        (clamp_i32(dx + ev.value) as i32, dy)
    } else if ev.is_motion() {
        (dx, clamp_i32(dy + ev.value) as i32)
    } else if ev.is_sync() {
        (0, 0)
    } else {
        (dx, dy)
    }
}

/// The summed motion after the events `evs`, from `(dx, dy)`.
pub open spec fn sum_after(dx: i32, dy: i32, evs: Seq<Event>) -> (i32, i32)
    decreases evs.len(),
{
    if evs.len() == 0 {
        (dx, dy)
    } else {
        let (x, y) = sum_after(dx, dy, evs.drop_last());
        next_sum(x, y, evs.last())
    }
}

/// Everything forwarded for the events `evs`, in order, from `(dx, dy)`.
pub open spec fn forwarded(rot: Rotation, dx: i32, dy: i32, evs: Seq<Event>) -> Seq<Event>
    decreases evs.len(),
{
    if evs.len() == 0 {
        seq![]
    } else {
        let (x, y) = sum_after(dx, dy, evs.drop_last());
        forwarded(rot, dx, dy, evs.drop_last()) + emitted(rot, x, y, evs.last())
    }
}

/// `a + b`, saturated to the `i32` bounds.
fn add_saturating(a: i32, b: i32) -> (r: i32)
    ensures
        r == clamp_i32(a + b),
{
    let sum = a as i64 + b as i64;
    if sum < i32::MIN as i64 {
        i32::MIN
    } else if sum > i32::MAX as i64 {
        i32::MAX
    } else {
        sum as i32
    }
}

/// The forwarding engine: a fixed rotation and the motion of the open frame.
pub struct Rotator {
    pub rotation: Rotation,
    pub dx: i32,
    pub dy: i32,
}

impl Rotator {
    pub open spec fn wf(&self) -> bool {
        self.rotation.wf()
    }

    /// An engine with no motion summed yet.
    pub fn new(rotation: Rotation) -> (r: Rotator)
        requires
            rotation.wf(),
        ensures
            r.wf(),
            r.rotation == rotation,
            r.dx == 0,
            r.dy == 0,
    {
        Rotator { rotation, dx: 0, dy: 0 }
    }

    /// Takes one event and returns the events to forward for it, which are
    /// to be written as one batch.
    pub fn handle(&mut self, ev: Event) -> (out: Vec<Event>)
        requires
            old(self).wf(),
        ensures
            final(self).wf(),
            final(self).rotation == old(self).rotation,
            out@ == emitted(old(self).rotation, old(self).dx, old(self).dy, ev),
            (final(self).dx, final(self).dy) == next_sum(old(self).dx, old(self).dy, ev),
    {
        if ev.kind == EV_REL && ev.code == REL_X {
            self.dx = add_saturating(self.dx, ev.value);
            Vec::new()
        } else if ev.kind == EV_REL && ev.code == REL_Y {
            self.dy = add_saturating(self.dy, ev.value);
            Vec::new()
        } else if ev.kind == EV_SYN {
            if self.dx != 0 || self.dy != 0 {
                let (x, y) = self.rotation.rotate(self.dx, self.dy);
                self.dx = 0;
                self.dy = 0;
                let mut out = Vec::new();
                out.push(Event { kind: EV_REL, code: REL_X, value: x });
                out.push(Event { kind: EV_REL, code: REL_Y, value: y });
                out.push(ev);
                proof {
                    assert(out@ =~= emitted(self.rotation, old(self).dx, old(self).dy, ev));
                }
                out
            } else {
                let mut out = Vec::new();
                out.push(ev);
                proof {
                    assert(out@ =~= seq![ev]);
                }
                out
            }
        } else {
            let mut out = Vec::new();
            out.push(ev);
            proof {
                assert(out@ =~= seq![ev]);
            }
            out
        }
    }

    /// Takes a batch of events in order and returns everything to forward
    /// for them, in order.
    pub fn handle_batch(&mut self, evs: &Vec<Event>) -> (out: Vec<Event>)
        requires
            old(self).wf(),
        ensures
            final(self).wf(),
            final(self).rotation == old(self).rotation,
            out@ == forwarded(old(self).rotation, old(self).dx, old(self).dy, evs@),
            (final(self).dx, final(self).dy) == sum_after(old(self).dx, old(self).dy, evs@),
    {
        let mut out: Vec<Event> = Vec::new();
        let mut i: usize = 0;
        while i < evs.len()
            invariant
                self.wf(),
                self.rotation == old(self).rotation,
                i <= evs@.len(),
                out@ == forwarded(old(self).rotation, old(self).dx, old(self).dy, evs@.take(i as int)),
                (self.dx, self.dy) == sum_after(old(self).dx, old(self).dy, evs@.take(i as int)),
            decreases evs.len() - i,
        {
            let ev = evs[i];
            let mut step = self.handle(ev);
            out.append(&mut step);
            proof {
                let next = evs@.take(i + 1);
                assert(next.drop_last() =~= evs@.take(i as int));
                assert(next.last() == ev);
            }
            i = i + 1;
        }
        proof {
            assert(evs@.take(i as int) =~= evs@);
        }
        out
    }
}

/// Motion events alone forward nothing.
proof fn lemma_motion_forwards_nothing(rot: Rotation, dx: i32, dy: i32, m: Seq<Event>)
    requires
        forall|i: int| 0 <= i < m.len() ==> #[trigger] m[i].is_motion(),
    ensures
        forwarded(rot, dx, dy, m) == Seq::<Event>::empty(),
    decreases m.len(),
{
    if m.len() > 0 {
        let init = m.drop_last();
        assert forall|i: int| 0 <= i < init.len() implies #[trigger] init[i].is_motion() by {
            assert(init[i] == m[i]);
        }
        lemma_motion_forwards_nothing(rot, dx, dy, init);
        assert(m.last() == m[m.len() - 1]);
        assert(forwarded(rot, dx, dy, m) =~= Seq::<Event>::empty());
    }
}

/// A run of X and Y motion closed by one synchronization event forwards
/// exactly the rotated X event, the rotated Y event and that synchronization
/// event, whenever the summed motion is not zero.
pub proof fn lemma_frame_forwards_rotated_pair(
    rot: Rotation,
    dx: i32,
    dy: i32,
    m: Seq<Event>,
    sync: Event,
)
    requires
        forall|i: int| 0 <= i < m.len() ==> #[trigger] m[i].is_motion(),
        sync.is_sync(),
        sum_after(dx, dy, m) != (0i32, 0i32),
    ensures
        ({
            let (x, y) = sum_after(dx, dy, m);
            let out = forwarded(rot, dx, dy, m.push(sync));
            &&& out.len() == 3
            &&& out == seq![
                Event::rel(REL_X, clamp_i32(rot.rotated_x(x as int, y as int)) as i32),
                Event::rel(REL_Y, clamp_i32(rot.rotated_y(x as int, y as int)) as i32),
                sync,
            ]
            &&& sum_after(dx, dy, m.push(sync)) == (0i32, 0i32)
        }),
{
    let all = m.push(sync);
    assert(all.drop_last() =~= m);
    assert(all.last() == sync);
    lemma_motion_forwards_nothing(rot, dx, dy, m);
    let (x, y) = sum_after(dx, dy, m);
    assert(forwarded(rot, dx, dy, all) =~= emitted(rot, x, y, sync));
}

/// A synchronization event with no motion summed is forwarded alone, and the
/// sum stays at zero.
pub proof fn lemma_empty_frame_forwards_sync_only(rot: Rotation, sync: Event)
    requires
        sync.is_sync(),
    ensures
        emitted(rot, 0, 0, sync) == seq![sync],
        next_sum(0, 0, sync) == (0i32, 0i32),
{
}

/// An event that is neither relative nor a synchronization (a button press,
/// a misc event) is forwarded at once, unchanged, and leaves the sum alone.
pub proof fn lemma_other_events_pass_through(rot: Rotation, dx: i32, dy: i32, ev: Event)
    requires
        ev.kind != EV_REL,
        ev.kind != EV_SYN,
    ensures
        emitted(rot, dx, dy, ev) == seq![ev],
        next_sum(dx, dy, ev) == (dx, dy),
{
}

/// A relative event on an axis other than X and Y (the wheel) is forwarded
/// at once, unrotated, and leaves the sum alone.
pub proof fn lemma_other_axes_pass_through(rot: Rotation, dx: i32, dy: i32, ev: Event)
    requires
        ev.kind == EV_REL,
        ev.code != REL_X,
        ev.code != REL_Y,
    ensures
        emitted(rot, dx, dy, ev) == seq![ev],
        next_sum(dx, dy, ev) == (dx, dy),
{
}

/// The synchronization events of `s`, in order.
pub open spec fn syncs_of(s: Seq<Event>) -> Seq<Event> {
    s.filter(|e: Event| e.is_sync())
}

proof fn lemma_emitted_syncs(rot: Rotation, dx: i32, dy: i32, ev: Event)
    ensures
        syncs_of(emitted(rot, dx, dy, ev)) == (if ev.is_sync() {
            seq![ev]
        } else {
            Seq::<Event>::empty()
        }),
{
    reveal_with_fuel(Seq::filter, 4);
    let out = emitted(rot, dx, dy, ev);
    if ev.is_sync() && (dx != 0 || dy != 0) {
        assert(out.drop_last() =~= seq![out[0], out[1]]);
        assert(out.drop_last().drop_last() =~= seq![out[0]]);
        assert(out.drop_last().drop_last().drop_last() =~= Seq::<Event>::empty());
        assert(syncs_of(out) =~= seq![ev]);
    } else if !ev.is_motion() {
        assert(out.drop_last() =~= Seq::<Event>::empty());
    }
}

/// Every synchronization event is forwarded exactly once, and the forwarded
/// synchronization events come in the order they were read: none is dropped,
/// duplicated, reordered or made up.
pub proof fn lemma_syncs_forwarded_once_in_order(
    rot: Rotation,
    dx: i32,
    dy: i32,
    evs: Seq<Event>,
)
    ensures
        syncs_of(forwarded(rot, dx, dy, evs)) == syncs_of(evs),
    decreases evs.len(),
{
    reveal(Seq::filter);
    if evs.len() > 0 {
        let init = evs.drop_last();
        let (x, y) = sum_after(dx, dy, init);
        lemma_syncs_forwarded_once_in_order(rot, dx, dy, init);
        lemma_emitted_syncs(rot, x, y, evs.last());
        Seq::filter_distributes_over_add(
            forwarded(rot, dx, dy, init),
            emitted(rot, x, y, evs.last()),
            |e: Event| e.is_sync(),
        );
        if evs.last().is_sync() {
            assert(syncs_of(evs) =~= syncs_of(init) + seq![evs.last()]);
        } else {
            assert(syncs_of(evs) =~= syncs_of(init) + Seq::<Event>::empty());
        }
    } else {
        assert(forwarded(rot, dx, dy, evs) =~= evs);
    }
}

} // verus!

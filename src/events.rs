use vstd::prelude::*;
use crate::canvas::{Point, Seg, without_last};

verus! {

/// One recorded mutation of a canvas.
#[derive(Clone, Copy, Debug, PartialEq, Eq, Structural)]
pub enum Event {
    PushPoint { x: i32, y: i32 },
    PopPoint,
    PushSeg { x1: i32, y1: i32, x2: i32, y2: i32 },
    PopSeg,
    PushRay { x1: i32, y1: i32, x2: i32, y2: i32 },
    PopRay,
}

/// The contents of the three canvases.
pub struct Scene {
    pub points: Seq<Point>,
    pub segs: Seq<Seg>,
    pub rays: Seq<Seg>,
}

/// Three empty canvases.
pub open spec fn empty_scene() -> Scene {
    Scene { points: Seq::empty(), segs: Seq::empty(), rays: Seq::empty() }
}

/// The canvases after one event is applied to them. A pop on an empty canvas
/// leaves it as it is.
pub open spec fn apply(s: Scene, e: Event) -> Scene {
    match e {
        Event::PushPoint { x, y } => Scene { points: s.points.push((x, y)), ..s },
        Event::PopPoint => Scene { points: without_last(s.points), ..s },
        Event::PushSeg { x1, y1, x2, y2 } => Scene { segs: s.segs.push(((x1, y1), (x2, y2))), ..s },
        Event::PopSeg => Scene { segs: without_last(s.segs), ..s },
        Event::PushRay { x1, y1, x2, y2 } => Scene { rays: s.rays.push(((x1, y1), (x2, y2))), ..s },
        Event::PopRay => Scene { rays: without_last(s.rays), ..s },
    }
}

/// The canvases after the first `n` events of the log are applied, in order,
/// to empty canvases.
pub open spec fn replay(log: Seq<Event>, n: nat) -> Scene
    decreases n,
{
    if n == 0 {
        empty_scene()
    } else {
        apply(replay(log, (n - 1) as nat), log[n - 1])
    }
}

/// The canvases, the log, and the position of the next event to apply.
pub struct Playback {
    pub scene: Scene,
    pub log: Seq<Event>,
    pub cursor: nat,
}

/// One step of playback: the event under the cursor is applied and the cursor
/// moves past it. At the end of the log nothing changes.
pub open spec fn step_spec(p: Playback) -> Playback {
    if p.cursor < p.log.len() {
        Playback { scene: apply(p.scene, p.log[p.cursor as int]), log: p.log, cursor: p.cursor + 1 }
    } else {
        p
    }
}

/// `k` steps of playback, one after another.
pub open spec fn steps(p: Playback, k: nat) -> Playback
    decreases k,
{
    if k == 0 {
        p
    } else {
        step_spec(steps(p, (k - 1) as nat))
    }
}

/// Appending an event does not change the replay of what came before it.
pub proof fn lemma_replay_push(log: Seq<Event>, e: Event, n: nat)
    requires
        n <= log.len(),
    ensures
        replay(log.push(e), n) == replay(log, n),
    decreases n,
{
    if n > 0 {
        lemma_replay_push(log, e, (n - 1) as nat);
        assert(log.push(e)[n - 1] == log[n - 1]);
    }
}

/// A step at the end of the log changes nothing.
pub proof fn lemma_step_at_end(p: Playback)
    requires
        p.cursor == p.log.len(),
    ensures
        step_spec(p) == p,
{
}

/// From canvases that hold the replay of the events before the cursor, `k`
/// steps that stay within the log hold the replay of the events before the
/// cursor moved `k` places.
pub proof fn lemma_steps_replay(p: Playback, k: nat)
    requires
        p.cursor + k <= p.log.len(),
        p.scene == replay(p.log, p.cursor),
    ensures
        steps(p, k) == (Playback { scene: replay(p.log, p.cursor + k), log: p.log, cursor: p.cursor + k }),
    decreases k,
{
    if k > 0 {
        lemma_steps_replay(p, (k - 1) as nat);
    }
}

/// From canvases that hold the replay of the events before the cursor, as many
/// steps as events remain reach the replay of the whole log, with the cursor at
/// its end: stepping to the end and replaying the log agree.
pub proof fn lemma_steps_reach_end(p: Playback)
    requires
        p.cursor <= p.log.len(),
        p.scene == replay(p.log, p.cursor),
    ensures
        steps(p, (p.log.len() - p.cursor) as nat) == (Playback {
            scene: replay(p.log, p.log.len()),
            log: p.log,
            cursor: p.log.len(),
        }),
{
    lemma_steps_replay(p, (p.log.len() - p.cursor) as nat);
}

/// One of the three canvases.
pub enum Canvas {
    Points,
    Segs,
    Rays,
}

/// Whether `e` adds to canvas `c`.
pub open spec fn is_push(e: Event, c: Canvas) -> bool {
    match c {
        Canvas::Points => e is PushPoint,
        Canvas::Segs => e is PushSeg,
        Canvas::Rays => e is PushRay,
    }
}

/// Whether `e` pops from canvas `c`.
pub open spec fn is_pop(e: Event, c: Canvas) -> bool {
    match c {
        Canvas::Points => e is PopPoint,
        Canvas::Segs => e is PopSeg,
        Canvas::Rays => e is PopRay,
    }
}

/// The number of elements on canvas `c`.
pub open spec fn size(s: Scene, c: Canvas) -> nat {
    match c {
        Canvas::Points => s.points.len(),
        Canvas::Segs => s.segs.len(),
        Canvas::Rays => s.rays.len(),
    }
}

/// How many of the first `n` events of the log add to canvas `c`.
pub open spec fn pushes(log: Seq<Event>, n: nat, c: Canvas) -> nat
    decreases n,
{
    if n == 0 {
        0
    } else {
        pushes(log, (n - 1) as nat, c) + if is_push(log[n - 1], c) { 1nat } else { 0nat }
    }
}

/// How many of the first `n` events of the log pop from canvas `c`.
pub open spec fn pops(log: Seq<Event>, n: nat, c: Canvas) -> nat
    decreases n,
{
    if n == 0 {
        0
    } else {
        pops(log, (n - 1) as nat, c) + if is_pop(log[n - 1], c) { 1nat } else { 0nat }
    }
}

/// No prefix of the first `n` events pops more from canvas `c` than it adds.
pub open spec fn never_overdrawn(log: Seq<Event>, n: nat, c: Canvas) -> bool {
    forall|k: nat| k <= n ==> #[trigger] pops(log, k, c) <= pushes(log, k, c)
}

/// After the first `n` events of a log are replayed, canvas `c` holds no more
/// elements than were added, and no fewer than were added less those popped;
/// where no prefix pops more than it adds, it holds exactly the number added
/// less the number popped.
pub proof fn lemma_replay_size(log: Seq<Event>, n: nat, c: Canvas)
    requires
        n <= log.len(),
    ensures
        size(replay(log, n), c) <= pushes(log, n, c),
        size(replay(log, n), c) >= pushes(log, n, c) - pops(log, n, c),
        never_overdrawn(log, n, c) ==> size(replay(log, n), c) == pushes(log, n, c) - pops(
            log,
            n,
            c,
        ),
    decreases n,
{
    if n > 0 {
        let m = (n - 1) as nat;
        lemma_replay_size(log, m, c);
        if never_overdrawn(log, n, c) {
            assert(never_overdrawn(log, m, c)) by {
                assert forall|k: nat| k <= m implies #[trigger] pops(log, k, c) <= pushes(log, k, c) by {
                    assert(k <= n);
                }
            }
            assert(pops(log, n, c) <= pushes(log, n, c));
        }
    }
}

/// An append-only log of events.
pub struct EventQueue(Vec<Event>);

impl View for EventQueue {
    type V = Seq<Event>;

    closed spec fn view(&self) -> Seq<Event> {
        self.0@
    }
}

impl EventQueue {
    pub fn new() -> (r: Self)
        ensures
            r@ == Seq::<Event>::empty(),
    {
        EventQueue(Vec::new())
    }

    fn record(&mut self, e: Event)
        ensures
            final(self)@ == old(self)@.push(e),
    {
        self.0.push(e);
    }

    pub fn push_point(&mut self, x: i32, y: i32)
        ensures
            final(self)@ == old(self)@.push(Event::PushPoint { x, y }),
    {
        self.record(Event::PushPoint { x, y });
    }

    pub fn pop_point(&mut self)
        ensures
            final(self)@ == old(self)@.push(Event::PopPoint),
    {
        self.record(Event::PopPoint);
    }

    pub fn push_seg(&mut self, x1: i32, y1: i32, x2: i32, y2: i32)
        ensures
            final(self)@ == old(self)@.push(Event::PushSeg { x1, y1, x2, y2 }),
    {
        self.record(Event::PushSeg { x1, y1, x2, y2 });
    }

    pub fn pop_seg(&mut self)
        ensures
            final(self)@ == old(self)@.push(Event::PopSeg),
    {
        self.record(Event::PopSeg);
    }

    pub fn push_ray(&mut self, x1: i32, y1: i32, x2: i32, y2: i32)
        ensures
            final(self)@ == old(self)@.push(Event::PushRay { x1, y1, x2, y2 }),
    {
        self.record(Event::PushRay { x1, y1, x2, y2 });
    }

    pub fn pop_ray(&mut self)
        ensures
            final(self)@ == old(self)@.push(Event::PopRay),
    {
        self.record(Event::PopRay);
    }

    /// The number of recorded events.
    pub fn len(&self) -> (r: usize)
        ensures
            r == self@.len(),
    {
        self.0.len()
    }

    /// The event at position `i`, if there is one.
    pub fn get(&self, i: usize) -> (r: Option<&Event>)
        ensures
            i < self@.len() ==> r == Some(&self@[i as int]),
            i >= self@.len() ==> r.is_none(),
            self@.len() <= usize::MAX,
    {
        if i < self.0.len() {
            Some(&self.0[i])
        } else {
            None
        }
    }
}

} // verus!

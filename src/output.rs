use vstd::prelude::*;
use crate::canvas::{Point, Points, Segs, point_xs, point_ys, seg_xs, seg_ys, wrap_u32};
use crate::events::{
    Event, EventQueue, Playback, Scene, apply, empty_scene, lemma_replay_push, lemma_steps_replay,
    replay, step_spec, steps,
};

verus! {

/// A recorder and player of drawing operations onto three canvases: points,
/// segments and rays.
///
/// In deferred mode each mutation is appended to a log, and `step` and
/// `complete` apply the log to the canvases in order. In stepping mode each
/// mutation is applied at once and nothing is logged; the caller is then to
/// hold until the halt cell releases it (see `crate::halt`).
pub struct Output {
    points: Points,
    segs: Segs,
    rays: Segs,
    events: EventQueue,
    pointer: usize,
    stepping: bool,
}

/// In deferred mode the canvases are exactly what replaying the log, up to
/// the cursor, onto empty canvases gives: the log is the one source of their
/// contents.
pub proof fn lemma_scene_is_replay(o: &Output)
    requires
        o.wf(),
        !o.stepping_mode(),
    ensures
        o.scene() == replay(o.log(), o.cursor()),
{
}

impl Output {
    /// The current contents of the canvases.
    pub closed spec fn scene(&self) -> Scene {
        Scene { points: self.points@, segs: self.segs@, rays: self.rays@ }
    }

    /// The recorded events.
    pub closed spec fn log(&self) -> Seq<Event> {
        self.events@
    }

    /// The position in the log of the next event to apply.
    pub closed spec fn cursor(&self) -> nat {
        self.pointer as nat
    }

    /// Whether mutations apply at once (stepping mode) rather than being logged.
    pub closed spec fn stepping_mode(&self) -> bool {
        self.stepping
    }

    pub open spec fn playback(&self) -> Playback {
        Playback { scene: self.scene(), log: self.log(), cursor: self.cursor() }
    }

    /// The canvases are well formed and the cursor lies within the log. In
    /// deferred mode the canvases hold exactly the replay of the events before
    /// the cursor; in stepping mode the log stays empty.
    pub closed spec fn wf(&self) -> bool {
        &&& self.points.wf()
        &&& self.segs.wf()
        &&& self.rays.wf()
        &&& self.pointer <= self.events@.len()
        &&& if self.stepping {
            self.events@.len() == 0
        } else {
            self.scene() == replay(self.events@, self.pointer as nat)
        }
    }

    /// How a mutation request `e` turns `self` into `next`: applied to the
    /// canvases in stepping mode, appended to the log in deferred mode.
    pub open spec fn requested(self, next: Output, e: Event) -> bool {
        &&& next.stepping_mode() == self.stepping_mode()
        &&& next.cursor() == self.cursor()
        &&& if self.stepping_mode() {
            next.log() == self.log() && next.scene() == apply(self.scene(), e)
        } else {
            next.log() == self.log().push(e) && next.scene() == self.scene()
        }
    }

    /// A recorder in deferred mode, with empty canvases and an empty log.
    pub fn new() -> (r: Self)
        ensures
            r.wf(),
            !r.stepping_mode(),
            r.scene() == empty_scene(),
            r.log() == Seq::<Event>::empty(),
            r.cursor() == 0,
    {
        Self::with_stepping(false)
    }

    /// A recorder in stepping mode where `stepping` holds, else in deferred
    /// mode, with empty canvases and an empty log.
    pub fn with_stepping(stepping: bool) -> (r: Self)
        ensures
            r.wf(),
            r.stepping_mode() == stepping,
            r.scene() == empty_scene(),
            r.log() == Seq::<Event>::empty(),
            r.cursor() == 0,
    {
        let r = Output {
            points: Points::new(),
            segs: Segs::new(),
            rays: Segs::new(),
            events: EventQueue::new(),
            pointer: 0,
            stepping,
        };
        assert(r.scene() == empty_scene());
        r
    }

    /// Whether mutations apply at once, after which the caller is to hold.
    pub fn is_stepping(&self) -> (r: bool)
        ensures
            r == self.stepping_mode(),
    {
        self.stepping
    }

    /// Applies `e` to the canvases, and touches nothing else.
    fn apply_now(&mut self, e: Event)
        requires
            old(self).points.wf(),
            old(self).segs.wf(),
            old(self).rays.wf(),
        ensures
            final(self).points.wf(),
            final(self).segs.wf(),
            final(self).rays.wf(),
            final(self).scene() == apply(old(self).scene(), e),
            final(self).events == old(self).events,
            final(self).pointer == old(self).pointer,
            final(self).stepping == old(self).stepping,
    {
        match e {
            Event::PushPoint { x, y } => self.points.add(x, y),
            Event::PopPoint => self.points.pop(),
            Event::PushSeg { x1, y1, x2, y2 } => self.segs.add(x1, y1, x2, y2),
            Event::PopSeg => self.segs.pop(),
            Event::PushRay { x1, y1, x2, y2 } => self.rays.add(x1, y1, x2, y2),
            Event::PopRay => self.rays.pop(),
        }
    }

    pub fn points_add(&mut self, x: i32, y: i32)
        requires
            old(self).wf(),
        ensures
            final(self).wf(),
            old(self).requested(*final(self), Event::PushPoint { x, y }),
    {
        if self.stepping {
            self.apply_now(Event::PushPoint { x, y });
        } else {
            self.events.push_point(x, y);
            proof {
                lemma_replay_push(old(self).events@, Event::PushPoint { x, y }, self.pointer as nat);
            }
        }
    }

    pub fn points_pop(&mut self)
        requires
            old(self).wf(),
        ensures
            final(self).wf(),
            old(self).requested(*final(self), Event::PopPoint),
    {
        if self.stepping {
            self.apply_now(Event::PopPoint);
        } else {
            self.events.pop_point();
            proof {
                lemma_replay_push(old(self).events@, Event::PopPoint, self.pointer as nat);
            }
        }
    }

    /// The number of points, wrapped to `u32`.
    pub fn points_len(&self) -> (r: u32)
        requires
            self.wf(),
        ensures
            r as int == wrap_u32(self.scene().points.len()),
    {
        self.points.len()
    }

    /// The first coordinates of the points; valid until the next mutation.
    pub fn points_x(&self) -> (r: &[i32])
        requires
            self.wf(),
        ensures
            r@ == point_xs(self.scene().points),
    {
        self.points.x()
    }

    /// The second coordinates of the points; valid until the next mutation.
    pub fn points_y(&self) -> (r: &[i32])
        requires
            self.wf(),
        ensures
            r@ == point_ys(self.scene().points),
    {
        self.points.y()
    }

    /// The points as coordinate pairs, in order.
    pub fn points_condense(&self) -> (r: Vec<Point>)
        requires
            self.wf(),
        ensures
            r@ == self.scene().points,
    {
        self.points.condense()
    }

    pub fn segs_add(&mut self, x1: i32, y1: i32, x2: i32, y2: i32)
        requires
            old(self).wf(),
        ensures
            final(self).wf(),
            old(self).requested(*final(self), Event::PushSeg { x1, y1, x2, y2 }),
    {
        if self.stepping {
            self.apply_now(Event::PushSeg { x1, y1, x2, y2 });
        } else {
            self.events.push_seg(x1, y1, x2, y2);
            proof {
                lemma_replay_push(
                    old(self).events@,
                    Event::PushSeg { x1, y1, x2, y2 },
                    self.pointer as nat,
                );
            }
        }
    }

    pub fn segs_pop(&mut self)
        requires
            old(self).wf(),
        ensures
            final(self).wf(),
            old(self).requested(*final(self), Event::PopSeg),
    {
        if self.stepping {
            self.apply_now(Event::PopSeg);
        } else {
            self.events.pop_seg();
            proof {
                lemma_replay_push(old(self).events@, Event::PopSeg, self.pointer as nat);
            }
        }
    }

    /// The number of segments, wrapped to `u32`.
    pub fn segs_len(&self) -> (r: u32)
        requires
            self.wf(),
        ensures
            r as int == wrap_u32(self.scene().segs.len()),
    {
        self.segs.len()
    }

    /// The first coordinates of the segments' endpoints, two per segment;
    /// valid until the next mutation.
    pub fn segs_x(&self) -> (r: &[i32])
        requires
            self.wf(),
        ensures
            r@ == seg_xs(self.scene().segs),
    {
        self.segs.x()
    }

    /// The second coordinates of the segments' endpoints, two per segment;
    /// valid until the next mutation.
    pub fn segs_y(&self) -> (r: &[i32])
        requires
            self.wf(),
        ensures
            r@ == seg_ys(self.scene().segs),
    {
        self.segs.y()
    }

    pub fn rays_add(&mut self, x1: i32, y1: i32, x2: i32, y2: i32)
        requires
            old(self).wf(),
        ensures
            final(self).wf(),
            old(self).requested(*final(self), Event::PushRay { x1, y1, x2, y2 }),
    {
        if self.stepping {
            self.apply_now(Event::PushRay { x1, y1, x2, y2 });
        } else {
            self.events.push_ray(x1, y1, x2, y2);
            proof {
                lemma_replay_push(
                    old(self).events@,
                    Event::PushRay { x1, y1, x2, y2 },
                    self.pointer as nat,
                );
            }
        }
    }

    pub fn rays_pop(&mut self)
        requires
            old(self).wf(),
        ensures
            final(self).wf(),
            old(self).requested(*final(self), Event::PopRay),
    {
        if self.stepping {
            self.apply_now(Event::PopRay);
        } else {
            self.events.pop_ray();
            proof {
                lemma_replay_push(old(self).events@, Event::PopRay, self.pointer as nat);
            }
        }
    }

    /// The number of rays, wrapped to `u32`.
    pub fn rays_len(&self) -> (r: u32)
        requires
            self.wf(),
        ensures
            r as int == wrap_u32(self.scene().rays.len()),
    {
        self.rays.len()
    }

    /// The first coordinates of the rays' endpoints, two per ray; valid until
    /// the next mutation.
    pub fn rays_x(&self) -> (r: &[i32])
        requires
            self.wf(),
        ensures
            r@ == seg_xs(self.scene().rays),
    {
        self.rays.x()
    }

    /// The second coordinates of the rays' endpoints, two per ray; valid until
    /// the next mutation.
    pub fn rays_y(&self) -> (r: &[i32])
        requires
            self.wf(),
        ensures
            r@ == seg_ys(self.scene().rays),
    {
        self.rays.y()
    }

    /// Applies the event under the cursor and moves the cursor past it; at the
    /// end of the log, does nothing.
    pub fn step(&mut self)
        requires
            old(self).wf(),
        ensures
            final(self).wf(),
            final(self).stepping_mode() == old(self).stepping_mode(),
            final(self).playback() == step_spec(old(self).playback()),
            old(self).cursor() == old(self).log().len() ==> *final(self) == *old(self),
    {
        match self.events.get(self.pointer) {
            Some(e) => {
                let e: Event = *e;
                self.apply_now(e);
                self.pointer = self.pointer + 1;
            },
            None => {},
        }
    }

    /// Steps until the cursor reaches the end of the log.
    pub fn complete(&mut self)
        requires
            old(self).wf(),
        ensures
            final(self).wf(),
            final(self).stepping_mode() == old(self).stepping_mode(),
            final(self).playback() == steps(
                old(self).playback(),
                (old(self).log().len() - old(self).cursor()) as nat,
            ),
            final(self).log() == old(self).log(),
            final(self).cursor() == final(self).log().len(),
            !old(self).stepping_mode() ==> final(self).scene() == replay(
                old(self).log(),
                old(self).log().len(),
            ),
    {
        let ghost start = self.playback();
        while !self.done()
            invariant
                self.wf(),
                self.stepping_mode() == old(self).stepping_mode(),
                self.log() == start.log,
                start == old(self).playback(),
                start.cursor <= self.cursor(),
                self.playback() == steps(start, (self.cursor() - start.cursor) as nat),
            decreases self.log().len() - self.cursor(),
        {
            self.step();
        }
        proof {
            if !self.stepping {
                lemma_steps_replay(start, (self.cursor() - start.cursor) as nat);
            }
        }
    }

    /// Whether the cursor is at the end of the log.
    pub fn done(&mut self) -> (r: bool)
        requires
            old(self).wf(),
        ensures
            *final(self) == *old(self),
            r == (old(self).cursor() == old(self).log().len()),
    {
        self.pointer == self.events.len()
    }
}

} // verus!

use vstd::prelude::*;

verus! {

/// A point as its ordered pair of coordinates `(x, y)`.
pub type Point = (i32, i32);

/// A segment or a ray as its two endpoints, in the order they were given.
pub type Seg = (Point, Point);

/// A store of points, kept as two parallel coordinate buffers.
pub struct Points {
    x: Vec<i32>,
    y: Vec<i32>,
}

impl View for Points {
    type V = Seq<Point>;

    closed spec fn view(&self) -> Seq<Point> {
        Seq::new(self.x@.len(), |i: int| (self.x@[i], self.y@[i]))
    }
}

/// The first coordinates of the points, in order.
pub open spec fn point_xs(s: Seq<Point>) -> Seq<i32> {
    Seq::new(s.len(), |i: int| s[i].0)
}

/// The second coordinates of the points, in order.
pub open spec fn point_ys(s: Seq<Point>) -> Seq<i32> {
    Seq::new(s.len(), |i: int| s[i].1)
}

/// A count as the `u32` that it wraps to.
pub open spec fn wrap_u32(n: nat) -> int {
    (n % 0x1_0000_0000) as int
}

/// The sequence without its last element; an empty sequence stays empty.
pub open spec fn without_last<A>(s: Seq<A>) -> Seq<A> {
    if s.len() == 0 {
        s
    } else {
        s.drop_last()
    }
}

/// Adding an element and then popping it with its value gives back that
/// element and leaves the earlier contents; a pop that discards the value
/// leaves them too.
pub proof fn lemma_add_then_pop<A>(s: Seq<A>, a: A)
    ensures
        s.push(a).len() == s.len() + 1,
        s.push(a).last() == a,
        s.push(a).drop_last() == s,
        without_last(s.push(a)) == s,
{
    assert(s.push(a).drop_last() =~= s);
}

impl Points {
    /// Both coordinate buffers have one entry per point.
    pub closed spec fn wf(&self) -> bool {
        self.x@.len() == self.y@.len()
    }

    pub fn new() -> (r: Self)
        ensures
            r.wf(),
            r@ == Seq::<Point>::empty(),
    {
        let r = Points { x: Vec::new(), y: Vec::new() };
        assert(r@ =~= Seq::<Point>::empty());
        r
    }

    pub fn add(&mut self, x: i32, y: i32)
        requires
            old(self).wf(),
        ensures
            final(self).wf(),
            final(self)@ == old(self)@.push((x, y)),
    {
        self.x.push(x);
        self.y.push(y);
        assert(self@ =~= old(self)@.push((x, y)));
    }

    /// Removes the most recent point; on an empty store nothing happens.
    pub fn pop(&mut self)
        requires
            old(self).wf(),
        ensures
            final(self).wf(),
            final(self)@ == without_last(old(self)@),
    {
        self.x.pop();
        self.y.pop();
        assert(self@ =~= without_last(old(self)@));
    }

    /// Removes the most recent point and returns it.
    pub fn pop_value(&mut self) -> (r: Point)
        requires
            old(self).wf(),
            old(self)@.len() > 0,
        ensures
            final(self).wf(),
            r == old(self)@.last(),
            final(self)@ == old(self)@.drop_last(),
    {
        let x = self.x.pop().unwrap();
        let y = self.y.pop().unwrap();
        assert(self@ =~= old(self)@.drop_last());
        (x, y)
    }

    /// The number of points, wrapped to `u32`.
    pub fn len(&self) -> (r: u32)
        requires
            self.wf(),
        ensures
            r as int == wrap_u32(self@.len()),
    {
        (self.x.len() as u64 % 0x1_0000_0000) as u32
    }

    /// The first coordinates of the points, as one contiguous buffer.
    pub fn x(&self) -> (r: &[i32])
        requires
            self.wf(),
        ensures
            r@ == point_xs(self@),
    {
        assert(self.x@ =~= point_xs(self@));
        self.x.as_slice()
    }

    /// The second coordinates of the points, as one contiguous buffer.
    pub fn y(&self) -> (r: &[i32])
        requires
            self.wf(),
        ensures
            r@ == point_ys(self@),
    {
        assert(self.y@ =~= point_ys(self@));
        self.y.as_slice()
    }

    /// The points as coordinate pairs, in order.
    pub fn condense(&self) -> (r: Vec<Point>)
        requires
            self.wf(),
        ensures
            r@ == self@,
    {
        let mut r: Vec<Point> = Vec::new();
        let n = self.x.len();
        let mut i: usize = 0;
        while i < n
            invariant
                self.wf(),
                n == self@.len(),
                i <= n,
                r@ =~= self@.take(i as int),
            decreases n - i,
        {
            r.push((self.x[i], self.y[i]));
            i = i + 1;
        }
        assert(self@.take(n as int) =~= self@);
        r
    }
}

/// A store of segments, kept as two coordinate buffers in which each segment
/// takes two consecutive entries: its first endpoint, then its second.
pub struct Segs {
    x: Vec<i32>,
    y: Vec<i32>,
}

impl View for Segs {
    type V = Seq<Seg>;

    closed spec fn view(&self) -> Seq<Seg> {
        Seq::new(
            self.x@.len() / 2,
            |i: int| ((self.x@[2 * i], self.y@[2 * i]), (self.x@[2 * i + 1], self.y@[2 * i + 1])),
        )
    }
}

/// The first coordinates of the segments' endpoints, two per segment, in order.
pub open spec fn seg_xs(s: Seq<Seg>) -> Seq<i32> {
    Seq::new(2 * s.len(), |i: int| if i % 2 == 0 { s[i / 2].0.0 } else { s[i / 2].1.0 })
}

/// The second coordinates of the segments' endpoints, two per segment, in order.
pub open spec fn seg_ys(s: Seq<Seg>) -> Seq<i32> {
    Seq::new(2 * s.len(), |i: int| if i % 2 == 0 { s[i / 2].0.1 } else { s[i / 2].1.1 })
}

impl Segs {
    /// Both buffers have the same, even length: two entries per segment.
    pub closed spec fn wf(&self) -> bool {
        &&& self.x@.len() == self.y@.len()
        &&& self.x@.len() % 2 == 0
    }

    pub fn new() -> (r: Self)
        ensures
            r.wf(),
            r@ == Seq::<Seg>::empty(),
    {
        let r = Segs { x: Vec::new(), y: Vec::new() };
        assert(r@ =~= Seq::<Seg>::empty());
        r
    }

    pub fn add(&mut self, x1: i32, y1: i32, x2: i32, y2: i32)
        requires
            old(self).wf(),
        ensures
            final(self).wf(),
            final(self)@ == old(self)@.push(((x1, y1), (x2, y2))),
    {
        self.x.push(x1);
        self.x.push(x2);
        self.y.push(y1);
        self.y.push(y2);
        assert(self@ =~= old(self)@.push(((x1, y1), (x2, y2))));
    }

    /// Removes the most recent segment; on an empty store nothing happens.
    pub fn pop(&mut self)
        requires
            old(self).wf(),
        ensures
            final(self).wf(),
            final(self)@ == without_last(old(self)@),
    {
        self.x.pop();
        self.x.pop();
        self.y.pop();
        self.y.pop();
        assert(self@ =~= without_last(old(self)@));
    }

    /// Removes the most recent segment and returns its endpoints.
    pub fn pop_value(&mut self) -> (r: Seg)
        requires
            old(self).wf(),
            old(self)@.len() > 0,
        ensures
            final(self).wf(),
            r == old(self)@.last(),
            final(self)@ == old(self)@.drop_last(),
    {
        let x2 = self.x.pop().unwrap();
        let x1 = self.x.pop().unwrap();
        let y2 = self.y.pop().unwrap();
        let y1 = self.y.pop().unwrap();
        assert(self@ =~= old(self)@.drop_last());
        ((x1, y1), (x2, y2))
    }

    /// The number of segments, wrapped to `u32`.
    pub fn len(&self) -> (r: u32)
        requires
            self.wf(),
        ensures
            r as int == wrap_u32(self@.len()),
    {
        ((self.x.len() / 2) as u64 % 0x1_0000_0000) as u32
    }

    /// The first coordinates of the endpoints, as one contiguous buffer.
    pub fn x(&self) -> (r: &[i32])
        requires
            self.wf(),
        ensures
            r@ == seg_xs(self@),
    {
        assert(self.x@ =~= seg_xs(self@));
        self.x.as_slice()
    }

    /// The second coordinates of the endpoints, as one contiguous buffer.
    pub fn y(&self) -> (r: &[i32])
        requires
            self.wf(),
        ensures
            r@ == seg_ys(self@),
    {
        assert(self.y@ =~= seg_ys(self@));
        self.y.as_slice()
    }
}

} // verus!

//! Paths: curves, the segments they form, and the builder that draws them.
//!
//! A point is a `glam::Vec2`. The builder moves points into curves and never
//! computes with them.

use vstd::prelude::*;

verus! {

/// One continuous contour: its curves in drawing order.
pub type Segment = Vec<Curve>;

/// A piece of a path, given by its control points.
#[derive(Debug, Clone, Copy)]
pub enum Curve {
    Line { p0: glam::Vec2, p1: glam::Vec2 },
    Quad { p0: glam::Vec2, p1: glam::Vec2, p2: glam::Vec2 },
}

/// The pen of a builder that has a current point.
#[derive(Debug, Clone, Copy)]
pub struct Pen {
    /// Where the last `move_to` went: the point that `close` returns to.
    pub first: glam::Vec2,
    /// Where the pen is now.
    pub last: glam::Vec2,
}

/// Draws one segment, curve by curve.
///
/// A fresh builder has no current point. `move_to` gives it one; `line_to`,
/// `quad_to` and `close` draw from the current point and need it.
pub struct PathBuilder {
    curves: Vec<Curve>,
    pen: Option<Pen>,
}

/// All curves of `segments`, segment after segment.
pub open spec fn spec_flatten(segments: Seq<Vec<Curve>>) -> Seq<Curve> {
    segments.map_values(|segment: Vec<Curve>| segment@).flatten()
}

/// The path of no segment has no curve, and the path of one segment is that
/// segment.
pub proof fn lemma_flatten_small(segment: Vec<Curve>)
    ensures
        spec_flatten(Seq::<Vec<Curve>>::empty()) == Seq::<Curve>::empty(),
        spec_flatten(seq![segment]) == segment@,
{
    let none = Seq::<Vec<Curve>>::empty().map_values(|segment: Vec<Curve>| segment@);
    assert(none =~= Seq::<Seq<Curve>>::empty());
    let one = seq![segment].map_values(|segment: Vec<Curve>| segment@);
    assert(one =~= Seq::<Seq<Curve>>::empty().push(segment@));
    Seq::<Seq<Curve>>::empty().lemma_flatten_push(segment@);
}

/// Joining one more segment to a path appends its curves.
pub proof fn lemma_flatten_push(segments: Seq<Vec<Curve>>, segment: Vec<Curve>)
    ensures
        spec_flatten(segments.push(segment)) == spec_flatten(segments) + segment@,
{
    let joined = segments.map_values(|segment: Vec<Curve>| segment@);
    assert(segments.push(segment).map_values(|segment: Vec<Curve>| segment@) =~= joined.push(
        segment@,
    ));
    joined.lemma_flatten_push(segment@);
}

/// `pieces` is `curves` with every curve replaced by what `split` may return
/// for it, the replacements joined in the order of the curves.
pub open spec fn is_split_of<F: Fn(Curve) -> Vec<Curve>>(
    split: F,
    curves: Seq<Curve>,
    pieces: Seq<Curve>,
) -> bool {
    exists|parts: Seq<Vec<Curve>>|
        {
            &&& parts.len() == curves.len()
            &&& forall|i: int|
                0 <= i < curves.len() ==> split.ensures((curves[i],), #[trigger] parts[i])
            &&& pieces == spec_flatten(parts)
        }
}

impl Curve {
    /// Replaces every curve of `curves` by the pieces that `split` cuts it
    /// into, and joins the pieces in the order of the curves.
    pub fn monotize_path<F: Fn(Curve) -> Vec<Curve>>(curves: &[Curve], split: F) -> (pieces: Vec<
        Curve,
    >)
        requires
            forall|i: int| 0 <= i < curves@.len() ==> #[trigger] split.requires((curves@[i],)),
        ensures
            is_split_of(split, curves@, pieces@),
    {
        let mut pieces: Vec<Curve> = Vec::new();
        let ghost mut parts: Seq<Vec<Curve>> = Seq::empty();
        let mut i: usize = 0;
        assert(parts.map_values(|segment: Vec<Curve>| segment@) =~= Seq::<Seq<Curve>>::empty());
        while i < curves.len()
            invariant
                i <= curves.len(),
                parts.len() == i,
                forall|k: int| 0 <= k < curves@.len() ==> #[trigger] split.requires((curves@[k],)),
                forall|k: int| 0 <= k < i ==> split.ensures((curves@[k],), #[trigger] parts[k]),
                pieces@ == spec_flatten(parts),
            decreases curves.len() - i,
        {
            let mut part = split(curves[i]);
            proof {
                lemma_flatten_push(parts, part);
                parts = parts.push(part);
            }
            pieces.append(&mut part);
            i += 1;
        }
        pieces
    }
}

impl PathBuilder {
    /// The curves drawn so far.
    pub closed spec fn spec_curves(&self) -> Seq<Curve> {
        self.curves@
    }

    /// The pen, if the builder has a current point.
    pub closed spec fn spec_pen(&self) -> Option<Pen> {
        self.pen
    }

    /// A builder with no curve and no current point.
    pub fn new() -> (builder: Self)
        ensures
            builder.spec_curves() == Seq::<Curve>::empty(),
            builder.spec_pen().is_none(),
    {
        PathBuilder { curves: Vec::new(), pen: None }
    }

    /// Whether the builder has a current point.
    pub fn has_current_point(&self) -> (has: bool)
        ensures
            has == self.spec_pen().is_some(),
    {
        self.pen.is_some()
    }

    /// Lifts the pen and puts it down at `p`. No curve is drawn.
    pub fn move_to(self, p: glam::Vec2) -> (builder: Self)
        ensures
            builder.spec_curves() == self.spec_curves(),
            builder.spec_pen() == Some(Pen { first: p, last: p }),
    {
        PathBuilder { curves: self.curves, pen: Some(Pen { first: p, last: p }) }
    }

    /// Draws a line from the current point to `p`, which becomes the current
    /// point.
    pub fn line_to(self, p: glam::Vec2) -> (builder: Self)
        requires
            self.spec_pen().is_some(),
        ensures
            builder.spec_curves() == self.spec_curves().push(
                Curve::Line { p0: self.spec_pen().unwrap().last, p1: p },
            ),
            builder.spec_pen() == Some(Pen { first: self.spec_pen().unwrap().first, last: p }),
    {
        let mut curves = self.curves;
        match self.pen {
            Some(pen) => {
                curves.push(Curve::Line { p0: pen.last, p1: p });
                PathBuilder { curves, pen: Some(Pen { first: pen.first, last: p }) }
            },
            None => PathBuilder { curves, pen: None },
        }
    }

    /// Draws a quadratic curve from the current point to `p2` with control
    /// point `p1`; `p2` becomes the current point.
    pub fn quad_to(self, p1: glam::Vec2, p2: glam::Vec2) -> (builder: Self)
        requires
            self.spec_pen().is_some(),
        ensures
            builder.spec_curves() == self.spec_curves().push(
                Curve::Quad { p0: self.spec_pen().unwrap().last, p1, p2 },
            ),
            builder.spec_pen() == Some(Pen { first: self.spec_pen().unwrap().first, last: p2 }),
    {
        let mut curves = self.curves;
        match self.pen {
            Some(pen) => {
                curves.push(Curve::Quad { p0: pen.last, p1, p2 });
                PathBuilder { curves, pen: Some(Pen { first: pen.first, last: p2 }) }
            },
            None => PathBuilder { curves, pen: None },
        }
    }

    /// Draws a line from the current point back to where the last `move_to`
    /// went, and leaves the pen there.
    pub fn close(self) -> (builder: Self)
        requires
            self.spec_pen().is_some(),
        ensures
            builder.spec_curves() == self.spec_curves().push(
                Curve::Line {
                    p0: self.spec_pen().unwrap().last,
                    p1: self.spec_pen().unwrap().first,
                },
            ),
            builder.spec_pen() == Some(
                Pen { first: self.spec_pen().unwrap().first, last: self.spec_pen().unwrap().first },
            ),
    {
        let mut curves = self.curves;
        match self.pen {
            Some(pen) => {
                curves.push(Curve::Line { p0: pen.last, p1: pen.first });
                PathBuilder { curves, pen: Some(Pen { first: pen.first, last: pen.first }) }
            },
            None => PathBuilder { curves, pen: None },
        }
    }

    /// Replaces every curve drawn so far by the pieces that `split` cuts it
    /// into. The pen stays where it is.
    pub fn monotonize<F: Fn(Curve) -> Vec<Curve>>(self, split: F) -> (builder: Self)
        requires
            forall|i: int|
                0 <= i < self.spec_curves().len() ==> #[trigger] split.requires(
                    (self.spec_curves()[i],),
                ),
        ensures
            is_split_of(split, self.spec_curves(), builder.spec_curves()),
            builder.spec_pen() == self.spec_pen(),
    {
        let drawn = self.curves.as_slice();
        assert forall|i: int| 0 <= i < drawn@.len() implies #[trigger] split.requires(
            (drawn@[i],),
        ) by {
            assert(drawn@[i] == self.spec_curves()[i]);
        }
        let curves = Curve::monotize_path(drawn, split);
        PathBuilder { curves, pen: self.pen }
    }

    /// The segment that was drawn.
    pub fn finish(self) -> (curves: Vec<Curve>)
        ensures
            curves@ == self.spec_curves(),
    {
        self.curves
    }
}

/// Joins the curves of all segments into one list, segment after segment
/// and each segment in its drawing order.
pub fn create_path(segments: &[Segment]) -> (curves: Vec<Curve>)
    ensures
        curves@ == spec_flatten(segments@),
{
    let mut curves: Vec<Curve> = Vec::new();
    let mut i: usize = 0;
    assert(segments@.take(0).map_values(|segment: Vec<Curve>| segment@) =~= Seq::<
        Seq<Curve>,
    >::empty());
    while i < segments.len()
        invariant
            i <= segments.len(),
            curves@ == spec_flatten(segments@.take(i as int)),
        decreases segments.len() - i,
    {
        let segment = &segments[i];
        let ghost joined = curves@;
        let mut j: usize = 0;
        while j < segment.len()
            invariant
                j <= segment.len(),
                curves@ == joined + segment@.take(j as int),
            decreases segment.len() - j,
        {
            curves.push(segment[j]);
            assert(segment@.take(j + 1) =~= segment@.take(j as int).push(segment@[j as int]));
            j += 1;
        }
        proof {
            assert(segment@.take(j as int) =~= segment@);
            assert(segments@.take(i + 1) =~= segments@.take(i as int).push(*segment));
            lemma_flatten_push(segments@.take(i as int), *segment);
        }
        i += 1;
    }
    assert(segments@.take(i as int) =~= segments@);
    curves
}

} // verus!

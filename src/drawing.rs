use vstd::prelude::*;

verus! {

/// A position in canvas space. Each coordinate is the bit pattern of its
/// single-precision value, so two points are the same point exactly when
/// their coordinates agree bit for bit.
#[derive(PartialEq, Eq, Structural, Clone, Copy, Debug)]
pub struct Point {
    pub x: u32,
    pub y: u32,
}

/// The polylines of a drawing, each as a sequence of points.
pub open spec fn lines_view(lines: Seq<Vec<Point>>) -> Seq<Seq<Point>> {
    lines.map_values(|l: Vec<Point>| l@)
}

/// A drawing always has a current polyline: an empty one is opened first.
pub open spec fn with_current(lines: Seq<Seq<Point>>) -> Seq<Seq<Point>> {
    if lines.len() == 0 {
        seq![Seq::<Point>::empty()]
    } else {
        lines
    }
}

/// Whether a pressed pointer at `p` extends the current polyline `cur`:
/// only when `p` differs from its last point, or it has none.
pub open spec fn extends(cur: Seq<Point>, p: Point) -> bool {
    cur.len() == 0 || cur.last() != p
}

/// The drawing after one frame in which the pointer is pressed at `pos`, or
/// released (`None`).
pub open spec fn pointer_step(lines: Seq<Seq<Point>>, pos: Option<Point>) -> Seq<Seq<Point>> {
    let ls = with_current(lines);
    let cur = ls.last();
    match pos {
        Some(p) => if extends(cur, p) {
            ls.update(ls.len() - 1, cur.push(p))
        } else {
            ls
        },
        None => if cur.len() > 0 {
            ls.push(Seq::empty())
        } else {
            ls
        },
    }
}

/// Whether that frame adds a point or closes a polyline.
pub open spec fn pointer_changes(lines: Seq<Seq<Point>>, pos: Option<Point>) -> bool {
    let cur = with_current(lines).last();
    match pos {
        Some(p) => extends(cur, p),
        None => cur.len() > 0,
    }
}

/// The polylines that are drawn: those with at least two points, in order.
pub open spec fn drawable(lines: Seq<Seq<Point>>) -> Seq<Seq<Point>> {
    lines.filter(has_segment())
}

/// Whether a polyline has a segment to draw, that is two points or more.
pub open spec fn has_segment() -> spec_fn(Seq<Point>) -> bool {
    |l: Seq<Point>| l.len() >= 2
}

/// The drawing after a pressed pointer has passed through `ps`, one frame each.
pub open spec fn drag(lines: Seq<Seq<Point>>, ps: Seq<Point>) -> Seq<Seq<Point>>
    decreases ps.len(),
{
    if ps.len() == 0 {
        lines
    } else {
        pointer_step(drag(lines, ps.drop_last()), Some(ps.last()))
    }
}

/// `ps` without the points that repeat the point just before them.
pub open spec fn dedup_adjacent(ps: Seq<Point>) -> Seq<Point>
    decreases ps.len(),
{
    if ps.len() == 0 {
        ps
    } else {
        let d = dedup_adjacent(ps.drop_last());
        if ps.len() >= 2 && ps[ps.len() - 2] == ps.last() {
            d
        } else {
            d.push(ps.last())
        }
    }
}

proof fn lemma_dedup_last(ps: Seq<Point>)
    requires
        ps.len() > 0,
    ensures
        dedup_adjacent(ps).len() > 0,
        dedup_adjacent(ps).last() == ps.last(),
    decreases ps.len(),
{
    if ps.len() >= 2 {
        lemma_dedup_last(ps.drop_last());
    }
}

/// Dragging from an empty current polyline through `ps` makes the current
/// polyline `ps` with adjacent repeats dropped, and leaves the earlier
/// polylines as they were.
pub proof fn lemma_drag(lines: Seq<Seq<Point>>, ps: Seq<Point>)
    requires
        lines.len() == 0 || lines.last().len() == 0,
        ps.len() > 0,
    ensures
        drag(lines, ps) == with_current(lines).drop_last().push(dedup_adjacent(ps)),
    decreases ps.len(),
{
    let base = with_current(lines).drop_last();
    let qs = ps.drop_last();
    let p = ps.last();
    if qs.len() == 0 {
        assert(dedup_adjacent(qs) =~= Seq::<Point>::empty());
        assert(drag(lines, qs) == lines);
        assert(with_current(lines).last() =~= Seq::<Point>::empty());
        assert(with_current(lines).last().push(p) =~= seq![p]);
        assert(with_current(lines).update(with_current(lines).len() - 1, seq![p])
            =~= base.push(seq![p]));
        assert(dedup_adjacent(ps) =~= seq![p]);
    } else {
        lemma_drag(lines, qs);
        lemma_dedup_last(qs);
        let prev = base.push(dedup_adjacent(qs));
        assert(drag(lines, qs) == prev);
        assert(with_current(prev) == prev);
        assert(prev.last() == dedup_adjacent(qs));
        assert(qs.last() == ps[ps.len() - 2]);
        if dedup_adjacent(qs).last() == p {
            assert(dedup_adjacent(ps) == dedup_adjacent(qs));
        } else {
            assert(dedup_adjacent(ps) == dedup_adjacent(qs).push(p));
            assert(prev.update(prev.len() - 1, dedup_adjacent(qs).push(p))
                =~= base.push(dedup_adjacent(ps)));
        }
    }
}

/// A sequence with no point equal to the one before it has no adjacent
/// repeats to drop.
pub proof fn lemma_dedup_distinct(ps: Seq<Point>)
    requires
        forall|i: int| 0 <= i < ps.len() - 1 ==> #[trigger] ps[i] != ps[i + 1],
    ensures
        dedup_adjacent(ps) == ps,
    decreases ps.len(),
{
    if ps.len() > 0 {
        lemma_dedup_distinct(ps.drop_last());
        assert(dedup_adjacent(ps) =~= ps.drop_last().push(ps.last()));
        assert(ps.drop_last().push(ps.last()) =~= ps);
    }
}

/// Dragging from an empty current polyline through points that each differ
/// from the one before makes the current polyline exactly those points.
pub proof fn lemma_drag_distinct(lines: Seq<Seq<Point>>, ps: Seq<Point>)
    requires
        lines.len() == 0 || lines.last().len() == 0,
        ps.len() > 0,
        forall|i: int| 0 <= i < ps.len() - 1 ==> #[trigger] ps[i] != ps[i + 1],
    ensures
        drag(lines, ps).last() == ps,
        drag(lines, ps).drop_last() == with_current(lines).drop_last(),
{
    lemma_drag(lines, ps);
    lemma_dedup_distinct(ps);
    assert(drag(lines, ps).drop_last() =~= with_current(lines).drop_last());
}

/// Releasing the pointer appends one empty polyline when the current one has
/// points, and nothing otherwise; so releasing twice appends no more than
/// releasing once.
pub proof fn lemma_release(lines: Seq<Seq<Point>>)
    ensures
        lines.len() > 0 && lines.last().len() > 0 ==> pointer_step(lines, None) == lines.push(
            Seq::empty(),
        ),
        lines.len() > 0 && lines.last().len() == 0 ==> pointer_step(lines, None) == lines,
        pointer_step(lines, None).last().len() == 0,
        pointer_step(pointer_step(lines, None), None) == pointer_step(lines, None),
{
}

/// A copy of a polyline.
pub fn copy_line(l: &Vec<Point>) -> (r: Vec<Point>)
    ensures
        r@ == l@,
{
    let mut r: Vec<Point> = Vec::new();
    let mut i: usize = 0;
    while i < l.len()
        invariant
            i <= l.len(),
            r@ == l@.take(i as int),
        decreases l.len() - i,
    {
        r.push(l[i]);
        i = i + 1;
        assert(r@ =~= l@.take(i as int));
    }
    assert(l@.take(i as int) =~= l@);
    r
}

} // verus!

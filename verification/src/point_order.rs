use vstd::prelude::*;
use crate::error::ProjectLayerError;
use crate::ids::{TrackPointId, TrackSegmentId};
use crate::index::first_index;
use crate::track::{SegmentV, TrackPoint, TrackSegment, find_point, point_keys, segments_view};

verus! {

// ── sorting points by time ───────────────────────────────────────────────

/// `a` sorts no later than `b`: points without a time come first, timed
/// points by their time.
pub open spec fn time_le(a: TrackPoint, b: TrackPoint) -> bool {
    match (a.timestamp, b.timestamp) {
        (None, _) => true,
        (Some(_), None) => false,
        (Some(x), Some(y)) => x.secs < y.secs || (x.secs == y.secs && x.nanos <= y.nanos),
    }
}

pub fn time_le_exec(a: &TrackPoint, b: &TrackPoint) -> (r: bool)
    ensures
        r == time_le(*a, *b),
{
    match (a.timestamp, b.timestamp) {
        (None, _) => true,
        (Some(_), None) => false,
        (Some(x), Some(y)) => x.secs < y.secs || (x.secs == y.secs && x.nanos <= y.nanos),
    }
}

/// `x` placed into `s` after every element that sorts no later than it.
pub open spec fn insert_by_time(s: Seq<TrackPoint>, x: TrackPoint) -> Seq<TrackPoint>
    decreases s.len(),
{
    if s.len() == 0 {
        seq![x]
    } else if time_le(s.last(), x) {
        s.push(x)
    } else {
        insert_by_time(s.drop_last(), x).push(s.last())
    }
}

/// The points in time order; points that tie keep their order.
pub open spec fn sort_by_time(s: Seq<TrackPoint>) -> Seq<TrackPoint>
    decreases s.len(),
{
    if s.len() == 0 {
        Seq::empty()
    } else {
        insert_by_time(sort_by_time(s.drop_last()), s.last())
    }
}

proof fn lemma_insert_by_time_tail(s: Seq<TrackPoint>, x: TrackPoint, j: int)
    requires
        0 <= j <= s.len(),
        forall|k: int| j <= k < s.len() ==> !time_le(#[trigger] s[k], x),
    ensures
        insert_by_time(s, x) == insert_by_time(s.take(j), x) + s.skip(j),
    decreases s.len() - j,
{
    if j == s.len() {
        assert(s.take(j) =~= s);
        assert(s.skip(j) =~= Seq::<TrackPoint>::empty());
        assert(insert_by_time(s.take(j), x) + s.skip(j) =~= insert_by_time(s, x));
    } else {
        lemma_insert_by_time_tail(s, x, j + 1);
        let t = s.take(j + 1);
        assert(t.drop_last() =~= s.take(j));
        assert(t.last() == s[j]);
        assert(!time_le(s[j], x));
        assert(insert_by_time(t, x) == insert_by_time(s.take(j), x).push(s[j]));
        assert(s.skip(j) =~= seq![s[j]] + s.skip(j + 1));
        assert(insert_by_time(s.take(j), x).push(s[j]) + s.skip(j + 1)
            =~= insert_by_time(s.take(j), x) + s.skip(j));
    }
}

/// Stable insertion of one point into a time-sorted vector.
fn insert_point_by_time(out: &mut Vec<TrackPoint>, x: TrackPoint)
    ensures
        final(out)@ == insert_by_time(old(out)@, x),
{
    let ghost s = out@;
    let mut j: usize = out.len();
    while j > 0 && !time_le_exec(&out[j - 1], &x)
        invariant
            j <= out.len(),
            out@ == s,
            forall|k: int| j <= k < s.len() ==> !time_le(#[trigger] s[k], x),
        decreases j,
    {
        j = j - 1;
    }
    proof {
        lemma_insert_by_time_tail(s, x, j as int);
        if j > 0 {
            assert(s.take(j as int).last() == s[j - 1]);
            assert(insert_by_time(s.take(j as int), x) == s.take(j as int).push(x));
        } else {
            assert(s.take(0) =~= Seq::<TrackPoint>::empty());
        }
    }
    out.insert(j, x);
    proof {
        assert(out@ =~= s.take(j as int).push(x) + s.skip(j as int));
    }
}

/// The points of a segment sorted by time, untimed points first, ties in
/// their recorded order.
pub fn sort_points_by_time(points: &Vec<TrackPoint>) -> (sorted: Vec<TrackPoint>)
    ensures
        sorted@ == sort_by_time(points@),
{
    let mut out: Vec<TrackPoint> = Vec::new();
    let mut i: usize = 0;
    proof {
        assert(points@.take(0) =~= Seq::<TrackPoint>::empty());
    }
    while i < points.len()
        invariant
            i <= points.len(),
            out@ == sort_by_time(points@.take(i as int)),
        decreases points.len() - i,
    {
        proof {
            assert(points@.take(i as int + 1).drop_last() =~= points@.take(i as int));
        }
        insert_point_by_time(&mut out, points[i]);
        i = i + 1;
    }
    proof {
        assert(points@.take(i as int) =~= points@);
    }
    out
}

pub open spec fn point_id_values(points: Seq<TrackPoint>) -> Seq<u64> {
    Seq::new(points.len(), |i: int| points[i].id.0)
}

/// For each segment, its id and its point ids in time order.
pub open spec fn time_order(segments: Seq<SegmentV>) -> Seq<(u64, Seq<u64>)> {
    Seq::new(segments.len(), |i: int| (segments[i].id.0, point_id_values(sort_by_time(segments[i].points))))
}

pub open spec fn order_view(order: Seq<(u64, Vec<u64>)>) -> Seq<(u64, Seq<u64>)> {
    order.map_values(|e: (u64, Vec<u64>)| (e.0, e.1@))
}

/// The order that sorting each segment's points by time gives, as
/// `(segment id, point ids)`: untimed points first, in their recorded order,
/// then the timed ones by time, ties kept in order.
pub fn sorted_point_order_by_time(segments: &[TrackSegment]) -> (order: Vec<(u64, Vec<u64>)>)
    ensures
        order_view(order@) == time_order(segments_view(segments@)),
{
    let ghost sv = segments_view(segments@);
    let mut order: Vec<(u64, Vec<u64>)> = Vec::new();
    let mut i: usize = 0;
    while i < segments.len()
        invariant
            i <= segments.len(),
            sv == segments_view(segments@),
            order_view(order@) =~= time_order(sv).take(i as int),
        decreases segments.len() - i,
    {
        let sorted = sort_points_by_time(&segments[i].points);
        let ghost before = order_view(order@);
        proof {
            assert(sv[i as int] == segments@[i as int]@);
        }
        let mut ids: Vec<u64> = Vec::new();
        let mut k: usize = 0;
        while k < sorted.len()
            invariant
                k <= sorted.len(),
                ids@ =~= point_id_values(sorted@).take(k as int),
            decreases sorted.len() - k,
        {
            ids.push(sorted[k].id.0);
            k = k + 1;
        }
        proof {
            assert(ids@ =~= point_id_values(sorted@));
        }
        order.push((segments[i].id.0, ids));
        proof {
            assert(order_view(order@) =~= before.push(time_order(sv)[i as int]));
            assert(time_order(sv).take(i as int + 1) =~= time_order(sv).take(i as int).push(time_order(sv)[i as int]));
        }
        i = i + 1;
    }
    proof {
        assert(time_order(sv).take(i as int) =~= time_order(sv));
    }
    order
}

/// `a` has to come after `b` in time order: `a` is timed and `b` is not, or
/// both are timed and `a`'s time is the later one.
pub open spec fn runs_later(a: TrackPoint, b: TrackPoint) -> bool {
    match (a.timestamp, b.timestamp) {
        (Some(_), None) => true,
        (Some(x), Some(y)) => x.secs > y.secs || (x.secs == y.secs && x.nanos > y.nanos),
        _ => false,
    }
}

/// No point of `s` has to come after one that follows it.
pub open spec fn in_time_order(s: Seq<TrackPoint>) -> bool {
    forall|i: int, j: int| 0 <= i < j < s.len() ==> !runs_later(#[trigger] s[i], #[trigger] s[j])
}

/// The points of `s` with time `ts` (or with no time, for `None`), in order.
pub open spec fn stamped_at(s: Seq<TrackPoint>, ts: Option<crate::track::Timestamp>) -> Seq<TrackPoint>
    decreases s.len(),
{
    if s.len() == 0 {
        Seq::empty()
    } else if s.last().timestamp == ts {
        stamped_at(s.drop_last(), ts).push(s.last())
    } else {
        stamped_at(s.drop_last(), ts)
    }
}

proof fn lemma_stamped_at_push(s: Seq<TrackPoint>, x: TrackPoint, ts: Option<crate::track::Timestamp>)
    ensures
        stamped_at(s.push(x), ts) == if x.timestamp == ts { stamped_at(s, ts).push(x) } else { stamped_at(s, ts) },
{
    assert(s.push(x).drop_last() =~= s);
}

proof fn lemma_insert_by_time_stamped(s: Seq<TrackPoint>, x: TrackPoint, ts: Option<crate::track::Timestamp>)
    ensures
        stamped_at(insert_by_time(s, x), ts) == if x.timestamp == ts { stamped_at(s, ts).push(x) } else { stamped_at(s, ts) },
    decreases s.len(),
{
    if s.len() == 0 {
        lemma_stamped_at_push(s, x, ts);
        assert(seq![x] =~= s.push(x));
    } else if time_le(s.last(), x) {
        lemma_stamped_at_push(s, x, ts);
    } else {
        let d = s.drop_last();
        lemma_insert_by_time_stamped(d, x, ts);
        lemma_stamped_at_push(insert_by_time(d, x), s.last(), ts);
        lemma_stamped_at_push(d, s.last(), ts);
        assert(d.push(s.last()) =~= s);
        assert(s.last().timestamp != x.timestamp);
        if x.timestamp == ts && s.last().timestamp == ts {
            assert(false);
        }
    }
}

proof fn lemma_insert_by_time_elements(s: Seq<TrackPoint>, x: TrackPoint)
    ensures
        insert_by_time(s, x).len() == s.len() + 1,
        forall|k: int| 0 <= k < insert_by_time(s, x).len() ==> #[trigger] insert_by_time(s, x)[k] == x || s.contains(
            insert_by_time(s, x)[k],
        ),
    decreases s.len(),
{
    if s.len() > 0 && !time_le(s.last(), x) {
        let d = s.drop_last();
        lemma_insert_by_time_elements(d, x);
        assert forall|k: int| 0 <= k < insert_by_time(s, x).len() implies #[trigger] insert_by_time(s, x)[k] == x || s.contains(
            insert_by_time(s, x)[k],
        ) by {
            let r = insert_by_time(s, x);
            if k < r.len() - 1 {
                assert(r[k] == insert_by_time(d, x)[k]);
                if r[k] != x {
                    let m = choose|m: int| 0 <= m < d.len() && d[m] == r[k];
                    assert(s[m] == r[k]);
                }
            } else {
                assert(s[s.len() - 1] == r[k]);
            }
        }
    } else if s.len() > 0 {
        let r = insert_by_time(s, x);
        assert forall|k: int| 0 <= k < r.len() implies #[trigger] r[k] == x || s.contains(r[k]) by {
            if k < s.len() {
                assert(s[k] == r[k]);
            }
        }
    }
}

proof fn lemma_insert_by_time_ordered(s: Seq<TrackPoint>, x: TrackPoint)
    requires
        in_time_order(s),
    ensures
        in_time_order(insert_by_time(s, x)),
    decreases s.len(),
{
    let r = insert_by_time(s, x);
    lemma_insert_by_time_elements(s, x);
    if s.len() == 0 {
    } else if time_le(s.last(), x) {
        assert forall|i: int, j: int| 0 <= i < j < r.len() implies !runs_later(#[trigger] r[i], #[trigger] r[j]) by {
            if j == s.len() {
                assert(r[i] == s[i]);
                if i < s.len() - 1 {
                    assert(!runs_later(s[i], s[s.len() - 1]));
                }
            } else {
                assert(r[i] == s[i] && r[j] == s[j]);
            }
        }
    } else {
        let d = s.drop_last();
        assert(in_time_order(d)) by {
            assert forall|i: int, j: int| 0 <= i < j < d.len() implies !runs_later(#[trigger] d[i], #[trigger] d[j]) by {
                assert(d[i] == s[i] && d[j] == s[j]);
            }
        }
        lemma_insert_by_time_ordered(d, x);
        lemma_insert_by_time_elements(d, x);
        let m = insert_by_time(d, x);
        assert forall|i: int, j: int| 0 <= i < j < r.len() implies !runs_later(#[trigger] r[i], #[trigger] r[j]) by {
            if j == r.len() - 1 {
                assert(r[j] == s.last());
                assert(r[i] == m[i]);
                if m[i] != x {
                    let q = choose|q: int| 0 <= q < d.len() && d[q] == m[i];
                    assert(s[q] == m[i]);
                }
            } else {
                assert(r[i] == m[i] && r[j] == m[j]);
            }
        }
    }
}

/// Sorting a segment's points by time is a stable sort: the result is in
/// time order, untimed points first, and the points with any one time (or
/// with none) are the same points, in the order they were recorded. So the
/// sort moves no point among those it cannot tell apart, and a segment
/// already in time order comes back as it was.
pub proof fn law_time_sort_is_stable(s: Seq<TrackPoint>)
    ensures
        in_time_order(sort_by_time(s)),
        forall|ts: Option<crate::track::Timestamp>| #[trigger] stamped_at(sort_by_time(s), ts) == stamped_at(s, ts),
        sort_by_time(s).len() == s.len(),
        in_time_order(s) ==> sort_by_time(s) == s,
    decreases s.len(),
{
    if s.len() > 0 {
        let d = s.drop_last();
        law_time_sort_is_stable(d);
        lemma_insert_by_time_ordered(sort_by_time(d), s.last());
        lemma_insert_by_time_elements(sort_by_time(d), s.last());
        assert forall|ts: Option<crate::track::Timestamp>| #[trigger] stamped_at(sort_by_time(s), ts) == stamped_at(s, ts) by {
            lemma_insert_by_time_stamped(sort_by_time(d), s.last(), ts);
            lemma_stamped_at_push(d, s.last(), ts);
            assert(d.push(s.last()) =~= s);
        }
        if in_time_order(s) {
            assert(in_time_order(d)) by {
                assert forall|i: int, j: int| 0 <= i < j < d.len() implies !runs_later(#[trigger] d[i], #[trigger] d[j]) by {
                    assert(d[i] == s[i] && d[j] == s[j]);
                }
            }
            assert(sort_by_time(d) == d);
            if d.len() > 0 {
                assert(!runs_later(s[d.len() - 1], s[s.len() - 1]));
                assert(time_le(d.last(), s.last()));
            }
            assert(d.push(s.last()) =~= s);
        }
    }
}

/// What sorting a track by time puts in each segment's place: the same
/// segment, its point ids in a stable time order of its points; a segment
/// already in time order keeps its order.
pub proof fn law_time_order_of_segments(segments: Seq<SegmentV>)
    ensures
        time_order(segments).len() == segments.len(),
        forall|i: int| 0 <= i < segments.len() ==> {
            &&& (#[trigger] time_order(segments)[i]).0 == segments[i].id.0
            &&& time_order(segments)[i].1 == point_id_values(sort_by_time(segments[i].points))
            &&& in_time_order(segments[i].points) ==> time_order(segments)[i].1 == point_id_values(segments[i].points)
        },
{
    assert forall|i: int| 0 <= i < segments.len() implies {
        &&& (#[trigger] time_order(segments)[i]).0 == segments[i].id.0
        &&& time_order(segments)[i].1 == point_id_values(sort_by_time(segments[i].points))
        &&& in_time_order(segments[i].points) ==> time_order(segments)[i].1 == point_id_values(segments[i].points)
    } by {
        law_time_sort_is_stable(segments[i].points);
    }
}

// ── putting points in a given order ──────────────────────────────────────

/// Why a reorder that does not name every point exactly once is refused.
pub open spec fn reorder_invalid(segment_id: TrackSegmentId) -> ProjectLayerError {
    ProjectLayerError::InvalidSegmentOperation {
        layer_id: 0,
        track_id: 0,
        segment_id: segment_id.0,
        reason: "a new order must name every point of the segment exactly once",
    }
}

/// The first thing wrong with `ids` as a new order, walking it from the
/// front: an id the segment does not hold, or one named twice.
pub open spec fn first_order_problem(s: SegmentV, ids: Seq<TrackPointId>) -> Option<ProjectLayerError>
    decreases ids.len(),
{
    if ids.len() == 0 {
        None
    } else {
        match first_order_problem(s, ids.drop_last()) {
            Some(e) => Some(e),
            None => {
                let id = ids.last();
                if first_index(point_keys(s.points), id.0) is None {
                    Some(ProjectLayerError::MissingTrackPoint {
                        layer_id: 0,
                        track_id: 0,
                        segment_id: s.id.0,
                        point_id: id.0,
                    })
                } else if ids.drop_last().contains(id) {
                    Some(reorder_invalid(s.id))
                } else {
                    None
                }
            },
        }
    }
}

/// The segment's points in the order `ids` names them.
pub open spec fn points_in_order(s: SegmentV, ids: Seq<TrackPointId>) -> Seq<TrackPoint> {
    Seq::new(ids.len(), |i: int| s.points[first_index(point_keys(s.points), ids[i].0).unwrap()])
}

/// Put the points in the order `ids` gives. A list of the wrong length, an
/// unknown id or an id named twice is refused and changes nothing.
pub open spec fn seg_reorder(s: SegmentV, ids: Seq<TrackPointId>) -> (SegmentV, Result<(), ProjectLayerError>) {
    if ids.len() != s.points.len() {
        (s, Err(reorder_invalid(s.id)))
    } else {
        match first_order_problem(s, ids) {
            Some(e) => (s, Err(e)),
            None => (SegmentV { points: points_in_order(s, ids), ..s }, Ok(())),
        }
    }
}

/// Once a prefix of the order has a problem, the whole order has that one.
proof fn lemma_order_problem_extends(s: SegmentV, ids: Seq<TrackPointId>, j: int)
    requires
        0 <= j <= ids.len(),
        first_order_problem(s, ids.take(j)) is Some,
    ensures
        first_order_problem(s, ids) == first_order_problem(s, ids.take(j)),
    decreases ids.len(),
{
    if j < ids.len() {
        assert(ids.drop_last().take(j) =~= ids.take(j));
        lemma_order_problem_extends(s, ids.drop_last(), j);
    } else {
        assert(ids.take(j) =~= ids);
    }
}

pub fn contains_point_id(ids: &Vec<TrackPointId>, end: usize, x: TrackPointId) -> (b: bool)
    requires
        end <= ids.len(),
    ensures
        b == ids@.take(end as int).contains(x),
{
    let mut i: usize = 0;
    while i < end
        invariant
            i <= end <= ids.len(),
            forall|j: int| 0 <= j < i ==> ids@[j] != x,
        decreases end - i,
    {
        if ids[i].0 == x.0 {
            assert(ids@.take(end as int)[i as int] == x);
            return true;
        }
        i = i + 1;
    }
    proof {
        if ids@.take(end as int).contains(x) {
            let j = choose|j: int| 0 <= j < end && ids@.take(end as int)[j] == x;
            assert(ids@[j] == x);
        }
    }
    false
}

impl TrackSegment {
    /// Put the points in the order `ids` names them; see `seg_reorder`.
    pub fn reorder_points(&mut self, ids: &Vec<TrackPointId>) -> (r: Result<(), ProjectLayerError>)
        ensures
            (final(self)@, r) == seg_reorder(old(self)@, ids@),
    {
        if ids.len() != self.points.len() {
            return Err(ProjectLayerError::InvalidSegmentOperation {
                layer_id: 0,
                track_id: 0,
                segment_id: self.id.0,
                reason: "a new order must name every point of the segment exactly once",
            });
        }
        let ghost s = self@;
        let mut out: Vec<TrackPoint> = Vec::new();
        let mut i: usize = 0;
        proof {
            assert(ids@.take(0) =~= Seq::<TrackPointId>::empty());
        }
        while i < ids.len()
            invariant
                i <= ids.len(),
                ids@.len() == s.points.len(),
                self@ == s,
                first_order_problem(s, ids@.take(i as int)) is None,
                out@ =~= points_in_order(s, ids@.take(i as int)),
            decreases ids.len() - i,
        {
            let id = ids[i];
            proof {
                assert(ids@.take(i as int + 1).drop_last() =~= ids@.take(i as int));
                assert(ids@.take(i as int + 1).last() == id);
            }
            match find_point(&self.points, id.0) {
                Some(k) => {
                    if contains_point_id(ids, i, id) {
                        proof {
                            lemma_order_problem_extends(s, ids@, i as int + 1);
                        }
                        return Err(ProjectLayerError::InvalidSegmentOperation {
                            layer_id: 0,
                            track_id: 0,
                            segment_id: self.id.0,
                            reason: "a new order must name every point of the segment exactly once",
                        });
                    }
                    out.push(self.points[k]);
                },
                None => {
                    proof {
                        assert(first_index(point_keys(s.points), id.0) is None);
                        assert(first_order_problem(s, ids@.take(i as int + 1)) == Some(ProjectLayerError::MissingTrackPoint {
                            layer_id: 0,
                            track_id: 0,
                            segment_id: s.id.0,
                            point_id: id.0,
                        }));
                        lemma_order_problem_extends(s, ids@, i as int + 1);
                    }
                    return Err(ProjectLayerError::MissingTrackPoint {
                        layer_id: 0,
                        track_id: 0,
                        segment_id: self.id.0,
                        point_id: id.0,
                    });
                },
            }
            i = i + 1;
        }
        proof {
            assert(ids@.take(i as int) =~= ids@);
        }
        self.points = out;
        Ok(())
    }
}

} // verus!

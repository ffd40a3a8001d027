use vstd::prelude::*;
use crate::command::pairs_view;
use crate::error::ProjectLayerError;
use crate::ids::{TrackPointId, TrackSegmentId};
use crate::index::first_index;
use crate::point_order::seg_reorder;
use crate::project::{
    Project, ProjectV, lemma_p_set_track_twice, p_insert_point, p_locate_track, p_remove_point,
    p_set_track, placeholder_segment, placeholder_track, with_segment,
};
use crate::track::{SegmentV, Track, TrackPoint, TrackSegment, TrackV, find_segment, seg_remove_point, segment_keys};

verus! {

// ── reordering the points of several segments ────────────────────────────

/// A refusal from a segment, told where in the project it happened.
pub open spec fn placed_error(e: ProjectLayerError, l: u64, t: u64) -> ProjectLayerError {
    match e {
        ProjectLayerError::MissingTrackPoint { segment_id, point_id, .. } =>
            ProjectLayerError::MissingTrackPoint { layer_id: l, track_id: t, segment_id, point_id },
        other => other,
    }
}

/// Reorder segment after segment; the first failure stops the walk and the
/// segments already reordered stay so.
pub open spec fn track_reorder(tr: TrackV, order: Seq<(TrackSegmentId, Seq<TrackPointId>)>, l: u64, t: u64) -> (TrackV, Result<(), ProjectLayerError>)
    decreases order.len(),
{
    if order.len() == 0 {
        (tr, Ok(()))
    } else {
        let (sid, ids) = order[0];
        match first_index(segment_keys(tr.segments), sid.0) {
            None => (tr, Err(ProjectLayerError::MissingTrackSegment { layer_id: l, track_id: t, segment_id: sid.0 })),
            Some(si) => {
                let (s2, r) = seg_reorder(tr.segments[si], ids);
                let tr2 = with_segment(tr, si, s2);
                match r {
                    Err(e) => (tr2, Err(placed_error(e, l, t))),
                    Ok(_) => track_reorder(tr2, order.skip(1), l, t),
                }
            },
        }
    }
}

pub open spec fn p_reorder(p: ProjectV, l: u64, t: u64, order: Seq<(TrackSegmentId, Seq<TrackPointId>)>) -> (ProjectV, Result<(), ProjectLayerError>) {
    match p_locate_track(p, l, t) {
        Err(e) => (p, Err(e)),
        Ok((li, ti)) => {
            let (tr2, r) = track_reorder(p.track_layers[li].tracks[ti], order, l, t);
            (p_set_track(p, li, ti, tr2), r)
        },
    }
}

/// Apply `f` to the segment at `si` of `track`, in place.
fn take_segment_of(track: &mut Track, si: usize) -> (seg: TrackSegment)
    requires
        si < old(track)@.segments.len(),
    ensures
        seg@ == old(track)@.segments[si as int],
        final(track)@ == with_segment(old(track)@, si as int, placeholder_segment()),
{
    let ghost raw = track.segments@;
    assert(track.segments@.len() == track@.segments.len());
    let mut seg = TrackSegment::new(TrackSegmentId(0));
    track.segments.set_and_swap(si, &mut seg);
    proof {
        assert(track.segments@ =~= raw.update(si as int, track.segments@[si as int]));
        assert(track@.segments =~= old(track)@.segments.update(si as int, placeholder_segment()));
    }
    seg
}

fn put_segment_of(track: &mut Track, si: usize, seg: TrackSegment)
    requires
        si < old(track)@.segments.len(),
    ensures
        final(track)@ == with_segment(old(track)@, si as int, seg@),
{
    let ghost raw = track.segments@;
    let ghost sv = seg@;
    assert(track.segments@.len() == track@.segments.len());
    let mut seg = seg;
    track.segments.set_and_swap(si, &mut seg);
    proof {
        assert(track.segments@ =~= raw.update(si as int, track.segments@[si as int]));
        assert(track@.segments =~= old(track)@.segments.update(si as int, sv));
    }
}

proof fn lemma_with_segment_twice(tr: TrackV, si: int, a: SegmentV, b: SegmentV)
    requires
        0 <= si < tr.segments.len(),
    ensures
        with_segment(with_segment(tr, si, a), si, b) == with_segment(tr, si, b),
{
    assert(with_segment(with_segment(tr, si, a), si, b).segments =~= with_segment(tr, si, b).segments);
    assert(with_segment(with_segment(tr, si, a), si, b) =~= with_segment(tr, si, b));
}

pub fn reorder_track(track: &mut Track, order: &Vec<(TrackSegmentId, Vec<TrackPointId>)>, l: u64, t: u64) -> (r: Result<(), ProjectLayerError>)
    ensures
        (final(track)@, r) == track_reorder(old(track)@, pairs_view(order@), l, t),
{
    let ghost ov = pairs_view(order@);
    let mut i: usize = 0;
    proof {
        assert(ov.skip(0) =~= ov);
    }
    while i < order.len()
        invariant
            i <= order.len(),
            ov == pairs_view(order@),
            track_reorder(old(track)@, ov, l, t) == track_reorder(track@, ov.skip(i as int), l, t),
        decreases order.len() - i,
    {
        let ghost rest = ov.skip(i as int);
        proof {
            assert(rest[0] == ov[i as int]);
            assert(rest.skip(1) =~= ov.skip(i as int + 1));
        }
        let sid = order[i].0;
        match find_segment(&track.segments, sid.0) {
            None => {
                return Err(ProjectLayerError::MissingTrackSegment { layer_id: l, track_id: t, segment_id: sid.0 });
            },
            Some(si) => {
                let ghost tr = track@;
                let mut seg = take_segment_of(track, si);
                let r = seg.reorder_points(&order[i].1);
                let ghost s2 = seg@;
                put_segment_of(track, si, seg);
                proof {
                    lemma_with_segment_twice(tr, si as int, placeholder_segment(), s2);
                }
                match r {
                    Err(e) => {
                        let placed = match e {
                            ProjectLayerError::MissingTrackPoint { segment_id, point_id, .. } =>
                                ProjectLayerError::MissingTrackPoint { layer_id: l, track_id: t, segment_id, point_id },
                            other => other,
                        };
                        return Err(placed);
                    },
                    Ok(()) => {},
                }
            },
        }
        i = i + 1;
    }
    proof {
        assert(ov.skip(i as int) =~= Seq::<(TrackSegmentId, Seq<TrackPointId>)>::empty());
    }
    Ok(())
}

impl Project {
    /// Reorder the points of some segments of a track; see `track_reorder`.
    pub fn reorder_points_in_layer(&mut self, layer_id: u64, track_id: u64, order: &Vec<(TrackSegmentId, Vec<TrackPointId>)>) -> (r: Result<(), ProjectLayerError>)
        ensures
            (final(self)@, r) == p_reorder(old(self)@, layer_id, track_id, pairs_view(order@)),
    {
        let (li, ti, mut track) = match self.take_track(layer_id, track_id) {
            Ok(x) => x,
            Err(e) => return Err(e),
        };
        let r = reorder_track(&mut track, order, layer_id, track_id);
        let ghost tv = track@;
        self.put_track(li, ti, track);
        proof {
            lemma_p_set_track_twice(old(self)@, li as int, ti as int, placeholder_track(), tv);
        }
        r
    }
}

// ── cropping: removing a set of points at once ───────────────────────────

pub open spec fn points_total(segs: Seq<SegmentV>) -> int
    decreases segs.len(),
{
    if segs.len() == 0 { 0 } else { points_total(segs.drop_last()) + segs.last().points.len() }
}

pub open spec fn ids_total(pairs: Seq<(TrackSegmentId, Seq<TrackPointId>)>) -> int
    decreases pairs.len(),
{
    if pairs.len() == 0 { 0 } else { ids_total(pairs.drop_last()) + pairs.last().1.len() }
}

/// Remove the points named, one after another; the first missing one stops
/// the walk and the points already removed stay removed.
pub open spec fn remove_ids(s: SegmentV, ids: Seq<TrackPointId>, l: u64, t: u64, sid: u64) -> (SegmentV, Result<(), ProjectLayerError>)
    decreases ids.len(),
{
    if ids.len() == 0 {
        (s, Ok(()))
    } else {
        let (s2, r) = seg_remove_point(s, ids[0].0);
        match r {
            Err(_) => (s2, Err(ProjectLayerError::MissingTrackPoint { layer_id: l, track_id: t, segment_id: sid, point_id: ids[0].0 })),
            Ok(_) => remove_ids(s2, ids.skip(1), l, t, sid),
        }
    }
}

pub open spec fn crop_fold(tr: TrackV, pairs: Seq<(TrackSegmentId, Seq<TrackPointId>)>, l: u64, t: u64) -> (TrackV, Result<(), ProjectLayerError>)
    decreases pairs.len(),
{
    if pairs.len() == 0 {
        (tr, Ok(()))
    } else {
        let (sid, ids) = pairs[0];
        match first_index(segment_keys(tr.segments), sid.0) {
            None => (tr, Err(ProjectLayerError::MissingTrackSegment { layer_id: l, track_id: t, segment_id: sid.0 })),
            Some(si) => {
                let (s2, r) = remove_ids(tr.segments[si], ids, l, t, sid.0);
                let tr2 = with_segment(tr, si, s2);
                match r {
                    Err(e) => (tr2, Err(e)),
                    Ok(_) => crop_fold(tr2, pairs.skip(1), l, t),
                }
            },
        }
    }
}

/// Why a crop that would leave a track with no points is refused.
pub open spec fn crop_everything(l: u64, t: u64) -> ProjectLayerError {
    ProjectLayerError::InvalidSegmentOperation {
        layer_id: l,
        track_id: t,
        segment_id: 0,
        reason: "crop would remove every point of the track",
    }
}

/// A crop naming at least as many points as the track has is refused
/// before anything is removed.
pub open spec fn track_crop(tr: TrackV, pairs: Seq<(TrackSegmentId, Seq<TrackPointId>)>, l: u64, t: u64) -> (TrackV, Result<(), ProjectLayerError>) {
    if ids_total(pairs) >= points_total(tr.segments) {
        (tr, Err(crop_everything(l, t)))
    } else {
        crop_fold(tr, pairs, l, t)
    }
}

pub open spec fn p_crop(p: ProjectV, l: u64, t: u64, pairs: Seq<(TrackSegmentId, Seq<TrackPointId>)>) -> (ProjectV, Result<(), ProjectLayerError>) {
    match p_locate_track(p, l, t) {
        Err(e) => (p, Err(e)),
        Ok((li, ti)) => {
            let (tr2, r) = track_crop(p.track_layers[li].tracks[ti], pairs, l, t);
            (p_set_track(p, li, ti, tr2), r)
        },
    }
}

proof fn lemma_sum_bound(acc: int, i: int, len: int, m: int)
    requires
        m == usize::MAX as int,
        0 <= acc <= i * m,
        0 <= i < m,
        0 <= len <= m,
    ensures
        acc + len <= (i + 1) * m,
        (i + 1) * m <= m * m,
        m * m < u128::MAX,
{
    assert((i + 1) * m == i * m + m) by (nonlinear_arith);
    assert((i + 1) * m <= m * m) by (nonlinear_arith)
        requires
            i + 1 <= m,
            0 <= m,
    ;
    assert(m * m < u128::MAX) by (nonlinear_arith)
        requires
            m <= 0xffff_ffff_ffff_ffff,
            0 <= m,
    ;
}

fn segments_points_total(segments: &Vec<TrackSegment>) -> (n: u128)
    ensures
        n as int == points_total(crate::track::segments_view(segments@)),
{
    let ghost sv = crate::track::segments_view(segments@);
    let mut n: u128 = 0;
    let mut i: usize = 0;
    while i < segments.len()
        invariant
            i <= segments.len(),
            sv == crate::track::segments_view(segments@),
            n as int == points_total(sv.take(i as int)),
            n as int <= i * (usize::MAX as int),
        decreases segments.len() - i,
    {
        let len = segments[i].points.len();
        proof {
            assert(sv.take(i as int + 1).drop_last() =~= sv.take(i as int));
            assert(sv[i as int].points.len() == len);
            lemma_sum_bound(n as int, i as int, len as int, usize::MAX as int);
        }
        n = n + len as u128;
        i = i + 1;
    }
    proof {
        assert(sv.take(i as int) =~= sv);
    }
    n
}

fn pairs_ids_total(pairs: &Vec<(TrackSegmentId, Vec<TrackPointId>)>) -> (n: u128)
    ensures
        n as int == ids_total(pairs_view(pairs@)),
{
    let ghost pv = pairs_view(pairs@);
    let mut n: u128 = 0;
    let mut i: usize = 0;
    while i < pairs.len()
        invariant
            i <= pairs.len(),
            pv == pairs_view(pairs@),
            n as int == ids_total(pv.take(i as int)),
            n as int <= i * (usize::MAX as int),
        decreases pairs.len() - i,
    {
        let len = pairs[i].1.len();
        proof {
            assert(pv.take(i as int + 1).drop_last() =~= pv.take(i as int));
            lemma_sum_bound(n as int, i as int, len as int, usize::MAX as int);
        }
        n = n + len as u128;
        i = i + 1;
    }
    proof {
        assert(pv.take(i as int) =~= pv);
    }
    n
}

fn remove_ids_exec(seg: &mut TrackSegment, ids: &Vec<TrackPointId>, l: u64, t: u64, sid: u64) -> (r: Result<(), ProjectLayerError>)
    ensures
        (final(seg)@, r) == remove_ids(old(seg)@, ids@, l, t, sid),
{
    let mut i: usize = 0;
    proof {
        assert(ids@.skip(0) =~= ids@);
    }
    while i < ids.len()
        invariant
            i <= ids.len(),
            remove_ids(old(seg)@, ids@, l, t, sid) == remove_ids(seg@, ids@.skip(i as int), l, t, sid),
        decreases ids.len() - i,
    {
        proof {
            assert(ids@.skip(i as int)[0] == ids@[i as int]);
            assert(ids@.skip(i as int).skip(1) =~= ids@.skip(i as int + 1));
        }
        let pid = ids[i].0;
        match seg.remove_point(pid) {
            Err(_) => {
                return Err(ProjectLayerError::MissingTrackPoint { layer_id: l, track_id: t, segment_id: sid, point_id: pid });
            },
            Ok(_) => {},
        }
        i = i + 1;
    }
    proof {
        assert(ids@.skip(i as int) =~= Seq::<TrackPointId>::empty());
    }
    Ok(())
}

pub fn crop_track(track: &mut Track, pairs: &Vec<(TrackSegmentId, Vec<TrackPointId>)>, l: u64, t: u64) -> (r: Result<(), ProjectLayerError>)
    ensures
        (final(track)@, r) == track_crop(old(track)@, pairs_view(pairs@), l, t),
{
    let total = segments_points_total(&track.segments);
    let removing = pairs_ids_total(pairs);
    if removing >= total {
        return Err(ProjectLayerError::InvalidSegmentOperation {
            layer_id: l,
            track_id: t,
            segment_id: 0,
            reason: "crop would remove every point of the track",
        });
    }
    let ghost pv = pairs_view(pairs@);
    let mut i: usize = 0;
    proof {
        assert(pv.skip(0) =~= pv);
    }
    while i < pairs.len()
        invariant
            i <= pairs.len(),
            pv == pairs_view(pairs@),
            track_crop(old(track)@, pv, l, t) == crop_fold(old(track)@, pv, l, t),
            crop_fold(old(track)@, pv, l, t) == crop_fold(track@, pv.skip(i as int), l, t),
        decreases pairs.len() - i,
    {
        proof {
            assert(pv.skip(i as int)[0] == pv[i as int]);
            assert(pv.skip(i as int).skip(1) =~= pv.skip(i as int + 1));
        }
        let sid = pairs[i].0;
        match find_segment(&track.segments, sid.0) {
            None => {
                return Err(ProjectLayerError::MissingTrackSegment { layer_id: l, track_id: t, segment_id: sid.0 });
            },
            Some(si) => {
                let ghost tr = track@;
                let mut seg = take_segment_of(track, si);
                let r = remove_ids_exec(&mut seg, &pairs[i].1, l, t, sid.0);
                let ghost s2 = seg@;
                put_segment_of(track, si, seg);
                proof {
                    lemma_with_segment_twice(tr, si as int, placeholder_segment(), s2);
                }
                match r {
                    Err(e) => {
                        return Err(e);
                    },
                    Ok(()) => {},
                }
            },
        }
        i = i + 1;
    }
    proof {
        assert(pv.skip(i as int) =~= Seq::<(TrackSegmentId, Seq<TrackPointId>)>::empty());
    }
    Ok(())
}

impl Project {
    /// Remove sets of points from segments of a track; see `track_crop`.
    pub fn crop_points_in_layer(&mut self, layer_id: u64, track_id: u64, pairs: &Vec<(TrackSegmentId, Vec<TrackPointId>)>) -> (r: Result<(), ProjectLayerError>)
        ensures
            (final(self)@, r) == p_crop(old(self)@, layer_id, track_id, pairs_view(pairs@)),
    {
        let (li, ti, mut track) = match self.take_track(layer_id, track_id) {
            Ok(x) => x,
            Err(e) => return Err(e),
        };
        let r = crop_track(&mut track, pairs, layer_id, track_id);
        let ghost tv = track@;
        self.put_track(li, ti, track);
        proof {
            lemma_p_set_track_twice(old(self)@, li as int, ti as int, placeholder_track(), tv);
        }
        r
    }
}

// ── removing and restoring listed points ─────────────────────────────────

pub type PlacedPoint = (TrackSegmentId, usize, TrackPoint);

/// Remove the listed points, last first; the first failure stops the walk
/// and the points already removed stay removed.
pub open spec fn remove_listed(p: ProjectV, l: u64, t: u64, rs: Seq<PlacedPoint>) -> (ProjectV, Result<(), ProjectLayerError>)
    decreases rs.len(),
{
    if rs.len() == 0 {
        (p, Ok(()))
    } else {
        let (sid, _index, point) = rs.last();
        let (p2, r) = p_remove_point(p, l, t, sid.0, point.id.0);
        match r {
            Err(e) => (p2, Err(e)),
            Ok(_) => remove_listed(p2, l, t, rs.drop_last()),
        }
    }
}

/// `a` comes no later than `b` when restoring: by segment id, then index.
pub open spec fn placed_le(a: PlacedPoint, b: PlacedPoint) -> bool {
    a.0.0 < b.0.0 || (a.0.0 == b.0.0 && a.1 <= b.1)
}

pub open spec fn insert_placed(s: Seq<PlacedPoint>, x: PlacedPoint) -> Seq<PlacedPoint>
    decreases s.len(),
{
    if s.len() == 0 {
        seq![x]
    } else if placed_le(s.last(), x) {
        s.push(x)
    } else {
        insert_placed(s.drop_last(), x).push(s.last())
    }
}

/// The listed points by segment id and then index, ties kept in order.
pub open spec fn sort_placed(s: Seq<PlacedPoint>) -> Seq<PlacedPoint>
    decreases s.len(),
{
    if s.len() == 0 {
        Seq::empty()
    } else {
        insert_placed(sort_placed(s.drop_last()), s.last())
    }
}

/// Insert the listed points in the order given; the first failure stops
/// the walk and the points already inserted stay.
pub open spec fn insert_listed(p: ProjectV, l: u64, t: u64, rs: Seq<PlacedPoint>) -> (ProjectV, Result<(), ProjectLayerError>)
    decreases rs.len(),
{
    if rs.len() == 0 {
        (p, Ok(()))
    } else {
        let (sid, index, point) = rs[0];
        let (p2, r) = p_insert_point(p, l, t, sid.0, index, point);
        match r {
            Err(e) => (p2, Err(e)),
            Ok(_) => insert_listed(p2, l, t, rs.skip(1)),
        }
    }
}

/// Put listed points back at their indices, segment by segment and lowest
/// index first, so each lands where it stood.
pub open spec fn p_restore(p: ProjectV, l: u64, t: u64, rs: Seq<PlacedPoint>) -> (ProjectV, Result<(), ProjectLayerError>) {
    insert_listed(p, l, t, sort_placed(rs))
}

proof fn lemma_insert_placed_tail(s: Seq<PlacedPoint>, x: PlacedPoint, j: int)
    requires
        0 <= j <= s.len(),
        forall|k: int| j <= k < s.len() ==> !placed_le(#[trigger] s[k], x),
    ensures
        insert_placed(s, x) == insert_placed(s.take(j), x) + s.skip(j),
    decreases s.len() - j,
{
    if j == s.len() {
        assert(s.take(j) =~= s);
        assert(insert_placed(s.take(j), x) + s.skip(j) =~= insert_placed(s, x));
    } else {
        lemma_insert_placed_tail(s, x, j + 1);
        let t = s.take(j + 1);
        assert(t.drop_last() =~= s.take(j));
        assert(t.last() == s[j]);
        assert(insert_placed(t, x) == insert_placed(s.take(j), x).push(s[j]));
        assert(insert_placed(s.take(j), x).push(s[j]) + s.skip(j + 1) =~= insert_placed(s.take(j), x) + s.skip(j));
    }
}

fn placed_le_exec(a: &PlacedPoint, b: &PlacedPoint) -> (r: bool)
    ensures
        r == placed_le(*a, *b),
{
    a.0.0 < b.0.0 || (a.0.0 == b.0.0 && a.1 <= b.1)
}

fn insert_placed_exec(out: &mut Vec<PlacedPoint>, x: PlacedPoint)
    ensures
        final(out)@ == insert_placed(old(out)@, x),
{
    let ghost s = out@;
    let mut j: usize = out.len();
    while j > 0 && !placed_le_exec(&out[j - 1], &x)
        invariant
            j <= out.len(),
            out@ == s,
            forall|k: int| j <= k < s.len() ==> !placed_le(#[trigger] s[k], x),
        decreases j,
    {
        j = j - 1;
    }
    proof {
        lemma_insert_placed_tail(s, x, j as int);
        if j > 0 {
            assert(s.take(j as int).last() == s[j - 1]);
            assert(insert_placed(s.take(j as int), x) == s.take(j as int).push(x));
        } else {
            assert(s.take(0) =~= Seq::<PlacedPoint>::empty());
        }
    }
    out.insert(j, x);
    proof {
        assert(out@ =~= s.take(j as int).push(x) + s.skip(j as int));
    }
}

/// The listed points sorted as `sort_placed` says.
pub fn sort_placed_points(points: &Vec<PlacedPoint>) -> (sorted: Vec<PlacedPoint>)
    ensures
        sorted@ == sort_placed(points@),
{
    let mut out: Vec<PlacedPoint> = Vec::new();
    let mut i: usize = 0;
    proof {
        assert(points@.take(0) =~= Seq::<PlacedPoint>::empty());
    }
    while i < points.len()
        invariant
            i <= points.len(),
            out@ == sort_placed(points@.take(i as int)),
        decreases points.len() - i,
    {
        proof {
            assert(points@.take(i as int + 1).drop_last() =~= points@.take(i as int));
        }
        insert_placed_exec(&mut out, points[i]);
        i = i + 1;
    }
    proof {
        assert(points@.take(i as int) =~= points@);
    }
    out
}

impl Project {
    /// Remove the listed points, last first; see `remove_listed`.
    pub fn remove_listed_points(&mut self, layer_id: u64, track_id: u64, points: &Vec<PlacedPoint>) -> (r: Result<(), ProjectLayerError>)
        ensures
            (final(self)@, r) == remove_listed(old(self)@, layer_id, track_id, points@),
    {
        let mut i: usize = points.len();
        proof {
            assert(points@.take(i as int) =~= points@);
        }
        while i > 0
            invariant
                i <= points.len(),
                remove_listed(old(self)@, layer_id, track_id, points@) == remove_listed(self@, layer_id, track_id, points@.take(i as int)),
            decreases i,
        {
            proof {
                assert(points@.take(i as int).last() == points@[i - 1]);
                assert(points@.take(i as int).drop_last() =~= points@.take(i - 1));
            }
            let (sid, _index, point) = points[i - 1];
            match self.remove_point_from_layer(layer_id, track_id, sid.0, point.id.0) {
                Err(e) => {
                    return Err(e);
                },
                Ok(_) => {},
            }
            i = i - 1;
        }
        Ok(())
    }

    /// Put listed points back where they stood; see `p_restore`.
    pub fn restore_points(&mut self, layer_id: u64, track_id: u64, points: &Vec<PlacedPoint>) -> (r: Result<(), ProjectLayerError>)
        ensures
            (final(self)@, r) == p_restore(old(self)@, layer_id, track_id, points@),
    {
        let sorted = sort_placed_points(points);
        let ghost sv = sorted@;
        let mut i: usize = 0;
        proof {
            assert(sv.skip(0) =~= sv);
        }
        while i < sorted.len()
            invariant
                i <= sorted.len(),
                sv == sorted@,
                sv == sort_placed(points@),
                insert_listed(old(self)@, layer_id, track_id, sv) == insert_listed(self@, layer_id, track_id, sv.skip(i as int)),
            decreases sorted.len() - i,
        {
            proof {
                assert(sv.skip(i as int)[0] == sv[i as int]);
                assert(sv.skip(i as int).skip(1) =~= sv.skip(i as int + 1));
            }
            let (sid, index, point) = sorted[i];
            match self.insert_point_in_layer(layer_id, track_id, sid.0, index, point) {
                Err(e) => {
                    return Err(e);
                },
                Ok(_) => {},
            }
            i = i + 1;
        }
        proof {
            assert(sv.skip(i as int) =~= Seq::<PlacedPoint>::empty());
        }
        Ok(())
    }
}

} // verus!

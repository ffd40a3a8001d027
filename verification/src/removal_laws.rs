use vstd::prelude::*;
use crate::bulk_edit::{PlacedPoint, crop_fold, insert_listed, remove_listed, insert_placed, placed_le, remove_ids, sort_placed};
use crate::command::{CommandError, CommandV};
use crate::command_apply::apply_spec;
use crate::command_reverse::reverse_spec;
use crate::error::ProjectLayerError;
use crate::ids::{LayerId, TrackId};
use crate::laws::{lemma_locate_after_set_track, points_fit};
use crate::project::{ProjectV, lemma_p_set_track_same, lemma_p_set_track_twice, p_insert_point, p_remove_point, p_locate_segment, p_locate_track, p_segment, p_set_segment, p_set_track};
use crate::track::seg_insert_point;
use crate::command_reverse::{crop_capture, selected_points};
use crate::ids::{TrackPointId, TrackSegmentId};
use crate::index::{first_index, is_first, lemma_first_index_some};
use crate::project::with_segment;
use crate::track::{SegmentV, TrackPoint, TrackV, point_keys, seg_remove_point, segment_keys};

verus! {

// ── the points of a segment that are still there ─────────────────────────

/// The points of `s` whose id is not listed as gone for segment `sid`, in
/// their order.
pub open spec fn keep(s: Seq<TrackPoint>, sid: u64, gone: Set<(u64, u64)>) -> Seq<TrackPoint>
    decreases s.len(),
{
    if s.len() == 0 {
        s
    } else {
        let rest = keep(s.drop_last(), sid, gone);
        if gone.contains((sid, s.last().id.0)) { rest } else { rest.push(s.last()) }
    }
}

/// No two points of `s` share an id.
pub open spec fn unique_points(s: Seq<TrackPoint>) -> bool {
    forall|a: int, b: int| 0 <= a < s.len() && 0 <= b < s.len() && a != b ==> #[trigger] s[a].id != #[trigger] s[b].id
}

proof fn lemma_keep_concat(a: Seq<TrackPoint>, b: Seq<TrackPoint>, sid: u64, gone: Set<(u64, u64)>)
    ensures
        keep(a + b, sid, gone) == keep(a, sid, gone) + keep(b, sid, gone),
    decreases b.len(),
{
    if b.len() == 0 {
        assert(a + b =~= a);
        assert(keep(a, sid, gone) + keep(b, sid, gone) =~= keep(a, sid, gone));
    } else {
        lemma_keep_concat(a, b.drop_last(), sid, gone);
        assert((a + b).drop_last() =~= a + b.drop_last());
        assert((a + b).last() == b.last());
        let ka = keep(a, sid, gone);
        let kb = keep(b.drop_last(), sid, gone);
        assert((ka + kb).push(b.last()) =~= ka + kb.push(b.last()));
    }
}

proof fn lemma_keep_single(x: TrackPoint, sid: u64, gone: Set<(u64, u64)>)
    ensures
        keep(seq![x], sid, gone) == (if gone.contains((sid, x.id.0)) { Seq::<TrackPoint>::empty() } else { seq![x] }),
{
    assert(seq![x].drop_last() =~= Seq::<TrackPoint>::empty());
    assert(keep(Seq::<TrackPoint>::empty(), sid, gone) == Seq::<TrackPoint>::empty());
    assert(keep(seq![x], sid, gone) == (if gone.contains((sid, x.id.0)) { keep(Seq::<TrackPoint>::empty(), sid, gone) } else { keep(Seq::<TrackPoint>::empty(), sid, gone).push(x) }));
    assert(Seq::<TrackPoint>::empty().push(x) =~= seq![x]);
}

/// Where nothing of `a` is gone, all of it is kept.
proof fn lemma_keep_all(a: Seq<TrackPoint>, sid: u64, gone: Set<(u64, u64)>)
    requires
        forall|j: int| 0 <= j < a.len() ==> !gone.contains((sid, #[trigger] a[j].id.0)),
    ensures
        keep(a, sid, gone) == a,
    decreases a.len(),
{
    if a.len() > 0 {
        lemma_keep_all(a.drop_last(), sid, gone);
        assert(a.drop_last().push(a.last()) =~= a);
    }
}

/// Two gone-lists that agree on the points of `a` keep the same of it.
proof fn lemma_keep_same(a: Seq<TrackPoint>, sid: u64, g1: Set<(u64, u64)>, g2: Set<(u64, u64)>)
    requires
        forall|j: int| 0 <= j < a.len() ==> g1.contains((sid, #[trigger] a[j].id.0)) == g2.contains((sid, a[j].id.0)),
    ensures
        keep(a, sid, g1) == keep(a, sid, g2),
    decreases a.len(),
{
    if a.len() > 0 {
        lemma_keep_same(a.drop_last(), sid, g1, g2);
    }
}

/// Every kept point is a point of `a` that is not gone.
proof fn lemma_keep_elems(a: Seq<TrackPoint>, sid: u64, gone: Set<(u64, u64)>)
    ensures
        keep(a, sid, gone).len() <= a.len(),
        forall|i: int| 0 <= i < keep(a, sid, gone).len() ==> exists|j: int| 0 <= j < a.len() && a[j] == #[trigger] keep(a, sid, gone)[i] && !gone.contains((sid, a[j].id.0)),
    decreases a.len(),
{
    if a.len() > 0 {
        lemma_keep_elems(a.drop_last(), sid, gone);
        let k = keep(a, sid, gone);
        let r = keep(a.drop_last(), sid, gone);
        assert forall|i: int| 0 <= i < k.len() implies exists|j: int| 0 <= j < a.len() && a[j] == #[trigger] k[i] && !gone.contains((sid, a[j].id.0)) by {
            if i < r.len() {
                assert(k[i] == r[i]);
                let j = choose|j: int| 0 <= j < a.drop_last().len() && a.drop_last()[j] == r[i] && !gone.contains((sid, a.drop_last()[j].id.0));
                assert(a[j] == k[i]);
            } else {
                assert(k[i] == a.last());
                assert(a[a.len() - 1] == k[i]);
            }
        }
    }
}

proof fn lemma_split3(s: Seq<TrackPoint>, j: int)
    requires
        0 <= j < s.len(),
    ensures
        s == s.take(j) + seq![s[j]] + s.skip(j + 1),
{
    assert(s =~= s.take(j) + seq![s[j]] + s.skip(j + 1));
}

/// Removing a point that is still there by its id leaves what is kept once
/// that point is gone too; it sat after the kept points before it.
pub proof fn lemma_keep_remove(s: Seq<TrackPoint>, sid: u64, gone: Set<(u64, u64)>, j: int)
    requires
        unique_points(s),
        0 <= j < s.len(),
        !gone.contains((sid, s[j].id.0)),
    ensures
        first_index(point_keys(keep(s, sid, gone)), s[j].id.0) == Some(keep(s.take(j), sid, gone).len() as int),
        keep(s, sid, gone).remove(keep(s.take(j), sid, gone).len() as int) == keep(s, sid, gone.insert((sid, s[j].id.0))),
{
    let x = s[j].id.0;
    let a = s.take(j);
    let b = s.skip(j + 1);
    let g2 = gone.insert((sid, x));
    lemma_split3(s, j);
    lemma_keep_concat(a + seq![s[j]], b, sid, gone);
    lemma_keep_concat(a, seq![s[j]], sid, gone);
    lemma_keep_concat(a + seq![s[j]], b, sid, g2);
    lemma_keep_concat(a, seq![s[j]], sid, g2);
    lemma_keep_single(s[j], sid, gone);
    lemma_keep_single(s[j], sid, g2);
    assert forall|i: int| 0 <= i < a.len() implies gone.contains((sid, #[trigger] a[i].id.0)) == g2.contains((sid, a[i].id.0)) by {
        assert(a[i] == s[i]);
        assert(s[i].id != s[j].id);
    }
    assert forall|i: int| 0 <= i < b.len() implies gone.contains((sid, #[trigger] b[i].id.0)) == g2.contains((sid, b[i].id.0)) by {
        assert(b[i] == s[j + 1 + i]);
        assert(s[j + 1 + i].id != s[j].id);
    }
    lemma_keep_same(a, sid, gone, g2);
    lemma_keep_same(b, sid, gone, g2);
    let ka = keep(a, sid, gone);
    let kb = keep(b, sid, gone);
    let c = keep(s, sid, gone);
    assert(c == ka + seq![s[j]] + kb);
    lemma_keep_elems(a, sid, gone);
    let keys = point_keys(c);
    assert(is_first(keys, x, ka.len() as int)) by {
        assert forall|i: int| 0 <= i < ka.len() implies keys[i] != x by {
            let w = choose|w: int| 0 <= w < a.len() && a[w] == #[trigger] ka[i] && !gone.contains((sid, a[w].id.0));
            assert(c[i] == ka[i]);
            assert(a[w] == s[w]);
            assert(s[w].id != s[j].id);
        }
        assert(c[ka.len() as int] == s[j]);
    }
    lemma_first_index_some(keys, x, ka.len() as int);
    assert(c.remove(ka.len() as int) =~= ka + kb);
    assert(keep(s, sid, g2) =~= ka + kb);
}

/// Putting a gone point back at its own index, once every point before it
/// is there, keeps it again.
pub proof fn lemma_keep_insert(s: Seq<TrackPoint>, sid: u64, gone: Set<(u64, u64)>, k: int)
    requires
        unique_points(s),
        0 <= k < s.len(),
        gone.contains((sid, s[k].id.0)),
        forall|j: int| 0 <= j < k ==> !gone.contains((sid, #[trigger] s[j].id.0)),
    ensures
        k <= keep(s, sid, gone).len(),
        keep(s, sid, gone).insert(k, s[k]) == keep(s, sid, gone.remove((sid, s[k].id.0))),
{
    let x = s[k].id.0;
    let a = s.take(k);
    let b = s.skip(k + 1);
    let g2 = gone.remove((sid, x));
    lemma_split3(s, k);
    lemma_keep_concat(a + seq![s[k]], b, sid, gone);
    lemma_keep_concat(a, seq![s[k]], sid, gone);
    lemma_keep_concat(a + seq![s[k]], b, sid, g2);
    lemma_keep_concat(a, seq![s[k]], sid, g2);
    lemma_keep_single(s[k], sid, gone);
    lemma_keep_single(s[k], sid, g2);
    assert forall|i: int| 0 <= i < a.len() implies !gone.contains((sid, #[trigger] a[i].id.0)) by {
        assert(a[i] == s[i]);
    }
    assert forall|i: int| 0 <= i < a.len() implies !g2.contains((sid, #[trigger] a[i].id.0)) by {
        assert(a[i] == s[i]);
    }
    lemma_keep_all(a, sid, gone);
    lemma_keep_all(a, sid, g2);
    assert forall|i: int| 0 <= i < b.len() implies gone.contains((sid, #[trigger] b[i].id.0)) == g2.contains((sid, b[i].id.0)) by {
        assert(b[i] == s[k + 1 + i]);
        assert(s[k + 1 + i].id != s[k].id);
    }
    lemma_keep_same(b, sid, gone, g2);
    let kb = keep(b, sid, gone);
    assert(keep(s, sid, gone) =~= a + kb);
    assert(keep(s, sid, g2) =~= a + seq![s[k]] + kb);
    assert((a + kb).insert(k, s[k]) =~= a + seq![s[k]] + kb);
}

// ── a track with some of its points gone ─────────────────────────────────

/// The segment at `i` is the one a lookup by its id finds: the first with
/// that id.
pub open spec fn found_at(t: TrackV, i: int) -> bool {
    first_index(segment_keys(t.segments), t.segments[i].id.0) == Some(i)
}

/// The track with the points listed as gone taken out of their segments.
/// Every edit finds a segment by its id, so only the first segment with an
/// id is ever edited; a later one with the same id stays as it is.
pub open spec fn track_keep(t: TrackV, gone: Set<(u64, u64)>) -> TrackV {
    TrackV {
        segments: Seq::new(t.segments.len(), |i: int| if found_at(t, i) {
            SegmentV { points: keep(t.segments[i].points, t.segments[i].id.0, gone), ..t.segments[i] }
        } else {
            t.segments[i]
        }),
        ..t
    }
}

/// No two points of a segment share an id.
pub open spec fn unique_track(t: TrackV) -> bool {
    forall|i: int| 0 <= i < t.segments.len() ==> unique_points(#[trigger] t.segments[i].points)
}

/// The points a list of ids names in segment `sid`.
pub open spec fn tagged(sid: u64, ids: Seq<TrackPointId>) -> Set<(u64, u64)> {
    Set::new(|k: (u64, u64)| k.0 == sid && exists|i: int| 0 <= i < ids.len() && ids[i].0 == k.1)
}

/// What a placed point stands for: its segment and its id.
pub open spec fn placed_key(e: PlacedPoint) -> (u64, u64) {
    (e.0.0, e.2.id.0)
}

pub open spec fn placed_keys(rs: Seq<PlacedPoint>) -> Set<(u64, u64)> {
    Set::new(|k: (u64, u64)| exists|i: int| 0 <= i < rs.len() && placed_key(rs[i]) == k)
}

proof fn lemma_track_keep_none(t: TrackV)
    ensures
        track_keep(t, Set::empty()) == t,
{
    assert forall|i: int| 0 <= i < t.segments.len() implies #[trigger] track_keep(t, Set::empty()).segments[i] == t.segments[i] by {
        lemma_keep_all(t.segments[i].points, t.segments[i].id.0, Set::empty());
    }
    assert(track_keep(t, Set::empty()).segments =~= t.segments);
    assert(track_keep(t, Set::empty()) =~= t);
}

proof fn lemma_track_keep_keys(t: TrackV, gone: Set<(u64, u64)>)
    ensures
        segment_keys(track_keep(t, gone).segments) == segment_keys(t.segments),
        track_keep(t, gone).id == t.id,
{
    assert(segment_keys(track_keep(t, gone).segments) =~= segment_keys(t.segments));
}

/// Changing the gone-list only for segment `sid` changes only that segment.
proof fn lemma_track_keep_update(t: TrackV, si: int, g1: Set<(u64, u64)>, g2: Set<(u64, u64)>)
    requires
        0 <= si < t.segments.len(),
        found_at(t, si),
        forall|k: (u64, u64)| k.0 != t.segments[si].id.0 ==> (g1.contains(k) == g2.contains(k)),
    ensures
        with_segment(track_keep(t, g1), si, track_keep(t, g2).segments[si]) == track_keep(t, g2),
{
    let a = with_segment(track_keep(t, g1), si, track_keep(t, g2).segments[si]);
    assert forall|i: int| 0 <= i < t.segments.len() implies #[trigger] a.segments[i] == track_keep(t, g2).segments[i] by {
        if i != si && found_at(t, i) {
            assert(t.segments[i].id != t.segments[si].id);
            let pts = t.segments[i].points;
            let sid = t.segments[i].id.0;
            assert forall|j: int| 0 <= j < pts.len() implies g1.contains((sid, #[trigger] pts[j].id.0)) == g2.contains((sid, pts[j].id.0)) by {
            }
            lemma_keep_same(pts, sid, g1, g2);
        }
    }
    assert(a.segments =~= track_keep(t, g2).segments);
    assert(a =~= track_keep(t, g2));
}

/// Removing a list of ids from a segment, when it succeeds, removes each of
/// them once: every one was still there, none twice.
proof fn lemma_remove_ids(t: TrackV, si: int, gone: Set<(u64, u64)>, ids: Seq<TrackPointId>, l: u64, tid: u64)
    requires
        unique_track(t),
        0 <= si < t.segments.len(),
        found_at(t, si),
    ensures
        ({
            let sid = t.segments[si].id.0;
            let s = t.segments[si].points;
            let (s2, r) = remove_ids(track_keep(t, gone).segments[si], ids, l, tid, sid);
            r is Ok ==> {
                &&& s2 == track_keep(t, gone.union(tagged(sid, ids))).segments[si]
                &&& forall|i: int| 0 <= i < ids.len() ==> !gone.contains((sid, #[trigger] ids[i].0))
                &&& forall|i: int| 0 <= i < ids.len() ==> exists|j: int| 0 <= j < s.len() && s[j].id == #[trigger] ids[i]
                &&& forall|a: int, b: int| 0 <= a < b < ids.len() ==> ids[a] != ids[b]
            }
        }),
    decreases ids.len(),
{
    let sid = t.segments[si].id.0;
    let s = t.segments[si].points;
    let seg = track_keep(t, gone).segments[si];
    assert(seg.points == keep(s, sid, gone));
    if ids.len() == 0 {
        assert(gone.union(tagged(sid, ids)) =~= gone);
    } else {
        let x = ids[0].0;
        let (s1, r1) = seg_remove_point(seg, x);
        if r1 is Ok {
            let i = first_index(point_keys(seg.points), x)->Some_0;
            assert(is_first(point_keys(seg.points), x, i));
            lemma_keep_elems(s, sid, gone);
            let j = choose|j: int| 0 <= j < s.len() && s[j] == #[trigger] keep(s, sid, gone)[i] && !gone.contains((sid, s[j].id.0));
            lemma_keep_remove(s, sid, gone, j);
            let g1 = gone.insert((sid, x));
            assert(s1 == track_keep(t, g1).segments[si]);
            lemma_remove_ids(t, si, g1, ids.skip(1), l, tid);
            let (s2, r) = remove_ids(s1, ids.skip(1), l, tid, sid);
            if r is Ok {
                assert(g1.union(tagged(sid, ids.skip(1))) =~= gone.union(tagged(sid, ids))) by {
                    assert forall|k: (u64, u64)| tagged(sid, ids).contains(k) implies #[trigger] g1.union(tagged(sid, ids.skip(1))).contains(k) by {
                        let w = choose|w: int| 0 <= w < ids.len() && ids[w].0 == k.1;
                        if w > 0 {
                            assert(ids.skip(1)[w - 1] == ids[w]);
                        }
                    }
                    assert forall|k: (u64, u64)| tagged(sid, ids.skip(1)).contains(k) implies #[trigger] tagged(sid, ids).contains(k) by {
                        let w = choose|w: int| 0 <= w < ids.skip(1).len() && ids.skip(1)[w].0 == k.1;
                        assert(ids[w + 1] == ids.skip(1)[w]);
                    }
                }
                assert forall|a: int| 0 <= a < ids.len() implies !gone.contains((sid, #[trigger] ids[a].0)) by {
                    if a > 0 {
                        assert(ids.skip(1)[a - 1] == ids[a]);
                    }
                }
                assert forall|a: int| 0 <= a < ids.len() implies exists|j: int| 0 <= j < s.len() && s[j].id == #[trigger] ids[a] by {
                    if a > 0 {
                        assert(ids.skip(1)[a - 1] == ids[a]);
                    } else {
                        assert(s[j].id.0 == x);
                        assert(s[j].id == ids[0]);
                    }
                }
                assert forall|a: int, b: int| 0 <= a < b < ids.len() implies ids[a] != ids[b] by {
                    assert(ids.skip(1)[b - 1] == ids[b]);
                    if a > 0 {
                        assert(ids.skip(1)[a - 1] == ids[a]);
                    } else {
                        assert(!g1.contains((sid, ids.skip(1)[b - 1].0)));
                    }
                }
            }
        }
    }
}

/// The placed point is the point at that index of the segment with that id.
pub open spec fn placed_in(t: TrackV, e: PlacedPoint) -> bool {
    match first_index(segment_keys(t.segments), e.0.0) {
        Some(si) => (e.1 as int) < t.segments[si].points.len() && t.segments[si].points[e.1 as int] == e.2,
        None => false,
    }
}

/// No two placed points stand for the same point.
pub open spec fn keys_distinct(rs: Seq<PlacedPoint>) -> bool {
    forall|a: int, b: int| 0 <= a < b < rs.len() ==> placed_key(#[trigger] rs[a]) != placed_key(#[trigger] rs[b])
}

/// The points a crop takes from the first segment it names.
pub open spec fn head_capture(t: TrackV, pair: (TrackSegmentId, Seq<TrackPointId>)) -> Seq<PlacedPoint> {
    match first_index(segment_keys(t.segments), pair.0.0) {
        Some(si) => selected_points(pair.0, t.segments[si].points, pair.1),
        None => Seq::empty(),
    }
}

proof fn lemma_selected(sid: TrackSegmentId, pts: Seq<TrackPoint>, ids: Seq<TrackPointId>)
    requires
        pts.len() <= usize::MAX,
    ensures
        ({
            let sel = selected_points(sid, pts, ids);
            &&& forall|a: int| 0 <= a < sel.len() ==> {
                &&& (#[trigger] sel[a]).0 == sid
                &&& (sel[a].1 as int) < pts.len()
                &&& pts[sel[a].1 as int] == sel[a].2
                &&& ids.contains(sel[a].2.id)
            }
            &&& forall|a: int, b: int| 0 <= a < b < sel.len() ==> (#[trigger] sel[a]).1 < (#[trigger] sel[b]).1
            &&& forall|j: int| 0 <= j < pts.len() && ids.contains(#[trigger] pts[j].id) ==> exists|a: int| 0 <= a < sel.len() && sel[a].1 as int == j
        }),
    decreases pts.len(),
{
    if pts.len() > 0 {
        lemma_selected(sid, pts.drop_last(), ids);
        let sel = selected_points(sid, pts, ids);
        let rest = selected_points(sid, pts.drop_last(), ids);
        let n = pts.len() - 1;
        assert forall|j: int| 0 <= j < pts.len() && ids.contains(#[trigger] pts[j].id) implies exists|a: int| 0 <= a < sel.len() && sel[a].1 as int == j by {
            if j < n {
                assert(pts.drop_last()[j] == pts[j]);
                let a = choose|a: int| 0 <= a < rest.len() && rest[a].1 as int == j;
                assert(sel[a] == rest[a]);
            } else {
                assert(sel[rest.len() as int].1 as int == j);
            }
        }
    }
}

/// The keys of what a crop takes from one segment are the ids it names
/// there, when all of them are there.
proof fn lemma_selected_keys(sid: TrackSegmentId, pts: Seq<TrackPoint>, ids: Seq<TrackPointId>)
    requires
        pts.len() <= usize::MAX,
        forall|i: int| 0 <= i < ids.len() ==> exists|j: int| 0 <= j < pts.len() && pts[j].id == #[trigger] ids[i],
    ensures
        placed_keys(selected_points(sid, pts, ids)) == tagged(sid.0, ids),
{
    lemma_selected(sid, pts, ids);
    let sel = selected_points(sid, pts, ids);
    assert forall|k: (u64, u64)| #[trigger] placed_keys(sel).contains(k) implies tagged(sid.0, ids).contains(k) by {
        let a = choose|a: int| 0 <= a < sel.len() && placed_key(sel[a]) == k;
        let w = choose|w: int| 0 <= w < ids.len() && ids[w] == sel[a].2.id;
        assert(ids[w].0 == k.1);
    }
    assert forall|k: (u64, u64)| #[trigger] tagged(sid.0, ids).contains(k) implies placed_keys(sel).contains(k) by {
        let w = choose|w: int| 0 <= w < ids.len() && ids[w].0 == k.1;
        let j = choose|j: int| 0 <= j < pts.len() && pts[j].id == ids[w];
        assert(ids.contains(pts[j].id));
        let a = choose|a: int| 0 <= a < sel.len() && sel[a].1 as int == j;
        assert(placed_key(sel[a]) == k);
    }
    assert(placed_keys(sel) =~= tagged(sid.0, ids));
}

proof fn lemma_capture_front(t: TrackV, pairs: Seq<(TrackSegmentId, Seq<TrackPointId>)>)
    requires
        pairs.len() > 0,
    ensures
        crop_capture(t, pairs) == head_capture(t, pairs[0]) + crop_capture(t, pairs.skip(1)),
    decreases pairs.len(),
{
    if pairs.len() == 1 {
        assert(pairs.drop_last() =~= Seq::<(TrackSegmentId, Seq<TrackPointId>)>::empty());
        assert(pairs.skip(1) =~= Seq::<(TrackSegmentId, Seq<TrackPointId>)>::empty());
        assert(crop_capture(t, pairs.drop_last()) == Seq::<PlacedPoint>::empty());
        assert(crop_capture(t, pairs.skip(1)) == Seq::<PlacedPoint>::empty());
        assert(crop_capture(t, pairs) =~= head_capture(t, pairs[0]));
        assert(head_capture(t, pairs[0]) + Seq::<PlacedPoint>::empty() =~= head_capture(t, pairs[0]));
    } else {
        lemma_capture_front(t, pairs.drop_last());
        assert(pairs.drop_last()[0] == pairs[0]);
        assert(pairs.skip(1).drop_last() =~= pairs.drop_last().skip(1));
        assert(pairs.skip(1).last() == pairs.last());
        let h = head_capture(t, pairs[0]);
        let m = crop_capture(t, pairs.drop_last().skip(1));
        let z = head_capture(t, pairs.last());
        assert(crop_capture(t, pairs) == crop_capture(t, pairs.drop_last()) + z);
        assert(crop_capture(t, pairs.skip(1)) == m + z);
        assert((h + m) + z =~= h + (m + z));
    }
}

/// A crop that succeeds takes out exactly the points its capture lists,
/// each once, each one that was still there.
proof fn lemma_crop_fold(t: TrackV, gone: Set<(u64, u64)>, pairs: Seq<(TrackSegmentId, Seq<TrackPointId>)>, l: u64, tid: u64)
    requires
        unique_track(t),
        forall|i: int| 0 <= i < t.segments.len() ==> (#[trigger] t.segments[i]).points.len() <= usize::MAX,
    ensures
        ({
            let (t2, r) = crop_fold(track_keep(t, gone), pairs, l, tid);
            let cap = crop_capture(t, pairs);
            r is Ok ==> {
                &&& t2 == track_keep(t, gone.union(placed_keys(cap)))
                &&& forall|k: (u64, u64)| placed_keys(cap).contains(k) ==> !gone.contains(k)
                &&& keys_distinct(cap)
                &&& forall|a: int| 0 <= a < cap.len() ==> placed_in(t, #[trigger] cap[a])
            }
        }),
    decreases pairs.len(),
{
    let tk = track_keep(t, gone);
    let cap = crop_capture(t, pairs);
    if pairs.len() == 0 {
        assert(cap =~= Seq::<PlacedPoint>::empty());
        assert(gone.union(placed_keys(cap)) =~= gone);
    } else {
        let (sid, ids) = pairs[0];
        lemma_track_keep_keys(t, gone);
        match first_index(segment_keys(t.segments), sid.0) {
            None => {},
            Some(si) => {
                assert(is_first(segment_keys(t.segments), sid.0, si)) by {
                    assert(exists|i: int| is_first(segment_keys(t.segments), sid.0, i));
                }
                assert(t.segments[si].id.0 == sid.0);
                lemma_remove_ids(t, si, gone, ids, l, tid);
                let (s2, r2) = remove_ids(tk.segments[si], ids, l, tid, sid.0);
                if r2 is Ok {
                    let g1 = gone.union(tagged(sid.0, ids));
                    lemma_track_keep_update(t, si, gone, g1);
                    assert(with_segment(tk, si, s2) == track_keep(t, g1));
                    lemma_crop_fold(t, g1, pairs.skip(1), l, tid);
                    let (t3, r3) = crop_fold(track_keep(t, g1), pairs.skip(1), l, tid);
                    assert(crop_fold(tk, pairs, l, tid) == crop_fold(track_keep(t, g1), pairs.skip(1), l, tid));
                    if r3 is Ok {
                        lemma_capture_front(t, pairs);
                        let pts = t.segments[si].points;
                        let sel = selected_points(sid, pts, ids);
                        assert(head_capture(t, pairs[0]) == sel);
                        let rest = crop_capture(t, pairs.skip(1));
                        assert(cap == sel + rest);
                        lemma_selected(sid, pts, ids);
                        lemma_selected_keys(sid, pts, ids);
                        assert(placed_keys(cap) =~= placed_keys(sel).union(placed_keys(rest))) by {
                            assert forall|k: (u64, u64)| #[trigger] placed_keys(cap).contains(k) implies placed_keys(sel).union(placed_keys(rest)).contains(k) by {
                                let a = choose|a: int| 0 <= a < cap.len() && placed_key(cap[a]) == k;
                                if a < sel.len() {
                                    assert(cap[a] == sel[a]);
                                } else {
                                    assert(cap[a] == rest[a - sel.len()]);
                                }
                            }
                            assert forall|k: (u64, u64)| #[trigger] placed_keys(sel).union(placed_keys(rest)).contains(k) implies placed_keys(cap).contains(k) by {
                                if placed_keys(sel).contains(k) {
                                    let a = choose|a: int| 0 <= a < sel.len() && placed_key(sel[a]) == k;
                                    assert(cap[a] == sel[a]);
                                } else {
                                    let a = choose|a: int| 0 <= a < rest.len() && placed_key(rest[a]) == k;
                                    assert(cap[a + sel.len()] == rest[a]);
                                }
                            }
                        }
                        assert(g1.union(placed_keys(rest)) =~= gone.union(placed_keys(cap)));
                        assert forall|k: (u64, u64)| placed_keys(cap).contains(k) implies !gone.contains(k) by {
                            assert(placed_keys(sel).contains(k) || placed_keys(rest).contains(k));
                            if placed_keys(sel).contains(k) {
                                assert(tagged(sid.0, ids).contains(k));
                                let w = choose|w: int| 0 <= w < ids.len() && ids[w].0 == k.1;
                                assert(k == (sid.0, ids[w].0));
                                assert(!gone.contains((sid.0, ids[w].0)));
                            } else {
                                assert(!g1.contains(k));
                            }
                        }
                        assert forall|a: int| 0 <= a < cap.len() implies placed_in(t, #[trigger] cap[a]) by {
                            if a < sel.len() {
                                assert(cap[a] == sel[a]);
                            } else {
                                assert(cap[a] == rest[a - sel.len()]);
                            }
                        }
                        assert forall|a: int, b: int| 0 <= a < b < cap.len() implies placed_key(#[trigger] cap[a]) != placed_key(#[trigger] cap[b]) by {
                            if b < sel.len() {
                                assert(cap[a] == sel[a]);
                                assert(cap[b] == sel[b]);
                                assert(sel[a].1 < sel[b].1);
                                assert(pts[sel[a].1 as int].id != pts[sel[b].1 as int].id);
                            } else if a < sel.len() {
                                assert(cap[a] == sel[a]);
                                assert(cap[b] == rest[b - sel.len()]);
                                assert(placed_keys(sel).contains(placed_key(sel[a])));
                                assert(tagged(sid.0, ids).contains(placed_key(sel[a])));
                                assert(g1.contains(placed_key(sel[a])));
                                assert(placed_keys(rest).contains(placed_key(rest[b - sel.len()])));
                                assert(!g1.contains(placed_key(rest[b - sel.len()])));
                            } else {
                                assert(cap[a] == rest[a - sel.len()]);
                                assert(cap[b] == rest[b - sel.len()]);
                            }
                        }
                    }
                }
            },
        }
    }
}

// ── putting the points back in order ─────────────────────────────────────

pub open spec fn sorted_placed(s: Seq<PlacedPoint>) -> bool {
    forall|a: int, b: int| 0 <= a < b < s.len() ==> placed_le(#[trigger] s[a], #[trigger] s[b])
}

proof fn lemma_insert_placed(s: Seq<PlacedPoint>, x: PlacedPoint)
    ensures
        exists|m: int| 0 <= m <= s.len() && insert_placed(s, x) == s.insert(m, x),
        sorted_placed(s) ==> sorted_placed(insert_placed(s, x)),
    decreases s.len(),
{
    if s.len() == 0 {
        assert(insert_placed(s, x) =~= s.insert(0, x));
    } else if placed_le(s.last(), x) {
        assert(insert_placed(s, x) =~= s.insert(s.len() as int, x));
        if sorted_placed(s) {
            let r = insert_placed(s, x);
            assert forall|a: int, b: int| 0 <= a < b < r.len() implies placed_le(#[trigger] r[a], #[trigger] r[b]) by {
                if b == s.len() {
                    if a < s.len() - 1 {
                        assert(placed_le(s[a], s[s.len() - 1]));
                    }
                } else {
                    assert(r[a] == s[a] && r[b] == s[b]);
                }
            }
        }
    } else {
        let d = s.drop_last();
        lemma_insert_placed(d, x);
        let m = choose|m: int| 0 <= m <= d.len() && insert_placed(d, x) == d.insert(m, x);
        assert(insert_placed(s, x) =~= s.insert(m, x));
        if sorted_placed(s) {
            assert(sorted_placed(d)) by {
                assert forall|a: int, b: int| 0 <= a < b < d.len() implies placed_le(#[trigger] d[a], #[trigger] d[b]) by {
                    assert(d[a] == s[a] && d[b] == s[b]);
                }
            }
            let r = insert_placed(s, x);
            let ri = insert_placed(d, x);
            assert forall|a: int, b: int| 0 <= a < b < r.len() implies placed_le(#[trigger] r[a], #[trigger] r[b]) by {
                if b == r.len() - 1 {
                    assert(r[b] == s.last());
                    assert(r[a] == ri[a]);
                    if a < m {
                        assert(ri[a] == d[a]);
                        assert(placed_le(s[a], s[s.len() - 1]));
                    } else if a == m {
                        assert(ri[a] == x);
                    } else {
                        assert(ri[a] == d[a - 1]);
                        assert(placed_le(s[a - 1], s[s.len() - 1]));
                    }
                } else {
                    assert(r[a] == ri[a] && r[b] == ri[b]);
                }
            }
        }
    }
}

/// Sorting the placed points keeps exactly them, each as often as it was
/// there, in order.
proof fn lemma_sort_placed(s: Seq<PlacedPoint>)
    ensures
        sort_placed(s).len() == s.len(),
        forall|e: PlacedPoint| sort_placed(s).contains(e) <==> s.contains(e),
        sorted_placed(sort_placed(s)),
        keys_distinct(s) ==> keys_distinct(sort_placed(s)),
    decreases s.len(),
{
    if s.len() == 0 {
    } else {
        let d = s.drop_last();
        lemma_sort_placed(d);
        let sd = sort_placed(d);
        lemma_insert_placed(sd, s.last());
        let m = choose|m: int| 0 <= m <= sd.len() && insert_placed(sd, s.last()) == sd.insert(m, s.last());
        let r = sort_placed(s);
        assert(r == sd.insert(m, s.last()));
        assert forall|e: PlacedPoint| r.contains(e) <==> s.contains(e) by {
            if r.contains(e) {
                let i = choose|i: int| 0 <= i < r.len() && r[i] == e;
                if i < m {
                    assert(sd.contains(sd[i]));
                    assert(d.contains(e));
                    let j = choose|j: int| 0 <= j < d.len() && d[j] == e;
                    assert(s[j] == e);
                } else if i == m {
                    assert(s[s.len() - 1] == e);
                } else {
                    assert(sd.contains(sd[i - 1]));
                    assert(d.contains(e));
                    let j = choose|j: int| 0 <= j < d.len() && d[j] == e;
                    assert(s[j] == e);
                }
            }
            if s.contains(e) {
                let j = choose|j: int| 0 <= j < s.len() && s[j] == e;
                if j == s.len() - 1 {
                    assert(r[m] == e);
                } else {
                    assert(d[j] == e);
                    assert(d.contains(e));
                    let i = choose|i: int| 0 <= i < sd.len() && sd[i] == e;
                    if i < m {
                        assert(r[i] == e);
                    } else {
                        assert(r[i + 1] == e);
                    }
                }
            }
        }
        if keys_distinct(s) {
            assert(keys_distinct(d)) by {
                assert forall|a: int, b: int| 0 <= a < b < d.len() implies placed_key(#[trigger] d[a]) != placed_key(#[trigger] d[b]) by {
                    assert(d[a] == s[a] && d[b] == s[b]);
                }
            }
            let x = s.last();
            assert forall|i: int| 0 <= i < sd.len() implies placed_key(#[trigger] sd[i]) != placed_key(x) by {
                assert(sd.contains(sd[i]));
                assert(d.contains(sd[i]));
                let j = choose|j: int| 0 <= j < d.len() && d[j] == sd[i];
                assert(s[j] == d[j]);
                assert(placed_key(s[j]) != placed_key(s[s.len() - 1]));
            }
            assert forall|a: int, b: int| 0 <= a < b < r.len() implies placed_key(#[trigger] r[a]) != placed_key(#[trigger] r[b]) by {
                if a < m {
                    if b < m {
                        assert(r[a] == sd[a] && r[b] == sd[b]);
                    } else if b == m {
                        assert(r[a] == sd[a]);
                    } else {
                        assert(r[a] == sd[a] && r[b] == sd[b - 1]);
                    }
                } else if a == m {
                    assert(r[b] == sd[b - 1]);
                } else {
                    assert(r[a] == sd[a - 1] && r[b] == sd[b - 1]);
                }
            }
        }
    }
}

/// Putting back, in order, points that are gone from a track, each at its
/// own index, gives the track back.
proof fn lemma_restore(p: ProjectV, li: int, ti: int, l: u64, tid: u64, rs: Seq<PlacedPoint>)
    requires
        p_locate_track(p, l, tid) == Ok::<(int, int), ProjectLayerError>((li, ti)),
        unique_track(p.track_layers[li].tracks[ti]),
        sorted_placed(rs),
        keys_distinct(rs),
        forall|a: int| 0 <= a < rs.len() ==> placed_in(p.track_layers[li].tracks[ti], #[trigger] rs[a]),
    ensures
        insert_listed(p_set_track(p, li, ti, track_keep(p.track_layers[li].tracks[ti], placed_keys(rs))), l, tid, rs)
            == (p, Ok::<(), ProjectLayerError>(())),
    decreases rs.len(),
{
    let t = p.track_layers[li].tracks[ti];
    let g = placed_keys(rs);
    let q = p_set_track(p, li, ti, track_keep(t, g));
    assert(0 <= li < p.track_layers.len() && 0 <= ti < p.track_layers[li].tracks.len()) by {
        assert(exists|i: int| crate::index::is_first(crate::project::track_layer_keys(p.track_layers), l, i));
    }
    if rs.len() == 0 {
        assert(g =~= Set::<(u64, u64)>::empty());
        lemma_track_keep_none(t);
        lemma_p_set_track_same(p, li, ti);
    } else {
        let e = rs[0];
        let (sid, k, pt) = e;
        lemma_track_keep_keys(t, g);
        lemma_locate_after_set_track(p, li, ti, track_keep(t, g), l, tid);
        assert(placed_in(t, e));
        let si = first_index(segment_keys(t.segments), sid.0)->Some_0;
        assert(is_first(segment_keys(t.segments), sid.0, si)) by {
            assert(exists|i: int| is_first(segment_keys(t.segments), sid.0, i));
        }
        assert(q.track_layers[li].tracks[ti] == track_keep(t, g));
        assert(p_locate_segment(q, l, tid, sid.0) == Ok::<(int, int, int), ProjectLayerError>((li, ti, si)));
        let seg_pts = t.segments[si].points;
        let sidv = t.segments[si].id.0;
        assert(sidv == sid.0);
        assert(p_segment(q, li, ti, si) == track_keep(t, g).segments[si]);
        assert(g.contains((sidv, seg_pts[k as int].id.0))) by {
            assert(placed_key(rs[0]) == (sidv, seg_pts[k as int].id.0));
        }
        assert forall|j: int| 0 <= j < k ==> !g.contains((sidv, #[trigger] seg_pts[j].id.0)) by {
            if 0 <= j < k && g.contains((sidv, seg_pts[j].id.0)) {
                let a = choose|a: int| 0 <= a < rs.len() && placed_key(rs[a]) == (sidv, seg_pts[j].id.0);
                assert(placed_in(t, rs[a]));
                assert(first_index(segment_keys(t.segments), rs[a].0.0) == Some(si));
                assert(seg_pts[rs[a].1 as int] == rs[a].2);
                assert(seg_pts[rs[a].1 as int].id == seg_pts[j].id);
                assert(unique_points(seg_pts));
                assert(rs[a].1 as int == j);
                assert(a != 0);
                assert(placed_le(rs[0], rs[a]));
            }
        }
        lemma_keep_insert(seg_pts, sidv, g, k as int);
        let g2 = g.remove((sidv, pt.id.0));
        let s2 = track_keep(t, g2).segments[si];
        assert(seg_insert_point(p_segment(q, li, ti, si), k, pt) == (s2, Ok::<(), ProjectLayerError>(())));
        assert(p_insert_point(q, l, tid, sid.0, k, pt) == (p_set_segment(q, li, ti, si, s2), Ok::<(), ProjectLayerError>(())));
        lemma_track_keep_update(t, si, g, g2);
        lemma_p_set_track_twice(p, li, ti, track_keep(t, g), track_keep(t, g2));
        assert(p_set_segment(q, li, ti, si, s2) == p_set_track(p, li, ti, track_keep(t, g2)));
        let rest = rs.skip(1);
        assert(g2 =~= placed_keys(rest)) by {
            assert forall|x: (u64, u64)| #[trigger] placed_keys(rest).contains(x) implies g2.contains(x) by {
                let a = choose|a: int| 0 <= a < rest.len() && placed_key(rest[a]) == x;
                assert(rest[a] == rs[a + 1]);
                assert(placed_key(rs[0]) != placed_key(rs[a + 1]));
            }
            assert forall|x: (u64, u64)| #[trigger] g2.contains(x) implies placed_keys(rest).contains(x) by {
                let a = choose|a: int| 0 <= a < rs.len() && placed_key(rs[a]) == x;
                assert(a != 0);
                assert(rest[a - 1] == rs[a]);
            }
        }
        assert(sorted_placed(rest)) by {
            assert forall|a: int, b: int| 0 <= a < b < rest.len() implies placed_le(#[trigger] rest[a], #[trigger] rest[b]) by {
                assert(rest[a] == rs[a + 1] && rest[b] == rs[b + 1]);
            }
        }
        assert(keys_distinct(rest)) by {
            assert forall|a: int, b: int| 0 <= a < b < rest.len() implies placed_key(#[trigger] rest[a]) != placed_key(#[trigger] rest[b]) by {
                assert(rest[a] == rs[a + 1] && rest[b] == rs[b + 1]);
            }
        }
        assert forall|a: int| 0 <= a < rest.len() implies placed_in(t, #[trigger] rest[a]) by {
            assert(rest[a] == rs[a + 1]);
        }
        lemma_restore(p, li, ti, l, tid, rest);
    }
}

/// Cropping points out of a track and then applying the reverse read off
/// the project before the crop puts every point back where it stood: the
/// project is as it was. It holds of a track whose points have distinct
/// ids within each segment.
pub proof fn law_crop_round_trip(
    p: ProjectV,
    layer_id: LayerId,
    track_id: TrackId,
    points: Seq<(TrackSegmentId, Seq<TrackPointId>)>,
)
    requires
        points_fit(p),
        p_locate_track(p, layer_id.0, track_id.0) is Ok ==> {
            let (li, ti) = p_locate_track(p, layer_id.0, track_id.0)->Ok_0;
            unique_track(p.track_layers[li].tracks[ti])
        },
    ensures
        ({
            let c = CommandV::CropTrackPoints { layer_id, track_id, points };
            let (p1, r) = apply_spec(c, p);
            r is Ok ==> apply_spec(reverse_spec(c, p), p1) == (p, Ok::<(), CommandError>(()))
        }),
{
    reveal(apply_spec);
    reveal(reverse_spec);
    let c = CommandV::CropTrackPoints { layer_id, track_id, points };
    let (p1, r) = apply_spec(c, p);
    if r is Ok {
        let (li, ti) = p_locate_track(p, layer_id.0, track_id.0)->Ok_0;
        let t = p.track_layers[li].tracks[ti];
        assert(0 <= li < p.track_layers.len() && 0 <= ti < p.track_layers[li].tracks.len()) by {
            assert(exists|i: int| crate::index::is_first(crate::project::track_layer_keys(p.track_layers), layer_id.0, i));
            let li2 = crate::project::p_locate_track_layer(p, layer_id.0)->Ok_0;
            assert(exists|i: int| crate::index::is_first(crate::layers::track_keys(p.track_layers[li2].tracks), track_id.0, i));
        }
        assert forall|si: int| 0 <= si < t.segments.len() implies (#[trigger] t.segments[si]).points.len() <= usize::MAX by {
            assert(p.track_layers[li].tracks[ti].segments[si].points.len() <= usize::MAX);
        }
        lemma_track_keep_none(t);
        lemma_crop_fold(t, Set::empty(), points, layer_id.0, track_id.0);
        let cap = crop_capture(t, points);
        let sorted = sort_placed(cap);
        lemma_sort_placed(cap);
        assert(placed_keys(sorted) =~= Set::<(u64, u64)>::empty().union(placed_keys(cap))) by {
            assert forall|k: (u64, u64)| #[trigger] placed_keys(sorted).contains(k) implies placed_keys(cap).contains(k) by {
                let a = choose|a: int| 0 <= a < sorted.len() && placed_key(sorted[a]) == k;
                assert(sorted.contains(sorted[a]));
                assert(cap.contains(sorted[a]));
                let b = choose|b: int| 0 <= b < cap.len() && cap[b] == sorted[a];
                assert(placed_key(cap[b]) == k);
            }
            assert forall|k: (u64, u64)| #[trigger] placed_keys(cap).contains(k) implies placed_keys(sorted).contains(k) by {
                let b = choose|b: int| 0 <= b < cap.len() && placed_key(cap[b]) == k;
                assert(cap.contains(cap[b]));
                assert(sorted.contains(cap[b]));
                let a = choose|a: int| 0 <= a < sorted.len() && sorted[a] == cap[b];
                assert(placed_key(sorted[a]) == k);
            }
        }
        assert forall|a: int| 0 <= a < sorted.len() implies placed_in(t, #[trigger] sorted[a]) by {
            assert(sorted.contains(sorted[a]));
            assert(cap.contains(sorted[a]));
            let b = choose|b: int| 0 <= b < cap.len() && cap[b] == sorted[a];
            assert(placed_in(t, cap[b]));
        }
        assert(p1 == p_set_track(p, li, ti, track_keep(t, placed_keys(sorted))));
        lemma_restore(p, li, ti, layer_id.0, track_id.0, sorted);
        assert(reverse_spec(c, p) == CommandV::RestoreTrackPoints { layer_id, track_id, points: cap });
    }
}

/// Removing listed points that are all still there, last first, takes out
/// exactly those points.
proof fn lemma_remove_listed(p: ProjectV, li: int, ti: int, l: u64, tid: u64, gone: Set<(u64, u64)>, rs: Seq<PlacedPoint>)
    requires
        p_locate_track(p, l, tid) == Ok::<(int, int), ProjectLayerError>((li, ti)),
        unique_track(p.track_layers[li].tracks[ti]),
        keys_distinct(rs),
        forall|a: int| 0 <= a < rs.len() ==> placed_in(p.track_layers[li].tracks[ti], #[trigger] rs[a]),
        forall|a: int| 0 <= a < rs.len() ==> !gone.contains(placed_key(#[trigger] rs[a])),
    ensures
        remove_listed(p_set_track(p, li, ti, track_keep(p.track_layers[li].tracks[ti], gone)), l, tid, rs)
            == (p_set_track(p, li, ti, track_keep(p.track_layers[li].tracks[ti], gone.union(placed_keys(rs)))), Ok::<(), ProjectLayerError>(())),
    decreases rs.len(),
{
    let t = p.track_layers[li].tracks[ti];
    let q = p_set_track(p, li, ti, track_keep(t, gone));
    assert(0 <= li < p.track_layers.len() && 0 <= ti < p.track_layers[li].tracks.len()) by {
        assert(exists|i: int| crate::index::is_first(crate::project::track_layer_keys(p.track_layers), l, i));
    }
    if rs.len() == 0 {
        assert(gone.union(placed_keys(rs)) =~= gone);
    } else {
        let e = rs.last();
        let (sid, k, pt) = e;
        assert(placed_in(t, rs[rs.len() - 1]));
        lemma_track_keep_keys(t, gone);
        lemma_locate_after_set_track(p, li, ti, track_keep(t, gone), l, tid);
        let si = first_index(segment_keys(t.segments), sid.0)->Some_0;
        assert(is_first(segment_keys(t.segments), sid.0, si)) by {
            assert(exists|i: int| is_first(segment_keys(t.segments), sid.0, i));
        }
        assert(q.track_layers[li].tracks[ti] == track_keep(t, gone));
        assert(p_locate_segment(q, l, tid, sid.0) == Ok::<(int, int, int), ProjectLayerError>((li, ti, si)));
        let seg_pts = t.segments[si].points;
        let sidv = t.segments[si].id.0;
        assert(sidv == sid.0);
        assert(seg_pts[k as int] == pt);
        assert(!gone.contains((sidv, pt.id.0))) by {
            assert(placed_key(rs[rs.len() - 1]) == (sidv, pt.id.0));
        }
        lemma_keep_remove(seg_pts, sidv, gone, k as int);
        let g1 = gone.insert((sidv, pt.id.0));
        let s2 = track_keep(t, g1).segments[si];
        assert(p_segment(q, li, ti, si) == track_keep(t, gone).segments[si]);
        assert(point_keys(keep(seg_pts, sidv, gone)) == point_keys(p_segment(q, li, ti, si).points));
        let idx = keep(seg_pts.take(k as int), sidv, gone).len() as int;
        assert(seg_remove_point(p_segment(q, li, ti, si), pt.id.0).0 == s2);
        assert(seg_remove_point(p_segment(q, li, ti, si), pt.id.0).1 is Ok);
        lemma_track_keep_update(t, si, gone, g1);
        lemma_p_set_track_twice(p, li, ti, track_keep(t, gone), track_keep(t, g1));
        assert(p_remove_point(q, l, tid, sid.0, pt.id.0).0 == p_set_track(p, li, ti, track_keep(t, g1)));
        assert(p_remove_point(q, l, tid, sid.0, pt.id.0).1 is Ok);
        let d = rs.drop_last();
        assert(keys_distinct(d)) by {
            assert forall|a: int, b: int| 0 <= a < b < d.len() implies placed_key(#[trigger] d[a]) != placed_key(#[trigger] d[b]) by {
                assert(d[a] == rs[a] && d[b] == rs[b]);
            }
        }
        assert forall|a: int| 0 <= a < d.len() implies placed_in(t, #[trigger] d[a]) by {
            assert(d[a] == rs[a]);
        }
        assert forall|a: int| 0 <= a < d.len() implies !g1.contains(placed_key(#[trigger] d[a])) by {
            assert(d[a] == rs[a]);
            assert(placed_key(rs[a]) != placed_key(rs[rs.len() - 1]));
        }
        lemma_remove_listed(p, li, ti, l, tid, g1, d);
        assert(g1.union(placed_keys(d)) =~= gone.union(placed_keys(rs))) by {
            assert forall|x: (u64, u64)| #[trigger] placed_keys(d).contains(x) implies placed_keys(rs).contains(x) by {
                let a = choose|a: int| 0 <= a < d.len() && placed_key(d[a]) == x;
                assert(d[a] == rs[a]);
            }
            assert forall|x: (u64, u64)| #[trigger] placed_keys(rs).contains(x) implies g1.union(placed_keys(d)).contains(x) by {
                let a = choose|a: int| 0 <= a < rs.len() && placed_key(rs[a]) == x;
                if a < d.len() {
                    assert(d[a] == rs[a]);
                }
            }
            assert(placed_keys(rs).contains((sidv, pt.id.0))) by {
                assert(placed_key(rs[rs.len() - 1]) == (sidv, pt.id.0));
            }
        }
    }
}

/// Simplifying a track by removing listed points, when the list records
/// each of them as the point at its index in its segment, and then applying
/// the reverse, puts every point back where it stood: the project is as it
/// was. It holds of a track whose points have distinct ids within each
/// segment, with no point listed twice.
pub proof fn law_simplify_round_trip(
    p: ProjectV,
    layer_id: LayerId,
    track_id: TrackId,
    tolerance_km: u64,
    removed: Seq<PlacedPoint>,
)
    requires
        points_fit(p),
        p_locate_track(p, layer_id.0, track_id.0) is Ok ==> {
            let (li, ti) = p_locate_track(p, layer_id.0, track_id.0)->Ok_0;
            &&& unique_track(p.track_layers[li].tracks[ti])
            &&& keys_distinct(removed)
            &&& forall|a: int| 0 <= a < removed.len() ==> placed_in(p.track_layers[li].tracks[ti], #[trigger] removed[a])
        },
    ensures
        ({
            let c = CommandV::SimplifyTrack { layer_id, track_id, tolerance_km, removed };
            let (p1, r) = apply_spec(c, p);
            r is Ok ==> apply_spec(reverse_spec(c, p), p1) == (p, Ok::<(), CommandError>(()))
        }),
{
    reveal(apply_spec);
    reveal(reverse_spec);
    let c = CommandV::SimplifyTrack { layer_id, track_id, tolerance_km, removed };
    let (p1, r) = apply_spec(c, p);
    if r is Ok {
        if p_locate_track(p, layer_id.0, track_id.0) is Ok {
            let (li, ti) = p_locate_track(p, layer_id.0, track_id.0)->Ok_0;
            let t = p.track_layers[li].tracks[ti];
            assert(0 <= li < p.track_layers.len() && 0 <= ti < p.track_layers[li].tracks.len()) by {
                assert(exists|i: int| crate::index::is_first(crate::project::track_layer_keys(p.track_layers), layer_id.0, i));
                let li2 = crate::project::p_locate_track_layer(p, layer_id.0)->Ok_0;
                assert(exists|i: int| crate::index::is_first(crate::layers::track_keys(p.track_layers[li2].tracks), track_id.0, i));
            }
            lemma_track_keep_none(t);
            lemma_p_set_track_same(p, li, ti);
            lemma_remove_listed(p, li, ti, layer_id.0, track_id.0, Set::empty(), removed);
            assert(Set::<(u64, u64)>::empty().union(placed_keys(removed)) =~= placed_keys(removed));
            assert(p1 == p_set_track(p, li, ti, track_keep(t, placed_keys(removed))));
            let sorted = sort_placed(removed);
            lemma_sort_placed(removed);
            assert(placed_keys(sorted) =~= placed_keys(removed)) by {
                assert forall|k: (u64, u64)| #[trigger] placed_keys(sorted).contains(k) implies placed_keys(removed).contains(k) by {
                    let a = choose|a: int| 0 <= a < sorted.len() && placed_key(sorted[a]) == k;
                    assert(sorted.contains(sorted[a]));
                    assert(removed.contains(sorted[a]));
                    let b = choose|b: int| 0 <= b < removed.len() && removed[b] == sorted[a];
                    assert(placed_key(removed[b]) == k);
                }
                assert forall|k: (u64, u64)| #[trigger] placed_keys(removed).contains(k) implies placed_keys(sorted).contains(k) by {
                    let b = choose|b: int| 0 <= b < removed.len() && placed_key(removed[b]) == k;
                    assert(removed.contains(removed[b]));
                    assert(sorted.contains(removed[b]));
                    let a = choose|a: int| 0 <= a < sorted.len() && sorted[a] == removed[b];
                    assert(placed_key(sorted[a]) == k);
                }
            }
            assert forall|a: int| 0 <= a < sorted.len() implies placed_in(t, #[trigger] sorted[a]) by {
                assert(sorted.contains(sorted[a]));
                assert(removed.contains(sorted[a]));
                let b = choose|b: int| 0 <= b < removed.len() && removed[b] == sorted[a];
                assert(placed_in(t, removed[b]));
            }
            lemma_restore(p, li, ti, layer_id.0, track_id.0, sorted);
        }
    }
}

} // verus!

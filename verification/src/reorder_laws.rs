use vstd::prelude::*;
use crate::bulk_edit::{p_reorder, track_reorder};
use crate::command::{CommandError, CommandV};
use crate::command_apply::apply_spec;
use crate::command_reverse::{current_order, point_ids, reverse_spec};
use crate::error::ProjectLayerError;
use crate::ids::{LayerId, TrackId, TrackPointId, TrackSegmentId};
use crate::index::{first_index, is_first, lemma_first_index_some};
use crate::laws::lemma_locate_after_set_track;
use crate::point_order::{first_order_problem, points_in_order, seg_reorder};
use crate::project::{ProjectV, lemma_p_set_track_same, lemma_p_set_track_twice, p_locate_track, p_set_track, with_segment};
use crate::track::{SegmentV, TrackV, point_keys, segment_keys};

verus! {

/// The id values of an order.
pub open spec fn id_values(ids: Seq<TrackPointId>) -> Seq<u64> {
    Seq::new(ids.len(), |i: int| ids[i].0)
}

/// An order with nothing wrong names only ids the segment holds, each once.
proof fn lemma_no_order_problem(s: SegmentV, ids: Seq<TrackPointId>)
    requires
        first_order_problem(s, ids) is None,
    ensures
        forall|i: int| 0 <= i < ids.len() ==> #[trigger] first_index(point_keys(s.points), ids[i].0) is Some,
        ids.no_duplicates(),
    decreases ids.len(),
{
    if ids.len() > 0 {
        let rest = ids.drop_last();
        lemma_no_order_problem(s, rest);
        assert forall|i: int| 0 <= i < ids.len() implies #[trigger] first_index(point_keys(s.points), ids[i].0) is Some by {
            if i < ids.len() - 1 {
                assert(ids[i] == rest[i]);
            }
        }
        assert forall|i: int, j: int| 0 <= i < ids.len() && 0 <= j < ids.len() && i != j implies ids[i] != ids[j] by {
            if i == ids.len() - 1 {
                assert(rest[j] == ids[j]);
                assert(rest.contains(ids[j]));
            } else if j == ids.len() - 1 {
                assert(rest[i] == ids[i]);
                assert(rest.contains(ids[i]));
            } else {
                assert(ids[i] == rest[i] && ids[j] == rest[j]);
            }
        }
    }
}

/// An order that names only ids the segment holds, each once, has nothing
/// wrong with it.
proof fn lemma_order_without_problem(s: SegmentV, ids: Seq<TrackPointId>)
    requires
        forall|i: int| 0 <= i < ids.len() ==> #[trigger] first_index(point_keys(s.points), ids[i].0) is Some,
        ids.no_duplicates(),
    ensures
        first_order_problem(s, ids) is None,
    decreases ids.len(),
{
    if ids.len() > 0 {
        let rest = ids.drop_last();
        assert forall|i: int| 0 <= i < rest.len() implies #[trigger] first_index(point_keys(s.points), rest[i].0) is Some by {
            assert(rest[i] == ids[i]);
            assert(first_index(point_keys(s.points), ids[i].0) is Some);
        }
        assert(rest.no_duplicates()) by {
            assert forall|i: int, j: int| 0 <= i < rest.len() && 0 <= j < rest.len() && i != j implies rest[i] != rest[j] by {
                assert(rest[i] == ids[i] && rest[j] == ids[j]);
            }
        }
        lemma_order_without_problem(s, rest);
        assert(first_index(point_keys(s.points), ids[ids.len() - 1].0) is Some);
        if rest.contains(ids.last()) {
            let k = choose|k: int| 0 <= k < rest.len() && rest[k] == ids.last();
            assert(ids[k] == ids[ids.len() - 1]);
        }
    }
}

/// In a list without repeats, a value's first position is its only one.
proof fn lemma_first_index_unique(keys: Seq<u64>, i: int)
    requires
        keys.no_duplicates(),
        0 <= i < keys.len(),
    ensures
        first_index(keys, keys[i]) == Some(i),
{
    assert(is_first(keys, keys[i], i));
    lemma_first_index_some(keys, keys[i], i);
}

proof fn lemma_first_index_found(keys: Seq<u64>, k: u64)
    requires
        first_index(keys, k) is Some,
    ensures
        is_first(keys, k, first_index(keys, k)->Some_0),
{
}

/// Reordering a segment whose point ids are all different and then putting
/// its points back in the order they had gives back the segment as it was.
pub proof fn law_segment_reorder_round_trip(s: SegmentV, ids: Seq<TrackPointId>)
    requires
        point_keys(s.points).no_duplicates(),
    ensures
        seg_reorder(s, ids).1 is Ok ==> seg_reorder(seg_reorder(s, ids).0, point_ids(s.points)) == (s, Ok::<(), ProjectLayerError>(())),
{
    let (s2, r) = seg_reorder(s, ids);
    if r is Ok {
        let n = s.points.len() as int;
        let keys = point_keys(s.points);
        lemma_no_order_problem(s, ids);
        assert(s2.points == points_in_order(s, ids));
        let keys2 = point_keys(s2.points);
        // s2 holds the points the order names, in that order.
        assert forall|i: int| 0 <= i < n implies #[trigger] keys2[i] == ids[i].0 by {
            assert(first_index(keys, ids[i].0) is Some);
            lemma_first_index_found(keys, ids[i].0);
        }
        assert(keys2 =~= id_values(ids));
        assert(keys2.no_duplicates()) by {
            assert forall|i: int, j: int| 0 <= i < n && 0 <= j < n && i != j implies keys2[i] != keys2[j] by {
                assert(ids[i] != ids[j]);
                assert(keys2[i] == ids[i].0 && keys2[j] == ids[j].0);
            }
        }
        // Both lists hold n different values, one within the other: they
        // hold the same values.
        assert(keys2.to_set().subset_of(keys.to_set())) by {
            assert forall|v: u64| keys2.to_set().contains(v) implies keys.to_set().contains(v) by {
                let i = choose|i: int| 0 <= i < keys2.len() && keys2[i] == v;
                assert(first_index(keys, ids[i].0) is Some);
                lemma_first_index_found(keys, ids[i].0);
                let f = first_index(keys, ids[i].0)->Some_0;
                assert(keys[f] == v);
            }
        }
        keys.unique_seq_to_set();
        keys2.unique_seq_to_set();
        vstd::set_lib::lemma_subset_equality(keys2.to_set(), keys.to_set());
        let back = point_ids(s.points);
        assert forall|j: int| 0 <= j < n implies #[trigger] first_index(keys2, back[j].0) is Some by {
            assert(keys.to_set().contains(keys[j]));
            assert(keys2.to_set().contains(keys[j]));
            let g = choose|g: int| 0 <= g < keys2.len() && keys2[g] == keys[j];
            lemma_first_index_unique(keys2, g);
        }
        assert(back.no_duplicates()) by {
            assert forall|i: int, j: int| 0 <= i < n && 0 <= j < n && i != j implies back[i] != back[j] by {
                assert(keys[i] != keys[j]);
            }
        }
        lemma_order_without_problem(s2, back);
        let s3 = seg_reorder(s2, back).0;
        assert forall|j: int| 0 <= j < n implies #[trigger] s3.points[j] == s.points[j] by {
            assert(keys2.to_set().contains(keys[j]));
            let g = choose|g: int| 0 <= g < keys2.len() && keys2[g] == keys[j];
            lemma_first_index_unique(keys2, g);
            assert(first_index(keys2, back[j].0) == Some(g));
            assert(s3.points[j] == s2.points[g]);
            assert(first_index(keys, ids[g].0) is Some);
            lemma_first_index_found(keys, ids[g].0);
            let f = first_index(keys, ids[g].0)->Some_0;
            assert(s2.points[g] == s.points[f]);
            assert(keys[f] == keys[j]);
        }
        assert(s3.points =~= s.points);
        assert(s3 =~= s);
    }
}

// ── whole tracks ─────────────────────────────────────────────────────────

/// `a` holds the points of `b`, each once, perhaps in another order.
pub open spec fn is_reordering(a: SegmentV, b: SegmentV) -> bool {
    &&& a.id == b.id
    &&& a.points.len() == b.points.len()
    &&& point_keys(a.points).no_duplicates()
    &&& forall|i: int| 0 <= i < b.points.len() ==> a.points.contains(#[trigger] b.points[i])
}

/// Every segment of the track has points with distinct ids.
pub open spec fn distinct_points(t: TrackV) -> bool {
    forall|si: int| 0 <= si < t.segments.len() ==> point_keys((#[trigger] t.segments[si]).points).no_duplicates()
}

proof fn lemma_reordering_refl(b: SegmentV)
    requires
        point_keys(b.points).no_duplicates(),
    ensures
        is_reordering(b, b),
{
    assert forall|i: int| 0 <= i < b.points.len() implies b.points.contains(#[trigger] b.points[i]) by {
        assert(b.points[i] == b.points[i]);
    }
}

proof fn lemma_reordering_trans(a: SegmentV, b: SegmentV, c: SegmentV)
    requires
        is_reordering(a, b),
        is_reordering(b, c),
    ensures
        is_reordering(a, c),
{
    assert forall|i: int| 0 <= i < c.points.len() implies a.points.contains(#[trigger] c.points[i]) by {
        assert(b.points.contains(c.points[i]));
        let j1 = choose|j: int| 0 <= j < b.points.len() && b.points[j] == c.points[i];
        assert(a.points.contains(b.points[j1]));
    }
}

/// A reordering that succeeds gives a reordering of the segment.
proof fn lemma_reorder_gives_reordering(s: SegmentV, ids: Seq<TrackPointId>)
    requires
        point_keys(s.points).no_duplicates(),
        seg_reorder(s, ids).1 is Ok,
    ensures
        is_reordering(seg_reorder(s, ids).0, s),
{
    let s2 = seg_reorder(s, ids).0;
    let n = s.points.len() as int;
    let keys = point_keys(s.points);
    lemma_no_order_problem(s, ids);
    let keys2 = point_keys(s2.points);
    assert forall|i: int| 0 <= i < n implies #[trigger] keys2[i] == ids[i].0 by {
        assert(first_index(keys, ids[i].0) is Some);
        lemma_first_index_found(keys, ids[i].0);
    }
    assert(keys2.no_duplicates()) by {
        assert forall|i: int, j: int| 0 <= i < n && 0 <= j < n && i != j implies keys2[i] != keys2[j] by {
            assert(ids[i] != ids[j]);
            assert(keys2[i] == ids[i].0 && keys2[j] == ids[j].0);
        }
    }
    assert(keys2.to_set().subset_of(keys.to_set())) by {
        assert forall|v: u64| keys2.to_set().contains(v) implies keys.to_set().contains(v) by {
            let i = choose|i: int| 0 <= i < keys2.len() && keys2[i] == v;
            assert(first_index(keys, ids[i].0) is Some);
            lemma_first_index_found(keys, ids[i].0);
            let f = first_index(keys, ids[i].0)->Some_0;
            assert(keys[f] == v);
        }
    }
    keys.unique_seq_to_set();
    keys2.unique_seq_to_set();
    vstd::set_lib::lemma_subset_equality(keys2.to_set(), keys.to_set());
    assert forall|i: int| 0 <= i < n implies s2.points.contains(#[trigger] s.points[i]) by {
        assert(keys.to_set().contains(keys[i]));
        assert(keys2.to_set().contains(keys[i]));
        let g = choose|g: int| 0 <= g < keys2.len() && keys2[g] == keys[i];
        assert(first_index(keys, ids[g].0) is Some);
        lemma_first_index_found(keys, ids[g].0);
        let f = first_index(keys, ids[g].0)->Some_0;
        assert(s2.points[g] == s.points[f]);
        assert(keys[f] == keys[i]);
        assert(f == i);
        assert(s2.points[g] == s.points[i]);
    }
}

/// Putting a reordering back in the order of the segment it came from gives
/// that segment.
proof fn lemma_reorder_back(a: SegmentV, b: SegmentV)
    requires
        is_reordering(a, b),
        point_keys(b.points).no_duplicates(),
    ensures
        seg_reorder(a, point_ids(b.points)) == (b, Ok::<(), ProjectLayerError>(())),
{
    let back = point_ids(b.points);
    let n = b.points.len() as int;
    let ka = point_keys(a.points);
    let kb = point_keys(b.points);
    assert forall|j: int| 0 <= j < n implies #[trigger] first_index(ka, back[j].0) is Some by {
        assert(a.points.contains(b.points[j]));
        let g = choose|g: int| 0 <= g < a.points.len() && a.points[g] == b.points[j];
        assert(ka[g] == back[j].0);
        lemma_first_index_unique(ka, g);
    }
    assert(back.no_duplicates()) by {
        assert forall|i: int, j: int| 0 <= i < n && 0 <= j < n && i != j implies back[i] != back[j] by {
            assert(kb[i] != kb[j]);
        }
    }
    lemma_order_without_problem(a, back);
    let r = seg_reorder(a, back).0;
    assert forall|j: int| 0 <= j < n implies #[trigger] r.points[j] == b.points[j] by {
        assert(a.points.contains(b.points[j]));
        let g = choose|g: int| 0 <= g < a.points.len() && a.points[g] == b.points[j];
        assert(ka[g] == back[j].0);
        lemma_first_index_unique(ka, g);
    }
    assert(r.points =~= b.points);
    assert(r =~= b);
}

/// Some pair of `order` names the segment at `si` of `t`.
pub open spec fn names(t: TrackV, order: Seq<(TrackSegmentId, Seq<TrackPointId>)>, si: int) -> bool {
    exists|k: int| 0 <= k < order.len() && first_index(segment_keys(t.segments), (#[trigger] order[k]).0.0) == Some(si)
}

/// `x` is `t` with each segment reordered.
pub open spec fn reordered_track(x: TrackV, t: TrackV) -> bool {
    &&& x == (TrackV { segments: x.segments, ..t })
    &&& x.segments.len() == t.segments.len()
    &&& forall|si: int| 0 <= si < t.segments.len() ==> is_reordering(#[trigger] x.segments[si], t.segments[si])
}

proof fn lemma_reordered_keys(x: TrackV, t: TrackV)
    requires
        reordered_track(x, t),
    ensures
        segment_keys(x.segments) == segment_keys(t.segments),
{
    assert forall|i: int| 0 <= i < t.segments.len() implies #[trigger] segment_keys(x.segments)[i] == segment_keys(t.segments)[i] by {
        assert(is_reordering(x.segments[i], t.segments[i]));
    }
    assert(segment_keys(x.segments) =~= segment_keys(t.segments));
}

/// A reordering of a track that succeeds reorders each segment it names and
/// leaves the others as they were.
proof fn lemma_track_reorder_forward(t: TrackV, x: TrackV, order: Seq<(TrackSegmentId, Seq<TrackPointId>)>, l: u64, tid: u64)
    requires
        distinct_points(t),
        reordered_track(x, t),
    ensures
        ({
            let (r, res) = track_reorder(x, order, l, tid);
            res is Ok ==> {
                &&& reordered_track(r, t)
                &&& forall|si: int| 0 <= si < t.segments.len() && !names(t, order, si) ==> r.segments[si] == x.segments[si]
                &&& forall|k: int| 0 <= k < order.len() ==> first_index(segment_keys(t.segments), (#[trigger] order[k]).0.0) is Some
            }
        }),
    decreases order.len(),
{
    if order.len() > 0 {
        let (sid, ids) = order[0];
        lemma_reordered_keys(x, t);
        match first_index(segment_keys(t.segments), sid.0) {
            None => {},
            Some(si) => {
                assert(is_first(segment_keys(t.segments), sid.0, si)) by {
                    assert(exists|i: int| is_first(segment_keys(t.segments), sid.0, i));
                }
                let (s2, r2) = seg_reorder(x.segments[si], ids);
                if r2 is Ok {
                    assert(is_reordering(x.segments[si], t.segments[si]));
                    lemma_reorder_gives_reordering(x.segments[si], ids);
                    lemma_reordering_trans(s2, x.segments[si], t.segments[si]);
                    let x2 = with_segment(x, si, s2);
                    assert(reordered_track(x2, t)) by {
                        assert forall|i: int| 0 <= i < t.segments.len() implies is_reordering(#[trigger] x2.segments[i], t.segments[i]) by {
                            if i != si {
                                assert(x2.segments[i] == x.segments[i]);
                            }
                        }
                        assert(x2 =~= (TrackV { segments: x2.segments, ..t }));
                    }
                    lemma_track_reorder_forward(t, x2, order.skip(1), l, tid);
                    let (r, res) = track_reorder(x2, order.skip(1), l, tid);
                    if res is Ok {
                        assert forall|i: int| 0 <= i < t.segments.len() && !names(t, order, i) implies r.segments[i] == x.segments[i] by {
                            if names(t, order.skip(1), i) {
                                let k = choose|k: int| 0 <= k < order.skip(1).len() && first_index(segment_keys(t.segments), (#[trigger] order.skip(1)[k]).0.0) == Some(i);
                                assert(order.skip(1)[k] == order[k + 1]);
                            }
                            assert(first_index(segment_keys(t.segments), order[0].0.0) == Some(si));
                            assert(i != si);
                        }
                        assert forall|k: int| 0 <= k < order.len() implies first_index(segment_keys(t.segments), (#[trigger] order[k]).0.0) is Some by {
                            if k > 0 {
                                assert(order.skip(1)[k - 1] == order[k]);
                            }
                        }
                    }
                }
            },
        }
    }
}

/// Putting segments back in their order, one entry at a time, gives the
/// track back once every segment not yet put back is named.
proof fn lemma_track_reorder_back(t: TrackV, y: TrackV, rest: Seq<(TrackSegmentId, Seq<TrackPointId>)>, l: u64, tid: u64)
    requires
        distinct_points(t),
        reordered_track(y, t),
        forall|k: int| 0 <= k < rest.len() ==> {
            let si = first_index(segment_keys(t.segments), (#[trigger] rest[k]).0.0);
            &&& si is Some
            &&& rest[k].1 == point_ids(t.segments[si->Some_0].points)
        },
        forall|si: int| 0 <= si < t.segments.len() && !names(t, rest, si) ==> y.segments[si] == t.segments[si],
    ensures
        track_reorder(y, rest, l, tid) == (t, Ok::<(), ProjectLayerError>(())),
    decreases rest.len(),
{
    lemma_reordered_keys(y, t);
    if rest.len() == 0 {
        assert(y.segments =~= t.segments);
        assert(y =~= t);
    } else {
        let (sid, ids) = rest[0];
        let si = first_index(segment_keys(t.segments), sid.0)->Some_0;
        assert(is_first(segment_keys(t.segments), sid.0, si)) by {
            assert(exists|i: int| is_first(segment_keys(t.segments), sid.0, i));
        }
        assert(is_reordering(y.segments[si], t.segments[si]));
        lemma_reorder_back(y.segments[si], t.segments[si]);
        let y2 = with_segment(y, si, t.segments[si]);
        assert(reordered_track(y2, t)) by {
            assert forall|i: int| 0 <= i < t.segments.len() implies is_reordering(#[trigger] y2.segments[i], t.segments[i]) by {
                if i != si {
                    assert(y2.segments[i] == y.segments[i]);
                } else {
                    lemma_reordering_refl(t.segments[i]);
                }
            }
            assert(y2 =~= (TrackV { segments: y2.segments, ..t }));
        }
        let r2 = rest.skip(1);
        assert forall|k: int| 0 <= k < r2.len() implies {
            let sj = first_index(segment_keys(t.segments), (#[trigger] r2[k]).0.0);
            &&& sj is Some
            &&& r2[k].1 == point_ids(t.segments[sj->Some_0].points)
        } by {
            assert(r2[k] == rest[k + 1]);
        }
        assert forall|i: int| 0 <= i < t.segments.len() && !names(t, r2, i) implies y2.segments[i] == t.segments[i] by {
            if i != si {
                if names(t, rest, i) {
                    let k = choose|k: int| 0 <= k < rest.len() && first_index(segment_keys(t.segments), (#[trigger] rest[k]).0.0) == Some(i);
                    if k > 0 {
                        assert(r2[k - 1] == rest[k]);
                    }
                }
            }
        }
        lemma_track_reorder_back(t, y2, r2, l, tid);
    }
}

/// What putting the segments back in their order lists: for each pair of
/// `order` whose segment the track has, that segment and its order.
proof fn lemma_current_order(t: TrackV, order: Seq<(TrackSegmentId, Seq<TrackPointId>)>)
    ensures
        forall|k: int| 0 <= k < current_order(t, order).len() ==> {
            let si = first_index(segment_keys(t.segments), (#[trigger] current_order(t, order)[k]).0.0);
            &&& si is Some
            &&& current_order(t, order)[k].1 == point_ids(t.segments[si->Some_0].points)
        },
        forall|si: int| names(t, order, si) ==> names(t, current_order(t, order), si),
    decreases order.len(),
{
    if order.len() > 0 {
        let d = order.drop_last();
        lemma_current_order(t, d);
        let c = current_order(t, order);
        let cd = current_order(t, d);
        assert forall|si: int| names(t, order, si) implies names(t, c, si) by {
            let k = choose|k: int| 0 <= k < order.len() && first_index(segment_keys(t.segments), (#[trigger] order[k]).0.0) == Some(si);
            if k < d.len() {
                assert(d[k] == order[k]);
                assert(names(t, d, si));
                let m = choose|m: int| 0 <= m < cd.len() && first_index(segment_keys(t.segments), (#[trigger] cd[m]).0.0) == Some(si);
                assert(c[m] == cd[m]);
            } else {
                assert(c[cd.len() as int].0 == order.last().0);
            }
        }
    }
}

/// Reordering the points of a track's segments and then applying the
/// reverse read off the project before puts every segment back in the
/// order it had: the project is as it was. It holds of a track whose
/// segments each have points with distinct ids.
#[verifier::rlimit(50)]
pub proof fn law_track_reorder_round_trip(
    p: ProjectV,
    layer_id: LayerId,
    track_id: TrackId,
    order: Seq<(TrackSegmentId, Seq<TrackPointId>)>,
)
    requires
        p_locate_track(p, layer_id.0, track_id.0) is Ok ==> {
            let (li, ti) = p_locate_track(p, layer_id.0, track_id.0)->Ok_0;
            distinct_points(p.track_layers[li].tracks[ti])
        },
    ensures
        ({
            let c = CommandV::ReorderTrackPoints { layer_id, track_id, order };
            let (p1, r) = apply_spec(c, p);
            r is Ok ==> apply_spec(reverse_spec(c, p), p1) == (p, Ok::<(), CommandError>(()))
        }),
{
    reveal(apply_spec);
    reveal(reverse_spec);
    let c = CommandV::ReorderTrackPoints { layer_id, track_id, order };
    let (p1, r) = apply_spec(c, p);
    if r is Ok {
        let (li, ti) = p_locate_track(p, layer_id.0, track_id.0)->Ok_0;
        let t = p.track_layers[li].tracks[ti];
        assert(0 <= li < p.track_layers.len() && 0 <= ti < p.track_layers[li].tracks.len()) by {
            assert(exists|i: int| crate::index::is_first(crate::project::track_layer_keys(p.track_layers), layer_id.0, i));
            let li2 = crate::project::p_locate_track_layer(p, layer_id.0)->Ok_0;
            assert(exists|i: int| crate::index::is_first(crate::layers::track_keys(p.track_layers[li2].tracks), track_id.0, i));
        }
        assert(reordered_track(t, t)) by {
            assert forall|si: int| 0 <= si < t.segments.len() implies is_reordering(#[trigger] t.segments[si], t.segments[si]) by {
                lemma_reordering_refl(t.segments[si]);
            }
            assert(t =~= (TrackV { segments: t.segments, ..t }));
        }
        lemma_track_reorder_forward(t, t, order, layer_id.0, track_id.0);
        let (rt, _) = track_reorder(t, order, layer_id.0, track_id.0);
        assert(p1 == p_set_track(p, li, ti, rt));
        let corder = current_order(t, order);
        lemma_current_order(t, order);
        assert forall|si: int| 0 <= si < t.segments.len() && !names(t, corder, si) implies rt.segments[si] == t.segments[si] by {
        }
        lemma_track_reorder_back(t, rt, corder, layer_id.0, track_id.0);
        assert(rt.id == t.id);
        lemma_locate_after_set_track(p, li, ti, rt, layer_id.0, track_id.0);
        assert(p_locate_track(p1, layer_id.0, track_id.0) == Ok::<(int, int), ProjectLayerError>((li, ti)));
        assert(p1.track_layers[li].tracks[ti] == rt);
        lemma_p_set_track_twice(p, li, ti, rt, t);
        lemma_p_set_track_same(p, li, ti);
        assert(reverse_spec(c, p) == CommandV::ReorderTrackPoints { layer_id, track_id, order: corder });
        assert(p_reorder(p1, layer_id.0, track_id.0, corder) == (p, Ok::<(), ProjectLayerError>(())));
    }
}

} // verus!

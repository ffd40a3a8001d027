use vstd::prelude::*;
use crate::command::{CommandError, CommandV};
use crate::command_apply::apply_spec;
use crate::command_reverse::reverse_spec;
use crate::history::{DeltaV, MAX_STACK_DEPTH, StackV, merges, stack_apply, stack_discard, stack_redo, stack_undo, stack_wf};
use crate::ids::{LayerId, WaypointId};
use crate::index::{first_index, is_first, lemma_first_index_some};
use crate::layers::{WaypointLayerV, waypoint_keys};
use crate::project::{
    ProjectV, p_locate_waypoint, p_set_waypoint, waypoint_layer_keys, waypoint_moved,
    map_layer_keys, p_locate_waypoint_layer, p_set_waypoint_layer, waypoint_renamed, waypoint_symbol,
    lemma_p_set_waypoint_same, lemma_p_set_waypoint_twice, waypoint_colour, p_locate_track, p_set_track,
    track_layer_keys, p_locate_segment, p_locate_track_layer, p_set_track_layer, p_set_segment, p_segment, with_segment, lemma_p_set_track_twice,
    lemma_segment_roundtrip, waypoint_described, waypoint_attached,
};
use crate::ids::{TrackId, TrackPointId, TrackSegmentId};
use crate::layers::{TrackLayerV, track_keys};
use crate::track::{SegmentV, TrackPoint, TrackV, point_keys, segment_keys};
use crate::waypoint::WaypointV;

verus! {

// ── the history ──────────────────────────────────────────────────────────

/// A command that is refused leaves the history exactly as it was: the redo
/// steps the operator had are still there and nothing is counted.
pub proof fn law_refused_command_keeps_history(s: StackV, c: CommandV, gesture: Option<u64>, p: ProjectV)
    ensures
        stack_apply(s, c, gesture, p).2 is Err ==> stack_apply(s, c, gesture, p).0 == s,
{
}

/// A command that lands clears the redo steps and counts one change.
pub proof fn law_landed_command_clears_redo(s: StackV, c: CommandV, gesture: Option<u64>, p: ProjectV)
    requires
        s.mutation_count < u64::MAX,
    ensures
        stack_apply(s, c, gesture, p).2 is Ok ==> {
            &&& stack_apply(s, c, gesture, p).0.redo.len() == 0
            &&& stack_apply(s, c, gesture, p).0.mutation_count == s.mutation_count + 1
        },
{
}

/// A command given with no gesture never merges: it lands as an undo step
/// of its own, on top of the ones before it.
pub proof fn law_no_gesture_never_merges(s: StackV, c: CommandV, p: ProjectV)
    requires
        stack_wf(s),
        s.undo.len() < MAX_STACK_DEPTH,
    ensures
        stack_apply(s, c, None, p).2 is Ok ==> {
            &&& stack_apply(s, c, None, p).0.undo.len() == s.undo.len() + 1
            &&& stack_apply(s, c, None, p).0.undo.drop_last() == s.undo
            &&& stack_apply(s, c, None, p).0.undo.last() == (DeltaV { forward: c, reverse: reverse_spec(c, p), gesture: None })
        },
{
    assert(!merges(s, c, None));
    let pushed = s.undo.push(DeltaV { forward: c, reverse: reverse_spec(c, p), gesture: None });
    assert(pushed.drop_last() =~= s.undo);
}

/// The history never holds more than `MAX_STACK_DEPTH` steps, whatever is
/// applied, undone, redone or discarded.
pub proof fn law_history_stays_bounded(s: StackV, c: CommandV, gesture: Option<u64>, p: ProjectV, count: nat)
    requires
        stack_wf(s),
    ensures
        stack_wf(stack_apply(s, c, gesture, p).0),
        stack_wf(stack_undo(s, p).0),
        stack_wf(stack_redo(s, p).0),
        stack_wf(stack_discard(s, p, count).0),
{
    crate::history::lemma_discard_bounds(s.undo, p, count);
}

/// Undoing right after a command landed as a new step runs the reverse that
/// was read off the project before the command, and moves the step to the
/// redo steps.
pub proof fn law_undo_after_apply(s: StackV, c: CommandV, p: ProjectV)
    requires
        stack_wf(s),
        s.undo.len() < MAX_STACK_DEPTH,
        s.mutation_count + 2 <= u64::MAX,
    ensures
        ({
            let (s1, p1, r) = stack_apply(s, c, None, p);
            let rev = reverse_spec(c, p);
            r is Ok && apply_spec(rev, p1).1 is Ok ==> stack_undo(s1, p1) == (
                StackV {
                    undo: s.undo,
                    redo: seq![DeltaV { forward: c, reverse: rev, gesture: None }],
                    mutation_count: (s.mutation_count + 2) as u64,
                },
                apply_spec(rev, p1).0,
                true,
            )
        }),
{
    law_no_gesture_never_merges(s, c, p);
    let (s1, p1, r) = stack_apply(s, c, None, p);
    if r is Ok {
        assert(s1.undo.drop_last() =~= s.undo);
        assert(Seq::<DeltaV>::empty().push(DeltaV { forward: c, reverse: reverse_spec(c, p), gesture: None })
            =~= seq![DeltaV { forward: c, reverse: reverse_spec(c, p), gesture: None }]);
    }
}

/// Redoing right after an undo applies the step's command again and puts the
/// step back where it was.
pub proof fn law_redo_after_undo(s: StackV, p: ProjectV)
    requires
        stack_wf(s),
        s.mutation_count + 2 <= u64::MAX,
    ensures
        ({
            let (s1, p1, done) = stack_undo(s, p);
            done && apply_spec(s.undo.last().forward, p1).1 is Ok ==> stack_redo(s1, p1) == (
                StackV { undo: s.undo, redo: s.redo, mutation_count: (s.mutation_count + 2) as u64 },
                apply_spec(s.undo.last().forward, p1).0,
                true,
            )
        }),
{
    let (s1, p1, done) = stack_undo(s, p);
    if done {
        assert(s1.redo.last() == s.undo.last());
        assert(s1.redo.drop_last() =~= s.redo);
        assert(s1.undo.push(s.undo.last()) =~= s.undo);
    }
}

// ── commands and their reverses ──────────────────────────────────────────

proof fn lemma_locate_waypoint_after_set(p: ProjectV, li: int, wi: int, w2: WaypointV, l: u64, w: u64)
    requires
        0 <= li < p.waypoint_layers.len(),
        0 <= wi < p.waypoint_layers[li].waypoints.len(),
        w2.id == p.waypoint_layers[li].waypoints[wi].id,
    ensures
        p_locate_waypoint(p_set_waypoint(p, li, wi, w2), l, w) == p_locate_waypoint(p, l, w),
{
    let q = p_set_waypoint(p, li, wi, w2);
    assert(waypoint_layer_keys(q.waypoint_layers) =~= waypoint_layer_keys(p.waypoint_layers));
    assert forall|k: int| 0 <= k < p.waypoint_layers.len() implies
        waypoint_keys(#[trigger] q.waypoint_layers[k].waypoints) =~= waypoint_keys(p.waypoint_layers[k].waypoints) by {
    }
}

/// Moving a mark and then applying the reverse read off the project before
/// the move puts the mark back: the project is as it was.
pub proof fn law_move_waypoint_round_trip(p: ProjectV, layer_id: LayerId, waypoint_id: WaypointId, latitude: u64, longitude: u64)
    ensures
        ({
            let c = CommandV::MoveWaypoint { layer_id, waypoint_id, latitude, longitude };
            let (p1, r) = apply_spec(c, p);
            r is Ok ==> apply_spec(reverse_spec(c, p), p1) == (p, Ok::<(), CommandError>(()))
        }),
{
    reveal(apply_spec);
    reveal(reverse_spec);
    let c = CommandV::MoveWaypoint { layer_id, waypoint_id, latitude, longitude };
    let (p1, r) = apply_spec(c, p);
    if r is Ok {
        let (li, wi) = p_locate_waypoint(p, layer_id.0, waypoint_id.0)->Ok_0;
        let orig = p.waypoint_layers[li].waypoints[wi];
        let moved = waypoint_moved(latitude, longitude)(orig);
        assert(p1 == p_set_waypoint(p, li, wi, moved));
        lemma_locate_waypoint_after_set(p, li, wi, moved, layer_id.0, waypoint_id.0);
        let back = waypoint_moved(orig.latitude, orig.longitude)(p1.waypoint_layers[li].waypoints[wi]);
        assert(back =~= orig);
        lemma_p_set_waypoint_twice(p, li, wi, moved, orig);
        lemma_p_set_waypoint_same(p, li, wi);
    }
}

/// Recolouring a mark whose colour is the one the command records as old,
/// and then applying the reverse, leaves the project as it was.
pub proof fn law_waypoint_colour_round_trip(p: ProjectV, layer_id: LayerId, waypoint_id: WaypointId, old_color: Option<[u8; 4]>, new_color: Option<[u8; 4]>)
    requires
        p_locate_waypoint(p, layer_id.0, waypoint_id.0) is Ok ==> {
            let (li, wi) = p_locate_waypoint(p, layer_id.0, waypoint_id.0)->Ok_0;
            p.waypoint_layers[li].waypoints[wi].color == old_color
        },
    ensures
        ({
            let c = CommandV::SetWaypointColor { layer_id, waypoint_id, old_color, new_color };
            let (p1, r) = apply_spec(c, p);
            r is Ok ==> apply_spec(reverse_spec(c, p), p1) == (p, Ok::<(), CommandError>(()))
        }),
{
    reveal(apply_spec);
    reveal(reverse_spec);
    let c = CommandV::SetWaypointColor { layer_id, waypoint_id, old_color, new_color };
    let (p1, r) = apply_spec(c, p);
    if r is Ok {
        let (li, wi) = p_locate_waypoint(p, layer_id.0, waypoint_id.0)->Ok_0;
        let orig = p.waypoint_layers[li].waypoints[wi];
        let recoloured = waypoint_colour(new_color)(orig);
        assert(p1 == p_set_waypoint(p, li, wi, recoloured));
        lemma_locate_waypoint_after_set(p, li, wi, recoloured, layer_id.0, waypoint_id.0);
        let back = waypoint_colour(old_color)(p1.waypoint_layers[li].waypoints[wi]);
        assert(back =~= orig);
        lemma_p_set_waypoint_twice(p, li, wi, recoloured, orig);
        lemma_p_set_waypoint_same(p, li, wi);
    }
}

pub(crate) proof fn lemma_locate_after_set_track(p: ProjectV, li: int, ti: int, t2: TrackV, l: u64, t: u64)
    requires
        0 <= li < p.track_layers.len(),
        0 <= ti < p.track_layers[li].tracks.len(),
        t2.id == p.track_layers[li].tracks[ti].id,
    ensures
        p_locate_track(p_set_track(p, li, ti, t2), l, t) == p_locate_track(p, l, t),
{
    let q = p_set_track(p, li, ti, t2);
    assert(track_layer_keys(q.track_layers) =~= track_layer_keys(p.track_layers));
    assert forall|k: int| 0 <= k < p.track_layers.len() implies
        track_keys(#[trigger] q.track_layers[k].tracks) =~= track_keys(p.track_layers[k].tracks) by {
    }
}

proof fn lemma_locate_segment_after_set(p: ProjectV, li: int, ti: int, si: int, s2: SegmentV, l: u64, t: u64, s: u64)
    requires
        0 <= li < p.track_layers.len(),
        0 <= ti < p.track_layers[li].tracks.len(),
        0 <= si < p.track_layers[li].tracks[ti].segments.len(),
        s2.id == p.track_layers[li].tracks[ti].segments[si].id,
    ensures
        p_locate_segment(p_set_segment(p, li, ti, si, s2), l, t, s) == p_locate_segment(p, l, t, s),
{
    let tr = p.track_layers[li].tracks[ti];
    let q = p_set_segment(p, li, ti, si, s2);
    lemma_locate_after_set_track(p, li, ti, with_segment(tr, si, s2), l, t);
    assert(segment_keys(with_segment(tr, si, s2).segments) =~= segment_keys(tr.segments));
    assert forall|a: int, b: int| 0 <= a < q.track_layers.len() && 0 <= b < q.track_layers[a].tracks.len() implies
        segment_keys(#[trigger] q.track_layers[a].tracks[b].segments) == segment_keys(p.track_layers[a].tracks[b].segments) by {
        if a == li && b == ti {
        } else {
            assert(q.track_layers[a].tracks[b] == p.track_layers[a].tracks[b]);
        }
    }
}

/// Every segment's points can be indexed by a `usize`, as in any project held
/// in memory.
pub open spec fn points_fit(p: ProjectV) -> bool {
    forall|li: int, ti: int, si: int|
        0 <= li < p.track_layers.len() && 0 <= ti < p.track_layers[li].tracks.len()
        && 0 <= si < p.track_layers[li].tracks[ti].segments.len()
        ==> #[trigger] p.track_layers[li].tracks[ti].segments[si].points.len() <= usize::MAX
}

/// Deleting a track point and then applying the reverse read off the project
/// before the deletion puts the point back at the index it had.
pub proof fn law_delete_track_point_round_trip(
    p: ProjectV,
    layer_id: LayerId,
    track_id: TrackId,
    segment_id: TrackSegmentId,
    point_id: TrackPointId,
    removed_index: usize,
    removed_point: TrackPoint,
)
    requires
        points_fit(p),
    ensures
        ({
            let c = CommandV::DeleteTrackPoint { layer_id, track_id, segment_id, point_id, removed_index, removed_point };
            let (p1, r) = apply_spec(c, p);
            r is Ok ==> apply_spec(reverse_spec(c, p), p1) == (p, Ok::<(), CommandError>(()))
        }),
{
    reveal(apply_spec);
    reveal(reverse_spec);
    let c = CommandV::DeleteTrackPoint { layer_id, track_id, segment_id, point_id, removed_index, removed_point };
    let (p1, r) = apply_spec(c, p);
    if r is Ok {
        let (li, ti, si) = p_locate_segment(p, layer_id.0, track_id.0, segment_id.0)->Ok_0;
        let seg = p_segment(p, li, ti, si);
        let k = first_index(point_keys(seg.points), point_id.0)->Some_0;
        assert(seg.points.len() <= usize::MAX);
        let seg1 = SegmentV { points: seg.points.remove(k), ..seg };
        assert(p1 == p_set_segment(p, li, ti, si, seg1));
        lemma_locate_segment_after_set(p, li, ti, si, seg1, layer_id.0, track_id.0, segment_id.0);
        assert(p_segment(p1, li, ti, si) == seg1);
        assert(seg1.points.insert(k, seg.points[k]) =~= seg.points);
        let seg2 = SegmentV { points: seg1.points.insert(k, seg.points[k]), ..seg1 };
        assert(seg2 =~= seg);
        lemma_set_segment_twice(p, li, ti, si, seg1, seg);
        lemma_segment_roundtrip(p, li, ti, si, seg);
    }
}

proof fn lemma_set_segment_twice(p: ProjectV, li: int, ti: int, si: int, a: SegmentV, b: SegmentV)
    requires
        0 <= li < p.track_layers.len(),
        0 <= ti < p.track_layers[li].tracks.len(),
        0 <= si < p.track_layers[li].tracks[ti].segments.len(),
    ensures
        p_set_segment(p_set_segment(p, li, ti, si, a), li, ti, si, b) == p_set_segment(p, li, ti, si, b),
{
    let tr = p.track_layers[li].tracks[ti];
    let q = p_set_segment(p, li, ti, si, a);
    assert(q.track_layers[li].tracks[ti] == with_segment(tr, si, a));
    assert(with_segment(with_segment(tr, si, a), si, b).segments =~= with_segment(tr, si, b).segments);
    assert(with_segment(with_segment(tr, si, a), si, b) =~= with_segment(tr, si, b));
    lemma_p_set_track_twice(p, li, ti, with_segment(tr, si, a), with_segment(tr, si, b));
}

/// Moving a track point whose coordinates are the ones the command records
/// as old, and then applying the reverse, leaves the project as it was.
pub proof fn law_move_track_point_round_trip(
    p: ProjectV,
    layer_id: LayerId,
    track_id: TrackId,
    segment_id: TrackSegmentId,
    point_id: TrackPointId,
    lat: u64,
    lon: u64,
    old_lat: u64,
    old_lon: u64,
)
    requires
        p_locate_segment(p, layer_id.0, track_id.0, segment_id.0) is Ok ==> {
            let (li, ti, si) = p_locate_segment(p, layer_id.0, track_id.0, segment_id.0)->Ok_0;
            let pts = p_segment(p, li, ti, si).points;
            first_index(point_keys(pts), point_id.0) is Some ==> {
                let k = first_index(point_keys(pts), point_id.0)->Some_0;
                pts[k].latitude == old_lat && pts[k].longitude == old_lon
            }
        },
    ensures
        ({
            let c = CommandV::MoveTrackPoint { layer_id, track_id, segment_id, point_id, lat, lon, old_lat, old_lon };
            let (p1, r) = apply_spec(c, p);
            r is Ok ==> apply_spec(reverse_spec(c, p), p1) == (p, Ok::<(), CommandError>(()))
        }),
{
    reveal(apply_spec);
    reveal(reverse_spec);
    let c = CommandV::MoveTrackPoint { layer_id, track_id, segment_id, point_id, lat, lon, old_lat, old_lon };
    let (p1, r) = apply_spec(c, p);
    if r is Ok {
        let (li, ti, si) = p_locate_segment(p, layer_id.0, track_id.0, segment_id.0)->Ok_0;
        let seg = p_segment(p, li, ti, si);
        let k = first_index(point_keys(seg.points), point_id.0)->Some_0;
        let seg1 = SegmentV { points: seg.points.update(k, TrackPoint { latitude: lat, longitude: lon, ..seg.points[k] }), ..seg };
        assert(p1 == p_set_segment(p, li, ti, si, seg1));
        lemma_locate_segment_after_set(p, li, ti, si, seg1, layer_id.0, track_id.0, segment_id.0);
        assert(p_segment(p1, li, ti, si) == seg1);
        assert(point_keys(seg1.points) =~= point_keys(seg.points));
        let seg2 = SegmentV { points: seg1.points.update(k, TrackPoint { latitude: old_lat, longitude: old_lon, ..seg1.points[k] }), ..seg1 };
        assert(seg2.points =~= seg.points);
        assert(seg2 =~= seg);
        lemma_set_segment_twice(p, li, ti, si, seg1, seg);
        lemma_segment_roundtrip(p, li, ti, si, seg);
    }
}

proof fn lemma_first_index_is_first(keys: Seq<u64>, k: u64)
    requires
        first_index(keys, k) is Some,
    ensures
        is_first(keys, k, first_index(keys, k)->Some_0),
{
}

/// Splitting a segment into a new segment whose id the track does not use
/// yet, and then applying the reverse (a join), gives back the one segment
/// with all its points: the project is as it was.
pub proof fn law_split_join_round_trip(
    p: ProjectV,
    layer_id: LayerId,
    track_id: TrackId,
    segment_id: TrackSegmentId,
    point_id: TrackPointId,
    new_segment_id: TrackSegmentId,
)
    requires
        p_locate_track(p, layer_id.0, track_id.0) is Ok ==> {
            let (li, ti) = p_locate_track(p, layer_id.0, track_id.0)->Ok_0;
            !segment_keys(p.track_layers[li].tracks[ti].segments).contains(new_segment_id.0)
        },
    ensures
        ({
            let c = CommandV::SplitSegment { layer_id, track_id, segment_id, point_id, new_segment_id };
            let (p1, r) = apply_spec(c, p);
            r is Ok ==> apply_spec(reverse_spec(c, p), p1) == (p, Ok::<(), CommandError>(()))
        }),
{
    reveal(apply_spec);
    reveal(reverse_spec);
    let c = CommandV::SplitSegment { layer_id, track_id, segment_id, point_id, new_segment_id };
    let (p1, r) = apply_spec(c, p);
    if r is Ok {
        let (li, ti, si) = p_locate_segment(p, layer_id.0, track_id.0, segment_id.0)->Ok_0;
        let tr = p.track_layers[li].tracks[ti];
        let seg = tr.segments[si];
        let keys = segment_keys(tr.segments);
        lemma_first_index_is_first(keys, segment_id.0);
        let k = first_index(point_keys(seg.points), point_id.0)->Some_0;
        lemma_first_index_is_first(point_keys(seg.points), point_id.0);
        let left = SegmentV { points: seg.points.subrange(0, k + 1), ..seg };
        let right0 = SegmentV { id: new_segment_id, points: seg.points.subrange(k, seg.points.len() as int) };
        let right = SegmentV { points: right0.points.drop_first(), ..right0 };
        let segs1 = tr.segments.update(si, left).insert(si + 1, right);
        let tr1 = TrackV { segments: segs1, ..tr };
        assert(p1 == p_set_track(p, li, ti, tr1));
        lemma_locate_after_set_track(p, li, ti, tr1, layer_id.0, track_id.0);
        assert(p1.track_layers[li].tracks[ti] == tr1);
        let keys1 = segment_keys(segs1);
        assert(keys.contains(segment_id.0)) by {
            assert(keys[si] == segment_id.0);
        }
        assert(is_first(keys1, segment_id.0, si)) by {
            assert forall|j: int| 0 <= j < si implies keys1[j] != segment_id.0 by {
                assert(keys1[j] == keys[j]);
            }
        }
        lemma_first_index_some(keys1, segment_id.0, si);
        assert(is_first(keys1, new_segment_id.0, si + 1)) by {
            assert forall|j: int| 0 <= j < si + 1 implies keys1[j] != new_segment_id.0 by {
                if j < si {
                    assert(keys1[j] == keys[j]);
                    assert(keys[j] != new_segment_id.0);
                } else {
                    assert(keys1[j] == segment_id.0);
                }
            }
        }
        lemma_first_index_some(keys1, new_segment_id.0, si + 1);
        let joined = SegmentV { points: left.points + right.points, ..left };
        assert(joined.points =~= seg.points);
        assert(joined =~= seg);
        assert(segs1.update(si, joined).remove(si + 1) =~= tr.segments);
        let tr2 = TrackV { segments: segs1.update(si, joined).remove(si + 1), ..tr1 };
        assert(tr2 =~= tr);
        lemma_p_set_track_twice(p, li, ti, tr1, tr);
        crate::project::lemma_p_set_track_same(p, li, ti);
    }
}

/// Adding a track layer under an id no track layer has, and then applying
/// the reverse, leaves the project as it was.
pub proof fn law_add_track_layer_round_trip(p: ProjectV, id: LayerId, name: Seq<char>)
    requires
        !track_layer_keys(p.track_layers).contains(id.0),
    ensures
        ({
            let c = CommandV::AddTrackLayer { id, name };
            let (p1, r) = apply_spec(c, p);
            r is Ok && apply_spec(reverse_spec(c, p), p1) == (p, Ok::<(), CommandError>(()))
        }),
{
    reveal(apply_spec);
    reveal(reverse_spec);
    let c = CommandV::AddTrackLayer { id, name };
    let (p1, r) = apply_spec(c, p);
    let n = p.track_layers.len() as int;
    let keys1 = track_layer_keys(p1.track_layers);
    assert(is_first(keys1, id.0, n)) by {
        assert forall|j: int| 0 <= j < n implies keys1[j] != id.0 by {
            assert(keys1[j] == track_layer_keys(p.track_layers)[j]);
        }
    }
    lemma_first_index_some(keys1, id.0, n);
    assert(p1.track_layers.remove(n) =~= p.track_layers);
    assert((ProjectV { track_layers: p1.track_layers.remove(n), ..p1 }) =~= p);
}

/// Renaming a track layer whose name is the one the command records as old,
/// and then applying the reverse, leaves the project as it was.
pub proof fn law_rename_track_layer_round_trip(p: ProjectV, layer_id: LayerId, old_name: Seq<char>, new_name: Seq<char>)
    requires
        p_locate_track_layer(p, layer_id.0) is Ok ==> p.track_layers[p_locate_track_layer(p, layer_id.0)->Ok_0].name == old_name,
    ensures
        ({
            let c = CommandV::RenameTrackLayer { layer_id, old_name, new_name };
            let (p1, r) = apply_spec(c, p);
            r is Ok ==> apply_spec(reverse_spec(c, p), p1) == (p, Ok::<(), CommandError>(()))
        }),
{
    reveal(apply_spec);
    reveal(reverse_spec);
    let c = CommandV::RenameTrackLayer { layer_id, old_name, new_name };
    let (p1, r) = apply_spec(c, p);
    if r is Ok {
        let li = p_locate_track_layer(p, layer_id.0)->Ok_0;
        let l0 = p.track_layers[li];
        let l1 = TrackLayerV { name: new_name, ..l0 };
        assert(p1 == p_set_track_layer(p, li, l1));
        assert(track_layer_keys(p1.track_layers) =~= track_layer_keys(p.track_layers));
        assert(TrackLayerV { name: old_name, ..l1 } =~= l0);
        assert(p1.track_layers.update(li, l0) =~= p.track_layers);
        assert(p_set_track_layer(p1, li, l0) =~= p);
    }
}

/// Adding a track under an id the layer does not use yet, and then applying
/// the reverse, leaves the project as it was.
pub proof fn law_add_track_round_trip(p: ProjectV, layer_id: LayerId, track: TrackV)
    requires
        p_locate_track_layer(p, layer_id.0) is Ok ==>
            !track_keys(p.track_layers[p_locate_track_layer(p, layer_id.0)->Ok_0].tracks).contains(track.id.0),
    ensures
        ({
            let c = CommandV::AddTrack { layer_id, track };
            let (p1, r) = apply_spec(c, p);
            r is Ok ==> apply_spec(reverse_spec(c, p), p1) == (p, Ok::<(), CommandError>(()))
        }),
{
    reveal(apply_spec);
    reveal(reverse_spec);
    let c = CommandV::AddTrack { layer_id, track };
    let (p1, r) = apply_spec(c, p);
    if r is Ok {
        let li = p_locate_track_layer(p, layer_id.0)->Ok_0;
        let l0 = p.track_layers[li];
        let l1 = TrackLayerV { tracks: l0.tracks.push(track), ..l0 };
        assert(p1 == p_set_track_layer(p, li, l1));
        assert(track_layer_keys(p1.track_layers) =~= track_layer_keys(p.track_layers));
        assert(p1.track_layers[li] == l1);
        let n = l0.tracks.len() as int;
        let keys1 = track_keys(l1.tracks);
        assert(is_first(keys1, track.id.0, n)) by {
            assert forall|j: int| 0 <= j < n implies keys1[j] != track.id.0 by {
                assert(keys1[j] == track_keys(l0.tracks)[j]);
            }
        }
        lemma_first_index_some(keys1, track.id.0, n);
        assert(l1.tracks.remove(n) =~= l0.tracks);
        assert(TrackLayerV { tracks: l1.tracks.remove(n), ..l1 } =~= l0);
        assert(p1.track_layers.update(li, l0) =~= p.track_layers);
        assert(p_set_track_layer(p1, li, l0) =~= p);
    }
}

/// Undoing the removal of a track layer puts the layer back with all its
/// tracks, as the command holds it.
pub proof fn law_removed_track_layer_comes_back_whole(p: ProjectV, layer: TrackLayerV)
    ensures
        ({
            let c = CommandV::RemoveTrackLayer { layer };
            let (p1, r) = apply_spec(c, p);
            let (p2, r2) = apply_spec(reverse_spec(c, p), p1);
            &&& r is Ok
            &&& r2 is Ok
            &&& p2.track_layers == p1.track_layers.push(layer)
        }),
{
    reveal(apply_spec);
    reveal(reverse_spec);
}


/// Adding a map layer under an id no map layer holds, and then applying the
/// reverse, leaves the project as it was.
pub proof fn law_add_map_layer_round_trip(p: ProjectV, id: LayerId, name: Seq<char>)
    requires
        !map_layer_keys(p.map_layers).contains(id.0),
    ensures
        ({
            let c = CommandV::AddMapLayer { id, name };
            let (p1, r) = apply_spec(c, p);
            r is Ok && apply_spec(reverse_spec(c, p), p1) == (p, Ok::<(), CommandError>(()))
        }),
{
    reveal(apply_spec);
    reveal(reverse_spec);
    let c = CommandV::AddMapLayer { id, name };
    let (p1, r) = apply_spec(c, p);
    let n = p.map_layers.len() as int;
    let keys1 = map_layer_keys(p1.map_layers);
    assert(is_first(keys1, id.0, n)) by {
        assert forall|j: int| 0 <= j < n implies keys1[j] != id.0 by {
            assert(keys1[j] == map_layer_keys(p.map_layers)[j]);
        }
    }
    lemma_first_index_some(keys1, id.0, n);
    assert(p1.map_layers.remove(n) =~= p.map_layers);
    assert((ProjectV { map_layers: p1.map_layers.remove(n), ..p1 }) =~= p);
}

/// The same for a map layer that remembers the file it was opened from.
pub proof fn law_add_map_layer_with_source_round_trip(p: ProjectV, id: LayerId, name: Seq<char>, source_path: Seq<char>)
    requires
        !map_layer_keys(p.map_layers).contains(id.0),
    ensures
        ({
            let c = CommandV::AddMapLayerWithSource { id, name, source_path };
            let (p1, r) = apply_spec(c, p);
            r is Ok && apply_spec(reverse_spec(c, p), p1) == (p, Ok::<(), CommandError>(()))
        }),
{
    reveal(apply_spec);
    reveal(reverse_spec);
    let c = CommandV::AddMapLayerWithSource { id, name, source_path };
    let (p1, r) = apply_spec(c, p);
    let n = p.map_layers.len() as int;
    let keys1 = map_layer_keys(p1.map_layers);
    assert(is_first(keys1, id.0, n)) by {
        assert forall|j: int| 0 <= j < n implies keys1[j] != id.0 by {
            assert(keys1[j] == map_layer_keys(p.map_layers)[j]);
        }
    }
    lemma_first_index_some(keys1, id.0, n);
    assert(p1.map_layers.remove(n) =~= p.map_layers);
    assert((ProjectV { map_layers: p1.map_layers.remove(n), ..p1 }) =~= p);
}

/// Adding a waypoint layer under an id no waypoint layer holds, and then
/// applying the reverse, leaves the project as it was.
pub proof fn law_add_waypoint_layer_round_trip(p: ProjectV, id: LayerId, name: Seq<char>)
    requires
        !waypoint_layer_keys(p.waypoint_layers).contains(id.0),
    ensures
        ({
            let c = CommandV::AddWaypointLayer { id, name };
            let (p1, r) = apply_spec(c, p);
            r is Ok && apply_spec(reverse_spec(c, p), p1) == (p, Ok::<(), CommandError>(()))
        }),
{
    reveal(apply_spec);
    reveal(reverse_spec);
    let c = CommandV::AddWaypointLayer { id, name };
    let (p1, r) = apply_spec(c, p);
    let n = p.waypoint_layers.len() as int;
    let keys1 = waypoint_layer_keys(p1.waypoint_layers);
    assert(is_first(keys1, id.0, n)) by {
        assert forall|j: int| 0 <= j < n implies keys1[j] != id.0 by {
            assert(keys1[j] == waypoint_layer_keys(p.waypoint_layers)[j]);
        }
    }
    lemma_first_index_some(keys1, id.0, n);
    assert(p1.waypoint_layers.remove(n) =~= p.waypoint_layers);
    assert((ProjectV { waypoint_layers: p1.waypoint_layers.remove(n), ..p1 }) =~= p);
}

/// Adding a mark under an id its layer does not hold, and then applying the
/// reverse, leaves the project as it was.
pub proof fn law_add_waypoint_round_trip(p: ProjectV, layer_id: LayerId, waypoint: WaypointV)
    requires
        p_locate_waypoint_layer(p, layer_id.0) is Ok ==>
            !waypoint_keys(p.waypoint_layers[p_locate_waypoint_layer(p, layer_id.0)->Ok_0].waypoints).contains(waypoint.id.0),
    ensures
        ({
            let c = CommandV::AddWaypoint { layer_id, waypoint };
            let (p1, r) = apply_spec(c, p);
            r is Ok ==> apply_spec(reverse_spec(c, p), p1) == (p, Ok::<(), CommandError>(()))
        }),
{
    reveal(apply_spec);
    reveal(reverse_spec);
    let c = CommandV::AddWaypoint { layer_id, waypoint };
    let (p1, r) = apply_spec(c, p);
    if r is Ok {
        let li = p_locate_waypoint_layer(p, layer_id.0)->Ok_0;
        let l0 = p.waypoint_layers[li];
        let l1 = WaypointLayerV { waypoints: l0.waypoints.push(waypoint), ..l0 };
        assert(p1 == p_set_waypoint_layer(p, li, l1));
        assert(waypoint_layer_keys(p1.waypoint_layers) =~= waypoint_layer_keys(p.waypoint_layers));
        assert(p1.waypoint_layers[li] == l1);
        let n = l0.waypoints.len() as int;
        let keys1 = waypoint_keys(l1.waypoints);
        assert(is_first(keys1, waypoint.id.0, n)) by {
            assert forall|j: int| 0 <= j < n implies keys1[j] != waypoint.id.0 by {
                assert(keys1[j] == waypoint_keys(l0.waypoints)[j]);
            }
        }
        lemma_first_index_some(keys1, waypoint.id.0, n);
        assert(l1.waypoints.remove(n) =~= l0.waypoints);
        assert(WaypointLayerV { waypoints: l1.waypoints.remove(n), ..l1 } =~= l0);
        assert(p1.waypoint_layers.update(li, l0) =~= p.waypoint_layers);
        assert(p_set_waypoint_layer(p1, li, l0) =~= p);
    }
}

/// Renaming a track and then applying the reverse read off the project
/// before leaves the project as it was, whatever name the command recorded
/// as old, and also when there is no such track.
pub proof fn law_rename_track_round_trip(p: ProjectV, layer_id: LayerId, track_id: TrackId, old_name: Seq<char>, new_name: Seq<char>)
    ensures
        ({
            let c = CommandV::RenameTrack { layer_id, track_id, old_name, new_name };
            let (p1, r) = apply_spec(c, p);
            r is Ok && apply_spec(reverse_spec(c, p), p1) == (p, Ok::<(), CommandError>(()))
        }),
{
    reveal(apply_spec);
    reveal(reverse_spec);
    let c = CommandV::RenameTrack { layer_id, track_id, old_name, new_name };
    let (p1, r) = apply_spec(c, p);
    match p_locate_track(p, layer_id.0, track_id.0) {
        Ok((li, ti)) => {
            let orig = p.track_layers[li].tracks[ti];
            let renamed = TrackV { name: new_name, ..orig };
            assert(p1 == p_set_track(p, li, ti, renamed));
            lemma_locate_after_set_track(p, li, ti, renamed, layer_id.0, track_id.0);
            assert(p1.track_layers[li].tracks[ti] == renamed);
            let back = TrackV { name: orig.name, ..renamed };
            assert(back =~= orig);
            lemma_p_set_track_twice(p, li, ti, renamed, orig);
            assert(p.track_layers[li].tracks.update(ti, orig) =~= p.track_layers[li].tracks);
            assert(p.track_layers.update(li, p.track_layers[li]) =~= p.track_layers);
            assert(p_set_track(p, li, ti, orig) =~= p);
        },
        Err(_) => {},
    }
}

/// Renaming a mark whose name is the one the command records as old, and
/// then applying the reverse, leaves the project as it was.
pub proof fn law_rename_waypoint_round_trip(p: ProjectV, layer_id: LayerId, waypoint_id: WaypointId, old_name: Seq<char>, new_name: Seq<char>)
    requires
        p_locate_waypoint(p, layer_id.0, waypoint_id.0) is Ok ==> {
            let (li, wi) = p_locate_waypoint(p, layer_id.0, waypoint_id.0)->Ok_0;
            p.waypoint_layers[li].waypoints[wi].name == old_name
        },
    ensures
        ({
            let c = CommandV::RenameWaypoint { layer_id, waypoint_id, old_name, new_name };
            let (p1, r) = apply_spec(c, p);
            r is Ok ==> apply_spec(reverse_spec(c, p), p1) == (p, Ok::<(), CommandError>(()))
        }),
{
    reveal(apply_spec);
    reveal(reverse_spec);
    let c = CommandV::RenameWaypoint { layer_id, waypoint_id, old_name, new_name };
    let (p1, r) = apply_spec(c, p);
    if r is Ok {
        let (li, wi) = p_locate_waypoint(p, layer_id.0, waypoint_id.0)->Ok_0;
        let orig = p.waypoint_layers[li].waypoints[wi];
        let renamed = waypoint_renamed(new_name)(orig);
        assert(p1 == p_set_waypoint(p, li, wi, renamed));
        lemma_locate_waypoint_after_set(p, li, wi, renamed, layer_id.0, waypoint_id.0);
        let back = waypoint_renamed(old_name)(p1.waypoint_layers[li].waypoints[wi]);
        assert(back =~= orig);
        lemma_p_set_waypoint_twice(p, li, wi, renamed, orig);
        lemma_p_set_waypoint_same(p, li, wi);
    }
}

/// Giving a mark a symbol when its symbol is the one the command records as
/// old, and then applying the reverse, leaves the project as it was.
pub proof fn law_waypoint_symbol_round_trip(p: ProjectV, layer_id: LayerId, waypoint_id: WaypointId, old_symbol: Option<Seq<char>>, new_symbol: Option<Seq<char>>)
    requires
        p_locate_waypoint(p, layer_id.0, waypoint_id.0) is Ok ==> {
            let (li, wi) = p_locate_waypoint(p, layer_id.0, waypoint_id.0)->Ok_0;
            p.waypoint_layers[li].waypoints[wi].symbol == old_symbol
        },
    ensures
        ({
            let c = CommandV::SetWaypointSymbol { layer_id, waypoint_id, old_symbol, new_symbol };
            let (p1, r) = apply_spec(c, p);
            r is Ok ==> apply_spec(reverse_spec(c, p), p1) == (p, Ok::<(), CommandError>(()))
        }),
{
    reveal(apply_spec);
    reveal(reverse_spec);
    let c = CommandV::SetWaypointSymbol { layer_id, waypoint_id, old_symbol, new_symbol };
    let (p1, r) = apply_spec(c, p);
    if r is Ok {
        let (li, wi) = p_locate_waypoint(p, layer_id.0, waypoint_id.0)->Ok_0;
        let orig = p.waypoint_layers[li].waypoints[wi];
        let changed = waypoint_symbol(new_symbol)(orig);
        assert(p1 == p_set_waypoint(p, li, wi, changed));
        lemma_locate_waypoint_after_set(p, li, wi, changed, layer_id.0, waypoint_id.0);
        let back = waypoint_symbol(old_symbol)(p1.waypoint_layers[li].waypoints[wi]);
        assert(back =~= orig);
        lemma_p_set_waypoint_twice(p, li, wi, changed, orig);
        lemma_p_set_waypoint_same(p, li, wi);
    }
}

/// Inserting a point whose id its segment does not hold, and then applying
/// the reverse, leaves the project as it was.
pub proof fn law_insert_track_point_round_trip(
    p: ProjectV,
    layer_id: LayerId,
    track_id: TrackId,
    segment_id: TrackSegmentId,
    index: usize,
    point: TrackPoint,
)
    requires
        p_locate_segment(p, layer_id.0, track_id.0, segment_id.0) is Ok ==> {
            let (li, ti, si) = p_locate_segment(p, layer_id.0, track_id.0, segment_id.0)->Ok_0;
            !point_keys(p_segment(p, li, ti, si).points).contains(point.id.0)
        },
    ensures
        ({
            let c = CommandV::InsertTrackPoint { layer_id, track_id, segment_id, index, point };
            let (p1, r) = apply_spec(c, p);
            r is Ok ==> apply_spec(reverse_spec(c, p), p1) == (p, Ok::<(), CommandError>(()))
        }),
{
    reveal(apply_spec);
    reveal(reverse_spec);
    let c = CommandV::InsertTrackPoint { layer_id, track_id, segment_id, index, point };
    let (p1, r) = apply_spec(c, p);
    if r is Ok {
        let (li, ti, si) = p_locate_segment(p, layer_id.0, track_id.0, segment_id.0)->Ok_0;
        let s0 = p_segment(p, li, ti, si);
        let s1 = SegmentV { points: s0.points.insert(index as int, point), ..s0 };
        assert(p1 == p_set_segment(p, li, ti, si, s1));
        lemma_locate_segment_after_set(p, li, ti, si, s1, layer_id.0, track_id.0, segment_id.0);
        let keys1 = point_keys(s1.points);
        let k = index as int;
        assert(is_first(keys1, point.id.0, k)) by {
            assert forall|j: int| 0 <= j < k implies keys1[j] != point.id.0 by {
                assert(keys1[j] == point_keys(s0.points)[j]);
            }
        }
        lemma_first_index_some(keys1, point.id.0, k);
        assert(p_segment(p1, li, ti, si) == s1);
        assert(s1.points.remove(k) =~= s0.points);
        assert(SegmentV { points: s1.points.remove(k), ..s1 } =~= s0);
        lemma_set_segment_twice(p, li, ti, si, s1, s0);
        lemma_segment_roundtrip(p, li, ti, si, s0);
    }
}

/// Describing a mark whose note is, once tidied, the one the command
/// records as old, and then applying the reverse, leaves the project as it
/// was.
pub proof fn law_waypoint_description_round_trip(
    p: ProjectV,
    layer_id: LayerId,
    waypoint_id: WaypointId,
    old_description: Option<Seq<char>>,
    new_description: Option<Seq<char>>,
)
    requires
        p_locate_waypoint(p, layer_id.0, waypoint_id.0) is Ok ==> {
            let (li, wi) = p_locate_waypoint(p, layer_id.0, waypoint_id.0)->Ok_0;
            p.waypoint_layers[li].waypoints[wi].description == crate::waypoint::normalised_description(old_description)
        },
    ensures
        ({
            let c = CommandV::SetWaypointDescription { layer_id, waypoint_id, old_description, new_description };
            let (p1, r) = apply_spec(c, p);
            r is Ok ==> apply_spec(reverse_spec(c, p), p1) == (p, Ok::<(), CommandError>(()))
        }),
{
    reveal(apply_spec);
    reveal(reverse_spec);
    let c = CommandV::SetWaypointDescription { layer_id, waypoint_id, old_description, new_description };
    let (p1, r) = apply_spec(c, p);
    if r is Ok {
        let (li, wi) = p_locate_waypoint(p, layer_id.0, waypoint_id.0)->Ok_0;
        let orig = p.waypoint_layers[li].waypoints[wi];
        let changed = waypoint_described(new_description)(orig);
        assert(p1 == p_set_waypoint(p, li, wi, changed));
        lemma_locate_waypoint_after_set(p, li, wi, changed, layer_id.0, waypoint_id.0);
        let back = waypoint_described(old_description)(p1.waypoint_layers[li].waypoints[wi]);
        assert(back =~= orig);
        lemma_p_set_waypoint_twice(p, li, wi, changed, orig);
        lemma_p_set_waypoint_same(p, li, wi);
    }
}

/// Attaching files to a mark whose list is, once cleaned, the one the
/// command records as old, and then applying the reverse, leaves the project
/// as it was.
pub proof fn law_waypoint_attachments_round_trip(
    p: ProjectV,
    layer_id: LayerId,
    waypoint_id: WaypointId,
    old_attachments: Seq<Seq<char>>,
    new_attachments: Seq<Seq<char>>,
)
    requires
        p_locate_waypoint(p, layer_id.0, waypoint_id.0) is Ok ==> {
            let (li, wi) = p_locate_waypoint(p, layer_id.0, waypoint_id.0)->Ok_0;
            p.waypoint_layers[li].waypoints[wi].attachments == crate::waypoint::cleaned_attachments(old_attachments)
        },
    ensures
        ({
            let c = CommandV::SetWaypointAttachments { layer_id, waypoint_id, old_attachments, new_attachments };
            let (p1, r) = apply_spec(c, p);
            r is Ok ==> apply_spec(reverse_spec(c, p), p1) == (p, Ok::<(), CommandError>(()))
        }),
{
    reveal(apply_spec);
    reveal(reverse_spec);
    let c = CommandV::SetWaypointAttachments { layer_id, waypoint_id, old_attachments, new_attachments };
    let (p1, r) = apply_spec(c, p);
    if r is Ok {
        let (li, wi) = p_locate_waypoint(p, layer_id.0, waypoint_id.0)->Ok_0;
        let orig = p.waypoint_layers[li].waypoints[wi];
        let changed = waypoint_attached(new_attachments)(orig);
        assert(p1 == p_set_waypoint(p, li, wi, changed));
        lemma_locate_waypoint_after_set(p, li, wi, changed, layer_id.0, waypoint_id.0);
        let back = waypoint_attached(old_attachments)(p1.waypoint_layers[li].waypoints[wi]);
        assert(back =~= orig);
        lemma_p_set_waypoint_twice(p, li, wi, changed, orig);
        lemma_p_set_waypoint_same(p, li, wi);
    }
}

/// Renaming a waypoint layer whose name is the one the command records as
/// old, and then applying the reverse, leaves the project as it was.
pub proof fn law_rename_waypoint_layer_round_trip(p: ProjectV, layer_id: LayerId, old_name: Seq<char>, new_name: Seq<char>)
    requires
        p_locate_waypoint_layer(p, layer_id.0) is Ok ==> p.waypoint_layers[p_locate_waypoint_layer(p, layer_id.0)->Ok_0].name == old_name,
    ensures
        ({
            let c = CommandV::RenameWaypointLayer { layer_id, old_name, new_name };
            let (p1, r) = apply_spec(c, p);
            r is Ok ==> apply_spec(reverse_spec(c, p), p1) == (p, Ok::<(), CommandError>(()))
        }),
{
    reveal(apply_spec);
    reveal(reverse_spec);
    let c = CommandV::RenameWaypointLayer { layer_id, old_name, new_name };
    let (p1, r) = apply_spec(c, p);
    if r is Ok {
        let li = p_locate_waypoint_layer(p, layer_id.0)->Ok_0;
        let l0 = p.waypoint_layers[li];
        let l1 = WaypointLayerV { name: new_name, ..l0 };
        assert(p1 == p_set_waypoint_layer(p, li, l1));
        assert(waypoint_layer_keys(p1.waypoint_layers) =~= waypoint_layer_keys(p.waypoint_layers));
        assert(WaypointLayerV { name: old_name, ..l1 } =~= l0);
        assert(p1.waypoint_layers.update(li, l0) =~= p.waypoint_layers);
        assert(p_set_waypoint_layer(p1, li, l0) =~= p);
    }
}

/// Undoing the removal of a waypoint layer puts the layer back with all its
/// marks, as the command holds it.
pub proof fn law_removed_waypoint_layer_comes_back_whole(p: ProjectV, layer: WaypointLayerV)
    ensures
        ({
            let c = CommandV::RemoveWaypointLayer { layer };
            let (p1, r) = apply_spec(c, p);
            let (p2, r2) = apply_spec(reverse_spec(c, p), p1);
            &&& r is Ok
            &&& r2 is Ok
            &&& p2.waypoint_layers == p1.waypoint_layers.push(layer)
        }),
{
    reveal(apply_spec);
    reveal(reverse_spec);
}

/// Deleting the last mark of its layer, and then applying the reverse read
/// off the project before, leaves the project as it was.
pub proof fn law_delete_last_waypoint_round_trip(p: ProjectV, layer_id: LayerId, waypoint_id: WaypointId)
    requires
        p_locate_waypoint(p, layer_id.0, waypoint_id.0) is Ok ==> {
            let (li, wi) = p_locate_waypoint(p, layer_id.0, waypoint_id.0)->Ok_0;
            wi == p.waypoint_layers[li].waypoints.len() - 1
        },
    ensures
        ({
            let c = CommandV::DeleteWaypoint { layer_id, waypoint_id };
            let (p1, r) = apply_spec(c, p);
            r is Ok ==> apply_spec(reverse_spec(c, p), p1) == (p, Ok::<(), CommandError>(()))
        }),
{
    reveal(apply_spec);
    reveal(reverse_spec);
    let c = CommandV::DeleteWaypoint { layer_id, waypoint_id };
    let (p1, r) = apply_spec(c, p);
    if r is Ok {
        let (li, wi) = p_locate_waypoint(p, layer_id.0, waypoint_id.0)->Ok_0;
        let l0 = p.waypoint_layers[li];
        let l1 = WaypointLayerV { waypoints: l0.waypoints.remove(wi), ..l0 };
        assert(p1 == p_set_waypoint_layer(p, li, l1));
        assert(waypoint_layer_keys(p1.waypoint_layers) =~= waypoint_layer_keys(p.waypoint_layers));
        assert(p1.waypoint_layers[li] == l1);
        assert(l1.waypoints.push(l0.waypoints[wi]) =~= l0.waypoints);
        assert(WaypointLayerV { waypoints: l1.waypoints.push(l0.waypoints[wi]), ..l1 } =~= l0);
        assert(p1.waypoint_layers.update(li, l0) =~= p.waypoint_layers);
        assert(p_set_waypoint_layer(p1, li, l0) =~= p);
    }
}

/// Deleting the last track of its layer, and then applying the reverse read
/// off the project before, leaves the project as it was.
pub proof fn law_delete_last_track_round_trip(p: ProjectV, layer_id: LayerId, track_id: TrackId)
    requires
        p_locate_track(p, layer_id.0, track_id.0) is Ok ==> {
            let (li, ti) = p_locate_track(p, layer_id.0, track_id.0)->Ok_0;
            ti == p.track_layers[li].tracks.len() - 1
        },
    ensures
        ({
            let c = CommandV::DeleteTrack { layer_id, track_id };
            let (p1, r) = apply_spec(c, p);
            r is Ok ==> apply_spec(reverse_spec(c, p), p1) == (p, Ok::<(), CommandError>(()))
        }),
{
    reveal(apply_spec);
    reveal(reverse_spec);
    let c = CommandV::DeleteTrack { layer_id, track_id };
    let (p1, r) = apply_spec(c, p);
    if r is Ok {
        let (li, ti) = p_locate_track(p, layer_id.0, track_id.0)->Ok_0;
        let l0 = p.track_layers[li];
        let l1 = TrackLayerV { tracks: l0.tracks.remove(ti), ..l0 };
        assert(p1 == p_set_track_layer(p, li, l1));
        assert(track_layer_keys(p1.track_layers) =~= track_layer_keys(p.track_layers));
        assert(p1.track_layers[li] == l1);
        assert(l1.tracks.push(l0.tracks[ti]) =~= l0.tracks);
        assert(TrackLayerV { tracks: l1.tracks.push(l0.tracks[ti]), ..l1 } =~= l0);
        assert(p1.track_layers.update(li, l0) =~= p.track_layers);
        assert(p_set_track_layer(p1, li, l0) =~= p);
    }
}

/// Creating an empty track under an id the layer does not use yet, and then
/// applying the reverse, leaves the project as it was.
pub proof fn law_create_empty_track_round_trip(p: ProjectV, layer_id: LayerId, track_id: TrackId, name: Seq<char>)
    requires
        p_locate_track_layer(p, layer_id.0) is Ok ==>
            !track_keys(p.track_layers[p_locate_track_layer(p, layer_id.0)->Ok_0].tracks).contains(track_id.0),
    ensures
        ({
            let c = CommandV::CreateEmptyTrack { layer_id, track_id, name };
            let (p1, r) = apply_spec(c, p);
            r is Ok ==> apply_spec(reverse_spec(c, p), p1) == (p, Ok::<(), CommandError>(()))
        }),
{
    law_add_track_round_trip(p, layer_id, crate::layers::empty_track(track_id, name));
    reveal(apply_spec);
    reveal(reverse_spec);
}

/// Undoing the deletion of a track brings the track back whole, with all its
/// segments and points, at the end of its layer; the other tracks keep their
/// order.
pub proof fn law_deleted_track_comes_back_whole(p: ProjectV, layer_id: LayerId, track_id: TrackId)
    ensures
        ({
            let c = CommandV::DeleteTrack { layer_id, track_id };
            let (p1, r) = apply_spec(c, p);
            let (p2, r2) = apply_spec(reverse_spec(c, p), p1);
            r is Ok ==> {
                let (li, ti) = p_locate_track(p, layer_id.0, track_id.0)->Ok_0;
                &&& r2 is Ok
                &&& p2.track_layers[li].tracks == p.track_layers[li].tracks.remove(ti).push(p.track_layers[li].tracks[ti])
                &&& p2 == p_set_track_layer(p, li, TrackLayerV { tracks: p2.track_layers[li].tracks, ..p.track_layers[li] })
            }
        }),
{
    reveal(apply_spec);
    reveal(reverse_spec);
    let c = CommandV::DeleteTrack { layer_id, track_id };
    let (p1, r) = apply_spec(c, p);
    if r is Ok {
        let (li, ti) = p_locate_track(p, layer_id.0, track_id.0)->Ok_0;
        let l0 = p.track_layers[li];
        let l1 = TrackLayerV { tracks: l0.tracks.remove(ti), ..l0 };
        assert(p1 == p_set_track_layer(p, li, l1));
        assert(track_layer_keys(p1.track_layers) =~= track_layer_keys(p.track_layers));
        assert(p1.track_layers[li] == l1);
        let l2 = TrackLayerV { tracks: l1.tracks.push(l0.tracks[ti]), ..l1 };
        let (p2, r2) = apply_spec(reverse_spec(c, p), p1);
        assert(p2 == p_set_track_layer(p1, li, l2));
        assert(p2.track_layers =~= p_set_track_layer(p, li, TrackLayerV { tracks: p2.track_layers[li].tracks, ..p.track_layers[li] }).track_layers);
    }
}

/// Undoing the deletion of a mark brings the mark back whole, with every
/// field it had, at the end of its layer; the other marks keep their order.
pub proof fn law_deleted_waypoint_comes_back_whole(p: ProjectV, layer_id: LayerId, waypoint_id: WaypointId)
    ensures
        ({
            let c = CommandV::DeleteWaypoint { layer_id, waypoint_id };
            let (p1, r) = apply_spec(c, p);
            let (p2, r2) = apply_spec(reverse_spec(c, p), p1);
            r is Ok ==> {
                let (li, wi) = p_locate_waypoint(p, layer_id.0, waypoint_id.0)->Ok_0;
                &&& r2 is Ok
                &&& p2.waypoint_layers[li].waypoints == p.waypoint_layers[li].waypoints.remove(wi).push(p.waypoint_layers[li].waypoints[wi])
                &&& p2 == p_set_waypoint_layer(p, li, WaypointLayerV { waypoints: p2.waypoint_layers[li].waypoints, ..p.waypoint_layers[li] })
            }
        }),
{
    reveal(apply_spec);
    reveal(reverse_spec);
    let c = CommandV::DeleteWaypoint { layer_id, waypoint_id };
    let (p1, r) = apply_spec(c, p);
    if r is Ok {
        let (li, wi) = p_locate_waypoint(p, layer_id.0, waypoint_id.0)->Ok_0;
        let l0 = p.waypoint_layers[li];
        let l1 = WaypointLayerV { waypoints: l0.waypoints.remove(wi), ..l0 };
        assert(p1 == p_set_waypoint_layer(p, li, l1));
        assert(waypoint_layer_keys(p1.waypoint_layers) =~= waypoint_layer_keys(p.waypoint_layers));
        assert(p1.waypoint_layers[li] == l1);
        let l2 = WaypointLayerV { waypoints: l1.waypoints.push(l0.waypoints[wi]), ..l1 };
        let (p2, r2) = apply_spec(reverse_spec(c, p), p1);
        assert(p2 == p_set_waypoint_layer(p1, li, l2));
        assert(p2.waypoint_layers =~= p_set_waypoint_layer(p, li, WaypointLayerV { waypoints: p2.waypoint_layers[li].waypoints, ..p.waypoint_layers[li] }).waypoint_layers);
    }
}

/// Undoing the removal of a map layer puts the layer back, with the file it
/// was opened from, as the command holds it.
pub proof fn law_removed_map_layer_comes_back_whole(p: ProjectV, layer: crate::layers::MapLayerV)
    ensures
        ({
            let c = CommandV::RemoveMapLayer { layer };
            let (p1, r) = apply_spec(c, p);
            let (p2, r2) = apply_spec(reverse_spec(c, p), p1);
            &&& r is Ok
            &&& r2 is Ok
            &&& p2.map_layers == p1.map_layers.push(layer)
        }),
{
    reveal(apply_spec);
    reveal(reverse_spec);
}

} // verus!

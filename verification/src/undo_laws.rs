use vstd::prelude::*;
use crate::command::{CommandError, CommandV};
use crate::command_apply::apply_spec;
use crate::command_reverse::reverse_spec;
use crate::index::first_index;
use crate::history::{MAX_STACK_DEPTH, StackV, stack_apply, stack_redo, stack_undo, stack_wf};
use crate::laws::{
    law_redo_after_undo, law_undo_after_apply,
    law_add_map_layer_round_trip, law_add_map_layer_with_source_round_trip, law_add_track_layer_round_trip, law_add_track_round_trip, law_add_waypoint_layer_round_trip, law_add_waypoint_round_trip, law_create_empty_track_round_trip, law_delete_last_track_round_trip, law_delete_last_waypoint_round_trip, law_delete_track_point_round_trip, law_insert_track_point_round_trip, law_move_track_point_round_trip, law_move_waypoint_round_trip, law_rename_track_layer_round_trip, law_rename_track_round_trip, law_rename_waypoint_layer_round_trip, law_rename_waypoint_round_trip, law_split_join_round_trip, law_waypoint_attachments_round_trip, law_waypoint_colour_round_trip, law_waypoint_description_round_trip, law_waypoint_symbol_round_trip, points_fit,
};
use crate::layers::{track_keys, waypoint_keys};
use crate::project::{
    ProjectV, map_layer_keys, p_locate_segment, p_locate_track, p_locate_track_layer, p_locate_waypoint,
    p_locate_waypoint_layer, p_segment, track_layer_keys, waypoint_layer_keys,
};
use crate::removal_laws::{keys_distinct, law_crop_round_trip, law_simplify_round_trip, placed_in, unique_points, unique_track};
use crate::reorder_laws::{distinct_points, law_track_reorder_round_trip};
use crate::track::{TrackV, point_keys, segment_keys};

verus! {

/// Every segment of every track can be indexed by a `usize`, and no two
/// points of a segment share an id.
pub open spec fn sound_project(p: ProjectV) -> bool {
    &&& points_fit(p)
    &&& forall|li: int, ti: int| 0 <= li < p.track_layers.len() && 0 <= ti < p.track_layers[li].tracks.len()
            ==> unique_track(#[trigger] p.track_layers[li].tracks[ti])
}

/// What a command records about the project it is applied to is so: an id
/// it adds is not in use, an old value it holds is the current one, and the
/// points a simplification lists are where it says. A deletion of a track or
/// mark is undone exactly only when it was the last of its layer, since undo
/// puts it back at the end. Commands that only undo others are not covered.
pub open spec fn records_truly(c: CommandV, p: ProjectV) -> bool {
    match c {
        CommandV::AddMapLayer { id, .. } => !map_layer_keys(p.map_layers).contains(id.0),
        CommandV::AddMapLayerWithSource { id, .. } => !map_layer_keys(p.map_layers).contains(id.0),
        CommandV::AddTrackLayer { id, .. } => !track_layer_keys(p.track_layers).contains(id.0),
        CommandV::AddWaypointLayer { id, .. } => !waypoint_layer_keys(p.waypoint_layers).contains(id.0),
        CommandV::AddTrack { layer_id, track } => p_locate_track_layer(p, layer_id.0) is Ok ==>
            !track_keys(p.track_layers[p_locate_track_layer(p, layer_id.0)->Ok_0].tracks).contains(track.id.0),
        CommandV::AddWaypoint { layer_id, waypoint } => p_locate_waypoint_layer(p, layer_id.0) is Ok ==>
            !waypoint_keys(p.waypoint_layers[p_locate_waypoint_layer(p, layer_id.0)->Ok_0].waypoints).contains(waypoint.id.0),
        CommandV::MoveWaypoint { .. } => true,
        CommandV::MoveTrackPoint { layer_id, track_id, segment_id, point_id, old_lat, old_lon, .. } =>
            p_locate_segment(p, layer_id.0, track_id.0, segment_id.0) is Ok ==> {
                let (li, ti, si) = p_locate_segment(p, layer_id.0, track_id.0, segment_id.0)->Ok_0;
                let pts = p_segment(p, li, ti, si).points;
                first_index(point_keys(pts), point_id.0) is Some ==> {
                    let k = first_index(point_keys(pts), point_id.0)->Some_0;
                    pts[k].latitude == old_lat && pts[k].longitude == old_lon
                }
            },
        CommandV::DeleteTrackPoint { .. } => true,
        CommandV::InsertTrackPoint { layer_id, track_id, segment_id, point, .. } =>
            p_locate_segment(p, layer_id.0, track_id.0, segment_id.0) is Ok ==> {
                let (li, ti, si) = p_locate_segment(p, layer_id.0, track_id.0, segment_id.0)->Ok_0;
                !point_keys(p_segment(p, li, ti, si).points).contains(point.id.0)
            },
        CommandV::SplitSegment { layer_id, track_id, new_segment_id, .. } =>
            p_locate_track(p, layer_id.0, track_id.0) is Ok ==> {
                let (li, ti) = p_locate_track(p, layer_id.0, track_id.0)->Ok_0;
                !segment_keys(p.track_layers[li].tracks[ti].segments).contains(new_segment_id.0)
            },
        CommandV::ReorderTrackPoints { .. } => true,
        CommandV::CropTrackPoints { .. } => true,
        CommandV::DeleteTrack { layer_id, track_id } => p_locate_track(p, layer_id.0, track_id.0) is Ok ==> {
            let (li, ti) = p_locate_track(p, layer_id.0, track_id.0)->Ok_0;
            ti == p.track_layers[li].tracks.len() - 1
        },
        CommandV::DeleteWaypoint { layer_id, waypoint_id } => p_locate_waypoint(p, layer_id.0, waypoint_id.0) is Ok ==> {
            let (li, wi) = p_locate_waypoint(p, layer_id.0, waypoint_id.0)->Ok_0;
            wi == p.waypoint_layers[li].waypoints.len() - 1
        },
        CommandV::RenameWaypoint { layer_id, waypoint_id, old_name, .. } => p_locate_waypoint(p, layer_id.0, waypoint_id.0) is Ok ==> {
            let (li, wi) = p_locate_waypoint(p, layer_id.0, waypoint_id.0)->Ok_0;
            p.waypoint_layers[li].waypoints[wi].name == old_name
        },
        CommandV::SetWaypointSymbol { layer_id, waypoint_id, old_symbol, .. } => p_locate_waypoint(p, layer_id.0, waypoint_id.0) is Ok ==> {
            let (li, wi) = p_locate_waypoint(p, layer_id.0, waypoint_id.0)->Ok_0;
            p.waypoint_layers[li].waypoints[wi].symbol == old_symbol
        },
        CommandV::SetWaypointColor { layer_id, waypoint_id, old_color, .. } => p_locate_waypoint(p, layer_id.0, waypoint_id.0) is Ok ==> {
            let (li, wi) = p_locate_waypoint(p, layer_id.0, waypoint_id.0)->Ok_0;
            p.waypoint_layers[li].waypoints[wi].color == old_color
        },
        CommandV::SetWaypointDescription { layer_id, waypoint_id, old_description, .. } => p_locate_waypoint(p, layer_id.0, waypoint_id.0) is Ok ==> {
            let (li, wi) = p_locate_waypoint(p, layer_id.0, waypoint_id.0)->Ok_0;
            p.waypoint_layers[li].waypoints[wi].description == crate::waypoint::normalised_description(old_description)
        },
        CommandV::SetWaypointAttachments { layer_id, waypoint_id, old_attachments, .. } => p_locate_waypoint(p, layer_id.0, waypoint_id.0) is Ok ==> {
            let (li, wi) = p_locate_waypoint(p, layer_id.0, waypoint_id.0)->Ok_0;
            p.waypoint_layers[li].waypoints[wi].attachments == crate::waypoint::cleaned_attachments(old_attachments)
        },
        CommandV::SimplifyTrack { layer_id, track_id, removed, .. } => p_locate_track(p, layer_id.0, track_id.0) is Ok ==> {
            let (li, ti) = p_locate_track(p, layer_id.0, track_id.0)->Ok_0;
            &&& keys_distinct(removed)
            &&& forall|a: int| 0 <= a < removed.len() ==> placed_in(p.track_layers[li].tracks[ti], #[trigger] removed[a])
        },
        CommandV::RenameTrack { .. } => true,
        CommandV::RenameTrackLayer { layer_id, old_name, .. } =>
            p_locate_track_layer(p, layer_id.0) is Ok ==> p.track_layers[p_locate_track_layer(p, layer_id.0)->Ok_0].name == old_name,
        CommandV::RenameWaypointLayer { layer_id, old_name, .. } =>
            p_locate_waypoint_layer(p, layer_id.0) is Ok ==> p.waypoint_layers[p_locate_waypoint_layer(p, layer_id.0)->Ok_0].name == old_name,
        CommandV::CreateEmptyTrack { layer_id, track_id, .. } => p_locate_track_layer(p, layer_id.0) is Ok ==>
            !track_keys(p.track_layers[p_locate_track_layer(p, layer_id.0)->Ok_0].tracks).contains(track_id.0),
        _ => false,
    }
}

proof fn lemma_located_track(p: ProjectV, l: u64, t: u64)
    requires
        p_locate_track(p, l, t) is Ok,
    ensures
        ({
            let (li, ti) = p_locate_track(p, l, t)->Ok_0;
            0 <= li < p.track_layers.len() && 0 <= ti < p.track_layers[li].tracks.len()
        }),
{
    assert(exists|i: int| crate::index::is_first(track_layer_keys(p.track_layers), l, i));
    let li = p_locate_track_layer(p, l)->Ok_0;
    assert(exists|i: int| crate::index::is_first(track_keys(p.track_layers[li].tracks), t, i));
}

proof fn lemma_unique_is_distinct(t: TrackV)
    requires
        unique_track(t),
    ensures
        distinct_points(t),
{
    assert forall|si: int| 0 <= si < t.segments.len() implies point_keys((#[trigger] t.segments[si]).points).no_duplicates() by {
        let pts = t.segments[si].points;
        assert(unique_points(pts));
        assert forall|a: int, b: int| 0 <= a < pts.len() && 0 <= b < pts.len() && a != b implies point_keys(pts)[a] != point_keys(pts)[b] by {
            assert(pts[a].id != pts[b].id);
        }
    }
}

/// Applying a command that records the project truly, and then the reverse
/// read off the project before it, leaves the project as it was: undo
/// restores the state, for every kind of edit the application issues.
pub proof fn law_undo_restores_the_project(p: ProjectV, c: CommandV)
    requires
        sound_project(p),
        records_truly(c, p),
    ensures
        ({
            let (p1, r) = apply_spec(c, p);
            r is Ok ==> apply_spec(reverse_spec(c, p), p1) == (p, Ok::<(), CommandError>(()))
        }),
{
    match c {
        CommandV::AddMapLayer { id, name } => law_add_map_layer_round_trip(p, id, name),
        CommandV::AddMapLayerWithSource { id, name, source_path } => law_add_map_layer_with_source_round_trip(p, id, name, source_path),
        CommandV::AddTrackLayer { id, name } => law_add_track_layer_round_trip(p, id, name),
        CommandV::AddWaypointLayer { id, name } => law_add_waypoint_layer_round_trip(p, id, name),
        CommandV::AddTrack { layer_id, track } => law_add_track_round_trip(p, layer_id, track),
        CommandV::AddWaypoint { layer_id, waypoint } => law_add_waypoint_round_trip(p, layer_id, waypoint),
        CommandV::MoveWaypoint { layer_id, waypoint_id, latitude, longitude } =>
            law_move_waypoint_round_trip(p, layer_id, waypoint_id, latitude, longitude),
        CommandV::MoveTrackPoint { layer_id, track_id, segment_id, point_id, lat, lon, old_lat, old_lon } =>
            law_move_track_point_round_trip(p, layer_id, track_id, segment_id, point_id, lat, lon, old_lat, old_lon),
        CommandV::DeleteTrackPoint { layer_id, track_id, segment_id, point_id, removed_index, removed_point } =>
            law_delete_track_point_round_trip(p, layer_id, track_id, segment_id, point_id, removed_index, removed_point),
        CommandV::InsertTrackPoint { layer_id, track_id, segment_id, index, point } =>
            law_insert_track_point_round_trip(p, layer_id, track_id, segment_id, index, point),
        CommandV::SplitSegment { layer_id, track_id, segment_id, point_id, new_segment_id } =>
            law_split_join_round_trip(p, layer_id, track_id, segment_id, point_id, new_segment_id),
        CommandV::ReorderTrackPoints { layer_id, track_id, order } => {
            if p_locate_track(p, layer_id.0, track_id.0) is Ok {
                lemma_located_track(p, layer_id.0, track_id.0);
                let (li, ti) = p_locate_track(p, layer_id.0, track_id.0)->Ok_0;
                lemma_unique_is_distinct(p.track_layers[li].tracks[ti]);
            }
            law_track_reorder_round_trip(p, layer_id, track_id, order);
        },
        CommandV::CropTrackPoints { layer_id, track_id, points } => {
            if p_locate_track(p, layer_id.0, track_id.0) is Ok {
                lemma_located_track(p, layer_id.0, track_id.0);
            }
            law_crop_round_trip(p, layer_id, track_id, points);
        },
        CommandV::DeleteTrack { layer_id, track_id } => law_delete_last_track_round_trip(p, layer_id, track_id),
        CommandV::DeleteWaypoint { layer_id, waypoint_id } => law_delete_last_waypoint_round_trip(p, layer_id, waypoint_id),
        CommandV::RenameWaypoint { layer_id, waypoint_id, old_name, new_name } =>
            law_rename_waypoint_round_trip(p, layer_id, waypoint_id, old_name, new_name),
        CommandV::SetWaypointSymbol { layer_id, waypoint_id, old_symbol, new_symbol } =>
            law_waypoint_symbol_round_trip(p, layer_id, waypoint_id, old_symbol, new_symbol),
        CommandV::SetWaypointColor { layer_id, waypoint_id, old_color, new_color } =>
            law_waypoint_colour_round_trip(p, layer_id, waypoint_id, old_color, new_color),
        CommandV::SetWaypointDescription { layer_id, waypoint_id, old_description, new_description } =>
            law_waypoint_description_round_trip(p, layer_id, waypoint_id, old_description, new_description),
        CommandV::SetWaypointAttachments { layer_id, waypoint_id, old_attachments, new_attachments } =>
            law_waypoint_attachments_round_trip(p, layer_id, waypoint_id, old_attachments, new_attachments),
        CommandV::SimplifyTrack { layer_id, track_id, tolerance_km, removed } => {
            if p_locate_track(p, layer_id.0, track_id.0) is Ok {
                lemma_located_track(p, layer_id.0, track_id.0);
            }
            law_simplify_round_trip(p, layer_id, track_id, tolerance_km, removed);
        },
        CommandV::RenameTrack { layer_id, track_id, old_name, new_name } =>
            law_rename_track_round_trip(p, layer_id, track_id, old_name, new_name),
        CommandV::RenameTrackLayer { layer_id, old_name, new_name } =>
            law_rename_track_layer_round_trip(p, layer_id, old_name, new_name),
        CommandV::RenameWaypointLayer { layer_id, old_name, new_name } =>
            law_rename_waypoint_layer_round_trip(p, layer_id, old_name, new_name),
        CommandV::CreateEmptyTrack { layer_id, track_id, name } =>
            law_create_empty_track_round_trip(p, layer_id, track_id, name),
        _ => {},
    }
}

/// Through the history, an edit that records the project truly can be
/// undone and redone: right after it lands, undo is done and gives the
/// project back as it was, keeping the older steps; redo then is done and
/// gives the edited project back, the history as it was after the edit but
/// for one more change counted, with a step left to undo.
pub proof fn law_undo_then_redo_through_history(s: StackV, c: CommandV, p: ProjectV)
    requires
        stack_wf(s),
        s.undo.len() < MAX_STACK_DEPTH,
        s.mutation_count + 3 <= u64::MAX,
        sound_project(p),
        records_truly(c, p),
    ensures
        ({
            let (s1, p1, r) = stack_apply(s, c, None, p);
            let (s2, p2, undone) = stack_undo(s1, p1);
            let (s3, p3, redone) = stack_redo(s2, p2);
            r is Ok ==> {
                &&& undone
                &&& p2 == p
                &&& s2.undo == s.undo
                &&& s2.mutation_count == s1.mutation_count + 1
                &&& redone
                &&& p3 == p1
                &&& s3 == StackV { mutation_count: (s2.mutation_count + 1) as u64, ..s1 }
                &&& s3.undo.len() > 0
            }
        }),
{
    law_undo_after_apply(s, c, p);
    law_undo_restores_the_project(p, c);
    let (s1, p1, r) = stack_apply(s, c, None, p);
    if r is Ok {
        let (s2, p2, undone) = stack_undo(s1, p1);
        assert(s1.undo.last().forward == c);
        law_redo_after_undo(s1, p1);
        assert(s1.redo.len() == 0);
    }
}

/// With nothing undone there is nothing to redo: redo is not done and
/// changes neither the history nor the project. Likewise undo with nothing
/// to undo.
pub proof fn law_nothing_to_redo(s: StackV, p: ProjectV)
    ensures
        s.redo.len() == 0 ==> stack_redo(s, p) == (s, p, false),
        s.undo.len() == 0 ==> stack_undo(s, p) == (s, p, false),
{
}

} // verus!

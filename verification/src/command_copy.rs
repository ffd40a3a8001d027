use vstd::prelude::*;
use crate::command::{CommandV, ProjectCommand};
use crate::command_reverse::{copy_pairs, copy_placed};
use crate::waypoint::{clone_opt_string, clone_strings};

verus! {

impl Clone for ProjectCommand {
    #[verifier::rlimit(50)]
    fn clone(&self) -> (c: Self)
        ensures
            c@ == self@,
    {
        match self {
            ProjectCommand::AddMapLayer { id, name } => ProjectCommand::AddMapLayer { id: *id, name: name.clone() },
            ProjectCommand::AddMapLayerWithSource { id, name, source_path } =>
                ProjectCommand::AddMapLayerWithSource { id: *id, name: name.clone(), source_path: source_path.clone() },
            ProjectCommand::AddTrackLayer { id, name } => ProjectCommand::AddTrackLayer { id: *id, name: name.clone() },
            ProjectCommand::AddWaypointLayer { id, name } => ProjectCommand::AddWaypointLayer { id: *id, name: name.clone() },
            ProjectCommand::AddTrack { layer_id, track } => ProjectCommand::AddTrack { layer_id: *layer_id, track: track.clone() },
            ProjectCommand::AddWaypoint { layer_id, waypoint } =>
                ProjectCommand::AddWaypoint { layer_id: *layer_id, waypoint: waypoint.clone() },
            ProjectCommand::MoveWaypoint { layer_id, waypoint_id, latitude, longitude } =>
                ProjectCommand::MoveWaypoint { layer_id: *layer_id, waypoint_id: *waypoint_id, latitude: *latitude, longitude: *longitude },
            ProjectCommand::MoveTrackPoint { layer_id, track_id, segment_id, point_id, lat, lon, old_lat, old_lon } =>
                ProjectCommand::MoveTrackPoint {
                    layer_id: *layer_id,
                    track_id: *track_id,
                    segment_id: *segment_id,
                    point_id: *point_id,
                    lat: *lat,
                    lon: *lon,
                    old_lat: *old_lat,
                    old_lon: *old_lon,
                },
            ProjectCommand::DeleteTrackPoint { layer_id, track_id, segment_id, point_id, removed_index, removed_point } =>
                ProjectCommand::DeleteTrackPoint {
                    layer_id: *layer_id,
                    track_id: *track_id,
                    segment_id: *segment_id,
                    point_id: *point_id,
                    removed_index: *removed_index,
                    removed_point: *removed_point,
                },
            ProjectCommand::InsertTrackPoint { layer_id, track_id, segment_id, index, point } =>
                ProjectCommand::InsertTrackPoint {
                    layer_id: *layer_id,
                    track_id: *track_id,
                    segment_id: *segment_id,
                    index: *index,
                    point: *point,
                },
            ProjectCommand::SplitSegment { layer_id, track_id, segment_id, point_id, new_segment_id } =>
                ProjectCommand::SplitSegment {
                    layer_id: *layer_id,
                    track_id: *track_id,
                    segment_id: *segment_id,
                    point_id: *point_id,
                    new_segment_id: *new_segment_id,
                },
            ProjectCommand::JoinSegments { layer_id, track_id, segment_id_a, segment_id_b } =>
                ProjectCommand::JoinSegments {
                    layer_id: *layer_id,
                    track_id: *track_id,
                    segment_id_a: *segment_id_a,
                    segment_id_b: *segment_id_b,
                },
            ProjectCommand::ReorderTrackPoints { layer_id, track_id, order } =>
                ProjectCommand::ReorderTrackPoints { layer_id: *layer_id, track_id: *track_id, order: copy_pairs(order) },
            ProjectCommand::CropTrackPoints { layer_id, track_id, points } =>
                ProjectCommand::CropTrackPoints { layer_id: *layer_id, track_id: *track_id, points: copy_pairs(points) },
            ProjectCommand::DeleteTrack { layer_id, track_id } => ProjectCommand::DeleteTrack { layer_id: *layer_id, track_id: *track_id },
            ProjectCommand::DeleteWaypoint { layer_id, waypoint_id } =>
                ProjectCommand::DeleteWaypoint { layer_id: *layer_id, waypoint_id: *waypoint_id },
            ProjectCommand::RenameWaypoint { layer_id, waypoint_id, old_name, new_name } =>
                ProjectCommand::RenameWaypoint {
                    layer_id: *layer_id,
                    waypoint_id: *waypoint_id,
                    old_name: old_name.clone(),
                    new_name: new_name.clone(),
                },
            ProjectCommand::SetWaypointSymbol { layer_id, waypoint_id, old_symbol, new_symbol } =>
                ProjectCommand::SetWaypointSymbol {
                    layer_id: *layer_id,
                    waypoint_id: *waypoint_id,
                    old_symbol: clone_opt_string(old_symbol),
                    new_symbol: clone_opt_string(new_symbol),
                },
            ProjectCommand::SetWaypointColor { layer_id, waypoint_id, old_color, new_color } =>
                ProjectCommand::SetWaypointColor {
                    layer_id: *layer_id,
                    waypoint_id: *waypoint_id,
                    old_color: *old_color,
                    new_color: *new_color,
                },
            ProjectCommand::SetWaypointDescription { layer_id, waypoint_id, old_description, new_description } =>
                ProjectCommand::SetWaypointDescription {
                    layer_id: *layer_id,
                    waypoint_id: *waypoint_id,
                    old_description: clone_opt_string(old_description),
                    new_description: clone_opt_string(new_description),
                },
            ProjectCommand::SetWaypointAttachments { layer_id, waypoint_id, old_attachments, new_attachments } =>
                ProjectCommand::SetWaypointAttachments {
                    layer_id: *layer_id,
                    waypoint_id: *waypoint_id,
                    old_attachments: clone_strings(old_attachments),
                    new_attachments: clone_strings(new_attachments),
                },
            ProjectCommand::SimplifyTrack { layer_id, track_id, tolerance_km, removed } =>
                ProjectCommand::SimplifyTrack {
                    layer_id: *layer_id,
                    track_id: *track_id,
                    tolerance_km: *tolerance_km,
                    removed: copy_placed(removed),
                },
            ProjectCommand::RestoreTrackPoints { layer_id, track_id, points } =>
                ProjectCommand::RestoreTrackPoints { layer_id: *layer_id, track_id: *track_id, points: copy_placed(points) },
            ProjectCommand::RenameTrack { layer_id, track_id, old_name, new_name } =>
                ProjectCommand::RenameTrack {
                    layer_id: *layer_id,
                    track_id: *track_id,
                    old_name: old_name.clone(),
                    new_name: new_name.clone(),
                },
            ProjectCommand::RemoveMapLayer { layer } => ProjectCommand::RemoveMapLayer { layer: layer.clone() },
            ProjectCommand::RemoveTrackLayer { layer } => ProjectCommand::RemoveTrackLayer { layer: layer.clone() },
            ProjectCommand::RemoveWaypointLayer { layer } => ProjectCommand::RemoveWaypointLayer { layer: layer.clone() },
            ProjectCommand::RestoreTrackLayer { layer } => ProjectCommand::RestoreTrackLayer { layer: layer.clone() },
            ProjectCommand::RestoreWaypointLayer { layer } => ProjectCommand::RestoreWaypointLayer { layer: layer.clone() },
            ProjectCommand::RenameTrackLayer { layer_id, old_name, new_name } =>
                ProjectCommand::RenameTrackLayer { layer_id: *layer_id, old_name: old_name.clone(), new_name: new_name.clone() },
            ProjectCommand::RenameWaypointLayer { layer_id, old_name, new_name } =>
                ProjectCommand::RenameWaypointLayer { layer_id: *layer_id, old_name: old_name.clone(), new_name: new_name.clone() },
            ProjectCommand::RemoveTrack { layer_id, track } => ProjectCommand::RemoveTrack { layer_id: *layer_id, track: track.clone() },
            ProjectCommand::RemoveWaypoint { layer_id, waypoint } =>
                ProjectCommand::RemoveWaypoint { layer_id: *layer_id, waypoint: waypoint.clone() },
            ProjectCommand::CreateEmptyTrack { layer_id, track_id, name } =>
                ProjectCommand::CreateEmptyTrack { layer_id: *layer_id, track_id: *track_id, name: name.clone() },
        }
    }
}

/// Two commands edit the same thing: the same new layer, the same added
/// track or mark, the same dragged mark or point, or the same renamed track.
/// Only such commands can merge into one undo step.
pub open spec fn same_entity(a: CommandV, b: CommandV) -> bool {
    match (a, b) {
        (CommandV::AddMapLayer { id: x, .. }, CommandV::AddMapLayer { id: y, .. }) => x == y,
        (CommandV::AddMapLayerWithSource { id: x, .. }, CommandV::AddMapLayerWithSource { id: y, .. }) => x == y,
        (CommandV::AddTrackLayer { id: x, .. }, CommandV::AddTrackLayer { id: y, .. }) => x == y,
        (CommandV::AddWaypointLayer { id: x, .. }, CommandV::AddWaypointLayer { id: y, .. }) => x == y,
        (CommandV::AddTrack { layer_id: l1, track: t1 }, CommandV::AddTrack { layer_id: l2, track: t2 }) =>
            l1 == l2 && t1.id == t2.id,
        (CommandV::AddWaypoint { layer_id: l1, waypoint: w1 }, CommandV::AddWaypoint { layer_id: l2, waypoint: w2 }) =>
            l1 == l2 && w1.id == w2.id,
        (CommandV::MoveWaypoint { layer_id: l1, waypoint_id: w1, .. }, CommandV::MoveWaypoint { layer_id: l2, waypoint_id: w2, .. }) =>
            l1 == l2 && w1 == w2,
        (
            CommandV::MoveTrackPoint { layer_id: l1, track_id: t1, segment_id: s1, point_id: p1, .. },
            CommandV::MoveTrackPoint { layer_id: l2, track_id: t2, segment_id: s2, point_id: p2, .. },
        ) => l1 == l2 && t1 == t2 && s1 == s2 && p1 == p2,
        (CommandV::RenameTrack { layer_id: l1, track_id: t1, .. }, CommandV::RenameTrack { layer_id: l2, track_id: t2, .. }) =>
            l1 == l2 && t1 == t2,
        _ => false,
    }
}

impl ProjectCommand {
    pub fn targets_same_entity(&self, other: &ProjectCommand) -> (b: bool)
        ensures
            b == same_entity(self@, other@),
    {
        match (self, other) {
            (ProjectCommand::AddMapLayer { id: x, .. }, ProjectCommand::AddMapLayer { id: y, .. }) => x.0 == y.0,
            (ProjectCommand::AddMapLayerWithSource { id: x, .. }, ProjectCommand::AddMapLayerWithSource { id: y, .. }) => x.0 == y.0,
            (ProjectCommand::AddTrackLayer { id: x, .. }, ProjectCommand::AddTrackLayer { id: y, .. }) => x.0 == y.0,
            (ProjectCommand::AddWaypointLayer { id: x, .. }, ProjectCommand::AddWaypointLayer { id: y, .. }) => x.0 == y.0,
            (ProjectCommand::AddTrack { layer_id: l1, track: t1 }, ProjectCommand::AddTrack { layer_id: l2, track: t2 }) =>
                l1.0 == l2.0 && t1.id.0 == t2.id.0,
            (ProjectCommand::AddWaypoint { layer_id: l1, waypoint: w1 }, ProjectCommand::AddWaypoint { layer_id: l2, waypoint: w2 }) =>
                l1.0 == l2.0 && w1.id.0 == w2.id.0,
            (
                ProjectCommand::MoveWaypoint { layer_id: l1, waypoint_id: w1, .. },
                ProjectCommand::MoveWaypoint { layer_id: l2, waypoint_id: w2, .. },
            ) => l1.0 == l2.0 && w1.0 == w2.0,
            (
                ProjectCommand::MoveTrackPoint { layer_id: l1, track_id: t1, segment_id: s1, point_id: p1, .. },
                ProjectCommand::MoveTrackPoint { layer_id: l2, track_id: t2, segment_id: s2, point_id: p2, .. },
            ) => l1.0 == l2.0 && t1.0 == t2.0 && s1.0 == s2.0 && p1.0 == p2.0,
            (
                ProjectCommand::RenameTrack { layer_id: l1, track_id: t1, .. },
                ProjectCommand::RenameTrack { layer_id: l2, track_id: t2, .. },
            ) => l1.0 == l2.0 && t1.0 == t2.0,
            _ => false,
        }
    }
}

} // verus!

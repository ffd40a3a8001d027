use vstd::prelude::*;
use crate::bulk_edit::{p_crop, p_reorder, p_restore, remove_listed};
use crate::command::{CommandError, CommandV, ProjectCommand};
use crate::error::ProjectLayerError;
use crate::layers::{MapLayer, MapLayerV, TrackLayerV, WaypointLayerV, empty_track};
use crate::project::{
    Project, ProjectV, p_add_track, p_add_waypoint, p_edit_track, p_edit_waypoint, p_insert_point,
    p_join_segments, p_move_point, p_remove_point, p_remove_track, p_remove_waypoint,
    p_rename_track_layer, p_rename_waypoint_layer, p_split_insert, track_renamed, waypoint_colour,
    waypoint_attached, waypoint_described, waypoint_moved, waypoint_renamed, waypoint_symbol,
};
use crate::project_layers::{p_remove_map_layer, p_remove_track_layer, p_remove_waypoint_layer};
use crate::waypoint::{clone_opt_string, clone_strings};

verus! {

/// A project-level outcome as a command reports it.
pub open spec fn lift<T>(x: (ProjectV, Result<T, ProjectLayerError>)) -> (ProjectV, Result<(), CommandError>) {
    (x.0, match x.1 {
        Ok(_) => Ok(()),
        Err(e) => Err(CommandError::ProjectLayer(e)),
    })
}

/// What applying a command does to a project, and what it answers.
#[verifier::opaque]
pub open spec fn apply_spec(c: CommandV, p: ProjectV) -> (ProjectV, Result<(), CommandError>) {
    match c {
        CommandV::AddMapLayer { id, name } =>
            (ProjectV { map_layers: p.map_layers.push(MapLayerV { id, name, source_path: None }), ..p }, Ok(())),
        CommandV::AddMapLayerWithSource { id, name, source_path } =>
            (ProjectV { map_layers: p.map_layers.push(MapLayerV { id, name, source_path: Some(source_path) }), ..p }, Ok(())),
        CommandV::AddTrackLayer { id, name } =>
            (ProjectV { track_layers: p.track_layers.push(TrackLayerV { id, name, tracks: Seq::empty() }), ..p }, Ok(())),
        CommandV::AddWaypointLayer { id, name } =>
            (ProjectV { waypoint_layers: p.waypoint_layers.push(WaypointLayerV { id, name, waypoints: Seq::empty() }), ..p }, Ok(())),
        CommandV::AddTrack { layer_id, track } => lift(p_add_track(p, layer_id.0, track)),
        CommandV::AddWaypoint { layer_id, waypoint } => lift(p_add_waypoint(p, layer_id.0, waypoint)),
        CommandV::MoveWaypoint { layer_id, waypoint_id, latitude, longitude } =>
            lift(p_edit_waypoint(p, layer_id.0, waypoint_id.0, waypoint_moved(latitude, longitude))),
        CommandV::MoveTrackPoint { layer_id, track_id, segment_id, point_id, lat, lon, .. } =>
            lift(p_move_point(p, layer_id.0, track_id.0, segment_id.0, point_id.0, lat, lon)),
        CommandV::DeleteTrackPoint { layer_id, track_id, segment_id, point_id, .. } =>
            lift(p_remove_point(p, layer_id.0, track_id.0, segment_id.0, point_id.0)),
        CommandV::InsertTrackPoint { layer_id, track_id, segment_id, index, point } =>
            lift(p_insert_point(p, layer_id.0, track_id.0, segment_id.0, index, point)),
        CommandV::SplitSegment { layer_id, track_id, segment_id, point_id, new_segment_id } =>
            lift(p_split_insert(p, layer_id.0, track_id.0, segment_id.0, point_id.0, new_segment_id)),
        CommandV::JoinSegments { layer_id, track_id, segment_id_a, segment_id_b } =>
            lift(p_join_segments(p, layer_id.0, track_id.0, segment_id_a.0, segment_id_b.0)),
        CommandV::ReorderTrackPoints { layer_id, track_id, order } => lift(p_reorder(p, layer_id.0, track_id.0, order)),
        CommandV::CropTrackPoints { layer_id, track_id, points } => lift(p_crop(p, layer_id.0, track_id.0, points)),
        CommandV::DeleteTrack { layer_id, track_id } => lift(p_remove_track(p, layer_id.0, track_id.0)),
        CommandV::DeleteWaypoint { layer_id, waypoint_id } => lift(p_remove_waypoint(p, layer_id.0, waypoint_id.0)),
        CommandV::RenameWaypoint { layer_id, waypoint_id, new_name, .. } =>
            lift(p_edit_waypoint(p, layer_id.0, waypoint_id.0, waypoint_renamed(new_name))),
        CommandV::SetWaypointSymbol { layer_id, waypoint_id, new_symbol, .. } =>
            lift(p_edit_waypoint(p, layer_id.0, waypoint_id.0, waypoint_symbol(new_symbol))),
        CommandV::SetWaypointColor { layer_id, waypoint_id, new_color, .. } =>
            lift(p_edit_waypoint(p, layer_id.0, waypoint_id.0, waypoint_colour(new_color))),
        CommandV::SetWaypointDescription { layer_id, waypoint_id, new_description, .. } =>
            lift(p_edit_waypoint(p, layer_id.0, waypoint_id.0, waypoint_described(new_description))),
        CommandV::SetWaypointAttachments { layer_id, waypoint_id, new_attachments, .. } =>
            lift(p_edit_waypoint(p, layer_id.0, waypoint_id.0, waypoint_attached(new_attachments))),
        CommandV::SimplifyTrack { layer_id, track_id, removed, .. } => lift(remove_listed(p, layer_id.0, track_id.0, removed)),
        CommandV::RestoreTrackPoints { layer_id, track_id, points } => lift(p_restore(p, layer_id.0, track_id.0, points)),
        CommandV::RenameTrack { layer_id, track_id, new_name, .. } =>
            (p_edit_track(p, layer_id.0, track_id.0, track_renamed(new_name)).0, Ok(())),
        CommandV::RemoveMapLayer { layer } => (p_remove_map_layer(p, layer.id).0, Ok(())),
        CommandV::RemoveTrackLayer { layer } => (p_remove_track_layer(p, layer.id).0, Ok(())),
        CommandV::RemoveWaypointLayer { layer } => (p_remove_waypoint_layer(p, layer.id).0, Ok(())),
        CommandV::RestoreTrackLayer { layer } => (ProjectV { track_layers: p.track_layers.push(layer), ..p }, Ok(())),
        CommandV::RestoreWaypointLayer { layer } => (ProjectV { waypoint_layers: p.waypoint_layers.push(layer), ..p }, Ok(())),
        CommandV::RenameTrackLayer { layer_id, new_name, .. } => lift(p_rename_track_layer(p, layer_id.0, new_name)),
        CommandV::RenameWaypointLayer { layer_id, new_name, .. } => lift(p_rename_waypoint_layer(p, layer_id.0, new_name)),
        CommandV::RemoveTrack { layer_id, track } => lift(p_remove_track(p, layer_id.0, track.id.0)),
        CommandV::RemoveWaypoint { layer_id, waypoint } => lift(p_remove_waypoint(p, layer_id.0, waypoint.id.0)),
        CommandV::CreateEmptyTrack { layer_id, track_id, name } => lift(p_add_track(p, layer_id.0, empty_track(track_id, name))),
    }
}

/// What adding a track layer does.
pub proof fn lemma_apply_add_track_layer(p: ProjectV, id: crate::ids::LayerId, name: Seq<char>)
    ensures
        apply_spec(CommandV::AddTrackLayer { id, name }, p)
            == (ProjectV { track_layers: p.track_layers.push(TrackLayerV { id, name, tracks: Seq::empty() }), ..p }, Ok::<(), CommandError>(())),
{
    reveal(apply_spec);
}

/// What adding a map layer opened from a file does.
pub proof fn lemma_apply_add_map_layer_with_source(p: ProjectV, id: crate::ids::LayerId, name: Seq<char>, source_path: Seq<char>)
    ensures
        apply_spec(CommandV::AddMapLayerWithSource { id, name, source_path }, p)
            == (ProjectV { map_layers: p.map_layers.push(MapLayerV { id, name, source_path: Some(source_path) }), ..p }, Ok::<(), CommandError>(())),
{
    reveal(apply_spec);
}

/// What adding a waypoint layer does.
pub proof fn lemma_apply_add_waypoint_layer(p: ProjectV, id: crate::ids::LayerId, name: Seq<char>)
    ensures
        apply_spec(CommandV::AddWaypointLayer { id, name }, p)
            == (ProjectV { waypoint_layers: p.waypoint_layers.push(WaypointLayerV { id, name, waypoints: Seq::empty() }), ..p }, Ok::<(), CommandError>(())),
{
    reveal(apply_spec);
}

/// What adding a track does.
pub proof fn lemma_apply_add_track(p: ProjectV, layer_id: crate::ids::LayerId, track: crate::track::TrackV)
    ensures
        apply_spec(CommandV::AddTrack { layer_id, track }, p) == lift(p_add_track(p, layer_id.0, track)),
{
    reveal(apply_spec);
}

fn lifted<T>(r: Result<T, ProjectLayerError>) -> (c: Result<(), CommandError>)
    ensures
        c == (match r {
            Ok(_) => Ok::<(), CommandError>(()),
            Err(e) => Err(CommandError::ProjectLayer(e)),
        }),
{
    match r {
        Ok(_) => Ok(()),
        Err(e) => Err(CommandError::ProjectLayer(e)),
    }
}

impl ProjectCommand {
    /// Apply the command to the project; see `apply_spec`.
    #[verifier::rlimit(100)]
    #[verifier::spinoff_prover]
    pub fn apply(&self, project: &mut Project) -> (r: Result<(), CommandError>)
        ensures
            (final(project)@, r) == apply_spec(self@, old(project)@),
    {
        proof {
            reveal(apply_spec);
        }
        match self {
            ProjectCommand::AddMapLayer { id, name } => {
                project.add_map_layer(MapLayer::new(*id, name.as_str()));
                Ok(())
            },
            ProjectCommand::AddMapLayerWithSource { id, name, source_path } => {
                project.add_map_layer(MapLayer::with_source_path(*id, name.as_str(), Some(source_path.as_str())));
                Ok(())
            },
            ProjectCommand::AddTrackLayer { id, name } => {
                project.add_track_layer(crate::layers::TrackLayer::new(*id, name.as_str()));
                Ok(())
            },
            ProjectCommand::AddWaypointLayer { id, name } => {
                project.add_waypoint_layer(crate::layers::WaypointLayer::new(*id, name.as_str()));
                Ok(())
            },
            ProjectCommand::AddTrack { layer_id, track } => lifted(project.add_track_to_layer(*layer_id, track.clone())),
            ProjectCommand::AddWaypoint { layer_id, waypoint } => lifted(project.add_waypoint_to_layer(*layer_id, waypoint.clone())),
            ProjectCommand::MoveWaypoint { layer_id, waypoint_id, latitude, longitude } =>
                lifted(project.move_waypoint_in_layer(*layer_id, *waypoint_id, *latitude, *longitude)),
            ProjectCommand::MoveTrackPoint { layer_id, track_id, segment_id, point_id, lat, lon, .. } =>
                lifted(project.move_point_in_layer(layer_id.0, track_id.0, segment_id.0, point_id.0, *lat, *lon)),
            ProjectCommand::DeleteTrackPoint { layer_id, track_id, segment_id, point_id, .. } =>
                lifted(project.remove_point_from_layer(layer_id.0, track_id.0, segment_id.0, point_id.0)),
            ProjectCommand::InsertTrackPoint { layer_id, track_id, segment_id, index, point } =>
                lifted(project.insert_point_in_layer(layer_id.0, track_id.0, segment_id.0, *index, *point)),
            ProjectCommand::SplitSegment { layer_id, track_id, segment_id, point_id, new_segment_id } =>
                lifted(project.split_segment_with_id(layer_id.0, track_id.0, segment_id.0, point_id.0, *new_segment_id)),
            ProjectCommand::JoinSegments { layer_id, track_id, segment_id_a, segment_id_b } =>
                lifted(project.join_segments_in_layer(layer_id.0, track_id.0, segment_id_a.0, segment_id_b.0)),
            ProjectCommand::ReorderTrackPoints { layer_id, track_id, order } =>
                lifted(project.reorder_points_in_layer(layer_id.0, track_id.0, order)),
            ProjectCommand::CropTrackPoints { layer_id, track_id, points } =>
                lifted(project.crop_points_in_layer(layer_id.0, track_id.0, points)),
            ProjectCommand::DeleteTrack { layer_id, track_id } => lifted(project.remove_track_from_layer(*layer_id, *track_id)),
            ProjectCommand::DeleteWaypoint { layer_id, waypoint_id } =>
                lifted(project.remove_waypoint_from_layer(*layer_id, *waypoint_id)),
            ProjectCommand::RenameWaypoint { layer_id, waypoint_id, new_name, .. } =>
                lifted(project.rename_waypoint_in_layer(*layer_id, *waypoint_id, new_name.clone())),
            ProjectCommand::SetWaypointSymbol { layer_id, waypoint_id, new_symbol, .. } =>
                lifted(project.set_waypoint_symbol_in_layer(*layer_id, *waypoint_id, clone_opt_string(new_symbol))),
            ProjectCommand::SetWaypointColor { layer_id, waypoint_id, new_color, .. } =>
                lifted(project.set_waypoint_color_in_layer(*layer_id, *waypoint_id, *new_color)),
            ProjectCommand::SetWaypointDescription { layer_id, waypoint_id, new_description, .. } =>
                lifted(project.set_waypoint_description_in_layer(*layer_id, *waypoint_id, clone_opt_string(new_description))),
            ProjectCommand::SetWaypointAttachments { layer_id, waypoint_id, new_attachments, .. } =>
                lifted(project.set_waypoint_attachments_in_layer(*layer_id, *waypoint_id, clone_strings(new_attachments))),
            ProjectCommand::SimplifyTrack { layer_id, track_id, removed, .. } =>
                lifted(project.remove_listed_points(layer_id.0, track_id.0, removed)),
            ProjectCommand::RestoreTrackPoints { layer_id, track_id, points } =>
                lifted(project.restore_points(layer_id.0, track_id.0, points)),
            ProjectCommand::RenameTrack { layer_id, track_id, new_name, .. } => {
                let _ = project.rename_track_in_layer(layer_id.0, track_id.0, new_name.as_str());
                Ok(())
            },
            ProjectCommand::RemoveMapLayer { layer } => {
                let _ = project.remove_map_layer(layer.id);
                Ok(())
            },
            ProjectCommand::RemoveTrackLayer { layer } => {
                let _ = project.remove_track_layer(layer.id);
                Ok(())
            },
            ProjectCommand::RemoveWaypointLayer { layer } => {
                let _ = project.remove_waypoint_layer(layer.id);
                Ok(())
            },
            ProjectCommand::RestoreTrackLayer { layer } => {
                project.add_track_layer(layer.clone());
                Ok(())
            },
            ProjectCommand::RestoreWaypointLayer { layer } => {
                project.add_waypoint_layer(layer.clone());
                Ok(())
            },
            ProjectCommand::RenameTrackLayer { layer_id, new_name, .. } =>
                lifted(project.rename_track_layer(layer_id.0, new_name.clone())),
            ProjectCommand::RenameWaypointLayer { layer_id, new_name, .. } =>
                lifted(project.rename_waypoint_layer(layer_id.0, new_name.clone())),
            ProjectCommand::RemoveTrack { layer_id, track } => lifted(project.remove_track_from_layer(*layer_id, track.id)),
            ProjectCommand::RemoveWaypoint { layer_id, waypoint } =>
                lifted(project.remove_waypoint_from_layer(*layer_id, waypoint.id)),
            ProjectCommand::CreateEmptyTrack { layer_id, track_id, name } =>
                lifted(project.create_empty_track_in_layer(layer_id.0, *track_id, name.clone())),
        }
    }
}

} // verus!

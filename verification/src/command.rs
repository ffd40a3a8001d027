use vstd::prelude::*;
use crate::error::ProjectLayerError;
use crate::ids::{LayerId, TrackId, TrackPointId, TrackSegmentId, WaypointId};
use crate::layers::{MapLayer, MapLayerV, TrackLayer, TrackLayerV, WaypointLayer, WaypointLayerV};
use crate::track::{Track, TrackPoint, TrackV};
use crate::waypoint::{Waypoint, WaypointV, opt_str_view, strings_view};

verus! {

/// Why a command could not be applied.
#[derive(Debug, Clone, PartialEq)]
pub enum CommandError {
    ProjectLayer(ProjectLayerError),
}

impl From<ProjectLayerError> for CommandError {
    fn from(value: ProjectLayerError) -> (e: Self) {
        CommandError::ProjectLayer(value)
    }
}

impl vstd::std_specs::convert::FromSpecImpl<ProjectLayerError> for CommandError {
    open spec fn obeys_from_spec() -> bool {
        true
    }

    open spec fn from_spec(v: ProjectLayerError) -> Self {
        CommandError::ProjectLayer(v)
    }
}

/// Anything a name can be given as: a string slice or an owned string.
pub trait NameLike {
    spec fn name_view(&self) -> Seq<char>;

    fn into_name(self) -> (s: String)
        ensures
            s@ == self.name_view(),
    ;
}

impl<'a> NameLike for &'a str {
    open spec fn name_view(&self) -> Seq<char> {
        (*self)@
    }

    fn into_name(self) -> (s: String) {
        String::from_str(self)
    }
}

impl NameLike for String {
    open spec fn name_view(&self) -> Seq<char> {
        self@
    }

    fn into_name(self) -> (s: String) {
        self
    }
}

/// One undoable edit of a project.
///
/// Coordinates are the bit patterns of `f64` degrees, and the simplification
/// tolerance the bit pattern of its `f64` kilometres.
#[derive(Debug)]
#[allow(inconsistent_fields)]
pub enum ProjectCommand {
    AddMapLayer { id: LayerId, name: String },
    AddMapLayerWithSource { id: LayerId, name: String, source_path: String },
    AddTrackLayer { id: LayerId, name: String },
    AddWaypointLayer { id: LayerId, name: String },
    AddTrack { layer_id: LayerId, track: Track },
    AddWaypoint { layer_id: LayerId, waypoint: Waypoint },
    MoveWaypoint { layer_id: LayerId, waypoint_id: WaypointId, latitude: u64, longitude: u64 },
    MoveTrackPoint {
        layer_id: LayerId,
        track_id: TrackId,
        segment_id: TrackSegmentId,
        point_id: TrackPointId,
        lat: u64,
        lon: u64,
        old_lat: u64,
        old_lon: u64,
    },
    DeleteTrackPoint {
        layer_id: LayerId,
        track_id: TrackId,
        segment_id: TrackSegmentId,
        point_id: TrackPointId,
        removed_index: usize,
        removed_point: TrackPoint,
    },
    InsertTrackPoint {
        layer_id: LayerId,
        track_id: TrackId,
        segment_id: TrackSegmentId,
        index: usize,
        point: TrackPoint,
    },
    SplitSegment {
        layer_id: LayerId,
        track_id: TrackId,
        segment_id: TrackSegmentId,
        point_id: TrackPointId,
        new_segment_id: TrackSegmentId,
    },
    JoinSegments {
        layer_id: LayerId,
        track_id: TrackId,
        segment_id_a: TrackSegmentId,
        segment_id_b: TrackSegmentId,
    },
    /// Put the points of some segments in a given order (sorting by time is
    /// what produces one). Its reverse is another reorder carrying the order
    /// before, so undo and redo are exact inverses.
    ReorderTrackPoints { layer_id: LayerId, track_id: TrackId, order: Vec<(TrackSegmentId, Vec<TrackPointId>)> },
    /// Remove a set of points at once (cropping by extent or by time). Its
    /// reverse restores them at the indices they had.
    CropTrackPoints { layer_id: LayerId, track_id: TrackId, points: Vec<(TrackSegmentId, Vec<TrackPointId>)> },
    DeleteTrack { layer_id: LayerId, track_id: TrackId },
    DeleteWaypoint { layer_id: LayerId, waypoint_id: WaypointId },
    RenameWaypoint { layer_id: LayerId, waypoint_id: WaypointId, old_name: String, new_name: String },
    SetWaypointSymbol {
        layer_id: LayerId,
        waypoint_id: WaypointId,
        old_symbol: Option<String>,
        new_symbol: Option<String>,
    },
    SetWaypointColor {
        layer_id: LayerId,
        waypoint_id: WaypointId,
        old_color: Option<[u8; 4]>,
        new_color: Option<[u8; 4]>,
    },
    /// The note beside a mark: what a crew is actually sent to.
    SetWaypointDescription {
        layer_id: LayerId,
        waypoint_id: WaypointId,
        old_description: Option<String>,
        new_description: Option<String>,
    },
    /// The files that belong to a mark, replaced as a whole.
    SetWaypointAttachments {
        layer_id: LayerId,
        waypoint_id: WaypointId,
        old_attachments: Vec<String>,
        new_attachments: Vec<String>,
    },
    /// Drop the points a simplification chose, listed in `removed` with the
    /// segment and index each had. The points are chosen before the command
    /// is made (the choice is floating-point work), so an empty list removes
    /// nothing.
    SimplifyTrack {
        layer_id: LayerId,
        track_id: TrackId,
        tolerance_km: u64,
        removed: Vec<(TrackSegmentId, usize, TrackPoint)>,
    },
    RestoreTrackPoints { layer_id: LayerId, track_id: TrackId, points: Vec<(TrackSegmentId, usize, TrackPoint)> },
    RenameTrack { layer_id: LayerId, track_id: TrackId, old_name: String, new_name: String },
    RemoveMapLayer { layer: MapLayer },
    RemoveTrackLayer { layer: TrackLayer },
    RemoveWaypointLayer { layer: WaypointLayer },
    /// Put a layer back exactly as it was, contents included: what removing
    /// a layer reverses to.
    RestoreTrackLayer { layer: TrackLayer },
    RestoreWaypointLayer { layer: WaypointLayer },
    RenameTrackLayer { layer_id: LayerId, old_name: String, new_name: String },
    RenameWaypointLayer { layer_id: LayerId, old_name: String, new_name: String },
    RemoveTrack { layer_id: LayerId, track: Track },
    RemoveWaypoint { layer_id: LayerId, waypoint: Waypoint },
    CreateEmptyTrack { layer_id: LayerId, track_id: TrackId, name: String },
}

/// What a command is, for the contracts.
#[allow(inconsistent_fields)]
pub enum CommandV {
    AddMapLayer { id: LayerId, name: Seq<char> },
    AddMapLayerWithSource { id: LayerId, name: Seq<char>, source_path: Seq<char> },
    AddTrackLayer { id: LayerId, name: Seq<char> },
    AddWaypointLayer { id: LayerId, name: Seq<char> },
    AddTrack { layer_id: LayerId, track: TrackV },
    AddWaypoint { layer_id: LayerId, waypoint: WaypointV },
    MoveWaypoint { layer_id: LayerId, waypoint_id: WaypointId, latitude: u64, longitude: u64 },
    MoveTrackPoint {
        layer_id: LayerId,
        track_id: TrackId,
        segment_id: TrackSegmentId,
        point_id: TrackPointId,
        lat: u64,
        lon: u64,
        old_lat: u64,
        old_lon: u64,
    },
    DeleteTrackPoint {
        layer_id: LayerId,
        track_id: TrackId,
        segment_id: TrackSegmentId,
        point_id: TrackPointId,
        removed_index: usize,
        removed_point: TrackPoint,
    },
    InsertTrackPoint { layer_id: LayerId, track_id: TrackId, segment_id: TrackSegmentId, index: usize, point: TrackPoint },
    SplitSegment {
        layer_id: LayerId,
        track_id: TrackId,
        segment_id: TrackSegmentId,
        point_id: TrackPointId,
        new_segment_id: TrackSegmentId,
    },
    JoinSegments { layer_id: LayerId, track_id: TrackId, segment_id_a: TrackSegmentId, segment_id_b: TrackSegmentId },
    ReorderTrackPoints { layer_id: LayerId, track_id: TrackId, order: Seq<(TrackSegmentId, Seq<TrackPointId>)> },
    CropTrackPoints { layer_id: LayerId, track_id: TrackId, points: Seq<(TrackSegmentId, Seq<TrackPointId>)> },
    DeleteTrack { layer_id: LayerId, track_id: TrackId },
    DeleteWaypoint { layer_id: LayerId, waypoint_id: WaypointId },
    RenameWaypoint { layer_id: LayerId, waypoint_id: WaypointId, old_name: Seq<char>, new_name: Seq<char> },
    SetWaypointSymbol {
        layer_id: LayerId,
        waypoint_id: WaypointId,
        old_symbol: Option<Seq<char>>,
        new_symbol: Option<Seq<char>>,
    },
    SetWaypointColor {
        layer_id: LayerId,
        waypoint_id: WaypointId,
        old_color: Option<[u8; 4]>,
        new_color: Option<[u8; 4]>,
    },
    SetWaypointDescription {
        layer_id: LayerId,
        waypoint_id: WaypointId,
        old_description: Option<Seq<char>>,
        new_description: Option<Seq<char>>,
    },
    SetWaypointAttachments {
        layer_id: LayerId,
        waypoint_id: WaypointId,
        old_attachments: Seq<Seq<char>>,
        new_attachments: Seq<Seq<char>>,
    },
    SimplifyTrack { layer_id: LayerId, track_id: TrackId, tolerance_km: u64, removed: Seq<(TrackSegmentId, usize, TrackPoint)> },
    RestoreTrackPoints { layer_id: LayerId, track_id: TrackId, points: Seq<(TrackSegmentId, usize, TrackPoint)> },
    RenameTrack { layer_id: LayerId, track_id: TrackId, old_name: Seq<char>, new_name: Seq<char> },
    RemoveMapLayer { layer: MapLayerV },
    RemoveTrackLayer { layer: TrackLayerV },
    RemoveWaypointLayer { layer: WaypointLayerV },
    RestoreTrackLayer { layer: TrackLayerV },
    RestoreWaypointLayer { layer: WaypointLayerV },
    RenameTrackLayer { layer_id: LayerId, old_name: Seq<char>, new_name: Seq<char> },
    RenameWaypointLayer { layer_id: LayerId, old_name: Seq<char>, new_name: Seq<char> },
    RemoveTrack { layer_id: LayerId, track: TrackV },
    RemoveWaypoint { layer_id: LayerId, waypoint: WaypointV },
    CreateEmptyTrack { layer_id: LayerId, track_id: TrackId, name: Seq<char> },
}

pub open spec fn pairs_view(v: Seq<(TrackSegmentId, Vec<TrackPointId>)>) -> Seq<(TrackSegmentId, Seq<TrackPointId>)> {
    v.map_values(|e: (TrackSegmentId, Vec<TrackPointId>)| (e.0, e.1@))
}

impl View for ProjectCommand {
    type V = CommandV;

    open spec fn view(&self) -> CommandV {
        match self {
            ProjectCommand::AddMapLayer { id, name } => CommandV::AddMapLayer { id: *id, name: name@ },
            ProjectCommand::AddMapLayerWithSource { id, name, source_path } =>
                CommandV::AddMapLayerWithSource { id: *id, name: name@, source_path: source_path@ },
            ProjectCommand::AddTrackLayer { id, name } => CommandV::AddTrackLayer { id: *id, name: name@ },
            ProjectCommand::AddWaypointLayer { id, name } => CommandV::AddWaypointLayer { id: *id, name: name@ },
            ProjectCommand::AddTrack { layer_id, track } => CommandV::AddTrack { layer_id: *layer_id, track: track@ },
            ProjectCommand::AddWaypoint { layer_id, waypoint } =>
                CommandV::AddWaypoint { layer_id: *layer_id, waypoint: waypoint@ },
            ProjectCommand::MoveWaypoint { layer_id, waypoint_id, latitude, longitude } =>
                CommandV::MoveWaypoint { layer_id: *layer_id, waypoint_id: *waypoint_id, latitude: *latitude, longitude: *longitude },
            ProjectCommand::MoveTrackPoint { layer_id, track_id, segment_id, point_id, lat, lon, old_lat, old_lon } =>
                CommandV::MoveTrackPoint {
                    layer_id: *layer_id,
                    track_id: *track_id,
                    segment_id: *segment_id,
                    point_id: *point_id,
                    lat: *lat,
                    lon: *lon,
                    old_lat: *old_lat,
                    old_lon: *old_lon,
                },
            ProjectCommand::DeleteTrackPoint { layer_id, track_id, segment_id, point_id, removed_index, removed_point } =>
                CommandV::DeleteTrackPoint {
                    layer_id: *layer_id,
                    track_id: *track_id,
                    segment_id: *segment_id,
                    point_id: *point_id,
                    removed_index: *removed_index,
                    removed_point: *removed_point,
                },
            ProjectCommand::InsertTrackPoint { layer_id, track_id, segment_id, index, point } =>
                CommandV::InsertTrackPoint {
                    layer_id: *layer_id,
                    track_id: *track_id,
                    segment_id: *segment_id,
                    index: *index,
                    point: *point,
                },
            ProjectCommand::SplitSegment { layer_id, track_id, segment_id, point_id, new_segment_id } =>
                CommandV::SplitSegment {
                    layer_id: *layer_id,
                    track_id: *track_id,
                    segment_id: *segment_id,
                    point_id: *point_id,
                    new_segment_id: *new_segment_id,
                },
            ProjectCommand::JoinSegments { layer_id, track_id, segment_id_a, segment_id_b } =>
                CommandV::JoinSegments {
                    layer_id: *layer_id,
                    track_id: *track_id,
                    segment_id_a: *segment_id_a,
                    segment_id_b: *segment_id_b,
                },
            ProjectCommand::ReorderTrackPoints { layer_id, track_id, order } =>
                CommandV::ReorderTrackPoints { layer_id: *layer_id, track_id: *track_id, order: pairs_view(order@) },
            ProjectCommand::CropTrackPoints { layer_id, track_id, points } =>
                CommandV::CropTrackPoints { layer_id: *layer_id, track_id: *track_id, points: pairs_view(points@) },
            ProjectCommand::DeleteTrack { layer_id, track_id } =>
                CommandV::DeleteTrack { layer_id: *layer_id, track_id: *track_id },
            ProjectCommand::DeleteWaypoint { layer_id, waypoint_id } =>
                CommandV::DeleteWaypoint { layer_id: *layer_id, waypoint_id: *waypoint_id },
            ProjectCommand::RenameWaypoint { layer_id, waypoint_id, old_name, new_name } =>
                CommandV::RenameWaypoint {
                    layer_id: *layer_id,
                    waypoint_id: *waypoint_id,
                    old_name: old_name@,
                    new_name: new_name@,
                },
            ProjectCommand::SetWaypointSymbol { layer_id, waypoint_id, old_symbol, new_symbol } =>
                CommandV::SetWaypointSymbol {
                    layer_id: *layer_id,
                    waypoint_id: *waypoint_id,
                    old_symbol: opt_str_view(*old_symbol),
                    new_symbol: opt_str_view(*new_symbol),
                },
            ProjectCommand::SetWaypointColor { layer_id, waypoint_id, old_color, new_color } =>
                CommandV::SetWaypointColor {
                    layer_id: *layer_id,
                    waypoint_id: *waypoint_id,
                    old_color: *old_color,
                    new_color: *new_color,
                },
            ProjectCommand::SetWaypointDescription { layer_id, waypoint_id, old_description, new_description } =>
                CommandV::SetWaypointDescription {
                    layer_id: *layer_id,
                    waypoint_id: *waypoint_id,
                    old_description: opt_str_view(*old_description),
                    new_description: opt_str_view(*new_description),
                },
            ProjectCommand::SetWaypointAttachments { layer_id, waypoint_id, old_attachments, new_attachments } =>
                CommandV::SetWaypointAttachments {
                    layer_id: *layer_id,
                    waypoint_id: *waypoint_id,
                    old_attachments: strings_view(old_attachments@),
                    new_attachments: strings_view(new_attachments@),
                },
            ProjectCommand::SimplifyTrack { layer_id, track_id, tolerance_km, removed } =>
                CommandV::SimplifyTrack {
                    layer_id: *layer_id,
                    track_id: *track_id,
                    tolerance_km: *tolerance_km,
                    removed: removed@,
                },
            ProjectCommand::RestoreTrackPoints { layer_id, track_id, points } =>
                CommandV::RestoreTrackPoints { layer_id: *layer_id, track_id: *track_id, points: points@ },
            ProjectCommand::RenameTrack { layer_id, track_id, old_name, new_name } =>
                CommandV::RenameTrack {
                    layer_id: *layer_id,
                    track_id: *track_id,
                    old_name: old_name@,
                    new_name: new_name@,
                },
            ProjectCommand::RemoveMapLayer { layer } => CommandV::RemoveMapLayer { layer: layer@ },
            ProjectCommand::RemoveTrackLayer { layer } => CommandV::RemoveTrackLayer { layer: layer@ },
            ProjectCommand::RemoveWaypointLayer { layer } => CommandV::RemoveWaypointLayer { layer: layer@ },
            ProjectCommand::RestoreTrackLayer { layer } => CommandV::RestoreTrackLayer { layer: layer@ },
            ProjectCommand::RestoreWaypointLayer { layer } => CommandV::RestoreWaypointLayer { layer: layer@ },
            ProjectCommand::RenameTrackLayer { layer_id, old_name, new_name } =>
                CommandV::RenameTrackLayer { layer_id: *layer_id, old_name: old_name@, new_name: new_name@ },
            ProjectCommand::RenameWaypointLayer { layer_id, old_name, new_name } =>
                CommandV::RenameWaypointLayer { layer_id: *layer_id, old_name: old_name@, new_name: new_name@ },
            ProjectCommand::RemoveTrack { layer_id, track } => CommandV::RemoveTrack { layer_id: *layer_id, track: track@ },
            ProjectCommand::RemoveWaypoint { layer_id, waypoint } =>
                CommandV::RemoveWaypoint { layer_id: *layer_id, waypoint: waypoint@ },
            ProjectCommand::CreateEmptyTrack { layer_id, track_id, name } =>
                CommandV::CreateEmptyTrack { layer_id: *layer_id, track_id: *track_id, name: name@ },
        }
    }
}

fn ids_from_values(values: &Vec<u64>) -> (ids: Vec<TrackPointId>)
    ensures
        ids@ == Seq::new(values@.len(), |k: int| TrackPointId(values@[k])),
{
    let mut ids: Vec<TrackPointId> = Vec::new();
    let mut k: usize = 0;
    while k < values.len()
        invariant
            k <= values.len(),
            ids@ =~= Seq::new(values@.len(), |j: int| TrackPointId(values@[j])).take(k as int),
        decreases values.len() - k,
    {
        ids.push(TrackPointId(values[k]));
        k = k + 1;
    }
    assert(ids@ =~= Seq::new(values@.len(), |j: int| TrackPointId(values@[j])));
    ids
}

/// An order given as bare numbers, as ids.
pub open spec fn order_from_values(order: Seq<(u64, Seq<u64>)>) -> Seq<(TrackSegmentId, Seq<TrackPointId>)> {
    Seq::new(order.len(), |i: int| (TrackSegmentId(order[i].0), Seq::new(order[i].1.len(), |k: int| TrackPointId(order[i].1[k]))))
}

pub open spec fn values_view(order: Seq<(u64, Vec<u64>)>) -> Seq<(u64, Seq<u64>)> {
    order.map_values(|e: (u64, Vec<u64>)| (e.0, e.1@))
}

impl ProjectCommand {
    pub fn add_map_layer<N: NameLike>(id: LayerId, name: N) -> (c: Self)
        ensures
            c@ == (CommandV::AddMapLayer { id, name: name.name_view() }),
    {
        ProjectCommand::AddMapLayer { id, name: name.into_name() }
    }

    pub fn add_track_layer<N: NameLike>(id: LayerId, name: N) -> (c: Self)
        ensures
            c@ == (CommandV::AddTrackLayer { id, name: name.name_view() }),
    {
        ProjectCommand::AddTrackLayer { id, name: name.into_name() }
    }

    pub fn add_map_layer_with_source<N: NameLike, P: NameLike>(id: LayerId, name: N, source_path: P) -> (c: Self)
        ensures
            c@ == (CommandV::AddMapLayerWithSource { id, name: name.name_view(), source_path: source_path.name_view() }),
    {
        ProjectCommand::AddMapLayerWithSource { id, name: name.into_name(), source_path: source_path.into_name() }
    }

    pub fn add_waypoint_layer<N: NameLike>(id: LayerId, name: N) -> (c: Self)
        ensures
            c@ == (CommandV::AddWaypointLayer { id, name: name.name_view() }),
    {
        ProjectCommand::AddWaypointLayer { id, name: name.into_name() }
    }

    pub fn add_track(layer_id: LayerId, track: Track) -> (c: Self)
        ensures
            c@ == (CommandV::AddTrack { layer_id, track: track@ }),
    {
        ProjectCommand::AddTrack { layer_id, track }
    }

    /// A reorder from an order given as `(segment id, point ids)` numbers.
    pub fn reorder_track_points(layer_id: LayerId, track_id: TrackId, order: Vec<(u64, Vec<u64>)>) -> (c: Self)
        ensures
            c@ == (CommandV::ReorderTrackPoints { layer_id, track_id, order: order_from_values(values_view(order@)) }),
    {
        let ghost target = order_from_values(values_view(order@));
        let mut out: Vec<(TrackSegmentId, Vec<TrackPointId>)> = Vec::new();
        let mut i: usize = 0;
        while i < order.len()
            invariant
                i <= order.len(),
                target == order_from_values(values_view(order@)),
                pairs_view(out@) =~= target.take(i as int),
            decreases order.len() - i,
        {
            let ids = ids_from_values(&order[i].1);
            let ghost before = pairs_view(out@);
            out.push((TrackSegmentId(order[i].0), ids));
            proof {
                assert(pairs_view(out@) =~= before.push(target[i as int]));
            }
            i = i + 1;
        }
        assert(pairs_view(out@) =~= target);
        ProjectCommand::ReorderTrackPoints { layer_id, track_id, order: out }
    }

    pub fn crop_track_points(layer_id: LayerId, track_id: TrackId, points: Vec<(TrackSegmentId, Vec<TrackPointId>)>) -> (c: Self)
        ensures
            c@ == (CommandV::CropTrackPoints { layer_id, track_id, points: pairs_view(points@) }),
    {
        ProjectCommand::CropTrackPoints { layer_id, track_id, points }
    }

    pub fn add_waypoint(layer_id: LayerId, waypoint: Waypoint) -> (c: Self)
        ensures
            c@ == (CommandV::AddWaypoint { layer_id, waypoint: waypoint@ }),
    {
        ProjectCommand::AddWaypoint { layer_id, waypoint }
    }

    pub fn move_waypoint(layer_id: LayerId, waypoint_id: WaypointId, latitude: u64, longitude: u64) -> (c: Self)
        ensures
            c@ == (CommandV::MoveWaypoint { layer_id, waypoint_id, latitude, longitude }),
    {
        ProjectCommand::MoveWaypoint { layer_id, waypoint_id, latitude, longitude }
    }

    pub fn move_track_point(
        layer_id: LayerId,
        track_id: TrackId,
        segment_id: TrackSegmentId,
        point_id: TrackPointId,
        lat: u64,
        lon: u64,
        old_lat: u64,
        old_lon: u64,
    ) -> (c: Self)
        ensures
            c@ == (CommandV::MoveTrackPoint { layer_id, track_id, segment_id, point_id, lat, lon, old_lat, old_lon }),
    {
        ProjectCommand::MoveTrackPoint { layer_id, track_id, segment_id, point_id, lat, lon, old_lat, old_lon }
    }

    pub fn rename_track<N: NameLike, M: NameLike>(layer_id: LayerId, track_id: TrackId, old_name: N, new_name: M) -> (c: Self)
        ensures
            c@ == (CommandV::RenameTrack { layer_id, track_id, old_name: old_name.name_view(), new_name: new_name.name_view() }),
    {
        ProjectCommand::RenameTrack { layer_id, track_id, old_name: old_name.into_name(), new_name: new_name.into_name() }
    }

    /// Delete a point; the index and point recorded are placeholders that the
    /// reverse replaces with what the project holds.
    pub fn delete_track_point(layer_id: LayerId, track_id: TrackId, segment_id: TrackSegmentId, point_id: TrackPointId) -> (c: Self)
        ensures
            c@ == (CommandV::DeleteTrackPoint {
                layer_id,
                track_id,
                segment_id,
                point_id,
                removed_index: 0,
                removed_point: TrackPoint { id: TrackPointId(0), latitude: 0, longitude: 0, elevation: None, timestamp: None },
            }),
    {
        ProjectCommand::DeleteTrackPoint {
            layer_id,
            track_id,
            segment_id,
            point_id,
            removed_index: 0,
            removed_point: TrackPoint::new(TrackPointId(0), 0, 0),
        }
    }

    pub fn insert_track_point(layer_id: LayerId, track_id: TrackId, segment_id: TrackSegmentId, index: usize, point: TrackPoint) -> (c: Self)
        ensures
            c@ == (CommandV::InsertTrackPoint { layer_id, track_id, segment_id, index, point }),
    {
        ProjectCommand::InsertTrackPoint { layer_id, track_id, segment_id, index, point }
    }

    pub fn split_segment(
        layer_id: LayerId,
        track_id: TrackId,
        segment_id: TrackSegmentId,
        point_id: TrackPointId,
        new_segment_id: TrackSegmentId,
    ) -> (c: Self)
        ensures
            c@ == (CommandV::SplitSegment { layer_id, track_id, segment_id, point_id, new_segment_id }),
    {
        ProjectCommand::SplitSegment { layer_id, track_id, segment_id, point_id, new_segment_id }
    }

    pub fn join_segments(layer_id: LayerId, track_id: TrackId, segment_id_a: TrackSegmentId, segment_id_b: TrackSegmentId) -> (c: Self)
        ensures
            c@ == (CommandV::JoinSegments { layer_id, track_id, segment_id_a, segment_id_b }),
    {
        ProjectCommand::JoinSegments { layer_id, track_id, segment_id_a, segment_id_b }
    }

    pub fn delete_track(layer_id: LayerId, track_id: TrackId) -> (c: Self)
        ensures
            c@ == (CommandV::DeleteTrack { layer_id, track_id }),
    {
        ProjectCommand::DeleteTrack { layer_id, track_id }
    }

    pub fn delete_waypoint(layer_id: LayerId, waypoint_id: WaypointId) -> (c: Self)
        ensures
            c@ == (CommandV::DeleteWaypoint { layer_id, waypoint_id }),
    {
        ProjectCommand::DeleteWaypoint { layer_id, waypoint_id }
    }

    pub fn rename_waypoint<N: NameLike, M: NameLike>(layer_id: LayerId, waypoint_id: WaypointId, old_name: N, new_name: M) -> (c: Self)
        ensures
            c@ == (CommandV::RenameWaypoint { layer_id, waypoint_id, old_name: old_name.name_view(), new_name: new_name.name_view() }),
    {
        ProjectCommand::RenameWaypoint { layer_id, waypoint_id, old_name: old_name.into_name(), new_name: new_name.into_name() }
    }

    pub fn set_waypoint_symbol(layer_id: LayerId, waypoint_id: WaypointId, old_symbol: Option<String>, new_symbol: Option<String>) -> (c: Self)
        ensures
            c@ == (CommandV::SetWaypointSymbol {
                layer_id,
                waypoint_id,
                old_symbol: opt_str_view(old_symbol),
                new_symbol: opt_str_view(new_symbol),
            }),
    {
        ProjectCommand::SetWaypointSymbol { layer_id, waypoint_id, old_symbol, new_symbol }
    }

    pub fn set_waypoint_color(layer_id: LayerId, waypoint_id: WaypointId, old_color: Option<[u8; 4]>, new_color: Option<[u8; 4]>) -> (c: Self)
        ensures
            c@ == (CommandV::SetWaypointColor { layer_id, waypoint_id, old_color, new_color }),
    {
        ProjectCommand::SetWaypointColor { layer_id, waypoint_id, old_color, new_color }
    }

    /// A simplification at `tolerance_km` (the bits of its `f64`) that drops
    /// the points listed in `removed`, each with its segment and index. The
    /// caller makes the choice; an empty list removes nothing.
    pub fn simplify_track(layer_id: LayerId, track_id: TrackId, tolerance_km: u64, removed: Vec<(TrackSegmentId, usize, TrackPoint)>) -> (c: Self)
        ensures
            c@ == (CommandV::SimplifyTrack { layer_id, track_id, tolerance_km, removed: removed@ }),
    {
        ProjectCommand::SimplifyTrack { layer_id, track_id, tolerance_km, removed }
    }

    pub fn create_empty_track<N: NameLike>(layer_id: LayerId, track_id: TrackId, name: N) -> (c: Self)
        ensures
            c@ == (CommandV::CreateEmptyTrack { layer_id, track_id, name: name.name_view() }),
    {
        ProjectCommand::CreateEmptyTrack { layer_id, track_id, name: name.into_name() }
    }
}

} // verus!

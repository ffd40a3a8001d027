use vstd::prelude::*;
use crate::bulk_edit::PlacedPoint;
use crate::command::{CommandV, ProjectCommand, pairs_view};
use crate::error::ProjectLayerError;
use crate::ids::{LayerId, TrackPointId, TrackSegmentId};
use crate::index::first_index;
use crate::layers::{MapLayer, MapLayerV, TrackLayer, empty_track, find_waypoint};
use crate::project::{
    Project, ProjectV, find_waypoint_layer, p_locate_segment, p_locate_track,
    p_locate_waypoint, p_segment,
};
use crate::track::{Track, TrackPoint, TrackSegment, TrackV, default_track_style, find_point, find_segment, point_keys, segment_keys};
use crate::waypoint::{Waypoint, WaypointV, clone_opt_string, clone_strings};

verus! {

// ── what the reverse of a command captures from the project ──────────────

pub open spec fn point_ids(points: Seq<TrackPoint>) -> Seq<TrackPointId> {
    Seq::new(points.len(), |k: int| points[k].id)
}

/// For each segment named in `order` that the track has, its id and its
/// current point order.
pub open spec fn current_order(tr: TrackV, order: Seq<(TrackSegmentId, Seq<TrackPointId>)>) -> Seq<(TrackSegmentId, Seq<TrackPointId>)>
    decreases order.len(),
{
    if order.len() == 0 {
        Seq::empty()
    } else {
        let rest = current_order(tr, order.drop_last());
        let sid = order.last().0;
        match first_index(segment_keys(tr.segments), sid.0) {
            Some(si) => rest.push((sid, point_ids(tr.segments[si].points))),
            None => rest,
        }
    }
}

/// The points of a segment that `ids` names, each with its index.
pub open spec fn selected_points(sid: TrackSegmentId, points: Seq<TrackPoint>, ids: Seq<TrackPointId>) -> Seq<PlacedPoint>
    decreases points.len(),
{
    if points.len() == 0 {
        Seq::empty()
    } else {
        let rest = selected_points(sid, points.drop_last(), ids);
        if ids.contains(points.last().id) {
            rest.push((sid, (points.len() - 1) as usize, points.last()))
        } else {
            rest
        }
    }
}

/// Every point a crop would remove, with its segment and index.
pub open spec fn crop_capture(tr: TrackV, pairs: Seq<(TrackSegmentId, Seq<TrackPointId>)>) -> Seq<PlacedPoint>
    decreases pairs.len(),
{
    if pairs.len() == 0 {
        Seq::empty()
    } else {
        let rest = crop_capture(tr, pairs.drop_last());
        let (sid, ids) = pairs.last();
        match first_index(segment_keys(tr.segments), sid.0) {
            Some(si) => rest + selected_points(sid, tr.segments[si].points, ids),
            None => rest,
        }
    }
}

pub open spec fn blank_track(t: crate::ids::TrackId) -> TrackV {
    TrackV { id: t, name: Seq::empty(), style: default_track_style(), segments: Seq::empty() }
}

pub open spec fn blank_waypoint(w: crate::ids::WaypointId) -> WaypointV {
    WaypointV {
        id: w,
        name: Seq::empty(),
        symbol: None,
        latitude: 0,
        longitude: 0,
        visible: true,
        color: None,
        description: None,
        attachments: Seq::empty(),
    }
}

/// The command that undoes `c`, computed from the project before `c` is
/// applied.
#[verifier::opaque]
pub open spec fn reverse_spec(c: CommandV, p: ProjectV) -> CommandV {
    match c {
        CommandV::ReorderTrackPoints { layer_id, track_id, order } => CommandV::ReorderTrackPoints {
            layer_id,
            track_id,
            order: match p_locate_track(p, layer_id.0, track_id.0) {
                Ok((li, ti)) => current_order(p.track_layers[li].tracks[ti], order),
                Err(_) => Seq::empty(),
            },
        },
        CommandV::CropTrackPoints { layer_id, track_id, points } => CommandV::RestoreTrackPoints {
            layer_id,
            track_id,
            points: match p_locate_track(p, layer_id.0, track_id.0) {
                Ok((li, ti)) => crop_capture(p.track_layers[li].tracks[ti], points),
                Err(_) => Seq::empty(),
            },
        },
        CommandV::AddMapLayer { id, name } => CommandV::RemoveMapLayer { layer: MapLayerV { id, name, source_path: None } },
        CommandV::AddMapLayerWithSource { id, name, source_path } =>
            CommandV::RemoveMapLayer { layer: MapLayerV { id, name, source_path: Some(source_path) } },
        CommandV::AddTrackLayer { id, name } =>
            CommandV::RemoveTrackLayer { layer: crate::layers::TrackLayerV { id, name, tracks: Seq::empty() } },
        CommandV::AddWaypointLayer { id, name } =>
            CommandV::RemoveWaypointLayer { layer: crate::layers::WaypointLayerV { id, name, waypoints: Seq::empty() } },
        CommandV::AddTrack { layer_id, track } => CommandV::RemoveTrack { layer_id, track },
        CommandV::AddWaypoint { layer_id, waypoint } => CommandV::RemoveWaypoint { layer_id, waypoint },
        CommandV::MoveWaypoint { layer_id, waypoint_id, latitude, longitude } => match p_locate_waypoint(p, layer_id.0, waypoint_id.0) {
            Ok((li, wi)) => CommandV::MoveWaypoint {
                layer_id,
                waypoint_id,
                latitude: p.waypoint_layers[li].waypoints[wi].latitude,
                longitude: p.waypoint_layers[li].waypoints[wi].longitude,
            },
            Err(_) => CommandV::MoveWaypoint { layer_id, waypoint_id, latitude, longitude },
        },
        CommandV::MoveTrackPoint { layer_id, track_id, segment_id, point_id, lat, lon, old_lat, old_lon } =>
            CommandV::MoveTrackPoint { layer_id, track_id, segment_id, point_id, lat: old_lat, lon: old_lon, old_lat: lat, old_lon: lon },
        CommandV::DeleteTrackPoint { layer_id, track_id, segment_id, point_id, removed_index, removed_point } => {
            let found = match p_locate_segment(p, layer_id.0, track_id.0, segment_id.0) {
                Ok((li, ti, si)) => {
                    let pts = p_segment(p, li, ti, si).points;
                    match first_index(point_keys(pts), point_id.0) {
                        Some(k) => Some((k as usize, pts[k])),
                        None => None,
                    }
                },
                Err(_) => None,
            };
            let (index, point) = match found {
                Some(x) => x,
                None => (removed_index, removed_point),
            };
            CommandV::InsertTrackPoint { layer_id, track_id, segment_id, index, point }
        },
        CommandV::InsertTrackPoint { layer_id, track_id, segment_id, point, .. } =>
            CommandV::DeleteTrackPoint { layer_id, track_id, segment_id, point_id: point.id, removed_index: 0, removed_point: point },
        CommandV::SplitSegment { layer_id, track_id, segment_id, new_segment_id, .. } =>
            CommandV::JoinSegments { layer_id, track_id, segment_id_a: segment_id, segment_id_b: new_segment_id },
        CommandV::JoinSegments { layer_id, track_id, segment_id_a, segment_id_b } => CommandV::SplitSegment {
            layer_id,
            track_id,
            segment_id: segment_id_a,
            point_id: match p_locate_segment(p, layer_id.0, track_id.0, segment_id_a.0) {
                Ok((li, ti, si)) => {
                    let pts = p_segment(p, li, ti, si).points;
                    if pts.len() > 0 { pts.last().id } else { TrackPointId(0) }
                },
                Err(_) => TrackPointId(0),
            },
            new_segment_id: segment_id_b,
        },
        CommandV::DeleteTrack { layer_id, track_id } => CommandV::AddTrack {
            layer_id,
            track: match p_locate_track(p, layer_id.0, track_id.0) {
                Ok((li, ti)) => p.track_layers[li].tracks[ti],
                Err(_) => blank_track(track_id),
            },
        },
        CommandV::DeleteWaypoint { layer_id, waypoint_id } => CommandV::AddWaypoint {
            layer_id,
            waypoint: match p_locate_waypoint(p, layer_id.0, waypoint_id.0) {
                Ok((li, wi)) => p.waypoint_layers[li].waypoints[wi],
                Err(_) => blank_waypoint(waypoint_id),
            },
        },
        CommandV::RenameWaypoint { layer_id, waypoint_id, old_name, new_name } =>
            CommandV::RenameWaypoint { layer_id, waypoint_id, old_name: new_name, new_name: old_name },
        CommandV::SetWaypointDescription { layer_id, waypoint_id, old_description, new_description } =>
            CommandV::SetWaypointDescription { layer_id, waypoint_id, old_description: new_description, new_description: old_description },
        CommandV::SetWaypointSymbol { layer_id, waypoint_id, old_symbol, new_symbol } =>
            CommandV::SetWaypointSymbol { layer_id, waypoint_id, old_symbol: new_symbol, new_symbol: old_symbol },
        CommandV::SetWaypointColor { layer_id, waypoint_id, old_color, new_color } =>
            CommandV::SetWaypointColor { layer_id, waypoint_id, old_color: new_color, new_color: old_color },
        CommandV::SetWaypointAttachments { layer_id, waypoint_id, old_attachments, new_attachments } =>
            CommandV::SetWaypointAttachments { layer_id, waypoint_id, old_attachments: new_attachments, new_attachments: old_attachments },
        CommandV::SimplifyTrack { layer_id, track_id, removed, .. } =>
            CommandV::RestoreTrackPoints { layer_id, track_id, points: removed },
        CommandV::RestoreTrackPoints { layer_id, track_id, points } =>
            CommandV::SimplifyTrack { layer_id, track_id, tolerance_km: 0, removed: points },
        CommandV::RenameTrack { layer_id, track_id, old_name, new_name } => CommandV::RenameTrack {
            layer_id,
            track_id,
            old_name: new_name,
            new_name: match p_locate_track(p, layer_id.0, track_id.0) {
                Ok((li, ti)) => p.track_layers[li].tracks[ti].name,
                Err(_) => old_name,
            },
        },
        CommandV::RemoveMapLayer { layer } => match layer.source_path {
            Some(source_path) => CommandV::AddMapLayerWithSource { id: layer.id, name: layer.name, source_path },
            None => CommandV::AddMapLayer { id: layer.id, name: layer.name },
        },
        CommandV::RemoveTrackLayer { layer } => CommandV::RestoreTrackLayer { layer },
        CommandV::RemoveWaypointLayer { layer } => CommandV::RestoreWaypointLayer { layer },
        CommandV::RestoreTrackLayer { layer } => CommandV::RemoveTrackLayer { layer },
        CommandV::RestoreWaypointLayer { layer } => CommandV::RemoveWaypointLayer { layer },
        CommandV::RenameTrackLayer { layer_id, old_name, new_name } =>
            CommandV::RenameTrackLayer { layer_id, old_name: new_name, new_name: old_name },
        CommandV::RenameWaypointLayer { layer_id, old_name, new_name } =>
            CommandV::RenameWaypointLayer { layer_id, old_name: new_name, new_name: old_name },
        CommandV::RemoveTrack { layer_id, track } => CommandV::AddTrack { layer_id, track },
        CommandV::RemoveWaypoint { layer_id, waypoint } => CommandV::AddWaypoint { layer_id, waypoint },
        CommandV::CreateEmptyTrack { layer_id, track_id, name } =>
            CommandV::RemoveTrack { layer_id, track: empty_track(track_id, name) },
    }
}

// ── lookups that do not change the project ───────────────────────────────

impl Project {
    /// Where the first mark with this id sits in the first waypoint layer
    /// with that id.
    pub fn locate_waypoint(&self, layer_id: u64, waypoint_id: u64) -> (r: Result<(usize, usize), ProjectLayerError>)
        ensures
            match r {
                Ok((li, wi)) => {
                    &&& p_locate_waypoint(self@, layer_id, waypoint_id) == Ok::<(int, int), ProjectLayerError>((li as int, wi as int))
                    &&& li < self.waypoint_layers.len()
                    &&& wi < self.waypoint_layers@[li as int].waypoints.len()
                },
                Err(e) => p_locate_waypoint(self@, layer_id, waypoint_id) == Err::<(int, int), ProjectLayerError>(e),
            },
    {
        match find_waypoint_layer(&self.waypoint_layers, layer_id) {
            Some(li) => match find_waypoint(&self.waypoint_layers[li].waypoints, waypoint_id) {
                Some(wi) => Ok((li, wi)),
                None => Err(ProjectLayerError::WaypointNotFound(LayerId(layer_id), crate::ids::WaypointId(waypoint_id))),
            },
            None => Err(ProjectLayerError::WaypointLayerUnavailable(LayerId(layer_id))),
        }
    }

    /// Where the first segment with this id sits in the track `locate_track`
    /// finds.
    pub fn locate_segment(&self, layer_id: u64, track_id: u64, segment_id: u64) -> (r: Result<(usize, usize, usize), ProjectLayerError>)
        ensures
            match r {
                Ok((li, ti, si)) => {
                    &&& p_locate_segment(self@, layer_id, track_id, segment_id) == Ok::<(int, int, int), ProjectLayerError>((li as int, ti as int, si as int))
                    &&& li < self.track_layers.len()
                    &&& ti < self.track_layers@[li as int].tracks.len()
                    &&& si < self.track_layers@[li as int].tracks@[ti as int].segments.len()
                },
                Err(e) => p_locate_segment(self@, layer_id, track_id, segment_id) == Err::<(int, int, int), ProjectLayerError>(e),
            },
    {
        match self.locate_track(layer_id, track_id) {
            Ok((li, ti)) => match find_segment(&self.track_layers[li].tracks[ti].segments, segment_id) {
                Some(si) => Ok((li, ti, si)),
                None => Err(ProjectLayerError::MissingTrackSegment { layer_id, track_id, segment_id }),
            },
            Err(e) => Err(e),
        }
    }
}

// ── capturing what a reverse needs ───────────────────────────────────────

pub fn copy_placed(v: &Vec<PlacedPoint>) -> (c: Vec<PlacedPoint>)
    ensures
        c@ == v@,
{
    let mut c: Vec<PlacedPoint> = Vec::new();
    let mut i: usize = 0;
    while i < v.len()
        invariant
            i <= v.len(),
            c@ =~= v@.take(i as int),
        decreases v.len() - i,
    {
        c.push(v[i]);
        i = i + 1;
    }
    assert(c@ =~= v@);
    c
}

pub(crate) fn copy_ids(v: &Vec<TrackPointId>) -> (c: Vec<TrackPointId>)
    ensures
        c@ == v@,
{
    let mut c: Vec<TrackPointId> = Vec::new();
    let mut i: usize = 0;
    while i < v.len()
        invariant
            i <= v.len(),
            c@ =~= v@.take(i as int),
        decreases v.len() - i,
    {
        c.push(v[i]);
        i = i + 1;
    }
    assert(c@ =~= v@);
    c
}

pub fn copy_pairs(v: &Vec<(TrackSegmentId, Vec<TrackPointId>)>) -> (c: Vec<(TrackSegmentId, Vec<TrackPointId>)>)
    ensures
        pairs_view(c@) == pairs_view(v@),
{
    let mut c: Vec<(TrackSegmentId, Vec<TrackPointId>)> = Vec::new();
    let mut i: usize = 0;
    while i < v.len()
        invariant
            i <= v.len(),
            pairs_view(c@) =~= pairs_view(v@).take(i as int),
        decreases v.len() - i,
    {
        let ids = copy_ids(&v[i].1);
        let ghost before = pairs_view(c@);
        c.push((v[i].0, ids));
        proof {
            assert(pairs_view(c@) =~= before.push(pairs_view(v@)[i as int]));
        }
        i = i + 1;
    }
    assert(pairs_view(c@) =~= pairs_view(v@));
    c
}

fn point_ids_exec(points: &Vec<TrackPoint>) -> (ids: Vec<TrackPointId>)
    ensures
        ids@ == point_ids(points@),
{
    let mut ids: Vec<TrackPointId> = Vec::new();
    let mut k: usize = 0;
    while k < points.len()
        invariant
            k <= points.len(),
            ids@ =~= point_ids(points@).take(k as int),
        decreases points.len() - k,
    {
        ids.push(points[k].id);
        k = k + 1;
    }
    assert(ids@ =~= point_ids(points@));
    ids
}

fn current_order_exec(track: &Track, order: &Vec<(TrackSegmentId, Vec<TrackPointId>)>) -> (c: Vec<(TrackSegmentId, Vec<TrackPointId>)>)
    ensures
        pairs_view(c@) == current_order(track@, pairs_view(order@)),
{
    let ghost ov = pairs_view(order@);
    let mut c: Vec<(TrackSegmentId, Vec<TrackPointId>)> = Vec::new();
    let mut i: usize = 0;
    proof {
        assert(ov.take(0) =~= Seq::<(TrackSegmentId, Seq<TrackPointId>)>::empty());
    }
    while i < order.len()
        invariant
            i <= order.len(),
            ov == pairs_view(order@),
            pairs_view(c@) == current_order(track@, ov.take(i as int)),
        decreases order.len() - i,
    {
        proof {
            assert(ov.take(i as int + 1).drop_last() =~= ov.take(i as int));
            assert(ov.take(i as int + 1).last() == ov[i as int]);
        }
        let sid = order[i].0;
        let ghost before = pairs_view(c@);
        match find_segment(&track.segments, sid.0) {
            Some(si) => {
                let ids = point_ids_exec(&track.segments[si].points);
                c.push((sid, ids));
                proof {
                    assert(track@.segments[si as int].points == track.segments@[si as int].points@);
                    assert(pairs_view(c@) =~= before.push((sid, point_ids(track@.segments[si as int].points))));
                }
            },
            None => {},
        }
        i = i + 1;
    }
    proof {
        assert(ov.take(i as int) =~= ov);
    }
    c
}

fn contains_point(ids: &Vec<TrackPointId>, x: TrackPointId) -> (b: bool)
    ensures
        b == ids@.contains(x),
{
    let mut i: usize = 0;
    while i < ids.len()
        invariant
            i <= ids.len(),
            forall|j: int| 0 <= j < i ==> ids@[j] != x,
        decreases ids.len() - i,
    {
        if ids[i].0 == x.0 {
            assert(ids@[i as int] == x);
            return true;
        }
        i = i + 1;
    }
    false
}

fn selected_points_exec(sid: TrackSegmentId, points: &Vec<TrackPoint>, ids: &Vec<TrackPointId>, out: &mut Vec<PlacedPoint>)
    ensures
        final(out)@ == old(out)@ + selected_points(sid, points@, ids@),
{
    let ghost start = out@;
    let mut k: usize = 0;
    proof {
        assert(points@.take(0) =~= Seq::<TrackPoint>::empty());
        assert(out@ =~= start + selected_points(sid, points@.take(0), ids@));
    }
    while k < points.len()
        invariant
            k <= points.len(),
            out@ == start + selected_points(sid, points@.take(k as int), ids@),
        decreases points.len() - k,
    {
        proof {
            assert(points@.take(k as int + 1).drop_last() =~= points@.take(k as int));
            assert(points@.take(k as int + 1).last() == points@[k as int]);
        }
        if contains_point(ids, points[k].id) {
            out.push((sid, k, points[k]));
            proof {
                assert(out@ =~= start + selected_points(sid, points@.take(k as int + 1), ids@));
            }
        }
        k = k + 1;
    }
    proof {
        assert(points@.take(k as int) =~= points@);
    }
}

fn crop_capture_exec(track: &Track, pairs: &Vec<(TrackSegmentId, Vec<TrackPointId>)>) -> (c: Vec<PlacedPoint>)
    ensures
        c@ == crop_capture(track@, pairs_view(pairs@)),
{
    let ghost pv = pairs_view(pairs@);
    let mut c: Vec<PlacedPoint> = Vec::new();
    let mut i: usize = 0;
    proof {
        assert(pv.take(0) =~= Seq::<(TrackSegmentId, Seq<TrackPointId>)>::empty());
    }
    while i < pairs.len()
        invariant
            i <= pairs.len(),
            pv == pairs_view(pairs@),
            c@ == crop_capture(track@, pv.take(i as int)),
        decreases pairs.len() - i,
    {
        proof {
            assert(pv.take(i as int + 1).drop_last() =~= pv.take(i as int));
            assert(pv.take(i as int + 1).last() == pv[i as int]);
        }
        let sid = pairs[i].0;
        match find_segment(&track.segments, sid.0) {
            Some(si) => {
                proof {
                    assert(track@.segments[si as int].points == track.segments@[si as int].points@);
                }
                selected_points_exec(sid, &track.segments[si].points, &pairs[i].1, &mut c);
            },
            None => {
                proof {
                    assert(c@ =~= crop_capture(track@, pv.take(i as int + 1)));
                }
            },
        }
        i = i + 1;
    }
    proof {
        assert(pv.take(i as int) =~= pv);
    }
    c
}

fn current_order_in(project: &Project, l: u64, t: u64, order: &Vec<(TrackSegmentId, Vec<TrackPointId>)>) -> (c: Vec<(TrackSegmentId, Vec<TrackPointId>)>)
    ensures
        pairs_view(c@) == (match p_locate_track(project@, l, t) {
            Ok((li, ti)) => current_order(project@.track_layers[li].tracks[ti], pairs_view(order@)),
            Err(_) => Seq::empty(),
        }),
{
    match project.locate_track(l, t) {
        Ok((li, ti)) => {
            assert(project.track_layers@[li as int].tracks@[ti as int]@ == project@.track_layers[li as int].tracks[ti as int]);
            current_order_exec(&project.track_layers[li].tracks[ti], order)
        },
        Err(_) => {
            let v: Vec<(TrackSegmentId, Vec<TrackPointId>)> = Vec::new();
            assert(pairs_view(v@) =~= Seq::<(TrackSegmentId, Seq<TrackPointId>)>::empty());
            v
        },
    }
}

impl ProjectCommand {
    /// The command that undoes this one, read off the project as it stands
    /// before this one is applied; see `reverse_spec`.
    #[verifier::rlimit(100)]
    #[verifier::spinoff_prover]
    pub fn reverse(&self, project: &Project) -> (r: ProjectCommand)
        ensures
            r@ == reverse_spec(self@, project@),
    {
        proof {
            reveal(reverse_spec);
        }
        match self {
            ProjectCommand::ReorderTrackPoints { layer_id, track_id, order } => {
                let current = current_order_in(project, layer_id.0, track_id.0, order);
                ProjectCommand::ReorderTrackPoints { layer_id: *layer_id, track_id: *track_id, order: current }
            },
            ProjectCommand::CropTrackPoints { layer_id, track_id, points } => {
                let restored = match project.locate_track(layer_id.0, track_id.0) {
                    Ok((li, ti)) => crop_capture_exec(&project.track_layers[li].tracks[ti], points),
                    Err(_) => Vec::new(),
                };
                ProjectCommand::RestoreTrackPoints { layer_id: *layer_id, track_id: *track_id, points: restored }
            },
            ProjectCommand::AddMapLayer { id, name } =>
                ProjectCommand::RemoveMapLayer { layer: MapLayer::new(*id, name.as_str()) },
            ProjectCommand::AddMapLayerWithSource { id, name, source_path } =>
                ProjectCommand::RemoveMapLayer { layer: MapLayer::with_source_path(*id, name.as_str(), Some(source_path.as_str())) },
            ProjectCommand::AddTrackLayer { id, name } =>
                ProjectCommand::RemoveTrackLayer { layer: TrackLayer::new(*id, name.as_str()) },
            ProjectCommand::AddWaypointLayer { id, name } =>
                ProjectCommand::RemoveWaypointLayer { layer: crate::layers::WaypointLayer::new(*id, name.as_str()) },
            ProjectCommand::AddTrack { layer_id, track } => ProjectCommand::RemoveTrack { layer_id: *layer_id, track: track.clone() },
            ProjectCommand::AddWaypoint { layer_id, waypoint } =>
                ProjectCommand::RemoveWaypoint { layer_id: *layer_id, waypoint: waypoint.clone() },
            ProjectCommand::MoveWaypoint { layer_id, waypoint_id, latitude, longitude } => {
                let (lat, lon) = match project.locate_waypoint(layer_id.0, waypoint_id.0) {
                    Ok((li, wi)) => {
                        let w = &project.waypoint_layers[li].waypoints[wi];
                        (w.latitude, w.longitude)
                    },
                    Err(_) => (*latitude, *longitude),
                };
                ProjectCommand::MoveWaypoint { layer_id: *layer_id, waypoint_id: *waypoint_id, latitude: lat, longitude: lon }
            },
            ProjectCommand::MoveTrackPoint { layer_id, track_id, segment_id, point_id, lat, lon, old_lat, old_lon } =>
                ProjectCommand::MoveTrackPoint {
                    layer_id: *layer_id,
                    track_id: *track_id,
                    segment_id: *segment_id,
                    point_id: *point_id,
                    lat: *old_lat,
                    lon: *old_lon,
                    old_lat: *lat,
                    old_lon: *lon,
                },
            ProjectCommand::DeleteTrackPoint { layer_id, track_id, segment_id, point_id, removed_index, removed_point } => {
                let found: Option<(usize, TrackPoint)> = match project.locate_segment(layer_id.0, track_id.0, segment_id.0) {
                    Ok((li, ti, si)) => {
                        let pts = &project.track_layers[li].tracks[ti].segments[si].points;
                        match find_point(pts, point_id.0) {
                            Some(k) => Some((k, pts[k])),
                            None => None,
                        }
                    },
                    Err(_) => None,
                };
                let (index, point) = match found {
                    Some(x) => x,
                    None => (*removed_index, *removed_point),
                };
                ProjectCommand::InsertTrackPoint { layer_id: *layer_id, track_id: *track_id, segment_id: *segment_id, index, point }
            },
            ProjectCommand::InsertTrackPoint { layer_id, track_id, segment_id, point, .. } =>
                ProjectCommand::DeleteTrackPoint {
                    layer_id: *layer_id,
                    track_id: *track_id,
                    segment_id: *segment_id,
                    point_id: point.id,
                    removed_index: 0,
                    removed_point: *point,
                },
            ProjectCommand::SplitSegment { layer_id, track_id, segment_id, new_segment_id, .. } =>
                ProjectCommand::JoinSegments {
                    layer_id: *layer_id,
                    track_id: *track_id,
                    segment_id_a: *segment_id,
                    segment_id_b: *new_segment_id,
                },
            ProjectCommand::JoinSegments { layer_id, track_id, segment_id_a, segment_id_b } => {
                let split_point_id = match project.locate_segment(layer_id.0, track_id.0, segment_id_a.0) {
                    Ok((li, ti, si)) => {
                        let pts = &project.track_layers[li].tracks[ti].segments[si].points;
                        if pts.len() > 0 { pts[pts.len() - 1].id } else { TrackPointId(0) }
                    },
                    Err(_) => TrackPointId(0),
                };
                ProjectCommand::SplitSegment {
                    layer_id: *layer_id,
                    track_id: *track_id,
                    segment_id: *segment_id_a,
                    point_id: split_point_id,
                    new_segment_id: *segment_id_b,
                }
            },
            ProjectCommand::DeleteTrack { layer_id, track_id } => {
                let track = match project.locate_track(layer_id.0, track_id.0) {
                    Ok((li, ti)) => project.track_layers[li].tracks[ti].clone(),
                    Err(_) => {
                        let t = Track::new(*track_id, "");
                        proof {
                            reveal_strlit("");
                            assert(t@.name =~= Seq::<char>::empty());
                        }
                        t
                    },
                };
                ProjectCommand::AddTrack { layer_id: *layer_id, track }
            },
            ProjectCommand::DeleteWaypoint { layer_id, waypoint_id } => {
                let waypoint = match project.locate_waypoint(layer_id.0, waypoint_id.0) {
                    Ok((li, wi)) => project.waypoint_layers[li].waypoints[wi].clone(),
                    Err(_) => {
                        let w = Waypoint::new(*waypoint_id, "", 0, 0);
                        proof {
                            reveal_strlit("");
                            assert(w@.name =~= Seq::<char>::empty());
                        }
                        w
                    },
                };
                ProjectCommand::AddWaypoint { layer_id: *layer_id, waypoint }
            },
            ProjectCommand::RenameWaypoint { layer_id, waypoint_id, old_name, new_name } =>
                ProjectCommand::RenameWaypoint {
                    layer_id: *layer_id,
                    waypoint_id: *waypoint_id,
                    old_name: new_name.clone(),
                    new_name: old_name.clone(),
                },
            ProjectCommand::SetWaypointDescription { layer_id, waypoint_id, old_description, new_description } =>
                ProjectCommand::SetWaypointDescription {
                    layer_id: *layer_id,
                    waypoint_id: *waypoint_id,
                    old_description: clone_opt_string(new_description),
                    new_description: clone_opt_string(old_description),
                },
            ProjectCommand::SetWaypointSymbol { layer_id, waypoint_id, old_symbol, new_symbol } =>
                ProjectCommand::SetWaypointSymbol {
                    layer_id: *layer_id,
                    waypoint_id: *waypoint_id,
                    old_symbol: clone_opt_string(new_symbol),
                    new_symbol: clone_opt_string(old_symbol),
                },
            ProjectCommand::SetWaypointAttachments { layer_id, waypoint_id, old_attachments, new_attachments } =>
                ProjectCommand::SetWaypointAttachments {
                    layer_id: *layer_id,
                    waypoint_id: *waypoint_id,
                    old_attachments: clone_strings(new_attachments),
                    new_attachments: clone_strings(old_attachments),
                },
            ProjectCommand::SetWaypointColor { layer_id, waypoint_id, old_color, new_color } =>
                ProjectCommand::SetWaypointColor {
                    layer_id: *layer_id,
                    waypoint_id: *waypoint_id,
                    old_color: *new_color,
                    new_color: *old_color,
                },
            ProjectCommand::SimplifyTrack { layer_id, track_id, removed, .. } =>
                ProjectCommand::RestoreTrackPoints { layer_id: *layer_id, track_id: *track_id, points: copy_placed(removed) },
            ProjectCommand::RestoreTrackPoints { layer_id, track_id, points } =>
                ProjectCommand::SimplifyTrack { layer_id: *layer_id, track_id: *track_id, tolerance_km: 0, removed: copy_placed(points) },
            ProjectCommand::RenameTrack { layer_id, track_id, old_name, new_name } => {
                let previous = match project.locate_track(layer_id.0, track_id.0) {
                    Ok((li, ti)) => project.track_layers[li].tracks[ti].name.clone(),
                    Err(_) => old_name.clone(),
                };
                ProjectCommand::RenameTrack { layer_id: *layer_id, track_id: *track_id, old_name: new_name.clone(), new_name: previous }
            },
            ProjectCommand::RemoveMapLayer { layer } => match &layer.source_path {
                Some(path) => ProjectCommand::AddMapLayerWithSource { id: layer.id, name: layer.name.clone(), source_path: path.clone() },
                None => ProjectCommand::AddMapLayer { id: layer.id, name: layer.name.clone() },
            },
            ProjectCommand::RemoveTrackLayer { layer } => ProjectCommand::RestoreTrackLayer { layer: layer.clone() },
            ProjectCommand::RemoveWaypointLayer { layer } => ProjectCommand::RestoreWaypointLayer { layer: layer.clone() },
            ProjectCommand::RestoreTrackLayer { layer } => ProjectCommand::RemoveTrackLayer { layer: layer.clone() },
            ProjectCommand::RestoreWaypointLayer { layer } => ProjectCommand::RemoveWaypointLayer { layer: layer.clone() },
            ProjectCommand::RenameTrackLayer { layer_id, old_name, new_name } =>
                ProjectCommand::RenameTrackLayer { layer_id: *layer_id, old_name: new_name.clone(), new_name: old_name.clone() },
            ProjectCommand::RenameWaypointLayer { layer_id, old_name, new_name } =>
                ProjectCommand::RenameWaypointLayer { layer_id: *layer_id, old_name: new_name.clone(), new_name: old_name.clone() },
            ProjectCommand::RemoveTrack { layer_id, track } => ProjectCommand::AddTrack { layer_id: *layer_id, track: track.clone() },
            ProjectCommand::RemoveWaypoint { layer_id, waypoint } =>
                ProjectCommand::AddWaypoint { layer_id: *layer_id, waypoint: waypoint.clone() },
            ProjectCommand::CreateEmptyTrack { layer_id, track_id, name } => {
                let mut track = Track::new(*track_id, name.as_str());
                track.add_segment(TrackSegment::new(TrackSegmentId(1)));
                proof {
                    assert(track@.segments =~= empty_track(*track_id, name@).segments);
                }
                ProjectCommand::RemoveTrack { layer_id: *layer_id, track }
            },
        }
    }
}

} // verus!

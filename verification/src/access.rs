use vstd::prelude::*;
use crate::error::ProjectLayerError;
use crate::ids::{LayerId, TrackId, TrackPointId, TrackSegmentId};
use crate::index::first_index;
use crate::layers::{TrackLayer, TrackLayerV, WaypointLayer, find_track, track_keys};
use crate::project::{
    Project, ProjectV, find_track_layer, find_waypoint_layer, p_locate_segment, p_locate_track, p_locate_track_layer,
    p_locate_waypoint_layer, p_set_segment, p_set_track, p_set_track_layer, p_set_waypoint_layer, with_segment,
};
use crate::track::{SegmentV, Track, TrackPoint, TrackSegment, TrackStyle, TrackV, find_point, find_segment, point_keys, segment_keys};

verus! {

// ── reaching into a project to edit in place ─────────────────────────────

/// Writing a track back unchanged leaves the project as it was.
proof fn lemma_set_track_unchanged(p: ProjectV, li: int, ti: int)
    requires
        0 <= li < p.track_layers.len(),
        0 <= ti < p.track_layers[li].tracks.len(),
    ensures
        p_set_track(p, li, ti, p.track_layers[li].tracks[ti]) == p,
{
    assert(p.track_layers[li].tracks.update(ti, p.track_layers[li].tracks[ti]) == p.track_layers[li].tracks);
    assert(p.track_layers.update(li, p.track_layers[li]) == p.track_layers);
}

impl TrackSegment {
    /// The first point with this id, to edit in place.
    pub fn point_mut(&mut self, point_id: TrackPointId) -> (r: Option<&mut TrackPoint>)
        ensures
            match r {
                Some(pt) => {
                    let i = first_index(point_keys(old(self)@.points), point_id.0);
                    &&& i is Some
                    &&& *pt == old(self)@.points[i->Some_0]
                    &&& final(self)@ == (SegmentV { points: old(self)@.points.update(i->Some_0, *final(pt)), ..old(self)@ })
                },
                None => first_index(point_keys(old(self)@.points), point_id.0) is None && final(self)@ == old(self)@,
            },
    {
        match find_point(&self.points, point_id.0) {
            Some(i) => Some(&mut self.points[i]),
            None => None,
        }
    }

    /// The points themselves, to edit in place.
    pub fn points_mut(&mut self) -> (r: &mut Vec<TrackPoint>)
        ensures
            *r == old(self).points,
            final(self)@ == (SegmentV { points: final(r)@, ..old(self)@ }),
    {
        &mut self.points
    }
}

impl Track {
    /// The first segment with this id, to edit in place.
    pub fn segment_mut(&mut self, segment_id: TrackSegmentId) -> (r: Option<&mut TrackSegment>)
        ensures
            match r {
                Some(s) => {
                    let i = first_index(segment_keys(old(self)@.segments), segment_id.0);
                    &&& i is Some
                    &&& (*s)@ == old(self)@.segments[i->Some_0]
                    &&& final(self)@ == with_segment(old(self)@, i->Some_0, (*final(s))@)
                },
                None => first_index(segment_keys(old(self)@.segments), segment_id.0) is None && final(self)@ == old(self)@,
            },
    {
        match find_segment(&self.segments, segment_id.0) {
            Some(i) => Some(&mut self.segments[i]),
            None => None,
        }
    }

    /// The drawing style, to edit in place.
    pub fn style_mut(&mut self) -> (r: &mut TrackStyle)
        ensures
            *r == old(self).style,
            final(self)@ == (TrackV { style: *final(r), ..old(self)@ }),
    {
        &mut self.style
    }
}

impl TrackLayer {
    /// The first track with this id, to edit in place.
    pub fn track_mut(&mut self, track_id: TrackId) -> (r: Option<&mut Track>)
        ensures
            match r {
                Some(t) => {
                    let i = first_index(track_keys(old(self)@.tracks), track_id.0);
                    &&& i is Some
                    &&& (*t)@ == old(self)@.tracks[i->Some_0]
                    &&& final(self)@ == (TrackLayerV { tracks: old(self)@.tracks.update(i->Some_0, (*final(t))@), ..old(self)@ })
                },
                None => first_index(track_keys(old(self)@.tracks), track_id.0) is None && final(self)@ == old(self)@,
            },
    {
        match find_track(&self.tracks, track_id.0) {
            Some(i) => Some(&mut self.tracks[i]),
            None => None,
        }
    }
}

impl Project {
    /// The first track layer with this id, to edit in place.
    pub fn track_layer_mut(&mut self, layer_id: u64) -> (r: Result<&mut TrackLayer, ProjectLayerError>)
        ensures
            match r {
                Ok(l) => {
                    &&& p_locate_track_layer(old(self)@, layer_id) is Ok
                    &&& (*l)@ == old(self)@.track_layers[p_locate_track_layer(old(self)@, layer_id)->Ok_0]
                    &&& final(self)@ == p_set_track_layer(old(self)@, p_locate_track_layer(old(self)@, layer_id)->Ok_0, (*final(l))@)
                },
                Err(e) => p_locate_track_layer(old(self)@, layer_id) == Err::<int, ProjectLayerError>(e) && final(self)@ == old(self)@,
            },
    {
        match find_track_layer(&self.track_layers, layer_id) {
            Some(li) => Ok(&mut self.track_layers[li]),
            None => Err(ProjectLayerError::TrackLayerNotPresent(LayerId(layer_id))),
        }
    }

    /// The first waypoint layer with this id, to edit in place.
    pub fn waypoint_layer_mut(&mut self, layer_id: u64) -> (r: Result<&mut WaypointLayer, ProjectLayerError>)
        ensures
            match r {
                Ok(l) => {
                    &&& p_locate_waypoint_layer(old(self)@, layer_id) is Ok
                    &&& (*l)@ == old(self)@.waypoint_layers[p_locate_waypoint_layer(old(self)@, layer_id)->Ok_0]
                    &&& final(self)@ == p_set_waypoint_layer(old(self)@, p_locate_waypoint_layer(old(self)@, layer_id)->Ok_0, (*final(l))@)
                },
                Err(e) => p_locate_waypoint_layer(old(self)@, layer_id) == Err::<int, ProjectLayerError>(e) && final(self)@ == old(self)@,
            },
    {
        match find_waypoint_layer(&self.waypoint_layers, layer_id) {
            Some(li) => Ok(&mut self.waypoint_layers[li]),
            None => Err(ProjectLayerError::WaypointLayerUnavailable(LayerId(layer_id))),
        }
    }

    /// The first track with this id in the first layer with that id, to edit
    /// in place.
    pub fn track_mut(&mut self, layer_id: u64, track_id: u64) -> (r: Result<&mut Track, ProjectLayerError>)
        ensures
            match r {
                Ok(t) => {
                    let (li, ti) = p_locate_track(old(self)@, layer_id, track_id)->Ok_0;
                    &&& p_locate_track(old(self)@, layer_id, track_id) is Ok
                    &&& (*t)@ == old(self)@.track_layers[li].tracks[ti]
                    &&& final(self)@ == p_set_track(old(self)@, li, ti, (*final(t))@)
                },
                Err(e) => p_locate_track(old(self)@, layer_id, track_id) == Err::<(int, int), ProjectLayerError>(e) && final(self)@ == old(self)@,
            },
    {
        let layer = match self.track_layer_mut(layer_id) {
            Ok(l) => l,
            Err(e) => return Err(e),
        };
        match layer.track_mut(TrackId(track_id)) {
            Some(t) => Ok(t),
            None => Err(ProjectLayerError::MissingTrack { layer_id, track_id }),
        }
    }

    /// The first segment with this id in the track `track_mut` finds, to edit
    /// in place.
    pub fn track_segment_mut(&mut self, layer_id: u64, track_id: u64, segment_id: u64) -> (r: Result<&mut TrackSegment, ProjectLayerError>)
        ensures
            match r {
                Ok(s) => {
                    let (li, ti, si) = p_locate_segment(old(self)@, layer_id, track_id, segment_id)->Ok_0;
                    &&& p_locate_segment(old(self)@, layer_id, track_id, segment_id) is Ok
                    &&& (*s)@ == old(self)@.track_layers[li].tracks[ti].segments[si]
                    &&& final(self)@ == p_set_segment(old(self)@, li, ti, si, (*final(s))@)
                },
                Err(e) => p_locate_segment(old(self)@, layer_id, track_id, segment_id) == Err::<(int, int, int), ProjectLayerError>(e)
                    && final(self)@ == old(self)@,
            },
    {
        let track = match self.track_mut(layer_id, track_id) {
            Ok(t) => t,
            Err(e) => return Err(e),
        };
        match track.segment_mut(TrackSegmentId(segment_id)) {
            Some(s) => Ok(s),
            None => {
                proof {
                    let (li, ti) = p_locate_track(old(self)@, layer_id, track_id)->Ok_0;
                    lemma_set_track_unchanged(old(self)@, li, ti);
                }
                Err(ProjectLayerError::MissingTrackSegment { layer_id, track_id, segment_id })
            },
        }
    }

    /// The first point with this id in the segment `track_segment_mut` finds,
    /// to edit in place.
    pub fn track_point_mut(&mut self, layer_id: u64, track_id: u64, segment_id: u64, point_id: u64) -> (r: Result<&mut TrackPoint, ProjectLayerError>)
        ensures
            match r {
                Ok(pt) => {
                    let (li, ti, si) = p_locate_segment(old(self)@, layer_id, track_id, segment_id)->Ok_0;
                    let seg = old(self)@.track_layers[li].tracks[ti].segments[si];
                    let k = first_index(point_keys(seg.points), point_id)->Some_0;
                    &&& p_locate_segment(old(self)@, layer_id, track_id, segment_id) is Ok
                    &&& first_index(point_keys(seg.points), point_id) is Some
                    &&& *pt == seg.points[k]
                    &&& final(self)@ == p_set_segment(old(self)@, li, ti, si, SegmentV { points: seg.points.update(k, *final(pt)), ..seg })
                },
                Err(e) => {
                    &&& final(self)@ == old(self)@
                    &&& match p_locate_segment(old(self)@, layer_id, track_id, segment_id) {
                        Err(e2) => e == e2,
                        Ok((li, ti, si)) => {
                            &&& first_index(point_keys(old(self)@.track_layers[li].tracks[ti].segments[si].points), point_id) is None
                            &&& e == ProjectLayerError::MissingTrackPoint { layer_id, track_id, segment_id, point_id }
                        },
                    }
                },
            },
    {
        let segment = match self.track_segment_mut(layer_id, track_id, segment_id) {
            Ok(s) => s,
            Err(e) => return Err(e),
        };
        match segment.point_mut(TrackPointId(point_id)) {
            Some(pt) => Ok(pt),
            None => {
                proof {
                    let (li, ti, si) = p_locate_segment(old(self)@, layer_id, track_id, segment_id)->Ok_0;
                    lemma_set_track_unchanged(old(self)@, li, ti);
                    assert(with_segment(old(self)@.track_layers[li].tracks[ti], si, old(self)@.track_layers[li].tracks[ti].segments[si])
                        == old(self)@.track_layers[li].tracks[ti]);
                }
                Err(ProjectLayerError::MissingTrackPoint { layer_id, track_id, segment_id, point_id })
            },
        }
    }
}

} // verus!

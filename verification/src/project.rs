use vstd::prelude::*;
use crate::error::ProjectLayerError;
use crate::ids::{LayerId, ProjectId, TrackId, WaypointId};
use crate::index::{as_index, first_index, lemma_first_index_none, lemma_first_index_some};
use crate::layers::{
    MapLayer, MapLayerV, TrackLayer, TrackLayerV, WaypointLayer, WaypointLayerV, find_track,
    placeholder_waypoint, track_keys, tracks_view, waypoint_keys, empty_track, layer_remove_track,
    layer_remove_waypoint, layer_set_track_visible, with_visible,
};
use crate::track::{
    SegmentV, Track, TrackPoint, TrackSegment, TrackStyle, TrackV, default_track_style, find_segment,
    seg_insert_point, seg_move_point, seg_remove_point, seg_split, segment_keys, track_join,
    track_remove_segment,
};
use crate::ids::{LayerIdLike, TrackSegmentId, WaypointIdLike};
use crate::waypoint::{Waypoint, WaypointV};

verus! {

/// What a project is, for the contracts.
#[verifier::ext_equal]
pub struct ProjectV {
    pub id: ProjectId,
    pub name: Seq<char>,
    pub map_layers: Seq<MapLayerV>,
    pub track_layers: Seq<TrackLayerV>,
    pub waypoint_layers: Seq<WaypointLayerV>,
}

pub open spec fn map_layers_view(v: Seq<MapLayer>) -> Seq<MapLayerV> {
    v.map_values(|l: MapLayer| l@)
}

pub open spec fn track_layers_view(v: Seq<TrackLayer>) -> Seq<TrackLayerV> {
    v.map_values(|l: TrackLayer| l@)
}

pub open spec fn waypoint_layers_view(v: Seq<WaypointLayer>) -> Seq<WaypointLayerV> {
    v.map_values(|l: WaypointLayer| l@)
}

pub open spec fn map_layer_keys(v: Seq<MapLayerV>) -> Seq<u64> {
    Seq::new(v.len(), |i: int| v[i].id.0)
}

pub open spec fn track_layer_keys(v: Seq<TrackLayerV>) -> Seq<u64> {
    Seq::new(v.len(), |i: int| v[i].id.0)
}

pub open spec fn waypoint_layer_keys(v: Seq<WaypointLayerV>) -> Seq<u64> {
    Seq::new(v.len(), |i: int| v[i].id.0)
}

/// One search's work: the maps it is drawn over, its tracks and its marks.
#[derive(Debug, PartialEq)]
pub struct Project {
    pub id: ProjectId,
    pub name: String,
    pub map_layers: Vec<MapLayer>,
    pub track_layers: Vec<TrackLayer>,
    pub waypoint_layers: Vec<WaypointLayer>,
}

impl View for Project {
    type V = ProjectV;

    open spec fn view(&self) -> ProjectV {
        ProjectV {
            id: self.id,
            name: self.name@,
            map_layers: map_layers_view(self.map_layers@),
            track_layers: track_layers_view(self.track_layers@),
            waypoint_layers: waypoint_layers_view(self.waypoint_layers@),
        }
    }
}

pub fn find_map_layer(v: &Vec<MapLayer>, id: u64) -> (r: Option<usize>)
    ensures
        as_index(r) == first_index(map_layer_keys(map_layers_view(v@)), id),
        r matches Some(i) ==> i < v.len(),
{
    let ghost keys = map_layer_keys(map_layers_view(v@));
    let mut i: usize = 0;
    while i < v.len()
        invariant
            i <= v.len(),
            keys == map_layer_keys(map_layers_view(v@)),
            forall|j: int| 0 <= j < i ==> keys[j] != id,
        decreases v.len() - i,
    {
        if v[i].id.0 == id {
            proof {
                lemma_first_index_some(keys, id, i as int);
            }
            return Some(i);
        }
        i = i + 1;
    }
    proof {
        lemma_first_index_none(keys, id);
    }
    None
}

pub fn find_track_layer(v: &Vec<TrackLayer>, id: u64) -> (r: Option<usize>)
    ensures
        as_index(r) == first_index(track_layer_keys(track_layers_view(v@)), id),
        r matches Some(i) ==> i < v.len(),
{
    let ghost keys = track_layer_keys(track_layers_view(v@));
    let mut i: usize = 0;
    while i < v.len()
        invariant
            i <= v.len(),
            keys == track_layer_keys(track_layers_view(v@)),
            forall|j: int| 0 <= j < i ==> keys[j] != id,
        decreases v.len() - i,
    {
        if v[i].id.0 == id {
            proof {
                lemma_first_index_some(keys, id, i as int);
            }
            return Some(i);
        }
        i = i + 1;
    }
    proof {
        lemma_first_index_none(keys, id);
    }
    None
}

pub fn find_waypoint_layer(v: &Vec<WaypointLayer>, id: u64) -> (r: Option<usize>)
    ensures
        as_index(r) == first_index(waypoint_layer_keys(waypoint_layers_view(v@)), id),
        r matches Some(i) ==> i < v.len(),
{
    let ghost keys = waypoint_layer_keys(waypoint_layers_view(v@));
    let mut i: usize = 0;
    while i < v.len()
        invariant
            i <= v.len(),
            keys == waypoint_layer_keys(waypoint_layers_view(v@)),
            forall|j: int| 0 <= j < i ==> keys[j] != id,
        decreases v.len() - i,
    {
        if v[i].id.0 == id {
            proof {
                lemma_first_index_some(keys, id, i as int);
            }
            return Some(i);
        }
        i = i + 1;
    }
    proof {
        lemma_first_index_none(keys, id);
    }
    None
}

// ── locating things ──────────────────────────────────────────────────────

pub open spec fn p_set_track_layer(p: ProjectV, li: int, l: TrackLayerV) -> ProjectV {
    ProjectV { track_layers: p.track_layers.update(li, l), ..p }
}

pub open spec fn p_set_waypoint_layer(p: ProjectV, li: int, l: WaypointLayerV) -> ProjectV {
    ProjectV { waypoint_layers: p.waypoint_layers.update(li, l), ..p }
}

pub open spec fn p_set_track(p: ProjectV, li: int, ti: int, t: TrackV) -> ProjectV {
    p_set_track_layer(p, li, TrackLayerV { tracks: p.track_layers[li].tracks.update(ti, t), ..p.track_layers[li] })
}

pub open spec fn p_set_waypoint(p: ProjectV, li: int, wi: int, w: WaypointV) -> ProjectV {
    p_set_waypoint_layer(p, li, WaypointLayerV { waypoints: p.waypoint_layers[li].waypoints.update(wi, w), ..p.waypoint_layers[li] })
}

/// The first track layer with this id, or the error every track edit
/// answers when there is none.
pub open spec fn p_locate_track_layer(p: ProjectV, layer_id: u64) -> Result<int, ProjectLayerError> {
    match first_index(track_layer_keys(p.track_layers), layer_id) {
        Some(li) => Ok(li),
        None => Err(ProjectLayerError::TrackLayerNotPresent(LayerId(layer_id))),
    }
}

pub open spec fn p_locate_waypoint_layer(p: ProjectV, layer_id: u64) -> Result<int, ProjectLayerError> {
    match first_index(waypoint_layer_keys(p.waypoint_layers), layer_id) {
        Some(li) => Ok(li),
        None => Err(ProjectLayerError::WaypointLayerUnavailable(LayerId(layer_id))),
    }
}

pub open spec fn p_locate_track(p: ProjectV, layer_id: u64, track_id: u64) -> Result<(int, int), ProjectLayerError> {
    match p_locate_track_layer(p, layer_id) {
        Err(e) => Err(e),
        Ok(li) => match first_index(track_keys(p.track_layers[li].tracks), track_id) {
            Some(ti) => Ok((li, ti)),
            None => Err(ProjectLayerError::MissingTrack { layer_id, track_id }),
        },
    }
}

pub open spec fn p_locate_waypoint(p: ProjectV, layer_id: u64, waypoint_id: u64) -> Result<(int, int), ProjectLayerError> {
    match p_locate_waypoint_layer(p, layer_id) {
        Err(e) => Err(e),
        Ok(li) => match first_index(waypoint_keys(p.waypoint_layers[li].waypoints), waypoint_id) {
            Some(wi) => Ok((li, wi)),
            None => Err(ProjectLayerError::WaypointNotFound(LayerId(layer_id), WaypointId(waypoint_id))),
        },
    }
}

pub open spec fn placeholder_track() -> TrackV {
    TrackV { id: TrackId(0), name: Seq::empty(), style: default_track_style(), segments: Seq::empty() }
}

pub open spec fn placeholder_track_layer() -> TrackLayerV {
    TrackLayerV { id: LayerId(0), name: Seq::empty(), tracks: Seq::empty() }
}

pub open spec fn placeholder_waypoint_layer() -> WaypointLayerV {
    WaypointLayerV { id: LayerId(0), name: Seq::empty(), waypoints: Seq::empty() }
}

pub proof fn lemma_p_set_track_twice(p: ProjectV, li: int, ti: int, a: TrackV, b: TrackV)
    requires
        0 <= li < p.track_layers.len(),
        0 <= ti < p.track_layers[li].tracks.len(),
    ensures
        p_set_track(p_set_track(p, li, ti, a), li, ti, b) == p_set_track(p, li, ti, b),
{
    let q = p_set_track(p, li, ti, a);
    assert(q.track_layers[li].tracks.update(ti, b) =~= p.track_layers[li].tracks.update(ti, b));
    assert(p_set_track(q, li, ti, b).track_layers =~= p_set_track(p, li, ti, b).track_layers);
    assert(p_set_track(p_set_track(p, li, ti, a), li, ti, b) =~= p_set_track(p, li, ti, b));
}

pub proof fn lemma_p_set_track_same(p: ProjectV, li: int, ti: int)
    requires
        0 <= li < p.track_layers.len(),
        0 <= ti < p.track_layers[li].tracks.len(),
    ensures
        p_set_track(p, li, ti, p.track_layers[li].tracks[ti]) == p,
{
    assert(p.track_layers[li].tracks.update(ti, p.track_layers[li].tracks[ti]) =~= p.track_layers[li].tracks);
    assert(p_set_track(p, li, ti, p.track_layers[li].tracks[ti]).track_layers =~= p.track_layers);
    assert(p_set_track(p, li, ti, p.track_layers[li].tracks[ti]) =~= p);
}

pub proof fn lemma_p_set_waypoint_twice(p: ProjectV, li: int, wi: int, a: WaypointV, b: WaypointV)
    requires
        0 <= li < p.waypoint_layers.len(),
        0 <= wi < p.waypoint_layers[li].waypoints.len(),
    ensures
        p_set_waypoint(p_set_waypoint(p, li, wi, a), li, wi, b) == p_set_waypoint(p, li, wi, b),
{
    let q = p_set_waypoint(p, li, wi, a);
    assert(q.waypoint_layers[li].waypoints.update(wi, b) =~= p.waypoint_layers[li].waypoints.update(wi, b));
    assert(p_set_waypoint(q, li, wi, b).waypoint_layers =~= p_set_waypoint(p, li, wi, b).waypoint_layers);
    assert(p_set_waypoint(p_set_waypoint(p, li, wi, a), li, wi, b) =~= p_set_waypoint(p, li, wi, b));
}

pub proof fn lemma_p_set_waypoint_same(p: ProjectV, li: int, wi: int)
    requires
        0 <= li < p.waypoint_layers.len(),
        0 <= wi < p.waypoint_layers[li].waypoints.len(),
    ensures
        p_set_waypoint(p, li, wi, p.waypoint_layers[li].waypoints[wi]) == p,
{
    assert(p.waypoint_layers[li].waypoints.update(wi, p.waypoint_layers[li].waypoints[wi]) =~= p.waypoint_layers[li].waypoints);
    assert(p_set_waypoint(p, li, wi, p.waypoint_layers[li].waypoints[wi]).waypoint_layers =~= p.waypoint_layers);
    assert(p_set_waypoint(p, li, wi, p.waypoint_layers[li].waypoints[wi]) =~= p);
}

pub fn placeholder_track_exec() -> (t: Track)
    ensures
        t@ == placeholder_track(),
{
    let t = Track { id: TrackId(0), name: String::new(), style: TrackStyle::default(), segments: Vec::new() };
    proof {
        assert(t@.segments =~= Seq::<crate::track::SegmentV>::empty());
    }
    t
}

impl Project {
    /// Take out the first track layer with this id, leaving a placeholder.
    pub fn take_track_layer(&mut self, layer_id: u64) -> (r: Result<(usize, TrackLayer), ProjectLayerError>)
        ensures
            match r {
                Ok((li, l)) => {
                    &&& p_locate_track_layer(old(self)@, layer_id) == Ok::<int, ProjectLayerError>(li as int)
                    &&& l@ == old(self)@.track_layers[li as int]
                    &&& li < old(self)@.track_layers.len()
                    &&& final(self)@ == p_set_track_layer(old(self)@, li as int, placeholder_track_layer())
                },
                Err(e) => p_locate_track_layer(old(self)@, layer_id) == Err::<int, ProjectLayerError>(e) && final(self)@ == old(self)@,
            },
    {
        match find_track_layer(&self.track_layers, layer_id) {
            Some(li) => {
                let mut layer = TrackLayer { id: LayerId(0), name: String::new(), tracks: Vec::new() };
                proof {
                    assert(layer@.tracks =~= Seq::<TrackV>::empty());
                }
                self.track_layers.set_and_swap(li, &mut layer);
                proof {
                    assert(track_layers_view(self.track_layers@) =~= old(self)@.track_layers.update(li as int, placeholder_track_layer()));
                }
                Ok((li, layer))
            },
            None => Err(ProjectLayerError::TrackLayerNotPresent(LayerId(layer_id))),
        }
    }

    /// Put back a track layer where `take_track_layer` took it from.
    pub fn put_track_layer(&mut self, li: usize, layer: TrackLayer)
        requires
            li < old(self)@.track_layers.len(),
        ensures
            final(self)@ == p_set_track_layer(old(self)@, li as int, layer@),
    {
        assert(self.track_layers@.len() == self@.track_layers.len());
        let mut l = layer;
        self.track_layers.set_and_swap(li, &mut l);
        proof {
            assert(track_layers_view(self.track_layers@) =~= old(self)@.track_layers.update(li as int, layer@));
        }
    }

    pub fn take_waypoint_layer(&mut self, layer_id: u64) -> (r: Result<(usize, WaypointLayer), ProjectLayerError>)
        ensures
            match r {
                Ok((li, l)) => {
                    &&& p_locate_waypoint_layer(old(self)@, layer_id) == Ok::<int, ProjectLayerError>(li as int)
                    &&& l@ == old(self)@.waypoint_layers[li as int]
                    &&& li < old(self)@.waypoint_layers.len()
                    &&& final(self)@ == p_set_waypoint_layer(old(self)@, li as int, placeholder_waypoint_layer())
                },
                Err(e) => p_locate_waypoint_layer(old(self)@, layer_id) == Err::<int, ProjectLayerError>(e) && final(self)@ == old(self)@,
            },
    {
        match find_waypoint_layer(&self.waypoint_layers, layer_id) {
            Some(li) => {
                let mut layer = WaypointLayer { id: LayerId(0), name: String::new(), waypoints: Vec::new() };
                proof {
                    assert(layer@.waypoints =~= Seq::<WaypointV>::empty());
                }
                self.waypoint_layers.set_and_swap(li, &mut layer);
                proof {
                    assert(waypoint_layers_view(self.waypoint_layers@) =~= old(self)@.waypoint_layers.update(li as int, placeholder_waypoint_layer()));
                }
                Ok((li, layer))
            },
            None => Err(ProjectLayerError::WaypointLayerUnavailable(LayerId(layer_id))),
        }
    }

    pub fn put_waypoint_layer(&mut self, li: usize, layer: WaypointLayer)
        requires
            li < old(self)@.waypoint_layers.len(),
        ensures
            final(self)@ == p_set_waypoint_layer(old(self)@, li as int, layer@),
    {
        assert(self.waypoint_layers@.len() == self@.waypoint_layers.len());
        let mut l = layer;
        self.waypoint_layers.set_and_swap(li, &mut l);
        proof {
            assert(waypoint_layers_view(self.waypoint_layers@) =~= old(self)@.waypoint_layers.update(li as int, layer@));
        }
    }

    /// Take out a track, leaving a placeholder until `put_track` returns it.
    pub fn take_track(&mut self, layer_id: u64, track_id: u64) -> (r: Result<(usize, usize, Track), ProjectLayerError>)
        ensures
            match r {
                Ok((li, ti, t)) => {
                    &&& p_locate_track(old(self)@, layer_id, track_id) == Ok::<(int, int), ProjectLayerError>((li as int, ti as int))
                    &&& li < old(self)@.track_layers.len()
                    &&& ti < old(self)@.track_layers[li as int].tracks.len()
                    &&& t@ == old(self)@.track_layers[li as int].tracks[ti as int]
                    &&& final(self)@ == p_set_track(old(self)@, li as int, ti as int, placeholder_track())
                },
                Err(e) => p_locate_track(old(self)@, layer_id, track_id) == Err::<(int, int), ProjectLayerError>(e) && final(self)@ == old(self)@,
            },
    {
        let (li, mut layer) = match self.take_track_layer(layer_id) {
            Ok(x) => x,
            Err(e) => return Err(e),
        };
        assert(self.track_layers@.len() == self@.track_layers.len());
        match find_track(&layer.tracks, track_id) {
            Some(ti) => {
                let mut t = placeholder_track_exec();
                layer.tracks.set_and_swap(ti, &mut t);
                let ghost lv = layer@;
                self.put_track_layer(li, layer);
                proof {
                    assert(lv.tracks =~= old(self)@.track_layers[li as int].tracks.update(ti as int, placeholder_track()));
                    assert(self@.track_layers =~= p_set_track(old(self)@, li as int, ti as int, placeholder_track()).track_layers);
                    assert(self@ =~= p_set_track(old(self)@, li as int, ti as int, placeholder_track()));
                }
                Ok((li, ti, t))
            },
            None => {
                self.put_track_layer(li, layer);
                proof {
                    assert(self@.track_layers =~= old(self)@.track_layers);
                    assert(self@ =~= old(self)@);
                }
                Err(ProjectLayerError::MissingTrack { layer_id, track_id })
            },
        }
    }

    /// Put a track back where `take_track` took it from.
    pub fn put_track(&mut self, li: usize, ti: usize, track: Track)
        requires
            li < old(self)@.track_layers.len(),
            ti < old(self)@.track_layers[li as int].tracks.len(),
        ensures
            final(self)@ == p_set_track(old(self)@, li as int, ti as int, track@),
    {
        let mut layer = TrackLayer { id: LayerId(0), name: String::new(), tracks: Vec::new() };
        assert(self.track_layers@.len() == self@.track_layers.len());
        self.track_layers.set_and_swap(li, &mut layer);
        let mut t = track;
        layer.tracks.set_and_swap(ti, &mut t);
        let ghost lv = layer@;
        self.track_layers.set_and_swap(li, &mut layer);
        proof {
            assert(lv.tracks =~= old(self)@.track_layers[li as int].tracks.update(ti as int, track@));
            assert(self@.track_layers =~= p_set_track(old(self)@, li as int, ti as int, track@).track_layers);
            assert(self@ =~= p_set_track(old(self)@, li as int, ti as int, track@));
        }
    }

    /// Take out a mark, leaving a placeholder until `put_waypoint` returns it.
    pub fn take_waypoint(&mut self, layer_id: u64, waypoint_id: u64) -> (r: Result<(usize, usize, Waypoint), ProjectLayerError>)
        ensures
            match r {
                Ok((li, wi, w)) => {
                    &&& p_locate_waypoint(old(self)@, layer_id, waypoint_id) == Ok::<(int, int), ProjectLayerError>((li as int, wi as int))
                    &&& li < old(self)@.waypoint_layers.len()
                    &&& wi < old(self)@.waypoint_layers[li as int].waypoints.len()
                    &&& w@ == old(self)@.waypoint_layers[li as int].waypoints[wi as int]
                    &&& final(self)@ == p_set_waypoint(old(self)@, li as int, wi as int, placeholder_waypoint())
                },
                Err(e) => p_locate_waypoint(old(self)@, layer_id, waypoint_id) == Err::<(int, int), ProjectLayerError>(e) && final(self)@ == old(self)@,
            },
    {
        let (li, mut layer) = match self.take_waypoint_layer(layer_id) {
            Ok(x) => x,
            Err(e) => return Err(e),
        };
        let r = layer.take_waypoint(waypoint_id);
        assert(self.waypoint_layers@.len() == self@.waypoint_layers.len());
        self.put_waypoint_layer(li, layer);
        match r {
            Ok((wi, w)) => {
                proof {
                    assert(self@.waypoint_layers =~= p_set_waypoint(old(self)@, li as int, wi as int, placeholder_waypoint()).waypoint_layers);
                    assert(self@ =~= p_set_waypoint(old(self)@, li as int, wi as int, placeholder_waypoint()));
                }
                Ok((li, wi, w))
            },
            Err(e) => {
                proof {
                    assert(self@.waypoint_layers =~= old(self)@.waypoint_layers);
                    assert(self@ =~= old(self)@);
                }
                Err(ProjectLayerError::WaypointNotFound(LayerId(layer_id), WaypointId(waypoint_id)))
            },
        }
    }

    /// Put a mark back where `take_waypoint` took it from.
    pub fn put_waypoint(&mut self, li: usize, wi: usize, waypoint: Waypoint)
        requires
            li < old(self)@.waypoint_layers.len(),
            wi < old(self)@.waypoint_layers[li as int].waypoints.len(),
        ensures
            final(self)@ == p_set_waypoint(old(self)@, li as int, wi as int, waypoint@),
    {
        let mut layer = WaypointLayer { id: LayerId(0), name: String::new(), waypoints: Vec::new() };
        assert(self.waypoint_layers@.len() == self@.waypoint_layers.len());
        self.waypoint_layers.set_and_swap(li, &mut layer);
        layer.put_waypoint(wi, waypoint);
        self.waypoint_layers.set_and_swap(li, &mut layer);
        proof {
            assert(self@.waypoint_layers =~= p_set_waypoint(old(self)@, li as int, wi as int, waypoint@).waypoint_layers);
            assert(self@ =~= p_set_waypoint(old(self)@, li as int, wi as int, waypoint@));
        }
    }
}


// ── segments inside a project ────────────────────────────────────────────

pub open spec fn p_locate_segment(p: ProjectV, layer_id: u64, track_id: u64, segment_id: u64) -> Result<(int, int, int), ProjectLayerError> {
    match p_locate_track(p, layer_id, track_id) {
        Err(e) => Err(e),
        Ok((li, ti)) => match first_index(segment_keys(p.track_layers[li].tracks[ti].segments), segment_id) {
            Some(si) => Ok((li, ti, si)),
            None => Err(ProjectLayerError::MissingTrackSegment { layer_id, track_id, segment_id }),
        },
    }
}

pub open spec fn p_segment(p: ProjectV, li: int, ti: int, si: int) -> SegmentV {
    p.track_layers[li].tracks[ti].segments[si]
}

pub open spec fn with_segment(t: TrackV, si: int, s: SegmentV) -> TrackV {
    TrackV { segments: t.segments.update(si, s), ..t }
}

pub open spec fn p_set_segment(p: ProjectV, li: int, ti: int, si: int, s: SegmentV) -> ProjectV {
    p_set_track(p, li, ti, with_segment(p.track_layers[li].tracks[ti], si, s))
}

pub open spec fn placeholder_segment() -> SegmentV {
    SegmentV { id: TrackSegmentId(0), points: Seq::empty() }
}

pub open spec fn p_move_point(p: ProjectV, l: u64, t: u64, s: u64, pt: u64, lat: u64, lon: u64) -> (ProjectV, Result<(u64, u64), ProjectLayerError>) {
    match p_locate_segment(p, l, t, s) {
        Err(e) => (p, Err(e)),
        Ok((li, ti, si)) => {
            let (s2, r) = seg_move_point(p_segment(p, li, ti, si), pt, lat, lon);
            match r {
                Ok(x) => (p_set_segment(p, li, ti, si, s2), Ok(x)),
                Err(_) => (p, Err(ProjectLayerError::MissingTrackPoint { layer_id: l, track_id: t, segment_id: s, point_id: pt })),
            }
        },
    }
}

pub open spec fn p_remove_point(p: ProjectV, l: u64, t: u64, s: u64, pt: u64) -> (ProjectV, Result<(usize, TrackPoint), ProjectLayerError>) {
    match p_locate_segment(p, l, t, s) {
        Err(e) => (p, Err(e)),
        Ok((li, ti, si)) => {
            let (s2, r) = seg_remove_point(p_segment(p, li, ti, si), pt);
            match r {
                Ok(x) => (p_set_segment(p, li, ti, si, s2), Ok(x)),
                Err(_) => (p, Err(ProjectLayerError::MissingTrackPoint { layer_id: l, track_id: t, segment_id: s, point_id: pt })),
            }
        },
    }
}

pub open spec fn p_insert_point(p: ProjectV, l: u64, t: u64, s: u64, index: usize, point: TrackPoint) -> (ProjectV, Result<(), ProjectLayerError>) {
    match p_locate_segment(p, l, t, s) {
        Err(e) => (p, Err(e)),
        Ok((li, ti, si)) => {
            let (s2, r) = seg_insert_point(p_segment(p, li, ti, si), index, point);
            match r {
                Ok(x) => (p_set_segment(p, li, ti, si, s2), Ok(x)),
                Err(_) => (p, Err(ProjectLayerError::MissingTrackPoint { layer_id: l, track_id: t, segment_id: s, point_id: index as u64 })),
            }
        },
    }
}

/// One more than the largest segment id of the track (0 when it has none).
pub open spec fn max_segment_id(segments: Seq<SegmentV>) -> int
    decreases segments.len(),
{
    if segments.len() == 0 {
        0
    } else {
        let rest = max_segment_id(segments.drop_last());
        if segments.last().id.0 > rest { segments.last().id.0 as int } else { rest }
    }
}

pub open spec fn p_split_segment(p: ProjectV, l: u64, t: u64, s: u64, pt: u64) -> (ProjectV, Result<SegmentV, ProjectLayerError>) {
    match p_locate_segment(p, l, t, s) {
        Err(e) => (p, Err(e)),
        Ok((li, ti, si)) => {
            let new_id = TrackSegmentId((max_segment_id(p.track_layers[li].tracks[ti].segments) + 1) as u64);
            let (s2, r) = seg_split(p_segment(p, li, ti, si), pt, new_id);
            match r {
                Ok(x) => (p_set_segment(p, li, ti, si, s2), Ok(x)),
                Err(_) => (p, Err(ProjectLayerError::MissingTrackPoint { layer_id: l, track_id: t, segment_id: s, point_id: pt })),
            }
        },
    }
}

pub open spec fn p_remove_segment(p: ProjectV, l: u64, t: u64, s: u64) -> (ProjectV, Result<(usize, SegmentV), ProjectLayerError>) {
    match p_locate_track(p, l, t) {
        Err(e) => (p, Err(e)),
        Ok((li, ti)) => {
            let (t2, r) = track_remove_segment(p.track_layers[li].tracks[ti], s);
            match r {
                Ok(x) => (p_set_track(p, li, ti, t2), Ok(x)),
                Err(_) => (p, Err(ProjectLayerError::MissingTrackSegment { layer_id: l, track_id: t, segment_id: s })),
            }
        },
    }
}

pub open spec fn p_join_segments(p: ProjectV, l: u64, t: u64, a: u64, b: u64) -> (ProjectV, Result<SegmentV, ProjectLayerError>) {
    match p_locate_track(p, l, t) {
        Err(e) => (p, Err(e)),
        Ok((li, ti)) => {
            let (t2, r) = track_join(p.track_layers[li].tracks[ti], a, b);
            match r {
                Ok(x) => (p_set_track(p, li, ti, t2), Ok(x)),
                Err(_) => (p, Err(ProjectLayerError::MissingTrackSegment { layer_id: l, track_id: t, segment_id: b })),
            }
        },
    }
}

pub proof fn lemma_segment_roundtrip(p: ProjectV, li: int, ti: int, si: int, s: SegmentV)
    requires
        0 <= li < p.track_layers.len(),
        0 <= ti < p.track_layers[li].tracks.len(),
        0 <= si < p.track_layers[li].tracks[ti].segments.len(),
    ensures
        p_set_track(p_set_track(p, li, ti, placeholder_track()), li, ti,
            with_segment(with_segment(p.track_layers[li].tracks[ti], si, placeholder_segment()), si, s))
            == p_set_segment(p, li, ti, si, s),
        p_set_segment(p, li, ti, si, p_segment(p, li, ti, si)) == p,
{
    lemma_p_set_track_twice(p, li, ti, placeholder_track(),
        with_segment(with_segment(p.track_layers[li].tracks[ti], si, placeholder_segment()), si, s));
    let t = p.track_layers[li].tracks[ti];
    assert(with_segment(with_segment(t, si, placeholder_segment()), si, s).segments =~= with_segment(t, si, s).segments);
    assert(with_segment(with_segment(t, si, placeholder_segment()), si, s) =~= with_segment(t, si, s));
    assert(with_segment(t, si, t.segments[si]).segments =~= t.segments);
    assert(with_segment(t, si, t.segments[si]) =~= t);
    lemma_p_set_track_same(p, li, ti);
}

impl Project {
    /// Take out a segment together with the track that holds it; the track
    /// keeps a placeholder in the segment's place.
    fn take_segment(&mut self, l: u64, t: u64, s: u64) -> (r: Result<(usize, usize, usize, Track, TrackSegment), ProjectLayerError>)
        ensures
            match r {
                Ok((li, ti, si, track, seg)) => {
                    &&& p_locate_segment(old(self)@, l, t, s) == Ok::<(int, int, int), ProjectLayerError>((li as int, ti as int, si as int))
                    &&& li < old(self)@.track_layers.len()
                    &&& ti < old(self)@.track_layers[li as int].tracks.len()
                    &&& si < old(self)@.track_layers[li as int].tracks[ti as int].segments.len()
                    &&& seg@ == p_segment(old(self)@, li as int, ti as int, si as int)
                    &&& track@ == with_segment(old(self)@.track_layers[li as int].tracks[ti as int], si as int, placeholder_segment())
                    &&& final(self)@ == p_set_track(old(self)@, li as int, ti as int, placeholder_track())
                },
                Err(e) => p_locate_segment(old(self)@, l, t, s) == Err::<(int, int, int), ProjectLayerError>(e) && final(self)@ == old(self)@,
            },
    {
        let (li, ti, mut track) = match self.take_track(l, t) {
            Ok(x) => x,
            Err(e) => return Err(e),
        };
        match find_segment(&track.segments, s) {
            Some(si) => {
                let mut seg = TrackSegment::new(TrackSegmentId(0));
                track.segments.set_and_swap(si, &mut seg);
                proof {
                    assert(track@.segments =~= old(self)@.track_layers[li as int].tracks[ti as int].segments.update(si as int, placeholder_segment()));
                    assert(track@ =~= with_segment(old(self)@.track_layers[li as int].tracks[ti as int], si as int, placeholder_segment()));
                }
                Ok((li, ti, si, track, seg))
            },
            None => {
                let ghost tv = track@;
                self.put_track(li, ti, track);
                proof {
                    lemma_p_set_track_twice(old(self)@, li as int, ti as int, placeholder_track(), tv);
                    lemma_p_set_track_same(old(self)@, li as int, ti as int);
                }
                Err(ProjectLayerError::MissingTrackSegment { layer_id: l, track_id: t, segment_id: s })
            },
        }
    }

    /// Put a segment and its track back after `take_segment`.
    fn put_segment(&mut self, li: usize, ti: usize, si: usize, track: Track, seg: TrackSegment)
        requires
            li < old(self)@.track_layers.len(),
            ti < old(self)@.track_layers[li as int].tracks.len(),
            si < track@.segments.len(),
        ensures
            final(self)@ == p_set_track(old(self)@, li as int, ti as int, with_segment(track@, si as int, seg@)),
    {
        let mut track = track;
        let ghost before = track@;
        let mut seg = seg;
        let ghost sv = seg@;
        track.segments.set_and_swap(si, &mut seg);
        proof {
            assert(track@.segments =~= before.segments.update(si as int, sv));
            assert(track@ =~= with_segment(before, si as int, sv));
        }
        self.put_track(li, ti, track);
    }

    /// Move a track point, answering with its old coordinates.
    pub fn move_point_in_layer(&mut self, layer_id: u64, track_id: u64, segment_id: u64, point_id: u64, lat: u64, lon: u64) -> (r: Result<(u64, u64), ProjectLayerError>)
        ensures
            (final(self)@, r) == p_move_point(old(self)@, layer_id, track_id, segment_id, point_id, lat, lon),
    {
        let (li, ti, si, track, mut seg) = match self.take_segment(layer_id, track_id, segment_id) {
            Ok(x) => x,
            Err(e) => return Err(e),
        };
        let r = seg.move_point(point_id, lat, lon);
        self.put_segment(li, ti, si, track, seg);
        proof {
            lemma_segment_roundtrip(old(self)@, li as int, ti as int, si as int, seg@);
        }
        match r {
            Ok(x) => Ok(x),
            Err(_) => Err(ProjectLayerError::MissingTrackPoint { layer_id, track_id, segment_id, point_id }),
        }
    }

    /// Remove a track point, answering with where it stood and what it was.
    pub fn remove_point_from_layer(&mut self, layer_id: u64, track_id: u64, segment_id: u64, point_id: u64) -> (r: Result<(usize, TrackPoint), ProjectLayerError>)
        ensures
            (final(self)@, r) == p_remove_point(old(self)@, layer_id, track_id, segment_id, point_id),
    {
        let (li, ti, si, track, mut seg) = match self.take_segment(layer_id, track_id, segment_id) {
            Ok(x) => x,
            Err(e) => return Err(e),
        };
        let r = seg.remove_point(point_id);
        self.put_segment(li, ti, si, track, seg);
        proof {
            lemma_segment_roundtrip(old(self)@, li as int, ti as int, si as int, seg@);
        }
        match r {
            Ok(x) => Ok(x),
            Err(_) => Err(ProjectLayerError::MissingTrackPoint { layer_id, track_id, segment_id, point_id }),
        }
    }

    /// Insert a track point at `index` of a segment.
    pub fn insert_point_in_layer(&mut self, layer_id: u64, track_id: u64, segment_id: u64, index: usize, point: TrackPoint) -> (r: Result<(), ProjectLayerError>)
        ensures
            (final(self)@, r) == p_insert_point(old(self)@, layer_id, track_id, segment_id, index, point),
    {
        let (li, ti, si, track, mut seg) = match self.take_segment(layer_id, track_id, segment_id) {
            Ok(x) => x,
            Err(e) => return Err(e),
        };
        let r = seg.insert_point_at(index, point);
        self.put_segment(li, ti, si, track, seg);
        proof {
            lemma_segment_roundtrip(old(self)@, li as int, ti as int, si as int, seg@);
        }
        match r {
            Ok(x) => Ok(x),
            Err(_) => Err(ProjectLayerError::MissingTrackPoint { layer_id, track_id, segment_id, point_id: index as u64 }),
        }
    }
}

/// Split a segment at a point and put the points after it, under `new_id`,
/// directly after it in the same track: the left part keeps the split point
/// and the new segment starts with the point that followed it, so no point
/// is held twice.
pub open spec fn p_split_insert(p: ProjectV, l: u64, t: u64, s: u64, pt: u64, new_id: TrackSegmentId) -> (ProjectV, Result<(), ProjectLayerError>) {
    match p_locate_segment(p, l, t, s) {
        Err(e) => (p, Err(e)),
        Ok((li, ti, si)) => {
            let tr = p.track_layers[li].tracks[ti];
            let (left, r) = seg_split(tr.segments[si], pt, new_id);
            match r {
                Err(_) => (p, Err(ProjectLayerError::MissingTrackPoint { layer_id: l, track_id: t, segment_id: s, point_id: pt })),
                Ok(right) => (
                    p_set_track(p, li, ti, TrackV {
                        segments: tr.segments.update(si, left).insert(si + 1, SegmentV { points: right.points.drop_first(), ..right }),
                        ..tr
                    }),
                    Ok(()),
                ),
            }
        },
    }
}

impl Project {
    /// Split a segment at a point, keeping the new right-hand segment in the
    /// track directly after the one it came from.
    pub fn split_segment_with_id(&mut self, layer_id: u64, track_id: u64, segment_id: u64, point_id: u64, new_id: TrackSegmentId) -> (r: Result<(), ProjectLayerError>)
        ensures
            (final(self)@, r) == p_split_insert(old(self)@, layer_id, track_id, segment_id, point_id, new_id),
    {
        let (li, ti, si, mut track, mut seg) = match self.take_segment(layer_id, track_id, segment_id) {
            Ok(x) => x,
            Err(e) => return Err(e),
        };
        let r = seg.split_at_point(point_id, new_id);
        match r {
            Ok(mut right) => {
                let ghost rv = right@;
                let _split_point = right.points.remove(0);
                proof {
                    assert(right@ =~= (SegmentV { points: rv.points.drop_first(), ..rv }));
                }
                let ghost left = seg@;
                let ghost t0 = track@;
                let ghost raw0 = track.segments@;
                assert(track.segments@.len() == track@.segments.len());
                track.segments.set_and_swap(si, &mut seg);
                let ghost t1 = track@;
                proof {
                    assert(track.segments@ =~= raw0.update(si as int, track.segments@[si as int]));
                    assert(t1.segments =~= t0.segments.update(si as int, left));
                }
                assert(si < track.segments.len());
                track.segments.insert(si + 1, right);
                let ghost tv = track@;
                proof {
                    let orig = old(self)@.track_layers[li as int].tracks[ti as int];
                    assert(t1.segments =~= orig.segments.update(si as int, left));
                    assert(tv.segments =~= orig.segments.update(si as int, left).insert(si as int + 1, SegmentV { points: rv.points.drop_first(), ..rv }));
                }
                self.put_track(li, ti, track);
                proof {
                    lemma_p_set_track_twice(old(self)@, li as int, ti as int, placeholder_track(), tv);
                }
                Ok(())
            },
            Err(_) => {
                self.put_segment(li, ti, si, track, seg);
                proof {
                    lemma_segment_roundtrip(old(self)@, li as int, ti as int, si as int, seg@);
                }
                Err(ProjectLayerError::MissingTrackPoint { layer_id, track_id, segment_id, point_id })
            },
        }
    }
}

pub fn max_segment_id_exec(segments: &Vec<TrackSegment>) -> (m: u64)
    ensures
        m as int == max_segment_id(crate::track::segments_view(segments@)),
{
    let ghost sv = crate::track::segments_view(segments@);
    let mut m: u64 = 0;
    let mut i: usize = 0;
    while i < segments.len()
        invariant
            i <= segments.len(),
            sv == crate::track::segments_view(segments@),
            m as int == max_segment_id(sv.take(i as int)),
        decreases segments.len() - i,
    {
        proof {
            assert(sv.take(i as int + 1).drop_last() =~= sv.take(i as int));
        }
        if segments[i].id.0 > m {
            m = segments[i].id.0;
        }
        i = i + 1;
    }
    proof {
        assert(sv.take(i as int) =~= sv);
    }
    m
}

pub open spec fn split_id_fits(p: ProjectV, l: u64, t: u64) -> bool {
    match p_locate_track(p, l, t) {
        Ok((li, ti)) => max_segment_id(p.track_layers[li].tracks[ti].segments) < u64::MAX,
        Err(_) => true,
    }
}

impl Project {
    /// Where the first track with this id sits in the first layer with that
    /// id.
    pub fn locate_track(&self, layer_id: u64, track_id: u64) -> (r: Result<(usize, usize), ProjectLayerError>)
        ensures
            match r {
                Ok((li, ti)) => {
                    &&& p_locate_track(self@, layer_id, track_id) == Ok::<(int, int), ProjectLayerError>((li as int, ti as int))
                    &&& li < self.track_layers.len()
                    &&& ti < self.track_layers@[li as int].tracks.len()
                },
                Err(e) => p_locate_track(self@, layer_id, track_id) == Err::<(int, int), ProjectLayerError>(e),
            },
    {
        match find_track_layer(&self.track_layers, layer_id) {
            Some(li) => match find_track(&self.track_layers[li].tracks, track_id) {
                Some(ti) => Ok((li, ti)),
                None => Err(ProjectLayerError::MissingTrack { layer_id, track_id }),
            },
            None => Err(ProjectLayerError::TrackLayerNotPresent(LayerId(layer_id))),
        }
    }

    /// Split a segment at a point, in place: the segment keeps the points up
    /// to and including the split point, and the rest comes back as a new
    /// segment whose id is one past the track's largest. The new segment is
    /// not added to the track.
    pub fn split_segment_in_layer(&mut self, layer_id: u64, track_id: u64, segment_id: u64, point_id: u64) -> (r: Result<TrackSegment, ProjectLayerError>)
        requires
            split_id_fits(old(self)@, layer_id, track_id),
        ensures
            (final(self)@, match r { Ok(x) => Ok(x@), Err(e) => Err(e) })
                == p_split_segment(old(self)@, layer_id, track_id, segment_id, point_id),
    {
        let m = match self.locate_track(layer_id, track_id) {
            Ok((li, ti)) => max_segment_id_exec(&self.track_layers[li].tracks[ti].segments),
            Err(e) => return Err(e),
        };
        let new_id = if m < u64::MAX { TrackSegmentId(m + 1) } else { TrackSegmentId(m) };
        let (li, ti, si, track, mut seg) = match self.take_segment(layer_id, track_id, segment_id) {
            Ok(x) => x,
            Err(e) => return Err(e),
        };
        let r = seg.split_at_point(point_id, new_id);
        self.put_segment(li, ti, si, track, seg);
        proof {
            lemma_segment_roundtrip(old(self)@, li as int, ti as int, si as int, seg@);
        }
        match r {
            Ok(x) => Ok(x),
            Err(_) => Err(ProjectLayerError::MissingTrackPoint { layer_id, track_id, segment_id, point_id }),
        }
    }

    /// Remove a segment, answering with where it stood and what it was.
    pub fn remove_segment_from_layer(&mut self, layer_id: u64, track_id: u64, segment_id: u64) -> (r: Result<(usize, TrackSegment), ProjectLayerError>)
        ensures
            (final(self)@, match r { Ok((i, x)) => Ok((i, x@)), Err(e) => Err(e) })
                == p_remove_segment(old(self)@, layer_id, track_id, segment_id),
    {
        let (li, ti, mut track) = match self.take_track(layer_id, track_id) {
            Ok(x) => x,
            Err(e) => return Err(e),
        };
        let r = track.remove_segment(segment_id);
        let ghost tv = track@;
        self.put_track(li, ti, track);
        proof {
            lemma_p_set_track_twice(old(self)@, li as int, ti as int, placeholder_track(), tv);
            lemma_p_set_track_same(old(self)@, li as int, ti as int);
        }
        match r {
            Ok(x) => Ok(x),
            Err(_) => Err(ProjectLayerError::MissingTrackSegment { layer_id, track_id, segment_id }),
        }
    }

    /// Join segment B onto the end of segment A, which it must directly
    /// follow. Any refusal is reported against B.
    pub fn join_segments_in_layer(&mut self, layer_id: u64, track_id: u64, seg_id_a: u64, seg_id_b: u64) -> (r: Result<TrackSegment, ProjectLayerError>)
        ensures
            (final(self)@, match r { Ok(x) => Ok(x@), Err(e) => Err(e) })
                == p_join_segments(old(self)@, layer_id, track_id, seg_id_a, seg_id_b),
    {
        let (li, ti, mut track) = match self.take_track(layer_id, track_id) {
            Ok(x) => x,
            Err(e) => return Err(e),
        };
        let r = track.join_segments(seg_id_a, seg_id_b);
        let ghost tv = track@;
        self.put_track(li, ti, track);
        proof {
            lemma_p_set_track_twice(old(self)@, li as int, ti as int, placeholder_track(), tv);
            lemma_p_set_track_same(old(self)@, li as int, ti as int);
        }
        match r {
            Ok(x) => Ok(x),
            Err(_) => Err(ProjectLayerError::MissingTrackSegment { layer_id, track_id, segment_id: seg_id_b }),
        }
    }
}

// ── tracks and marks inside a project ────────────────────────────────────

pub open spec fn p_add_track(p: ProjectV, l: u64, t: TrackV) -> (ProjectV, Result<(), ProjectLayerError>) {
    match p_locate_track_layer(p, l) {
        Err(e) => (p, Err(e)),
        Ok(li) => (p_set_track_layer(p, li, TrackLayerV { tracks: p.track_layers[li].tracks.push(t), ..p.track_layers[li] }), Ok(())),
    }
}

pub open spec fn p_remove_track(p: ProjectV, l: u64, t: u64) -> (ProjectV, Result<(usize, TrackV), ProjectLayerError>) {
    match p_locate_track_layer(p, l) {
        Err(e) => (p, Err(e)),
        Ok(li) => {
            let (l2, r) = layer_remove_track(p.track_layers[li], t);
            (p_set_track_layer(p, li, l2), r)
        },
    }
}

pub open spec fn p_rename_track_layer(p: ProjectV, l: u64, name: Seq<char>) -> (ProjectV, Result<(), ProjectLayerError>) {
    match p_locate_track_layer(p, l) {
        Err(e) => (p, Err(e)),
        Ok(li) => (p_set_track_layer(p, li, TrackLayerV { name, ..p.track_layers[li] }), Ok(())),
    }
}

pub open spec fn p_add_waypoint(p: ProjectV, l: u64, w: WaypointV) -> (ProjectV, Result<(), ProjectLayerError>) {
    match p_locate_waypoint_layer(p, l) {
        Err(e) => (p, Err(e)),
        Ok(li) => (p_set_waypoint_layer(p, li, WaypointLayerV { waypoints: p.waypoint_layers[li].waypoints.push(w), ..p.waypoint_layers[li] }), Ok(())),
    }
}

pub open spec fn p_remove_waypoint(p: ProjectV, l: u64, w: u64) -> (ProjectV, Result<(usize, WaypointV), ProjectLayerError>) {
    match p_locate_waypoint_layer(p, l) {
        Err(e) => (p, Err(e)),
        Ok(li) => {
            let (l2, r) = layer_remove_waypoint(p.waypoint_layers[li], w);
            (p_set_waypoint_layer(p, li, l2), r)
        },
    }
}

pub open spec fn p_rename_waypoint_layer(p: ProjectV, l: u64, name: Seq<char>) -> (ProjectV, Result<(), ProjectLayerError>) {
    match p_locate_waypoint_layer(p, l) {
        Err(e) => (p, Err(e)),
        Ok(li) => (p_set_waypoint_layer(p, li, WaypointLayerV { name, ..p.waypoint_layers[li] }), Ok(())),
    }
}

/// Apply `f` to the addressed track, answering with the track as it was.
pub open spec fn p_edit_track(p: ProjectV, l: u64, t: u64, f: spec_fn(TrackV) -> TrackV) -> (ProjectV, Result<TrackV, ProjectLayerError>) {
    match p_locate_track(p, l, t) {
        Err(e) => (p, Err(e)),
        Ok((li, ti)) => (p_set_track(p, li, ti, f(p.track_layers[li].tracks[ti])), Ok(p.track_layers[li].tracks[ti])),
    }
}

/// Apply `f` to the addressed mark, answering with the mark as it was.
pub open spec fn p_edit_waypoint(p: ProjectV, l: u64, w: u64, f: spec_fn(WaypointV) -> WaypointV) -> (ProjectV, Result<WaypointV, ProjectLayerError>) {
    match p_locate_waypoint(p, l, w) {
        Err(e) => (p, Err(e)),
        Ok((li, wi)) => (p_set_waypoint(p, li, wi, f(p.waypoint_layers[li].waypoints[wi])), Ok(p.waypoint_layers[li].waypoints[wi])),
    }
}

pub open spec fn p_set_track_visible(p: ProjectV, l: u64, t: u64, visible: bool) -> ProjectV {
    match first_index(track_layer_keys(p.track_layers), l) {
        Some(li) => p_set_track_layer(p, li, layer_set_track_visible(p.track_layers[li], t, visible)),
        None => p,
    }
}

pub open spec fn all_tracks_visible(p: ProjectV, visible: bool) -> ProjectV {
    ProjectV {
        track_layers: Seq::new(p.track_layers.len(), |i: int| TrackLayerV {
            tracks: Seq::new(p.track_layers[i].tracks.len(), |j: int| with_visible(p.track_layers[i].tracks[j], visible)),
            ..p.track_layers[i]
        }),
        ..p
    }
}

/// The layer has this id and holds a track with that id.
pub open spec fn layer_has_track(l: TrackLayerV, layer_id: u64, track_id: u64) -> bool {
    l.id.0 == layer_id && exists|ti: int| 0 <= ti < l.tracks.len() && #[trigger] l.tracks[ti].id.0 == track_id
}

pub open spec fn has_track(p: ProjectV, l: u64, t: u64) -> bool {
    exists|li: int| 0 <= li < p.track_layers.len() && #[trigger] layer_has_track(p.track_layers[li], l, t)
}

pub open spec fn with_waypoint_visible(w: WaypointV, visible: bool) -> WaypointV {
    WaypointV { visible, ..w }
}

pub open spec fn all_waypoints_visible(p: ProjectV, visible: bool) -> ProjectV {
    ProjectV {
        waypoint_layers: Seq::new(p.waypoint_layers.len(), |i: int| WaypointLayerV {
            waypoints: Seq::new(p.waypoint_layers[i].waypoints.len(), |j: int| with_waypoint_visible(p.waypoint_layers[i].waypoints[j], visible)),
            ..p.waypoint_layers[i]
        }),
        ..p
    }
}

/// The layer has this id and holds a mark with that id.
pub open spec fn layer_has_waypoint(l: WaypointLayerV, layer_id: u64, waypoint_id: u64) -> bool {
    l.id.0 == layer_id && exists|wi: int| 0 <= wi < l.waypoints.len() && #[trigger] l.waypoints[wi].id.0 == waypoint_id
}

pub open spec fn has_waypoint(p: ProjectV, l: u64, w: u64) -> bool {
    exists|li: int| 0 <= li < p.waypoint_layers.len() && #[trigger] layer_has_waypoint(p.waypoint_layers[li], l, w)
}

fn layer_has_track_exec(layer: &TrackLayer, layer_id: u64, track_id: u64) -> (b: bool)
    ensures
        b == layer_has_track(layer@, layer_id, track_id),
{
    if layer.id.0 != layer_id {
        return false;
    }
    match find_track(&layer.tracks, track_id) {
        Some(ti) => {
            assert(layer@.tracks[ti as int].id.0 == track_id);
            true
        },
        None => {
            proof {
                if exists|ti: int| 0 <= ti < layer@.tracks.len() && #[trigger] layer@.tracks[ti].id.0 == track_id {
                    let ti = choose|ti: int| 0 <= ti < layer@.tracks.len() && #[trigger] layer@.tracks[ti].id.0 == track_id;
                    crate::index::lemma_first_index_exists(track_keys(layer@.tracks), track_id, ti);
                }
            }
            false
        },
    }
}

fn layer_has_waypoint_exec(layer: &WaypointLayer, layer_id: u64, waypoint_id: u64) -> (b: bool)
    ensures
        b == layer_has_waypoint(layer@, layer_id, waypoint_id),
{
    if layer.id.0 != layer_id {
        return false;
    }
    match crate::layers::find_waypoint(&layer.waypoints, waypoint_id) {
        Some(wi) => {
            assert(layer@.waypoints[wi as int].id.0 == waypoint_id);
            true
        },
        None => {
            proof {
                if exists|wi: int| 0 <= wi < layer@.waypoints.len() && #[trigger] layer@.waypoints[wi].id.0 == waypoint_id {
                    let wi = choose|wi: int| 0 <= wi < layer@.waypoints.len() && #[trigger] layer@.waypoints[wi].id.0 == waypoint_id;
                    crate::index::lemma_first_index_exists(waypoint_keys(layer@.waypoints), waypoint_id, wi);
                }
            }
            false
        },
    }
}

/// Set the visibility of the first mark with this id in the first layer with
/// that id; `None` when either is missing.
pub open spec fn p_set_waypoint_visible(p: ProjectV, l: u64, w: u64, visible: bool) -> (ProjectV, Option<bool>) {
    match p_locate_waypoint(p, l, w) {
        Ok((li, wi)) => (p_set_waypoint(p, li, wi, with_waypoint_visible(p.waypoint_layers[li].waypoints[wi], visible)), Some(visible)),
        Err(_) => (p, None),
    }
}

// ── the edits a command makes to one track or one mark ───────────────────

pub open spec fn track_renamed(name: Seq<char>) -> spec_fn(TrackV) -> TrackV {
    |t: TrackV| TrackV { name, ..t }
}

pub open spec fn track_coloured(color: [u8; 4]) -> spec_fn(TrackV) -> TrackV {
    |t: TrackV| TrackV { style: TrackStyle { color, ..t.style }, ..t }
}

pub open spec fn track_line_width(line_width: u32) -> spec_fn(TrackV) -> TrackV {
    |t: TrackV| TrackV { style: TrackStyle { line_width, ..t.style }, ..t }
}

pub open spec fn waypoint_renamed(name: Seq<char>) -> spec_fn(WaypointV) -> WaypointV {
    |w: WaypointV| WaypointV { name, ..w }
}

pub open spec fn waypoint_symbol(symbol: Option<Seq<char>>) -> spec_fn(WaypointV) -> WaypointV {
    |w: WaypointV| WaypointV { symbol, ..w }
}

pub open spec fn waypoint_colour(color: Option<[u8; 4]>) -> spec_fn(WaypointV) -> WaypointV {
    |w: WaypointV| WaypointV { color, ..w }
}

/// The note is stored as `normalised_description` makes it.
pub open spec fn waypoint_described(description: Option<Seq<char>>) -> spec_fn(WaypointV) -> WaypointV {
    |w: WaypointV| WaypointV { description: crate::waypoint::normalised_description(description), ..w }
}

/// The files are stored as `cleaned_attachments` makes them.
pub open spec fn waypoint_attached(attachments: Seq<Seq<char>>) -> spec_fn(WaypointV) -> WaypointV {
    |w: WaypointV| WaypointV { attachments: crate::waypoint::cleaned_attachments(attachments), ..w }
}

pub open spec fn waypoint_moved(latitude: u64, longitude: u64) -> spec_fn(WaypointV) -> WaypointV {
    |w: WaypointV| WaypointV { latitude, longitude, ..w }
}

impl Project {
    pub fn add_track_to_layer(&mut self, layer_id: LayerId, track: Track) -> (r: Result<(), ProjectLayerError>)
        ensures
            (final(self)@, r) == p_add_track(old(self)@, layer_id.0, track@),
    {
        let (li, mut layer) = match self.take_track_layer(layer_id.0) {
            Ok(x) => x,
            Err(e) => return Err(e),
        };
        layer.add_track(track);
        self.put_track_layer(li, layer);
        proof {
            assert(self@ =~= p_add_track(old(self)@, layer_id.0, track@).0);
        }
        Ok(())
    }

    pub fn remove_track_from_layer(&mut self, layer_id: LayerId, track_id: TrackId) -> (r: Result<(usize, Track), ProjectLayerError>)
        ensures
            (final(self)@, match r { Ok((i, t)) => Ok((i, t@)), Err(e) => Err(e) })
                == p_remove_track(old(self)@, layer_id.0, track_id.0),
    {
        let (li, mut layer) = match self.take_track_layer(layer_id.0) {
            Ok(x) => x,
            Err(e) => return Err(e),
        };
        let r = layer.remove_track(track_id);
        self.put_track_layer(li, layer);
        proof {
            assert(self@ =~= p_remove_track(old(self)@, layer_id.0, track_id.0).0);
        }
        r
    }

    /// Add a track with one empty segment to a track layer.
    pub fn create_empty_track_in_layer(&mut self, layer_id: u64, track_id: TrackId, name: String) -> (r: Result<(), ProjectLayerError>)
        ensures
            (final(self)@, r) == p_add_track(old(self)@, layer_id, empty_track(track_id, name@)),
    {
        let (li, mut layer) = match self.take_track_layer(layer_id) {
            Ok(x) => x,
            Err(e) => return Err(e),
        };
        let ghost nv = name@;
        layer.create_empty_track(track_id, name);
        self.put_track_layer(li, layer);
        proof {
            assert(self@ =~= p_add_track(old(self)@, layer_id, empty_track(track_id, nv)).0);
        }
        Ok(())
    }

    pub fn rename_track_layer(&mut self, layer_id: u64, name: String) -> (r: Result<(), ProjectLayerError>)
        ensures
            (final(self)@, r) == p_rename_track_layer(old(self)@, layer_id, name@),
    {
        let (li, mut layer) = match self.take_track_layer(layer_id) {
            Ok(x) => x,
            Err(e) => return Err(e),
        };
        let ghost nv = name@;
        layer.set_name(name);
        self.put_track_layer(li, layer);
        proof {
            assert(self@ =~= p_rename_track_layer(old(self)@, layer_id, nv).0);
        }
        Ok(())
    }

    pub fn rename_waypoint_layer(&mut self, layer_id: u64, name: String) -> (r: Result<(), ProjectLayerError>)
        ensures
            (final(self)@, r) == p_rename_waypoint_layer(old(self)@, layer_id, name@),
    {
        let (li, mut layer) = match self.take_waypoint_layer(layer_id) {
            Ok(x) => x,
            Err(e) => return Err(e),
        };
        let ghost nv = name@;
        layer.set_name(name);
        self.put_waypoint_layer(li, layer);
        proof {
            assert(self@ =~= p_rename_waypoint_layer(old(self)@, layer_id, nv).0);
        }
        Ok(())
    }

    /// Rename a track.
    pub fn rename_track_in_layer(&mut self, layer_id: u64, track_id: u64, name: &str) -> (r: Result<(), ProjectLayerError>)
        ensures
            ({
                let (p2, res) = p_edit_track(old(self)@, layer_id, track_id, track_renamed(name@));
                final(self)@ == p2 && match r { Ok(_) => res is Ok, Err(e) => res == Err::<TrackV, ProjectLayerError>(e) }
            }),
    {
        let (li, ti, mut track) = match self.take_track(layer_id, track_id) {
            Ok(x) => x,
            Err(e) => return Err(e),
        };
        track.set_name(name);
        let ghost tv = track@;
        self.put_track(li, ti, track);
        proof {
            lemma_p_set_track_twice(old(self)@, li as int, ti as int, placeholder_track(), tv);
        }
        Ok(())
    }

    /// Set a track's colour.
    pub fn set_track_color_in_layer(&mut self, layer_id: u64, track_id: u64, color: [u8; 4]) -> (r: Result<(), ProjectLayerError>)
        ensures
            ({
                let (p2, res) = p_edit_track(old(self)@, layer_id, track_id, track_coloured(color));
                final(self)@ == p2 && match r { Ok(_) => res is Ok, Err(e) => res == Err::<TrackV, ProjectLayerError>(e) }
            }),
    {
        let (li, ti, mut track) = match self.take_track(layer_id, track_id) {
            Ok(x) => x,
            Err(e) => return Err(e),
        };
        track.style.color = color;
        let ghost tv = track@;
        self.put_track(li, ti, track);
        proof {
            lemma_p_set_track_twice(old(self)@, li as int, ti as int, placeholder_track(), tv);
        }
        Ok(())
    }

    /// Set a track's line width (the bits of the `f32` width).
    pub fn set_track_line_width_in_layer(&mut self, layer_id: u64, track_id: u64, line_width: u32) -> (r: Result<(), ProjectLayerError>)
        ensures
            ({
                let (p2, res) = p_edit_track(old(self)@, layer_id, track_id, track_line_width(line_width));
                final(self)@ == p2 && match r { Ok(_) => res is Ok, Err(e) => res == Err::<TrackV, ProjectLayerError>(e) }
            }),
    {
        let (li, ti, mut track) = match self.take_track(layer_id, track_id) {
            Ok(x) => x,
            Err(e) => return Err(e),
        };
        track.style.line_width = line_width;
        let ghost tv = track@;
        self.put_track(li, ti, track);
        proof {
            lemma_p_set_track_twice(old(self)@, li as int, ti as int, placeholder_track(), tv);
        }
        Ok(())
    }

    /// Show or hide the first track with this id in the first layer with that
    /// id; nothing happens when either is missing.
    pub fn set_track_visible_in_layer(&mut self, layer_id: LayerId, track_id: TrackId, visible: bool)
        ensures
            final(self)@ == p_set_track_visible(old(self)@, layer_id.0, track_id.0, visible),
    {
        match self.take_track_layer(layer_id.0) {
            Ok((li, mut layer)) => {
                layer.set_track_visible(track_id, visible);
                self.put_track_layer(li, layer);
                proof {
                    assert(self@ =~= p_set_track_visible(old(self)@, layer_id.0, track_id.0, visible));
                }
            },
            Err(_) => {},
        }
    }

    /// Show or hide every track in every track layer.
    pub fn set_all_tracks_visible(&mut self, visible: bool)
        ensures
            final(self)@ == all_tracks_visible(old(self)@, visible),
    {
        let ghost p0 = self@;
        let mut i: usize = 0;
        while i < self.track_layers.len()
            invariant
                i <= self.track_layers.len(),
                self@.track_layers.len() == p0.track_layers.len(),
                self@.id == p0.id,
                self@.name == p0.name,
                self@.map_layers == p0.map_layers,
                self@.waypoint_layers == p0.waypoint_layers,
                forall|k: int| 0 <= k < i ==> #[trigger] self@.track_layers[k] == all_tracks_visible(p0, visible).track_layers[k],
                forall|k: int| i <= k < self@.track_layers.len() ==> #[trigger] self@.track_layers[k] == p0.track_layers[k],
            decreases self.track_layers.len() - i,
        {
            assert(self@.track_layers[i as int] == p0.track_layers[i as int]);
            let ghost prev_layers = self.track_layers@;
            let mut layer = TrackLayer { id: LayerId(0), name: String::new(), tracks: Vec::new() };
            self.track_layers.set_and_swap(i, &mut layer);
            let ghost lv0 = layer@;
            assert(lv0 == p0.track_layers[i as int]);
            let mut j: usize = 0;
            while j < layer.tracks.len()
                invariant
                    j <= layer.tracks.len(),
                    layer@.id == lv0.id,
                    layer@.name == lv0.name,
                    layer@.tracks.len() == lv0.tracks.len(),
                    forall|k: int| 0 <= k < j ==> #[trigger] layer@.tracks[k] == with_visible(lv0.tracks[k], visible),
                    forall|k: int| j <= k < layer@.tracks.len() ==> #[trigger] layer@.tracks[k] == lv0.tracks[k],
                decreases layer.tracks.len() - j,
            {
                let ghost prev = layer.tracks@;
                assert(layer@.tracks[j as int] == lv0.tracks[j as int]);
                let mut t = placeholder_track_exec();
                layer.tracks.set_and_swap(j, &mut t);
                t.style.visible = visible;
                let ghost tv = t@;
                layer.tracks.set_and_swap(j, &mut t);
                proof {
                    assert(layer.tracks@ =~= prev.update(j as int, layer.tracks@[j as int]));
                    assert(tv == with_visible(lv0.tracks[j as int], visible));
                    assert(layer@.tracks =~= tracks_view(prev).update(j as int, tv));
                }
                j = j + 1;
            }
            proof {
                assert(layer@ =~= all_tracks_visible(p0, visible).track_layers[i as int]);
            }
            let ghost lv = layer@;
            self.track_layers.set_and_swap(i, &mut layer);
            proof {
                assert(self.track_layers@ =~= prev_layers.update(i as int, self.track_layers@[i as int]));
                assert(self@.track_layers =~= track_layers_view(prev_layers).update(i as int, lv));
            }
            i = i + 1;
        }
        proof {
            assert(self@.track_layers =~= all_tracks_visible(p0, visible).track_layers);
            assert(self@ =~= all_tracks_visible(p0, visible));
        }
    }

    /// Leave one track visible and hide every other. When the track does not
    /// exist nothing changes and the answer is false.
    pub fn show_only_track(&mut self, layer_id: LayerId, track_id: TrackId) -> (found: bool)
        ensures
            found == has_track(old(self)@, layer_id.0, track_id.0),
            found ==> final(self)@ == p_set_track_visible(all_tracks_visible(old(self)@, false), layer_id.0, track_id.0, true),
            !found ==> final(self)@ == old(self)@,
    {
        let mut present = false;
        let mut i: usize = 0;
        while i < self.track_layers.len()
            invariant
                i <= self.track_layers.len(),
                present == exists|li: int| 0 <= li < i && #[trigger] layer_has_track(self@.track_layers[li], layer_id.0, track_id.0),
            decreases self.track_layers.len() - i,
        {
            let here = layer_has_track_exec(&self.track_layers[i], layer_id.0, track_id.0);
            assert(here == layer_has_track(self@.track_layers[i as int], layer_id.0, track_id.0));
            present = present || here;
            i = i + 1;
        }
        if !present {
            return false;
        }
        self.set_all_tracks_visible(false);
        self.set_track_visible_in_layer(layer_id, track_id, true);
        true
    }

    pub fn add_waypoint_to_layer(&mut self, layer_id: LayerId, waypoint: Waypoint) -> (r: Result<(), ProjectLayerError>)
        ensures
            (final(self)@, r) == p_add_waypoint(old(self)@, layer_id.0, waypoint@),
    {
        let (li, mut layer) = match self.take_waypoint_layer(layer_id.0) {
            Ok(x) => x,
            Err(e) => return Err(e),
        };
        layer.add_waypoint(waypoint);
        self.put_waypoint_layer(li, layer);
        proof {
            assert(self@ =~= p_add_waypoint(old(self)@, layer_id.0, waypoint@).0);
        }
        Ok(())
    }

    pub fn remove_waypoint_from_layer<L: LayerIdLike, W: WaypointIdLike>(&mut self, layer_id: L, waypoint_id: W) -> (r: Result<(usize, Waypoint), ProjectLayerError>)
        ensures
            (final(self)@, match r { Ok((i, w)) => Ok((i, w@)), Err(e) => Err(e) })
                == p_remove_waypoint(old(self)@, layer_id.id_value(), waypoint_id.id_value()),
    {
        let layer_id = layer_id.into_u64();
        let waypoint_id = waypoint_id.into_u64();
        let (li, mut layer) = match self.take_waypoint_layer(layer_id) {
            Ok(x) => x,
            Err(e) => return Err(e),
        };
        let r = layer.remove_waypoint(waypoint_id);
        self.put_waypoint_layer(li, layer);
        proof {
            assert(self@ =~= p_remove_waypoint(old(self)@, layer_id, waypoint_id).0);
        }
        r
    }

    /// Rename a mark, answering with its old name.
    pub fn rename_waypoint_in_layer<L: LayerIdLike, W: WaypointIdLike>(&mut self, layer_id: L, waypoint_id: W, new_name: String) -> (r: Result<String, ProjectLayerError>)
        ensures
            ({
                let (p2, res) = p_edit_waypoint(old(self)@, layer_id.id_value(), waypoint_id.id_value(), waypoint_renamed(new_name@));
                final(self)@ == p2 && match r {
                    Ok(prev) => res is Ok && prev@ == res->Ok_0.name,
                    Err(e) => res == Err::<WaypointV, ProjectLayerError>(e),
                }
            }),
    {
        let layer_id = layer_id.into_u64();
        let waypoint_id = waypoint_id.into_u64();
        let (li, wi, mut w) = match self.take_waypoint(layer_id, waypoint_id) {
            Ok(x) => x,
            Err(e) => return Err(e),
        };
        let prev = w.set_name(new_name);
        let ghost wv = w@;
        self.put_waypoint(li, wi, w);
        proof {
            lemma_p_set_waypoint_twice(old(self)@, li as int, wi as int, placeholder_waypoint(), wv);
        }
        Ok(prev)
    }

    /// Set or clear a mark's symbol, answering with the old one.
    pub fn set_waypoint_symbol_in_layer<L: LayerIdLike, W: WaypointIdLike>(&mut self, layer_id: L, waypoint_id: W, symbol: Option<String>) -> (r: Result<Option<String>, ProjectLayerError>)
        ensures
            ({
                let (p2, res) = p_edit_waypoint(old(self)@, layer_id.id_value(), waypoint_id.id_value(), waypoint_symbol(crate::waypoint::opt_str_view(symbol)));
                final(self)@ == p2 && match r {
                    Ok(prev) => res is Ok && crate::waypoint::opt_str_view(prev) == res->Ok_0.symbol,
                    Err(e) => res == Err::<WaypointV, ProjectLayerError>(e),
                }
            }),
    {
        let layer_id = layer_id.into_u64();
        let waypoint_id = waypoint_id.into_u64();
        let (li, wi, mut w) = match self.take_waypoint(layer_id, waypoint_id) {
            Ok(x) => x,
            Err(e) => return Err(e),
        };
        let prev = w.set_symbol(symbol);
        let ghost wv = w@;
        self.put_waypoint(li, wi, w);
        proof {
            lemma_p_set_waypoint_twice(old(self)@, li as int, wi as int, placeholder_waypoint(), wv);
        }
        Ok(prev)
    }

    /// Set or clear a mark's colour, answering with the old one.
    pub fn set_waypoint_color_in_layer<L: LayerIdLike, W: WaypointIdLike>(&mut self, layer_id: L, waypoint_id: W, color: Option<[u8; 4]>) -> (r: Result<Option<[u8; 4]>, ProjectLayerError>)
        ensures
            ({
                let (p2, res) = p_edit_waypoint(old(self)@, layer_id.id_value(), waypoint_id.id_value(), waypoint_colour(color));
                final(self)@ == p2 && match r {
                    Ok(prev) => res is Ok && prev == res->Ok_0.color,
                    Err(e) => res == Err::<WaypointV, ProjectLayerError>(e),
                }
            }),
    {
        let layer_id = layer_id.into_u64();
        let waypoint_id = waypoint_id.into_u64();
        let (li, wi, mut w) = match self.take_waypoint(layer_id, waypoint_id) {
            Ok(x) => x,
            Err(e) => return Err(e),
        };
        let prev = w.set_color(color);
        let ghost wv = w@;
        self.put_waypoint(li, wi, w);
        proof {
            lemma_p_set_waypoint_twice(old(self)@, li as int, wi as int, placeholder_waypoint(), wv);
        }
        Ok(prev)
    }

    /// Set or clear a mark's note (normalised as `Waypoint::set_description`
    /// does), answering with the old one.
    pub fn set_waypoint_description_in_layer<L: LayerIdLike, W: WaypointIdLike>(&mut self, layer_id: L, waypoint_id: W, description: Option<String>) -> (r: Result<Option<String>, ProjectLayerError>)
        ensures
            ({
                let (p2, res) = p_edit_waypoint(old(self)@, layer_id.id_value(), waypoint_id.id_value(),
                    waypoint_described(crate::waypoint::opt_str_view(description)));
                final(self)@ == p2 && match r {
                    Ok(prev) => res is Ok && crate::waypoint::opt_str_view(prev) == res->Ok_0.description,
                    Err(e) => res == Err::<WaypointV, ProjectLayerError>(e),
                }
            }),
    {
        let layer_id = layer_id.into_u64();
        let waypoint_id = waypoint_id.into_u64();
        let (li, wi, mut w) = match self.take_waypoint(layer_id, waypoint_id) {
            Ok(x) => x,
            Err(e) => return Err(e),
        };
        let prev = w.set_description(description);
        let ghost wv = w@;
        self.put_waypoint(li, wi, w);
        proof {
            lemma_p_set_waypoint_twice(old(self)@, li as int, wi as int, placeholder_waypoint(), wv);
        }
        Ok(prev)
    }

    /// Replace a mark's files (cleaned as `Waypoint::set_attachments` does),
    /// answering with the old list.
    pub fn set_waypoint_attachments_in_layer<L: LayerIdLike, W: WaypointIdLike>(&mut self, layer_id: L, waypoint_id: W, attachments: Vec<String>) -> (r: Result<Vec<String>, ProjectLayerError>)
        ensures
            ({
                let (p2, res) = p_edit_waypoint(old(self)@, layer_id.id_value(), waypoint_id.id_value(),
                    waypoint_attached(crate::waypoint::strings_view(attachments@)));
                final(self)@ == p2 && match r {
                    Ok(prev) => res is Ok && crate::waypoint::strings_view(prev@) == res->Ok_0.attachments,
                    Err(e) => res == Err::<WaypointV, ProjectLayerError>(e),
                }
            }),
    {
        let layer_id = layer_id.into_u64();
        let waypoint_id = waypoint_id.into_u64();
        let (li, wi, mut w) = match self.take_waypoint(layer_id, waypoint_id) {
            Ok(x) => x,
            Err(e) => return Err(e),
        };
        let prev = w.set_attachments(attachments);
        let ghost wv = w@;
        self.put_waypoint(li, wi, w);
        proof {
            lemma_p_set_waypoint_twice(old(self)@, li as int, wi as int, placeholder_waypoint(), wv);
        }
        Ok(prev)
    }

    /// Move a mark.
    pub fn move_waypoint_in_layer<L: LayerIdLike, W: WaypointIdLike>(&mut self, layer_id: L, waypoint_id: W, latitude: u64, longitude: u64) -> (r: Result<(), ProjectLayerError>)
        ensures
            ({
                let (p2, res) = p_edit_waypoint(old(self)@, layer_id.id_value(), waypoint_id.id_value(), waypoint_moved(latitude, longitude));
                final(self)@ == p2 && match r { Ok(_) => res is Ok, Err(e) => res == Err::<WaypointV, ProjectLayerError>(e) }
            }),
    {
        let layer_id = layer_id.into_u64();
        let waypoint_id = waypoint_id.into_u64();
        let (li, wi, mut w) = match self.take_waypoint(layer_id, waypoint_id) {
            Ok(x) => x,
            Err(e) => return Err(e),
        };
        w.move_to(latitude, longitude);
        let ghost wv = w@;
        self.put_waypoint(li, wi, w);
        proof {
            lemma_p_set_waypoint_twice(old(self)@, li as int, wi as int, placeholder_waypoint(), wv);
        }
        Ok(())
    }

    /// Flip a mark's visibility and answer with the new value; `None` when
    /// the layer or the mark is missing.
    pub fn toggle_waypoint_visible_in_layer(&mut self, layer_id: LayerId, waypoint_id: WaypointId) -> (r: Option<bool>)
        ensures
            match p_locate_waypoint(old(self)@, layer_id.0, waypoint_id.0) {
                Ok((li, wi)) => {
                    let w = old(self)@.waypoint_layers[li].waypoints[wi];
                    &&& r == Some(!w.visible)
                    &&& final(self)@ == p_set_waypoint(old(self)@, li, wi, with_waypoint_visible(w, !w.visible))
                },
                Err(_) => r is None && final(self)@ == old(self)@,
            },
    {
        let (li, wi, mut w) = match self.take_waypoint(layer_id.0, waypoint_id.0) {
            Ok(x) => x,
            Err(_) => return None,
        };
        let v = w.toggle_visible();
        let ghost wv = w@;
        self.put_waypoint(li, wi, w);
        proof {
            lemma_p_set_waypoint_twice(old(self)@, li as int, wi as int, placeholder_waypoint(), wv);
            assert(wv =~= with_waypoint_visible(old(self)@.waypoint_layers[li as int].waypoints[wi as int], v));
        }
        Some(v)
    }

    /// Show or hide one mark; `None` when the layer or the mark is missing.
    pub fn set_waypoint_visible_in_layer(&mut self, layer_id: LayerId, waypoint_id: WaypointId, visible: bool) -> (r: Option<bool>)
        ensures
            (final(self)@, r) == p_set_waypoint_visible(old(self)@, layer_id.0, waypoint_id.0, visible),
    {
        let (li, wi, mut w) = match self.take_waypoint(layer_id.0, waypoint_id.0) {
            Ok(x) => x,
            Err(_) => return None,
        };
        w.set_visible(visible);
        let ghost wv = w@;
        self.put_waypoint(li, wi, w);
        proof {
            lemma_p_set_waypoint_twice(old(self)@, li as int, wi as int, placeholder_waypoint(), wv);
            assert(wv =~= with_waypoint_visible(old(self)@.waypoint_layers[li as int].waypoints[wi as int], visible));
        }
        Some(visible)
    }

    /// Show or hide every mark in every waypoint layer.
    pub fn set_all_waypoints_visible(&mut self, visible: bool)
        ensures
            final(self)@ == all_waypoints_visible(old(self)@, visible),
    {
        let ghost p0 = self@;
        let mut i: usize = 0;
        while i < self.waypoint_layers.len()
            invariant
                i <= self.waypoint_layers.len(),
                self@.waypoint_layers.len() == p0.waypoint_layers.len(),
                self@.id == p0.id,
                self@.name == p0.name,
                self@.map_layers == p0.map_layers,
                self@.track_layers == p0.track_layers,
                forall|k: int| 0 <= k < i ==> #[trigger] self@.waypoint_layers[k] == all_waypoints_visible(p0, visible).waypoint_layers[k],
                forall|k: int| i <= k < self@.waypoint_layers.len() ==> #[trigger] self@.waypoint_layers[k] == p0.waypoint_layers[k],
            decreases self.waypoint_layers.len() - i,
        {
            assert(self@.waypoint_layers[i as int] == p0.waypoint_layers[i as int]);
            let ghost prev_layers = self.waypoint_layers@;
            let mut layer = WaypointLayer { id: LayerId(0), name: String::new(), waypoints: Vec::new() };
            self.waypoint_layers.set_and_swap(i, &mut layer);
            let ghost lv0 = layer@;
            assert(lv0 == p0.waypoint_layers[i as int]);
            let mut j: usize = 0;
            while j < layer.waypoints.len()
                invariant
                    j <= layer.waypoints.len(),
                    layer@.id == lv0.id,
                    layer@.name == lv0.name,
                    layer@.waypoints.len() == lv0.waypoints.len(),
                    forall|k: int| 0 <= k < j ==> #[trigger] layer@.waypoints[k] == with_waypoint_visible(lv0.waypoints[k], visible),
                    forall|k: int| j <= k < layer@.waypoints.len() ==> #[trigger] layer@.waypoints[k] == lv0.waypoints[k],
                decreases layer.waypoints.len() - j,
            {
                let ghost prev = layer.waypoints@;
                assert(layer@.waypoints[j as int] == lv0.waypoints[j as int]);
                let mut w = crate::layers::placeholder_waypoint_exec();
                layer.waypoints.set_and_swap(j, &mut w);
                w.set_visible(visible);
                let ghost wv = w@;
                layer.waypoints.set_and_swap(j, &mut w);
                proof {
                    assert(layer.waypoints@ =~= prev.update(j as int, layer.waypoints@[j as int]));
                    assert(wv == with_waypoint_visible(lv0.waypoints[j as int], visible));
                    assert(layer@.waypoints =~= crate::layers::waypoints_view(prev).update(j as int, wv));
                }
                j = j + 1;
            }
            proof {
                assert(layer@ =~= all_waypoints_visible(p0, visible).waypoint_layers[i as int]);
            }
            let ghost lv = layer@;
            self.waypoint_layers.set_and_swap(i, &mut layer);
            proof {
                assert(self.waypoint_layers@ =~= prev_layers.update(i as int, self.waypoint_layers@[i as int]));
                assert(self@.waypoint_layers =~= waypoint_layers_view(prev_layers).update(i as int, lv));
            }
            i = i + 1;
        }
        proof {
            assert(self@.waypoint_layers =~= all_waypoints_visible(p0, visible).waypoint_layers);
            assert(self@ =~= all_waypoints_visible(p0, visible));
        }
    }

    /// Leave one mark visible and hide every other. When the mark does not
    /// exist nothing changes and the answer is false.
    pub fn show_only_waypoint(&mut self, layer_id: LayerId, waypoint_id: WaypointId) -> (found: bool)
        ensures
            found == has_waypoint(old(self)@, layer_id.0, waypoint_id.0),
            found ==> final(self)@ == p_set_waypoint_visible(all_waypoints_visible(old(self)@, false), layer_id.0, waypoint_id.0, true).0,
            !found ==> final(self)@ == old(self)@,
    {
        let mut present = false;
        let mut i: usize = 0;
        while i < self.waypoint_layers.len()
            invariant
                i <= self.waypoint_layers.len(),
                present == exists|li: int| 0 <= li < i && #[trigger] layer_has_waypoint(self@.waypoint_layers[li], layer_id.0, waypoint_id.0),
            decreases self.waypoint_layers.len() - i,
        {
            let here = layer_has_waypoint_exec(&self.waypoint_layers[i], layer_id.0, waypoint_id.0);
            assert(here == layer_has_waypoint(self@.waypoint_layers[i as int], layer_id.0, waypoint_id.0));
            present = present || here;
            i = i + 1;
        }
        if !present {
            return false;
        }
        self.set_all_waypoints_visible(false);
        self.set_waypoint_visible_in_layer(layer_id, waypoint_id, true);
        true
    }
}

} // verus!

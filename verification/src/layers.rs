use vstd::prelude::*;
use crate::error::ProjectLayerError;
use crate::ids::{LayerId, TrackId, TrackSegmentId, WaypointId};
use crate::index::{as_index, first_index, lemma_first_index_none, lemma_first_index_some};
use crate::track::{SegmentV, Track, TrackSegment, TrackStyle, TrackV, default_track_style, segments_view};
use crate::waypoint::{Waypoint, WaypointV, opt_str_view, clone_opt_string};

verus! {

// ── views ────────────────────────────────────────────────────────────────

#[verifier::ext_equal]
pub struct MapLayerV {
    pub id: LayerId,
    pub name: Seq<char>,
    pub source_path: Option<Seq<char>>,
}

#[verifier::ext_equal]
pub struct TrackLayerV {
    pub id: LayerId,
    pub name: Seq<char>,
    pub tracks: Seq<TrackV>,
}

#[verifier::ext_equal]
pub struct WaypointLayerV {
    pub id: LayerId,
    pub name: Seq<char>,
    pub waypoints: Seq<WaypointV>,
}

pub open spec fn tracks_view(tracks: Seq<Track>) -> Seq<TrackV> {
    tracks.map_values(|t: Track| t@)
}

pub open spec fn waypoints_view(waypoints: Seq<Waypoint>) -> Seq<WaypointV> {
    waypoints.map_values(|w: Waypoint| w@)
}

pub open spec fn track_keys(tracks: Seq<TrackV>) -> Seq<u64> {
    Seq::new(tracks.len(), |i: int| tracks[i].id.0)
}

pub open spec fn waypoint_keys(waypoints: Seq<WaypointV>) -> Seq<u64> {
    Seq::new(waypoints.len(), |i: int| waypoints[i].id.0)
}

/// A raster or tile map shown under the work.
#[derive(Debug, PartialEq, Eq)]
pub struct MapLayer {
    pub id: LayerId,
    pub name: String,
    /// Where the map lives on disk, when it has been downloaded or opened.
    pub source_path: Option<String>,
}

impl View for MapLayer {
    type V = MapLayerV;

    open spec fn view(&self) -> MapLayerV {
        MapLayerV { id: self.id, name: self.name@, source_path: opt_str_view(self.source_path) }
    }
}

impl Clone for MapLayer {
    fn clone(&self) -> (c: Self)
        ensures
            c@ == self@,
    {
        MapLayer { id: self.id, name: self.name.clone(), source_path: clone_opt_string(&self.source_path) }
    }
}

impl MapLayer {
    pub fn new(id: LayerId, name: &str) -> (l: Self)
        ensures
            l@ == (MapLayerV { id, name: name@, source_path: None }),
    {
        MapLayer { id, name: String::from_str(name), source_path: None }
    }

    pub fn with_source_path(id: LayerId, name: &str, source_path: Option<&str>) -> (l: Self)
        ensures
            l@ == (MapLayerV {
                id,
                name: name@,
                source_path: match source_path { Some(p) => Some(p@), None => None },
            }),
    {
        let path = match source_path {
            Some(p) => Some(String::from_str(p)),
            None => None,
        };
        MapLayer { id, name: String::from_str(name), source_path: path }
    }

    pub fn id(&self) -> (id: LayerId)
        ensures
            id == self.id,
    {
        self.id
    }

    pub fn name(&self) -> (n: &str)
        ensures
            n@ == self.name@,
    {
        self.name.as_str()
    }

    pub fn source_path(&self) -> (p: Option<&str>)
        ensures
            match p {
                Some(s) => self@.source_path == Some(s@),
                None => self@.source_path is None,
            },
    {
        match &self.source_path {
            Some(s) => Some(s.as_str()),
            None => None,
        }
    }

    pub fn set_id(&mut self, id: LayerId)
        ensures
            final(self)@ == (MapLayerV { id, ..old(self)@ }),
    {
        self.id = id;
    }
}

// ── track layers ─────────────────────────────────────────────────────────

/// Position of the first track with id `track_id`.
pub fn find_track(tracks: &Vec<Track>, track_id: u64) -> (r: Option<usize>)
    ensures
        as_index(r) == first_index(track_keys(tracks_view(tracks@)), track_id),
        r matches Some(i) ==> i < tracks.len(),
{
    let ghost keys = track_keys(tracks_view(tracks@));
    let mut i: usize = 0;
    while i < tracks.len()
        invariant
            i <= tracks.len(),
            keys == track_keys(tracks_view(tracks@)),
            forall|j: int| 0 <= j < i ==> keys[j] != track_id,
        decreases tracks.len() - i,
    {
        if tracks[i].id.0 == track_id {
            proof {
                lemma_first_index_some(keys, track_id, i as int);
            }
            return Some(i);
        }
        i = i + 1;
    }
    proof {
        lemma_first_index_none(keys, track_id);
    }
    None
}

/// Position of the first waypoint with id `waypoint_id`.
pub fn find_waypoint(waypoints: &Vec<Waypoint>, waypoint_id: u64) -> (r: Option<usize>)
    ensures
        as_index(r) == first_index(waypoint_keys(waypoints_view(waypoints@)), waypoint_id),
        r matches Some(i) ==> i < waypoints.len(),
{
    let ghost keys = waypoint_keys(waypoints_view(waypoints@));
    let mut i: usize = 0;
    while i < waypoints.len()
        invariant
            i <= waypoints.len(),
            keys == waypoint_keys(waypoints_view(waypoints@)),
            forall|j: int| 0 <= j < i ==> keys[j] != waypoint_id,
        decreases waypoints.len() - i,
    {
        if waypoints[i].id.0 == waypoint_id {
            proof {
                lemma_first_index_some(keys, waypoint_id, i as int);
            }
            return Some(i);
        }
        i = i + 1;
    }
    proof {
        lemma_first_index_none(keys, waypoint_id);
    }
    None
}

pub fn clone_tracks(tracks: &Vec<Track>) -> (c: Vec<Track>)
    ensures
        tracks_view(c@) == tracks_view(tracks@),
{
    let mut out: Vec<Track> = Vec::new();
    let mut i: usize = 0;
    while i < tracks.len()
        invariant
            i <= tracks.len(),
            tracks_view(out@) =~= tracks_view(tracks@.subrange(0, i as int)),
        decreases tracks.len() - i,
    {
        let c = tracks[i].clone();
        let ghost prev = out@;
        out.push(c);
        proof {
            assert(tracks_view(out@) =~= tracks_view(prev).push(c@));
            assert(tracks_view(tracks@.subrange(0, i as int + 1)) =~= tracks_view(tracks@.subrange(0, i as int)).push(tracks@[i as int]@));
        }
        i = i + 1;
    }
    proof {
        assert(tracks@.subrange(0, tracks.len() as int) =~= tracks@);
    }
    out
}

pub fn clone_waypoints(waypoints: &Vec<Waypoint>) -> (c: Vec<Waypoint>)
    ensures
        waypoints_view(c@) == waypoints_view(waypoints@),
{
    let mut out: Vec<Waypoint> = Vec::new();
    let mut i: usize = 0;
    while i < waypoints.len()
        invariant
            i <= waypoints.len(),
            waypoints_view(out@) =~= waypoints_view(waypoints@.subrange(0, i as int)),
        decreases waypoints.len() - i,
    {
        let c = waypoints[i].clone();
        let ghost prev = out@;
        out.push(c);
        proof {
            assert(waypoints_view(out@) =~= waypoints_view(prev).push(c@));
            assert(waypoints_view(waypoints@.subrange(0, i as int + 1)) =~= waypoints_view(waypoints@.subrange(0, i as int)).push(waypoints@[i as int]@));
        }
        i = i + 1;
    }
    proof {
        assert(waypoints@.subrange(0, waypoints.len() as int) =~= waypoints@);
    }
    out
}

/// A layer of recorded or drawn tracks.
#[derive(Debug, PartialEq)]
pub struct TrackLayer {
    pub id: LayerId,
    pub name: String,
    pub tracks: Vec<Track>,
}

impl View for TrackLayer {
    type V = TrackLayerV;

    open spec fn view(&self) -> TrackLayerV {
        TrackLayerV { id: self.id, name: self.name@, tracks: tracks_view(self.tracks@) }
    }
}

impl Clone for TrackLayer {
    fn clone(&self) -> (c: Self)
        ensures
            c@ == self@,
    {
        TrackLayer { id: self.id, name: self.name.clone(), tracks: clone_tracks(&self.tracks) }
    }
}

pub open spec fn layer_remove_track(l: TrackLayerV, track_id: u64) -> (TrackLayerV, Result<(usize, TrackV), ProjectLayerError>) {
    match first_index(track_keys(l.tracks), track_id) {
        Some(i) => (TrackLayerV { tracks: l.tracks.remove(i), ..l }, Ok((i as usize, l.tracks[i]))),
        None => (l, Err(ProjectLayerError::MissingTrack { layer_id: l.id.0, track_id })),
    }
}

pub open spec fn with_visible(t: TrackV, visible: bool) -> TrackV {
    TrackV { style: TrackStyle { visible, ..t.style }, ..t }
}

pub open spec fn layer_set_track_visible(l: TrackLayerV, track_id: u64, visible: bool) -> TrackLayerV {
    match first_index(track_keys(l.tracks), track_id) {
        Some(i) => TrackLayerV { tracks: l.tracks.update(i, with_visible(l.tracks[i], visible)), ..l },
        None => l,
    }
}

/// A track with one empty segment (id 1): what drawing starts from.
pub open spec fn empty_track(track_id: TrackId, name: Seq<char>) -> TrackV {
    TrackV {
        id: track_id,
        name,
        style: default_track_style(),
        segments: seq![SegmentV { id: TrackSegmentId(1), points: Seq::empty() }],
    }
}

impl TrackLayer {
    pub fn new(id: LayerId, name: &str) -> (l: Self)
        ensures
            l@ == (TrackLayerV { id, name: name@, tracks: Seq::empty() }),
    {
        let l = TrackLayer { id, name: String::from_str(name), tracks: Vec::new() };
        proof {
            assert(tracks_view(l.tracks@) =~= Seq::<TrackV>::empty());
        }
        l
    }

    pub fn id(&self) -> (id: LayerId)
        ensures
            id == self.id,
    {
        self.id
    }

    pub fn name(&self) -> (n: &str)
        ensures
            n@ == self.name@,
    {
        self.name.as_str()
    }

    pub fn set_name(&mut self, name: String)
        ensures
            final(self)@ == (TrackLayerV { name: name@, ..old(self)@ }),
    {
        self.name = name;
    }

    pub fn set_id(&mut self, id: LayerId)
        ensures
            final(self)@ == (TrackLayerV { id, ..old(self)@ }),
    {
        self.id = id;
    }

    pub fn tracks(&self) -> (t: &[Track])
        ensures
            t@ == self.tracks@,
    {
        self.tracks.as_slice()
    }

    pub fn add_track(&mut self, track: Track)
        ensures
            final(self)@ == (TrackLayerV { tracks: old(self)@.tracks.push(track@), ..old(self)@ }),
    {
        self.tracks.push(track);
        proof {
            assert(tracks_view(self.tracks@) =~= old(self)@.tracks.push(track@));
        }
    }

    /// Remove a track, answering with where it stood and what it was.
    pub fn remove_track(&mut self, track_id: TrackId) -> (r: Result<(usize, Track), ProjectLayerError>)
        ensures
            (final(self)@, match r { Ok((i, t)) => Ok((i, t@)), Err(e) => Err(e) })
                == layer_remove_track(old(self)@, track_id.0),
    {
        match find_track(&self.tracks, track_id.0) {
            Some(i) => {
                let t = self.tracks.remove(i);
                proof {
                    assert(tracks_view(self.tracks@) =~= old(self)@.tracks.remove(i as int));
                }
                Ok((i, t))
            },
            None => Err(ProjectLayerError::MissingTrack { layer_id: self.id.0, track_id: track_id.0 }),
        }
    }

    /// Show or hide the first track with the given id; nothing happens when
    /// there is none.
    pub fn set_track_visible(&mut self, track_id: TrackId, visible: bool)
        ensures
            final(self)@ == layer_set_track_visible(old(self)@, track_id.0, visible),
    {
        match find_track(&self.tracks, track_id.0) {
            Some(i) => {
                let mut t = Track { id: TrackId(0), name: String::new(), style: TrackStyle::default(), segments: Vec::new() };
                self.tracks.set_and_swap(i, &mut t);
                t.style.visible = visible;
                self.tracks.set_and_swap(i, &mut t);
                proof {
                    assert(tracks_view(self.tracks@) =~= old(self)@.tracks.update(i as int, with_visible(old(self)@.tracks[i as int], visible)));
                }
            },
            None => {},
        }
    }

    /// Add a track with one empty segment, under the id the caller chose.
    pub fn create_empty_track(&mut self, track_id: TrackId, name: String)
        ensures
            final(self)@ == (TrackLayerV { tracks: old(self)@.tracks.push(empty_track(track_id, name@)), ..old(self)@ }),
    {
        let mut segments: Vec<TrackSegment> = Vec::new();
        segments.push(TrackSegment::new(TrackSegmentId(1)));
        let track = Track { id: track_id, name, style: TrackStyle::default(), segments };
        proof {
            assert(segments_view(track.segments@) =~= seq![SegmentV { id: TrackSegmentId(1), points: Seq::empty() }]);
        }
        self.add_track(track);
    }
}

// ── waypoint layers ──────────────────────────────────────────────────────

/// A layer of marks.
#[derive(Debug, PartialEq)]
pub struct WaypointLayer {
    pub id: LayerId,
    pub name: String,
    pub waypoints: Vec<Waypoint>,
}

impl View for WaypointLayer {
    type V = WaypointLayerV;

    open spec fn view(&self) -> WaypointLayerV {
        WaypointLayerV { id: self.id, name: self.name@, waypoints: waypoints_view(self.waypoints@) }
    }
}

impl Clone for WaypointLayer {
    fn clone(&self) -> (c: Self)
        ensures
            c@ == self@,
    {
        WaypointLayer { id: self.id, name: self.name.clone(), waypoints: clone_waypoints(&self.waypoints) }
    }
}

pub open spec fn layer_remove_waypoint(l: WaypointLayerV, waypoint_id: u64) -> (WaypointLayerV, Result<(usize, WaypointV), ProjectLayerError>) {
    match first_index(waypoint_keys(l.waypoints), waypoint_id) {
        Some(i) => (WaypointLayerV { waypoints: l.waypoints.remove(i), ..l }, Ok((i as usize, l.waypoints[i]))),
        None => (l, Err(ProjectLayerError::WaypointNotFound(l.id, WaypointId(waypoint_id)))),
    }
}

pub open spec fn placeholder_waypoint() -> WaypointV {
    WaypointV {
        id: WaypointId(0),
        name: Seq::empty(),
        symbol: None,
        latitude: 0,
        longitude: 0,
        visible: true,
        color: None,
        description: None,
        attachments: Seq::empty(),
    }
}

pub fn placeholder_waypoint_exec() -> (w: Waypoint)
    ensures
        w@ == placeholder_waypoint(),
{
    let w = Waypoint {
        id: WaypointId(0),
        name: String::new(),
        symbol: None,
        latitude: 0,
        longitude: 0,
        visible: true,
        color: None,
        description: None,
        attachments: Vec::new(),
    };
    proof {
        assert(w@.attachments =~= Seq::<Seq<char>>::empty());
    }
    w
}

impl WaypointLayer {
    pub fn new(id: LayerId, name: &str) -> (l: Self)
        ensures
            l@ == (WaypointLayerV { id, name: name@, waypoints: Seq::empty() }),
    {
        let l = WaypointLayer { id, name: String::from_str(name), waypoints: Vec::new() };
        proof {
            assert(waypoints_view(l.waypoints@) =~= Seq::<WaypointV>::empty());
        }
        l
    }

    pub fn id(&self) -> (id: LayerId)
        ensures
            id == self.id,
    {
        self.id
    }

    pub fn name(&self) -> (n: &str)
        ensures
            n@ == self.name@,
    {
        self.name.as_str()
    }

    pub fn set_name(&mut self, name: String)
        ensures
            final(self)@ == (WaypointLayerV { name: name@, ..old(self)@ }),
    {
        self.name = name;
    }

    pub fn set_id(&mut self, id: LayerId)
        ensures
            final(self)@ == (WaypointLayerV { id, ..old(self)@ }),
    {
        self.id = id;
    }

    pub fn waypoints(&self) -> (w: &[Waypoint])
        ensures
            w@ == self.waypoints@,
    {
        self.waypoints.as_slice()
    }

    pub fn add_waypoint(&mut self, waypoint: Waypoint)
        ensures
            final(self)@ == (WaypointLayerV { waypoints: old(self)@.waypoints.push(waypoint@), ..old(self)@ }),
    {
        self.waypoints.push(waypoint);
        proof {
            assert(waypoints_view(self.waypoints@) =~= old(self)@.waypoints.push(waypoint@));
        }
    }

    /// Remove a mark, answering with where it stood and what it was.
    pub fn remove_waypoint(&mut self, waypoint_id: u64) -> (r: Result<(usize, Waypoint), ProjectLayerError>)
        ensures
            (final(self)@, match r { Ok((i, w)) => Ok((i, w@)), Err(e) => Err(e) })
                == layer_remove_waypoint(old(self)@, waypoint_id),
    {
        match find_waypoint(&self.waypoints, waypoint_id) {
            Some(i) => {
                let w = self.waypoints.remove(i);
                proof {
                    assert(waypoints_view(self.waypoints@) =~= old(self)@.waypoints.remove(i as int));
                }
                Ok((i, w))
            },
            None => Err(ProjectLayerError::WaypointNotFound(self.id, WaypointId(waypoint_id))),
        }
    }

    /// Take the first mark with this id out of the layer, leaving a
    /// placeholder in its place until `put_waypoint` returns it.
    pub fn take_waypoint(&mut self, waypoint_id: u64) -> (r: Result<(usize, Waypoint), ProjectLayerError>)
        ensures
            match r {
                Ok((i, w)) => {
                    &&& first_index(waypoint_keys(old(self)@.waypoints), waypoint_id) == Some(i as int)
                    &&& w@ == old(self)@.waypoints[i as int]
                    &&& final(self)@ == (WaypointLayerV { waypoints: old(self)@.waypoints.update(i as int, placeholder_waypoint()), ..old(self)@ })
                    &&& i < old(self)@.waypoints.len()
                },
                Err(e) => {
                    &&& first_index(waypoint_keys(old(self)@.waypoints), waypoint_id) is None
                    &&& e == ProjectLayerError::WaypointNotFound(old(self).id, WaypointId(waypoint_id))
                    &&& final(self)@ == old(self)@
                },
            },
    {
        match find_waypoint(&self.waypoints, waypoint_id) {
            Some(i) => {
                let mut w = placeholder_waypoint_exec();
                self.waypoints.set_and_swap(i, &mut w);
                proof {
                    assert(waypoints_view(self.waypoints@) =~= old(self)@.waypoints.update(i as int, placeholder_waypoint()));
                }
                Ok((i, w))
            },
            None => Err(ProjectLayerError::WaypointNotFound(self.id, WaypointId(waypoint_id))),
        }
    }

    /// Put a mark back where `take_waypoint` took it from.
    pub fn put_waypoint(&mut self, i: usize, waypoint: Waypoint)
        requires
            i < old(self).waypoints.len(),
        ensures
            final(self)@ == (WaypointLayerV { waypoints: old(self)@.waypoints.update(i as int, waypoint@), ..old(self)@ }),
    {
        let mut w = waypoint;
        self.waypoints.set_and_swap(i, &mut w);
        proof {
            assert(waypoints_view(self.waypoints@) =~= old(self)@.waypoints.update(i as int, waypoint@));
        }
    }
}

/// The layer with its mark at `i` replaced by `w`.
pub open spec fn layer_with_waypoint(l: WaypointLayerV, i: int, w: WaypointV) -> WaypointLayerV {
    WaypointLayerV { waypoints: l.waypoints.update(i, w), ..l }
}

/// The layer after the first mark with `waypoint_id` becomes `edit` of
/// itself, and whether there was one.
pub open spec fn layer_edit_waypoint(l: WaypointLayerV, waypoint_id: u64, edit: spec_fn(WaypointV) -> WaypointV) -> (WaypointLayerV, Option<int>) {
    match first_index(waypoint_keys(l.waypoints), waypoint_id) {
        Some(i) => (layer_with_waypoint(l, i, edit(l.waypoints[i])), Some(i)),
        None => (l, None),
    }
}

impl WaypointLayer {
    /// Rename a mark, answering with its old name.
    pub fn rename_waypoint(&mut self, waypoint_id: u64, new_name: String) -> (r: Result<String, ProjectLayerError>)
        ensures
            match layer_edit_waypoint(old(self)@, waypoint_id, |w: WaypointV| WaypointV { name: new_name@, ..w }) {
                (l, Some(i)) => final(self)@ == l && (r matches Ok(previous) && previous@ == old(self)@.waypoints[i].name),
                (l, None) => final(self)@ == l && r == Err::<String, ProjectLayerError>(ProjectLayerError::WaypointNotFound(old(self).id, WaypointId(waypoint_id))),
            },
    {
        let (i, mut w) = match self.take_waypoint(waypoint_id) {
            Ok(x) => x,
            Err(e) => return Err(e),
        };
        proof {
            assert(waypoints_view(self.waypoints@).len() == self.waypoints@.len());
        }
        let previous = w.set_name(new_name);
        self.put_waypoint(i, w);
        proof {
            assert(self@.waypoints =~= old(self)@.waypoints.update(i as int, w@));
        }
        Ok(previous)
    }

    /// Set or clear a mark's symbol, answering with the old one.
    pub fn set_waypoint_symbol(&mut self, waypoint_id: u64, symbol: Option<String>) -> (r: Result<Option<String>, ProjectLayerError>)
        ensures
            match layer_edit_waypoint(old(self)@, waypoint_id, |w: WaypointV| WaypointV { symbol: opt_str_view(symbol), ..w }) {
                (l, Some(i)) => final(self)@ == l && (r matches Ok(previous) && opt_str_view(previous) == old(self)@.waypoints[i].symbol),
                (l, None) => final(self)@ == l && r == Err::<Option<String>, ProjectLayerError>(ProjectLayerError::WaypointNotFound(old(self).id, WaypointId(waypoint_id))),
            },
    {
        let (i, mut w) = match self.take_waypoint(waypoint_id) {
            Ok(x) => x,
            Err(e) => return Err(e),
        };
        proof {
            assert(waypoints_view(self.waypoints@).len() == self.waypoints@.len());
        }
        let previous = w.set_symbol(symbol);
        self.put_waypoint(i, w);
        proof {
            assert(self@.waypoints =~= old(self)@.waypoints.update(i as int, w@));
        }
        Ok(previous)
    }

    /// Move a mark; false when there is no such mark.
    pub fn move_waypoint(&mut self, waypoint_id: WaypointId, latitude: u64, longitude: u64) -> (moved: bool)
        ensures
            (final(self)@, moved) == match layer_edit_waypoint(old(self)@, waypoint_id.0, |w: WaypointV| WaypointV { latitude, longitude, ..w }) {
                (l, found) => (l, found is Some),
            },
    {
        let (i, mut w) = match self.take_waypoint(waypoint_id.0) {
            Ok(x) => x,
            Err(_) => return false,
        };
        proof {
            assert(waypoints_view(self.waypoints@).len() == self.waypoints@.len());
        }
        w.move_to(latitude, longitude);
        self.put_waypoint(i, w);
        proof {
            assert(self@.waypoints =~= old(self)@.waypoints.update(i as int, w@));
        }
        true
    }

    /// Show or hide a mark, answering with the new value; `None` when there
    /// is no such mark. This is not an undoable edit.
    pub fn set_waypoint_visible(&mut self, waypoint_id: WaypointId, visible: bool) -> (r: Option<bool>)
        ensures
            (final(self)@, r) == match layer_edit_waypoint(old(self)@, waypoint_id.0, |w: WaypointV| WaypointV { visible, ..w }) {
                (l, Some(_)) => (l, Some(visible)),
                (l, None) => (l, None),
            },
    {
        let (i, mut w) = match self.take_waypoint(waypoint_id.0) {
            Ok(x) => x,
            Err(_) => return None,
        };
        proof {
            assert(waypoints_view(self.waypoints@).len() == self.waypoints@.len());
        }
        w.set_visible(visible);
        self.put_waypoint(i, w);
        proof {
            assert(self@.waypoints =~= old(self)@.waypoints.update(i as int, w@));
        }
        Some(visible)
    }

    /// Flip a mark's visibility, answering with the new value; `None` when
    /// there is no such mark. This is not an undoable edit.
    pub fn toggle_waypoint_visible(&mut self, waypoint_id: WaypointId) -> (r: Option<bool>)
        ensures
            match layer_edit_waypoint(old(self)@, waypoint_id.0, |w: WaypointV| WaypointV { visible: !w.visible, ..w }) {
                (l, Some(i)) => final(self)@ == l && r == Some(!old(self)@.waypoints[i].visible),
                (l, None) => final(self)@ == l && r is None,
            },
    {
        let (i, mut w) = match self.take_waypoint(waypoint_id.0) {
            Ok(x) => x,
            Err(_) => return None,
        };
        proof {
            assert(waypoints_view(self.waypoints@).len() == self.waypoints@.len());
        }
        let v = w.toggle_visible();
        self.put_waypoint(i, w);
        proof {
            assert(self@.waypoints =~= old(self)@.waypoints.update(i as int, w@));
        }
        Some(v)
    }
}

} // verus!

use vstd::prelude::*;
use crate::ids::{TrackId, TrackPointId, TrackSegmentId};
use crate::index::{as_index, first_index, lemma_first_index_none, lemma_first_index_some};
use crate::error::ProjectLayerError;

verus! {

/// A moment as the GPS recorded it: whole seconds since the Unix epoch (UTC)
/// and the nanoseconds past that second.
#[derive(Debug, Clone, Copy, PartialEq, Eq, Hash, Structural)]
pub struct Timestamp {
    pub secs: i64,
    pub nanos: u32,
}

impl Timestamp {
    /// Nanoseconds since the Unix epoch.
    pub open spec fn total_nanos(self) -> int {
        self.secs * 1_000_000_000 + self.nanos
    }
}

/// One recorded position.
///
/// Coordinates are carried as the bit patterns of the `f64` degrees they
/// were read as, and the elevation likewise: the editing logic moves them
/// about and hands them back untouched, and never computes with them.
#[derive(Debug, Clone, Copy, PartialEq, Eq, Structural)]
pub struct TrackPoint {
    pub id: TrackPointId,
    pub latitude: u64,
    pub longitude: u64,
    pub elevation: Option<u64>,
    pub timestamp: Option<Timestamp>,
}

impl TrackPoint {
    pub fn new(id: TrackPointId, latitude: u64, longitude: u64) -> (p: Self)
        ensures
            p == (TrackPoint { id, latitude, longitude, elevation: None, timestamp: None }),
    {
        TrackPoint { id, latitude, longitude, elevation: None, timestamp: None }
    }

    pub fn with_elevation(self, elevation: u64) -> (p: Self)
        ensures
            p == (TrackPoint { elevation: Some(elevation), ..self }),
    {
        TrackPoint { elevation: Some(elevation), ..self }
    }

    pub fn with_timestamp(self, timestamp: Timestamp) -> (p: Self)
        ensures
            p == (TrackPoint { timestamp: Some(timestamp), ..self }),
    {
        TrackPoint { timestamp: Some(timestamp), ..self }
    }

    pub fn id(&self) -> (id: TrackPointId)
        ensures
            id == self.id,
    {
        self.id
    }

    pub fn latitude(&self) -> (v: u64)
        ensures
            v == self.latitude,
    {
        self.latitude
    }

    pub fn longitude(&self) -> (v: u64)
        ensures
            v == self.longitude,
    {
        self.longitude
    }

    pub fn elevation(&self) -> (v: Option<u64>)
        ensures
            v == self.elevation,
    {
        self.elevation
    }

    pub fn timestamp(&self) -> (v: Option<Timestamp>)
        ensures
            v == self.timestamp,
    {
        self.timestamp
    }
}

/// How a track is drawn. `line_width` and `opacity` are the bit patterns of
/// the `f32` values the map is given.
#[derive(Debug, Clone, Copy, PartialEq, Eq)]
pub struct TrackStyle {
    /// RGBA colour bytes.
    pub color: [u8; 4],
    pub line_width: u32,
    pub visible: bool,
    /// Multiplier applied on top of the colour's alpha (0.0–1.0).
    pub opacity: u32,
}

/// The bits of `2.0f32`.
pub const DEFAULT_LINE_WIDTH_BITS: u32 = 0x4000_0000u32;

/// The bits of `1.0f32`.
pub const FULL_OPACITY_BITS: u32 = 0x3f80_0000u32;

pub open spec fn default_track_style() -> TrackStyle {
    TrackStyle {
        color: [255u8, 0u8, 0u8, 255u8],
        line_width: DEFAULT_LINE_WIDTH_BITS,
        visible: true,
        opacity: FULL_OPACITY_BITS,
    }
}

impl Default for TrackStyle {
    /// Visible, opaque red, two pixels wide.
    fn default() -> (s: Self)
        ensures
            s == default_track_style(),
    {
        TrackStyle {
            color: [255u8, 0u8, 0u8, 255u8],
            line_width: DEFAULT_LINE_WIDTH_BITS,
            visible: true,
            opacity: FULL_OPACITY_BITS,
        }
    }
}

/// What a segment is, for the contracts: its id and its points in order.
#[verifier::ext_equal]
pub struct SegmentV {
    pub id: TrackSegmentId,
    pub points: Seq<TrackPoint>,
}

/// A continuous run of points.
#[derive(Debug, PartialEq)]
pub struct TrackSegment {
    pub id: TrackSegmentId,
    pub points: Vec<TrackPoint>,
}

impl View for TrackSegment {
    type V = SegmentV;

    open spec fn view(&self) -> SegmentV {
        SegmentV { id: self.id, points: self.points@ }
    }
}

impl Clone for TrackSegment {
    fn clone(&self) -> (c: Self)
        ensures
            c@ == self@,
    {
        let points = self.points.clone();
        proof {
            assert(points@ =~= self.points@);
        }
        TrackSegment { id: self.id, points }
    }
}

/// The ids of `points`, in order.
pub open spec fn point_keys(points: Seq<TrackPoint>) -> Seq<u64> {
    Seq::new(points.len(), |i: int| points[i].id.0)
}

/// Position of the first point with id `point_id`.
pub fn find_point(points: &Vec<TrackPoint>, point_id: u64) -> (r: Option<usize>)
    ensures
        as_index(r) == first_index(point_keys(points@), point_id),
        r matches Some(i) ==> i < points.len(),
{
    let mut i: usize = 0;
    while i < points.len()
        invariant
            i <= points.len(),
            forall|j: int| 0 <= j < i ==> points@[j].id.0 != point_id,
        decreases points.len() - i,
    {
        if points[i].id.0 == point_id {
            proof {
                lemma_first_index_some(point_keys(points@), point_id, i as int);
            }
            return Some(i);
        }
        i = i + 1;
    }
    proof {
        lemma_first_index_none(point_keys(points@), point_id);
    }
    None
}

/// The error a segment reports for a point it does not hold. The layer and
/// track are not known at this level and read 0; callers above fill them in.
pub open spec fn segment_missing_point(segment_id: TrackSegmentId, point_id: u64) -> ProjectLayerError {
    ProjectLayerError::MissingTrackPoint {
        layer_id: 0,
        track_id: 0,
        segment_id: segment_id.0,
        point_id,
    }
}

pub open spec fn seg_move_point(s: SegmentV, point_id: u64, lat: u64, lon: u64) -> (SegmentV, Result<(u64, u64), ProjectLayerError>) {
    match first_index(point_keys(s.points), point_id) {
        Some(i) => (
            SegmentV {
                points: s.points.update(i, TrackPoint { latitude: lat, longitude: lon, ..s.points[i] }),
                ..s
            },
            Ok((s.points[i].latitude, s.points[i].longitude)),
        ),
        None => (s, Err(segment_missing_point(s.id, point_id))),
    }
}

pub open spec fn seg_remove_point(s: SegmentV, point_id: u64) -> (SegmentV, Result<(usize, TrackPoint), ProjectLayerError>) {
    match first_index(point_keys(s.points), point_id) {
        Some(i) => (SegmentV { points: s.points.remove(i), ..s }, Ok((i as usize, s.points[i]))),
        None => (s, Err(segment_missing_point(s.id, point_id))),
    }
}

pub open spec fn seg_insert_point(s: SegmentV, index: usize, point: TrackPoint) -> (SegmentV, Result<(), ProjectLayerError>) {
    if index <= s.points.len() {
        (SegmentV { points: s.points.insert(index as int, point), ..s }, Ok(()))
    } else {
        (s, Err(segment_missing_point(s.id, index as u64)))
    }
}

/// Split at a point: the left part keeps the id and the points up to and
/// including the split point; the right part, under `new_id`, starts with
/// that same point and runs to the end.
pub open spec fn seg_split(s: SegmentV, point_id: u64, new_id: TrackSegmentId) -> (SegmentV, Result<SegmentV, ProjectLayerError>) {
    match first_index(point_keys(s.points), point_id) {
        Some(i) => (
            SegmentV { points: s.points.subrange(0, i + 1), ..s },
            Ok(SegmentV { id: new_id, points: s.points.subrange(i, s.points.len() as int) }),
        ),
        None => (s, Err(segment_missing_point(s.id, point_id))),
    }
}

impl TrackSegment {
    pub fn new(id: TrackSegmentId) -> (s: Self)
        ensures
            s@ == (SegmentV { id, points: Seq::empty() }),
    {
        TrackSegment { id, points: Vec::new() }
    }

    pub fn id(&self) -> (id: TrackSegmentId)
        ensures
            id == self.id,
    {
        self.id
    }

    pub fn points(&self) -> (ps: &[TrackPoint])
        ensures
            ps@ == self.points@,
    {
        self.points.as_slice()
    }

    pub fn add_point(&mut self, point: TrackPoint)
        ensures
            final(self)@ == (SegmentV { points: old(self)@.points.push(point), ..old(self)@ }),
    {
        self.points.push(point);
    }

    /// Move a point to new coordinates, answering with the old ones for undo.
    pub fn move_point(&mut self, point_id: u64, lat: u64, lon: u64) -> (r: Result<(u64, u64), ProjectLayerError>)
        ensures
            (final(self)@, r) == seg_move_point(old(self)@, point_id, lat, lon),
    {
        match find_point(&self.points, point_id) {
            Some(i) => {
                let old_point = self.points[i];
                let moved = TrackPoint { latitude: lat, longitude: lon, ..old_point };
                self.points.set(i, moved);
                Ok((old_point.latitude, old_point.longitude))
            },
            None => Err(ProjectLayerError::MissingTrackPoint {
                layer_id: 0,
                track_id: 0,
                segment_id: self.id.0,
                point_id,
            }),
        }
    }

    /// Remove a point, answering with where it stood and what it was so that
    /// undo can put it back with `insert_point_at`.
    pub fn remove_point(&mut self, point_id: u64) -> (r: Result<(usize, TrackPoint), ProjectLayerError>)
        ensures
            (final(self)@, r) == seg_remove_point(old(self)@, point_id),
    {
        match find_point(&self.points, point_id) {
            Some(i) => {
                let removed = self.points.remove(i);
                Ok((i, removed))
            },
            None => Err(ProjectLayerError::MissingTrackPoint {
                layer_id: 0,
                track_id: 0,
                segment_id: self.id.0,
                point_id,
            }),
        }
    }

    /// Insert a point at `index`; an index past the end is refused.
    pub fn insert_point_at(&mut self, index: usize, point: TrackPoint) -> (r: Result<(), ProjectLayerError>)
        ensures
            (final(self)@, r) == seg_insert_point(old(self)@, index, point),
    {
        if index > self.points.len() {
            return Err(ProjectLayerError::MissingTrackPoint {
                layer_id: 0,
                track_id: 0,
                segment_id: self.id.0,
                point_id: index as u64,
            });
        }
        self.points.insert(index, point);
        Ok(())
    }

    /// Split this segment at a point; see `seg_split`.
    pub fn split_at_point(&mut self, point_id: u64, new_segment_id: TrackSegmentId) -> (r: Result<TrackSegment, ProjectLayerError>)
        ensures
            (final(self)@, match r { Ok(right) => Ok(right@), Err(e) => Err(e) })
                == seg_split(old(self)@, point_id, new_segment_id),
    {
        match find_point(&self.points, point_id) {
            Some(split_index) => {
                let mut right_points: Vec<TrackPoint> = Vec::new();
                let mut k: usize = split_index;
                while k < self.points.len()
                    invariant
                        split_index <= k <= self.points.len(),
                        right_points@ =~= self.points@.subrange(split_index as int, k as int),
                    decreases self.points.len() - k,
                {
                    right_points.push(self.points[k]);
                    k = k + 1;
                }
                self.points.truncate(split_index + 1);
                Ok(TrackSegment { id: new_segment_id, points: right_points })
            },
            None => Err(ProjectLayerError::MissingTrackPoint {
                layer_id: 0,
                track_id: 0,
                segment_id: self.id.0,
                point_id,
            }),
        }
    }
}

/// What a track is, for the contracts.
#[verifier::ext_equal]
pub struct TrackV {
    pub id: TrackId,
    pub name: Seq<char>,
    pub style: TrackStyle,
    pub segments: Seq<SegmentV>,
}

/// A named recording made of segments.
#[derive(Debug, PartialEq)]
pub struct Track {
    pub id: TrackId,
    pub name: String,
    pub style: TrackStyle,
    pub segments: Vec<TrackSegment>,
}

pub open spec fn segments_view(segments: Seq<TrackSegment>) -> Seq<SegmentV> {
    segments.map_values(|s: TrackSegment| s@)
}

impl View for Track {
    type V = TrackV;

    open spec fn view(&self) -> TrackV {
        TrackV { id: self.id, name: self.name@, style: self.style, segments: segments_view(self.segments@) }
    }
}

pub fn clone_segments(segments: &Vec<TrackSegment>) -> (c: Vec<TrackSegment>)
    ensures
        segments_view(c@) == segments_view(segments@),
{
    let mut out: Vec<TrackSegment> = Vec::new();
    let mut i: usize = 0;
    while i < segments.len()
        invariant
            i <= segments.len(),
            segments_view(out@) =~= segments_view(segments@.subrange(0, i as int)),
        decreases segments.len() - i,
    {
        let c = segments[i].clone();
        assert(c@ == segments@[i as int]@);
        proof {
            assert(segments@.subrange(0, i as int + 1) =~= segments@.subrange(0, i as int).push(segments@[i as int]));
        }
        let ghost prev = out@;
        out.push(c);
        proof {
            assert(out@ =~= prev.push(c));
            assert(segments_view(prev.push(c)) =~= segments_view(prev).push(c@));
            assert(segments_view(segments@.subrange(0, i as int).push(segments@[i as int]))
                =~= segments_view(segments@.subrange(0, i as int)).push(segments@[i as int]@));
        }
        i = i + 1;
    }
    proof {
        assert(segments@.subrange(0, segments.len() as int) =~= segments@);
    }
    out
}

impl Clone for Track {
    fn clone(&self) -> (c: Self)
        ensures
            c@ == self@,
    {
        Track {
            id: self.id,
            name: self.name.clone(),
            style: self.style,
            segments: clone_segments(&self.segments),
        }
    }
}

/// The ids of `segments`, in order.
pub open spec fn segment_keys(segments: Seq<SegmentV>) -> Seq<u64> {
    Seq::new(segments.len(), |i: int| segments[i].id.0)
}

/// Position of the first segment with id `segment_id`.
pub fn find_segment(segments: &Vec<TrackSegment>, segment_id: u64) -> (r: Option<usize>)
    ensures
        as_index(r) == first_index(segment_keys(segments_view(segments@)), segment_id),
        r matches Some(i) ==> i < segments.len(),
{
    let ghost keys = segment_keys(segments_view(segments@));
    let mut i: usize = 0;
    while i < segments.len()
        invariant
            i <= segments.len(),
            keys == segment_keys(segments_view(segments@)),
            forall|j: int| 0 <= j < i ==> keys[j] != segment_id,
        decreases segments.len() - i,
    {
        if segments[i].id.0 == segment_id {
            proof {
                lemma_first_index_some(keys, segment_id, i as int);
            }
            return Some(i);
        }
        i = i + 1;
    }
    proof {
        lemma_first_index_none(keys, segment_id);
    }
    None
}

/// Every point of a track, segment after segment.
pub open spec fn track_points(t: TrackV) -> Seq<TrackPoint> {
    t.segments.map_values(|s: SegmentV| s.points).flatten_alt()
}

pub open spec fn first_timestamp(points: Seq<TrackPoint>) -> Option<Timestamp>
    decreases points.len(),
{
    if points.len() == 0 {
        None
    } else {
        match points[0].timestamp {
            Some(t) => Some(t),
            None => first_timestamp(points.drop_first()),
        }
    }
}

pub open spec fn last_timestamp(points: Seq<TrackPoint>) -> Option<Timestamp>
    decreases points.len(),
{
    if points.len() == 0 {
        None
    } else {
        match points.last().timestamp {
            Some(t) => Some(t),
            None => last_timestamp(points.drop_last()),
        }
    }
}

/// Nanoseconds from the first timestamped point to the last one.
pub open spec fn track_duration(t: TrackV) -> Option<int> {
    match (first_timestamp(track_points(t)), last_timestamp(track_points(t))) {
        (Some(a), Some(b)) => Some(b.total_nanos() - a.total_nanos()),
        _ => None,
    }
}

pub proof fn lemma_first_timestamp_push(points: Seq<TrackPoint>, p: TrackPoint)
    ensures
        first_timestamp(points.push(p)) == (match first_timestamp(points) {
            Some(t) => Some(t),
            None => p.timestamp,
        }),
    decreases points.len(),
{
    if points.len() == 0 {
        assert(points.push(p).drop_first() =~= Seq::<TrackPoint>::empty());
        assert(first_timestamp(Seq::<TrackPoint>::empty()) is None);
        assert(points.push(p)[0] == p);
    } else {
        assert(points.push(p)[0] == points[0]);
        assert(points.push(p).drop_first() =~= points.drop_first().push(p));
        lemma_first_timestamp_push(points.drop_first(), p);
    }
}

pub proof fn lemma_flatten_alt_take<A>(s: Seq<Seq<A>>, i: int)
    requires
        0 <= i < s.len(),
    ensures
        s.take(i + 1).flatten_alt() == s.take(i).flatten_alt() + s[i],
{
    assert(s.take(i + 1).drop_last() =~= s.take(i));
}

/// A segment with its points added to its end: how a join treats the first
/// segment.
pub open spec fn track_join(t: TrackV, a: u64, b: u64) -> (TrackV, Result<SegmentV, ProjectLayerError>) {
    let keys = segment_keys(t.segments);
    match first_index(keys, a) {
        None => (t, Err(ProjectLayerError::MissingTrackSegment { layer_id: 0, track_id: t.id.0, segment_id: a })),
        Some(ia) => match first_index(keys, b) {
            None => (t, Err(ProjectLayerError::MissingTrackSegment { layer_id: 0, track_id: t.id.0, segment_id: b })),
            Some(ib) => if ib != ia + 1 {
                (t, Err(ProjectLayerError::MissingTrackSegment { layer_id: 0, track_id: t.id.0, segment_id: b }))
            } else {
                let sa = t.segments[ia];
                let sb = t.segments[ib];
                (
                    TrackV {
                        segments: t.segments.update(ia, SegmentV { points: sa.points + sb.points, ..sa }).remove(ib),
                        ..t
                    },
                    Ok(SegmentV { id: sb.id, points: Seq::empty() }),
                )
            },
        },
    }
}

pub open spec fn track_remove_segment(t: TrackV, segment_id: u64) -> (TrackV, Result<(usize, SegmentV), ProjectLayerError>) {
    match first_index(segment_keys(t.segments), segment_id) {
        Some(i) => (TrackV { segments: t.segments.remove(i), ..t }, Ok((i as usize, t.segments[i]))),
        None => (t, Err(ProjectLayerError::MissingTrackSegment { layer_id: 0, track_id: t.id.0, segment_id })),
    }
}

pub open spec fn clamp_index(index: usize, len: nat) -> int {
    if index <= len { index as int } else { len as int }
}

impl Track {
    pub fn new(id: TrackId, name: &str) -> (t: Self)
        ensures
            t@ == (TrackV { id, name: name@, style: default_track_style(), segments: Seq::empty() }),
    {
        let t = Track { id, name: String::from_str(name), style: TrackStyle::default(), segments: Vec::new() };
        proof {
            assert(segments_view(t.segments@) =~= Seq::<SegmentV>::empty());
        }
        t
    }

    pub fn id(&self) -> (id: TrackId)
        ensures
            id == self.id,
    {
        self.id
    }

    pub fn name(&self) -> (n: &str)
        ensures
            n@ == self.name@,
    {
        self.name.as_str()
    }

    pub fn set_name(&mut self, name: &str)
        ensures
            final(self)@ == (TrackV { name: name@, ..old(self)@ }),
    {
        self.name = String::from_str(name);
    }

    pub fn style(&self) -> (s: &TrackStyle)
        ensures
            *s == self.style,
    {
        &self.style
    }

    pub fn segments(&self) -> (s: &[TrackSegment])
        ensures
            s@ == self.segments@,
    {
        self.segments.as_slice()
    }

    pub fn add_segment(&mut self, segment: TrackSegment)
        ensures
            final(self)@ == (TrackV { segments: old(self)@.segments.push(segment@), ..old(self)@ }),
    {
        self.segments.push(segment);
        proof {
            assert(segments_view(self.segments@) =~= old(self)@.segments.push(segment@));
        }
    }

    /// Total number of points across all segments.
    pub fn point_count(&self) -> (n: usize)
        requires
            track_points(self@).len() <= usize::MAX,
        ensures
            n == track_points(self@).len(),
    {
        let ghost groups = self@.segments.map_values(|s: SegmentV| s.points);
        let mut total: usize = 0;
        let mut i: usize = 0;
        proof {
            groups.lemma_flatten_and_flatten_alt_are_equivalent();
        }
        while i < self.segments.len()
            invariant
                i <= self.segments.len(),
                groups == self@.segments.map_values(|s: SegmentV| s.points),
                groups.len() == self.segments.len(),
                total == groups.take(i as int).flatten_alt().len(),
                groups.flatten_alt().len() <= usize::MAX,
            decreases self.segments.len() - i,
        {
            proof {
                lemma_flatten_alt_take(groups, i as int);
                lemma_flatten_alt_prefix_len(groups, i as int + 1);
                assert(groups[i as int] == self.segments@[i as int].points@);
            }
            total = total + self.segments[i].points.len();
            i = i + 1;
        }
        proof {
            assert(groups.take(i as int) =~= groups);
        }
        total
    }

    /// Time from the first timestamped point to the last, in nanoseconds.
    pub fn total_duration(&self) -> (d: Option<i128>)
        ensures
            match d {
                Some(n) => track_duration(self@) == Some(n as int),
                None => track_duration(self@) is None,
            },
    {
        let ghost groups = self@.segments.map_values(|s: SegmentV| s.points);
        let mut first: Option<Timestamp> = None;
        let mut last: Option<Timestamp> = None;
        let mut i: usize = 0;
        while i < self.segments.len()
            invariant
                i <= self.segments.len(),
                groups == self@.segments.map_values(|s: SegmentV| s.points),
                groups.len() == self.segments.len(),
                first == first_timestamp(groups.take(i as int).flatten_alt()),
                last == last_timestamp(groups.take(i as int).flatten_alt()),
            decreases self.segments.len() - i,
        {
            proof {
                lemma_flatten_alt_take(groups, i as int);
            }
            let ghost before = groups.take(i as int).flatten_alt();
            let points = &self.segments[i].points;
            assert(groups[i as int] == points@);
            let mut k: usize = 0;
            while k < points.len()
                invariant
                    k <= points.len(),
                    first == first_timestamp(before + points@.take(k as int)),
                    last == last_timestamp(before + points@.take(k as int)),
                decreases points.len() - k,
            {
                let p = points[k];
                proof {
                    assert(before + points@.take(k as int + 1) =~= (before + points@.take(k as int)).push(p));
                    lemma_first_timestamp_push(before + points@.take(k as int), p);
                    assert((before + points@.take(k as int)).push(p).drop_last() =~= before + points@.take(k as int));
                }
                match p.timestamp {
                    Some(t) => {
                        if first.is_none() {
                            first = Some(t);
                        }
                        last = Some(t);
                    },
                    None => {},
                }
                k = k + 1;
            }
            proof {
                assert(points@.take(k as int) =~= points@);
            }
            i = i + 1;
        }
        proof {
            assert(groups.take(i as int) =~= groups);
        }
        match (first, last) {
            (Some(a), Some(b)) => {
                let d: i128 = (b.secs as i128 - a.secs as i128) * 1_000_000_000i128
                    + (b.nanos as i128 - a.nanos as i128);
                Some(d)
            },
            _ => None,
        }
    }

    /// Remove a segment, answering with where it stood and what it was.
    pub fn remove_segment(&mut self, segment_id: u64) -> (r: Result<(usize, TrackSegment), ProjectLayerError>)
        ensures
            (final(self)@, match r { Ok((i, s)) => Ok((i, s@)), Err(e) => Err(e) })
                == track_remove_segment(old(self)@, segment_id),
    {
        match find_segment(&self.segments, segment_id) {
            Some(i) => {
                let removed = self.segments.remove(i);
                proof {
                    assert(segments_view(self.segments@) =~= segments_view(old(self).segments@).remove(i as int));
                }
                Ok((i, removed))
            },
            None => Err(ProjectLayerError::MissingTrackSegment { layer_id: 0, track_id: self.id.0, segment_id }),
        }
    }

    /// Insert a segment at `index`, or at the end when `index` is past it.
    pub fn insert_segment_at(&mut self, index: usize, segment: TrackSegment)
        ensures
            final(self)@ == (TrackV {
                segments: old(self)@.segments.insert(clamp_index(index, old(self)@.segments.len()), segment@),
                ..old(self)@
            }),
    {
        let clamped = if index <= self.segments.len() { index } else { self.segments.len() };
        self.segments.insert(clamped, segment);
        proof {
            assert(segments_view(self.segments@) =~= segments_view(old(self).segments@).insert(clamped as int, segment@));
        }
    }

    /// Join two adjacent segments: B's points go onto the end of A and B is
    /// removed. B must come right after A. Answers with B, emptied.
    pub fn join_segments(&mut self, seg_id_a: u64, seg_id_b: u64) -> (r: Result<TrackSegment, ProjectLayerError>)
        ensures
            (final(self)@, match r { Ok(s) => Ok(s@), Err(e) => Err(e) })
                == track_join(old(self)@, seg_id_a, seg_id_b),
    {
        let index_a = match find_segment(&self.segments, seg_id_a) {
            Some(i) => i,
            None => {
                return Err(ProjectLayerError::MissingTrackSegment { layer_id: 0, track_id: self.id.0, segment_id: seg_id_a });
            },
        };
        let index_b = match find_segment(&self.segments, seg_id_b) {
            Some(i) => i,
            None => {
                return Err(ProjectLayerError::MissingTrackSegment { layer_id: 0, track_id: self.id.0, segment_id: seg_id_b });
            },
        };
        if index_b != index_a + 1 {
            return Err(ProjectLayerError::MissingTrackSegment { layer_id: 0, track_id: self.id.0, segment_id: seg_id_b });
        }
        let ghost old_view = self@;
        let mut seg_b = self.segments.remove(index_b);
        let mut seg_a = TrackSegment::new(TrackSegmentId(0));
        self.segments.set_and_swap(index_a, &mut seg_a);
        seg_a.points.append(&mut seg_b.points);
        self.segments.set_and_swap(index_a, &mut seg_a);
        proof {
            let sa = old_view.segments[index_a as int];
            let sb = old_view.segments[index_b as int];
            assert(segments_view(self.segments@) =~= old_view.segments.update(
                index_a as int, SegmentV { points: sa.points + sb.points, ..sa }).remove(index_b as int));
            assert(seg_b@.points =~= Seq::<TrackPoint>::empty());
        }
        Ok(seg_b)
    }
}

pub proof fn lemma_flatten_alt_prefix_len<A>(s: Seq<Seq<A>>, i: int)
    requires
        0 <= i <= s.len(),
    ensures
        s.take(i).flatten_alt().len() <= s.flatten_alt().len(),
    decreases s.len() - i,
{
    if i < s.len() {
        lemma_flatten_alt_take(s, i);
        lemma_flatten_alt_prefix_len(s, i + 1);
    } else {
        assert(s.take(i) =~= s);
    }
}

/// `first` is the first timed point of `pts` and `last` the last one.
pub open spec fn timed_ends(pts: Seq<TrackPoint>, first: int, last: int) -> bool {
    &&& 0 <= first <= last < pts.len()
    &&& pts[first].timestamp is Some
    &&& pts[last].timestamp is Some
    &&& forall|k: int| 0 <= k < first ==> (#[trigger] pts[k]).timestamp is None
    &&& forall|k: int| last < k < pts.len() ==> (#[trigger] pts[k]).timestamp is None
}

proof fn lemma_first_timestamp_found(pts: Seq<TrackPoint>)
    ensures
        first_timestamp(pts) is None <==> forall|k: int| 0 <= k < pts.len() ==> (#[trigger] pts[k]).timestamp is None,
        first_timestamp(pts) matches Some(a) ==> exists|i: int|
            0 <= i < pts.len() && (#[trigger] pts[i]).timestamp == Some(a) && forall|k: int| 0 <= k < i ==> (#[trigger] pts[k]).timestamp is None,
    decreases pts.len(),
{
    if pts.len() > 0 {
        let r = pts.drop_first();
        lemma_first_timestamp_found(r);
        assert forall|k: int| 0 < k < pts.len() implies pts[k] == r[k - 1] by {}
        if pts[0].timestamp is None {
            if first_timestamp(r) is None {
                assert forall|k: int| 0 <= k < pts.len() implies (#[trigger] pts[k]).timestamp is None by {
                    if k > 0 {
                        assert(r[k - 1].timestamp is None);
                    }
                }
            } else {
                let i = choose|i: int| 0 <= i < r.len() && (#[trigger] r[i]).timestamp == first_timestamp(r)
                    && forall|k: int| 0 <= k < i ==> (#[trigger] r[k]).timestamp is None;
                assert(pts[i + 1].timestamp == first_timestamp(pts));
                assert forall|k: int| 0 <= k < i + 1 implies (#[trigger] pts[k]).timestamp is None by {
                    if k > 0 {
                        assert(r[k - 1].timestamp is None);
                    }
                }
                assert(r[i].timestamp is Some);
            }
        } else {
            assert(pts[0].timestamp == first_timestamp(pts));
        }
    }
}

proof fn lemma_last_timestamp_found(pts: Seq<TrackPoint>)
    ensures
        last_timestamp(pts) is None <==> forall|k: int| 0 <= k < pts.len() ==> (#[trigger] pts[k]).timestamp is None,
        last_timestamp(pts) matches Some(b) ==> exists|j: int|
            0 <= j < pts.len() && (#[trigger] pts[j]).timestamp == Some(b) && forall|k: int| j < k < pts.len() ==> (#[trigger] pts[k]).timestamp is None,
    decreases pts.len(),
{
    if pts.len() > 0 {
        let r = pts.drop_last();
        lemma_last_timestamp_found(r);
        assert forall|k: int| 0 <= k < r.len() implies pts[k] == r[k] by {}
        if pts.last().timestamp is None {
            if last_timestamp(r) is None {
                assert forall|k: int| 0 <= k < pts.len() implies (#[trigger] pts[k]).timestamp is None by {
                    if k < r.len() {
                        assert(r[k].timestamp is None);
                    }
                }
            } else {
                let j = choose|j: int| 0 <= j < r.len() && (#[trigger] r[j]).timestamp == last_timestamp(r)
                    && forall|k: int| j < k < r.len() ==> (#[trigger] r[k]).timestamp is None;
                assert(pts[j].timestamp == last_timestamp(pts));
                assert forall|k: int| j < k < pts.len() implies (#[trigger] pts[k]).timestamp is None by {
                    if k < r.len() {
                        assert(r[k].timestamp is None);
                    }
                }
            }
        }
    }
}

/// The points of a track are those of its segments, in order: none without
/// segments, and a segment added at the end adds its points at the end.
pub proof fn law_track_points_run_through_the_segments(t: TrackV, g: SegmentV)
    ensures
        t.segments.len() == 0 ==> track_points(t).len() == 0,
        track_points(TrackV { segments: t.segments.push(g), ..t }) == track_points(t) + g.points,
{
    let u = TrackV { segments: t.segments.push(g), ..t };
    let gu = u.segments.map_values(|s: SegmentV| s.points);
    let gt = t.segments.map_values(|s: SegmentV| s.points);
    assert(gu.drop_last() =~= gt);
    if t.segments.len() == 0 {
        assert(gt =~= Seq::<Seq<TrackPoint>>::empty());
    }
}

/// The duration of a track runs from its first timed point to its last one,
/// over the points of all its segments in order; a track with no timed
/// point has none.
pub proof fn law_duration_spans_the_whole_track(t: TrackV)
    ensures
        track_duration(t) is None <==> forall|k: int| 0 <= k < track_points(t).len() ==> (#[trigger] track_points(t)[k]).timestamp is None,
        track_duration(t) matches Some(d) ==> exists|i: int, j: int|
            #[trigger] timed_ends(track_points(t), i, j) && d == track_points(t)[j].timestamp->0.total_nanos()
                - track_points(t)[i].timestamp->0.total_nanos(),
{
    let pts = track_points(t);
    lemma_first_timestamp_found(pts);
    lemma_last_timestamp_found(pts);
    if first_timestamp(pts) is Some {
        let a = first_timestamp(pts)->0;
        let b = last_timestamp(pts)->0;
        let i = choose|i: int| 0 <= i < pts.len() && (#[trigger] pts[i]).timestamp == Some(a)
            && forall|k: int| 0 <= k < i ==> (#[trigger] pts[k]).timestamp is None;
        let j = choose|j: int| 0 <= j < pts.len() && (#[trigger] pts[j]).timestamp == Some(b)
            && forall|k: int| j < k < pts.len() ==> (#[trigger] pts[k]).timestamp is None;
        if j < i {
            assert(pts[j].timestamp is None);
        }
        assert(timed_ends(pts, i, j));
    }
}

} // verus!

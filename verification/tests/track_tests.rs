use chrono::TimeZone;
use ozi_rs::error::ProjectLayerError;
use ozi_rs::ids::{TrackId, TrackPointId, TrackSegmentId};
use ozi_rs::track::{Timestamp, Track, TrackPoint, TrackSegment, TrackStyle};

fn deg(x: f64) -> u64 {
    x.to_bits()
}

fn point(id: u64, lat: f64, lon: f64) -> TrackPoint {
    TrackPoint::new(TrackPointId::new(id), deg(lat), deg(lon))
}

#[test]
fn track_segments_keep_inserted_points_in_order() {
    let mut segment = TrackSegment::new(TrackSegmentId::new(5));

    segment.add_point(point(10, 55.75, 37.61));
    segment.add_point(point(11, 55.76, 37.62));

    assert_eq!(segment.points().len(), 2);
    assert_eq!(segment.points()[0].id(), TrackPointId::new(10));
    assert_eq!(segment.points()[1].id(), TrackPointId::new(11));
}

#[test]
fn tracks_keep_segments_as_explicit_collections() {
    let mut track = Track::new(TrackId::new(1), "Morning route");
    let mut segment = TrackSegment::new(TrackSegmentId::new(2));
    segment.add_point(point(3, 54.0, 27.0));

    track.add_segment(segment);

    assert_eq!(track.name(), "Morning route");
    assert_eq!(track.segments().len(), 1);
    assert_eq!(track.segments()[0].points().len(), 1);
}

#[test]
fn track_point_builder_methods_set_optional_fields() {
    let ts = chrono::Utc.with_ymd_and_hms(2024, 6, 1, 10, 0, 0).unwrap();
    let stamp = Timestamp { secs: ts.timestamp(), nanos: ts.timestamp_subsec_nanos() };
    let point = point(1, 55.0, 37.0).with_elevation(deg(200.0)).with_timestamp(stamp);

    assert_eq!(point.elevation().map(f64::from_bits), Some(200.0));
    assert_eq!(point.timestamp(), Some(stamp));
    assert_eq!(point.timestamp().map(|t| t.secs), Some(1_717_236_000));
}

#[test]
fn default_track_style_is_visible_red() {
    let style = TrackStyle::default();

    assert!(style.visible);
    assert_eq!(style.color, [255, 0, 0, 255]);
    assert_eq!(f32::from_bits(style.line_width), 2.0);
    assert_eq!(f32::from_bits(style.opacity), 1.0);
}

fn make_segment_with_points() -> TrackSegment {
    let mut seg = TrackSegment::new(TrackSegmentId::new(1));
    seg.add_point(point(10, 55.0, 37.0));
    seg.add_point(point(11, 55.1, 37.1));
    seg.add_point(point(12, 55.2, 37.2));
    seg
}

#[test]
fn move_point_returns_old_coords_on_success() {
    let mut seg = make_segment_with_points();

    let old = seg.move_point(11, deg(60.0), deg(40.0)).unwrap();

    assert_eq!(old, (deg(55.1), deg(37.1)));
    assert_eq!(f64::from_bits(seg.points()[1].latitude()), 60.0);
    assert_eq!(f64::from_bits(seg.points()[1].longitude()), 40.0);
}

#[test]
fn move_point_errors_on_missing_point_id() {
    let mut seg = make_segment_with_points();

    let err = seg.move_point(99, deg(0.0), deg(0.0)).unwrap_err();

    assert!(matches!(err, ProjectLayerError::MissingTrackPoint { point_id: 99, .. }));
}

#[test]
fn remove_point_returns_index_and_point_on_success() {
    let mut seg = make_segment_with_points();

    let (index, point) = seg.remove_point(11).unwrap();

    assert_eq!(index, 1);
    assert_eq!(point.id(), TrackPointId::new(11));
    assert_eq!(seg.points().len(), 2);
}

#[test]
fn remove_point_errors_on_missing_point_id() {
    let mut seg = make_segment_with_points();

    let err = seg.remove_point(99).unwrap_err();

    assert!(matches!(err, ProjectLayerError::MissingTrackPoint { point_id: 99, .. }));
}

#[test]
fn insert_point_at_places_point_at_correct_index() {
    let mut seg = make_segment_with_points();
    let new_point = point(20, 56.0, 38.0);

    seg.insert_point_at(1, new_point).unwrap();

    assert_eq!(seg.points().len(), 4);
    assert_eq!(seg.points()[1].id(), TrackPointId::new(20));
}

#[test]
fn insert_point_at_errors_when_index_exceeds_length() {
    let mut seg = make_segment_with_points();
    let new_point = point(20, 56.0, 38.0);

    let err = seg.insert_point_at(100, new_point).unwrap_err();

    assert!(matches!(err, ProjectLayerError::MissingTrackPoint { .. }));
}

#[test]
fn split_at_point_left_keeps_id_and_points_up_to_split() {
    let mut seg = make_segment_with_points();
    let original_id = seg.id();

    let right = seg.split_at_point(11, TrackSegmentId::new(99)).unwrap();

    assert_eq!(seg.id(), original_id);
    assert_eq!(seg.points().len(), 2);
    assert_eq!(seg.points()[0].id(), TrackPointId::new(10));
    assert_eq!(seg.points()[1].id(), TrackPointId::new(11));
    assert_eq!(right.id(), TrackSegmentId::new(99));
    assert_eq!(right.points().len(), 2);
    assert_eq!(right.points()[0].id(), TrackPointId::new(11));
    assert_eq!(right.points()[1].id(), TrackPointId::new(12));
}

#[test]
fn split_at_point_errors_on_missing_point_id() {
    let mut seg = make_segment_with_points();

    let err = seg.split_at_point(99, TrackSegmentId::new(2)).unwrap_err();

    assert!(matches!(err, ProjectLayerError::MissingTrackPoint { point_id: 99, .. }));
}

fn make_track_with_two_segments() -> Track {
    let mut track = Track::new(TrackId::new(1), "Route");
    let mut seg_a = TrackSegment::new(TrackSegmentId::new(10));
    seg_a.add_point(point(1, 55.0, 37.0));
    seg_a.add_point(point(2, 55.1, 37.1));
    let mut seg_b = TrackSegment::new(TrackSegmentId::new(20));
    seg_b.add_point(point(3, 55.2, 37.2));
    seg_b.add_point(point(4, 55.3, 37.3));
    track.add_segment(seg_a);
    track.add_segment(seg_b);
    track
}

#[test]
fn remove_segment_returns_correct_index_and_segment() {
    let mut track = make_track_with_two_segments();

    let (index, removed) = track.remove_segment(10).unwrap();

    assert_eq!(index, 0);
    assert_eq!(removed.id(), TrackSegmentId::new(10));
    assert_eq!(track.segments().len(), 1);
    assert_eq!(track.segments()[0].id(), TrackSegmentId::new(20));
}

#[test]
fn remove_segment_errors_on_missing_segment_id() {
    let mut track = make_track_with_two_segments();

    let err = track.remove_segment(99).unwrap_err();

    assert!(matches!(err, ProjectLayerError::MissingTrackSegment { segment_id: 99, .. }));
}

#[test]
fn join_segments_appends_b_points_into_a_and_removes_b() {
    let mut track = make_track_with_two_segments();

    let removed_b = track.join_segments(10, 20).unwrap();

    assert_eq!(track.segments().len(), 1);
    assert_eq!(track.segments()[0].id(), TrackSegmentId::new(10));
    assert_eq!(track.segments()[0].points().len(), 4);
    assert_eq!(track.segments()[0].points()[2].id(), TrackPointId::new(3));
    assert_eq!(track.segments()[0].points()[3].id(), TrackPointId::new(4));
    assert_eq!(removed_b.id(), TrackSegmentId::new(20));
}

#[test]
fn join_segments_errors_on_non_adjacent_segments() {
    let mut track = Track::new(TrackId::new(1), "Route");
    track.add_segment(TrackSegment::new(TrackSegmentId::new(10)));
    track.add_segment(TrackSegment::new(TrackSegmentId::new(20)));
    track.add_segment(TrackSegment::new(TrackSegmentId::new(30)));

    let err = track.join_segments(10, 30).unwrap_err();

    assert!(matches!(err, ProjectLayerError::MissingTrackSegment { segment_id: 30, .. }));
}

// ── further cases of this crate ──────────────────────────────────────────

#[test]
fn point_count_adds_up_every_segment() {
    let track = make_track_with_two_segments();
    assert_eq!(track.point_count(), 4);
    assert_eq!(Track::new(TrackId::new(2), "Empty").point_count(), 0);
}

#[test]
fn total_duration_runs_from_first_to_last_timestamp() {
    let mut track = make_track_with_two_segments();
    let mut seg = TrackSegment::new(TrackSegmentId::new(30));
    seg.add_point(point(5, 55.0, 37.0).with_timestamp(Timestamp { secs: 100, nanos: 0 }));
    seg.add_point(point(6, 55.0, 37.0));
    seg.add_point(point(7, 55.0, 37.0).with_timestamp(Timestamp { secs: 160, nanos: 500 }));
    track.add_segment(seg);

    assert_eq!(track.total_duration(), Some(60_000_000_500));
    assert_eq!(make_track_with_two_segments().total_duration(), None);
}

#[test]
fn splitting_at_the_last_point_leaves_a_one_point_right_part() {
    let mut seg = make_segment_with_points();
    let right = seg.split_at_point(12, TrackSegmentId::new(7)).unwrap();
    assert_eq!(seg.points().len(), 3);
    assert_eq!(right.points().len(), 1);
    assert_eq!(right.points()[0].id(), TrackPointId::new(12));
}

#[test]
fn insert_at_the_end_is_accepted() {
    let mut seg = make_segment_with_points();
    seg.insert_point_at(3, point(30, 1.0, 2.0)).unwrap();
    assert_eq!(seg.points()[3].id(), TrackPointId::new(30));
}

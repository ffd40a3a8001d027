use ozi_rs::error::ProjectLayerError;
use ozi_rs::ids::{LayerId, ProjectId, TrackId, TrackPointId, TrackSegmentId, WaypointId};
use ozi_rs::layers::{MapLayer, TrackLayer, WaypointLayer};
use ozi_rs::project::Project;
use ozi_rs::track::{Track, TrackPoint, TrackSegment};
use ozi_rs::waypoint::Waypoint;

fn deg(x: f64) -> u64 {
    x.to_bits()
}

/// Ids start past 1: `Project::untitled()` already carries a default
/// "Tracks" layer with id 1.
fn project_with_two_layers() -> Project {
    let mut first = TrackLayer::new(LayerId::new(10), "A");
    first.add_track(Track::new(TrackId::new(1), "a1"));
    first.add_track(Track::new(TrackId::new(2), "a2"));
    let mut second = TrackLayer::new(LayerId::new(20), "B");
    second.add_track(Track::new(TrackId::new(1), "b1"));
    let mut project = Project::untitled();
    project.add_track_layer(first);
    project.add_track_layer(second);
    project
}

fn visibility(project: &Project) -> Vec<bool> {
    project
        .track_layers()
        .iter()
        .flat_map(|l| l.tracks().iter().map(|t| t.style().visible))
        .collect()
}

fn visible_names(project: &Project) -> Vec<&str> {
    project
        .track_layers()
        .iter()
        .flat_map(|l| l.tracks().iter())
        .filter(|t| t.style().visible)
        .map(|t| t.name())
        .collect()
}

#[test]
fn set_all_tracks_visible_covers_every_layer() {
    let mut project = project_with_two_layers();
    project.set_all_tracks_visible(false);
    assert!(visibility(&project).iter().all(|v| !v));
    project.set_all_tracks_visible(true);
    assert!(visibility(&project).iter().all(|v| *v));
}

#[test]
fn show_only_track_leaves_exactly_one_visible() {
    let mut project = project_with_two_layers();
    assert!(project.show_only_track(LayerId::new(20), TrackId::new(1)));
    assert_eq!(visible_names(&project), vec!["b1"]);
}

#[test]
fn show_only_track_shows_a_track_that_was_hidden() {
    let mut project = project_with_two_layers();
    project.set_all_tracks_visible(false);
    assert!(project.show_only_track(LayerId::new(10), TrackId::new(2)));
    assert_eq!(visible_names(&project), vec!["a2"]);
}

#[test]
fn show_only_track_is_a_no_op_for_a_missing_track() {
    let mut project = project_with_two_layers();
    assert!(!project.show_only_track(LayerId::new(10), TrackId::new(99)));
    assert!(visibility(&project).iter().all(|v| *v));
}

#[test]
fn deduplicate_layer_ids_renumbers_collisions_and_reports_them() {
    let mut project = Project {
        id: ProjectId::new(1),
        name: "Test".to_owned(),
        map_layers: vec![MapLayer::new(LayerId::new(2), "Map")],
        track_layers: vec![TrackLayer::new(LayerId::new(1), "Tracks"), TrackLayer::new(LayerId::new(1), "Tracks")],
        waypoint_layers: vec![WaypointLayer::new(LayerId::new(1), "Waypoints")],
    };

    let renumbered = project.deduplicate_layer_ids();

    let mut track_ids: Vec<u64> = project.track_layers().iter().map(|l| l.id().value()).collect();
    let track_count = track_ids.len();
    track_ids.sort_unstable();
    track_ids.dedup();
    assert_eq!(track_ids.len(), track_count, "track layers must not share an id with each other");

    assert_eq!(
        renumbered.len(),
        1,
        "only the duplicate Tracks layer; a waypoint layer may share id 1 with a track layer"
    );
    assert_eq!(renumbered[0].1, 1);
    assert!(renumbered[0].2 > 2);
    assert_eq!(
        project.waypoint_layers()[0].id().value(),
        1,
        "a waypoint layer keeps id 1 even though a track layer also uses it"
    );
}

#[test]
fn deduplicate_layer_ids_leaves_a_healthy_project_untouched() {
    let mut project = Project {
        id: ProjectId::new(1),
        name: "Test".to_owned(),
        map_layers: vec![MapLayer::new(LayerId::new(3), "Map")],
        track_layers: vec![TrackLayer::new(LayerId::new(1), "Tracks")],
        waypoint_layers: vec![WaypointLayer::new(LayerId::new(2), "Waypoints")],
    };

    assert!(project.deduplicate_layer_ids().is_empty());
    assert_eq!(project.track_layers()[0].id().value(), 1);
    assert_eq!(project.waypoint_layers()[0].id().value(), 2);
    assert_eq!(project.map_layers()[0].id().value(), 3);
}

#[test]
fn deduplicate_layer_ids_keeps_layer_contents() {
    let mut first = TrackLayer::new(LayerId::new(1), "Tracks");
    first.add_track(Track::new(TrackId::new(1), "kept"));
    let mut second = TrackLayer::new(LayerId::new(1), "Imported");
    second.add_track(Track::new(TrackId::new(2), "also kept"));
    let mut project = Project {
        id: ProjectId::new(1),
        name: "Test".to_owned(),
        map_layers: Vec::new(),
        track_layers: vec![first, second],
        waypoint_layers: Vec::new(),
    };

    project.deduplicate_layer_ids();

    assert_eq!(project.track_layers()[0].tracks()[0].name(), "kept");
    assert_eq!(project.track_layers()[1].tracks()[0].name(), "also kept");
    assert_ne!(project.track_layers()[0].id(), project.track_layers()[1].id());
}

#[test]
fn untitled_project_satisfies_default_layers_invariant() {
    let project = Project::untitled();

    assert_eq!(project.name(), "Untitled Project");
    assert!(project.map_layers().is_empty());
    assert_eq!(project.track_layers().len(), 1);
    assert_eq!(project.track_layers()[0].name(), "Tracks");
    assert_eq!(project.waypoint_layers().len(), 1);
    assert_eq!(project.waypoint_layers()[0].name(), "Waypoints");
}

#[test]
fn default_project_satisfies_default_layers_invariant() {
    let project = Project::default();

    assert_eq!(project.track_layers().len(), 1);
    assert_eq!(project.track_layers()[0].name(), "Tracks");
    assert_eq!(project.waypoint_layers().len(), 1);
    assert_eq!(project.waypoint_layers()[0].name(), "Waypoints");
}

#[test]
fn ensure_default_layers_is_idempotent_and_appends_only_missing_kinds() {
    let mut project = Project {
        id: ProjectId::new(1),
        name: "Test".to_owned(),
        map_layers: Vec::new(),
        track_layers: vec![TrackLayer::new(LayerId::new(42), "Recorded")],
        waypoint_layers: Vec::new(),
    };

    project.ensure_default_layers();

    assert_eq!(project.track_layers().len(), 1);
    assert_eq!(project.track_layers()[0].id(), LayerId::new(42));
    assert_eq!(project.track_layers()[0].name(), "Recorded");
    assert_eq!(project.waypoint_layers().len(), 1);
    assert_eq!(project.waypoint_layers()[0].name(), "Waypoints");

    project.ensure_default_layers();
    assert_eq!(project.track_layers().len(), 1);
    assert_eq!(project.waypoint_layers().len(), 1);
}

#[test]
fn adding_layers_keeps_each_collection_separate() {
    let mut project = Project::untitled();

    project.add_map_layer(MapLayer::new(LayerId::new(10), "Base map"));
    project.add_track_layer(TrackLayer::new(LayerId::new(20), "Recorded tracks"));
    project.add_waypoint_layer(WaypointLayer::new(LayerId::new(30), "Extra Waypoints"));

    assert_eq!(project.map_layers().len(), 1);
    assert_eq!(project.track_layers().len(), 2);
    assert_eq!(project.waypoint_layers().len(), 2);
    assert_eq!(project.map_layers()[0].name(), "Base map");
    assert!(project.map_layers()[0].source_path().is_none());
    assert!(project
        .track_layers()
        .iter()
        .any(|l| l.id() == LayerId::new(20) && l.name() == "Recorded tracks"));
    assert!(project
        .waypoint_layers()
        .iter()
        .any(|l| l.id() == LayerId::new(30) && l.name() == "Extra Waypoints"));
}

#[test]
fn map_layer_can_store_source_path_metadata() {
    let layer = MapLayer::with_source_path(
        LayerId::new(10),
        "Cached map",
        Some(".tmp/lizaalert-maps/demo/map.sqlitedb"),
    );

    assert_eq!(layer.name(), "Cached map");
    assert_eq!(layer.source_path(), Some(".tmp/lizaalert-maps/demo/map.sqlitedb"));
}

#[test]
fn track_layers_store_tracks_with_explicit_segments_and_points() {
    let mut track_layer = TrackLayer::new(LayerId::new(20), "Recorded tracks");
    let mut track = Track::new(TrackId::new(1), "Morning route");
    let mut segment = TrackSegment::new(TrackSegmentId::new(2));
    segment.add_point(TrackPoint::new(TrackPointId::new(3), deg(55.75), deg(37.61)));
    track.add_segment(segment);

    track_layer.add_track(track);

    assert_eq!(track_layer.tracks().len(), 1);
    assert_eq!(track_layer.tracks()[0].segments().len(), 1);
    assert_eq!(track_layer.tracks()[0].segments()[0].points().len(), 1);
}

#[test]
fn waypoint_layers_store_independent_waypoint_collections() {
    let mut waypoint_layer = WaypointLayer::new(LayerId::new(30), "Waypoints");
    waypoint_layer.add_waypoint(Waypoint::new(WaypointId::new(4), "Camp", deg(53.9), deg(27.5667)));

    assert_eq!(waypoint_layer.waypoints().len(), 1);
    assert_eq!(waypoint_layer.waypoints()[0].name(), "Camp");
}

#[test]
fn project_adds_track_to_matching_track_layer() {
    let mut project = Project::untitled();
    let layer_id = LayerId::new(20);
    project.add_track_layer(TrackLayer::new(layer_id, "Recorded tracks"));
    let track = Track::new(TrackId::new(1), "Morning route");

    project.add_track_to_layer(layer_id, track).unwrap();

    let layer = project.track_layers().iter().find(|l| l.id() == layer_id).expect("added layer present");
    assert_eq!(layer.tracks().len(), 1);
    assert_eq!(layer.tracks()[0].name(), "Morning route");
}

#[test]
fn project_reports_missing_track_layer_when_adding_track() {
    let mut project = Project::untitled();
    let track = Track::new(TrackId::new(1), "Morning route");

    let error = project.add_track_to_layer(LayerId::new(99), track).unwrap_err();

    assert_eq!(error, ProjectLayerError::TrackLayerNotPresent(LayerId::new(99)));
}

#[test]
fn track_layer_remove_track_returns_index_and_track_for_undo() {
    let mut track_layer = TrackLayer::new(LayerId::new(20), "Recorded tracks");
    track_layer.add_track(Track::new(TrackId::new(1), "First"));
    track_layer.add_track(Track::new(TrackId::new(2), "Second"));
    let expected = track_layer.tracks()[0].clone();

    let (index, track) = track_layer.remove_track(TrackId::new(1)).unwrap();

    assert_eq!(index, 0);
    assert_eq!(track, expected);
    assert_eq!(track_layer.tracks().len(), 1);
    assert_eq!(track_layer.tracks()[0].id(), TrackId::new(2));
}

#[test]
fn track_layer_remove_track_reports_missing_track() {
    let mut track_layer = TrackLayer::new(LayerId::new(20), "Recorded tracks");

    let error = track_layer.remove_track(TrackId::new(99)).unwrap_err();

    assert_eq!(error, ProjectLayerError::MissingTrack { layer_id: 20, track_id: 99 });
}

#[test]
fn project_removes_track_from_matching_track_layer() {
    let mut project = Project::untitled();
    let layer_id = LayerId::new(20);
    project.add_track_layer(TrackLayer::new(layer_id, "Recorded tracks"));
    project.add_track_to_layer(layer_id, Track::new(TrackId::new(1), "Morning route")).unwrap();

    let (index, track) = project.remove_track_from_layer(layer_id, TrackId::new(1)).unwrap();

    assert_eq!(index, 0);
    assert_eq!(track.id(), TrackId::new(1));
    assert!(project.track_layers()[0].tracks().is_empty());
}

#[test]
fn project_reports_missing_track_when_removing_unknown_track() {
    let mut project = Project::untitled();
    let layer_id = LayerId::new(20);
    project.add_track_layer(TrackLayer::new(layer_id, "Recorded tracks"));

    let error = project.remove_track_from_layer(layer_id, TrackId::new(99)).unwrap_err();

    assert_eq!(error, ProjectLayerError::MissingTrack { layer_id: 20, track_id: 99 });
}

#[test]
fn project_adds_waypoint_to_matching_waypoint_layer() {
    let mut project = Project::untitled();
    let layer_id = LayerId::new(30);
    project.add_waypoint_layer(WaypointLayer::new(layer_id, "Extra Waypoints"));
    let waypoint = Waypoint::new(WaypointId::new(4), "Camp", deg(53.9), deg(27.5667));

    project.add_waypoint_to_layer(layer_id, waypoint).unwrap();

    let layer = project.waypoint_layers().iter().find(|l| l.id() == layer_id).expect("added layer present");
    assert_eq!(layer.waypoints().len(), 1);
    assert_eq!(layer.waypoints()[0].name(), "Camp");
}

#[test]
fn project_moves_waypoint_in_matching_waypoint_layer() {
    let mut project = Project::untitled();
    let layer_id = LayerId::new(30);
    let waypoint_id = WaypointId::new(4);
    project.add_waypoint_layer(WaypointLayer::new(layer_id, "Extra Waypoints"));
    project
        .add_waypoint_to_layer(layer_id, Waypoint::new(waypoint_id, "Camp", deg(53.9), deg(27.5667)))
        .unwrap();

    project.move_waypoint_in_layer(layer_id.value(), waypoint_id.value(), deg(54.1), deg(27.8)).unwrap();

    let layer = project.waypoint_layers().iter().find(|l| l.id() == layer_id).expect("added layer present");
    assert_eq!(f64::from_bits(layer.waypoints()[0].latitude()), 54.1);
    assert_eq!(f64::from_bits(layer.waypoints()[0].longitude()), 27.8);
}

#[test]
fn project_reports_missing_waypoint_when_moving_unknown_waypoint() {
    let mut project = Project::untitled();
    let layer_id = LayerId::new(30);
    project.add_waypoint_layer(WaypointLayer::new(layer_id, "Waypoints"));

    let error = project.move_waypoint_in_layer(layer_id.value(), 99u64, deg(54.1), deg(27.8)).unwrap_err();

    assert_eq!(error, ProjectLayerError::WaypointNotFound(layer_id, WaypointId::new(99)));
}

#[test]
fn project_renames_and_symbols_waypoints_in_matching_layer() {
    let mut project = Project::untitled();
    let layer_id = LayerId::new(30);
    let waypoint_id = WaypointId::new(4);
    project.add_waypoint_layer(WaypointLayer::new(layer_id, "Extra Waypoints"));
    project
        .add_waypoint_to_layer(layer_id, Waypoint::new(waypoint_id, "Camp", deg(53.9), deg(27.5667)))
        .unwrap();

    assert_eq!(
        project.rename_waypoint_in_layer(layer_id.value(), waypoint_id.value(), "Base camp".to_owned()).unwrap(),
        "Camp"
    );
    assert_eq!(
        project
            .set_waypoint_symbol_in_layer(layer_id.value(), waypoint_id.value(), Some("Flag".to_owned()))
            .unwrap(),
        None
    );

    let layer = project.waypoint_layers().iter().find(|l| l.id() == layer_id).expect("added layer present");
    let waypoint = &layer.waypoints()[0];
    assert_eq!(waypoint.name(), "Base camp");
    assert_eq!(waypoint.symbol(), Some("Flag"));
}

#[test]
fn project_reports_missing_waypoint_when_renaming_or_removing() {
    let mut project = Project::untitled();
    let layer_id = LayerId::new(30);
    project.add_waypoint_layer(WaypointLayer::new(layer_id, "Waypoints"));

    let rename_error = project.rename_waypoint_in_layer(layer_id.value(), 99u64, "Base camp".to_owned()).unwrap_err();
    assert_eq!(rename_error, ProjectLayerError::WaypointNotFound(layer_id, WaypointId::new(99)));

    let remove_error = project.remove_waypoint_from_layer(layer_id.value(), 99u64).unwrap_err();
    assert_eq!(remove_error, ProjectLayerError::WaypointNotFound(layer_id, WaypointId::new(99)));
}

#[test]
fn waypoint_layer_remove_waypoint_returns_index_and_waypoint_for_undo() {
    let mut waypoint_layer = WaypointLayer::new(LayerId::new(30), "Waypoints");
    waypoint_layer.add_waypoint(Waypoint::new(WaypointId::new(4), "Camp", deg(53.9), deg(27.5667)));
    waypoint_layer.add_waypoint(Waypoint::new(WaypointId::new(5), "Cache", deg(53.8), deg(27.7)));
    let expected = waypoint_layer.waypoints()[0].clone();

    let (index, waypoint) = waypoint_layer.remove_waypoint(4).unwrap();

    assert_eq!(index, 0);
    assert_eq!(waypoint, expected);
    assert_eq!(waypoint_layer.waypoints().len(), 1);
    assert_eq!(waypoint_layer.waypoints()[0].id(), WaypointId::new(5));
}

#[test]
fn waypoint_layer_remove_waypoint_reports_missing_waypoint() {
    let mut waypoint_layer = WaypointLayer::new(LayerId::new(30), "Waypoints");

    let error = waypoint_layer.remove_waypoint(99).unwrap_err();

    assert_eq!(error, ProjectLayerError::WaypointNotFound(LayerId::new(30), WaypointId::new(99)));
}

#[test]
fn project_layer_error_formats_new_track_variants() {
    assert_eq!(
        ProjectLayerError::MissingTrack { layer_id: 2, track_id: 7 }.to_string(),
        "missing track with id 7 in layer 2"
    );
    assert_eq!(
        ProjectLayerError::MissingTrackSegment { layer_id: 2, track_id: 7, segment_id: 9 }.to_string(),
        "missing track segment with id 9 in track 7 in layer 2"
    );
    assert_eq!(
        ProjectLayerError::MissingTrackPoint { layer_id: 2, track_id: 7, segment_id: 9, point_id: 11 }.to_string(),
        "missing track point with id 11 in segment 9 in track 7 in layer 2"
    );
}

#[test]
fn project_reports_missing_nested_track_entities() {
    let mut project = Project::untitled();
    let layer_id = 20;
    project.add_track_layer(TrackLayer::new(LayerId::new(layer_id), "Recorded tracks"));

    let track_error = project.track_mut(layer_id, 7).unwrap_err();
    assert_eq!(track_error, ProjectLayerError::MissingTrack { layer_id, track_id: 7 });

    project.track_layer_mut(layer_id).unwrap().add_track(Track::new(TrackId::new(7), "Morning route"));

    let segment_error = project.track_segment_mut(layer_id, 7, 9).unwrap_err();
    assert_eq!(segment_error, ProjectLayerError::MissingTrackSegment { layer_id, track_id: 7, segment_id: 9 });

    let mut track = Track::new(TrackId::new(7), "Morning route");
    track.add_segment(TrackSegment::new(TrackSegmentId::new(9)));
    project.track_layer_mut(layer_id).unwrap().tracks.clear();
    project.track_layer_mut(layer_id).unwrap().add_track(track);

    let point_error = project.track_point_mut(layer_id, 7, 9, 11).unwrap_err();
    assert_eq!(
        point_error,
        ProjectLayerError::MissingTrackPoint { layer_id, track_id: 7, segment_id: 9, point_id: 11 }
    );
}

#[test]
fn track_layer_create_empty_track_adds_track_with_one_segment() {
    let layer_id = LayerId::new(1);
    let mut layer = TrackLayer::new(layer_id, "Tracks");

    layer.create_empty_track(TrackId::new(1), "New Track".to_string());

    assert_eq!(layer.tracks().len(), 1);
    assert_eq!(layer.tracks()[0].segments().len(), 1);
    assert_eq!(layer.tracks()[0].segments()[0].points().len(), 0);
}

#[test]
fn track_layer_create_empty_track_uses_explicit_track_id() {
    let layer_id = LayerId::new(1);
    let mut layer = TrackLayer::new(layer_id, "Tracks");

    layer.create_empty_track(TrackId::new(42), "My Track".to_string());

    assert_eq!(layer.tracks()[0].id(), TrackId::new(42));
    assert_eq!(layer.tracks()[0].name(), "My Track");
}

// ── further cases of this crate ──────────────────────────────────────────

#[test]
fn editing_a_point_in_place_reaches_the_project() {
    let mut project = Project::untitled();
    let mut track = Track::new(TrackId::new(7), "Route");
    let mut seg = TrackSegment::new(TrackSegmentId::new(9));
    seg.add_point(TrackPoint::new(TrackPointId::new(11), deg(1.0), deg(2.0)));
    track.add_segment(seg);
    project.add_track_to_layer(LayerId::new(1), track).unwrap();

    project.track_point_mut(1, 7, 9, 11).unwrap().latitude = deg(5.0);
    assert_eq!(f64::from_bits(project.track_layers()[0].tracks()[0].segments()[0].points()[0].latitude()), 5.0);

    project.track_mut(1, 7).unwrap().style_mut().visible = false;
    assert!(!project.track_layers()[0].tracks()[0].style().visible);
}

#[test]
fn the_highest_layer_id_spans_every_kind() {
    let mut project = Project::untitled();
    assert_eq!(project.highest_layer_id(), 1);
    project.add_map_layer(MapLayer::new(LayerId::new(17), "Map"));
    assert_eq!(project.highest_layer_id(), 17);
}

#[test]
fn removing_a_layer_says_whether_it_was_there() {
    let mut project = project_with_two_layers();
    assert!(project.remove_track_layer(LayerId::new(10)));
    assert_eq!(project.track_layers().len(), 2);
    assert_eq!(project.track_layers()[1].id(), LayerId::new(20));
    assert!(!project.remove_track_layer(LayerId::new(10)));
    assert_eq!(project.track_layers().len(), 2);
}

#[test]
fn waypoint_visibility_can_be_isolated_and_restored() {
    let mut project = Project::untitled();
    project.add_waypoint_to_layer(LayerId::new(1), Waypoint::new(WaypointId::new(1), "A", deg(1.0), deg(1.0))).unwrap();
    project.add_waypoint_to_layer(LayerId::new(1), Waypoint::new(WaypointId::new(2), "B", deg(1.0), deg(1.0))).unwrap();

    assert!(project.show_only_waypoint(LayerId::new(1), WaypointId::new(2)));
    let visible: Vec<bool> = project.waypoint_layers()[0].waypoints().iter().map(|w| w.visible()).collect();
    assert_eq!(visible, vec![false, true]);

    assert!(!project.show_only_waypoint(LayerId::new(1), WaypointId::new(9)));
    project.set_all_waypoints_visible(true);
    assert!(project.waypoint_layers()[0].waypoints().iter().all(|w| w.visible()));
}

#[test]
fn renumbered_layers_get_rising_ids_past_every_id_in_use() {
    let mut project = Project {
        id: ProjectId::new(1),
        name: "Test".to_owned(),
        map_layers: vec![MapLayer::new(LayerId::new(2), "Map A"), MapLayer::new(LayerId::new(2), "Map B")],
        track_layers: vec![TrackLayer::new(LayerId::new(1), "Tracks A"), TrackLayer::new(LayerId::new(1), "Tracks B")],
        waypoint_layers: vec![WaypointLayer::new(LayerId::new(1), "Marks A"), WaypointLayer::new(LayerId::new(1), "Marks B")],
    };

    let renumbered = project.deduplicate_layer_ids();

    assert_eq!(
        renumbered,
        vec![("Map B".to_owned(), 2, 3), ("Tracks B".to_owned(), 1, 4), ("Marks B".to_owned(), 1, 5)]
    );
    assert_eq!(project.map_layers()[1].id().value(), 3);
    assert_eq!(project.track_layers()[1].id().value(), 4);
    assert_eq!(project.waypoint_layers()[1].id().value(), 5);
}

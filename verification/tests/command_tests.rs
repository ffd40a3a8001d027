use chrono::TimeZone;
use ozi_rs::command::{CommandError, ProjectCommand};
use ozi_rs::error::ProjectLayerError;
use ozi_rs::history::CommandStack;
use ozi_rs::ids::{LayerId, TrackId, TrackPointId, TrackSegmentId, WaypointId};
use ozi_rs::layers::{TrackLayer, WaypointLayer};
use ozi_rs::point_order::sorted_point_order_by_time;
use ozi_rs::project::Project;
use ozi_rs::track::{Timestamp, Track, TrackPoint, TrackSegment};
use ozi_rs::waypoint::Waypoint;

fn deg(x: f64) -> u64 {
    x.to_bits()
}

fn point(id: u64, lat: f64, lon: f64) -> TrackPoint {
    TrackPoint::new(TrackPointId::new(id), deg(lat), deg(lon))
}

fn ts(minute: u32) -> Timestamp {
    let t = chrono::Utc.with_ymd_and_hms(2026, 7, 15, 10, minute, 0).unwrap();
    Timestamp { secs: t.timestamp(), nanos: t.timestamp_subsec_nanos() }
}

fn project_with_shuffled_track() -> Project {
    let mut project = Project::untitled();
    let mut bootstrap_layer = CommandStack::default();
    bootstrap_layer
        .apply(&mut project, &ProjectCommand::add_track_layer(LayerId::new(20), "Tracks"))
        .expect("bootstrap layer");
    let mut track = Track::new(TrackId::new(1), "Shuffled");
    let mut seg = TrackSegment::new(TrackSegmentId::new(2));
    // Timestamps deliberately out of order; point 12 is untimed.
    seg.add_point(point(10, 55.0, 37.0).with_timestamp(ts(30)));
    seg.add_point(point(11, 55.1, 37.1).with_timestamp(ts(10)));
    seg.add_point(point(12, 55.2, 37.2));
    seg.add_point(point(13, 55.3, 37.3).with_timestamp(ts(20)));
    track.add_segment(seg);
    let mut bootstrap = CommandStack::default();
    bootstrap
        .apply(&mut project, &ProjectCommand::add_track(LayerId::new(20), track))
        .expect("bootstrap track");
    project
}

fn shuffled_track(project: &Project) -> &Track {
    project
        .track_layers()
        .iter()
        .find(|l| l.id() == LayerId::new(20))
        .expect("layer 20")
        .tracks()
        .iter()
        .find(|t| t.id() == TrackId::new(1))
        .expect("track 1")
}

fn point_ids(project: &Project) -> Vec<u64> {
    shuffled_track(project).segments()[0].points().iter().map(|p| p.id().value()).collect()
}

#[test]
fn reorder_track_points_applies_and_undoes_exactly() {
    let mut project = project_with_shuffled_track();
    let mut history = CommandStack::default();

    let order = sorted_point_order_by_time(shuffled_track(&project).segments());
    assert_eq!(order, vec![(2_u64, vec![12_u64, 11, 13, 10])], "untimed first (stable), then ascending timestamps");

    history
        .apply(&mut project, &ProjectCommand::reorder_track_points(LayerId::new(20), TrackId::new(1), order))
        .expect("reorder applies");
    assert_eq!(point_ids(&project), vec![12, 11, 13, 10]);

    assert!(history.undo(&mut project));
    assert_eq!(point_ids(&project), vec![10, 11, 12, 13], "undo = old order");
    assert!(history.redo(&mut project));
    assert_eq!(point_ids(&project), vec![12, 11, 13, 10]);
}

#[test]
fn crop_track_points_removes_and_undo_restores_positions() {
    let mut project = project_with_shuffled_track();
    let mut history = CommandStack::default();

    history
        .apply(
            &mut project,
            &ProjectCommand::crop_track_points(
                LayerId::new(20),
                TrackId::new(1),
                vec![(TrackSegmentId::new(2), vec![TrackPointId::new(11), TrackPointId::new(13)])],
            ),
        )
        .expect("crop applies");
    assert_eq!(point_ids(&project), vec![10, 12]);

    assert!(history.undo(&mut project));
    assert_eq!(point_ids(&project), vec![10, 11, 12, 13], "undo restores removed points at their exact indices");
    assert!(history.redo(&mut project));
    assert_eq!(point_ids(&project), vec![10, 12]);
}

#[test]
fn crop_rejects_removing_every_point_of_a_track() {
    let mut project = project_with_shuffled_track();
    let mut history = CommandStack::default();

    let result = history.apply(
        &mut project,
        &ProjectCommand::crop_track_points(
            LayerId::new(20),
            TrackId::new(1),
            vec![(
                TrackSegmentId::new(2),
                vec![TrackPointId::new(10), TrackPointId::new(11), TrackPointId::new(12), TrackPointId::new(13)],
            )],
        ),
    );
    assert!(result.is_err(), "crop of every point must be rejected");
    assert_eq!(point_ids(&project), vec![10, 11, 12, 13], "project untouched");
}

#[test]
fn a_command_that_fails_leaves_redo_alone() {
    let mut project = Project::default();
    let layer = LayerId::new(1);
    let mut history = CommandStack::default();
    history
        .apply(&mut project, &ProjectCommand::create_empty_track(layer, TrackId::new(1), "трек".to_owned()))
        .expect("create");
    assert!(history.undo(&mut project), "undo");
    assert!(history.can_redo(), "после отмены повтор доступен");

    let failed = history.apply(
        &mut project,
        &ProjectCommand::create_empty_track(LayerId::new(999), TrackId::new(2), "нет".to_owned()),
    );
    assert!(failed.is_err(), "команда должна отказать");
    assert!(history.can_redo(), "отказ не должен уничтожать стек повтора");
}
#[test]
fn applying_add_track_command_updates_matching_layer() {
    let mut project = Project::untitled();
    let mut history = CommandStack::default();
    let layer_id = LayerId::new(20);
    history
        .apply(
            &mut project,
            &ProjectCommand::add_track_layer(layer_id, "Recorded tracks"),
        )
        .unwrap();

    history
        .apply(
            &mut project,
            &ProjectCommand::add_track(layer_id, Track::new(TrackId::new(1), "Morning route")),
        )
        .unwrap();

    assert_eq!(project.track_layers()[1].tracks().len(), 1);
}

#[test]
fn applying_add_waypoint_command_requires_existing_layer() {
    let mut project = Project::untitled();
    let mut history = CommandStack::default();

    let error = history
        .apply(
            &mut project,
            &ProjectCommand::add_waypoint(
                LayerId::new(30),
                Waypoint::new(WaypointId::new(4), "Camp", deg(53.9), deg(27.5667)),
            ),
        )
        .unwrap_err();

    assert_eq!(
        error,
        CommandError::ProjectLayer(ProjectLayerError::WaypointLayerUnavailable(LayerId::new(
            30
        )))
    );
    assert!(!history.can_undo());
}

#[test]
fn applying_add_map_layer_with_source_stores_local_path() {
    let mut project = Project::untitled();
    let mut history = CommandStack::default();

    history
        .apply(
            &mut project,
            &ProjectCommand::add_map_layer_with_source(
                LayerId::new(10),
                "Cached map",
                ".tmp/lizaalert-maps/demo/map.sqlitedb",
            ),
        )
        .unwrap();

    assert_eq!(project.map_layers().len(), 1);
    assert_eq!(
        project.map_layers()[0].source_path(),
        Some(".tmp/lizaalert-maps/demo/map.sqlitedb")
    );
}

#[test]
fn applying_move_waypoint_command_updates_coordinates() {
    let mut project = Project::untitled();
    let mut history = CommandStack::default();
    let layer_id = LayerId::new(30);
    let waypoint_id = WaypointId::new(4);

    history
        .apply(
            &mut project,
            &ProjectCommand::add_waypoint_layer(layer_id, "Waypoints"),
        )
        .unwrap();
    history
        .apply(
            &mut project,
            &ProjectCommand::add_waypoint(
                layer_id,
                Waypoint::new(waypoint_id, "Camp", deg(53.9), deg(27.5667)),
            ),
        )
        .unwrap();

    history
        .apply(
            &mut project,
            &ProjectCommand::move_waypoint(layer_id, waypoint_id, deg(54.1), deg(27.8)),
        )
        .unwrap();

    let waypoint = &project.waypoint_layers()[1].waypoints()[0];
    assert_eq!(waypoint.latitude(), deg(54.1));
    assert_eq!(waypoint.longitude(), deg(27.8));
}

#[test]
fn applying_move_waypoint_command_requires_existing_waypoint() {
    let mut project = Project::untitled();
    let mut history = CommandStack::default();
    let layer_id = LayerId::new(30);
    history
        .apply(
            &mut project,
            &ProjectCommand::add_waypoint_layer(layer_id, "Waypoints"),
        )
        .unwrap();

    let error = history
        .apply(
            &mut project,
            &ProjectCommand::move_waypoint(layer_id, WaypointId::new(99), deg(54.1), deg(27.8)),
        )
        .unwrap_err();

    assert_eq!(
        error,
        CommandError::ProjectLayer(ProjectLayerError::WaypointNotFound(
            layer_id,
            WaypointId::new(99)
        ))
    );
}

#[test]
fn undo_and_redo_move_waypoint_round_trip_coordinates() {
    let mut project = Project::untitled();
    let mut history = CommandStack::default();
    let layer_id = LayerId::new(30);
    let waypoint_id = WaypointId::new(4);

    history
        .apply(
            &mut project,
            &ProjectCommand::add_waypoint_layer(layer_id, "Waypoints"),
        )
        .unwrap();
    history
        .apply(
            &mut project,
            &ProjectCommand::add_waypoint(
                layer_id,
                Waypoint::new(waypoint_id, "Camp", deg(53.9), deg(27.5667)),
            ),
        )
        .unwrap();
    history
        .apply(
            &mut project,
            &ProjectCommand::move_waypoint(layer_id, waypoint_id, deg(54.1), deg(27.8)),
        )
        .unwrap();

    assert_eq!(project.waypoint_layers()[1].waypoints()[0].latitude(), deg(54.1));
    assert!(history.undo(&mut project));
    assert_eq!(project.waypoint_layers()[1].waypoints()[0].latitude(), deg(53.9));
    assert!(history.redo(&mut project));
    assert_eq!(project.waypoint_layers()[1].waypoints()[0].latitude(), deg(54.1));
}

#[test]
fn a_removed_track_layer_comes_back_with_its_tracks() {
    let mut project = Project::untitled();
    let mut history = CommandStack::default();
    let layer_id = LayerId::new(40);

    history
        .apply(
            &mut project,
            &ProjectCommand::add_track_layer(layer_id, "Day three"),
        )
        .unwrap();
    for n in 0..3u64 {
        let mut track = Track::new(TrackId::new(n + 1), &format!("ЛИСА{n}"));
        let mut segment = TrackSegment::new(TrackSegmentId::new(n + 1));
        segment.add_point(TrackPoint::new(TrackPointId::new(n + 1), deg(53.9), deg(27.5)));
        track.add_segment(segment);
        history
            .apply(&mut project, &ProjectCommand::add_track(layer_id, track))
            .unwrap();
    }

    let live = project
        .track_layers()
        .iter()
        .find(|l| l.id() == layer_id)
        .expect("the layer")
        .clone();
    assert_eq!(live.tracks().len(), 3);

    history
        .apply(
            &mut project,
            &ProjectCommand::RemoveTrackLayer { layer: live },
        )
        .unwrap();
    assert!(
        !project.track_layers().iter().any(|l| l.id() == layer_id),
        "the layer SHALL be gone once removed"
    );

    assert!(history.undo(&mut project));
    let back = project
        .track_layers()
        .iter()
        .find(|l| l.id() == layer_id)
        .expect("the layer SHALL come back");
    assert_eq!(
        back.tracks().len(),
        3,
        "undoing a layer removal SHALL bring its tracks back, not a name"
    );
    assert_eq!(back.name(), "Day three");
    assert_eq!(back.tracks()[1].name(), "ЛИСА1");
}

#[test]
fn renaming_a_layer_that_is_not_there_is_an_error_and_costs_no_redo() {
    let mut project = Project::untitled();
    let mut history = CommandStack::default();
    let layer_id = LayerId::new(77);

    history
        .apply(
            &mut project,
            &ProjectCommand::add_track_layer(layer_id, "Day one"),
        )
        .unwrap();
    assert!(history.undo(&mut project));
    assert!(history.can_redo());

    let refused = history.apply(
        &mut project,
        &ProjectCommand::RenameTrackLayer {
            layer_id: LayerId::new(9999),
            old_name: "nothing".to_owned(),
            new_name: "something".to_owned(),
        },
    );

    assert!(refused.is_err(), "a rename of a missing layer SHALL fail");
    assert!(
        history.can_redo(),
        "a refused rename SHALL NOT take the redo the operator still had"
    );
}

#[test]
fn renaming_a_layer_is_undoable() {
    let mut project = Project::untitled();
    let mut history = CommandStack::default();
    let layer_id = LayerId::new(42);

    history
        .apply(
            &mut project,
            &ProjectCommand::add_track_layer(layer_id, "Imported tracks: /tmp/day3.gpx"),
        )
        .unwrap();
    history
        .apply(
            &mut project,
            &ProjectCommand::RenameTrackLayer {
                layer_id,
                old_name: "Imported tracks: /tmp/day3.gpx".to_owned(),
                new_name: "День 3".to_owned(),
            },
        )
        .unwrap();

    let name_of = |p: &Project| {
        p.track_layers()
            .iter()
            .find(|l| l.id() == layer_id)
            .map(|l| l.name().to_owned())
            .expect("the layer")
    };
    assert_eq!(name_of(&project), "День 3");

    assert!(history.undo(&mut project));
    assert_eq!(name_of(&project), "Imported tracks: /tmp/day3.gpx");

    assert!(history.redo(&mut project));
    assert_eq!(name_of(&project), "День 3");
}

#[test]
fn a_removed_waypoint_layer_comes_back_with_its_marks() {
    let mut project = Project::untitled();
    let mut history = CommandStack::default();
    let layer_id = LayerId::new(41);

    history
        .apply(
            &mut project,
            &ProjectCommand::add_waypoint_layer(layer_id, "Marks"),
        )
        .unwrap();
    history
        .apply(
            &mut project,
            &ProjectCommand::add_waypoint(
                layer_id,
                Waypoint::new(WaypointId::new(7), "ШТАБ", deg(53.9), deg(27.5)),
            ),
        )
        .unwrap();

    let live = project
        .waypoint_layers()
        .iter()
        .find(|l| l.id() == layer_id)
        .expect("the layer")
        .clone();
    history
        .apply(
            &mut project,
            &ProjectCommand::RemoveWaypointLayer { layer: live },
        )
        .unwrap();
    assert!(history.undo(&mut project));

    let back = project
        .waypoint_layers()
        .iter()
        .find(|l| l.id() == layer_id)
        .expect("the layer SHALL come back");
    assert_eq!(back.waypoints().len(), 1);
    assert_eq!(back.waypoints()[0].name(), "ШТАБ");
}

#[test]
fn two_drags_of_the_same_waypoint_are_two_undo_steps() {
    let mut project = Project::untitled();
    let mut history = CommandStack::default();
    let layer_id = LayerId::new(30);
    let waypoint_id = WaypointId::new(4);

    history
        .apply(
            &mut project,
            &ProjectCommand::add_waypoint_layer(layer_id, "Waypoints"),
        )
        .unwrap();
    history
        .apply(
            &mut project,
            &ProjectCommand::add_waypoint(
                layer_id,
                Waypoint::new(waypoint_id, "Camp", deg(53.9), deg(27.5667)),
            ),
        )
        .unwrap();
    let before_moves = history.undo_depth();

    history
        .apply_or_merge(
            ProjectCommand::move_waypoint(layer_id, waypoint_id, deg(54.0), deg(27.7)),
            Some(1),
            &mut project,
        )
        .unwrap();
    history
        .apply_or_merge(
            ProjectCommand::move_waypoint(layer_id, waypoint_id, deg(54.2), deg(27.9)),
            Some(2),
            &mut project,
        )
        .unwrap();

    assert_eq!(
        history.undo_depth(),
        before_moves + 2,
        "a second gesture SHALL NOT fold into the first"
    );

    assert!(history.undo(&mut project));
    let waypoint = &project.waypoint_layers()[1].waypoints()[0];
    assert_eq!(
        (waypoint.latitude(), waypoint.longitude()),
        (deg(54.0), deg(27.7)),
        "one undo SHALL take back one drag"
    );
}

#[test]
fn commands_outside_a_gesture_never_merge() {
    let mut project = Project::untitled();
    let mut history = CommandStack::default();
    let layer_id = LayerId::new(30);
    let waypoint_id = WaypointId::new(4);

    history
        .apply(
            &mut project,
            &ProjectCommand::add_waypoint_layer(layer_id, "Waypoints"),
        )
        .unwrap();
    history
        .apply(
            &mut project,
            &ProjectCommand::add_waypoint(
                layer_id,
                Waypoint::new(waypoint_id, "Camp", deg(53.9), deg(27.5667)),
            ),
        )
        .unwrap();
    let before_moves = history.undo_depth();

    history
        .apply(
            &mut project,
            &ProjectCommand::move_waypoint(layer_id, waypoint_id, deg(54.0), deg(27.7)),
        )
        .unwrap();
    history
        .apply(
            &mut project,
            &ProjectCommand::move_waypoint(layer_id, waypoint_id, deg(54.2), deg(27.9)),
        )
        .unwrap();

    assert_eq!(history.undo_depth(), before_moves + 2);
    assert!(history.undo(&mut project));
    let waypoint = &project.waypoint_layers()[1].waypoints()[0];
    assert_eq!((waypoint.latitude(), waypoint.longitude()), (deg(54.0), deg(27.7)));
}

#[test]
fn apply_or_merge_coalesces_sequential_waypoint_moves_into_single_undo_step() {
    let mut project = Project::untitled();
    let mut history = CommandStack::default();
    let layer_id = LayerId::new(30);
    let waypoint_id = WaypointId::new(4);

    history
        .apply(
            &mut project,
            &ProjectCommand::add_waypoint_layer(layer_id, "Waypoints"),
        )
        .unwrap();
    history
        .apply(
            &mut project,
            &ProjectCommand::add_waypoint(
                layer_id,
                Waypoint::new(waypoint_id, "Camp", deg(53.9), deg(27.5667)),
            ),
        )
        .unwrap();

    history
        .apply_or_merge(
            ProjectCommand::move_waypoint(layer_id, waypoint_id, deg(54.0), deg(27.7)),
            Some(1),
            &mut project,
        )
        .unwrap();
    history
        .apply_or_merge(
            ProjectCommand::move_waypoint(layer_id, waypoint_id, deg(54.2), deg(27.9)),
            Some(1),
            &mut project,
        )
        .unwrap();

    assert_eq!(history.undo_depth(), 3);
    assert!(history.undo(&mut project));
    let waypoint = &project.waypoint_layers()[1].waypoints()[0];
    assert_eq!(waypoint.latitude(), deg(53.9));
    assert_eq!(waypoint.longitude(), deg(27.5667));
}

#[test]
fn move_track_point_apply_changes_coordinates() {
    let mut project = Project::untitled();
    let mut history = CommandStack::default();
    let layer_id = LayerId::new(20);
    let track_id = TrackId::new(1);
    let segment_id = TrackSegmentId::new(2);
    let point_id = TrackPointId::new(3);

    history
        .apply(
            &mut project,
            &ProjectCommand::add_track_layer(layer_id, "Tracks"),
        )
        .unwrap();

    let mut track = Track::new(track_id, "Morning route");
    let mut segment = TrackSegment::new(segment_id);
    segment.add_point(TrackPoint::new(point_id, deg(53.9), deg(27.5667)));
    track.add_segment(segment);

    history
        .apply(&mut project, &ProjectCommand::add_track(layer_id, track))
        .unwrap();

    history
        .apply(
            &mut project,
            &ProjectCommand::move_track_point(
                layer_id, track_id, segment_id, point_id, deg(54.1), deg(27.8), deg(53.9), deg(27.5667),
            ),
        )
        .unwrap();

    let point = &project.track_layers()[1].tracks()[0].segments()[0].points()[0];
    assert_eq!(point.latitude(), deg(54.1));
    assert_eq!(point.longitude(), deg(27.8));
}

#[test]
fn move_track_point_undo_restores_coordinates() {
    let mut project = Project::untitled();
    let mut history = CommandStack::default();
    let layer_id = LayerId::new(20);
    let track_id = TrackId::new(1);
    let segment_id = TrackSegmentId::new(2);
    let point_id = TrackPointId::new(3);

    history
        .apply(
            &mut project,
            &ProjectCommand::add_track_layer(layer_id, "Tracks"),
        )
        .unwrap();

    let mut track = Track::new(track_id, "Morning route");
    let mut segment = TrackSegment::new(segment_id);
    segment.add_point(TrackPoint::new(point_id, deg(53.9), deg(27.5667)));
    track.add_segment(segment);

    history
        .apply(&mut project, &ProjectCommand::add_track(layer_id, track))
        .unwrap();

    history
        .apply(
            &mut project,
            &ProjectCommand::move_track_point(
                layer_id, track_id, segment_id, point_id, deg(54.1), deg(27.8), deg(53.9), deg(27.5667),
            ),
        )
        .unwrap();

    assert!(history.undo(&mut project));
    let point = &project.track_layers()[1].tracks()[0].segments()[0].points()[0];
    assert_eq!(point.latitude(), deg(53.9));
    assert_eq!(point.longitude(), deg(27.5667));
}

#[test]
fn coalesce_move_track_point_merges_sequential_moves() {
    let mut project = Project::untitled();
    let mut history = CommandStack::default();
    let layer_id = LayerId::new(20);
    let track_id = TrackId::new(1);
    let segment_id = TrackSegmentId::new(2);
    let point_id = TrackPointId::new(3);

    history
        .apply(
            &mut project,
            &ProjectCommand::add_track_layer(layer_id, "Tracks"),
        )
        .unwrap();

    let mut track = Track::new(track_id, "Morning route");
    let mut segment = TrackSegment::new(segment_id);
    segment.add_point(TrackPoint::new(point_id, deg(53.9), deg(27.5667)));
    track.add_segment(segment);

    history
        .apply(&mut project, &ProjectCommand::add_track(layer_id, track))
        .unwrap();

    history
        .apply_or_merge(
            ProjectCommand::move_track_point(
                layer_id, track_id, segment_id, point_id, deg(54.0), deg(27.7), deg(53.9), deg(27.5667),
            ),
            Some(7),
            &mut project,
        )
        .unwrap();

    history
        .apply_or_merge(
            ProjectCommand::move_track_point(
                layer_id, track_id, segment_id, point_id, deg(54.2), deg(27.9), deg(53.9), deg(27.5667),
            ),
            Some(7),
            &mut project,
        )
        .unwrap();

    assert_eq!(history.undo_depth(), 3);
    assert!(history.undo(&mut project));
    let point = &project.track_layers()[1].tracks()[0].segments()[0].points()[0];
    assert_eq!(point.latitude(), deg(53.9));
    assert_eq!(point.longitude(), deg(27.5667));
}

#[test]
fn delete_track_point_apply_removes_point() {
    let mut project = Project::untitled();
    let mut history = CommandStack::default();
    let layer_id = LayerId::new(20);
    let track_id = TrackId::new(1);
    let segment_id = TrackSegmentId::new(2);
    let point_id = TrackPointId::new(3);

    history
        .apply(
            &mut project,
            &ProjectCommand::add_track_layer(layer_id, "Tracks"),
        )
        .unwrap();

    let mut track = Track::new(track_id, "Morning route");
    let mut segment = TrackSegment::new(segment_id);
    segment.add_point(TrackPoint::new(point_id, deg(53.9), deg(27.5667)));
    segment.add_point(TrackPoint::new(TrackPointId::new(4), deg(54.0), deg(27.7)));
    track.add_segment(segment);

    history
        .apply(&mut project, &ProjectCommand::add_track(layer_id, track))
        .unwrap();

    history
        .apply(
            &mut project,
            &ProjectCommand::delete_track_point(layer_id, track_id, segment_id, point_id),
        )
        .unwrap();

    let points = project.track_layers()[1].tracks()[0].segments()[0].points();
    assert_eq!(points.len(), 1);
    assert_eq!(points[0].id(), TrackPointId::new(4));
}

#[test]
fn delete_track_point_undo_restores_at_same_index() {
    let mut project = Project::untitled();
    let mut history = CommandStack::default();
    let layer_id = LayerId::new(20);
    let track_id = TrackId::new(1);
    let segment_id = TrackSegmentId::new(2);
    let point_id = TrackPointId::new(3);

    history
        .apply(
            &mut project,
            &ProjectCommand::add_track_layer(layer_id, "Tracks"),
        )
        .unwrap();

    let mut track = Track::new(track_id, "Morning route");
    let mut segment = TrackSegment::new(segment_id);
    segment.add_point(TrackPoint::new(point_id, deg(53.9), deg(27.5667)));
    segment.add_point(TrackPoint::new(TrackPointId::new(4), deg(54.0), deg(27.7)));
    track.add_segment(segment);

    history
        .apply(&mut project, &ProjectCommand::add_track(layer_id, track))
        .unwrap();

    history
        .apply(
            &mut project,
            &ProjectCommand::delete_track_point(layer_id, track_id, segment_id, point_id),
        )
        .unwrap();

    assert!(history.undo(&mut project));

    let points = project.track_layers()[1].tracks()[0].segments()[0].points();
    assert_eq!(points.len(), 2);
    assert_eq!(points[0].id(), point_id);
    assert_eq!(points[1].id(), TrackPointId::new(4));
}

#[test]
fn delete_track_point_missing_point_returns_error() {
    let mut project = Project::untitled();
    let mut history = CommandStack::default();
    let layer_id = LayerId::new(20);
    let track_id = TrackId::new(1);
    let segment_id = TrackSegmentId::new(2);

    history
        .apply(
            &mut project,
            &ProjectCommand::add_track_layer(layer_id, "Tracks"),
        )
        .unwrap();

    let mut track = Track::new(track_id, "Morning route");
    let mut segment = TrackSegment::new(segment_id);
    segment.add_point(TrackPoint::new(TrackPointId::new(4), deg(54.0), deg(27.7)));
    track.add_segment(segment);

    history
        .apply(&mut project, &ProjectCommand::add_track(layer_id, track))
        .unwrap();

    let error = history
        .apply(
            &mut project,
            &ProjectCommand::delete_track_point(
                layer_id,
                track_id,
                segment_id,
                TrackPointId::new(99),
            ),
        )
        .unwrap_err();

    assert_eq!(
        error,
        CommandError::ProjectLayer(ProjectLayerError::MissingTrackPoint {
            layer_id: layer_id.value(),
            track_id: track_id.value(),
            segment_id: segment_id.value(),
            point_id: 99,
        })
    );
}

#[test]
fn insert_track_point_apply_adds_point_at_index() {
    let mut project = Project::untitled();
    let mut history = CommandStack::default();
    let layer_id = LayerId::new(20);
    let track_id = TrackId::new(1);
    let segment_id = TrackSegmentId::new(2);

    history
        .apply(
            &mut project,
            &ProjectCommand::add_track_layer(layer_id, "Tracks"),
        )
        .unwrap();

    let mut track = Track::new(track_id, "Morning route");
    let mut segment = TrackSegment::new(segment_id);
    segment.add_point(TrackPoint::new(TrackPointId::new(3), deg(53.9), deg(27.5667)));
    segment.add_point(TrackPoint::new(TrackPointId::new(4), deg(54.0), deg(27.7)));
    track.add_segment(segment);

    history
        .apply(&mut project, &ProjectCommand::add_track(layer_id, track))
        .unwrap();

    history
        .apply(
            &mut project,
            &ProjectCommand::insert_track_point(
                layer_id,
                track_id,
                segment_id,
                1,
                TrackPoint::new(TrackPointId::new(20), deg(53.95), deg(27.63)),
            ),
        )
        .unwrap();

    let points = project.track_layers()[1].tracks()[0].segments()[0].points();
    assert_eq!(points.len(), 3);
    assert_eq!(points[1].id(), TrackPointId::new(20));
}

#[test]
fn insert_track_point_undo_removes_inserted_point() {
    let mut project = Project::untitled();
    let mut history = CommandStack::default();
    let layer_id = LayerId::new(20);
    let track_id = TrackId::new(1);
    let segment_id = TrackSegmentId::new(2);

    history
        .apply(
            &mut project,
            &ProjectCommand::add_track_layer(layer_id, "Tracks"),
        )
        .unwrap();

    let mut track = Track::new(track_id, "Morning route");
    let mut segment = TrackSegment::new(segment_id);
    segment.add_point(TrackPoint::new(TrackPointId::new(3), deg(53.9), deg(27.5667)));
    segment.add_point(TrackPoint::new(TrackPointId::new(4), deg(54.0), deg(27.7)));
    track.add_segment(segment);

    history
        .apply(&mut project, &ProjectCommand::add_track(layer_id, track))
        .unwrap();

    history
        .apply(
            &mut project,
            &ProjectCommand::insert_track_point(
                layer_id,
                track_id,
                segment_id,
                1,
                TrackPoint::new(TrackPointId::new(20), deg(53.95), deg(27.63)),
            ),
        )
        .unwrap();

    assert!(history.undo(&mut project));
    let points = project.track_layers()[1].tracks()[0].segments()[0].points();
    assert_eq!(points.len(), 2);
    assert_eq!(points[0].id(), TrackPointId::new(3));
    assert_eq!(points[1].id(), TrackPointId::new(4));
}

#[test]
fn insert_track_point_out_of_bounds_returns_error() {
    let mut project = Project::untitled();
    let mut history = CommandStack::default();
    let layer_id = LayerId::new(20);
    let track_id = TrackId::new(1);
    let segment_id = TrackSegmentId::new(2);

    history
        .apply(
            &mut project,
            &ProjectCommand::add_track_layer(layer_id, "Tracks"),
        )
        .unwrap();

    let mut track = Track::new(track_id, "Morning route");
    let mut segment = TrackSegment::new(segment_id);
    segment.add_point(TrackPoint::new(TrackPointId::new(3), deg(53.9), deg(27.5667)));
    track.add_segment(segment);

    history
        .apply(&mut project, &ProjectCommand::add_track(layer_id, track))
        .unwrap();

    let error = history
        .apply(
            &mut project,
            &ProjectCommand::insert_track_point(
                layer_id,
                track_id,
                segment_id,
                10,
                TrackPoint::new(TrackPointId::new(20), deg(53.95), deg(27.63)),
            ),
        )
        .unwrap_err();

    assert_eq!(
        error,
        CommandError::ProjectLayer(ProjectLayerError::MissingTrackPoint {
            layer_id: layer_id.value(),
            track_id: track_id.value(),
            segment_id: segment_id.value(),
            point_id: 10,
        })
    );
}

#[test]
fn split_segment_apply_creates_two_segments() {
    let mut project = Project::untitled();
    let mut history = CommandStack::default();
    let layer_id = LayerId::new(20);
    let track_id = TrackId::new(1);
    let segment_id = TrackSegmentId::new(2);
    let new_segment_id = TrackSegmentId::new(99);

    history
        .apply(
            &mut project,
            &ProjectCommand::add_track_layer(layer_id, "Tracks"),
        )
        .unwrap();

    let mut track = Track::new(track_id, "Morning route");
    let mut segment = TrackSegment::new(segment_id);
    segment.add_point(TrackPoint::new(TrackPointId::new(10), deg(53.9), deg(27.5)));
    segment.add_point(TrackPoint::new(TrackPointId::new(11), deg(54.0), deg(27.6)));
    segment.add_point(TrackPoint::new(TrackPointId::new(12), deg(54.1), deg(27.7)));
    track.add_segment(segment);

    history
        .apply(&mut project, &ProjectCommand::add_track(layer_id, track))
        .unwrap();

    history
        .apply(
            &mut project,
            &ProjectCommand::split_segment(
                layer_id,
                track_id,
                segment_id,
                TrackPointId::new(11),
                new_segment_id,
            ),
        )
        .unwrap();

    let segments = project.track_layers()[1].tracks()[0].segments();
    assert_eq!(segments.len(), 2);
    assert_eq!(segments[0].id(), segment_id);
    assert_eq!(segments[1].id(), new_segment_id);
}

#[test]
fn split_segment_undo_merges_back_to_one() {
    let mut project = Project::untitled();
    let mut history = CommandStack::default();
    let layer_id = LayerId::new(20);
    let track_id = TrackId::new(1);
    let segment_id = TrackSegmentId::new(2);

    history
        .apply(
            &mut project,
            &ProjectCommand::add_track_layer(layer_id, "Tracks"),
        )
        .unwrap();

    let mut track = Track::new(track_id, "Morning route");
    let mut segment = TrackSegment::new(segment_id);
    segment.add_point(TrackPoint::new(TrackPointId::new(10), deg(53.9), deg(27.5)));
    segment.add_point(TrackPoint::new(TrackPointId::new(11), deg(54.0), deg(27.6)));
    segment.add_point(TrackPoint::new(TrackPointId::new(12), deg(54.1), deg(27.7)));
    track.add_segment(segment);

    history
        .apply(&mut project, &ProjectCommand::add_track(layer_id, track))
        .unwrap();

    history
        .apply(
            &mut project,
            &ProjectCommand::split_segment(
                layer_id,
                track_id,
                segment_id,
                TrackPointId::new(11),
                TrackSegmentId::new(99),
            ),
        )
        .unwrap();

    assert!(history.undo(&mut project));
    let segments = project.track_layers()[1].tracks()[0].segments();
    assert_eq!(segments.len(), 1);
    let ids: Vec<u64> = segments[0]
        .points()
        .iter()
        .map(|p| p.id().value())
        .collect();
    assert_eq!(ids, vec![10, 11, 12]);
}

#[test]
fn split_segment_apply_does_not_duplicate_points() {
    let mut project = Project::untitled();
    let mut history = CommandStack::default();
    let layer_id = LayerId::new(20);
    let track_id = TrackId::new(1);
    let segment_id = TrackSegmentId::new(2);

    history
        .apply(
            &mut project,
            &ProjectCommand::add_track_layer(layer_id, "Tracks"),
        )
        .unwrap();

    let mut track = Track::new(track_id, "Morning route");
    let mut segment = TrackSegment::new(segment_id);
    segment.add_point(TrackPoint::new(TrackPointId::new(10), deg(53.9), deg(27.5)));
    segment.add_point(TrackPoint::new(TrackPointId::new(11), deg(54.0), deg(27.6)));
    segment.add_point(TrackPoint::new(TrackPointId::new(12), deg(54.1), deg(27.7)));
    track.add_segment(segment);

    history
        .apply(&mut project, &ProjectCommand::add_track(layer_id, track))
        .unwrap();

    history
        .apply(
            &mut project,
            &ProjectCommand::split_segment(
                layer_id,
                track_id,
                segment_id,
                TrackPointId::new(11),
                TrackSegmentId::new(99),
            ),
        )
        .unwrap();

    let segments = project.track_layers()[1].tracks()[0].segments();
    assert_eq!(segments.len(), 2);
    let left_ids: Vec<u64> = segments[0]
        .points()
        .iter()
        .map(|p| p.id().value())
        .collect();
    let right_ids: Vec<u64> = segments[1]
        .points()
        .iter()
        .map(|p| p.id().value())
        .collect();
    assert_eq!(left_ids, vec![10, 11]);
    assert_eq!(right_ids, vec![12]);
}

#[test]
fn split_undo_redo_undo_remains_stable() {
    let mut project = Project::untitled();
    let mut history = CommandStack::default();
    let layer_id = LayerId::new(20);
    let track_id = TrackId::new(1);
    let segment_id = TrackSegmentId::new(2);

    history
        .apply(
            &mut project,
            &ProjectCommand::add_track_layer(layer_id, "Tracks"),
        )
        .unwrap();

    let mut track = Track::new(track_id, "Morning route");
    let mut segment = TrackSegment::new(segment_id);
    segment.add_point(TrackPoint::new(TrackPointId::new(10), deg(53.9), deg(27.5)));
    segment.add_point(TrackPoint::new(TrackPointId::new(11), deg(54.0), deg(27.6)));
    segment.add_point(TrackPoint::new(TrackPointId::new(12), deg(54.1), deg(27.7)));
    track.add_segment(segment);

    history
        .apply(&mut project, &ProjectCommand::add_track(layer_id, track))
        .unwrap();

    history
        .apply(
            &mut project,
            &ProjectCommand::split_segment(
                layer_id,
                track_id,
                segment_id,
                TrackPointId::new(11),
                TrackSegmentId::new(99),
            ),
        )
        .unwrap();

    assert!(history.undo(&mut project));
    assert!(history.redo(&mut project));
    assert!(history.undo(&mut project));

    let segments = project.track_layers()[1].tracks()[0].segments();
    assert_eq!(segments.len(), 1);
    let ids: Vec<u64> = segments[0]
        .points()
        .iter()
        .map(|p| p.id().value())
        .collect();
    assert_eq!(ids, vec![10, 11, 12]);
}

#[test]
fn split_segment_missing_point_returns_error() {
    let mut project = Project::untitled();
    let mut history = CommandStack::default();
    let layer_id = LayerId::new(20);
    let track_id = TrackId::new(1);
    let segment_id = TrackSegmentId::new(2);

    history
        .apply(
            &mut project,
            &ProjectCommand::add_track_layer(layer_id, "Tracks"),
        )
        .unwrap();

    let mut track = Track::new(track_id, "Morning route");
    let mut segment = TrackSegment::new(segment_id);
    segment.add_point(TrackPoint::new(TrackPointId::new(10), deg(53.9), deg(27.5)));
    segment.add_point(TrackPoint::new(TrackPointId::new(11), deg(54.0), deg(27.6)));
    track.add_segment(segment);

    history
        .apply(&mut project, &ProjectCommand::add_track(layer_id, track))
        .unwrap();

    let error = history
        .apply(
            &mut project,
            &ProjectCommand::split_segment(
                layer_id,
                track_id,
                segment_id,
                TrackPointId::new(99),
                TrackSegmentId::new(100),
            ),
        )
        .unwrap_err();

    assert_eq!(
        error,
        CommandError::ProjectLayer(ProjectLayerError::MissingTrackPoint {
            layer_id: layer_id.value(),
            track_id: track_id.value(),
            segment_id: segment_id.value(),
            point_id: 99,
        })
    );
}

#[test]
fn join_segments_apply_combines_into_one() {
    let mut project = Project::untitled();
    let mut history = CommandStack::default();
    let layer_id = LayerId::new(20);
    let track_id = TrackId::new(1);

    history
        .apply(
            &mut project,
            &ProjectCommand::add_track_layer(layer_id, "Tracks"),
        )
        .unwrap();

    let mut track = Track::new(track_id, "Morning route");
    let mut segment_a = TrackSegment::new(TrackSegmentId::new(10));
    segment_a.add_point(TrackPoint::new(TrackPointId::new(1), deg(53.9), deg(27.5)));
    segment_a.add_point(TrackPoint::new(TrackPointId::new(2), deg(54.0), deg(27.6)));
    let mut segment_b = TrackSegment::new(TrackSegmentId::new(20));
    segment_b.add_point(TrackPoint::new(TrackPointId::new(3), deg(54.1), deg(27.7)));
    segment_b.add_point(TrackPoint::new(TrackPointId::new(4), deg(54.2), deg(27.8)));
    track.add_segment(segment_a);
    track.add_segment(segment_b);

    history
        .apply(&mut project, &ProjectCommand::add_track(layer_id, track))
        .unwrap();

    history
        .apply(
            &mut project,
            &ProjectCommand::join_segments(
                layer_id,
                track_id,
                TrackSegmentId::new(10),
                TrackSegmentId::new(20),
            ),
        )
        .unwrap();

    let segments = project.track_layers()[1].tracks()[0].segments();
    assert_eq!(segments.len(), 1);
    assert_eq!(segments[0].id(), TrackSegmentId::new(10));
    assert_eq!(segments[0].points().len(), 4);
}

#[test]
fn join_segments_undo_restores_both() {
    let mut project = Project::untitled();
    let mut history = CommandStack::default();
    let layer_id = LayerId::new(20);
    let track_id = TrackId::new(1);

    history
        .apply(
            &mut project,
            &ProjectCommand::add_track_layer(layer_id, "Tracks"),
        )
        .unwrap();

    let mut track = Track::new(track_id, "Morning route");
    let mut segment_a = TrackSegment::new(TrackSegmentId::new(10));
    segment_a.add_point(TrackPoint::new(TrackPointId::new(1), deg(53.9), deg(27.5)));
    segment_a.add_point(TrackPoint::new(TrackPointId::new(2), deg(54.0), deg(27.6)));
    let mut segment_b = TrackSegment::new(TrackSegmentId::new(20));
    segment_b.add_point(TrackPoint::new(TrackPointId::new(3), deg(54.1), deg(27.7)));
    segment_b.add_point(TrackPoint::new(TrackPointId::new(4), deg(54.2), deg(27.8)));
    track.add_segment(segment_a);
    track.add_segment(segment_b);

    history
        .apply(&mut project, &ProjectCommand::add_track(layer_id, track))
        .unwrap();

    history
        .apply(
            &mut project,
            &ProjectCommand::join_segments(
                layer_id,
                track_id,
                TrackSegmentId::new(10),
                TrackSegmentId::new(20),
            ),
        )
        .unwrap();

    assert!(history.undo(&mut project));
    let segments = project.track_layers()[1].tracks()[0].segments();
    assert_eq!(segments.len(), 2);
    assert_eq!(segments[0].id(), TrackSegmentId::new(10));
    assert_eq!(segments[1].id(), TrackSegmentId::new(20));
    let a_ids: Vec<u64> = segments[0]
        .points()
        .iter()
        .map(|p| p.id().value())
        .collect();
    let b_ids: Vec<u64> = segments[1]
        .points()
        .iter()
        .map(|p| p.id().value())
        .collect();
    assert_eq!(a_ids, vec![1, 2]);
    assert_eq!(b_ids, vec![3, 4]);
}

#[test]
fn join_segments_error_on_missing_segment() {
    let mut project = Project::untitled();
    let mut history = CommandStack::default();
    let layer_id = LayerId::new(20);
    let track_id = TrackId::new(1);

    history
        .apply(
            &mut project,
            &ProjectCommand::add_track_layer(layer_id, "Tracks"),
        )
        .unwrap();

    let mut track = Track::new(track_id, "Morning route");
    let mut segment_a = TrackSegment::new(TrackSegmentId::new(10));
    segment_a.add_point(TrackPoint::new(TrackPointId::new(1), deg(53.9), deg(27.5)));
    segment_a.add_point(TrackPoint::new(TrackPointId::new(2), deg(54.0), deg(27.6)));
    track.add_segment(segment_a);

    history
        .apply(&mut project, &ProjectCommand::add_track(layer_id, track))
        .unwrap();

    let error = history
        .apply(
            &mut project,
            &ProjectCommand::join_segments(
                layer_id,
                track_id,
                TrackSegmentId::new(10),
                TrackSegmentId::new(99),
            ),
        )
        .unwrap_err();

    assert_eq!(
        error,
        CommandError::ProjectLayer(ProjectLayerError::MissingTrackSegment {
            layer_id: layer_id.value(),
            track_id: track_id.value(),
            segment_id: 99,
        })
    );
}

#[test]
fn delete_track_apply_removes_track() {
    let mut project = Project::untitled();
    let mut history = CommandStack::default();
    let layer_id = LayerId::new(20);
    let track_id = TrackId::new(1);

    history
        .apply(
            &mut project,
            &ProjectCommand::add_track_layer(layer_id, "Tracks"),
        )
        .unwrap();
    history
        .apply(
            &mut project,
            &ProjectCommand::add_track(layer_id, Track::new(track_id, "Morning route")),
        )
        .unwrap();

    history
        .apply(
            &mut project,
            &ProjectCommand::delete_track(layer_id, track_id),
        )
        .unwrap();

    assert!(project.track_layers()[1].tracks().is_empty());
}

#[test]
fn delete_track_undo_restores_track() {
    let mut project = Project::untitled();
    let mut history = CommandStack::default();
    let layer_id = LayerId::new(20);
    let track_id = TrackId::new(1);

    history
        .apply(
            &mut project,
            &ProjectCommand::add_track_layer(layer_id, "Tracks"),
        )
        .unwrap();
    history
        .apply(
            &mut project,
            &ProjectCommand::add_track(layer_id, Track::new(track_id, "Morning route")),
        )
        .unwrap();

    history
        .apply(
            &mut project,
            &ProjectCommand::delete_track(layer_id, track_id),
        )
        .unwrap();

    assert!(history.undo(&mut project));
    assert_eq!(project.track_layers()[1].tracks().len(), 1);
    assert_eq!(project.track_layers()[1].tracks()[0].id(), track_id);
}

#[test]
fn delete_track_missing_track_returns_error() {
    let mut project = Project::untitled();
    let mut history = CommandStack::default();
    let layer_id = LayerId::new(20);

    history
        .apply(
            &mut project,
            &ProjectCommand::add_track_layer(layer_id, "Tracks"),
        )
        .unwrap();

    let error = history
        .apply(
            &mut project,
            &ProjectCommand::delete_track(layer_id, TrackId::new(99)),
        )
        .unwrap_err();

    assert_eq!(
        error,
        CommandError::ProjectLayer(ProjectLayerError::MissingTrack {
            layer_id: layer_id.value(),
            track_id: 99,
        })
    );
}

#[test]
fn delete_waypoint_apply_removes_waypoint() {
    let mut project = Project::untitled();
    let mut history = CommandStack::default();
    let layer_id = LayerId::new(30);
    let waypoint_id = WaypointId::new(4);

    history
        .apply(
            &mut project,
            &ProjectCommand::add_waypoint_layer(layer_id, "Waypoints"),
        )
        .unwrap();
    history
        .apply(
            &mut project,
            &ProjectCommand::add_waypoint(
                layer_id,
                Waypoint::new(waypoint_id, "Camp", deg(53.9), deg(27.5667)),
            ),
        )
        .unwrap();

    history
        .apply(
            &mut project,
            &ProjectCommand::delete_waypoint(layer_id, waypoint_id),
        )
        .unwrap();

    assert!(project.waypoint_layers()[1].waypoints().is_empty());
}

#[test]
fn delete_waypoint_undo_restores_with_all_fields() {
    let mut project = Project::untitled();
    let mut history = CommandStack::default();
    let layer_id = LayerId::new(30);
    let waypoint_id = WaypointId::new(4);

    history
        .apply(
            &mut project,
            &ProjectCommand::add_waypoint_layer(layer_id, "Waypoints"),
        )
        .unwrap();
    history
        .apply(
            &mut project,
            &ProjectCommand::add_waypoint(
                layer_id,
                Waypoint::new(waypoint_id, "Camp", deg(53.9), deg(27.5667)),
            ),
        )
        .unwrap();

    history
        .apply(
            &mut project,
            &ProjectCommand::delete_waypoint(layer_id, waypoint_id),
        )
        .unwrap();

    assert!(history.undo(&mut project));
    assert_eq!(project.waypoint_layers()[1].waypoints().len(), 1);
    let restored = &project.waypoint_layers()[1].waypoints()[0];
    assert_eq!(restored.id(), waypoint_id);
    assert_eq!(restored.name(), "Camp");
    assert_eq!(restored.latitude(), deg(53.9));
    assert_eq!(restored.longitude(), deg(27.5667));
}

#[test]
fn delete_waypoint_missing_waypoint_returns_error() {
    let mut project = Project::untitled();
    let mut history = CommandStack::default();
    let layer_id = LayerId::new(30);

    history
        .apply(
            &mut project,
            &ProjectCommand::add_waypoint_layer(layer_id, "Waypoints"),
        )
        .unwrap();

    let error = history
        .apply(
            &mut project,
            &ProjectCommand::delete_waypoint(layer_id, WaypointId::new(99)),
        )
        .unwrap_err();

    assert_eq!(
        error,
        CommandError::ProjectLayer(ProjectLayerError::WaypointNotFound(
            layer_id,
            WaypointId::new(99)
        ))
    );
}

#[test]
fn rename_waypoint_apply_changes_name() {
    let mut project = Project::untitled();
    let mut history = CommandStack::default();
    let layer_id = LayerId::new(30);
    let waypoint_id = WaypointId::new(4);

    history
        .apply(
            &mut project,
            &ProjectCommand::add_waypoint_layer(layer_id, "Waypoints"),
        )
        .unwrap();
    history
        .apply(
            &mut project,
            &ProjectCommand::add_waypoint(
                layer_id,
                Waypoint::new(waypoint_id, "Camp", deg(53.9), deg(27.5667)),
            ),
        )
        .unwrap();

    history
        .apply(
            &mut project,
            &ProjectCommand::rename_waypoint(layer_id, waypoint_id, "Camp", "Base camp"),
        )
        .unwrap();

    assert_eq!(
        project.waypoint_layers()[1].waypoints()[0].name(),
        "Base camp"
    );
}

#[test]
fn rename_waypoint_undo_restores_old_name() {
    let mut project = Project::untitled();
    let mut history = CommandStack::default();
    let layer_id = LayerId::new(30);
    let waypoint_id = WaypointId::new(4);

    history
        .apply(
            &mut project,
            &ProjectCommand::add_waypoint_layer(layer_id, "Waypoints"),
        )
        .unwrap();
    history
        .apply(
            &mut project,
            &ProjectCommand::add_waypoint(
                layer_id,
                Waypoint::new(waypoint_id, "Camp", deg(53.9), deg(27.5667)),
            ),
        )
        .unwrap();

    history
        .apply(
            &mut project,
            &ProjectCommand::rename_waypoint(layer_id, waypoint_id, "Camp", "Base camp"),
        )
        .unwrap();

    assert!(history.undo(&mut project));
    assert_eq!(project.waypoint_layers()[1].waypoints()[0].name(), "Camp");
}

#[test]
fn simplify_track_apply_reduces_point_count() {
    let mut project = Project::untitled();
    let mut history = CommandStack::default();
    let layer_id = LayerId::new(20);
    let track_id = TrackId::new(1);
    let segment_id = TrackSegmentId::new(2);

    history
        .apply(
            &mut project,
            &ProjectCommand::add_track_layer(layer_id, "Tracks"),
        )
        .unwrap();

    let mut track = Track::new(track_id, "Morning route");
    let mut segment = TrackSegment::new(segment_id);
    segment.add_point(TrackPoint::new(TrackPointId::new(1), deg(55.0), deg(37.0)));
    segment.add_point(TrackPoint::new(TrackPointId::new(2), deg(55.025), deg(37.025)));
    segment.add_point(TrackPoint::new(TrackPointId::new(3), deg(55.05), deg(37.05)));
    segment.add_point(TrackPoint::new(TrackPointId::new(4), deg(55.075), deg(37.075)));
    segment.add_point(TrackPoint::new(TrackPointId::new(5), deg(55.1), deg(37.1)));
    track.add_segment(segment);

    history
        .apply(&mut project, &ProjectCommand::add_track(layer_id, track))
        .unwrap();

    history
        .apply(
            &mut project,
            &ProjectCommand::simplify_track(
                layer_id,
                track_id,
                deg(0.001),
                // the points a one-metre tolerance drops from this straight run
                vec![
                    (segment_id, 1, TrackPoint::new(TrackPointId::new(2), deg(55.025), deg(37.025))),
                    (segment_id, 2, TrackPoint::new(TrackPointId::new(3), deg(55.05), deg(37.05))),
                    (segment_id, 3, TrackPoint::new(TrackPointId::new(4), deg(55.075), deg(37.075))),
                ],
            ),
        )
        .unwrap();

    let points = project.track_layers()[1].tracks()[0].segments()[0].points();
    assert_eq!(points.len(), 2);
}

#[test]
fn simplify_track_undo_restores_all_points() {
    let mut project = Project::untitled();
    let mut history = CommandStack::default();
    let layer_id = LayerId::new(20);
    let track_id = TrackId::new(1);
    let segment_id = TrackSegmentId::new(2);

    history
        .apply(
            &mut project,
            &ProjectCommand::add_track_layer(layer_id, "Tracks"),
        )
        .unwrap();

    let mut track = Track::new(track_id, "Morning route");
    let mut segment = TrackSegment::new(segment_id);
    segment.add_point(TrackPoint::new(TrackPointId::new(1), deg(55.0), deg(37.0)));
    segment.add_point(TrackPoint::new(TrackPointId::new(2), deg(55.025), deg(37.025)));
    segment.add_point(TrackPoint::new(TrackPointId::new(3), deg(55.05), deg(37.05)));
    segment.add_point(TrackPoint::new(TrackPointId::new(4), deg(55.075), deg(37.075)));
    segment.add_point(TrackPoint::new(TrackPointId::new(5), deg(55.1), deg(37.1)));
    track.add_segment(segment);

    history
        .apply(&mut project, &ProjectCommand::add_track(layer_id, track))
        .unwrap();

    history
        .apply(
            &mut project,
            &ProjectCommand::simplify_track(
                layer_id,
                track_id,
                deg(0.001),
                // the points a one-metre tolerance drops from this straight run
                vec![
                    (segment_id, 1, TrackPoint::new(TrackPointId::new(2), deg(55.025), deg(37.025))),
                    (segment_id, 2, TrackPoint::new(TrackPointId::new(3), deg(55.05), deg(37.05))),
                    (segment_id, 3, TrackPoint::new(TrackPointId::new(4), deg(55.075), deg(37.075))),
                ],
            ),
        )
        .unwrap();

    assert!(history.undo(&mut project));
    let points = project.track_layers()[1].tracks()[0].segments()[0].points();
    assert_eq!(points.len(), 5);
    assert_eq!(points[1].id(), TrackPointId::new(2));
    assert_eq!(points[3].id(), TrackPointId::new(4));
}

#[test]
fn simplify_track_zero_tolerance_keeps_all() {
    let mut project = Project::untitled();
    let mut history = CommandStack::default();
    let layer_id = LayerId::new(20);
    let track_id = TrackId::new(1);
    let segment_id = TrackSegmentId::new(2);

    history
        .apply(
            &mut project,
            &ProjectCommand::add_track_layer(layer_id, "Tracks"),
        )
        .unwrap();

    let mut track = Track::new(track_id, "Morning route");
    let mut segment = TrackSegment::new(segment_id);
    segment.add_point(TrackPoint::new(TrackPointId::new(1), deg(55.0), deg(37.0)));
    segment.add_point(TrackPoint::new(TrackPointId::new(2), deg(55.025), deg(37.025)));
    segment.add_point(TrackPoint::new(TrackPointId::new(3), deg(55.05), deg(37.05)));
    track.add_segment(segment);

    history
        .apply(&mut project, &ProjectCommand::add_track(layer_id, track))
        .unwrap();

    history
        .apply(
            &mut project,
            &ProjectCommand::simplify_track(layer_id, track_id, deg(0.0), Vec::new()),
        )
        .unwrap();

    let points = project.track_layers()[1].tracks()[0].segments()[0].points();
    assert_eq!(points.len(), 3);
}

#[test]
fn command_stack_drops_oldest_entries_when_max_depth_exceeded() {
    let mut project = Project::untitled();
    let mut history = CommandStack::default();

    for id in 1..=101 {
        history
            .apply(
                &mut project,
                &ProjectCommand::add_map_layer(LayerId::new(id), format!("Layer {id}")),
            )
            .unwrap();
    }

    assert_eq!(history.undo_depth(), 100);
    for _ in 0..100 {
        assert!(history.undo(&mut project));
    }
    assert!(!history.undo(&mut project));
    assert_eq!(project.map_layers().len(), 1);
    assert_eq!(project.map_layers()[0].id(), LayerId::new(1));
}

fn assert_round_trip(mut project: Project, command: ProjectCommand) {
    let before = project.clone();
    let mut history = CommandStack::default();

    history.apply(&mut project, &command).unwrap();
    assert!(history.undo(&mut project));
    assert_eq!(project, before);
}

#[test]
fn undo_restores_state_for_all_existing_command_variants() {
    assert_round_trip(
        Project::untitled(),
        ProjectCommand::add_map_layer(LayerId::new(10), "Map"),
    );

    assert_round_trip(
        Project::untitled(),
        ProjectCommand::add_map_layer_with_source(LayerId::new(11), "Map", "demo.sqlitedb"),
    );

    assert_round_trip(
        Project::untitled(),
        ProjectCommand::add_track_layer(LayerId::new(20), "Tracks"),
    );

    assert_round_trip(
        Project::untitled(),
        ProjectCommand::add_waypoint_layer(LayerId::new(30), "Waypoints"),
    );

    let mut add_track_project = Project::untitled();
    add_track_project.add_track_layer(TrackLayer::new(LayerId::new(20), "Tracks"));
    assert_round_trip(
        add_track_project,
        ProjectCommand::add_track(LayerId::new(20), Track::new(TrackId::new(1), "Morning")),
    );

    let mut add_waypoint_project = Project::untitled();
    add_waypoint_project.add_waypoint_layer(WaypointLayer::new(LayerId::new(30), "Waypoints"));
    assert_round_trip(
        add_waypoint_project,
        ProjectCommand::add_waypoint(
            LayerId::new(30),
            Waypoint::new(WaypointId::new(4), "Camp", deg(53.9), deg(27.5667)),
        ),
    );

    let mut move_waypoint_project = Project::untitled();
    move_waypoint_project.add_waypoint_layer(WaypointLayer::new(LayerId::new(30), "Waypoints"));
    move_waypoint_project
        .add_waypoint_to_layer(
            LayerId::new(30),
            Waypoint::new(WaypointId::new(4), "Camp", deg(53.9), deg(27.5667)),
        )
        .unwrap();
    assert_round_trip(
        move_waypoint_project,
        ProjectCommand::move_waypoint(LayerId::new(30), WaypointId::new(4), deg(54.1), deg(27.8)),
    );

    let mut rename_track_project = Project::untitled();
    rename_track_project.add_track_layer(TrackLayer::new(LayerId::new(20), "Tracks"));
    rename_track_project
        .add_track_to_layer(
            LayerId::new(20),
            Track::new(TrackId::new(1), "Morning route"),
        )
        .unwrap();
    assert_round_trip(
        rename_track_project,
        ProjectCommand::rename_track(
            LayerId::new(20),
            TrackId::new(1),
            "Morning route",
            "Renamed route",
        ),
    );
}

#[test]
fn create_empty_track_apply_creates_track_with_one_empty_segment() {
    let mut project = Project::untitled();
    let mut history = CommandStack::default();
    let layer_id = LayerId::new(20);
    history
        .apply(
            &mut project,
            &ProjectCommand::add_track_layer(layer_id, "Recorded tracks"),
        )
        .unwrap();

    history
        .apply(
            &mut project,
            &ProjectCommand::create_empty_track(layer_id, TrackId::new(1), "New Track"),
        )
        .unwrap();

    let tracks = project.track_layers()[1].tracks();
    assert_eq!(tracks.len(), 1);
    assert_eq!(tracks[0].id(), TrackId::new(1));
    assert_eq!(tracks[0].name(), "New Track");
    assert_eq!(tracks[0].segments().len(), 1);
    assert_eq!(tracks[0].segments()[0].points().len(), 0);
}

#[test]
fn create_empty_track_undo_removes_created_track() {
    let mut project = Project::untitled();
    let mut history = CommandStack::default();
    let layer_id = LayerId::new(20);
    history
        .apply(
            &mut project,
            &ProjectCommand::add_track_layer(layer_id, "Recorded tracks"),
        )
        .unwrap();
    history
        .apply(
            &mut project,
            &ProjectCommand::create_empty_track(layer_id, TrackId::new(1), "New Track"),
        )
        .unwrap();

    assert_eq!(project.track_layers()[1].tracks().len(), 1);

    history.undo(&mut project);

    assert_eq!(project.track_layers()[1].tracks().len(), 0);
}

#[test]
fn move_track_point_missing_layer_returns_error() {
    let mut project = Project::untitled();
    let mut history = CommandStack::default();
    let result = history.apply(
        &mut project,
        &ProjectCommand::move_track_point(
            LayerId::new(999),
            TrackId::new(1),
            TrackSegmentId::new(1),
            TrackPointId::new(1),
            deg(55.0),
            deg(37.0),
            deg(55.0),
            deg(37.0),
        ),
    );
    assert!(result.is_err(), "expected Err when layer does not exist");
}

#[test]
fn rename_waypoint_missing_layer_returns_error() {
    let mut project = Project::untitled();
    let mut history = CommandStack::default();
    let result = history.apply(
        &mut project,
        &ProjectCommand::rename_waypoint(LayerId::new(999), WaypointId::new(1), "Old", "New"),
    );
    assert!(
        result.is_err(),
        "expected Err when waypoint layer does not exist"
    );
}

#[test]
fn simplify_track_missing_track_returns_error() {
    let mut project = Project::untitled();
    let mut history = CommandStack::default();
    let cmd = ProjectCommand::SimplifyTrack {
        layer_id: LayerId::new(999),
        track_id: TrackId::new(1),
        tolerance_km: deg(0.001),
        removed: vec![(
            TrackSegmentId::new(1),
            0,
            TrackPoint::new(TrackPointId::new(1), deg(55.0), deg(37.0)),
        )],
    };
    let result = history.apply(&mut project, &cmd);
    assert!(
        result.is_err(),
        "expected Err when layer does not exist and removed is non-empty"
    );
}

#[test]
fn create_empty_track_missing_layer_returns_error() {
    let mut project = Project::untitled();
    let mut history = CommandStack::default();
    let result = history.apply(
        &mut project,
        &ProjectCommand::create_empty_track(LayerId::new(999), TrackId::new(1), "Ghost Track"),
    );
    assert!(
        result.is_err(),
        "expected Err when track layer does not exist"
    );
}

fn project_with_two_segments() -> Project {
    let mut project = Project::untitled();
    let mut history = CommandStack::default();
    history.apply(&mut project, &ProjectCommand::add_track_layer(LayerId::new(20), "Tracks")).expect("layer");
    let mut track = Track::new(TrackId::new(1), "Two parts");
    let mut first = TrackSegment::new(TrackSegmentId::new(5));
    for id in 1..=5 {
        first.add_point(point(id, 55.0 + id as f64 * 0.01, 37.0));
    }
    let mut second = TrackSegment::new(TrackSegmentId::new(3));
    for id in 6..=9 {
        second.add_point(point(id, 56.0 + id as f64 * 0.01, 38.0));
    }
    track.add_segment(first);
    track.add_segment(second);
    history.apply(&mut project, &ProjectCommand::add_track(LayerId::new(20), track)).expect("track");
    project
}

fn segment_ids_of(project: &Project) -> Vec<Vec<u64>> {
    shuffled_track(project)
        .segments()
        .iter()
        .map(|s| s.points().iter().map(|p| p.id().value()).collect())
        .collect()
}

#[test]
fn a_crop_across_segments_is_undone_point_for_point() {
    let mut project = project_with_two_segments();
    let before = project.clone();
    let mut history = CommandStack::default();
    history
        .apply(
            &mut project,
            &ProjectCommand::crop_track_points(
                LayerId::new(20),
                TrackId::new(1),
                vec![
                    (TrackSegmentId::new(5), vec![TrackPointId::new(4), TrackPointId::new(1)]),
                    (TrackSegmentId::new(3), vec![TrackPointId::new(9), TrackPointId::new(7)]),
                ],
            ),
        )
        .expect("crop applies");
    assert_eq!(segment_ids_of(&project), vec![vec![2, 3, 5], vec![6, 8]]);
    assert!(history.undo(&mut project));
    assert_eq!(segment_ids_of(&project), vec![vec![1, 2, 3, 4, 5], vec![6, 7, 8, 9]]);
    assert_eq!(project, before);
}

#[test]
fn reordering_two_segments_is_undone_whole() {
    let mut project = project_with_two_segments();
    let before = project.clone();
    let mut history = CommandStack::default();
    history
        .apply(
            &mut project,
            &ProjectCommand::reorder_track_points(
                LayerId::new(20),
                TrackId::new(1),
                vec![(3, vec![9, 8, 7, 6]), (5, vec![5, 1, 4, 2, 3])],
            ),
        )
        .expect("reorder applies");
    assert_eq!(segment_ids_of(&project), vec![vec![5, 1, 4, 2, 3], vec![9, 8, 7, 6]]);
    assert!(history.undo(&mut project));
    assert_eq!(project, before);
}

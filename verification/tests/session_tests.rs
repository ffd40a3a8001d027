use ozi_rs::error::ProjectLayerError;
use ozi_rs::ids::{LayerId, TrackId, TrackPointId, TrackSegmentId, WaypointId};
use ozi_rs::session::AppState;
use ozi_rs::track::{Timestamp, Track, TrackPoint, TrackSegment};
use ozi_rs::waypoint::Waypoint;

fn deg(x: f64) -> u64 {
    x.to_bits()
}

fn track_with_points(track_id: TrackId, name: &str, count: u64) -> Track {
    let mut track = Track::new(track_id, name);
    let mut segment = TrackSegment::new(TrackSegmentId::new(1));
    for i in 1..=count {
        segment.add_point(TrackPoint::new(TrackPointId::new(i), deg(59.95 + i as f64 * 0.001), deg(31.59)));
    }
    track.add_segment(segment);
    track
}

fn ids(state: &AppState) -> Vec<u64> {
    state.track_layers()[0].tracks()[0].segments()[0].points().iter().map(|p| p.id().value()).collect()
}

#[test]
fn waypoint_attachments_are_one_undoable_step() {
    let mut state = AppState::new();
    let layer_id = LayerId::new(1);
    state.apply_add_waypoint(layer_id, deg(53.9), deg(27.5), "улика".to_owned()).expect("add waypoint");
    let waypoint_id = state
        .project_waypoint_layers()
        .iter()
        .find(|l| l.id() == layer_id)
        .expect("layer")
        .waypoints()
        .last()
        .expect("waypoint")
        .id();

    let files = vec!["находки/куртка-1.jpg".to_owned(), "находки/куртка-2.jpg".to_owned()];
    state.apply_set_waypoint_attachments(layer_id, waypoint_id, files.clone()).expect("attach");
    assert_eq!(attachments_of(&state, layer_id, waypoint_id), files);

    state.undo();
    assert!(
        attachments_of(&state, layer_id, waypoint_id).is_empty(),
        "undo restores the list as it was, not as it might have been"
    );

    state.redo();
    assert_eq!(attachments_of(&state, layer_id, waypoint_id), files);
}

fn attachments_of(state: &AppState, layer_id: LayerId, waypoint_id: WaypointId) -> Vec<String> {
    state
        .project_waypoint_layers()
        .iter()
        .find(|l| l.id() == layer_id)
        .expect("layer")
        .waypoints()
        .iter()
        .find(|w| w.id() == waypoint_id)
        .expect("waypoint")
        .attachments()
        .to_vec()
}

#[test]
fn trimming_at_a_point_keeps_that_point_and_undoes_whole() {
    let mut state = AppState::new();
    let layer_id = LayerId::new(1);
    let track_id = TrackId::new(1);
    state.project_mut().add_track_to_layer(layer_id, track_with_points(track_id, "20260708_Ветер", 5)).unwrap();

    let removed = state.apply_trim_track_at_point(layer_id, track_id, TrackPointId::new(3), true).expect("trim before");
    assert_eq!(removed, 2, "the two points before it");
    assert_eq!(ids(&state), vec![3, 4, 5], "and the named point stays");

    state.undo();
    assert_eq!(ids(&state), vec![1, 2, 3, 4, 5], "one undo puts them all back");

    let removed = state.apply_trim_track_at_point(layer_id, track_id, TrackPointId::new(3), false).expect("trim after");
    assert_eq!(removed, 2);
    assert_eq!(ids(&state), vec![1, 2, 3]);
}

#[test]
fn trimming_at_an_end_point_changes_nothing() {
    let mut state = AppState::new();
    let layer_id = LayerId::new(1);
    let track_id = TrackId::new(1);
    state.project_mut().add_track_to_layer(layer_id, track_with_points(track_id, "Короткий", 3)).unwrap();
    let before = state.history().mutation_count();

    assert_eq!(
        state.apply_trim_track_at_point(layer_id, track_id, TrackPointId::new(1), true).expect("trim before the first point"),
        0
    );
    assert_eq!(state.history().mutation_count(), before, "nothing removed, nothing to undo");
}

#[test]
fn cancelling_a_long_drawing_leaves_no_scratch_track() {
    let mut state = AppState::new();
    let layer = LayerId::new(1);
    state.apply_create_empty_track(layer, "рисую".to_owned()).expect("create");
    let track = state.track_layers().iter().find(|l| l.id() == layer).expect("layer").tracks().last().expect("track").id();
    let segment = state
        .track_layers()
        .iter()
        .find(|l| l.id() == layer)
        .expect("layer")
        .tracks()
        .last()
        .expect("track")
        .segments()
        .first()
        .expect("segment")
        .id();
    // More than the history keeps: the earliest commands are pushed out.
    for i in 0..150usize {
        state.apply_insert_track_point(layer, track, segment, i, deg(59.9 + i as f64 * 1e-5), deg(31.5)).expect("point");
    }

    state.cancel_drawing_of(layer, track, 151);

    let tracks_left = state.track_layers().iter().find(|l| l.id() == layer).expect("layer").tracks().len();
    assert_eq!(tracks_left, 0, "a cancelled drawing leaves no track behind");
}

#[test]
fn a_fresh_project_has_one_layer_of_each_kind() {
    let state = AppState::new();

    assert_eq!(state.track_layers().len(), 1, "one track layer");
    assert_eq!(state.project_waypoint_layers().len(), 1, "one waypoint layer");
    assert_eq!(state.track_layers()[0].id().value(), 1);
    assert_eq!(state.project_waypoint_layers()[0].id().value(), 1);
}

#[test]
fn cancelling_a_drawing_leaves_no_redo_entry_and_no_unsaved_changes() {
    let mut state = AppState::new();
    // What a successful save records.
    state.mark_project_saved();
    assert!(!state.project_dirty(), "a freshly saved project is clean");

    let layer_id = LayerId::new(1);
    let track_id = state.apply_create_empty_track(layer_id, "drawing".to_owned()).expect("create track");
    let segment_id = state
        .track_layers()
        .iter()
        .find(|l| l.id() == layer_id)
        .and_then(|l| l.tracks().iter().find(|t| t.id() == track_id))
        .and_then(|t| t.segments().first())
        .map(|segment| segment.id())
        .expect("the new track has a segment");
    state.apply_insert_track_point(layer_id, track_id, segment_id, 0, deg(55.0), deg(37.0)).expect("point 1");
    state.apply_insert_track_point(layer_id, track_id, segment_id, 1, deg(55.1), deg(37.1)).expect("point 2");
    assert!(state.project_dirty(), "drawing marks the project changed");
    let drawn = state.track_layers().iter().find(|l| l.id() == layer_id).expect("layer").tracks().len();
    assert_eq!(drawn, 1, "the drawing is on the project");

    let discarded = state.cancel_drawing_of(layer_id, track_id, 3);
    assert_eq!(discarded, 3);

    assert_eq!(
        state.track_layers().iter().find(|l| l.id() == layer_id).expect("layer").tracks().len(),
        0,
        "the abandoned track SHALL be gone"
    );
    state.redo();
    assert_eq!(
        state.track_layers().iter().find(|l| l.id() == layer_id).expect("layer").tracks().len(),
        0,
        "redo SHALL NOT resurrect an abandoned drawing"
    );
    assert!(!state.project_dirty(), "a cancelled drawing SHALL leave the project as saved as it was");
}

#[test]
fn a_new_project_is_empty_and_undo_cannot_undo_it() {
    let mut state = AppState::new();
    let layer_id = LayerId::new(state.create_track_layer("Day two".to_owned()).unwrap());
    let mut track = Track::new(TrackId::new(1), "ЛИСА15");
    let mut segment = TrackSegment::new(TrackSegmentId::new(1));
    segment.add_point(TrackPoint::new(TrackPointId::new(1), deg(53.9), deg(27.5)));
    track.add_segment(segment);
    state.project_mut().add_track_to_layer(layer_id, track).expect("add track");
    assert!(state.track_layers().iter().any(|l| !l.tracks().is_empty()));

    state.new_project();

    assert!(
        state.track_layers().iter().all(|layer| layer.tracks().is_empty()),
        "the next search SHALL start with nothing drawn"
    );
    assert!(!state.track_layers().is_empty());
    assert!(!state.project_waypoint_layers().is_empty());

    state.undo();
    assert!(
        state.track_layers().iter().all(|layer| layer.tracks().is_empty()),
        "undo SHALL NOT reach past the start of a new search"
    );
}

#[test]
fn deleting_a_layer_and_undoing_brings_its_tracks_back() {
    let mut state = AppState::new();
    let layer_id = state.create_track_layer("Imported tracks: /tmp/day3.gpx".to_owned()).expect("create");
    let layer_id = LayerId::new(layer_id);

    for n in 0..4u64 {
        let mut track = Track::new(TrackId::new(n + 1), &format!("ЛИСА{n}"));
        let mut segment = TrackSegment::new(TrackSegmentId::new(n + 1));
        segment.add_point(TrackPoint::new(TrackPointId::new(n + 1), deg(53.9), deg(27.5)));
        track.add_segment(segment);
        state.project_mut().add_track_to_layer(layer_id, track).expect("add track");
    }

    state.delete_track_layer(layer_id).expect("delete");
    assert!(!state.track_layers().iter().any(|l| l.id() == layer_id));

    state.undo();
    let back = state.track_layers().iter().find(|l| l.id() == layer_id).expect("the layer SHALL come back");
    assert_eq!(back.tracks().len(), 4, "a day's tracks SHALL travel back with their layer");
}

#[test]
fn renaming_a_layer_through_the_application_is_undoable() {
    let mut state = AppState::new();
    let id = LayerId::new(state.create_track_layer("Imported tracks: /tmp/a.gpx".to_owned()).unwrap());

    state.rename_track_layer(id, "День 3".to_owned()).unwrap();
    let name_now = |s: &AppState| s.track_layers().iter().find(|l| l.id() == id).map(|l| l.name().to_owned()).unwrap();
    assert_eq!(name_now(&state), "День 3");
    state.undo();
    assert_eq!(name_now(&state), "Imported tracks: /tmp/a.gpx");
}

#[test]
fn toggle_waypoint_visible_flips_flag_and_is_not_undoable() {
    let mut state = AppState::new();
    let layer_id = LayerId::new(1);
    let waypoint_id = WaypointId::new(1);

    state
        .project_mut()
        .add_waypoint_to_layer(layer_id, Waypoint::new(waypoint_id, "Camp", deg(53.9), deg(27.5667)))
        .unwrap();

    state.apply_set_waypoint_symbol(layer_id, waypoint_id, Some("camp".to_owned())).unwrap();
    let undo_depth_before_toggle = state.history().undo_depth();
    assert_eq!(undo_depth_before_toggle, 1);

    assert!(state.project_waypoint_layers()[0].waypoints()[0].visible());

    state.toggle_waypoint_visible(layer_id, waypoint_id);
    assert!(!state.project_waypoint_layers()[0].waypoints()[0].visible());
    assert_eq!(
        state.history().undo_depth(),
        undo_depth_before_toggle,
        "toggle_waypoint_visible SHALL NOT push an undo entry"
    );

    state.toggle_waypoint_visible(layer_id, waypoint_id);
    assert!(state.project_waypoint_layers()[0].waypoints()[0].visible());
    assert_eq!(
        state.history().undo_depth(),
        undo_depth_before_toggle,
        "toggle_waypoint_visible (second flip) SHALL NOT push an undo entry"
    );

    state.undo();
    assert_eq!(state.project_waypoint_layers()[0].waypoints()[0].symbol(), None);
    assert!(state.project_waypoint_layers()[0].waypoints()[0].visible());
}

#[test]
fn bulk_waypoint_visibility_is_a_style_mutation() {
    let mut state = AppState::new();
    let layer_id = LayerId::new(1);
    for (id, name) in [(1u64, "Camp"), (2, "Task"), (3, "Find")] {
        state
            .project_mut()
            .add_waypoint_to_layer(layer_id, Waypoint::new(WaypointId::new(id), name, deg(53.9), deg(27.5667)))
            .unwrap();
    }
    let undo_depth_before = state.history().undo_depth();

    state.set_all_waypoints_visible(false);
    assert!(state.project_waypoint_layers()[0].waypoints().iter().all(|w| !w.visible()));

    assert!(state.show_only_waypoint(layer_id, WaypointId::new(2)));
    let visible: Vec<&str> =
        state.project_waypoint_layers()[0].waypoints().iter().filter(|w| w.visible()).map(|w| w.name()).collect();
    assert_eq!(visible, vec!["Task"]);

    assert_eq!(state.history().undo_depth(), undo_depth_before, "bulk waypoint visibility SHALL NOT push undo entries");
    assert!(state.project_dirty(), "a style mutation marks the project dirty");
}

#[test]
fn show_only_waypoint_leaves_visibility_alone_when_the_waypoint_is_gone() {
    let mut state = AppState::new();
    let layer_id = LayerId::new(1);
    state
        .project_mut()
        .add_waypoint_to_layer(layer_id, Waypoint::new(WaypointId::new(1), "Camp", deg(53.9), deg(27.5)))
        .unwrap();

    assert!(!state.show_only_waypoint(layer_id, WaypointId::new(99)));
    assert!(state.project_waypoint_layers()[0].waypoints()[0].visible());
}

#[test]
fn toggle_waypoint_visible_is_a_no_op_for_missing_waypoint() {
    let mut state = AppState::new();
    let layer_id = LayerId::new(1);
    state
        .project_mut()
        .add_waypoint_to_layer(layer_id, Waypoint::new(WaypointId::new(1), "Camp", deg(53.9), deg(27.5667)))
        .unwrap();

    let before = state.current_project().clone();
    state.toggle_waypoint_visible(layer_id, WaypointId::new(999));
    assert_eq!(*state.current_project(), before);

    state.toggle_waypoint_visible(LayerId::new(99), WaypointId::new(1));
    assert_eq!(*state.current_project(), before);
}

#[test]
fn waypoint_colour_undo_restores_the_previous_colour_and_redo_reapplies() {
    let mut state = AppState::new();
    let layer_id = LayerId::new(1);
    let waypoint_id = WaypointId::new(1);

    state
        .project_mut()
        .add_waypoint_to_layer(layer_id, Waypoint::new(waypoint_id, "ШТАБ", deg(53.9), deg(27.5667)))
        .unwrap();
    assert_eq!(
        state.project_waypoint_layers()[0].waypoints()[0].color(),
        None,
        "a waypoint starts with no colour of its own"
    );

    state.apply_set_waypoint_color(layer_id, waypoint_id, Some([37, 99, 235, 255])).unwrap();
    state.apply_set_waypoint_color(layer_id, waypoint_id, Some([220, 38, 38, 255])).unwrap();

    assert_eq!(state.project_waypoint_layers()[0].waypoints()[0].color(), Some([220, 38, 38, 255]));

    state.undo();
    assert_eq!(state.project_waypoint_layers()[0].waypoints()[0].color(), Some([37, 99, 235, 255]));

    state.redo();
    assert_eq!(state.project_waypoint_layers()[0].waypoints()[0].color(), Some([220, 38, 38, 255]));

    state.apply_set_waypoint_color(layer_id, waypoint_id, None).unwrap();
    assert_eq!(state.project_waypoint_layers()[0].waypoints()[0].color(), None);
    state.undo();
    assert_eq!(state.project_waypoint_layers()[0].waypoints()[0].color(), Some([220, 38, 38, 255]));
}

#[test]
fn waypoint_symbol_undo_restores_previous_symbol_and_redo_reapplies_new_symbol() {
    let mut state = AppState::new();
    let layer_id = LayerId::new(1);
    let waypoint_id = WaypointId::new(1);

    state
        .project_mut()
        .add_waypoint_to_layer(layer_id, Waypoint::new(waypoint_id, "Camp", deg(53.9), deg(27.5667)))
        .unwrap();
    state.project_mut().set_waypoint_symbol_in_layer(layer_id, waypoint_id, Some("flag".to_owned())).unwrap();

    state.apply_set_waypoint_symbol(layer_id, waypoint_id, Some("camp".to_owned())).unwrap();
    assert_eq!(state.project_waypoint_layers()[0].waypoints()[0].symbol(), Some("camp"));

    state.undo();
    assert_eq!(state.project_waypoint_layers()[0].waypoints()[0].symbol(), Some("flag"));

    state.redo();
    assert_eq!(state.project_waypoint_layers()[0].waypoints()[0].symbol(), Some("camp"));
}

#[test]
fn waypoint_symbol_missing_returns_error_without_mutating_state() {
    let mut state = AppState::new();
    let layer_id = LayerId::new(1);
    let waypoint_id = WaypointId::new(1);

    state
        .project_mut()
        .add_waypoint_to_layer(layer_id, Waypoint::new(waypoint_id, "Camp", deg(53.9), deg(27.5667)))
        .unwrap();
    let before = state.current_project().clone();

    let missing_waypoint_error =
        state.apply_set_waypoint_symbol(layer_id, WaypointId::new(99), Some("camp".to_owned())).unwrap_err();
    assert_eq!(missing_waypoint_error, ProjectLayerError::WaypointNotFound(layer_id, WaypointId::new(99)));
    assert_eq!(*state.current_project(), before);

    let missing_layer_error =
        state.apply_set_waypoint_symbol(LayerId::new(99), waypoint_id, Some("camp".to_owned())).unwrap_err();
    assert_eq!(missing_layer_error, ProjectLayerError::WaypointLayerUnavailable(LayerId::new(99)));
    assert_eq!(*state.current_project(), before);
}

// ── further cases of this crate ──────────────────────────────────────────

#[test]
fn every_kind_of_change_marks_the_project_unsaved() {
    let mut state = AppState::new();
    assert!(!state.project_dirty(), "fresh state must be clean");
    let track_layer = LayerId::new(1);
    let waypoint_layer = LayerId::new(1);

    let track_id = state.apply_create_empty_track(track_layer, "CJ7".into()).expect("create track");
    assert!(state.project_dirty(), "undoable command must mark dirty");
    state.mark_project_saved();
    assert!(!state.project_dirty());

    state.undo();
    assert!(state.project_dirty(), "undo must mark dirty");
    state.redo();
    state.mark_project_saved();

    state.set_track_color(track_layer, track_id, [1, 2, 3, 255]);
    assert!(state.project_dirty(), "set_track_color must mark dirty");
    state.mark_project_saved();

    state.set_track_line_width(track_layer, track_id, 3.0f32.to_bits());
    assert!(state.project_dirty(), "set_track_line_width must mark dirty");
    assert_eq!(f32::from_bits(state.track_layers()[0].tracks()[0].style().line_width), 3.0);
    state.mark_project_saved();

    state.toggle_track_visible(track_layer, track_id);
    assert!(state.project_dirty(), "toggle_track_visible must mark dirty");
    assert!(!state.track_layers()[0].tracks()[0].style().visible);

    state.apply_add_waypoint(waypoint_layer, deg(55.0), deg(37.0), "W1".into()).expect("add waypoint");
    state.mark_project_saved();
    let waypoint_id = state.project_waypoint_layers()[0].waypoints()[0].id();
    assert_eq!(waypoint_id, WaypointId::new(1));
    state.toggle_waypoint_visible(waypoint_layer, waypoint_id);
    assert!(state.project_dirty(), "toggle_waypoint_visible must mark dirty");

    state.replace_project(ozi_rs::project::Project::untitled());
    assert!(!state.project_dirty(), "an opened project starts clean");
}

#[test]
fn new_ids_continue_past_the_largest_in_use() {
    let mut state = AppState::new();
    let layer = LayerId::new(1);
    state.project_mut().add_track_to_layer(layer, track_with_points(TrackId::new(7), "seven", 3)).unwrap();

    assert_eq!(state.apply_create_empty_track(layer, "next".to_owned()).unwrap(), TrackId::new(8));

    state.apply_insert_track_point(layer, TrackId::new(7), TrackSegmentId::new(1), 1, deg(1.0), deg(2.0)).unwrap();
    assert_eq!(state.track_layers()[0].tracks()[0].segments()[0].points()[1].id(), TrackPointId::new(4));

    state.apply_split_segment(layer, TrackId::new(7), TrackSegmentId::new(1), TrackPointId::new(2)).unwrap();
    let segments = state.track_layers()[0].tracks()[0].segments();
    assert_eq!(segments.len(), 2);
    assert_eq!(segments[1].id(), TrackSegmentId::new(2));

    assert_eq!(state.create_track_layer("another".to_owned()), Ok(2));
    assert_eq!(state.create_waypoint_layer("marks".to_owned()), Ok(3));
}

#[test]
fn layer_management_names_a_missing_layer() {
    let mut state = AppState::new();
    assert_eq!(state.rename_track_layer(LayerId::new(42), "x".to_owned()), Err("track layer 42 not found".to_owned()));
    assert_eq!(state.rename_waypoint_layer(LayerId::new(42), "x".to_owned()), Err("waypoint layer 42 not found".to_owned()));
    assert_eq!(state.delete_track_layer(LayerId::new(7)), Err("track layer 7 not found".to_owned()));
    assert_eq!(state.delete_waypoint_layer(LayerId::new(7)), Err("waypoint layer 7 not found".to_owned()));
    assert!(!state.project_dirty());

    state.rename_waypoint_layer(LayerId::new(1), "Марки".to_owned()).unwrap();
    assert_eq!(state.project_waypoint_layers()[0].name(), "Марки");
    state.delete_waypoint_layer(LayerId::new(1)).unwrap();
    assert_eq!(state.waypoint_layer_count(), 0);
    state.undo();
    assert_eq!(state.waypoint_layer_count(), 1);
}

#[test]
fn sorting_by_time_is_one_step_and_a_sorted_track_is_left_alone() {
    let mut state = AppState::new();
    let layer = LayerId::new(1);
    let mut track = Track::new(TrackId::new(1), "t");
    let mut seg = TrackSegment::new(TrackSegmentId::new(1));
    seg.add_point(TrackPoint::new(TrackPointId::new(1), deg(1.0), deg(1.0)).with_timestamp(Timestamp { secs: 30, nanos: 0 }));
    seg.add_point(TrackPoint::new(TrackPointId::new(2), deg(1.0), deg(1.0)).with_timestamp(Timestamp { secs: 10, nanos: 0 }));
    track.add_segment(seg);
    state.project_mut().add_track_to_layer(layer, track).unwrap();

    state.apply_sort_track_points(layer, TrackId::new(1)).unwrap();
    assert_eq!(ids(&state), vec![2, 1]);
    assert_eq!(state.history().undo_depth(), 1);

    state.apply_sort_track_points(layer, TrackId::new(1)).unwrap();
    assert_eq!(state.history().undo_depth(), 1, "already sorted: no step");

    assert_eq!(
        state.apply_sort_track_points(layer, TrackId::new(9)),
        Err(ProjectLayerError::MissingTrack { layer_id: 1, track_id: 9 })
    );
    assert_eq!(
        state.apply_sort_track_points(LayerId::new(5), TrackId::new(1)),
        Err(ProjectLayerError::MissingTrack { layer_id: 5, track_id: 1 })
    );
}

#[test]
fn cropping_to_a_time_range_keeps_untimed_points() {
    let mut state = AppState::new();
    let layer = LayerId::new(1);
    let mut track = Track::new(TrackId::new(1), "t");
    let mut seg = TrackSegment::new(TrackSegmentId::new(1));
    seg.add_point(TrackPoint::new(TrackPointId::new(1), deg(1.0), deg(1.0)).with_timestamp(Timestamp { secs: 10, nanos: 0 }));
    seg.add_point(TrackPoint::new(TrackPointId::new(2), deg(1.0), deg(1.0)));
    seg.add_point(TrackPoint::new(TrackPointId::new(3), deg(1.0), deg(1.0)).with_timestamp(Timestamp { secs: 20, nanos: 0 }));
    seg.add_point(TrackPoint::new(TrackPointId::new(4), deg(1.0), deg(1.0)).with_timestamp(Timestamp { secs: 30, nanos: 0 }));
    track.add_segment(seg);
    state.project_mut().add_track_to_layer(layer, track).unwrap();

    let removed = state
        .apply_crop_track_to_time(layer, TrackId::new(1), Some(Timestamp { secs: 15, nanos: 0 }), Some(Timestamp { secs: 25, nanos: 0 }))
        .unwrap();
    assert_eq!(removed, 2);
    assert_eq!(ids(&state), vec![2, 3]);

    assert_eq!(state.apply_crop_track_to_time(layer, TrackId::new(1), None, None).unwrap(), 0);
    assert_eq!(state.history().undo_depth(), 1);
    state.undo();
    assert_eq!(ids(&state), vec![1, 2, 3, 4]);
}

#[test]
fn cropping_every_point_away_is_refused() {
    let mut state = AppState::new();
    let layer = LayerId::new(1);
    state.project_mut().add_track_to_layer(layer, track_with_points(TrackId::new(1), "t", 2)).unwrap();
    let all = vec![(TrackSegmentId::new(1), vec![TrackPointId::new(1), TrackPointId::new(2)])];
    assert!(matches!(
        state.apply_crop_track_points(layer, TrackId::new(1), &all),
        Err(ProjectLayerError::InvalidSegmentOperation { .. })
    ));
    assert_eq!(ids(&state), vec![1, 2]);
    assert_eq!(
        state.apply_crop_track_points(layer, TrackId::new(3), &all),
        Err(ProjectLayerError::MissingTrack { layer_id: 1, track_id: 3 })
    );
}

#[test]
fn moving_a_point_records_where_it_was() {
    let mut state = AppState::new();
    let layer = LayerId::new(1);
    state.project_mut().add_track_to_layer(layer, track_with_points(TrackId::new(1), "t", 2)).unwrap();
    let before = state.track_layers()[0].tracks()[0].segments()[0].points()[0].latitude();

    state.apply_move_track_point(layer, TrackId::new(1), TrackSegmentId::new(1), TrackPointId::new(1), deg(10.0), deg(20.0)).unwrap();
    assert_eq!(state.track_layers()[0].tracks()[0].segments()[0].points()[0].latitude(), deg(10.0));
    state.undo();
    assert_eq!(state.track_layers()[0].tracks()[0].segments()[0].points()[0].latitude(), before);

    let removed = vec![(TrackSegmentId::new(1), 1usize, state.track_layers()[0].tracks()[0].segments()[0].points()[1])];
    state.apply_simplify_track(layer, TrackId::new(1), 0.001f64.to_bits(), removed).unwrap();
    assert_eq!(ids(&state), vec![1]);
    state.undo();
    assert_eq!(ids(&state), vec![1, 2]);
}

fn first_mark(state: &AppState) -> (LayerId, WaypointId) {
    let layer = &state.project_waypoint_layers()[0];
    (layer.id(), layer.waypoints().last().expect("a mark").id())
}

#[test]
fn editing_a_mark_through_the_session_is_undone_step_by_step() {
    let mut state = AppState::new();
    state.apply_add_waypoint(LayerId::new(1), deg(53.9), deg(27.5), "camp".to_owned()).expect("add");
    let (layer_id, waypoint_id) = first_mark(&state);

    state.apply_rename_waypoint(layer_id, waypoint_id, "base".to_owned()).expect("rename");
    state.apply_set_waypoint_description(layer_id, waypoint_id, Some("  by the river  ".to_owned())).expect("describe");
    state.apply_move_waypoint(layer_id, waypoint_id, deg(54.0), deg(27.6)).expect("move");
    let mark = state.project_waypoint_layers()[0].waypoints().last().unwrap();
    assert_eq!(mark.name(), "base");
    assert_eq!(mark.description(), Some("by the river"));
    assert_eq!(mark.latitude(), deg(54.0));

    assert!(state.undo());
    assert_eq!(state.project_waypoint_layers()[0].waypoints().last().unwrap().latitude(), deg(53.9));
    assert!(state.undo());
    assert_eq!(state.project_waypoint_layers()[0].waypoints().last().unwrap().description(), None);
    assert!(state.undo());
    assert_eq!(state.project_waypoint_layers()[0].waypoints().last().unwrap().name(), "camp");

    assert!(state.apply_rename_waypoint(layer_id, WaypointId::new(999), "x".to_owned()).is_err());
}

#[test]
fn deleting_a_mark_and_a_track_through_the_session_is_undoable() {
    let mut state = AppState::new();
    state.apply_add_waypoint(LayerId::new(1), deg(53.9), deg(27.5), "camp".to_owned()).expect("add");
    let (layer_id, waypoint_id) = first_mark(&state);
    state.apply_delete_waypoint(layer_id, waypoint_id).expect("delete mark");
    assert!(state.project_waypoint_layers()[0].waypoints().is_empty());
    assert!(state.undo());
    assert_eq!(state.project_waypoint_layers()[0].waypoints().len(), 1);

    let track_layer = state.track_layers()[0].id();
    state.apply_create_empty_track(track_layer, "walk".to_owned()).expect("create");
    let track_id = state.track_layers()[0].tracks().last().unwrap().id();
    state.apply_delete_track(track_layer, track_id).expect("delete track");
    assert!(state.track_layers()[0].tracks().is_empty());
    assert!(state.undo());
    assert_eq!(state.track_layers()[0].tracks().len(), 1);
    assert!(state.apply_delete_track(track_layer, TrackId::new(77)).is_err());
}

#[test]
fn a_split_track_joined_again_through_the_session_has_its_points_once() {
    let mut state = AppState::new();
    let layer_id = state.track_layers()[0].id();
    let track = track_with_points(TrackId::new(1), "walk", 5);
    state.project_mut().track_layers[0].add_track(track);
    state.apply_split_segment(layer_id, TrackId::new(1), TrackSegmentId::new(1), TrackPointId::new(3)).expect("split");
    let segments: Vec<u64> = state.track_layers()[0].tracks()[0].segments().iter().map(|s| s.id().value()).collect();
    assert_eq!(segments.len(), 2);
    state.apply_join_segments(layer_id, TrackId::new(1), TrackSegmentId::new(segments[0]), TrackSegmentId::new(segments[1])).expect("join");
    assert_eq!(ids(&state), vec![1, 2, 3, 4, 5]);
    state.apply_delete_track_point(layer_id, TrackId::new(1), TrackSegmentId::new(segments[0]), TrackPointId::new(4)).expect("delete point");
    assert_eq!(ids(&state), vec![1, 2, 3, 5]);
    assert!(state.undo());
    assert_eq!(ids(&state), vec![1, 2, 3, 4, 5]);
}

#[test]
fn an_undone_deletion_brings_the_mark_back_at_the_end_of_its_layer() {
    let mut state = AppState::new();
    for name in ["a", "b", "c"] {
        state.apply_add_waypoint(LayerId::new(1), deg(53.9), deg(27.5), name.to_owned()).expect("add");
    }
    let middle = state.project_waypoint_layers()[0].waypoints()[1].id();
    state.apply_delete_waypoint(LayerId::new(1), middle).expect("delete");
    assert!(state.undo());
    let names: Vec<&str> = state.project_waypoint_layers()[0].waypoints().iter().map(|w| w.name()).collect();
    assert_eq!(names, vec!["a", "c", "b"]);
}

#[test]
fn a_default_session_is_a_fresh_one() {
    let state = AppState::default();
    assert_eq!(state.project_name(), AppState::new().project_name());
    assert!(!state.project_dirty());
    assert!(!state.history().can_undo());
    assert_eq!(state.track_layer_count(), 1);
    assert_eq!(state.waypoint_layer_count(), 1);
}

#[test]
fn an_empty_project_has_nothing_to_export() {
    let mut state = AppState::new();
    assert_eq!(state.day_export_counts().err(), Some("Nothing to export".to_owned()));
    state.apply_add_waypoint(LayerId::new(1), deg(53.9), deg(27.5), "camp".to_owned()).expect("add");
    let plan = state.day_export_counts().expect("something to export");
    assert_eq!((plan.tracks, plan.waypoints), (0, 1));
    let layer_id = state.track_layers()[0].id();
    state.apply_create_empty_track(layer_id, "walk".to_owned()).expect("create");
    let plan = state.day_export_counts().expect("something to export");
    assert_eq!((plan.tracks, plan.waypoints), (1, 1));
}

#[test]
fn a_project_of_marks_alone_still_exports() {
    let mut state = AppState::new();
    state.apply_add_waypoint(LayerId::new(1), deg(59.95243), deg(31.59681), "ШТАБ".to_owned()).expect("waypoint");
    let written = state.day_export_counts().expect("export");
    assert_eq!(written.tracks, 0);
    assert_eq!(written.waypoints, 1);
}

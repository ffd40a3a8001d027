use ozi_rs::application::{datum_shift_warning, DiagnosticEntry, DiagnosticLevel, LoadProjectRefusal};
use ozi_rs::dto::ImportReportDto;
use ozi_rs::history::CommandStack;
use ozi_rs::ids::{LayerId, TrackId, TrackPointId, TrackSegmentId, WaypointId};
use ozi_rs::text::tracks_export_file_name;
use ozi_rs::import::{
    tally_directory_import,
    apply_gpx_import, apply_plt_import, apply_wpt_import, next_layer_id, palette_colour, source_file_label,
    track_count, ArchiveImportReport, ArchivedGpxImport, DirectoryImportReport, TRACK_PALETTE,
};
use ozi_rs::layers::{MapLayer, TrackLayer, WaypointLayer};
use ozi_rs::project::Project;
use ozi_rs::tiles::web_to_db_zoom;
use ozi_rs::track::{Track, TrackPoint, TrackSegment};
use ozi_rs::waypoint::Waypoint;

fn deg(x: f64) -> u64 {
    x.to_bits()
}

// ── zoom levels of a tile bundle ─────────────────────────────────────────

#[test]
fn base_zoom_maps_to_db_min() {
    assert_eq!(web_to_db_zoom(15, 0, 4, 15), Some(0));
}

#[test]
fn min_web_zoom_maps_to_db_max() {
    // base=15, db range 0..4 → min_web = 15-4 = 11
    assert_eq!(web_to_db_zoom(11, 0, 4, 15), Some(4));
}

#[test]
fn mid_zoom_maps_correctly() {
    assert_eq!(web_to_db_zoom(13, 0, 4, 15), Some(2));
}

#[test]
fn zoom_below_range_is_none() {
    assert_eq!(web_to_db_zoom(10, 0, 4, 15), None);
}

#[test]
fn zoom_above_base_is_none() {
    assert_eq!(web_to_db_zoom(16, 0, 4, 15), None);
}

#[test]
fn single_zoom_level_bundle() {
    assert_eq!(web_to_db_zoom(14, 0, 0, 14), Some(0));
    assert_eq!(web_to_db_zoom(13, 0, 0, 14), None);
    assert_eq!(web_to_db_zoom(15, 0, 0, 14), None);
}

#[test]
fn a_bundle_that_does_not_start_at_zero_is_offset() {
    assert_eq!(web_to_db_zoom(15, 3, 7, 15), Some(3));
    assert_eq!(web_to_db_zoom(12, 3, 7, 15), Some(6));
}

// ── import ───────────────────────────────────────────────────────────────

#[test]
fn next_layer_id_clears_every_layer_kind() {
    let mut project = Project::default();
    project.add_track_layer(TrackLayer::new(LayerId::new(1), "Tracks"));
    project.add_waypoint_layer(WaypointLayer::new(LayerId::new(7), "Waypoints"));
    project.add_map_layer(MapLayer::new(LayerId::new(4), "Map"));

    assert_eq!(next_layer_id(&project).value(), 8);
}

#[test]
fn next_layer_id_does_not_reuse_an_id_after_a_removal() {
    let mut project = Project::default();
    project.add_map_layer(MapLayer::new(LayerId::new(1), "First"));
    project.add_map_layer(MapLayer::new(LayerId::new(2), "Second"));
    assert!(project.remove_map_layer(LayerId::new(1)));

    let next = next_layer_id(&project);
    assert_eq!(project.map_layers().len(), 1, "count-based allocation would say 2");
    assert_eq!(next.value(), 3);
    assert!(project.map_layers().iter().all(|l| l.id() != next), "allocated id must not already be in use");
}

#[test]
fn the_palette_holds_distinct_colours() {
    let distinct: std::collections::HashSet<_> = TRACK_PALETTE.iter().collect();
    assert_eq!(distinct.len(), TRACK_PALETTE.len(), "a repeated entry would hand two crews the same colour early");
    assert!(TRACK_PALETTE.len() >= 8, "a day has more than a few crews");
}

#[test]
fn the_palette_wraps_around() {
    assert_eq!(palette_colour(0), TRACK_PALETTE[0]);
    assert_eq!(palette_colour(13), TRACK_PALETTE[1]);
}

#[test]
fn a_layer_is_named_after_the_file_it_came_from() {
    assert_eq!(source_file_label("/Volumes/card/day3.gpx"), "day3.gpx");
    assert_eq!(source_file_label("C:\\tracks\\lisa15.plt"), "lisa15.plt");
    assert_eq!(source_file_label("plain.gpx"), "plain.gpx");
    assert_eq!(source_file_label("/odd/"), "/odd/");
}

fn one_point_track(id: u64, name: &str) -> Track {
    let mut track = Track::new(TrackId::new(id), name);
    let mut seg = TrackSegment::new(TrackSegmentId::new(1));
    seg.add_point(TrackPoint::new(TrackPointId::new(1), deg(59.9), deg(31.5)));
    track.add_segment(seg);
    track
}

fn colours(project: &Project) -> Vec<[u8; 4]> {
    project.track_layers().iter().flat_map(|l| l.tracks().iter().map(|t| t.style().color)).collect()
}

#[test]
fn tracks_without_a_colour_get_different_ones_and_a_declared_one_stays() {
    let mut project = Project::default();
    let mut history = CommandStack::default();
    let mut report = ArchiveImportReport::new();
    let mut blue = one_point_track(4, "blue");
    blue.style.color = [0, 0, 255, 255];
    let import = ArchivedGpxImport {
        source_path: "/day/lisa.gpx".to_owned(),
        tracks: vec![one_point_track(1, "lisa15"), one_point_track(2, "veter2"), one_point_track(3, "sokol7"), blue],
        declared_colours: vec![false, false, false, true],
        waypoints: vec![Waypoint::new(WaypointId::new(9), "ШТАБ", deg(59.9), deg(31.5))],
    };

    apply_gpx_import(&mut project, &mut history, &import, &mut report).expect("import");

    assert_eq!(
        colours(&project),
        vec![TRACK_PALETTE[0], TRACK_PALETTE[1], TRACK_PALETTE[2], [0, 0, 255, 255]]
    );
    assert_eq!(report.imported_tracks(), 4);
    assert_eq!(report.imported_track_layers(), 1);
    assert_eq!(report.imported_waypoint_layers(), 1);
    assert_eq!(report.imported_waypoints(), 1);
    assert_eq!(project.track_layers()[1].name(), "lisa.gpx");
    assert_eq!(project.track_layers()[1].id(), LayerId::new(2));
    assert_eq!(project.waypoint_layers()[1].id(), LayerId::new(3));
    assert_eq!(track_count(&project), 4);
    assert_eq!(history.undo_depth(), 7);
}

#[test]
fn the_same_day_imported_twice_gets_the_same_colours() {
    let run = || {
        let mut project = Project::default();
        let mut history = CommandStack::default();
        let mut report = ArchiveImportReport::new();
        let import = ArchivedGpxImport {
            source_path: "d.gpx".to_owned(),
            tracks: vec![one_point_track(1, "t"), one_point_track(2, "t"), one_point_track(3, "t")],
            declared_colours: vec![false, false, false],
            waypoints: Vec::new(),
        };
        apply_gpx_import(&mut project, &mut history, &import, &mut report).expect("import");
        colours(&project)
    };
    assert_eq!(run(), run());
}

#[test]
fn a_plt_file_becomes_one_layer_with_one_track() {
    let mut project = Project::default();
    let mut history = CommandStack::default();
    let report = apply_plt_import(&mut project, &mut history, "/x/route.plt", one_point_track(1, "route"));
    assert_eq!(report.imported_tracks(), 1);
    assert_eq!(project.track_layers().len(), 2);
    assert_eq!(project.track_layers()[1].name(), "route.plt");
    assert_eq!(project.track_layers()[1].tracks().len(), 1);
}

#[test]
fn a_wpt_file_becomes_one_layer_of_marks() {
    let mut project = Project::default();
    let mut history = CommandStack::default();
    let marks = vec![
        Waypoint::new(WaypointId::new(1), "A", deg(1.0), deg(2.0)),
        Waypoint::new(WaypointId::new(2), "B", deg(1.0), deg(2.0)),
    ];
    let report = apply_wpt_import(&mut project, &mut history, "marks.wpt", marks);
    assert_eq!(report.imported_waypoints(), 2);
    assert_eq!(project.waypoint_layers().len(), 2);
    assert_eq!(project.waypoint_layers()[1].waypoints().len(), 2);

    let empty = apply_wpt_import(&mut project, &mut history, "none.wpt", Vec::new());
    assert_eq!(empty.imported_waypoint_layers(), 0);
    assert_eq!(project.waypoint_layers().len(), 2);
}

#[test]
fn a_folder_import_reports_counts_rather_than_an_english_sentence() {
    let report = DirectoryImportReport {
        imported_files: 4,
        imported_tracks: 12,
        imported_waypoints: 3,
        skipped: vec![("/searches/2026-09-21/broken.plt".to_owned(), "no valid points".to_owned())],
    };

    let dto = ImportReportDto::from(report);

    assert_eq!(dto.files, 4);
    assert_eq!(dto.tracks, 12);
    assert_eq!(dto.waypoints, 3);
    // The names, not the paths.
    assert_eq!(dto.skipped, vec!["broken.plt".to_owned()]);
}

#[test]
fn a_clean_folder_import_reports_nothing_skipped() {
    let dto = ImportReportDto::from(DirectoryImportReport {
        imported_files: 2,
        imported_tracks: 2,
        imported_waypoints: 0,
        skipped: Vec::new(),
    });
    assert!(dto.skipped.is_empty());
}

#[test]
fn each_skipped_file_is_named_by_its_own_file_name_in_order() {
    let dto = ImportReportDto::from(DirectoryImportReport {
        imported_files: 0,
        imported_tracks: 0,
        imported_waypoints: 0,
        skipped: vec![
            ("day1.gpx".to_owned(), "empty".to_owned()),
            ("/searches/a/b/day2.plt".to_owned(), "no valid points".to_owned()),
            ("relative/day3.wpt".to_owned(), "unreadable".to_owned()),
        ],
    });
    assert_eq!(dto.skipped, vec!["day1.gpx".to_owned(), "day2.plt".to_owned(), "day3.wpt".to_owned()]);
}

// ── application ──────────────────────────────────────────────────────────

#[test]
fn datum_shift_warning_accepts_wgs84_family_spellings() {
    assert!(datum_shift_warning("WGS 84").is_none());
    assert!(datum_shift_warning("WGS84").is_none());
    assert!(datum_shift_warning("wgs-84").is_none());
    assert!(datum_shift_warning("Pulkovo 1942").is_some());
    assert!(datum_shift_warning("WGS 72").is_some());
}

#[test]
fn the_datum_warning_names_the_datum() {
    let warning = datum_shift_warning("Pulkovo 1942").expect("a warning");
    assert!(warning.starts_with("Карта откалибрована в датуме Pulkovo 1942: "));
    assert!(warning.contains("датум"));
}

#[test]
fn refusals_and_diagnostics_say_what_they_are() {
    assert_eq!(LoadProjectRefusal::Busy.message(), "busy: another bundle is still being opened");
    assert_eq!(LoadProjectRefusal::UnknownProject.message(), "unknown project");
    let entry = DiagnosticEntry::new(DiagnosticLevel::Warning, "слабый сигнал".to_owned());
    assert_eq!(entry.level(), DiagnosticLevel::Warning);
    assert_eq!(entry.message(), "слабый сигнал");
}

#[test]
fn a_folder_import_tallies_what_each_file_gave() {
    let report = tally_directory_import(
        "/searches/day1",
        vec![
            ("/searches/day1/a.gpx".to_owned(), Ok((2, 1))),
            ("/searches/day1/b.plt".to_owned(), Err("no valid points".to_owned())),
            ("/searches/day1/c.gpx".to_owned(), Ok((3, 0))),
        ],
    )
    .expect("a folder with files");
    assert_eq!(report.imported_files, 2);
    assert_eq!(report.imported_tracks, 5);
    assert_eq!(report.imported_waypoints, 1);
    assert_eq!(report.skipped, vec![("/searches/day1/b.plt".to_owned(), "no valid points".to_owned())]);
}

#[test]
fn a_folder_without_track_files_is_refused() {
    let r = tally_directory_import("/searches/empty", Vec::new());
    assert_eq!(r.err(), Some("no .gpx or .plt files found under /searches/empty".to_owned()));
}

#[test]
fn a_track_export_is_named_by_the_track_and_the_extension() {
    assert_eq!(tracks_export_file_name("ЛИСА15", "gpx"), Some("ЛИСА15.gpx".to_owned()));
    assert_eq!(tracks_export_file_name("ЛИСА15", ".plt"), Some("ЛИСА15.plt".to_owned()));
    assert_eq!(tracks_export_file_name("ЛИСА15", "..."), None);
    assert_eq!(tracks_export_file_name("ЛИСА15", ""), None);
}

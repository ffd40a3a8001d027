use std::path::{Path, PathBuf};

use ozi_rs::application::{ActiveMapKind, LizaMapPackage, LizaProjectSummary};
use ozi_rs::catalogue::{ActiveMapSelection, CatalogueState, LizaProject};
use ozi_rs::paths::{export_default_tracks_dir_path, infer_bundle_dir_from_map_path};
use ozi_rs::session::AppState;

const BUNDLES_ROOT: &str = "/tmp/ozi-bundles";

fn sample_project_with_remote_map() -> LizaProject {
    LizaProject {
        summary: LizaProjectSummary {
            slug: "demo-project".to_owned(),
            name: "Demo Project".to_owned(),
            url: "https://example.invalid/project".to_owned(),
        },
        center_lat: 55.0f64.to_bits(),
        center_lon: 37.0f64.to_bits(),
        maps: vec![LizaMapPackage {
            name: "demo-map".to_owned(),
            file_name: "demo-map.sqlitedb".to_owned(),
            url: "https://example.invalid/demo-map.sqlitedb".to_owned(),
            base_zoom: 12,
            local_path: None,
            size_bytes: None,
        }],
        contents: Vec::new(),
    }
}

fn selection_at(project_name: &str, package_name: &str, local_path: &str) -> ActiveMapSelection {
    ActiveMapSelection {
        kind: ActiveMapKind::SqliteTiles,
        project_name: project_name.to_owned(),
        package_name: package_name.to_owned(),
        remote_url: "https://example.invalid/demo-map.sqlitedb".to_owned(),
        local_path: local_path.to_owned(),
        center_lat: 55.0f64.to_bits(),
        center_lon: 37.0f64.to_bits(),
        base_zoom: 12,
    }
}

/// The demo search selected, with its map on screen, and the directory its
/// bundle is kept in under the bundles root.
fn state_with_selected_demo_project() -> (CatalogueState, String) {
    let mut state = CatalogueState::new();
    let mut session = AppState::new();
    state.apply_project_loaded(Ok(sample_project_with_remote_map()));
    state.open_local_map_selection(&mut session, selection_at("Demo Project", "demo-map", "/tmp/demo-map.sqlitedb"));
    let bundle = Path::new(BUNDLES_ROOT).join("demo-project").to_string_lossy().into_owned();
    (state, bundle)
}

fn default_track_path(state: &CatalogueState, selected_bundle: Option<&str>, track_name: &str, extension: &str) -> Option<PathBuf> {
    let bundle = state.active_bundle_dir(BUNDLES_ROOT, selected_bundle);
    export_default_tracks_dir_path(bundle.as_deref(), track_name, extension).map(PathBuf::from)
}

#[test]
fn export_default_tracks_dir_uses_active_bundle_for_gpx() {
    let (state, bundle) = state_with_selected_demo_project();
    let path = default_track_path(&state, Some(&bundle), "20240601_Иванов", "gpx").expect("active bundle default path");
    let components: Vec<_> = path.components().map(|component| component.as_os_str().to_owned()).collect();

    assert!(components.ends_with(&["demo-project".into(), "10-Tracks".into(), "20240601_Иванов.gpx".into()]));
}

#[test]
fn export_default_tracks_dir_uses_active_bundle_for_plt() {
    let (state, bundle) = state_with_selected_demo_project();
    let path = default_track_path(&state, Some(&bundle), "20240601_Иванов", ".plt").expect("active bundle default path");
    let file_name = path.file_name().and_then(|name| name.to_str());

    assert_eq!(file_name, Some("20240601_Иванов.plt"));
    assert_eq!(path.parent().and_then(|dir| dir.file_name()), Some("10-Tracks".as_ref()));
}

#[test]
fn export_default_tracks_dir_is_none_without_active_bundle() {
    let state = CatalogueState::new();

    assert_eq!(default_track_path(&state, None, "Track 1", "gpx"), None);
}

#[test]
fn export_default_tracks_dir_recovers_bundle_from_restored_mobile_map_path() {
    let mut state = CatalogueState::new();
    let mut session = AppState::new();
    let local_path = Path::new(BUNDLES_ROOT)
        .join("restored-project")
        .join("8-Android&iOS")
        .join("restored.sqlitedb")
        .to_string_lossy()
        .into_owned();
    state.open_local_map_selection(&mut session, selection_at("Restored Project", "Restored Map", &local_path));

    let path = default_track_path(&state, None, "20240601_Test", "gpx").expect("restored active map default path");

    assert!(path.ends_with(PathBuf::from("restored-project").join("10-Tracks").join("20240601_Test.gpx")));
}

#[test]
fn the_selected_search_gives_the_bundle_before_the_open_map() {
    let (state, bundle) = state_with_selected_demo_project();

    assert_eq!(state.active_bundle_dir(BUNDLES_ROOT, Some(&bundle)), Some(bundle.clone()));
    assert_eq!(state.active_bundle_dir(BUNDLES_ROOT, None), None);
}

#[test]
fn without_a_selected_search_the_open_map_gives_the_bundle() {
    let mut state = CatalogueState::new();
    let mut session = AppState::new();
    state.open_local_map_selection(&mut session, selection_at("Demo", "demo-map", "/tmp/ozi-bundles/demo/maps/demo.sqlitedb"));

    assert_eq!(state.active_bundle_dir(BUNDLES_ROOT, Some("/ignored")), Some("/tmp/ozi-bundles/demo".to_owned()));
}

#[test]
fn a_map_under_the_bundles_root_belongs_to_the_folder_directly_under_it() {
    assert_eq!(
        infer_bundle_dir_from_map_path("/b/root/s1/8-Android&iOS/m.sqlitedb", "/b/root"),
        Some("/b/root/s1".to_owned())
    );
    assert_eq!(infer_bundle_dir_from_map_path("/b/root/s1/a/b/m.sqlitedb", "/b/root"), Some("/b/root/s1".to_owned()));
    assert_eq!(infer_bundle_dir_from_map_path("/b/root/m.sqlitedb", "/b/root"), Some("/b/root/m.sqlitedb".to_owned()));
}

#[test]
fn a_phone_map_outside_the_root_belongs_to_the_folder_above_the_phone_folder() {
    assert_eq!(
        infer_bundle_dir_from_map_path("/elsewhere/s2/8-Android&iOS/m.sqlitedb", "/b/root"),
        Some("/elsewhere/s2".to_owned())
    );
}

#[test]
fn any_other_map_belongs_to_the_folder_it_lies_in() {
    assert_eq!(infer_bundle_dir_from_map_path("/elsewhere/maps/m.sqlitedb", "/b/root"), Some("/elsewhere/maps".to_owned()));
    assert_eq!(infer_bundle_dir_from_map_path("m.sqlitedb", "/b/root"), Some(String::new()));
    assert_eq!(infer_bundle_dir_from_map_path("", "/b/root"), None);
    assert_eq!(infer_bundle_dir_from_map_path("/", "/b/root"), None);
}

#[test]
fn a_track_export_path_joins_the_bundle_the_tracks_folder_and_the_file() {
    let path = export_default_tracks_dir_path(Some("/b/root/s1"), "ЛИСА15", "gpx").expect("a path");
    let separator = std::path::MAIN_SEPARATOR;
    assert_eq!(path, format!("/b/root/s1{separator}10-Tracks{separator}ЛИСА15.gpx"));
    assert_eq!(export_default_tracks_dir_path(Some("/b/root/s1"), "ЛИСА15", "..."), None);
    assert_eq!(export_default_tracks_dir_path(None, "ЛИСА15", "gpx"), None);
}

use ozi_rs::application::{ActiveMapKind, DiagnosticLevel, LizaMapPackage, LizaProjectSummary, LoadProjectRefusal};
use ozi_rs::catalogue::{ActiveMapSelection, CatalogueState, CatalogueWalk, LizaProject, OpenMapRequest};
use ozi_rs::session::AppState;

fn deg(x: f64) -> u64 {
    x.to_bits()
}

fn summary_for(slug: &str, name: &str) -> LizaProjectSummary {
    LizaProjectSummary { slug: slug.to_owned(), name: name.to_owned(), url: format!("https://example.invalid/{slug}/") }
}

fn previewed_project(slug: &str, name: &str) -> LizaProject {
    LizaProject {
        summary: summary_for(slug, name),
        center_lat: deg(55.0),
        center_lon: deg(37.0),
        maps: Vec::new(),
        contents: Vec::new(),
    }
}

fn sample_project_with_remote_map() -> LizaProject {
    LizaProject {
        summary: LizaProjectSummary {
            slug: "demo-project".to_owned(),
            name: "Demo Project".to_owned(),
            url: "https://example.invalid/project".to_owned(),
        },
        center_lat: deg(55.0),
        center_lon: deg(37.0),
        maps: vec![LizaMapPackage {
            name: "demo-map".to_owned(),
            file_name: "demo-map.sqlitedb".to_owned(),
            url: "https://example.invalid/demo-map.sqlitedb".to_owned(),
            base_zoom: 12,
            local_path: None,
            size_bytes: None,
        }],
        contents: Vec::new(),
    }
}

/// The selected search as a finished bundle open leaves it.
fn select(state: &mut CatalogueState, project: LizaProject) {
    state.apply_project_loaded(Ok(project));
}

/// The selection the map view builds for a package of the selected search.
fn selection_for(project: &LizaProject, map: &LizaMapPackage, local_path: &str) -> ActiveMapSelection {
    ActiveMapSelection {
        kind: ActiveMapKind::SqliteTiles,
        project_name: project.summary.name.clone(),
        package_name: map.name.clone(),
        remote_url: map.url.clone(),
        local_path: local_path.to_owned(),
        center_lat: project.center_lat,
        center_lon: project.center_lon,
        base_zoom: map.base_zoom,
    }
}

fn state_with_demo_project() -> CatalogueState {
    let mut state = CatalogueState::new();
    state.push_project_summary_for_test(LizaProjectSummary {
        slug: "2026-09-21_demo".to_owned(),
        name: "Demo".to_owned(),
        url: "https://example.invalid/demo/".to_owned(),
    });
    state
}

#[test]
fn a_preview_the_operator_has_moved_on_from_is_dropped() {
    let mut state = CatalogueState::new();
    state.push_project_summary_for_test(summary_for("first", "First"));
    state.push_project_summary_for_test(summary_for("second", "Second"));

    state.preview_data("first").expect("first preview starts");
    state.preview_data("second").expect("second preview starts");

    state.apply_preview_loaded("first", Ok(previewed_project("first", "First")));
    assert!(state.current_project().is_none(), "the abandoned preview must not become the shown project");
    assert_eq!(
        state.selected_project_slug().map(|s| s.as_str()),
        Some("second"),
        "and it must not steal the selection back either"
    );

    state.apply_preview_loaded("second", Ok(previewed_project("second", "Second")));
    assert_eq!(
        state.current_project().map(|p| p.summary.slug.as_str()),
        Some("second"),
        "the preview the operator is waiting for still lands"
    );
}

#[test]
fn a_stale_preview_failure_is_not_reported() {
    let mut state = CatalogueState::new();
    state.push_project_summary_for_test(summary_for("first", "First"));
    state.push_project_summary_for_test(summary_for("second", "Second"));

    state.preview_data("first").expect("first preview starts");
    state.preview_data("second").expect("second preview starts");
    let status_while_waiting = state.lizaalert_status().to_owned();

    state.apply_preview_loaded("first", Err("host unreachable".to_owned()));

    assert_eq!(state.lizaalert_status(), status_while_waiting, "an abandoned preview must not report its failure");
}

#[test]
fn a_finished_preview_leaves_the_busy_flag_alone() {
    let mut state = CatalogueState::new();
    state.push_project_summary_for_test(summary_for("demo", "Demo"));

    state.preview_data("demo").expect("preview starts");
    state.begin_load_project("demo", false).expect("a download starts while the preview is in flight");
    assert!(state.lizaalert_bundle_busy(), "the download owns the bundle flag");

    state.apply_preview_loaded("demo", Ok(previewed_project("demo", "Demo")));

    assert!(state.lizaalert_bundle_busy(), "the preview did not take the bundle flag and must not release it");
}

#[test]
fn a_complete_walk_drops_a_search_that_is_gone() {
    let mut state = CatalogueState::new();
    state.apply_projects_chunk(vec![summary_for("2026-09-01_old", "Old"), summary_for("2026-09-20_current", "Current")]);

    state.apply_projects_loaded(Ok(CatalogueWalk {
        projects: vec![summary_for("2026-09-20_current", "Current")],
        cancelled: false,
    }));

    assert_eq!(
        state.projects().iter().map(|p| p.slug.as_str()).collect::<Vec<_>>(),
        vec!["2026-09-20_current"],
        "a complete walk is the whole truth about what exists"
    );
}

#[test]
fn a_stopped_walk_prunes_nothing() {
    let mut state = CatalogueState::new();
    state.apply_projects_chunk(vec![summary_for("2026-09-01_old", "Old"), summary_for("2026-09-20_current", "Current")]);

    state.apply_projects_loaded(Ok(CatalogueWalk {
        projects: vec![summary_for("2026-09-20_current", "Current")],
        cancelled: true,
    }));

    assert_eq!(state.projects().len(), 2, "a stopped walk read only a prefix and may not remove anything");
}

#[test]
fn opening_a_second_bundle_while_one_downloads_is_refused_with_a_reason() {
    let mut state = state_with_demo_project();

    assert!(state.begin_open_local_bundle("/tmp/bundle"));
    assert!(state.lizaalert_bundle_busy());
    assert_eq!(state.begin_load_project("2026-09-21_demo", false).err(), Some(LoadProjectRefusal::Busy));

    state.apply_project_loaded(Err("stopped".to_owned()));
    assert!(!state.lizaalert_bundle_busy());
    assert_eq!(state.begin_load_project("nothing-like-this", false).err(), Some(LoadProjectRefusal::UnknownProject));

    assert!(state.begin_load_project("2026-09-21_demo", false).is_ok());
}

#[test]
fn a_download_may_start_while_the_catalogue_is_being_walked() {
    let mut state = state_with_demo_project();

    let walk = state.begin_load_projects();
    assert!(walk, "the walk takes its own flag");
    assert!(state.lizaalert_listing_busy());

    assert!(state.begin_load_project("2026-09-21_demo", false).is_ok(), "a download must not wait for the listing");
}

#[test]
fn a_second_catalogue_walk_is_refused_while_one_runs() {
    let mut state = CatalogueState::new();
    assert!(state.begin_load_projects());
    assert!(!state.begin_load_projects());
}

#[test]
fn finishing_one_operation_does_not_release_the_other() {
    let mut state = state_with_demo_project();
    state.begin_load_projects();
    state.begin_load_project("2026-09-21_demo", false).expect("start");

    state.apply_projects_loaded(Ok(CatalogueWalk { projects: Vec::new(), cancelled: true }));
    assert!(!state.lizaalert_listing_busy(), "the walk released its flag");
    assert!(state.lizaalert_bundle_busy(), "the download still owns its own");

    state.apply_project_loaded(Err("stopped".to_owned()));
    assert!(!state.lizaalert_bundle_busy());
}

#[test]
fn opening_a_local_bundle_takes_the_bundle_flag() {
    let mut state = CatalogueState::new();
    assert!(state.begin_open_local_bundle("/tmp/bundle"));
    assert!(state.lizaalert_bundle_busy());
    assert!(!state.lizaalert_listing_busy());
    assert!(!state.begin_open_local_bundle("/tmp/other"), "a second one is refused");
}

#[test]
fn a_map_that_lands_mid_download_can_be_opened_without_waiting() {
    let mut state = CatalogueState::new();
    let mut project = sample_project_with_remote_map();
    project.maps[0].local_path = None;
    let package = project.maps[0].name.clone();
    let file_name = project.maps[0].file_name.clone();
    select(&mut state, project);

    // Before its file lands, opening it has to fetch.
    let shown = state.current_project().unwrap().clone();
    let selection = selection_for(&shown, &shown.maps[0], "/tmp/bundles/demo-map.sqlitedb");
    assert!(matches!(state.begin_open_map(&package, selection), Some(OpenMapRequest::Download(_))));
    // The fetch is given up.
    state.apply_map_downloaded(&mut AppState::new(), &package, Err("stopped".to_owned()));
    assert!(state.downloading_maps().is_empty());

    // The bundle download reports that file ready.
    let landed = format!("/tmp/bundle/{file_name}");
    state.note_bundle_file_ready(&format!("8-Android&iOS/{file_name}"), &landed);

    // Now it opens from disk, with the rest of the bundle still running.
    let shown = state.current_project().unwrap().clone();
    let local = shown.maps[0].local_path.clone().expect("the map is on disk");
    let selection = selection_for(&shown, &shown.maps[0], &local);
    match state.begin_open_map(&package, selection) {
        Some(OpenMapRequest::Local(selection)) => {
            assert_eq!(selection.local_path, landed);
        },
        _ => panic!("a map already on disk SHALL open without a download"),
    }
}

#[test]
fn a_new_project_keeps_the_map_that_is_open() {
    let mut state = CatalogueState::new();
    let mut session = AppState::new();
    state.open_local_map_selection(
        &mut session,
        ActiveMapSelection {
            kind: ActiveMapKind::SqliteTiles,
            project_name: "2026-07-08 Lavrovo".to_owned(),
            package_name: "topo".to_owned(),
            remote_url: "https://example.invalid/topo.sqlitedb".to_owned(),
            local_path: "/tmp/topo.sqlitedb".to_owned(),
            center_lat: deg(59.95),
            center_lon: deg(31.6),
            base_zoom: 16,
        },
    );

    session.new_project();

    assert!(state.active_map().is_some(), "the raster the crew is looking at SHALL survive a new search");
}

#[test]
fn a_ready_file_lands_on_the_map_whose_name_it_actually_is() {
    let mut state = CatalogueState::new();
    let mut project = sample_project_with_remote_map();
    project.maps[0].file_name = "map.ozf2".to_owned();
    project.maps.push(LizaMapPackage {
        name: "big".to_owned(),
        file_name: "bigmap.ozf2".to_owned(),
        url: "https://example.invalid/bigmap.ozf2".to_owned(),
        base_zoom: 12,
        local_path: None,
        size_bytes: None,
    });
    select(&mut state, project);

    let landed = "/tmp/bundle/bigmap.ozf2".to_owned();
    state.note_bundle_file_ready("8-Android&iOS/bigmap.ozf2", &landed);

    let maps = &state.current_project().unwrap().maps;
    assert_eq!(maps[0].local_path, None, "`map.ozf2` SHALL NOT be marked ready by a file called `bigmap.ozf2`");
    assert_eq!(maps[1].local_path, Some(landed));
}

#[test]
fn a_ready_file_at_the_bundle_root_still_finds_its_map() {
    let mut state = CatalogueState::new();
    let mut project = sample_project_with_remote_map();
    project.maps[0].file_name = "map.ozf2".to_owned();
    select(&mut state, project);

    let landed = "/tmp/bundle/map.ozf2".to_owned();
    state.note_bundle_file_ready("map.ozf2", &landed);

    let maps = &state.current_project().unwrap().maps;
    assert_eq!(maps[0].local_path, Some(landed));
}

#[test]
fn a_finished_walk_does_not_write_over_a_running_download() {
    let mut state = CatalogueState::new();
    assert!(state.begin_download("demo-map"));
    state.apply_progress("Downloading demo-map: 40%".to_owned());

    state.apply_projects_loaded(Ok(CatalogueWalk { projects: Vec::new(), cancelled: false }));

    assert_eq!(
        state.lizaalert_status(),
        "Downloading demo-map: 40%",
        "the status bar SHALL keep reporting the download the crew is waiting on"
    );
    assert!(
        state.recent_diagnostics().iter().any(|entry| entry.message().contains("0 projects")),
        "the walk's result SHALL still reach the diagnostics log"
    );
    assert!(!state.lizaalert_listing_busy(), "the walk SHALL still release its flag");
}

#[test]
fn a_finished_walk_reports_itself_when_nothing_is_downloading() {
    let mut state = CatalogueState::new();
    state.apply_projects_loaded(Ok(CatalogueWalk { projects: Vec::new(), cancelled: false }));
    assert!(state.lizaalert_status().contains("0 projects"));
}

#[test]
fn apply_map_downloaded_marks_selected_project_map_as_cached() {
    let mut state = CatalogueState::new();
    let mut session = AppState::new();
    let project = sample_project_with_remote_map();
    let selection = selection_for(&project, &project.maps[0], "/tmp/demo-map.sqlitedb");

    select(&mut state, project);
    assert!(state.begin_download(&selection.package_name));

    state.apply_map_downloaded(&mut session, &selection.package_name.clone(), Ok(selection.clone()));

    let selected_project = state.current_project().expect("project");
    assert_eq!(selected_project.maps[0].local_path.as_deref(), Some(selection.local_path.as_str()));
    assert!(!state.downloading_maps().contains(&selection.package_name));
    let active = state.active_map().expect("active map");
    assert_eq!(active.package_name, selection.package_name);
    assert_eq!(active.local_path, selection.local_path);
    assert_eq!(active.kind, selection.kind);
}

#[test]
fn begin_open_map_returns_local_request_after_download_is_applied() {
    let mut state = CatalogueState::new();
    let mut session = AppState::new();
    let project = sample_project_with_remote_map();
    let selection = selection_for(&project, &project.maps[0], "/tmp/demo-map.sqlitedb");

    select(&mut state, project);
    let first_request = state.begin_open_map(&selection.package_name.clone(), selection.clone());
    assert!(matches!(first_request, Some(OpenMapRequest::Download(_))));

    state.apply_map_downloaded(&mut session, &selection.package_name.clone(), Ok(selection.clone()));

    let second_request = state.begin_open_map(&selection.package_name.clone(), selection.clone());
    assert!(matches!(second_request, Some(OpenMapRequest::Local(_))));
}

// ── further cases ──

#[test]
fn a_downloaded_map_gets_one_layer_however_often_it_is_opened() {
    let mut state = CatalogueState::new();
    let mut session = AppState::new();
    let project = sample_project_with_remote_map();
    let selection = selection_for(&project, &project.maps[0], "/tmp/demo-map.sqlitedb");
    select(&mut state, project);

    let before = session.map_layer_count();
    state.apply_map_downloaded(&mut session, "demo-map", Ok(selection.clone()));
    assert_eq!(session.map_layer_count(), before + 1);
    assert_eq!(state.lizaalert_status(), "Opened map: Demo Project / demo-map");

    state.open_local_map_selection(&mut session, selection);
    assert_eq!(session.map_layer_count(), before + 1);
    assert_eq!(state.lizaalert_status(), "Opened cached map: Demo Project / demo-map (already registered)");
}

#[test]
fn a_failed_map_download_is_reported_and_registers_nothing() {
    let mut state = CatalogueState::new();
    let mut session = AppState::new();
    assert!(state.begin_download("demo-map"));
    let before = session.map_layer_count();
    state.apply_map_downloaded(&mut session, "demo-map", Err("connection reset".to_owned()));
    assert_eq!(session.map_layer_count(), before);
    assert_eq!(state.lizaalert_status(), "connection reset");
    assert_eq!(state.recent_diagnostics().last().unwrap().level(), DiagnosticLevel::Error);
    assert!(state.active_map().is_none());
    assert!(state.downloading_maps().is_empty());
}

#[test]
fn the_same_package_does_not_download_twice() {
    let mut state = CatalogueState::new();
    assert!(state.begin_download("topo"));
    assert!(state.begin_download("satellite"));
    assert!(!state.begin_download("topo"));
    assert_eq!(state.downloading_maps().len(), 2);
    assert_eq!(state.lizaalert_status(), "Downloading satellite...");
}

#[test]
fn an_ozi_map_opens_as_a_raster_with_its_own_layer() {
    let mut state = CatalogueState::new();
    let mut session = AppState::new();
    let before = session.map_layer_count();
    state.open_ozi_map_selection(&mut session, "Local OZI".to_owned(), "sheet.map".to_owned(), "/maps/sheet.map".to_owned());
    let active = state.active_map().expect("active map");
    assert_eq!(active.kind, ActiveMapKind::OziRaster);
    assert_eq!(active.remote_url, "");
    assert_eq!(active.base_zoom, 0);
    assert_eq!(session.map_layer_count(), before + 1);
    assert_eq!(state.lizaalert_status(), "Opened OZI map: Local OZI / sheet.map");
}

#[test]
fn the_diagnostics_keep_the_newest_two_hundred_lines() {
    let mut state = CatalogueState::new();
    for i in 0..250 {
        state.push_diagnostic(DiagnosticLevel::Info, format!("line {i}"));
    }
    let lines = state.recent_diagnostics();
    assert_eq!(lines.len(), 200);
    assert_eq!(lines[0].message(), "line 50");
    assert_eq!(lines[199].message(), "line 249");
}

#[test]
fn a_chunk_adds_only_searches_not_listed_yet() {
    let mut state = CatalogueState::new();
    state.apply_projects_chunk(vec![summary_for("a", "A"), summary_for("b", "B")]);
    state.apply_projects_chunk(vec![summary_for("b", "B again"), summary_for("c", "C"), summary_for("c", "C again")]);
    let slugs: Vec<&str> = state.projects().iter().map(|p| p.slug.as_str()).collect();
    assert_eq!(slugs, vec!["a", "b", "c"]);
    assert_eq!(state.projects()[1].name, "B");
}

#[test]
fn a_walk_can_be_stopped_only_while_it_runs() {
    let mut state = CatalogueState::new();
    assert!(!state.cancel_project_listing());
    assert!(state.begin_load_projects());
    assert!(state.cancel_project_listing());
    assert_eq!(state.lizaalert_status(), "Stopping the project list refresh...");
    state.apply_projects_loaded(Ok(CatalogueWalk { projects: vec![summary_for("a", "A")], cancelled: true }));
    assert_eq!(state.lizaalert_status(), "Stopped the refresh at 0 projects");
    assert!(!state.cancel_project_listing());
}

#[test]
fn opening_a_cached_bundle_says_so() {
    let mut state = state_with_demo_project();
    let summary = state.begin_load_project("2026-09-21_demo", true).expect("start");
    assert_eq!(summary.name, "Demo");
    assert_eq!(state.lizaalert_status(), "Opening cached project Demo...");
}

#[test]
fn runtime_reports_reach_the_diagnostics_but_not_the_status_line() {
    let mut state = CatalogueState::new();
    let status = state.lizaalert_status().to_owned();
    state.report_runtime_error("tile cache unreadable".to_owned());
    state.report_runtime_info("tile cache rebuilt".to_owned());
    assert_eq!(state.lizaalert_status(), status);
    let lines = state.recent_diagnostics();
    assert_eq!(lines[lines.len() - 2].level(), DiagnosticLevel::Error);
    assert_eq!(lines[lines.len() - 2].message(), "tile cache unreadable");
    assert_eq!(lines[lines.len() - 1].level(), DiagnosticLevel::Info);
}

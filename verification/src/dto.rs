use vstd::prelude::*;
use crate::application::{BundleEntry, DayExport, DiagnosticEntry, DiagnosticLevel, LizaMapPackage, LizaProjectSummary};
use crate::import::DirectoryImportReport;
use crate::layers::{TrackLayer, WaypointLayer};
use crate::paths::{file_name_of, path_file_name};

verus! {

/// One diagnostics line as the interface receives it.
#[derive(Debug, Clone)]
pub struct DiagnosticDto {
    pub level: &'static str,
    pub message: String,
}

#[derive(Debug, Clone)]
pub struct LayerSummaryDto {
    pub id: u64,
    pub name: String,
}

#[derive(Debug, Clone)]
pub struct LizaProjectSummaryDto {
    pub slug: String,
    pub name: String,
    /// Whether this bundle is already on disk and openable offline.
    pub cached: bool,
}

#[derive(Debug, Clone)]
pub struct BundleEntryDto {
    pub name: String,
    pub is_dir: bool,
    pub size_bytes: Option<u64>,
}

#[derive(Debug, Clone)]
pub struct LizaMapPackageDto {
    pub name: String,
    pub base_zoom: u8,
    pub downloaded: bool,
    /// Size in bytes when known; `None` is "unknown", not zero.
    pub size_bytes: Option<u64>,
}

/// Sent once, by whichever path owns a download, when it stops running.
#[derive(Debug, Clone)]
pub struct DownloadFinishedPayload {
    pub download_id: String,
    pub ok: bool,
    pub message: Option<String>,
}

/// What a folder import did, as counts and the names of the files it could
/// not read, for the interface to put in its own words.
#[derive(Debug, Clone)]
pub struct ImportReportDto {
    pub files: u32,
    pub tracks: u32,
    pub waypoints: u32,
    pub skipped: Vec<String>,
}

/// What a day's export wrote, so the interface can say it.
#[derive(Debug, Clone, Copy)]
pub struct DayExportDto {
    pub tracks: u32,
    pub waypoints: u32,
}

/// Where a report was written, and whether its screenshot is missing.
#[derive(Debug, Clone)]
pub struct ReportDto {
    pub path: String,
    pub screenshot_missing: bool,
}

pub open spec fn level_name(level: DiagnosticLevel) -> Seq<char> {
    match level {
        DiagnosticLevel::Info => "info"@,
        DiagnosticLevel::Warning => "warning"@,
        DiagnosticLevel::Error => "error"@,
    }
}

pub fn diagnostic_dto(entry: &DiagnosticEntry) -> (d: DiagnosticDto)
    ensures
        d.level@ == level_name(entry.level()),
        d.message@ == entry.message_view(),
{
    let level = match entry.level() {
        DiagnosticLevel::Info => "info",
        DiagnosticLevel::Warning => "warning",
        DiagnosticLevel::Error => "error",
    };
    DiagnosticDto { level, message: String::from_str(entry.message()) }
}

pub fn track_layer_summaries(layers: &[TrackLayer]) -> (s: Vec<LayerSummaryDto>)
    ensures
        s@.len() == layers@.len(),
        forall|i: int| #![trigger s@[i]] 0 <= i < layers@.len() ==> s@[i].id == layers@[i].id.0 && s@[i].name@ == layers@[i].name@,
{
    let mut s: Vec<LayerSummaryDto> = Vec::new();
    let mut i: usize = 0;
    while i < layers.len()
        invariant
            i <= layers@.len(),
            s@.len() == i,
            forall|k: int| #![trigger s@[k]] 0 <= k < i ==> s@[k].id == layers@[k].id.0 && s@[k].name@ == layers@[k].name@,
        decreases layers@.len() - i,
    {
        s.push(LayerSummaryDto { id: layers[i].id.0, name: layers[i].name.clone() });
        i = i + 1;
    }
    s
}

pub fn waypoint_layer_summaries(layers: &[WaypointLayer]) -> (s: Vec<LayerSummaryDto>)
    ensures
        s@.len() == layers@.len(),
        forall|i: int| #![trigger s@[i]] 0 <= i < layers@.len() ==> s@[i].id == layers@[i].id.0 && s@[i].name@ == layers@[i].name@,
{
    let mut s: Vec<LayerSummaryDto> = Vec::new();
    let mut i: usize = 0;
    while i < layers.len()
        invariant
            i <= layers@.len(),
            s@.len() == i,
            forall|k: int| #![trigger s@[k]] 0 <= k < i ==> s@[k].id == layers@[k].id.0 && s@[k].name@ == layers@[k].name@,
        decreases layers@.len() - i,
    {
        s.push(LayerSummaryDto { id: layers[i].id.0, name: layers[i].name.clone() });
        i = i + 1;
    }
    s
}

pub fn map_package_dto(m: &LizaMapPackage) -> (d: LizaMapPackageDto)
    ensures
        d.name@ == m.name@,
        d.base_zoom == m.base_zoom,
        d.downloaded == m.local_path.is_some(),
        d.size_bytes == m.size_bytes,
{
    LizaMapPackageDto { name: m.name.clone(), base_zoom: m.base_zoom, downloaded: m.local_path.is_some(), size_bytes: m.size_bytes }
}

pub fn bundle_entry_dto(e: &BundleEntry) -> (d: BundleEntryDto)
    ensures
        d.name@ == e.name@,
        d.is_dir == e.is_dir,
        d.size_bytes == e.size_bytes,
{
    BundleEntryDto { name: e.name.clone(), is_dir: e.is_dir, size_bytes: e.size_bytes }
}

pub fn day_export_dto(e: DayExport) -> (d: DayExportDto)
    ensures
        d.tracks == e.tracks as u32,
        d.waypoints == e.waypoints as u32,
{
    DayExportDto { tracks: e.tracks as u32, waypoints: e.waypoints as u32 }
}

fn contains_string(v: &Vec<String>, x: &String) -> (b: bool)
    ensures
        b == exists|k: int| 0 <= k < v@.len() && #[trigger] v@[k]@ == x@,
{
    let mut i: usize = 0;
    while i < v.len()
        invariant
            i <= v@.len(),
            forall|k: int| 0 <= k < i ==> #[trigger] v@[k]@ != x@,
        decreases v@.len() - i,
    {
        if v[i] == *x {
            assert(v@[i as int]@ == x@);
            return true;
        }
        i = i + 1;
    }
    false
}

/// The catalogue rows for the interface, each marked cached when its slug is
/// among the bundles already on disk.
pub fn to_project_summary_dtos(projects: &[LizaProjectSummary], cached: &Vec<String>) -> (d: Vec<LizaProjectSummaryDto>)
    ensures
        d@.len() == projects@.len(),
        forall|i: int| #![trigger d@[i]] 0 <= i < projects@.len() ==> {
            &&& d@[i].slug@ == projects@[i].slug@
            &&& d@[i].name@ == projects@[i].name@
            &&& d@[i].cached == exists|k: int| 0 <= k < cached@.len() && #[trigger] cached@[k]@ == projects@[i].slug@
        },
{
    let mut d: Vec<LizaProjectSummaryDto> = Vec::new();
    let mut i: usize = 0;
    while i < projects.len()
        invariant
            i <= projects@.len(),
            d@.len() == i,
            forall|j: int| #![trigger d@[j]] 0 <= j < i ==> {
                &&& d@[j].slug@ == projects@[j].slug@
                &&& d@[j].name@ == projects@[j].name@
                &&& d@[j].cached == exists|k: int| 0 <= k < cached@.len() && #[trigger] cached@[k]@ == projects@[j].slug@
            },
        decreases projects@.len() - i,
    {
        let p = &projects[i];
        let is_cached = contains_string(cached, &p.slug);
        d.push(LizaProjectSummaryDto { slug: p.slug.clone(), name: p.name.clone(), cached: is_cached });
        i = i + 1;
    }
    d
}

impl ImportReportDto {
    /// The counts of a folder import, and the file names (not the paths) of
    /// the files skipped, in order.
    pub fn from(report: DirectoryImportReport) -> (d: Self)
        ensures
            d.files == report.imported_files as u32,
            d.tracks == report.imported_tracks as u32,
            d.waypoints == report.imported_waypoints as u32,
            d.skipped@.len() == report.skipped@.len(),
            forall|i: int| 0 <= i < d.skipped@.len() ==> file_name_of(report.skipped@[i].0@, (#[trigger] d.skipped@[i])@),
    {
        let mut skipped: Vec<String> = Vec::new();
        let mut i: usize = 0;
        while i < report.skipped.len()
            invariant
                i <= report.skipped@.len(),
                skipped@.len() == i,
                forall|k: int| 0 <= k < i ==> file_name_of(report.skipped@[k].0@, (#[trigger] skipped@[k])@),
            decreases report.skipped@.len() - i,
        {
            skipped.push(path_file_name(report.skipped[i].0.as_str()));
            i = i + 1;
        }
        ImportReportDto {
            files: report.imported_files as u32,
            tracks: report.imported_tracks as u32,
            waypoints: report.imported_waypoints as u32,
            skipped,
        }
    }
}

} // verus!

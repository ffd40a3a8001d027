use vstd::prelude::*;
use crate::application::{
    ActiveMapKind, BundleEntry, DiagnosticEntry, DiagnosticLevel, LizaMapPackage, LizaProjectSummary, LoadProjectRefusal,
    ReadyBundleFile,
};
use crate::error::{decimal, push_decimal};
use crate::session::{AppState, has_map_source, map_registered};
use crate::project_layers::highest_layer_id;
use crate::paths::{bundle_dir_of_map, infer_bundle_dir_from_map_path, simple_path};
use crate::waypoint::opt_str_view;

verus! {

// ── what the catalogue holds ─────────────────────────────────────────────

pub struct SummaryV {
    pub slug: Seq<char>,
    pub name: Seq<char>,
    pub url: Seq<char>,
}

impl View for LizaProjectSummary {
    type V = SummaryV;

    open spec fn view(&self) -> SummaryV {
        SummaryV { slug: self.slug@, name: self.name@, url: self.url@ }
    }
}

pub struct PackageV {
    pub name: Seq<char>,
    pub file_name: Seq<char>,
    pub url: Seq<char>,
    pub base_zoom: u8,
    pub local_path: Option<Seq<char>>,
    pub size_bytes: Option<u64>,
}

impl View for LizaMapPackage {
    type V = PackageV;

    open spec fn view(&self) -> PackageV {
        PackageV {
            name: self.name@,
            file_name: self.file_name@,
            url: self.url@,
            base_zoom: self.base_zoom,
            local_path: crate::waypoint::opt_str_view(self.local_path),
            size_bytes: self.size_bytes,
        }
    }
}

pub struct EntryV {
    pub name: Seq<char>,
    pub is_dir: bool,
    pub size_bytes: Option<u64>,
}

impl View for BundleEntry {
    type V = EntryV;

    open spec fn view(&self) -> EntryV {
        EntryV { name: self.name@, is_dir: self.is_dir, size_bytes: self.size_bytes }
    }
}

/// A search with its maps: what previewing or downloading it reads. The
/// centre is the bits of the `f64` degrees.
#[derive(Debug, Clone)]
pub struct LizaProject {
    pub summary: LizaProjectSummary,
    pub center_lat: u64,
    pub center_lon: u64,
    pub maps: Vec<LizaMapPackage>,
    pub contents: Vec<BundleEntry>,
}

pub struct ProjectSheetV {
    pub summary: SummaryV,
    pub center_lat: u64,
    pub center_lon: u64,
    pub maps: Seq<PackageV>,
    pub contents: Seq<EntryV>,
}

pub open spec fn packages_view(v: Seq<LizaMapPackage>) -> Seq<PackageV> {
    v.map_values(|m: LizaMapPackage| m@)
}

pub open spec fn entries_view(v: Seq<BundleEntry>) -> Seq<EntryV> {
    v.map_values(|e: BundleEntry| e@)
}

impl View for LizaProject {
    type V = ProjectSheetV;

    open spec fn view(&self) -> ProjectSheetV {
        ProjectSheetV {
            summary: self.summary@,
            center_lat: self.center_lat,
            center_lon: self.center_lon,
            maps: packages_view(self.maps@),
            contents: entries_view(self.contents@),
        }
    }
}

/// The map the view is showing. The centre is the bits of the `f64` degrees.
#[derive(Debug, Clone)]
pub struct ActiveMapSelection {
    pub kind: ActiveMapKind,
    pub project_name: String,
    pub package_name: String,
    pub remote_url: String,
    pub local_path: String,
    pub center_lat: u64,
    pub center_lon: u64,
    pub base_zoom: u8,
}

pub struct SelectionV {
    pub kind: ActiveMapKind,
    pub project_name: Seq<char>,
    pub package_name: Seq<char>,
    pub remote_url: Seq<char>,
    pub local_path: Seq<char>,
    pub center_lat: u64,
    pub center_lon: u64,
    pub base_zoom: u8,
}

impl View for ActiveMapSelection {
    type V = SelectionV;

    open spec fn view(&self) -> SelectionV {
        SelectionV {
            kind: self.kind,
            project_name: self.project_name@,
            package_name: self.package_name@,
            remote_url: self.remote_url@,
            local_path: self.local_path@,
            center_lat: self.center_lat,
            center_lon: self.center_lon,
            base_zoom: self.base_zoom,
        }
    }
}

/// What a catalogue walk brought back: the searches it read, and whether it
/// was stopped before the end.
#[derive(Debug, Clone)]
pub struct CatalogueWalk {
    pub projects: Vec<LizaProjectSummary>,
    pub cancelled: bool,
}

/// The diagnostics panel keeps this many lines; the oldest go first.
pub const MAX_DIAGNOSTICS: usize = 200;

/// What the catalogue side of the application knows and is doing: the
/// searches listed, the one selected and its maps, the map on screen, the
/// status line and the diagnostics behind it, and which long operations run.
/// The walk, the downloads and the disk are outside; they report here.
#[derive(Debug)]
pub struct CatalogueState {
    projects: Vec<LizaProjectSummary>,
    selected_project_slug: Option<String>,
    selected_project: Option<LizaProject>,
    active_map: Option<ActiveMapSelection>,
    diagnostics: Vec<DiagnosticEntry>,
    status: String,
    listing_busy: bool,
    bundle_busy: bool,
    downloading: Vec<String>,
    ready_bundle_files: Vec<ReadyBundleFile>,
    listing_cancellable: bool,
}

pub struct CatalogueV {
    pub projects: Seq<SummaryV>,
    pub selected_slug: Option<Seq<char>>,
    pub selected: Option<ProjectSheetV>,
    pub active_map: Option<SelectionV>,
    pub diagnostics: Seq<(DiagnosticLevel, Seq<char>)>,
    pub status: Seq<char>,
    pub listing_busy: bool,
    pub bundle_busy: bool,
    pub downloading: Seq<Seq<char>>,
    pub ready: Seq<(Seq<char>, Seq<char>)>,
    pub listing_cancellable: bool,
}

pub open spec fn summaries_view(v: Seq<LizaProjectSummary>) -> Seq<SummaryV> {
    v.map_values(|s: LizaProjectSummary| s@)
}

pub open spec fn diagnostics_view(v: Seq<DiagnosticEntry>) -> Seq<(DiagnosticLevel, Seq<char>)> {
    v.map_values(|d: DiagnosticEntry| (d.level_spec(), d.message_view()))
}

pub open spec fn ready_view(v: Seq<ReadyBundleFile>) -> Seq<(Seq<char>, Seq<char>)> {
    v.map_values(|r: ReadyBundleFile| (r.package_name@, r.local_path@))
}

pub open spec fn opt_sheet_view(o: Option<LizaProject>) -> Option<ProjectSheetV> {
    match o {
        Some(p) => Some(p@),
        None => None,
    }
}

pub open spec fn opt_selection_view(o: Option<ActiveMapSelection>) -> Option<SelectionV> {
    match o {
        Some(s) => Some(s@),
        None => None,
    }
}

impl View for CatalogueState {
    type V = CatalogueV;

    closed spec fn view(&self) -> CatalogueV {
        CatalogueV {
            projects: summaries_view(self.projects@),
            selected_slug: crate::waypoint::opt_str_view(self.selected_project_slug),
            selected: opt_sheet_view(self.selected_project),
            active_map: opt_selection_view(self.active_map),
            diagnostics: diagnostics_view(self.diagnostics@),
            status: self.status@,
            listing_busy: self.listing_busy,
            bundle_busy: self.bundle_busy,
            downloading: crate::waypoint::strings_view(self.downloading@),
            ready: ready_view(self.ready_bundle_files@),
            listing_cancellable: self.listing_cancellable,
        }
    }
}

/// The diagnostics after one more line: the oldest dropped first when the
/// panel is full.
pub open spec fn push_line(d: Seq<(DiagnosticLevel, Seq<char>)>, level: DiagnosticLevel, message: Seq<char>) -> Seq<(DiagnosticLevel, Seq<char>)> {
    let kept = if d.len() >= MAX_DIAGNOSTICS { d.skip(d.len() - (MAX_DIAGNOSTICS - 1)) } else { d };
    kept.push((level, message))
}

/// A line in the diagnostics.
pub open spec fn with_line(c: CatalogueV, level: DiagnosticLevel, message: Seq<char>) -> CatalogueV {
    CatalogueV { diagnostics: push_line(c.diagnostics, level, message), ..c }
}

/// A new status line, also kept in the diagnostics.
pub open spec fn with_status(c: CatalogueV, level: DiagnosticLevel, message: Seq<char>) -> CatalogueV {
    CatalogueV { status: message, ..with_line(c, level, message) }
}

pub open spec fn first_greeting() -> Seq<char> {
    "Load projects from maps.lizaalert.ru"@
}

impl CatalogueState {
    /// Nothing listed, nothing running, and a status line that says what to
    /// do first.
    pub fn new() -> (c: Self)
        ensures
            c@ == (CatalogueV {
                projects: Seq::empty(),
                selected_slug: None,
                selected: None,
                active_map: None,
                diagnostics: seq![(DiagnosticLevel::Info, first_greeting())],
                status: first_greeting(),
                listing_busy: false,
                bundle_busy: false,
                downloading: Seq::empty(),
                ready: Seq::empty(),
                listing_cancellable: false,
            }),
    {
        let greeting = String::from_str("Load projects from maps.lizaalert.ru");
        let mut diagnostics: Vec<DiagnosticEntry> = Vec::new();
        diagnostics.push(DiagnosticEntry::new(DiagnosticLevel::Info, greeting.clone()));
        let c = CatalogueState {
            projects: Vec::new(),
            selected_project_slug: None,
            selected_project: None,
            active_map: None,
            diagnostics,
            status: greeting,
            listing_busy: false,
            bundle_busy: false,
            downloading: Vec::new(),
            ready_bundle_files: Vec::new(),
            listing_cancellable: false,
        };
        proof {
            assert(c@.projects =~= Seq::<SummaryV>::empty());
            assert(c@.diagnostics =~= seq![(DiagnosticLevel::Info, first_greeting())]);
            assert(c@.downloading =~= Seq::<Seq<char>>::empty());
            assert(c@.ready =~= Seq::<(Seq<char>, Seq<char>)>::empty());
        }
        c
    }

    /// Keep a line in the diagnostics, dropping the oldest when full.
    pub fn push_diagnostic(&mut self, level: DiagnosticLevel, message: String)
        ensures
            final(self)@ == with_line(old(self)@, level, message@),
    {
        let ghost d0 = old(self)@.diagnostics;
        while self.diagnostics.len() >= MAX_DIAGNOSTICS
            invariant
                self@ == (CatalogueV { diagnostics: self@.diagnostics, ..old(self)@ }),
                d0.len() >= MAX_DIAGNOSTICS ==> self@.diagnostics == d0.skip(d0.len() - self@.diagnostics.len()),
                d0.len() >= MAX_DIAGNOSTICS ==> MAX_DIAGNOSTICS - 1 <= self@.diagnostics.len(),
                d0.len() < MAX_DIAGNOSTICS ==> self@.diagnostics == d0,
                self@.diagnostics.len() <= d0.len(),
            decreases self.diagnostics.len(),
        {
            let ghost before = self@.diagnostics;
            let _oldest = self.diagnostics.remove(0);
            proof {
                assert(self@.diagnostics =~= before.skip(1));
                if d0.len() >= MAX_DIAGNOSTICS {
                    assert(d0.skip(d0.len() - before.len()).skip(1) =~= d0.skip(d0.len() - (before.len() - 1)));
                }
            }
        }
        let ghost before = self@.diagnostics;
        self.diagnostics.push(DiagnosticEntry::new(level, message));
        proof {
            assert(self@.diagnostics =~= before.push((level, message@)));
        }
    }

    /// Keep an error from elsewhere in the application in the diagnostics,
    /// without taking the status line.
    pub fn report_runtime_error(&mut self, message: String)
        ensures
            final(self)@ == with_line(old(self)@, DiagnosticLevel::Error, message@),
    {
        self.push_diagnostic(DiagnosticLevel::Error, message);
    }

    /// Keep a note from elsewhere in the application in the diagnostics,
    /// without taking the status line.
    pub fn report_runtime_info(&mut self, message: String)
        ensures
            final(self)@ == with_line(old(self)@, DiagnosticLevel::Info, message@),
    {
        self.push_diagnostic(DiagnosticLevel::Info, message);
    }

    /// Say something on the status line; it is kept in the diagnostics too.
    pub fn update_status(&mut self, level: DiagnosticLevel, message: String)
        ensures
            final(self)@ == with_status(old(self)@, level, message@),
    {
        self.status = message.clone();
        self.push_diagnostic(level, message);
    }

    pub fn lizaalert_status(&self) -> (s: &str)
        ensures
            s@ == self@.status,
    {
        self.status.as_str()
    }

    pub fn recent_diagnostics(&self) -> (d: &[DiagnosticEntry])
        ensures
            diagnostics_view(d@) == self@.diagnostics,
    {
        self.diagnostics.as_slice()
    }

    pub fn lizaalert_listing_busy(&self) -> (b: bool)
        ensures
            b == self@.listing_busy,
    {
        self.listing_busy
    }

    pub fn lizaalert_bundle_busy(&self) -> (b: bool)
        ensures
            b == self@.bundle_busy,
    {
        self.bundle_busy
    }

    pub fn projects(&self) -> (p: &[LizaProjectSummary])
        ensures
            summaries_view(p@) == self@.projects,
    {
        self.projects.as_slice()
    }

    pub fn current_project(&self) -> (p: Option<&LizaProject>)
        ensures
            match p {
                Some(x) => self@.selected == Some(x@),
                None => self@.selected is None,
            },
    {
        self.selected_project.as_ref()
    }

    pub fn selected_project_slug(&self) -> (s: Option<&String>)
        ensures
            match s {
                Some(x) => self@.selected_slug == Some(x@),
                None => self@.selected_slug is None,
            },
    {
        self.selected_project_slug.as_ref()
    }

    pub fn active_map(&self) -> (m: Option<&ActiveMapSelection>)
        ensures
            match m {
                Some(x) => self@.active_map == Some(x@),
                None => self@.active_map is None,
            },
    {
        self.active_map.as_ref()
    }

    /// The bundle directory in use: the selected search's own, when a search
    /// is selected (where its bundle is kept under the bundles root is the
    /// disk layout's business, so the caller hands it in); else the one the
    /// open map's file belongs to, found from its path; none when neither is
    /// there.
    pub fn active_bundle_dir(&self, bundles_root: &str, selected_bundle_dir: Option<&str>) -> (dir: Option<String>)
        ensures
            self@.selected is Some ==> opt_str_view(dir) == (match selected_bundle_dir {
                Some(d) => Some(d@),
                None => None,
            }),
            self@.selected is None && self@.active_map is None ==> dir is None,
            self@.selected is None ==> match self@.active_map {
                Some(m) => simple_path(m.local_path) && simple_path(bundles_root@) ==> opt_str_view(dir)
                    == bundle_dir_of_map(m.local_path, bundles_root@),
                None => true,
            },
    {
        if self.selected_project.is_some() {
            return match selected_bundle_dir {
                Some(d) => Some(String::from_str(d)),
                None => None,
            };
        }
        match &self.active_map {
            None => None,
            Some(m) => infer_bundle_dir_from_map_path(m.local_path.as_str(), bundles_root),
        }
    }

    pub fn downloading_maps(&self) -> (d: &[String])
        ensures
            crate::waypoint::strings_view(d@) == self@.downloading,
    {
        self.downloading.as_slice()
    }

    pub fn ready_bundle_files(&self) -> (r: &[ReadyBundleFile])
        ensures
            ready_view(r@) == self@.ready,
    {
        self.ready_bundle_files.as_slice()
    }
}


// ── finding a search by its slug ─────────────────────────────────────────

pub open spec fn is_first_slug(ps: Seq<SummaryV>, slug: Seq<char>, i: int) -> bool {
    &&& 0 <= i < ps.len()
    &&& ps[i].slug == slug
    &&& forall|j: int| 0 <= j < i ==> ps[j].slug != slug
}

/// Where the first search with this slug is listed.
pub open spec fn first_slug(ps: Seq<SummaryV>, slug: Seq<char>) -> Option<int> {
    if exists|i: int| is_first_slug(ps, slug, i) {
        Some(choose|i: int| is_first_slug(ps, slug, i))
    } else {
        None
    }
}

proof fn lemma_first_slug_some(ps: Seq<SummaryV>, slug: Seq<char>, i: int)
    requires
        is_first_slug(ps, slug, i),
    ensures
        first_slug(ps, slug) == Some(i),
{
    let c = choose|c: int| is_first_slug(ps, slug, c);
    assert(is_first_slug(ps, slug, c));
    if c < i {
        assert(ps[c].slug != slug);
    } else if c > i {
        assert(ps[i].slug != slug);
    }
}

fn copy_summary(s: &LizaProjectSummary) -> (c: LizaProjectSummary)
    ensures
        c@ == s@,
{
    LizaProjectSummary { slug: s.slug.clone(), name: s.name.clone(), url: s.url.clone() }
}

fn find_project(projects: &Vec<LizaProjectSummary>, slug: &String) -> (r: Option<usize>)
    ensures
        match r {
            Some(i) => i < projects.len() && first_slug(summaries_view(projects@), slug@) == Some(i as int),
            None => first_slug(summaries_view(projects@), slug@) is None,
        },
{
    let ghost ps = summaries_view(projects@);
    let mut i: usize = 0;
    while i < projects.len()
        invariant
            i <= projects.len(),
            ps == summaries_view(projects@),
            forall|j: int| 0 <= j < i ==> ps[j].slug != slug@,
        decreases projects.len() - i,
    {
        if projects[i].slug == *slug {
            proof {
                lemma_first_slug_some(ps, slug@, i as int);
            }
            return Some(i);
        }
        i = i + 1;
    }
    proof {
        if exists|k: int| is_first_slug(ps, slug@, k) {
            let k = choose|k: int| is_first_slug(ps, slug@, k);
            assert(ps[k].slug != slug@);
        }
    }
    None
}

/// The searches after a chunk of a walk lands: each one whose slug is not
/// listed yet joins the end, in the chunk's order.
pub open spec fn merge_chunk(ps: Seq<SummaryV>, chunk: Seq<SummaryV>) -> Seq<SummaryV>
    decreases chunk.len(),
{
    if chunk.len() == 0 {
        ps
    } else {
        let merged = merge_chunk(ps, chunk.drop_last());
        if first_slug(merged, chunk.last().slug) is Some { merged } else { merged.push(chunk.last()) }
    }
}

pub open spec fn loading_maps_text(name: Seq<char>) -> Seq<char> {
    "Loading maps: "@ + name
}

pub open spec fn opening_bundle_text(name: Seq<char>, cached: bool) -> Seq<char> {
    if cached { "Opening cached project "@ + name + "..."@ } else { "Downloading project "@ + name + "..."@ }
}

pub open spec fn walk_text(count: nat, cancelled: bool) -> Seq<char> {
    if cancelled {
        "Stopped the refresh at "@ + decimal(count) + " projects"@
    } else {
        "Loaded "@ + decimal(count) + " projects"@
    }
}

/// The state after a catalogue walk ends. A complete walk is the whole list
/// and replaces it; a stopped one read only a prefix and removes nothing.
/// Its count goes to the status line only when no download is reporting
/// there, and to the diagnostics either way.
pub open spec fn walk_landed(c: CatalogueV, walk: Result<(Seq<SummaryV>, bool), Seq<char>>) -> CatalogueV {
    let idle = CatalogueV { listing_busy: false, listing_cancellable: false, ..c };
    match walk {
        Err(e) => with_status(idle, DiagnosticLevel::Error, e),
        Ok((projects, cancelled)) => {
            let listed = if cancelled { idle } else { CatalogueV { projects, ..idle } };
            let text = walk_text(listed.projects.len(), cancelled);
            if listed.downloading.len() == 0 {
                with_status(listed, DiagnosticLevel::Info, text)
            } else {
                with_line(listed, DiagnosticLevel::Info, text)
            }
        },
    }
}

impl CatalogueState {
    /// Start a catalogue walk, unless one is running. When it starts, the
    /// walk can be stopped until it reports back.
    pub fn begin_load_projects(&mut self) -> (started: bool)
        ensures
            started == !old(self)@.listing_busy,
            started ==> final(self)@ == with_status(
                CatalogueV { listing_busy: true, listing_cancellable: true, ..old(self)@ },
                DiagnosticLevel::Info,
                "Loading project list..."@,
            ),
            !started ==> final(self)@ == old(self)@,
    {
        if self.listing_busy {
            return false;
        }
        self.listing_busy = true;
        self.listing_cancellable = true;
        self.update_status(DiagnosticLevel::Info, String::from_str("Loading project list..."));
        true
    }

    /// Ask the running walk to stop; false when there is none to stop.
    pub fn cancel_project_listing(&mut self) -> (stopping: bool)
        ensures
            stopping == old(self)@.listing_cancellable,
            stopping ==> final(self)@ == with_status(old(self)@, DiagnosticLevel::Info, "Stopping the project list refresh..."@),
            !stopping ==> final(self)@ == old(self)@,
    {
        if !self.listing_cancellable {
            return false;
        }
        self.update_status(DiagnosticLevel::Info, String::from_str("Stopping the project list refresh..."));
        true
    }

    /// Select a search to preview its maps. A preview is read-only and is
    /// not held back by a walk or a download; an unknown slug changes
    /// nothing.
    pub fn preview_data(&mut self, project_slug: &str) -> (r: Option<LizaProjectSummary>)
        ensures
            match first_slug(old(self)@.projects, project_slug@) {
                None => r is None && final(self)@ == old(self)@,
                Some(i) => {
                    let p = old(self)@.projects[i];
                    &&& r matches Some(s) && s@ == p
                    &&& final(self)@ == with_status(
                        CatalogueV { selected_slug: Some(p.slug), ..old(self)@ },
                        DiagnosticLevel::Info,
                        loading_maps_text(p.name),
                    )
                },
            },
    {
        let key = String::from_str(project_slug);
        let i = match find_project(&self.projects, &key) {
            Some(i) => i,
            None => return None,
        };
        let summary = copy_summary(&self.projects[i]);
        self.selected_project_slug = Some(summary.slug.clone());
        let mut text = String::from_str("Loading maps: ");
        text.append(summary.name.as_str());
        self.update_status(DiagnosticLevel::Info, text);
        Some(summary)
    }

    /// Start opening a search's bundle, or say why not: another bundle is
    /// being opened, or the search is not listed. `cached` says whether the
    /// bundle is already on disk, which only changes what the status says.
    pub fn begin_load_project(&mut self, project_slug: &str, cached: bool) -> (r: Result<LizaProjectSummary, LoadProjectRefusal>)
        ensures
            old(self)@.bundle_busy ==> r == Err::<LizaProjectSummary, LoadProjectRefusal>(LoadProjectRefusal::Busy) && final(self)@ == old(self)@,
            !old(self)@.bundle_busy ==> match first_slug(old(self)@.projects, project_slug@) {
                None => r == Err::<LizaProjectSummary, LoadProjectRefusal>(LoadProjectRefusal::UnknownProject) && final(self)@ == old(self)@,
                Some(i) => {
                    let p = old(self)@.projects[i];
                    &&& r matches Ok(s) && s@ == p
                    &&& final(self)@ == with_status(
                        CatalogueV { bundle_busy: true, ready: Seq::empty(), ..old(self)@ },
                        DiagnosticLevel::Info,
                        opening_bundle_text(p.name, cached),
                    )
                },
            },
    {
        if self.bundle_busy {
            return Err(LoadProjectRefusal::Busy);
        }
        let key = String::from_str(project_slug);
        let i = match find_project(&self.projects, &key) {
            Some(i) => i,
            None => return Err(LoadProjectRefusal::UnknownProject),
        };
        let summary = copy_summary(&self.projects[i]);
        self.bundle_busy = true;
        self.ready_bundle_files.clear();
        let text = if cached {
            let mut t = String::from_str("Opening cached project ");
            t.append(summary.name.as_str());
            t.append("...");
            t
        } else {
            let mut t = String::from_str("Downloading project ");
            t.append(summary.name.as_str());
            t.append("...");
            t
        };
        proof {
            assert(ready_view(self.ready_bundle_files@) =~= Seq::<(Seq<char>, Seq<char>)>::empty());
        }
        self.update_status(DiagnosticLevel::Info, text);
        Ok(summary)
    }

    /// Start opening a bundle from a directory, unless a bundle is already
    /// being opened.
    pub fn begin_open_local_bundle(&mut self, dir: &str) -> (started: bool)
        ensures
            started == !old(self)@.bundle_busy,
            started ==> final(self)@ == with_status(
                CatalogueV { bundle_busy: true, ..old(self)@ },
                DiagnosticLevel::Info,
                "Opening local bundle: "@ + dir@,
            ),
            !started ==> final(self)@ == old(self)@,
    {
        if self.bundle_busy {
            return false;
        }
        self.bundle_busy = true;
        let mut text = String::from_str("Opening local bundle: ");
        text.append(dir);
        self.update_status(DiagnosticLevel::Info, text);
        true
    }

    /// A catalogue walk ended; see `walk_landed`.
    pub fn apply_projects_loaded(&mut self, result: Result<CatalogueWalk, String>)
        ensures
            final(self)@ == walk_landed(old(self)@, match result {
                Ok(w) => Ok((summaries_view(w.projects@), w.cancelled)),
                Err(e) => Err(e@),
            }),
    {
        self.listing_busy = false;
        self.listing_cancellable = false;
        match result {
            Ok(walk) => {
                if !walk.cancelled {
                    self.projects = walk.projects;
                }
                let count = self.projects.len();
                let mut text = if walk.cancelled {
                    String::from_str("Stopped the refresh at ")
                } else {
                    String::from_str("Loaded ")
                };
                push_decimal(&mut text, count as u64);
                text.append(" projects");
                if self.downloading.len() == 0 {
                    self.update_status(DiagnosticLevel::Info, text);
                } else {
                    self.push_diagnostic(DiagnosticLevel::Info, text);
                }
            },
            Err(error) => {
                self.update_status(DiagnosticLevel::Error, error);
            },
        }
    }

    /// Part of a walk landed: searches not listed yet join the list.
    pub fn apply_projects_chunk(&mut self, chunk: Vec<LizaProjectSummary>)
        ensures
            final(self)@ == (CatalogueV { projects: merge_chunk(old(self)@.projects, summaries_view(chunk@)), ..old(self)@ }),
    {
        let ghost cv = summaries_view(chunk@);
        let mut i: usize = 0;
        while i < chunk.len()
            invariant
                i <= chunk.len(),
                cv == summaries_view(chunk@),
                self@ == (CatalogueV { projects: merge_chunk(old(self)@.projects, cv.take(i as int)), ..old(self)@ }),
            decreases chunk.len() - i,
        {
            proof {
                assert(cv.take(i as int + 1).drop_last() =~= cv.take(i as int));
                assert(cv.take(i as int + 1).last() == cv[i as int]);
            }
            let candidate = copy_summary(&chunk[i]);
            match find_project(&self.projects, &candidate.slug) {
                Some(_) => {},
                None => {
                    let ghost before = self@.projects;
                    self.projects.push(candidate);
                    proof {
                        assert(self@.projects =~= before.push(cv[i as int]));
                    }
                },
            }
            i = i + 1;
        }
        proof {
            assert(cv.take(i as int) =~= cv);
        }
    }
}


// ── reports from the outside ─────────────────────────────────────────────

pub open spec fn loaded_text(name: Seq<char>) -> Seq<char> {
    "Loaded project: "@ + name
}

/// The part of a bundle-relative path after its last `/`: the bare file
/// name a map package is listed under.
pub open spec fn landed_name(s: Seq<char>) -> Seq<char> {
    if exists|k: int| 0 <= k < s.len() && s[k] == '/' {
        let k = choose|k: int| 0 <= k < s.len() && s[k] == '/' && forall|j: int| k < j < s.len() ==> s[j] != '/';
        s.subrange(k + 1, s.len() as int)
    } else {
        s
    }
}

proof fn lemma_last_slash(s: Seq<char>, k: int)
    requires
        0 <= k < s.len(),
        s[k] == '/',
        forall|j: int| k < j < s.len() ==> s[j] != '/',
    ensures
        landed_name(s) == s.subrange(k + 1, s.len() as int),
{
    let c = choose|c: int| 0 <= c < s.len() && s[c] == '/' && forall|j: int| c < j < s.len() ==> s[j] != '/';
    assert(0 <= c < s.len() && s[c] == '/' && forall|j: int| c < j < s.len() ==> s[j] != '/');
    if c < k {
        assert(s[k] != '/');
    } else if c > k {
        assert(s[c] != '/');
    }
}

fn landed_name_exec(s: &str) -> (r: String)
    ensures
        r@ == landed_name(s@),
{
    let n = s.unicode_len();
    let mut i: usize = n;
    while i > 0
        invariant
            n == s@.len(),
            i <= n,
            forall|j: int| i <= j < n ==> s@[j] != '/',
        ensures
            i <= n,
            forall|j: int| i <= j < n ==> s@[j] != '/',
            i > 0 ==> s@[i - 1] == '/',
        decreases i,
    {
        if s.get_char(i - 1) == '/' {
            break;
        }
        i = i - 1;
    }
    if i == 0 {
        return String::from_str(s);
    }
    proof {
        lemma_last_slash(s@, i - 1);
    }
    String::from_str(s.substring_char(i, n))
}

/// The maps with `file_name` now on disk at `local_path`.
pub open spec fn maps_landed(maps: Seq<PackageV>, file_name: Seq<char>, local_path: Seq<char>) -> Seq<PackageV> {
    Seq::new(maps.len(), |i: int| if maps[i].file_name == file_name { PackageV { local_path: Some(local_path), ..maps[i] } } else { maps[i] })
}

/// The first map listed under `name`.
pub open spec fn first_map(maps: Seq<PackageV>, name: Seq<char>) -> Option<int> {
    if exists|i: int| 0 <= i < maps.len() && maps[i].name == name {
        Some(choose|i: int| 0 <= i < maps.len() && maps[i].name == name && forall|j: int| 0 <= j < i ==> maps[j].name != name)
    } else {
        None
    }
}

proof fn lemma_first_map(maps: Seq<PackageV>, name: Seq<char>, i: int)
    requires
        0 <= i < maps.len(),
        maps[i].name == name,
        forall|j: int| 0 <= j < i ==> maps[j].name != name,
    ensures
        first_map(maps, name) == Some(i),
{
    let c = choose|c: int| 0 <= c < maps.len() && maps[c].name == name && forall|j: int| 0 <= j < c ==> maps[j].name != name;
    assert(0 <= c < maps.len() && maps[c].name == name && forall|j: int| 0 <= j < c ==> maps[j].name != name);
    if c < i {
        assert(maps[c].name != name);
    } else if c > i {
        assert(maps[i].name != name);
    }
}

/// The selected search with its first map named `name` now on disk.
pub open spec fn map_downloaded(sel: Option<ProjectSheetV>, name: Seq<char>, local_path: Seq<char>) -> Option<ProjectSheetV> {
    match sel {
        None => None,
        Some(p) => match first_map(p.maps, name) {
            None => Some(p),
            Some(i) => Some(ProjectSheetV { maps: p.maps.update(i, PackageV { local_path: Some(local_path), ..p.maps[i] }), ..p }),
        },
    }
}

/// The package names without `name`.
pub open spec fn without_name(d: Seq<Seq<char>>, name: Seq<char>) -> Seq<Seq<char>>
    decreases d.len(),
{
    if d.len() == 0 {
        d
    } else {
        let rest = without_name(d.drop_last(), name);
        if d.last() == name { rest } else { rest.push(d.last()) }
    }
}

/// A search sheet, or the reader's message.
pub open spec fn sheet_result(r: Result<LizaProject, String>) -> Result<ProjectSheetV, Seq<char>> {
    match r {
        Ok(p) => Ok(p@),
        Err(e) => Err(e@),
    }
}

/// The state after the preview of `slug` answers. Only the preview of the
/// search still selected lands; an older one changes nothing, its failure
/// included. It holds no flag and releases none.
pub open spec fn preview_landed(c: CatalogueV, slug: Seq<char>, r: Result<ProjectSheetV, Seq<char>>) -> CatalogueV {
    if c.selected_slug != Some(slug) {
        c
    } else {
        match r {
            Ok(p) => with_status(CatalogueV { selected: Some(p), ..c }, DiagnosticLevel::Info, loaded_text(p.summary.name)),
            Err(e) => with_status(c, DiagnosticLevel::Error, e),
        }
    }
}

/// The state after a bundle finished opening, or failed to: the bundle flag
/// is released either way, and an opened search becomes the selected one.
pub open spec fn bundle_landed(c: CatalogueV, r: Result<ProjectSheetV, Seq<char>>) -> CatalogueV {
    match r {
        Ok(p) => with_status(
            CatalogueV { bundle_busy: false, selected_slug: Some(p.summary.slug), selected: Some(p), ..c },
            DiagnosticLevel::Info,
            loaded_text(p.summary.name),
        ),
        Err(e) => with_status(CatalogueV { bundle_busy: false, ..c }, DiagnosticLevel::Error, e),
    }
}

impl CatalogueState {
    /// A preview answered. Only the preview of the search still selected may
    /// land: an older one, answering late, changes nothing, and its failure
    /// is not reported. A preview never holds the bundle flag, so it does not
    /// release it.
    pub fn apply_preview_loaded(&mut self, slug: &str, result: Result<LizaProject, String>)
        ensures
            final(self)@ == preview_landed(old(self)@, slug@, sheet_result(result)),
    {
        let key = String::from_str(slug);
        let current = match &self.selected_project_slug {
            Some(s) => *s == key,
            None => false,
        };
        if !current {
            return;
        }
        match result {
            Ok(project) => {
                let mut text = String::from_str("Loaded project: ");
                text.append(project.summary.name.as_str());
                self.selected_project = Some(project);
                self.update_status(DiagnosticLevel::Info, text);
            },
            Err(error) => {
                self.update_status(DiagnosticLevel::Error, error);
            },
        }
    }

    /// A bundle finished opening, or failed to: the bundle flag is released
    /// either way.
    pub fn apply_project_loaded(&mut self, result: Result<LizaProject, String>)
        ensures
            final(self)@ == bundle_landed(old(self)@, sheet_result(result)),
    {
        self.bundle_busy = false;
        match result {
            Ok(project) => {
                let mut text = String::from_str("Loaded project: ");
                text.append(project.summary.name.as_str());
                self.selected_project_slug = Some(project.summary.slug.clone());
                self.selected_project = Some(project);
                self.update_status(DiagnosticLevel::Info, text);
            },
            Err(error) => {
                self.update_status(DiagnosticLevel::Error, error);
            },
        }
    }

    /// A long operation says how far it has got.
    pub fn apply_progress(&mut self, message: String)
        ensures
            final(self)@ == with_status(old(self)@, DiagnosticLevel::Info, message@),
    {
        self.update_status(DiagnosticLevel::Info, message);
    }

    /// A file of the bundle being downloaded is on disk. It is kept as
    /// ready, and a listed map whose file name is the file's own name (the
    /// part after the last `/`, not a suffix of it) is now local.
    pub fn note_bundle_file_ready(&mut self, package_name: &str, local_path: &str)
        ensures
            final(self)@ == with_status(
                CatalogueV {
                    ready: old(self)@.ready.push((package_name@, local_path@)),
                    selected: match old(self)@.selected {
                        Some(p) => Some(ProjectSheetV { maps: maps_landed(p.maps, landed_name(package_name@), local_path@), ..p }),
                        None => None,
                    },
                    ..old(self)@
                },
                DiagnosticLevel::Info,
                "Ready: "@ + package_name@,
            ),
    {
        let ghost r0 = self@.ready;
        self.ready_bundle_files.push(ReadyBundleFile { package_name: String::from_str(package_name), local_path: String::from_str(local_path) });
        proof {
            assert(self@.ready =~= r0.push((package_name@, local_path@)));
        }
        let landed = landed_name_exec(package_name);
        match self.selected_project.take() {
            Some(mut project) => {
                let mut maps: Vec<LizaMapPackage> = Vec::new();
                std::mem::swap(&mut maps, &mut project.maps);
                let ghost m0 = packages_view(maps@);
                let mut i: usize = 0;
                while i < maps.len()
                    invariant
                        i <= maps.len(),
                        m0.len() == maps.len(),
                        forall|j: int| 0 <= j < i ==> #[trigger] packages_view(maps@)[j] == maps_landed(m0, landed@, local_path@)[j],
                        forall|j: int| i <= j < maps.len() ==> #[trigger] packages_view(maps@)[j] == m0[j],
                    decreases maps.len() - i,
                {
                    let ghost before = maps@;
                    proof {
                        assert(packages_view(before)[i as int] == before[i as int]@);
                    }
                    if maps[i].file_name == landed {
                        let mut map = maps[i].clone_package();
                        map.local_path = Some(String::from_str(local_path));
                        maps.set(i, map);
                        proof {
                            assert(maps@ == before.update(i as int, map));
                            assert forall|j: int| 0 <= j < maps.len() implies #[trigger] packages_view(maps@)[j] == (if j == i { map@ } else { packages_view(before)[j] }) by {
                                assert(packages_view(maps@)[j] == maps@[j]@);
                                assert(packages_view(before)[j] == before[j]@);
                            }
                        }
                    }
                    i = i + 1;
                }
                proof {
                    assert(packages_view(maps@) =~= maps_landed(m0, landed@, local_path@));
                }
                project.maps = maps;
                self.selected_project = Some(project);
            },
            None => {},
        }
        let mut text = String::from_str("Ready: ");
        text.append(package_name);
        self.update_status(DiagnosticLevel::Info, text);
    }

    /// Start downloading a map package, unless it is already downloading;
    /// different packages may download side by side.
    pub fn begin_download(&mut self, package_name: &str) -> (started: bool)
        ensures
            started == !old(self)@.downloading.contains(package_name@),
            started ==> final(self)@ == with_status(
                CatalogueV { downloading: old(self)@.downloading.push(package_name@), ..old(self)@ },
                DiagnosticLevel::Info,
                "Downloading "@ + package_name@ + "..."@,
            ),
            !started ==> final(self)@ == old(self)@,
    {
        let name = String::from_str(package_name);
        if crate::waypoint::contains_string(&self.downloading, &name) {
            return false;
        }
        let ghost d0 = self@.downloading;
        self.downloading.push(name);
        proof {
            assert(self@.downloading =~= d0.push(package_name@));
        }
        let mut text = String::from_str("Downloading ");
        text.append(package_name);
        text.append("...");
        self.update_status(DiagnosticLevel::Info, text);
        true
    }

    fn stop_download(&mut self, package_name: &str)
        ensures
            final(self)@ == (CatalogueV { downloading: without_name(old(self)@.downloading, package_name@), ..old(self)@ }),
    {
        let name = String::from_str(package_name);
        let ghost d0 = self@.downloading;
        let mut old_list: Vec<String> = Vec::new();
        std::mem::swap(&mut self.downloading, &mut old_list);
        proof {
            assert(crate::waypoint::strings_view(self.downloading@) =~= Seq::<Seq<char>>::empty());
        }
        let mut kept: Vec<String> = Vec::new();
        let mut i: usize = 0;
        while i < old_list.len()
            invariant
                i <= old_list.len(),
                d0 == crate::waypoint::strings_view(old_list@),
                name@ == package_name@,
                self@ == (CatalogueV { downloading: Seq::empty(), ..old(self)@ }),
                crate::waypoint::strings_view(kept@) == without_name(d0.take(i as int), package_name@),
            decreases old_list.len() - i,
        {
            proof {
                assert(d0.take(i as int + 1).drop_last() =~= d0.take(i as int));
                assert(d0.take(i as int + 1).last() == d0[i as int]);
                assert(d0[i as int] == old_list@[i as int]@);
            }
            let same = old_list[i] == name;
            if !same {
                let ghost before = crate::waypoint::strings_view(kept@);
                kept.push(old_list[i].clone());
                proof {
                    assert(crate::waypoint::strings_view(kept@) =~= before.push(d0[i as int]));
                }
            }
            proof {
                assert(same == (d0[i as int] == package_name@));
                let t = d0.take(i as int + 1);
                assert(without_name(t, package_name@) == (if t.last() == package_name@ { without_name(t.drop_last(), package_name@) } else { without_name(t.drop_last(), package_name@).push(t.last()) }));
            }
            i = i + 1;
        }
        proof {
            assert(d0.take(i as int) =~= d0);
        }
        self.downloading = kept;
    }
}

fn find_map(maps: &Vec<LizaMapPackage>, name: &String) -> (r: Option<usize>)
    ensures
        match r {
            Some(i) => i < maps.len() && first_map(packages_view(maps@), name@) == Some(i as int),
            None => first_map(packages_view(maps@), name@) is None,
        },
{
    let ghost m0 = packages_view(maps@);
    let mut i: usize = 0;
    while i < maps.len()
        invariant
            i <= maps.len(),
            m0 == packages_view(maps@),
            forall|j: int| 0 <= j < i ==> m0[j].name != name@,
        decreases maps.len() - i,
    {
        proof {
            assert(m0[i as int] == maps@[i as int]@);
        }
        if maps[i].name == *name {
            proof {
                lemma_first_map(m0, name@, i as int);
            }
            return Some(i);
        }
        i = i + 1;
    }
    proof {
        if exists|k: int| 0 <= k < m0.len() && m0[k].name == name@ {
            let k = choose|k: int| 0 <= k < m0.len() && m0[k].name == name@;
            assert(m0[k].name != name@);
        }
    }
    None
}

/// How a map asked for is to be opened: from disk at once, or after its
/// download.
#[derive(Debug, Clone)]
pub enum OpenMapRequest {
    Local(ActiveMapSelection),
    Download(ActiveMapSelection),
}

/// What asking to open the selected search's map `map_name` does, given the
/// selection it opens as: nothing without such a map, or when its package is
/// already downloading; a map on disk opens at once; otherwise its download
/// starts.
pub open spec fn open_map_outcome(c: CatalogueV, map_name: Seq<char>, selection: SelectionV) -> (CatalogueV, Option<(bool, SelectionV)>) {
    match c.selected {
        None => (c, None),
        Some(p) => match first_map(p.maps, map_name) {
            None => (c, None),
            Some(i) => if p.maps[i].local_path is Some {
                (c, Some((true, selection)))
            } else if c.downloading.contains(selection.package_name) {
                (c, None)
            } else {
                (
                    with_status(
                        CatalogueV { downloading: c.downloading.push(selection.package_name), ..c },
                        DiagnosticLevel::Info,
                        "Downloading "@ + selection.package_name + "..."@,
                    ),
                    Some((false, selection)),
                )
            },
        },
    }
}

/// The layer name an opened map is registered under.
pub open spec fn map_layer_name(sel: SelectionV) -> Seq<char> {
    sel.project_name + " / "@ + sel.package_name
}

/// What the status line says when a map is opened: `prefix`, the search and
/// the package, and a note when its layer was already there.
pub open spec fn opened_text(prefix: Seq<char>, sel: SelectionV, added: bool) -> Seq<char> {
    if added { prefix + map_layer_name(sel) } else { prefix + map_layer_name(sel) + " (already registered)"@ }
}

/// What opening a map needs of the session: room for one more undoable step
/// and one more layer number.
pub open spec fn can_register(st: crate::session::SessionV) -> bool {
    &&& st.history.mutation_count < u64::MAX
    &&& highest_layer_id(st.project) < u64::MAX
}

fn layer_name_exec(sel: &ActiveMapSelection) -> (n: String)
    ensures
        n@ == map_layer_name(sel@),
{
    let mut n = sel.project_name.clone();
    n.append(" / ");
    n.append(sel.package_name.as_str());
    n
}

fn opened_text_exec(prefix: &str, sel: &ActiveMapSelection, added: bool) -> (t: String)
    ensures
        t@ == opened_text(prefix@, sel@, added),
{
    let mut t = String::from_str(prefix);
    let name = layer_name_exec(sel);
    t.append(name.as_str());
    if !added {
        t.append(" (already registered)");
    }
    t
}

impl CatalogueState {
    /// Mark the first map of the selected search named `name` as on disk at
    /// `local_path`.
    fn mark_map_local(&mut self, name: &String, local_path: &String)
        ensures
            final(self)@ == (CatalogueV { selected: map_downloaded(old(self)@.selected, name@, local_path@), ..old(self)@ }),
    {
        match self.selected_project.take() {
            Some(mut project) => {
                match find_map(&project.maps, name) {
                    Some(i) => {
                        let ghost m0 = packages_view(project.maps@);
                        let mut map = project.maps[i].clone_package();
                        map.local_path = Some(local_path.clone());
                        project.maps.set(i, map);
                        proof {
                            assert(packages_view(project.maps@) =~= m0.update(i as int, PackageV { local_path: Some(local_path@), ..m0[i as int] }));
                        }
                    },
                    None => {},
                }
                self.selected_project = Some(project);
            },
            None => {},
        }
    }

    /// Ask to open the selected search's map `map_name`, which opens as
    /// `selection`; see `open_map_outcome`. Different packages may download
    /// side by side.
    pub fn begin_open_map(&mut self, map_name: &str, selection: ActiveMapSelection) -> (r: Option<OpenMapRequest>)
        ensures
            final(self)@ == open_map_outcome(old(self)@, map_name@, selection@).0,
            match (r, open_map_outcome(old(self)@, map_name@, selection@).1) {
                (None, None) => true,
                (Some(OpenMapRequest::Local(s)), Some((true, sel))) => s@ == sel,
                (Some(OpenMapRequest::Download(s)), Some((false, sel))) => s@ == sel,
                _ => false,
            },
    {
        let name = String::from_str(map_name);
        let local = match &self.selected_project {
            None => return None,
            Some(project) => match find_map(&project.maps, &name) {
                None => return None,
                Some(i) => project.maps[i].local_path.is_some(),
            },
        };
        if local {
            return Some(OpenMapRequest::Local(selection));
        }
        if self.begin_download(selection.package_name.as_str()) {
            Some(OpenMapRequest::Download(selection))
        } else {
            None
        }
    }

    /// Put a search in the list directly, as a test fixture would.
    pub fn push_project_summary_for_test(&mut self, summary: LizaProjectSummary)
        ensures
            final(self)@ == (CatalogueV { projects: old(self)@.projects.push(summary@), ..old(self)@ }),
    {
        let ghost p0 = self@.projects;
        self.projects.push(summary);
        proof {
            assert(self@.projects =~= p0.push(summary@));
        }
    }

    /// A map package finished downloading, or failed to. It is no longer
    /// downloading either way. On success the selected search's map of that
    /// name is now local, the map gets its layer in the session (unless one
    /// was opened from that file already), and it is the map on screen.
    pub fn apply_map_downloaded(&mut self, session: &mut AppState, package_name: &str, result: Result<ActiveMapSelection, String>)
        requires
            old(session).wf(),
            can_register(old(session)@),
        ensures
            final(session).wf(),
            final(self)@ == match result {
                Err(e) => with_status(
                    CatalogueV { downloading: without_name(old(self)@.downloading, package_name@), ..old(self)@ },
                    DiagnosticLevel::Error,
                    e@,
                ),
                Ok(sel) => with_status(
                    CatalogueV {
                        downloading: without_name(old(self)@.downloading, package_name@),
                        selected: map_downloaded(old(self)@.selected, sel.package_name@, sel.local_path@),
                        active_map: Some(sel@),
                        ..old(self)@
                    },
                    DiagnosticLevel::Info,
                    opened_text("Opened map: "@, sel@, !has_map_source(old(session)@.project, sel.local_path@)),
                ),
            },
            final(session)@ == match result {
                Err(_) => old(session)@,
                Ok(sel) => map_registered(old(session)@, map_layer_name(sel@), sel.local_path@),
            },
    {
        self.stop_download(package_name);
        match result {
            Ok(selection) => {
                self.mark_map_local(&selection.package_name, &selection.local_path);
                let added = session.register_map_layer(layer_name_exec(&selection), selection.local_path.clone());
                let text = opened_text_exec("Opened map: ", &selection, added);
                self.active_map = Some(selection);
                self.update_status(DiagnosticLevel::Info, text);
            },
            Err(error) => {
                self.update_status(DiagnosticLevel::Error, error);
            },
        }
    }

    /// Open a map that is already on disk: it gets its layer in the session
    /// (unless one was opened from that file already) and is the map on
    /// screen.
    pub fn open_local_map_selection(&mut self, session: &mut AppState, selection: ActiveMapSelection)
        requires
            old(session).wf(),
            can_register(old(session)@),
        ensures
            final(session).wf(),
            final(session)@ == map_registered(old(session)@, map_layer_name(selection@), selection.local_path@),
            final(self)@ == with_status(
                CatalogueV { active_map: Some(selection@), ..old(self)@ },
                DiagnosticLevel::Info,
                opened_text("Opened cached map: "@, selection@, !has_map_source(old(session)@.project, selection.local_path@)),
            ),
    {
        let added = session.register_map_layer(layer_name_exec(&selection), selection.local_path.clone());
        let text = opened_text_exec("Opened cached map: ", &selection, added);
        self.active_map = Some(selection);
        self.update_status(DiagnosticLevel::Info, text);
    }

    /// Open an OZI map whose calibration was read and whose picture the view
    /// can show: an OZI-raster selection with no address, centre or zoom of
    /// its own, registered in the session like any other map.
    pub fn open_ozi_map_selection(&mut self, session: &mut AppState, project_name: String, package_name: String, map_path: String)
        requires
            old(session).wf(),
            can_register(old(session)@),
        ensures
            final(session).wf(),
            final(session)@ == map_registered(old(session)@, project_name@ + " / "@ + package_name@, map_path@),
            final(self)@ == with_status(
                CatalogueV {
                    active_map: Some(SelectionV {
                        kind: ActiveMapKind::OziRaster,
                        project_name: project_name@,
                        package_name: package_name@,
                        remote_url: Seq::empty(),
                        local_path: map_path@,
                        center_lat: 0,
                        center_lon: 0,
                        base_zoom: 0,
                    }),
                    ..old(self)@
                },
                DiagnosticLevel::Info,
                "Opened OZI map: "@ + project_name@ + " / "@ + package_name@,
            ),
    {
        let selection = ActiveMapSelection {
            kind: ActiveMapKind::OziRaster,
            project_name,
            package_name,
            remote_url: String::new(),
            local_path: map_path,
            center_lat: 0,
            center_lon: 0,
            base_zoom: 0,
        };
        proof {
            assert(selection.remote_url@ =~= Seq::<char>::empty());
        }
        let _added = session.register_map_layer(layer_name_exec(&selection), selection.local_path.clone());
        let mut text = String::from_str("Opened OZI map: ");
        let name = layer_name_exec(&selection);
        text.append(name.as_str());
        proof {
            assert(text@ =~= "Opened OZI map: "@ + selection.project_name@ + " / "@ + selection.package_name@);
        }
        self.active_map = Some(selection);
        self.update_status(DiagnosticLevel::Info, text);
    }
}

impl LizaMapPackage {
    pub fn clone_package(&self) -> (c: LizaMapPackage)
        ensures
            c@ == self@,
    {
        LizaMapPackage {
            name: self.name.clone(),
            file_name: self.file_name.clone(),
            url: self.url.clone(),
            base_zoom: self.base_zoom,
            local_path: crate::waypoint::clone_opt_string(&self.local_path),
            size_bytes: self.size_bytes,
        }
    }
}

} // verus!

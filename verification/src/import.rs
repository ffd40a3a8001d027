use vstd::prelude::*;
use crate::command::{CommandError, CommandV, ProjectCommand};
use crate::history::{CommandStack, StackV, stack_apply, stack_wf};
use crate::ids::LayerId;
use crate::layers::{TrackLayerV, tracks_view};
use crate::project::{Project, ProjectV};
use crate::project_layers::highest_layer_id;
use crate::track::{Track, TrackStyle, TrackV};
use crate::waypoint::{Waypoint, WaypointV};

verus! {

/// What one import added to the project.
#[derive(Debug, Clone, PartialEq, Eq)]
pub struct ArchiveImportReport {
    imported_entries: usize,
    imported_track_layers: usize,
    imported_waypoint_layers: usize,
    imported_tracks: usize,
    imported_waypoints: usize,
}

pub struct ReportV {
    pub entries: usize,
    pub track_layers: usize,
    pub waypoint_layers: usize,
    pub tracks: usize,
    pub waypoints: usize,
}

impl View for ArchiveImportReport {
    type V = ReportV;

    closed spec fn view(&self) -> ReportV {
        ReportV {
            entries: self.imported_entries,
            track_layers: self.imported_track_layers,
            waypoint_layers: self.imported_waypoint_layers,
            tracks: self.imported_tracks,
            waypoints: self.imported_waypoints,
        }
    }
}

impl ArchiveImportReport {
    pub fn new() -> (r: Self)
        ensures
            r@ == (ReportV { entries: 0, track_layers: 0, waypoint_layers: 0, tracks: 0, waypoints: 0 }),
    {
        ArchiveImportReport {
            imported_entries: 0,
            imported_track_layers: 0,
            imported_waypoint_layers: 0,
            imported_tracks: 0,
            imported_waypoints: 0,
        }
    }

    pub fn imported_entries(&self) -> (n: usize)
        ensures
            n == self@.entries,
    {
        self.imported_entries
    }

    pub fn imported_track_layers(&self) -> (n: usize)
        ensures
            n == self@.track_layers,
    {
        self.imported_track_layers
    }

    pub fn imported_waypoint_layers(&self) -> (n: usize)
        ensures
            n == self@.waypoint_layers,
    {
        self.imported_waypoint_layers
    }

    pub fn imported_tracks(&self) -> (n: usize)
        ensures
            n == self@.tracks,
    {
        self.imported_tracks
    }

    pub fn imported_waypoints(&self) -> (n: usize)
        ensures
            n == self@.waypoints,
    {
        self.imported_waypoints
    }

    /// Count one more file read.
    pub fn count_entry(&mut self)
        requires
            old(self)@.entries < usize::MAX,
        ensures
            final(self)@ == (ReportV { entries: (old(self)@.entries + 1) as usize, ..old(self)@ }),
    {
        self.imported_entries = self.imported_entries + 1;
    }
}

/// Why an import stopped: the file could not be read as GPX (the reader's
/// message), or a command it issued was refused.
#[derive(Debug)]
pub enum ArchiveImportError {
    GpxImport(String),
    Command(CommandError),
}

/// Result of importing a folder: counts, and each file that could not be
/// imported with the reason. A bad file never stops the rest of the folder.
#[derive(Debug)]
pub struct DirectoryImportReport {
    pub imported_files: usize,
    pub imported_tracks: usize,
    pub imported_waypoints: usize,
    pub skipped: Vec<(String, String)>,
}

/// One file of a folder import as it came out: its path, and the tracks and
/// marks it brought or the reason it could not be read.
pub open spec fn outcomes_view(v: Seq<(String, Result<(usize, usize), String>)>) -> Seq<(Seq<char>, Result<(usize, usize), Seq<char>>)> {
    v.map_values(|o: (String, Result<(usize, usize), String>)| (o.0@, match o.1 {
        Ok(x) => Ok(x),
        Err(e) => Err(e@),
    }))
}

pub open spec fn skipped_view(v: Seq<(String, String)>) -> Seq<(Seq<char>, Seq<char>)> {
    v.map_values(|e: (String, String)| (e.0@, e.1@))
}

/// The files imported, the tracks and marks they brought, and each file that
/// failed with its reason, in order.
pub open spec fn tally(os: Seq<(Seq<char>, Result<(usize, usize), Seq<char>>)>) -> (int, int, int, Seq<(Seq<char>, Seq<char>)>)
    decreases os.len(),
{
    if os.len() == 0 {
        (0, 0, 0, Seq::empty())
    } else {
        let (f, t, w, sk) = tally(os.drop_last());
        match os.last().1 {
            Ok((a, b)) => (f + 1, t + a, w + b, sk),
            Err(e) => (f, t, w, sk.push((os.last().0, e))),
        }
    }
}

proof fn lemma_tally_prefix(os: Seq<(Seq<char>, Result<(usize, usize), Seq<char>>)>, i: int)
    requires
        0 <= i <= os.len(),
    ensures
        0 <= tally(os.take(i)).0 <= tally(os).0,
        0 <= tally(os.take(i)).1 <= tally(os).1,
        0 <= tally(os.take(i)).2 <= tally(os).2,
    decreases os.len(),
{
    if i < os.len() {
        assert(os.drop_last().take(i) =~= os.take(i));
        lemma_tally_prefix(os.drop_last(), i);
    } else {
        assert(os.take(i) =~= os);
        if os.len() > 0 {
            lemma_tally_prefix(os.drop_last(), os.len() - 1);
            assert(os.drop_last().take(os.len() - 1) =~= os.drop_last());
        }
    }
}

/// The report of a folder import from what each file gave, in the order the
/// files were read. A folder with no track file at all is refused.
pub fn tally_directory_import(dir: &str, outcomes: Vec<(String, Result<(usize, usize), String>)>) -> (r: Result<DirectoryImportReport, String>)
    requires
        tally(outcomes_view(outcomes@)).1 <= usize::MAX,
        tally(outcomes_view(outcomes@)).2 <= usize::MAX,
    ensures
        outcomes@.len() == 0 <==> r is Err,
        r matches Err(m) ==> m@ == "no .gpx or .plt files found under "@ + dir@,
        r matches Ok(report) ==> {
            let (f, t, w, sk) = tally(outcomes_view(outcomes@));
            &&& report.imported_files == f
            &&& report.imported_tracks == t
            &&& report.imported_waypoints == w
            &&& skipped_view(report.skipped@) == sk
        },
{
    if outcomes.len() == 0 {
        let mut m = String::from_str("no .gpx or .plt files found under ");
        m.append(dir);
        return Err(m);
    }
    let ghost os = outcomes_view(outcomes@);
    let mut report = DirectoryImportReport { imported_files: 0, imported_tracks: 0, imported_waypoints: 0, skipped: Vec::new() };
    let mut i: usize = 0;
    while i < outcomes.len()
        invariant
            i <= outcomes.len(),
            os == outcomes_view(outcomes@),
            os.len() == outcomes.len(),
            tally(os).1 <= usize::MAX,
            tally(os).2 <= usize::MAX,
            report.imported_files == tally(os.take(i as int)).0,
            report.imported_files <= i,
            report.imported_tracks == tally(os.take(i as int)).1,
            report.imported_waypoints == tally(os.take(i as int)).2,
            skipped_view(report.skipped@) == tally(os.take(i as int)).3,
        decreases outcomes.len() - i,
    {
        proof {
            assert(os.take(i as int + 1).drop_last() =~= os.take(i as int));
            assert(os.take(i as int + 1).last() == os[i as int]);
            lemma_tally_prefix(os, i as int + 1);
            assert(i < usize::MAX);
        }
        let (path, outcome) = &outcomes[i];
        match outcome {
            Ok((tracks, waypoints)) => {
                report.imported_files = report.imported_files + 1;
                report.imported_tracks = report.imported_tracks + *tracks;
                report.imported_waypoints = report.imported_waypoints + *waypoints;
            },
            Err(reason) => {
                let ghost before = skipped_view(report.skipped@);
                report.skipped.push((path.clone(), reason.clone()));
                proof {
                    assert(skipped_view(report.skipped@) =~= before.push((path@, reason@)));
                }
            },
        }
        i = i + 1;
    }
    proof {
        assert(os.take(i as int) =~= os);
    }
    Ok(report)
}

/// What a GPX reader found in one file: its path, its tracks, which of them
/// declared their own colour, and its marks.
pub struct ArchivedGpxImport {
    pub source_path: String,
    pub tracks: Vec<Track>,
    pub declared_colours: Vec<bool>,
    pub waypoints: Vec<Waypoint>,
}

// ── colours for imported tracks ──────────────────────────────────────────

/// Colours handed to imported tracks that do not say what colour they are:
/// far apart from each other and from a topographic basemap.
pub const TRACK_PALETTE: [[u8; 4]; 12] = [
    [220, 38, 38, 255],
    [37, 99, 235, 255],
    [217, 119, 6, 255],
    [147, 51, 234, 255],
    [8, 145, 178, 255],
    [219, 39, 119, 255],
    [120, 53, 15, 255],
    [30, 64, 175, 255],
    [190, 24, 93, 255],
    [126, 34, 206, 255],
    [161, 98, 7, 255],
    [15, 118, 110, 255],
];

/// The colour for the `index`-th track a project holds.
pub fn palette_colour(index: usize) -> (c: [u8; 4])
    ensures
        c == TRACK_PALETTE[(index % 12) as int],
{
    TRACK_PALETTE[index % 12]
}

/// How many tracks the project holds, across every layer.
pub open spec fn track_total(layers: Seq<TrackLayerV>) -> int
    decreases layers.len(),
{
    if layers.len() == 0 { 0 } else { track_total(layers.drop_last()) + layers.last().tracks.len() }
}

pub fn track_count(project: &Project) -> (n: usize)
    requires
        track_total(project@.track_layers) <= usize::MAX,
    ensures
        n == track_total(project@.track_layers),
{
    let ghost ls = project@.track_layers;
    let mut n: usize = 0;
    let mut i: usize = 0;
    while i < project.track_layers.len()
        invariant
            i <= project.track_layers.len(),
            ls == project@.track_layers,
            ls.len() == project.track_layers.len(),
            n == track_total(ls.take(i as int)),
            track_total(ls) <= usize::MAX,
        decreases project.track_layers.len() - i,
    {
        proof {
            assert(ls.take(i as int + 1).drop_last() =~= ls.take(i as int));
            lemma_track_total_prefix(ls, i as int + 1);
            assert(ls[i as int].tracks.len() == project.track_layers@[i as int].tracks@.len());
        }
        n = n + project.track_layers[i].tracks.len();
        i = i + 1;
    }
    proof {
        assert(ls.take(i as int) =~= ls);
    }
    n
}

/// How many marks the layers hold in all.
pub open spec fn waypoint_total(layers: Seq<crate::layers::WaypointLayerV>) -> int
    decreases layers.len(),
{
    if layers.len() == 0 { 0 } else { waypoint_total(layers.drop_last()) + layers.last().waypoints.len() }
}

proof fn lemma_waypoint_total_prefix(ls: Seq<crate::layers::WaypointLayerV>, i: int)
    requires
        0 <= i <= ls.len(),
    ensures
        0 <= waypoint_total(ls.take(i)) <= waypoint_total(ls),
    decreases ls.len(),
{
    if i < ls.len() {
        assert(ls.drop_last().take(i) =~= ls.take(i));
        lemma_waypoint_total_prefix(ls.drop_last(), i);
    } else {
        assert(ls.take(i) =~= ls);
        lemma_waypoint_total_nonneg(ls);
    }
}

proof fn lemma_waypoint_total_nonneg(ls: Seq<crate::layers::WaypointLayerV>)
    ensures
        waypoint_total(ls) >= 0,
    decreases ls.len(),
{
    if ls.len() > 0 {
        lemma_waypoint_total_nonneg(ls.drop_last());
    }
}

pub fn waypoint_count(project: &Project) -> (n: usize)
    requires
        waypoint_total(project@.waypoint_layers) <= usize::MAX,
    ensures
        n == waypoint_total(project@.waypoint_layers),
{
    let ghost ls = project@.waypoint_layers;
    let mut n: usize = 0;
    let mut i: usize = 0;
    while i < project.waypoint_layers.len()
        invariant
            i <= project.waypoint_layers.len(),
            ls == project@.waypoint_layers,
            ls.len() == project.waypoint_layers.len(),
            n == waypoint_total(ls.take(i as int)),
            waypoint_total(ls) <= usize::MAX,
        decreases project.waypoint_layers.len() - i,
    {
        proof {
            assert(ls.take(i as int + 1).drop_last() =~= ls.take(i as int));
            lemma_waypoint_total_prefix(ls, i as int + 1);
            assert(ls[i as int].waypoints.len() == project.waypoint_layers@[i as int].waypoints@.len());
        }
        n = n + project.waypoint_layers[i].waypoints.len();
        i = i + 1;
    }
    proof {
        assert(ls.take(i as int) =~= ls);
    }
    n
}

proof fn lemma_track_total_prefix(ls: Seq<TrackLayerV>, i: int)
    requires
        0 <= i <= ls.len(),
    ensures
        0 <= track_total(ls.take(i)) <= track_total(ls),
    decreases ls.len(),
{
    if i < ls.len() {
        assert(ls.drop_last().take(i) =~= ls.take(i));
        lemma_track_total_prefix(ls.drop_last(), i);
    } else {
        assert(ls.take(i) =~= ls);
        lemma_track_total_nonneg(ls);
    }
}

proof fn lemma_track_total_nonneg(ls: Seq<TrackLayerV>)
    ensures
        track_total(ls) >= 0,
    decreases ls.len(),
{
    if ls.len() > 0 {
        lemma_track_total_nonneg(ls.drop_last());
    }
}

// ── naming imported layers ───────────────────────────────────────────────

pub open spec fn is_separator(c: char) -> bool {
    c == '/' || c == '\\'
}

/// The part of a path after its last `/` or `\`; the whole path when that
/// part is empty or there is no separator.
pub open spec fn file_label(path: Seq<char>) -> Seq<char> {
    if exists|k: int| 0 <= k < path.len() && is_separator(path[k]) {
        let k = choose|k: int| 0 <= k < path.len() && is_separator(path[k]) && forall|j: int| k < j < path.len() ==> !is_separator(path[j]);
        if k + 1 < path.len() { path.subrange(k + 1, path.len() as int) } else { path }
    } else {
        path
    }
}

proof fn lemma_last_separator(path: Seq<char>, k: int)
    requires
        0 <= k < path.len(),
        is_separator(path[k]),
        forall|j: int| k < j < path.len() ==> !is_separator(path[j]),
    ensures
        (choose|c: int| 0 <= c < path.len() && is_separator(path[c]) && forall|j: int| c < j < path.len() ==> !is_separator(path[j])) == k,
{
    let c = choose|c: int| 0 <= c < path.len() && is_separator(path[c]) && forall|j: int| c < j < path.len() ==> !is_separator(path[j]);
    assert(0 <= c < path.len() && is_separator(path[c]) && forall|j: int| c < j < path.len() ==> !is_separator(path[j]));
    if c < k {
        assert(!is_separator(path[k]));
    } else if c > k {
        assert(!is_separator(path[c]));
    }
}

/// Name an import-made layer after its source file; see `file_label`.
pub fn source_file_label(source_path: &str) -> (label: String)
    ensures
        label@ == file_label(source_path@),
{
    let n = source_path.unicode_len();
    let mut i: usize = n;
    while i > 0
        invariant
            n == source_path@.len(),
            i <= n,
            forall|j: int| i <= j < n ==> !is_separator(source_path@[j]),
        ensures
            i <= n,
            forall|j: int| i <= j < n ==> !is_separator(source_path@[j]),
            i > 0 ==> is_separator(source_path@[i - 1]),
        decreases i,
    {
        let c = source_path.get_char(i - 1);
        if c == '/' || c == '\\' {
            break;
        }
        i = i - 1;
    }
    if i == 0 {
        return String::from_str(source_path);
    }
    proof {
        lemma_last_separator(source_path@, i - 1);
    }
    if i < n {
        String::from_str(source_path.substring_char(i, n))
    } else {
        String::from_str(source_path)
    }
}

// ── allocating layer ids ─────────────────────────────────────────────────

/// A layer id no layer of any kind uses: one past the highest in use.
pub fn next_layer_id(project: &Project) -> (id: LayerId)
    requires
        highest_layer_id(project@) < u64::MAX,
    ensures
        id.0 == highest_layer_id(project@) + 1,
{
    LayerId(project.highest_layer_id() + 1)
}

// ── bringing a read file into the project ────────────────────────────────

/// What a GPX reader found, for the contracts.
pub struct GpxImportV {
    pub source_path: Seq<char>,
    pub tracks: Seq<TrackV>,
    pub declared_colours: Seq<bool>,
    pub waypoints: Seq<WaypointV>,
}

impl View for ArchivedGpxImport {
    type V = GpxImportV;

    open spec fn view(&self) -> GpxImportV {
        GpxImportV {
            source_path: self.source_path@,
            tracks: tracks_view(self.tracks@),
            declared_colours: self.declared_colours@,
            waypoints: crate::layers::waypoints_view(self.waypoints@),
        }
    }
}

/// The `i`-th track declared its own colour.
pub open spec fn declares_colour(declared: Seq<bool>, i: int) -> bool {
    0 <= i < declared.len() && declared[i]
}

pub open spec fn with_colour(t: TrackV, color: [u8; 4]) -> TrackV {
    TrackV { style: TrackStyle { color, ..t.style }, ..t }
}

/// A track as it is added: its own colour when it declared one, otherwise
/// the palette colour for the number of tracks the project already holds.
pub open spec fn imported_track(t: TrackV, declared: bool, p: ProjectV) -> TrackV {
    if declared { t } else { with_colour(t, TRACK_PALETTE[track_total(p.track_layers) % 12]) }
}

pub open spec fn add_tracks_from(
    s: StackV,
    p: ProjectV,
    r: ReportV,
    lid: LayerId,
    tracks: Seq<TrackV>,
    declared: Seq<bool>,
    i: int,
) -> (StackV, ProjectV, ReportV, Result<(), CommandError>)
    decreases tracks.len() - i,
{
    if i < 0 || i >= tracks.len() {
        (s, p, r, Ok(()))
    } else {
        let t = imported_track(tracks[i], declares_colour(declared, i), p);
        let (s2, p2, res) = stack_apply(s, CommandV::AddTrack { layer_id: lid, track: t }, None, p);
        match res {
            Err(e) => (s2, p2, r, Err(e)),
            Ok(_) => add_tracks_from(s2, p2, ReportV { tracks: (r.tracks + 1) as usize, ..r }, lid, tracks, declared, i + 1),
        }
    }
}

pub open spec fn add_waypoints_from(
    s: StackV,
    p: ProjectV,
    r: ReportV,
    lid: LayerId,
    waypoints: Seq<WaypointV>,
    i: int,
) -> (StackV, ProjectV, ReportV, Result<(), CommandError>)
    decreases waypoints.len() - i,
{
    if i < 0 || i >= waypoints.len() {
        (s, p, r, Ok(()))
    } else {
        let (s2, p2, res) = stack_apply(s, CommandV::AddWaypoint { layer_id: lid, waypoint: waypoints[i] }, None, p);
        match res {
            Err(e) => (s2, p2, r, Err(e)),
            Ok(_) => add_waypoints_from(s2, p2, ReportV { waypoints: (r.waypoints + 1) as usize, ..r }, lid, waypoints, i + 1),
        }
    }
}

/// The track half of a GPX import: when the file has tracks, a new track
/// layer named after the file, then each track into it.
pub open spec fn import_tracks_spec(s: StackV, p: ProjectV, r: ReportV, imp: GpxImportV) -> (StackV, ProjectV, ReportV, Result<(), CommandError>) {
    if imp.tracks.len() == 0 {
        (s, p, r, Ok(()))
    } else {
        let lid = LayerId((highest_layer_id(p) + 1) as u64);
        let (s1, p1, res) = stack_apply(s, CommandV::AddTrackLayer { id: lid, name: file_label(imp.source_path) }, None, p);
        match res {
            Err(e) => (s1, p1, r, Err(e)),
            Ok(_) => add_tracks_from(s1, p1, ReportV { track_layers: (r.track_layers + 1) as usize, ..r }, lid, imp.tracks, imp.declared_colours, 0),
        }
    }
}

/// The mark half: when the file has marks, a new waypoint layer named after
/// the file, then each mark into it.
pub open spec fn import_waypoints_spec(s: StackV, p: ProjectV, r: ReportV, imp: GpxImportV) -> (StackV, ProjectV, ReportV, Result<(), CommandError>) {
    if imp.waypoints.len() == 0 {
        (s, p, r, Ok(()))
    } else {
        let lid = LayerId((highest_layer_id(p) + 1) as u64);
        let (s1, p1, res) = stack_apply(s, CommandV::AddWaypointLayer { id: lid, name: file_label(imp.source_path) }, None, p);
        match res {
            Err(e) => (s1, p1, r, Err(e)),
            Ok(_) => add_waypoints_from(s1, p1, ReportV { waypoint_layers: (r.waypoint_layers + 1) as usize, ..r }, lid, imp.waypoints, 0),
        }
    }
}

/// A GPX import: the tracks, then the marks, every step through the
/// history; the first refused command stops it.
pub open spec fn gpx_import_spec(s: StackV, p: ProjectV, r: ReportV, imp: GpxImportV) -> (StackV, ProjectV, ReportV, Result<(), CommandError>) {
    let (s1, p1, r1, res) = import_tracks_spec(s, p, r, imp);
    match res {
        Err(e) => (s1, p1, r1, Err(e)),
        Ok(_) => import_waypoints_spec(s1, p1, r1, imp),
    }
}

/// How many layers an import makes: one for tracks, one for marks, each
/// only when there are some.
pub open spec fn import_layer_count(imp: GpxImportV) -> int {
    (if imp.tracks.len() > 0 { 1int } else { 0int }) + (if imp.waypoints.len() > 0 { 1int } else { 0int })
}

/// How many commands an import issues at most.
pub open spec fn import_command_count(imp: GpxImportV) -> int {
    import_layer_count(imp) + imp.tracks.len() + imp.waypoints.len()
}

/// The counts and ids an import needs stay within their integer types.
pub open spec fn import_fits(s: StackV, p: ProjectV, r: ReportV, imp: GpxImportV) -> bool {
    &&& s.mutation_count + import_command_count(imp) <= u64::MAX
    &&& highest_layer_id(p) + import_layer_count(imp) <= u64::MAX
    &&& track_total(p.track_layers) + imp.tracks.len() <= usize::MAX
    &&& r.track_layers + 1 <= usize::MAX
    &&& r.waypoint_layers + 1 <= usize::MAX
    &&& r.tracks + imp.tracks.len() <= usize::MAX
    &&& r.waypoints + imp.waypoints.len() <= usize::MAX
}

proof fn lemma_track_total_update(ls: Seq<TrackLayerV>, li: int, l2: TrackLayerV)
    requires
        0 <= li < ls.len(),
    ensures
        track_total(ls.update(li, l2)) == track_total(ls) - ls[li].tracks.len() + l2.tracks.len(),
    decreases ls.len(),
{
    let u = ls.update(li, l2);
    if li == ls.len() - 1 {
        assert(u.drop_last() =~= ls.drop_last());
    } else {
        assert(u.drop_last() =~= ls.drop_last().update(li, l2));
        lemma_track_total_update(ls.drop_last(), li, l2);
    }
}

proof fn lemma_seq_max_push(s: Seq<u64>, x: u64)
    ensures
        crate::project_layers::seq_max(s.push(x)) == (if x > crate::project_layers::seq_max(s) { x as int } else { crate::project_layers::seq_max(s) }),
{
    assert(s.push(x).drop_last() =~= s);
}

/// Adding a track grows the track count by one and leaves layer ids alone.
proof fn lemma_add_track_effects(p: ProjectV, lid: u64, t: TrackV)
    requires
        crate::project::p_add_track(p, lid, t).1 is Ok,
    ensures
        track_total(crate::project::p_add_track(p, lid, t).0.track_layers) == track_total(p.track_layers) + 1,
        highest_layer_id(crate::project::p_add_track(p, lid, t).0) == highest_layer_id(p),
{
    let li = crate::project::p_locate_track_layer(p, lid)->Ok_0;
    let l2 = TrackLayerV { tracks: p.track_layers[li].tracks.push(t), ..p.track_layers[li] };
    lemma_track_total_update(p.track_layers, li, l2);
    let p2 = crate::project::p_add_track(p, lid, t).0;
    assert(crate::project::track_layer_keys(p2.track_layers) =~= crate::project::track_layer_keys(p.track_layers));
}

/// A new track layer one past the highest id becomes the highest.
proof fn lemma_add_track_layer_effects(p: ProjectV, l: TrackLayerV)
    requires
        l.id.0 == highest_layer_id(p) + 1,
        l.tracks.len() == 0,
    ensures
        highest_layer_id(ProjectV { track_layers: p.track_layers.push(l), ..p }) == l.id.0,
        track_total(p.track_layers.push(l)) == track_total(p.track_layers),
{
    let keys = crate::project::track_layer_keys(p.track_layers);
    assert(crate::project::track_layer_keys(p.track_layers.push(l)) =~= keys.push(l.id.0));
    lemma_seq_max_push(keys, l.id.0);
    assert(p.track_layers.push(l).drop_last() =~= p.track_layers);
}

fn import_tracks_phase(project: &mut Project, history: &mut CommandStack, import: &ArchivedGpxImport, report: &mut ArchiveImportReport) -> (r: Result<(), CommandError>)
    requires
        stack_wf(old(history)@),
        import@.tracks.len() > 0 ==> {
            &&& old(history)@.mutation_count + 1 + import@.tracks.len() <= u64::MAX
            &&& highest_layer_id(old(project)@) + 1 <= u64::MAX
            &&& track_total(old(project)@.track_layers) + import@.tracks.len() <= usize::MAX
            &&& old(report)@.track_layers + 1 <= usize::MAX
            &&& old(report)@.tracks + import@.tracks.len() <= usize::MAX
        },
    ensures
        stack_wf(final(history)@),
        ({
            let (s, p, rep, res) = import_tracks_spec(old(history)@, old(project)@, old(report)@, import@);
            &&& final(history)@ == s
            &&& final(project)@ == p
            &&& final(report)@ == rep
            &&& r == res
        }),
        r is Ok && import@.tracks.len() > 0 ==> {
            &&& final(history)@.mutation_count == old(history)@.mutation_count + 1 + import@.tracks.len()
            &&& highest_layer_id(final(project)@) == highest_layer_id(old(project)@) + 1
        },
        import@.tracks.len() == 0 ==> final(history)@ == old(history)@ && final(project)@ == old(project)@,
        final(report)@.waypoint_layers == old(report)@.waypoint_layers,
        final(report)@.waypoints == old(report)@.waypoints,
{
    if import.tracks.len() == 0 {
        return Ok(());
    }
    let ghost s0 = history@;
    let ghost p0 = project@;
    let ghost r0 = report@;
    let ghost iv = import@;
    let layer_id = next_layer_id(project);
    let name = source_file_label(import.source_path.as_str());
    let cmd = ProjectCommand::add_track_layer(layer_id, name);
    proof {
        crate::command_apply::lemma_apply_add_track_layer(p0, layer_id, file_label(iv.source_path));
    }
    match history.apply(project, &cmd) {
        Err(e) => return Err(e),
        Ok(()) => {},
    }
    proof {
        lemma_add_track_layer_effects(p0, TrackLayerV { id: layer_id, name: file_label(iv.source_path), tracks: Seq::empty() });
    }
    report.imported_track_layers = report.imported_track_layers + 1;
    let ghost s1 = history@;
    let ghost p1 = project@;
    let ghost r1 = report@;
    let mut i: usize = 0;
    while i < import.tracks.len()
        invariant
            i <= import.tracks.len(),
            s0 == old(history)@,
            p0 == old(project)@,
            r0 == old(report)@,
            import_tracks_spec(s0, p0, r0, iv) == add_tracks_from(s1, p1, r1, layer_id, iv.tracks, iv.declared_colours, 0),
            iv == import@,
            iv.tracks.len() == import.tracks.len(),
            iv.tracks.len() > 0,
            stack_wf(history@),
            history@.mutation_count == s0.mutation_count + 1 + i,
            s0.mutation_count + 1 + iv.tracks.len() <= u64::MAX,
            track_total(project@.track_layers) == track_total(p0.track_layers) + i,
            track_total(p0.track_layers) + iv.tracks.len() <= usize::MAX,
            highest_layer_id(project@) == layer_id.0,
            layer_id.0 == highest_layer_id(p0) + 1,
            report@ == (ReportV { tracks: (r0.tracks + i) as usize, track_layers: (r0.track_layers + 1) as usize, ..r0 }),
            r0.tracks + iv.tracks.len() <= usize::MAX,
            add_tracks_from(s1, p1, r1, layer_id, iv.tracks, iv.declared_colours, 0)
                == add_tracks_from(history@, project@, report@, layer_id, iv.tracks, iv.declared_colours, i as int),
        decreases import.tracks.len() - i,
    {
        let mut track = import.tracks[i].clone();
        let declared = i < import.declared_colours.len() && import.declared_colours[i];
        let ghost pb = project@;
        if !declared {
            track.style.color = palette_colour(track_count(project));
        }
        proof {
            assert(track@ == imported_track(iv.tracks[i as int], declares_colour(iv.declared_colours, i as int), pb));
        }
        let ghost tv = track@;
        let cmd = ProjectCommand::add_track(layer_id, track);
        let ghost rb = report@;
        proof {
            crate::command_apply::lemma_apply_add_track(pb, layer_id, tv);
        }
        match history.apply(project, &cmd) {
            Err(e) => return Err(e),
            Ok(()) => {},
        }
        proof {
            lemma_add_track_effects(pb, layer_id.0, tv);
        }
        report.imported_tracks = report.imported_tracks + 1;
        proof {
            assert(report@ == (ReportV { tracks: (rb.tracks + 1) as usize, ..rb }));
        }
        i = i + 1;
    }
    Ok(())
}

fn import_waypoints_phase(project: &mut Project, history: &mut CommandStack, import: &ArchivedGpxImport, report: &mut ArchiveImportReport) -> (r: Result<(), CommandError>)
    requires
        stack_wf(old(history)@),
        import@.waypoints.len() > 0 ==> {
            &&& old(history)@.mutation_count + 1 + import@.waypoints.len() <= u64::MAX
            &&& highest_layer_id(old(project)@) + 1 <= u64::MAX
            &&& old(report)@.waypoint_layers + 1 <= usize::MAX
            &&& old(report)@.waypoints + import@.waypoints.len() <= usize::MAX
        },
    ensures
        stack_wf(final(history)@),
        ({
            let (s, p, rep, res) = import_waypoints_spec(old(history)@, old(project)@, old(report)@, import@);
            &&& final(history)@ == s
            &&& final(project)@ == p
            &&& final(report)@ == rep
            &&& r == res
        }),
{
    if import.waypoints.len() == 0 {
        return Ok(());
    }
    let ghost s0 = history@;
    let ghost p0 = project@;
    let ghost r0 = report@;
    let ghost iv = import@;
    let layer_id = next_layer_id(project);
    let name = source_file_label(import.source_path.as_str());
    let cmd = ProjectCommand::add_waypoint_layer(layer_id, name);
    proof {
        crate::command_apply::lemma_apply_add_waypoint_layer(p0, layer_id, file_label(iv.source_path));
    }
    match history.apply(project, &cmd) {
        Err(e) => return Err(e),
        Ok(()) => {},
    }
    report.imported_waypoint_layers = report.imported_waypoint_layers + 1;
    let ghost s1 = history@;
    let ghost p1 = project@;
    let ghost r1 = report@;
    let mut i: usize = 0;
    while i < import.waypoints.len()
        invariant
            i <= import.waypoints.len(),
            s0 == old(history)@,
            p0 == old(project)@,
            r0 == old(report)@,
            import_waypoints_spec(s0, p0, r0, iv) == add_waypoints_from(s1, p1, r1, layer_id, iv.waypoints, 0),
            iv == import@,
            iv.waypoints.len() == import.waypoints.len(),
            stack_wf(history@),
            history@.mutation_count == s0.mutation_count + 1 + i,
            s0.mutation_count + 1 + iv.waypoints.len() <= u64::MAX,
            report@ == (ReportV { waypoints: (r0.waypoints + i) as usize, waypoint_layers: (r0.waypoint_layers + 1) as usize, ..r0 }),
            r0.waypoints + iv.waypoints.len() <= usize::MAX,
            add_waypoints_from(s1, p1, r1, layer_id, iv.waypoints, 0)
                == add_waypoints_from(history@, project@, report@, layer_id, iv.waypoints, i as int),
        decreases import.waypoints.len() - i,
    {
        let waypoint = import.waypoints[i].clone();
        let cmd = ProjectCommand::add_waypoint(layer_id, waypoint);
        let ghost rb = report@;
        match history.apply(project, &cmd) {
            Err(e) => return Err(e),
            Ok(()) => {},
        }
        report.imported_waypoints = report.imported_waypoints + 1;
        proof {
            assert(report@ == (ReportV { waypoints: (rb.waypoints + 1) as usize, ..rb }));
        }
        i = i + 1;
    }
    Ok(())
}

/// Bring what a GPX reader found into the project, every step through the
/// history, counting what was added in `report`; see `gpx_import_spec`.
pub fn apply_gpx_import(project: &mut Project, history: &mut CommandStack, import: &ArchivedGpxImport, report: &mut ArchiveImportReport) -> (r: Result<(), ArchiveImportError>)
    requires
        stack_wf(old(history)@),
        import_fits(old(history)@, old(project)@, old(report)@, import@),
    ensures
        stack_wf(final(history)@),
        ({
            let (s, p, rep, res) = gpx_import_spec(old(history)@, old(project)@, old(report)@, import@);
            &&& final(history)@ == s
            &&& final(project)@ == p
            &&& final(report)@ == rep
            &&& match r {
                Ok(()) => res is Ok,
                Err(ArchiveImportError::Command(e)) => res == Err::<(), CommandError>(e),
                Err(ArchiveImportError::GpxImport(_)) => false,
            }
        }),
{
    match import_tracks_phase(project, history, import, report) {
        Err(e) => return Err(ArchiveImportError::Command(e)),
        Ok(()) => {},
    }
    match import_waypoints_phase(project, history, import, report) {
        Err(e) => Err(ArchiveImportError::Command(e)),
        Ok(()) => Ok(()),
    }
}

/// A PLT import: a new track layer named after the file, then its one
/// track into it; a refused step is passed over.
pub open spec fn plt_import_spec(s: StackV, p: ProjectV, source_path: Seq<char>, track: TrackV) -> (StackV, ProjectV) {
    let lid = LayerId((highest_layer_id(p) + 1) as u64);
    let (s1, p1, _r1) = stack_apply(s, CommandV::AddTrackLayer { id: lid, name: file_label(source_path) }, None, p);
    let (s2, p2, _r2) = stack_apply(s1, CommandV::AddTrack { layer_id: lid, track }, None, p1);
    (s2, p2)
}

/// Bring a track read from a PLT file into the project; see
/// `plt_import_spec`. The report counts one file, one layer, one track.
pub fn apply_plt_import(project: &mut Project, history: &mut CommandStack, source_path: &str, track: Track) -> (report: ArchiveImportReport)
    requires
        stack_wf(old(history)@),
        old(history)@.mutation_count + 2 <= u64::MAX,
        highest_layer_id(old(project)@) < u64::MAX,
    ensures
        stack_wf(final(history)@),
        (final(history)@, final(project)@) == plt_import_spec(old(history)@, old(project)@, source_path@, track@),
        report@ == (ReportV { entries: 1, track_layers: 1, waypoint_layers: 0, tracks: 1, waypoints: 0 }),
{
    let layer_id = next_layer_id(project);
    let name = source_file_label(source_path);
    let _ = history.apply(project, &ProjectCommand::add_track_layer(layer_id, name));
    let _ = history.apply(project, &ProjectCommand::add_track(layer_id, track));
    let mut report = ArchiveImportReport::new();
    report.imported_track_layers = 1;
    report.imported_tracks = 1;
    report.imported_entries = 1;
    report
}

/// Add the marks from index `i` on, each through the history; a refused one
/// is passed over.
pub open spec fn add_all_waypoints_from(s: StackV, p: ProjectV, lid: LayerId, waypoints: Seq<WaypointV>, i: int) -> (StackV, ProjectV)
    decreases waypoints.len() - i,
{
    if i < 0 || i >= waypoints.len() {
        (s, p)
    } else {
        let (s2, p2, _r) = stack_apply(s, CommandV::AddWaypoint { layer_id: lid, waypoint: waypoints[i] }, None, p);
        add_all_waypoints_from(s2, p2, lid, waypoints, i + 1)
    }
}

/// A WPT import: nothing when the file holds no marks; otherwise a new
/// waypoint layer named after the file and every mark into it.
pub open spec fn wpt_import_spec(s: StackV, p: ProjectV, source_path: Seq<char>, waypoints: Seq<WaypointV>) -> (StackV, ProjectV) {
    if waypoints.len() == 0 {
        (s, p)
    } else {
        let lid = LayerId((highest_layer_id(p) + 1) as u64);
        let (s1, p1, _r) = stack_apply(s, CommandV::AddWaypointLayer { id: lid, name: file_label(source_path) }, None, p);
        add_all_waypoints_from(s1, p1, lid, waypoints, 0)
    }
}

/// Bring the marks read from a WPT file into a layer of their own; see
/// `wpt_import_spec`.
pub fn apply_wpt_import(project: &mut Project, history: &mut CommandStack, source_path: &str, waypoints: Vec<Waypoint>) -> (report: ArchiveImportReport)
    requires
        stack_wf(old(history)@),
        old(history)@.mutation_count + 1 + waypoints@.len() <= u64::MAX,
        highest_layer_id(old(project)@) < u64::MAX,
    ensures
        stack_wf(final(history)@),
        (final(history)@, final(project)@) == wpt_import_spec(old(history)@, old(project)@, source_path@, crate::layers::waypoints_view(waypoints@)),
        report@ == (if waypoints@.len() == 0 {
            ReportV { entries: 0, track_layers: 0, waypoint_layers: 0, tracks: 0, waypoints: 0 }
        } else {
            ReportV { entries: 1, track_layers: 0, waypoint_layers: 1, tracks: 0, waypoints: waypoints@.len() as usize }
        }),
{
    let mut report = ArchiveImportReport::new();
    if waypoints.len() == 0 {
        return report;
    }
    let ghost wv = crate::layers::waypoints_view(waypoints@);
    let ghost mc0 = history@.mutation_count;
    let layer_id = next_layer_id(project);
    let name = source_file_label(source_path);
    let _ = history.apply(project, &ProjectCommand::add_waypoint_layer(layer_id, name));
    report.imported_waypoint_layers = 1;
    let ghost s1 = history@;
    let ghost p1 = project@;
    let mut i: usize = 0;
    while i < waypoints.len()
        invariant
            i <= waypoints.len(),
            wv == crate::layers::waypoints_view(waypoints@),
            wv.len() == waypoints.len(),
            stack_wf(history@),
            history@.mutation_count <= mc0 + 1 + i,
            mc0 + 1 + wv.len() <= u64::MAX,
            report@ == (ReportV { entries: 0, track_layers: 0, waypoint_layers: 1, tracks: 0, waypoints: i }),
            add_all_waypoints_from(s1, p1, layer_id, wv, 0) == add_all_waypoints_from(history@, project@, layer_id, wv, i as int),
        decreases waypoints.len() - i,
    {
        let w = waypoints[i].clone();
        let _ = history.apply(project, &ProjectCommand::add_waypoint(layer_id, w));
        report.imported_waypoints = report.imported_waypoints + 1;
        i = i + 1;
    }
    report.imported_entries = 1;
    report
}

/// The tracks of a file from the `i`-th on, as they land when the project
/// held `n` tracks before the first of them: each that declares a colour
/// keeps it, and each that does not gets the palette colour for the number
/// of tracks the project holds just before it is added.
pub open spec fn landed_tracks(tracks: Seq<TrackV>, declared: Seq<bool>, i: int, n: int) -> Seq<TrackV> {
    Seq::new((tracks.len() - i) as nat, |k: int| if 0 <= i + k < declared.len() && declared[i + k] {
        tracks[i + k]
    } else {
        TrackV { style: TrackStyle { color: TRACK_PALETTE[(n + k) % 12], ..tracks[i + k].style }, ..tracks[i + k] }
    })
}

/// Adding a file's tracks to a layer: when every one lands, that layer ends
/// with the file's tracks in order, the other layers are as they were, and
/// a track that declares no colour gets the palette colour for the number
/// of tracks the whole project holds just before it is added. So the
/// colours run on from track to track and from file to file: two tracks
/// without a colour added one after the other differ in colour.
pub proof fn law_imported_colours_run_on(
    s: StackV,
    p: ProjectV,
    r: ReportV,
    lid: LayerId,
    tracks: Seq<TrackV>,
    declared: Seq<bool>,
    i: int,
)
    requires
        0 <= i <= tracks.len(),
        crate::project::p_locate_track_layer(p, lid.0) is Ok,
    ensures
        ({
            let (s2, p2, r2, res) = add_tracks_from(s, p, r, lid, tracks, declared, i);
            let li = crate::project::p_locate_track_layer(p, lid.0)->Ok_0;
            res is Ok ==> {
                &&& p2.track_layers.len() == p.track_layers.len()
                &&& p2.track_layers[li] == (TrackLayerV {
                    tracks: p.track_layers[li].tracks + landed_tracks(tracks, declared, i, track_total(p.track_layers)),
                    ..p.track_layers[li]
                })
                &&& forall|j: int| 0 <= j < p.track_layers.len() && j != li ==> #[trigger] p2.track_layers[j] == p.track_layers[j]
                &&& track_total(p2.track_layers) == track_total(p.track_layers) + tracks.len() - i
            }
        }),
    decreases tracks.len() - i,
{
    let li = crate::project::p_locate_track_layer(p, lid.0)->Ok_0;
    let n = track_total(p.track_layers);
    if i == tracks.len() {
        assert(landed_tracks(tracks, declared, i, n) =~= Seq::<TrackV>::empty());
        assert(p.track_layers[li].tracks + Seq::<TrackV>::empty() =~= p.track_layers[li].tracks);
        assert(p.track_layers[li] =~= (TrackLayerV { tracks: p.track_layers[li].tracks, ..p.track_layers[li] }));
    } else {
        let t = imported_track(tracks[i], declares_colour(declared, i), p);
        crate::command_apply::lemma_apply_add_track(p, lid, t);
        let (s2, p2, res) = stack_apply(s, CommandV::AddTrack { layer_id: lid, track: t }, None, p);
        assert(crate::index::is_first(crate::project::track_layer_keys(p.track_layers), lid.0, li));
        let l2 = TrackLayerV { tracks: p.track_layers[li].tracks.push(t), ..p.track_layers[li] };
        assert(p2 == crate::project::p_set_track_layer(p, li, l2));
        assert(crate::project::track_layer_keys(p2.track_layers) =~= crate::project::track_layer_keys(p.track_layers));
        assert(crate::project::p_locate_track_layer(p2, lid.0) == crate::project::p_locate_track_layer(p, lid.0));
        lemma_track_total_update(p.track_layers, li, l2);
        let rr = ReportV { tracks: (r.tracks + 1) as usize, ..r };
        law_imported_colours_run_on(s2, p2, rr, lid, tracks, declared, i + 1);
        let ld = landed_tracks(tracks, declared, i, n);
        let ld2 = landed_tracks(tracks, declared, i + 1, n + 1);
        assert(ld[0] == t);
        assert(ld =~= seq![t] + ld2);
        assert(p.track_layers[li].tracks.push(t) + ld2 =~= p.track_layers[li].tracks + ld);
    }
}

/// The tracks of a file land in a track layer of their own, added after the
/// layers there were, named after the file and numbered past every layer id
/// in use; the layers there were stay as they were; and the file's tracks
/// fill it in order, coloured as they land (a track without a colour gets
/// the palette colour for the number of tracks the project holds just
/// before it, counting across all layers and earlier files).
pub proof fn law_file_tracks_land_in_a_layer_of_their_own(s: StackV, p: ProjectV, r: ReportV, imp: GpxImportV)
    requires
        highest_layer_id(p) < u64::MAX,
    ensures
        ({
            let (s2, p2, r2, res) = import_tracks_spec(s, p, r, imp);
            res is Ok && imp.tracks.len() > 0 ==> {
                &&& p2.track_layers.len() == p.track_layers.len() + 1
                &&& forall|j: int| 0 <= j < p.track_layers.len() ==> #[trigger] p2.track_layers[j] == p.track_layers[j]
                &&& p2.track_layers.last() == (TrackLayerV {
                    id: LayerId((highest_layer_id(p) + 1) as u64),
                    name: file_label(imp.source_path),
                    tracks: landed_tracks(imp.tracks, imp.declared_colours, 0, track_total(p.track_layers)),
                })
            }
        }),
{
    if imp.tracks.len() > 0 {
        let lid = LayerId((highest_layer_id(p) + 1) as u64);
        let c = CommandV::AddTrackLayer { id: lid, name: file_label(imp.source_path) };
        crate::command_apply::lemma_apply_add_track_layer(p, lid, file_label(imp.source_path));
        let (s1, p1, res1) = stack_apply(s, c, None, p);
        let n = p.track_layers.len() as int;
        let keys = crate::project::track_layer_keys(p1.track_layers);
        crate::project_layers::lemma_seq_max_bounds(crate::project::track_layer_keys(p.track_layers));
        assert forall|j: int| 0 <= j < n implies keys[j] != lid.0 by {
            assert(keys[j] == crate::project::track_layer_keys(p.track_layers)[j]);
        }
        assert(crate::index::is_first(keys, lid.0, n));
        crate::index::lemma_first_index_some(keys, lid.0, n);
        assert(p1.track_layers.drop_last() =~= p.track_layers);
        assert(track_total(p1.track_layers) == track_total(p.track_layers));
        let rr = ReportV { track_layers: (r.track_layers + 1) as usize, ..r };
        law_imported_colours_run_on(s1, p1, rr, lid, imp.tracks, imp.declared_colours, 0);
        let (s2, p2, r2, res) = add_tracks_from(s1, p1, rr, lid, imp.tracks, imp.declared_colours, 0);
        if res is Ok {
            assert(Seq::<TrackV>::empty() + landed_tracks(imp.tracks, imp.declared_colours, 0, track_total(p.track_layers))
                =~= landed_tracks(imp.tracks, imp.declared_colours, 0, track_total(p.track_layers)));
            assert forall|j: int| 0 <= j < p.track_layers.len() implies #[trigger] p2.track_layers[j] == p.track_layers[j] by {
                assert(p2.track_layers[j] == p1.track_layers[j]);
            }
            assert(p1.track_layers[n] == TrackLayerV { id: lid, name: file_label(imp.source_path), tracks: Seq::empty() });
            assert(p2.track_layers.last() == p2.track_layers[n]);
        }
    }
}

} // verus!

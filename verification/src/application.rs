use vstd::prelude::*;
use crate::command::CommandError;
use crate::text::{ascii_upper, is_ws, is_whitespace, to_ascii_upper};

verus! {

/// A search as the LizaAlert catalogue lists it.
#[derive(Debug, Clone, PartialEq, Eq)]
pub struct LizaProjectSummary {
    pub slug: String,
    pub name: String,
    pub url: String,
}

/// One map file of a search's bundle.
#[derive(Debug, Clone, PartialEq, Eq)]
pub struct LizaMapPackage {
    pub name: String,
    pub file_name: String,
    pub url: String,
    pub base_zoom: u8,
    pub local_path: Option<String>,
    /// Download size as the listing states it; `None` is "not known", not
    /// zero.
    pub size_bytes: Option<u64>,
}

/// One entry at the top level of a bundle directory.
#[derive(Debug, Clone, PartialEq, Eq)]
pub struct BundleEntry {
    pub name: String,
    pub is_dir: bool,
    /// Size from the listing; folders do not state one.
    pub size_bytes: Option<u64>,
}

#[derive(Debug, Clone, Copy, PartialEq, Eq, Structural)]
pub enum ActiveMapKind {
    SqliteTiles,
    OziRaster,
}

/// Why a local map could not be opened: reading the file, parsing its
/// calibration (both as the reader's message), a raster kind the map view
/// cannot show (by name), or registering its layer.
#[derive(Debug)]
pub enum OpenLocalMapError {
    Read(String),
    Parse(String),
    UnsupportedRasterKind(String),
    Register(CommandError),
}

#[derive(Debug, Clone, Copy, PartialEq, Eq, Structural)]
pub enum DiagnosticLevel {
    Info,
    Warning,
    Error,
}

/// One line of the diagnostics panel.
#[derive(Debug, Clone, PartialEq, Eq)]
pub struct DiagnosticEntry {
    level: DiagnosticLevel,
    message: String,
}

impl DiagnosticEntry {
    pub fn new(level: DiagnosticLevel, message: String) -> (e: Self)
        ensures
            e.level() == level,
            e.message_view() == message@,
    {
        DiagnosticEntry { level, message }
    }

    pub closed spec fn message_view(&self) -> Seq<char> {
        self.message@
    }

    #[verifier::when_used_as_spec(level_spec)]
    pub fn level(&self) -> (l: DiagnosticLevel)
        ensures
            l == self.level_spec(),
    {
        self.level
    }

    pub closed spec fn level_spec(&self) -> DiagnosticLevel {
        self.level
    }

    pub fn message(&self) -> (m: &str)
        ensures
            m@ == self.message_view(),
    {
        self.message.as_str()
    }
}

/// What a day's export wrote: the routes and the marks on them.
#[derive(Debug, Clone, Copy, PartialEq, Eq, Structural)]
pub struct DayExport {
    pub tracks: usize,
    pub waypoints: usize,
}

/// A file fully downloaded inside a bundle download still running.
#[derive(Debug, Clone)]
pub struct ReadyBundleFile {
    pub package_name: String,
    pub local_path: String,
}

/// Why loading a search's bundle did not start: another bundle is being
/// opened (a hint to wait), or the search is not in the catalogue (an error).
#[derive(Debug, Clone, Copy, PartialEq, Eq, Structural)]
pub enum LoadProjectRefusal {
    Busy,
    UnknownProject,
}

pub open spec fn refusal_message(r: LoadProjectRefusal) -> Seq<char> {
    match r {
        LoadProjectRefusal::Busy => "busy: another bundle is still being opened"@,
        LoadProjectRefusal::UnknownProject => "unknown project"@,
    }
}

impl LoadProjectRefusal {
    pub fn message(self) -> (m: &'static str)
        ensures
            m@ == refusal_message(self),
    {
        match self {
            LoadProjectRefusal::Busy => "busy: another bundle is still being opened",
            LoadProjectRefusal::UnknownProject => "unknown project",
        }
    }
}

// ── map datums ───────────────────────────────────────────────────────────

/// A datum name with whitespace and hyphens dropped and letters upper-cased,
/// so that "WGS 84", "WGS84" and "wgs-84" read alike.
pub open spec fn datum_key(name: Seq<char>) -> Seq<char>
    decreases name.len(),
{
    if name.len() == 0 {
        Seq::empty()
    } else {
        let rest = datum_key(name.drop_last());
        let c = name.last();
        if is_ws(c) || c == '-' { rest } else { rest.push(ascii_upper(c)) }
    }
}

pub open spec fn wgs84_key() -> Seq<char> {
    seq!['W', 'G', 'S', '8', '4']
}

/// The warning shown for a map calibrated in a datum other than WGS-84.
pub open spec fn datum_warning_text(name: Seq<char>) -> Seq<char> {
    "Карта откалибрована в датуме "@ + name
        + ": возможно смещение ~100–150 м относительно WGS-84 (треки/GPS). Преобразование датума пока не поддерживается."@
}

/// A warning for a map whose datum is not in the WGS-84 family ("WGS 84",
/// "WGS84", "WGS-84" in any case); `None` for one that is.
pub fn datum_shift_warning(datum_name: &str) -> (w: Option<String>)
    ensures
        match w {
            None => datum_key(datum_name@) == wgs84_key(),
            Some(s) => datum_key(datum_name@) != wgs84_key() && s@ == datum_warning_text(datum_name@),
        },
{
    let n = datum_name.unicode_len();
    let mut key: Vec<char> = Vec::new();
    let mut i: usize = 0;
    proof {
        assert(datum_name@.take(0) =~= Seq::<char>::empty());
    }
    while i < n
        invariant
            n == datum_name@.len(),
            i <= n,
            key@ == datum_key(datum_name@.take(i as int)),
        decreases n - i,
    {
        let c = datum_name.get_char(i);
        proof {
            assert(datum_name@.take(i as int + 1).drop_last() =~= datum_name@.take(i as int));
            assert(datum_name@.take(i as int + 1).last() == c);
        }
        if !(is_whitespace(c) || c == '-') {
            key.push(to_ascii_upper(c));
        }
        i = i + 1;
    }
    proof {
        assert(datum_name@.take(i as int) =~= datum_name@);
    }
    let is_wgs84 = key.len() == 5 && key[0] == 'W' && key[1] == 'G' && key[2] == 'S' && key[3] == '8' && key[4] == '4';
    proof {
        if is_wgs84 {
            assert(key@ =~= wgs84_key());
        } else if key@ == wgs84_key() {
            assert(key@[0] == 'W' && key@[1] == 'G' && key@[2] == 'S' && key@[3] == '8' && key@[4] == '4');
        }
    }
    if is_wgs84 {
        return None;
    }
    let mut s = String::from_str("Карта откалибрована в датуме ");
    s.append(datum_name);
    s.append(": возможно смещение ~100–150 м относительно WGS-84 (треки/GPS). Преобразование датума пока не поддерживается.");
    Some(s)
}

} // verus!

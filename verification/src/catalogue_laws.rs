use vstd::prelude::*;
use crate::application::DiagnosticLevel;
use crate::catalogue::{
    bundle_landed, landed_name, maps_landed, preview_landed, push_line, walk_landed, CatalogueV, PackageV, ProjectSheetV,
    SummaryV, MAX_DIAGNOSTICS,
};

verus! {

/// Each long operation releases only its own flag: a preview answering
/// touches neither flag, a bundle answering releases the bundle flag and not
/// the listing one, and a walk answering releases the listing flag and not
/// the bundle one.
pub proof fn law_each_flag_is_released_by_its_own_operation(
    c: CatalogueV,
    slug: Seq<char>,
    preview: Result<ProjectSheetV, Seq<char>>,
    bundle: Result<ProjectSheetV, Seq<char>>,
    walk: Result<(Seq<SummaryV>, bool), Seq<char>>,
)
    ensures
        preview_landed(c, slug, preview).bundle_busy == c.bundle_busy,
        preview_landed(c, slug, preview).listing_busy == c.listing_busy,
        !bundle_landed(c, bundle).bundle_busy,
        bundle_landed(c, bundle).listing_busy == c.listing_busy,
        !walk_landed(c, walk).listing_busy,
        walk_landed(c, walk).bundle_busy == c.bundle_busy,
{
}

/// A preview of a search the operator has moved away from changes nothing
/// when it answers, whether it brings the maps or a failure.
pub proof fn law_a_stale_preview_changes_nothing(c: CatalogueV, slug: Seq<char>, r: Result<ProjectSheetV, Seq<char>>)
    requires
        c.selected_slug != Some(slug),
    ensures
        preview_landed(c, slug, r) == c,
{
}

/// A walk that ran to the end replaces the list with what it found; one that
/// was stopped removes nothing.
pub proof fn law_only_a_complete_walk_replaces_the_list(c: CatalogueV, found: Seq<SummaryV>, cancelled: bool)
    ensures
        cancelled ==> walk_landed(c, Ok((found, cancelled))).projects == c.projects,
        !cancelled ==> walk_landed(c, Ok((found, cancelled))).projects == found,
{
}

/// While a download runs, a walk that ends leaves the status line to the
/// download; its count still reaches the diagnostics.
pub proof fn law_a_walk_does_not_write_over_a_download(c: CatalogueV, found: Seq<SummaryV>, cancelled: bool)
    requires
        c.downloading.len() > 0,
    ensures
        walk_landed(c, Ok((found, cancelled))).status == c.status,
        walk_landed(c, Ok((found, cancelled))).diagnostics.len() > 0,
{
}

/// The diagnostics never hold more than `MAX_DIAGNOSTICS` lines, and the
/// newest line is always the last one kept.
pub proof fn law_diagnostics_stay_bounded(d: Seq<(DiagnosticLevel, Seq<char>)>, level: DiagnosticLevel, message: Seq<char>)
    requires
        d.len() <= MAX_DIAGNOSTICS,
    ensures
        push_line(d, level, message).len() <= MAX_DIAGNOSTICS,
        push_line(d, level, message).last() == (level, message),
        d.len() < MAX_DIAGNOSTICS ==> push_line(d, level, message) == d.push((level, message)),
{
}

/// A file that lands marks exactly the maps whose file name is the file's
/// own name (the part after its last `/`); the others are untouched.
pub proof fn law_a_ready_file_marks_only_its_own_map(maps: Seq<PackageV>, file: Seq<char>, local_path: Seq<char>, i: int)
    requires
        0 <= i < maps.len(),
    ensures
        maps_landed(maps, landed_name(file), local_path).len() == maps.len(),
        maps[i].file_name == landed_name(file) ==> maps_landed(maps, landed_name(file), local_path)[i].local_path == Some(local_path),
        maps[i].file_name != landed_name(file) ==> maps_landed(maps, landed_name(file), local_path)[i] == maps[i],
{
}

} // verus!

use vstd::prelude::*;
use crate::command::{CommandError, CommandV, ProjectCommand, order_from_values, pairs_view, values_view};
use crate::command_reverse::copy_ids;
use crate::point_order::{order_view, point_id_values, sorted_point_order_by_time, time_order};
use crate::error::ProjectLayerError;
use crate::history::{CommandStack, StackV, stack_apply, stack_discard, stack_redo, stack_undo, stack_wf};
use crate::ids::{LayerId, TrackId, TrackPointId, TrackSegmentId, WaypointId};
use crate::error::{decimal, error_message, push_decimal};
use crate::command_apply::{lemma_apply_add_track_layer, lemma_apply_add_waypoint_layer};
use crate::import::next_layer_id;
use crate::project_layers::highest_layer_id;
use crate::track::{Timestamp, SegmentV, Track, TrackPoint, TrackSegment, TrackV, find_point, point_keys, segments_view};
use crate::layers::{tracks_view, waypoints_view};
use crate::index::first_index;
use crate::waypoint::Waypoint;
use crate::layers::{TrackLayer, WaypointLayer};
use crate::project::{
    Project, ProjectV, track_layers_view, waypoint_layers_view, find_track_layer, find_waypoint_layer, max_segment_id, max_segment_id_exec, p_locate_segment,
    p_locate_track_layer, p_locate_waypoint_layer, p_remove_track, all_tracks_visible, all_waypoints_visible, has_track, has_waypoint, p_edit_track,
    p_locate_waypoint, p_set_track_visible, p_set_waypoint, p_set_waypoint_visible, p_locate_track,
    track_coloured, track_line_width, with_waypoint_visible,
};
use crate::project_layers::untitled_project;
use crate::waypoint::{clone_opt_string, clone_strings, opt_str_view, strings_view, WaypointV};

verus! {

/// What an editing session is, for the contracts: the history, the project,
/// a count of the changes made outside the history (colours and visibility,
/// which are not undone), and both counts as they stood when the project was
/// last saved or opened.
pub struct SessionV {
    pub history: StackV,
    pub project: ProjectV,
    pub style_revision: u64,
    pub saved: (u64, u64),
}

/// The project being edited and the history of its edits.
#[derive(Debug)]
pub struct AppState {
    history: CommandStack,
    project: Project,
    style_revision: u64,
    saved_mutation_state: (u64, u64),
}

impl View for AppState {
    type V = SessionV;

    closed spec fn view(&self) -> SessionV {
        SessionV {
            history: self.history@,
            project: self.project@,
            style_revision: self.style_revision,
            saved: self.saved_mutation_state,
        }
    }
}

pub open spec fn empty_stack() -> StackV {
    StackV { undo: Seq::empty(), redo: Seq::empty(), mutation_count: 0 }
}

/// A command applied through the session's history as its own step.
pub open spec fn session_apply(st: SessionV, c: CommandV) -> (SessionV, Result<(), CommandError>) {
    let (s2, p2, r) = stack_apply(st.history, c, None, st.project);
    (SessionV { history: s2, project: p2, ..st }, r)
}

/// The editing error inside a refused command.
pub open spec fn layer_result(r: Result<(), CommandError>) -> Result<(), ProjectLayerError> {
    match r {
        Ok(_) => Ok(()),
        Err(CommandError::ProjectLayer(e)) => Err(e),
    }
}

/// A change that bypasses the history: the project as `p`, one more style
/// revision.
pub open spec fn styled(st: SessionV, p: ProjectV) -> SessionV {
    SessionV { project: p, style_revision: (st.style_revision + 1) as u64, ..st }
}

fn layer_error(r: Result<(), CommandError>) -> (out: Result<(), ProjectLayerError>)
    ensures
        out == layer_result(r),
{
    match r {
        Ok(()) => Ok(()),
        Err(CommandError::ProjectLayer(e)) => Err(e),
    }
}

impl AppState {
    /// The history is within its bound.
    pub open spec fn wf(&self) -> bool {
        stack_wf(self@.history)
    }

    /// A fresh session on an untitled project, with nothing to save.
    pub fn new() -> (s: Self)
        ensures
            s.wf(),
            s@ == (SessionV { history: empty_stack(), project: untitled_project(), style_revision: 0, saved: (0, 0) }),
    {
        AppState { history: CommandStack::new(), project: Project::untitled(), style_revision: 0, saved_mutation_state: (0, 0) }
    }

    /// The project has changes that are not saved: either count has moved
    /// since it was last saved or opened.
    pub fn project_dirty(&self) -> (b: bool)
        ensures
            b == ((self@.history.mutation_count, self@.style_revision) != self@.saved),
    {
        let (m, s) = self.saved_mutation_state;
        !(self.history.mutation_count() == m && self.style_revision == s)
    }

    /// Record that the project as it stands has been written out.
    pub fn mark_project_saved(&mut self)
        requires
            old(self).wf(),
        ensures
            final(self).wf(),
            final(self)@ == (SessionV { saved: (old(self)@.history.mutation_count, old(self)@.style_revision), ..old(self)@ }),
    {
        self.saved_mutation_state = (self.history.mutation_count(), self.style_revision);
    }

    fn mark_style_mutation(&mut self)
        requires
            old(self)@.style_revision < u64::MAX,
        ensures
            final(self)@ == (SessionV { style_revision: (old(self)@.style_revision + 1) as u64, ..old(self)@ }),
    {
        self.style_revision = self.style_revision + 1;
    }

    /// Start the next search: an untitled project and an empty history.
    /// Undo cannot walk back into the finished search.
    pub fn new_project(&mut self)
        ensures
            final(self).wf(),
            final(self)@ == (SessionV { history: empty_stack(), project: untitled_project(), style_revision: 0, saved: (0, 0) }),
    {
        self.project = Project::untitled();
        self.history = CommandStack::new();
        self.style_revision = 0;
        self.saved_mutation_state = (0, 0);
    }

    /// Take a project that was just read from disk: a fresh history, and
    /// nothing to save.
    pub fn replace_project(&mut self, project: Project)
        ensures
            final(self).wf(),
            final(self)@ == (SessionV {
                history: empty_stack(),
                project: project@,
                style_revision: old(self)@.style_revision,
                saved: (0, old(self)@.style_revision),
            }),
    {
        self.project = project;
        self.history = CommandStack::new();
        self.saved_mutation_state = (0, self.style_revision);
    }

    pub fn current_project(&self) -> (p: &Project)
        ensures
            p@ == self@.project,
    {
        &self.project
    }

    pub fn project_name(&self) -> (n: &str)
        ensures
            n@ == self@.project.name,
    {
        self.project.name.as_str()
    }

    pub fn track_layers(&self) -> (l: &[TrackLayer])
        ensures
            track_layers_view(l@) == self@.project.track_layers,
    {
        self.project.track_layers.as_slice()
    }

    pub fn project_waypoint_layers(&self) -> (l: &[WaypointLayer])
        ensures
            waypoint_layers_view(l@) == self@.project.waypoint_layers,
    {
        self.project.waypoint_layers.as_slice()
    }

    pub fn track_layer_count(&self) -> (n: usize)
        ensures
            n == self@.project.track_layers.len(),
    {
        self.project.track_layers.len()
    }

    pub fn waypoint_layer_count(&self) -> (n: usize)
        ensures
            n == self@.project.waypoint_layers.len(),
    {
        self.project.waypoint_layers.len()
    }

    pub fn map_layer_count(&self) -> (n: usize)
        ensures
            n == self@.project.map_layers.len(),
    {
        self.project.map_layers.len()
    }

    /// The project itself, to edit outside the history. This bypasses undo
    /// and the count of unsaved changes on purpose: it is for building
    /// fixtures.
    pub fn project_mut(&mut self) -> (p: &mut Project)
        ensures
            (*p)@ == old(self)@.project,
            final(self)@ == (SessionV { project: (*final(p))@, ..old(self)@ }),
    {
        &mut self.project
    }

    /// How many changes have been made beside the history.
    pub fn style_revision(&self) -> (n: u64)
        ensures
            n == self@.style_revision,
    {
        self.style_revision
    }

    pub fn history(&self) -> (h: &CommandStack)
        ensures
            h@ == self@.history,
    {
        &self.history
    }

    pub fn undo(&mut self) -> (done: bool)
        requires
            old(self).wf(),
            old(self)@.history.undo.len() > 0 ==> old(self)@.history.mutation_count < u64::MAX,
        ensures
            final(self).wf(),
            ({
                let (s2, p2, d) = stack_undo(old(self)@.history, old(self)@.project);
                final(self)@ == (SessionV { history: s2, project: p2, ..old(self)@ }) && done == d
            }),
    {
        self.history.undo(&mut self.project)
    }

    pub fn redo(&mut self) -> (done: bool)
        requires
            old(self).wf(),
            old(self)@.history.redo.len() > 0 ==> old(self)@.history.mutation_count < u64::MAX,
        ensures
            final(self).wf(),
            ({
                let (s2, p2, d) = stack_redo(old(self)@.history, old(self)@.project);
                final(self)@ == (SessionV { history: s2, project: p2, ..old(self)@ }) && done == d
            }),
    {
        self.history.redo(&mut self.project)
    }

    // ── changes beside the history ───────────────────────────────────────

    /// Colour a track; nothing happens, and nothing is counted, when it is
    /// missing.
    pub fn set_track_color(&mut self, layer_id: LayerId, track_id: TrackId, color: [u8; 4])
        requires
            old(self).wf(),
            old(self)@.style_revision < u64::MAX,
        ensures
            final(self).wf(),
            ({
                let (p2, r) = p_edit_track(old(self)@.project, layer_id.0, track_id.0, track_coloured(color));
                final(self)@ == if r is Ok { styled(old(self)@, p2) } else { old(self)@ }
            }),
    {
        if self.project.set_track_color_in_layer(layer_id.0, track_id.0, color).is_ok() {
            self.mark_style_mutation();
        }
    }

    /// Set a track's line width, given as the bits of the `f32` width the
    /// caller has already brought into range.
    pub fn set_track_line_width(&mut self, layer_id: LayerId, track_id: TrackId, width: u32)
        requires
            old(self).wf(),
            old(self)@.style_revision < u64::MAX,
        ensures
            final(self).wf(),
            ({
                let (p2, r) = p_edit_track(old(self)@.project, layer_id.0, track_id.0, track_line_width(width));
                final(self)@ == if r is Ok { styled(old(self)@, p2) } else { old(self)@ }
            }),
    {
        if self.project.set_track_line_width_in_layer(layer_id.0, track_id.0, width).is_ok() {
            self.mark_style_mutation();
        }
    }

    /// Show or hide every track in one step, counted as one change.
    pub fn set_all_tracks_visible(&mut self, visible: bool)
        requires
            old(self).wf(),
            old(self)@.style_revision < u64::MAX,
        ensures
            final(self).wf(),
            final(self)@ == styled(old(self)@, all_tracks_visible(old(self)@.project, visible)),
    {
        self.project.set_all_tracks_visible(visible);
        self.mark_style_mutation();
    }

    /// Leave one track visible and hide the rest; a missing track changes
    /// nothing.
    pub fn show_only_track(&mut self, layer_id: LayerId, track_id: TrackId) -> (changed: bool)
        requires
            old(self).wf(),
            old(self)@.style_revision < u64::MAX,
        ensures
            final(self).wf(),
            changed == has_track(old(self)@.project, layer_id.0, track_id.0),
            changed ==> final(self)@ == styled(
                old(self)@,
                p_set_track_visible(all_tracks_visible(old(self)@.project, false), layer_id.0, track_id.0, true),
            ),
            !changed ==> final(self)@ == old(self)@,
    {
        let changed = self.project.show_only_track(layer_id, track_id);
        if changed {
            self.mark_style_mutation();
        }
        changed
    }

    /// Flip a track's visibility. A missing track reads as visible, so the
    /// call still counts as a change though nothing is drawn differently.
    pub fn toggle_track_visible(&mut self, layer_id: LayerId, track_id: TrackId)
        requires
            old(self).wf(),
            old(self)@.style_revision < u64::MAX,
        ensures
            final(self).wf(),
            final(self)@ == styled(
                old(self)@,
                p_set_track_visible(old(self)@.project, layer_id.0, track_id.0, !current_visibility(old(self)@.project, layer_id.0, track_id.0)),
            ),
    {
        let visible = match self.project.locate_track(layer_id.0, track_id.0) {
            Ok((li, ti)) => self.project.track_layers[li].tracks[ti].style.visible,
            Err(_) => true,
        };
        self.project.set_track_visible_in_layer(layer_id, track_id, !visible);
        self.mark_style_mutation();
    }

    /// Flip a mark's visibility; a missing mark changes nothing.
    pub fn toggle_waypoint_visible(&mut self, layer_id: LayerId, waypoint_id: WaypointId)
        requires
            old(self).wf(),
            old(self)@.style_revision < u64::MAX,
        ensures
            final(self).wf(),
            match p_locate_waypoint(old(self)@.project, layer_id.0, waypoint_id.0) {
                Ok((li, wi)) => {
                    let w = old(self)@.project.waypoint_layers[li].waypoints[wi];
                    final(self)@ == styled(old(self)@, p_set_waypoint(old(self)@.project, li, wi, with_waypoint_visible(w, !w.visible)))
                },
                Err(_) => final(self)@ == old(self)@,
            },
    {
        if self.project.toggle_waypoint_visible_in_layer(layer_id, waypoint_id).is_some() {
            self.mark_style_mutation();
        }
    }

    /// Show or hide every mark in one step, counted as one change.
    pub fn set_all_waypoints_visible(&mut self, visible: bool)
        requires
            old(self).wf(),
            old(self)@.style_revision < u64::MAX,
        ensures
            final(self).wf(),
            final(self)@ == styled(old(self)@, all_waypoints_visible(old(self)@.project, visible)),
    {
        self.project.set_all_waypoints_visible(visible);
        self.mark_style_mutation();
    }

    /// Leave one mark visible and hide the rest; a missing mark changes
    /// nothing.
    pub fn show_only_waypoint(&mut self, layer_id: LayerId, waypoint_id: WaypointId) -> (changed: bool)
        requires
            old(self).wf(),
            old(self)@.style_revision < u64::MAX,
        ensures
            final(self).wf(),
            changed == has_waypoint(old(self)@.project, layer_id.0, waypoint_id.0),
            changed ==> final(self)@ == styled(
                old(self)@,
                p_set_waypoint_visible(all_waypoints_visible(old(self)@.project, false), layer_id.0, waypoint_id.0, true).0,
            ),
            !changed ==> final(self)@ == old(self)@,
    {
        let changed = self.project.show_only_waypoint(layer_id, waypoint_id);
        if changed {
            self.mark_style_mutation();
        }
        changed
    }
}

/// The message a layer lookup by id answers with when there is no such layer.
pub open spec fn layer_not_found(kind: Seq<char>, layer_id: u64) -> Seq<char> {
    kind + " layer "@ + decimal(layer_id as nat) + " not found"@
}

/// An edit of one mark that reads the mark before it runs: the lookup's
/// error, or the command `mk` makes of the mark as it is, applied.
pub open spec fn edit_waypoint_through(
    st: SessionV,
    layer_id: LayerId,
    waypoint_id: WaypointId,
    mk: spec_fn(WaypointV) -> CommandV,
) -> (SessionV, Result<(), ProjectLayerError>) {
    match p_locate_waypoint(st.project, layer_id.0, waypoint_id.0) {
        Err(e) => (st, Err(e)),
        Ok((li, wi)) => {
            let (st2, r) = session_apply(st, mk(st.project.waypoint_layers[li].waypoints[wi]));
            (st2, layer_result(r))
        },
    }
}

pub open spec fn colour_command(layer_id: LayerId, waypoint_id: WaypointId, new_color: Option<[u8; 4]>) -> spec_fn(WaypointV) -> CommandV {
    |w: WaypointV| CommandV::SetWaypointColor { layer_id, waypoint_id, old_color: w.color, new_color }
}

pub open spec fn symbol_command(layer_id: LayerId, waypoint_id: WaypointId, new_symbol: Option<Seq<char>>) -> spec_fn(WaypointV) -> CommandV {
    |w: WaypointV| CommandV::SetWaypointSymbol { layer_id, waypoint_id, old_symbol: w.symbol, new_symbol }
}

pub open spec fn description_command(layer_id: LayerId, waypoint_id: WaypointId, new_description: Option<Seq<char>>) -> spec_fn(WaypointV) -> CommandV {
    |w: WaypointV| CommandV::SetWaypointDescription { layer_id, waypoint_id, old_description: w.description, new_description }
}

pub open spec fn attachments_command(layer_id: LayerId, waypoint_id: WaypointId, new_attachments: Seq<Seq<char>>) -> spec_fn(WaypointV) -> CommandV {
    |w: WaypointV| CommandV::SetWaypointAttachments { layer_id, waypoint_id, old_attachments: w.attachments, new_attachments }
}

/// A mark's name, or nothing when there is no such mark.
pub open spec fn waypoint_name_or_empty(p: ProjectV, layer_id: u64, waypoint_id: u64) -> Seq<char> {
    match p_locate_waypoint(p, layer_id, waypoint_id) {
        Ok((li, wi)) => p.waypoint_layers[li].waypoints[wi].name,
        Err(_) => Seq::empty(),
    }
}

/// A track's name, or nothing when there is no such track.
pub open spec fn track_name_or_empty(p: ProjectV, layer_id: u64, track_id: u64) -> Seq<char> {
    match p_locate_track(p, layer_id, track_id) {
        Ok((li, ti)) => p.track_layers[li].tracks[ti].name,
        Err(_) => Seq::empty(),
    }
}

impl AppState {
    fn run(&mut self, command: &ProjectCommand) -> (r: Result<(), ProjectLayerError>)
        requires
            old(self).wf(),
            old(self)@.history.mutation_count < u64::MAX,
        ensures
            final(self).wf(),
            ({
                let (st2, res) = session_apply(old(self)@, command@);
                final(self)@ == st2 && r == layer_result(res)
            }),
    {
        let r = self.history.apply(&mut self.project, command);
        layer_error(r)
    }

    /// Colour a mark, as one undoable step.
    pub fn apply_set_waypoint_color(&mut self, layer_id: LayerId, waypoint_id: WaypointId, new_color: Option<[u8; 4]>) -> (r: Result<(), ProjectLayerError>)
        requires
            old(self).wf(),
            old(self)@.history.mutation_count < u64::MAX,
        ensures
            final(self).wf(),
            (final(self)@, r) == edit_waypoint_through(old(self)@, layer_id, waypoint_id, colour_command(layer_id, waypoint_id, new_color)),
    {
        let (li, wi) = match self.project.locate_waypoint(layer_id.0, waypoint_id.0) {
            Ok(x) => x,
            Err(e) => return Err(e),
        };
        let old_color = self.project.waypoint_layers[li].waypoints[wi].color;
        self.run(&ProjectCommand::set_waypoint_color(layer_id, waypoint_id, old_color, new_color))
    }

    /// Give a mark a symbol, or none, as one undoable step.
    pub fn apply_set_waypoint_symbol(&mut self, layer_id: LayerId, waypoint_id: WaypointId, new_symbol: Option<String>) -> (r: Result<(), ProjectLayerError>)
        requires
            old(self).wf(),
            old(self)@.history.mutation_count < u64::MAX,
        ensures
            final(self).wf(),
            (final(self)@, r) == edit_waypoint_through(old(self)@, layer_id, waypoint_id, symbol_command(layer_id, waypoint_id, opt_str_view(new_symbol))),
    {
        let (li, wi) = match self.project.locate_waypoint(layer_id.0, waypoint_id.0) {
            Ok(x) => x,
            Err(e) => return Err(e),
        };
        let old_symbol = clone_opt_string(&self.project.waypoint_layers[li].waypoints[wi].symbol);
        self.run(&ProjectCommand::set_waypoint_symbol(layer_id, waypoint_id, old_symbol, new_symbol))
    }

    /// Set the note beside a mark, as one undoable step.
    pub fn apply_set_waypoint_description(&mut self, layer_id: LayerId, waypoint_id: WaypointId, new_description: Option<String>) -> (r: Result<(), ProjectLayerError>)
        requires
            old(self).wf(),
            old(self)@.history.mutation_count < u64::MAX,
        ensures
            final(self).wf(),
            (final(self)@, r) == edit_waypoint_through(old(self)@, layer_id, waypoint_id, description_command(layer_id, waypoint_id, opt_str_view(new_description))),
    {
        let (li, wi) = match self.project.locate_waypoint(layer_id.0, waypoint_id.0) {
            Ok(x) => x,
            Err(e) => return Err(e),
        };
        let old_description = clone_opt_string(&self.project.waypoint_layers[li].waypoints[wi].description);
        self.run(&ProjectCommand::SetWaypointDescription { layer_id, waypoint_id, old_description, new_description })
    }

    /// Replace the files that belong to a mark, as one undoable step.
    pub fn apply_set_waypoint_attachments(&mut self, layer_id: LayerId, waypoint_id: WaypointId, new_attachments: Vec<String>) -> (r: Result<(), ProjectLayerError>)
        requires
            old(self).wf(),
            old(self)@.history.mutation_count < u64::MAX,
        ensures
            final(self).wf(),
            (final(self)@, r) == edit_waypoint_through(old(self)@, layer_id, waypoint_id, attachments_command(layer_id, waypoint_id, strings_view(new_attachments@))),
    {
        let (li, wi) = match self.project.locate_waypoint(layer_id.0, waypoint_id.0) {
            Ok(x) => x,
            Err(e) => return Err(e),
        };
        let old_attachments = clone_strings(&self.project.waypoint_layers[li].waypoints[wi].attachments);
        self.run(&ProjectCommand::SetWaypointAttachments { layer_id, waypoint_id, old_attachments, new_attachments })
    }

    /// Rename a mark; its name before is read off the project (empty when it
    /// is missing, in which case the command is refused).
    pub fn apply_rename_waypoint(&mut self, layer_id: LayerId, waypoint_id: WaypointId, new_name: String) -> (r: Result<(), ProjectLayerError>)
        requires
            old(self).wf(),
            old(self)@.history.mutation_count < u64::MAX,
        ensures
            final(self).wf(),
            ({
                let c = CommandV::RenameWaypoint {
                    layer_id,
                    waypoint_id,
                    old_name: waypoint_name_or_empty(old(self)@.project, layer_id.0, waypoint_id.0),
                    new_name: new_name@,
                };
                let (st2, res) = session_apply(old(self)@, c);
                final(self)@ == st2 && r == layer_result(res)
            }),
    {
        let old_name = match self.project.locate_waypoint(layer_id.0, waypoint_id.0) {
            Ok((li, wi)) => self.project.waypoint_layers[li].waypoints[wi].name.clone(),
            Err(_) => String::new(),
        };
        self.run(&ProjectCommand::rename_waypoint(layer_id, waypoint_id, old_name, new_name))
    }

    pub fn apply_move_waypoint(&mut self, layer_id: LayerId, waypoint_id: WaypointId, latitude: u64, longitude: u64) -> (r: Result<(), ProjectLayerError>)
        requires
            old(self).wf(),
            old(self)@.history.mutation_count < u64::MAX,
        ensures
            final(self).wf(),
            ({
                let (st2, res) = session_apply(old(self)@, CommandV::MoveWaypoint { layer_id, waypoint_id, latitude, longitude });
                final(self)@ == st2 && r == layer_result(res)
            }),
    {
        self.run(&ProjectCommand::move_waypoint(layer_id, waypoint_id, latitude, longitude))
    }

    pub fn apply_delete_waypoint(&mut self, layer_id: LayerId, waypoint_id: WaypointId) -> (r: Result<(), ProjectLayerError>)
        requires
            old(self).wf(),
            old(self)@.history.mutation_count < u64::MAX,
        ensures
            final(self).wf(),
            ({
                let (st2, res) = session_apply(old(self)@, CommandV::DeleteWaypoint { layer_id, waypoint_id });
                final(self)@ == st2 && r == layer_result(res)
            }),
    {
        self.run(&ProjectCommand::delete_waypoint(layer_id, waypoint_id))
    }

    pub fn apply_delete_track(&mut self, layer_id: LayerId, track_id: TrackId) -> (r: Result<(), ProjectLayerError>)
        requires
            old(self).wf(),
            old(self)@.history.mutation_count < u64::MAX,
        ensures
            final(self).wf(),
            ({
                let (st2, res) = session_apply(old(self)@, CommandV::DeleteTrack { layer_id, track_id });
                final(self)@ == st2 && r == layer_result(res)
            }),
    {
        self.run(&ProjectCommand::delete_track(layer_id, track_id))
    }

    pub fn apply_delete_track_point(&mut self, layer_id: LayerId, track_id: TrackId, segment_id: TrackSegmentId, point_id: TrackPointId) -> (r: Result<(), ProjectLayerError>)
        requires
            old(self).wf(),
            old(self)@.history.mutation_count < u64::MAX,
        ensures
            final(self).wf(),
            ({
                let (st2, res) = session_apply(old(self)@, CommandV::DeleteTrackPoint {
                    layer_id,
                    track_id,
                    segment_id,
                    point_id,
                    removed_index: 0,
                    removed_point: TrackPoint { id: TrackPointId(0), latitude: 0, longitude: 0, elevation: None, timestamp: None },
                });
                final(self)@ == st2 && r == layer_result(res)
            }),
    {
        self.run(&ProjectCommand::delete_track_point(layer_id, track_id, segment_id, point_id))
    }

    pub fn apply_join_segments(&mut self, layer_id: LayerId, track_id: TrackId, segment_id_a: TrackSegmentId, segment_id_b: TrackSegmentId) -> (r: Result<(), ProjectLayerError>)
        requires
            old(self).wf(),
            old(self)@.history.mutation_count < u64::MAX,
        ensures
            final(self).wf(),
            ({
                let (st2, res) = session_apply(old(self)@, CommandV::JoinSegments { layer_id, track_id, segment_id_a, segment_id_b });
                final(self)@ == st2 && r == layer_result(res)
            }),
    {
        self.run(&ProjectCommand::join_segments(layer_id, track_id, segment_id_a, segment_id_b))
    }

    /// Rename a track; its name before is read off the project (empty when it
    /// is missing). Whether the rename was refused is not reported.
    pub fn rename_track(&mut self, layer_id: LayerId, track_id: TrackId, new_name: String)
        requires
            old(self).wf(),
            old(self)@.history.mutation_count < u64::MAX,
        ensures
            final(self).wf(),
            final(self)@ == session_apply(old(self)@, CommandV::RenameTrack {
                layer_id,
                track_id,
                old_name: track_name_or_empty(old(self)@.project, layer_id.0, track_id.0),
                new_name: new_name@,
            }).0,
    {
        let old_name = match self.project.locate_track(layer_id.0, track_id.0) {
            Ok((li, ti)) => self.project.track_layers[li].tracks[ti].name.clone(),
            Err(_) => String::new(),
        };
        let _ = self.run(&ProjectCommand::rename_track(layer_id, track_id, old_name, new_name));
    }
}

// ── ids for what the operator creates ────────────────────────────────────

pub open spec fn max_track_id(tracks: Seq<TrackV>) -> int
    decreases tracks.len(),
{
    if tracks.len() == 0 {
        0
    } else {
        let rest = max_track_id(tracks.drop_last());
        if tracks.last().id.0 > rest { tracks.last().id.0 as int } else { rest }
    }
}

pub open spec fn max_waypoint_id(waypoints: Seq<WaypointV>) -> int
    decreases waypoints.len(),
{
    if waypoints.len() == 0 {
        0
    } else {
        let rest = max_waypoint_id(waypoints.drop_last());
        if waypoints.last().id.0 > rest { waypoints.last().id.0 as int } else { rest }
    }
}

pub open spec fn max_point_id(points: Seq<TrackPoint>) -> int
    decreases points.len(),
{
    if points.len() == 0 {
        0
    } else {
        let rest = max_point_id(points.drop_last());
        if points.last().id.0 > rest { points.last().id.0 as int } else { rest }
    }
}

/// The largest point id anywhere in these segments, or 0.
pub open spec fn max_track_point_id(segments: Seq<SegmentV>) -> int
    decreases segments.len(),
{
    if segments.len() == 0 {
        0
    } else {
        let rest = max_track_point_id(segments.drop_last());
        let here = max_point_id(segments.last().points);
        if here > rest { here } else { rest }
    }
}

/// The largest track id in the first layer with this id (0 when there is
/// none); a new track takes the next.
pub open spec fn track_id_ceiling(p: ProjectV, layer_id: u64) -> int {
    match p_locate_track_layer(p, layer_id) {
        Ok(li) => max_track_id(p.track_layers[li].tracks),
        Err(_) => 0,
    }
}

pub open spec fn waypoint_id_ceiling(p: ProjectV, layer_id: u64) -> int {
    match p_locate_waypoint_layer(p, layer_id) {
        Ok(li) => max_waypoint_id(p.waypoint_layers[li].waypoints),
        Err(_) => 0,
    }
}

pub open spec fn point_id_ceiling(p: ProjectV, layer_id: u64, track_id: u64) -> int {
    match p_locate_track(p, layer_id, track_id) {
        Ok((li, ti)) => max_track_point_id(p.track_layers[li].tracks[ti].segments),
        Err(_) => 0,
    }
}

pub open spec fn segment_id_ceiling(p: ProjectV, layer_id: u64, track_id: u64) -> int {
    match p_locate_track(p, layer_id, track_id) {
        Ok((li, ti)) => max_segment_id(p.track_layers[li].tracks[ti].segments),
        Err(_) => 0,
    }
}

fn max_track_id_exec(tracks: &Vec<Track>) -> (m: u64)
    ensures
        m as int == max_track_id(tracks_view(tracks@)),
{
    let ghost tv = tracks_view(tracks@);
    let mut m: u64 = 0;
    let mut i: usize = 0;
    while i < tracks.len()
        invariant
            i <= tracks.len(),
            tv == tracks_view(tracks@),
            m as int == max_track_id(tv.take(i as int)),
        decreases tracks.len() - i,
    {
        proof {
            assert(tv.take(i as int + 1).drop_last() =~= tv.take(i as int));
        }
        if tracks[i].id.0 > m {
            m = tracks[i].id.0;
        }
        i = i + 1;
    }
    proof {
        assert(tv.take(i as int) =~= tv);
    }
    m
}

fn max_waypoint_id_exec(waypoints: &Vec<Waypoint>) -> (m: u64)
    ensures
        m as int == max_waypoint_id(waypoints_view(waypoints@)),
{
    let ghost wv = waypoints_view(waypoints@);
    let mut m: u64 = 0;
    let mut i: usize = 0;
    while i < waypoints.len()
        invariant
            i <= waypoints.len(),
            wv == waypoints_view(waypoints@),
            m as int == max_waypoint_id(wv.take(i as int)),
        decreases waypoints.len() - i,
    {
        proof {
            assert(wv.take(i as int + 1).drop_last() =~= wv.take(i as int));
        }
        if waypoints[i].id.0 > m {
            m = waypoints[i].id.0;
        }
        i = i + 1;
    }
    proof {
        assert(wv.take(i as int) =~= wv);
    }
    m
}

fn max_point_id_exec(points: &Vec<TrackPoint>) -> (m: u64)
    ensures
        m as int == max_point_id(points@),
{
    let mut m: u64 = 0;
    let mut i: usize = 0;
    while i < points.len()
        invariant
            i <= points.len(),
            m as int == max_point_id(points@.take(i as int)),
        decreases points.len() - i,
    {
        proof {
            assert(points@.take(i as int + 1).drop_last() =~= points@.take(i as int));
        }
        if points[i].id.0 > m {
            m = points[i].id.0;
        }
        i = i + 1;
    }
    proof {
        assert(points@.take(i as int) =~= points@);
    }
    m
}

proof fn lemma_max_point_id_bounded(points: Seq<TrackPoint>)
    ensures
        0 <= max_point_id(points) <= u64::MAX,
    decreases points.len(),
{
    if points.len() > 0 {
        lemma_max_point_id_bounded(points.drop_last());
    }
}

fn max_track_point_id_exec(segments: &Vec<TrackSegment>) -> (m: u64)
    ensures
        m as int == max_track_point_id(segments_view(segments@)),
{
    let ghost sv = segments_view(segments@);
    let mut m: u64 = 0;
    let mut i: usize = 0;
    while i < segments.len()
        invariant
            i <= segments.len(),
            sv == segments_view(segments@),
            m as int == max_track_point_id(sv.take(i as int)),
        decreases segments.len() - i,
    {
        proof {
            assert(sv.take(i as int + 1).drop_last() =~= sv.take(i as int));
            assert(sv[i as int].points == segments@[i as int].points@);
        }
        let here = max_point_id_exec(&segments[i].points);
        if here > m {
            m = here;
        }
        i = i + 1;
    }
    proof {
        assert(sv.take(i as int) =~= sv);
    }
    m
}

impl AppState {
    /// The largest track id in the layer, or 0.
    fn track_id_ceiling_exec(&self, layer_id: u64) -> (m: u64)
        ensures
            m as int == track_id_ceiling(self@.project, layer_id),
    {
        match find_track_layer(&self.project.track_layers, layer_id) {
            Some(li) => max_track_id_exec(&self.project.track_layers[li].tracks),
            None => 0,
        }
    }

    fn waypoint_id_ceiling_exec(&self, layer_id: u64) -> (m: u64)
        ensures
            m as int == waypoint_id_ceiling(self@.project, layer_id),
    {
        match find_waypoint_layer(&self.project.waypoint_layers, layer_id) {
            Some(li) => max_waypoint_id_exec(&self.project.waypoint_layers[li].waypoints),
            None => 0,
        }
    }

    /// Start a new, empty track in a layer, under the next free track id of
    /// that layer, and answer with the id.
    pub fn apply_create_empty_track(&mut self, layer_id: LayerId, name: String) -> (r: Result<TrackId, ProjectLayerError>)
        requires
            old(self).wf(),
            old(self)@.history.mutation_count < u64::MAX,
            track_id_ceiling(old(self)@.project, layer_id.0) < u64::MAX,
        ensures
            final(self).wf(),
            ({
                let id = TrackId((track_id_ceiling(old(self)@.project, layer_id.0) + 1) as u64);
                let (st2, res) = session_apply(old(self)@, CommandV::CreateEmptyTrack { layer_id, track_id: id, name: name@ });
                &&& final(self)@ == st2
                &&& r == match layer_result(res) {
                    Ok(_) => Ok::<TrackId, ProjectLayerError>(id),
                    Err(e) => Err(e),
                }
            }),
    {
        let new_id = TrackId(self.track_id_ceiling_exec(layer_id.0) + 1);
        match self.run(&ProjectCommand::create_empty_track(layer_id, new_id, name)) {
            Ok(()) => Ok(new_id),
            Err(e) => Err(e),
        }
    }

    /// Put a new mark in a layer, under the next free mark id of that layer.
    pub fn apply_add_waypoint(&mut self, layer_id: LayerId, latitude: u64, longitude: u64, name: String) -> (r: Result<(), ProjectLayerError>)
        requires
            old(self).wf(),
            old(self)@.history.mutation_count < u64::MAX,
            waypoint_id_ceiling(old(self)@.project, layer_id.0) < u64::MAX,
        ensures
            final(self).wf(),
            ({
                let w = WaypointV {
                    id: WaypointId((waypoint_id_ceiling(old(self)@.project, layer_id.0) + 1) as u64),
                    name: name@,
                    symbol: None,
                    latitude,
                    longitude,
                    visible: true,
                    color: None,
                    description: None,
                    attachments: Seq::empty(),
                };
                let (st2, res) = session_apply(old(self)@, CommandV::AddWaypoint { layer_id, waypoint: w });
                final(self)@ == st2 && r == layer_result(res)
            }),
    {
        let new_id = WaypointId(self.waypoint_id_ceiling_exec(layer_id.0) + 1);
        let waypoint = Waypoint::new(new_id, name.as_str(), latitude, longitude);
        self.run(&ProjectCommand::add_waypoint(layer_id, waypoint))
    }

    /// Insert a new point at `index` of a segment, under the next point id
    /// free in its track.
    pub fn apply_insert_track_point(
        &mut self,
        layer_id: LayerId,
        track_id: TrackId,
        segment_id: TrackSegmentId,
        index: usize,
        latitude: u64,
        longitude: u64,
    ) -> (r: Result<(), ProjectLayerError>)
        requires
            old(self).wf(),
            old(self)@.history.mutation_count < u64::MAX,
            point_id_ceiling(old(self)@.project, layer_id.0, track_id.0) < u64::MAX,
        ensures
            final(self).wf(),
            ({
                let point = TrackPoint {
                    id: TrackPointId((point_id_ceiling(old(self)@.project, layer_id.0, track_id.0) + 1) as u64),
                    latitude,
                    longitude,
                    elevation: None,
                    timestamp: None,
                };
                let (st2, res) = session_apply(old(self)@, CommandV::InsertTrackPoint { layer_id, track_id, segment_id, index, point });
                final(self)@ == st2 && r == layer_result(res)
            }),
    {
        let max_id = match self.project.locate_track(layer_id.0, track_id.0) {
            Ok((li, ti)) => max_track_point_id_exec(&self.project.track_layers[li].tracks[ti].segments),
            Err(_) => 0,
        };
        let point = TrackPoint::new(TrackPointId(max_id + 1), latitude, longitude);
        self.run(&ProjectCommand::insert_track_point(layer_id, track_id, segment_id, index, point))
    }

    /// Split a segment at a point; the new segment takes the next segment id
    /// free in its track.
    pub fn apply_split_segment(&mut self, layer_id: LayerId, track_id: TrackId, segment_id: TrackSegmentId, point_id: TrackPointId) -> (r: Result<(), ProjectLayerError>)
        requires
            old(self).wf(),
            old(self)@.history.mutation_count < u64::MAX,
            segment_id_ceiling(old(self)@.project, layer_id.0, track_id.0) < u64::MAX,
        ensures
            final(self).wf(),
            ({
                let new_segment_id = TrackSegmentId((segment_id_ceiling(old(self)@.project, layer_id.0, track_id.0) + 1) as u64);
                let (st2, res) = session_apply(old(self)@, CommandV::SplitSegment { layer_id, track_id, segment_id, point_id, new_segment_id });
                final(self)@ == st2 && r == layer_result(res)
            }),
    {
        let max_id = match self.project.locate_track(layer_id.0, track_id.0) {
            Ok((li, ti)) => max_segment_id_exec(&self.project.track_layers[li].tracks[ti].segments),
            Err(_) => 0,
        };
        self.run(&ProjectCommand::split_segment(layer_id, track_id, segment_id, point_id, TrackSegmentId(max_id + 1)))
    }

    /// Move a track point; its coordinates before are read off the project
    /// (the new ones when it is missing, in which case the command is
    /// refused).
    pub fn apply_move_track_point(
        &mut self,
        layer_id: LayerId,
        track_id: TrackId,
        segment_id: TrackSegmentId,
        point_id: TrackPointId,
        lat: u64,
        lon: u64,
    ) -> (r: Result<(), ProjectLayerError>)
        requires
            old(self).wf(),
            old(self)@.history.mutation_count < u64::MAX,
        ensures
            final(self).wf(),
            ({
                let (old_lat, old_lon) = point_position_or(old(self)@.project, layer_id.0, track_id.0, segment_id.0, point_id.0, (lat, lon));
                let c = CommandV::MoveTrackPoint { layer_id, track_id, segment_id, point_id, lat, lon, old_lat, old_lon };
                let (st2, res) = session_apply(old(self)@, c);
                final(self)@ == st2 && r == layer_result(res)
            }),
    {
        let (old_lat, old_lon) = match self.project.locate_segment(layer_id.0, track_id.0, segment_id.0) {
            Ok((li, ti, si)) => {
                let seg = &self.project.track_layers[li].tracks[ti].segments[si];
                match find_point(&seg.points, point_id.0) {
                    Some(k) => (seg.points[k].latitude, seg.points[k].longitude),
                    None => (lat, lon),
                }
            },
            Err(_) => (lat, lon),
        };
        self.run(&ProjectCommand::move_track_point(layer_id, track_id, segment_id, point_id, lat, lon, old_lat, old_lon))
    }

    /// Drop the points a simplification chose (`removed`, each with the
    /// segment and index it had), as one undoable step. Choosing them is
    /// done on the coordinates as numbers, outside this crate.
    pub fn apply_simplify_track(&mut self, layer_id: LayerId, track_id: TrackId, tolerance_km: u64, removed: Vec<(TrackSegmentId, usize, TrackPoint)>) -> (r: Result<(), ProjectLayerError>)
        requires
            old(self).wf(),
            old(self)@.history.mutation_count < u64::MAX,
        ensures
            final(self).wf(),
            ({
                let (st2, res) = session_apply(old(self)@, CommandV::SimplifyTrack { layer_id, track_id, tolerance_km, removed: removed@ });
                final(self)@ == st2 && r == layer_result(res)
            }),
    {
        self.run(&ProjectCommand::simplify_track(layer_id, track_id, tolerance_km, removed))
    }
}

/// What a refused command answers an operator with: the error's message.
pub open spec fn message_result(r: Result<(), CommandError>) -> Result<(), Seq<char>> {
    match r {
        Ok(_) => Ok(()),
        Err(CommandError::ProjectLayer(e)) => Err(error_message(e)),
    }
}

pub open spec fn string_result(r: Result<(), String>) -> Result<(), Seq<char>> {
    match r {
        Ok(_) => Ok(()),
        Err(s) => Err(s@),
    }
}

fn message_of(r: Result<(), ProjectLayerError>) -> (out: Result<(), String>)
    ensures
        string_result(out) == match r {
            Ok(_) => Ok::<(), Seq<char>>(()),
            Err(e) => Err(error_message(e)),
        },
{
    match r {
        Ok(()) => Ok(()),
        Err(e) => Err(e.to_string()),
    }
}

fn not_found(kind: &str, layer_id: u64) -> (s: String)
    ensures
        s@ == layer_not_found(kind@, layer_id),
{
    let mut s = String::from_str(kind);
    s.append(" layer ");
    push_decimal(&mut s, layer_id);
    s.append(" not found");
    s
}

impl AppState {
    /// Make an empty track layer under the next free layer id, and answer
    /// with the id.
    pub fn create_track_layer(&mut self, name: String) -> (r: Result<u64, String>)
        requires
            old(self).wf(),
            old(self)@.history.mutation_count < u64::MAX,
            highest_layer_id(old(self)@.project) < u64::MAX,
        ensures
            final(self).wf(),
            ({
                let id = LayerId((highest_layer_id(old(self)@.project) + 1) as u64);
                &&& final(self)@ == session_apply(old(self)@, CommandV::AddTrackLayer { id, name: name@ }).0
                &&& r == Ok::<u64, String>(id.0)
            }),
    {
        let id = next_layer_id(&self.project);
        proof {
            lemma_apply_add_track_layer(self@.project, id, name@);
        }
        match self.run(&ProjectCommand::add_track_layer(id, name)) {
            Ok(()) => Ok(id.0),
            Err(e) => Err(e.to_string()),
        }
    }

    pub fn create_waypoint_layer(&mut self, name: String) -> (r: Result<u64, String>)
        requires
            old(self).wf(),
            old(self)@.history.mutation_count < u64::MAX,
            highest_layer_id(old(self)@.project) < u64::MAX,
        ensures
            final(self).wf(),
            ({
                let id = LayerId((highest_layer_id(old(self)@.project) + 1) as u64);
                &&& final(self)@ == session_apply(old(self)@, CommandV::AddWaypointLayer { id, name: name@ }).0
                &&& r == Ok::<u64, String>(id.0)
            }),
    {
        let id = next_layer_id(&self.project);
        proof {
            lemma_apply_add_waypoint_layer(self@.project, id, name@);
        }
        match self.run(&ProjectCommand::add_waypoint_layer(id, name)) {
            Ok(()) => Ok(id.0),
            Err(e) => Err(e.to_string()),
        }
    }

    /// Rename a track layer, undoably; a missing layer is an error that
    /// names it.
    pub fn rename_track_layer(&mut self, layer_id: LayerId, new_name: String) -> (r: Result<(), String>)
        requires
            old(self).wf(),
            old(self)@.history.mutation_count < u64::MAX,
        ensures
            final(self).wf(),
            match p_locate_track_layer(old(self)@.project, layer_id.0) {
                Err(_) => final(self)@ == old(self)@ && string_result(r) == Err::<(), Seq<char>>(layer_not_found("track"@, layer_id.0)),
                Ok(li) => {
                    let c = CommandV::RenameTrackLayer { layer_id, old_name: old(self)@.project.track_layers[li].name, new_name: new_name@ };
                    let (st2, res) = session_apply(old(self)@, c);
                    final(self)@ == st2 && string_result(r) == message_result(res)
                },
            },
    {
        let old_name = match find_track_layer(&self.project.track_layers, layer_id.0) {
            Some(li) => self.project.track_layers[li].name.clone(),
            None => return Err(not_found("track", layer_id.0)),
        };
        let r = self.run(&ProjectCommand::RenameTrackLayer { layer_id, old_name, new_name });
        message_of(r)
    }

    pub fn rename_waypoint_layer(&mut self, layer_id: LayerId, new_name: String) -> (r: Result<(), String>)
        requires
            old(self).wf(),
            old(self)@.history.mutation_count < u64::MAX,
        ensures
            final(self).wf(),
            match p_locate_waypoint_layer(old(self)@.project, layer_id.0) {
                Err(_) => final(self)@ == old(self)@ && string_result(r) == Err::<(), Seq<char>>(layer_not_found("waypoint"@, layer_id.0)),
                Ok(li) => {
                    let c = CommandV::RenameWaypointLayer { layer_id, old_name: old(self)@.project.waypoint_layers[li].name, new_name: new_name@ };
                    let (st2, res) = session_apply(old(self)@, c);
                    final(self)@ == st2 && string_result(r) == message_result(res)
                },
            },
    {
        let old_name = match find_waypoint_layer(&self.project.waypoint_layers, layer_id.0) {
            Some(li) => self.project.waypoint_layers[li].name.clone(),
            None => return Err(not_found("waypoint", layer_id.0)),
        };
        let r = self.run(&ProjectCommand::RenameWaypointLayer { layer_id, old_name, new_name });
        message_of(r)
    }

    /// Remove a track layer with everything in it, as one undoable step:
    /// the command carries the whole layer.
    pub fn delete_track_layer(&mut self, layer_id: LayerId) -> (r: Result<(), String>)
        requires
            old(self).wf(),
            old(self)@.history.mutation_count < u64::MAX,
        ensures
            final(self).wf(),
            match p_locate_track_layer(old(self)@.project, layer_id.0) {
                Err(_) => final(self)@ == old(self)@ && string_result(r) == Err::<(), Seq<char>>(layer_not_found("track"@, layer_id.0)),
                Ok(li) => {
                    let c = CommandV::RemoveTrackLayer { layer: old(self)@.project.track_layers[li] };
                    let (st2, res) = session_apply(old(self)@, c);
                    final(self)@ == st2 && string_result(r) == message_result(res)
                },
            },
    {
        let layer = match find_track_layer(&self.project.track_layers, layer_id.0) {
            Some(li) => self.project.track_layers[li].clone(),
            None => return Err(not_found("track", layer_id.0)),
        };
        let r = self.run(&ProjectCommand::RemoveTrackLayer { layer });
        message_of(r)
    }

    pub fn delete_waypoint_layer(&mut self, layer_id: LayerId) -> (r: Result<(), String>)
        requires
            old(self).wf(),
            old(self)@.history.mutation_count < u64::MAX,
        ensures
            final(self).wf(),
            match p_locate_waypoint_layer(old(self)@.project, layer_id.0) {
                Err(_) => final(self)@ == old(self)@ && string_result(r) == Err::<(), Seq<char>>(layer_not_found("waypoint"@, layer_id.0)),
                Ok(li) => {
                    let c = CommandV::RemoveWaypointLayer { layer: old(self)@.project.waypoint_layers[li] };
                    let (st2, res) = session_apply(old(self)@, c);
                    final(self)@ == st2 && string_result(r) == message_result(res)
                },
            },
    {
        let layer = match find_waypoint_layer(&self.project.waypoint_layers, layer_id.0) {
            Some(li) => self.project.waypoint_layers[li].clone(),
            None => return Err(not_found("waypoint", layer_id.0)),
        };
        let r = self.run(&ProjectCommand::RemoveWaypointLayer { layer });
        message_of(r)
    }

    /// Abandon a drawing in progress: forget the last `command_count` steps
    /// (they are undone but not kept for redo), then remove the track the
    /// drawing made, which the history may no longer reach when the drawing
    /// was longer than it keeps. Answers how many steps were forgotten.
    pub fn cancel_drawing_of(&mut self, layer_id: LayerId, track_id: TrackId, command_count: usize) -> (discarded: usize)
        requires
            old(self).wf(),
        ensures
            final(self).wf(),
            ({
                let (s2, p2, n) = stack_discard(old(self)@.history, old(self)@.project, command_count as nat);
                &&& final(self)@ == (SessionV { history: s2, project: p_remove_track(p2, layer_id.0, track_id.0).0, ..old(self)@ })
                &&& discarded == n
            }),
    {
        let discarded = self.history.discard_last(command_count, &mut self.project);
        let _ = self.project.remove_track_from_layer(layer_id, track_id);
        discarded
    }
}

// ── sorting and cropping a track ─────────────────────────────────────────

/// Each segment's id and point ids, in the order they stand.
pub open spec fn present_order(segments: Seq<SegmentV>) -> Seq<(u64, Seq<u64>)> {
    Seq::new(segments.len(), |i: int| (segments[i].id.0, point_id_values(segments[i].points)))
}

/// The segments of the addressed track, or none.
pub open spec fn segments_of(p: ProjectV, layer_id: u64, track_id: u64) -> Seq<SegmentV> {
    match p_locate_track(p, layer_id, track_id) {
        Ok((li, ti)) => p.track_layers[li].tracks[ti].segments,
        Err(_) => Seq::empty(),
    }
}

/// Whether the segments already stand in the order given.
fn order_matches(segments: &Vec<TrackSegment>, order: &Vec<(u64, Vec<u64>)>) -> (b: bool)
    ensures
        b == (present_order(segments_view(segments@)) == order_view(order@)),
{
    let ghost sv = segments_view(segments@);
    let ghost ov = order_view(order@);
    if segments.len() != order.len() {
        proof {
            assert(present_order(sv).len() != ov.len());
        }
        return false;
    }
    let mut i: usize = 0;
    while i < segments.len()
        invariant
            i <= segments.len(),
            segments.len() == order.len(),
            sv == segments_view(segments@),
            ov == order_view(order@),
            forall|j: int| 0 <= j < i ==> present_order(sv)[j] == ov[j],
        decreases segments.len() - i,
    {
        let seg = &segments[i];
        let ids = &order[i].1;
        proof {
            assert(sv[i as int] == seg@);
            assert(ov[i as int] == (order@[i as int].0, ids@));
        }
        if seg.id.0 != order[i].0 || seg.points.len() != ids.len() {
            proof {
                assert(present_order(sv)[i as int] != ov[i as int]);
            }
            return false;
        }
        let mut k: usize = 0;
        while k < ids.len()
            invariant
                k <= ids.len(),
                ids.len() == seg.points.len(),
                i < segments.len(),
                segments.len() == order.len(),
                sv == segments_view(segments@),
                ov == order_view(order@),
                sv[i as int] == seg@,
                ov[i as int] == (order@[i as int].0, ids@),
                forall|m: int| 0 <= m < k ==> seg.points@[m].id.0 == ids@[m],
            decreases ids.len() - k,
        {
            if seg.points[k].id.0 != ids[k] {
                proof {
                    assert(point_id_values(seg.points@)[k as int] != ids@[k as int]);
                    assert(present_order(sv)[i as int].1 != ov[i as int].1);
                }
                return false;
            }
            k = k + 1;
        }
        proof {
            assert(point_id_values(seg.points@) =~= ids@);
            assert(present_order(sv)[i as int] == ov[i as int]);
        }
        i = i + 1;
    }
    proof {
        assert(present_order(sv) =~= ov);
    }
    true
}

/// The ids of the points `remove` picks, in order; `remove` sees each
/// point's position as well as the point.
pub open spec fn ids_where(points: Seq<TrackPoint>, remove: spec_fn(int, TrackPoint) -> bool) -> Seq<TrackPointId>
    decreases points.len(),
{
    if points.len() == 0 {
        Seq::empty()
    } else {
        let rest = ids_where(points.drop_last(), remove);
        if remove(points.len() - 1, points.last()) { rest.push(points.last().id) } else { rest }
    }
}

/// The pairs with at least one point id, in order.
pub open spec fn nonempty_pairs(pairs: Seq<(TrackSegmentId, Seq<TrackPointId>)>) -> Seq<(TrackSegmentId, Seq<TrackPointId>)>
    decreases pairs.len(),
{
    if pairs.len() == 0 {
        Seq::empty()
    } else {
        let rest = nonempty_pairs(pairs.drop_last());
        if pairs.last().1.len() > 0 { rest.push(pairs.last()) } else { rest }
    }
}

/// How many point ids the pairs name.
pub open spec fn pair_total(pairs: Seq<(TrackSegmentId, Seq<TrackPointId>)>) -> int
    decreases pairs.len(),
{
    if pairs.len() == 0 { 0 } else { pair_total(pairs.drop_last()) + pairs.last().1.len() }
}

/// Cropping a track to the points not listed: a missing track is an error;
/// a list that names no point changes nothing and answers 0; otherwise one
/// undoable crop of the non-empty pairs, answering how many points it
/// named.
pub open spec fn session_crop(st: SessionV, layer_id: LayerId, track_id: TrackId, pairs: Seq<(TrackSegmentId, Seq<TrackPointId>)>) -> (SessionV, Result<usize, ProjectLayerError>) {
    match p_locate_track(st.project, layer_id.0, track_id.0) {
        Err(_) => (st, Err(ProjectLayerError::MissingTrack { layer_id: layer_id.0, track_id: track_id.0 })),
        Ok(_) => {
            let n = pair_total(pairs);
            if n == 0 {
                (st, Ok(0))
            } else {
                let (st2, r) = session_apply(st, CommandV::CropTrackPoints { layer_id, track_id, points: nonempty_pairs(pairs) });
                (st2, match layer_result(r) {
                    Ok(_) => Ok(n as usize),
                    Err(e) => Err(e),
                })
            }
        },
    }
}

/// `a` comes strictly before `b`.
pub open spec fn ts_before(a: Timestamp, b: Timestamp) -> bool {
    a.secs < b.secs || (a.secs == b.secs && a.nanos < b.nanos)
}

/// A point a crop to `[from, to]` removes: a timed point outside the range.
/// An untimed point is always kept.
pub open spec fn outside_time(p: TrackPoint, from: Option<Timestamp>, to: Option<Timestamp>) -> bool {
    match p.timestamp {
        None => false,
        Some(ts) => (from matches Some(f) && ts_before(ts, f)) || (to matches Some(t) && ts_before(t, ts)),
    }
}

pub open spec fn time_pick(from: Option<Timestamp>, to: Option<Timestamp>) -> spec_fn(int, TrackPoint) -> bool {
    |k: int, p: TrackPoint| outside_time(p, from, to)
}

/// For each segment, the points a crop to `[from, to]` removes.
pub open spec fn time_pairs(segments: Seq<SegmentV>, from: Option<Timestamp>, to: Option<Timestamp>) -> Seq<(TrackSegmentId, Seq<TrackPointId>)> {
    Seq::new(segments.len(), |i: int| (segments[i].id, ids_where(segments[i].points, time_pick(from, to))))
}

/// Some point before position `k` of `points` has id `pt`.
pub open spec fn seen_in(points: Seq<TrackPoint>, k: int, pt: u64) -> bool {
    exists|b: int| 0 <= b < k && #[trigger] points[b].id.0 == pt
}

/// Some point of a segment before segment `i` has id `pt`.
pub open spec fn seen_before_segment(segments: Seq<SegmentV>, i: int, pt: u64) -> bool {
    exists|a: int| 0 <= a < i && #[trigger] seen_in(segments[a].points, segments[a].points.len() as int, pt)
}

/// A point trimming at `pt` removes: not `pt` itself, and before it (when
/// `before`) or after it (otherwise), walking the track in order.
pub open spec fn trim_pick(segments: Seq<SegmentV>, i: int, pt: u64, before: bool) -> spec_fn(int, TrackPoint) -> bool {
    |k: int, p: TrackPoint| p.id.0 != pt && (before != (seen_before_segment(segments, i, pt) || seen_in(segments[i].points, k, pt)))
}

pub open spec fn trim_pairs(segments: Seq<SegmentV>, pt: u64, before: bool) -> Seq<(TrackSegmentId, Seq<TrackPointId>)> {
    Seq::new(segments.len(), |i: int| (segments[i].id, ids_where(segments[i].points, trim_pick(segments, i, pt, before))))
}

fn time_outside(p: &TrackPoint, from: Option<Timestamp>, to: Option<Timestamp>) -> (b: bool)
    ensures
        b == outside_time(*p, from, to),
{
    match p.timestamp {
        None => false,
        Some(ts) => {
            let early = match from {
                Some(f) => ts.secs < f.secs || (ts.secs == f.secs && ts.nanos < f.nanos),
                None => false,
            };
            let late = match to {
                Some(t) => t.secs < ts.secs || (t.secs == ts.secs && t.nanos < ts.nanos),
                None => false,
            };
            early || late
        },
    }
}

fn copy_pairs_of(pairs: &Vec<(TrackSegmentId, Vec<TrackPointId>)>) -> (out: (Vec<(TrackSegmentId, Vec<TrackPointId>)>, usize))
    requires
        pair_total(pairs_view(pairs@)) <= usize::MAX,
    ensures
        pairs_view(out.0@) == nonempty_pairs(pairs_view(pairs@)),
        out.1 == pair_total(pairs_view(pairs@)),
{
    let ghost pv = pairs_view(pairs@);
    let mut kept: Vec<(TrackSegmentId, Vec<TrackPointId>)> = Vec::new();
    let mut n: usize = 0;
    let mut i: usize = 0;
    while i < pairs.len()
        invariant
            i <= pairs.len(),
            pv == pairs_view(pairs@),
            pair_total(pv) <= usize::MAX,
            pairs_view(kept@) == nonempty_pairs(pv.take(i as int)),
            n == pair_total(pv.take(i as int)),
        decreases pairs.len() - i,
    {
        proof {
            assert(pv.take(i as int + 1).drop_last() =~= pv.take(i as int));
            assert(pv.take(i as int + 1).last() == pv[i as int]);
            lemma_pair_total_prefix(pv, i as int + 1);
        }
        let ids = copy_ids(&pairs[i].1);
        let count = ids.len();
        if count > 0 {
            let ghost before = pairs_view(kept@);
            kept.push((pairs[i].0, ids));
            proof {
                assert(pairs_view(kept@) =~= before.push(pv[i as int]));
            }
        }
        n = n + count;
        i = i + 1;
    }
    proof {
        assert(pv.take(i as int) =~= pv);
    }
    (kept, n)
}

/// Whether the pairs name no more point ids than a `usize` counts: the
/// test a caller makes before asking for a crop.
pub fn pairs_fit(pairs: &Vec<(TrackSegmentId, Vec<TrackPointId>)>) -> (b: bool)
    ensures
        b == (pair_total(pairs_view(pairs@)) <= usize::MAX),
{
    let ghost pv = pairs_view(pairs@);
    let mut n: usize = 0;
    let mut i: usize = 0;
    while i < pairs.len()
        invariant
            i <= pairs.len(),
            pv == pairs_view(pairs@),
            n == pair_total(pv.take(i as int)),
        decreases pairs.len() - i,
    {
        proof {
            assert(pv.take(i as int + 1).drop_last() =~= pv.take(i as int));
            assert(pv.take(i as int + 1).last() == pv[i as int]);
            lemma_pair_total_prefix(pv, i as int);
        }
        let count = pairs[i].1.len();
        if count > usize::MAX - n {
            proof {
                lemma_pair_total_prefix(pv, i as int + 1);
            }
            return false;
        }
        n = n + count;
        i = i + 1;
    }
    proof {
        assert(pv.take(i as int) =~= pv);
    }
    true
}

proof fn lemma_pair_total_prefix(pairs: Seq<(TrackSegmentId, Seq<TrackPointId>)>, i: int)
    requires
        0 <= i <= pairs.len(),
    ensures
        0 <= pair_total(pairs.take(i)) <= pair_total(pairs),
    decreases pairs.len(),
{
    if i < pairs.len() {
        assert(pairs.drop_last().take(i) =~= pairs.take(i));
        lemma_pair_total_prefix(pairs.drop_last(), i);
    } else {
        assert(pairs.take(i) =~= pairs);
        lemma_pair_total_nonneg(pairs);
    }
}

proof fn lemma_pair_total_nonneg(pairs: Seq<(TrackSegmentId, Seq<TrackPointId>)>)
    ensures
        pair_total(pairs) >= 0,
    decreases pairs.len(),
{
    if pairs.len() > 0 {
        lemma_pair_total_nonneg(pairs.drop_last());
    }
}

impl AppState {
    /// Sort each segment's points by time (untimed first, in their recorded
    /// order), as one undoable step. Already sorted is no edit and leaves no
    /// undo step; a missing layer or track answers `MissingTrack`.
    pub fn apply_sort_track_points(&mut self, layer_id: LayerId, track_id: TrackId) -> (r: Result<(), ProjectLayerError>)
        requires
            old(self).wf(),
            old(self)@.history.mutation_count < u64::MAX,
        ensures
            final(self).wf(),
            match p_locate_track(old(self)@.project, layer_id.0, track_id.0) {
                Err(_) => final(self)@ == old(self)@ && r == Err::<(), ProjectLayerError>(ProjectLayerError::MissingTrack { layer_id: layer_id.0, track_id: track_id.0 }),
                Ok((li, ti)) => {
                    let segs = old(self)@.project.track_layers[li].tracks[ti].segments;
                    if present_order(segs) == time_order(segs) {
                        final(self)@ == old(self)@ && r == Ok::<(), ProjectLayerError>(())
                    } else {
                        let c = CommandV::ReorderTrackPoints { layer_id, track_id, order: order_from_values(time_order(segs)) };
                        let (st2, res) = session_apply(old(self)@, c);
                        final(self)@ == st2 && r == layer_result(res)
                    }
                },
            },
    {
        let (li, ti) = match self.project.locate_track(layer_id.0, track_id.0) {
            Ok(x) => x,
            Err(_) => return Err(ProjectLayerError::MissingTrack { layer_id: layer_id.0, track_id: track_id.0 }),
        };
        let segments = &self.project.track_layers[li].tracks[ti].segments;
        let sorted = sorted_point_order_by_time(segments.as_slice());
        if order_matches(segments, &sorted) {
            return Ok(());
        }
        proof {
            assert(values_view(sorted@) == order_view(sorted@));
        }
        self.run(&ProjectCommand::reorder_track_points(layer_id, track_id, sorted))
    }

    /// Crop a track to the points not listed, as one undoable step; see
    /// `session_crop`. The selection by map extent is made on coordinates as
    /// numbers, outside this crate, and arrives here as the list.
    pub fn apply_crop_track_points(&mut self, layer_id: LayerId, track_id: TrackId, pairs: &Vec<(TrackSegmentId, Vec<TrackPointId>)>) -> (r: Result<usize, ProjectLayerError>)
        requires
            old(self).wf(),
            old(self)@.history.mutation_count < u64::MAX,
            pair_total(pairs_view(pairs@)) <= usize::MAX,
        ensures
            final(self).wf(),
            (final(self)@, r) == session_crop(old(self)@, layer_id, track_id, pairs_view(pairs@)),
    {
        match self.project.locate_track(layer_id.0, track_id.0) {
            Ok(_) => {},
            Err(_) => return Err(ProjectLayerError::MissingTrack { layer_id: layer_id.0, track_id: track_id.0 }),
        }
        let (kept, n) = copy_pairs_of(pairs);
        if n == 0 {
            return Ok(0);
        }
        match self.run(&ProjectCommand::crop_track_points(layer_id, track_id, kept)) {
            Ok(()) => Ok(n),
            Err(e) => Err(e),
        }
    }
}

proof fn lemma_seen_in_step(points: Seq<TrackPoint>, k: int, pt: u64)
    requires
        0 <= k < points.len(),
    ensures
        seen_in(points, k + 1, pt) == (seen_in(points, k, pt) || points[k].id.0 == pt),
{
    if seen_in(points, k + 1, pt) {
        let b = choose|b: int| 0 <= b < k + 1 && #[trigger] points[b].id.0 == pt;
        if b < k {
            assert(seen_in(points, k, pt));
        }
    }
    if seen_in(points, k, pt) {
        let b = choose|b: int| 0 <= b < k && #[trigger] points[b].id.0 == pt;
        assert(0 <= b < k + 1 && points[b].id.0 == pt);
    }
    if points[k].id.0 == pt {
        assert(0 <= k < k + 1 && points[k].id.0 == pt);
    }
}

proof fn lemma_seen_next_segment(segments: Seq<SegmentV>, i: int, pt: u64)
    requires
        0 <= i < segments.len(),
    ensures
        seen_before_segment(segments, i + 1, pt)
            == (seen_before_segment(segments, i, pt) || seen_in(segments[i].points, segments[i].points.len() as int, pt)),
{
    if seen_before_segment(segments, i + 1, pt) {
        let a = choose|a: int| 0 <= a < i + 1 && #[trigger] seen_in(segments[a].points, segments[a].points.len() as int, pt);
        if a < i {
            assert(seen_before_segment(segments, i, pt));
        }
    }
    if seen_before_segment(segments, i, pt) {
        let a = choose|a: int| 0 <= a < i && #[trigger] seen_in(segments[a].points, segments[a].points.len() as int, pt);
        assert(0 <= a < i + 1 && seen_in(segments[a].points, segments[a].points.len() as int, pt));
    }
    if seen_in(segments[i].points, segments[i].points.len() as int, pt) {
        assert(0 <= i < i + 1 && seen_in(segments[i].points, segments[i].points.len() as int, pt));
    }
}

fn time_pairs_exec(segments: &Vec<TrackSegment>, from: Option<Timestamp>, to: Option<Timestamp>) -> (out: Vec<(TrackSegmentId, Vec<TrackPointId>)>)
    ensures
        pairs_view(out@) == time_pairs(segments_view(segments@), from, to),
{
    let ghost sv = segments_view(segments@);
    let mut out: Vec<(TrackSegmentId, Vec<TrackPointId>)> = Vec::new();
    let mut i: usize = 0;
    while i < segments.len()
        invariant
            i <= segments.len(),
            sv == segments_view(segments@),
            pairs_view(out@) =~= time_pairs(sv, from, to).take(i as int),
        decreases segments.len() - i,
    {
        let points = &segments[i].points;
        proof {
            assert(sv[i as int].points == points@);
        }
        let mut ids: Vec<TrackPointId> = Vec::new();
        let mut k: usize = 0;
        while k < points.len()
            invariant
                k <= points.len(),
                ids@ == ids_where(points@.take(k as int), time_pick(from, to)),
            decreases points.len() - k,
        {
            proof {
                assert(points@.take(k as int + 1).drop_last() =~= points@.take(k as int));
                assert(points@.take(k as int + 1).last() == points@[k as int]);
            }
            if time_outside(&points[k], from, to) {
                ids.push(points[k].id);
            }
            k = k + 1;
        }
        proof {
            assert(points@.take(k as int) =~= points@);
        }
        let ghost before = pairs_view(out@);
        out.push((segments[i].id, ids));
        proof {
            assert(pairs_view(out@) =~= before.push(time_pairs(sv, from, to)[i as int]));
            assert(time_pairs(sv, from, to).take(i as int + 1) =~= time_pairs(sv, from, to).take(i as int).push(time_pairs(sv, from, to)[i as int]));
        }
        i = i + 1;
    }
    proof {
        assert(time_pairs(sv, from, to).take(i as int) =~= time_pairs(sv, from, to));
    }
    out
}

fn trim_pairs_exec(segments: &Vec<TrackSegment>, point_id: u64, before: bool) -> (out: Vec<(TrackSegmentId, Vec<TrackPointId>)>)
    ensures
        pairs_view(out@) == trim_pairs(segments_view(segments@), point_id, before),
{
    let ghost sv = segments_view(segments@);
    let mut out: Vec<(TrackSegmentId, Vec<TrackPointId>)> = Vec::new();
    let mut seen = false;
    let mut i: usize = 0;
    while i < segments.len()
        invariant
            i <= segments.len(),
            sv == segments_view(segments@),
            seen == seen_before_segment(sv, i as int, point_id),
            pairs_view(out@) =~= trim_pairs(sv, point_id, before).take(i as int),
        decreases segments.len() - i,
    {
        let points = &segments[i].points;
        proof {
            assert(sv[i as int].points == points@);
        }
        let ghost seen_here = seen_before_segment(sv, i as int, point_id);
        let mut ids: Vec<TrackPointId> = Vec::new();
        let mut k: usize = 0;
        while k < points.len()
            invariant
                k <= points.len(),
                i < segments.len(),
                sv == segments_view(segments@),
                sv[i as int].points == points@,
                seen_here == seen_before_segment(sv, i as int, point_id),
                seen == (seen_here || seen_in(points@, k as int, point_id)),
                ids@ == ids_where(points@.take(k as int), trim_pick(sv, i as int, point_id, before)),
            decreases points.len() - k,
        {
            proof {
                assert(points@.take(k as int + 1).drop_last() =~= points@.take(k as int));
                assert(points@.take(k as int + 1).last() == points@[k as int]);
                lemma_seen_in_step(points@, k as int, point_id);
            }
            if points[k].id.0 == point_id {
                seen = true;
            } else if before != seen {
                ids.push(points[k].id);
            }
            k = k + 1;
        }
        proof {
            assert(points@.take(k as int) =~= points@);
            lemma_seen_next_segment(sv, i as int, point_id);
        }
        let ghost prev = pairs_view(out@);
        out.push((segments[i].id, ids));
        proof {
            assert(pairs_view(out@) =~= prev.push(trim_pairs(sv, point_id, before)[i as int]));
            assert(trim_pairs(sv, point_id, before).take(i as int + 1)
                =~= trim_pairs(sv, point_id, before).take(i as int).push(trim_pairs(sv, point_id, before)[i as int]));
        }
        i = i + 1;
    }
    proof {
        assert(trim_pairs(sv, point_id, before).take(i as int) =~= trim_pairs(sv, point_id, before));
    }
    out
}

impl AppState {
    /// Crop a track to a time range (either bound optional), as one undoable
    /// step: timed points outside it go, untimed points stay. Answers how
    /// many points went; see `session_crop`.
    pub fn apply_crop_track_to_time(&mut self, layer_id: LayerId, track_id: TrackId, from: Option<Timestamp>, to: Option<Timestamp>) -> (r: Result<usize, ProjectLayerError>)
        requires
            old(self).wf(),
            old(self)@.history.mutation_count < u64::MAX,
            pair_total(time_pairs(segments_of(old(self)@.project, layer_id.0, track_id.0), from, to)) <= usize::MAX,
        ensures
            final(self).wf(),
            (final(self)@, r) == session_crop(old(self)@, layer_id, track_id, time_pairs(segments_of(old(self)@.project, layer_id.0, track_id.0), from, to)),
    {
        let pairs = match self.project.locate_track(layer_id.0, track_id.0) {
            Ok((li, ti)) => time_pairs_exec(&self.project.track_layers[li].tracks[ti].segments, from, to),
            Err(_) => return Err(ProjectLayerError::MissingTrack { layer_id: layer_id.0, track_id: track_id.0 }),
        };
        self.apply_crop_track_points(layer_id, track_id, &pairs)
    }

    /// Trim a track at one of its points, keeping that point: everything
    /// before it (when `before`) or after it goes, as one undoable step.
    /// Trimming at an end removes nothing and leaves no undo step. Answers
    /// how many points went; see `session_crop`.
    pub fn apply_trim_track_at_point(&mut self, layer_id: LayerId, track_id: TrackId, point_id: TrackPointId, before: bool) -> (r: Result<usize, ProjectLayerError>)
        requires
            old(self).wf(),
            old(self)@.history.mutation_count < u64::MAX,
            pair_total(trim_pairs(segments_of(old(self)@.project, layer_id.0, track_id.0), point_id.0, before)) <= usize::MAX,
        ensures
            final(self).wf(),
            (final(self)@, r) == session_crop(old(self)@, layer_id, track_id, trim_pairs(segments_of(old(self)@.project, layer_id.0, track_id.0), point_id.0, before)),
    {
        let pairs = match self.project.locate_track(layer_id.0, track_id.0) {
            Ok((li, ti)) => trim_pairs_exec(&self.project.track_layers[li].tracks[ti].segments, point_id.0, before),
            Err(_) => return Err(ProjectLayerError::MissingTrack { layer_id: layer_id.0, track_id: track_id.0 }),
        };
        self.apply_crop_track_points(layer_id, track_id, &pairs)
    }
}

/// Some map layer was opened from this file.
pub open spec fn has_map_source(p: ProjectV, path: Seq<char>) -> bool {
    exists|i: int| 0 <= i < p.map_layers.len() && #[trigger] p.map_layers[i].source_path == Some(path)
}

/// The session after a map file is opened under `name`: a new undoable map
/// layer for it, unless one was already opened from that file.
pub open spec fn map_registered(st: SessionV, name: Seq<char>, source_path: Seq<char>) -> SessionV {
    if has_map_source(st.project, source_path) {
        st
    } else {
        session_apply(st, CommandV::AddMapLayerWithSource {
            id: LayerId((highest_layer_id(st.project) + 1) as u64),
            name,
            source_path,
        }).0
    }
}

/// What exporting the day would write, or why it would write nothing: every
/// track and every mark of the project, and a refusal when there are none,
/// rather than an empty file.
pub open spec fn day_export_plan(p: ProjectV) -> Result<crate::application::DayExport, Seq<char>> {
    let tracks = crate::import::track_total(p.track_layers);
    let waypoints = crate::import::waypoint_total(p.waypoint_layers);
    if tracks == 0 && waypoints == 0 {
        Err("Nothing to export"@)
    } else {
        Ok(crate::application::DayExport { tracks: tracks as usize, waypoints: waypoints as usize })
    }
}

impl AppState {
    /// What exporting every track and mark of the project to one file would
    /// write; see `day_export_plan`. Writing the file is the caller's.
    pub fn day_export_counts(&self) -> (r: Result<crate::application::DayExport, String>)
        requires
            crate::import::track_total(self@.project.track_layers) <= usize::MAX,
            crate::import::waypoint_total(self@.project.waypoint_layers) <= usize::MAX,
        ensures
            match (r, day_export_plan(self@.project)) {
                (Ok(d), Ok(e)) => d == e,
                (Err(m), Err(e)) => m@ == e,
                _ => false,
            },
    {
        let tracks = crate::import::track_count(&self.project);
        let waypoints = crate::import::waypoint_count(&self.project);
        if tracks == 0 && waypoints == 0 {
            Err(String::from_str("Nothing to export"))
        } else {
            Ok(crate::application::DayExport { tracks, waypoints })
        }
    }
}

impl Default for AppState {
    /// The same fresh session as `new`.
    fn default() -> (s: Self)
        ensures
            s.wf(),
            s@ == (SessionV { history: empty_stack(), project: untitled_project(), style_revision: 0, saved: (0, 0) }),
    {
        AppState::new()
    }
}

impl AppState {
    /// Give an opened map file a layer, named `name`, unless a map layer was
    /// already opened from that file. Answers whether one was added; the
    /// addition is an undoable step under the next free layer id.
    pub fn register_map_layer(&mut self, name: String, source_path: String) -> (added: bool)
        requires
            old(self).wf(),
            old(self)@.history.mutation_count < u64::MAX,
            highest_layer_id(old(self)@.project) < u64::MAX,
        ensures
            final(self).wf(),
            added == !has_map_source(old(self)@.project, source_path@),
            added ==> final(self)@ == session_apply(old(self)@, CommandV::AddMapLayerWithSource {
                id: LayerId((highest_layer_id(old(self)@.project) + 1) as u64),
                name: name@,
                source_path: source_path@,
            }).0,
            !added ==> final(self)@ == old(self)@,
            final(self)@ == map_registered(old(self)@, name@, source_path@),
    {
        let mut i: usize = 0;
        while i < self.project.map_layers.len()
            invariant
                i <= self.project.map_layers.len(),
                self@ == old(self)@,
                self.wf(),
                forall|j: int| 0 <= j < i ==> self@.project.map_layers[j].source_path != Some(source_path@),
            decreases self.project.map_layers.len() - i,
        {
            let same = match &self.project.map_layers[i].source_path {
                Some(p) => *p == source_path,
                None => false,
            };
            proof {
                assert(self@.project.map_layers[i as int] == self.project.map_layers@[i as int]@);
            }
            if same {
                return false;
            }
            i = i + 1;
        }
        let id = next_layer_id(&self.project);
        proof {
            crate::command_apply::lemma_apply_add_map_layer_with_source(self@.project, id, name@, source_path@);
        }
        let _ = self.run(&ProjectCommand::add_map_layer_with_source(id, name, source_path));
        true
    }
}

/// Where a point is, or `fallback` when there is no such point.
pub open spec fn point_position_or(p: ProjectV, l: u64, t: u64, s: u64, pt: u64, fallback: (u64, u64)) -> (u64, u64) {
    match p_locate_segment(p, l, t, s) {
        Ok((li, ti, si)) => {
            let points = p.track_layers[li].tracks[ti].segments[si].points;
            match first_index(point_keys(points), pt) {
                Some(k) => (points[k].latitude, points[k].longitude),
                None => fallback,
            }
        },
        Err(_) => fallback,
    }
}

/// A track's visibility, or visible when there is no such track.
pub open spec fn current_visibility(p: ProjectV, layer_id: u64, track_id: u64) -> bool {
    match p_locate_track(p, layer_id, track_id) {
        Ok((li, ti)) => p.track_layers[li].tracks[ti].style.visible,
        Err(_) => true,
    }
}

/// The points at positions `lo` to `hi` (not counting `hi`) other than `pt`.
pub open spec fn others_between(lo: int, hi: int, pt: u64) -> spec_fn(int, TrackPoint) -> bool {
    |k: int, p: TrackPoint| lo <= k < hi && p.id.0 != pt
}

proof fn lemma_ids_where_agree(points: Seq<TrackPoint>, f: spec_fn(int, TrackPoint) -> bool, g: spec_fn(int, TrackPoint) -> bool)
    requires
        forall|k: int| 0 <= k < points.len() ==> f(k, #[trigger] points[k]) == g(k, points[k]),
    ensures
        ids_where(points, f) == ids_where(points, g),
    decreases points.len(),
{
    if points.len() > 0 {
        let d = points.drop_last();
        assert forall|k: int| 0 <= k < d.len() implies f(k, #[trigger] d[k]) == g(k, d[k]) by {
            assert(d[k] == points[k]);
        }
        lemma_ids_where_agree(d, f, g);
        assert(f(points.len() - 1, points[points.len() - 1]) == g(points.len() - 1, points[points.len() - 1]));
    }
}

/// Trimming a track at a point removes, walking its segments in order, the
/// points other than it that come before it (trimming before) or after it
/// (trimming after), and no others. With the point first met at position
/// `b` of segment `a`: each segment keeps its id; a segment before `a`
/// loses all its points to a trim before and none to a trim after; a
/// segment after `a` the other way round; and segment `a` loses the points
/// before `b`, or those after it.
pub proof fn law_trim_cuts_the_track_at_the_point(segments: Seq<SegmentV>, pt: u64, a: int, b: int, before: bool)
    requires
        0 <= a < segments.len(),
        0 <= b < segments[a].points.len(),
        segments[a].points[b].id.0 == pt,
        forall|i: int, k: int| 0 <= i < a && 0 <= k < segments[i].points.len() ==> (#[trigger] segments[i].points[k]).id.0 != pt,
        forall|k: int| 0 <= k < b ==> (#[trigger] segments[a].points[k]).id.0 != pt,
    ensures
        trim_pairs(segments, pt, before).len() == segments.len(),
        forall|i: int| #![trigger trim_pairs(segments, pt, before)[i]] 0 <= i < segments.len() ==> {
            let n = segments[i].points.len() as int;
            &&& trim_pairs(segments, pt, before)[i].0 == segments[i].id
            &&& trim_pairs(segments, pt, before)[i].1 == ids_where(segments[i].points, if i < a {
                if before { others_between(0, n, pt) } else { others_between(0, 0, pt) }
            } else if i == a {
                if before { others_between(0, b, pt) } else { others_between(b + 1, n, pt) }
            } else {
                if before { others_between(0, 0, pt) } else { others_between(0, n, pt) }
            })
        },
{
    assert forall|i: int| #![trigger trim_pairs(segments, pt, before)[i]] 0 <= i < segments.len() implies {
        let n = segments[i].points.len() as int;
        &&& trim_pairs(segments, pt, before)[i].0 == segments[i].id
        &&& trim_pairs(segments, pt, before)[i].1 == ids_where(segments[i].points, if i < a {
            if before { others_between(0, n, pt) } else { others_between(0, 0, pt) }
        } else if i == a {
            if before { others_between(0, b, pt) } else { others_between(b + 1, n, pt) }
        } else {
            if before { others_between(0, 0, pt) } else { others_between(0, n, pt) }
        })
    } by {
        let n = segments[i].points.len() as int;
        let pts = segments[i].points;
        let w = if i < a {
            if before { others_between(0, n, pt) } else { others_between(0, 0, pt) }
        } else if i == a {
            if before { others_between(0, b, pt) } else { others_between(b + 1, n, pt) }
        } else {
            if before { others_between(0, 0, pt) } else { others_between(0, n, pt) }
        };
        let f = trim_pick(segments, i, pt, before);
        if i > a {
            assert(seen_in(segments[a].points, segments[a].points.len() as int, pt));
            assert(seen_before_segment(segments, i, pt));
        } else {
            if seen_before_segment(segments, i, pt) {
                let a2 = choose|a2: int| 0 <= a2 < i && #[trigger] seen_in(segments[a2].points, segments[a2].points.len() as int, pt);
                let k2 = choose|k2: int| 0 <= k2 < segments[a2].points.len() && #[trigger] segments[a2].points[k2].id.0 == pt;
                assert(segments[a2].points[k2].id.0 != pt);
            }
        }
        assert forall|k: int| 0 <= k < pts.len() implies f(k, #[trigger] pts[k]) == w(k, pts[k]) by {
            if i < a {
                if seen_in(pts, k, pt) {
                    let k2 = choose|k2: int| 0 <= k2 < k && #[trigger] pts[k2].id.0 == pt;
                    assert(segments[i].points[k2].id.0 != pt);
                }
            } else if i == a {
                if k > b {
                    assert(seen_in(pts, k, pt));
                } else if seen_in(pts, k, pt) {
                    let k2 = choose|k2: int| 0 <= k2 < k && #[trigger] pts[k2].id.0 == pt;
                    assert(segments[a].points[k2].id.0 != pt);
                }
            }
        }
        lemma_ids_where_agree(pts, f, w);
    }
}

/// Trimming at a point the track does not hold: nothing is ever reached,
/// so a trim before removes every point and a trim after removes none.
pub proof fn law_trim_at_a_missing_point(segments: Seq<SegmentV>, pt: u64, before: bool)
    requires
        forall|i: int, k: int| 0 <= i < segments.len() && 0 <= k < segments[i].points.len() ==> (#[trigger] segments[i].points[k]).id.0 != pt,
    ensures
        trim_pairs(segments, pt, before).len() == segments.len(),
        forall|i: int| #![trigger trim_pairs(segments, pt, before)[i]] 0 <= i < segments.len() ==> {
            &&& trim_pairs(segments, pt, before)[i].0 == segments[i].id
            &&& trim_pairs(segments, pt, before)[i].1 == ids_where(segments[i].points, if before {
                others_between(0, segments[i].points.len() as int, pt)
            } else {
                others_between(0, 0, pt)
            })
        },
{
    assert forall|i: int| #![trigger trim_pairs(segments, pt, before)[i]] 0 <= i < segments.len() implies {
        &&& trim_pairs(segments, pt, before)[i].0 == segments[i].id
        &&& trim_pairs(segments, pt, before)[i].1 == ids_where(segments[i].points, if before {
            others_between(0, segments[i].points.len() as int, pt)
        } else {
            others_between(0, 0, pt)
        })
    } by {
        let pts = segments[i].points;
        let w = if before { others_between(0, pts.len() as int, pt) } else { others_between(0, 0, pt) };
        let f = trim_pick(segments, i, pt, before);
        if seen_before_segment(segments, i, pt) {
            let a2 = choose|a2: int| 0 <= a2 < i && #[trigger] seen_in(segments[a2].points, segments[a2].points.len() as int, pt);
            let k2 = choose|k2: int| 0 <= k2 < segments[a2].points.len() && #[trigger] segments[a2].points[k2].id.0 == pt;
            assert(segments[a2].points[k2].id.0 != pt);
        }
        assert forall|k: int| 0 <= k < pts.len() implies f(k, #[trigger] pts[k]) == w(k, pts[k]) by {
            if seen_in(pts, k, pt) {
                let k2 = choose|k2: int| 0 <= k2 < k && #[trigger] pts[k2].id.0 == pt;
                assert(segments[i].points[k2].id.0 != pt);
            }
            assert(segments[i].points[k].id.0 != pt);
        }
        lemma_ids_where_agree(pts, f, w);
    }
}

/// A track whose segments are each already in time order (untimed points
/// first, the timed ones by time) sorts to the order it has, so sorting it
/// is no edit and records no undo step; in particular a track with no times
/// at all keeps its order.
pub proof fn law_a_sorted_track_is_left_alone(segments: Seq<SegmentV>)
    requires
        forall|i: int| 0 <= i < segments.len() ==> crate::point_order::in_time_order(#[trigger] segments[i].points),
    ensures
        present_order(segments) == time_order(segments),
{
    crate::point_order::law_time_order_of_segments(segments);
    assert forall|i: int| 0 <= i < segments.len() implies #[trigger] present_order(segments)[i] == time_order(segments)[i] by {
        assert(crate::point_order::in_time_order(segments[i].points));
        assert(time_order(segments)[i].1 == point_id_values(segments[i].points));
    }
    assert(present_order(segments) =~= time_order(segments));
}

} // verus!

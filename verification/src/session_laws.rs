use vstd::prelude::*;
use crate::command::CommandV;
use crate::error::ProjectLayerError;
use crate::history::{stack_discard, stack_redo, stack_undo};
use crate::ids::{LayerId, WaypointId};
use crate::project::{ProjectV, p_locate_waypoint, p_remove_track};
use crate::project_layers::untitled_project;
use crate::session::{SessionV, edit_waypoint_through, empty_stack, has_map_source, map_registered, session_apply, styled};
use crate::waypoint::WaypointV;

verus! {

/// The session has nothing to save: neither count has moved since the last
/// save or open.
pub open spec fn is_clean(st: SessionV) -> bool {
    (st.history.mutation_count, st.style_revision) == st.saved
}

/// Every change to a saved project leaves it unsaved: an edit that lands
/// through the history, and a change of colour or visibility beside it.
pub proof fn law_any_change_marks_unsaved(st: SessionV, c: CommandV, p: ProjectV)
    requires
        is_clean(st),
        st.history.mutation_count < u64::MAX,
        st.style_revision < u64::MAX,
    ensures
        session_apply(st, c).1 is Ok ==> !is_clean(session_apply(st, c).0),
        !is_clean(styled(st, p)),
{
}

/// An edit of a mark that is not there is refused with the lookup's error
/// and changes nothing: not the project, not the history.
pub proof fn law_missing_mark_edit_changes_nothing(st: SessionV, layer_id: LayerId, waypoint_id: WaypointId, mk: spec_fn(WaypointV) -> CommandV)
    requires
        p_locate_waypoint(st.project, layer_id.0, waypoint_id.0) is Err,
    ensures
        edit_waypoint_through(st, layer_id, waypoint_id, mk).0 == st,
        edit_waypoint_through(st, layer_id, waypoint_id, mk).1
            == Err::<(), ProjectLayerError>(p_locate_waypoint(st.project, layer_id.0, waypoint_id.0)->Err_0),
{
}

/// A drawing cancelled in full leaves a project that was saved before the
/// drawing began as saved as it was: the steps the drawing added to the
/// count come off again when they are discarded.
pub proof fn law_cancelled_drawing_is_not_a_change(st0: SessionV, st1: SessionV, steps: nat, layer_id: LayerId, track_id: crate::ids::TrackId)
    requires
        is_clean(st0),
        st1.saved == st0.saved,
        st1.style_revision == st0.style_revision,
        st1.history.mutation_count == st0.history.mutation_count + steps,
        stack_discard(st1.history, st1.project, steps).2 == steps,
    ensures
        ({
            let (s2, p2, n) = stack_discard(st1.history, st1.project, steps);
            is_clean(SessionV { history: s2, project: p_remove_track(p2, layer_id.0, track_id.0).0, ..st1 })
        }),
{
}

/// Undo cannot reach past the start of a new search: a new project has
/// nothing to undo, and undoing changes nothing.
pub proof fn law_new_project_has_nothing_to_undo()
    ensures
        stack_undo(empty_stack(), untitled_project()) == (empty_stack(), untitled_project(), false),
{
}

/// A map file gets one layer however often it is opened: opening it again,
/// under whatever name, changes nothing.
pub proof fn law_a_map_file_gets_one_layer(st: SessionV, first_name: Seq<char>, second_name: Seq<char>, source_path: Seq<char>)
    ensures
        has_map_source(map_registered(st, first_name, source_path).project, source_path),
        map_registered(map_registered(st, first_name, source_path), second_name, source_path)
            == map_registered(st, first_name, source_path),
{
    crate::command_apply::lemma_apply_add_map_layer_with_source(
        st.project,
        LayerId((crate::project_layers::highest_layer_id(st.project) + 1) as u64),
        first_name,
        source_path,
    );
    let st1 = map_registered(st, first_name, source_path);
    if !has_map_source(st.project, source_path) {
        let n = st.project.map_layers.len() as int;
        assert(st1.project.map_layers[n].source_path == Some(source_path));
    }
}

/// The unsaved mark follows every kind of change. A session is clean when
/// it is new, after a new project, after its project is saved, and after a
/// project is read in. From a clean session, it is unsaved after any edit
/// that lands through the history, any undo or redo that is done, and any
/// change of colour, width or visibility beside the history; an edit, undo
/// or redo that is refused leaves it clean.
pub proof fn law_project_dirty_follows_every_change(st: SessionV, c: CommandV, p: ProjectV, q: ProjectV)
    ensures
        is_clean(SessionV { history: empty_stack(), project: untitled_project(), style_revision: 0, saved: (0, 0) }),
        is_clean(SessionV { saved: (st.history.mutation_count, st.style_revision), ..st }),
        is_clean(SessionV { history: empty_stack(), project: q, saved: (0, st.style_revision), ..st }),
        is_clean(st) && st.history.mutation_count < u64::MAX && st.style_revision < u64::MAX ==> {
            &&& session_apply(st, c).1 is Ok ==> !is_clean(session_apply(st, c).0)
            &&& session_apply(st, c).1 is Err ==> is_clean(session_apply(st, c).0)
            &&& !is_clean(styled(st, p))
            &&& ({
                let (s2, p2, done) = stack_undo(st.history, st.project);
                is_clean(SessionV { history: s2, project: p2, ..st }) <==> !done
            })
            &&& ({
                let (s2, p2, done) = stack_redo(st.history, st.project);
                is_clean(SessionV { history: s2, project: p2, ..st }) <==> !done
            })
        },
{
}

/// A new search starts from the untitled project: one empty track layer
/// named `Tracks`, one empty waypoint layer named `Waypoints`, no map
/// layers, nothing to save, and nothing to undo, so an undo right after it
/// changes nothing and every track layer stays empty.
pub proof fn law_new_project_is_the_untitled_one()
    ensures
        ({
            let st = SessionV { history: empty_stack(), project: untitled_project(), style_revision: 0, saved: (0, 0) };
            let (s2, p2, done) = stack_undo(st.history, st.project);
            &&& st.project.track_layers.len() == 1
            &&& st.project.track_layers[0].name == "Tracks"@
            &&& st.project.track_layers[0].tracks.len() == 0
            &&& st.project.waypoint_layers.len() == 1
            &&& st.project.waypoint_layers[0].name == "Waypoints"@
            &&& st.project.waypoint_layers[0].waypoints.len() == 0
            &&& st.project.map_layers.len() == 0
            &&& is_clean(st)
            &&& !done
            &&& p2 == st.project
            &&& forall|i: int| 0 <= i < p2.track_layers.len() ==> (#[trigger] p2.track_layers[i]).tracks.len() == 0
        }),
{
}

} // verus!

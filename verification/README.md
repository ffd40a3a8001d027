# ozi_rs

The core of a map editor for search-and-rescue crews, written in Verus:
projects of map, track and waypoint layers; the commands that edit them and
the undo/redo history they run through; the editing session around a project;
and the state of the catalogue of searches whose maps are downloaded.

Coordinates are carried as the bits of their `f64` degrees. The library
compares and moves them but never computes with them; distances,
simplification tolerances and projections live in `app/`.

## Layout

- `src/` — the verified library.
  - `track.rs`, `waypoint.rs`, `layers.rs`, `project.rs`, `project_layers.rs`:
    the data and its views.
  - `command*.rs`, `bulk_edit.rs`, `history.rs`: edit commands, what each one
    does (`apply_spec`), the command that undoes it (`reverse_spec`), and the
    bounded undo/redo stack.
  - `session.rs`: the editing session (project, history, unsaved state).
  - `catalogue.rs`: the catalogue side: listing, previews, bundle and map
    downloads as a state that outside work reports into.
  - `import.rs`: landing parsed GPX/PLT/WPT content in a project.
  - `paths.rs`: paths as text: the bundle directory a map file belongs to,
    and where a track export is suggested to go.
  - `laws.rs`, `reorder_laws.rs`, `removal_laws.rs`, `undo_laws.rs`, `session_laws.rs`,
    `catalogue_laws.rs`: properties that span operations, such as an edit
    followed by its reverse leaving the project as it was.
- `tests/` — tests of the library on concrete values.
- `app/` — ordinary Rust around the library: tile reading, arithmetic on
  coordinates, the JSON shapes sent to the interface, and thread bookkeeping.

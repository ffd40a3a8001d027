//! The editing core of a map editor for search-and-rescue crews: projects made
//! of map, track and waypoint layers, the commands that edit them, the
//! undo/redo history those commands run through, the editing session around
//! them, and the state of the search catalogue the maps are fetched from.

pub mod ids;
pub mod index;
pub mod text;
pub mod track;
pub mod point_order;
pub mod waypoint;
pub mod layers;
pub mod project;
pub mod project_layers;
pub mod error;
pub mod command;
pub mod bulk_edit;
pub mod command_apply;
pub mod command_reverse;
pub mod command_copy;
pub mod history;
pub mod laws;
pub mod reorder_laws;
pub mod removal_laws;
pub mod undo_laws;
pub mod import;
pub mod application;
pub mod dto;
pub mod paths;
pub mod tiles;
pub mod access;
pub mod session;
pub mod session_laws;
pub mod catalogue;
pub mod catalogue_laws;

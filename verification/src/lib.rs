//! Core logic of a terminal console that manages three record kinds
//! (students, teachers, faculties): an in-memory record store with CRUD
//! and substring search, a modal form engine with per-field input rules
//! and a dropdown sub-state, pure screen-geometry and hit-testing
//! functions shared by the renderer and the pointer handler, and the
//! mode-driven input state machine that ties them together.
//!
//! Everything here is verified; terminal I/O, painting and file access
//! live outside this crate and talk to it through plain values.

pub mod codec;
pub mod layout;
pub mod modal;
pub mod models;
pub mod router;
pub mod store;
pub mod text;
pub mod ui;
pub mod widgets;

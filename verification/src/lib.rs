//! Decisions behind a video wallpaper on a Wayland compositor.
//!
//! The library holds no connection, no GL context and no player. It keeps what is known of each
//! monitor, answers every event with what has to be done next, and proves what those answers are.
pub mod egl;
pub mod geometry;
pub mod history;
pub mod laws;
pub mod options;
pub mod output;
pub mod selection;
pub mod state;
pub mod text;


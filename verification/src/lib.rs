//! Desktop-capture core for Linux screenshot tooling.
//!
//! The hard part of capturing a window or a screen on a Linux desktop is not
//! grabbing pixels: it is deciding *how*. This crate verifies that layer:
//! classifying the running session from its environment variables, choosing a
//! capture backend, parsing the ad hoc text each compositor's tooling emits,
//! and planning the ordered fallback chains used for listing and capture.
//!
//! Subprocess invocation and file reading are left to the embedding
//! application, which feeds the raw outcomes back into the functions here.

pub mod color_picker;
pub mod config;
pub mod desktop;
pub mod extract;
pub mod geometry;
pub mod pixels;
pub mod screen;
pub mod state;
pub mod text;
pub mod tools;
pub mod window;
pub mod window_backends;

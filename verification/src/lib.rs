//! A keyboard-driven system monitor: the models of what is sampled, the samplers that
//! turn raw counters into usage figures, the text formatting of the panels, and the
//! state machine that answers keys and refreshes.

pub mod models;
pub mod ui;
pub mod system;
pub mod app;

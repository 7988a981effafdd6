//! State machine and session registry of a multi-session remote-console dashboard.
//!
//! The library decides what every key press and every poll does; the program
//! around it performs the network work and the drawing.

pub mod stringarray;
pub mod state;
pub mod econtab;
pub mod app;

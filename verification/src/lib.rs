//! Detects axis-aligned square indicator regions in traced contours, searches
//! for a reference template inside later captures of the same window, and
//! drives the session state machine of a watch loop around those two steps.

pub mod contour;
pub mod img;
pub mod locate;
pub mod region;
pub mod state;
pub mod text;
pub mod watcher;

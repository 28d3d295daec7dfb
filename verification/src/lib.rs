//! A calendar date picker widget core: Gregorian calendar arithmetic,
//! month-grid construction, day-cell enablement under optional date bounds,
//! and the popup open/close interaction state machine.
//!
//! Rendering is left to a host GUI toolkit; the host feeds pointer and
//! keyboard events into the functions here and draws what they return.

pub mod calendar;
pub mod date;
pub mod picker;
pub mod popup;

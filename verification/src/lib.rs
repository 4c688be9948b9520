//! Collects one day of personal activity from several kinds of sources and
//! merges it into a single, time-ordered list of events.

pub mod config;
pub mod events;
pub mod html;
pub mod icons;
pub mod named;
pub mod pattern;
pub mod sorting;
pub mod text;
pub mod time;

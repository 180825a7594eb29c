//! Fuse maps for GAL programmable logic devices.
//!
//! A [`blueprint::Blueprint`] says, output by output, which equations a
//! design asks for. [`gal_builder::build`] turns it into the [`gal::GAL`]
//! fuse state of its chip, or reports the first reason why the design does
//! not fit the chip.
//!
//! The modules, from the ground up:
//! - [`errors`]: the diagnostics, and what "the first failure" means;
//! - [`chips`]: the geometry of the four chips;
//! - [`columns`]: which column of the logic array a pin feeds;
//! - [`gal`]: the fuse state and the encoding of one term into it;
//! - [`blueprint`]: the description of a design;
//! - [`gal_builder`]: the encoding of a whole design, field by field;
//! - [`acceptance`]: which designs are accepted;
//! - [`fuse_map`]: what the rows of an accepted design hold and mean.

pub mod errors;
pub mod chips;
pub mod columns;
pub mod gal;
pub mod blueprint;
pub mod gal_builder;
pub mod acceptance;
pub mod fuse_map;

//! A verified Japanese-mahjong hand-evaluation engine.
//!
//! The library encodes tiles, enumerates the legal decompositions of a
//! 13/14-tile hand into melds and a pair, detects the named scoring
//! patterns (yaku and yakuman), converts the best decomposition into
//! fu/fan and final point values, and estimates shanten (the distance
//! to a ready hand).

pub mod err;
pub mod hand;
pub mod parse;
pub mod point;
pub mod search;
pub mod shanten;
pub mod tile;
pub mod yaku;

//! The fixed settings of the game.

use vstd::prelude::*;
use crate::scalar::ONE;

verus! {

/// The width and the height of the field.
pub const FIELD_SIZE: i64 = 200 * 0x1_0000_0000;

/// How far from the middle of the field, along each axis, a new asteroid
/// keeps.
pub const ASTROID_GAP: i64 = 25 * 0x1_0000_0000;

/// The settings of a game. There is one set of them.
pub struct Config;

impl Config {
    /// The settings of the game.
    pub fn new() -> (c: Config) {
        Config
    }

    /// The width of the field.
    pub fn width(&self) -> (w: i64)
        ensures
            w == 200 * ONE,
    {
        FIELD_SIZE
    }

    /// The height of the field.
    pub fn height(&self) -> (h: i64)
        ensures
            h == 200 * ONE,
    {
        FIELD_SIZE
    }

    /// How far from the middle of the field, along each axis, a new
    /// asteroid keeps.
    pub fn astroid_gap_distance(&self) -> (gap: i64)
        ensures
            gap == 25 * ONE,
    {
        ASTROID_GAP
    }

    /// Where the font of the closing text is found.
    pub fn font_path(&self) -> (path: &'static str)
        ensures
            path@ == "res/Carlito-Regular.ttf"@,
    {
        "res/Carlito-Regular.ttf"
    }

    /// Where the closing text begins, from the middle of the field.
    pub fn font_offset(&self) -> (offset: (i64, i64))
        ensures
            offset.0 == -45 * ONE,
            offset.1 == 0,
    {
        (-45 * ONE, 0)
    }
}

} // verus!

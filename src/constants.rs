//! Window and tuning constants.
use vstd::prelude::*;

verus! {

/// Default window width in pixels.
pub const WW: i32 = 1920;

/// Default window height in pixels.
pub const WH: i32 = 1080;

/// x coordinate of the left edge of the default window (half its width).
pub const LEFT_WALL: i32 = -960;

/// x coordinate of the right window edge.
pub const RIGHT_WALL: i32 = 960;

/// y coordinate of the bottom window edge.
pub const BOTTOM_WALL: i32 = -540;

/// y coordinate of the top window edge.
pub const TOP_WALL: i32 = 540;

/// Background colour as red, green, blue.
pub const BG_COLOR: (u8, u8, u8) = (0, 0, 0);

/// Distance under which an experience shard is pulled towards the player.
pub const BASE_EXP_PULL: i32 = 70;

} // verus!

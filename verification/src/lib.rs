use vstd::prelude::*;

pub mod codec;
pub mod dispatch;
pub mod loader;

verus! {

/// Exclusive canvas bound on the x axis: valid x coordinates lie in [0, 160).
pub const MAX_X: usize = 160;

/// Exclusive canvas bound on the y axis: valid y coordinates lie in [0, 120).
pub const MAX_Y: usize = 120;

/// First group of the fixed three-group address prefix.
pub const IP_PREFIX_0: u16 = 0x2001;

/// Second group of the fixed three-group address prefix.
pub const IP_PREFIX_1: u16 = 0x4c08;

/// Third group of the fixed three-group address prefix.
pub const IP_PREFIX_2: u16 = 0x2028;

} // verus!

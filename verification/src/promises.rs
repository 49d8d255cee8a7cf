//! What each operation promises its caller, stated of the call itself: of every result
//! that a call may have, in terms of what went in. Numbers are counted in steps of
//! [`crate::fixed::Fixed`].
pub mod animations;
pub mod closing;
pub mod geometry;
pub mod numbers;
pub mod placement;
pub mod stage;
pub mod viewport;

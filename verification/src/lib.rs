//! The window-management core of an infinite-canvas compositor: the per-output
//! viewports, screen-pinned windows, owed recenters, window-frame geometry, the
//! render-only animations of live windows, and the snapshots of closed ones.
//!
//! Geometry is generic over the number it is computed in (see
//! [`scalar::Scalar`]). [`fixed::Fixed`] is the fixed-point number for which the laws of
//! the geometry are proved; a compositor may run it on a floating-point type of its own,
//! of which nothing is shown here.
pub mod animation_laws;
pub mod closing;
pub mod fixed;
pub mod geometry;
pub mod pinned;
pub mod promises;
pub mod recenter;
pub mod resize;
pub mod scalar;
pub mod state;
pub mod time;
pub mod viewport;
pub mod window_animation;
pub mod window_frame;

//! Frame orchestration core of a real-time viewer.
//!
//! A compute kernel paints an off-screen image every frame, a blit stage
//! copies it to the display, and a first-person camera follows keyboard
//! and mouse. This crate holds the decisions of that cycle: how raw input
//! becomes held directions and pending look deltas, how the camera pose is
//! kept valid, how the pose is laid out in the 32-byte record that the
//! kernel reads, how many work-groups are dispatched, and when the loop
//! runs, renders or stops.
//!
//! The crate computes on integers only. Real-valued quantities (angles,
//! coordinates, times) are carried as IEEE-754 single-precision bit
//! patterns in `u32`, which is how the kernel receives them; arithmetic on
//! them is the caller's.

pub mod camera;
pub mod config;
pub mod dispatch;
pub mod input;
pub mod orchestrator;
pub mod pattern;
pub mod resources;
pub mod timing;

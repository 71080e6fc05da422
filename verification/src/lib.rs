//! Tracking of the programs a user is currently active in.
//!
//! A program is active while it holds input focus or plays audio. The
//! [`watcher::Watcher`] engine merges focus and audio events into one pool of
//! tracked programs and reports every program that enters or leaves the pool.
//! Each tracked program owns a [`timer::Timer`] that evicts it after a grace
//! period unless audio keeps it alive.
//!
//! Time never enters the verified state machines behind their back: every
//! transition that depends on the clock has a form that takes the instant as
//! an argument, in milliseconds, and is specified exactly.

pub mod channel;
pub mod clock;
pub mod event;
pub mod laws;
pub mod model;
pub mod shared;
pub mod timer;
pub mod watcher;
pub mod windows;

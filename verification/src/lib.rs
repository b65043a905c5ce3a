//! A verified core for a terminal status-line renderer.
//!
//! Several producers may register short-lived status entries (progress
//! indicators, spinners) that are drawn stacked in a fixed region of an
//! interactive diagnostic stream while ordinary log output scrolls above.
//! This crate holds the verified registry state machine: entry lifecycle,
//! the generation-based start/stop protocol for the single background
//! worker, the hide/show suppression counter, and frame composition.
//! Actual terminal I/O, thread spawning and locking live outside, in a
//! thin shell that drives these functions.

pub mod draw_thread;
pub mod frame;
pub mod size;

pub use draw_thread::DrawThread;
pub use draw_thread::DrawThreadGuard;
pub use draw_thread::DrawThreadRenderer;
pub use draw_thread::InnerState;
pub use draw_thread::InternalEntry;
pub use draw_thread::TickBegin;
pub use frame::compose_frame;
pub use size::ConsoleSize;
pub use size::FramePlan;
pub use size::env_supports_drawing;
pub use size::plan_frame;
pub use size::size_opt_eq;
pub use size::tick_delay_ms;
pub use size::BASE_DELAY_MS;
pub use size::RESIZE_DELAY_MS;

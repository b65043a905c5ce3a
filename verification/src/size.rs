//! Terminal size values and the per-tick drawing decisions that depend
//! on them: the environment-support predicate, the resize debounce, and
//! the delay schedule of the background worker.

use vstd::prelude::*;

verus! {

/// A terminal size in character cells.
#[derive(Clone, Copy, Debug, PartialEq, Eq, Structural)]
pub struct ConsoleSize {
    pub cols: u32,
    pub rows: u32,
}

/// True exactly when the environment can host the draw worker: the
/// diagnostic stream is an interactive terminal and the terminal reports
/// a non-zero width and height.
pub open spec fn env_supports_drawing_spec(is_terminal: bool, size: Option<ConsoleSize>) -> bool {
    is_terminal && (size matches Some(s) && s.cols > 0 && s.rows > 0)
}

/// Decides whether drawing is possible at all, from the two cached
/// environment probes: whether the diagnostic stream is a terminal, and
/// what size it reported.
pub fn env_supports_drawing(is_terminal: bool, size: Option<ConsoleSize>) -> (r: bool)
    ensures
        r == env_supports_drawing_spec(is_terminal, size),
{
    is_terminal && match size {
        Some(s) => s.cols > 0 && s.rows > 0,
        None => false,
    }
}

/// Baseline delay between worker iterations, in milliseconds.
pub const BASE_DELAY_MS: u64 = 120;

/// Longer delay scheduled while the user is actively resizing the
/// terminal, so rendering resumes only once the size settles.
pub const RESIZE_DELAY_MS: u64 = 200;

/// What the worker does with the size it just queried, given the size it
/// saw on the previous iteration.
#[derive(Clone, Copy, Debug, PartialEq, Eq, Structural)]
pub enum FramePlan {
    /// The size changed since last tick: the terminal is being resized.
    /// Skip this frame and wait the longer debounce delay.
    Resize,
    /// No size is available: do not attempt to draw this tick.
    Skip,
    /// Render a frame against this size.
    Draw(ConsoleSize),
}

/// The frame decision for one tick.
pub open spec fn plan_frame_spec(current: Option<ConsoleSize>, previous: Option<ConsoleSize>) -> FramePlan {
    if current != previous {
        FramePlan::Resize
    } else {
        match current {
            Some(s) => FramePlan::Draw(s),
            None => FramePlan::Skip,
        }
    }
}

/// Compares two size-query results.
pub fn size_opt_eq(a: Option<ConsoleSize>, b: Option<ConsoleSize>) -> (r: bool)
    ensures
        r == (a == b),
{
    match (a, b) {
        (Some(x), Some(y)) => x.cols == y.cols && x.rows == y.rows,
        (None, None) => true,
        _ => false,
    }
}

/// Decides, outside the registry lock, whether the worker renders this
/// tick: a size differing from the previous tick's means an active
/// resize (skip and debounce), an absent size means skip, and otherwise
/// the frame is rendered against the current size.
pub fn plan_frame(current: Option<ConsoleSize>, previous: Option<ConsoleSize>) -> (r: FramePlan)
    ensures
        r == plan_frame_spec(current, previous),
{
    if !size_opt_eq(current, previous) {
        FramePlan::Resize
    } else {
        match current {
            Some(s) => FramePlan::Draw(s),
            None => FramePlan::Skip,
        }
    }
}

/// How long the worker sleeps after a tick that took this decision.
pub fn tick_delay_ms(plan: FramePlan) -> (r: u64)
    ensures
        plan matches FramePlan::Resize ==> r == RESIZE_DELAY_MS,
        !(plan matches FramePlan::Resize) ==> r == BASE_DELAY_MS,
{
    match plan {
        FramePlan::Resize => RESIZE_DELAY_MS,
        _ => BASE_DELAY_MS,
    }
}

} // verus!

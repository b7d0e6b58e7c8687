//! Frame governor and presenter policy: the pure decisions behind frame
//! pacing, escape and fullscreen handling, and recovery of a lost
//! presentation surface. The unverified shell performs the actions these
//! functions choose.

use vstd::arithmetic::div_mod::lemma_div_is_ordered;
use vstd::prelude::*;

use crate::rain::{column_count, DIM_MAX};

verus! {

/// Target redraw rate of the frame governor, in frames per second.
pub const TARGET_FPS: u64 = 75;

/// Minimum interval between two frames, in microseconds: one second divided
/// by the target rate, rounded toward zero.
pub const TARGET_FRAME_MICROS: u64 = 1_000_000 / TARGET_FPS;

/// How long a redraw must wait, in microseconds, given the time elapsed
/// since the previous frame: the remainder of the target interval, or
/// nothing once the interval has passed.
pub fn frame_delay_micros(elapsed_micros: u64) -> (delay: u64)
    ensures
        elapsed_micros < TARGET_FRAME_MICROS ==> delay == TARGET_FRAME_MICROS - elapsed_micros,
        elapsed_micros >= TARGET_FRAME_MICROS ==> delay == 0,
{
    if elapsed_micros < TARGET_FRAME_MICROS {
        TARGET_FRAME_MICROS - elapsed_micros
    } else {
        0
    }
}

/// What the escape key does.
#[derive(Clone, Copy, Debug, PartialEq, Eq, Structural)]
pub enum EscapeResponse {
    /// Leave fullscreen, keep running.
    LeaveFullscreen,
    /// End the event loop.
    Quit,
}

/// Escape exits fullscreen first if it is active, and only quits otherwise.
pub fn escape_response(fullscreen_active: bool) -> (r: EscapeResponse)
    ensures
        r == if fullscreen_active {
            EscapeResponse::LeaveFullscreen
        } else {
            EscapeResponse::Quit
        },
{
    if fullscreen_active {
        EscapeResponse::LeaveFullscreen
    } else {
        EscapeResponse::Quit
    }
}

/// The fullscreen toggle key flips between windowed and borderless
/// fullscreen presentation.
pub fn fullscreen_after_toggle(fullscreen_active: bool) -> (r: bool)
    ensures
        r == !fullscreen_active,
{
    !fullscreen_active
}

/// The ways acquiring the next presentable surface image can fail.
#[derive(Clone, Copy, Debug, PartialEq, Eq, Structural)]
pub enum AcquireFailure {
    /// The surface was reported lost.
    Lost,
    /// The underlying surface has changed and no longer matches its
    /// configuration.
    SurfaceChanged,
    /// The surface is outdated in some other transient way.
    Outdated,
    /// Acquisition timed out.
    Timeout,
    /// The device is out of memory.
    OutOfMemory,
}

/// Within one frame, a lost or changed surface is recreated against the
/// current window handle and acquisition is retried exactly once; any later
/// failure, and every other kind of failure, is propagated to the frame
/// loop.
pub fn should_recreate_and_retry(failure: &AcquireFailure, already_retried: bool) -> (r: bool)
    ensures
        r == (!already_retried && (failure is Lost || failure is SurfaceChanged)),
{
    if already_retried {
        false
    } else {
        match failure {
            AcquireFailure::Lost => true,
            AcquireFailure::SurfaceChanged => true,
            _ => false,
        }
    }
}

/// What the frame loop does after a frame failed to present.
#[derive(Clone, Copy, Debug, PartialEq, Eq, Structural)]
pub enum FrameFailureResponse {
    /// Reconfigure the surface to the current window size, then keep going.
    ReconfigureSurface,
    /// End the event loop: the failure is fatal.
    Terminate,
    /// Log the failure, skip this frame, keep going.
    SkipFrame,
}

/// A lost surface is reconfigured, exhaustion of memory terminates the
/// loop, and every other failure only skips the frame.
pub fn frame_failure_response(failure: &AcquireFailure) -> (r: FrameFailureResponse)
    ensures
        r == match failure {
            AcquireFailure::Lost => FrameFailureResponse::ReconfigureSurface,
            AcquireFailure::OutOfMemory => FrameFailureResponse::Terminate,
            _ => FrameFailureResponse::SkipFrame,
        },
{
    match failure {
        AcquireFailure::Lost => FrameFailureResponse::ReconfigureSurface,
        AcquireFailure::OutOfMemory => FrameFailureResponse::Terminate,
        _ => FrameFailureResponse::SkipFrame,
    }
}

/// Upper bound on the glyph quads one frame can emit: every streak of
/// the configured column count showing its whole chain of 80 characters.
/// The fixed vertex and index buffers are sized from it once, when the
/// pipeline is built, and never reallocated per frame.
pub fn max_glyph_quads(width: usize) -> (q: usize)
    requires
        width <= DIM_MAX,
    ensures
        q == 80 * column_count(width as int),
{
    proof {
        lemma_div_is_ordered(width + 39, DIM_MAX + 39, 40);
    }
    ((width + 39) / 40) * 80
}

/// The vertex buffer capacity that a quad budget needs: four vertices
/// per quad.
pub fn vertex_budget(quads: usize) -> (n: usize)
    requires
        quads <= 100_000_000,
    ensures
        n == 4 * quads,
{
    4 * quads
}

/// The index buffer capacity that a quad budget needs: six indices per
/// quad, two triangles.
pub fn index_budget(quads: usize) -> (n: usize)
    requires
        quads <= 100_000_000,
    ensures
        n == 6 * quads,
{
    6 * quads
}

/// Uniform data handed to the rendering stage each frame.
#[derive(Clone, Copy, Debug)]
pub struct RainUniforms {
    pub time: u32,
    pub window_height: u32,
    pub rain_count: u32,
    pub _padding: u32,
}

} // verus!

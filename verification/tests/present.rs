use digital_rain::present::{
    escape_response, frame_delay_micros, frame_failure_response, fullscreen_after_toggle,
    index_budget, max_glyph_quads, should_recreate_and_retry, vertex_budget, AcquireFailure,
    EscapeResponse, FrameFailureResponse, RainUniforms, TARGET_FRAME_MICROS,
};

#[test]
fn pacing_enforces_the_target_interval() {
    assert_eq!(TARGET_FRAME_MICROS, 13_333);
    assert_eq!(frame_delay_micros(0), 13_333);
    assert_eq!(frame_delay_micros(13_332), 1);
    assert_eq!(frame_delay_micros(13_333), 0);
    assert_eq!(frame_delay_micros(50_000), 0);
}

#[test]
fn escape_leaves_fullscreen_before_quitting() {
    assert_eq!(escape_response(true), EscapeResponse::LeaveFullscreen);
    assert_eq!(escape_response(false), EscapeResponse::Quit);
}

#[test]
fn toggle_flips_fullscreen_state() {
    assert!(fullscreen_after_toggle(false));
    assert!(!fullscreen_after_toggle(true));
}

#[test]
fn lost_or_changed_surface_is_recreated_once() {
    assert!(should_recreate_and_retry(&AcquireFailure::Lost, false));
    assert!(should_recreate_and_retry(&AcquireFailure::SurfaceChanged, false));
    assert!(!should_recreate_and_retry(&AcquireFailure::Lost, true));
    assert!(!should_recreate_and_retry(&AcquireFailure::SurfaceChanged, true));
    assert!(!should_recreate_and_retry(&AcquireFailure::Outdated, false));
    assert!(!should_recreate_and_retry(&AcquireFailure::Timeout, false));
    assert!(!should_recreate_and_retry(&AcquireFailure::OutOfMemory, false));
}

#[test]
fn frame_failures_reconfigure_terminate_or_skip() {
    assert_eq!(
        frame_failure_response(&AcquireFailure::Lost),
        FrameFailureResponse::ReconfigureSurface
    );
    assert_eq!(
        frame_failure_response(&AcquireFailure::OutOfMemory),
        FrameFailureResponse::Terminate
    );
    assert_eq!(
        frame_failure_response(&AcquireFailure::SurfaceChanged),
        FrameFailureResponse::SkipFrame
    );
    assert_eq!(frame_failure_response(&AcquireFailure::Outdated), FrameFailureResponse::SkipFrame);
    assert_eq!(frame_failure_response(&AcquireFailure::Timeout), FrameFailureResponse::SkipFrame);
}

#[test]
fn buffers_are_sized_for_the_worst_frame()
{
    assert_eq!(max_glyph_quads(0), 0);
    assert_eq!(max_glyph_quads(800), 20 * 80);
    assert_eq!(max_glyph_quads(1280), 32 * 80);
    let q = max_glyph_quads(1280);
    assert_eq!(vertex_budget(q), 4 * q);
    assert_eq!(index_budget(q), 6 * q);
}

#[test]
fn uniforms_carry_their_fields() {
    let u = RainUniforms { time: 7, window_height: 720, rain_count: 32, _padding: 0 };
    assert_eq!(u.time, 7);
    assert_eq!(u.window_height, 720);
    assert_eq!(u.rain_count, 32);
}

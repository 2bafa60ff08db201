use nl_host::config::LogConfig;
use nl_host::render::{
    calculate_aspect_scale, choose_present_mode, choose_surface_format, surface_error_action,
    window_logical_size, PresentMode, SurfaceErrorAction, SurfaceErrorKind,
};

#[test]
fn matching_aspects_give_the_identity_scale() {
    // A 1080 by 2160 frame in a 400 by 800 surface: the same 1:2 aspect.
    let s = calculate_aspect_scale(1080, 2160, 400, 800);
    assert_eq!(s.x_num as f64 / s.x_den as f64, 1.0);
    assert_eq!(s.y_num, s.y_den);
}

#[test]
fn wide_frame_shrinks_the_vertical_axis() {
    // frame aspect 16:9, surface aspect 1:2.
    let s = calculate_aspect_scale(1920, 1080, 400, 800);
    assert_eq!((s.x_num, s.x_den), (1, 1));
    assert_eq!(s.y_num, 400 * 1080);
    assert_eq!(s.y_den, 800 * 1920);
    let y = s.y_num as f64 / s.y_den as f64;
    // min(scale) = min(aspect) / max(aspect) = (400/800) / (1920/1080).
    assert!((y - 0.28125).abs() < 1e-12);
}

#[test]
fn tall_frame_shrinks_the_horizontal_axis() {
    // frame aspect 1:2 in a square surface.
    let s = calculate_aspect_scale(1080, 2160, 600, 600);
    assert_eq!((s.y_num, s.y_den), (1, 1));
    assert_eq!(s.x_num, 1080 * 600);
    assert_eq!(s.x_den, 2160 * 600);
    assert_eq!(s.x_num as f64 / s.x_den as f64, 0.5);
}

#[test]
fn window_size_shrinks_to_800_logical_height() {
    assert_eq!(window_logical_size(1080, 2160), (400, 800));
    assert_eq!(window_logical_size(360, 800), (360, 800));
    assert_eq!(window_logical_size(1920, 1080), (1422, 800));
}

#[test]
fn log_config_reports_its_switches() {
    let c = LogConfig::new(true, false);
    assert!(c.is_verbose());
    assert!(!c.is_debug());
    let d = LogConfig::default();
    assert!(!d.is_verbose() && !d.is_debug());
}

#[test]
fn present_mode_preference_is_mailbox_immediate_fifo() {
    assert_eq!(choose_present_mode(true, true), PresentMode::Mailbox);
    assert_eq!(choose_present_mode(true, false), PresentMode::Mailbox);
    assert_eq!(choose_present_mode(false, true), PresentMode::Immediate);
    assert_eq!(choose_present_mode(false, false), PresentMode::Fifo);
}

#[test]
fn surface_format_prefers_the_first_non_srgb() {
    assert_eq!(choose_surface_format(&vec![true, true, false, false]), 2);
    assert_eq!(choose_surface_format(&vec![false, true]), 0);
    assert_eq!(choose_surface_format(&vec![true, true]), 0);
}

#[test]
fn only_an_outdated_surface_is_recoverable() {
    assert_eq!(
        surface_error_action(SurfaceErrorKind::Outdated),
        SurfaceErrorAction::ReconfigureAndSkip
    );
    assert_eq!(surface_error_action(SurfaceErrorKind::Lost), SurfaceErrorAction::Fail);
    assert_eq!(surface_error_action(SurfaceErrorKind::Timeout), SurfaceErrorAction::Fail);
    assert_eq!(surface_error_action(SurfaceErrorKind::Other), SurfaceErrorAction::Fail);
}

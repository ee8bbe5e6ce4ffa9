use ownterm::window_opacity::{
    layered_style, opacity_to_alpha, restores_initial_style, support, WindowOpacityError,
    WindowOpacityState, WindowOpacitySupport,
};

#[test]
fn converts_percentages_to_windows_alpha() {
    assert_eq!(opacity_to_alpha(69), None);
    assert_eq!(opacity_to_alpha(70), Some(179));
    assert_eq!(opacity_to_alpha(92), Some(235));
    assert_eq!(opacity_to_alpha(100), Some(255));
    assert_eq!(opacity_to_alpha(101), None);
}

#[test]
fn reports_platform_capability_without_touching_a_window() {
    assert_eq!(support(), WindowOpacitySupport::Unsupported);
}

#[test]
fn alpha_grows_with_opacity() {
    let mut last = 0;
    for opacity in 70..=100u8 {
        let alpha = opacity_to_alpha(opacity).unwrap();
        assert!(alpha >= last);
        last = alpha;
    }
    assert_eq!(opacity_to_alpha(0), None);
}

#[test]
fn window_style_decisions() {
    let mut state = WindowOpacityState::default();
    assert_eq!(state.recorded_style(), None);
    assert_eq!(state.record_initial_style(0x10), 0x10);
    assert_eq!(state.record_initial_style(0x20), 0x10);
    assert_eq!(layered_style(0x10), 0x80010);
    assert!(restores_initial_style(100, 0x10));
    assert!(!restores_initial_style(100, 0x80000));
    assert!(!restores_initial_style(90, 0x10));
    assert_eq!(
        WindowOpacityError::InvalidOpacity.message(),
        "window opacity must be between 70 and 100"
    );
}

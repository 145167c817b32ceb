use companion::window::{decode_window_position, is_position_on_screen};

#[test]
fn test_is_position_on_screen_valid() {
    // Test positions within reasonable bounds
    assert!(is_position_on_screen(100, 100));
    assert!(is_position_on_screen(500, 400));
    assert!(is_position_on_screen(1920, 1080));
}

#[test]
fn test_is_position_on_screen_negative() {
    // Negative positions should be considered invalid
    assert!(!is_position_on_screen(-100, 100));
    assert!(!is_position_on_screen(100, -100));
}

#[test]
fn test_is_position_on_screen_too_large() {
    // Positions beyond reasonable bounds should be invalid
    assert!(!is_position_on_screen(8000, 100));
    assert!(!is_position_on_screen(100, 5000));
}

#[test]
fn position_on_screen_edges() {
    assert!(is_position_on_screen(0, 0));
    assert!(is_position_on_screen(7680, 4320));
    assert!(!is_position_on_screen(7681, 0));
    assert!(!is_position_on_screen(0, 4321));
}

#[test]
fn decode_window_position_accepts_on_screen() {
    assert_eq!(decode_window_position(Some(100), Some(200)), Some((100, 200)));
}

#[test]
fn decode_window_position_needs_both_coordinates() {
    assert_eq!(decode_window_position(None, Some(200)), None);
    assert_eq!(decode_window_position(Some(100), None), None);
    assert_eq!(decode_window_position(None, None), None);
}

#[test]
fn decode_window_position_rejects_off_screen() {
    assert_eq!(decode_window_position(Some(-5), Some(200)), None);
    assert_eq!(decode_window_position(Some(100), Some(9000)), None);
}

#[test]
fn decode_window_position_truncates_to_i32() {
    // 2^32 + 50 narrows to 50
    assert_eq!(decode_window_position(Some(4_294_967_346), Some(10)), Some((50, 10)));
    // 2^31 narrows to i32::MIN, which is off screen
    assert_eq!(decode_window_position(Some(2_147_483_648), Some(10)), None);
}

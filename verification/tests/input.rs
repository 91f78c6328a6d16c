use chipper::input::KeyBoard;

#[test]
fn keyboard_tests() {
    let mut kb = KeyBoard::new();
    kb.feed_key(Some(3));
    assert_eq!(kb.get_key_pressed(), Some(3));
    kb.feed_key(None);
    assert_ne!(kb.get_key_pressed(), Some(3));
    kb.feed_key(Some(3));
    assert!(kb.is_key_pressed(3));
    assert!(!kb.is_key_up(3));
    assert!(kb.is_key_up(4));
}

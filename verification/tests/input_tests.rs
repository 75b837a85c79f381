use tai::terminal::input::{
    code_to_char, key_action, keys_to_check, mouse_plan, raylib_key_to_term_key,
    raylib_mouse_button, typed_input, KeyAction, KeyInput, Modifiers, MouseAction, MouseBtn,
    MouseFrame, MouseStep, TermKey, KEY_A, KEY_ENTER, KEY_F1, KEY_F12,
};

fn no_mods() -> Modifiers {
    Modifiers::from_keys(false, false, false, false, false, false, false, false)
}

#[test]
fn typed_text_keeps_valid_characters_and_encodes_all() {
    let (chars, bytes) = typed_input(&[0x61, 0xE9, 0xD800, 0x1F600]);
    assert_eq!(chars, vec!['a', 'é', '😀']);
    let mut expected = "aé".as_bytes().to_vec();
    expected.extend_from_slice("\u{FFFD}".as_bytes());
    expected.extend_from_slice("😀".as_bytes());
    assert_eq!(bytes, expected);
    assert_eq!(code_to_char(0x110000), '\u{FFFD}');
}

#[test]
fn keys_map_to_engine_keys() {
    assert_eq!(raylib_key_to_term_key(KEY_A), TermKey::Letter(0));
    assert_eq!(raylib_key_to_term_key(90), TermKey::Letter(25));
    assert_eq!(raylib_key_to_term_key(48), TermKey::Digit(0));
    assert_eq!(raylib_key_to_term_key(KEY_F1), TermKey::Function(1));
    assert_eq!(raylib_key_to_term_key(KEY_F12), TermKey::Function(12));
    assert_eq!(raylib_key_to_term_key(KEY_ENTER), TermKey::Enter);
    assert_eq!(raylib_key_to_term_key(39), TermKey::Quote);
    assert_eq!(raylib_key_to_term_key(340), TermKey::Unidentified);
}

#[test]
fn polled_keys_are_letters_digits_then_specials() {
    let keys = keys_to_check();
    assert_eq!(keys.len(), 26 + 10 + 38);
    assert_eq!(&keys[..3], &[65, 66, 67]);
    assert_eq!(keys[26], 48);
    assert_eq!(keys[36], 32);
    assert_eq!(*keys.last().unwrap(), 301);
}

#[test]
fn release_wins_over_press_and_repeat() {
    assert_eq!(key_action(true, true, true), Some(KeyAction::Release));
    assert_eq!(key_action(true, true, false), Some(KeyAction::Press));
    assert_eq!(key_action(false, true, false), Some(KeyAction::Repeat));
    assert_eq!(key_action(false, false, false), None);
}

#[test]
fn typed_text_rides_with_the_first_key_that_is_not_released() {
    let mut input = KeyInput::new(b"a".to_vec());
    assert!(input.plan_key(KEY_A, false, false, false, no_mods()).is_none());
    let released = input.plan_key(KEY_A, false, false, true, no_mods()).unwrap();
    assert_eq!(released.action, KeyAction::Release);
    assert!(released.text.is_none());
    let pressed = input.plan_key(KEY_A, true, false, false, no_mods()).unwrap();
    assert_eq!(pressed.text, Some(b"a".to_vec()));
    assert_eq!(pressed.unshifted, 'a' as u32);
    let again = input.plan_key(KEY_A, true, false, false, no_mods()).unwrap();
    assert!(again.text.is_none());
    assert_eq!(input.leftover(), None);
}

#[test]
fn shift_is_consumed_only_by_keys_that_type() {
    let shift = Modifiers::from_keys(true, false, false, false, false, false, false, false);
    let mut input = KeyInput::new(Vec::new());
    assert!(input.plan_key(KEY_A, true, false, false, shift).unwrap().shift_consumed);
    assert!(!input.plan_key(KEY_ENTER, true, false, false, shift).unwrap().shift_consumed);
    assert!(!input.plan_key(KEY_A, true, false, false, no_mods()).unwrap().shift_consumed);
    assert!(input.plan_key(340, true, false, false, shift).is_none());
}

#[test]
fn encoded_bytes_drop_the_pending_text() {
    let mut input = KeyInput::new(b"xy".to_vec());
    input.encoded(false, 5);
    input.encoded(true, 0);
    let mut kept = KeyInput::new(b"xy".to_vec());
    kept.encoded(true, 0);
    assert_eq!(kept.leftover(), Some(b"xy".to_vec()));
    input.encoded(true, 3);
    assert_eq!(input.leftover(), None);
}

#[test]
fn mouse_buttons_map_to_engine_buttons() {
    assert_eq!(raylib_mouse_button(0), Some(MouseBtn::Left));
    assert_eq!(raylib_mouse_button(3), Some(MouseBtn::Four));
    assert_eq!(raylib_mouse_button(6), Some(MouseBtn::Seven));
    assert_eq!(raylib_mouse_button(7), None);
}

fn frame() -> MouseFrame {
    MouseFrame {
        pressed: [false; 7],
        released: [false; 7],
        left_down: false,
        right_down: false,
        middle_down: false,
        moved: false,
        wheel: 0,
        mouse_tracking: false,
    }
}

#[test]
fn mouse_frame_reports_buttons_motion_and_wheel_in_order() {
    let mut f = frame();
    f.pressed[1] = true;
    f.released[0] = true;
    f.moved = true;
    f.right_down = true;
    f.wheel = 1;
    f.mouse_tracking = true;
    let plan = mouse_plan(&f);
    assert!(plan.any_pressed);
    assert_eq!(
        plan.steps,
        vec![
            MouseStep { action: MouseAction::Release, button: Some(MouseBtn::Left) },
            MouseStep { action: MouseAction::Press, button: Some(MouseBtn::Right) },
            MouseStep { action: MouseAction::Motion, button: Some(MouseBtn::Right) },
            MouseStep { action: MouseAction::Press, button: Some(MouseBtn::Four) },
            MouseStep { action: MouseAction::Release, button: Some(MouseBtn::Four) },
        ]
    );
    assert_eq!(plan.scroll, 0);
}

#[test]
fn wheel_scrolls_the_view_when_the_program_ignores_the_mouse() {
    let mut f = frame();
    f.wheel = -2;
    let plan = mouse_plan(&f);
    assert!(plan.steps.is_empty());
    assert_eq!(plan.scroll, 3);
    f.wheel = 1;
    assert_eq!(mouse_plan(&f).scroll, -3);
    let mut m = frame();
    m.moved = true;
    assert_eq!(mouse_plan(&m).steps, vec![MouseStep { action: MouseAction::Motion, button: None }]);
}

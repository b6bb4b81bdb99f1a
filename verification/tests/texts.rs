use cone_catcher::input::{KeyCode, KeyboardState};
use cone_catcher::text::{numbered, push_decimal, same_text, starts_with};

fn decimal_of(n: u32) -> String {
    let mut out = String::new();
    push_decimal(&mut out, n);
    out
}

#[test]
fn decimal_numerals() {
    assert_eq!(decimal_of(0), "0");
    assert_eq!(decimal_of(7), "7");
    assert_eq!(decimal_of(9), "9");
    assert_eq!(decimal_of(10), "10");
    assert_eq!(decimal_of(99), "99");
    assert_eq!(decimal_of(100), "100");
    assert_eq!(decimal_of(1_234_567_890), "1234567890");
    assert_eq!(decimal_of(u32::MAX), "4294967295");
    for n in (0..100_000u32).step_by(37) {
        assert_eq!(decimal_of(n), n.to_string());
    }
}

#[test]
fn decimal_is_appended() {
    let mut out = String::from("x=");
    push_decimal(&mut out, 42);
    push_decimal(&mut out, 0);
    assert_eq!(out, "x=420");
}

#[test]
fn numbered_texts() {
    assert_eq!(numbered("enemy", 0), "enemy0");
    assert_eq!(numbered("enemy", 10), "enemy10");
    assert_eq!(numbered("Score: ", 123), "Score: 123");
    assert_eq!(numbered("High Score: ", 4_000_000_000), "High Score: 4000000000");
    assert_eq!(numbered("", 5), "5");
}

#[test]
fn prefixes() {
    assert!(starts_with("player", "player"));
    assert!(starts_with("player1", "player"));
    assert!(starts_with("player", ""));
    assert!(starts_with("", ""));
    assert!(!starts_with("playe", "player"));
    assert!(!starts_with("", "player"));
    assert!(!starts_with("xplayer", "player"));
    assert!(!starts_with("plaYer", "player"));
    assert!(starts_with("\u{e9}t\u{e9}", "\u{e9}t"));
    assert!(!starts_with("\u{e9}t\u{e9}", "et"));
}

#[test]
fn equal_texts() {
    assert!(same_text("player", "player"));
    assert!(same_text("", ""));
    assert!(!same_text("player", "player1"));
    assert!(!same_text("player1", "player"));
    assert!(!same_text("player", "plaier"));
    assert!(!same_text("", "a"));
    assert!(same_text("\u{e9}", "\u{e9}"));
}

#[test]
fn keyboard_queries() {
    let keyboard = KeyboardState {
        pressed_keys: vec![KeyCode::W, KeyCode::Left],
        just_pressed_keys: vec![KeyCode::R],
    };
    assert!(keyboard.pressed(KeyCode::W));
    assert!(keyboard.pressed(KeyCode::Left));
    assert!(!keyboard.pressed(KeyCode::R));
    assert!(keyboard.just_pressed(KeyCode::R));
    assert!(!keyboard.just_pressed(KeyCode::W));
    assert!(keyboard.pressed_any(&[KeyCode::Up, KeyCode::W]));
    assert!(keyboard.pressed_any(&[KeyCode::Left]));
    assert!(!keyboard.pressed_any(&[KeyCode::Down, KeyCode::S]));
    assert!(!keyboard.pressed_any(&[]));

    let empty = KeyboardState::new();
    assert!(!empty.pressed(KeyCode::Q));
    assert!(!empty.just_pressed(KeyCode::Q));
    assert!(!empty.pressed_any(&[KeyCode::Q, KeyCode::R]));
}

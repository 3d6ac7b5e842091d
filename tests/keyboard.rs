use vmulti_client::keyboard::{KeyboardKey, KeyboardModifierKey, KeysClick};
use vmulti_client::report::{control_frame, keyboard_report, release_report};
use vmulti_client::tokens::{classify_token, meaning, ParseError, TokenMeaning};

#[test]
fn test_keys_click_deserialize_ok() {
    let keys_click1 = KeysClick::new(KeyboardKey::L);

    let keys_click2 =
        KeysClick::new(KeyboardKey::H).add_modifier(KeyboardModifierKey::RightShift);

    let keys_click3 = KeysClick::new(KeyboardKey::H)
        .add_key(KeyboardKey::E)
        .add_key(KeyboardKey::L);

    assert_eq!(KeysClick::parse("l"), Ok(keys_click1));
    assert_eq!(KeysClick::parse("right-shift+h"), Ok(keys_click2));
    assert_eq!(KeysClick::parse("h+e+l"), Ok(keys_click3));
}

#[test]
fn test_keys_click_deserialize_error() {
    assert_eq!(KeysClick::parse(""), Err(ParseError::Empty));
    assert_eq!(KeysClick::parse("test"), Err(ParseError::InvalidToken));
}

#[test]
fn test_keys_click_serialize() {
    let keys_click1 = KeysClick::new(KeyboardKey::L);

    let keys_click2 =
        KeysClick::new(KeyboardKey::H).add_modifier(KeyboardModifierKey::RightShift);

    let keys_click3 = KeysClick::new(KeyboardKey::H)
        .add_key(KeyboardKey::E)
        .add_key(KeyboardKey::L);

    assert_eq!(keys_click1.to_token_string(), "l");
    assert_eq!(keys_click2.to_token_string(), "right-shift+h");
    assert_eq!(keys_click3.to_token_string(), "h+e+l");
}

#[test]
fn parse_single_key_has_no_modifiers() {
    let c = KeysClick::parse("l").unwrap();
    assert!(c.modifiers().is_empty());
    assert_eq!(c.keys(), &vec![KeyboardKey::L]);
}

#[test]
fn parse_modifier_and_key() {
    let c = KeysClick::parse("right-shift+h").unwrap();
    assert_eq!(c.modifiers(), &vec![KeyboardModifierKey::RightShift]);
    assert_eq!(c.keys(), &vec![KeyboardKey::H]);
    assert_eq!(c.modifier_mask(), 0b0010_0000);
}

#[test]
fn parse_keeps_key_order() {
    let c = KeysClick::parse("h+e+l").unwrap();
    assert!(c.modifiers().is_empty());
    assert_eq!(c.keys(), &vec![KeyboardKey::H, KeyboardKey::E, KeyboardKey::L]);
}

#[test]
fn parse_ignores_letter_case() {
    assert_eq!(KeysClick::parse("H"), Ok(KeysClick::new(KeyboardKey::H)));
    assert_eq!(
        KeysClick::parse("Right-Shift+ENTER"),
        Ok(KeysClick::new(KeyboardKey::Enter).add_modifier(KeyboardModifierKey::RightShift))
    );
}

#[test]
fn parse_rejects_empty_tokens() {
    assert_eq!(KeysClick::parse("+"), Err(ParseError::InvalidToken));
    assert_eq!(KeysClick::parse("h+"), Err(ParseError::InvalidToken));
    assert_eq!(KeysClick::parse("+h"), Err(ParseError::InvalidToken));
    assert_eq!(KeysClick::parse("h++e"), Err(ParseError::InvalidToken));
}

#[test]
fn parse_rejects_unknown_token_after_valid_ones() {
    assert_eq!(KeysClick::parse("left-ctrl+h+bogus"), Err(ParseError::InvalidToken));
    assert_eq!(KeysClick::parse("left ctrl"), Err(ParseError::InvalidToken));
}

#[test]
fn parse_drops_seventh_key() {
    let c = KeysClick::parse("a+b+c+d+e+f+g").unwrap();
    assert_eq!(
        c.keys(),
        &vec![
            KeyboardKey::A,
            KeyboardKey::B,
            KeyboardKey::C,
            KeyboardKey::D,
            KeyboardKey::E,
            KeyboardKey::F
        ]
    );
}

#[test]
fn add_key_beyond_six_is_dropped() {
    let mut c = KeysClick::empty();
    for k in [
        KeyboardKey::Num1,
        KeyboardKey::Num2,
        KeyboardKey::Num3,
        KeyboardKey::Num4,
        KeyboardKey::Num5,
        KeyboardKey::Num6,
    ] {
        c = c.add_key(k);
    }
    let full = c.clone();
    c = c.add_key(KeyboardKey::Num7);
    assert_eq!(c, full);
    assert_eq!(c.keys().len(), 6);
}

#[test]
fn round_trip_of_every_modifier_and_six_keys() {
    let mods = [
        KeyboardModifierKey::LeftControl,
        KeyboardModifierKey::LeftShift,
        KeyboardModifierKey::LeftAlt,
        KeyboardModifierKey::LeftWindows,
        KeyboardModifierKey::RightControl,
        KeyboardModifierKey::RightShift,
        KeyboardModifierKey::RightAlt,
        KeyboardModifierKey::RightWindows,
    ];
    let mut c = KeysClick::empty();
    for m in mods {
        c = c.add_modifier(m);
    }
    for k in [
        KeyboardKey::Enter,
        KeyboardKey::Esc,
        KeyboardKey::Del,
        KeyboardKey::Tab,
        KeyboardKey::Space,
        KeyboardKey::Num0,
    ] {
        c = c.add_key(k);
    }
    let text = c.to_token_string();
    assert_eq!(
        text,
        "left-ctrl+left-shift+left-alt+left-win+right-ctrl+right-shift+right-alt+right-win+enter+esc+del+tab+space+0"
    );
    assert_eq!(KeysClick::parse(&text), Ok(c));
}

#[test]
fn round_trip_with_repeated_modifier() {
    let c = KeysClick::new(KeyboardKey::Z)
        .add_modifier(KeyboardModifierKey::LeftAlt)
        .add_modifier(KeyboardModifierKey::LeftAlt);
    assert_eq!(c.to_token_string(), "left-alt+left-alt+z");
    assert_eq!(KeysClick::parse(&c.to_token_string()), Ok(c));
}

#[test]
fn modifiers_only_round_trip() {
    let c = KeysClick::empty().add_modifier(KeyboardModifierKey::RightWindows);
    assert_eq!(c.to_token_string(), "right-win");
    assert_eq!(KeysClick::parse("right-win"), Ok(c));
}

#[test]
fn empty_click_formats_as_empty_text() {
    assert_eq!(KeysClick::empty().to_token_string(), "");
}

#[test]
fn adding_a_modifier_twice_keeps_the_mask() {
    let once = KeysClick::empty().add_modifier(KeyboardModifierKey::LeftShift);
    let twice = once.clone().add_modifier(KeyboardModifierKey::LeftShift);
    assert_eq!(once.modifier_mask(), 2);
    assert_eq!(twice.modifier_mask(), once.modifier_mask());
}

#[test]
fn modifier_mask_is_or_of_bits() {
    let c = KeysClick::empty()
        .add_modifier(KeyboardModifierKey::LeftControl)
        .add_modifier(KeyboardModifierKey::RightWindows)
        .add_modifier(KeyboardModifierKey::LeftAlt);
    assert_eq!(c.modifier_mask(), 0b1000_0101);
}

#[test]
fn key_usage_codes() {
    assert_eq!(KeyboardKey::A.id(), 0x04);
    assert_eq!(KeyboardKey::Z.id(), 0x1D);
    assert_eq!(KeyboardKey::Num1.id(), 0x1E);
    assert_eq!(KeyboardKey::Num0.id(), 0x27);
    assert_eq!(KeyboardKey::Space.id(), 0x2C);
    assert_eq!(KeyboardModifierKey::LeftControl.mask(), 1);
    assert_eq!(KeyboardModifierKey::RightWindows.mask(), 128);
}

#[test]
fn single_token_parsers() {
    assert_eq!(KeyboardKey::parse(""), Err(ParseError::Empty));
    assert_eq!(KeyboardKey::parse("ESC"), Ok(KeyboardKey::Esc));
    assert_eq!(KeyboardKey::parse("left-alt"), Err(ParseError::InvalidToken));
    assert_eq!(KeyboardModifierKey::parse(""), Err(ParseError::Empty));
    assert_eq!(KeyboardModifierKey::parse("LEFT-WIN"), Ok(KeyboardModifierKey::LeftWindows));
    assert_eq!(KeyboardModifierKey::parse("a"), Err(ParseError::InvalidToken));
    assert_eq!(KeyboardKey::from_token("Q"), None);
    assert_eq!(KeyboardKey::from_token("q"), Some(KeyboardKey::Q));
}

#[test]
fn token_classification() {
    assert_eq!(meaning("tab"), Some(TokenMeaning::Key(KeyboardKey::Tab)));
    assert_eq!(meaning("TAB"), None);
    assert_eq!(classify_token("TAB"), Some(TokenMeaning::Key(KeyboardKey::Tab)));
    assert_eq!(
        classify_token("right-ctrl"),
        Some(TokenMeaning::Modifier(KeyboardModifierKey::RightControl))
    );
    assert_eq!(classify_token(""), None);
}

#[test]
fn parse_error_messages() {
    assert_eq!(ParseError::Empty.message(), "Input is empty");
    assert_eq!(ParseError::InvalidToken.message(), "Invalid input");
}

#[test]
fn keyboard_report_layout() {
    let c = KeysClick::new(KeyboardKey::H)
        .add_key(KeyboardKey::I)
        .add_modifier(KeyboardModifierKey::RightShift);
    assert_eq!(
        keyboard_report(&c),
        vec![0x40, 9, 0x07, 0x20, 0, 0x0B, 0x0C, 0, 0, 0, 0]
    );
}

#[test]
fn release_report_clears_everything() {
    let r = release_report();
    assert_eq!(r, vec![0x40, 9, 0x07, 0, 0, 0, 0, 0, 0, 0, 0]);
    assert_eq!(r, keyboard_report(&KeysClick::empty()));
}

#[test]
fn control_frame_pads_to_report_size() {
    let frame = control_frame(&release_report());
    assert_eq!(frame.len(), 65);
    assert_eq!(&frame[..3], &[0x40, 9, 0x07]);
    assert!(frame[3..].iter().all(|b| *b == 0));
}

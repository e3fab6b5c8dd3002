use chip8::keypad::{first_held, key_to_u8, keypad_state, u8_to_key, HostKey};

#[test]
fn layout_matches_the_keypad() {
    assert_eq!(u8_to_key(0x1), HostKey::Key1);
    assert_eq!(u8_to_key(0xC), HostKey::Key4);
    assert_eq!(u8_to_key(0x0), HostKey::X);
    assert_eq!(u8_to_key(0xF), HostKey::V);
    assert_eq!(key_to_u8(HostKey::Q), 0x4);
    assert_eq!(key_to_u8(HostKey::R), 0xD);
    assert_eq!(key_to_u8(HostKey::Z), 0xA);
}

#[test]
fn layout_round_trips() {
    for code in 0..16u8 {
        assert_eq!(key_to_u8(u8_to_key(code)), code);
    }
}

#[test]
fn keypad_state_and_lowest_held_key() {
    let keys = keypad_state(&[HostKey::V, HostKey::W]);
    let mut expected = [false; 16];
    expected[0xF] = true;
    expected[0x5] = true;
    assert_eq!(keys, expected);
    assert_eq!(first_held(&keys), Some(5));
    assert_eq!(first_held(&[false; 16]), None);
    assert_eq!(keypad_state(&[]), [false; 16]);
}

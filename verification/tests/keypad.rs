use chip8::keypad::{key_event, SCANCODES};

#[test]
fn key_event_presses_and_releases_the_key_of_a_scancode() {
    let mut keys = [false; 16];
    // Scancode 45 is X, which stands for key 0; scancode 2 is 1, key 1.
    key_event(&mut keys, 45, true);
    key_event(&mut keys, 2, true);
    let mut expected = [false; 16];
    expected[0] = true;
    expected[1] = true;
    assert_eq!(keys, expected);
    key_event(&mut keys, 45, false);
    expected[0] = false;
    assert_eq!(keys, expected);
}

#[test]
fn key_event_ignores_other_scancodes() {
    let mut keys = [false; 16];
    keys[7] = true;
    let before = keys;
    key_event(&mut keys, 1, true);
    key_event(&mut keys, 200, false);
    assert_eq!(keys, before);
}

#[test]
fn key_event_maps_every_key() {
    for k in 0..16usize {
        let mut keys = [false; 16];
        key_event(&mut keys, SCANCODES[k], true);
        for j in 0..16usize {
            assert_eq!(keys[j], j == k);
        }
    }
}

#[test]
fn scancodes_are_the_left_block_of_the_keyboard() {
    // 1 2 3 4 / Q W E R / A S D F / Z X C V
    assert_eq!([SCANCODES[1], SCANCODES[2], SCANCODES[3], SCANCODES[0xC]], [2, 3, 4, 5]);
    assert_eq!([SCANCODES[4], SCANCODES[5], SCANCODES[6], SCANCODES[0xD]], [16, 17, 18, 19]);
    assert_eq!([SCANCODES[7], SCANCODES[8], SCANCODES[9], SCANCODES[0xE]], [30, 31, 32, 33]);
    assert_eq!([SCANCODES[0xA], SCANCODES[0], SCANCODES[0xB], SCANCODES[0xF]], [44, 45, 46, 47]);
}

use chip8::Emulator;

#[test]
fn chip8_get_pixel() {
    let emulator = Emulator::new();

    assert!(!emulator.is_pixel_on(0, 0));
    assert!(!emulator.is_pixel_on(63, 0));
    assert!(!emulator.is_pixel_on(0, 0));
    assert!(!emulator.is_pixel_on(0, 31));
}

#[test]
fn mod_get_pixel() {
    let emulator = Emulator::new();

    assert!(!emulator.is_pixel_on(0, 0));
    assert!(!emulator.is_pixel_on(63, 0));
    assert!(!emulator.is_pixel_on(0, 0));
    assert!(!emulator.is_pixel_on(0, 31));
}

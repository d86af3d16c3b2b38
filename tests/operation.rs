use chip8::operation::{
    ADD1, ADD2, ADDI, AND2, CALL, CLS, JP, JPV0, LD1, LD2, LDDTV, LDF, LDI, LDK, LDST, LDVDT, OR,
    RET, RND, SE1, SE2, SHL, SHR, SKNP, SKP, SNE1, SNE2, SUB, SUBN, XOR,
};
use chip8::{Display, Key, Keypad, Register, Timer};

#[test]
fn instruction_test_cls() {
    let mut display = Display::new();
    let mut register = Register::new();
    let instruction = CLS::new();

    instruction.execute(&mut register, &mut display);

    assert_eq!(register.get_program_counter(), 0x202);
    assert_eq!(display.is_pixel_on(0, 0), false);
    assert_eq!(display.is_pixel_on(63, 0), false);
    assert_eq!(display.is_pixel_on(0, 31), false);
    assert_eq!(display.is_pixel_on(63, 31), false);
}

#[test]
fn instruction_test_ret() {
    let mut register = Register::new();
    register.push_stack(0x400).unwrap();
    register.push_stack(0x600).unwrap();

    let instruction = RET::new();

    instruction.execute(&mut register).unwrap();
    assert_eq!(register.get_program_counter(), 0x602);

    instruction.execute(&mut register).unwrap();
    assert_eq!(register.get_program_counter(), 0x402);
}

#[test]
fn operation_test_cls() {
    let mut display = Display::new();
    let mut register = Register::new();
    let instruction = CLS::new();

    instruction.execute(&mut register, &mut display);

    assert_eq!(register.get_program_counter(), 0x202);
    assert_eq!(display.is_pixel_on(0, 0), false);
    assert_eq!(display.is_pixel_on(63, 0), false);
    assert_eq!(display.is_pixel_on(0, 31), false);
    assert_eq!(display.is_pixel_on(63, 31), false);
}

#[test]
fn operation_test_ret() {
    let mut register = Register::new();
    register.push_stack(0x400).unwrap();
    register.push_stack(0x600).unwrap();

    let instruction = RET::new();

    instruction.execute(&mut register).unwrap();
    assert_eq!(register.get_program_counter(), 0x602);

    instruction.execute(&mut register).unwrap();
    assert_eq!(register.get_program_counter(), 0x402);
}

#[test]
fn test_jp() {
    let mut register = Register::new();
    let instruction = JP::new(0x400);

    instruction.execute(&mut register);

    assert_eq!(register.get_program_counter(), 0x400);
}

#[test]
fn test_call() {
    let mut register = Register::new();
    let instruction = CALL::new(0x400);

    instruction.execute(&mut register).unwrap();

    assert_eq!(register.get_program_counter(), 0x400);
    assert_eq!(register.pop_stack(), Ok(0x200));
}

#[test]
fn test_se1_equal() {
    let mut register = Register::new();
    register.set_v(0x4, 0x2);
    let instruction = SE1::new(0x4, 0x2);

    instruction.execute(&mut register);

    assert_eq!(register.get_program_counter(), 0x204);
}

#[test]
fn test_se1_not_equal() {
    let mut register = Register::new();
    register.set_v(0x4, 0x2);
    let instruction = SE1::new(0x4, 0x1);

    instruction.execute(&mut register);

    assert_eq!(register.get_program_counter(), 0x202);
}

#[test]
fn test_sne1_equal() {
    let mut register = Register::new();
    register.set_v(0x4, 0x2);
    let instruction = SNE1::new(0x4, 0x2);

    instruction.execute(&mut register);

    assert_eq!(register.get_program_counter(), 0x202);
}

#[test]
fn test_sne1_not_equal() {
    let mut register = Register::new();
    register.set_v(0x4, 0x2);
    let instruction = SNE1::new(0x4, 0x1);

    instruction.execute(&mut register);

    assert_eq!(register.get_program_counter(), 0x204);
}

#[test]
fn test_se2_equal() {
    let mut register = Register::new();
    register.set_v(0x4, 0x7);
    register.set_v(0x2, 0x7);
    let instruction = SE2::new(0x4, 0x2);

    instruction.execute(&mut register);

    assert_eq!(register.get_program_counter(), 0x204);
}

#[test]
fn test_se2_not_equal() {
    let mut register = Register::new();
    register.set_v(0x4, 0x7);
    register.set_v(0x2, 0x3);
    let instruction = SE2::new(0x4, 0x2);

    instruction.execute(&mut register);

    assert_eq!(register.get_program_counter(), 0x202);
}

#[test]
fn test_ld1() {
    let mut register = Register::new();
    let instruction = LD1::new(0x4, 0x2);

    instruction.execute(&mut register);

    assert_eq!(register.get_program_counter(), 0x202);
    assert_eq!(register.get_v(0x4), 0x2);
}

#[test]
fn test_add1() {
    let mut register = Register::new();
    let instruction = ADD1::new(0x4, 0x2);

    instruction.execute(&mut register);

    assert_eq!(register.get_program_counter(), 0x202);
    assert_eq!(register.get_v(0x4), 0x2);
    assert_eq!(register.get_v(0xF), 0x0);
}

#[test]
fn test_add1_overflow() {
    let mut register = Register::new();
    register.set_v(0x4, 0xFF);
    let instruction = ADD1::new(0x4, 0x2);

    instruction.execute(&mut register);

    assert_eq!(register.get_program_counter(), 0x202);
    assert_eq!(register.get_v(0x4), 0x1);
    assert_eq!(register.get_v(0xF), 0x0);
}

#[test]
fn test_ld2() {
    let mut register = Register::new();
    register.set_v(0x7, 0x2);
    let instruction = LD2::new(0x4, 0x7);

    instruction.execute(&mut register);

    assert_eq!(register.get_program_counter(), 0x202);
    assert_eq!(register.get_v(0x4), 0x2);
}

#[test]
fn test_or() {
    let mut register = Register::new();
    register.set_v(0x7, 0b01010101);
    register.set_v(0x4, 0b10100101);
    let instruction = OR::new(0x4, 0x7);

    instruction.execute(&mut register);

    assert_eq!(register.get_program_counter(), 0x202);
    assert_eq!(register.get_v(0x4), 0b11110101);
}

#[test]
fn test_and2() {
    let mut register = Register::new();
    register.set_v(0x7, 0b01010101);
    register.set_v(0x4, 0b10100101);
    let instruction = AND2::new(0x4, 0x7);

    instruction.execute(&mut register);

    assert_eq!(register.get_program_counter(), 0x202);
    assert_eq!(register.get_v(0x4), 0b00000101);
}

#[test]
fn test_xor() {
    let mut register = Register::new();
    register.set_v(0x7, 0b01010101);
    register.set_v(0x4, 0b10100101);
    let instruction = XOR::new(0x4, 0x7);

    instruction.execute(&mut register);

    assert_eq!(register.get_program_counter(), 0x202);
    assert_eq!(register.get_v(0x4), 0b11110000);
}

#[test]
fn test_add2() {
    let mut register = Register::new();
    register.set_v(0x4, 0x7);
    register.set_v(0x2, 0x3);
    let instruction = ADD2::new(0x4, 0x2);

    instruction.execute(&mut register);

    assert_eq!(register.get_program_counter(), 0x202);
    assert_eq!(register.get_v(0x4), 0x0A);
    assert_eq!(register.get_v(0xF), 0x0);
}

#[test]
fn test_add2_overflow() {
    let mut register = Register::new();
    register.set_v(0x4, 0xFF);
    register.set_v(0x2, 0x02);
    let instruction = ADD2::new(0x4, 0x2);

    instruction.execute(&mut register);

    assert_eq!(register.get_program_counter(), 0x202);
    assert_eq!(register.get_v(0x4), 0x1);
    assert_eq!(register.get_v(0xF), 0x1);
}

#[test]
fn test_sub() {
    let mut register = Register::new();
    register.set_v(0x4, 0x7);
    register.set_v(0x2, 0x3);
    let instruction = SUB::new(0x4, 0x2);

    instruction.execute(&mut register);

    assert_eq!(register.get_program_counter(), 0x202);
    assert_eq!(register.get_v(0x4), 0x04);
    assert_eq!(register.get_v(0xF), 0x1);
}

#[test]
fn test_sub_overflow() {
    let mut register = Register::new();
    register.set_v(0x4, 0x0);
    register.set_v(0x2, 0x2);
    let instruction = SUB::new(0x4, 0x2);

    instruction.execute(&mut register);

    assert_eq!(register.get_program_counter(), 0x202);
    assert_eq!(register.get_v(0x4), 0xFE);
    assert_eq!(register.get_v(0xF), 0x0);
}

#[test]
fn test_shr_0() {
    let mut register = Register::new();
    register.set_v(0x4, 0b1111_1010);
    let instruction = SHR::new(0x4, 0x2);

    instruction.execute(&mut register);

    assert_eq!(register.get_program_counter(), 0x202);
    assert_eq!(register.get_v(0x4), 0b0111_1101);
    assert_eq!(register.get_v(0xF), 0x0);
}

#[test]
fn test_shr_1() {
    let mut register = Register::new();
    register.set_v(0x4, 0b1111_0101);
    let instruction = SHR::new(0x4, 0x2);

    instruction.execute(&mut register);

    assert_eq!(register.get_program_counter(), 0x202);
    assert_eq!(register.get_v(0x4), 0b0111_1010);
    assert_eq!(register.get_v(0xF), 0x1);
}

#[test]
fn test_subn() {
    let mut register = Register::new();
    register.set_v(0x4, 0x3);
    register.set_v(0x2, 0x7);
    let instruction = SUBN::new(0x4, 0x2);

    instruction.execute(&mut register);

    assert_eq!(register.get_program_counter(), 0x202);
    assert_eq!(register.get_v(0x4), 0x04);
    assert_eq!(register.get_v(0xF), 0x1);
}

#[test]
fn test_subn_overflow() {
    let mut register = Register::new();
    register.set_v(0x4, 0x2);
    register.set_v(0x2, 0x0);
    let instruction = SUBN::new(0x4, 0x2);

    instruction.execute(&mut register);

    assert_eq!(register.get_program_counter(), 0x202);
    assert_eq!(register.get_v(0x4), 0xFE);
    assert_eq!(register.get_v(0xF), 0x0);
}

#[test]
fn test_shl_0() {
    let mut register = Register::new();
    register.set_v(0x4, 0b0101_1111);
    let instruction = SHL::new(0x4, 0x2);

    instruction.execute(&mut register);

    assert_eq!(register.get_program_counter(), 0x202);
    assert_eq!(register.get_v(0x4), 0b1011_1110);
    assert_eq!(register.get_v(0xF), 0x0);
}

#[test]
fn test_shl_1() {
    let mut register = Register::new();
    register.set_v(0x4, 0b1010_1111);
    let instruction = SHL::new(0x4, 0x2);

    instruction.execute(&mut register);

    assert_eq!(register.get_program_counter(), 0x202);
    assert_eq!(register.get_v(0x4), 0b0101_1110);
    assert_eq!(register.get_v(0xF), 0x1);
}

#[test]
fn test_sne2_equal() {
    let mut register = Register::new();
    register.set_v(0x4, 0x7);
    register.set_v(0x2, 0x7);
    let instruction = SNE2::new(0x4, 0x2);

    instruction.execute(&mut register);

    assert_eq!(register.get_program_counter(), 0x202);
}

#[test]
fn test_sne2_not_equal() {
    let mut register = Register::new();
    register.set_v(0x4, 0x7);
    register.set_v(0x2, 0x3);
    let instruction = SNE2::new(0x4, 0x2);

    instruction.execute(&mut register);

    assert_eq!(register.get_program_counter(), 0x204);
}

#[test]
fn test_ldi() {
    let mut register = Register::new();
    let instruction = LDI::new(0x123);

    instruction.execute(&mut register);

    assert_eq!(register.get_program_counter(), 0x202);
    assert_eq!(register.get_i(), 0x123);
}

#[test]
fn test_jpv0() {
    let mut register = Register::new();
    register.set_v(0x0, 0x20);
    let instruction = JPV0::new(0x400);

    instruction.execute(&mut register);

    assert_eq!(register.get_program_counter(), 0x420);
}

#[test]
fn test_rnd() {
    let mut register = Register::new();
    register.set_v(0x4, 0xFF);
    let instruction = RND::new(0x4, 0x42);

    instruction.execute(&mut register);

    assert_eq!(register.get_program_counter(), 0x202);
    assert_ne!(register.get_v(0x4), 0xFF);
}

#[test]
fn test_skp_equal() {
    let mut register = Register::new();
    let mut keypad = Keypad::new();
    register.set_v(0x4, 0x2);
    keypad.pressed(Key::Key2);

    let instruction = SKP::new(0x4);

    instruction.execute(&mut register, &keypad);

    assert_eq!(register.get_program_counter(), 0x204);
}

#[test]
fn test_skp_not_equal() {
    let mut register = Register::new();
    let mut keypad = Keypad::new();
    register.set_v(0x4, 0x7);
    keypad.pressed(Key::Key2);

    let instruction = SKP::new(0x4);

    instruction.execute(&mut register, &keypad);

    assert_eq!(register.get_program_counter(), 0x202);
}

#[test]
fn test_skp_unpressed() {
    let mut register = Register::new();
    let keypad = Keypad::new();
    register.set_v(0x4, 0x7);

    let instruction = SKP::new(0x4);

    instruction.execute(&mut register, &keypad);

    assert_eq!(register.get_program_counter(), 0x202);
}

#[test]
fn test_sknp_equal() {
    let mut register = Register::new();
    let mut keypad = Keypad::new();
    register.set_v(0x4, 0x2);
    keypad.pressed(Key::Key2);

    let instruction = SKNP::new(0x4);

    instruction.execute(&mut register, &keypad);

    assert_eq!(register.get_program_counter(), 0x202);
}

#[test]
fn test_sknp_not_equal() {
    let mut register = Register::new();
    let mut keypad = Keypad::new();
    register.set_v(0x4, 0x7);
    keypad.pressed(Key::Key2);

    let instruction = SKNP::new(0x4);

    instruction.execute(&mut register, &keypad);

    assert_eq!(register.get_program_counter(), 0x204);
}

#[test]
fn test_sknp_unpressed() {
    let mut register = Register::new();
    let keypad = Keypad::new();
    register.set_v(0x4, 0x7);

    let instruction = SKNP::new(0x4);

    instruction.execute(&mut register, &keypad);

    assert_eq!(register.get_program_counter(), 0x204);
}

#[test]
fn test_ldvdt() {
    let mut register = Register::new();
    let mut delay_timer = Timer::new();
    delay_timer.set(0x2);

    let instruction = LDVDT::new(0x4);

    instruction.execute(&mut register, &delay_timer);

    assert_eq!(register.get_program_counter(), 0x202);
    assert_eq!(register.get_v(0x4), 0x2);
}

#[test]
fn test_ldk_pressed() {
    let mut register = Register::new();
    let mut keypad = Keypad::new();
    keypad.pressed(Key::Key2);

    let instruction = LDK::new(0x4);

    instruction.execute(&mut register, &keypad);

    assert_eq!(register.get_program_counter(), 0x202);
    assert_eq!(register.get_v(0x4), 0x2);
}

#[test]
fn test_ldk_unpressed() {
    let mut register = Register::new();
    let keypad = Keypad::new();
    register.set_v(0x4, 0x7);

    let instruction = LDK::new(0x4);

    instruction.execute(&mut register, &keypad);

    assert_eq!(register.get_program_counter(), 0x200);
    assert_eq!(register.get_v(0x4), 0x7);
}

#[test]
fn test_lddtv() {
    let mut register = Register::new();
    let mut delay_timer = Timer::new();
    register.set_v(0x4, 0x2);

    let instruction = LDDTV::new(0x4);

    instruction.execute(&mut register, &mut delay_timer);

    assert_eq!(register.get_program_counter(), 0x202);
    assert_eq!(delay_timer.get(), 0x2);
}

#[test]
fn test_ldst() {
    let mut register = Register::new();
    let mut sound_timer = Timer::new();
    register.set_v(0x4, 0x2);

    let instruction = LDST::new(0x4);

    instruction.execute(&mut register, &mut sound_timer);

    assert_eq!(register.get_program_counter(), 0x202);
    assert_eq!(sound_timer.get(), 0x2);
}

#[test]
fn test_addi() {
    let mut register = Register::new();
    register.set_i(0x400);
    register.set_v(0x4, 0x20);

    let instruction = ADDI::new(0x4);

    instruction.execute(&mut register);

    assert_eq!(register.get_program_counter(), 0x202);
    assert_eq!(register.get_i(), 0x420);
}

#[test]
fn test_ldf() {
    let mut register = Register::new();
    let instruction = LDF::new(0x4);

    register.set_v(0x4, 0x0);

    instruction.execute(&mut register);

    assert_eq!(register.get_program_counter(), 0x202);
    assert_eq!(register.get_i(), 0x050);

    register.set_v(0x4, 0x1);

    instruction.execute(&mut register);

    assert_eq!(register.get_program_counter(), 0x204);
    assert_eq!(register.get_i(), 0x055);
}

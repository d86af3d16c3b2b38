use chip8::cpu::Cpu;
use chip8::operation::{Operation, ADD1, ADD2, CALL, CLS, DRW, JP, LD1, LDI, RET, SKNP, SKP, SUB, SYS};
use chip8::{Display, Emulator, Error, Key, Keypad, Memory, Quirks, Register, Timer};

const IBM_LOGO: [u8; 132] = [
    0x00, 0xe0, 0xa2, 0x2a, 0x60, 0x0c, 0x61, 0x08, 0xd0, 0x1f, 0x70, 0x09, 0xa2, 0x39, 0xd0, 0x1f,
    0xa2, 0x48, 0x70, 0x08, 0xd0, 0x1f, 0x70, 0x04, 0xa2, 0x57, 0xd0, 0x1f, 0x70, 0x08, 0xa2, 0x66,
    0xd0, 0x1f, 0x70, 0x08, 0xa2, 0x75, 0xd0, 0x1f, 0x12, 0x28, 0xff, 0x00, 0xff, 0x00, 0x3c, 0x00,
    0x3c, 0x00, 0x3c, 0x00, 0x3c, 0x00, 0xff, 0x00, 0xff, 0xff, 0x00, 0xff, 0x00, 0x38, 0x00, 0x3f,
    0x00, 0x3f, 0x00, 0x38, 0x00, 0xff, 0x00, 0xff, 0x80, 0x00, 0xe0, 0x00, 0xe0, 0x00, 0x80, 0x00,
    0x80, 0x00, 0xe0, 0x00, 0xe0, 0x00, 0x80, 0xf8, 0x00, 0xfc, 0x00, 0x3e, 0x00, 0x3f, 0x00, 0x3b,
    0x00, 0x39, 0x00, 0xf8, 0x00, 0xf8, 0x03, 0x00, 0x07, 0x00, 0x0f, 0x00, 0xbf, 0x00, 0xfb, 0x00,
    0xf3, 0x00, 0xe3, 0x00, 0x43, 0xe0, 0x00, 0xe0, 0x00, 0x80, 0x00, 0x80, 0x00, 0x80, 0x00, 0x80,
    0x00, 0xe0, 0x00, 0xe0,
];

const MS: u64 = 1_000_000;

fn lit_pixels(emulator: &Emulator) -> usize {
    let mut count = 0;
    for y in 0..32u8 {
        for x in 0..64u8 {
            if emulator.is_pixel_on(x, y) {
                count += 1;
            }
        }
    }
    count
}

fn lit_on_display(display: &Display) -> usize {
    let mut count = 0;
    for y in 0..32u8 {
        for x in 0..64u8 {
            if display.is_pixel_on(x, y) {
                count += 1;
            }
        }
    }
    count
}

#[test]
fn construction_state() {
    let emulator = Emulator::new();
    let debug = emulator.get_debug();
    assert!(emulator.is_paused());
    assert!(!emulator.is_beeping());
    assert_eq!(lit_pixels(&emulator), 0);
    assert_eq!(debug.register_program_counter, 0x200);
    assert_eq!(debug.register_i, 0);
    assert_eq!(debug.register_v, vec![0u8; 16]);
    assert!(debug.register_stack.is_empty());
    assert_eq!(debug.memory_ram.len(), 4096);
    assert_eq!(&debug.memory_ram[0x50..0x55], &[0xF0, 0x90, 0x90, 0x90, 0xF0]);
    assert_eq!(&debug.memory_ram[0x9B..0xA0], &[0xF0, 0x80, 0xF0, 0x80, 0x80]);
    let nonzero = debug.memory_ram.iter().enumerate().filter(|(_, b)| **b != 0).count();
    let outside_font = debug
        .memory_ram
        .iter()
        .enumerate()
        .filter(|(a, b)| **b != 0 && !(0x50..0xA0).contains(a))
        .count();
    assert!(nonzero > 0);
    assert_eq!(outside_font, 0);
    assert_eq!(debug.delay_timer, 0);
    assert_eq!(debug.sound_timer, 0);
}

#[test]
fn boot_stays_paused() {
    let mut emulator = Emulator::new();
    assert_eq!(emulator.emulate(16 * MS), Ok(()));
    assert!(emulator.is_paused());
    assert_eq!(lit_pixels(&emulator), 0);
    assert_eq!(emulator.get_debug().register_program_counter, 0x200);
}

#[test]
fn chip8_loads_rom() {
    let mut emulator = Emulator::new();
    emulator.load_rom(&IBM_LOGO).unwrap();
}

#[test]
fn mod_loads_rom() {
    let mut emulator = Emulator::new();
    emulator.load_rom(&IBM_LOGO).unwrap();
}

#[test]
fn load_rom_writes_program_and_unpauses() {
    let mut emulator = Emulator::new();
    assert_eq!(emulator.load_rom(&IBM_LOGO), Ok(()));
    assert!(!emulator.is_paused());
    let ram = emulator.get_debug().memory_ram;
    assert_eq!(&ram[0x200..0x200 + IBM_LOGO.len()], &IBM_LOGO[..]);
    assert_eq!(ram[0x200 + IBM_LOGO.len()], 0);
}

#[test]
fn load_rom_refuses_oversized_program() {
    let mut emulator = Emulator::new();
    let rom = vec![0x12u8; 3585];
    assert_eq!(emulator.load_rom(&rom), Err(Error::InvalidRom));
    assert!(emulator.is_paused());
    assert_eq!(emulator.get_debug().memory_ram[0x200], 0);
    let largest = vec![0x12u8; 3584];
    assert_eq!(emulator.load_rom(&largest), Ok(()));
    assert_eq!(emulator.get_debug().memory_ram[0xFFF], 0x12);
}

#[test]
fn ibm_logo_is_drawn() {
    let mut emulator = Emulator::new();
    emulator.load_rom(&IBM_LOGO).unwrap();
    for _ in 0..50 {
        emulator.emulate(20 * MS).unwrap();
    }
    let expected: u32 = IBM_LOGO[42..].iter().map(|b| b.count_ones()).sum();
    assert_eq!(lit_pixels(&emulator), expected as usize);
    assert_eq!(emulator.get_debug().register_program_counter, 0x228);
    assert!(emulator.is_pixel_on(12, 8));
    assert!(emulator.is_pixel_on(19, 8));
    assert!(!emulator.is_pixel_on(12, 9));
    assert!(emulator.is_pixel_on(14, 12));
    assert!(!emulator.is_pixel_on(12, 12));
    assert!(emulator.is_pixel_on(29, 8));
    assert!(!emulator.is_pixel_on(30, 8));
    assert!(!emulator.is_pixel_on(0, 0));
    assert!(!emulator.is_pixel_on(12, 23));
}

#[test]
fn parse_instruction() {
    let expected = vec![
        Operation::CLS(CLS::new()),
        Operation::LDI(LDI::new(0x22A)),
        Operation::LD1(LD1::new(0x0, 0x0C)),
        Operation::LD1(LD1::new(0x1, 0x08)),
        Operation::DRW(DRW::new(0x0, 0x1, 0xF)),
        Operation::ADD1(ADD1::new(0x0, 0x09)),
        Operation::LDI(LDI::new(0x239)),
        Operation::DRW(DRW::new(0x0, 0x1, 0xF)),
        Operation::LDI(LDI::new(0x248)),
        Operation::ADD1(ADD1::new(0x0, 0x08)),
        Operation::DRW(DRW::new(0x0, 0x1, 0xF)),
        Operation::ADD1(ADD1::new(0x0, 0x04)),
        Operation::LDI(LDI::new(0x257)),
        Operation::DRW(DRW::new(0x0, 0x1, 0xF)),
        Operation::ADD1(ADD1::new(0x0, 0x08)),
        Operation::LDI(LDI::new(0x266)),
        Operation::DRW(DRW::new(0x0, 0x1, 0xF)),
        Operation::ADD1(ADD1::new(0x0, 0x08)),
        Operation::LDI(LDI::new(0x275)),
        Operation::DRW(DRW::new(0x0, 0x1, 0xF)),
        Operation::JP(JP::new(0x228)),
    ];
    let mut memory = Memory::new();
    memory.load_rom(&IBM_LOGO).unwrap();
    for (index, instruction) in expected.into_iter().enumerate() {
        let byte1 = memory.get_byte((0x200 + index * 2) as u16);
        let byte2 = memory.get_byte((0x200 + index * 2 + 1) as u16);
        assert_eq!(Operation::parse([byte1, byte2]), Ok(instruction), "instruction {}", index);
    }
}

#[test]
fn decode_is_repeatable() {
    assert_eq!(Operation::parse([0xD0, 0x1F]), Operation::parse([0xD0, 0x1F]));
    assert_eq!(Operation::parse([0x8A, 0xB4]), Operation::parse([0x8A, 0xB4]));
}

#[test]
fn decode_unknown_opcodes() {
    assert_eq!(Operation::parse([0x51, 0x21]), Err(Error::UnknownOpcode(0x51, 0x21)));
    assert_eq!(Operation::parse([0x81, 0x28]), Err(Error::UnknownOpcode(0x81, 0x28)));
    assert_eq!(Operation::parse([0x91, 0x21]), Err(Error::UnknownOpcode(0x91, 0x21)));
    assert_eq!(Operation::parse([0xE1, 0x00]), Err(Error::UnknownOpcode(0xE1, 0x00)));
    assert_eq!(Operation::parse([0xF1, 0xFF]), Err(Error::UnknownOpcode(0xF1, 0xFF)));
    assert_eq!(Operation::parse([0x01, 0x23]), Ok(Operation::SYS(SYS::new(0x123))));
    assert_eq!(
        Operation::parse([0xF3, 0x33]),
        Ok(Operation::BinaryCodedDecimalConversion { x: 3 })
    );
}

#[test]
fn unknown_opcode_pauses_emulator() {
    let mut emulator = Emulator::new();
    emulator.load_rom(&[0xFF, 0xFF]).unwrap();
    assert_eq!(emulator.emulate(20 * MS), Err(Error::UnknownOpcode(0xFF, 0xFF)));
    assert!(emulator.is_paused());
    assert_eq!(emulator.get_debug().register_program_counter, 0x200);
}

#[test]
fn call_then_ret_returns_after_call() {
    let mut register = Register::new();
    CALL::new(0x400).execute(&mut register).unwrap();
    assert_eq!(register.get_program_counter(), 0x400);
    RET::new().execute(&mut register).unwrap();
    assert_eq!(register.get_program_counter(), 0x202);
    assert!(register.get_stack().is_empty());
}

#[test]
fn ret_on_empty_stack_underflows() {
    let mut register = Register::new();
    assert_eq!(RET::new().execute(&mut register), Err(Error::StackUnderflow));
    assert_eq!(register.get_program_counter(), 0x200);
}

#[test]
fn call_beyond_sixteen_overflows() {
    let mut register = Register::new();
    for _ in 0..16 {
        CALL::new(0x300).execute(&mut register).unwrap();
    }
    assert_eq!(register.get_stack().len(), 16);
    assert_eq!(CALL::new(0x400).execute(&mut register), Err(Error::StackOverflow));
    assert_eq!(register.get_program_counter(), 0x300);
    assert_eq!(register.get_stack().len(), 16);
}

#[test]
fn keypad_skips() {
    let mut register = Register::new();
    let mut keypad = Keypad::new();
    keypad.pressed(Key::Key5);
    register.set_v(0x0, 0x5);
    SKP::new(0x0).execute(&mut register, &keypad);
    assert_eq!(register.get_program_counter(), 0x204);
    SKNP::new(0x0).execute(&mut register, &keypad);
    assert_eq!(register.get_program_counter(), 0x206);
    keypad.released(Key::Key5);
    SKNP::new(0x0).execute(&mut register, &keypad);
    assert_eq!(register.get_program_counter(), 0x20A);
}

#[test]
fn keypad_tracks_each_key() {
    let mut keypad = Keypad::new();
    keypad.pressed(Key::A);
    keypad.pressed(Key::Key3);
    assert_eq!(keypad.read(), Some(3));
    assert!(keypad.is_pressed(0xA) && keypad.is_pressed(0x3));
    keypad.released(Key::A);
    assert_eq!(keypad.read(), Some(3));
    assert!(!keypad.is_pressed(0xA));
    keypad.released(Key::Key3);
    assert_eq!(keypad.read(), None);
    assert!(!keypad.is_pressed(0x10));
    assert_eq!(Keypad::map(Key::F), 0xF);
}

#[test]
fn beep_edge() {
    let mut emulator = Emulator::new();
    // LD V0, 2; LD ST, V0; JP 0x204
    emulator.load_rom(&[0x60, 0x02, 0xF0, 0x18, 0x12, 0x04]).unwrap();
    emulator.emulate(20 * MS).unwrap();
    assert!(!emulator.is_beeping());
    assert_eq!(emulator.get_debug().sound_timer, 2);
    emulator.emulate(20 * MS).unwrap();
    assert!(emulator.is_beeping());
    assert_eq!(emulator.get_debug().sound_timer, 1);
    emulator.emulate(20 * MS).unwrap();
    assert!(!emulator.is_beeping());
    assert_eq!(emulator.get_debug().sound_timer, 0);
}

#[test]
fn emulate_runs_one_instruction_per_clock_tick() {
    let mut emulator = Emulator::new();
    // ADD V0, 1; JP 0x200
    emulator.load_rom(&[0x70, 0x01, 0x12, 0x00]).unwrap();
    emulator.emulate(20 * MS).unwrap();
    // 20000 us at 1428 us per instruction: 14 instructions, 7 additions.
    assert_eq!(emulator.get_debug().register_v[0], 7);
    emulator.emulate(1 * MS).unwrap();
    // 21000 / 1428 = 14: no new tick.
    assert_eq!(emulator.get_debug().register_v[0], 7);
    emulator.emulate(1 * MS).unwrap();
    // 22000 / 1428 = 15.
    assert_eq!(emulator.get_debug().register_program_counter, 0x202);
}

#[test]
fn step_execute_runs_one_instruction() {
    let mut emulator = Emulator::new();
    emulator.load_rom(&[0x6A, 0x42]).unwrap();
    emulator.step_execute().unwrap();
    let debug = emulator.get_debug();
    assert_eq!(debug.register_v[0xA], 0x42);
    assert_eq!(debug.register_program_counter, 0x202);
}

#[test]
fn timer_counts_down() {
    let mut timer = Timer::new();
    assert_eq!(timer.get(), 0);
    timer.set(255);
    assert_eq!(timer.get(), 255);
    timer.set(10);
    assert_eq!(timer.get(), 10);
    let mut last = timer.get();
    for _ in 0..20 {
        timer.tick(7 * MS);
        let now = timer.get();
        assert!(now <= last);
        last = now;
    }
    assert_eq!(last, 2);
    timer.tick(1_000 * MS);
    assert_eq!(timer.get(), 0);
    timer.set(1);
    assert_eq!(timer.get(), 1);
    timer.tick(10 * MS);
    assert_eq!(timer.get(), 1);
    timer.tick(7 * MS);
    assert_eq!(timer.get(), 0);
}

#[test]
fn zero_timers() {
    let mut emulator = Emulator::new();
    // LD V0, 9; LD DT, V0; LD ST, V0
    emulator.load_rom(&[0x60, 0x09, 0xF0, 0x15, 0xF0, 0x18]).unwrap();
    for _ in 0..3 {
        emulator.step_execute().unwrap();
    }
    assert_eq!(emulator.get_debug().delay_timer, 9);
    emulator.zero_delay();
    emulator.zero_sound();
    assert_eq!(emulator.get_debug().delay_timer, 0);
    assert_eq!(emulator.get_debug().sound_timer, 0);
}

#[test]
fn clear_twice_equals_once() {
    let mut display = Display::new();
    let mut register = Register::new();
    display.set_pixel(5, 5, true);
    CLS::new().execute(&mut register, &mut display);
    assert_eq!(lit_on_display(&display), 0);
    CLS::new().execute(&mut register, &mut display);
    assert_eq!(lit_on_display(&display), 0);
    assert_eq!(register.get_program_counter(), 0x204);
}

#[test]
fn load_twice_equals_once() {
    let mut register = Register::new();
    LD1::new(0x3, 0x99).execute(&mut register);
    LD1::new(0x3, 0x99).execute(&mut register);
    assert_eq!(register.get_v(0x3), 0x99);
    for x in 0..16u8 {
        if x != 3 {
            assert_eq!(register.get_v(x), 0);
        }
    }
}

fn sprite_setup(bytes: &[u8], vx: u8, vy: u8) -> (Register, Display, Memory) {
    let mut register = Register::new();
    let mut memory = Memory::new();
    for (k, b) in bytes.iter().enumerate() {
        memory.set_byte(0x300 + k as u16, *b);
    }
    register.set_i(0x300);
    register.set_v(0x0, vx);
    register.set_v(0x1, vy);
    (register, Display::new(), memory)
}

#[test]
fn draw_twice_restores_display() {
    let (mut register, mut display, memory) = sprite_setup(&[0xF0, 0x90, 0xF0], 10, 4);
    display.set_pixel(0, 0, true);
    let op = DRW::new(0x0, 0x1, 3);
    op.execute(&mut register, &mut display, &memory);
    assert_eq!(register.get_v(0xF), 0);
    assert_eq!(lit_on_display(&display), 1 + 10);
    op.execute(&mut register, &mut display, &memory);
    assert_eq!(register.get_v(0xF), 1);
    assert_eq!(lit_on_display(&display), 1);
    assert!(display.is_pixel_on(0, 0));
}

#[test]
fn draw_clips_right_edge() {
    let (mut register, mut display, memory) = sprite_setup(&[0xFF], 60, 0);
    DRW::new(0x0, 0x1, 1).execute(&mut register, &mut display, &memory);
    for x in 60..64u8 {
        assert!(display.is_pixel_on(x, 0));
    }
    for x in 0..4u8 {
        assert!(!display.is_pixel_on(x, 0));
    }
    assert_eq!(lit_on_display(&display), 4);
}

#[test]
fn draw_clips_bottom_edge() {
    let (mut register, mut display, memory) = sprite_setup(&[0x80, 0x80, 0x80, 0x80], 0, 30);
    DRW::new(0x0, 0x1, 4).execute(&mut register, &mut display, &memory);
    assert!(display.is_pixel_on(0, 30));
    assert!(display.is_pixel_on(0, 31));
    assert!(!display.is_pixel_on(0, 0));
    assert!(!display.is_pixel_on(0, 1));
    assert_eq!(lit_on_display(&display), 2);
}

#[test]
fn draw_position_wraps_start() {
    let (mut register, mut display, memory) = sprite_setup(&[0x80], 64 + 3, 32 + 2);
    DRW::new(0x0, 0x1, 1).execute(&mut register, &mut display, &memory);
    assert!(display.is_pixel_on(3, 2));
    assert_eq!(lit_on_display(&display), 1);
    assert_eq!(register.get_program_counter(), 0x202);
}

#[test]
fn add_with_carry() {
    let mut register = Register::new();
    register.set_v(0x0, 0xFF);
    register.set_v(0x1, 0x02);
    ADD2::new(0x0, 0x1).execute(&mut register);
    assert_eq!(register.get_v(0x0), 0x01);
    assert_eq!(register.get_v(0xF), 1);
}

#[test]
fn sub_with_borrow() {
    let mut register = Register::new();
    register.set_v(0x0, 0x00);
    register.set_v(0x1, 0x02);
    SUB::new(0x0, 0x1).execute(&mut register);
    assert_eq!(register.get_v(0x0), 0xFE);
    assert_eq!(register.get_v(0xF), 0);
}

#[test]
fn sub_of_equal_values_clears_flag() {
    let mut register = Register::new();
    register.set_v(0x0, 0x05);
    register.set_v(0x1, 0x05);
    SUB::new(0x0, 0x1).execute(&mut register);
    assert_eq!(register.get_v(0x0), 0);
    assert_eq!(register.get_v(0xF), 0);
}

#[test]
fn flag_register_as_operand() {
    let mut register = Register::new();
    register.set_v(0xF, 0xFF);
    register.set_v(0x1, 0x02);
    ADD2::new(0xF, 0x1).execute(&mut register);
    assert_eq!(register.get_v(0xF), 1);
}

#[test]
fn bcd_of_123() {
    let mut cpu = Cpu::new();
    let mut register = Register::new();
    let mut memory = Memory::new();
    register.set_v(0x2, 123);
    register.set_i(0x400);
    cpu.execute_binary_coded_decimal_conversion(0x2, &mut memory, &mut register);
    assert_eq!(memory.get_byte(0x400), 1);
    assert_eq!(memory.get_byte(0x401), 2);
    assert_eq!(memory.get_byte(0x402), 3);
    assert_eq!(register.get_program_counter(), 0x202);
}

#[test]
fn bcd_wraps_at_end_of_memory() {
    let mut cpu = Cpu::new();
    let mut register = Register::new();
    let mut memory = Memory::new();
    register.set_v(0x0, 255);
    register.set_i(0xFFF);
    cpu.execute_binary_coded_decimal_conversion(0x0, &mut memory, &mut register);
    assert_eq!(memory.get_byte(0xFFF), 2);
    assert_eq!(memory.get_byte(0x000), 5);
    assert_eq!(memory.get_byte(0x001), 5);
}

#[test]
fn store_and_load_registers() {
    let mut cpu = Cpu::new();
    let mut register = Register::new();
    let mut memory = Memory::new();
    for x in 0..16u8 {
        register.set_v(x, x * 3 + 1);
    }
    register.set_i(0x500);
    cpu.execute_store_memory(0x4, &mut memory, &mut register, Quirks::modern());
    assert_eq!(memory.get_byte(0x500), 1);
    assert_eq!(memory.get_byte(0x504), 13);
    assert_eq!(memory.get_byte(0x505), 0);
    assert_eq!(register.get_i(), 0x500);

    let mut fresh = Register::new();
    fresh.set_i(0x501);
    cpu.execute_load_memory(0x2, &memory, &mut fresh, Quirks::modern());
    assert_eq!(fresh.get_v(0x0), 4);
    assert_eq!(fresh.get_v(0x1), 7);
    assert_eq!(fresh.get_v(0x2), 10);
    assert_eq!(fresh.get_v(0x3), 0);
    assert_eq!(fresh.get_program_counter(), 0x202);
}

#[test]
fn sys_is_ignored() {
    let mut register = Register::new();
    SYS::new(0x123).execute(&mut register);
    assert_eq!(register.get_program_counter(), 0x202);
    assert_eq!(register.get_i(), 0);
}

#[test]
fn program_counter_wraps() {
    let mut register = Register::new();
    register.set_program_counter(0xFFFE);
    register.increment_program_counter();
    assert_eq!(register.get_program_counter(), 0);
}

#[test]
fn random_draw_is_masked() {
    let mut register = Register::new();
    for _ in 0..32 {
        chip8::operation::RND::new(0x1, 0x0F).execute(&mut register);
        assert!(register.get_v(0x1) <= 0x0F);
    }
    chip8::operation::RND::new(0x2, 0x3C).execute_with_byte(&mut register, 0xFF);
    assert_eq!(register.get_v(0x2), 0x3C);
}

#[test]
fn font_glyph_address() {
    let mut register = Register::new();
    register.set_v(0x0, 0x1F);
    chip8::operation::LDF::new(0x0).execute(&mut register);
    assert_eq!(register.get_i(), 0x50 + 0xF * 5);
}

#[test]
fn emulator_keys_reach_program() {
    let mut emulator = Emulator::new();
    // LD V3, K; JP 0x202
    emulator.load_rom(&[0xF3, 0x0A, 0x12, 0x02]).unwrap();
    emulator.emulate(10 * MS).unwrap();
    assert_eq!(emulator.get_debug().register_program_counter, 0x200);
    emulator.key_pressed(Key::C);
    emulator.emulate(10 * MS).unwrap();
    assert_eq!(emulator.get_debug().register_v[3], 0xC);
    emulator.key_released(Key::C);
    assert_eq!(emulator.get_debug().register_program_counter, 0x202);
}

#[test]
fn vip_quirks_for_shift_and_block_transfer() {
    let mut register = Register::new();
    register.set_v(0x4, 0b1000_0001);
    register.set_v(0x2, 0b0000_0110);
    chip8::operation::SHR::new(0x4, 0x2).execute_with_quirks(&mut register, Quirks::cosmac_vip());
    assert_eq!(register.get_v(0x4), 0b0000_0011);
    assert_eq!(register.get_v(0xF), 0);
    chip8::operation::SHL::new(0x4, 0x2).execute_with_quirks(&mut register, Quirks::modern());
    assert_eq!(register.get_v(0x4), 0b0000_0110);
    assert_eq!(register.get_v(0xF), 0);

    let mut cpu = Cpu::new();
    let mut memory = Memory::new();
    register.set_i(0xFFE);
    cpu.execute_store_memory(0x2, &mut memory, &mut register, Quirks::cosmac_vip());
    assert_eq!(register.get_i(), 0x001);
    assert_eq!(memory.get_byte(0x000), register.get_v(0x2));
    register.set_i(0x300);
    cpu.execute_load_memory(0x1, &memory, &mut register, Quirks::cosmac_vip());
    assert_eq!(register.get_i(), 0x302);
}

#[test]
fn emulator_follows_chosen_quirks() {
    // LD V1, 0x80; SHL V0, V1; JP 0x204
    let rom = [0x61, 0x80, 0x80, 0x1E, 0x12, 0x04];
    let mut modern = Emulator::new();
    modern.load_rom(&rom).unwrap();
    for _ in 0..3 {
        modern.step_execute().unwrap();
    }
    assert_eq!(modern.get_debug().register_v[0], 0);
    assert_eq!(modern.get_debug().register_v[0xF], 0);

    let mut vip = Emulator::new();
    vip.set_quirks(Quirks::cosmac_vip());
    vip.load_rom(&rom).unwrap();
    for _ in 0..3 {
        vip.step_execute().unwrap();
    }
    assert_eq!(vip.get_debug().register_v[0], 0);
    assert_eq!(vip.get_debug().register_v[0xF], 1);
}

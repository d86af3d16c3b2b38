use vstd::prelude::*;
use crate::display::{blank_screen, on_screen, pixel_index, Display};
use crate::error::Error;
use crate::keypad::{key_down, Keypad};
use crate::memory::Memory;
use crate::nibble;
use crate::quirks::Quirks;
use crate::register::{next_pc, Register, RegisterState, STACK_DEPTH};
use crate::state::{flag, ram_addr, Machine};
use crate::timer::{sixtieths_in_nanos, ticks_left, Timer};

verus! {

/// One decoded instruction. Each variant notes the opcode pattern it comes
/// from: `X` and `Y` name registers, `N`, `NN` and `NNN` are immediates.
#[derive(Clone, Copy, Debug, PartialEq, Eq, Structural)]
pub enum Operation {
    /// 00E0
    CLS(CLS),
    /// 00EE
    RET(RET),
    /// 0NNN
    SYS(SYS),
    /// 1NNN
    JP(JP),
    /// 2NNN
    CALL(CALL),
    /// 3XNN
    SE1(SE1),
    /// 4XNN
    SNE1(SNE1),
    /// 5XY0
    SE2(SE2),
    /// 6XNN
    LD1(LD1),
    /// 7XNN
    ADD1(ADD1),
    /// 8XY0
    LD2(LD2),
    /// 8XY1
    OR(OR),
    /// 8XY2
    AND2(AND2),
    /// 8XY3
    XOR(XOR),
    /// 8XY4
    ADD2(ADD2),
    /// 8XY5
    SUB(SUB),
    /// 8XY6
    SHR(SHR),
    /// 8XY7
    SUBN(SUBN),
    /// 8XYE
    SHL(SHL),
    /// 9XY0
    SNE2(SNE2),
    /// ANNN
    LDI(LDI),
    /// BNNN
    JPV0(JPV0),
    /// CXNN
    RND(RND),
    /// DXYN
    DRW(DRW),
    /// EX9E
    SKP(SKP),
    /// EXA1
    SKNP(SKNP),
    /// FX07
    LDVDT(LDVDT),
    /// FX0A
    LDK(LDK),
    /// FX15
    LDDTV(LDDTV),
    /// FX18
    LDST(LDST),
    /// FX1E
    ADDI(ADDI),
    /// FX29
    LDF(LDF),
    /// FX33
    BinaryCodedDecimalConversion { x: u8 },
    /// FX55
    StoreMemory { x: u8 },
    /// FX65
    LoadMemory { x: u8 },
}

/// 00E0 - CLS: clear the display.
#[derive(Clone, Copy, Debug, PartialEq, Eq, Structural)]
pub struct CLS;

/// 00EE - RET: return from a subroutine to the instruction after its call.
#[derive(Clone, Copy, Debug, PartialEq, Eq, Structural)]
pub struct RET;

/// 0NNN - SYS addr: a machine-code routine of the first CHIP-8 computers; ignored.
#[derive(Clone, Copy, Debug, PartialEq, Eq, Structural)]
pub struct SYS {
    pub nnn: u16,
}

/// 1NNN - JP addr: jump to NNN.
#[derive(Clone, Copy, Debug, PartialEq, Eq, Structural)]
pub struct JP {
    pub nnn: u16,
}

/// 2NNN - CALL addr: push the program counter and jump to NNN.
#[derive(Clone, Copy, Debug, PartialEq, Eq, Structural)]
pub struct CALL {
    pub nnn: u16,
}

/// 3XNN - SE Vx, byte: skip the next instruction if Vx = NN.
#[derive(Clone, Copy, Debug, PartialEq, Eq, Structural)]
pub struct SE1 {
    pub x: u8,
    pub nn: u8,
}

/// 4XNN - SNE Vx, byte: skip the next instruction if Vx != NN.
#[derive(Clone, Copy, Debug, PartialEq, Eq, Structural)]
pub struct SNE1 {
    pub x: u8,
    pub nn: u8,
}

/// 5XY0 - SE Vx, Vy: skip the next instruction if Vx = Vy.
#[derive(Clone, Copy, Debug, PartialEq, Eq, Structural)]
pub struct SE2 {
    pub x: u8,
    pub y: u8,
}

/// 6XNN - LD Vx, byte: Vx = NN.
#[derive(Clone, Copy, Debug, PartialEq, Eq, Structural)]
pub struct LD1 {
    pub x: u8,
    pub nn: u8,
}

/// 7XNN - ADD Vx, byte: Vx = Vx + NN, wrapping; VF is left alone.
#[derive(Clone, Copy, Debug, PartialEq, Eq, Structural)]
pub struct ADD1 {
    pub x: u8,
    pub nn: u8,
}

/// 8XY0 - LD Vx, Vy: Vx = Vy.
#[derive(Clone, Copy, Debug, PartialEq, Eq, Structural)]
pub struct LD2 {
    pub x: u8,
    pub y: u8,
}

/// 8XY1 - OR Vx, Vy: Vx = Vx OR Vy.
#[derive(Clone, Copy, Debug, PartialEq, Eq, Structural)]
pub struct OR {
    pub x: u8,
    pub y: u8,
}

/// 8XY2 - AND Vx, Vy: Vx = Vx AND Vy.
#[derive(Clone, Copy, Debug, PartialEq, Eq, Structural)]
pub struct AND2 {
    pub x: u8,
    pub y: u8,
}

/// 8XY3 - XOR Vx, Vy: Vx = Vx XOR Vy.
#[derive(Clone, Copy, Debug, PartialEq, Eq, Structural)]
pub struct XOR {
    pub x: u8,
    pub y: u8,
}

/// 8XY4 - ADD Vx, Vy: Vx = Vx + Vy, wrapping, then VF = carry.
#[derive(Clone, Copy, Debug, PartialEq, Eq, Structural)]
pub struct ADD2 {
    pub x: u8,
    pub y: u8,
}

/// 8XY5 - SUB Vx, Vy: Vx = Vx - Vy, wrapping, then VF = 1 if Vx > Vy.
#[derive(Clone, Copy, Debug, PartialEq, Eq, Structural)]
pub struct SUB {
    pub x: u8,
    pub y: u8,
}

/// 8XY6 - SHR Vx: VF = the low bit of Vx, then Vx = Vx >> 1. Vy is read
/// only under the COSMAC VIP quirk, which first copies it into Vx.
#[derive(Clone, Copy, Debug, PartialEq, Eq, Structural)]
pub struct SHR {
    pub x: u8,
    pub y: u8,
}

/// 8XY7 - SUBN Vx, Vy: Vx = Vy - Vx, wrapping, then VF = 1 if Vy > Vx.
#[derive(Clone, Copy, Debug, PartialEq, Eq, Structural)]
pub struct SUBN {
    pub x: u8,
    pub y: u8,
}

/// 8XYE - SHL Vx: VF = the high bit of Vx, then Vx = Vx << 1. Vy is read
/// only under the COSMAC VIP quirk, which first copies it into Vx.
#[derive(Clone, Copy, Debug, PartialEq, Eq, Structural)]
pub struct SHL {
    pub x: u8,
    pub y: u8,
}

/// 9XY0 - SNE Vx, Vy: skip the next instruction if Vx != Vy.
#[derive(Clone, Copy, Debug, PartialEq, Eq, Structural)]
pub struct SNE2 {
    pub x: u8,
    pub y: u8,
}

/// ANNN - LD I, addr: I = NNN.
#[derive(Clone, Copy, Debug, PartialEq, Eq, Structural)]
pub struct LDI {
    pub nnn: u16,
}

/// BNNN - JP V0, addr: jump to NNN + V0.
#[derive(Clone, Copy, Debug, PartialEq, Eq, Structural)]
pub struct JPV0 {
    pub nnn: u16,
}

/// CXNN - RND Vx, byte: Vx = a random byte AND NN.
#[derive(Clone, Copy, Debug, PartialEq, Eq, Structural)]
pub struct RND {
    pub x: u8,
    pub nn: u8,
}

/// DXYN - DRW Vx, Vy, nibble: XOR an N-row sprite read from I onto the
/// display at (Vx mod 64, Vy mod 32), clipped at the right and bottom edges;
/// VF = 1 if a pixel was turned off.
#[derive(Clone, Copy, Debug, PartialEq, Eq, Structural)]
pub struct DRW {
    pub x: u8,
    pub y: u8,
    pub n: u8,
}

/// EX9E - SKP Vx: skip the next instruction if key Vx is down.
#[derive(Clone, Copy, Debug, PartialEq, Eq, Structural)]
pub struct SKP {
    pub x: u8,
}

/// EXA1 - SKNP Vx: skip the next instruction if key Vx is up.
#[derive(Clone, Copy, Debug, PartialEq, Eq, Structural)]
pub struct SKNP {
    pub x: u8,
}

/// FX07 - LD Vx, DT: Vx = the delay timer's value.
#[derive(Clone, Copy, Debug, PartialEq, Eq, Structural)]
pub struct LDVDT {
    pub x: u8,
}

/// FX0A - LD Vx, K: wait for a key; while none is held the instruction
/// repeats, once one is, Vx = that key.
#[derive(Clone, Copy, Debug, PartialEq, Eq, Structural)]
pub struct LDK {
    pub x: u8,
}

/// FX15 - LD DT, Vx: delay timer = Vx.
#[derive(Clone, Copy, Debug, PartialEq, Eq, Structural)]
pub struct LDDTV {
    pub x: u8,
}

/// FX18 - LD ST, Vx: sound timer = Vx.
#[derive(Clone, Copy, Debug, PartialEq, Eq, Structural)]
pub struct LDST {
    pub x: u8,
}

/// FX1E - ADD I, Vx: I = I + Vx, wrapped to 12 bits.
#[derive(Clone, Copy, Debug, PartialEq, Eq, Structural)]
pub struct ADDI {
    pub x: u8,
}

/// FX29 - LD F, Vx: I = the address of the font glyph for the low nibble of Vx.
#[derive(Clone, Copy, Debug, PartialEq, Eq, Structural)]
pub struct LDF {
    pub x: u8,
}

impl CLS {
    pub fn new() -> (r: CLS) {
        CLS
    }

    pub fn execute(&self, register: &mut Register, display: &mut Display)
        ensures
            final(register)@ == old(register)@.advanced(),
            final(display)@ == blank_screen(),
    {
        display.clear_screen();
        register.increment_program_counter();
    }
}

impl RET {
    pub fn new() -> (r: RET) {
        RET
    }

    /// The result, and the registers after a return from `r`.
    pub open spec fn next(self, r: RegisterState) -> (Result<(), Error>, RegisterState) {
        if r.stack.len() == 0 {
            (Err(Error::StackUnderflow), r)
        } else {
            (
                Ok(()),
                RegisterState {
                    stack: r.stack.drop_last(),
                    pc: next_pc(r.stack.last()),
                    ..r
                },
            )
        }
    }

    pub fn execute(&self, register: &mut Register) -> (r: Result<(), Error>)
        ensures
            (r, final(register)@) == self.next(old(register)@),
    {
        let program_counter = register.pop_stack()?;
        register.set_program_counter(program_counter);
        register.increment_program_counter();
        Ok(())
    }
}

impl SYS {
    pub fn new(nnn: u16) -> (r: SYS)
        ensures
            r.nnn == nnn,
    {
        SYS { nnn }
    }

    /// Moves past the instruction and does nothing else.
    pub fn execute(&self, register: &mut Register)
        ensures
            final(register)@ == old(register)@.advanced(),
    {
        register.increment_program_counter();
    }
}

impl JP {
    pub fn new(nnn: u16) -> (r: JP)
        ensures
            r.nnn == nnn,
    {
        JP { nnn }
    }

    pub fn execute(&self, register: &mut Register)
        ensures
            final(register)@ == old(register)@.with_pc(self.nnn),
    {
        register.set_program_counter(self.nnn);
    }
}

impl CALL {
    pub fn new(nnn: u16) -> (r: CALL)
        ensures
            r.nnn == nnn,
    {
        CALL { nnn }
    }

    /// The result, and the registers after a call from `r`.
    pub open spec fn next(self, r: RegisterState) -> (Result<(), Error>, RegisterState) {
        if r.stack.len() >= STACK_DEPTH {
            (Err(Error::StackOverflow), r)
        } else {
            (Ok(()), RegisterState { stack: r.stack.push(r.pc), pc: self.nnn, ..r })
        }
    }

    pub fn execute(&self, register: &mut Register) -> (r: Result<(), Error>)
        ensures
            (r, final(register)@) == self.next(old(register)@),
    {
        register.push_stack(register.get_program_counter())?;
        register.set_program_counter(self.nnn);
        Ok(())
    }
}

impl SE1 {
    pub fn new(x: u8, nn: u8) -> (r: SE1)
        ensures
            r.x == x && r.nn == nn,
    {
        SE1 { x, nn }
    }

    pub open spec fn next(self, r: RegisterState) -> RegisterState {
        r.skipped_if(r.v[self.x as int] == self.nn)
    }

    pub fn execute(&self, register: &mut Register)
        requires
            self.x < 16,
        ensures
            final(register)@ == self.next(old(register)@),
    {
        if register.get_v(self.x) == self.nn {
            register.increment_program_counter();
        }
        register.increment_program_counter();
    }
}

impl SNE1 {
    pub fn new(x: u8, nn: u8) -> (r: SNE1)
        ensures
            r.x == x && r.nn == nn,
    {
        SNE1 { x, nn }
    }

    pub open spec fn next(self, r: RegisterState) -> RegisterState {
        r.skipped_if(r.v[self.x as int] != self.nn)
    }

    pub fn execute(&self, register: &mut Register)
        requires
            self.x < 16,
        ensures
            final(register)@ == self.next(old(register)@),
    {
        if register.get_v(self.x) != self.nn {
            register.increment_program_counter();
        }
        register.increment_program_counter();
    }
}

impl SE2 {
    pub fn new(x: u8, y: u8) -> (r: SE2)
        ensures
            r.x == x && r.y == y,
    {
        SE2 { x, y }
    }

    pub open spec fn next(self, r: RegisterState) -> RegisterState {
        r.skipped_if(r.v[self.x as int] == r.v[self.y as int])
    }

    pub fn execute(&self, register: &mut Register)
        requires
            self.x < 16,
            self.y < 16,
        ensures
            final(register)@ == self.next(old(register)@),
    {
        if register.get_v(self.x) == register.get_v(self.y) {
            register.increment_program_counter();
        }
        register.increment_program_counter();
    }
}

impl LD1 {
    pub fn new(x: u8, nn: u8) -> (r: LD1)
        ensures
            r.x == x && r.nn == nn,
    {
        LD1 { x, nn }
    }

    pub open spec fn next(self, r: RegisterState) -> RegisterState {
        r.with_v(self.x as int, self.nn).advanced()
    }

    pub fn execute(&self, register: &mut Register)
        requires
            self.x < 16,
        ensures
            final(register)@ == self.next(old(register)@),
    {
        register.set_v(self.x, self.nn);
        register.increment_program_counter();
    }
}

impl ADD1 {
    pub fn new(x: u8, nn: u8) -> (r: ADD1)
        ensures
            r.x == x && r.nn == nn,
    {
        ADD1 { x, nn }
    }

    pub open spec fn next(self, r: RegisterState) -> RegisterState {
        r.with_v(self.x as int, ((r.v[self.x as int] + self.nn) % 256) as u8).advanced()
    }

    pub fn execute(&self, register: &mut Register)
        requires
            self.x < 16,
        ensures
            final(register)@ == self.next(old(register)@),
    {
        let nn = register.get_v(self.x).wrapping_add(self.nn);
        register.set_v(self.x, nn);
        register.increment_program_counter();
    }
}

impl LD2 {
    pub fn new(x: u8, y: u8) -> (r: LD2)
        ensures
            r.x == x && r.y == y,
    {
        LD2 { x, y }
    }

    pub open spec fn next(self, r: RegisterState) -> RegisterState {
        r.with_v(self.x as int, r.v[self.y as int]).advanced()
    }

    pub fn execute(&self, register: &mut Register)
        requires
            self.x < 16,
            self.y < 16,
        ensures
            final(register)@ == self.next(old(register)@),
    {
        register.set_v(self.x, register.get_v(self.y));
        register.increment_program_counter();
    }
}

impl OR {
    pub fn new(x: u8, y: u8) -> (r: OR)
        ensures
            r.x == x && r.y == y,
    {
        OR { x, y }
    }

    pub open spec fn next(self, r: RegisterState) -> RegisterState {
        r.with_v(self.x as int, r.v[self.x as int] | r.v[self.y as int]).advanced()
    }

    pub fn execute(&self, register: &mut Register)
        requires
            self.x < 16,
            self.y < 16,
        ensures
            final(register)@ == self.next(old(register)@),
    {
        register.set_v(self.x, register.get_v(self.x) | register.get_v(self.y));
        register.increment_program_counter();
    }
}

impl AND2 {
    pub fn new(x: u8, y: u8) -> (r: AND2)
        ensures
            r.x == x && r.y == y,
    {
        AND2 { x, y }
    }

    pub open spec fn next(self, r: RegisterState) -> RegisterState {
        r.with_v(self.x as int, r.v[self.x as int] & r.v[self.y as int]).advanced()
    }

    pub fn execute(&self, register: &mut Register)
        requires
            self.x < 16,
            self.y < 16,
        ensures
            final(register)@ == self.next(old(register)@),
    {
        register.set_v(self.x, register.get_v(self.x) & register.get_v(self.y));
        register.increment_program_counter();
    }
}

impl XOR {
    pub fn new(x: u8, y: u8) -> (r: XOR)
        ensures
            r.x == x && r.y == y,
    {
        XOR { x, y }
    }

    pub open spec fn next(self, r: RegisterState) -> RegisterState {
        r.with_v(self.x as int, r.v[self.x as int] ^ r.v[self.y as int]).advanced()
    }

    pub fn execute(&self, register: &mut Register)
        requires
            self.x < 16,
            self.y < 16,
        ensures
            final(register)@ == self.next(old(register)@),
    {
        register.set_v(self.x, register.get_v(self.x) ^ register.get_v(self.y));
        register.increment_program_counter();
    }
}

impl ADD2 {
    pub fn new(x: u8, y: u8) -> (r: ADD2)
        ensures
            r.x == x && r.y == y,
    {
        ADD2 { x, y }
    }

    pub open spec fn next(self, r: RegisterState) -> RegisterState {
        let sum = r.v[self.x as int] + r.v[self.y as int];
        r.with_v(self.x as int, (sum % 256) as u8).with_v(15, flag(sum > 255)).advanced()
    }

    pub fn execute(&self, register: &mut Register)
        requires
            self.x < 16,
            self.y < 16,
        ensures
            final(register)@ == self.next(old(register)@),
    {
        let vx = register.get_v(self.x);
        let vy = register.get_v(self.y);
        register.set_v(self.x, vx.wrapping_add(vy));
        if vx as u16 + vy as u16 > 255 {
            register.set_v(0xF, 1);
        } else {
            register.set_v(0xF, 0);
        }
        register.increment_program_counter();
    }
}

impl SUB {
    pub fn new(x: u8, y: u8) -> (r: SUB)
        ensures
            r.x == x && r.y == y,
    {
        SUB { x, y }
    }

    pub open spec fn next(self, r: RegisterState) -> RegisterState {
        let vx = r.v[self.x as int];
        let vy = r.v[self.y as int];
        r.with_v(self.x as int, ((vx - vy + 256) % 256) as u8).with_v(15, flag(vx > vy)).advanced()
    }

    pub fn execute(&self, register: &mut Register)
        requires
            self.x < 16,
            self.y < 16,
        ensures
            final(register)@ == self.next(old(register)@),
    {
        let vx = register.get_v(self.x);
        let vy = register.get_v(self.y);
        register.set_v(self.x, vx.wrapping_sub(vy));
        if vx > vy {
            register.set_v(0xF, 1);
        } else {
            register.set_v(0xF, 0);
        }
        register.increment_program_counter();
    }
}

impl SHR {
    pub fn new(x: u8, y: u8) -> (r: SHR)
        ensures
            r.x == x && r.y == y,
    {
        SHR { x, y }
    }

    pub open spec fn next(self, r: RegisterState) -> RegisterState {
        let vx = r.v[self.x as int];
        r.with_v(15, vx % 2).with_v(self.x as int, vx / 2).advanced()
    }

    pub fn execute(&self, register: &mut Register)
        requires
            self.x < 16,
        ensures
            final(register)@ == self.next(old(register)@),
    {
        let vx = register.get_v(self.x);
        register.set_v(0xF, vx & 1);
        register.set_v(self.x, vx >> 1);
        assert(vx & 1 == vx % 2 && vx >> 1 == vx / 2) by (bit_vector);
        register.increment_program_counter();
    }

    /// The registers after the instruction under `quirks`.
    pub open spec fn next_with(self, r: RegisterState, quirks: Quirks) -> RegisterState {
        if quirks.shift_copies_vy {
            self.next(r.with_v(self.x as int, r.v[self.y as int]))
        } else {
            self.next(r)
        }
    }

    /// Executes the instruction under `quirks`.
    pub fn execute_with_quirks(&self, register: &mut Register, quirks: Quirks)
        requires
            self.x < 16,
            self.y < 16,
        ensures
            final(register)@ == self.next_with(old(register)@, quirks),
    {
        if quirks.shift_copies_vy {
            register.set_v(self.x, register.get_v(self.y));
        }
        self.execute(register);
    }
}

impl SUBN {
    pub fn new(x: u8, y: u8) -> (r: SUBN)
        ensures
            r.x == x && r.y == y,
    {
        SUBN { x, y }
    }

    pub open spec fn next(self, r: RegisterState) -> RegisterState {
        let vx = r.v[self.x as int];
        let vy = r.v[self.y as int];
        r.with_v(self.x as int, ((vy - vx + 256) % 256) as u8).with_v(15, flag(vy > vx)).advanced()
    }

    pub fn execute(&self, register: &mut Register)
        requires
            self.x < 16,
            self.y < 16,
        ensures
            final(register)@ == self.next(old(register)@),
    {
        let vx = register.get_v(self.x);
        let vy = register.get_v(self.y);
        register.set_v(self.x, vy.wrapping_sub(vx));
        if vy > vx {
            register.set_v(0xF, 1);
        } else {
            register.set_v(0xF, 0);
        }
        register.increment_program_counter();
    }
}

impl SHL {
    pub fn new(x: u8, y: u8) -> (r: SHL)
        ensures
            r.x == x && r.y == y,
    {
        SHL { x, y }
    }

    pub open spec fn next(self, r: RegisterState) -> RegisterState {
        let vx = r.v[self.x as int];
        r.with_v(15, vx / 128).with_v(self.x as int, ((vx * 2) % 256) as u8).advanced()
    }

    pub fn execute(&self, register: &mut Register)
        requires
            self.x < 16,
        ensures
            final(register)@ == self.next(old(register)@),
    {
        let vx = register.get_v(self.x);
        register.set_v(0xF, vx >> 7);
        register.set_v(self.x, vx << 1);
        assert(vx >> 7 == vx / 128 && vx << 1 == ((vx * 2) % 256) as u8) by (bit_vector);
        register.increment_program_counter();
    }

    /// The registers after the instruction under `quirks`.
    pub open spec fn next_with(self, r: RegisterState, quirks: Quirks) -> RegisterState {
        if quirks.shift_copies_vy {
            self.next(r.with_v(self.x as int, r.v[self.y as int]))
        } else {
            self.next(r)
        }
    }

    /// Executes the instruction under `quirks`.
    pub fn execute_with_quirks(&self, register: &mut Register, quirks: Quirks)
        requires
            self.x < 16,
            self.y < 16,
        ensures
            final(register)@ == self.next_with(old(register)@, quirks),
    {
        if quirks.shift_copies_vy {
            register.set_v(self.x, register.get_v(self.y));
        }
        self.execute(register);
    }
}

impl SNE2 {
    pub fn new(x: u8, y: u8) -> (r: SNE2)
        ensures
            r.x == x && r.y == y,
    {
        SNE2 { x, y }
    }

    pub open spec fn next(self, r: RegisterState) -> RegisterState {
        r.skipped_if(r.v[self.x as int] != r.v[self.y as int])
    }

    pub fn execute(&self, register: &mut Register)
        requires
            self.x < 16,
            self.y < 16,
        ensures
            final(register)@ == self.next(old(register)@),
    {
        if register.get_v(self.x) != register.get_v(self.y) {
            register.increment_program_counter();
        }
        register.increment_program_counter();
    }
}

impl LDI {
    pub fn new(nnn: u16) -> (r: LDI)
        ensures
            r.nnn == nnn,
    {
        LDI { nnn }
    }

    pub fn execute(&self, register: &mut Register)
        ensures
            final(register)@ == old(register)@.with_i(self.nnn).advanced(),
    {
        register.set_i(self.nnn);
        register.increment_program_counter();
    }
}

impl JPV0 {
    pub fn new(nnn: u16) -> (r: JPV0)
        ensures
            r.nnn == nnn,
    {
        JPV0 { nnn }
    }

    pub open spec fn next(self, r: RegisterState) -> RegisterState {
        r.with_pc((self.nnn + r.v[0]) as u16)
    }

    pub fn execute(&self, register: &mut Register)
        requires
            self.nnn < 0x1000,
        ensures
            final(register)@ == self.next(old(register)@),
    {
        register.set_program_counter(self.nnn + register.get_v(0x0) as u16);
    }
}

/// Relies on rand::random: a value drawn from the thread-local generator.
/// Nothing is promised of which value comes back.
pub assume_specification<T>[ rand::random::<T> ]() -> (r: T)
    where
        rand::distributions::Standard: rand::distributions::Distribution<T>,
;

impl RND {
    pub fn new(x: u8, nn: u8) -> (r: RND)
        ensures
            r.x == x && r.nn == nn,
    {
        RND { x, nn }
    }

    /// The registers after the instruction, where `random` is the byte drawn.
    pub open spec fn next(self, r: RegisterState, random: u8) -> RegisterState {
        r.with_v(self.x as int, random & self.nn).advanced()
    }

    /// Executes the instruction with `random` as the drawn byte.
    pub fn execute_with_byte(&self, register: &mut Register, random: u8)
        requires
            self.x < 16,
        ensures
            final(register)@ == self.next(old(register)@, random),
    {
        register.set_v(self.x, random & self.nn);
        register.increment_program_counter();
    }

    /// Executes the instruction with a byte drawn from the thread's random
    /// generator.
    pub fn execute(&self, register: &mut Register)
        requires
            self.x < 16,
        ensures
            exists|b: u8| final(register)@ == self.next(old(register)@, b),
    {
        let random: u8 = rand::random::<u8>();
        self.execute_with_byte(register, random);
    }
}

impl SKP {
    pub fn new(x: u8) -> (r: SKP)
        ensures
            r.x == x,
    {
        SKP { x }
    }

    pub fn execute(&self, register: &mut Register, keypad: &Keypad)
        requires
            self.x < 16,
        ensures
            final(register)@ == old(register)@.skipped_if(
                key_down(keypad@, old(register)@.v[self.x as int] as int),
            ),
    {
        if keypad.is_pressed(register.get_v(self.x)) {
            register.increment_program_counter();
        }
        register.increment_program_counter();
    }
}

impl SKNP {
    pub fn new(x: u8) -> (r: SKNP)
        ensures
            r.x == x,
    {
        SKNP { x }
    }

    pub fn execute(&self, register: &mut Register, keypad: &Keypad)
        requires
            self.x < 16,
        ensures
            final(register)@ == old(register)@.skipped_if(
                !key_down(keypad@, old(register)@.v[self.x as int] as int),
            ),
    {
        if !keypad.is_pressed(register.get_v(self.x)) {
            register.increment_program_counter();
        }
        register.increment_program_counter();
    }
}

impl LDVDT {
    pub fn new(x: u8) -> (r: LDVDT)
        ensures
            r.x == x,
    {
        LDVDT { x }
    }

    pub fn execute(&self, register: &mut Register, delay_timer: &Timer)
        requires
            self.x < 16,
        ensures
            final(register)@ == old(register)@.with_v(
                self.x as int,
                ticks_left(delay_timer@) as u8,
            ).advanced(),
    {
        register.set_v(self.x, delay_timer.get());
        register.increment_program_counter();
    }
}

impl LDK {
    pub fn new(x: u8) -> (r: LDK)
        ensures
            r.x == x,
    {
        LDK { x }
    }

    /// The registers after the instruction, with `last` the key pressed last.
    pub open spec fn next(self, r: RegisterState, last: Option<u8>) -> RegisterState {
        match last {
            Some(k) => r.with_v(self.x as int, k).advanced(),
            None => r,
        }
    }

    pub fn execute(&self, register: &mut Register, keypad: &Keypad)
        requires
            self.x < 16,
        ensures
            final(register)@ == self.next(old(register)@, keypad@.last),
    {
        if let Some(n) = keypad.read() {
            register.set_v(self.x, n);
            register.increment_program_counter();
        }
    }
}

impl LDDTV {
    pub fn new(x: u8) -> (r: LDDTV)
        ensures
            r.x == x,
    {
        LDDTV { x }
    }

    pub fn execute(&self, register: &mut Register, delay_timer: &mut Timer)
        requires
            self.x < 16,
        ensures
            final(register)@ == old(register)@.advanced(),
            final(delay_timer)@ == sixtieths_in_nanos(old(register)@.v[self.x as int] as nat),
    {
        delay_timer.set(register.get_v(self.x));
        register.increment_program_counter();
    }
}

impl LDST {
    pub fn new(x: u8) -> (r: LDST)
        ensures
            r.x == x,
    {
        LDST { x }
    }

    pub fn execute(&self, register: &mut Register, sound_timer: &mut Timer)
        requires
            self.x < 16,
        ensures
            final(register)@ == old(register)@.advanced(),
            final(sound_timer)@ == sixtieths_in_nanos(old(register)@.v[self.x as int] as nat),
    {
        sound_timer.set(register.get_v(self.x));
        register.increment_program_counter();
    }
}

impl ADDI {
    pub fn new(x: u8) -> (r: ADDI)
        ensures
            r.x == x,
    {
        ADDI { x }
    }

    pub open spec fn next(self, r: RegisterState) -> RegisterState {
        r.with_i(ram_addr(r.i as int, r.v[self.x as int] as int) as u16).advanced()
    }

    pub fn execute(&self, register: &mut Register)
        requires
            self.x < 16,
        ensures
            final(register)@ == self.next(old(register)@),
    {
        let sum: u32 = register.get_i() as u32 + register.get_v(self.x) as u32;
        register.set_i((sum % 4096) as u16);
        register.increment_program_counter();
    }
}

impl LDF {
    pub fn new(x: u8) -> (r: LDF)
        ensures
            r.x == x,
    {
        LDF { x }
    }

    pub open spec fn next(self, r: RegisterState) -> RegisterState {
        r.with_i((0x50 + (r.v[self.x as int] % 16) * 5) as u16).advanced()
    }

    pub fn execute(&self, register: &mut Register)
        requires
            self.x < 16,
        ensures
            final(register)@ == self.next(old(register)@),
    {
        let vx = register.get_v(self.x);
        let digit = vx & 0x0F;
        assert(vx & 0x0F == vx % 16) by (bit_vector);
        register.set_i(0x050 + digit as u16 * 5);
        register.increment_program_counter();
    }
}

/// Whether bit `col` of a sprite row is set, counting from the most
/// significant bit at column 0.
pub open spec fn sprite_bit(row: u8, col: int) -> bool {
    (row >> ((7 - col) as u8)) & 1u8 == 1u8
}

/// Whether pixel `(x, y)` lies under a set bit of the `n`-row sprite read
/// from address `i` and drawn with its top left corner at `(xs, ys)`; the
/// parts past the right and bottom edges are clipped.
pub open spec fn covers(ram: Seq<u8>, i: int, xs: int, ys: int, n: int, x: int, y: int) -> bool {
    &&& on_screen(x, y)
    &&& xs <= x < xs + 8
    &&& ys <= y < ys + n
    &&& sprite_bit(ram[ram_addr(i, y - ys)], x - xs)
}

/// The framebuffer after XOR-ing the sprite onto `screen`.
pub open spec fn drawn(screen: Seq<bool>, ram: Seq<u8>, i: int, xs: int, ys: int, n: int) -> Seq<bool> {
    Seq::new(screen.len(), |k: int| screen[k] != covers(ram, i, xs, ys, n, k % 64, k / 64))
}

/// Whether drawing the sprite onto `screen` turns some pixel off.
pub open spec fn collides(screen: Seq<bool>, ram: Seq<u8>, i: int, xs: int, ys: int, n: int) -> bool {
    exists|x: int, y: int|
        #[trigger] covers(ram, i, xs, ys, n, x, y) && screen[pixel_index(x, y)]
}

/// The sprite pixels that come before row `row`, column `col` of the sprite.
spec fn covered_before(
    ram: Seq<u8>,
    i: int,
    xs: int,
    ys: int,
    n: int,
    row: int,
    col: int,
    x: int,
    y: int,
) -> bool {
    covers(ram, i, xs, ys, n, x, y) && (y - ys < row || (y - ys == row && x - xs < col))
}

proof fn lemma_pixel_coords(k: int)
    requires
        0 <= k < 2048,
    ensures
        on_screen(k % 64, k / 64),
        pixel_index(k % 64, k / 64) == k,
{
    vstd::arithmetic::div_mod::lemma_fundamental_div_mod(k, 64);
}

impl DRW {
    pub fn new(x: u8, y: u8, n: u8) -> (r: DRW)
        ensures
            r.x == x && r.y == y && r.n == n,
    {
        DRW { x, y, n }
    }

    /// The registers and the framebuffer after drawing, from registers `r`,
    /// framebuffer `screen` and RAM `ram`.
    pub open spec fn next(self, r: RegisterState, screen: Seq<bool>, ram: Seq<u8>) -> (
        RegisterState,
        Seq<bool>,
    ) {
        let xs = (r.v[self.x as int] % 64) as int;
        let ys = (r.v[self.y as int] % 32) as int;
        (
            r.with_v(15, flag(collides(screen, ram, r.i as int, xs, ys, self.n as int))).advanced(),
            drawn(screen, ram, r.i as int, xs, ys, self.n as int),
        )
    }

    pub fn execute(&self, register: &mut Register, display: &mut Display, memory: &Memory)
        requires
            self.x < 16,
            self.y < 16,
        ensures
            (final(register)@, final(display)@) == self.next(
                old(register)@,
                old(display)@,
                memory@,
            ),
    {
        let xs = register.get_v(self.x) % 64;
        let ys = register.get_v(self.y) % 32;
        register.set_v(0xF, 0);
        let i = register.get_i();
        let n = self.n;
        let ghost s0 = display@;
        let ghost ram = memory@;
        let ghost (gi, gx, gy, gn) = (i as int, xs as int, ys as int, n as int);
        proof {
            display.lemma_len();
            memory.lemma_len();
        }
        let mut collision = false;
        let mut row: u8 = 0;
        while row < n && ys + row < 32
            invariant
                row <= n,
                xs < 64,
                ys < 32,
                ys + row <= 32,
                ram == memory@,
                ram.len() == 4096,
                s0.len() == 2048,
                display@.len() == 2048,
                gi == i,
                gx == xs,
                gy == ys,
                gn == n,
                collision == exists|x: int, y: int|
                    #[trigger] covered_before(ram, gi, gx, gy, gn, row as int, 0, x, y)
                        && s0[pixel_index(x, y)],
                forall|x: int, y: int|
                    #![trigger pixel_index(x, y)]
                    on_screen(x, y) ==> display@[pixel_index(x, y)] == (s0[pixel_index(x, y)]
                        != covered_before(ram, gi, gx, gy, gn, row as int, 0, x, y)),
            decreases n - row,
        {
            let address = ((i as u32 + row as u32) % 4096) as u16;
            assert(address as int == ram_addr(gi, row as int));
            let sprite = memory.get_byte(address);
            let mut pixel: u8 = 0;
            while pixel < 8 && xs + pixel < 64
                invariant
                    row < n,
                    pixel <= 8,
                    xs < 64,
                    ys + row < 32,
                    xs + pixel <= 64,
                    ram == memory@,
                    ram.len() == 4096,
                    s0.len() == 2048,
                    display@.len() == 2048,
                    gi == i,
                    gx == xs,
                    gy == ys,
                    gn == n,
                    sprite == ram[ram_addr(gi, row as int)],
                    collision == exists|x: int, y: int|
                        #[trigger] covered_before(ram, gi, gx, gy, gn, row as int, pixel as int, x, y)
                            && s0[pixel_index(x, y)],
                    forall|x: int, y: int|
                        #![trigger pixel_index(x, y)]
                        on_screen(x, y) ==> display@[pixel_index(x, y)] == (s0[pixel_index(x, y)]
                            != covered_before(ram, gi, gx, gy, gn, row as int, pixel as int, x, y)),
                decreases 8 - pixel,
            {
                let px = xs + pixel;
                let py = ys + row;
                let bit = (sprite >> (7 - pixel)) & 1 == 1;
                let ghost before = display@;
                let ghost was = collision;
                if bit {
                    let on = display.is_pixel_on(px, py);
                    if on {
                        display.set_pixel(px, py, false);
                        collision = true;
                    } else {
                        display.set_pixel(px, py, true);
                    }
                }
                proof {
                    let (r, c, qx, qy) = (row as int, pixel as int, px as int, py as int);
                    assert(covers(ram, gi, gx, gy, gn, qx, qy) == bit);
                    assert forall|x: int, y: int|
                        #![trigger covered_before(ram, gi, gx, gy, gn, r, c + 1, x, y)]
                        covered_before(ram, gi, gx, gy, gn, r, c + 1, x, y) == (covered_before(
                            ram,
                            gi,
                            gx,
                            gy,
                            gn,
                            r,
                            c,
                            x,
                            y,
                        ) || (x == qx && y == qy && bit)) by {}
                    assert(!covered_before(ram, gi, gx, gy, gn, r, c, qx, qy));
                    assert(before[pixel_index(qx, qy)] == s0[pixel_index(qx, qy)]);
                    if bit && before[pixel_index(qx, qy)] {
                        assert(covered_before(ram, gi, gx, gy, gn, r, c + 1, qx, qy)
                            && s0[pixel_index(qx, qy)]);
                    }
                    if !(bit && before[pixel_index(qx, qy)]) && collision {
                        let (wx, wy) = choose|x: int, y: int|
                            #[trigger] covered_before(ram, gi, gx, gy, gn, r, c, x, y)
                                && s0[pixel_index(x, y)];
                        assert(covered_before(ram, gi, gx, gy, gn, r, c + 1, wx, wy));
                    }
                    assert forall|x: int, y: int| on_screen(x, y) implies display@[pixel_index(x, y)]
                        == (s0[pixel_index(x, y)] != covered_before(
                        ram,
                        gi,
                        gx,
                        gy,
                        gn,
                        r,
                        c + 1,
                        x,
                        y,
                    )) by {
                        if x != qx || y != qy {
                            assert(pixel_index(x, y) != pixel_index(qx, qy));
                        }
                    }
                }
                pixel = pixel + 1;
            }
            proof {
                let (r, c) = (row as int, pixel as int);
                assert forall|x: int, y: int|
                    #![trigger covered_before(ram, gi, gx, gy, gn, r + 1, 0, x, y)]
                    covered_before(ram, gi, gx, gy, gn, r + 1, 0, x, y) == covered_before(
                        ram,
                        gi,
                        gx,
                        gy,
                        gn,
                        r,
                        c,
                        x,
                        y,
                    ) by {}
                if collision {
                    let (wx, wy) = choose|x: int, y: int|
                        #[trigger] covered_before(ram, gi, gx, gy, gn, r, c, x, y)
                            && s0[pixel_index(x, y)];
                    assert(covered_before(ram, gi, gx, gy, gn, r + 1, 0, wx, wy));
                }
                if exists|x: int, y: int|
                    #[trigger] covered_before(ram, gi, gx, gy, gn, r + 1, 0, x, y)
                        && s0[pixel_index(x, y)] {
                    let (wx, wy) = choose|x: int, y: int|
                        #[trigger] covered_before(ram, gi, gx, gy, gn, r + 1, 0, x, y)
                            && s0[pixel_index(x, y)];
                    assert(covered_before(ram, gi, gx, gy, gn, r, c, wx, wy));
                }
            }
            row = row + 1;
        }
        proof {
            let r = row as int;
            assert forall|x: int, y: int|
                #![trigger covers(ram, gi, gx, gy, gn, x, y)]
                covers(ram, gi, gx, gy, gn, x, y) == covered_before(
                    ram,
                    gi,
                    gx,
                    gy,
                    gn,
                    r,
                    0,
                    x,
                    y,
                ) by {}
            assert forall|k: int| 0 <= k < 2048 implies display@[k] == drawn(s0, ram, gi, gx, gy, gn)[k] by {
                lemma_pixel_coords(k);
            }
            assert(display@ =~= drawn(s0, ram, gi, gx, gy, gn));
            if collision {
                let (wx, wy) = choose|x: int, y: int|
                    #[trigger] covered_before(ram, gi, gx, gy, gn, r, 0, x, y) && s0[pixel_index(x, y)];
                assert(covers(ram, gi, gx, gy, gn, wx, wy));
            }
            if collides(s0, ram, gi, gx, gy, gn) {
                let (wx, wy) = choose|x: int, y: int|
                    #[trigger] covers(ram, gi, gx, gy, gn, x, y) && s0[pixel_index(x, y)];
                assert(covered_before(ram, gi, gx, gy, gn, r, 0, wx, wy));
            }
        }
        if collision {
            register.set_v(0xF, 1);
        }
        proof {
            old(register).lemma_v_len();
            assert(register@.v =~= old(register)@.v.update(15, flag(collision)));
        }
        register.increment_program_counter();
    }
}

/// The instruction that the word `hi lo` encodes, or `UnknownOpcode` where it
/// encodes none. The nibbles of the word are `a b c d`, most significant first.
pub open spec fn decode(hi: u8, lo: u8) -> Result<Operation, Error> {
    let (a, b, c, d) = (hi / 16, hi % 16, lo / 16, lo % 16);
    let nnn = (b * 256 + lo) as u16;
    let unknown = Err(Error::UnknownOpcode(hi, lo));
    if a == 0x0 {
        if hi == 0x00 && lo == 0xE0 {
            Ok(Operation::CLS(CLS))
        } else if hi == 0x00 && lo == 0xEE {
            Ok(Operation::RET(RET))
        } else {
            Ok(Operation::SYS(SYS { nnn }))
        }
    } else if a == 0x1 {
        Ok(Operation::JP(JP { nnn }))
    } else if a == 0x2 {
        Ok(Operation::CALL(CALL { nnn }))
    } else if a == 0x3 {
        Ok(Operation::SE1(SE1 { x: b, nn: lo }))
    } else if a == 0x4 {
        Ok(Operation::SNE1(SNE1 { x: b, nn: lo }))
    } else if a == 0x5 {
        if d == 0x0 {
            Ok(Operation::SE2(SE2 { x: b, y: c }))
        } else {
            unknown
        }
    } else if a == 0x6 {
        Ok(Operation::LD1(LD1 { x: b, nn: lo }))
    } else if a == 0x7 {
        Ok(Operation::ADD1(ADD1 { x: b, nn: lo }))
    } else if a == 0x8 {
        if d == 0x0 {
            Ok(Operation::LD2(LD2 { x: b, y: c }))
        } else if d == 0x1 {
            Ok(Operation::OR(OR { x: b, y: c }))
        } else if d == 0x2 {
            Ok(Operation::AND2(AND2 { x: b, y: c }))
        } else if d == 0x3 {
            Ok(Operation::XOR(XOR { x: b, y: c }))
        } else if d == 0x4 {
            Ok(Operation::ADD2(ADD2 { x: b, y: c }))
        } else if d == 0x5 {
            Ok(Operation::SUB(SUB { x: b, y: c }))
        } else if d == 0x6 {
            Ok(Operation::SHR(SHR { x: b, y: c }))
        } else if d == 0x7 {
            Ok(Operation::SUBN(SUBN { x: b, y: c }))
        } else if d == 0xE {
            Ok(Operation::SHL(SHL { x: b, y: c }))
        } else {
            unknown
        }
    } else if a == 0x9 {
        if d == 0x0 {
            Ok(Operation::SNE2(SNE2 { x: b, y: c }))
        } else {
            unknown
        }
    } else if a == 0xA {
        Ok(Operation::LDI(LDI { nnn }))
    } else if a == 0xB {
        Ok(Operation::JPV0(JPV0 { nnn }))
    } else if a == 0xC {
        Ok(Operation::RND(RND { x: b, nn: lo }))
    } else if a == 0xD {
        Ok(Operation::DRW(DRW { x: b, y: c, n: d }))
    } else if a == 0xE {
        if lo == 0x9E {
            Ok(Operation::SKP(SKP { x: b }))
        } else if lo == 0xA1 {
            Ok(Operation::SKNP(SKNP { x: b }))
        } else {
            unknown
        }
    } else {
        if lo == 0x07 {
            Ok(Operation::LDVDT(LDVDT { x: b }))
        } else if lo == 0x0A {
            Ok(Operation::LDK(LDK { x: b }))
        } else if lo == 0x15 {
            Ok(Operation::LDDTV(LDDTV { x: b }))
        } else if lo == 0x18 {
            Ok(Operation::LDST(LDST { x: b }))
        } else if lo == 0x1E {
            Ok(Operation::ADDI(ADDI { x: b }))
        } else if lo == 0x29 {
            Ok(Operation::LDF(LDF { x: b }))
        } else if lo == 0x33 {
            Ok(Operation::BinaryCodedDecimalConversion { x: b })
        } else if lo == 0x55 {
            Ok(Operation::StoreMemory { x: b })
        } else if lo == 0x65 {
            Ok(Operation::LoadMemory { x: b })
        } else {
            unknown
        }
    }
}

impl Operation {
    /// Register indices name one of the sixteen registers, addresses have
    /// twelve bits and sprite heights four: what every decoded instruction has.
    pub open spec fn wf(self) -> bool {
        match self {
            Operation::CLS(_) | Operation::RET(_) => true,
            Operation::SYS(op) => op.nnn < 0x1000,
            Operation::JP(op) => op.nnn < 0x1000,
            Operation::CALL(op) => op.nnn < 0x1000,
            Operation::SE1(op) => op.x < 16,
            Operation::SNE1(op) => op.x < 16,
            Operation::SE2(op) => op.x < 16 && op.y < 16,
            Operation::LD1(op) => op.x < 16,
            Operation::ADD1(op) => op.x < 16,
            Operation::LD2(op) => op.x < 16 && op.y < 16,
            Operation::OR(op) => op.x < 16 && op.y < 16,
            Operation::AND2(op) => op.x < 16 && op.y < 16,
            Operation::XOR(op) => op.x < 16 && op.y < 16,
            Operation::ADD2(op) => op.x < 16 && op.y < 16,
            Operation::SUB(op) => op.x < 16 && op.y < 16,
            Operation::SHR(op) => op.x < 16 && op.y < 16,
            Operation::SUBN(op) => op.x < 16 && op.y < 16,
            Operation::SHL(op) => op.x < 16 && op.y < 16,
            Operation::SNE2(op) => op.x < 16 && op.y < 16,
            Operation::LDI(op) => op.nnn < 0x1000,
            Operation::JPV0(op) => op.nnn < 0x1000,
            Operation::RND(op) => op.x < 16,
            Operation::DRW(op) => op.x < 16 && op.y < 16 && op.n < 16,
            Operation::SKP(op) => op.x < 16,
            Operation::SKNP(op) => op.x < 16,
            Operation::LDVDT(op) => op.x < 16,
            Operation::LDK(op) => op.x < 16,
            Operation::LDDTV(op) => op.x < 16,
            Operation::LDST(op) => op.x < 16,
            Operation::ADDI(op) => op.x < 16,
            Operation::LDF(op) => op.x < 16,
            Operation::BinaryCodedDecimalConversion { x } => x < 16,
            Operation::StoreMemory { x } => x < 16,
            Operation::LoadMemory { x } => x < 16,
        }
    }

    /// Decodes one big-endian instruction word.
    pub fn parse(bytes: [u8; 2]) -> (r: Result<Operation, Error>)
        ensures
            r == decode(bytes[0], bytes[1]),
            r matches Ok(op) ==> op.wf(),
    {
        let nibbles = nibble::from_bytes(bytes);
        let (n1, n2, n3, n4) = (nibbles[0], nibbles[1], nibbles[2], nibbles[3]);
        let (hi, lo) = (bytes[0], bytes[1]);
        match (n1, n2, n3, n4) {
            (0x0, 0x0, 0xE, 0x0) => Ok(Operation::CLS(CLS::new())),
            (0x0, 0x0, 0xE, 0xE) => Ok(Operation::RET(RET::new())),
            (0x0, n2, n3, n4) => Ok(Operation::SYS(SYS::new(nibble::to_nnn(n2, n3, n4)))),
            (0x1, n2, n3, n4) => Ok(Operation::JP(JP::new(nibble::to_nnn(n2, n3, n4)))),
            (0x2, n2, n3, n4) => Ok(Operation::CALL(CALL::new(nibble::to_nnn(n2, n3, n4)))),
            (0x3, n2, n3, n4) => Ok(
                Operation::SE1(SE1::new(nibble::to_n(n2), nibble::to_nn(n3, n4))),
            ),
            (0x4, n2, n3, n4) => Ok(
                Operation::SNE1(SNE1::new(nibble::to_n(n2), nibble::to_nn(n3, n4))),
            ),
            (0x5, n2, n3, 0x0) => Ok(Operation::SE2(SE2::new(nibble::to_n(n2), nibble::to_n(n3)))),
            (0x6, n2, n3, n4) => Ok(
                Operation::LD1(LD1::new(nibble::to_n(n2), nibble::to_nn(n3, n4))),
            ),
            (0x7, n2, n3, n4) => Ok(
                Operation::ADD1(ADD1::new(nibble::to_n(n2), nibble::to_nn(n3, n4))),
            ),
            (0x8, n2, n3, 0x0) => Ok(Operation::LD2(LD2::new(nibble::to_n(n2), nibble::to_n(n3)))),
            (0x8, n2, n3, 0x1) => Ok(Operation::OR(OR::new(nibble::to_n(n2), nibble::to_n(n3)))),
            (0x8, n2, n3, 0x2) => Ok(
                Operation::AND2(AND2::new(nibble::to_n(n2), nibble::to_n(n3))),
            ),
            (0x8, n2, n3, 0x3) => Ok(Operation::XOR(XOR::new(nibble::to_n(n2), nibble::to_n(n3)))),
            (0x8, n2, n3, 0x4) => Ok(
                Operation::ADD2(ADD2::new(nibble::to_n(n2), nibble::to_n(n3))),
            ),
            (0x8, n2, n3, 0x5) => Ok(Operation::SUB(SUB::new(nibble::to_n(n2), nibble::to_n(n3)))),
            (0x8, n2, n3, 0x6) => Ok(Operation::SHR(SHR::new(nibble::to_n(n2), nibble::to_n(n3)))),
            (0x8, n2, n3, 0x7) => Ok(
                Operation::SUBN(SUBN::new(nibble::to_n(n2), nibble::to_n(n3))),
            ),
            (0x8, n2, n3, 0xE) => Ok(Operation::SHL(SHL::new(nibble::to_n(n2), nibble::to_n(n3)))),
            (0x9, n2, n3, 0x0) => Ok(
                Operation::SNE2(SNE2::new(nibble::to_n(n2), nibble::to_n(n3))),
            ),
            (0xA, n2, n3, n4) => Ok(Operation::LDI(LDI::new(nibble::to_nnn(n2, n3, n4)))),
            (0xB, n2, n3, n4) => Ok(Operation::JPV0(JPV0::new(nibble::to_nnn(n2, n3, n4)))),
            (0xC, n2, n3, n4) => Ok(
                Operation::RND(RND::new(nibble::to_n(n2), nibble::to_nn(n3, n4))),
            ),
            (0xD, n2, n3, n4) => Ok(
                Operation::DRW(DRW::new(nibble::to_n(n2), nibble::to_n(n3), nibble::to_n(n4))),
            ),
            (0xE, n2, 0x9, 0xE) => Ok(Operation::SKP(SKP::new(nibble::to_n(n2)))),
            (0xE, n2, 0xA, 0x1) => Ok(Operation::SKNP(SKNP::new(nibble::to_n(n2)))),
            (0xF, n2, 0x0, 0x7) => Ok(Operation::LDVDT(LDVDT::new(nibble::to_n(n2)))),
            (0xF, n2, 0x0, 0xA) => Ok(Operation::LDK(LDK::new(nibble::to_n(n2)))),
            (0xF, n2, 0x1, 0x5) => Ok(Operation::LDDTV(LDDTV::new(nibble::to_n(n2)))),
            (0xF, n2, 0x1, 0x8) => Ok(Operation::LDST(LDST::new(nibble::to_n(n2)))),
            (0xF, n2, 0x1, 0xE) => Ok(Operation::ADDI(ADDI::new(nibble::to_n(n2)))),
            (0xF, n2, 0x2, 0x9) => Ok(Operation::LDF(LDF::new(nibble::to_n(n2)))),
            (0xF, n2, 0x3, 0x3) => Ok(Operation::BinaryCodedDecimalConversion { x: nibble::to_n(n2) }),
            (0xF, n2, 0x5, 0x5) => Ok(Operation::StoreMemory { x: nibble::to_n(n2) }),
            (0xF, n2, 0x6, 0x5) => Ok(Operation::LoadMemory { x: nibble::to_n(n2) }),
            _ => Err(Error::UnknownOpcode(hi, lo)),
        }
    }
}

/// RAM after writing the hundreds, tens and units of `value` at `i`, `i + 1`
/// and `i + 2`.
pub open spec fn bcd_written(ram: Seq<u8>, i: int, value: u8) -> Seq<u8> {
    ram.update(ram_addr(i, 0), value / 100).update(ram_addr(i, 1), (value / 10) % 10).update(
        ram_addr(i, 2),
        value % 10,
    )
}

/// RAM after storing registers V0 up to, not including, V`count` from `i` on.
pub open spec fn stored(ram: Seq<u8>, i: int, v: Seq<u8>, count: nat) -> Seq<u8>
    decreases count,
{
    if count == 0 {
        ram
    } else {
        stored(ram, i, v, (count - 1) as nat).update(ram_addr(i, count - 1), v[count - 1])
    }
}

/// Registers after loading V0 up to, not including, V`count` from `i` on.
pub open spec fn loaded(v: Seq<u8>, ram: Seq<u8>, i: int, count: nat) -> Seq<u8>
    decreases count,
{
    if count == 0 {
        v
    } else {
        loaded(v, ram, i, (count - 1) as nat).update(count - 1, ram[ram_addr(i, count - 1)])
    }
}

/// The registers after FX55 or FX65 with register `x` last: I moves past the
/// last byte only under the COSMAC VIP quirk, wrapping within RAM.
pub open spec fn after_block(r: RegisterState, x: u8, quirks: Quirks) -> RegisterState {
    if quirks.load_store_advances_i {
        r.with_i(ram_addr(r.i as int, x + 1) as u16)
    } else {
        r
    }
}

impl Operation {
    /// The result and the machine after executing this instruction on `m`
    /// under `quirks`, with `random` as the byte that a random draw gives.
    pub open spec fn step(self, m: Machine, random: u8, quirks: Quirks) -> (Result<(), Error>, Machine) {
        let r = m.reg;
        match self {
            Operation::CLS(_) => (Ok(()), Machine { reg: r.advanced(), screen: blank_screen(), ..m }),
            Operation::RET(op) => (op.next(r).0, m.with_reg(op.next(r).1)),
            Operation::SYS(_) => (Ok(()), m.with_reg(r.advanced())),
            Operation::JP(op) => (Ok(()), m.with_reg(r.with_pc(op.nnn))),
            Operation::CALL(op) => (op.next(r).0, m.with_reg(op.next(r).1)),
            Operation::SE1(op) => (Ok(()), m.with_reg(op.next(r))),
            Operation::SNE1(op) => (Ok(()), m.with_reg(op.next(r))),
            Operation::SE2(op) => (Ok(()), m.with_reg(op.next(r))),
            Operation::LD1(op) => (Ok(()), m.with_reg(op.next(r))),
            Operation::ADD1(op) => (Ok(()), m.with_reg(op.next(r))),
            Operation::LD2(op) => (Ok(()), m.with_reg(op.next(r))),
            Operation::OR(op) => (Ok(()), m.with_reg(op.next(r))),
            Operation::AND2(op) => (Ok(()), m.with_reg(op.next(r))),
            Operation::XOR(op) => (Ok(()), m.with_reg(op.next(r))),
            Operation::ADD2(op) => (Ok(()), m.with_reg(op.next(r))),
            Operation::SUB(op) => (Ok(()), m.with_reg(op.next(r))),
            Operation::SHR(op) => (Ok(()), m.with_reg(op.next_with(r, quirks))),
            Operation::SUBN(op) => (Ok(()), m.with_reg(op.next(r))),
            Operation::SHL(op) => (Ok(()), m.with_reg(op.next_with(r, quirks))),
            Operation::SNE2(op) => (Ok(()), m.with_reg(op.next(r))),
            Operation::LDI(op) => (Ok(()), m.with_reg(r.with_i(op.nnn).advanced())),
            Operation::JPV0(op) => (Ok(()), m.with_reg(op.next(r))),
            Operation::RND(op) => (Ok(()), m.with_reg(op.next(r, random))),
            Operation::DRW(op) => (
                Ok(()),
                Machine { reg: op.next(r, m.screen, m.ram).0, screen: op.next(r, m.screen, m.ram).1, ..m },
            ),
            Operation::SKP(op) => (
                Ok(()),
                m.with_reg(r.skipped_if(key_down(m.keys, r.v[op.x as int] as int))),
            ),
            Operation::SKNP(op) => (
                Ok(()),
                m.with_reg(r.skipped_if(!key_down(m.keys, r.v[op.x as int] as int))),
            ),
            Operation::LDVDT(op) => (
                Ok(()),
                m.with_reg(r.with_v(op.x as int, ticks_left(m.delay) as u8).advanced()),
            ),
            Operation::LDK(op) => (Ok(()), m.with_reg(op.next(r, m.keys.last))),
            Operation::LDDTV(op) => (
                Ok(()),
                Machine {
                    reg: r.advanced(),
                    delay: sixtieths_in_nanos(r.v[op.x as int] as nat),
                    ..m
                },
            ),
            Operation::LDST(op) => (
                Ok(()),
                Machine {
                    reg: r.advanced(),
                    sound: sixtieths_in_nanos(r.v[op.x as int] as nat),
                    ..m
                },
            ),
            Operation::ADDI(op) => (Ok(()), m.with_reg(op.next(r))),
            Operation::LDF(op) => (Ok(()), m.with_reg(op.next(r))),
            Operation::BinaryCodedDecimalConversion { x } => (
                Ok(()),
                Machine {
                    reg: r.advanced(),
                    ram: bcd_written(m.ram, r.i as int, r.v[x as int]),
                    ..m
                },
            ),
            Operation::StoreMemory { x } => (
                Ok(()),
                Machine {
                    reg: after_block(r, x, quirks).advanced(),
                    ram: stored(m.ram, r.i as int, r.v, x as nat + 1),
                    ..m
                },
            ),
            Operation::LoadMemory { x } => (
                Ok(()),
                m.with_reg(
                    after_block(
                        RegisterState { v: loaded(r.v, m.ram, r.i as int, x as nat + 1), ..r },
                        x,
                        quirks,
                    ).advanced(),
                ),
            ),
        }
    }
}

proof fn lemma_index_coords(x: int, y: int)
    requires
        on_screen(x, y),
    ensures
        pixel_index(x, y) % 64 == x,
        pixel_index(x, y) / 64 == y,
        0 <= pixel_index(x, y) < 2048,
{
    vstd::arithmetic::div_mod::lemma_fundamental_div_mod_converse_mod(pixel_index(x, y), 64, y, x);
    vstd::arithmetic::div_mod::lemma_fundamental_div_mod_converse_div(pixel_index(x, y), 64, y, x);
}

/// Decoding depends on the two bytes alone: the same bytes always give the
/// same instruction.
pub proof fn lemma_decode_is_pure(hi1: u8, lo1: u8, hi2: u8, lo2: u8)
    requires
        hi1 == hi2,
        lo1 == lo2,
    ensures
        decode(hi1, lo1) == decode(hi2, lo2),
{
}

/// Clearing the screen a second time changes nothing but the program
/// counter.
pub proof fn lemma_clear_twice(m: Machine, b1: u8, b2: u8, q1: Quirks, q2: Quirks)
    ensures
        ({
            let once = Operation::CLS(CLS).step(m, b1, q1).1;
            Operation::CLS(CLS).step(once, b2, q2) == (Ok::<(), Error>(()), once.with_reg(
                once.reg.advanced(),
            ))
        }),
{
}

/// Loading the same byte into the same register a second time changes
/// nothing but the program counter.
pub proof fn lemma_load_twice(op: LD1, r: RegisterState)
    requires
        op.x < 16,
        r.v.len() == 16,
    ensures
        op.next(op.next(r)) == op.next(r).advanced(),
{
    assert(op.next(op.next(r)).v =~= op.next(r).v);
}

/// Drawing a sprite a second time at the same place, with the position
/// registers other than VF, restores the framebuffer; VF is then 1 where
/// the sprite covers a pixel that was off before the first draw.
pub proof fn lemma_draw_twice(op: DRW, r: RegisterState, screen: Seq<bool>, ram: Seq<u8>)
    requires
        op.x < 15,
        op.y < 15,
        r.v.len() == 16,
        screen.len() == 2048,
    ensures
        ({
            let (r1, s1) = op.next(r, screen, ram);
            let (r2, s2) = op.next(r1, s1, ram);
            let (xs, ys) = ((r.v[op.x as int] % 64) as int, (r.v[op.y as int] % 32) as int);
            &&& s2 == screen
            &&& (exists|x: int, y: int|
                #[trigger] covers(ram, r.i as int, xs, ys, op.n as int, x, y)
                    && !screen[pixel_index(x, y)]) ==> r2.v[15] == 1
        }),
{
    let (r1, s1) = op.next(r, screen, ram);
    let (r2, s2) = op.next(r1, s1, ram);
    let (xs, ys, i, n) = (
        (r.v[op.x as int] % 64) as int,
        (r.v[op.y as int] % 32) as int,
        r.i as int,
        op.n as int,
    );
    assert(r1.v[op.x as int] == r.v[op.x as int] && r1.v[op.y as int] == r.v[op.y as int]);
    assert(s2 =~= screen);
    if exists|x: int, y: int|
        #[trigger] covers(ram, i, xs, ys, n, x, y) && !screen[pixel_index(x, y)] {
        let (x, y) = choose|x: int, y: int|
            #[trigger] covers(ram, i, xs, ys, n, x, y) && !screen[pixel_index(x, y)];
        lemma_index_coords(x, y);
        assert(s1[pixel_index(x, y)]);
        assert(collides(s1, ram, i, xs, ys, n));
    }
}

/// A sprite is clipped, not wrapped: drawing it with its corner at
/// `(xs, ys)` leaves every pixel left of `xs`, above `ys`, past its eight
/// columns or past its `n` rows as it was, and flips a pixel inside those
/// bounds and on screen exactly where its sprite bit is set.
pub proof fn lemma_draw_clips(
    screen: Seq<bool>,
    ram: Seq<u8>,
    i: int,
    xs: int,
    ys: int,
    n: int,
    x: int,
    y: int,
)
    requires
        screen.len() == 2048,
        on_screen(x, y),
    ensures
        !(xs <= x < xs + 8 && ys <= y < ys + n) ==> drawn(screen, ram, i, xs, ys, n)[pixel_index(x, y)]
            == screen[pixel_index(x, y)],
        xs <= x < xs + 8 && ys <= y < ys + n ==> drawn(screen, ram, i, xs, ys, n)[pixel_index(x, y)]
            == (screen[pixel_index(x, y)] != sprite_bit(ram[ram_addr(i, y - ys)], x - xs)),
{
    lemma_index_coords(x, y);
}

/// Whether `op` jumps or calls to an even address; true of every other
/// instruction.
pub open spec fn targets_even(op: Operation) -> bool {
    match op {
        Operation::JP(j) => j.nnn % 2 == 0,
        Operation::CALL(c) => c.nnn % 2 == 0,
        _ => true,
    }
}

/// Every return address on the stack is even.
pub open spec fn stack_even(stack: Seq<u16>) -> bool {
    forall|j: int| 0 <= j < stack.len() ==> #[trigger] stack[j] % 2 == 0
}

proof fn lemma_stored_len(ram: Seq<u8>, i: int, v: Seq<u8>, count: nat)
    requires
        ram.len() == 4096,
    ensures
        stored(ram, i, v, count).len() == ram.len(),
    decreases count,
{
    if count > 0 {
        lemma_stored_len(ram, i, v, (count - 1) as nat);
    }
}

proof fn lemma_loaded_len(v: Seq<u8>, ram: Seq<u8>, i: int, count: nat)
    requires
        count <= v.len(),
    ensures
        loaded(v, ram, i, count).len() == v.len(),
    decreases count,
{
    if count > 0 {
        lemma_loaded_len(v, ram, i, (count - 1) as nat);
    }
}

/// Every decoded instruction keeps the machine's shape: sixteen 8-bit
/// registers, 2048 pixels, 4096 bytes of RAM, and I within RAM. The program
/// counter and the return addresses stay even, unless the instruction is a
/// BNNN jump, or a jump or call to an odd address.
proof fn lemma_next_pc_even(pc: u16)
    requires
        pc % 2 == 0,
    ensures
        next_pc(pc) % 2 == 0,
{
    if pc + 2 >= 0x10000 {
        assert(next_pc(pc) == 0);
    }
}

#[verifier::spinoff_prover]
pub proof fn lemma_step_keeps_shape(op: Operation, m: Machine, random: u8, quirks: Quirks)
    requires
        op.wf(),
        m.sized(),
        m.reg.i < 0x1000,
    ensures
        op.step(m, random, quirks).1.sized(),
        op.step(m, random, quirks).1.reg.i < 0x1000,
        m.reg.pc % 2 == 0 && stack_even(m.reg.stack) && targets_even(op) && !(op is JPV0) ==> {
            &&& op.step(m, random, quirks).1.reg.pc % 2 == 0
            &&& stack_even(op.step(m, random, quirks).1.reg.stack)
        },
{
    let r = m.reg;
    if r.pc % 2 == 0 {
        lemma_next_pc_even(r.pc);
        lemma_next_pc_even(next_pc(r.pc));
    }
    match op {
        Operation::StoreMemory { x } => lemma_stored_len(m.ram, r.i as int, r.v, x as nat + 1),
        Operation::LoadMemory { x } => lemma_loaded_len(r.v, m.ram, r.i as int, x as nat + 1),
        Operation::LDF(o) => {
            assert(r.v[o.x as int] % 16 < 16);
        },
        Operation::RET(o) => {
            if r.stack.len() > 0 && stack_even(r.stack) {
                assert(r.stack.last() == r.stack[r.stack.len() - 1]);
                lemma_next_pc_even(r.stack.last());
                let s = r.stack.drop_last();
                assert forall|j: int| 0 <= j < s.len() implies #[trigger] s[j] % 2 == 0 by {
                    assert(s[j] == r.stack[j]);
                }
            }
        },
        Operation::CALL(o) => {
            if r.stack.len() < STACK_DEPTH && stack_even(r.stack) && r.pc % 2 == 0 {
                let s = r.stack.push(r.pc);
                assert forall|j: int| 0 <= j < s.len() implies #[trigger] s[j] % 2 == 0 by {
                    if j < r.stack.len() {
                        assert(s[j] == r.stack[j]);
                    }
                }
            }
        },
        Operation::CLS(_) => {},
        Operation::SYS(_) => {},
        Operation::JP(_) => {},
        Operation::SE1(_) => {},
        Operation::SNE1(_) => {},
        Operation::SE2(_) => {},
        Operation::LD1(_) => {},
        Operation::ADD1(_) => {},
        Operation::LD2(_) => {},
        Operation::OR(_) => {},
        Operation::AND2(_) => {},
        Operation::XOR(_) => {},
        Operation::ADD2(_) => {},
        Operation::SUB(_) => {},
        Operation::SHR(_) => {},
        Operation::SUBN(_) => {},
        Operation::SHL(_) => {},
        Operation::SNE2(_) => {},
        Operation::LDI(_) => {},
        Operation::JPV0(_) => {},
        Operation::RND(_) => {},
        Operation::DRW(_) => {},
        Operation::SKP(_) => {},
        Operation::SKNP(_) => {},
        Operation::LDVDT(_) => {},
        Operation::LDK(_) => {},
        Operation::LDDTV(_) => {},
        Operation::LDST(_) => {},
        Operation::ADDI(_) => {},
        Operation::BinaryCodedDecimalConversion { .. } => {},
    }
}

/// Every instruction that decoding yields names registers 0..=F, has a
/// twelve-bit address and a four-bit sprite height.
pub proof fn lemma_decode_wf(hi: u8, lo: u8)
    ensures
        decode(hi, lo) matches Ok(op) ==> op.wf(),
{
}

} // verus!

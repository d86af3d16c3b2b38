use vstd::prelude::*;
use crate::display::Display;
use crate::error::Error;
use crate::keypad::Keypad;
use crate::memory::Memory;
use crate::operation::{
    after_block, bcd_written, decode, lemma_decode_wf, lemma_step_keeps_shape, loaded, stored,
    Operation,
};
use crate::quirks::Quirks;
use crate::register::{Register, RegisterState};
use crate::state::{ram_addr, Machine};
use crate::timer::Timer;

verus! {

/// The instruction word at the program counter, high byte first; the two
/// addresses wrap into RAM.
pub open spec fn fetch(m: Machine) -> (u8, u8) {
    (m.ram[ram_addr(m.reg.pc as int, 0)], m.ram[ram_addr(m.reg.pc as int, 1)])
}

/// One fetch-decode-execute cycle on `m` under `quirks`, with `random` as
/// the byte that a random draw gives: a word that decodes to no instruction
/// is reported and changes nothing.
#[verifier::opaque]
pub open spec fn cycle(m: Machine, random: u8, quirks: Quirks) -> (Result<(), Error>, Machine) {
    match decode(fetch(m).0, fetch(m).1) {
        Ok(op) => op.step(m, random, quirks),
        Err(e) => (Err(e), m),
    }
}

/// The parts of the machine gathered into one value.
pub open spec fn machine(
    register: &Register,
    display: &Display,
    keypad: &Keypad,
    memory: &Memory,
    delay_timer: &Timer,
    sound_timer: &Timer,
) -> Machine {
    Machine {
        reg: register@,
        screen: display@,
        ram: memory@,
        keys: keypad@,
        delay: delay_timer@,
        sound: sound_timer@,
    }
}

/// The execution engine. It holds no state of its own.
pub struct Cpu;

impl Cpu {
    pub fn new() -> (r: Cpu) {
        Cpu
    }

    /// Executes the instruction at the program counter, with a byte drawn
    /// from the thread's random generator for CXNN, the one instruction that
    /// reads it.
    pub fn execute(
        &mut self,
        register: &mut Register,
        display: &mut Display,
        keypad: &Keypad,
        memory: &mut Memory,
        delay_timer: &mut Timer,
        sound_timer: &mut Timer,
        quirks: Quirks,
    ) -> (r: Result<(), Error>)
        ensures
            exists|b: u8|
                cycle(
                    machine(
                        old(register),
                        old(display),
                        keypad,
                        old(memory),
                        old(delay_timer),
                        old(sound_timer),
                    ),
                    b,
                    quirks,
                ) == (r, machine(
                    final(register),
                    final(display),
                    keypad,
                    final(memory),
                    final(delay_timer),
                    final(sound_timer),
                )),
    {
        let random: u8 = rand::random::<u8>();
        self.execute_with_byte(
            register,
            display,
            keypad,
            memory,
            delay_timer,
            sound_timer,
            random,
            quirks,
        )
    }

    /// Executes the instruction at the program counter with `random` as the
    /// byte of a random draw.
    pub fn execute_with_byte(
        &mut self,
        register: &mut Register,
        display: &mut Display,
        keypad: &Keypad,
        memory: &mut Memory,
        delay_timer: &mut Timer,
        sound_timer: &mut Timer,
        random: u8,
        quirks: Quirks,
    ) -> (r: Result<(), Error>)
        ensures
            cycle(
                machine(
                    old(register),
                    old(display),
                    keypad,
                    old(memory),
                    old(delay_timer),
                    old(sound_timer),
                ),
                random,
                quirks,
            ) == (r, machine(
                final(register),
                final(display),
                keypad,
                final(memory),
                final(delay_timer),
                final(sound_timer),
            )),
    {
        proof {
            reveal(cycle);
        }
        let pc = register.get_program_counter();
        let hi = memory.get_byte(((pc as u32) % 4096) as u16);
        let lo = memory.get_byte(((pc as u32 + 1) % 4096) as u16);
        let operation = Operation::parse([hi, lo])?;
        match operation {
            Operation::CLS(i) => i.execute(register, display),
            Operation::RET(i) => i.execute(register)?,
            Operation::SYS(i) => i.execute(register),
            Operation::JP(i) => i.execute(register),
            Operation::CALL(i) => i.execute(register)?,
            Operation::SE1(i) => i.execute(register),
            Operation::SNE1(i) => i.execute(register),
            Operation::SE2(i) => i.execute(register),
            Operation::LD1(i) => i.execute(register),
            Operation::ADD1(i) => i.execute(register),
            Operation::LD2(i) => i.execute(register),
            Operation::OR(i) => i.execute(register),
            Operation::AND2(i) => i.execute(register),
            Operation::XOR(i) => i.execute(register),
            Operation::ADD2(i) => i.execute(register),
            Operation::SUB(i) => i.execute(register),
            Operation::SHR(i) => i.execute_with_quirks(register, quirks),
            Operation::SUBN(i) => i.execute(register),
            Operation::SHL(i) => i.execute_with_quirks(register, quirks),
            Operation::SNE2(i) => i.execute(register),
            Operation::LDI(i) => i.execute(register),
            Operation::JPV0(i) => i.execute(register),
            Operation::RND(i) => i.execute_with_byte(register, random),
            Operation::DRW(i) => i.execute(register, display, memory),
            Operation::SKP(i) => i.execute(register, keypad),
            Operation::SKNP(i) => i.execute(register, keypad),
            Operation::LDVDT(i) => i.execute(register, delay_timer),
            Operation::LDK(i) => i.execute(register, keypad),
            Operation::LDDTV(i) => i.execute(register, delay_timer),
            Operation::LDST(i) => i.execute(register, sound_timer),
            Operation::ADDI(i) => i.execute(register),
            Operation::LDF(i) => i.execute(register),
            Operation::BinaryCodedDecimalConversion { x } => {
                self.execute_binary_coded_decimal_conversion(x, memory, register)
            },
            Operation::StoreMemory { x } => self.execute_store_memory(x, memory, register, quirks),
            Operation::LoadMemory { x } => self.execute_load_memory(x, memory, register, quirks),
        }
        Ok(())
    }

    /// FX33: writes the hundreds, tens and units of Vx at I, I + 1 and I + 2.
    pub fn execute_binary_coded_decimal_conversion(
        &mut self,
        x: u8,
        memory: &mut Memory,
        register: &mut Register,
    )
        requires
            x < 16,
        ensures
            final(memory)@ == bcd_written(old(memory)@, old(register)@.i as int, old(register)@.v[x as int]),
            final(register)@ == old(register)@.advanced(),
    {
        let value = register.get_v(x);
        let i = register.get_i() as u32;
        memory.set_byte((i % 4096) as u16, value / 100);
        memory.set_byte(((i + 1) % 4096) as u16, (value / 10) % 10);
        memory.set_byte(((i + 2) % 4096) as u16, value % 10);
        register.increment_program_counter();
    }

    /// FX55: stores V0 through Vx from I on; I moves past them only under
    /// the COSMAC VIP quirk.
    pub fn execute_store_memory(
        &mut self,
        x: u8,
        memory: &mut Memory,
        register: &mut Register,
        quirks: Quirks,
    )
        requires
            x < 16,
        ensures
            final(memory)@ == stored(old(memory)@, old(register)@.i as int, old(register)@.v, x as nat + 1),
            final(register)@ == after_block(old(register)@, x, quirks).advanced(),
    {
        let i = register.get_i() as u32;
        let mut k: u8 = 0;
        while k <= x
            invariant
                k <= x + 1,
                x < 16,
                register@ == old(register)@,
                i == register@.i,
                memory@ == stored(old(memory)@, i as int, register@.v, k as nat),
            decreases x + 1 - k,
        {
            memory.set_byte(((i + k as u32) % 4096) as u16, register.get_v(k));
            k = k + 1;
        }
        if quirks.load_store_advances_i {
            register.set_i(((i + x as u32 + 1) % 4096) as u16);
        }
        register.increment_program_counter();
    }

    /// FX65: loads V0 through Vx from I on; I moves past them only under the
    /// COSMAC VIP quirk.
    pub fn execute_load_memory(
        &mut self,
        x: u8,
        memory: &Memory,
        register: &mut Register,
        quirks: Quirks,
    )
        requires
            x < 16,
        ensures
            final(register)@ == after_block(
                RegisterState {
                    v: loaded(old(register)@.v, memory@, old(register)@.i as int, x as nat + 1),
                    ..old(register)@
                },
                x,
                quirks,
            ).advanced(),
    {
        let i = register.get_i() as u32;
        let mut k: u8 = 0;
        while k <= x
            invariant
                k <= x + 1,
                x < 16,
                i == old(register)@.i,
                register@ == (RegisterState {
                    v: loaded(old(register)@.v, memory@, i as int, k as nat),
                    ..old(register)@
                }),
            decreases x + 1 - k,
        {
            let byte = memory.get_byte(((i + k as u32) % 4096) as u16);
            register.set_v(k, byte);
            k = k + 1;
        }
        if quirks.load_store_advances_i {
            register.set_i(((i + x as u32 + 1) % 4096) as u16);
        }
        register.increment_program_counter();
    }
}

/// One cycle under `quirks`, with some random byte, succeeds on `from` and
/// leaves `to`.
pub open spec fn steps_to(from: Machine, to: Machine, quirks: Quirks) -> bool {
    exists|b: u8| cycle(from, b, quirks).0 is Ok && #[trigger] cycle(from, b, quirks).1 == to
}

/// `trace` lists the machines of a run of successful cycles, one after the
/// other.
pub open spec fn is_trace(trace: Seq<Machine>, quirks: Quirks) -> bool {
    forall|j: int| 0 <= j < trace.len() - 1 ==> steps_to(#[trigger] trace[j], trace[j + 1], quirks)
}

/// `to` is reached from `from` by exactly `k` cycles under `quirks` that all
/// succeed, each with some random byte.
pub open spec fn runs(from: Machine, to: Machine, k: nat, quirks: Quirks) -> bool {
    exists|trace: Seq<Machine>|
        #![trigger is_trace(trace, quirks), trace.len()]
        trace.len() == k + 1 && trace[0] == from && trace[k as int] == to && is_trace(trace, quirks)
}

/// A cycle keeps the machine's shape and I within RAM.
pub proof fn lemma_cycle_keeps_shape(m: Machine, random: u8, quirks: Quirks)
    requires
        m.sized(),
        m.reg.i < 0x1000,
    ensures
        cycle(m, random, quirks).1.sized(),
        cycle(m, random, quirks).1.reg.i < 0x1000,
{
    reveal(cycle);
    lemma_decode_wf(fetch(m).0, fetch(m).1);
    if let Ok(op) = decode(fetch(m).0, fetch(m).1) {
        lemma_step_keeps_shape(op, m, random, quirks);
    }
}

} // verus!

use vstd::prelude::*;
use crate::error::Error;

verus! {

/// Deepest nesting of subroutine calls that the stack holds.
pub const STACK_DEPTH: usize = 16;

/// The program counter after moving past one two-byte instruction; it wraps
/// at the top of the 16-bit range.
pub open spec fn next_pc(pc: u16) -> u16 {
    ((pc + 2) % 0x10000) as u16
}

/// The register file as plain values: `v` holds V0..VF.
pub ghost struct RegisterState {
    pub v: Seq<u8>,
    pub i: u16,
    pub pc: u16,
    pub stack: Seq<u16>,
}

impl RegisterState {
    pub open spec fn with_v(self, x: int, value: u8) -> RegisterState {
        RegisterState { v: self.v.update(x, value), ..self }
    }

    pub open spec fn with_i(self, i: u16) -> RegisterState {
        RegisterState { i, ..self }
    }

    pub open spec fn with_pc(self, pc: u16) -> RegisterState {
        RegisterState { pc, ..self }
    }

    /// Moves past the current instruction.
    pub open spec fn advanced(self) -> RegisterState {
        self.with_pc(next_pc(self.pc))
    }

    /// Moves past the current instruction, and past the next one too when
    /// `skip` holds.
    pub open spec fn skipped_if(self, skip: bool) -> RegisterState {
        if skip {
            self.advanced().advanced()
        } else {
            self.advanced()
        }
    }
}

/// The state that execution starts from: all registers zero, the program
/// counter at 0x200 and the stack empty.
pub open spec fn initial_registers() -> RegisterState {
    RegisterState { v: Seq::new(16, |k: int| 0u8), i: 0, pc: 0x200, stack: Seq::empty() }
}

/// The sixteen 8-bit registers V0..VF, the index register I, the program
/// counter and the return-address stack.
pub struct Register {
    i: u16,
    program_counter: u16,
    stack: Vec<u16>,
    v: [u8; 16],
}

impl View for Register {
    type V = RegisterState;

    closed spec fn view(&self) -> RegisterState {
        RegisterState { v: self.v@, i: self.i, pc: self.program_counter, stack: self.stack@ }
    }
}

impl Register {
    pub proof fn lemma_v_len(&self)
        ensures
            self@.v.len() == 16,
    {
    }

    pub fn new() -> (r: Register)
        ensures
            r@ == initial_registers(),
    {
        let r = Register { i: 0, program_counter: 0x200, stack: Vec::new(), v: [0; 16] };
        assert(r@.v =~= initial_registers().v);
        r
    }

    pub fn get_i(&self) -> (r: u16)
        ensures
            r == self@.i,
    {
        self.i
    }

    pub fn set_i(&mut self, nnn: u16)
        ensures
            final(self)@ == old(self)@.with_i(nnn),
    {
        self.i = nnn;
    }

    pub fn get_program_counter(&self) -> (r: u16)
        ensures
            r == self@.pc,
    {
        self.program_counter
    }

    pub fn set_program_counter(&mut self, program_counter: u16)
        ensures
            final(self)@ == old(self)@.with_pc(program_counter),
    {
        self.program_counter = program_counter;
    }

    pub fn increment_program_counter(&mut self)
        ensures
            final(self)@ == old(self)@.advanced(),
    {
        self.program_counter = self.program_counter.wrapping_add(2);
    }

    /// Pushes a return address; fails when the stack already holds
    /// `STACK_DEPTH` addresses.
    pub fn push_stack(&mut self, nnn: u16) -> (r: Result<(), Error>)
        ensures
            old(self)@.stack.len() < STACK_DEPTH ==> r == Ok::<(), Error>(())
                && final(self)@ == (RegisterState { stack: old(self)@.stack.push(nnn), ..old(self)@ }),
            old(self)@.stack.len() >= STACK_DEPTH ==> r == Err::<(), Error>(Error::StackOverflow)
                && final(self)@ == old(self)@,
    {
        if self.stack.len() >= STACK_DEPTH {
            return Err(Error::StackOverflow);
        }
        self.stack.push(nnn);
        Ok(())
    }

    /// Pops the most recent return address; fails on an empty stack.
    pub fn pop_stack(&mut self) -> (r: Result<u16, Error>)
        ensures
            old(self)@.stack.len() > 0 ==> r == Ok::<u16, Error>(old(self)@.stack.last())
                && final(self)@ == (RegisterState { stack: old(self)@.stack.drop_last(), ..old(self)@ }),
            old(self)@.stack.len() == 0 ==> r == Err::<u16, Error>(Error::StackUnderflow)
                && final(self)@ == old(self)@,
    {
        match self.stack.pop() {
            Some(a) => Ok(a),
            None => Err(Error::StackUnderflow),
        }
    }

    pub fn get_v(&self, x: u8) -> (r: u8)
        requires
            x < 16,
        ensures
            r == self@.v[x as int],
    {
        self.v[x as usize]
    }

    pub fn set_v(&mut self, x: u8, nn: u8)
        requires
            x < 16,
        ensures
            final(self)@ == old(self)@.with_v(x as int, nn),
    {
        self.v[x as usize] = nn;
    }

    pub fn get_stack(&self) -> (r: &[u16])
        ensures
            r@ == self@.stack,
    {
        self.stack.as_slice()
    }
}

} // verus!

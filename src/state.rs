use vstd::prelude::*;
use crate::keypad::KeypadState;
use crate::register::RegisterState;

verus! {

/// Everything that an instruction can read or change, as plain values:
/// the register file, the 2048 pixels, the 4096 bytes of RAM, the keypad,
/// and the time left on the delay and sound timers in nanoseconds.
pub ghost struct Machine {
    pub reg: RegisterState,
    pub screen: Seq<bool>,
    pub ram: Seq<u8>,
    pub keys: KeypadState,
    pub delay: nat,
    pub sound: nat,
}

impl Machine {
    pub open spec fn with_reg(self, reg: RegisterState) -> Machine {
        Machine { reg, ..self }
    }

    /// The parts have the sizes of the machine: sixteen registers, 2048
    /// pixels, 4096 bytes and sixteen keys.
    pub open spec fn sized(self) -> bool {
        &&& self.reg.v.len() == 16
        &&& self.screen.len() == 2048
        &&& self.ram.len() == 4096
        &&& self.keys.down.len() == 16
    }
}

/// `1` where `b` holds, else `0`: the value written to the flag register VF.
pub open spec fn flag(b: bool) -> u8 {
    if b {
        1
    } else {
        0
    }
}

/// The address `offset` bytes past `base`, wrapped into the 4 KiB of RAM.
pub open spec fn ram_addr(base: int, offset: int) -> int {
    (base + offset) % 4096
}

} // verus!

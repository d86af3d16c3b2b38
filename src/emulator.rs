use vstd::prelude::*;
use crate::cpu::{cycle, is_trace, lemma_cycle_keeps_shape, machine, runs, steps_to, Cpu};
use crate::display::{blank_screen, Display};
use crate::error::Error;
use crate::font::{font_bytes, Font};
use crate::keypad::{Key, Keypad};
use crate::memory::{written, Memory, FONT_START, PROGRAM_START};
use crate::quirks::Quirks;
use crate::register::{initial_registers, Register};
use crate::state::Machine;
use crate::timer::{saturating_sub, ticks_left, Timer};

verus! {

/// Time between two instructions: a 700 Hz clock.
pub const EXECUTE_INTERVAL_NANOS: u64 = 1_000_000_000 / 700;

/// RAM as it is after start-up: zero but for the font at 0x050.
pub open spec fn initial_ram() -> Seq<u8> {
    written(Seq::new(4096, |k: int| 0u8), FONT_START as int, font_bytes())
}

/// `time + elapsed`, stopping at the largest value a `u64` holds.
pub open spec fn time_after(time: nat, elapsed: nat) -> nat {
    if time + elapsed > u64::MAX {
        u64::MAX as nat
    } else {
        (time + elapsed) as nat
    }
}

/// The clock ticks of the 700 Hz clock that fall between `time` and `time +
/// elapsed` nanoseconds, counted in whole microseconds; the clock stops at
/// the largest time a `u64` holds.
pub open spec fn steps_between(time: nat, elapsed: nat) -> nat {
    let target = time_after(time, elapsed);
    let interval = (EXECUTE_INTERVAL_NANOS / 1000) as nat;
    (target / 1000 / interval - time / 1000 / interval) as nat
}

/// The emulator as plain values: the machine, whether it is paused, whether
/// the last `emulate` saw the sound timer count down while sounding, the
/// time emulated so far in nanoseconds, and the quirks it follows.
pub ghost struct EmulatorState {
    pub machine: Machine,
    pub paused: bool,
    pub beeping: bool,
    pub time: nat,
    pub quirks: Quirks,
}

/// A copy of the registers, RAM and timers, for inspection.
pub struct Debug {
    pub delay_timer: u8,
    pub memory_ram: Vec<u8>,
    pub register_i: u16,
    pub register_program_counter: u16,
    pub register_stack: Vec<u16>,
    pub register_v: Vec<u8>,
    pub sound_timer: u8,
}

/// The emulator: the machine, a 700 Hz scheduler for its instructions, and
/// the 60 Hz timers. It starts paused and runs once a program is loaded.
pub struct Emulator {
    beeping: bool,
    cpu: Cpu,
    delay_timer: Timer,
    display: Display,
    keypad: Keypad,
    memory: Memory,
    paused: bool,
    quirks: Quirks,
    register: Register,
    sound_timer: Timer,
    time: u64,
}

impl View for Emulator {
    type V = EmulatorState;

    closed spec fn view(&self) -> EmulatorState {
        EmulatorState {
            machine: machine(
                &self.register,
                &self.display,
                &self.keypad,
                &self.memory,
                &self.delay_timer,
                &self.sound_timer,
            ),
            paused: self.paused,
            beeping: self.beeping,
            time: self.time as nat,
            quirks: self.quirks,
        }
    }
}

impl Emulator {
    /// The emulator's machine always has sixteen registers, 2048 pixels,
    /// 4096 bytes of RAM and sixteen keys.
    pub proof fn lemma_sized(&self)
        ensures
            self@.machine.sized(),
    {
        self.register.lemma_v_len();
        self.display.lemma_len();
        self.memory.lemma_len();
        self.keypad.lemma_down_len();
    }

    /// A paused emulator: registers zero but for the program counter at
    /// 0x200, an empty stack, a blank display, RAM zero but for the font, no
    /// key down and both timers at zero.
    pub fn new() -> (r: Emulator)
        ensures
            r@.machine.reg == initial_registers(),
            r@.machine.screen == blank_screen(),
            r@.machine.ram == initial_ram(),
            r@.machine.keys.last == None::<u8>,
            r@.machine.keys.down == Seq::new(16, |k: int| false),
            r@.machine.delay == 0,
            r@.machine.sound == 0,
            r@.paused,
            !r@.beeping,
            r@.time == 0,
            !r@.quirks.shift_copies_vy,
            !r@.quirks.load_store_advances_i,
    {
        let mut emulator = Emulator {
            beeping: false,
            cpu: Cpu::new(),
            delay_timer: Timer::new(),
            display: Display::new(),
            keypad: Keypad::new(),
            memory: Memory::new(),
            paused: true,
            quirks: Quirks::modern(),
            register: Register::new(),
            sound_timer: Timer::new(),
            time: 0,
        };
        let font = Font::new();
        emulator.memory.load_font(font.data());
        emulator
    }

    /// Lets `elapsed_nanos` nanoseconds of emulated time pass. A paused
    /// emulator does nothing. Otherwise both timers count down, the beep flag
    /// is raised when the sound timer's value changed and is still above
    /// zero, and one instruction runs for each tick of the 700 Hz clock in
    /// the interval. An instruction that fails pauses the emulator and its
    /// error is returned; the instructions after it do not run.
    pub fn emulate(&mut self, elapsed_nanos: u64) -> (r: Result<(), Error>)
        ensures
            old(self)@.paused ==> r == Ok::<(), Error>(()) && final(self)@ == old(self)@,
            old(self)@.machine.reg.i < 0x1000 ==> final(self)@.machine.reg.i < 0x1000,
            !old(self)@.paused ==> {
                let before = old(self)@.machine;
                let ticked = Machine {
                    delay: saturating_sub(before.delay, elapsed_nanos as nat),
                    sound: saturating_sub(before.sound, elapsed_nanos as nat),
                    ..before
                };
                let steps = steps_between(old(self)@.time, elapsed_nanos as nat);
                let quirks = old(self)@.quirks;
                &&& final(self)@.beeping == (ticks_left(ticked.sound) > 0 && ticks_left(before.sound)
                    != ticks_left(ticked.sound))
                &&& final(self)@.time == time_after(old(self)@.time, elapsed_nanos as nat)
                &&& final(self)@.quirks == quirks
                &&& r is Ok ==> !final(self)@.paused && runs(ticked, final(self)@.machine, steps, quirks)
                &&& r is Err ==> final(self)@.paused && exists|k: nat, mid: Machine|
                    k < steps && #[trigger] runs(ticked, mid, k, quirks) && exists|b: u8|
                        cycle(mid, b, quirks) == (r, final(self)@.machine)
            },
    {
        if self.paused {
            return Ok(());
        }
        let b1 = self.sound_timer.get();
        self.delay_timer.tick(elapsed_nanos);
        self.sound_timer.tick(elapsed_nanos);
        let b2 = self.sound_timer.get();
        self.beeping = b2 > 0 && b1 != b2;

        let interval: u64 = EXECUTE_INTERVAL_NANOS / 1000;
        let target_time = self.time.saturating_add(elapsed_nanos);
        proof {
            vstd::arithmetic::div_mod::lemma_div_is_ordered(self.time as int, target_time as int, 1000);
            vstd::arithmetic::div_mod::lemma_div_is_ordered(
                self.time as int / 1000,
                target_time as int / 1000,
                interval as int,
            );
        }
        let current_executions = self.time / 1000 / interval;
        let target_executions = target_time / 1000 / interval;
        let steps = target_executions - current_executions;
        self.time = target_time;

        let ghost ticked = self@.machine;
        assert(ticked == Machine {
            delay: saturating_sub(old(self)@.machine.delay, elapsed_nanos as nat),
            sound: saturating_sub(old(self)@.machine.sound, elapsed_nanos as nat),
            ..old(self)@.machine
        });
        let mut k: u64 = 0;
        let ghost mut trace = seq![ticked];
        while k < steps
            invariant
                k <= steps,
                !old(self)@.paused,
                !self.paused,
                ticked == (Machine {
                    delay: saturating_sub(old(self)@.machine.delay, elapsed_nanos as nat),
                    sound: saturating_sub(old(self)@.machine.sound, elapsed_nanos as nat),
                    ..old(self)@.machine
                }),
                steps == steps_between(old(self)@.time, elapsed_nanos as nat),
                b1 == ticks_left(old(self)@.machine.sound),
                b2 == ticks_left(ticked.sound),
                target_time == time_after(old(self)@.time, elapsed_nanos as nat),
                self.time == target_time,
                self.beeping == (b2 > 0 && b1 != b2),
                trace.len() == k + 1,
                trace[0] == ticked,
                trace[k as int] == self@.machine,
                is_trace(trace, self.quirks),
                self.quirks == old(self)@.quirks,
                old(self)@.machine.reg.i < 0x1000 ==> self@.machine.reg.i < 0x1000,
            decreases steps - k,
        {
            let ghost mid = self@.machine;
            proof {
                self.lemma_sized();
            }
            let quirks = self.quirks;
            let result = self.cpu.execute(
                &mut self.register,
                &mut self.display,
                &self.keypad,
                &mut self.memory,
                &mut self.delay_timer,
                &mut self.sound_timer,
                quirks,
            );
            proof {
                let now = self@.machine;
                let q = self.quirks;
                let b = choose|b: u8| cycle(mid, b, q) == (result, now);
                assert(cycle(mid, b, q) == (result, now));
                if old(self)@.machine.reg.i < 0x1000 {
                    lemma_cycle_keeps_shape(mid, b, q);
                }
                assert(runs(ticked, mid, k as nat, q));
                if result is Ok {
                    let next = trace.push(now);
                    assert(cycle(mid, b, q).0 is Ok && cycle(mid, b, q).1 == now);
                    assert(steps_to(mid, now, q));
                    assert forall|j: int| 0 <= j < next.len() - 1 implies steps_to(
                        #[trigger] next[j],
                        next[j + 1],
                        q,
                    ) by {
                        if j < k {
                            assert(next[j] == trace[j] && next[j + 1] == trace[j + 1]);
                        }
                    }
                    trace = next;
                }
            }
            if let Err(e) = result {
                self.paused = true;
                return Err(e);
            }
            k = k + 1;
        }
        assert(runs(ticked, self@.machine, k as nat, self.quirks));
        Ok(())
    }

    /// Executes the instruction at the program counter once, paused or not.
    pub fn step_execute(&mut self) -> (r: Result<(), Error>)
        ensures
            exists|b: u8| cycle(old(self)@.machine, b, old(self)@.quirks) == (r, final(self)@.machine),
            old(self)@.machine.reg.i < 0x1000 ==> final(self)@.machine.reg.i < 0x1000,
            final(self)@.quirks == old(self)@.quirks,
            final(self)@.paused == old(self)@.paused,
            final(self)@.beeping == old(self)@.beeping,
            final(self)@.time == old(self)@.time,
    {
        let quirks = self.quirks;
        let ghost before = self@.machine;
        let r = self.cpu.execute(
            &mut self.register,
            &mut self.display,
            &self.keypad,
            &mut self.memory,
            &mut self.delay_timer,
            &mut self.sound_timer,
            quirks,
        );
        proof {
            let b = choose|b: u8| cycle(before, b, quirks) == (r, self@.machine);
            assert(cycle(before, b, quirks) == (r, self@.machine));
            assert(before == old(self)@.machine);
            assert(quirks == old(self)@.quirks);
            old(self).lemma_sized();
            if before.reg.i < 0x1000 {
                lemma_cycle_keeps_shape(before, b, quirks);
            }
        }
        r
    }

    /// Chooses which of the historical behaviours the emulator follows.
    pub fn set_quirks(&mut self, quirks: Quirks)
        ensures
            final(self)@ == (EmulatorState { quirks, ..old(self)@ }),
    {
        self.quirks = quirks;
    }

    pub fn get_debug(&self) -> (r: Debug)
        ensures
            r.delay_timer == ticks_left(self@.machine.delay),
            r.memory_ram@ == self@.machine.ram,
            r.register_i == self@.machine.reg.i,
            r.register_program_counter == self@.machine.reg.pc,
            r.register_stack@ == self@.machine.reg.stack,
            r.register_v@ == self@.machine.reg.v,
            r.sound_timer == ticks_left(self@.machine.sound),
    {
        let mut register_v: Vec<u8> = Vec::new();
        let mut x: u8 = 0;
        proof {
            self.register.lemma_v_len();
        }
        while x < 16
            invariant
                x <= 16,
                self.register@.v.len() == 16,
                register_v@ == self.register@.v.take(x as int),
            decreases 16 - x,
        {
            register_v.push(self.register.get_v(x));
            x = x + 1;
            assert(register_v@ =~= self.register@.v.take(x as int));
        }
        assert(self.register@.v.take(16) =~= self.register@.v);
        Debug {
            delay_timer: self.delay_timer.get(),
            memory_ram: vstd::slice::slice_to_vec(self.memory.get_ram()),
            register_i: self.register.get_i(),
            register_program_counter: self.register.get_program_counter(),
            register_stack: vstd::slice::slice_to_vec(self.register.get_stack()),
            register_v,
            sound_timer: self.sound_timer.get(),
        }
    }

    pub fn is_beeping(&self) -> (r: bool)
        ensures
            r == self@.beeping,
    {
        self.beeping
    }

    pub fn is_paused(&self) -> (r: bool)
        ensures
            r == self@.paused,
    {
        self.paused
    }

    pub fn is_pixel_on(&self, x: u8, y: u8) -> (r: bool)
        requires
            x < 64,
            y < 32,
        ensures
            r == self@.machine.screen[y * 64 + x],
    {
        self.display.is_pixel_on(x, y)
    }

    pub fn key_pressed(&mut self, key: Key)
        ensures
            final(self)@ == (EmulatorState {
                machine: Machine {
                    keys: crate::keypad::KeypadState {
                        last: Some(crate::keypad::key_value(key)),
                        down: old(self)@.machine.keys.down.update(
                            crate::keypad::key_value(key) as int,
                            true,
                        ),
                    },
                    ..old(self)@.machine
                },
                ..old(self)@
            }),
    {
        self.keypad.pressed(key);
    }

    pub fn key_released(&mut self, key: Key)
        ensures
            final(self)@ == (EmulatorState {
                machine: Machine {
                    keys: crate::keypad::KeypadState {
                        last: if old(self)@.machine.keys.last == Some(crate::keypad::key_value(key)) {
                            None
                        } else {
                            old(self)@.machine.keys.last
                        },
                        down: old(self)@.machine.keys.down.update(
                            crate::keypad::key_value(key) as int,
                            false,
                        ),
                    },
                    ..old(self)@.machine
                },
                ..old(self)@
            }),
    {
        self.keypad.released(key);
    }

    /// Loads a program at 0x200 and unpauses the emulator; a program longer
    /// than 3584 bytes is refused and nothing changes.
    pub fn load_rom(&mut self, rom: &[u8]) -> (r: Result<(), Error>)
        ensures
            rom@.len() <= 3584 ==> forall|k: int|
                0 <= k < rom@.len() ==> #[trigger] final(self)@.machine.ram[PROGRAM_START + k]
                    == rom@[k],
            rom@.len() <= 3584 ==> r == Ok::<(), Error>(()) && final(self)@ == (EmulatorState {
                machine: Machine {
                    ram: written(old(self)@.machine.ram, PROGRAM_START as int, rom@),
                    ..old(self)@.machine
                },
                paused: false,
                ..old(self)@
            }),
            rom@.len() > 3584 ==> r == Err::<(), Error>(Error::InvalidRom) && final(self)@ == old(
                self,
            )@,
    {
        proof {
            self.memory.lemma_len();
        }
        self.memory.load_rom(rom)?;
        self.paused = false;
        Ok(())
    }

    /// Sets the delay timer to zero.
    pub fn zero_delay(&mut self)
        ensures
            final(self)@ == (EmulatorState {
                machine: Machine { delay: 0, ..old(self)@.machine },
                ..old(self)@
            }),
    {
        self.delay_timer.set(0);
    }

    /// Sets the sound timer to zero.
    pub fn zero_sound(&mut self)
        ensures
            final(self)@ == (EmulatorState {
                machine: Machine { sound: 0, ..old(self)@.machine },
                ..old(self)@
            }),
    {
        self.sound_timer.set(0);
    }
}

} // verus!

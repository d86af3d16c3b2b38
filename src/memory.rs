use vstd::prelude::*;
use crate::error::Error;

verus! {

/// Number of bytes of RAM.
pub const RAM_SIZE: usize = 4096;

/// Address at which the font is stored.
pub const FONT_START: usize = 0x050;

/// Address at which a program is loaded and execution starts.
pub const PROGRAM_START: usize = 0x200;

/// Largest program that fits between `PROGRAM_START` and the end of RAM.
pub const MAX_ROM_LEN: usize = 3584;

/// RAM with `bytes` written from address `start` on, the rest as in `ram`.
pub open spec fn written(ram: Seq<u8>, start: int, bytes: Seq<u8>) -> Seq<u8> {
    Seq::new(
        ram.len(),
        |k: int|
            if start <= k < start + bytes.len() {
                bytes[k - start]
            } else {
                ram[k]
            },
    )
}

/// 4 KiB of byte-addressed RAM.
pub struct Memory {
    ram: [u8; 4096],
}

impl View for Memory {
    type V = Seq<u8>;

    closed spec fn view(&self) -> Seq<u8> {
        self.ram@
    }
}

impl Memory {
    pub proof fn lemma_len(&self)
        ensures
            self@.len() == 4096,
    {
    }

    /// RAM with every byte zero.
    pub fn new() -> (r: Memory)
        ensures
            r@ == Seq::new(4096, |k: int| 0u8),
    {
        let r = Memory { ram: [0; 4096] };
        assert(r@ =~= Seq::new(4096, |k: int| 0u8));
        r
    }

    /// Writes the 80 font bytes from `FONT_START` on.
    pub fn load_font(&mut self, font: &[u8; 80])
        ensures
            final(self)@ == written(old(self)@, FONT_START as int, font@),
    {
        let mut k: usize = 0;
        while k < 80
            invariant
                k <= 80,
                self@ == written(old(self)@, FONT_START as int, font@.take(k as int)),
            decreases 80 - k,
        {
            self.ram[FONT_START + k] = font[k];
            k = k + 1;
            assert(self@ =~= written(old(self)@, FONT_START as int, font@.take(k as int)));
        }
        assert(font@.take(80) =~= font@);
    }

    /// Writes a program from `PROGRAM_START` on; a program longer than
    /// `MAX_ROM_LEN` bytes is refused and RAM is left as it was.
    pub fn load_rom(&mut self, rom: &[u8]) -> (r: Result<(), Error>)
        ensures
            rom@.len() <= MAX_ROM_LEN ==> r == Ok::<(), Error>(())
                && final(self)@ == written(old(self)@, PROGRAM_START as int, rom@),
            rom@.len() > MAX_ROM_LEN ==> r == Err::<(), Error>(Error::InvalidRom)
                && final(self)@ == old(self)@,
    {
        if rom.len() > MAX_ROM_LEN {
            return Err(Error::InvalidRom);
        }
        let mut k: usize = 0;
        while k < rom.len()
            invariant
                k <= rom@.len() <= MAX_ROM_LEN,
                self@ == written(old(self)@, PROGRAM_START as int, rom@.take(k as int)),
            decreases rom@.len() - k,
        {
            self.ram[PROGRAM_START + k] = rom[k];
            k = k + 1;
            assert(self@ =~= written(old(self)@, PROGRAM_START as int, rom@.take(k as int)));
        }
        assert(rom@.take(rom@.len() as int) =~= rom@);
        Ok(())
    }

    pub fn get_ram(&self) -> (r: &[u8])
        ensures
            r@ == self@,
    {
        self.ram.as_slice()
    }

    pub fn get_byte(&self, address: u16) -> (r: u8)
        requires
            address < 4096,
        ensures
            r == self@[address as int],
    {
        self.ram[address as usize]
    }

    pub fn set_byte(&mut self, address: u16, byte: u8)
        requires
            address < 4096,
        ensures
            final(self)@ == old(self)@.update(address as int, byte),
    {
        self.ram[address as usize] = byte;
    }
}

} // verus!

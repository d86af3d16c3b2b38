use vstd::prelude::*;

verus! {

/// Width of the framebuffer in pixels.
pub const WIDTH: u8 = 64;

/// Height of the framebuffer in pixels.
pub const HEIGHT: u8 = 32;

/// Position of pixel `(x, y)` in the row-major view of the framebuffer.
pub open spec fn pixel_index(x: int, y: int) -> int {
    y * 64 + x
}

/// Whether `(x, y)` names a pixel of the 64 x 32 framebuffer.
pub open spec fn on_screen(x: int, y: int) -> bool {
    0 <= x < 64 && 0 <= y < 32
}

/// A framebuffer with every pixel off.
pub open spec fn blank_screen() -> Seq<bool> {
    Seq::new(2048, |k: int| false)
}

/// A 64 x 32 monochrome framebuffer, viewed as 2048 pixels in row-major order.
pub struct Display {
    pixels: [bool; 2048],
}

impl View for Display {
    type V = Seq<bool>;

    closed spec fn view(&self) -> Seq<bool> {
        self.pixels@
    }
}

impl Display {
    /// Whether pixel `(x, y)` is on in this state of the framebuffer.
    pub open spec fn lit(&self, x: int, y: int) -> bool {
        self@[pixel_index(x, y)]
    }

    pub proof fn lemma_len(&self)
        ensures
            self@.len() == 2048,
    {
    }

    pub fn new() -> (r: Display)
        ensures
            r@ == blank_screen(),
    {
        let r = Display { pixels: [false; 2048] };
        assert(r@ =~= blank_screen());
        r
    }

    /// Turns every pixel off.
    pub fn clear_screen(&mut self)
        ensures
            final(self)@ == blank_screen(),
    {
        self.pixels = [false; 2048];
        assert(self@ =~= blank_screen());
    }

    pub fn is_pixel_on(&self, x: u8, y: u8) -> (r: bool)
        requires
            x < 64,
            y < 32,
        ensures
            r == self.lit(x as int, y as int),
    {
        self.pixels[y as usize * 64 + x as usize]
    }

    pub fn set_pixel(&mut self, x: u8, y: u8, value: bool)
        requires
            x < 64,
            y < 32,
        ensures
            final(self)@ == old(self)@.update(pixel_index(x as int, y as int), value),
    {
        self.pixels[y as usize * 64 + x as usize] = value;
    }
}

} // verus!

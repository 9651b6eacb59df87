use vstd::prelude::*;

verus! {

/// Width of the screen in pixels.
pub const SCREEN_WIDTH: usize = 64;

/// Height of the screen in pixels.
pub const SCREEN_HEIGHT: usize = 32;

/// Number of pixels on the screen.
pub const SCREEN_PIXELS: usize = 2048;

/// Row-major position of pixel `(x, y)`.
pub open spec fn pixel_index(x: int, y: int) -> int {
    x + SCREEN_WIDTH * y
}

/// The pixels that are all off.
pub open spec fn blank_screen() -> Seq<bool> {
    Seq::new(SCREEN_PIXELS as nat, |i: int| false)
}

/// A monochrome 64 x 32 framebuffer, stored row by row.
pub struct Display {
    pub pixels: [bool; SCREEN_PIXELS],
}

impl View for Display {
    type V = Seq<bool>;

    open spec fn view(&self) -> Seq<bool> {
        self.pixels@
    }
}

impl Display {
    /// A screen with every pixel off.
    pub fn new() -> (r: Display)
        ensures
            r@ == blank_screen(),
    {
        let r = Display { pixels: [false; SCREEN_PIXELS] };
        assert(r@ =~= blank_screen());
        r
    }

    /// Turns every pixel off.
    pub fn clear(&mut self)
        ensures
            final(self)@ == blank_screen(),
    {
        self.pixels = [false; SCREEN_PIXELS];
        assert(self@ =~= blank_screen());
    }

    /// Whether pixel `(x, y)` is on.
    pub fn pixel(&self, x: usize, y: usize) -> (r: bool)
        requires
            x < SCREEN_WIDTH,
            y < SCREEN_HEIGHT,
        ensures
            r == self@[pixel_index(x as int, y as int)],
    {
        self.pixels[x + SCREEN_WIDTH * y]
    }

    /// Sets pixel `(x, y)` on or off.
    pub fn set_pixel(&mut self, x: usize, y: usize, active: bool)
        requires
            x < SCREEN_WIDTH,
            y < SCREEN_HEIGHT,
        ensures
            final(self)@ == old(self)@.update(pixel_index(x as int, y as int), active),
    {
        self.pixels[x + SCREEN_WIDTH * y] = active;
    }

    /// All pixels, row by row.
    pub fn as_slice(&self) -> (r: &[bool])
        ensures
            r@ == self@,
    {
        self.pixels.as_slice()
    }
}

} // verus!

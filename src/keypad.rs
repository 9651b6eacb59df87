use vstd::prelude::*;

use crate::error::Chip8Error;

verus! {

/// Number of keys on the keypad.
pub const NUM_KEYS: usize = 16;

/// The pressed or released state of the sixteen hexadecimal keys.
pub struct Keypad {
    pub keys: [bool; NUM_KEYS],
}

impl View for Keypad {
    type V = Seq<bool>;

    open spec fn view(&self) -> Seq<bool> {
        self.keys@
    }
}

impl Keypad {
    /// A keypad with every key released.
    pub fn new() -> (r: Self)
        ensures
            r@ == Seq::new(NUM_KEYS as nat, |i: int| false),
    {
        let r = Keypad { keys: [false; NUM_KEYS] };
        assert(r@ =~= Seq::new(NUM_KEYS as nat, |i: int| false));
        r
    }

    /// Marks key `idx` as held down.
    pub fn key_down(&mut self, idx: usize) -> (r: Result<(), Chip8Error>)
        ensures
            idx < NUM_KEYS ==> r is Ok && final(self)@ == old(self)@.update(idx as int, true),
            idx >= NUM_KEYS ==> r == Err::<(), Chip8Error>(Chip8Error::InvalidKeypadIndex { index: idx })
                && final(self)@ == old(self)@,
    {
        if idx >= NUM_KEYS {
            return Err(Chip8Error::InvalidKeypadIndex { index: idx });
        }
        self.keys[idx] = true;
        Ok(())
    }

    /// Marks key `idx` as released.
    pub fn key_up(&mut self, idx: usize) -> (r: Result<(), Chip8Error>)
        ensures
            idx < NUM_KEYS ==> r is Ok && final(self)@ == old(self)@.update(idx as int, false),
            idx >= NUM_KEYS ==> r == Err::<(), Chip8Error>(Chip8Error::InvalidKeypadIndex { index: idx })
                && final(self)@ == old(self)@,
    {
        if idx >= NUM_KEYS {
            return Err(Chip8Error::InvalidKeypadIndex { index: idx });
        }
        self.keys[idx] = false;
        Ok(())
    }

    /// Whether key `idx` is held down.
    pub fn is_pressed(&self, idx: usize) -> (r: bool)
        requires
            idx < NUM_KEYS,
        ensures
            r == self@[idx as int],
    {
        self.keys[idx]
    }
}

impl Default for Keypad {
    fn default() -> (r: Self)
        ensures
            r@ == Seq::new(NUM_KEYS as nat, |i: int| false),
    {
        Keypad::new()
    }
}

} // verus!

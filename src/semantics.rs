use vstd::prelude::*;

use crate::display::{blank_screen, pixel_index, SCREEN_HEIGHT, SCREEN_PIXELS, SCREEN_WIDTH};
use crate::error::Chip8Error;
use crate::instruction::{decode_spec, Instruction};
use crate::keypad::NUM_KEYS;
use crate::ram::{RAM_SIZE, STACK_SIZE};

verus! {

/// Number of general registers `V0..=VF`.
pub const NUM_REGS: usize = 16;

/// Index of the flag register `VF`.
pub const FLAG_REG: usize = 15;

/// Address at which programs are loaded and execution starts.
pub const START_ADDR: u16 = 0x200;

/// Bytes taken by the built-in font: sixteen glyphs of five rows each.
pub const FONTSET_SIZE: usize = 80;

/// How a successful instruction cycle ended.
#[derive(Debug, Clone, Copy, PartialEq, Eq, Structural)]
pub enum TickOutcome {
    /// The instruction took effect.
    Executed,
    /// A wait-for-key instruction found no key held down; the program
    /// counter points at it again, so the next cycle retries it.
    WaitingForKey,
}

/// The whole observable machine: what every operation is specified against.
#[verifier::ext_equal]
pub struct Chip8State {
    pub pc: u16,
    pub mem: Seq<u8>,
    pub screen: Seq<bool>,
    pub v: Seq<u8>,
    pub i: u16,
    pub stack: Seq<u16>,
    pub keys: Seq<bool>,
    pub dt: u8,
    pub st: u8,
}

impl Chip8State {
    /// Sizes of the parts, and a stack of at most sixteen return addresses.
    pub open spec fn wf(self) -> bool {
        &&& self.mem.len() == RAM_SIZE
        &&& self.screen.len() == SCREEN_PIXELS
        &&& self.v.len() == NUM_REGS
        &&& self.keys.len() == NUM_KEYS
        &&& self.stack.len() <= STACK_SIZE
    }
}

/// The glyphs of the hexadecimal digits 0 to F, five rows each.
pub open spec fn font_seq() -> Seq<u8> {
    seq![
        0xF0u8, 0x90, 0x90, 0x90, 0xF0, 0x20, 0x60, 0x20, 0x20, 0x70,
        0xF0, 0x10, 0xF0, 0x80, 0xF0, 0xF0, 0x10, 0xF0, 0x10, 0xF0,
        0x90, 0x90, 0xF0, 0x10, 0x10, 0xF0, 0x80, 0xF0, 0x10, 0xF0,
        0xF0, 0x80, 0xF0, 0x90, 0xF0, 0xF0, 0x10, 0x20, 0x40, 0x40,
        0xF0, 0x90, 0xF0, 0x90, 0xF0, 0xF0, 0x90, 0xF0, 0x10, 0xF0,
        0xF0, 0x90, 0xF0, 0x90, 0x90, 0xE0, 0x90, 0xE0, 0x90, 0xE0,
        0xF0, 0x80, 0x80, 0x80, 0xF0, 0xE0, 0x90, 0x90, 0x90, 0xE0,
        0xF0, 0x80, 0xF0, 0x80, 0xF0, 0xF0, 0x80, 0xF0, 0x80, 0x80,
    ]
}

/// Memory right after start-up: the font, then zeroes.
pub open spec fn boot_memory() -> Seq<u8> {
    font_seq() + Seq::new((RAM_SIZE - FONTSET_SIZE) as nat, |j: int| 0u8)
}

/// The state at start-up, with the keypad in state `keys`.
pub open spec fn initial_state(keys: Seq<bool>) -> Chip8State {
    Chip8State {
        pc: START_ADDR,
        mem: boot_memory(),
        screen: blank_screen(),
        v: Seq::new(NUM_REGS as nat, |j: int| 0u8),
        i: 0,
        stack: Seq::empty(),
        keys,
        dt: 0,
        st: 0,
    }
}

/// Memory after a program `rom` was copied to `START_ADDR`.
pub open spec fn loaded_memory(mem: Seq<u8>, rom: Seq<u8>) -> Seq<u8> {
    mem.subrange(0, START_ADDR as int) + rom + mem.subrange(
        START_ADDR + rom.len(),
        RAM_SIZE as int,
    )
}

/// Whether a timer tick from `s` ends the tone: the sound timer is exactly 1.
pub open spec fn tone_ends(s: Chip8State) -> bool {
    s.st == 1
}

/// The timers after one timer tick: each counts down, stopping at zero.
pub open spec fn timers_ticked(s: Chip8State) -> Chip8State {
    Chip8State {
        dt: if s.dt > 0 { (s.dt - 1) as u8 } else { 0 },
        st: if s.st > 0 { (s.st - 1) as u8 } else { 0 },
        ..s
    }
}

/// The first address at or after `start` that lies outside memory, for a
/// run of addresses beginning at `start` that does not fit.
pub open spec fn first_outside(start: int) -> usize {
    if start >= RAM_SIZE { start as usize } else { RAM_SIZE }
}

/// The big-endian word at `pc`, or the address at which the fetch leaves
/// memory.
pub open spec fn fetch_spec(s: Chip8State) -> Result<u16, Chip8Error> {
    if s.pc + 1 < RAM_SIZE {
        Ok((s.mem[s.pc as int] as int * 0x100 + s.mem[s.pc + 1] as int) as u16)
    } else {
        Err(Chip8Error::MemoryOutOfBounds { addr: first_outside(s.pc as int) })
    }
}

/// `s` with register `x` set to `val`.
pub open spec fn set_reg(s: Chip8State, x: int, val: u8) -> Chip8State {
    Chip8State { v: s.v.update(x, val), ..s }
}

/// `s` with register `x` set to `val` and then `VF` set to `flag`.
pub open spec fn set_reg_flag(s: Chip8State, x: int, val: u8, flag: u8) -> Chip8State {
    set_reg(set_reg(s, x, val), FLAG_REG as int, flag)
}

/// `s` with the next instruction skipped when `cond` holds.
pub open spec fn skip_if(s: Chip8State, cond: bool) -> Chip8State {
    if cond {
        Chip8State { pc: (s.pc + 2) as u16, ..s }
    } else {
        s
    }
}

/// Whether bit `col` of a sprite row is set, counting from the most
/// significant bit.
pub open spec fn sprite_bit(row: u8, col: int) -> bool {
    (row >> ((7 - col) as u8)) & 1u8 == 1u8
}

/// The screen and the collision flag after the first `k` of the `8 * n`
/// sprite bits were drawn, row by row and most significant bit first, from
/// the sprite at `i` with its corner at `(vx, vy)`. Each set bit flips the
/// pixel it lands on, wrapping around both edges; the flag records whether
/// any lit pixel was turned off.
pub open spec fn draw_spec(
    screen: Seq<bool>,
    mem: Seq<u8>,
    i: int,
    vx: int,
    vy: int,
    k: nat,
) -> (Seq<bool>, bool)
    decreases k,
{
    if k == 0 {
        (screen, false)
    } else {
        let (scr, flipped) = draw_spec(screen, mem, i, vx, vy, (k - 1) as nat);
        let row = (k - 1) / 8;
        let col = (k - 1) % 8;
        if sprite_bit(mem[i + row], col) {
            let idx = pixel_index((vx + col) % SCREEN_WIDTH as int, (vy + row) % SCREEN_HEIGHT as int);
            (scr.update(idx, !scr[idx]), flipped || scr[idx])
        } else {
            (scr, flipped)
        }
    }
}

/// The lowest key index at or above `k` whose key is held down, or 16 if
/// there is none.
pub open spec fn first_pressed(keys: Seq<bool>, k: int) -> int
    decreases NUM_KEYS - k,
{
    if k >= NUM_KEYS {
        NUM_KEYS as int
    } else if keys[k] {
        k
    } else {
        first_pressed(keys, k + 1)
    }
}

/// `s` after the program counter moved past the fetched instruction.
pub open spec fn advance(s: Chip8State) -> Chip8State {
    Chip8State { pc: (s.pc + 2) as u16, ..s }
}

/// Result of an instruction that always takes effect.
pub open spec fn done(s: Chip8State) -> Result<(Chip8State, TickOutcome), Chip8Error> {
    Ok((s, TickOutcome::Executed))
}

/// The effect of `ins` on `s`, whose program counter already points past
/// it; `rnd` is the random byte that `Cxkk` uses.
pub open spec fn execute_spec(s: Chip8State, ins: Instruction, rnd: u8) -> Result<
    (Chip8State, TickOutcome),
    Chip8Error,
> {
    match ins {
        Instruction::ClearScreen => done(Chip8State { screen: blank_screen(), ..s }),
        Instruction::Return => if s.stack.len() == 0 {
            Err(Chip8Error::StackUnderflow)
        } else {
            done(Chip8State { pc: s.stack.last(), stack: s.stack.drop_last(), ..s })
        },
        Instruction::Jump { nnn } => done(Chip8State { pc: nnn, ..s }),
        Instruction::Call { nnn } => if s.stack.len() >= STACK_SIZE {
            Err(Chip8Error::StackOverflow)
        } else {
            done(Chip8State { pc: nnn, stack: s.stack.push(s.pc), ..s })
        },
        Instruction::SkipEqImm { x, kk } => done(skip_if(s, s.v[x as int] == kk)),
        Instruction::SkipNeImm { x, kk } => done(skip_if(s, s.v[x as int] != kk)),
        Instruction::SkipEqReg { x, y } => done(skip_if(s, s.v[x as int] == s.v[y as int])),
        Instruction::LoadImm { x, kk } => done(set_reg(s, x as int, kk)),
        Instruction::AddImm { x, kk } => done(
            set_reg(s, x as int, ((s.v[x as int] + kk) % 256) as u8),
        ),
        Instruction::Move { x, y } => done(set_reg(s, x as int, s.v[y as int])),
        Instruction::Or { x, y } => done(set_reg(s, x as int, s.v[x as int] | s.v[y as int])),
        Instruction::And { x, y } => done(set_reg(s, x as int, s.v[x as int] & s.v[y as int])),
        Instruction::Xor { x, y } => done(set_reg(s, x as int, s.v[x as int] ^ s.v[y as int])),
        Instruction::AddReg { x, y } => {
            let (a, b) = (s.v[x as int], s.v[y as int]);
            done(set_reg_flag(s, x as int, ((a + b) % 256) as u8, if a + b > 255 { 1 } else { 0 }))
        },
        Instruction::SubReg { x, y } => {
            let (a, b) = (s.v[x as int], s.v[y as int]);
            done(set_reg_flag(s, x as int, ((a - b + 256) % 256) as u8, if a >= b { 1 } else { 0 }))
        },
        Instruction::ShiftRight { x, .. } => {
            let a = s.v[x as int];
            done(set_reg_flag(s, x as int, (a / 2) as u8, (a % 2) as u8))
        },
        Instruction::SubRev { x, y } => {
            let (a, b) = (s.v[x as int], s.v[y as int]);
            done(set_reg_flag(s, x as int, ((b - a + 256) % 256) as u8, if b >= a { 1 } else { 0 }))
        },
        Instruction::ShiftLeft { x, .. } => {
            let a = s.v[x as int];
            done(set_reg_flag(s, x as int, ((a * 2) % 256) as u8, (a / 128) as u8))
        },
        Instruction::SkipNeReg { x, y } => done(skip_if(s, s.v[x as int] != s.v[y as int])),
        Instruction::LoadIndex { nnn } => done(Chip8State { i: nnn, ..s }),
        Instruction::JumpOffset { nnn } => done(Chip8State { pc: (s.v[0] + nnn) as u16, ..s }),
        Instruction::Random { x, kk } => done(set_reg(s, x as int, rnd & kk)),
        Instruction::Draw { x, y, n } => if n > 0 && s.i + n > RAM_SIZE {
            Err(Chip8Error::MemoryOutOfBounds { addr: first_outside(s.i as int) })
        } else {
            let (scr, flipped) = draw_spec(
                s.screen,
                s.mem,
                s.i as int,
                s.v[x as int] as int,
                s.v[y as int] as int,
                (8 * n) as nat,
            );
            done(set_reg(Chip8State { screen: scr, ..s }, FLAG_REG as int, if flipped { 1 } else { 0 }))
        },
        Instruction::SkipKeyDown { x } => if s.v[x as int] >= NUM_KEYS {
            Err(Chip8Error::InvalidKeypadIndex { index: s.v[x as int] as usize })
        } else {
            done(skip_if(s, s.keys[s.v[x as int] as int]))
        },
        Instruction::SkipKeyUp { x } => if s.v[x as int] >= NUM_KEYS {
            Err(Chip8Error::InvalidKeypadIndex { index: s.v[x as int] as usize })
        } else {
            done(skip_if(s, !s.keys[s.v[x as int] as int]))
        },
        Instruction::LoadDelay { x } => done(set_reg(s, x as int, s.dt)),
        Instruction::WaitKey { x } => {
            let k = first_pressed(s.keys, 0);
            if k < NUM_KEYS {
                done(set_reg(s, x as int, k as u8))
            } else {
                Ok((Chip8State { pc: (s.pc - 2) as u16, ..s }, TickOutcome::WaitingForKey))
            }
        },
        Instruction::SetDelay { x } => done(Chip8State { dt: s.v[x as int], ..s }),
        Instruction::SetSound { x } => done(Chip8State { st: s.v[x as int], ..s }),
        Instruction::AddIndex { x } => done(
            Chip8State { i: ((s.i + s.v[x as int]) % 0x10000) as u16, ..s },
        ),
        Instruction::FontGlyph { x } => done(Chip8State { i: (s.v[x as int] * 5) as u16, ..s }),
        Instruction::StoreBcd { x } => if s.i + 3 > RAM_SIZE {
            Err(Chip8Error::MemoryOutOfBounds { addr: first_outside(s.i as int) })
        } else {
            let a = s.v[x as int];
            let i = s.i as int;
            done(
                Chip8State {
                    mem: s.mem.update(i, (a / 100) as u8).update(i + 1, ((a / 10) % 10) as u8).update(
                        i + 2,
                        (a % 10) as u8,
                    ),
                    ..s
                },
            )
        },
        Instruction::StoreRegs { x } => if s.i + x + 1 > RAM_SIZE {
            Err(Chip8Error::MemoryOutOfBounds { addr: first_outside(s.i as int) })
        } else {
            let i = s.i as int;
            done(
                Chip8State {
                    mem: Seq::new(
                        RAM_SIZE as nat,
                        |j: int|
                            if i <= j <= i + x {
                                s.v[j - i]
                            } else {
                                s.mem[j]
                            },
                    ),
                    ..s
                },
            )
        },
        Instruction::LoadRegs { x } => if s.i + x + 1 > RAM_SIZE {
            Err(Chip8Error::MemoryOutOfBounds { addr: first_outside(s.i as int) })
        } else {
            let i = s.i as int;
            done(
                Chip8State {
                    v: Seq::new(
                        NUM_REGS as nat,
                        |j: int|
                            if j <= x {
                                s.mem[i + j]
                            } else {
                                s.v[j]
                            },
                    ),
                    ..s
                },
            )
        },
    }
}

/// `after` and `r` are what carrying out `ins` from `before` gives, where
/// the program counter of `before` has already moved past `ins`; on an
/// error `after` is `before`.
pub open spec fn executed_as(
    before: Chip8State,
    after: Chip8State,
    r: Result<TickOutcome, Chip8Error>,
    ins: Instruction,
    rnd: u8,
) -> bool {
    match execute_spec(before, ins, rnd) {
        Ok((t, o)) => after == t && r == Ok::<TickOutcome, Chip8Error>(o),
        Err(e) => after == before && r == Err::<TickOutcome, Chip8Error>(e),
    }
}

/// One instruction cycle from `s`: fetch the word at `pc`, decode it, move
/// past it and carry it out. Gives the new state and what the cycle
/// reported; on an error the state is `s` itself.
pub open spec fn step(s: Chip8State, rnd: u8) -> (Chip8State, Result<TickOutcome, Chip8Error>) {
    match fetch_spec(s) {
        Err(e) => (s, Err(e)),
        Ok(op) => match decode_spec(op) {
            None => (s, Err(Chip8Error::InvalidOpcode { opcode: op, pc: s.pc })),
            Some(ins) => match execute_spec(advance(s), ins, rnd) {
                Ok((t, o)) => (t, Ok(o)),
                Err(e) => (s, Err(e)),
            },
        },
    }
}

} // verus!

use vstd::prelude::*;

use crate::display::{Display, SCREEN_HEIGHT, SCREEN_WIDTH};
use crate::error::Chip8Error;
use crate::instruction::{decode, operands_in_range, Instruction};
use crate::keypad::{Keypad, NUM_KEYS};
use crate::ram::{Ram, RAM_SIZE, STACK_SIZE};
use crate::semantics::{
    advance, boot_memory, draw_spec, executed_as, fetch_spec, first_outside, first_pressed,
    font_seq, initial_state, loaded_memory, set_reg, step, timers_ticked, tone_ends, Chip8State,
    TickOutcome, FLAG_REG, FONTSET_SIZE, NUM_REGS, START_ADDR,
};

verus! {

/// Relies on `rand::random::<u8>`: one byte from the thread-local generator.
/// Nothing is known of its value.
#[verifier::external_body]
fn random_byte() -> (r: u8) {
    rand::random::<u8>()
}

/// The glyphs of the hexadecimal digits, five rows each.
fn fontset() -> (r: [u8; FONTSET_SIZE])
    ensures
        r@ == font_seq(),
{
    let r: [u8; FONTSET_SIZE] = [
        0xF0, 0x90, 0x90, 0x90, 0xF0, 0x20, 0x60, 0x20, 0x20, 0x70,
        0xF0, 0x10, 0xF0, 0x80, 0xF0, 0xF0, 0x10, 0xF0, 0x10, 0xF0,
        0x90, 0x90, 0xF0, 0x10, 0x10, 0xF0, 0x80, 0xF0, 0x10, 0xF0,
        0xF0, 0x80, 0xF0, 0x90, 0xF0, 0xF0, 0x10, 0x20, 0x40, 0x40,
        0xF0, 0x90, 0xF0, 0x90, 0xF0, 0xF0, 0x90, 0xF0, 0x10, 0xF0,
        0xF0, 0x90, 0xF0, 0x90, 0x90, 0xE0, 0x90, 0xE0, 0x90, 0xE0,
        0xF0, 0x80, 0x80, 0x80, 0xF0, 0xE0, 0x90, 0x90, 0x90, 0xE0,
        0xF0, 0x80, 0xF0, 0x80, 0xF0, 0xF0, 0x80, 0xF0, 0x80, 0x80,
    ];
    assert(r@ =~= font_seq());
    r
}

/// A CHIP-8 machine: program counter, memory and call stack, registers,
/// timers, framebuffer and keypad.
pub struct Emu {
    pc: u16,
    ram: Ram,
    screen: Display,
    v_reg: [u8; NUM_REGS],
    i_reg: u16,
    pub keypad: Keypad,
    dt: u8,
    st: u8,
}

impl View for Emu {
    type V = Chip8State;

    closed spec fn view(&self) -> Chip8State {
        Chip8State {
            pc: self.pc,
            mem: self.ram.memory(),
            screen: self.screen@,
            v: self.v_reg@,
            i: self.i_reg,
            stack: self.ram.stack_seq(),
            keys: self.keypad@,
            dt: self.dt,
            st: self.st,
        }
    }
}

impl Emu {
    /// The machine's invariant.
    pub open spec fn wf(&self) -> bool {
        self@.wf()
    }

    /// A machine at start-up: font at address 0, everything else zeroed,
    /// `pc` at `START_ADDR`, no key held down.
    pub fn new() -> (r: Self)
        ensures
            r.wf(),
            r@ == initial_state(Seq::new(NUM_KEYS as nat, |j: int| false)),
    {
        let mut r = Emu {
            pc: START_ADDR,
            ram: Ram::new(),
            screen: Display::new(),
            v_reg: [0; NUM_REGS],
            i_reg: 0,
            keypad: Keypad::new(),
            dt: 0,
            st: 0,
        };
        let font = fontset();
        r.ram.push_arr(font.as_slice());
        assert(r@.mem =~= boot_memory());
        assert(r@.v =~= Seq::new(NUM_REGS as nat, |j: int| 0u8));
        assert(r@ == initial_state(Seq::new(NUM_KEYS as nat, |j: int| false)));
        r
    }

    /// Puts every part back to its start-up value, the keypad included:
    /// every key ends up released.
    pub fn reset(&mut self)
        ensures
            final(self).wf(),
            final(self)@ == initial_state(Seq::new(NUM_KEYS as nat, |j: int| false)),
    {
        self.pc = START_ADDR;
        self.ram.reset();
        self.screen.clear();
        self.v_reg = [0; NUM_REGS];
        self.i_reg = 0;
        self.dt = 0;
        self.st = 0;
        self.keypad = Keypad::new();
        let font = fontset();
        self.ram.push_arr(font.as_slice());
        assert(self@.mem =~= boot_memory());
        assert(self@.v =~= Seq::new(NUM_REGS as nat, |j: int| 0u8));
    }

    /// Copies a program to `START_ADDR`. A program that does not fit in the
    /// memory above `START_ADDR` is refused and nothing changes.
    pub fn load(&mut self, data: &[u8]) -> (r: Result<(), Chip8Error>)
        requires
            old(self).wf(),
        ensures
            final(self).wf(),
            START_ADDR + data@.len() <= RAM_SIZE ==> r is Ok && final(self)@ == (Chip8State {
                mem: loaded_memory(old(self)@.mem, data@),
                ..old(self)@
            }),
            START_ADDR + data@.len() > RAM_SIZE ==> r == Err::<(), Chip8Error>(
                Chip8Error::MemoryOutOfBounds { addr: RAM_SIZE },
            ) && final(self)@ == old(self)@,
    {
        if data.len() > RAM_SIZE - START_ADDR as usize {
            return Err(Chip8Error::MemoryOutOfBounds { addr: RAM_SIZE });
        }
        self.ram.push_at(data, START_ADDR as usize);
        Ok(())
    }

    /// One timer tick: the delay and sound timers each count down by one,
    /// stopping at zero. Returns whether the tone ends with this tick, that
    /// is whether the sound timer was exactly 1.
    pub fn tick_timers(&mut self) -> (tone_end: bool)
        ensures
            final(self)@ == timers_ticked(old(self)@),
            tone_end == tone_ends(old(self)@),
    {
        if self.dt > 0 {
            self.dt = self.dt - 1;
        }
        let mut tone_end = false;
        if self.st > 0 {
            if self.st == 1 {
                tone_end = true;
            }
            self.st = self.st - 1;
        }
        tone_end
    }

    /// The program counter.
    pub fn pc(&self) -> (r: u16)
        ensures
            r == self@.pc,
    {
        self.pc
    }

    /// General register `Vx`.
    pub fn register(&self, x: usize) -> (r: u8)
        requires
            x < NUM_REGS,
        ensures
            r == self@.v[x as int],
    {
        self.v_reg[x]
    }

    /// The index register `I`.
    pub fn index(&self) -> (r: u16)
        ensures
            r == self@.i,
    {
        self.i_reg
    }

    /// The byte at `addr`.
    pub fn read_memory(&self, addr: usize) -> (r: u8)
        requires
            self.wf(),
            addr < RAM_SIZE,
        ensures
            r == self@.mem[addr as int],
    {
        self.ram.read(addr)
    }

    /// Number of return addresses on the call stack.
    pub fn stack_depth(&self) -> (r: usize)
        requires
            self.wf(),
        ensures
            r == self@.stack.len(),
    {
        self.ram.sp as usize
    }

    /// The delay timer.
    pub fn delay_timer(&self) -> (r: u8)
        ensures
            r == self@.dt,
    {
        self.dt
    }

    /// The sound timer.
    pub fn sound_timer(&self) -> (r: u8)
        ensures
            r == self@.st,
    {
        self.st
    }

    /// The framebuffer, row by row.
    pub fn get_display(&self) -> (r: &[bool])
        ensures
            r@ == self@.screen,
    {
        self.screen.as_slice()
    }

    /// Reads the big-endian word at `pc` and moves `pc` past it. When the
    /// word does not lie in memory nothing changes.
    pub fn fetch(&mut self) -> (r: Result<u16, Chip8Error>)
        requires
            old(self).wf(),
        ensures
            final(self).wf(),
            r == fetch_spec(old(self)@),
            r is Ok ==> final(self)@ == advance(old(self)@),
            r is Err ==> final(self)@ == old(self)@,
    {
        if self.pc as usize + 1 >= RAM_SIZE {
            let addr = if (self.pc as usize) < RAM_SIZE {
                RAM_SIZE
            } else {
                self.pc as usize
            };
            return Err(Chip8Error::MemoryOutOfBounds { addr });
        }
        let higher_byte = self.ram.read(self.pc as usize) as u16;
        let lower_byte = self.ram.read(self.pc as usize + 1) as u16;
        assert((higher_byte << 8u16) | lower_byte == higher_byte * 0x100 + lower_byte) by (bit_vector)
            requires
                higher_byte < 0x100,
                lower_byte < 0x100,
        ;
        self.pc = self.pc + 2;
        Ok((higher_byte << 8) | lower_byte)
    }

    /// One instruction cycle, with `rnd` as the random byte that `Cxkk`
    /// combines with its mask.
    pub fn tick_with_random(&mut self, rnd: u8) -> (r: Result<TickOutcome, Chip8Error>)
        requires
            old(self).wf(),
        ensures
            final(self).wf(),
            (final(self)@, r) == step(old(self)@, rnd),
    {
        let op = match self.fetch() {
            Ok(op) => op,
            Err(e) => return Err(e),
        };
        let ins = match decode(op) {
            Some(ins) => ins,
            None => {
                self.pc = self.pc - 2;
                return Err(Chip8Error::InvalidOpcode { opcode: op, pc: self.pc });
            },
        };
        let r = self.execute(ins, rnd);
        if r.is_err() {
            self.pc = self.pc - 2;
        }
        r
    }

    /// One instruction cycle: fetch the word at `pc`, decode it, move past
    /// it and carry it out. On an error nothing changes.
    pub fn tick(&mut self) -> (r: Result<TickOutcome, Chip8Error>)
        requires
            old(self).wf(),
        ensures
            final(self).wf(),
            exists|rnd: u8| (final(self)@, r) == #[trigger] step(old(self)@, rnd),
    {
        let rnd = random_byte();
        let r = self.tick_with_random(rnd);
        assert((self@, r) == step(old(self)@, rnd));
        r
    }
}

impl Default for Emu {
    fn default() -> (r: Self)
        ensures
            r.wf(),
            r@ == initial_state(Seq::new(NUM_KEYS as nat, |j: int| false)),
    {
        Emu::new()
    }
}

impl Emu {
    /// Carries out `ins`, fetched just before `pc`; on an error nothing
    /// changes.
    fn execute(&mut self, ins: Instruction, rnd: u8) -> (r: Result<TickOutcome, Chip8Error>)
        requires
            old(self).wf(),
            2 <= old(self).pc <= RAM_SIZE,
            operands_in_range(ins),
        ensures
            final(self).wf(),
            executed_as(old(self)@, final(self)@, r, ins, rnd),
    {
        match ins {
            Instruction::ClearScreen
            | Instruction::Return
            | Instruction::Jump { .. }
            | Instruction::Call { .. }
            | Instruction::JumpOffset { .. }
            | Instruction::WaitKey { .. } => self.exec_control(ins, rnd),
            Instruction::SkipEqImm { .. }
            | Instruction::SkipNeImm { .. }
            | Instruction::SkipEqReg { .. }
            | Instruction::SkipNeReg { .. }
            | Instruction::SkipKeyDown { .. }
            | Instruction::SkipKeyUp { .. } => self.exec_skip(ins, rnd),
            Instruction::LoadImm { .. }
            | Instruction::AddImm { .. }
            | Instruction::Move { .. }
            | Instruction::Or { .. }
            | Instruction::And { .. }
            | Instruction::Xor { .. }
            | Instruction::Random { .. }
            | Instruction::LoadDelay { .. }
            | Instruction::SetDelay { .. }
            | Instruction::SetSound { .. } => self.exec_register(ins, rnd),
            Instruction::AddReg { .. }
            | Instruction::SubReg { .. }
            | Instruction::ShiftRight { .. }
            | Instruction::SubRev { .. }
            | Instruction::ShiftLeft { .. } => self.exec_flagged(ins, rnd),
            Instruction::LoadIndex { .. }
            | Instruction::AddIndex { .. }
            | Instruction::FontGlyph { .. }
            | Instruction::Draw { .. }
            | Instruction::StoreBcd { .. }
            | Instruction::StoreRegs { .. }
            | Instruction::LoadRegs { .. } => self.exec_memory(ins, rnd),
        }
    }

    /// Carries out a clear, a jump, a call, a return or a wait for a key.
    fn exec_control(&mut self, ins: Instruction, rnd: u8) -> (r: Result<TickOutcome, Chip8Error>)
        requires
            old(self).wf(),
            2 <= old(self).pc <= RAM_SIZE,
            operands_in_range(ins),
            ins is ClearScreen || ins is Return || ins is Jump || ins is Call || ins is JumpOffset || ins is WaitKey,
        ensures
            final(self).wf(),
            executed_as(old(self)@, final(self)@, r, ins, rnd),
    {
        match ins {
            Instruction::ClearScreen => {
                self.screen.clear();
            },
            Instruction::Return => {
                if self.ram.sp == 0 {
                    return Err(Chip8Error::StackUnderflow);
                }
                self.pc = self.ram.stack_pop();
            },
            Instruction::Jump { nnn } => {
                self.pc = nnn;
            },
            Instruction::Call { nnn } => {
                if self.ram.sp as usize >= STACK_SIZE {
                    return Err(Chip8Error::StackOverflow);
                }
                self.ram.stack_push(self.pc);
                self.pc = nnn;
            },
            Instruction::JumpOffset { nnn } => {
                self.pc = self.v_reg[0] as u16 + nnn;
            },
            Instruction::WaitKey { x } => {
                let key = self.first_pressed_key();
                if key >= NUM_KEYS {
                    self.pc = self.pc - 2;
                    return Ok(TickOutcome::WaitingForKey);
                }
                self.v_reg[x] = key as u8;
            },
            _ => {},
        }
        Ok(TickOutcome::Executed)
    }

    /// Carries out a conditional skip.
    fn exec_skip(&mut self, ins: Instruction, rnd: u8) -> (r: Result<TickOutcome, Chip8Error>)
        requires
            old(self).wf(),
            2 <= old(self).pc <= RAM_SIZE,
            operands_in_range(ins),
            ins is SkipEqImm || ins is SkipNeImm || ins is SkipEqReg || ins is SkipNeReg || ins is SkipKeyDown || ins is SkipKeyUp,
        ensures
            final(self).wf(),
            executed_as(old(self)@, final(self)@, r, ins, rnd),
    {
        match ins {
            Instruction::SkipEqImm { x, kk } => {
                if self.v_reg[x] == kk {
                    self.pc = self.pc + 2;
                }
            },
            Instruction::SkipNeImm { x, kk } => {
                if self.v_reg[x] != kk {
                    self.pc = self.pc + 2;
                }
            },
            Instruction::SkipEqReg { x, y } => {
                if self.v_reg[x] == self.v_reg[y] {
                    self.pc = self.pc + 2;
                }
            },
            Instruction::SkipNeReg { x, y } => {
                if self.v_reg[x] != self.v_reg[y] {
                    self.pc = self.pc + 2;
                }
            },
            Instruction::SkipKeyDown { x } => {
                let key = self.v_reg[x] as usize;
                if key >= NUM_KEYS {
                    return Err(Chip8Error::InvalidKeypadIndex { index: key });
                }
                if self.keypad.is_pressed(key) {
                    self.pc = self.pc + 2;
                }
            },
            Instruction::SkipKeyUp { x } => {
                let key = self.v_reg[x] as usize;
                if key >= NUM_KEYS {
                    return Err(Chip8Error::InvalidKeypadIndex { index: key });
                }
                if !self.keypad.is_pressed(key) {
                    self.pc = self.pc + 2;
                }
            },
            _ => {},
        }
        Ok(TickOutcome::Executed)
    }

    /// Carries out a register transfer or an operation without flags.
    fn exec_register(&mut self, ins: Instruction, rnd: u8) -> (r: Result<TickOutcome, Chip8Error>)
        requires
            old(self).wf(),
            2 <= old(self).pc <= RAM_SIZE,
            operands_in_range(ins),
            ins is LoadImm || ins is AddImm || ins is Move || ins is Or || ins is And || ins is Xor || ins is Random || ins is LoadDelay || ins is SetDelay || ins is SetSound,
        ensures
            final(self).wf(),
            executed_as(old(self)@, final(self)@, r, ins, rnd),
    {
        match ins {
            Instruction::LoadImm { x, kk } => {
                self.v_reg[x] = kk;
            },
            Instruction::AddImm { x, kk } => {
                self.v_reg[x] = self.v_reg[x].wrapping_add(kk);
            },
            Instruction::Move { x, y } => {
                self.v_reg[x] = self.v_reg[y];
            },
            Instruction::Or { x, y } => {
                self.v_reg[x] = self.v_reg[x] | self.v_reg[y];
            },
            Instruction::And { x, y } => {
                self.v_reg[x] = self.v_reg[x] & self.v_reg[y];
            },
            Instruction::Xor { x, y } => {
                self.v_reg[x] = self.v_reg[x] ^ self.v_reg[y];
            },
            Instruction::Random { x, kk } => {
                self.v_reg[x] = rnd & kk;
            },
            Instruction::LoadDelay { x } => {
                self.v_reg[x] = self.dt;
            },
            Instruction::SetDelay { x } => {
                self.dt = self.v_reg[x];
            },
            Instruction::SetSound { x } => {
                self.st = self.v_reg[x];
            },
            _ => {},
        }
        Ok(TickOutcome::Executed)
    }

    /// Carries out an arithmetic operation that sets `VF`.
    #[verifier::rlimit(40)]
    fn exec_flagged(&mut self, ins: Instruction, rnd: u8) -> (r: Result<TickOutcome, Chip8Error>)
        requires
            old(self).wf(),
            2 <= old(self).pc <= RAM_SIZE,
            operands_in_range(ins),
            ins is AddReg || ins is SubReg || ins is ShiftRight || ins is SubRev || ins is ShiftLeft,
        ensures
            final(self).wf(),
            executed_as(old(self)@, final(self)@, r, ins, rnd),
    {
        match ins {
            Instruction::AddReg { x, y } => {
                let (a, b) = (self.v_reg[x], self.v_reg[y]);
                let carry = a as u16 + b as u16 > 255;
                self.v_reg[x] = a.wrapping_add(b);
                self.v_reg[FLAG_REG] = if carry { 1 } else { 0 };
            },
            Instruction::SubReg { x, y } => {
                let (a, b) = (self.v_reg[x], self.v_reg[y]);
                self.v_reg[x] = a.wrapping_sub(b);
                self.v_reg[FLAG_REG] = if a >= b { 1 } else { 0 };
            },
            Instruction::ShiftRight { x, .. } => {
                let a = self.v_reg[x];
                assert(a >> 1u8 == a / 2 && a & 1u8 == a % 2) by (bit_vector);
                self.v_reg[x] = a >> 1;
                self.v_reg[FLAG_REG] = a & 1;
            },
            Instruction::SubRev { x, y } => {
                let (a, b) = (self.v_reg[x], self.v_reg[y]);
                self.v_reg[x] = b.wrapping_sub(a);
                self.v_reg[FLAG_REG] = if b >= a { 1 } else { 0 };
            },
            Instruction::ShiftLeft { x, .. } => {
                let a = self.v_reg[x];
                assert(a << 1u8 == ((a * 2) % 256) as u8 && (a >> 7u8) & 1u8 == a / 128) by (bit_vector);
                self.v_reg[x] = a << 1;
                self.v_reg[FLAG_REG] = (a >> 7) & 1;
            },
            _ => {},
        }
        Ok(TickOutcome::Executed)
    }

    /// Carries out an operation on `I` or on memory, drawing included.
    fn exec_memory(&mut self, ins: Instruction, rnd: u8) -> (r: Result<TickOutcome, Chip8Error>)
        requires
            old(self).wf(),
            2 <= old(self).pc <= RAM_SIZE,
            operands_in_range(ins),
            ins is LoadIndex || ins is AddIndex || ins is FontGlyph || ins is Draw || ins is StoreBcd || ins is StoreRegs || ins is LoadRegs,
        ensures
            final(self).wf(),
            executed_as(old(self)@, final(self)@, r, ins, rnd),
    {
        match ins {
            Instruction::LoadIndex { nnn } => {
                self.i_reg = nnn;
            },
            Instruction::AddIndex { x } => {
                self.i_reg = self.i_reg.wrapping_add(self.v_reg[x] as u16);
            },
            Instruction::FontGlyph { x } => {
                self.i_reg = self.v_reg[x] as u16 * 5;
            },
            Instruction::Draw { x, y, n } => {
                if n > 0 && self.i_reg as usize + n as usize > RAM_SIZE {
                    return Err(
                        Chip8Error::MemoryOutOfBounds { addr: Self::first_outside(self.i_reg) },
                    );
                }
                self.draw(x, y, n);
            },
            Instruction::StoreBcd { x } => {
                if self.i_reg as usize + 3 > RAM_SIZE {
                    return Err(
                        Chip8Error::MemoryOutOfBounds { addr: Self::first_outside(self.i_reg) },
                    );
                }
                let a = self.v_reg[x];
                let i = self.i_reg as usize;
                self.ram.write(i, a / 100);
                self.ram.write(i + 1, (a / 10) % 10);
                self.ram.write(i + 2, a % 10);
            },
            Instruction::StoreRegs { x } => {
                if self.i_reg as usize + x + 1 > RAM_SIZE {
                    return Err(
                        Chip8Error::MemoryOutOfBounds { addr: Self::first_outside(self.i_reg) },
                    );
                }
                self.store_regs(x);
            },
            Instruction::LoadRegs { x } => {
                if self.i_reg as usize + x + 1 > RAM_SIZE {
                    return Err(
                        Chip8Error::MemoryOutOfBounds { addr: Self::first_outside(self.i_reg) },
                    );
                }
                self.load_regs(x);
            },
            _ => {},
        }
        Ok(TickOutcome::Executed)
    }

    /// The first address outside memory in a run that starts at `start`.
    fn first_outside(start: u16) -> (r: usize)
        ensures
            r == first_outside(start as int),
    {
        if (start as usize) < RAM_SIZE {
            RAM_SIZE
        } else {
            start as usize
        }
    }

    /// The lowest index of a key held down, or `NUM_KEYS` if none is.
    fn first_pressed_key(&self) -> (r: usize)
        requires
            self.wf(),
        ensures
            r == first_pressed(self@.keys, 0),
    {
        let mut k: usize = 0;
        while k < NUM_KEYS
            invariant
                k <= NUM_KEYS,
                self.wf(),
                first_pressed(self@.keys, k as int) == first_pressed(self@.keys, 0),
            decreases NUM_KEYS - k,
        {
            if self.keypad.is_pressed(k) {
                return k;
            }
            k = k + 1;
        }
        NUM_KEYS
    }

    /// Draws the `n`-row sprite at `I` with its corner at `(Vx, Vy)` and
    /// sets `VF` to whether a lit pixel was turned off.
    fn draw(&mut self, x: usize, y: usize, n: u8)
        requires
            old(self).wf(),
            x < NUM_REGS,
            y < NUM_REGS,
            n < 16,
            n == 0 || old(self).i_reg + n <= RAM_SIZE,
        ensures
            final(self).wf(),
            ({
                let s = old(self)@;
                let (scr, flipped) = draw_spec(
                    s.screen,
                    s.mem,
                    s.i as int,
                    s.v[x as int] as int,
                    s.v[y as int] as int,
                    (8 * n) as nat,
                );
                final(self)@ == set_reg(
                    (Chip8State { screen: scr, ..s }),
                    FLAG_REG as int,
                    if flipped { 1 } else { 0 },
                )
            }),
    {
        let vx = self.v_reg[x] as usize;
        let vy = self.v_reg[y] as usize;
        let base = self.i_reg as usize;
        let total = 8 * n as usize;
        let mut flipped = false;
        let mut k: usize = 0;
        while k < total
            invariant
                k <= total,
                total == 8 * n,
                n == 0 || base + n <= RAM_SIZE,
                base == old(self)@.i,
                vx == old(self)@.v[x as int],
                vy == old(self)@.v[y as int],
                self@.screen.len() == SCREEN_WIDTH * SCREEN_HEIGHT,
                self@ == (Chip8State { screen: self@.screen, ..old(self)@ }),
                (self@.screen, flipped) == draw_spec(
                    old(self)@.screen,
                    old(self)@.mem,
                    base as int,
                    vx as int,
                    vy as int,
                    k as nat,
                ),
            decreases total - k,
        {
            let row = k / 8;
            let col = k % 8;
            let pixels = self.ram.read(base + row);
            if (pixels >> (7 - col as u8)) & 1 == 1 {
                let px = (vx + col) % SCREEN_WIDTH;
                let py = (vy + row) % SCREEN_HEIGHT;
                let lit = self.screen.pixel(px, py);
                flipped = flipped || lit;
                self.screen.set_pixel(px, py, !lit);
            }
            k = k + 1;
        }
        self.v_reg[FLAG_REG] = if flipped { 1 } else { 0 };
    }

    /// Stores `V0..=Vx` in memory from `I` on.
    fn store_regs(&mut self, x: usize)
        requires
            old(self).wf(),
            x < NUM_REGS,
            old(self).i_reg + x + 1 <= RAM_SIZE,
        ensures
            final(self).wf(),
            final(self)@ == (Chip8State {
                mem: Seq::new(
                    RAM_SIZE as nat,
                    |j: int|
                        if old(self).i_reg <= j <= old(self).i_reg + x {
                            old(self)@.v[j - old(self).i_reg]
                        } else {
                            old(self)@.mem[j]
                        },
                ),
                ..old(self)@
            }),
    {
        let base = self.i_reg as usize;
        let mut idx: usize = 0;
        while idx <= x
            invariant
                idx <= x + 1,
                x < NUM_REGS,
                base == old(self).i_reg,
                base + x + 1 <= RAM_SIZE,
                self@.mem.len() == RAM_SIZE,
                self@ == (Chip8State { mem: self@.mem, ..old(self)@ }),
                forall|j: int|
                    0 <= j < RAM_SIZE ==> #[trigger] self@.mem[j] == if base <= j < base + idx {
                        old(self)@.v[j - base]
                    } else {
                        old(self)@.mem[j]
                    },
            decreases x + 1 - idx,
        {
            self.ram.write(base + idx, self.v_reg[idx]);
            idx = idx + 1;
        }
        assert(self@.mem =~= Seq::new(
            RAM_SIZE as nat,
            |j: int|
                if old(self).i_reg <= j <= old(self).i_reg + x {
                    old(self)@.v[j - old(self).i_reg]
                } else {
                    old(self)@.mem[j]
                },
        ));
    }

    /// Loads `V0..=Vx` from memory from `I` on.
    fn load_regs(&mut self, x: usize)
        requires
            old(self).wf(),
            x < NUM_REGS,
            old(self).i_reg + x + 1 <= RAM_SIZE,
        ensures
            final(self).wf(),
            final(self)@ == (Chip8State {
                v: Seq::new(
                    NUM_REGS as nat,
                    |j: int|
                        if j <= x {
                            old(self)@.mem[old(self).i_reg + j]
                        } else {
                            old(self)@.v[j]
                        },
                ),
                ..old(self)@
            }),
    {
        let base = self.i_reg as usize;
        let mut idx: usize = 0;
        while idx <= x
            invariant
                idx <= x + 1,
                x < NUM_REGS,
                base == old(self).i_reg,
                base + x + 1 <= RAM_SIZE,
                self@.v.len() == NUM_REGS,
                self@ == (Chip8State { v: self@.v, ..old(self)@ }),
                forall|j: int|
                    0 <= j < NUM_REGS ==> #[trigger] self@.v[j] == if j < idx {
                        old(self)@.mem[base + j]
                    } else {
                        old(self)@.v[j]
                    },
            decreases x + 1 - idx,
        {
            let b = self.ram.read(base + idx);
            self.v_reg[idx] = b;
            idx = idx + 1;
        }
        assert(self@.v =~= Seq::new(
            NUM_REGS as nat,
            |j: int|
                if j <= x {
                    old(self)@.mem[old(self).i_reg + j]
                } else {
                    old(self)@.v[j]
                },
        ));
    }
}

} // verus!

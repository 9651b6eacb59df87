use vstd::prelude::*;

use vstd::arithmetic::div_mod::{lemma_fundamental_div_mod, lemma_fundamental_div_mod_converse};

use crate::display::{blank_screen, pixel_index, SCREEN_PIXELS};
use crate::error::Chip8Error;
use crate::instruction::{decode_spec, nib1, nib2, nib3, nib4, Instruction};
use crate::keypad::NUM_KEYS;
use crate::ram::{RAM_SIZE, STACK_SIZE};
use crate::semantics::{
    draw_spec, fetch_spec, first_pressed, sprite_bit, step, timers_ticked, tone_ends, Chip8State, TickOutcome, FLAG_REG,
};

verus! {

/// The word stored big-endian at `pc` in `s` is `op`.
pub open spec fn word_at(s: Chip8State, pc: int, op: int) -> bool {
    &&& 0 <= pc
    &&& pc + 1 < RAM_SIZE
    &&& s.mem[pc] == op / 0x100
    &&& s.mem[pc + 1] == op % 0x100
}

proof fn lemma_fetched(s: Chip8State, op: int)
    requires
        s.wf(),
        0 <= op < 0x10000,
        word_at(s, s.pc as int, op),
    ensures
        fetch_spec(s) == Ok::<u16, Chip8Error>(op as u16),
{
}

proof fn lemma_nibbles(a: int, b: int, c: int, d: int)
    requires
        0 <= a < 16,
        0 <= b < 16,
        0 <= c < 16,
        0 <= d < 16,
    ensures
        ({
            let op = (0x1000 * a + 0x100 * b + 0x10 * c + d) as u16;
            &&& op as int == 0x1000 * a + 0x100 * b + 0x10 * c + d
            &&& nib1(op) == a
            &&& nib2(op) == b
            &&& nib3(op) == c
            &&& nib4(op) == d
            &&& op as int % 0x1000 == 0x100 * b + 0x10 * c + d
            &&& op as int % 0x100 == 0x10 * c + d
        }),
{
    let v = 0x1000 * a + 0x100 * b + 0x10 * c + d;
    lemma_fundamental_div_mod_converse(v, 0x1000, a, 0x100 * b + 0x10 * c + d);
    lemma_fundamental_div_mod_converse(v, 0x100, 0x10 * a + b, 0x10 * c + d);
    lemma_fundamental_div_mod_converse(0x10 * a + b, 0x10, a, b);
    lemma_fundamental_div_mod_converse(v, 0x10, 0x100 * a + 0x10 * b + c, d);
    lemma_fundamental_div_mod_converse(0x100 * a + 0x10 * b + c, 0x10, 0x10 * a + b, c);
}

/// Adding with carry: with `Vx = 0xFF` and `Vy = 0x01`, `8xy4` leaves
/// `Vx = 0x00` and `VF = 1`. (For `x = F` the flag is written last, so
/// `VF` ends as 1 there.)
pub proof fn lemma_add_overflow_sets_carry(s: Chip8State, x: int, y: int, rnd: u8)
    requires
        s.wf(),
        0 <= x < FLAG_REG,
        0 <= y < 16,
        s.v[x] == 0xFF,
        s.v[y] == 0x01,
        word_at(s, s.pc as int, 0x8004 + 0x100 * x + 0x10 * y),
    ensures
        ({
            let (t, r) = step(s, rnd);
            &&& r == Ok::<TickOutcome, Chip8Error>(TickOutcome::Executed)
            &&& t.v[x] == 0x00
            &&& t.v[FLAG_REG as int] == 1
            &&& t.pc == s.pc + 2
        }),
{
    let op = (0x8004 + 0x100 * x + 0x10 * y) as u16;
    lemma_nibbles(8, x, y, 4);
    lemma_fetched(s, op as int);
    assert(decode_spec(op) == Some(Instruction::AddReg { x: x as usize, y: y as usize }));
}

/// Subtracting with borrow: with `Vx = 0x01` and `Vy = 0x02`, `8xy5`
/// leaves `Vx = 0xFF` and `VF = 0`. (For `x = F` the flag is written last.)
pub proof fn lemma_sub_borrow_clears_flag(s: Chip8State, x: int, y: int, rnd: u8)
    requires
        s.wf(),
        0 <= x < FLAG_REG,
        0 <= y < 16,
        s.v[x] == 0x01,
        s.v[y] == 0x02,
        word_at(s, s.pc as int, 0x8005 + 0x100 * x + 0x10 * y),
    ensures
        ({
            let (t, r) = step(s, rnd);
            &&& r == Ok::<TickOutcome, Chip8Error>(TickOutcome::Executed)
            &&& t.v[x] == 0xFF
            &&& t.v[FLAG_REG as int] == 0
            &&& t.pc == s.pc + 2
        }),
{
    let op = (0x8005 + 0x100 * x + 0x10 * y) as u16;
    lemma_nibbles(8, x, y, 5);
    lemma_fetched(s, op as int);
    assert(decode_spec(op) == Some(Instruction::SubReg { x: x as usize, y: y as usize }));
}

/// Clearing the screen: after `00E0` every pixel is off.
pub proof fn lemma_clear_blanks_screen(s: Chip8State, rnd: u8)
    requires
        s.wf(),
        word_at(s, s.pc as int, 0x00E0),
    ensures
        ({
            let (t, r) = step(s, rnd);
            &&& r == Ok::<TickOutcome, Chip8Error>(TickOutcome::Executed)
            &&& t.screen == blank_screen()
            &&& t.screen.len() == SCREEN_PIXELS
            &&& forall|j: int| 0 <= j < SCREEN_PIXELS ==> !#[trigger] t.screen[j]
        }),
{
    lemma_fetched(s, 0x00E0);
}

/// A call followed by a return: `2nnn` at `pc`, then `00EE` at `nnn`,
/// brings execution back to the instruction after the call, with the call
/// stack as it was.
pub proof fn lemma_call_then_return(s: Chip8State, nnn: int, rnd1: u8, rnd2: u8)
    requires
        s.wf(),
        0 <= nnn < 0x1000,
        s.stack.len() < STACK_SIZE,
        word_at(s, s.pc as int, 0x2000 + nnn),
        word_at(s, nnn, 0x00EE),
    ensures
        ({
            let (t, r1) = step(s, rnd1);
            let (u, r2) = step(t, rnd2);
            &&& r1 == Ok::<TickOutcome, Chip8Error>(TickOutcome::Executed)
            &&& r2 == Ok::<TickOutcome, Chip8Error>(TickOutcome::Executed)
            &&& t.pc == nnn
            &&& u.pc == s.pc + 2
            &&& u.stack == s.stack
        }),
{
    let op = (0x2000 + nnn) as u16;
    lemma_nibbles(2, nnn / 0x100, (nnn / 0x10) % 0x10, nnn % 0x10);
    lemma_fetched(s, op as int);
    assert(decode_spec(op) == Some(Instruction::Call { nnn: nnn as u16 }));
    let t = step(s, rnd1).0;
    assert(t.stack == s.stack.push((s.pc + 2) as u16));
    assert(t.mem == s.mem);
    lemma_fetched(t, 0x00EE);
    assert(t.stack.drop_last() =~= s.stack);
}

/// Storing decimal digits: with `Vx = 157`, `Fx33` writes 1, 5 and 7 at
/// `I`, `I + 1` and `I + 2`.
pub proof fn lemma_bcd_of_157(s: Chip8State, x: int, rnd: u8)
    requires
        s.wf(),
        0 <= x < 16,
        s.v[x] == 157,
        s.i + 2 < RAM_SIZE,
        word_at(s, s.pc as int, 0xF033 + 0x100 * x),
    ensures
        ({
            let (t, r) = step(s, rnd);
            &&& r == Ok::<TickOutcome, Chip8Error>(TickOutcome::Executed)
            &&& t.mem[s.i as int] == 1
            &&& t.mem[s.i + 1] == 5
            &&& t.mem[s.i + 2] == 7
        }),
{
    let op = (0xF033 + 0x100 * x) as u16;
    lemma_nibbles(0xF, x, 3, 3);
    lemma_fetched(s, op as int);
    assert(decode_spec(op) == Some(Instruction::StoreBcd { x: x as usize }));
}

proof fn lemma_none_pressed(keys: Seq<bool>, k: int)
    requires
        keys.len() == NUM_KEYS,
        0 <= k <= NUM_KEYS,
        forall|j: int| 0 <= j < NUM_KEYS ==> !#[trigger] keys[j],
    ensures
        first_pressed(keys, k) == NUM_KEYS,
    decreases NUM_KEYS - k,
{
    if k < NUM_KEYS {
        lemma_none_pressed(keys, k + 1);
    }
}

/// Waiting for a key with none held down: `Fx0A` reports that it is
/// waiting and leaves the whole machine as it was, the program counter
/// still on the `Fx0A`, so the next cycle runs it again.
pub proof fn lemma_wait_key_without_keys(s: Chip8State, x: int, rnd: u8)
    requires
        s.wf(),
        0 <= x < 16,
        forall|j: int| 0 <= j < NUM_KEYS ==> !#[trigger] s.keys[j],
        word_at(s, s.pc as int, 0xF00A + 0x100 * x),
    ensures
        ({
            let (t, r) = step(s, rnd);
            &&& r == Ok::<TickOutcome, Chip8Error>(TickOutcome::WaitingForKey)
            &&& t == s
        }),
{
    let op = (0xF00A + 0x100 * x) as u16;
    lemma_nibbles(0xF, x, 0, 0xA);
    lemma_fetched(s, op as int);
    assert(decode_spec(op) == Some(Instruction::WaitKey { x: x as usize }));
    lemma_none_pressed(s.keys, 0);
}

/// The tone ends once: a timer tick with the sound timer at 1 brings it to
/// 0 and ends the tone, and the tick after that ends nothing; with the
/// sound timer at 0 a tick keeps it at 0 and ends nothing.
pub proof fn lemma_tone_ends_once(s: Chip8State)
    ensures
        s.st == 1 ==> tone_ends(s) && timers_ticked(s).st == 0 && !tone_ends(timers_ticked(s)),
        s.st == 0 ==> !tone_ends(s) && timers_ticked(s).st == 0,
{
}

proof fn lemma_full_row_from_right_edge(sc: Seq<bool>, mem: Seq<u8>, i: int, k: nat)
    requires
        sc.len() == SCREEN_PIXELS,
        0 <= i < mem.len(),
        forall|c: int| 0 <= c < 8 ==> sprite_bit(mem[i], c),
        k <= 8,
    ensures
        ({
            let (scr, flipped) = draw_spec(sc, mem, i, 63, 0, k);
            &&& scr.len() == SCREEN_PIXELS
            &&& scr[63] == if k >= 1 { !sc[63] } else { sc[63] }
            &&& forall|c: int| 0 <= c < 63 ==> #[trigger] scr[c] == if c < k - 1 { !sc[c] } else { sc[c] }
            &&& flipped == ((k >= 1 && sc[63]) || exists|c: int| 0 <= c < k - 1 && #[trigger] sc[c])
        }),
    decreases k,
{
    if k > 0 {
        lemma_full_row_from_right_edge(sc, mem, i, (k - 1) as nat);
        let (scr, flipped) = draw_spec(sc, mem, i, 63, 0, (k - 1) as nat);
        assert(sprite_bit(mem[i + (k - 1) / 8], (k - 1) % 8));
        if k >= 2 {
            assert(pixel_index((63 + (k - 1) % 8) % 64, (0 + (k - 1) / 8) % 32) == k - 2);
            let (scr2, flipped2) = draw_spec(sc, mem, i, 63, 0, k);
            if flipped2 && !((k >= 1 && sc[63]) || exists|c: int| 0 <= c < k - 2 && #[trigger] sc[c]) {
                assert(sc[k - 2]);
            }
        } else {
            assert(pixel_index((63 + (k - 1) % 8) % 64, (0 + (k - 1) / 8) % 32) == 63);
        }
    }
}

/// Drawing wraps horizontally: a one-row sprite `0xFF` drawn at `(63, 0)`
/// over the pixels `(63, 0)` and `(0, 0)`, both off, lights both of them,
/// the second by wrapping around the right edge. When the other pixels it
/// covers, `(1, 0)` to `(6, 0)`, were off too, `VF` ends as 0.
pub proof fn lemma_draw_wraps_horizontally(s: Chip8State, x: int, y: int, rnd: u8)
    requires
        s.wf(),
        0 <= x < 16,
        0 <= y < 16,
        s.v[x] == 63,
        s.v[y] == 0,
        s.i < RAM_SIZE,
        s.mem[s.i as int] == 0xFF,
        !s.screen[pixel_index(63, 0)],
        !s.screen[pixel_index(0, 0)],
        word_at(s, s.pc as int, 0xD001 + 0x100 * x + 0x10 * y),
    ensures
        ({
            let (t, r) = step(s, rnd);
            &&& r == Ok::<TickOutcome, Chip8Error>(TickOutcome::Executed)
            &&& t.screen[pixel_index(63, 0)]
            &&& t.screen[pixel_index(0, 0)]
            &&& (forall|c: int| 1 <= c < 7 ==> !#[trigger] s.screen[pixel_index(c, 0)])
                ==> t.v[FLAG_REG as int] == 0
        }),
{
    let op = (0xD001 + 0x100 * x + 0x10 * y) as u16;
    lemma_nibbles(0xD, x, y, 1);
    lemma_fetched(s, op as int);
    assert(decode_spec(op) == Some(Instruction::Draw { x: x as usize, y: y as usize, n: 1 }));
    assert(forall|c: u8| c < 8 ==> (0xFFu8 >> c) & 1u8 == 1u8) by (bit_vector);
    assert forall|c: int| 0 <= c < 8 implies sprite_bit(s.mem[s.i as int], c) by {
        let sh = (7 - c) as u8;
        assert(sh < 8);
    }
    lemma_full_row_from_right_edge(s.screen, s.mem, s.i as int, 8);
    let (scr, flipped) = draw_spec(s.screen, s.mem, s.i as int, 63, 0, 8);
    assert(scr[0] == !s.screen[0]);
    if forall|c: int| 1 <= c < 7 ==> !#[trigger] s.screen[pixel_index(c, 0)] {
        assert forall|c: int| 0 <= c < 7 implies !#[trigger] s.screen[c] by {
            assert(pixel_index(c, 0) == c);
        }
    }
}

/// Whether a set bit of the `n`-row sprite at `i`, drawn with its corner at
/// `(vx, vy)`, lands on pixel `idx`, wrapping around the edges.
pub open spec fn sprite_covers(mem: Seq<u8>, i: int, vx: int, vy: int, n: int, idx: int) -> bool {
    exists|row: int, col: int|
        0 <= row < n && 0 <= col < 8 && #[trigger] sprite_bit(mem[i + row], col) && idx
            == pixel_index((vx + col) % 64, (vy + row) % 32)
}

spec fn target(vx: int, vy: int, j: int) -> int {
    pixel_index((vx + j % 8) % 64, (vy + j / 8) % 32)
}

spec fn hit(mem: Seq<u8>, i: int, j: int) -> bool {
    sprite_bit(mem[i + j / 8], j % 8)
}

spec fn covered_upto(mem: Seq<u8>, i: int, vx: int, vy: int, k: int, idx: int) -> bool {
    exists|j: int| 0 <= j < k && hit(mem, i, j) && #[trigger] target(vx, vy, j) == idx
}

proof fn lemma_target_injective(vx: int, vy: int, j1: int, j2: int)
    requires
        0 <= vx,
        0 <= vy,
        0 <= j1 < 128,
        0 <= j2 < 128,
        target(vx, vy, j1) == target(vx, vy, j2),
    ensures
        j1 == j2,
{
    lemma_fundamental_div_mod(j1, 8);
    lemma_fundamental_div_mod(j2, 8);
    lemma_fundamental_div_mod(vx + j1 % 8, 64);
    lemma_fundamental_div_mod(vx + j2 % 8, 64);
    lemma_fundamental_div_mod(vy + j1 / 8, 32);
    lemma_fundamental_div_mod(vy + j2 / 8, 32);
}

proof fn lemma_draw_upto(screen: Seq<bool>, mem: Seq<u8>, i: int, vx: int, vy: int, k: nat)
    requires
        screen.len() == SCREEN_PIXELS,
        0 <= vx,
        0 <= vy,
        k <= 128,
    ensures
        ({
            let (scr, flipped) = draw_spec(screen, mem, i, vx, vy, k);
            &&& scr.len() == SCREEN_PIXELS
            &&& forall|idx: int|
                0 <= idx < SCREEN_PIXELS ==> #[trigger] scr[idx] == (screen[idx] != covered_upto(
                    mem,
                    i,
                    vx,
                    vy,
                    k as int,
                    idx,
                ))
            &&& flipped == exists|j: int|
                0 <= j < k && hit(mem, i, j) && #[trigger] screen[target(vx, vy, j)]
        }),
    decreases k,
{
    if k > 0 {
        let p = (k - 1) as nat;
        lemma_draw_upto(screen, mem, i, vx, vy, p);
        let (scr, flipped) = draw_spec(screen, mem, i, vx, vy, p);
        let (scr2, flipped2) = draw_spec(screen, mem, i, vx, vy, k);
        let t = target(vx, vy, p as int);
        assert(0 <= t < SCREEN_PIXELS);
        assert forall|idx: int| 0 <= idx < SCREEN_PIXELS && idx != t implies covered_upto(
            mem,
            i,
            vx,
            vy,
            k as int,
            idx,
        ) == covered_upto(mem, i, vx, vy, p as int, idx) by {
            if covered_upto(mem, i, vx, vy, k as int, idx) {
                let j = choose|j: int|
                    0 <= j < k && hit(mem, i, j) && #[trigger] target(vx, vy, j) == idx;
                assert(j != p);
            }
        }
        if hit(mem, i, p as int) {
            if covered_upto(mem, i, vx, vy, p as int, t) {
                let j = choose|j: int|
                    0 <= j < p && hit(mem, i, j) && #[trigger] target(vx, vy, j) == t;
                lemma_target_injective(vx, vy, j, p as int);
            }
            assert(covered_upto(mem, i, vx, vy, k as int, t)) by {
                assert(target(vx, vy, p as int) == t);
            }
            assert(scr[t] == screen[t]);
            if flipped2 && !flipped {
                assert(screen[target(vx, vy, p as int)]);
            }
            if exists|j: int| 0 <= j < k && hit(mem, i, j) && #[trigger] screen[target(vx, vy, j)] {
                let j = choose|j: int|
                    0 <= j < k && hit(mem, i, j) && #[trigger] screen[target(vx, vy, j)];
                if j < p {
                    assert(flipped);
                }
            }
        } else {
            assert forall|idx: int| 0 <= idx < SCREEN_PIXELS implies covered_upto(
                mem,
                i,
                vx,
                vy,
                k as int,
                idx,
            ) == covered_upto(mem, i, vx, vy, p as int, idx) by {
                if covered_upto(mem, i, vx, vy, k as int, idx) {
                    let j = choose|j: int|
                        0 <= j < k && hit(mem, i, j) && #[trigger] target(vx, vy, j) == idx;
                    assert(j != p);
                }
            }
            if exists|j: int| 0 <= j < k && hit(mem, i, j) && #[trigger] screen[target(vx, vy, j)] {
                let j = choose|j: int|
                    0 <= j < k && hit(mem, i, j) && #[trigger] screen[target(vx, vy, j)];
                assert(j != p);
                assert(flipped);
            }
        }
    }
}

/// Drawing flips exactly the covered pixels: drawing an `n`-row sprite
/// turns each pixel over exactly when a set bit of the sprite lands on it,
/// and reports a collision exactly when one of those pixels was lit before.
pub proof fn lemma_draw_flips_covered_pixels(
    screen: Seq<bool>,
    mem: Seq<u8>,
    i: int,
    vx: int,
    vy: int,
    n: int,
)
    requires
        screen.len() == SCREEN_PIXELS,
        0 <= vx,
        0 <= vy,
        0 <= n < 16,
    ensures
        ({
            let (scr, flipped) = draw_spec(screen, mem, i, vx, vy, (8 * n) as nat);
            &&& scr.len() == SCREEN_PIXELS
            &&& forall|idx: int|
                0 <= idx < SCREEN_PIXELS ==> #[trigger] scr[idx] == (screen[idx] != sprite_covers(
                    mem,
                    i,
                    vx,
                    vy,
                    n,
                    idx,
                ))
            &&& flipped == exists|idx: int|
                0 <= idx < SCREEN_PIXELS && sprite_covers(mem, i, vx, vy, n, idx)
                    && #[trigger] screen[idx]
        }),
{
    let k = (8 * n) as nat;
    lemma_draw_upto(screen, mem, i, vx, vy, k);
    let (scr, flipped) = draw_spec(screen, mem, i, vx, vy, k);
    assert forall|idx: int| 0 <= idx < SCREEN_PIXELS implies #[trigger] sprite_covers(
        mem,
        i,
        vx,
        vy,
        n,
        idx,
    ) == covered_upto(mem, i, vx, vy, k as int, idx) by {
        if sprite_covers(mem, i, vx, vy, n, idx) {
            let (row, col) = choose|row: int, col: int|
                0 <= row < n && 0 <= col < 8 && #[trigger] sprite_bit(mem[i + row], col) && idx
                    == pixel_index((vx + col) % 64, (vy + row) % 32);
            let j = 8 * row + col;
            lemma_fundamental_div_mod_converse(j, 8, row, col);
            assert(hit(mem, i, j) && target(vx, vy, j) == idx);
        }
        if covered_upto(mem, i, vx, vy, k as int, idx) {
            let j = choose|j: int|
                0 <= j < k && hit(mem, i, j) && #[trigger] target(vx, vy, j) == idx;
            lemma_fundamental_div_mod(j, 8);
            assert(sprite_bit(mem[i + j / 8], j % 8));
        }
    }
    if flipped {
        let j = choose|j: int| 0 <= j < k && hit(mem, i, j) && #[trigger] screen[target(vx, vy, j)];
        let idx = target(vx, vy, j);
        assert(covered_upto(mem, i, vx, vy, k as int, idx));
        assert(sprite_covers(mem, i, vx, vy, n, idx));
    }
    if exists|idx: int|
        0 <= idx < SCREEN_PIXELS && sprite_covers(mem, i, vx, vy, n, idx) && #[trigger] screen[idx] {
        let idx = choose|idx: int|
            0 <= idx < SCREEN_PIXELS && sprite_covers(mem, i, vx, vy, n, idx) && #[trigger] screen[idx];
        assert(covered_upto(mem, i, vx, vy, k as int, idx));
        let j = choose|j: int|
            0 <= j < k && hit(mem, i, j) && #[trigger] target(vx, vy, j) == idx;
        assert(screen[target(vx, vy, j)]);
    }
}

} // verus!

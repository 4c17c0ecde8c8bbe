use vstd::prelude::*;

verus! {

use crate::decode::{kk_of, nib0, nib1, word_of, lemma_word_fields};
use crate::model::{
    first_key, first_key_from, instr_spec, key_down, some_key_down, state_inv, step_spec, State,
    StepError,
};
use crate::screen::{collision_spec, covered, draw_grid_spec, drawn_hit, grid_wf, sprite_row_bit};

/// Law: `6XKK` stores KK in VX, for every machine state, every register
/// index X in 0..15 and every immediate KK, and advances the program
/// counter past the instruction.
pub proof fn lemma_load_immediate(s: State, x: u8, kk: u8, rb: u8)
    requires
        state_inv(s),
        s.pc <= 4094,
        x < 16,
    ensures
        instr_spec(s, word_of(0x6, x, kk / 16, kk % 16), rb) matches Ok(m) && m.v[x as int] == kk
            && m.pc == s.pc + 2,
{
    lemma_word_fields(0x6, x, kk / 16, kk % 16);
}

/// Law: after `8XY4` the flag register V15 is 1 exactly when the byte sum
/// overflows 255, and VX holds the wrapped sum, for all byte pairs. The
/// destination must not itself be the flag register, which the sum would
/// overwrite.
pub proof fn lemma_add_carry(s: State, x: u8, y: u8, rb: u8)
    requires
        state_inv(s),
        s.pc <= 4094,
        x < 15,
        y < 16,
    ensures
        ({
            let a = s.v[x as int];
            let b = s.v[y as int];
            instr_spec(s, word_of(0x8, x, y, 0x4), rb) matches Ok(m) && m.v[15] == (
            if a + b > 255 {
                1u8
            } else {
                0u8
            }) && m.v[x as int] == ((a + b) % 256) as u8 && m.pc == s.pc + 2
        }),
{
    lemma_word_fields(0x8, x, y, 0x4);
}

/// Law: drawing the same sprite twice at the same position restores every
/// pixel of the grid, whatever the grid and the sprite hold.
pub proof fn lemma_draw_twice_restores(g: Seq<Seq<bool>>, x: int, y: int, sprite: Seq<u8>)
    requires
        grid_wf(g),
    ensures
        draw_grid_spec(draw_grid_spec(g, x, y, sprite), x, y, sprite) =~~= g,
{
    let g1 = draw_grid_spec(g, x, y, sprite);
    let g2 = draw_grid_spec(g1, x, y, sprite);
    assert forall|r: int| 0 <= r < 32 implies #[trigger] g2[r] =~= g[r] by {
        assert forall|c: int| 0 <= c < 64 implies #[trigger] g2[r][c] == g[r][c] by {}
    }
}

/// Law: where a sprite's visible pixels land on clear cells only, the
/// first draw reports no collision and drawing the same sprite again at
/// the same place reports one (the first draw set those pixels, so the
/// second turns them off).
pub proof fn lemma_draw_twice_collides(g: Seq<Seq<bool>>, x: int, y: int, sprite: Seq<u8>)
    requires
        grid_wf(g),
        forall|r: int, c: int|
            #[trigger] covered(x, y, sprite.len() as int, 0, r, c) && 0 <= r < 32 && 0 <= c < 64
                ==> !g[r][c],
        exists|r: int, c: int|
            #[trigger] covered(x, y, sprite.len() as int, 0, r, c) && 0 <= r < 32 && 0 <= c < 64
                && sprite_row_bit(sprite[r - y], c - x),
    ensures
        !collision_spec(g, x, y, sprite),
        collision_spec(draw_grid_spec(g, x, y, sprite), x, y, sprite),
{
    let rows = sprite.len() as int;
    if collision_spec(g, x, y, sprite) {
        let (r, c) = choose|r: int, c: int|
            #[trigger] covered(x, y, rows, 0, r, c) && 0 <= r < 32 && 0 <= c < 64 && g[r][c]
                && sprite_row_bit(sprite[r - y], c - x);
        assert(!g[r][c]);
    }
    let g1 = draw_grid_spec(g, x, y, sprite);
    let (r, c) = choose|r: int, c: int|
        #[trigger] covered(x, y, rows, 0, r, c) && 0 <= r < 32 && 0 <= c < 64 && sprite_row_bit(
            sprite[r - y],
            c - x,
        );
    assert(g1[r][c]);
    assert(drawn_hit(g1, x, y, sprite, rows, 0));
}

/// Law: a call (`2NNN`) followed by a return (`00EE`) resumes at the
/// address immediately after the call instruction, with the stack and the
/// registers as they were.
pub proof fn lemma_call_return(s: State, w: u16, rb1: u8, rb2: u8)
    requires
        state_inv(s),
        s.pc <= 4094,
        nib0(w) == 0x2,
        s.stack.len() < 16,
    ensures
        instr_spec(s, w, rb1) matches Ok(s1) && instr_spec(s1, 0x00EE, rb2) matches Ok(s2)
            && s2.pc == s.pc + 2 && s2.stack =~= s.stack && s2.v =~= s.v && s2.ram =~= s.ram,
{
}

/// Law: while the machine awaits a key and none is pressed, a step changes
/// nothing at all.
pub proof fn lemma_wait_blocks(s: State, x: u8, rb: u8)
    requires
        state_inv(s),
        s.waiting == Some(x),
        !some_key_down(s.keys),
    ensures
        step_spec(s, rb) == Ok::<State, StepError>(s),
{
}

/// Law: executing `FX0A` with no key pressed leaves the program counter,
/// the registers and all the rest unchanged, and records only the awaited
/// register.
pub proof fn lemma_key_wait_enters(s: State, w: u16, rb: u8)
    requires
        state_inv(s),
        s.waiting is None,
        s.pc <= 4094,
        nib0(w) == 0xF,
        kk_of(w) == 0x0A,
        !some_key_down(s.keys),
    ensures
        instr_spec(s, w, rb) matches Ok(m) && m =~~= (State { waiting: Some(nib1(w)), ..s }),
{
}

/// The lowest pressed key at or after `j` is `k`, when `k` is pressed and
/// nothing between `j` and `k` is.
proof fn lemma_first_key_step(keys: Seq<bool>, k: u8, j: int)
    requires
        0 <= j <= k < 16,
        keys[k as int],
        forall|t: int| j <= t < k ==> !keys[t],
    ensures
        first_key_from(keys, j) == k,
    decreases k - j,
{
    if j < k {
        lemma_first_key_step(keys, k, j + 1);
    }
}

/// Law: once key `k` is pressed (and no lower-numbered key is), the next
/// step while awaiting stores `k` in the awaited register, advances the
/// program counter by two and leaves the awaiting state.
pub proof fn lemma_wait_resumes(s: State, x: u8, k: u8, rb: u8)
    requires
        state_inv(s),
        s.waiting == Some(x),
        key_down(s.keys, k),
        forall|j: int| 0 <= j < k ==> !s.keys[j],
    ensures
        step_spec(s, rb) matches Ok(m) && m.v[x as int] == k && m.pc == s.pc + 2 && m.waiting
            is None,
{
    assert(0 <= k < 16 && s.keys[k as int]);
    assert(some_key_down(s.keys));
    lemma_first_key_step(s.keys, k, 0);
    assert(first_key(s.keys) == k);
}

/// Law: `7XKK` adds the immediate into VX modulo 256 and defines no flag,
/// for every machine state, register index and immediate.
pub proof fn lemma_add_immediate_wraps(s: State, x: u8, kk: u8, rb: u8)
    requires
        state_inv(s),
        s.pc <= 4094,
        x < 16,
    ensures
        instr_spec(s, word_of(0x7, x, kk / 16, kk % 16), rb) matches Ok(m) && m.v[x as int] == ((
        s.v[x as int] + kk) % 256) as u8 && (x != 15 ==> m.v[15] == s.v[15]) && m.pc == s.pc + 2,
{
    lemma_word_fields(0x7, x, kk / 16, kk % 16);
}

/// Law: the three bytes the BCD instruction stores are decimal digits and
/// recombine to the register's value.
pub proof fn lemma_bcd_digits(b: u8)
    ensures
        b / 100 < 10,
        (b / 10) % 10 < 10,
        b % 10 < 10,
        100 * (b / 100) + 10 * ((b / 10) % 10) + (b % 10) == b,
{
    assert(100 * (b / 100) + 10 * ((b / 10) % 10) + (b % 10) == b) by (bit_vector);
}

} // verus!

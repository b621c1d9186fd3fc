use vstd::prelude::*;

use super::cpu::{decode_spec, lemma_decode_bounds, lemma_wrap_offset};
use super::model::{
    blank_screen, can_execute, collides, drawn_screen, flag, model_wf, screen_wf,
    sprite_bit, step_spec, CpuModel,
};

verus! {

proof fn lemma_sprite_bit_is_bit(mem: Seq<u8>, i: int, n: int, vx: int, vy: int, r: int, c: int)
    ensures
        sprite_bit(mem, i, n, vx, vy, r, c) <= 1,
{
    let b = (r - vy) % 32;
    let t = (c - vx) % 64;
    if b < n && t < 8 {
        let byte = mem[i + b];
        let k = (7 - t) as u8;
        assert((byte >> k) & 1u8 <= 1) by (bit_vector);
    }
}

proof fn lemma_xor_bits(p: u8, q: u8)
    requires
        p <= 1,
        q <= 1,
    ensures
        p ^ q <= 1,
        (p ^ q) ^ q == p,
        (p ^ q == 1 && q == 1) <==> (p == 0 && q == 1),
{
    assert(p <= 1 && q <= 1 ==> p ^ q <= 1) by (bit_vector);
    assert((p ^ q) ^ q == p) by (bit_vector);
    assert(p <= 1 && q <= 1 ==> ((p ^ q == 1 && q == 1) <==> (p == 0 && q == 1))) by (bit_vector);
}

proof fn lemma_drawn_screen_wf(g: Seq<Seq<u8>>, mem: Seq<u8>, i: int, n: int, vx: int, vy: int)
    requires
        screen_wf(g),
    ensures
        screen_wf(drawn_screen(g, mem, i, n, vx, vy)),
{
    let d = drawn_screen(g, mem, i, n, vx, vy);
    assert forall|r: int, c: int| 0 <= r < 32 && 0 <= c < 64 implies #[trigger] d[r][c] <= 1 by {
        lemma_sprite_bit_is_bit(mem, i, n, vx, vy, r, c);
        lemma_xor_bits(g[r][c], sprite_bit(mem, i, n, vx, vy, r, c));
    }
}

/// Every cycle keeps the machine well formed: memory, registers, stack and
/// keypad keep their sizes, the stack pointer stays below the stack's size,
/// and every framebuffer pixel stays 0 or 1.
pub proof fn lemma_step_preserves_wf(s: CpuModel, raw: u16, random: u8)
    requires
        model_wf(s),
        can_execute(s, raw),
    ensures
        model_wf(step_spec(s, raw, random)),
{
    let op = decode_spec(raw);
    lemma_decode_bounds(raw);
    if op.nibbles.0 == 0xD {
        lemma_drawn_screen_wf(
            s.graphics,
            s.memory,
            s.i as int,
            op.n as int,
            s.v[op.x as int] as int,
            s.v[op.y as int] as int,
        );
    }
    if op.nibbles == (0u8, 0u8, 0xEu8, 0x0u8) {
        assert(screen_wf(blank_screen()));
    }
}

/// After an add, subtract, shift or draw instruction, `VF` holds 0 or 1. For
/// the subtract and shift forms this needs a destination other than `VF`:
/// there the result is written to `VF` after the flag.
pub proof fn lemma_flag_is_bit(s: CpuModel, raw: u16, random: u8)
    requires
        model_wf(s),
        can_execute(s, raw),
        decode_spec(raw).nibbles.0 == 0xD || (decode_spec(raw).nibbles.0 == 8 && (decode_spec(
            raw,
        ).nibbles.3 == 4 || (decode_spec(raw).x != 0xF && (decode_spec(raw).nibbles.3 == 5
            || decode_spec(raw).nibbles.3 == 6 || decode_spec(raw).nibbles.3 == 7 || decode_spec(
            raw,
        ).nibbles.3 == 0xE)))),
    ensures
        step_spec(s, raw, random).v[0xF] <= 1,
{
    lemma_decode_bounds(raw);
    let vx = s.v[decode_spec(raw).x as int];
    assert(vx & 1u8 <= 1) by (bit_vector);
    assert(vx >> 7u8 <= 1) by (bit_vector);
}

/// Storing `V0..=Vx` at `I` and then loading `V0..=Vx` from `I` gives back
/// the registers as they were.
pub proof fn lemma_store_load_round_trip(s: CpuModel, store: u16, load: u16, r1: u8, r2: u8)
    requires
        model_wf(s),
        decode_spec(store).nibbles.0 == 0xF,
        decode_spec(store).nibbles.2 == 5,
        decode_spec(store).nibbles.3 == 5,
        decode_spec(load).nibbles.0 == 0xF,
        decode_spec(load).nibbles.2 == 6,
        decode_spec(load).nibbles.3 == 5,
        decode_spec(store).x == decode_spec(load).x,
        can_execute(s, store),
        s.pc + 8 <= usize::MAX,
    ensures
        can_execute(step_spec(s, store, r1), load),
        step_spec(step_spec(s, store, r1), load, r2).v == s.v,
{
    lemma_decode_bounds(store);
    let s2 = step_spec(step_spec(s, store, r1), load, r2);
    assert(s2.v =~= s.v);
}

/// Clearing the screen twice leaves it as clearing it once does: all dark.
pub proof fn lemma_clear_idempotent(s: CpuModel, raw: u16, r1: u8, r2: u8)
    requires
        model_wf(s),
        decode_spec(raw).nibbles == (0u8, 0u8, 0xEu8, 0x0u8),
        can_execute(s, raw),
        s.pc + 8 <= usize::MAX,
    ensures
        can_execute(step_spec(s, raw, r1), raw),
        step_spec(s, raw, r1).graphics == blank_screen(),
        step_spec(step_spec(s, raw, r1), raw, r2).graphics == step_spec(s, raw, r1).graphics,
{
}

/// Drawing the same sprite twice at the same place gives the framebuffer
/// back as it was, and the second draw collides exactly where the sprite has
/// a set bit over a dark pixel. The coordinates must come from registers
/// other than `VF`, which the first draw overwrites.
pub proof fn lemma_draw_twice(s: CpuModel, raw: u16, r1: u8, r2: u8)
    requires
        model_wf(s),
        decode_spec(raw).nibbles.0 == 0xD,
        decode_spec(raw).x != 0xF,
        decode_spec(raw).y != 0xF,
        can_execute(s, raw),
        s.pc + 8 <= usize::MAX,
    ensures
        can_execute(step_spec(s, raw, r1), raw),
        step_spec(step_spec(s, raw, r1), raw, r2).graphics == s.graphics,
        step_spec(step_spec(s, raw, r1), raw, r2).v[0xF] == flag(
            exists|r: int, c: int|
                0 <= r < 32 && 0 <= c < 64 && #[trigger] sprite_bit(
                    s.memory,
                    s.i as int,
                    decode_spec(raw).n as int,
                    s.v[decode_spec(raw).x as int] as int,
                    s.v[decode_spec(raw).y as int] as int,
                    r,
                    c,
                ) == 1 && s.graphics[r][c] == 0,
        ),
{
    lemma_decode_bounds(raw);
    let op = decode_spec(raw);
    let (i, n, vx, vy) = (s.i as int, op.n as int, s.v[op.x as int] as int, s.v[op.y as int] as int);
    let s1 = step_spec(s, raw, r1);
    let s2 = step_spec(s1, raw, r2);
    let g1 = drawn_screen(s.graphics, s.memory, i, n, vx, vy);
    assert(s1.graphics == g1);
    assert(s1.v[op.x as int] as int == vx && s1.v[op.y as int] as int == vy);
    assert(s2.graphics == drawn_screen(g1, s.memory, i, n, vx, vy));
    assert forall|r: int, c: int| 0 <= r < 32 && 0 <= c < 64 implies {
        &&& #[trigger] s2.graphics[r][c] == s.graphics[r][c]
        &&& (sprite_bit(s.memory, i, n, vx, vy, r, c) == 1 && g1[r][c] == 1) <==> (sprite_bit(
            s.memory,
            i,
            n,
            vx,
            vy,
            r,
            c,
        ) == 1 && s.graphics[r][c] == 0)
    } by {
        lemma_sprite_bit_is_bit(s.memory, i, n, vx, vy, r, c);
        lemma_xor_bits(s.graphics[r][c], sprite_bit(s.memory, i, n, vx, vy, r, c));
    }
    assert forall|r: int| 0 <= r < 32 implies #[trigger] s2.graphics[r] =~= s.graphics[r] by {}
    assert(s2.graphics =~= s.graphics);
    if collides(g1, s.memory, i, n, vx, vy) {
        let (r0, c0) = choose|r: int, c: int|
            0 <= r < 32 && 0 <= c < 64 && #[trigger] sprite_bit(s.memory, i, n, vx, vy, r, c) == 1
                && g1[r][c] == 1;
        assert(sprite_bit(s.memory, i, n, vx, vy, r0, c0) == 1 && s.graphics[r0][c0] == 0);
    }
}

proof fn lemma_nonzero_byte_has_set_bit(x: u8) -> (t: int)
    requires
        x != 0,
    ensures
        0 <= t < 8,
        (x >> ((7 - t) as u8)) & 1u8 == 1,
{
    assert(x != 0 ==> ((x >> 7u8) & 1u8 == 1 || (x >> 6u8) & 1u8 == 1 || (x >> 5u8) & 1u8 == 1 || (x
        >> 4u8) & 1u8 == 1 || (x >> 3u8) & 1u8 == 1 || (x >> 2u8) & 1u8 == 1 || (x >> 1u8) & 1u8 == 1
        || (x >> 0u8) & 1u8 == 1)) by (bit_vector);
    if (x >> 7u8) & 1u8 == 1 {
        0
    } else if (x >> 6u8) & 1u8 == 1 {
        1
    } else if (x >> 5u8) & 1u8 == 1 {
        2
    } else if (x >> 4u8) & 1u8 == 1 {
        3
    } else if (x >> 3u8) & 1u8 == 1 {
        4
    } else if (x >> 2u8) & 1u8 == 1 {
        5
    } else if (x >> 1u8) & 1u8 == 1 {
        6
    } else {
        7
    }
}

/// On a blank framebuffer, drawing a sprite with a non-zero row twice at the
/// same place lights a pixel on the first draw, turns every pixel dark again
/// on the second, and the second draw sets `VF` to 1.
pub proof fn lemma_draw_twice_on_blank(s: CpuModel, raw: u16, r1: u8, r2: u8)
    requires
        model_wf(s),
        s.graphics == blank_screen(),
        decode_spec(raw).nibbles.0 == 0xD,
        decode_spec(raw).x != 0xF,
        decode_spec(raw).y != 0xF,
        can_execute(s, raw),
        s.pc + 8 <= usize::MAX,
        exists|b: int| 0 <= b < decode_spec(raw).n && #[trigger] s.memory[s.i + b] != 0,
    ensures
        exists|r: int, c: int|
            0 <= r < 32 && 0 <= c < 64 && #[trigger] step_spec(s, raw, r1).graphics[r][c] == 1,
        step_spec(step_spec(s, raw, r1), raw, r2).graphics == blank_screen(),
        step_spec(step_spec(s, raw, r1), raw, r2).v[0xF] == 1,
{
    lemma_decode_bounds(raw);
    lemma_draw_twice(s, raw, r1, r2);
    let op = decode_spec(raw);
    let (i, n, vx, vy) = (s.i as int, op.n as int, s.v[op.x as int] as int, s.v[op.y as int] as int);
    let b = choose|b: int| 0 <= b < n && #[trigger] s.memory[s.i + b] != 0;
    let t = lemma_nonzero_byte_has_set_bit(s.memory[i + b]);
    let r = (vy + b) % 32;
    let c = (vx + t) % 64;
    lemma_wrap_offset(vy, b, 32);
    lemma_wrap_offset(vx, t, 64);
    assert(sprite_bit(s.memory, i, n, vx, vy, r, c) == 1);
    assert(s.graphics[r][c] == 0);
    lemma_xor_bits(0, 1);
    assert(step_spec(s, raw, r1).graphics[r][c] == 1);
}

/// Whether every jump target that the word `raw` can produce in state `s` is even.
pub open spec fn jump_targets_even(s: CpuModel, raw: u16) -> bool {
    let op = decode_spec(raw);
    &&& (op.nibbles.0 == 1 || op.nibbles.0 == 2) ==> op.nnn % 2 == 0
    &&& op.nibbles.0 == 0xB ==> (op.nnn + s.v[0]) % 2 == 0
}

/// Whether the program counter and every return address on the stack are even.
pub open spec fn addresses_even(s: CpuModel) -> bool {
    &&& s.pc % 2 == 0
    &&& forall|k: int| 0 <= k < s.stack.len() ==> #[trigger] s.stack[k] % 2 == 0
}

/// A cycle keeps the program counter and the return addresses even, as long
/// as the program jumps only to even addresses.
pub proof fn lemma_step_keeps_addresses_even(s: CpuModel, raw: u16, random: u8)
    requires
        model_wf(s),
        can_execute(s, raw),
        addresses_even(s),
        jump_targets_even(s, raw),
    ensures
        addresses_even(step_spec(s, raw, random)),
{
    lemma_decode_bounds(raw);
}

} // verus!

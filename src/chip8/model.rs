use vstd::prelude::*;

use super::cpu::{decode_spec, ProgramCounterAction};

verus! {

pub const MEMORY_SIZE: usize = 4096;

pub const PROGRAM_START: usize = 0x200;

pub const SCREEN_ROWS: usize = 32;

pub const SCREEN_COLS: usize = 64;

/// The abstract state of the machine: what every instruction reads and writes.
pub struct CpuModel {
    pub memory: Seq<u8>,
    pub v: Seq<u8>,
    pub pc: usize,
    pub i: u16,
    pub graphics: Seq<Seq<u8>>,
    pub delay_timer: u8,
    pub sound_timer: u8,
    pub stack: Seq<usize>,
    pub sp: usize,
    pub key: Seq<bool>,
    pub wait_key: bool,
}

/// The glyphs of the hexadecimal digits 0 to F, five bytes each.
pub open spec fn font_spec() -> Seq<u8> {
    seq![
        0xF0u8, 0x90, 0x90, 0x90, 0xF0, 0x20, 0x60, 0x20, 0x20, 0x70, 0xF0, 0x10, 0xF0, 0x80,
        0xF0, 0xF0, 0x10, 0xF0, 0x10, 0xF0, 0x90, 0x90, 0xF0, 0x10, 0x10, 0xF0, 0x80, 0xF0,
        0x10, 0xF0, 0xF0, 0x80, 0xF0, 0x90, 0xF0, 0xF0, 0x10, 0x20, 0x40, 0x40, 0xF0, 0x90,
        0xF0, 0x90, 0xF0, 0xF0, 0x90, 0xF0, 0x10, 0xF0, 0xF0, 0x90, 0xF0, 0x90, 0x90, 0xE0,
        0x90, 0xE0, 0x90, 0xE0, 0xF0, 0x80, 0x80, 0x80, 0xF0, 0xE0, 0x90, 0x90, 0x90, 0xE0,
        0xF0, 0x80, 0xF0, 0x80, 0xF0, 0xF0, 0x80, 0xF0, 0x80, 0x80,
    ]
}

/// A framebuffer with every pixel dark.
pub open spec fn blank_screen() -> Seq<Seq<u8>> {
    Seq::new(SCREEN_ROWS as nat, |r: int| Seq::new(SCREEN_COLS as nat, |c: int| 0u8))
}

/// The state right after power-on: font at the bottom of memory, everything else zero.
pub open spec fn initial_model() -> CpuModel {
    CpuModel {
        memory: Seq::new(
            MEMORY_SIZE as nat,
            |a: int| if a < font_spec().len() { font_spec()[a] } else { 0u8 },
        ),
        v: Seq::new(16, |k: int| 0u8),
        pc: PROGRAM_START,
        i: 0,
        graphics: blank_screen(),
        delay_timer: 0,
        sound_timer: 0,
        stack: Seq::new(16, |k: int| 0usize),
        sp: 0,
        key: Seq::new(16, |k: int| false),
        wait_key: false,
    }
}

pub open spec fn screen_wf(g: Seq<Seq<u8>>) -> bool {
    &&& g.len() == SCREEN_ROWS
    &&& forall|r: int| 0 <= r < SCREEN_ROWS ==> #[trigger] g[r].len() == SCREEN_COLS
    &&& forall|r: int, c: int|
        0 <= r < SCREEN_ROWS && 0 <= c < SCREEN_COLS ==> #[trigger] g[r][c] <= 1
}

/// The shape every reachable state has.
pub open spec fn model_wf(s: CpuModel) -> bool {
    &&& s.memory.len() == MEMORY_SIZE
    &&& s.v.len() == 16
    &&& s.stack.len() == 16
    &&& s.key.len() == 16
    &&& s.sp < 16
    &&& screen_wf(s.graphics)
}

/// The bit of the sprite that lands on pixel (`r`, `c`), or 0 where the sprite
/// does not reach. Row `b` of the sprite is the byte at `i + b`; its bit `t`,
/// counted from the most significant one, goes to column `(vx + t) % 64` of
/// row `(vy + b) % 32`.
pub open spec fn sprite_bit(mem: Seq<u8>, i: int, n: int, vx: int, vy: int, r: int, c: int) -> u8 {
    let b = (r - vy) % (SCREEN_ROWS as int);
    let t = (c - vx) % (SCREEN_COLS as int);
    if b < n && t < 8 {
        (mem[i + b] >> ((7 - t) as u8)) & 1u8
    } else {
        0u8
    }
}

/// The framebuffer after XOR-ing the sprite onto it.
pub open spec fn drawn_screen(g: Seq<Seq<u8>>, mem: Seq<u8>, i: int, n: int, vx: int, vy: int) -> Seq<
    Seq<u8>,
> {
    Seq::new(
        SCREEN_ROWS as nat,
        |r: int| Seq::new(SCREEN_COLS as nat, |c: int| g[r][c] ^ sprite_bit(mem, i, n, vx, vy, r, c)),
    )
}

/// Whether the sprite turns off a pixel that was lit.
pub open spec fn collides(g: Seq<Seq<u8>>, mem: Seq<u8>, i: int, n: int, vx: int, vy: int) -> bool {
    exists|r: int, c: int|
        0 <= r < SCREEN_ROWS && 0 <= c < SCREEN_COLS && #[trigger] sprite_bit(mem, i, n, vx, vy, r, c)
            == 1 && g[r][c] == 1
}

/// The lowest index at or above `from` of a pressed key, or the number of keys if none is.
pub open spec fn first_pressed(key: Seq<bool>, from: int) -> int
    decreases key.len() - from,
{
    if from < 0 || from >= key.len() {
        key.len() as int
    } else if key[from] {
        from
    } else {
        first_pressed(key, from + 1)
    }
}

pub open spec fn flag(b: bool) -> u8 {
    if b {
        1
    } else {
        0
    }
}

/// What the draw instruction does to the state: XOR the `n`-byte sprite at `I`
/// onto the framebuffer at (`Vx`, `Vy`), and set `VF` to whether it collided.
pub open spec fn draw_spec(s: CpuModel, x: int, y: int, n: int) -> CpuModel {
    let vx = s.v[x] as int;
    let vy = s.v[y] as int;
    let i = s.i as int;
    CpuModel {
        graphics: drawn_screen(s.graphics, s.memory, i, n, vx, vy),
        v: s.v.update(0xF, flag(collides(s.graphics, s.memory, i, n, vx, vy))),
        ..s
    }
}

/// The memory after storing `V0..=Vx` at `I`.
pub open spec fn stored_registers(s: CpuModel, x: int) -> Seq<u8> {
    Seq::new(
        s.memory.len(),
        |a: int| if s.i <= a <= s.i + x { s.v[a - s.i] } else { s.memory[a] },
    )
}

/// The registers after loading `V0..=Vx` from `I`.
pub open spec fn loaded_registers(s: CpuModel, x: int) -> Seq<u8> {
    Seq::new(s.v.len(), |k: int| if k <= x { s.memory[s.i + k] } else { s.v[k] })
}

/// What the wait-for-key instruction does: arm the wait on first sight, then
/// store the lowest pressed key and advance once one is down.
pub open spec fn wait_key_spec(s: CpuModel, x: int) -> (CpuModel, ProgramCounterAction) {
    if !s.wait_key {
        (CpuModel { wait_key: true, ..s }, ProgramCounterAction::Wait)
    } else {
        let k = first_pressed(s.key, 0);
        if k < s.key.len() {
            (CpuModel { wait_key: false, v: s.v.update(x, k as u8), ..s }, ProgramCounterAction::Advance)
        } else {
            (s, ProgramCounterAction::Wait)
        }
    }
}

pub open spec fn skip_if(b: bool) -> ProgramCounterAction {
    if b {
        ProgramCounterAction::Skip
    } else {
        ProgramCounterAction::Advance
    }
}

/// The effect of one instruction word on the state, and where the program
/// counter goes next; `rnd` is the random byte the `Cxkk` instruction draws.
pub open spec fn execute_spec(s: CpuModel, raw: u16, rnd: u8) -> (CpuModel, ProgramCounterAction) {
    let op = decode_spec(raw);
    let x = op.x as int;
    let y = op.y as int;
    let vx = s.v[x];
    let vy = s.v[y];
    let adv = ProgramCounterAction::Advance;
    match op.nibbles {
        (0x0, 0x0, 0xE, 0x0) => (CpuModel { graphics: blank_screen(), ..s }, adv),
        (0x0, 0x0, 0xE, 0xE) => (CpuModel { pc: s.stack[s.sp as int], sp: (s.sp - 1) as usize, ..s }, adv),
        (0x0, _, _, _) => (s, adv),
        (0x1, _, _, _) => (s, ProgramCounterAction::Jump(op.nnn)),
        (0x2, _, _, _) => (
            CpuModel { sp: (s.sp + 1) as usize, stack: s.stack.update(s.sp + 1, s.pc), ..s },
            ProgramCounterAction::Jump(op.nnn),
        ),
        (0x3, _, _, _) => (s, skip_if(vx == op.kk)),
        (0x4, _, _, _) => (s, skip_if(vx != op.kk)),
        (0x5, _, _, 0x0) => (s, skip_if(vx == vy)),
        (0x6, _, _, _) => (CpuModel { v: s.v.update(x, op.kk), ..s }, adv),
        (0x7, _, _, _) => (CpuModel { v: s.v.update(x, ((vx + op.kk) % 256) as u8), ..s }, adv),
        (0x8, _, _, 0x0) => (CpuModel { v: s.v.update(x, vy), ..s }, adv),
        (0x8, _, _, 0x1) => (CpuModel { v: s.v.update(x, vx | vy), ..s }, adv),
        (0x8, _, _, 0x2) => (CpuModel { v: s.v.update(x, vx & vy), ..s }, adv),
        (0x8, _, _, 0x3) => (CpuModel { v: s.v.update(x, vx ^ vy), ..s }, adv),
        (0x8, _, _, 0x4) => (
            CpuModel {
                v: s.v.update(x, ((vx + vy) % 256) as u8).update(0xF, flag(vx + vy > 255)),
                ..s
            },
            adv,
        ),
        (0x8, _, _, 0x5) => (
            CpuModel {
                v: s.v.update(0xF, flag(vx > vy)).update(x, ((vx - vy) % 256) as u8),
                ..s
            },
            adv,
        ),
        (0x8, _, _, 0x6) => {
            let v1 = s.v.update(0xF, vx & 1);
            (CpuModel { v: v1.update(x, v1[x] / 2), ..s }, adv)
        },
        (0x8, _, _, 0x7) => (
            CpuModel {
                v: s.v.update(0xF, flag(vy > vx)).update(x, ((vy - vx) % 256) as u8),
                ..s
            },
            adv,
        ),
        (0x8, _, _, 0xE) => {
            let v1 = s.v.update(0xF, vx >> 7u8);
            (CpuModel { v: v1.update(x, ((v1[x] * 2) % 256) as u8), ..s }, adv)
        },
        (0x9, _, _, 0x0) => (s, skip_if(vx != vy)),
        (0xA, _, _, _) => (CpuModel { i: op.nnn as u16, ..s }, adv),
        (0xB, _, _, _) => (s, ProgramCounterAction::Jump((op.nnn + s.v[0]) as usize)),
        (0xC, _, _, _) => (CpuModel { v: s.v.update(x, rnd & op.kk), ..s }, adv),
        (0xD, _, _, _) => (draw_spec(s, x, y, op.n as int), adv),
        (0xE, _, 0x9, 0xE) => (s, skip_if(s.key[vx as int])),
        (0xE, _, 0xA, 0x1) => (s, skip_if(!s.key[vx as int])),
        (0xF, _, 0x0, 0x7) => (CpuModel { v: s.v.update(x, s.delay_timer), ..s }, adv),
        (0xF, _, 0x0, 0xA) => wait_key_spec(s, x),
        (0xF, _, 0x1, 0x5) => (CpuModel { delay_timer: vx, ..s }, adv),
        (0xF, _, 0x1, 0x8) => (CpuModel { sound_timer: vx, ..s }, adv),
        (0xF, _, 0x1, 0xE) => (CpuModel { i: (s.i + vx) as u16, ..s }, adv),
        (0xF, _, 0x2, 0x9) => (CpuModel { i: (vx * 5) as u16, ..s }, adv),
        (0xF, _, 0x3, 0x3) => (
            CpuModel {
                memory: s.memory.update(s.i as int, vx / 100).update(s.i + 1, (vx / 10) % 10).update(
                    s.i + 2,
                    vx % 10,
                ),
                ..s
            },
            adv,
        ),
        (0xF, _, 0x5, 0x5) => (CpuModel { memory: stored_registers(s, x), ..s }, adv),
        (0xF, _, 0x6, 0x5) => (CpuModel { v: loaded_registers(s, x), ..s }, adv),
        _ => (s, adv),
    }
}

/// The inputs on which an instruction word is defined: no stack underflow or
/// overflow, no memory or key access out of bounds, no overflow of `I` or of
/// the program counter.
pub open spec fn can_execute(s: CpuModel, raw: u16) -> bool {
    let op = decode_spec(raw);
    let x = op.x as int;
    &&& s.pc + 4 <= usize::MAX
    &&& match op.nibbles {
        (0x0, 0x0, 0xE, 0xE) => s.sp > 0 && s.stack[s.sp as int] + 2 <= usize::MAX,
        (0x2, _, _, _) => s.sp + 1 < 16,
        (0xD, _, _, _) => s.i + op.n <= MEMORY_SIZE,
        (0xE, _, 0x9, 0xE) => s.v[x] < 16,
        (0xE, _, 0xA, 0x1) => s.v[x] < 16,
        (0xF, _, 0x1, 0xE) => s.i + s.v[x] <= u16::MAX,
        (0xF, _, 0x3, 0x3) => s.i + 2 < MEMORY_SIZE,
        (0xF, _, 0x5, 0x5) => s.i + x < MEMORY_SIZE,
        (0xF, _, 0x6, 0x5) => s.i + x < MEMORY_SIZE,
        _ => true,
    }
}

pub open spec fn countdown(t: u8) -> u8 {
    if t > 0 {
        (t - 1) as u8
    } else {
        0
    }
}

pub open spec fn next_pc(pc: usize, act: ProgramCounterAction) -> usize {
    match act {
        ProgramCounterAction::Skip => (pc + 4) as usize,
        ProgramCounterAction::Advance => (pc + 2) as usize,
        ProgramCounterAction::Jump(a) => a,
        ProgramCounterAction::Wait => pc,
    }
}

/// One machine cycle on the instruction word `raw`: execute it, count both
/// timers down, then move the program counter.
pub open spec fn step_spec(s: CpuModel, raw: u16, rnd: u8) -> CpuModel {
    let (t, act) = execute_spec(s, raw, rnd);
    CpuModel {
        delay_timer: countdown(t.delay_timer),
        sound_timer: countdown(t.sound_timer),
        pc: next_pc(t.pc, act),
        ..t
    }
}

} // verus!

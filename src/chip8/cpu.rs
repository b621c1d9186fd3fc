use vstd::prelude::*;

use super::model::{
    blank_screen, can_execute, execute_spec, first_pressed, font_spec, initial_model,
    loaded_registers, model_wf, step_spec, stored_registers, CpuModel, MEMORY_SIZE,
    PROGRAM_START, screen_wf, sprite_bit, drawn_screen,
};

verus! {

/// The decoded fields of a 16-bit instruction word.
pub struct OpCode {
    pub x: usize,
    pub y: usize,
    pub n: usize,
    pub kk: u8,
    pub nnn: usize,
    pub nibbles: (u8, u8, u8, u8),
    pub raw: u16,
}

/// The `k`-th nibble of `raw`, counted from the most significant one.
pub open spec fn nibble_of(raw: u16, k: int) -> u8 {
    if k == 0 {
        ((raw >> 12u16) & 0xFu16) as u8
    } else if k == 1 {
        ((raw >> 8u16) & 0xFu16) as u8
    } else if k == 2 {
        ((raw >> 4u16) & 0xFu16) as u8
    } else {
        (raw & 0xFu16) as u8
    }
}

/// The decoding of `raw`: every word decodes, fields may go unused.
pub open spec fn decode_spec(raw: u16) -> OpCode {
    OpCode {
        x: nibble_of(raw, 1) as usize,
        y: nibble_of(raw, 2) as usize,
        n: nibble_of(raw, 3) as usize,
        kk: (raw & 0xFFu16) as u8,
        nnn: (raw & 0x0FFFu16) as usize,
        nibbles: (nibble_of(raw, 0), nibble_of(raw, 1), nibble_of(raw, 2), nibble_of(raw, 3)),
        raw,
    }
}

/// Every field of a decoded word is in range.
pub proof fn lemma_decode_bounds(raw: u16)
    ensures
        decode_spec(raw).x < 16,
        decode_spec(raw).y < 16,
        decode_spec(raw).n < 16,
        decode_spec(raw).nibbles.0 < 16,
        decode_spec(raw).nnn < 0x1000,
{
    assert(((raw >> 12u16) & 0xFu16) < 16) by (bit_vector);
    assert(((raw >> 8u16) & 0xFu16) < 16) by (bit_vector);
    assert(((raw >> 4u16) & 0xFu16) < 16) by (bit_vector);
    assert((raw & 0xFu16) < 16) by (bit_vector);
    assert((raw & 0x0FFFu16) < 0x1000) by (bit_vector);
}

impl OpCode {
    /// Splits an instruction word into its nibbles and operand fields.
    pub fn from_u16(raw_code: u16) -> (r: OpCode)
        ensures
            r == decode_spec(raw_code),
            r.x < 16 && r.y < 16 && r.n < 16 && r.nnn < 0x1000,
    {
        let nibbles = (
            ((raw_code & 0xF000) >> 12u16) as u8,
            ((raw_code & 0x0F00) >> 8u16) as u8,
            ((raw_code & 0x00F0) >> 4u16) as u8,
            (raw_code & 0x000F) as u8,
        );
        proof {
            assert(((raw_code & 0xF000) >> 12u16) == ((raw_code >> 12u16) & 0xFu16)) by (bit_vector);
            assert(((raw_code & 0x0F00) >> 8u16) == ((raw_code >> 8u16) & 0xFu16)) by (bit_vector);
            assert(((raw_code & 0x00F0) >> 4u16) == ((raw_code >> 4u16) & 0xFu16)) by (bit_vector);
            lemma_decode_bounds(raw_code);
        }
        OpCode {
            nibbles,
            raw: raw_code,
            nnn: (raw_code & 0x0FFF) as usize,
            kk: (raw_code & 0x00FF) as u8,
            x: nibbles.1 as usize,
            y: nibbles.2 as usize,
            n: nibbles.3 as usize,
        }
    }
}

/// Where the program counter goes after an instruction.
pub enum ProgramCounterAction {
    Skip,
    Advance,
    Wait,
    Jump(usize),
}

/// What one machine cycle hands to the host: the framebuffer and whether the
/// tone should sound.
pub struct StepResult {
    pub graphics: [[u8; 64]; 32],
    pub make_sound: bool,
}

/// rand's thread-local random generator, carried by the machine for `Cxkk`.
#[verifier::external_type_specification]
#[verifier::external_body]
pub struct ExThreadRng(rand::rngs::ThreadRng);

/// Relies on rand::thread_rng: a handle to the thread-local generator (it
/// panics only where the operating system's random source cannot be opened).
#[verifier::external_body]
fn new_rng() -> (r: rand::rngs::ThreadRng) {
    rand::thread_rng()
}

/// Relies on rand::Rng::gen for u8: a byte drawn at random; nothing is known of
/// its value (it panics only where the operating system's random source fails
/// when the generator reseeds).
#[verifier::external_body]
fn random_byte(rng: &mut rand::rngs::ThreadRng) -> (r: u8) {
    rand::Rng::gen::<u8>(rng)
}

/// The framebuffer as rows of pixels.
pub open spec fn screen_view(g: [[u8; 64]; 32]) -> Seq<Seq<u8>> {
    g@.map_values(|row: [u8; 64]| row@)
}

/// The machine: memory, registers, stack, timers, framebuffer and keypad.
pub struct Cpu {
    pub rng: rand::rngs::ThreadRng,
    pub memory: Vec<u8>,
    pub v: Vec<u8>,
    pub pc: usize,
    pub i: u16,
    pub graphics: [[u8; 64]; 32],
    pub delay_timer: u8,
    pub sound_timer: u8,
    pub stack: Vec<usize>,
    pub sp: usize,
    pub key: Vec<bool>,
    pub wait_key: bool,
}

impl View for Cpu {
    type V = CpuModel;

    open spec fn view(&self) -> CpuModel {
        CpuModel {
            memory: self.memory@,
            v: self.v@,
            pc: self.pc,
            i: self.i,
            graphics: screen_view(self.graphics),
            delay_timer: self.delay_timer,
            sound_timer: self.sound_timer,
            stack: self.stack@,
            sp: self.sp,
            key: self.key@,
            wait_key: self.wait_key,
        }
    }
}

/// The error of loading a program image that does not fit above the interpreter area.
pub struct RomTooLarge {
    pub len: usize,
}

/// Whether the loop of the draw instruction has already visited the pixel
/// (`r`, `c`) when it stands at position `pos`, that is at bit `pos % 8` of
/// sprite row `pos / 8`.
spec fn drawn_before(r: int, c: int, vx: int, vy: int, n: int, pos: int) -> bool {
    let b = (r - vy) % 32;
    let t = (c - vx) % 64;
    b < n && t < 8 && b * 8 + t < pos
}

pub(crate) proof fn lemma_wrap_offset(a: int, k: int, m: int)
    requires
        0 <= a,
        0 <= k < m,
        m == 32 || m == 64,
    ensures
        ((a + k) % m - a) % m == k,
{
    if m == 32 {
        assert(((a + k) % 32 - a) % 32 == k);
    } else {
        assert(((a + k) % 64 - a) % 64 == k);
    }
}

pub(crate) proof fn lemma_unwrap_offset(a: int, r: int, m: int)
    requires
        0 <= a,
        0 <= r < m,
        m == 32 || m == 64,
    ensures
        (a + (r - a) % m) % m == r,
{
    if m == 32 {
        assert((a + (r - a) % 32) % 32 == r);
    } else {
        assert((a + (r - a) % 64) % 64 == r);
    }
}

proof fn lemma_xor_zero(x: u8)
    ensures
        x ^ 0u8 == x,
{
    assert(x ^ 0u8 == x) by (bit_vector);
}

proof fn lemma_bit_facts(b: u8, k: u8, px: u8, h: u8)
    requires
        px <= 1,
        h <= 1,
    ensures
        (b >> k) & 1 <= 1,
        px ^ ((b >> k) & 1) <= 1,
        h | (((b >> k) & 1) & px) <= 1,
        (h | (((b >> k) & 1) & px)) == 1 <==> h == 1 || (((b >> k) & 1) & px) == 1,
        (((b >> k) & 1) & px) == 1 <==> ((b >> k) & 1) == 1 && px == 1,
{
    assert((b >> k) & 1 <= 1) by (bit_vector);
    assert(px <= 1 ==> px ^ ((b >> k) & 1) <= 1) by (bit_vector);
    assert(px <= 1 && h <= 1 ==> h | (((b >> k) & 1) & px) <= 1) by (bit_vector);
    assert(px <= 1 && h <= 1 ==> ((h | (((b >> k) & 1) & px)) == 1 <==> h == 1 || (((b >> k) & 1)
        & px) == 1)) by (bit_vector);
    assert(px <= 1 ==> ((((b >> k) & 1) & px) == 1 <==> ((b >> k) & 1) == 1 && px == 1))
        by (bit_vector);
}

/// The instruction word stored big-endian at the program counter.
pub open spec fn fetched_word(s: CpuModel) -> u16 {
    (s.memory[s.pc as int] as int * 256 + s.memory[s.pc + 1] as int) as u16
}

/// The memory after writing `rom` verbatim at the program start address.
pub open spec fn loaded_memory(mem: Seq<u8>, rom: Seq<u8>) -> Seq<u8> {
    mem.subrange(0, PROGRAM_START as int) + rom + mem.subrange(
        PROGRAM_START + rom.len(),
        mem.len() as int,
    )
}

proof fn lemma_random_unused(s: CpuModel, raw: u16, r1: u8, r2: u8)
    requires
        decode_spec(raw).nibbles.0 != 0xC,
    ensures
        execute_spec(s, raw, r1) == execute_spec(s, raw, r2),
{
}

impl Cpu {
    pub open spec fn wf(&self) -> bool {
        model_wf(self@)
    }

    pub fn initialize() -> (r: Cpu)
        ensures
            r.wf(),
            r@ == initial_model(),
    {
        let mut result = Cpu {
            rng: new_rng(),
            memory: vec![0u8; MEMORY_SIZE],
            v: vec![0u8; 16],
            graphics: [[0u8; 64]; 32],
            pc: PROGRAM_START,
            i: 0,
            delay_timer: 0,
            sound_timer: 0,
            stack: vec![0usize; 16],
            sp: 0,
            key: vec![false; 16],
            wait_key: false,
        };
        result.initialize_font_data();
        proof {
            assert(result.memory@ =~= initial_model().memory);
            assert(result.v@ =~= initial_model().v);
            assert(result.stack@ =~= initial_model().stack);
            assert(result.key@ =~= initial_model().key);
            assert forall|r: int| 0 <= r < 32 implies #[trigger] screen_view(result.graphics)[r]
                =~= blank_screen()[r] by {}
            assert(screen_view(result.graphics) =~= blank_screen());
        }
        result
    }

    /// The state and the decoded word a handler may run on.
    spec fn ready(&self, op: OpCode) -> bool {
        &&& self.wf()
        &&& op == decode_spec(op.raw)
        &&& op.x < 16 && op.y < 16 && op.n < 16 && op.nnn < 0x1000
        &&& can_execute(self@, op.raw)
    }

    fn inst_00e0(&mut self) -> (r: ProgramCounterAction)
        requires
            old(self).wf(),
        ensures
            final(self).wf(),
            final(self)@ == (CpuModel { graphics: blank_screen(), ..old(self)@ }),
            r == ProgramCounterAction::Advance,
    {
        self.graphics = [[0u8; 64]; 32];
        proof {
            assert forall|r: int| 0 <= r < 32 implies #[trigger] screen_view(self.graphics)[r]
                =~= blank_screen()[r] by {}
            assert(screen_view(self.graphics) =~= blank_screen());
        }
        ProgramCounterAction::Advance
    }

    fn inst_00ee(&mut self, op: OpCode) -> (r: ProgramCounterAction)
        requires
            old(self).ready(op),
            op.nibbles == (0u8, 0u8, 0xEu8, 0xEu8),
        ensures
            final(self).wf(),
            (final(self)@, r) == execute_spec(old(self)@, op.raw, 0),
    {
        self.pc = self.stack[self.sp];
        self.sp -= 1;
        ProgramCounterAction::Advance
    }

    fn inst_1nnn(&mut self, op: OpCode) -> (r: ProgramCounterAction)
        requires
            old(self).ready(op),
            op.nibbles.0 == 1,
        ensures
            final(self).wf(),
            (final(self)@, r) == execute_spec(old(self)@, op.raw, 0),
    {
        ProgramCounterAction::Jump(op.nnn)
    }

    fn inst_2nnn(&mut self, op: OpCode) -> (r: ProgramCounterAction)
        requires
            old(self).ready(op),
            op.nibbles.0 == 2,
        ensures
            final(self).wf(),
            (final(self)@, r) == execute_spec(old(self)@, op.raw, 0),
    {
        self.sp += 1;
        self.stack[self.sp] = self.pc;
        ProgramCounterAction::Jump(op.nnn)
    }

    fn inst_3xkk(&mut self, op: OpCode) -> (r: ProgramCounterAction)
        requires
            old(self).ready(op),
            op.nibbles.0 == 3,
        ensures
            final(self).wf(),
            (final(self)@, r) == execute_spec(old(self)@, op.raw, 0),
    {
        if self.v[op.x] == op.kk {
            ProgramCounterAction::Skip
        } else {
            ProgramCounterAction::Advance
        }
    }

    fn inst_4xkk(&mut self, op: OpCode) -> (r: ProgramCounterAction)
        requires
            old(self).ready(op),
            op.nibbles.0 == 4,
        ensures
            final(self).wf(),
            (final(self)@, r) == execute_spec(old(self)@, op.raw, 0),
    {
        if self.v[op.x] != op.kk {
            ProgramCounterAction::Skip
        } else {
            ProgramCounterAction::Advance
        }
    }

    fn inst_5xy0(&mut self, op: OpCode) -> (r: ProgramCounterAction)
        requires
            old(self).ready(op),
            op.nibbles.0 == 5,
            op.nibbles.3 == 0,
        ensures
            final(self).wf(),
            (final(self)@, r) == execute_spec(old(self)@, op.raw, 0),
    {
        if self.v[op.x] == self.v[op.y] {
            ProgramCounterAction::Skip
        } else {
            ProgramCounterAction::Advance
        }
    }

    fn inst_6xkk(&mut self, op: OpCode) -> (r: ProgramCounterAction)
        requires
            old(self).ready(op),
            op.nibbles.0 == 6,
        ensures
            final(self).wf(),
            (final(self)@, r) == execute_spec(old(self)@, op.raw, 0),
    {
        self.v[op.x] = op.kk;
        ProgramCounterAction::Advance
    }

    fn inst_7xkk(&mut self, op: OpCode) -> (r: ProgramCounterAction)
        requires
            old(self).ready(op),
            op.nibbles.0 == 7,
        ensures
            final(self).wf(),
            (final(self)@, r) == execute_spec(old(self)@, op.raw, 0),
    {
        let register = op.x;
        self.v[register] = ((self.v[register] as u16 + op.kk as u16) % 256) as u8;
        ProgramCounterAction::Advance
    }

    fn inst_8xy0(&mut self, op: OpCode) -> (r: ProgramCounterAction)
        requires
            old(self).ready(op),
            op.nibbles.0 == 8,
            op.nibbles.3 == 0,
        ensures
            final(self).wf(),
            (final(self)@, r) == execute_spec(old(self)@, op.raw, 0),
    {
        self.v[op.x] = self.v[op.y];
        ProgramCounterAction::Advance
    }

    fn inst_8xy1(&mut self, op: OpCode) -> (r: ProgramCounterAction)
        requires
            old(self).ready(op),
            op.nibbles.0 == 8,
            op.nibbles.3 == 1,
        ensures
            final(self).wf(),
            (final(self)@, r) == execute_spec(old(self)@, op.raw, 0),
    {
        self.v[op.x] = self.v[op.x] | self.v[op.y];
        ProgramCounterAction::Advance
    }

    fn inst_8xy2(&mut self, op: OpCode) -> (r: ProgramCounterAction)
        requires
            old(self).ready(op),
            op.nibbles.0 == 8,
            op.nibbles.3 == 2,
        ensures
            final(self).wf(),
            (final(self)@, r) == execute_spec(old(self)@, op.raw, 0),
    {
        self.v[op.x] = self.v[op.x] & self.v[op.y];
        ProgramCounterAction::Advance
    }

    fn inst_8xy3(&mut self, op: OpCode) -> (r: ProgramCounterAction)
        requires
            old(self).ready(op),
            op.nibbles.0 == 8,
            op.nibbles.3 == 3,
        ensures
            final(self).wf(),
            (final(self)@, r) == execute_spec(old(self)@, op.raw, 0),
    {
        self.v[op.x] = self.v[op.x] ^ self.v[op.y];
        ProgramCounterAction::Advance
    }

    fn inst_8xy4(&mut self, op: OpCode) -> (r: ProgramCounterAction)
        requires
            old(self).ready(op),
            op.nibbles.0 == 8,
            op.nibbles.3 == 4,
        ensures
            final(self).wf(),
            (final(self)@, r) == execute_spec(old(self)@, op.raw, 0),
    {
        let result = (self.v[op.x] as u16) + (self.v[op.y] as u16);
        assert((result & 0xFFu16) == result % 256) by (bit_vector);
        self.v[op.x] = (result & 0xFF) as u8;
        self.v[0xF] = if result > 255 {
            1
        } else {
            0
        };
        ProgramCounterAction::Advance
    }

    fn inst_8xy5(&mut self, op: OpCode) -> (r: ProgramCounterAction)
        requires
            old(self).ready(op),
            op.nibbles.0 == 8,
            op.nibbles.3 == 5,
        ensures
            final(self).wf(),
            (final(self)@, r) == execute_spec(old(self)@, op.raw, 0),
    {
        let vx = self.v[op.x];
        let vy = self.v[op.y];
        let result = ((vx as u16 + 256 - vy as u16) % 256) as u8;
        assert(result == ((vx - vy) % 256) as u8);
        self.v[0xF] = if vx > vy {
            1
        } else {
            0
        };
        self.v[op.x] = result;
        ProgramCounterAction::Advance
    }

    fn inst_8xy6(&mut self, op: OpCode) -> (r: ProgramCounterAction)
        requires
            old(self).ready(op),
            op.nibbles.0 == 8,
            op.nibbles.3 == 6,
        ensures
            final(self).wf(),
            (final(self)@, r) == execute_spec(old(self)@, op.raw, 0),
    {
        self.v[0xF] = self.v[op.x] & 0x1;
        self.v[op.x] = self.v[op.x] / 2;
        ProgramCounterAction::Advance
    }

    fn inst_8xy7(&mut self, op: OpCode) -> (r: ProgramCounterAction)
        requires
            old(self).ready(op),
            op.nibbles.0 == 8,
            op.nibbles.3 == 7,
        ensures
            final(self).wf(),
            (final(self)@, r) == execute_spec(old(self)@, op.raw, 0),
    {
        let vx = self.v[op.x];
        let vy = self.v[op.y];
        let result = ((vy as u16 + 256 - vx as u16) % 256) as u8;
        assert(result == ((vy - vx) % 256) as u8);
        self.v[0xF] = if vy > vx {
            1
        } else {
            0
        };
        self.v[op.x] = result;
        ProgramCounterAction::Advance
    }

    fn inst_8xye(&mut self, op: OpCode) -> (r: ProgramCounterAction)
        requires
            old(self).ready(op),
            op.nibbles.0 == 8,
            op.nibbles.3 == 0xE,
        ensures
            final(self).wf(),
            (final(self)@, r) == execute_spec(old(self)@, op.raw, 0),
    {
        self.v[0xF] = self.v[op.x] >> 7u8;
        let cur = self.v[op.x];
        self.v[op.x] = ((cur as u16 * 2) % 256) as u8;
        ProgramCounterAction::Advance
    }

    fn inst_9xy0(&mut self, op: OpCode) -> (r: ProgramCounterAction)
        requires
            old(self).ready(op),
            op.nibbles.0 == 9,
            op.nibbles.3 == 0,
        ensures
            final(self).wf(),
            (final(self)@, r) == execute_spec(old(self)@, op.raw, 0),
    {
        if self.v[op.x] != self.v[op.y] {
            return ProgramCounterAction::Skip;
        }
        ProgramCounterAction::Advance
    }

    fn inst_annn(&mut self, op: OpCode) -> (r: ProgramCounterAction)
        requires
            old(self).ready(op),
            op.nibbles.0 == 0xA,
        ensures
            final(self).wf(),
            (final(self)@, r) == execute_spec(old(self)@, op.raw, 0),
    {
        self.i = op.nnn as u16;
        ProgramCounterAction::Advance
    }

    fn inst_bnnn(&mut self, op: OpCode) -> (r: ProgramCounterAction)
        requires
            old(self).ready(op),
            op.nibbles.0 == 0xB,
        ensures
            final(self).wf(),
            (final(self)@, r) == execute_spec(old(self)@, op.raw, 0),
    {
        ProgramCounterAction::Jump((op.nnn as u16 + self.v[0] as u16) as usize)
    }

    fn inst_cxkk(&mut self, op: OpCode, random: u8) -> (r: ProgramCounterAction)
        requires
            old(self).ready(op),
            op.nibbles.0 == 0xC,
        ensures
            final(self).wf(),
            (final(self)@, r) == execute_spec(old(self)@, op.raw, random),
    {
        self.v[op.x] = random & op.kk;
        ProgramCounterAction::Advance
    }

    fn inst_dxyn(&mut self, op: OpCode) -> (r: ProgramCounterAction)
        requires
            old(self).ready(op),
            op.nibbles.0 == 0xD,
        ensures
            final(self).wf(),
            (final(self)@, r) == execute_spec(old(self)@, op.raw, 0),
    {
        let vx = self.v[op.x] as usize;
        let vy = self.v[op.y] as usize;
        let base = self.i as usize;
        let n = op.n;
        let ghost g0 = screen_view(self.graphics);
        let ghost mem = self.memory@;
        let ghost (ix, nn, x0, y0) = (base as int, n as int, vx as int, vy as int);
        let mut g = self.graphics;
        let mut hit: u8 = 0;
        proof {
            assert forall|r: int, c: int| 0 <= r < 32 && 0 <= c < 64 implies #[trigger] screen_view(
                g,
            )[r][c] == g0[r][c] ^ 0u8 by {
                lemma_xor_zero(g0[r][c]);
            }
        }
        let mut byte: usize = 0;
        let ghost mut pos: int = 0;
        while byte < n
            invariant
                0 <= byte <= n < 16,
                pos == byte * 8,
                vx < 256 && vy < 256,
                base + n <= MEMORY_SIZE,
                (ix, nn, x0, y0) == (base as int, n as int, vx as int, vy as int),
                mem.len() == MEMORY_SIZE,
                self.memory@ == mem,
                screen_wf(g0),
                screen_wf(screen_view(g)),
                forall|r: int, c: int|
                    0 <= r < 32 && 0 <= c < 64 ==> #[trigger] screen_view(g)[r][c] == g0[r][c] ^ (
                    if drawn_before(r, c, x0, y0, nn, pos) {
                        sprite_bit(mem, ix, nn, x0, y0, r, c)
                    } else {
                        0u8
                    }),
                hit <= 1,
                hit == 1 <==> exists|r: int, c: int|
                    0 <= r < 32 && 0 <= c < 64 && #[trigger] drawn_before(r, c, x0, y0, nn, pos)
                        && sprite_bit(mem, ix, nn, x0, y0, r, c) == 1 && g0[r][c] == 1,
            decreases n - byte,
        {
            let sprite = self.memory[base + byte];
            let row = (vy + byte) % 32;
            proof {
                lemma_wrap_offset(y0, byte as int, 32);
            }
            let mut bit: usize = 0;
            while bit < 8
                invariant
                    0 <= byte < n < 16,
                    0 <= bit <= 8,
                    pos == byte * 8 + bit,
                    vx < 256 && vy < 256,
                    base + n <= MEMORY_SIZE,
                    (ix, nn, x0, y0) == (base as int, n as int, vx as int, vy as int),
                    mem.len() == MEMORY_SIZE,
                    sprite == mem[base + byte],
                    row == (vy + byte) % 32,
                    ((row - vy) % 32) == byte,
                    screen_wf(g0),
                    screen_wf(screen_view(g)),
                    forall|r: int, c: int|
                        0 <= r < 32 && 0 <= c < 64 ==> #[trigger] screen_view(g)[r][c] == g0[r][c]
                            ^ (if drawn_before(r, c, x0, y0, nn, pos) {
                            sprite_bit(mem, ix, nn, x0, y0, r, c)
                        } else {
                            0u8
                        }),
                    hit <= 1,
                    hit == 1 <==> exists|r: int, c: int|
                        0 <= r < 32 && 0 <= c < 64 && #[trigger] drawn_before(
                            r,
                            c,
                            x0,
                            y0,
                            nn,
                            pos,
                        ) && sprite_bit(mem, ix, nn, x0, y0, r, c) == 1 && g0[r][c] == 1,
                decreases 8 - bit,
            {
                let col = (vx + bit) % 64;
                let color = (sprite >> ((7 - bit) as u8)) & 1;
                let mut line = g[row];
                let px = line[col];
                let ghost g_before = screen_view(g);
                let ghost hit_before = hit;
                proof {
                    lemma_wrap_offset(x0, bit as int, 64);
                    assert(g_before[row as int][col as int] == px);
                    assert(!drawn_before(row as int, col as int, x0, y0, nn, pos));
                    lemma_xor_zero(g0[row as int][col as int]);
                    assert(px == g0[row as int][col as int]);
                    assert(sprite_bit(mem, ix, nn, x0, y0, row as int, col as int) == color);
                    lemma_bit_facts(sprite, (7 - bit) as u8, px, hit);
                }
                hit = hit | (color & px);
                line[col] = px ^ color;
                g[row] = line;
                proof {
                    assert(screen_view(g)[row as int] == line@);
                    assert(screen_view(g)[row as int][col as int] == px ^ color);

                    assert forall|r: int, c: int|
                        0 <= r < 32 && 0 <= c < 64 && !(r == row && c == col) implies (
                        drawn_before(r, c, x0, y0, nn, pos + 1) == drawn_before(r, c, x0, y0, nn, pos)
                            && screen_view(g)[r][c] == g_before[r][c]) by {
                        lemma_unwrap_offset(y0, r, 32);
                        lemma_unwrap_offset(x0, c, 64);
                    }
                    assert(drawn_before(row as int, col as int, x0, y0, nn, pos + 1));
                    assert(screen_view(g)[row as int][col as int] == g0[row as int][col as int]
                        ^ sprite_bit(mem, ix, nn, x0, y0, row as int, col as int));
                    assert forall|r: int| 0 <= r < 32 implies #[trigger] screen_view(g)[r].len()
                        == 64 by {}
                    assert forall|r: int, c: int|
                        0 <= r < 32 && 0 <= c < 64 implies #[trigger] screen_view(g)[r][c] <= 1 by {
                        if !(r == row && c == col) {
                            assert(screen_view(g)[r][c] == g_before[r][c]);
                        }
                    }
                    assert forall|r: int, c: int|
                        0 <= r < 32 && 0 <= c < 64 implies #[trigger] screen_view(g)[r][c] == g0[r][c]
                            ^ (if drawn_before(r, c, x0, y0, nn, pos + 1) {
                            sprite_bit(mem, ix, nn, x0, y0, r, c)
                        } else {
                            0u8
                        }) by {
                        if !(r == row && c == col) {
                            assert(screen_view(g)[r][c] == g_before[r][c]);
                        }
                    }
                    if hit == 1 {
                        if color & px == 1 {
                            assert(drawn_before(row as int, col as int, x0, y0, nn, pos + 1)
                                && sprite_bit(mem, ix, nn, x0, y0, row as int, col as int) == 1
                                && g0[row as int][col as int] == 1);
                        } else {
                            let (r0, c0) = choose|r: int, c: int|
                                0 <= r < 32 && 0 <= c < 64 && #[trigger] drawn_before(
                                    r,
                                    c,
                                    x0,
                                    y0,
                                    nn,
                                    pos,
                                ) && sprite_bit(mem, ix, nn, x0, y0, r, c) == 1 && g0[r][c] == 1;
                            assert(drawn_before(r0, c0, x0, y0, nn, pos + 1));
                        }
                    } else {
                        assert forall|r: int, c: int|
                            0 <= r < 32 && 0 <= c < 64 && #[trigger] drawn_before(
                                r,
                                c,
                                x0,
                                y0,
                                nn,
                                pos + 1,
                            ) implies !(sprite_bit(mem, ix, nn, x0, y0, r, c) == 1 && g0[r][c]
                            == 1) by {
                            if !(r == row && c == col) {
                                assert(drawn_before(r, c, x0, y0, nn, pos));
                            }
                        }
                    }
                }
                bit += 1;
                proof {
                    pos = pos + 1;
                }
            }
            byte += 1;
        }
        self.graphics = g;
        self.v[0xF] = hit;
        proof {
            let d = drawn_screen(g0, mem, ix, nn, x0, y0);
            assert forall|r: int| 0 <= r < 32 implies #[trigger] screen_view(g)[r] =~= d[r] by {
                assert forall|c: int| 0 <= c < 64 implies screen_view(g)[r][c] == d[r][c] by {
                    if !drawn_before(r, c, x0, y0, nn, pos) {
                        assert(sprite_bit(mem, ix, nn, x0, y0, r, c) == 0);
                    }
                }
            }
            assert(screen_view(g) =~= d);
            if hit == 1 {
                let (r0, c0) = choose|r: int, c: int|
                    0 <= r < 32 && 0 <= c < 64 && #[trigger] drawn_before(r, c, x0, y0, nn, pos)
                        && sprite_bit(mem, ix, nn, x0, y0, r, c) == 1 && g0[r][c] == 1;
                assert(sprite_bit(mem, ix, nn, x0, y0, r0, c0) == 1);
            } else {
                assert forall|r: int, c: int|
                    0 <= r < 32 && 0 <= c < 64 && #[trigger] sprite_bit(mem, ix, nn, x0, y0, r, c)
                        == 1 implies g0[r][c] != 1 by {
                    assert(drawn_before(r, c, x0, y0, nn, pos));
                }
            }
        }
        ProgramCounterAction::Advance
    }

    fn inst_ex9e(&mut self, op: OpCode) -> (r: ProgramCounterAction)
        requires
            old(self).ready(op),
            op.nibbles.0 == 0xE,
            op.nibbles.2 == 9,
            op.nibbles.3 == 0xE,
        ensures
            final(self).wf(),
            (final(self)@, r) == execute_spec(old(self)@, op.raw, 0),
    {
        if self.key[self.v[op.x] as usize] {
            return ProgramCounterAction::Skip;
        }
        ProgramCounterAction::Advance
    }

    fn inst_exa1(&mut self, op: OpCode) -> (r: ProgramCounterAction)
        requires
            old(self).ready(op),
            op.nibbles.0 == 0xE,
            op.nibbles.2 == 0xA,
            op.nibbles.3 == 1,
        ensures
            final(self).wf(),
            (final(self)@, r) == execute_spec(old(self)@, op.raw, 0),
    {
        if !self.key[self.v[op.x] as usize] {
            return ProgramCounterAction::Skip;
        }
        ProgramCounterAction::Advance
    }

    fn inst_fx07(&mut self, op: OpCode) -> (r: ProgramCounterAction)
        requires
            old(self).ready(op),
            op.nibbles.0 == 0xF,
            op.nibbles.2 == 0,
            op.nibbles.3 == 7,
        ensures
            final(self).wf(),
            (final(self)@, r) == execute_spec(old(self)@, op.raw, 0),
    {
        self.v[op.x] = self.delay_timer;
        ProgramCounterAction::Advance
    }

    fn inst_fx0a(&mut self, op: OpCode) -> (r: ProgramCounterAction)
        requires
            old(self).ready(op),
            op.nibbles.0 == 0xF,
            op.nibbles.2 == 0,
            op.nibbles.3 == 0xA,
        ensures
            final(self).wf(),
            (final(self)@, r) == execute_spec(old(self)@, op.raw, 0),
    {
        if !self.wait_key {
            self.wait_key = true;
        } else {
            let mut index: usize = 0;
            while index < 16
                invariant
                    *self == *old(self),
                    old(self).ready(op),
                    op.nibbles.0 == 0xF,
                    op.nibbles.2 == 0,
                    op.nibbles.3 == 0xA,
                    self.wait_key,
                    op.x < 16,
                    0 <= index <= 16,
                    first_pressed(self.key@, 0) == first_pressed(self.key@, index as int),
                decreases 16 - index,
            {
                if self.key[index] {
                    assert(first_pressed(self.key@, index as int) == index);
                    self.wait_key = false;
                    self.v[op.x] = index as u8;
                    return ProgramCounterAction::Advance;
                }
                assert(first_pressed(self.key@, index as int) == first_pressed(
                    self.key@,
                    index + 1,
                ));
                index += 1;
            }
        }
        ProgramCounterAction::Wait
    }

    fn inst_fx15(&mut self, op: OpCode) -> (r: ProgramCounterAction)
        requires
            old(self).ready(op),
            op.nibbles.0 == 0xF,
            op.nibbles.2 == 1,
            op.nibbles.3 == 5,
        ensures
            final(self).wf(),
            (final(self)@, r) == execute_spec(old(self)@, op.raw, 0),
    {
        self.delay_timer = self.v[op.x];
        ProgramCounterAction::Advance
    }

    fn inst_fx18(&mut self, op: OpCode) -> (r: ProgramCounterAction)
        requires
            old(self).ready(op),
            op.nibbles.0 == 0xF,
            op.nibbles.2 == 1,
            op.nibbles.3 == 8,
        ensures
            final(self).wf(),
            (final(self)@, r) == execute_spec(old(self)@, op.raw, 0),
    {
        self.sound_timer = self.v[op.x];
        ProgramCounterAction::Advance
    }

    fn inst_fx1e(&mut self, op: OpCode) -> (r: ProgramCounterAction)
        requires
            old(self).ready(op),
            op.nibbles.0 == 0xF,
            op.nibbles.2 == 1,
            op.nibbles.3 == 0xE,
        ensures
            final(self).wf(),
            (final(self)@, r) == execute_spec(old(self)@, op.raw, 0),
    {
        self.i = self.i + self.v[op.x] as u16;
        ProgramCounterAction::Advance
    }

    fn inst_fx29(&mut self, op: OpCode) -> (r: ProgramCounterAction)
        requires
            old(self).ready(op),
            op.nibbles.0 == 0xF,
            op.nibbles.2 == 2,
            op.nibbles.3 == 9,
        ensures
            final(self).wf(),
            (final(self)@, r) == execute_spec(old(self)@, op.raw, 0),
    {
        let digit = self.v[op.x];
        self.i = digit as u16 * 5;
        ProgramCounterAction::Advance
    }

    fn inst_fx33(&mut self, op: OpCode) -> (r: ProgramCounterAction)
        requires
            old(self).ready(op),
            op.nibbles.0 == 0xF,
            op.nibbles.2 == 3,
            op.nibbles.3 == 3,
        ensures
            final(self).wf(),
            (final(self)@, r) == execute_spec(old(self)@, op.raw, 0),
    {
        let value = self.v[op.x];
        let base = self.i as usize;
        self.memory[base] = value / 100;
        self.memory[base + 1] = (value / 10) % 10;
        self.memory[base + 2] = value % 10;
        ProgramCounterAction::Advance
    }

    fn inst_fx55(&mut self, op: OpCode) -> (r: ProgramCounterAction)
        requires
            old(self).ready(op),
            op.nibbles.0 == 0xF,
            op.nibbles.2 == 5,
            op.nibbles.3 == 5,
        ensures
            final(self).wf(),
            (final(self)@, r) == execute_spec(old(self)@, op.raw, 0),
    {
        let base = self.i as usize;
        let mut k: usize = 0;
        while k <= op.x
            invariant
                old(self).ready(op),
                0 <= k <= op.x + 1,
                op.x < 16,
                base == old(self).i,
                base + op.x < MEMORY_SIZE,
                self.memory@ =~= Seq::new(
                    MEMORY_SIZE as nat,
                    |a: int|
                        if base <= a < base + k {
                            old(self).v@[a - base]
                        } else {
                            old(self).memory@[a]
                        },
                ),
                self@ == (CpuModel { memory: self.memory@, ..old(self)@ }),
            decreases op.x + 1 - k,
        {
            self.memory[base + k] = self.v[k];
            k += 1;
        }
        assert(self.memory@ =~= stored_registers(old(self)@, op.x as int));
        ProgramCounterAction::Advance
    }

    fn inst_fx65(&mut self, op: OpCode) -> (r: ProgramCounterAction)
        requires
            old(self).ready(op),
            op.nibbles.0 == 0xF,
            op.nibbles.2 == 6,
            op.nibbles.3 == 5,
        ensures
            final(self).wf(),
            (final(self)@, r) == execute_spec(old(self)@, op.raw, 0),
    {
        let base = self.i as usize;
        let mut k: usize = 0;
        while k <= op.x
            invariant
                old(self).ready(op),
                0 <= k <= op.x + 1,
                op.x < 16,
                base == old(self).i,
                base + op.x < MEMORY_SIZE,
                self.v@ =~= Seq::new(
                    16,
                    |j: int|
                        if j < k {
                            old(self).memory@[base + j]
                        } else {
                            old(self).v@[j]
                        },
                ),
                self@ == (CpuModel { v: self.v@, ..old(self)@ }),
            decreases op.x + 1 - k,
        {
            self.v[k] = self.memory[base + k];
            k += 1;
        }
        assert(self.v@ =~= loaded_registers(old(self)@, op.x as int));
        ProgramCounterAction::Advance
    }

    /// One machine cycle on the word `opcode`, with `random` as the byte that
    /// the `Cxkk` instruction uses: execute the instruction, count both timers
    /// down, move the program counter, and hand out the framebuffer and
    /// whether the tone sounds (after the countdown).
    pub fn run_cycle(&mut self, opcode: u16, random: u8) -> (r: StepResult)
        requires
            old(self).wf(),
            can_execute(old(self)@, opcode),
        ensures
            final(self).wf(),
            final(self)@ == step_spec(old(self)@, opcode, random),
            r.graphics == final(self).graphics,
            r.make_sound == (final(self).sound_timer != 0),
    {
        let pc_action = self.execute(opcode, random);

        if self.delay_timer > 0 {
            self.delay_timer -= 1
        }
        if self.sound_timer > 0 {
            self.sound_timer -= 1
        }

        match pc_action {
            ProgramCounterAction::Skip => self.pc += 4,
            ProgramCounterAction::Advance => self.pc += 2,
            ProgramCounterAction::Jump(address) => self.pc = address,
            ProgramCounterAction::Wait => {},
        }

        StepResult { graphics: self.graphics, make_sound: self.sound_timer != 0 }
    }

    /// Decodes `opcode` and runs its handler; returns where the program
    /// counter goes.
    #[verifier::rlimit(30)]
    fn execute(&mut self, opcode: u16, random: u8) -> (r: ProgramCounterAction)
        requires
            old(self).wf(),
            can_execute(old(self)@, opcode),
        ensures
            final(self).wf(),
            (final(self)@, r) == execute_spec(old(self)@, opcode, random),
    {
        let op = OpCode::from_u16(opcode);
        proof {
            if op.nibbles.0 != 0xC {
                lemma_random_unused(self@, opcode, 0, random);
            }
        }
        match op.nibbles {
            (0x0, 0x0, 0xE, 0x0) => self.inst_00e0(),
            (0x0, 0x0, 0xE, 0xE) => self.inst_00ee(op),
            (0x0, _, _, _) => ProgramCounterAction::Advance,
            (0x1, _, _, _) => self.inst_1nnn(op),
            (0x2, _, _, _) => self.inst_2nnn(op),
            (0x3, _, _, _) => self.inst_3xkk(op),
            (0x4, _, _, _) => self.inst_4xkk(op),
            (0x5, _, _, 0x0) => self.inst_5xy0(op),
            (0x6, _, _, _) => self.inst_6xkk(op),
            (0x7, _, _, _) => self.inst_7xkk(op),
            (0x8, _, _, 0x0) => self.inst_8xy0(op),
            (0x8, _, _, 0x1) => self.inst_8xy1(op),
            (0x8, _, _, 0x2) => self.inst_8xy2(op),
            (0x8, _, _, 0x3) => self.inst_8xy3(op),
            (0x8, _, _, 0x4) => self.inst_8xy4(op),
            (0x8, _, _, 0x5) => self.inst_8xy5(op),
            (0x8, _, _, 0x6) => self.inst_8xy6(op),
            (0x8, _, _, 0x7) => self.inst_8xy7(op),
            (0x8, _, _, 0xE) => self.inst_8xye(op),
            (0x9, _, _, 0x0) => self.inst_9xy0(op),
            (0xA, _, _, _) => self.inst_annn(op),
            (0xB, _, _, _) => self.inst_bnnn(op),
            (0xC, _, _, _) => self.inst_cxkk(op, random),
            (0xD, _, _, _) => self.inst_dxyn(op),
            (0xE, _, 0x9, 0xE) => self.inst_ex9e(op),
            (0xE, _, 0xA, 0x1) => self.inst_exa1(op),
            (0xF, _, 0x0, 0x7) => self.inst_fx07(op),
            (0xF, _, 0x0, 0xA) => self.inst_fx0a(op),
            (0xF, _, 0x1, 0x5) => self.inst_fx15(op),
            (0xF, _, 0x1, 0x8) => self.inst_fx18(op),
            (0xF, _, 0x1, 0xE) => self.inst_fx1e(op),
            (0xF, _, 0x2, 0x9) => self.inst_fx29(op),
            (0xF, _, 0x3, 0x3) => self.inst_fx33(op),
            (0xF, _, 0x5, 0x5) => self.inst_fx55(op),
            (0xF, _, 0x6, 0x5) => self.inst_fx65(op),
            (_, _, _, _) => ProgramCounterAction::Advance,
        }
    }

    /// One machine cycle on the word `opcode`; a `Cxkk` instruction draws its
    /// byte from the machine's random generator.
    pub fn cpu_step(&mut self, opcode: u16) -> (r: StepResult)
        requires
            old(self).wf(),
            can_execute(old(self)@, opcode),
        ensures
            final(self).wf(),
            exists|random: u8| final(self)@ == step_spec(old(self)@, opcode, random),
            r.graphics == final(self).graphics,
            r.make_sound == (final(self).sound_timer != 0),
    {
        let random: u8 = if (opcode >> 12u16) == 0xC {
            random_byte(&mut self.rng)
        } else {
            0
        };
        self.run_cycle(opcode, random)
    }

    /// One machine cycle on the word fetched, big-endian, at the program counter.
    pub fn step(&mut self) -> (r: StepResult)
        requires
            old(self).wf(),
            old(self).pc + 1 < MEMORY_SIZE,
            can_execute(old(self)@, fetched_word(old(self)@)),
        ensures
            final(self).wf(),
            exists|random: u8|
                final(self)@ == step_spec(old(self)@, fetched_word(old(self)@), random),
            r.graphics == final(self).graphics,
            r.make_sound == (final(self).sound_timer != 0),
    {
        let hi = self.memory[self.pc];
        let lo = self.memory[self.pc + 1];
        let opcode = (hi as u16) << 8u16 | (lo as u16);
        assert(((hi as u16) << 8u16 | (lo as u16)) == (hi as u16) * 256 + (lo as u16)) by (bit_vector);
        self.cpu_step(opcode)
    }

    /// Copies the program image `rom` into memory at the program start
    /// address; an image that does not fit leaves the machine as it was.
    pub fn load_rom(&mut self, rom: &[u8]) -> (r: Result<(), RomTooLarge>)
        requires
            old(self).wf(),
        ensures
            final(self).wf(),
            match r {
                Ok(()) => {
                    &&& PROGRAM_START + rom@.len() <= MEMORY_SIZE
                    &&& final(self)@ == (CpuModel { memory: loaded_memory(old(self)@.memory, rom@), ..old(self)@ })
                },
                Err(e) => {
                    &&& PROGRAM_START + rom@.len() > MEMORY_SIZE
                    &&& e.len == rom@.len()
                    &&& final(self)@ == old(self)@
                },
            },
    {
        let len = rom.len();
        if len > MEMORY_SIZE - PROGRAM_START {
            return Err(RomTooLarge { len });
        }
        let mut k: usize = 0;
        while k < len
            invariant
                old(self).wf(),
                len == rom@.len(),
                PROGRAM_START + len <= MEMORY_SIZE,
                0 <= k <= len,
                self.memory@.len() == MEMORY_SIZE,
                forall|a: int|
                    0 <= a < MEMORY_SIZE ==> #[trigger] self.memory@[a] == if PROGRAM_START <= a
                        < PROGRAM_START + k {
                        rom@[a - PROGRAM_START]
                    } else {
                        old(self).memory@[a]
                    },
                self@ == (CpuModel { memory: self.memory@, ..old(self)@ }),
            decreases len - k,
        {
            self.memory[PROGRAM_START + k] = rom[k];
            k += 1;
        }
        assert(self.memory@ =~= loaded_memory(old(self)@.memory, rom@));
        Ok(())
    }

    /// Whether the machine can execute the word `opcode` in its current state.
    pub fn can_execute_word(&self, opcode: u16) -> (r: bool)
        requires
            self.wf(),
        ensures
            r == can_execute(self@, opcode),
    {
        let op = OpCode::from_u16(opcode);
        if self.pc > usize::MAX - 4 {
            return false;
        }
        match op.nibbles {
            (0x0, 0x0, 0xE, 0xE) => self.sp > 0 && self.stack[self.sp] <= usize::MAX - 2,
            (0x2, _, _, _) => self.sp + 1 < 16,
            (0xD, _, _, _) => (self.i as usize) + op.n <= MEMORY_SIZE,
            (0xE, _, 0x9, 0xE) => self.v[op.x] < 16,
            (0xE, _, 0xA, 0x1) => self.v[op.x] < 16,
            (0xF, _, 0x1, 0xE) => self.i as u32 + self.v[op.x] as u32 <= 0xFFFF,
            (0xF, _, 0x3, 0x3) => (self.i as usize) + 2 < MEMORY_SIZE,
            (0xF, _, 0x5, 0x5) => (self.i as usize) + op.x < MEMORY_SIZE,
            (0xF, _, 0x6, 0x5) => (self.i as usize) + op.x < MEMORY_SIZE,
            _ => true,
        }
    }

    /// The instruction word at the program counter, if both its bytes lie in memory.
    pub fn fetch(&self) -> (r: Option<u16>)
        requires
            self.wf(),
        ensures
            r == if self.pc + 1 < MEMORY_SIZE {
                Some(fetched_word(self@))
            } else {
                None::<u16>
            },
    {
        if self.pc >= MEMORY_SIZE - 1 {
            return None;
        }
        let hi = self.memory[self.pc];
        let lo = self.memory[self.pc + 1];
        assert(((hi as u16) << 8u16 | (lo as u16)) == (hi as u16) * 256 + (lo as u16)) by (bit_vector);
        Some((hi as u16) << 8u16 | (lo as u16))
    }

    fn initialize_font_data(&mut self)
        requires
            old(self).memory@.len() == MEMORY_SIZE,
        ensures
            final(self).memory@ == font_spec() + old(self).memory@.subrange(
                font_spec().len() as int,
                MEMORY_SIZE as int,
            ),
            final(self).v == old(self).v,
            final(self).pc == old(self).pc,
            final(self).i == old(self).i,
            final(self).graphics == old(self).graphics,
            final(self).delay_timer == old(self).delay_timer,
            final(self).sound_timer == old(self).sound_timer,
            final(self).stack == old(self).stack,
            final(self).sp == old(self).sp,
            final(self).key == old(self).key,
            final(self).wait_key == old(self).wait_key,
    {
        let font_array: [u8; 80] = [
            0xF0, 0x90, 0x90, 0x90, 0xF0, 0x20, 0x60, 0x20, 0x20, 0x70, 0xF0, 0x10, 0xF0, 0x80,
            0xF0, 0xF0, 0x10, 0xF0, 0x10, 0xF0, 0x90, 0x90, 0xF0, 0x10, 0x10, 0xF0, 0x80, 0xF0,
            0x10, 0xF0, 0xF0, 0x80, 0xF0, 0x90, 0xF0, 0xF0, 0x10, 0x20, 0x40, 0x40, 0xF0, 0x90,
            0xF0, 0x90, 0xF0, 0xF0, 0x90, 0xF0, 0x10, 0xF0, 0xF0, 0x90, 0xF0, 0x90, 0x90, 0xE0,
            0x90, 0xE0, 0x90, 0xE0, 0xF0, 0x80, 0x80, 0x80, 0xF0, 0xE0, 0x90, 0x90, 0x90, 0xE0,
            0xF0, 0x80, 0xF0, 0x80, 0xF0, 0xF0, 0x80, 0xF0, 0x80, 0x80,
        ];
        assert(font_array@ =~= font_spec());
        let mut k: usize = 0;
        while k < 80
            invariant
                font_array@ == font_spec(),
                0 <= k <= 80,
                self.memory@.len() == MEMORY_SIZE,
                forall|a: int| 0 <= a < k ==> self.memory@[a] == font_spec()[a],
                forall|a: int| k <= a < MEMORY_SIZE ==> self.memory@[a] == old(self).memory@[a],
                self.v == old(self).v,
                self.pc == old(self).pc,
                self.i == old(self).i,
                self.graphics == old(self).graphics,
                self.delay_timer == old(self).delay_timer,
                self.sound_timer == old(self).sound_timer,
                self.stack == old(self).stack,
                self.sp == old(self).sp,
                self.key == old(self).key,
                self.wait_key == old(self).wait_key,
            decreases 80 - k,
        {
            self.memory.set(k, font_array[k]);
            k += 1;
        }
        assert(self.memory@ =~= font_spec() + old(self).memory@.subrange(
            font_spec().len() as int,
            MEMORY_SIZE as int,
        ));
    }
}

} // verus!

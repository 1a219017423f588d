use vstd::prelude::*;

use crate::decode::{opcode_of, Opcode, Operands};

verus! {

/// Bytes of addressable memory.
pub const RAM_SIZE: usize = 4096;

/// Display width in pixels.
pub const DISPLAY_WIDTH: usize = 64;

/// Display height in pixels.
pub const DISPLAY_HEIGHT: usize = 32;

/// Number of pixels in the display buffer.
pub const DISPLAY_SIZE: usize = 2048;

/// Where programs are loaded and execution starts.
pub const PROGRAM_START: u16 = 0x200;

/// Where the built-in hexadecimal glyphs live, five bytes per digit.
pub const FONT_BASE: u16 = 0x50;

/// Bytes per built-in glyph.
pub const GLYPH_BYTES: u16 = 5;

/// Capacity of the call stack.
pub const STACK_DEPTH: u8 = 16;

/// Index of the carry, borrow and collision flag register.
pub const FLAG: usize = 15;

/// Length of one timer tick in microseconds (about 60 Hz).
pub const TICK_MICROS: u64 = 16_667;

/// What can go wrong in one cycle.
#[derive(Clone, Copy, Debug, PartialEq, Eq, Structural)]
pub enum CpuError {
    /// The word at the program counter is no instruction.
    InvalidInstruction(u16),
    /// A call with every stack slot in use.
    StackOverflow,
    /// A return with an empty stack.
    StackUnderflow,
    /// An access past the end of memory.
    OutOfBounds,
}

/// How the program counter moves after an instruction.
#[derive(Clone, Copy, Debug, PartialEq, Eq, Structural)]
pub enum Flow {
    /// On to the next instruction.
    Next,
    /// Over the next instruction.
    Skip,
    /// To the given address.
    Goto(u16),
    /// Nowhere: the same instruction runs again.
    Stay,
}

/// The mathematical model of the machine.
pub struct CpuState {
    pub v: Seq<u8>,
    pub i: u16,
    pub stack: Seq<u16>,
    pub pc: u16,
    pub sp: u8,
    pub delay_timer: u8,
    pub sound_timer: u8,
    pub ram: Seq<u8>,
    pub keypad: Seq<bool>,
    pub display: Seq<bool>,
    /// Set while a wait-for-key instruction is pending.
    pub waiting: bool,
    /// The keypad as it was at the last check of a pending wait.
    pub prev_keys: Seq<bool>,
    /// Microseconds since the last timer tick.
    pub elapsed: u64,
}

impl CpuState {
    pub open spec fn wf(self) -> bool {
        &&& self.v.len() == 16
        &&& self.stack.len() == STACK_DEPTH
        &&& self.ram.len() == RAM_SIZE
        &&& self.keypad.len() == 16
        &&& self.display.len() == DISPLAY_SIZE
        &&& self.prev_keys.len() == 16
        &&& self.sp <= STACK_DEPTH
        &&& self.elapsed < TICK_MICROS
    }

    pub open spec fn with_v(self, x: int, val: u8) -> CpuState {
        CpuState { v: self.v.update(x, val), ..self }
    }

    /// `Vx` set to `val` after the flag register was set to `flag`.
    pub open spec fn with_flag_then_v(self, flag: u8, x: int, val: u8) -> CpuState {
        self.with_v(FLAG as int, flag).with_v(x, val)
    }
}

/// The program counter after an instruction at `pc` that moves it by `f`.
pub open spec fn next_pc(pc: u16, f: Flow) -> u16 {
    match f {
        Flow::Next => (pc + 2) as u16,
        Flow::Skip => (pc + 4) as u16,
        Flow::Goto(a) => a,
        Flow::Stay => pc,
    }
}

pub open spec fn skip_if(c: bool) -> Flow {
    if c {
        Flow::Skip
    } else {
        Flow::Next
    }
}

pub open spec fn wrap8(a: int) -> u8 {
    (a % 256) as u8
}

/// Column of pixel `idx` relative to a sprite drawn at column `x0`, modulo the width.
pub open spec fn col_offset(x0: u8, idx: int) -> int {
    ((idx % 64) - x0 as int) % 64
}

/// Row of pixel `idx` relative to a sprite drawn at row `y0`, modulo the height.
pub open spec fn row_offset(y0: u8, idx: int) -> int {
    ((idx / 64) - y0 as int) % 32
}

/// Bit `col` of a sprite row, counted from the most significant bit.
pub open spec fn sprite_bit(byte: u8, col: int) -> bool {
    (byte >> ((7 - col) as u8)) & 1u8 == 1u8
}

/// Whether a sprite of `n` rows read from `m.i`, drawn at `(x0, y0)`, flips pixel `idx`.
pub open spec fn covers(m: CpuState, x0: u8, y0: u8, n: int, idx: int) -> bool {
    let dx = col_offset(x0, idx);
    let dy = row_offset(y0, idx);
    &&& dy < n
    &&& dx < 8
    &&& sprite_bit(m.ram[m.i + dy], dx)
}

/// The display after XOR-ing the sprite onto it.
pub open spec fn drawn(m: CpuState, x0: u8, y0: u8, n: int) -> Seq<bool> {
    Seq::new(DISPLAY_SIZE as nat, |idx: int| m.display[idx] != covers(m, x0, y0, n, idx))
}

/// Whether drawing the sprite turns off a pixel that was on.
pub open spec fn collides(m: CpuState, x0: u8, y0: u8, n: int) -> bool {
    exists|idx: int| 0 <= idx < DISPLAY_SIZE && covers(m, x0, y0, n, idx) && #[trigger] m.display[idx]
}

/// Key `k` went down since the last check of a pending wait.
pub open spec fn newly_pressed(m: CpuState, k: int) -> bool {
    m.keypad[k] && !m.prev_keys[k]
}

/// `k` is the lowest key that went down since the last check.
pub open spec fn first_new_key(m: CpuState, k: int) -> bool {
    &&& 0 <= k < 16
    &&& newly_pressed(m, k)
    &&& forall|j: int| 0 <= j < k ==> !newly_pressed(m, j)
}

/// The three decimal digits of `b`, most significant first.
pub open spec fn bcd_digit(b: u8, k: int) -> u8 {
    if k == 0 {
        b / 100
    } else if k == 1 {
        (b / 10) % 10
    } else {
        b % 10
    }
}

/// The effect of one instruction: the new state (program counter untouched)
/// and how the program counter moves, or the error, in which case nothing changes.
/// `rnd` is the random byte that a random-and-mask instruction uses.
pub open spec fn execute_spec(m: CpuState, op: Opcode, ops: Operands, rnd: u8) -> Result<
    (CpuState, Flow),
    CpuError,
> {
    let x = ops.reg_x() as int;
    let y = ops.reg_y() as int;
    let vx = m.v[x];
    let vy = m.v[y];
    let nn = ops.imm8() as u8;
    let nnn = ops.addr12();
    match op {
        Opcode::Cls => Ok((CpuState { display: Seq::new(DISPLAY_SIZE as nat, |k: int| false), ..m }, Flow::Next)),
        Opcode::Ret => if m.sp == 0 {
            Err(CpuError::StackUnderflow)
        } else {
            Ok((CpuState { sp: (m.sp - 1) as u8, ..m }, Flow::Goto(m.stack[m.sp - 1])))
        },
        Opcode::Jp => Ok((m, Flow::Goto(nnn))),
        Opcode::Call => if m.sp >= STACK_DEPTH {
            Err(CpuError::StackOverflow)
        } else {
            Ok((
                CpuState {
                    stack: m.stack.update(m.sp as int, (m.pc + 2) as u16),
                    sp: (m.sp + 1) as u8,
                    ..m
                },
                Flow::Goto(nnn),
            ))
        },
        Opcode::SeImm => Ok((m, skip_if(vx == nn))),
        Opcode::SneImm => Ok((m, skip_if(vx != nn))),
        Opcode::Se => Ok((m, skip_if(vx == vy))),
        Opcode::LdrIm => Ok((m.with_v(x, nn), Flow::Next)),
        Opcode::AddIm => Ok((m.with_v(x, wrap8(vx + nn)), Flow::Next)),
        Opcode::Ldr => Ok((m.with_v(x, vy), Flow::Next)),
        Opcode::Or => Ok((m.with_v(x, vx | vy), Flow::Next)),
        Opcode::And => Ok((m.with_v(x, vx & vy), Flow::Next)),
        Opcode::Xor => Ok((m.with_v(x, vx ^ vy), Flow::Next)),
        Opcode::Add => Ok(
            (m.with_flag_then_v(if vx + vy > 255 { 1 } else { 0 }, x, wrap8(vx + vy)), Flow::Next),
        ),
        Opcode::Sub => Ok(
            (m.with_flag_then_v(if vx >= vy { 1 } else { 0 }, x, wrap8(vx - vy)), Flow::Next),
        ),
        Opcode::Shr => Ok((m.with_flag_then_v(vx % 2, x, vx / 2), Flow::Next)),
        Opcode::Subn => Ok(
            (m.with_flag_then_v(if vy >= vx { 1 } else { 0 }, x, wrap8(vy - vx)), Flow::Next),
        ),
        Opcode::Shl => Ok((m.with_flag_then_v(vx / 128, x, wrap8(vx * 2)), Flow::Next)),
        Opcode::Sne => Ok((m, skip_if(vx != vy))),
        Opcode::LdI => Ok((CpuState { i: nnn, ..m }, Flow::Next)),
        Opcode::JpReg => Ok((m, Flow::Goto((m.v[0] + nnn) as u16))),
        Opcode::Rnd => Ok((m.with_v(x, rnd & nn), Flow::Next)),
        Opcode::Display => {
            let n = ops.nibble4() as int;
            if m.i + n > RAM_SIZE {
                Err(CpuError::OutOfBounds)
            } else {
                let flag: u8 = if collides(m, vx, vy, n) { 1 } else { 0 };
                Ok((CpuState { display: drawn(m, vx, vy, n), ..m }.with_v(FLAG as int, flag), Flow::Next))
            }
        },
        Opcode::Skp => Ok((m, skip_if(m.keypad[(vx % 16) as int]))),
        Opcode::Sknp => Ok((m, skip_if(!m.keypad[(vx % 16) as int]))),
        Opcode::LdrDt => Ok((m.with_v(x, m.delay_timer), Flow::Next)),
        Opcode::LdrKp => if !m.waiting {
            Ok((CpuState { waiting: true, prev_keys: m.keypad, ..m }, Flow::Stay))
        } else if exists|k: int| first_new_key(m, k) {
            let k = choose|k: int| first_new_key(m, k);
            Ok((CpuState { waiting: false, ..m }.with_v(x, k as u8), Flow::Next))
        } else {
            Ok((CpuState { prev_keys: m.keypad, ..m }, Flow::Stay))
        },
        Opcode::LdDt => Ok((CpuState { delay_timer: vx, ..m }, Flow::Next)),
        Opcode::LdSt => Ok((CpuState { sound_timer: vx, ..m }, Flow::Next)),
        Opcode::AddI => Ok((CpuState { i: ((m.i + vx) % 65536) as u16, ..m }, Flow::Next)),
        Opcode::AddSp => Ok((CpuState { i: (FONT_BASE + GLYPH_BYTES * (vx % 16)) as u16, ..m }, Flow::Next)),
        Opcode::LdB => if m.i + 3 > RAM_SIZE {
            Err(CpuError::OutOfBounds)
        } else {
            Ok((
                CpuState {
                    ram: Seq::new(
                        RAM_SIZE as nat,
                        |a: int| if m.i <= a < m.i + 3 { bcd_digit(vx, a - m.i) } else { m.ram[a] },
                    ),
                    ..m
                },
                Flow::Next,
            ))
        },
        Opcode::LdMul => if m.i + x + 1 > RAM_SIZE {
            Err(CpuError::OutOfBounds)
        } else {
            Ok((
                CpuState {
                    ram: Seq::new(
                        RAM_SIZE as nat,
                        |a: int| if m.i <= a <= m.i + x { m.v[a - m.i] } else { m.ram[a] },
                    ),
                    ..m
                },
                Flow::Next,
            ))
        },
        Opcode::LdrMul => if m.i + x + 1 > RAM_SIZE {
            Err(CpuError::OutOfBounds)
        } else {
            Ok((
                CpuState {
                    v: Seq::new(16, |k: int| if k <= x { m.ram[m.i + k] } else { m.v[k] }),
                    ..m
                },
                Flow::Next,
            ))
        },
        Opcode::Unknown => Err(CpuError::InvalidInstruction(ops.instruction)),
    }
}

/// `r` and `m2` are what running `op` on `m` gives: the outcome of
/// [`execute_spec`], with the state kept as it was on an error.
pub open spec fn executed(
    m: CpuState,
    op: Opcode,
    ops: Operands,
    rnd: u8,
    r: Result<Flow, CpuError>,
    m2: CpuState,
) -> bool {
    match execute_spec(m, op, ops, rnd) {
        Ok((s, f)) => r == Ok::<Flow, CpuError>(f) && m2 == s,
        Err(e) => r == Err::<Flow, CpuError>(e) && m2 == m,
    }
}

/// Pixel `idx` lies `b` columns and `r` rows past the sprite origin `(x0, y0)`
/// exactly when it is the pixel that the origin plus `(b, r)` wraps to.
proof fn lemma_pixel_offset(x0: u8, y0: u8, r: int, b: int, idx: int)
    requires
        0 <= r < 32,
        0 <= b < 64,
        0 <= idx < DISPLAY_SIZE,
    ensures
        (row_offset(y0, idx) == r && col_offset(x0, idx) == b) <==> idx == ((y0 + r) % 32) * 64 + (
        x0 + b) % 64,
{
    let py = idx / 64;
    let px = idx % 64;
    assert(idx == py * 64 + px);
    assert(0 <= py < 32);
    assert((row_offset(y0, idx) == r) <==> py == (y0 + r) % 32);
    assert((col_offset(x0, idx) == b) <==> px == (x0 + b) % 64);
    let qy = (y0 + r) % 32;
    let qx = (x0 + b) % 64;
    if idx == qy * 64 + qx {
        assert(py == qy && px == qx);
    }
}

/// The pixels of a sprite's first `r` rows, and of the first `b` columns of row `r`.
pub open spec fn drawn_before(x0: u8, y0: u8, r: int, b: int, idx: int) -> bool {
    row_offset(y0, idx) < r || (row_offset(y0, idx) == r && col_offset(x0, idx) < b)
}

/// The big-endian word at the program counter.
pub open spec fn fetch_word(m: CpuState) -> u16 {
    (m.ram[m.pc as int] * 256 + m.ram[m.pc + 1]) as u16
}

/// One full cycle: fetch, classify, execute, then move the program counter;
/// on an error the state is left as it was.
pub open spec fn step_spec(m: CpuState, rnd: u8) -> Result<CpuState, CpuError> {
    if m.pc + 1 >= RAM_SIZE {
        Err(CpuError::OutOfBounds)
    } else {
        let w = fetch_word(m);
        match execute_spec(m, opcode_of(w), Operands { instruction: w }, rnd) {
            Ok((s, f)) => Ok(CpuState { pc: next_pc(m.pc, f), ..s }),
            Err(e) => Err(e),
        }
    }
}

/// `r` and `m2` are what one cycle on `m` with random byte `rnd` gives.
pub open spec fn stepped(m: CpuState, rnd: u8, r: Result<(), CpuError>, m2: CpuState) -> bool {
    match step_spec(m, rnd) {
        Ok(s) => r == Ok::<(), CpuError>(()) && m2 == s,
        Err(e) => r == Err::<(), CpuError>(e) && m2 == m,
    }
}

/// A timer reading `t` after `ticks` ticks: down by one per tick, stopping at zero.
pub open spec fn after_ticks(t: u8, ticks: int) -> u8 {
    if t > ticks {
        (t - ticks) as u8
    } else {
        0
    }
}

/// The built-in glyphs of the hexadecimal digits, five rows each.
pub open spec fn font() -> Seq<u8> {
    seq![
        0xF0, 0x90, 0x90, 0x90, 0xF0, 0x20, 0x60, 0x20, 0x20, 0x70,
        0xF0, 0x10, 0xF0, 0x80, 0xF0, 0xF0, 0x10, 0xF0, 0x10, 0xF0,
        0x90, 0x90, 0xF0, 0x10, 0x10, 0xF0, 0x80, 0xF0, 0x10, 0xF0,
        0xF0, 0x80, 0xF0, 0x90, 0xF0, 0xF0, 0x10, 0x20, 0x40, 0x40,
        0xF0, 0x90, 0xF0, 0x90, 0xF0, 0xF0, 0x90, 0xF0, 0x10, 0xF0,
        0xF0, 0x90, 0xF0, 0x90, 0x90, 0xE0, 0x90, 0xE0, 0x90, 0xE0,
        0xF0, 0x80, 0x80, 0x80, 0xF0, 0xE0, 0x90, 0x90, 0x90, 0xE0,
        0xF0, 0x80, 0xF0, 0x80, 0xF0, 0xF0, 0x80, 0xF0, 0x80, 0x80,
    ]
}

/// The machine as it is created: everything zero or off, the glyphs in
/// memory at `FONT_BASE`, the program counter at `PROGRAM_START`.
pub open spec fn reset_state() -> CpuState {
    CpuState {
        v: Seq::new(16, |k: int| 0u8),
        i: 0,
        stack: Seq::new(STACK_DEPTH as nat, |k: int| 0u16),
        pc: PROGRAM_START,
        sp: 0,
        delay_timer: 0,
        sound_timer: 0,
        ram: Seq::new(
            RAM_SIZE as nat,
            |a: int| if FONT_BASE <= a < FONT_BASE + 80 { font()[a - FONT_BASE] } else { 0u8 },
        ),
        keypad: Seq::new(16, |k: int| false),
        display: Seq::new(DISPLAY_SIZE as nat, |k: int| false),
        waiting: false,
        prev_keys: Seq::new(16, |k: int| false),
        elapsed: 0,
    }
}

/// The register file, memory, stack, timers, keypad and display.
pub struct Cpu {
    v: [u8; 16],
    i: u16,
    stack: [u16; 16],
    pc: u16,
    sp: u8,
    delay_timer: u8,
    sound_timer: u8,
    ram: [u8; RAM_SIZE],
    keypad: [bool; 16],
    display: [bool; DISPLAY_SIZE],
    waiting: bool,
    prev_keys: [bool; 16],
    elapsed: u64,
}

/// Relies on `rand::random::<u8>`: a byte drawn from the thread-local generator.
/// Nothing is promised of its value.
#[verifier::external_body]
fn random_byte() -> (r: u8) {
    rand::random::<u8>()
}

impl View for Cpu {
    type V = CpuState;

    closed spec fn view(&self) -> CpuState {
        CpuState {
            v: self.v@,
            i: self.i,
            stack: self.stack@,
            pc: self.pc,
            sp: self.sp,
            delay_timer: self.delay_timer,
            sound_timer: self.sound_timer,
            ram: self.ram@,
            keypad: self.keypad@,
            display: self.display@,
            waiting: self.waiting,
            prev_keys: self.prev_keys@,
            elapsed: self.elapsed,
        }
    }
}

impl Cpu {
    pub open spec fn wf(&self) -> bool {
        self@.wf()
    }

    /// A machine in the reset state.
    pub fn new() -> (r: Cpu)
        ensures
            r.wf(),
            r@ == reset_state(),
    {
        let glyphs: [u8; 80] = [
            0xF0, 0x90, 0x90, 0x90, 0xF0, 0x20, 0x60, 0x20, 0x20, 0x70,
            0xF0, 0x10, 0xF0, 0x80, 0xF0, 0xF0, 0x10, 0xF0, 0x10, 0xF0,
            0x90, 0x90, 0xF0, 0x10, 0x10, 0xF0, 0x80, 0xF0, 0x10, 0xF0,
            0xF0, 0x80, 0xF0, 0x90, 0xF0, 0xF0, 0x10, 0x20, 0x40, 0x40,
            0xF0, 0x90, 0xF0, 0x90, 0xF0, 0xF0, 0x90, 0xF0, 0x10, 0xF0,
            0xF0, 0x90, 0xF0, 0x90, 0x90, 0xE0, 0x90, 0xE0, 0x90, 0xE0,
            0xF0, 0x80, 0x80, 0x80, 0xF0, 0xE0, 0x90, 0x90, 0x90, 0xE0,
            0xF0, 0x80, 0xF0, 0x80, 0xF0, 0xF0, 0x80, 0xF0, 0x80, 0x80,
        ];
        assert(glyphs@ =~= font());
        let mut ram = [0u8; RAM_SIZE];
        let mut k: usize = 0;
        while k < 80
            invariant
                k <= 80,
                glyphs@ == font(),
                forall|a: int|
                    0 <= a < RAM_SIZE ==> #[trigger] ram[a] == if FONT_BASE <= a < FONT_BASE + k {
                        font()[a - FONT_BASE]
                    } else {
                        0u8
                    },
            decreases 80 - k,
        {
            ram[FONT_BASE as usize + k] = glyphs[k];
            k = k + 1;
        }
        let cpu = Cpu {
            v: [0u8; 16],
            i: 0,
            stack: [0u16; 16],
            pc: PROGRAM_START,
            sp: 0,
            delay_timer: 0,
            sound_timer: 0,
            ram,
            keypad: [false; 16],
            display: [false; DISPLAY_SIZE],
            waiting: false,
            prev_keys: [false; 16],
            elapsed: 0,
        };
        assert(cpu@.v =~= reset_state().v);
        assert(cpu@.stack =~= reset_state().stack);
        assert(cpu@.ram =~= reset_state().ram);
        assert(cpu@.keypad =~= reset_state().keypad);
        assert(cpu@.display =~= reset_state().display);
        assert(cpu@.prev_keys =~= reset_state().prev_keys);
        cpu
    }

    /// Puts the machine back in the reset state.
    pub fn reset(&mut self)
        ensures
            final(self).wf(),
            final(self)@ == reset_state(),
    {
        *self = Cpu::new();
    }

    /// Copies `program` into memory from `addr` on; fails, changing nothing,
    /// when it would run past the end of memory.
    pub fn load_program(&mut self, program: &[u8], addr: u16) -> (r: Result<(), CpuError>)
        requires
            old(self).wf(),
        ensures
            final(self).wf(),
            addr + program@.len() > RAM_SIZE ==> r == Err::<(), CpuError>(CpuError::OutOfBounds)
                && final(self)@ == old(self)@,
            addr + program@.len() <= RAM_SIZE ==> r == Ok::<(), CpuError>(()) && final(self)@ == (
            CpuState {
                ram: Seq::new(
                    RAM_SIZE as nat,
                    |a: int|
                        if addr <= a < addr + program@.len() {
                            program@[a - addr]
                        } else {
                            old(self)@.ram[a]
                        },
                ),
                ..old(self)@
            }),
    {
        let base = addr as usize;
        if base > RAM_SIZE || program.len() > RAM_SIZE - base {
            return Err(CpuError::OutOfBounds);
        }
        let mut k: usize = 0;
        while k < program.len()
            invariant
                k <= program@.len(),
                base == addr,
                base + program@.len() <= RAM_SIZE,
                self@ == (CpuState { ram: self@.ram, ..old(self)@ }),
                forall|a: int|
                    0 <= a < RAM_SIZE ==> #[trigger] self.ram[a] == if base <= a < base + k {
                        program@[a - base]
                    } else {
                        old(self).ram[a]
                    },
            decreases program@.len() - k,
        {
            self.ram[base + k] = program[k];
            k = k + 1;
        }
        assert(self@.ram =~= Seq::new(
            RAM_SIZE as nat,
            |a: int| if addr <= a < addr + program@.len() { program@[a - addr] } else { old(self)@.ram[a] },
        ));
        Ok(())
    }

    /// Records whether key `key` is down.
    pub fn set_key(&mut self, key: u8, pressed: bool)
        requires
            old(self).wf(),
            key < 16,
        ensures
            final(self).wf(),
            final(self)@ == (CpuState { keypad: old(self)@.keypad.update(key as int, pressed), ..old(self)@ }),
    {
        self.keypad[key as usize] = pressed;
    }

    /// Runs one cycle, drawing a random byte for a random-and-mask instruction.
    pub fn simulate_cycle(&mut self) -> (r: Result<(), CpuError>)
        requires
            old(self).wf(),
        ensures
            final(self).wf(),
            exists|rnd: u8| stepped(old(self)@, rnd, r, final(self)@),
    {
        let rnd = random_byte();
        self.step(rnd)
    }

    /// Runs one cycle, with `rnd` as the byte that a random-and-mask instruction uses.
    pub fn step(&mut self, rnd: u8) -> (r: Result<(), CpuError>)
        requires
            old(self).wf(),
        ensures
            final(self).wf(),
            stepped(old(self)@, rnd, r, final(self)@),
    {
        let instruction = match self.fetch() {
            Ok(w) => w,
            Err(e) => return Err(e),
        };
        let (opcode, operands) = Cpu::decode(instruction);
        let flow = match self.execute(opcode, operands, rnd) {
            Ok(f) => f,
            Err(e) => return Err(e),
        };
        self.pc = match flow {
            Flow::Next => self.pc + 2,
            Flow::Skip => self.pc + 4,
            Flow::Goto(a) => a,
            Flow::Stay => self.pc,
        };
        Ok(())
    }

    /// The big-endian word at the program counter.
    fn fetch(&self) -> (r: Result<u16, CpuError>)
        requires
            self.wf(),
        ensures
            self.pc + 1 >= RAM_SIZE ==> r == Err::<u16, CpuError>(CpuError::OutOfBounds),
            self.pc + 1 < RAM_SIZE ==> r == Ok::<u16, CpuError>(fetch_word(self@)),
    {
        let pc = self.pc as usize;
        if pc + 1 >= RAM_SIZE {
            return Err(CpuError::OutOfBounds);
        }
        Ok(self.ram[pc] as u16 * 256 + self.ram[pc + 1] as u16)
    }

    /// The kind and operands of an instruction word.
    fn decode(instruction: u16) -> (r: (Opcode, Operands))
        ensures
            r.0 == opcode_of(instruction),
            r.1 == (Operands { instruction }),
    {
        let operands = Operands::new(instruction);
        let opcode = match instruction >> 12 {
            0 => match operands.nn() {
                0xE0 => Opcode::Cls,
                0xEE => Opcode::Ret,
                _ => Opcode::Unknown,
            },
            1 => Opcode::Jp,
            2 => Opcode::Call,
            3 => Opcode::SeImm,
            4 => Opcode::SneImm,
            5 => Opcode::Se,
            6 => Opcode::LdrIm,
            7 => Opcode::AddIm,
            8 => match operands.n() {
                0x0 => Opcode::Ldr,
                0x1 => Opcode::Or,
                0x2 => Opcode::And,
                0x3 => Opcode::Xor,
                0x4 => Opcode::Add,
                0x5 => Opcode::Sub,
                0x6 => Opcode::Shr,
                0x7 => Opcode::Subn,
                0xE => Opcode::Shl,
                _ => Opcode::Unknown,
            },
            9 => Opcode::Sne,
            0xA => Opcode::LdI,
            0xB => Opcode::JpReg,
            0xC => Opcode::Rnd,
            0xD => Opcode::Display,
            0xE => match operands.nn() {
                0x9E => Opcode::Skp,
                0xA1 => Opcode::Sknp,
                _ => Opcode::Unknown,
            },
            _ => match operands.nn() {
                0x07 => Opcode::LdrDt,
                0x0A => Opcode::LdrKp,
                0x15 => Opcode::LdDt,
                0x18 => Opcode::LdSt,
                0x1E => Opcode::AddI,
                0x29 => Opcode::AddSp,
                0x33 => Opcode::LdB,
                0x55 => Opcode::LdMul,
                0x65 => Opcode::LdrMul,
                _ => Opcode::Unknown,
            },
        };
        (opcode, operands)
    }

    /// Applies one instruction; the program counter is left to the caller.
    fn execute(&mut self, opcode: Opcode, operands: Operands, rnd: u8) -> (r: Result<Flow, CpuError>)
        requires
            old(self).wf(),
            old(self).pc + 2 <= u16::MAX,
        ensures
            executed(old(self)@, opcode, operands, rnd, r, final(self)@),
    {
        match opcode {
            Opcode::Cls => self.cls(),
            Opcode::Ret => self.ret(),
            Opcode::Jp => self.jp(operands),
            Opcode::Call => self.call(operands),
            Opcode::SeImm => self.se_imm(operands),
            Opcode::SneImm => self.sne_imm(operands),
            Opcode::Se => self.se(operands),
            Opcode::LdrIm => self.ldr_im(operands),
            Opcode::AddIm => self.add_im(operands),
            Opcode::Ldr => self.ldr(operands),
            Opcode::Or => self.or(operands),
            Opcode::And => self.and(operands),
            Opcode::Xor => self.xor(operands),
            Opcode::Add => self.add(operands),
            Opcode::Sub => self.sub(operands),
            Opcode::Shr => self.shr(operands),
            Opcode::Subn => self.subn(operands),
            Opcode::Shl => self.shl(operands),
            Opcode::Sne => self.sne(operands),
            Opcode::LdI => self.ld_i(operands),
            Opcode::JpReg => self.jp_reg(operands),
            Opcode::Rnd => self.rnd(operands, rnd),
            Opcode::Display => self.display(operands),
            Opcode::Skp => self.skp(operands),
            Opcode::Sknp => self.sknp(operands),
            Opcode::LdrDt => self.ldr_dt(operands),
            Opcode::LdrKp => self.ldr_kp(operands),
            Opcode::LdDt => self.ld_dt(operands),
            Opcode::LdSt => self.ld_st(operands),
            Opcode::AddI => self.add_i(operands),
            Opcode::AddSp => self.add_sp(operands),
            Opcode::LdB => self.ld_b(operands),
            Opcode::LdMul => self.ld_mul(operands),
            Opcode::LdrMul => self.ldr_mul(operands),
            Opcode::Unknown => Err(CpuError::InvalidInstruction(operands.instruction)),
        }
    }

    /// One timer tick: each timer that is not zero goes down by one.
    pub fn update_timers(&mut self)
        requires
            old(self).wf(),
        ensures
            final(self).wf(),
            final(self)@ == (CpuState {
                delay_timer: after_ticks(old(self)@.delay_timer, 1),
                sound_timer: after_ticks(old(self)@.sound_timer, 1),
                ..old(self)@
            }),
    {
        if self.delay_timer > 0 {
            self.delay_timer = self.delay_timer - 1;
        }
        if self.sound_timer > 0 {
            self.sound_timer = self.sound_timer - 1;
        }
    }

    /// Lets `micros` microseconds pass: the timers take one tick for each full
    /// `TICK_MICROS` elapsed, counting what was left over from earlier calls.
    pub fn advance_time(&mut self, micros: u64)
        requires
            old(self).wf(),
        ensures
            final(self).wf(),
            ({
                let total = old(self)@.elapsed + micros;
                let ticks = total / (TICK_MICROS as int);
                final(self)@ == (CpuState {
                    delay_timer: after_ticks(old(self)@.delay_timer, ticks),
                    sound_timer: after_ticks(old(self)@.sound_timer, ticks),
                    elapsed: (total % (TICK_MICROS as int)) as u64,
                    ..old(self)@
                })
            }),
    {
        let rest = self.elapsed + micros % TICK_MICROS;
        let ticks = micros / TICK_MICROS + rest / TICK_MICROS;
        proof {
            let total = old(self)@.elapsed + micros;
            assert(total / (TICK_MICROS as int) == ticks) by (nonlinear_arith)
                requires
                    total == self.elapsed + micros,
                    rest == self.elapsed + micros % TICK_MICROS,
                    ticks == micros / TICK_MICROS + rest / TICK_MICROS,
                    TICK_MICROS == 16_667,
            ;
            assert(total % (TICK_MICROS as int) == rest % TICK_MICROS) by (nonlinear_arith)
                requires
                    total == self.elapsed + micros,
                    rest == self.elapsed + micros % TICK_MICROS,
                    TICK_MICROS == 16_667,
            ;
        }
        self.delay_timer = if ticks >= self.delay_timer as u64 {
            0
        } else {
            self.delay_timer - ticks as u8
        };
        self.sound_timer = if ticks >= self.sound_timer as u64 {
            0
        } else {
            self.sound_timer - ticks as u8
        };
        self.elapsed = rest % TICK_MICROS;
    }

    /// The program counter.
    pub fn pc(&self) -> (r: u16)
        ensures
            r == self@.pc,
    {
        self.pc
    }

    /// Register `Vx`.
    pub fn register(&self, x: usize) -> (r: u8)
        requires
            self.wf(),
            x < 16,
        ensures
            r == self@.v[x as int],
    {
        self.v[x]
    }

    /// The index register `I`.
    pub fn index_register(&self) -> (r: u16)
        ensures
            r == self@.i,
    {
        self.i
    }

    /// The number of return addresses on the stack.
    pub fn stack_pointer(&self) -> (r: u8)
        ensures
            r == self@.sp,
    {
        self.sp
    }

    /// The delay timer.
    pub fn delay_timer(&self) -> (r: u8)
        ensures
            r == self@.delay_timer,
    {
        self.delay_timer
    }

    /// The sound timer.
    pub fn sound_timer(&self) -> (r: u8)
        ensures
            r == self@.sound_timer,
    {
        self.sound_timer
    }

    /// Whether sound is on: exactly while the sound timer is not zero.
    pub fn sound_active(&self) -> (r: bool)
        ensures
            r == (self@.sound_timer != 0),
    {
        self.sound_timer != 0
    }

    /// The byte at `addr`.
    pub fn memory(&self, addr: usize) -> (r: u8)
        requires
            self.wf(),
            addr < RAM_SIZE,
        ensures
            r == self@.ram[addr as int],
    {
        self.ram[addr]
    }

    /// Whether key `key` is down.
    pub fn key_pressed(&self, key: u8) -> (r: bool)
        requires
            self.wf(),
            key < 16,
        ensures
            r == self@.keypad[key as int],
    {
        self.keypad[key as usize]
    }

    /// Whether a wait-for-key instruction is pending.
    pub fn is_waiting_for_key(&self) -> (r: bool)
        ensures
            r == self@.waiting,
    {
        self.waiting
    }

    /// The pixel at column `x`, row `y`.
    pub fn pixel(&self, x: usize, y: usize) -> (r: bool)
        requires
            self.wf(),
            x < DISPLAY_WIDTH,
            y < DISPLAY_HEIGHT,
        ensures
            r == self@.display[y * DISPLAY_WIDTH + x],
    {
        self.display[y * DISPLAY_WIDTH + x]
    }

    /// The display buffer, row by row.
    pub fn display_buffer(&self) -> (r: &[bool; DISPLAY_SIZE])
        ensures
            r@ == self@.display,
    {
        &self.display
    }

    /// Clears the display.
    fn cls(&mut self) -> (r: Result<Flow, CpuError>)
        requires
            old(self).wf(),
        ensures
            executed(old(self)@, Opcode::Cls, Operands { instruction: 0 }, 0, r, final(self)@),
    {
        let mut k: usize = 0;
        while k < DISPLAY_SIZE
            invariant
                0 <= k <= DISPLAY_SIZE,
                forall|j: int| 0 <= j < k ==> !self.display[j],
                self@ == (CpuState { display: self@.display, ..old(self)@ }),
            decreases DISPLAY_SIZE - k,
        {
            self.display[k] = false;
            k = k + 1;
        }
        assert(self@.display =~= Seq::new(DISPLAY_SIZE as nat, |k: int| false));
        Ok(Flow::Next)
    }

    /// Returns from a subroutine to the address on top of the stack.
    fn ret(&mut self) -> (r: Result<Flow, CpuError>)
        requires
            old(self).wf(),
        ensures
            executed(old(self)@, Opcode::Ret, Operands { instruction: 0 }, 0, r, final(self)@),
    {
        if self.sp == 0 {
            return Err(CpuError::StackUnderflow);
        }
        self.sp = self.sp - 1;
        Ok(Flow::Goto(self.stack[self.sp as usize]))
    }

    /// Draws the sprite of `n` rows at `I` onto the display at `(Vx, Vy)`.
    fn display(&mut self, ops: Operands) -> (r: Result<Flow, CpuError>)
        requires
            old(self).wf(),
        ensures
            executed(old(self)@, Opcode::Display, ops, 0, r, final(self)@),
    {
        let n = ops.n() as usize;
        let base = self.i as usize;
        if base + n > RAM_SIZE {
            return Err(CpuError::OutOfBounds);
        }
        let x0 = self.v[ops.x()];
        let y0 = self.v[ops.y()];
        let ghost m = self@;
        let ghost nn = n as int;
        let mut collision = false;
        let mut row: usize = 0;
        while row < n
            invariant
                m == old(self)@,
                m.wf(),
                base == m.i,
                n < 16,
                base + n <= RAM_SIZE,
                nn == n,
                row <= n,
                self@ == (CpuState { display: self@.display, ..m }),
                forall|idx: int|
                    0 <= idx < DISPLAY_SIZE ==> #[trigger] self@.display[idx] == (m.display[idx] != (
                    covers(m, x0, y0, nn, idx) && drawn_before(x0, y0, row as int, 0, idx))),
                collision <==> exists|idx: int|
                    0 <= idx < DISPLAY_SIZE && covers(m, x0, y0, nn, idx) && drawn_before(
                        x0,
                        y0,
                        row as int,
                        0,
                        idx,
                    ) && #[trigger] m.display[idx],
            decreases n - row,
        {
            let byte = self.ram[base + row];
            let py = (y0 as usize + row) % DISPLAY_HEIGHT;
            let mut col: usize = 0;
            while col < 8
                invariant
                    m == old(self)@,
                    m.wf(),
                    base == m.i,
                    n < 16,
                    base + n <= RAM_SIZE,
                    nn == n,
                    row < n,
                    col <= 8,
                    byte == m.ram[base + row],
                    py == (y0 + row) % 32,
                    self@ == (CpuState { display: self@.display, ..m }),
                    forall|idx: int|
                        0 <= idx < DISPLAY_SIZE ==> #[trigger] self@.display[idx] == (m.display[idx]
                            != (covers(m, x0, y0, nn, idx) && drawn_before(
                            x0,
                            y0,
                            row as int,
                            col as int,
                            idx,
                        ))),
                    collision <==> exists|idx: int|
                        0 <= idx < DISPLAY_SIZE && covers(m, x0, y0, nn, idx) && drawn_before(
                            x0,
                            y0,
                            row as int,
                            col as int,
                            idx,
                        ) && #[trigger] m.display[idx],
                decreases 8 - col,
            {
                let px = (x0 as usize + col) % DISPLAY_WIDTH;
                let idx = py * DISPLAY_WIDTH + px;
                let ghost before = self@.display;
                let ghost was_colliding = collision;
                proof {
                    assert forall|j: int| 0 <= j < DISPLAY_SIZE implies (drawn_before(
                        x0,
                        y0,
                        row as int,
                        col + 1,
                        j,
                    ) <==> (drawn_before(x0, y0, row as int, col as int, j) || j == idx)) by {
                        lemma_pixel_offset(x0, y0, row as int, col as int, j);
                    }
                    lemma_pixel_offset(x0, y0, row as int, col as int, idx as int);
                }
                if (byte >> ((7 - col) as u8)) & 1 == 1 {
                    assert(covers(m, x0, y0, nn, idx as int));
                    if self.display[idx] {
                        collision = true;
                    }
                    self.display[idx] = !self.display[idx];
                } else {
                    assert(!covers(m, x0, y0, nn, idx as int));
                }
                proof {
                    if was_colliding {
                        let w = choose|j: int|
                            0 <= j < DISPLAY_SIZE && covers(m, x0, y0, nn, j) && drawn_before(
                                x0,
                                y0,
                                row as int,
                                col as int,
                                j,
                            ) && #[trigger] m.display[j];
                        assert(drawn_before(x0, y0, row as int, col + 1, w));
                    }
                    if collision && !was_colliding {
                        assert(m.display[idx as int]);
                        assert(drawn_before(x0, y0, row as int, col + 1, idx as int));
                    }
                    if !collision {
                        assert forall|j: int|
                            0 <= j < DISPLAY_SIZE && covers(m, x0, y0, nn, j) && drawn_before(
                                x0,
                                y0,
                                row as int,
                                col + 1,
                                j,
                            ) implies !#[trigger] m.display[j] by {
                            if j != idx {
                                assert(drawn_before(x0, y0, row as int, col as int, j));
                            }
                        }
                    }
                }
                col = col + 1;
            }
            proof {
                assert forall|j: int| 0 <= j < DISPLAY_SIZE implies (covers(m, x0, y0, nn, j)
                    && drawn_before(x0, y0, row as int, 8, j)) == (covers(m, x0, y0, nn, j)
                    && drawn_before(x0, y0, row + 1, 0, j)) by {}
            }
            row = row + 1;
        }
        proof {
            assert forall|j: int| 0 <= j < DISPLAY_SIZE implies (covers(m, x0, y0, nn, j)
                && drawn_before(x0, y0, nn, 0, j)) == covers(m, x0, y0, nn, j) by {}
            assert(self@.display =~= drawn(m, x0, y0, nn));
        }
        self.v[FLAG] = if collision { 1 } else { 0 };
        Ok(Flow::Next)
    }

    /// Waits for a key to go down, then loads its index into `Vx`.
    fn ldr_kp(&mut self, ops: Operands) -> (r: Result<Flow, CpuError>)
        requires
            old(self).wf(),
        ensures
            executed(old(self)@, Opcode::LdrKp, ops, 0, r, final(self)@),
    {
        if !self.waiting {
            self.waiting = true;
            self.prev_keys = self.keypad;
            return Ok(Flow::Stay);
        }
        let mut k: usize = 0;
        while k < 16
            invariant
                self@ == old(self)@,
                self.wf(),
                self.waiting,
                k <= 16,
                forall|j: int| 0 <= j < k ==> !newly_pressed(self@, j),
            decreases 16 - k,
        {
            if self.keypad[k] && !self.prev_keys[k] {
                let ghost m = self@;
                proof {
                    assert(first_new_key(m, k as int));
                    let c = choose|c: int| first_new_key(m, c);
                    assert(c == k);
                }
                self.waiting = false;
                self.v[ops.x()] = k as u8;
                return Ok(Flow::Next);
            }
            k = k + 1;
        }
        self.prev_keys = self.keypad;
        Ok(Flow::Stay)
    }

    /// Jumps to `nnn`.
    fn jp(&mut self, ops: Operands) -> (r: Result<Flow, CpuError>)
        requires
            old(self).wf(),
        ensures
            executed(old(self)@, Opcode::Jp, ops, 0, r, final(self)@),
    {
        Ok(Flow::Goto(ops.nnn()))
    }

    /// Pushes the address of the next instruction and jumps to `nnn`.
    fn call(&mut self, ops: Operands) -> (r: Result<Flow, CpuError>)
        requires
            old(self).wf(),
            old(self).pc + 2 <= u16::MAX,
        ensures
            executed(old(self)@, Opcode::Call, ops, 0, r, final(self)@),
    {
        if self.sp >= STACK_DEPTH {
            return Err(CpuError::StackOverflow);
        }
        self.stack[self.sp as usize] = self.pc + 2;
        self.sp = self.sp + 1;
        Ok(Flow::Goto(ops.nnn()))
    }

    /// Skips the next instruction if `Vx == nn`.
    fn se_imm(&mut self, ops: Operands) -> (r: Result<Flow, CpuError>)
        requires
            old(self).wf(),
        ensures
            executed(old(self)@, Opcode::SeImm, ops, 0, r, final(self)@),
    {
        let x = ops.x();
        if self.v[x] == ops.nn() as u8 {
            Ok(Flow::Skip)
        } else {
            Ok(Flow::Next)
        }
    }

    /// Skips the next instruction if `Vx != nn`.
    fn sne_imm(&mut self, ops: Operands) -> (r: Result<Flow, CpuError>)
        requires
            old(self).wf(),
        ensures
            executed(old(self)@, Opcode::SneImm, ops, 0, r, final(self)@),
    {
        let x = ops.x();
        if self.v[x] != ops.nn() as u8 {
            Ok(Flow::Skip)
        } else {
            Ok(Flow::Next)
        }
    }

    /// Skips the next instruction if `Vx == Vy`.
    fn se(&mut self, ops: Operands) -> (r: Result<Flow, CpuError>)
        requires
            old(self).wf(),
        ensures
            executed(old(self)@, Opcode::Se, ops, 0, r, final(self)@),
    {
        let (x, y) = (ops.x(), ops.y());
        if self.v[x] == self.v[y] {
            Ok(Flow::Skip)
        } else {
            Ok(Flow::Next)
        }
    }

    /// Loads `nn` into `Vx`.
    fn ldr_im(&mut self, ops: Operands) -> (r: Result<Flow, CpuError>)
        requires
            old(self).wf(),
        ensures
            executed(old(self)@, Opcode::LdrIm, ops, 0, r, final(self)@),
    {
        self.v[ops.x()] = ops.nn() as u8;
        Ok(Flow::Next)
    }

    /// Adds `nn` to `Vx`, wrapping, with no flag.
    fn add_im(&mut self, ops: Operands) -> (r: Result<Flow, CpuError>)
        requires
            old(self).wf(),
        ensures
            executed(old(self)@, Opcode::AddIm, ops, 0, r, final(self)@),
    {
        let x = ops.x();
        self.v[x] = ((self.v[x] as u16 + ops.nn()) % 256) as u8;
        Ok(Flow::Next)
    }

    /// Copies `Vy` into `Vx`.
    fn ldr(&mut self, ops: Operands) -> (r: Result<Flow, CpuError>)
        requires
            old(self).wf(),
        ensures
            executed(old(self)@, Opcode::Ldr, ops, 0, r, final(self)@),
    {
        let (x, y) = (ops.x(), ops.y());
        self.v[x] = self.v[y];
        Ok(Flow::Next)
    }

    /// `Vx |= Vy`.
    fn or(&mut self, ops: Operands) -> (r: Result<Flow, CpuError>)
        requires
            old(self).wf(),
        ensures
            executed(old(self)@, Opcode::Or, ops, 0, r, final(self)@),
    {
        let (x, y) = (ops.x(), ops.y());
        self.v[x] = self.v[x] | self.v[y];
        Ok(Flow::Next)
    }

    /// `Vx &= Vy`.
    fn and(&mut self, ops: Operands) -> (r: Result<Flow, CpuError>)
        requires
            old(self).wf(),
        ensures
            executed(old(self)@, Opcode::And, ops, 0, r, final(self)@),
    {
        let (x, y) = (ops.x(), ops.y());
        self.v[x] = self.v[x] & self.v[y];
        Ok(Flow::Next)
    }

    /// `Vx ^= Vy`.
    fn xor(&mut self, ops: Operands) -> (r: Result<Flow, CpuError>)
        requires
            old(self).wf(),
        ensures
            executed(old(self)@, Opcode::Xor, ops, 0, r, final(self)@),
    {
        let (x, y) = (ops.x(), ops.y());
        self.v[x] = self.v[x] ^ self.v[y];
        Ok(Flow::Next)
    }

    /// `Vx += Vy`, with the carry in the flag register.
    fn add(&mut self, ops: Operands) -> (r: Result<Flow, CpuError>)
        requires
            old(self).wf(),
        ensures
            executed(old(self)@, Opcode::Add, ops, 0, r, final(self)@),
    {
        let (x, y) = (ops.x(), ops.y());
        let sum = self.v[x] as u16 + self.v[y] as u16;
        self.v[FLAG] = if sum > 0xFF { 1 } else { 0 };
        self.v[x] = (sum % 256) as u8;
        Ok(Flow::Next)
    }

    /// `Vx -= Vy`, with 1 in the flag register when no borrow occurs.
    fn sub(&mut self, ops: Operands) -> (r: Result<Flow, CpuError>)
        requires
            old(self).wf(),
        ensures
            executed(old(self)@, Opcode::Sub, ops, 0, r, final(self)@),
    {
        let (x, y) = (ops.x(), ops.y());
        let (vx, vy) = (self.v[x], self.v[y]);
        let diff = ((vx as u16 + 256 - vy as u16) % 256) as u8;
        assert(diff == wrap8(vx - vy));
        self.v[FLAG] = if vx >= vy { 1 } else { 0 };
        self.v[x] = diff;
        Ok(Flow::Next)
    }

    /// Shifts `Vx` right by one; the bit shifted out goes to the flag register.
    fn shr(&mut self, ops: Operands) -> (r: Result<Flow, CpuError>)
        requires
            old(self).wf(),
        ensures
            executed(old(self)@, Opcode::Shr, ops, 0, r, final(self)@),
    {
        let x = ops.x();
        let vx = self.v[x];
        self.v[FLAG] = vx % 2;
        self.v[x] = vx / 2;
        Ok(Flow::Next)
    }

    /// `Vx = Vy - Vx`, with 1 in the flag register when no borrow occurs.
    fn subn(&mut self, ops: Operands) -> (r: Result<Flow, CpuError>)
        requires
            old(self).wf(),
        ensures
            executed(old(self)@, Opcode::Subn, ops, 0, r, final(self)@),
    {
        let (x, y) = (ops.x(), ops.y());
        let (vx, vy) = (self.v[x], self.v[y]);
        let diff = ((vy as u16 + 256 - vx as u16) % 256) as u8;
        assert(diff == wrap8(vy - vx));
        self.v[FLAG] = if vy >= vx { 1 } else { 0 };
        self.v[x] = diff;
        Ok(Flow::Next)
    }

    /// Shifts `Vx` left by one; the bit shifted out goes to the flag register.
    fn shl(&mut self, ops: Operands) -> (r: Result<Flow, CpuError>)
        requires
            old(self).wf(),
        ensures
            executed(old(self)@, Opcode::Shl, ops, 0, r, final(self)@),
    {
        let x = ops.x();
        let vx = self.v[x];
        self.v[FLAG] = vx / 128;
        self.v[x] = ((vx as u16 * 2) % 256) as u8;
        Ok(Flow::Next)
    }

    /// Skips the next instruction if `Vx != Vy`.
    fn sne(&mut self, ops: Operands) -> (r: Result<Flow, CpuError>)
        requires
            old(self).wf(),
        ensures
            executed(old(self)@, Opcode::Sne, ops, 0, r, final(self)@),
    {
        let (x, y) = (ops.x(), ops.y());
        if self.v[x] != self.v[y] {
            Ok(Flow::Skip)
        } else {
            Ok(Flow::Next)
        }
    }

    /// Loads `nnn` into `I`.
    fn ld_i(&mut self, ops: Operands) -> (r: Result<Flow, CpuError>)
        requires
            old(self).wf(),
        ensures
            executed(old(self)@, Opcode::LdI, ops, 0, r, final(self)@),
    {
        self.i = ops.nnn();
        Ok(Flow::Next)
    }

    /// Jumps to `V0 + nnn`.
    fn jp_reg(&mut self, ops: Operands) -> (r: Result<Flow, CpuError>)
        requires
            old(self).wf(),
        ensures
            executed(old(self)@, Opcode::JpReg, ops, 0, r, final(self)@),
    {
        Ok(Flow::Goto(self.v[0] as u16 + ops.nnn()))
    }

    /// Loads `rnd & nn` into `Vx`.
    fn rnd(&mut self, ops: Operands, rnd: u8) -> (r: Result<Flow, CpuError>)
        requires
            old(self).wf(),
        ensures
            executed(old(self)@, Opcode::Rnd, ops, rnd, r, final(self)@),
    {
        let x = ops.x();
        self.v[x] = rnd & (ops.nn() as u8);
        Ok(Flow::Next)
    }

    /// Skips the next instruction if the key numbered by the low nibble of `Vx` is down.
    fn skp(&mut self, ops: Operands) -> (r: Result<Flow, CpuError>)
        requires
            old(self).wf(),
        ensures
            executed(old(self)@, Opcode::Skp, ops, 0, r, final(self)@),
    {
        let key = (self.v[ops.x()] % 16) as usize;
        if self.keypad[key] {
            Ok(Flow::Skip)
        } else {
            Ok(Flow::Next)
        }
    }

    /// Skips the next instruction if the key numbered by the low nibble of `Vx` is up.
    fn sknp(&mut self, ops: Operands) -> (r: Result<Flow, CpuError>)
        requires
            old(self).wf(),
        ensures
            executed(old(self)@, Opcode::Sknp, ops, 0, r, final(self)@),
    {
        let key = (self.v[ops.x()] % 16) as usize;
        if !self.keypad[key] {
            Ok(Flow::Skip)
        } else {
            Ok(Flow::Next)
        }
    }

    /// Loads the delay timer into `Vx`.
    fn ldr_dt(&mut self, ops: Operands) -> (r: Result<Flow, CpuError>)
        requires
            old(self).wf(),
        ensures
            executed(old(self)@, Opcode::LdrDt, ops, 0, r, final(self)@),
    {
        self.v[ops.x()] = self.delay_timer;
        Ok(Flow::Next)
    }

    /// Sets the delay timer from `Vx`.
    fn ld_dt(&mut self, ops: Operands) -> (r: Result<Flow, CpuError>)
        requires
            old(self).wf(),
        ensures
            executed(old(self)@, Opcode::LdDt, ops, 0, r, final(self)@),
    {
        self.delay_timer = self.v[ops.x()];
        Ok(Flow::Next)
    }

    /// Sets the sound timer from `Vx`.
    fn ld_st(&mut self, ops: Operands) -> (r: Result<Flow, CpuError>)
        requires
            old(self).wf(),
        ensures
            executed(old(self)@, Opcode::LdSt, ops, 0, r, final(self)@),
    {
        self.sound_timer = self.v[ops.x()];
        Ok(Flow::Next)
    }

    /// Adds `Vx` to `I`, wrapping at 16 bits.
    fn add_i(&mut self, ops: Operands) -> (r: Result<Flow, CpuError>)
        requires
            old(self).wf(),
        ensures
            executed(old(self)@, Opcode::AddI, ops, 0, r, final(self)@),
    {
        let vx = self.v[ops.x()];
        self.i = ((self.i as u32 + vx as u32) % 65536) as u16;
        Ok(Flow::Next)
    }

    /// Points `I` at the glyph of the digit in the low nibble of `Vx`.
    fn add_sp(&mut self, ops: Operands) -> (r: Result<Flow, CpuError>)
        requires
            old(self).wf(),
        ensures
            executed(old(self)@, Opcode::AddSp, ops, 0, r, final(self)@),
    {
        let digit = (self.v[ops.x()] % 16) as u16;
        self.i = FONT_BASE + GLYPH_BYTES * digit;
        Ok(Flow::Next)
    }

    /// Stores the decimal digits of `Vx` at `I`, `I + 1` and `I + 2`.
    fn ld_b(&mut self, ops: Operands) -> (r: Result<Flow, CpuError>)
        requires
            old(self).wf(),
        ensures
            executed(old(self)@, Opcode::LdB, ops, 0, r, final(self)@),
    {
        let base = self.i as usize;
        if base + 3 > RAM_SIZE {
            return Err(CpuError::OutOfBounds);
        }
        let vx = self.v[ops.x()];
        self.ram[base] = vx / 100;
        self.ram[base + 1] = (vx / 10) % 10;
        self.ram[base + 2] = vx % 10;
        assert(self@.ram =~= Seq::new(
            RAM_SIZE as nat,
            |a: int| if base <= a < base + 3 { bcd_digit(vx, a - base) } else { old(self)@.ram[a] },
        ));
        Ok(Flow::Next)
    }

    /// Stores `V0` to `Vx` in memory from `I` on.
    fn ld_mul(&mut self, ops: Operands) -> (r: Result<Flow, CpuError>)
        requires
            old(self).wf(),
        ensures
            executed(old(self)@, Opcode::LdMul, ops, 0, r, final(self)@),
    {
        let base = self.i as usize;
        let x = ops.x();
        if base + x + 1 > RAM_SIZE {
            return Err(CpuError::OutOfBounds);
        }
        let mut k: usize = 0;
        while k <= x
            invariant
                0 <= k <= x + 1,
                x < 16,
                base + x + 1 <= RAM_SIZE,
                base == old(self).i,
                self@ == (CpuState { ram: self@.ram, ..old(self)@ }),
                forall|a: int|
                    0 <= a < RAM_SIZE ==> #[trigger] self.ram[a] == if base <= a < base + k {
                        old(self).v[a - base]
                    } else {
                        old(self).ram[a]
                    },
            decreases x + 1 - k,
        {
            self.ram[base + k] = self.v[k];
            k = k + 1;
        }
        assert(self@.ram =~= Seq::new(
            RAM_SIZE as nat,
            |a: int| if base <= a <= base + x { old(self)@.v[a - base] } else { old(self)@.ram[a] },
        ));
        Ok(Flow::Next)
    }

    /// Loads `V0` to `Vx` from memory from `I` on.
    fn ldr_mul(&mut self, ops: Operands) -> (r: Result<Flow, CpuError>)
        requires
            old(self).wf(),
        ensures
            executed(old(self)@, Opcode::LdrMul, ops, 0, r, final(self)@),
    {
        let base = self.i as usize;
        let x = ops.x();
        if base + x + 1 > RAM_SIZE {
            return Err(CpuError::OutOfBounds);
        }
        let mut k: usize = 0;
        while k <= x
            invariant
                0 <= k <= x + 1,
                x < 16,
                base + x + 1 <= RAM_SIZE,
                base == old(self).i,
                self@ == (CpuState { v: self@.v, ..old(self)@ }),
                forall|j: int|
                    0 <= j < 16 ==> #[trigger] self.v[j] == if j < k {
                        old(self).ram[base + j]
                    } else {
                        old(self).v[j]
                    },
            decreases x + 1 - k,
        {
            self.v[k] = self.ram[base + k];
            k = k + 1;
        }
        assert(self@.v =~= Seq::new(16, |j: int| if j <= x { old(self)@.ram[base + j] } else { old(self)@.v[j] }));
        Ok(Flow::Next)
    }
}

} // verus!

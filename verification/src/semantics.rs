//! Mathematical model of the machine and of every instruction's effect.
//!
//! The executable code in `cpu` is specified against the functions here:
//! `spec_exec` gives the meaning of one instruction word, `spec_tick` the
//! meaning of one whole tick (timer bookkeeping, wait-for-key sampling,
//! program-counter update). Addresses wrap modulo the 4096-byte memory, the
//! same masking that the 12-bit index register performs.

use vstd::arithmetic::div_mod::{
    lemma_add_mod_noop_right, lemma_mod_add_multiples_vanish, lemma_small_mod, lemma_sub_mod_noop,
    lemma_sub_mod_noop_right,
};
use vstd::prelude::*;

verus! {

/// The abstract state of the interpreter: every field of the executable
/// machine as a mathematical value.
#[verifier::ext_equal]
pub ghost struct MachineView {
    /// Program counter, an address into `mem`.
    pub pc: int,
    /// Call-stack pointer: number of live entries in `stack`.
    pub sp: int,
    /// Delay timer.
    pub dt: u8,
    /// Sound timer.
    pub st: u8,
    /// 12-bit index register.
    pub i: int,
    /// The 16 general-purpose registers; index 15 is the flag register.
    pub regs: Seq<u8>,
    /// Return-address stack, 16 slots.
    pub stack: Seq<u16>,
    /// 4096 bytes of memory.
    pub mem: Seq<u8>,
    /// Framebuffer, row-major, 32 rows of 64 pixels.
    pub vram: Seq<u8>,
    /// Whether the framebuffer changed during the current tick.
    pub vram_changed: bool,
    /// When `Some(x)`, the machine is suspended until a key is pressed;
    /// the key's index is then captured into register `x`.
    pub waiting: Option<int>,
    /// Keypad snapshot of the current tick, 16 keys.
    pub keypad: Seq<bool>,
}

impl MachineView {
    /// Well-formedness: every component within its architectural range.
    pub open spec fn inv(self) -> bool {
        &&& 0 <= self.pc < 4096
        &&& 0 <= self.sp <= 16
        &&& 0 <= self.i < 4096
        &&& self.regs.len() == 16
        &&& self.stack.len() == 16
        &&& self.mem.len() == 4096
        &&& self.vram.len() == 2048
        &&& self.keypad.len() == 16
        &&& match self.waiting {
            Some(x) => 0 <= x < 16,
            None => true,
        }
    }
}

/// An address reduced to the 4096-byte memory range.
pub open spec fn wrap_addr(a: int) -> int {
    a % 4096
}

/// The four-bit instruction class (topmost nibble of the word).
pub open spec fn op_c(op: u16) -> int {
    (op / 0x1000) as int
}

/// First register-index operand (second nibble).
pub open spec fn op_x(op: u16) -> int {
    ((op / 0x100) % 0x10) as int
}

/// Second register-index operand (third nibble).
pub open spec fn op_y(op: u16) -> int {
    ((op / 0x10) % 0x10) as int
}

/// Four-bit immediate (lowest nibble).
pub open spec fn op_n(op: u16) -> int {
    (op % 0x10) as int
}

/// Eight-bit immediate (low byte).
pub open spec fn op_kk(op: u16) -> u8 {
    (op % 0x100) as u8
}

/// Twelve-bit address immediate (low three nibbles).
pub open spec fn op_nnn(op: u16) -> u16 {
    op % 0x1000
}

/// The instruction word stored at `pc`: high byte first, low byte at the
/// following address (wrapping at the end of memory).
pub open spec fn spec_opcode_at(mem: Seq<u8>, pc: int) -> u16 {
    (mem[pc] * 256 + mem[wrap_addr(pc + 1)]) as u16
}

/// Eight-bit sum, wrapped.
pub open spec fn wrap_add8(a: u8, b: u8) -> u8 {
    ((a + b) % 256) as u8
}

/// Eight-bit difference, wrapped.
pub open spec fn wrap_sub8(a: u8, b: u8) -> u8 {
    ((a - b) % 256) as u8
}

/// A skip outcome when `cond` holds, else a plain advance.
pub open spec fn skip_if(cond: bool) -> PcChange {
    if cond {
        PcChange::Skip
    } else {
        PcChange::Increment
    }
}

use crate::cpu::{Error, PcChange};

/// Register `x` replaced by `v`, everything else unchanged.
pub open spec fn with_reg(m: MachineView, x: int, v: u8) -> MachineView {
    MachineView { regs: m.regs.update(x, v), ..m }
}

/// Clear-display: every pixel off, frame marked changed.
pub open spec fn sp_clear(m: MachineView) -> MachineView {
    MachineView { vram: Seq::new(2048, |p: int| 0u8), vram_changed: true, ..m }
}

/// Return: pop an address and jump to it; underflow on an empty stack
/// leaves the machine unchanged.
pub open spec fn sp_ret(m: MachineView) -> (MachineView, Result<PcChange, Error>) {
    if m.sp == 0 {
        (m, Err(Error::StackUnderflow))
    } else {
        (
            MachineView { sp: m.sp - 1, ..m },
            Ok(PcChange::Jump(m.stack[m.sp - 1] as usize)),
        )
    }
}

/// Call: push the address of the following instruction, jump to `nnn`;
/// overflow on a full stack leaves the machine unchanged.
pub open spec fn sp_call(m: MachineView, nnn: u16) -> (MachineView, Result<PcChange, Error>) {
    if m.sp >= 16 {
        (m, Err(Error::StackOverflow))
    } else {
        (
            MachineView {
                stack: m.stack.update(m.sp, (m.pc + 2) as u16),
                sp: m.sp + 1,
                ..m
            },
            Ok(PcChange::Jump(nnn as usize)),
        )
    }
}

/// Add register `y` into register `x` with the carry captured in the flag
/// register: destination first, flag written afterwards.
pub open spec fn sp_add_reg(m: MachineView, x: int, y: int) -> MachineView {
    let sum = m.regs[x] + m.regs[y];
    let flag: u8 = if sum > 255 { 1 } else { 0 };
    MachineView { regs: m.regs.update(x, (sum % 256) as u8).update(15, flag), ..m }
}

/// Subtract register `y` from register `x` with the no-borrow flag: the flag
/// register is written first (1 when the minuend is at least the
/// subtrahend), then the destination takes the wrapped difference of the
/// then-current register values.
pub open spec fn sp_sub_xy(m: MachineView, x: int, y: int) -> MachineView {
    let flag: u8 = if m.regs[x] >= m.regs[y] { 1 } else { 0 };
    let r1 = m.regs.update(15, flag);
    MachineView { regs: r1.update(x, wrap_sub8(r1[x], r1[y])), ..m }
}

/// Subtract register `x` from register `y`, into `x`, with the no-borrow
/// flag written first.
pub open spec fn sp_sub_yx(m: MachineView, x: int, y: int) -> MachineView {
    let flag: u8 = if m.regs[y] >= m.regs[x] { 1 } else { 0 };
    let r1 = m.regs.update(15, flag);
    MachineView { regs: r1.update(x, wrap_sub8(r1[y], r1[x])), ..m }
}

/// Shift register `x` right one bit; the flag register first captures the
/// bit shifted out.
pub open spec fn sp_shr(m: MachineView, x: int) -> MachineView {
    let flag: u8 = if m.regs[x] % 2 == 1 { 1 } else { 0 };
    let r1 = m.regs.update(15, flag);
    MachineView { regs: r1.update(x, r1[x] / 2), ..m }
}

/// Shift register `x` left one bit; the flag register first captures the
/// bit shifted out.
pub open spec fn sp_shl(m: MachineView, x: int) -> MachineView {
    let flag: u8 = if m.regs[x] >= 128 { 1 } else { 0 };
    let r1 = m.regs.update(15, flag);
    MachineView { regs: r1.update(x, ((r1[x] * 2) % 256) as u8), ..m }
}

/// Add register `x` into the index register, which wraps at its 12-bit
/// range; the flag register records whether it wrapped.
pub open spec fn sp_add_i(m: MachineView, x: int) -> MachineView {
    let sum = m.i + m.regs[x];
    let flag: u8 = if sum > 4095 { 1 } else { 0 };
    MachineView { i: sum % 4096, regs: m.regs.update(15, flag), ..m }
}

/// Store the decimal digits of register `x` (hundreds, tens, ones) in three
/// consecutive memory cells at the index address.
pub open spec fn sp_bcd(m: MachineView, x: int) -> MachineView {
    let v = m.regs[x];
    MachineView {
        mem: m.mem
            .update(wrap_addr(m.i), (v / 100) as u8)
            .update(wrap_addr(m.i + 1), (((v % 100) / 10) as u8))
            .update(wrap_addr(m.i + 2), (v % 10) as u8),
        ..m
    }
}

/// Bulk-store registers `0..=x` into memory at the index address: the cell
/// `k` steps past the index register (wrapping) takes register `k`.
pub open spec fn sp_store_regs(m: MachineView, x: int) -> MachineView {
    MachineView {
        mem: Seq::new(
            4096,
            |a: int|
                if (a - m.i) % 4096 <= x {
                    m.regs[(a - m.i) % 4096]
                } else {
                    m.mem[a]
                },
        ),
        ..m
    }
}

/// Bulk-load registers `0..=x` from memory at the index address.
pub open spec fn sp_load_regs(m: MachineView, x: int) -> MachineView {
    MachineView {
        regs: Seq::new(
            16,
            |k: int| if k <= x { m.mem[wrap_addr(m.i + k)] } else { m.regs[k] },
        ),
        ..m
    }
}

/// The sprite pixel for `row` and `col`: bit `7 - col` (most significant
/// first) of the sprite byte `row` steps past the index address.
pub open spec fn sprite_bit(mem: Seq<u8>, i: int, row: int, col: int) -> u8 {
    (mem[wrap_addr(i + row)] >> ((7 - col) as u8)) & 1
}

/// Which sprite row, if any, covers framebuffer row `py` when the sprite is
/// drawn at row `ry`: rows wrap around the 32-row screen.
pub open spec fn row_of(py: int, ry: u8) -> int {
    (py - ry) % 32
}

/// Which sprite column covers framebuffer column `px` when drawn at `rx`.
pub open spec fn col_of(px: int, rx: u8) -> int {
    (px - rx) % 64
}

/// Whether the pixel at flat position `p` lies under an `n`-row sprite
/// drawn at `(rx, ry)`.
pub open spec fn covers(p: int, rx: u8, ry: u8, n: int) -> bool {
    row_of(p / 64, ry) < n && col_of(p % 64, rx) < 8
}

/// The framebuffer after an `n`-row sprite is XOR-composited at `(rx, ry)`:
/// each covered pixel is flipped by its sprite bit, every other pixel keeps
/// its value.
pub open spec fn draw_vram(m: MachineView, rx: u8, ry: u8, n: int) -> Seq<u8> {
    Seq::new(
        2048,
        |p: int|
            if covers(p, rx, ry, n) {
                m.vram[p] ^ sprite_bit(m.mem, m.i, row_of(p / 64, ry), col_of(p % 64, rx))
            } else {
                m.vram[p]
            },
    )
}

/// Whether the draw collides: some covered pixel is lit and its sprite bit
/// is set, so the XOR turns it off.
pub open spec fn draw_collides(m: MachineView, rx: u8, ry: u8, n: int) -> bool {
    exists|p: int|
        0 <= p < 2048 && covers(p, rx, ry, n)
            && sprite_bit(m.mem, m.i, row_of(p / 64, ry), col_of(p % 64, rx)) == 1
            && #[trigger] m.vram[p] & 1 == 1
}

/// Draw-sprite: the flag register is reset first, the sprite coordinates
/// are then read from registers `x` and `y`, the sprite is composited, the
/// flag register reports a collision, and the frame is marked changed.
pub open spec fn sp_draw(m: MachineView, x: int, y: int, n: int) -> MachineView {
    let m0 = with_reg(m, 15, 0);
    let rx = m0.regs[x];
    let ry = m0.regs[y];
    let flag: u8 = if draw_collides(m0, rx, ry, n) { 1 } else { 0 };
    MachineView {
        vram: draw_vram(m0, rx, ry, n),
        regs: m0.regs.update(15, flag),
        vram_changed: true,
        ..m
    }
}

/// The meaning of one instruction word: the machine after executing it in
/// state `m`, and the program-counter outcome. Dispatch is total: any word
/// matching no pattern is reported as unrecognized and changes nothing.
/// `rnd` is the byte drawn for the random-register instruction; no other
/// instruction reads it.
pub open spec fn spec_exec(m: MachineView, op: u16, rnd: u8) -> (MachineView, Result<
    PcChange,
    Error,
>) {
    let c = op_c(op);
    let x = op_x(op);
    let y = op_y(op);
    let n = op_n(op);
    let kk = op_kk(op);
    let nnn = op_nnn(op);
    if c == 0x0 && x == 0x0 && y == 0xE && n == 0x0 {
        (sp_clear(m), Ok(PcChange::Increment))
    } else if c == 0x0 && x == 0x0 && y == 0xE && n == 0xE {
        sp_ret(m)
    } else if c == 0x1 {
        (m, Ok(PcChange::Jump(nnn as usize)))
    } else if c == 0x2 {
        sp_call(m, nnn)
    } else if c == 0x3 {
        (m, Ok(skip_if(m.regs[x] == kk)))
    } else if c == 0x4 {
        (m, Ok(skip_if(m.regs[x] != kk)))
    } else if c == 0x5 && n == 0x0 {
        (m, Ok(skip_if(m.regs[x] == m.regs[y])))
    } else if c == 0x6 {
        (with_reg(m, x, kk), Ok(PcChange::Increment))
    } else if c == 0x7 {
        (with_reg(m, x, wrap_add8(m.regs[x], kk)), Ok(PcChange::Increment))
    } else if c == 0x8 && n == 0x0 {
        (with_reg(m, x, m.regs[y]), Ok(PcChange::Increment))
    } else if c == 0x8 && n == 0x1 {
        (with_reg(m, x, m.regs[x] | m.regs[y]), Ok(PcChange::Increment))
    } else if c == 0x8 && n == 0x2 {
        (with_reg(m, x, m.regs[x] & m.regs[y]), Ok(PcChange::Increment))
    } else if c == 0x8 && n == 0x3 {
        (with_reg(m, x, m.regs[x] ^ m.regs[y]), Ok(PcChange::Increment))
    } else if c == 0x8 && n == 0x4 {
        (sp_add_reg(m, x, y), Ok(PcChange::Increment))
    } else if c == 0x8 && n == 0x5 {
        (sp_sub_xy(m, x, y), Ok(PcChange::Increment))
    } else if c == 0x8 && n == 0x6 {
        (sp_shr(m, x), Ok(PcChange::Increment))
    } else if c == 0x8 && n == 0x7 {
        (sp_sub_yx(m, x, y), Ok(PcChange::Increment))
    } else if c == 0x8 && n == 0xE {
        (sp_shl(m, x), Ok(PcChange::Increment))
    } else if c == 0x9 && n == 0x0 {
        (m, Ok(skip_if(m.regs[x] != m.regs[y])))
    } else if c == 0xA {
        (MachineView { i: nnn as int, ..m }, Ok(PcChange::Increment))
    } else if c == 0xB {
        (m, Ok(PcChange::Jump((nnn + m.regs[0]) as usize)))
    } else if c == 0xC {
        (with_reg(m, x, rnd & kk), Ok(PcChange::Increment))
    } else if c == 0xD {
        (sp_draw(m, x, y, n), Ok(PcChange::Increment))
    } else if c == 0xE && y == 0x9 && n == 0xE {
        (m, Ok(skip_if(m.keypad[m.regs[x] as int % 16])))
    } else if c == 0xE && y == 0xA && n == 0x1 {
        (m, Ok(skip_if(!m.keypad[m.regs[x] as int % 16])))
    } else if c == 0xF && y == 0x0 && n == 0x7 {
        (with_reg(m, x, m.dt), Ok(PcChange::Increment))
    } else if c == 0xF && y == 0x0 && n == 0xA {
        (MachineView { waiting: Some(x), ..m }, Ok(PcChange::Increment))
    } else if c == 0xF && y == 0x1 && n == 0x5 {
        (MachineView { dt: m.regs[x], ..m }, Ok(PcChange::Increment))
    } else if c == 0xF && y == 0x1 && n == 0x8 {
        (MachineView { st: m.regs[x], ..m }, Ok(PcChange::Increment))
    } else if c == 0xF && y == 0x1 && n == 0xE {
        (sp_add_i(m, x), Ok(PcChange::Increment))
    } else if c == 0xF && y == 0x2 && n == 0x9 {
        (MachineView { i: m.regs[x] * 5, ..m }, Ok(PcChange::Increment))
    } else if c == 0xF && y == 0x3 && n == 0x3 {
        (sp_bcd(m, x), Ok(PcChange::Increment))
    } else if c == 0xF && y == 0x5 && n == 0x5 {
        (sp_store_regs(m, x), Ok(PcChange::Increment))
    } else if c == 0xF && y == 0x6 && n == 0x5 {
        (sp_load_regs(m, x), Ok(PcChange::Increment))
    } else {
        (m, Err(Error::InvalidOpcode(op)))
    }
}

/// Whether the instruction at the program counter draws from the random
/// source when the machine is not suspended.
pub open spec fn tick_uses_rand(m: MachineView) -> bool {
    m.waiting is None && op_c(spec_opcode_at(m.mem, m.pc)) == 0xC
}

/// The lowest-index pressed key at or above index `k`, if any.
pub open spec fn first_pressed_from(keys: Seq<bool>, k: int) -> Option<int>
    decreases 16 - k,
{
    if k < 0 || k >= 16 {
        None
    } else if keys[k] {
        Some(k)
    } else {
        first_pressed_from(keys, k + 1)
    }
}

/// The lowest-index pressed key, if any.
pub open spec fn first_pressed(keys: Seq<bool>) -> Option<int> {
    first_pressed_from(keys, 0)
}

/// The meaning of one tick: the keypad snapshot is stored and the
/// changed-frame flag cleared; a suspended machine only samples the keypad
/// (the lowest pressed key resumes it); otherwise the delay timer counts
/// down one step, the instruction at the program counter executes, and the
/// program counter advances, skips, or jumps (wrapping into memory range).
/// A decode or stack error leaves control flow untouched and is the
/// reported condition.
pub open spec fn spec_tick(m: MachineView, keys: Seq<bool>, rnd: u8) -> (MachineView, Option<
    Error,
>) {
    let m0 = MachineView { keypad: keys, vram_changed: false, ..m };
    match m.waiting {
        Some(x) => match first_pressed(keys) {
            Some(k) => (
                MachineView { regs: m0.regs.update(x, k as u8), waiting: None, ..m0 },
                None,
            ),
            None => (m0, None),
        },
        None => {
            let m1 = MachineView {
                dt: if m0.dt > 0 { (m0.dt - 1) as u8 } else { 0 },
                ..m0
            };
            let op = spec_opcode_at(m1.mem, m1.pc);
            let r = spec_exec(m1, op, rnd);
            let m2 = r.0;
            match r.1 {
                Ok(PcChange::Increment) => (
                    MachineView { pc: wrap_addr(m2.pc + 2), ..m2 },
                    None,
                ),
                Ok(PcChange::Skip) => (MachineView { pc: wrap_addr(m2.pc + 4), ..m2 }, None),
                Ok(PcChange::Jump(a)) => (MachineView { pc: wrap_addr(a as int), ..m2 }, None),
                Err(e) => (m2, Some(e)),
            }
        },
    }
}

/// The built-in font: sixteen hexadecimal digit glyphs of five bytes each,
/// installed at the bottom of memory.
pub open spec fn font_table() -> Seq<u8> {
    seq![
        0xF0u8, 0x90, 0x90, 0x90, 0xF0,
        0x20, 0x60, 0x20, 0x20, 0x70,
        0xF0, 0x10, 0xF0, 0x80, 0xF0,
        0xF0, 0x10, 0xF0, 0x10, 0xF0,
        0x90, 0x90, 0xF0, 0x10, 0x10,
        0xF0, 0x80, 0xF0, 0x10, 0xF0,
        0xF0, 0x80, 0xF0, 0x90, 0xF0,
        0xF0, 0x10, 0x20, 0x40, 0x40,
        0xF0, 0x90, 0xF0, 0x90, 0xF0,
        0xF0, 0x90, 0xF0, 0x10, 0xF0,
        0xF0, 0x90, 0xF0, 0x90, 0x90,
        0xE0, 0x90, 0xE0, 0x90, 0xE0,
        0xF0, 0x80, 0x80, 0x80, 0xF0,
        0xE0, 0x90, 0x90, 0x90, 0xE0,
        0xF0, 0x80, 0xF0, 0x80, 0xF0,
        0xF0, 0x80, 0xF0, 0x80, 0x80,
    ]
}

/// A fresh machine: everything zero except the program counter, which
/// starts at the load origin, and the font table at the bottom of memory.
pub open spec fn sp_new() -> MachineView {
    MachineView {
        pc: 0x200,
        sp: 0,
        dt: 0,
        st: 0,
        i: 0,
        regs: Seq::new(16, |k: int| 0u8),
        stack: Seq::new(16, |k: int| 0u16),
        mem: font_table() + Seq::new(4016, |a: int| 0u8),
        vram: Seq::new(2048, |p: int| 0u8),
        vram_changed: false,
        waiting: None,
        keypad: Seq::new(16, |k: int| false),
    }
}

/// A program image copied into memory at the load origin; bytes past the
/// end of memory are dropped.
pub open spec fn sp_load(m: MachineView, data: Seq<u8>) -> MachineView {
    let copied: int = if data.len() <= 3584 { data.len() as int } else { 3584 };
    MachineView {
        mem: Seq::new(
            4096,
            |a: int| if 0x200 <= a < 0x200 + copied { data[a - 0x200] } else { m.mem[a] },
        ),
        ..m
    }
}

/// Walking `k` cells past `i` and wrapping lands at distance `k` from `i`.
pub proof fn lemma_wrap_dist(i: int, k: int)
    requires
        0 <= i < 4096,
        0 <= k < 4096,
    ensures
        ((i + k) % 4096 - i) % 4096 == k,
{
    lemma_sub_mod_noop(i + k, i, 4096);
    lemma_small_mod(i as nat, 4096);
    lemma_small_mod(k as nat, 4096);
}

/// An address is `k` wrapped cells past `i` exactly when its wrapped
/// distance from `i` is `k`.
pub proof fn lemma_wrap_dist_inv(i: int, a: int, k: int)
    requires
        0 <= i < 4096,
        0 <= a < 4096,
        0 <= k < 4096,
    ensures
        ((a - i) % 4096 == k) <==> (a == (i + k) % 4096),
{
    lemma_wrap_dist(i, k);
    lemma_add_mod_noop_right(i, a - i, 4096);
    lemma_small_mod(a as nat, 4096);
}

/// The executable form of a wrapped difference of coordinates: reducing
/// the subtrahend first and shifting by the modulus leaves the result.
pub proof fn lemma_wrap_coord(a: int, b: int, m: int)
    requires
        0 <= a < m,
        0 <= b,
    ensures
        (a + m - b % m) % m == (a - b) % m,
{
    lemma_sub_mod_noop_right(a, b, m);
    lemma_mod_add_multiples_vanish(a - b % m, m);
}

} // verus!

//! Laws of the machine: properties that relate several transitions, proved
//! once and for all over the model in `semantics`.

use vstd::prelude::*;

use crate::cpu::{Error, PcChange};
use crate::semantics::{
    covers, lemma_wrap_dist, sp_add_reg, sp_call, sp_clear, sp_draw, sp_load, sp_load_regs,
    sp_new, sp_ret, sp_store_regs, sp_sub_xy, spec_opcode_at, spec_tick, sprite_bit, wrap_addr,
    wrap_sub8, MachineView,
};
use vstd::arithmetic::div_mod::lemma_small_mod;

verus! {

/// On a fresh machine with a program image loaded, the program counter is
/// the load origin and the instruction it designates is the one formed
/// from the image's first two bytes — so the first tick executes the
/// instruction at the load origin, never elsewhere.
pub proof fn lemma_load_executes_at_origin(data: Seq<u8>)
    requires
        2 <= data.len(),
    ensures
        sp_load(sp_new(), data).pc == 0x200,
        sp_load(sp_new(), data).waiting is None,
        spec_opcode_at(sp_load(sp_new(), data).mem, sp_load(sp_new(), data).pc) == data[0] * 256
            + data[1],
{
    let m = sp_load(sp_new(), data);
    lemma_small_mod(0x201, 4096);
    assert(m.mem[0x200] == data[0]);
    assert(m.mem[0x201] == data[1]);
}

/// A well-formed machine stays well-formed across any tick, whatever the
/// keypad snapshot and whatever byte the random source yields: the index
/// register keeps to its 12 bits, the stack pointer to its capacity, and
/// the program counter to the memory range.
pub proof fn lemma_tick_preserves_well_formedness(m: MachineView, keys: Seq<bool>, rnd: u8)
    requires
        m.inv(),
        keys.len() == 16,
    ensures
        spec_tick(m, keys, rnd).0.inv(),
{
}

/// Clear-display yields an all-zero framebuffer and a changed flag of
/// true, whatever the framebuffer held before.
pub proof fn lemma_clear_display(m: MachineView)
    ensures
        sp_clear(m).vram.len() == 2048,
        forall|p: int| 0 <= p < 2048 ==> sp_clear(m).vram[p] == 0u8,
        sp_clear(m).vram_changed,
{
}

/// Call followed by return: for any target address, the call jumps there
/// after pushing the address of the instruction following the call, the
/// return pops exactly that address, and the stack depth is unchanged net
/// of the pair.
pub proof fn lemma_call_return_round_trip(m: MachineView, nnn: u16)
    requires
        m.inv(),
        m.sp < 16,
    ensures
        sp_call(m, nnn).1 == Ok::<PcChange, Error>(PcChange::Jump(nnn as usize)),
        sp_call(m, nnn).0.sp == m.sp + 1,
        sp_ret(sp_call(m, nnn).0).1 == Ok::<PcChange, Error>(
            PcChange::Jump((m.pc + 2) as usize),
        ),
        sp_ret(sp_call(m, nnn).0).0.sp == m.sp,
{
    let m1 = sp_call(m, nnn).0;
    assert(m1.stack[m.sp] == (m.pc + 2) as u16);
}

/// Register-register add: the flag register ends 1 exactly when the
/// unsigned sum of the two operands exceeds 255, and a destination other
/// than the flag register itself holds the sum modulo 256 — for every pair
/// of eight-bit operand values.
pub proof fn lemma_add_sets_carry(m: MachineView, x: int, y: int)
    requires
        m.inv(),
        0 <= x < 16,
        0 <= y < 16,
    ensures
        sp_add_reg(m, x, y).regs[15] == (if m.regs[x] + m.regs[y] > 255 {
            1u8
        } else {
            0u8
        }),
        x != 15 ==> sp_add_reg(m, x, y).regs[x] == ((m.regs[x] + m.regs[y]) % 256) as u8,
{
}

/// Subtract-with-borrow, register `x` minus register `y` into `x`, with
/// both operands outside the flag register: the flag register ends 1
/// exactly when no borrow occurs, that is when the minuend is at least the
/// subtrahend, and the destination holds the wrapped difference.
pub proof fn lemma_sub_sets_no_borrow(m: MachineView, x: int, y: int)
    requires
        m.inv(),
        0 <= x < 16,
        0 <= y < 16,
        x != 15,
        y != 15,
    ensures
        sp_sub_xy(m, x, y).regs[15] == (if m.regs[x] >= m.regs[y] {
            1u8
        } else {
            0u8
        }),
        sp_sub_xy(m, x, y).regs[x] == wrap_sub8(m.regs[x], m.regs[y]),
{
}

/// XOR with the same byte twice is the identity.
proof fn lemma_xor_involution(v: u8, b: u8)
    ensures
        (v ^ b) ^ b == v,
{
    assert((v ^ b) ^ b == v) by (bit_vector);
}

/// Every bit of an all-set byte is set.
proof fn lemma_all_set_bit(s: u8)
    requires
        s <= 7,
    ensures
        (0xFFu8 >> s) & 1 == 1,
{
    assert(s <= 7 ==> (0xFFu8 >> s) & 1 == 1) by (bit_vector);
}

/// Flipping the low bit of an even byte makes it odd.
proof fn lemma_flip_low_bit(v: u8)
    ensures
        v & 1 == 0 ==> (v ^ 1) & 1 == 1,
{
    assert(v & 1 == 0 ==> (v ^ 1) & 1 == 1) by (bit_vector);
}

/// Drawing a one-row all-set sprite twice at the same coordinates (taken
/// from registers other than the flag register) returns the framebuffer
/// exactly to its pre-draw state, and the second draw reports a collision
/// whenever some covered pixel was off before the pair — as it is, in
/// particular, on any framebuffer whose pixels are all off or all on-bits
/// cleared. (When every covered pixel starts lit, the first draw turns
/// them all off and the second reports none.)
pub proof fn lemma_draw_twice_restores(m: MachineView, x: int, y: int)
    requires
        m.inv(),
        0 <= x < 16,
        0 <= y < 16,
        x != 15,
        y != 15,
        m.mem[m.i] == 0xFF,
        exists|p: int|
            0 <= p < 2048 && covers(p, m.regs[x], m.regs[y], 1) && #[trigger] m.vram[p] & 1 == 0,
    ensures
        sp_draw(sp_draw(m, x, y, 1), x, y, 1).vram == m.vram,
        sp_draw(sp_draw(m, x, y, 1), x, y, 1).regs[15] == 1,
{
    let rx = m.regs[x];
    let ry = m.regs[y];
    let m1 = sp_draw(m, x, y, 1);
    let m2 = sp_draw(m1, x, y, 1);
    lemma_small_mod(m.i as nat, 4096);
    assert(m1.regs[x] == rx && m1.regs[y] == ry);
    assert(m1.mem == m.mem && m1.i == m.i);
    assert forall|p: int| 0 <= p < 2048 && covers(p, rx, ry, 1) implies sprite_bit(
        m.mem,
        m.i,
        0,
        (p % 64 - rx) % 64,
    ) == 1 by {
        let col = (p % 64 - rx) % 64;
        assert(0 <= col < 8);
        lemma_all_set_bit((7 - col) as u8);
    };
    assert forall|p: int| 0 <= p < 2048 implies m2.vram[p] == m.vram[p] by {
        if covers(p, rx, ry, 1) {
            let row = (p / 64 - ry) % 32;
            assert(0 <= row < 1);
            let bit = sprite_bit(m.mem, m.i, row, (p % 64 - rx) % 64);
            assert(m1.vram[p] == m.vram[p] ^ bit);
            assert(m2.vram[p] == m1.vram[p] ^ bit);
            lemma_xor_involution(m.vram[p], bit);
        }
    };
    assert(m2.vram =~= m.vram);
    let p0 = choose|p: int|
        0 <= p < 2048 && covers(p, m.regs[x], m.regs[y], 1) && #[trigger] m.vram[p] & 1 == 0;
    let row0 = (p0 / 64 - ry) % 32;
    assert(0 <= row0 < 1);
    let bit0 = sprite_bit(m.mem, m.i, row0, (p0 % 64 - rx) % 64);
    assert(bit0 == 1);
    assert(m1.vram[p0] == m.vram[p0] ^ 1);
    lemma_flip_low_bit(m.vram[p0]);
    assert(m1.vram[p0] & 1 == 1);
}

/// Bulk store then bulk load through the same memory region reproduces
/// every register exactly, for every upper register index: the store
/// places register `k` in the cell `k` steps past the index address for
/// every `k` up to and including `x`, and the load reads the same cells
/// back.
pub proof fn lemma_store_load_round_trip(m: MachineView, x: int)
    requires
        m.inv(),
        0 <= x < 16,
    ensures
        forall|k: int|
            0 <= k <= x ==> sp_store_regs(m, x).mem[#[trigger] wrap_addr(m.i + k)] == m.regs[k],
        sp_load_regs(sp_store_regs(m, x), x).regs == m.regs,
{
    let m1 = sp_store_regs(m, x);
    assert forall|k: int| 0 <= k <= x implies m1.mem[#[trigger] wrap_addr(m.i + k)]
        == m.regs[k] by {
        lemma_wrap_dist(m.i, k);
    };
    let m2 = sp_load_regs(m1, x);
    assert forall|k: int| 0 <= k < 16 implies m2.regs[k] == m.regs[k] by {
        if k <= x {
            lemma_wrap_dist(m.i, k);
        }
    };
    assert(m2.regs =~= m.regs);
}

} // verus!

//! The interpreter: machine state, instruction decode and execution, and the
//! per-tick transition function.
//!
//! Every public function is specified against the model in `semantics`.
//! Addresses computed from the index register or the program counter wrap
//! modulo the 4096-byte memory, and a key index taken from a register is
//! reduced to the 16-key range; both take the place of the out-of-range
//! accesses that the architecture leaves undefined.

use rand::Rng;
use vstd::arithmetic::div_mod::{lemma_mod_add_multiples_vanish, lemma_small_mod};
use vstd::prelude::*;

use crate::semantics::{
    col_of, covers, draw_vram, first_pressed, first_pressed_from, font_table, lemma_wrap_coord,
    lemma_wrap_dist, lemma_wrap_dist_inv, op_c, row_of, skip_if, sp_add_i, sp_add_reg, sp_bcd,
    sp_call, sp_clear, sp_draw, sp_load, sp_load_regs, sp_new, sp_ret, sp_shl, sp_shr,
    sp_store_regs, sp_sub_xy, sp_sub_yx, spec_exec, spec_opcode_at, spec_tick, sprite_bit,
    tick_uses_rand, with_reg, wrap_add8, wrap_addr, wrap_sub8, MachineView,
};

verus! {

/// Number of general-purpose registers.
pub const REGISTER_AMOUNT: usize = 16;
/// Capacity of the call stack.
pub const STACK_SIZE: usize = 16;
/// Size of one instruction word in bytes.
pub const OPCODE_SIZE: usize = 2;
/// Index of the register that carry, borrow and collision flags overwrite.
pub const FLAG_REGISTER: usize = 15;
/// Address at which a program image is placed and execution starts.
pub const LOAD_ORIGIN: usize = 0x200;

/// The 12-bit index register: a dedicated narrowed-integer type, masked to
/// its range on every assignment.
#[derive(Copy, Clone)]
pub struct IndexRegister {
    pub value: usize,
}

impl IndexRegister {
    /// An index register holding `value` reduced to 12 bits.
    pub fn from(value: usize) -> (r: Self)
        ensures
            r.value == value as int % 4096,
    {
        IndexRegister { value: value % 4096 }
    }

    /// The 12-bit sum with `rhs`, and whether the sum left the 12-bit range.
    pub fn overflowing_add(self, rhs: usize) -> (r: (Self, bool))
        requires
            self.value < 4096,
            rhs <= usize::MAX - 4096,
        ensures
            r.0.value == (self.value + rhs) % 4096,
            r.1 == (self.value + rhs > 4095),
    {
        let value = self.value + rhs;
        (IndexRegister { value: value % 4096 }, value > 4095)
    }
}

/// How an instruction leaves the program counter: advance to the next
/// instruction, skip one instruction, or jump to an address.
#[derive(Clone, Copy, Debug, PartialEq, Eq, Structural)]
pub enum PcChange {
    Increment,
    Skip,
    Jump(usize),
}

/// The recoverable error conditions: an instruction word matching no
/// pattern, a call with the stack full, a return with the stack empty.
#[derive(Clone, Copy, Debug, PartialEq, Eq, Structural)]
pub enum Error {
    InvalidOpcode(u16),
    StackOverflow,
    StackUnderflow,
}

/// What one tick hands back to the driving loop: the framebuffer, whether
/// it changed this tick, whether a tone should be audible, and the error
/// condition if the instruction could not execute.
pub struct OutputState<'a> {
    /// Row-major framebuffer, 32 rows of 64 pixels; zero is off.
    pub vram: &'a [u8; 2048],
    pub vram_changed: bool,
    pub beep: bool,
    pub error: Option<Error>,
}

/// The machine: all interpreter state, driven by `tick`.
pub struct CPU {
    pub pc: u16,
    pub sp: usize,
    pub dt: u8,
    pub st: u8,
    pub i: IndexRegister,
    pub registers: [u8; 16],
    pub stack: [u16; 16],
    pub memory: [u8; 4096],
    /// Row-major framebuffer, 32 rows of 64 pixels.
    pub vram: [u8; 2048],
    pub vram_changed: bool,
    pub waiting_for_key_press: Option<usize>,
    pub keypad: [bool; 16],
}

impl View for CPU {
    type V = MachineView;

    open spec fn view(&self) -> MachineView {
        MachineView {
            pc: self.pc as int,
            sp: self.sp as int,
            dt: self.dt,
            st: self.st,
            i: self.i.value as int,
            regs: self.registers@,
            stack: self.stack@,
            mem: self.memory@,
            vram: self.vram@,
            vram_changed: self.vram_changed,
            waiting: match self.waiting_for_key_press {
                Some(x) => Some(x as int),
                None => None,
            },
            keypad: self.keypad@,
        }
    }
}

impl CPU {
    /// Well-formedness: the abstract state is within architectural ranges.
    pub open spec fn wf(&self) -> bool {
        self@.inv()
    }

    /// The font glyphs as bytes, in glyph order.
    fn font_sprites() -> (v: Vec<u8>)
        ensures
            v@ == font_table(),
    {
        let v: Vec<u8> = vec![
            0xF0u8, 0x90, 0x90, 0x90, 0xF0,
            0x20, 0x60, 0x20, 0x20, 0x70,
            0xF0, 0x10, 0xF0, 0x80, 0xF0,
            0xF0, 0x10, 0xF0, 0x10, 0xF0,
            0x90, 0x90, 0xF0, 0x10, 0x10,
            0xF0, 0x80, 0xF0, 0x10, 0xF0,
            0xF0, 0x80, 0xF0, 0x90, 0xF0,
            0xF0, 0x10, 0x20, 0x40, 0x40,
            0xF0, 0x90, 0xF0, 0x90, 0xF0,
            0xF0, 0x90, 0xF0, 0x10, 0xF0,
            0xF0, 0x90, 0xF0, 0x90, 0x90,
            0xE0, 0x90, 0xE0, 0x90, 0xE0,
            0xF0, 0x80, 0x80, 0x80, 0xF0,
            0xE0, 0x90, 0x90, 0x90, 0xE0,
            0xF0, 0x80, 0xF0, 0x80, 0xF0,
            0xF0, 0x80, 0xF0, 0x80, 0x80,
        ];
        proof {
            assert(v@ =~= font_table());
        }
        v
    }

    /// A fresh machine: all state zeroed, the program counter at the load
    /// origin, the font installed at the bottom of memory.
    pub fn new() -> (r: CPU)
        ensures
            r.wf(),
            r@ == sp_new(),
    {
        let font = Self::font_sprites();
        let mut memory = [0u8; 4096];
        let mut k: usize = 0;
        while k < 80
            invariant
                k <= 80,
                font@ == font_table(),
                forall|a: int| 0 <= a < k ==> memory@[a] == font_table()[a],
                forall|a: int| k <= a < 4096 ==> memory@[a] == 0u8,
            decreases 80 - k,
        {
            memory[k] = font[k];
            k += 1;
        }
        let cpu = CPU {
            pc: 0x200,
            sp: 0,
            dt: 0,
            st: 0,
            i: IndexRegister::from(0),
            registers: [0u8; 16],
            stack: [0u16; 16],
            memory,
            vram: [0u8; 2048],
            vram_changed: false,
            waiting_for_key_press: None,
            keypad: [false; 16],
        };
        proof {
            assert(cpu@.mem =~= font_table() + Seq::new(4016, |a: int| 0u8));
            assert(cpu@.regs =~= Seq::new(16, |j: int| 0u8));
            assert(cpu@.stack =~= Seq::new(16, |j: int| 0u16));
            assert(cpu@.vram =~= Seq::new(2048, |p: int| 0u8));
            assert(cpu@.keypad =~= Seq::new(16, |j: int| false));
            assert(cpu@ =~= sp_new());
        }
        cpu
    }

    /// Copy a program image into memory at the load origin; bytes past the
    /// end of memory are dropped.
    pub fn load(&mut self, data: &[u8])
        requires
            old(self).wf(),
        ensures
            final(self).wf(),
            final(self)@ == sp_load(old(self)@, data@),
    {
        let n = if data.len() > 3584 {
            3584
        } else {
            data.len()
        };
        let mut k: usize = 0;
        while k < n
            invariant
                k <= n,
                n == if data@.len() <= 3584 { data@.len() as int } else { 3584 },
                forall|a: int|
                    0x200 <= a < 0x200 + k ==> self@.mem[a] == data@[a - 0x200],
                forall|a: int|
                    0 <= a < 4096 && !(0x200 <= a < 0x200 + k) ==> self@.mem[a] == old(
                        self,
                    )@.mem[a],
                self@ == (MachineView { mem: self@.mem, ..old(self)@ }),
            decreases n - k,
        {
            self.memory[0x200 + k] = data[k];
            k += 1;
        }
        proof {
            assert(self@.mem =~= sp_load(old(self)@, data@).mem);
            assert(self@ =~= sp_load(old(self)@, data@));
        }
    }

    /// The instruction word at the program counter: high byte first, the
    /// low byte wrapping at the end of memory.
    fn read_opcode(&self) -> (op: u16)
        requires
            self.wf(),
        ensures
            op == spec_opcode_at(self@.mem, self@.pc),
    {
        let hi = self.memory[self.pc as usize];
        let lo = self.memory[(self.pc as usize + 1) % 4096];
        (hi as u16) * 256 + (lo as u16)
    }

    /// One tick: store the keypad snapshot and clear the changed-frame
    /// flag; while suspended, only sample the keypad for the lowest
    /// pressed key; otherwise count the delay timer down one step, execute
    /// the instruction at the program counter and advance it. A decode or
    /// stack error leaves control flow untouched and is reported in the
    /// output; the machine keeps accepting ticks.
    pub fn tick(&mut self, keypad: &[bool; 16]) -> (out: OutputState<'_>)
        requires
            old(self).wf(),
        ensures
            final(self).wf(),
            exists|rnd: u8|
                final(self)@ == spec_tick(old(self)@, keypad@, rnd).0 && out.error == spec_tick(
                    old(self)@,
                    keypad@,
                    rnd,
                ).1,
            !tick_uses_rand(old(self)@) ==> final(self)@ == spec_tick(old(self)@, keypad@, 0u8).0
                && out.error == spec_tick(old(self)@, keypad@, 0u8).1,
            out.vram@ == final(self)@.vram,
            out.vram_changed == final(self)@.vram_changed,
            out.beep == (final(self)@.st != 0),
    {
        self.keypad = *keypad;
        self.vram_changed = false;
        let ghost m0 = self@;
        proof {
            assert(m0 =~= (MachineView { keypad: keypad@, vram_changed: false, ..old(self)@ }));
        }
        let mut error: Option<Error> = None;
        if let Some(xw) = self.waiting_for_key_press {
            match first_pressed_key(keypad) {
                Some(k) => {
                    self.registers[xw] = k as u8;
                    self.waiting_for_key_press = None;
                },
                None => {},
            }
            proof {
                assert(self@ =~= spec_tick(old(self)@, keypad@, 0u8).0);
                assert(forall|rnd: u8|
                    #[trigger] spec_tick(old(self)@, keypad@, rnd) == spec_tick(
                        old(self)@,
                        keypad@,
                        0u8,
                    ));
            }
        } else {
            if self.dt > 0 {
                self.dt = self.dt - 1;
            }
            let ghost m1 = self@;
            proof {
                assert(m1 =~= (MachineView {
                    dt: if m0.dt > 0 {
                        (m0.dt - 1) as u8
                    } else {
                        0u8
                    },
                    ..m0
                }));
            }
            let opcode = self.read_opcode();
            let change = self.run_opcode(opcode);
            let ghost m2 = self@;
            let ghost w: u8 = choose|rnd: u8|
                m2 == spec_exec(m1, opcode, rnd).0 && change == spec_exec(m1, opcode, rnd).1;
            match change {
                Ok(PcChange::Increment) => {
                    self.pc = (self.pc + 2) % 4096;
                },
                Ok(PcChange::Skip) => {
                    self.pc = (self.pc + 4) % 4096;
                },
                Ok(PcChange::Jump(a)) => {
                    self.pc = (a % 4096) as u16;
                },
                Err(e) => {
                    error = Some(e);
                },
            }
            proof {
                assert(self@ =~= spec_tick(old(self)@, keypad@, w).0);
                assert(error == spec_tick(old(self)@, keypad@, w).1);
                if !tick_uses_rand(old(self)@) {
                    assert(m2 == spec_exec(m1, opcode, 0u8).0 && change == spec_exec(
                        m1,
                        opcode,
                        0u8,
                    ).1);
                    assert(self@ =~= spec_tick(old(self)@, keypad@, 0u8).0);
                    assert(error == spec_tick(old(self)@, keypad@, 0u8).1);
                }
            }
        }
        let beep = self.st > 0;
        OutputState { vram: &self.vram, vram_changed: self.vram_changed, beep, error }
    }

    /// Decode and execute one instruction word. Decode is total: a word
    /// matching no pattern is reported as unrecognized and the machine is
    /// left unchanged.
    pub fn run_opcode(&mut self, opcode: u16) -> (r: Result<PcChange, Error>)
        requires
            old(self).wf(),
        ensures
            final(self).wf(),
            exists|rnd: u8|
                final(self)@ == spec_exec(old(self)@, opcode, rnd).0 && r == spec_exec(
                    old(self)@,
                    opcode,
                    rnd,
                ).1,
            op_c(opcode) != 0xC ==> final(self)@ == spec_exec(old(self)@, opcode, 0u8).0 && r
                == spec_exec(old(self)@, opcode, 0u8).1,
    {
        let c = opcode / 0x1000;
        let x = ((opcode / 0x100) % 0x10) as usize;
        let y = ((opcode / 0x10) % 0x10) as usize;
        let n = (opcode % 0x10) as u8;
        let kk = (opcode % 0x100) as u8;
        let nnn = opcode % 0x1000;
        let r = if c == 0x0 && x == 0x0 && y == 0xE && n == 0x0 {
            self.clear_screen()
        } else if c == 0x0 && x == 0x0 && y == 0xE && n == 0xE {
            self.return_from_subroutine()
        } else if c == 0x1 {
            self.jump_to_address_nnn(nnn)
        } else if c == 0x2 {
            self.execute_subroutine_at_address_nnn(nnn)
        } else if c == 0x3 {
            self.skip_next_op_if_reg_x_equals_kk(x, kk)
        } else if c == 0x4 {
            self.skip_next_op_if_reg_x_not_equals_kk(x, kk)
        } else if c == 0x5 && n == 0x0 {
            self.skip_next_op_if_reg_x_equals_reg_y(x, y)
        } else if c == 0x6 {
            self.set_register_x_to_kk(x, kk)
        } else if c == 0x7 {
            self.add_kk_to_register_x(x, kk)
        } else if c == 0x8 && n == 0x0 {
            self.set_register_x_to_register_y(x, y)
        } else if c == 0x8 && n == 0x1 {
            self.set_register_x_to_register_x_or_register_y(x, y)
        } else if c == 0x8 && n == 0x2 {
            self.set_register_x_to_register_x_and_register_y(x, y)
        } else if c == 0x8 && n == 0x3 {
            self.set_register_x_to_register_x_xor_register_y(x, y)
        } else if c == 0x8 && n == 0x4 {
            self.set_register_x_to_register_x_add_register_y(x, y)
        } else if c == 0x8 && n == 0x5 {
            self.set_register_x_to_register_x_sub_register_y(x, y)
        } else if c == 0x8 && n == 0x6 {
            self.shift_register_x_right(x)
        } else if c == 0x8 && n == 0x7 {
            self.set_register_x_to_register_y_sub_register_x(x, y)
        } else if c == 0x8 && n == 0xE {
            self.shift_register_x_left(x)
        } else if c == 0x9 && n == 0x0 {
            self.skip_next_op_if_reg_x_not_equals_reg_y(x, y)
        } else if c == 0xA {
            self.set_register_i_to_nnn(nnn)
        } else if c == 0xB {
            self.jump_to_address_nnn_plus_reg_0(nnn)
        } else if c == 0xC {
            let rc = self.set_register_x_to_random_byte_plus_kk(x, kk);
            proof {
                let w = choose|rnd: u8| self@ == with_reg(old(self)@, x as int, rnd & kk);
                assert(self@ == spec_exec(old(self)@, opcode, w).0 && rc == spec_exec(
                    old(self)@,
                    opcode,
                    w,
                ).1);
            }
            rc
        } else if c == 0xD {
            self.display_sprite(x, y, n)
        } else if c == 0xE && y == 0x9 && n == 0xE {
            self.skip_next_op_if_reg_x_key_is_pressed(x)
        } else if c == 0xE && y == 0xA && n == 0x1 {
            self.skip_next_op_if_reg_x_key_is_not_pressed(x)
        } else if c == 0xF && y == 0x0 && n == 0x7 {
            self.set_register_x_to_timer_register(x)
        } else if c == 0xF && y == 0x0 && n == 0xA {
            self.set_register_x_to_next_pressed_key(x)
        } else if c == 0xF && y == 0x1 && n == 0x5 {
            self.set_delay_timer_to_register_x(x)
        } else if c == 0xF && y == 0x1 && n == 0x8 {
            self.set_sound_timer_to_register_x(x)
        } else if c == 0xF && y == 0x1 && n == 0xE {
            self.set_register_i_to_register_i_add_register_x(x)
        } else if c == 0xF && y == 0x2 && n == 0x9 {
            self.set_register_i_to_address_of_sprite_at_register_x(x)
        } else if c == 0xF && y == 0x3 && n == 0x3 {
            self.set_memory_at_i_to_decimal_value_of_register_x(x)
        } else if c == 0xF && y == 0x5 && n == 0x5 {
            self.set_memory_at_i_to_registers(x)
        } else if c == 0xF && y == 0x6 && n == 0x5 {
            self.set_registers_to_memory_at_i(x)
        } else {
            Err(Error::InvalidOpcode(opcode))
        };
        proof {
            if op_c(opcode) != 0xC {
                assert(self@ == spec_exec(old(self)@, opcode, 0u8).0);
                assert(r == spec_exec(old(self)@, opcode, 0u8).1);
            }
            assert(exists|rnd: u8|
                self@ == spec_exec(old(self)@, opcode, rnd).0 && r == spec_exec(
                    old(self)@,
                    opcode,
                    rnd,
                ).1);
        }
        r
    }

    /// Load registers `0..=x` from memory at the index address, inclusive.
    fn set_registers_to_memory_at_i(&mut self, x: usize) -> (r: Result<PcChange, Error>)
        requires
            old(self).wf(),
            x < 16,
        ensures
            final(self).wf(),
            final(self)@ == sp_load_regs(old(self)@, x as int),
            r == Ok::<PcChange, Error>(PcChange::Increment),
    {
        let mut k: usize = 0;
        while k <= x
            invariant
                x < 16,
                k <= x + 1,
                old(self).wf(),
                self@ == (MachineView { regs: self@.regs, ..old(self)@ }),
                self@.regs.len() == 16,
                forall|j: int|
                    0 <= j < k ==> self@.regs[j] == old(self)@.mem[wrap_addr(old(self)@.i + j)],
                forall|j: int| k <= j < 16 ==> self@.regs[j] == old(self)@.regs[j],
            decreases x - k + 1,
        {
            let addr = (self.i.value + k) % 4096;
            self.registers[k] = self.memory[addr];
            k += 1;
        }
        proof {
            assert(self@.regs =~= sp_load_regs(old(self)@, x as int).regs);
            assert(self@ =~= sp_load_regs(old(self)@, x as int));
        }
        Ok(PcChange::Increment)
    }

    /// Store registers `0..=x` into memory at the index address, inclusive.
    fn set_memory_at_i_to_registers(&mut self, x: usize) -> (r: Result<PcChange, Error>)
        requires
            old(self).wf(),
            x < 16,
        ensures
            final(self).wf(),
            final(self)@ == sp_store_regs(old(self)@, x as int),
            r == Ok::<PcChange, Error>(PcChange::Increment),
    {
        let mut k: usize = 0;
        while k <= x
            invariant
                x < 16,
                k <= x + 1,
                old(self).wf(),
                self@ == (MachineView { mem: self@.mem, ..old(self)@ }),
                self@.mem.len() == 4096,
                forall|a: int|
                    0 <= a < 4096 && (a - old(self)@.i) % 4096 < k ==> self@.mem[a] == old(
                        self,
                    )@.regs[(a - old(self)@.i) % 4096],
                forall|a: int|
                    0 <= a < 4096 && (a - old(self)@.i) % 4096 >= k ==> self@.mem[a] == old(
                        self,
                    )@.mem[a],
            decreases x - k + 1,
        {
            let addr = (self.i.value + k) % 4096;
            self.memory[addr] = self.registers[k];
            proof {
                lemma_wrap_dist(old(self)@.i, k as int);
                assert forall|a: int| 0 <= a < 4096 implies ((#[trigger] ((a - old(self)@.i)
                    % 4096)) == k as int <==> a == addr as int) by {
                    lemma_wrap_dist_inv(old(self)@.i, a, k as int);
                };
            }
            k += 1;
        }
        proof {
            assert(self@.mem =~= sp_store_regs(old(self)@, x as int).mem);
            assert(self@ =~= sp_store_regs(old(self)@, x as int));
        }
        Ok(PcChange::Increment)
    }

    /// Store the decimal digits of register `x` at the index address.
    fn set_memory_at_i_to_decimal_value_of_register_x(&mut self, x: usize) -> (r: Result<
        PcChange,
        Error,
    >)
        requires
            old(self).wf(),
            x < 16,
        ensures
            final(self).wf(),
            final(self)@ == sp_bcd(old(self)@, x as int),
            r == Ok::<PcChange, Error>(PcChange::Increment),
    {
        let v = self.registers[x];
        let i0 = self.i.value;
        self.memory[i0] = v / 100;
        self.memory[(i0 + 1) % 4096] = (v % 100) / 10;
        self.memory[(i0 + 2) % 4096] = v % 10;
        proof {
            lemma_small_mod(i0 as nat, 4096);
            assert(self@ =~= sp_bcd(old(self)@, x as int));
        }
        Ok(PcChange::Increment)
    }

    /// Point the index register at the font glyph for the digit in
    /// register `x`: glyphs are five bytes wide, starting at address zero.
    fn set_register_i_to_address_of_sprite_at_register_x(&mut self, x: usize) -> (r: Result<
        PcChange,
        Error,
    >)
        requires
            old(self).wf(),
            x < 16,
        ensures
            final(self).wf(),
            final(self)@ == (MachineView { i: old(self)@.regs[x as int] * 5, ..old(self)@ }),
            r == Ok::<PcChange, Error>(PcChange::Increment),
    {
        let target = (self.registers[x] as usize) * 5;
        self.i = IndexRegister::from(target);
        proof {
            lemma_small_mod(target as nat, 4096);
            assert(self@ =~= (MachineView { i: old(self)@.regs[x as int] * 5, ..old(self)@ }));
        }
        Ok(PcChange::Increment)
    }

    /// Add register `x` into the index register; the flag register records
    /// whether the 12-bit range was left.
    fn set_register_i_to_register_i_add_register_x(&mut self, x: usize) -> (r: Result<
        PcChange,
        Error,
    >)
        requires
            old(self).wf(),
            x < 16,
        ensures
            final(self).wf(),
            final(self)@ == sp_add_i(old(self)@, x as int),
            r == Ok::<PcChange, Error>(PcChange::Increment),
    {
        let (value, overflow) = self.i.overflowing_add(self.registers[x] as usize);
        self.i = value;
        if overflow {
            self.registers[FLAG_REGISTER] = 1;
        } else {
            self.registers[FLAG_REGISTER] = 0;
        }
        proof {
            assert(self@ =~= sp_add_i(old(self)@, x as int));
        }
        Ok(PcChange::Increment)
    }

    /// Write register `x` into the sound timer.
    fn set_sound_timer_to_register_x(&mut self, x: usize) -> (r: Result<PcChange, Error>)
        requires
            old(self).wf(),
            x < 16,
        ensures
            final(self).wf(),
            final(self)@ == (MachineView { st: old(self)@.regs[x as int], ..old(self)@ }),
            r == Ok::<PcChange, Error>(PcChange::Increment),
    {
        self.st = self.registers[x];
        Ok(PcChange::Increment)
    }

    /// Write register `x` into the delay timer.
    fn set_delay_timer_to_register_x(&mut self, x: usize) -> (r: Result<PcChange, Error>)
        requires
            old(self).wf(),
            x < 16,
        ensures
            final(self).wf(),
            final(self)@ == (MachineView { dt: old(self)@.regs[x as int], ..old(self)@ }),
            r == Ok::<PcChange, Error>(PcChange::Increment),
    {
        self.dt = self.registers[x];
        Ok(PcChange::Increment)
    }

    /// Suspend until the next keypress, which will land in register `x`.
    fn set_register_x_to_next_pressed_key(&mut self, x: usize) -> (r: Result<PcChange, Error>)
        requires
            old(self).wf(),
            x < 16,
        ensures
            final(self).wf(),
            final(self)@ == (MachineView { waiting: Some(x as int), ..old(self)@ }),
            r == Ok::<PcChange, Error>(PcChange::Increment),
    {
        self.waiting_for_key_press = Some(x);
        Ok(PcChange::Increment)
    }

    /// Read the delay timer into register `x`.
    fn set_register_x_to_timer_register(&mut self, x: usize) -> (r: Result<PcChange, Error>)
        requires
            old(self).wf(),
            x < 16,
        ensures
            final(self).wf(),
            final(self)@ == with_reg(old(self)@, x as int, old(self)@.dt),
            r == Ok::<PcChange, Error>(PcChange::Increment),
    {
        self.registers[x] = self.dt;
        proof {
            assert(self@ =~= with_reg(old(self)@, x as int, old(self)@.dt));
        }
        Ok(PcChange::Increment)
    }

    /// Skip the next instruction unless the key indexed by register `x`
    /// (reduced to the 16-key range) is pressed.
    fn skip_next_op_if_reg_x_key_is_not_pressed(&self, x: usize) -> (r: Result<PcChange, Error>)
        requires
            self.wf(),
            x < 16,
        ensures
            r == Ok::<PcChange, Error>(skip_if(!self@.keypad[self@.regs[x as int] as int % 16])),
    {
        let key = (self.registers[x] as usize) % 16;
        if self.keypad[key] {
            Ok(PcChange::Increment)
        } else {
            Ok(PcChange::Skip)
        }
    }

    /// Skip the next instruction if the key indexed by register `x`
    /// (reduced to the 16-key range) is pressed.
    fn skip_next_op_if_reg_x_key_is_pressed(&self, x: usize) -> (r: Result<PcChange, Error>)
        requires
            self.wf(),
            x < 16,
        ensures
            r == Ok::<PcChange, Error>(skip_if(self@.keypad[self@.regs[x as int] as int % 16])),
    {
        let key = (self.registers[x] as usize) % 16;
        if self.keypad[key] {
            Ok(PcChange::Skip)
        } else {
            Ok(PcChange::Increment)
        }
    }

    /// XOR-composite an `n`-row sprite from the index address at the
    /// coordinates in registers `x` and `y`; the flag register is reset
    /// first and then reports whether any lit pixel was turned off.
    fn display_sprite(&mut self, x: usize, y: usize, n: u8) -> (r: Result<PcChange, Error>)
        requires
            old(self).wf(),
            x < 16,
            y < 16,
            n < 16,
        ensures
            final(self).wf(),
            final(self)@ == sp_draw(old(self)@, x as int, y as int, n as int),
            r == Ok::<PcChange, Error>(PcChange::Increment),
    {
        self.registers[FLAG_REGISTER] = 0;
        let rx = self.registers[x];
        let ry = self.registers[y];
        let ghost m0 = self@;
        proof {
            assert(m0 =~= with_reg(old(self)@, 15, 0));
        }
        let mut flag: u8 = 0;
        let mut p: usize = 0;
        while p < 2048
            invariant
                p <= 2048,
                x < 16,
                y < 16,
                n < 16,
                m0.inv(),
                rx == m0.regs[x as int],
                ry == m0.regs[y as int],
                self@ == (MachineView { vram: self@.vram, ..m0 }),
                self@.vram.len() == 2048,
                forall|q: int|
                    0 <= q < p ==> self@.vram[q] == draw_vram(m0, rx, ry, n as int)[q],
                forall|q: int| p <= q < 2048 ==> self@.vram[q] == m0.vram[q],
                flag == 1 || flag == 0,
                (flag == 1) <==> (exists|q: int|
                    0 <= q < p && covers(q, rx, ry, n as int) && sprite_bit(
                        m0.mem,
                        m0.i,
                        row_of(q / 64, ry),
                        col_of(q % 64, rx),
                    ) == 1 && #[trigger] m0.vram[q] & 1 == 1),
            decreases 2048 - p,
        {
            let ghost flag0 = flag;
            let ghost pp = p as int;
            let py = p / 64;
            let px = p % 64;
            let row = (py + 32 - (ry as usize) % 32) % 32;
            let col = (px + 64 - (rx as usize) % 64) % 64;
            proof {
                lemma_wrap_coord(py as int, ry as int, 32);
                lemma_wrap_coord(px as int, rx as int, 64);
                assert(row == row_of(pp / 64, ry));
                assert(col == col_of(pp % 64, rx));
            }
            if row < (n as usize) && col < 8 {
                let b = self.memory[(self.i.value + row) % 4096];
                let shift: u8 = (7 - col) as u8;
                let bit = (b >> shift) & 1;
                proof {
                    assert(covers(pp, rx, ry, n as int));
                    assert(bit == sprite_bit(m0.mem, m0.i, row as int, col as int));
                    assert(self@.vram[pp] == m0.vram[pp]);
                }
                if bit == 1 && (self.vram[p] & 1) == 1 {
                    flag = 1;
                    proof {
                        assert(m0.vram[pp] & 1 == 1);
                    }
                }
                self.vram[p] = self.vram[p] ^ bit;
            } else {
                proof {
                    assert(!covers(pp, rx, ry, n as int));
                }
            }
            proof {
                if flag == 1 {
                    if flag0 == 1 {
                        let qq = choose|q: int|
                            0 <= q < pp && covers(q, rx, ry, n as int) && sprite_bit(
                                m0.mem,
                                m0.i,
                                row_of(q / 64, ry),
                                col_of(q % 64, rx),
                            ) == 1 && #[trigger] m0.vram[q] & 1 == 1;
                        assert(0 <= qq < pp + 1 && covers(qq, rx, ry, n as int) && sprite_bit(
                            m0.mem,
                            m0.i,
                            row_of(qq / 64, ry),
                            col_of(qq % 64, rx),
                        ) == 1 && m0.vram[qq] & 1 == 1);
                    } else {
                        assert(0 <= pp < pp + 1 && covers(pp, rx, ry, n as int) && sprite_bit(
                            m0.mem,
                            m0.i,
                            row_of(pp / 64, ry),
                            col_of(pp % 64, rx),
                        ) == 1 && m0.vram[pp] & 1 == 1);
                    }
                } else {
                    assert forall|q: int|
                        0 <= q < pp + 1 && covers(q, rx, ry, n as int) && sprite_bit(
                            m0.mem,
                            m0.i,
                            row_of(q / 64, ry),
                            col_of(q % 64, rx),
                        ) == 1 implies !(#[trigger] m0.vram[q] & 1 == 1) by {
                        if q == pp {
                            assert(!(sprite_bit(
                                m0.mem,
                                m0.i,
                                row_of(pp / 64, ry),
                                col_of(pp % 64, rx),
                            ) == 1 && m0.vram[pp] & 1 == 1));
                        }
                    };
                }
            }
            p += 1;
        }
        self.registers[FLAG_REGISTER] = flag;
        self.vram_changed = true;
        proof {
            assert(self@.vram =~= draw_vram(m0, rx, ry, n as int));
            assert(self@ =~= sp_draw(old(self)@, x as int, y as int, n as int));
        }
        Ok(PcChange::Increment)
    }

    /// Set register `x` to a random byte masked by `kk`; only the masked
    /// bits of the drawn byte can be set in the result.
    fn set_register_x_to_random_byte_plus_kk(&mut self, x: usize, kk: u8) -> (r: Result<
        PcChange,
        Error,
    >)
        requires
            old(self).wf(),
            x < 16,
        ensures
            final(self).wf(),
            exists|rnd: u8| final(self)@ == with_reg(old(self)@, x as int, rnd & kk),
            r == Ok::<PcChange, Error>(PcChange::Increment),
    {
        let rnd = random_byte();
        self.registers[x] = rnd & kk;
        proof {
            assert(self@ =~= with_reg(old(self)@, x as int, rnd & kk));
        }
        Ok(PcChange::Increment)
    }

    /// Jump to `nnn` plus register 0.
    fn jump_to_address_nnn_plus_reg_0(&self, nnn: u16) -> (r: Result<PcChange, Error>)
        requires
            self.wf(),
            nnn < 4096,
        ensures
            r == Ok::<PcChange, Error>(PcChange::Jump((nnn + self@.regs[0]) as usize)),
    {
        Ok(PcChange::Jump((nnn + self.registers[0] as u16) as usize))
    }

    /// Set the index register to `nnn`.
    fn set_register_i_to_nnn(&mut self, nnn: u16) -> (r: Result<PcChange, Error>)
        requires
            old(self).wf(),
            nnn < 4096,
        ensures
            final(self).wf(),
            final(self)@ == (MachineView { i: nnn as int, ..old(self)@ }),
            r == Ok::<PcChange, Error>(PcChange::Increment),
    {
        self.i.value = nnn as usize;
        Ok(PcChange::Increment)
    }

    /// Skip the next instruction if registers `x` and `y` differ.
    fn skip_next_op_if_reg_x_not_equals_reg_y(&self, x: usize, y: usize) -> (r: Result<
        PcChange,
        Error,
    >)
        requires
            self.wf(),
            x < 16,
            y < 16,
        ensures
            r == Ok::<PcChange, Error>(skip_if(self@.regs[x as int] != self@.regs[y as int])),
    {
        if self.registers[x] != self.registers[y] {
            Ok(PcChange::Skip)
        } else {
            Ok(PcChange::Increment)
        }
    }

    /// Shift register `x` left; the flag register first captures the bit
    /// shifted out.
    fn shift_register_x_left(&mut self, x: usize) -> (r: Result<PcChange, Error>)
        requires
            old(self).wf(),
            x < 16,
        ensures
            final(self).wf(),
            final(self)@ == sp_shl(old(self)@, x as int),
            r == Ok::<PcChange, Error>(PcChange::Increment),
    {
        if self.registers[x] >= 128 {
            self.registers[FLAG_REGISTER] = 1;
        } else {
            self.registers[FLAG_REGISTER] = 0;
        }
        let v = self.registers[x];
        self.registers[x] = ((v as u16 * 2) % 256) as u8;
        proof {
            assert(self@ =~= sp_shl(old(self)@, x as int));
        }
        Ok(PcChange::Increment)
    }

    /// Register `x` takes register `y` minus register `x`; the flag
    /// register is written first: 1 when no borrow occurs, that is when
    /// the minuend is at least the subtrahend.
    fn set_register_x_to_register_y_sub_register_x(&mut self, x: usize, y: usize) -> (r: Result<
        PcChange,
        Error,
    >)
        requires
            old(self).wf(),
            x < 16,
            y < 16,
        ensures
            final(self).wf(),
            final(self)@ == sp_sub_yx(old(self)@, x as int, y as int),
            r == Ok::<PcChange, Error>(PcChange::Increment),
    {
        if self.registers[y] >= self.registers[x] {
            self.registers[FLAG_REGISTER] = 1;
        } else {
            self.registers[FLAG_REGISTER] = 0;
        }
        let a = self.registers[y];
        let b = self.registers[x];
        self.registers[x] = wsub(a, b);
        proof {
            assert(self@ =~= sp_sub_yx(old(self)@, x as int, y as int));
        }
        Ok(PcChange::Increment)
    }

    /// Shift register `x` right; the flag register first captures the bit
    /// shifted out.
    fn shift_register_x_right(&mut self, x: usize) -> (r: Result<PcChange, Error>)
        requires
            old(self).wf(),
            x < 16,
        ensures
            final(self).wf(),
            final(self)@ == sp_shr(old(self)@, x as int),
            r == Ok::<PcChange, Error>(PcChange::Increment),
    {
        if self.registers[x] % 2 == 1 {
            self.registers[FLAG_REGISTER] = 1;
        } else {
            self.registers[FLAG_REGISTER] = 0;
        }
        let v = self.registers[x];
        self.registers[x] = v / 2;
        proof {
            assert(self@ =~= sp_shr(old(self)@, x as int));
        }
        Ok(PcChange::Increment)
    }

    /// Register `x` takes register `x` minus register `y`; the flag
    /// register is written first: 1 when no borrow occurs, that is when
    /// the minuend is at least the subtrahend.
    fn set_register_x_to_register_x_sub_register_y(&mut self, x: usize, y: usize) -> (r: Result<
        PcChange,
        Error,
    >)
        requires
            old(self).wf(),
            x < 16,
            y < 16,
        ensures
            final(self).wf(),
            final(self)@ == sp_sub_xy(old(self)@, x as int, y as int),
            r == Ok::<PcChange, Error>(PcChange::Increment),
    {
        if self.registers[x] >= self.registers[y] {
            self.registers[FLAG_REGISTER] = 1;
        } else {
            self.registers[FLAG_REGISTER] = 0;
        }
        let a = self.registers[x];
        let b = self.registers[y];
        self.registers[x] = wsub(a, b);
        proof {
            assert(self@ =~= sp_sub_xy(old(self)@, x as int, y as int));
        }
        Ok(PcChange::Increment)
    }

    /// Add register `y` into register `x`; the flag register then reports
    /// the carry: 1 exactly when the unsigned sum exceeds 255.
    fn set_register_x_to_register_x_add_register_y(&mut self, x: usize, y: usize) -> (r: Result<
        PcChange,
        Error,
    >)
        requires
            old(self).wf(),
            x < 16,
            y < 16,
        ensures
            final(self).wf(),
            final(self)@ == sp_add_reg(old(self)@, x as int, y as int),
            r == Ok::<PcChange, Error>(PcChange::Increment),
    {
        let sum: u16 = self.registers[x] as u16 + self.registers[y] as u16;
        self.registers[x] = (sum % 256) as u8;
        if sum > 255 {
            self.registers[FLAG_REGISTER] = 1;
        } else {
            self.registers[FLAG_REGISTER] = 0;
        }
        proof {
            assert(self@ =~= sp_add_reg(old(self)@, x as int, y as int));
        }
        Ok(PcChange::Increment)
    }

    /// Register `x` takes the bitwise XOR of registers `x` and `y`.
    fn set_register_x_to_register_x_xor_register_y(&mut self, x: usize, y: usize) -> (r: Result<
        PcChange,
        Error,
    >)
        requires
            old(self).wf(),
            x < 16,
            y < 16,
        ensures
            final(self).wf(),
            final(self)@ == with_reg(
                old(self)@,
                x as int,
                old(self)@.regs[x as int] ^ old(self)@.regs[y as int],
            ),
            r == Ok::<PcChange, Error>(PcChange::Increment),
    {
        let v = self.registers[x] ^ self.registers[y];
        self.registers[x] = v;
        proof {
            assert(self@ =~= with_reg(
                old(self)@,
                x as int,
                old(self)@.regs[x as int] ^ old(self)@.regs[y as int],
            ));
        }
        Ok(PcChange::Increment)
    }

    /// Register `x` takes the bitwise AND of registers `x` and `y`.
    fn set_register_x_to_register_x_and_register_y(&mut self, x: usize, y: usize) -> (r: Result<
        PcChange,
        Error,
    >)
        requires
            old(self).wf(),
            x < 16,
            y < 16,
        ensures
            final(self).wf(),
            final(self)@ == with_reg(
                old(self)@,
                x as int,
                old(self)@.regs[x as int] & old(self)@.regs[y as int],
            ),
            r == Ok::<PcChange, Error>(PcChange::Increment),
    {
        let v = self.registers[x] & self.registers[y];
        self.registers[x] = v;
        proof {
            assert(self@ =~= with_reg(
                old(self)@,
                x as int,
                old(self)@.regs[x as int] & old(self)@.regs[y as int],
            ));
        }
        Ok(PcChange::Increment)
    }

    /// Register `x` takes the bitwise OR of registers `x` and `y`.
    fn set_register_x_to_register_x_or_register_y(&mut self, x: usize, y: usize) -> (r: Result<
        PcChange,
        Error,
    >)
        requires
            old(self).wf(),
            x < 16,
            y < 16,
        ensures
            final(self).wf(),
            final(self)@ == with_reg(
                old(self)@,
                x as int,
                old(self)@.regs[x as int] | old(self)@.regs[y as int],
            ),
            r == Ok::<PcChange, Error>(PcChange::Increment),
    {
        let v = self.registers[x] | self.registers[y];
        self.registers[x] = v;
        proof {
            assert(self@ =~= with_reg(
                old(self)@,
                x as int,
                old(self)@.regs[x as int] | old(self)@.regs[y as int],
            ));
        }
        Ok(PcChange::Increment)
    }

    /// Copy register `y` into register `x`.
    fn set_register_x_to_register_y(&mut self, x: usize, y: usize) -> (r: Result<PcChange, Error>)
        requires
            old(self).wf(),
            x < 16,
            y < 16,
        ensures
            final(self).wf(),
            final(self)@ == with_reg(old(self)@, x as int, old(self)@.regs[y as int]),
            r == Ok::<PcChange, Error>(PcChange::Increment),
    {
        let v = self.registers[y];
        self.registers[x] = v;
        proof {
            assert(self@ =~= with_reg(old(self)@, x as int, old(self)@.regs[y as int]));
        }
        Ok(PcChange::Increment)
    }

    /// Add the immediate `kk` into register `x`, wrapping, with no flag
    /// update.
    fn add_kk_to_register_x(&mut self, x: usize, kk: u8) -> (r: Result<PcChange, Error>)
        requires
            old(self).wf(),
            x < 16,
        ensures
            final(self).wf(),
            final(self)@ == with_reg(old(self)@, x as int, wrap_add8(old(self)@.regs[x as int], kk)),
            r == Ok::<PcChange, Error>(PcChange::Increment),
    {
        let v = wadd(self.registers[x], kk);
        self.registers[x] = v;
        proof {
            assert(self@ =~= with_reg(
                old(self)@,
                x as int,
                wrap_add8(old(self)@.regs[x as int], kk),
            ));
        }
        Ok(PcChange::Increment)
    }

    /// Load the immediate `kk` into register `x`.
    fn set_register_x_to_kk(&mut self, x: usize, kk: u8) -> (r: Result<PcChange, Error>)
        requires
            old(self).wf(),
            x < 16,
        ensures
            final(self).wf(),
            final(self)@ == with_reg(old(self)@, x as int, kk),
            r == Ok::<PcChange, Error>(PcChange::Increment),
    {
        self.registers[x] = kk;
        proof {
            assert(self@ =~= with_reg(old(self)@, x as int, kk));
        }
        Ok(PcChange::Increment)
    }

    /// Turn every pixel off and mark the frame changed.
    fn clear_screen(&mut self) -> (r: Result<PcChange, Error>)
        requires
            old(self).wf(),
        ensures
            final(self).wf(),
            final(self)@ == sp_clear(old(self)@),
            r == Ok::<PcChange, Error>(PcChange::Increment),
    {
        self.vram = [0u8; 2048];
        self.vram_changed = true;
        proof {
            assert(self@.vram =~= sp_clear(old(self)@).vram);
            assert(self@ =~= sp_clear(old(self)@));
        }
        Ok(PcChange::Increment)
    }

    /// Pop a return address and jump to it; underflow on an empty stack.
    fn return_from_subroutine(&mut self) -> (r: Result<PcChange, Error>)
        requires
            old(self).wf(),
        ensures
            final(self).wf(),
            final(self)@ == sp_ret(old(self)@).0,
            r == sp_ret(old(self)@).1,
    {
        if self.sp == 0 {
            return Err(Error::StackUnderflow);
        }
        self.sp = self.sp - 1;
        proof {
            assert(self@ =~= sp_ret(old(self)@).0);
        }
        Ok(PcChange::Jump(self.stack[self.sp] as usize))
    }

    /// Jump to the absolute address `nnn`.
    fn jump_to_address_nnn(&self, address: u16) -> (r: Result<PcChange, Error>)
        requires
            self.wf(),
        ensures
            r == Ok::<PcChange, Error>(PcChange::Jump(address as usize)),
    {
        Ok(PcChange::Jump(address as usize))
    }

    /// Push the address of the following instruction and jump to
    /// `address`; overflow on a full stack.
    fn execute_subroutine_at_address_nnn(&mut self, address: u16) -> (r: Result<PcChange, Error>)
        requires
            old(self).wf(),
        ensures
            final(self).wf(),
            final(self)@ == sp_call(old(self)@, address).0,
            r == sp_call(old(self)@, address).1,
    {
        if self.sp >= STACK_SIZE {
            return Err(Error::StackOverflow);
        }
        self.stack[self.sp] = self.pc + 2;
        self.sp = self.sp + 1;
        proof {
            assert(self@ =~= sp_call(old(self)@, address).0);
        }
        Ok(PcChange::Jump(address as usize))
    }

    /// Skip the next instruction if register `x` equals the immediate.
    fn skip_next_op_if_reg_x_equals_kk(&self, x: usize, kk: u8) -> (r: Result<PcChange, Error>)
        requires
            self.wf(),
            x < 16,
        ensures
            r == Ok::<PcChange, Error>(skip_if(self@.regs[x as int] == kk)),
    {
        if self.registers[x] == kk {
            Ok(PcChange::Skip)
        } else {
            Ok(PcChange::Increment)
        }
    }

    /// Skip the next instruction unless register `x` equals the immediate.
    fn skip_next_op_if_reg_x_not_equals_kk(&self, x: usize, kk: u8) -> (r: Result<PcChange, Error>)
        requires
            self.wf(),
            x < 16,
        ensures
            r == Ok::<PcChange, Error>(skip_if(self@.regs[x as int] != kk)),
    {
        if self.registers[x] == kk {
            Ok(PcChange::Increment)
        } else {
            Ok(PcChange::Skip)
        }
    }

    /// Skip the next instruction if registers `x` and `y` are equal.
    fn skip_next_op_if_reg_x_equals_reg_y(&self, x: usize, y: usize) -> (r: Result<
        PcChange,
        Error,
    >)
        requires
            self.wf(),
            x < 16,
            y < 16,
        ensures
            r == Ok::<PcChange, Error>(skip_if(self@.regs[x as int] == self@.regs[y as int])),
    {
        if self.registers[x] == self.registers[y] {
            Ok(PcChange::Skip)
        } else {
            Ok(PcChange::Increment)
        }
    }
}

/// Relies on rand::thread_rng and rand::Rng::gen: one byte from the
/// thread-local random generator; nothing is assumed of its value.
#[verifier::external_body]
fn random_byte() -> u8 {
    rand::thread_rng().gen()
}

/// Eight-bit wrapping sum.
fn wadd(a: u8, b: u8) -> (r: u8)
    ensures
        r == wrap_add8(a, b),
{
    ((a as u16 + b as u16) % 256) as u8
}

/// Eight-bit wrapping difference.
fn wsub(a: u8, b: u8) -> (r: u8)
    ensures
        r == wrap_sub8(a, b),
{
    let r = ((256 + a as u16 - b as u16) % 256) as u8;
    proof {
        lemma_mod_add_multiples_vanish(a - b, 256);
    }
    r
}

/// The lowest-index pressed key of the snapshot, if any.
fn first_pressed_key(keypad: &[bool; 16]) -> (r: Option<usize>)
    ensures
        match r {
            Some(k) => k < 16 && first_pressed(keypad@) == Some(k as int),
            None => first_pressed(keypad@) is None,
        },
{
    let mut k: usize = 0;
    while k < 16
        invariant
            k <= 16,
            first_pressed(keypad@) == first_pressed_from(keypad@, k as int),
        decreases 16 - k,
    {
        if keypad[k] {
            proof {
                assert(first_pressed_from(keypad@, k as int) == Some(k as int));
            }
            return Some(k);
        }
        proof {
            assert(first_pressed_from(keypad@, k as int) == first_pressed_from(
                keypad@,
                k as int + 1,
            ));
        }
        k += 1;
    }
    proof {
        assert(first_pressed_from(keypad@, 16) is None);
    }
    None
}

} // verus!

//! The register machine: state, instruction semantics and the execution
//! engine that drives one fetch-decode-execute cycle at a time.
//!
//! Every instruction is described twice: a relational spec function
//! (`sem_op_*`) says what the instruction does to the machine state, and the
//! executable handler (`execute_op_*`) is proved to meet it. `step_ok`
//! assembles the per-opcode relations into the semantics of one whole
//! dispatched step, and `cycle_sem` adds the key-wait latch and the fetch.
//!
//! Address policy: derived addresses wrap. The program counter lives in the
//! 12-bit address space (it is reduced modulo 4096 whenever the engine moves
//! it), memory accesses at a derived address reduce the address modulo 4096,
//! and keypad lookups reduce the key value modulo 16. Stack overflow and
//! underflow fail fast: the faulting instruction reports an error and leaves
//! the machine unchanged.

use crate::opcode::OpCode;
use rand::Rng;
use vstd::arithmetic::div_mod::{
    lemma_fundamental_div_mod, lemma_mod_multiples_vanish, lemma_small_mod,
};
use vstd::prelude::*;

verus! {

/// Width of one instruction in bytes.
pub const OPCODE_SIZE: usize = 2;

/// The effect an instruction has on the program counter: continue to the
/// next instruction, skip one instruction, or jump to an explicit address.
/// The engine applies exactly one of these after every instruction.
#[derive(Debug, PartialEq, Eq, Structural)]
pub enum ProgramCounter {
    Next,
    Skip,
    Jump(usize),
}

/// The error conditions the machine reports instead of corrupting state:
/// a subroutine call beyond 16 nested levels, a return with an empty call
/// stack, and a program image too large for the memory above the entry
/// point.
#[derive(Debug, Clone, Copy, PartialEq, Eq, Structural)]
pub enum CpuError {
    StackOverflow,
    StackUnderflow,
    RomTooLarge,
}

/// What one cycle reports to the external driver: the framebuffer, whether
/// any pixel write happened during the cycle, and whether the sound timer
/// asks for a tone.
#[derive(Debug)]
pub struct CycleOutput {
    pub vram: [[u8; 64]; 32],
    pub vram_changed: bool,
    pub beep: bool,
}

/// The whole machine state. The fields are public so that a driver or a
/// test can inspect and arrange states directly; `wf` is the invariant that
/// every engine entry point preserves.
pub struct CPU {
    pub pc: usize,
    pub sp: usize,
    pub registers: [u8; 16],
    pub stack: [usize; 16],
    pub ram: [u8; 4096],
    pub vram: [[u8; 64]; 32],
    pub vram_changed: bool,
    pub index: u16,
    pub delay_timer: u8,
    pub sound_timer: u8,
    pub keypad: [bool; 16],
    pub keypad_waiting: bool,
    pub keypad_register: usize,
}

impl CPU {
    /// The machine invariant: the program counter stays in the 12-bit
    /// address space, the stack pointer within the 16 stack slots, and the
    /// key-wait target is a register index.
    pub open spec fn wf(self) -> bool {
        &&& self.pc < 4096
        &&& self.sp <= 16
        &&& self.keypad_register < 16
    }

    /// The value of general-purpose register `i`.
    pub open spec fn reg(self, i: int) -> u8 {
        self.registers@[i]
    }

    /// The pixel at row `r`, column `c` of the framebuffer.
    pub open spec fn pix(self, r: int, c: int) -> u8 {
        self.vram@[r]@[c]
    }
}

/// The state every reset produces: zeroed memory, registers, framebuffer,
/// timers and keypad, the stack empty, and the program counter at the entry
/// point 0x200.
pub open spec fn is_reset(s: CPU) -> bool {
    &&& s.pc == 0x200
    &&& s.sp == 0
    &&& forall|i: int| 0 <= i < 16 ==> s.reg(i) == 0
    &&& forall|i: int| 0 <= i < 16 ==> s.stack@[i] == 0usize
    &&& forall|a: int| 0 <= a < 4096 ==> s.ram@[a] == 0
    &&& forall|r: int, c: int| 0 <= r < 32 && 0 <= c < 64 ==> s.pix(r, c) == 0
    &&& s.vram_changed == false
    &&& s.index == 0
    &&& s.delay_timer == 0
    &&& s.sound_timer == 0
    &&& forall|i: int| 0 <= i < 16 ==> s.keypad@[i] == false
    &&& s.keypad_waiting == false
    &&& s.keypad_register == 0
}

/// The program counter one instruction further on, wrapped to the address
/// space.
pub open spec fn pc_next(pre: CPU) -> int {
    (pre.pc + OPCODE_SIZE) % 4096
}

/// The program counter two instructions further on (a skip), wrapped.
pub open spec fn pc_skip(pre: CPU) -> int {
    (pre.pc + OPCODE_SIZE + OPCODE_SIZE) % 4096
}

/// `post` agrees with `pre` on everything but (possibly) the program
/// counter. Conditional skips and plain jumps change no other state.
pub open spec fn only_pc(pre: CPU, post: CPU) -> bool {
    post == (CPU { pc: post.pc, ..pre })
}

/// `post` is `pre` with register `i` set to `v` (and possibly another
/// program counter).
pub open spec fn regs_update(pre: CPU, post: CPU, i: int, v: u8) -> bool {
    &&& post == (CPU { pc: post.pc, registers: post.registers, ..pre })
    &&& post.registers@ == pre.registers@.update(i, v)
}

/// `post` is `pre` with register `i` set to `v` and then register 15 set to
/// `flag` — the order matters when `i` is 15 itself.
pub open spec fn regs_update_flag(pre: CPU, post: CPU, i: int, v: u8, flag: u8) -> bool {
    &&& post == (CPU { pc: post.pc, registers: post.registers, ..pre })
    &&& post.registers@ == pre.registers@.update(i, v).update(15, flag)
}

/// Clear the screen: every pixel zero, the dirty flag set.
pub open spec fn sem_op_00e0(pre: CPU, post: CPU) -> bool {
    &&& post == (CPU { pc: post.pc, vram: post.vram, vram_changed: true, ..pre })
    &&& forall|r: int, c: int| 0 <= r < 32 && 0 <= c < 64 ==> post.pix(r, c) == 0
}

/// Return from a subroutine: the stack pointer drops by one; the engine
/// jumps to the popped address.
pub open spec fn sem_op_00ee(pre: CPU, post: CPU) -> bool {
    post == (CPU { pc: post.pc, sp: (pre.sp - 1) as usize, ..pre })
}

/// A subroutine call: the address of the instruction after the call is
/// pushed and the stack pointer rises by one; the engine jumps to the
/// call target.
pub open spec fn sem_call(pre: CPU, post: CPU) -> bool {
    &&& post == (CPU { pc: post.pc, sp: (pre.sp + 1) as usize, stack: post.stack, ..pre })
    &&& post.stack@ == pre.stack@.update(pre.sp as int, (pre.pc + OPCODE_SIZE) as usize)
}

/// Register X gets the immediate.
pub open spec fn sem_op_6xnn(pre: CPU, post: CPU, op: OpCode) -> bool {
    regs_update(pre, post, op.lr as int, op.nn() as u8)
}

/// Register X gains the immediate, wrapping at 8 bits; no flag is touched.
pub open spec fn sem_op_7xnn(pre: CPU, post: CPU, op: OpCode) -> bool {
    regs_update(pre, post, op.lr as int, ((pre.reg(op.lr as int) + op.nn()) % 256) as u8)
}

/// Register X gets the value of register Y.
pub open spec fn sem_op_8xy0(pre: CPU, post: CPU, op: OpCode) -> bool {
    regs_update(pre, post, op.lr as int, pre.reg(op.rl as int))
}

/// Register X gets X bitwise-or Y.
pub open spec fn sem_op_8xy1(pre: CPU, post: CPU, op: OpCode) -> bool {
    regs_update(pre, post, op.lr as int, pre.reg(op.lr as int) | pre.reg(op.rl as int))
}

/// Register X gets X bitwise-and Y.
pub open spec fn sem_op_8xy2(pre: CPU, post: CPU, op: OpCode) -> bool {
    regs_update(pre, post, op.lr as int, pre.reg(op.lr as int) & pre.reg(op.rl as int))
}

/// Register X gets X bitwise-xor Y.
pub open spec fn sem_op_8xy3(pre: CPU, post: CPU, op: OpCode) -> bool {
    regs_update(pre, post, op.lr as int, pre.reg(op.lr as int) ^ pre.reg(op.rl as int))
}

/// Register X gets X plus Y modulo 256; register 15 reports the carry.
pub open spec fn sem_op_8xy4(pre: CPU, post: CPU, op: OpCode) -> bool {
    let sum = pre.reg(op.lr as int) + pre.reg(op.rl as int);
    regs_update_flag(
        pre,
        post,
        op.lr as int,
        (sum % 256) as u8,
        if sum > 255 {
            1u8
        } else {
            0u8
        },
    )
}

/// Register X gets X minus Y modulo 256; register 15 reports 1 when there
/// was no borrow (X at least Y), else 0.
pub open spec fn sem_op_8xy5(pre: CPU, post: CPU, op: OpCode) -> bool {
    let diff = pre.reg(op.lr as int) - pre.reg(op.rl as int);
    regs_update_flag(
        pre,
        post,
        op.lr as int,
        (diff % 256) as u8,
        if pre.reg(op.lr as int) >= pre.reg(op.rl as int) {
            1u8
        } else {
            0u8
        },
    )
}

/// Register 15 gets the bit shifted out (X modulo 2), then register X is
/// shifted right by one. When X is register 15 itself, the shift reads the
/// freshly written flag.
pub open spec fn sem_op_8xy6(pre: CPU, post: CPU, op: OpCode) -> bool {
    let mid = pre.registers@.update(15, pre.reg(op.lr as int) % 2);
    &&& post == (CPU { pc: post.pc, registers: post.registers, ..pre })
    &&& post.registers@ == mid.update(op.lr as int, mid[op.lr as int] / 2)
}

/// Register X gets Y minus X modulo 256; register 15 reports 1 when there
/// was no borrow (Y at least X), else 0.
pub open spec fn sem_op_8xy7(pre: CPU, post: CPU, op: OpCode) -> bool {
    let diff = pre.reg(op.rl as int) - pre.reg(op.lr as int);
    regs_update_flag(
        pre,
        post,
        op.lr as int,
        (diff % 256) as u8,
        if pre.reg(op.rl as int) >= pre.reg(op.lr as int) {
            1u8
        } else {
            0u8
        },
    )
}

/// Register 15 gets the bit shifted out (X divided by 128), then register X
/// is shifted left by one, wrapping at 8 bits. When X is register 15 itself,
/// the shift reads the freshly written flag.
pub open spec fn sem_op_8xye(pre: CPU, post: CPU, op: OpCode) -> bool {
    let mid = pre.registers@.update(15, pre.reg(op.lr as int) / 128);
    &&& post == (CPU { pc: post.pc, registers: post.registers, ..pre })
    &&& post.registers@ == mid.update(op.lr as int, ((mid[op.lr as int] * 2) % 256) as u8)
}

/// The index register gets the 12-bit address operand.
pub open spec fn sem_op_annn(pre: CPU, post: CPU, op: OpCode) -> bool {
    post == (CPU { pc: post.pc, index: op.nnn() as u16, ..pre })
}

/// Register X gets a byte of external entropy masked by the immediate: all
/// bits outside the mask are zero, and nothing more is promised.
pub open spec fn sem_op_cxnn(pre: CPU, post: CPU, op: OpCode) -> bool {
    exists|b: u8| regs_update(pre, post, op.lr as int, #[trigger] (b & (op.nn() as u8)))
}

/// Register X gets the delay timer.
pub open spec fn sem_op_fx07(pre: CPU, post: CPU, op: OpCode) -> bool {
    regs_update(pre, post, op.lr as int, pre.delay_timer)
}

/// Enter the key-wait latch, remembering which register receives the key.
/// The engine keeps the program counter on this instruction until a key is
/// seen (it returns `Jump` to the instruction's own address).
pub open spec fn sem_op_fx0a(pre: CPU, post: CPU, op: OpCode) -> bool {
    post == (
        CPU { pc: post.pc, keypad_waiting: true, keypad_register: op.lr as usize, ..pre }
    )
}

/// The delay timer gets the value of register X.
pub open spec fn sem_op_fx15(pre: CPU, post: CPU, op: OpCode) -> bool {
    post == (CPU { pc: post.pc, delay_timer: pre.reg(op.lr as int), ..pre })
}

/// The sound timer gets the value of register X.
pub open spec fn sem_op_fx18(pre: CPU, post: CPU, op: OpCode) -> bool {
    post == (CPU { pc: post.pc, sound_timer: pre.reg(op.lr as int), ..pre })
}

/// The index register gains the value of register X, wrapping in the
/// 16-bit address space.
pub open spec fn sem_op_fx1e(pre: CPU, post: CPU, op: OpCode) -> bool {
    post == (
        CPU {
            pc: post.pc,
            index: ((pre.index + pre.reg(op.lr as int)) % 0x10000) as u16,
            ..pre
        }
    )
}

/// The index register points at the font glyph for the digit in register X:
/// glyph location is the digit value times the 5-byte glyph height.
pub open spec fn sem_op_fx29(pre: CPU, post: CPU, op: OpCode) -> bool {
    post == (CPU { pc: post.pc, index: (pre.reg(op.lr as int) * 5) as u16, ..pre })
}

/// The three decimal digits of register X land at the index address and the
/// two following ones, most significant first, addresses wrapped to memory.
pub open spec fn sem_op_fx33(pre: CPU, post: CPU, op: OpCode) -> bool {
    let vx = pre.reg(op.lr as int);
    &&& post == (CPU { pc: post.pc, ram: post.ram, ..pre })
    &&& post.ram@ == pre.ram@.update((pre.index as int) % 4096, (vx / 100) as u8).update(
        (pre.index + 1) % 4096,
        ((vx % 100) / 10) as u8,
    ).update((pre.index + 2) % 4096, (vx % 10) as u8)
}

/// Registers 0 through X inclusive land in memory at the index address on,
/// each address wrapped to memory; everything else in memory is untouched.
/// For a memory cell `a`, the register that lands there (if any) is the
/// offset of `a` from the index address, modulo the memory size.
pub open spec fn sem_op_fx55(pre: CPU, post: CPU, op: OpCode) -> bool {
    let n = op.lr + 1;
    &&& post == (CPU { pc: post.pc, ram: post.ram, ..pre })
    &&& forall|a: int|
        0 <= a < 4096 ==> post.ram@[a] == {
            let j = (a - pre.index) % 4096;
            if j < n {
                pre.registers@[j]
            } else {
                pre.ram@[a]
            }
        }
}

/// Registers 0 through X inclusive are filled from memory at the index
/// address on, addresses wrapped to memory; the remaining registers are
/// untouched.
pub open spec fn sem_op_fx65(pre: CPU, post: CPU, op: OpCode) -> bool {
    let n = op.lr + 1;
    &&& post == (CPU { pc: post.pc, registers: post.registers, ..pre })
    &&& forall|i: int|
        0 <= i < 16 ==> post.reg(i) == if i < n {
            pre.ram@[(pre.index + i) % 4096]
        } else {
            pre.reg(i)
        }
}

/// The sprite's X origin: the value of register X, read after the collision
/// flag has been cleared (so 0 when the opcode names register 15 itself).
pub open spec fn draw_vx(pre: CPU, op: OpCode) -> int {
    if op.lr == 15 {
        0
    } else {
        pre.reg(op.lr as int) as int
    }
}

/// The sprite's Y origin, read the same way.
pub open spec fn draw_vy(pre: CPU, op: OpCode) -> int {
    if op.rl == 15 {
        0
    } else {
        pre.reg(op.rl as int) as int
    }
}

/// How many rows the sprite has: the low nibble plus one.
pub open spec fn draw_rows(op: OpCode) -> int {
    op.rr + 1
}

/// The source byte for sprite row `dy`: memory at the index address plus
/// `dy`, wrapped.
pub open spec fn sprite_row(pre: CPU, dy: int) -> u8 {
    pre.ram@[(pre.index + dy) % 4096]
}

/// Bit `k` of a sprite byte, counted from the most significant bit, as a
/// 0-or-1 pixel value.
pub open spec fn sprite_bit(b: u8, k: int) -> u8 {
    (b >> ((7 - k) as u8)) & 1
}

/// Whether the draw touches cell (r, c) within its first `rows` rows and,
/// on row `rows` itself, its first `bits` bits. Coordinates wrap: the cell
/// is touched by sprite row `dy` and bit `dx` exactly when its coordinates,
/// less the origin, are `dy` and `dx` modulo the screen size. Row offsets
/// (at most 15) and bit offsets (at most 7) are distinct modulo 32 and 64,
/// so no cell is touched twice.
pub open spec fn draw_touches_upto(
    pre: CPU,
    op: OpCode,
    rows: int,
    bits: int,
    r: int,
    c: int,
) -> bool {
    let dy = (r - draw_vy(pre, op)) % 32;
    let dx = (c - draw_vx(pre, op)) % 64;
    &&& dy < draw_rows(op)
    &&& dx < 8
    &&& (dy < rows || (dy == rows && dx < bits))
}

/// The sprite bit that the draw XORs into cell (r, c): zero for cells the
/// sprite does not touch.
pub open spec fn draw_color(pre: CPU, op: OpCode, r: int, c: int) -> u8 {
    let dy = (r - draw_vy(pre, op)) % 32;
    let dx = (c - draw_vx(pre, op)) % 64;
    if dy < draw_rows(op) && dx < 8 {
        sprite_bit(sprite_row(pre, dy), dx)
    } else {
        0
    }
}

/// As `draw_color`, but only for the part of the sprite already processed;
/// zero beyond it.
pub open spec fn draw_color_upto(pre: CPU, op: OpCode, rows: int, bits: int, r: int, c: int) -> u8 {
    if draw_touches_upto(pre, op, rows, bits, r, c) {
        draw_color(pre, op, r, c)
    } else {
        0
    }
}

/// A collision within the processed part: some touched cell receives a set
/// sprite bit while its own low bit is already set.
pub open spec fn draw_collides_upto(pre: CPU, op: OpCode, rows: int, bits: int) -> bool {
    exists|r: int, c: int|
        0 <= r < 32 && 0 <= c < 64 && #[trigger] draw_color_upto(pre, op, rows, bits, r, c) == 1
            && pre.pix(r, c) & 1 == 1
}

/// Whether the processed part writes any set sprite bit at all (only those
/// flips change a pixel, since XOR with zero changes nothing).
pub open spec fn draw_paints_upto(pre: CPU, op: OpCode, rows: int, bits: int) -> bool {
    exists|r: int, c: int|
        0 <= r < 32 && 0 <= c < 64 && #[trigger] draw_color_upto(pre, op, rows, bits, r, c) == 1
}

/// The sprite draw: every framebuffer cell is XORed with its sprite bit,
/// register 15 reports whether any set pixel was flipped off (a collision),
/// and the dirty flag is set exactly when some pixel changed.
pub open spec fn sem_op_dxyn(pre: CPU, post: CPU, op: OpCode) -> bool {
    &&& post == (
        CPU {
            pc: post.pc,
            registers: post.registers,
            vram: post.vram,
            vram_changed: post.vram_changed,
            ..pre
        }
    )
    &&& forall|r: int, c: int|
        0 <= r < 32 && 0 <= c < 64 ==> #[trigger] post.pix(r, c) == pre.pix(r, c) ^ draw_color(
            pre,
            op,
            r,
            c,
        )
    &&& post.registers@ == pre.registers@.update(
        15,
        if draw_collides_upto(pre, op, draw_rows(op), 0) {
            1u8
        } else {
            0u8
        },
    )
    &&& post.vram_changed == (pre.vram_changed || draw_paints_upto(pre, op, draw_rows(op), 0))
}

/// Which error, if any, stops the dispatched instruction before it runs:
/// a return on an empty stack, or a call with all 16 stack slots in use.
pub open spec fn step_err(pre: CPU, op: OpCode) -> Option<CpuError> {
    if op.ll == 0x0 && op.lr == 0x0 && !(op.rl == 0xE && op.rr == 0x0) && pre.sp == 0 {
        Some(CpuError::StackUnderflow)
    } else if ((op.ll == 0x0 && op.lr != 0x0) || op.ll == 0x2) && pre.sp >= 16 {
        Some(CpuError::StackOverflow)
    } else {
        None
    }
}

/// One successfully dispatched instruction: the decoded record selects the
/// per-opcode relation by the priority order of the nibble patterns (most
/// specific first), and the engine applies the instruction's program-counter
/// effect, wrapped to the address space. A record that matches no pattern
/// is a no-op that advances past itself.
pub open spec fn step_ok(pre: CPU, post: CPU, op: OpCode) -> bool {
    if op.ll == 0x0 && op.lr == 0x0 && op.rl == 0xE && op.rr == 0x0 {
        sem_op_00e0(pre, post) && post.pc == pc_next(pre)
    } else if op.ll == 0x0 && op.lr == 0x0 {
        sem_op_00ee(pre, post) && post.pc == pre.stack@[pre.sp - 1] as int % 4096
    } else if op.ll == 0x0 || op.ll == 0x2 {
        sem_call(pre, post) && post.pc == op.nnn() % 4096
    } else if op.ll == 0x1 {
        only_pc(pre, post) && post.pc == op.nnn() % 4096
    } else if op.ll == 0x3 {
        only_pc(pre, post) && post.pc == if pre.reg(op.lr as int) == op.nn() {
            pc_skip(pre)
        } else {
            pc_next(pre)
        }
    } else if op.ll == 0x4 {
        only_pc(pre, post) && post.pc == if pre.reg(op.lr as int) != op.nn() {
            pc_skip(pre)
        } else {
            pc_next(pre)
        }
    } else if op.ll == 0x5 && op.rr == 0x0 {
        only_pc(pre, post) && post.pc == if pre.reg(op.lr as int) == pre.reg(op.rl as int) {
            pc_skip(pre)
        } else {
            pc_next(pre)
        }
    } else if op.ll == 0x6 {
        sem_op_6xnn(pre, post, op) && post.pc == pc_next(pre)
    } else if op.ll == 0x7 {
        sem_op_7xnn(pre, post, op) && post.pc == pc_next(pre)
    } else if op.ll == 0x8 && op.rr == 0x0 {
        sem_op_8xy0(pre, post, op) && post.pc == pc_next(pre)
    } else if op.ll == 0x8 && op.rr == 0x1 {
        sem_op_8xy1(pre, post, op) && post.pc == pc_next(pre)
    } else if op.ll == 0x8 && op.rr == 0x2 {
        sem_op_8xy2(pre, post, op) && post.pc == pc_next(pre)
    } else if op.ll == 0x8 && op.rr == 0x3 {
        sem_op_8xy3(pre, post, op) && post.pc == pc_next(pre)
    } else if op.ll == 0x8 && op.rr == 0x4 {
        sem_op_8xy4(pre, post, op) && post.pc == pc_next(pre)
    } else if op.ll == 0x8 && op.rr == 0x5 {
        sem_op_8xy5(pre, post, op) && post.pc == pc_next(pre)
    } else if op.ll == 0x8 && op.rr == 0x6 {
        sem_op_8xy6(pre, post, op) && post.pc == pc_next(pre)
    } else if op.ll == 0x8 && op.rr == 0x7 {
        sem_op_8xy7(pre, post, op) && post.pc == pc_next(pre)
    } else if op.ll == 0x8 && op.rr == 0xE {
        sem_op_8xye(pre, post, op) && post.pc == pc_next(pre)
    } else if op.ll == 0x9 && op.rr == 0x0 {
        only_pc(pre, post) && post.pc == if pre.reg(op.lr as int) != pre.reg(op.rl as int) {
            pc_skip(pre)
        } else {
            pc_next(pre)
        }
    } else if op.ll == 0xA {
        sem_op_annn(pre, post, op) && post.pc == pc_next(pre)
    } else if op.ll == 0xB {
        only_pc(pre, post) && post.pc == (op.nnn() + pre.reg(0)) % 4096
    } else if op.ll == 0xC {
        sem_op_cxnn(pre, post, op) && post.pc == pc_next(pre)
    } else if op.ll == 0xD {
        sem_op_dxyn(pre, post, op) && post.pc == pc_next(pre)
    } else if op.ll == 0xE && op.rl == 0x9 && op.rr == 0xE {
        only_pc(pre, post) && post.pc == if pre.keypad@[pre.reg(op.lr as int) as int % 16] {
            pc_skip(pre)
        } else {
            pc_next(pre)
        }
    } else if op.ll == 0xE && op.rl == 0xA && op.rr == 0x1 {
        only_pc(pre, post) && post.pc == if !pre.keypad@[pre.reg(op.lr as int) as int % 16] {
            pc_skip(pre)
        } else {
            pc_next(pre)
        }
    } else if op.ll == 0xF && op.rl == 0x0 && op.rr == 0x7 {
        sem_op_fx07(pre, post, op) && post.pc == pc_next(pre)
    } else if op.ll == 0xF && op.rl == 0x0 && op.rr == 0xA {
        sem_op_fx0a(pre, post, op) && post.pc == pre.pc % 4096
    } else if op.ll == 0xF && op.rl == 0x1 && op.rr == 0x5 {
        sem_op_fx15(pre, post, op) && post.pc == pc_next(pre)
    } else if op.ll == 0xF && op.rl == 0x1 && op.rr == 0x8 {
        sem_op_fx18(pre, post, op) && post.pc == pc_next(pre)
    } else if op.ll == 0xF && op.rl == 0x1 && op.rr == 0xE {
        sem_op_fx1e(pre, post, op) && post.pc == pc_next(pre)
    } else if op.ll == 0xF && op.rl == 0x2 && op.rr == 0x9 {
        sem_op_fx29(pre, post, op) && post.pc == pc_next(pre)
    } else if op.ll == 0xF && op.rl == 0x3 && op.rr == 0x3 {
        sem_op_fx33(pre, post, op) && post.pc == pc_next(pre)
    } else if op.ll == 0xF && op.rl == 0x5 && op.rr == 0x5 {
        sem_op_fx55(pre, post, op) && post.pc == pc_next(pre)
    } else if op.ll == 0xF && op.rl == 0x6 && op.rr == 0x5 {
        sem_op_fx65(pre, post, op) && post.pc == pc_next(pre)
    } else {
        only_pc(pre, post) && post.pc == pc_next(pre)
    }
}

/// The opcode record the engine fetches at the program counter: the two
/// bytes there, split into nibbles. The second byte wraps to the start of
/// memory when the program counter sits on the last byte.
pub open spec fn fetched_op(s: CPU) -> OpCode {
    let hi = s.ram@[s.pc as int];
    let lo = s.ram@[(s.pc + 1) % 4096];
    OpCode {
        ll: ((hi as int) / 16) as u8,
        lr: ((hi as int) % 16) as u8,
        rl: ((lo as int) / 16) as u8,
        rr: ((lo as int) % 16) as u8,
    }
}

/// The smallest key index at or above `k` that is down in `cur` but was up
/// in `prev` — the key-down transition that resolves a key wait.
pub open spec fn first_new_key(prev: Seq<bool>, cur: Seq<bool>, k: int) -> Option<int>
    decreases 16 - k,
{
    if k < 0 || k >= 16 {
        None
    } else if cur[k] && !prev[k] {
        Some(k)
    } else {
        first_new_key(prev, cur, k + 1)
    }
}

/// One whole engine cycle: the keypad snapshot replaces the previous one
/// and the per-cycle dirty flag starts clear. While the key-wait latch is
/// set no instruction runs; the first key-down transition between the
/// previous and the current snapshot lands in the latched register, clears
/// the latch and lets the program counter move past the waiting
/// instruction. Otherwise the instruction at the program counter runs as
/// `step_ok` / `step_err` describe. The output reports the framebuffer,
/// whether this cycle changed it, and whether the sound timer is running.
pub open spec fn cycle_sem(
    pre: CPU,
    post: CPU,
    keypad: [bool; 16],
    out: Result<CycleOutput, CpuError>,
) -> bool {
    let s = CPU { keypad: keypad, vram_changed: false, ..pre };
    if pre.keypad_waiting {
        &&& out == Ok::<CycleOutput, CpuError>(
            CycleOutput { vram: post.vram, vram_changed: false, beep: pre.sound_timer > 0 },
        )
        &&& match first_new_key(pre.keypad@, keypad@, 0) {
            Some(k) => {
                &&& post == (
                    CPU {
                        pc: post.pc,
                        registers: post.registers,
                        keypad_waiting: false,
                        ..s
                    }
                )
                &&& post.registers@ == s.registers@.update(pre.keypad_register as int, k as u8)
                &&& post.pc == pc_next(pre)
            },
            None => post == s,
        }
    } else {
        let op = fetched_op(pre);
        match step_err(s, op) {
            Some(e) => out == Err::<CycleOutput, CpuError>(e) && post == s,
            None => {
                &&& step_ok(s, post, op)
                &&& out == Ok::<CycleOutput, CpuError>(
                    CycleOutput {
                        vram: post.vram,
                        vram_changed: post.vram_changed,
                        beep: post.sound_timer > 0,
                    },
                )
            },
        }
    }
}

/// A cell in a wrapped ring of size `m` is reached from `base` by exactly
/// one offset below `m`: the offset of `r` from `base` is `off` precisely
/// when `r` is `base + off` wrapped.
proof fn lemma_wrap_unique(base: int, off: int, m: int, r: int)
    requires
        0 < m,
        0 <= off < m,
        0 <= r < m,
        0 <= base,
    ensures
        ((r - base) % m == off) <==> (r == (base + off) % m),
{
    if r == (base + off) % m {
        lemma_fundamental_div_mod(base + off, m);
        let q = (base + off) / m;
        assert(r - base == m * (-q) + off) by (nonlinear_arith)
            requires
                base + off == m * q + r,
        ;
        lemma_mod_multiples_vanish(-q, off, m);
        lemma_small_mod(off as nat, m as nat);
    }
    if (r - base) % m == off {
        lemma_fundamental_div_mod(r - base, m);
        let q = (r - base) / m;
        assert(base + off == m * (-q) + r) by (nonlinear_arith)
            requires
                r - base == m * q + off,
        ;
        lemma_mod_multiples_vanish(-q, r, m);
        lemma_small_mod(r as nat, m as nat);
    }
}

/// XOR with a zero byte changes nothing.
proof fn lemma_xor_zero(a: u8)
    ensures
        a ^ 0 == a,
{
    assert(a ^ 0 == a) by (bit_vector);
}

/// An extracted sprite bit is 0 or 1.
proof fn lemma_sprite_bit_le_one(b: u8, s: u8)
    ensures
        (b >> s) & 1 <= 1,
{
    assert((b >> s) & 1 <= 1) by (bit_vector);
}

/// Folding one cell into the collision accumulator: the accumulator stays a
/// 0-or-1 value, and reports 1 exactly when it already did or the cell both
/// receives a set sprite bit and has its own low bit set.
proof fn lemma_collision_bit(col: u8, color: u8, cell: u8)
    requires
        col <= 1,
        color <= 1,
    ensures
        col | (color & cell) <= 1,
        (col | (color & cell) == 1) <==> (col == 1 || (color == 1 && cell & 1 == 1)),
{
    assert(col | (color & cell) <= 1 && ((col | (color & cell) == 1) <==> (col == 1 || (color == 1
        && cell & 1 == 1)))) by (bit_vector)
        requires
            col <= 1 && color <= 1,
    ;
}

/// The per-opcode relations ignore the program counter of the post state:
/// moving it afterwards (as the engine does) preserves them. These lemmas
/// say so for the relations that quantify over the post state.
proof fn lemma_sem_op_00e0_repc(pre: CPU, a: CPU, b: CPU)
    requires
        sem_op_00e0(pre, a),
        b == (CPU { pc: b.pc, ..a }),
    ensures
        sem_op_00e0(pre, b),
{
    assert forall|r: int, c: int| 0 <= r < 32 && 0 <= c < 64 implies #[trigger] b.pix(r, c) == 0 by {
        assert(a.pix(r, c) == 0);
    }
}

proof fn lemma_sem_op_cxnn_repc(pre: CPU, a: CPU, b: CPU, op: OpCode)
    requires
        sem_op_cxnn(pre, a, op),
        b == (CPU { pc: b.pc, ..a }),
    ensures
        sem_op_cxnn(pre, b, op),
{
    let w = choose|w: u8| regs_update(pre, a, op.lr as int, #[trigger] (w & (op.nn() as u8)));
    assert(regs_update(pre, b, op.lr as int, w & (op.nn() as u8)));
}

proof fn lemma_sem_op_dxyn_repc(pre: CPU, a: CPU, b: CPU, op: OpCode)
    requires
        sem_op_dxyn(pre, a, op),
        b == (CPU { pc: b.pc, ..a }),
    ensures
        sem_op_dxyn(pre, b, op),
{
    assert forall|r: int, c: int| 0 <= r < 32 && 0 <= c < 64 implies #[trigger] b.pix(r, c)
        == pre.pix(r, c) ^ draw_color(pre, op, r, c) by {
        assert(a.pix(r, c) == pre.pix(r, c) ^ draw_color(pre, op, r, c));
    }
}

proof fn lemma_sem_op_fx55_repc(pre: CPU, a: CPU, b: CPU, op: OpCode)
    requires
        sem_op_fx55(pre, a, op),
        b == (CPU { pc: b.pc, ..a }),
    ensures
        sem_op_fx55(pre, b, op),
{
    assert forall|ad: int| 0 <= ad < 4096 implies #[trigger] b.ram@[ad] == {
        let j = (ad - pre.index) % 4096;
        if j < op.lr + 1 {
            pre.registers@[j]
        } else {
            pre.ram@[ad]
        }
    } by {
        assert(b.ram@[ad] == a.ram@[ad]);
    }
}

proof fn lemma_sem_op_fx65_repc(pre: CPU, a: CPU, b: CPU, op: OpCode)
    requires
        sem_op_fx65(pre, a, op),
        b == (CPU { pc: b.pc, ..a }),
    ensures
        sem_op_fx65(pre, b, op),
{
    assert forall|i: int| 0 <= i < 16 implies #[trigger] b.reg(i) == (if i < op.lr + 1 {
        pre.ram@[(pre.index + i) % 4096]
    } else {
        pre.reg(i)
    }) by {
        assert(b.reg(i) == a.reg(i));
    }
}

/// Relies on rand::thread_rng and rand::Rng::gen::<u8>: a fresh byte from
/// the thread-local generator, uniform over [0, 255]. Nothing is promised
/// of its value.
#[verifier::external_body]
fn random_byte() -> (r: u8) {
    rand::thread_rng().gen::<u8>()
}

impl CPU {
    /// A machine at reset: everything zeroed, the program counter at the
    /// entry point.
    pub fn new() -> (cpu: CPU)
        ensures
            is_reset(cpu),
            cpu.wf(),
    {
        CPU {
            pc: 0x200,
            sp: 0,
            registers: [0u8; 16],
            stack: [0usize; 16],
            ram: [0u8; 4096],
            vram: [[0u8; 64]; 32],
            vram_changed: false,
            index: 0,
            delay_timer: 0,
            sound_timer: 0,
            keypad: [false; 16],
            keypad_waiting: false,
            keypad_register: 0,
        }
    }

    /// Re-initializes all state, as a fresh machine.
    pub fn reset(&mut self)
        ensures
            is_reset(*final(self)),
            final(self).wf(),
    {
        *self = CPU::new();
    }

    /// Copies a program image verbatim into memory at the entry point
    /// 0x200. An image larger than the 3584 bytes above the entry point is
    /// rejected before any state changes.
    pub fn load(&mut self, data: &[u8]) -> (res: Result<(), CpuError>)
        ensures
            data@.len() <= 3584 ==> {
                &&& res == Ok::<(), CpuError>(())
                &&& *final(self) == (CPU { ram: final(self).ram, ..*old(self) })
                &&& forall|a: int|
                    0 <= a < 4096 ==> final(self).ram@[a] == (if 0x200 <= a < 0x200 + data@.len() {
                        data@[a - 0x200]
                    } else {
                        old(self).ram@[a]
                    })
            },
            data@.len() > 3584 ==> res == Err::<(), CpuError>(CpuError::RomTooLarge) && *final(self)
                == *old(self),
    {
        if data.len() > 3584 {
            return Err(CpuError::RomTooLarge);
        }
        let mut i: usize = 0;
        while i < data.len()
            invariant
                data@.len() <= 3584,
                i <= data@.len(),
                *self == (CPU { ram: self.ram, ..*old(self) }),
                forall|a: int|
                    0 <= a < 4096 ==> self.ram@[a] == (if 0x200 <= a < 0x200 + i {
                        data@[a - 0x200]
                    } else {
                        old(self).ram@[a]
                    }),
            decreases data@.len() - i,
        {
            self.ram[0x200 + i] = data[i];
            i = i + 1;
        }
        Ok(())
    }

    /// True when the sound timer is running and a tone should play.
    pub fn sound_active(&self) -> (b: bool)
        ensures
            b == (self.sound_timer > 0),
    {
        self.sound_timer > 0
    }

    /// Decrements each timer by one if it is nonzero; both floor at zero.
    /// The external driver invokes this at a fixed real-time rate,
    /// decoupled from the instruction rate.
    pub fn tick_timers(&mut self)
        ensures
            *final(self) == (
                CPU {
                    delay_timer: final(self).delay_timer,
                    sound_timer: final(self).sound_timer,
                    ..*old(self)
                }
            ),
            final(self).delay_timer == if old(self).delay_timer > 0 {
                (old(self).delay_timer - 1) as u8
            } else {
                0u8
            },
            final(self).sound_timer == if old(self).sound_timer > 0 {
                (old(self).sound_timer - 1) as u8
            } else {
                0u8
            },
    {
        if self.delay_timer > 0 {
            self.delay_timer = self.delay_timer - 1;
        }
        if self.sound_timer > 0 {
            self.sound_timer = self.sound_timer - 1;
        }
    }

    /// The runtime counterpart of the machine invariant, so an external
    /// caller can test it before driving the machine.
    pub fn is_well_formed(&self) -> (b: bool)
        ensures
            b == self.wf(),
    {
        self.pc < 4096 && self.sp <= 16 && self.keypad_register < 16
    }

    /// Fetches and decodes the two instruction bytes at the program
    /// counter.
    pub fn get_opcode(&self) -> (op: OpCode)
        requires
            self.wf(),
        ensures
            op == fetched_op(*self),
            op.wf(),
    {
        OpCode::new(self.ram[self.pc], self.ram[(self.pc + 1) % 4096])
    }

    /// Executes one machine cycle against the given keypad snapshot.
    /// The snapshot replaces the previous one and the per-cycle dirty flag
    /// starts clear. While the key-wait latch is set, no instruction runs:
    /// the first key that is down now but was up in the previous snapshot
    /// lands in the latched register, clears the latch and completes the
    /// waiting instruction; until such a key arrives the same instruction
    /// stays due. Otherwise the instruction at the program counter is
    /// fetched, decoded and dispatched. The output carries the framebuffer,
    /// whether this cycle changed it, and whether the sound timer is
    /// running; a stack fault is reported instead, with the machine
    /// unchanged but for the snapshot and the cleared dirty flag.
    pub fn cycle(&mut self, keypad: [bool; 16]) -> (out: Result<CycleOutput, CpuError>)
        requires
            old(self).wf(),
        ensures
            final(self).wf(),
            cycle_sem(*old(self), *final(self), keypad, out),
    {
        let prev: [bool; 16] = self.keypad;
        self.keypad = keypad;
        self.vram_changed = false;
        if self.keypad_waiting {
            let mut k: usize = 0;
            let mut found: bool = false;
            while k < 16 && !found
                invariant
                    k <= 16,
                    found ==> k < 16 && keypad@[k as int] && !prev@[k as int] && first_new_key(
                        prev@,
                        keypad@,
                        0,
                    ) == Some(k as int),
                    !found ==> first_new_key(prev@, keypad@, 0) == first_new_key(
                        prev@,
                        keypad@,
                        k as int,
                    ),
                decreases 16 - k + (if found { 0int } else { 1int }),
            {
                if keypad[k] && !prev[k] {
                    found = true;
                } else {
                    k = k + 1;
                }
            }
            if found {
                self.registers[self.keypad_register] = k as u8;
                self.keypad_waiting = false;
                self.pc = (self.pc + OPCODE_SIZE) % 4096;
            }
        } else {
            let op = self.get_opcode();
            let res = self.run_opcode(&op);
            if let Err(e) = res {
                return Err(e);
            }
        }
        Ok(
            CycleOutput {
                vram: self.vram,
                vram_changed: self.vram_changed,
                beep: self.sound_timer > 0,
            },
        )
    }

    /// Dispatches one decoded instruction to its handler by the priority
    /// order of the nibble patterns (most specific first), then applies the
    /// handler's program-counter effect, wrapped to the address space. A
    /// call with all 16 stack slots in use, or a return with an empty
    /// stack, is reported as an error and leaves the machine unchanged. A
    /// record that matches no pattern is a no-op that advances past itself.
    pub fn run_opcode(&mut self, opcode: &OpCode) -> (res: Result<(), CpuError>)
        requires
            opcode.wf(),
            old(self).wf(),
        ensures
            final(self).wf(),
            match step_err(*old(self), *opcode) {
                Some(e) => res == Err::<(), CpuError>(e) && *final(self) == *old(self),
                None => res == Ok::<(), CpuError>(()) && step_ok(*old(self), *final(self), *opcode),
            },
    {
        let pc_change: ProgramCounter = match (opcode.ll, opcode.lr, opcode.rl, opcode.rr) {
            (0x0, 0x0, 0xE, 0x0) => self.execute_op_00e0(opcode),
            (0x0, 0x0, _, _) => {
                if self.sp == 0 {
                    return Err(CpuError::StackUnderflow);
                }
                self.execute_op_00ee(opcode)
            },
            (0x0, _, _, _) => {
                if self.sp >= 16 {
                    return Err(CpuError::StackOverflow);
                }
                self.execute_op_0nnn(opcode)
            },
            (0x1, _, _, _) => self.execute_op_1nnn(opcode),
            (0x2, _, _, _) => {
                if self.sp >= 16 {
                    return Err(CpuError::StackOverflow);
                }
                self.execute_op_2nnn(opcode)
            },
            (0x3, _, _, _) => self.execute_op_3xnn(opcode),
            (0x4, _, _, _) => self.execute_op_4xnn(opcode),
            (0x5, _, _, 0x0) => self.execute_op_5xy0(opcode),
            (0x6, _, _, _) => self.execute_op_6xnn(opcode),
            (0x7, _, _, _) => self.execute_op_7xnn(opcode),
            (0x8, _, _, 0x0) => self.execute_op_8xy0(opcode),
            (0x8, _, _, 0x1) => self.execute_op_8xy1(opcode),
            (0x8, _, _, 0x2) => self.execute_op_8xy2(opcode),
            (0x8, _, _, 0x3) => self.execute_op_8xy3(opcode),
            (0x8, _, _, 0x4) => self.execute_op_8xy4(opcode),
            (0x8, _, _, 0x5) => self.execute_op_8xy5(opcode),
            (0x8, _, _, 0x6) => self.execute_op_8xy6(opcode),
            (0x8, _, _, 0x7) => self.execute_op_8xy7(opcode),
            (0x8, _, _, 0xE) => self.execute_op_8xye(opcode),
            (0x9, _, _, 0x0) => self.execute_op_9xy0(opcode),
            (0xA, _, _, _) => self.execute_op_annn(opcode),
            (0xB, _, _, _) => self.execute_op_bnnn(opcode),
            (0xC, _, _, _) => self.execute_op_cxnn(opcode),
            (0xD, _, _, _) => self.execute_op_dxyn(opcode),
            (0xE, _, 0x9, 0xE) => self.execute_op_ex9e(opcode),
            (0xE, _, 0xA, 0x1) => self.execute_op_exa1(opcode),
            (0xF, _, 0x0, 0x7) => self.execute_op_fx07(opcode),
            (0xF, _, 0x0, 0xA) => self.execute_op_fx0a(opcode),
            (0xF, _, 0x1, 0x5) => self.execute_op_fx15(opcode),
            (0xF, _, 0x1, 0x8) => self.execute_op_fx18(opcode),
            (0xF, _, 0x1, 0xE) => self.execute_op_fx1e(opcode),
            (0xF, _, 0x2, 0x9) => self.execute_op_fx29(opcode),
            (0xF, _, 0x3, 0x3) => self.execute_op_fx33(opcode),
            (0xF, _, 0x5, 0x5) => self.execute_op_fx55(opcode),
            (0xF, _, 0x6, 0x5) => self.execute_op_fx65(opcode),
            _ => ProgramCounter::Next,
        };
        let ghost mid = *self;
        match pc_change {
            ProgramCounter::Next => {
                self.pc = (self.pc + OPCODE_SIZE) % 4096;
            },
            ProgramCounter::Skip => {
                self.pc = (self.pc + OPCODE_SIZE + OPCODE_SIZE) % 4096;
            },
            ProgramCounter::Jump(addr) => {
                self.pc = addr % 4096;
            },
        }
        proof {
            let pre = *old(self);
            let op = *opcode;
            if step_err(pre, op) is None {
                if op.ll == 0x0 && op.lr == 0x0 && op.rl == 0xE && op.rr == 0x0 {
                    lemma_sem_op_00e0_repc(pre, mid, *self);
                } else if op.ll == 0xC {
                    lemma_sem_op_cxnn_repc(pre, mid, *self, op);
                } else if op.ll == 0xD {
                    lemma_sem_op_dxyn_repc(pre, mid, *self, op);
                } else if op.ll == 0xF && op.rl == 0x5 && op.rr == 0x5 {
                    lemma_sem_op_fx55_repc(pre, mid, *self, op);
                } else if op.ll == 0xF && op.rl == 0x6 && op.rr == 0x5 {
                    lemma_sem_op_fx65_repc(pre, mid, *self, op);
                }
            }
        }
        Ok(())
    }

    /// Calls the routine at NNN: like any call, pushes the address of the
    /// following instruction and jumps.
    pub fn execute_op_0nnn(&mut self, opcode: &OpCode) -> (r: ProgramCounter)
        requires
            opcode.wf(),
            old(self).pc < 4096,
            old(self).sp < 16,
        ensures
            r == ProgramCounter::Jump(opcode.nnn() as usize),
            final(self).pc == old(self).pc,
            sem_call(*old(self), *final(self)),
    {
        self.stack[self.sp] = self.pc + OPCODE_SIZE;
        self.sp = self.sp + 1;
        ProgramCounter::Jump(opcode.get_nnn())
    }

    /// Clears the screen and sets the dirty flag.
    pub fn execute_op_00e0(&mut self, opcode: &OpCode) -> (r: ProgramCounter)
        ensures
            r == ProgramCounter::Next,
            final(self).pc == old(self).pc,
            sem_op_00e0(*old(self), *final(self)),
    {
        self.vram = [[0u8; 64]; 32];
        self.vram_changed = true;
        ProgramCounter::Next
    }

    /// Returns from a subroutine: pops the saved address and jumps to it.
    pub fn execute_op_00ee(&mut self, opcode: &OpCode) -> (r: ProgramCounter)
        requires
            1 <= old(self).sp <= 16,
        ensures
            r == ProgramCounter::Jump(old(self).stack@[old(self).sp - 1]),
            final(self).pc == old(self).pc,
            sem_op_00ee(*old(self), *final(self)),
    {
        self.sp = self.sp - 1;
        ProgramCounter::Jump(self.stack[self.sp])
    }

    /// Jumps to address NNN.
    pub fn execute_op_1nnn(&mut self, opcode: &OpCode) -> (r: ProgramCounter)
        requires
            opcode.wf(),
        ensures
            r == ProgramCounter::Jump(opcode.nnn() as usize),
            *final(self) == *old(self),
    {
        ProgramCounter::Jump(opcode.get_nnn())
    }

    /// Calls the subroutine at NNN: pushes the address of the following
    /// instruction and jumps.
    pub fn execute_op_2nnn(&mut self, opcode: &OpCode) -> (r: ProgramCounter)
        requires
            opcode.wf(),
            old(self).pc < 4096,
            old(self).sp < 16,
        ensures
            r == ProgramCounter::Jump(opcode.nnn() as usize),
            final(self).pc == old(self).pc,
            sem_call(*old(self), *final(self)),
    {
        self.stack[self.sp] = self.pc + OPCODE_SIZE;
        self.sp = self.sp + 1;
        ProgramCounter::Jump(opcode.get_nnn())
    }

    /// Skips the next instruction if register X equals the immediate.
    pub fn execute_op_3xnn(&mut self, opcode: &OpCode) -> (r: ProgramCounter)
        requires
            opcode.wf(),
        ensures
            *final(self) == *old(self),
            r == if old(self).reg(opcode.lr as int) == opcode.nn() {
                ProgramCounter::Skip
            } else {
                ProgramCounter::Next
            },
    {
        if self.registers[opcode.lr as usize] == opcode.get_nn() {
            return ProgramCounter::Skip;
        }
        ProgramCounter::Next
    }

    /// Skips the next instruction if register X differs from the immediate.
    pub fn execute_op_4xnn(&mut self, opcode: &OpCode) -> (r: ProgramCounter)
        requires
            opcode.wf(),
        ensures
            *final(self) == *old(self),
            r == if old(self).reg(opcode.lr as int) != opcode.nn() {
                ProgramCounter::Skip
            } else {
                ProgramCounter::Next
            },
    {
        if self.registers[opcode.lr as usize] != opcode.get_nn() {
            return ProgramCounter::Skip;
        }
        ProgramCounter::Next
    }

    /// Skips the next instruction if registers X and Y are equal.
    pub fn execute_op_5xy0(&mut self, opcode: &OpCode) -> (r: ProgramCounter)
        requires
            opcode.wf(),
        ensures
            *final(self) == *old(self),
            r == if old(self).reg(opcode.lr as int) == old(self).reg(opcode.rl as int) {
                ProgramCounter::Skip
            } else {
                ProgramCounter::Next
            },
    {
        if self.registers[opcode.lr as usize] == self.registers[opcode.rl as usize] {
            return ProgramCounter::Skip;
        }
        ProgramCounter::Next
    }

    /// Sets register X to the immediate.
    pub fn execute_op_6xnn(&mut self, opcode: &OpCode) -> (r: ProgramCounter)
        requires
            opcode.wf(),
        ensures
            r == ProgramCounter::Next,
            final(self).pc == old(self).pc,
            sem_op_6xnn(*old(self), *final(self), *opcode),
    {
        self.registers[opcode.lr as usize] = opcode.get_nn();
        ProgramCounter::Next
    }

    /// Adds the immediate to register X, wrapping at 8 bits; no flag is
    /// touched.
    pub fn execute_op_7xnn(&mut self, opcode: &OpCode) -> (r: ProgramCounter)
        requires
            opcode.wf(),
        ensures
            r == ProgramCounter::Next,
            final(self).pc == old(self).pc,
            sem_op_7xnn(*old(self), *final(self), *opcode),
    {
        let x: usize = opcode.lr as usize;
        self.registers[x] = self.registers[x].wrapping_add(opcode.get_nn());
        ProgramCounter::Next
    }

    /// Sets register X to the value of register Y.
    pub fn execute_op_8xy0(&mut self, opcode: &OpCode) -> (r: ProgramCounter)
        requires
            opcode.wf(),
        ensures
            r == ProgramCounter::Next,
            final(self).pc == old(self).pc,
            sem_op_8xy0(*old(self), *final(self), *opcode),
    {
        self.registers[opcode.lr as usize] = self.registers[opcode.rl as usize];
        ProgramCounter::Next
    }

    /// Sets register X to X bitwise-or Y.
    pub fn execute_op_8xy1(&mut self, opcode: &OpCode) -> (r: ProgramCounter)
        requires
            opcode.wf(),
        ensures
            r == ProgramCounter::Next,
            final(self).pc == old(self).pc,
            sem_op_8xy1(*old(self), *final(self), *opcode),
    {
        let x: usize = opcode.lr as usize;
        self.registers[x] = self.registers[x] | self.registers[opcode.rl as usize];
        ProgramCounter::Next
    }

    /// Sets register X to X bitwise-and Y.
    pub fn execute_op_8xy2(&mut self, opcode: &OpCode) -> (r: ProgramCounter)
        requires
            opcode.wf(),
        ensures
            r == ProgramCounter::Next,
            final(self).pc == old(self).pc,
            sem_op_8xy2(*old(self), *final(self), *opcode),
    {
        let x: usize = opcode.lr as usize;
        self.registers[x] = self.registers[x] & self.registers[opcode.rl as usize];
        ProgramCounter::Next
    }

    /// Sets register X to X bitwise-xor Y.
    pub fn execute_op_8xy3(&mut self, opcode: &OpCode) -> (r: ProgramCounter)
        requires
            opcode.wf(),
        ensures
            r == ProgramCounter::Next,
            final(self).pc == old(self).pc,
            sem_op_8xy3(*old(self), *final(self), *opcode),
    {
        let x: usize = opcode.lr as usize;
        self.registers[x] = self.registers[x] ^ self.registers[opcode.rl as usize];
        ProgramCounter::Next
    }

    /// Adds register Y into register X modulo 256; register 15 reports the
    /// carry.
    pub fn execute_op_8xy4(&mut self, opcode: &OpCode) -> (r: ProgramCounter)
        requires
            opcode.wf(),
        ensures
            r == ProgramCounter::Next,
            final(self).pc == old(self).pc,
            sem_op_8xy4(*old(self), *final(self), *opcode),
    {
        let x: usize = opcode.lr as usize;
        let y: usize = opcode.rl as usize;
        let result: u16 = self.registers[x] as u16 + self.registers[y] as u16;
        proof {
            assert(result as u8 == (result as int) % 256) by (bit_vector);
        }
        self.registers[x] = #[verifier::truncate] (result as u8);
        self.registers[15] = if result > 0xFF {
            1
        } else {
            0
        };
        ProgramCounter::Next
    }

    /// Subtracts register Y from register X modulo 256; register 15 reports
    /// 1 when there was no borrow.
    pub fn execute_op_8xy5(&mut self, opcode: &OpCode) -> (r: ProgramCounter)
        requires
            opcode.wf(),
        ensures
            r == ProgramCounter::Next,
            final(self).pc == old(self).pc,
            sem_op_8xy5(*old(self), *final(self), *opcode),
    {
        let x: usize = opcode.lr as usize;
        let y: usize = opcode.rl as usize;
        let vx: u8 = self.registers[x];
        let vy: u8 = self.registers[y];
        self.registers[x] = vx.wrapping_sub(vy);
        self.registers[15] = if vx >= vy {
            1
        } else {
            0
        };
        ProgramCounter::Next
    }

    /// Stores the least significant bit of register X in register 15, then
    /// shifts register X right by one.
    pub fn execute_op_8xy6(&mut self, opcode: &OpCode) -> (r: ProgramCounter)
        requires
            opcode.wf(),
        ensures
            r == ProgramCounter::Next,
            final(self).pc == old(self).pc,
            sem_op_8xy6(*old(self), *final(self), *opcode),
    {
        let x: usize = opcode.lr as usize;
        let vx: u8 = self.registers[x];
        self.registers[15] = vx & 1;
        let cur: u8 = self.registers[x];
        self.registers[x] = cur >> 1u8;
        proof {
            assert(vx & 1 == vx % 2) by (bit_vector);
            assert(cur >> 1u8 == cur / 2) by (bit_vector);
        }
        ProgramCounter::Next
    }

    /// Sets register X to Y minus X modulo 256; register 15 reports 1 when
    /// there was no borrow.
    pub fn execute_op_8xy7(&mut self, opcode: &OpCode) -> (r: ProgramCounter)
        requires
            opcode.wf(),
        ensures
            r == ProgramCounter::Next,
            final(self).pc == old(self).pc,
            sem_op_8xy7(*old(self), *final(self), *opcode),
    {
        let x: usize = opcode.lr as usize;
        let y: usize = opcode.rl as usize;
        let vx: u8 = self.registers[x];
        let vy: u8 = self.registers[y];
        self.registers[x] = vy.wrapping_sub(vx);
        self.registers[15] = if vy >= vx {
            1
        } else {
            0
        };
        ProgramCounter::Next
    }

    /// Stores the most significant bit of register X in register 15 as 0 or
    /// 1, then shifts register X left by one, wrapping at 8 bits.
    pub fn execute_op_8xye(&mut self, opcode: &OpCode) -> (r: ProgramCounter)
        requires
            opcode.wf(),
        ensures
            r == ProgramCounter::Next,
            final(self).pc == old(self).pc,
            sem_op_8xye(*old(self), *final(self), *opcode),
    {
        let x: usize = opcode.lr as usize;
        let vx: u8 = self.registers[x];
        self.registers[15] = vx >> 7u8;
        let cur: u8 = self.registers[x];
        self.registers[x] = cur << 1u8;
        proof {
            assert(vx >> 7u8 == vx / 128) by (bit_vector);
            assert(cur << 1u8 == (2 * cur) % 256) by (bit_vector);
        }
        ProgramCounter::Next
    }

    /// Skips the next instruction if registers X and Y differ.
    pub fn execute_op_9xy0(&mut self, opcode: &OpCode) -> (r: ProgramCounter)
        requires
            opcode.wf(),
        ensures
            *final(self) == *old(self),
            r == if old(self).reg(opcode.lr as int) != old(self).reg(opcode.rl as int) {
                ProgramCounter::Skip
            } else {
                ProgramCounter::Next
            },
    {
        if self.registers[opcode.lr as usize] != self.registers[opcode.rl as usize] {
            return ProgramCounter::Skip;
        }
        ProgramCounter::Next
    }

    /// Sets the index register to the address NNN.
    pub fn execute_op_annn(&mut self, opcode: &OpCode) -> (r: ProgramCounter)
        requires
            opcode.wf(),
        ensures
            r == ProgramCounter::Next,
            final(self).pc == old(self).pc,
            sem_op_annn(*old(self), *final(self), *opcode),
    {
        self.index = opcode.get_nnn() as u16;
        ProgramCounter::Next
    }

    /// Jumps to the address NNN plus register 0.
    pub fn execute_op_bnnn(&mut self, opcode: &OpCode) -> (r: ProgramCounter)
        requires
            opcode.wf(),
        ensures
            *final(self) == *old(self),
            r == ProgramCounter::Jump((opcode.nnn() + old(self).reg(0)) as usize),
    {
        let address: usize = opcode.get_nnn() + self.registers[0] as usize;
        ProgramCounter::Jump(address)
    }

    /// Sets register X to a random byte masked by the immediate.
    pub fn execute_op_cxnn(&mut self, opcode: &OpCode) -> (r: ProgramCounter)
        requires
            opcode.wf(),
        ensures
            r == ProgramCounter::Next,
            final(self).pc == old(self).pc,
            sem_op_cxnn(*old(self), *final(self), *opcode),
    {
        let random_number: u8 = random_byte();
        let masked: u8 = random_number & opcode.get_nn();
        self.registers[opcode.lr as usize] = masked;
        proof {
            assert(masked == random_number & (opcode.nn() as u8));
            assert(regs_update(
                *old(self),
                *self,
                opcode.lr as int,
                random_number & (opcode.nn() as u8),
            ));
        }
        ProgramCounter::Next
    }

    /// Draws the sprite whose rows sit in memory at the index address at
    /// the screen position named by registers X and Y: each sprite bit is
    /// XORed into its pixel, coordinates wrap around the screen, register
    /// 15 reports whether any set pixel was flipped off, and the dirty flag
    /// is set when any pixel changed. The collision flag is cleared first,
    /// so when register 15 itself names a coordinate the draw reads zero.
    pub fn execute_op_dxyn(&mut self, opcode: &OpCode) -> (r: ProgramCounter)
        requires
            opcode.wf(),
        ensures
            r == ProgramCounter::Next,
            final(self).pc == old(self).pc,
            sem_op_dxyn(*old(self), *final(self), *opcode),
    {
        let ghost pre = *old(self);
        let ghost op = *opcode;
        self.registers[15] = 0;
        let vx: usize = self.registers[opcode.lr as usize] as usize;
        let vy: usize = self.registers[opcode.rl as usize] as usize;
        let n: usize = opcode.rr as usize + 1;
        let idx: usize = self.index as usize;
        let mut collision: u8 = 0;
        let mut painted: bool = false;
        proof {
            assert forall|rr: int, cc: int|
                0 <= rr < 32 && 0 <= cc < 64 implies #[trigger] self.pix(rr, cc) == pre.pix(rr, cc)
                ^ draw_color_upto(pre, op, 0, 0, rr, cc) by {
                lemma_xor_zero(pre.pix(rr, cc));
            }
            assert forall|rr: int, cc: int|
                0 <= rr < 32 && 0 <= cc < 64 implies #[trigger] draw_color_upto(pre, op, 0, 0, rr, cc)
                != 1 by {}
            assert(!draw_collides_upto(pre, op, 0, 0));
            assert(!draw_paints_upto(pre, op, 0, 0));
        }
        let mut byte: usize = 0;
        while byte < n
            invariant
                op.wf(),
                op == *opcode,
                n == draw_rows(op),
                vx == draw_vx(pre, op),
                vy == draw_vy(pre, op),
                idx == pre.index,
                byte <= n,
                *self == (CPU { registers: self.registers, vram: self.vram, ..pre }),
                self.registers@ == pre.registers@.update(15, 0u8),
                forall|rr: int, cc: int|
                    0 <= rr < 32 && 0 <= cc < 64 ==> #[trigger] self.pix(rr, cc) == pre.pix(rr, cc)
                        ^ draw_color_upto(pre, op, byte as int, 0, rr, cc),
                collision <= 1,
                (collision == 1) == draw_collides_upto(pre, op, byte as int, 0),
                painted == draw_paints_upto(pre, op, byte as int, 0),
            decreases n - byte,
        {
            let row_byte: u8 = self.ram[(idx + byte) % 4096];
            let y: usize = (vy + byte) % 32;
            let mut bit: usize = 0;
            while bit < 8
                invariant
                    op.wf(),
                    op == *opcode,
                    n == draw_rows(op),
                    vx == draw_vx(pre, op),
                    vy == draw_vy(pre, op),
                    idx == pre.index,
                    byte < n,
                    bit <= 8,
                    row_byte == sprite_row(pre, byte as int),
                    y == (vy + byte) % 32,
                    *self == (CPU { registers: self.registers, vram: self.vram, ..pre }),
                    self.registers@ == pre.registers@.update(15, 0u8),
                    forall|rr: int, cc: int|
                        0 <= rr < 32 && 0 <= cc < 64 ==> #[trigger] self.pix(rr, cc) == pre.pix(
                            rr,
                            cc,
                        ) ^ draw_color_upto(pre, op, byte as int, bit as int, rr, cc),
                    collision <= 1,
                    (collision == 1) == draw_collides_upto(pre, op, byte as int, bit as int),
                    painted == draw_paints_upto(pre, op, byte as int, bit as int),
                decreases 8 - bit,
            {
                let x: usize = (vx + bit) % 64;
                let color: u8 = (row_byte >> ((7 - bit) as u8)) & 1;
                let cell: u8 = self.vram[y][x];
                proof {
                    lemma_sprite_bit_le_one(row_byte, (7 - bit) as u8);
                    // The cell being written is touched by sprite row `byte`
                    // and bit `bit` and by no earlier part of the sprite;
                    // every other cell keeps its processed color.
                    assert forall|rr: int, cc: int|
                        #![trigger draw_color_upto(pre, op, byte as int, bit + 1, rr, cc)]
                        #![trigger draw_color_upto(pre, op, byte as int, bit as int, rr, cc)]
                        0 <= rr < 32 && 0 <= cc < 64 implies (draw_color_upto(
                        pre,
                        op,
                        byte as int,
                        bit + 1,
                        rr,
                        cc,
                    ) == (if rr == y && cc == x {
                        draw_color(pre, op, rr, cc)
                    } else {
                        draw_color_upto(pre, op, byte as int, bit as int, rr, cc)
                    }) && (rr == y && cc == x ==> !draw_touches_upto(
                        pre,
                        op,
                        byte as int,
                        bit as int,
                        rr,
                        cc,
                    ))) by {
                        lemma_wrap_unique(vy as int, byte as int, 32, rr);
                        lemma_wrap_unique(vx as int, bit as int, 64, cc);
                    }
                    assert(draw_color(pre, op, y as int, x as int) == color) by {
                        lemma_wrap_unique(vy as int, byte as int, 32, y as int);
                        lemma_wrap_unique(vx as int, bit as int, 64, x as int);
                    }
                    assert(cell == self.pix(y as int, x as int));
                    assert(cell == pre.pix(y as int, x as int)) by {
                        assert(self.pix(y as int, x as int) == pre.pix(y as int, x as int)
                            ^ draw_color_upto(pre, op, byte as int, bit as int, y as int, x as int));
                        assert(draw_color_upto(pre, op, byte as int, bit as int, y as int, x as int)
                            == 0);
                        lemma_xor_zero(pre.pix(y as int, x as int));
                    }
                    lemma_collision_bit(collision, color, cell);
                }
                let ghost mid = *self;
                collision = collision | (color & cell);
                painted = painted || color == 1;
                let mut row: [u8; 64] = self.vram[y];
                row[x] = cell ^ color;
                self.vram[y] = row;
                proof {
                    assert(self.vram@ == mid.vram@.update(y as int, row));
                    assert(row@ == mid.vram@[y as int]@.update(x as int, cell ^ color));
                    assert forall|rr: int, cc: int|
                        0 <= rr < 32 && 0 <= cc < 64 implies #[trigger] self.pix(rr, cc) == pre.pix(
                        rr,
                        cc,
                    ) ^ draw_color_upto(pre, op, byte as int, bit + 1, rr, cc) by {
                        assert(mid.pix(rr, cc) == pre.pix(rr, cc) ^ draw_color_upto(
                            pre,
                            op,
                            byte as int,
                            bit as int,
                            rr,
                            cc,
                        ));
                        if rr == y as int && cc == x as int {
                            assert(self.pix(rr, cc) == cell ^ color);
                        } else {
                            assert(self.pix(rr, cc) == mid.pix(rr, cc));
                        }
                    }
                    assert(draw_collides_upto(pre, op, byte as int, bit + 1) == (
                    draw_collides_upto(pre, op, byte as int, bit as int) || (color == 1 && pre.pix(
                        y as int,
                        x as int,
                    ) & 1 == 1)));
                    assert(draw_paints_upto(pre, op, byte as int, bit + 1) == (draw_paints_upto(
                        pre,
                        op,
                        byte as int,
                        bit as int,
                    ) || color == 1));
                }
                bit = bit + 1;
            }
            proof {
                // After the whole row, the processed region is exactly the
                // first `byte + 1` rows.
                assert forall|rr: int, cc: int|
                    #![trigger draw_color_upto(pre, op, byte as int, 8, rr, cc)]
                    #![trigger draw_color_upto(pre, op, byte + 1, 0, rr, cc)]
                    0 <= rr < 32 && 0 <= cc < 64 implies draw_color_upto(
                    pre,
                    op,
                    byte as int,
                    8,
                    rr,
                    cc,
                ) == draw_color_upto(pre, op, byte + 1, 0, rr, cc) by {}
                assert(draw_collides_upto(pre, op, byte as int, 8) == draw_collides_upto(
                    pre,
                    op,
                    byte + 1,
                    0,
                ));
                assert(draw_paints_upto(pre, op, byte as int, 8) == draw_paints_upto(
                    pre,
                    op,
                    byte + 1,
                    0,
                ));
            }
            byte = byte + 1;
        }
        let ghost done = *self;
        self.registers[15] = collision;
        if painted {
            self.vram_changed = true;
        }
        proof {
            assert(pre.registers@.update(15, 0u8).update(15, collision) =~= pre.registers@.update(
                15,
                collision,
            ));
            assert forall|rr: int, cc: int|
                0 <= rr < 32 && 0 <= cc < 64 implies #[trigger] self.pix(rr, cc) == pre.pix(rr, cc)
                ^ draw_color(pre, op, rr, cc) by {
                assert(self.pix(rr, cc) == done.pix(rr, cc));
                assert(done.pix(rr, cc) == pre.pix(rr, cc) ^ draw_color_upto(
                    pre,
                    op,
                    draw_rows(op),
                    0,
                    rr,
                    cc,
                ));
                assert(draw_color_upto(pre, op, draw_rows(op), 0, rr, cc) == draw_color(
                    pre,
                    op,
                    rr,
                    cc,
                ));
            }
        }
        ProgramCounter::Next
    }

    /// Skips the next instruction if the key named by register X is down;
    /// key values wrap to the 16-key pad.
    pub fn execute_op_ex9e(&mut self, opcode: &OpCode) -> (r: ProgramCounter)
        requires
            opcode.wf(),
        ensures
            *final(self) == *old(self),
            r == if old(self).keypad@[old(self).reg(opcode.lr as int) as int % 16] {
                ProgramCounter::Skip
            } else {
                ProgramCounter::Next
            },
    {
        if self.keypad[(self.registers[opcode.lr as usize] as usize) % 16] {
            return ProgramCounter::Skip;
        }
        ProgramCounter::Next
    }

    /// Skips the next instruction if the key named by register X is up;
    /// key values wrap to the 16-key pad.
    pub fn execute_op_exa1(&mut self, opcode: &OpCode) -> (r: ProgramCounter)
        requires
            opcode.wf(),
        ensures
            *final(self) == *old(self),
            r == if !old(self).keypad@[old(self).reg(opcode.lr as int) as int % 16] {
                ProgramCounter::Skip
            } else {
                ProgramCounter::Next
            },
    {
        if !self.keypad[(self.registers[opcode.lr as usize] as usize) % 16] {
            return ProgramCounter::Skip;
        }
        ProgramCounter::Next
    }

    /// Sets register X to the value of the delay timer.
    pub fn execute_op_fx07(&mut self, opcode: &OpCode) -> (r: ProgramCounter)
        requires
            opcode.wf(),
        ensures
            r == ProgramCounter::Next,
            final(self).pc == old(self).pc,
            sem_op_fx07(*old(self), *final(self), *opcode),
    {
        self.registers[opcode.lr as usize] = self.delay_timer;
        ProgramCounter::Next
    }

    /// Awaits a key press into register X: sets the key-wait latch and
    /// keeps the program counter on this instruction, so the engine
    /// re-presents it until a key-down transition arrives.
    pub fn execute_op_fx0a(&mut self, opcode: &OpCode) -> (r: ProgramCounter)
        requires
            opcode.wf(),
        ensures
            r == ProgramCounter::Jump(old(self).pc),
            final(self).pc == old(self).pc,
            sem_op_fx0a(*old(self), *final(self), *opcode),
    {
        self.keypad_waiting = true;
        self.keypad_register = opcode.lr as usize;
        ProgramCounter::Jump(self.pc)
    }

    /// Sets the delay timer to the value of register X.
    pub fn execute_op_fx15(&mut self, opcode: &OpCode) -> (r: ProgramCounter)
        requires
            opcode.wf(),
        ensures
            r == ProgramCounter::Next,
            final(self).pc == old(self).pc,
            sem_op_fx15(*old(self), *final(self), *opcode),
    {
        self.delay_timer = self.registers[opcode.lr as usize];
        ProgramCounter::Next
    }

    /// Sets the sound timer to the value of register X.
    pub fn execute_op_fx18(&mut self, opcode: &OpCode) -> (r: ProgramCounter)
        requires
            opcode.wf(),
        ensures
            r == ProgramCounter::Next,
            final(self).pc == old(self).pc,
            sem_op_fx18(*old(self), *final(self), *opcode),
    {
        self.sound_timer = self.registers[opcode.lr as usize];
        ProgramCounter::Next
    }

    /// Adds register X to the index register, wrapping in the 16-bit
    /// address space; register 15 is not affected.
    pub fn execute_op_fx1e(&mut self, opcode: &OpCode) -> (r: ProgramCounter)
        requires
            opcode.wf(),
        ensures
            r == ProgramCounter::Next,
            final(self).pc == old(self).pc,
            sem_op_fx1e(*old(self), *final(self), *opcode),
    {
        self.index = self.index.wrapping_add(self.registers[opcode.lr as usize] as u16);
        ProgramCounter::Next
    }

    /// Points the index register at the font glyph for the digit in
    /// register X (5 bytes per glyph).
    pub fn execute_op_fx29(&mut self, opcode: &OpCode) -> (r: ProgramCounter)
        requires
            opcode.wf(),
        ensures
            r == ProgramCounter::Next,
            final(self).pc == old(self).pc,
            sem_op_fx29(*old(self), *final(self), *opcode),
    {
        self.index = (self.registers[opcode.lr as usize] as u16) * 5;
        ProgramCounter::Next
    }

    /// Stores the three decimal digits of register X at the index address
    /// and the two following ones, most significant first.
    pub fn execute_op_fx33(&mut self, opcode: &OpCode) -> (r: ProgramCounter)
        requires
            opcode.wf(),
        ensures
            r == ProgramCounter::Next,
            final(self).pc == old(self).pc,
            sem_op_fx33(*old(self), *final(self), *opcode),
    {
        let vx: u8 = self.registers[opcode.lr as usize];
        let i: usize = self.index as usize;
        self.ram[i % 4096] = vx / 100;
        self.ram[(i + 1) % 4096] = (vx % 100) / 10;
        self.ram[(i + 2) % 4096] = vx % 10;
        ProgramCounter::Next
    }

    /// Stores registers 0 through X inclusive in memory starting at the
    /// index address, addresses wrapped to memory.
    pub fn execute_op_fx55(&mut self, opcode: &OpCode) -> (r: ProgramCounter)
        requires
            opcode.wf(),
        ensures
            r == ProgramCounter::Next,
            final(self).pc == old(self).pc,
            sem_op_fx55(*old(self), *final(self), *opcode),
    {
        let x: usize = opcode.lr as usize;
        let idx: usize = self.index as usize;
        let mut i: usize = 0;
        while i < x + 1
            invariant
                opcode.wf(),
                x == opcode.lr,
                idx == old(self).index,
                i <= x + 1,
                *self == (CPU { ram: self.ram, ..*old(self) }),
                forall|a: int|
                    0 <= a < 4096 ==> self.ram@[a] == {
                        let j = (a - old(self).index) % 4096;
                        if j < i {
                            old(self).registers@[j]
                        } else {
                            old(self).ram@[a]
                        }
                    },
            decreases x + 1 - i,
        {
            let a0: usize = (idx + i) % 4096;
            self.ram[a0] = self.registers[i];
            proof {
                lemma_small_mod(i as nat, 4096);
                assert forall|a: int| 0 <= a < 4096 implies (#[trigger] ((a - idx) % 4096) == i)
                    == (a == a0 as int) by {
                    lemma_wrap_unique(idx as int, i as int, 4096, a);
                }
            }
            i = i + 1;
        }
        ProgramCounter::Next
    }

    /// Fills registers 0 through X inclusive from memory starting at the
    /// index address, addresses wrapped to memory.
    pub fn execute_op_fx65(&mut self, opcode: &OpCode) -> (r: ProgramCounter)
        requires
            opcode.wf(),
        ensures
            r == ProgramCounter::Next,
            final(self).pc == old(self).pc,
            sem_op_fx65(*old(self), *final(self), *opcode),
    {
        let x: usize = opcode.lr as usize;
        let idx: usize = self.index as usize;
        let mut i: usize = 0;
        while i < x + 1
            invariant
                opcode.wf(),
                x == opcode.lr,
                idx == old(self).index,
                i <= x + 1,
                *self == (CPU { registers: self.registers, ..*old(self) }),
                forall|k: int|
                    0 <= k < 16 ==> self.registers@[k] == (if k < i {
                        old(self).ram@[(old(self).index + k) % 4096]
                    } else {
                        old(self).reg(k)
                    }),
            decreases x + 1 - i,
        {
            self.registers[i] = self.ram[(idx + i) % 4096];
            i = i + 1;
        }
        ProgramCounter::Next
    }
}

} // verus!

//! Machine-wide laws: facts that relate several instructions, proved once
//! and for all over the step semantics of the engine.

use crate::cpu::{
    cycle_sem, draw_collides_upto, draw_color, draw_color_upto, draw_rows, draw_vx, draw_vy,
    sem_op_dxyn, sprite_row, step_ok, CpuError, CycleOutput, CPU, OPCODE_SIZE,
};
use crate::opcode::OpCode;
use vstd::arithmetic::div_mod::lemma_small_mod;
use vstd::prelude::*;

verus! {

/// XOR by the same byte twice gives the byte back.
proof fn lemma_xor_involution(a: u8, b: u8)
    ensures
        (a ^ b) ^ b == a,
{
    assert((a ^ b) ^ b == a) by (bit_vector);
}

/// The low bit of a byte is 0 or 1.
proof fn lemma_low_bit_le_one(a: u8)
    ensures
        a & 1 <= 1,
{
    assert(a & 1 <= 1) by (bit_vector);
}

/// A subroutine call followed immediately by a return restores the program
/// counter to exactly the instruction after the call, for any call target
/// and at any stack depth that leaves room for the call (at most 16 levels
/// once the call is pushed). The stack pointer and the registers come back
/// unchanged.
pub proof fn lemma_call_then_return(s0: CPU, s1: CPU, s2: CPU, call_op: OpCode, ret_op: OpCode)
    requires
        s0.wf(),
        s0.sp < 16,
        call_op.wf(),
        call_op.ll == 0x2 || (call_op.ll == 0x0 && call_op.lr != 0x0),
        ret_op.wf(),
        ret_op.ll == 0x0,
        ret_op.lr == 0x0,
        ret_op.rr != 0x0,
        step_ok(s0, s1, call_op),
        step_ok(s1, s2, ret_op),
    ensures
        s2.pc == (s0.pc + OPCODE_SIZE) % 4096,
        s2.sp == s0.sp,
        s2.registers@ == s0.registers@,
        s2.ram@ == s0.ram@,
{
    assert(s1.stack@[s0.sp as int] == (s0.pc + OPCODE_SIZE) as usize);
}

/// For every arithmetic opcode the stored result is the mathematical
/// result reduced modulo 256: arithmetic wraps at 8 bits and never
/// overflows. (Where the destination is register 15 itself, the
/// instruction's own flag write lands there instead.)
pub proof fn lemma_arithmetic_wraparound(s0: CPU, s1: CPU, op: OpCode)
    requires
        op.wf(),
        step_ok(s0, s1, op),
    ensures
        op.ll == 0x7 ==> s1.reg(op.lr as int) == (s0.reg(op.lr as int) + op.nn()) % 256,
        op.ll == 0x8 && op.rr == 0x4 && op.lr != 15 ==> s1.reg(op.lr as int) == (s0.reg(
            op.lr as int,
        ) + s0.reg(op.rl as int)) % 256,
        op.ll == 0x8 && op.rr == 0x5 && op.lr != 15 ==> s1.reg(op.lr as int) == (s0.reg(
            op.lr as int,
        ) - s0.reg(op.rl as int)) % 256,
        op.ll == 0x8 && op.rr == 0x7 && op.lr != 15 ==> s1.reg(op.lr as int) == (s0.reg(
            op.rl as int,
        ) - s0.reg(op.lr as int)) % 256,
        op.ll == 0x8 && op.rr == 0x6 && op.lr != 15 ==> s1.reg(op.lr as int) == s0.reg(
            op.lr as int,
        ) / 2,
        op.ll == 0x8 && op.rr == 0xE && op.lr != 15 ==> s1.reg(op.lr as int) == (s0.reg(
            op.lr as int,
        ) * 2) % 256,
{
}

/// A cycle that fetches the clear-screen opcode bytes 0x00 0xE0 zeros the
/// whole framebuffer — whatever it held before — reports the frame as
/// changed, and advances the program counter past the instruction. The
/// machine must not be parked in a key wait, since no instruction runs
/// while the latch is set.
pub proof fn lemma_cycle_clear_screen(
    pre: CPU,
    post: CPU,
    keypad: [bool; 16],
    out: Result<CycleOutput, CpuError>,
)
    requires
        pre.wf(),
        !pre.keypad_waiting,
        pre.pc + OPCODE_SIZE < 4096,
        pre.ram@[pre.pc as int] == 0x00,
        pre.ram@[pre.pc + 1] == 0xE0,
        cycle_sem(pre, post, keypad, out),
    ensures
        forall|r: int, c: int|
            0 <= r < 32 && 0 <= c < 64 ==> #[trigger] post.pix(r, c) == 0,
        post.vram_changed == true,
        post.pc == pre.pc + OPCODE_SIZE,
        out == Ok::<CycleOutput, CpuError>(
            CycleOutput { vram: post.vram, vram_changed: true, beep: post.sound_timer > 0 },
        ),
{
    lemma_small_mod((pre.pc + 1) as nat, 4096);
    lemma_small_mod((pre.pc + OPCODE_SIZE) as nat, 4096);
}

/// A cycle that fetches a jump opcode with encoded address 0x456 sets the
/// program counter to exactly 0x456, whatever its prior value, and leaves
/// registers, memory, framebuffer, index, stack and timers untouched. The
/// machine must not be parked in a key wait.
pub proof fn lemma_cycle_jump(
    pre: CPU,
    post: CPU,
    keypad: [bool; 16],
    out: Result<CycleOutput, CpuError>,
)
    requires
        pre.wf(),
        !pre.keypad_waiting,
        pre.pc + 1 < 4096,
        pre.ram@[pre.pc as int] == 0x14,
        pre.ram@[pre.pc + 1] == 0x56,
        cycle_sem(pre, post, keypad, out),
    ensures
        post.pc == 0x456,
        post.registers@ == pre.registers@,
        post.ram@ == pre.ram@,
        post.vram@ == pre.vram@,
        post.index == pre.index,
        post.sp == pre.sp,
        post.stack@ == pre.stack@,
        post.delay_timer == pre.delay_timer,
        post.sound_timer == pre.sound_timer,
        out is Ok,
{
    lemma_small_mod((pre.pc + 1) as nat, 4096);
    lemma_small_mod(0x456nat, 4096nat);
}

/// The two draws of a double draw see the same sprite, origin and size:
/// the first draw changes only the framebuffer, the dirty flag and
/// register 15, and neither coordinate register is register 15.
proof fn lemma_draw_params_agree(s0: CPU, s1: CPU, op: OpCode)
    requires
        op.wf(),
        op.lr != 15,
        op.rl != 15,
        sem_op_dxyn(s0, s1, op),
    ensures
        draw_vx(s1, op) == draw_vx(s0, op),
        draw_vy(s1, op) == draw_vy(s0, op),
        forall|r: int, c: int|
            0 <= r < 32 && 0 <= c < 64 ==> #[trigger] draw_color(s1, op, r, c) == draw_color(
                s0,
                op,
                r,
                c,
            ),
{
    assert(s1.ram@ == s0.ram@);
    assert forall|r: int, c: int| 0 <= r < 32 && 0 <= c < 64 implies #[trigger] draw_color(
        s1,
        op,
        r,
        c,
    ) == draw_color(s0, op, r, c) by {
        let dy = (r - draw_vy(s0, op)) % 32;
        assert(sprite_row(s1, dy) == sprite_row(s0, dy));
    }
}

/// Drawing the same sprite at the same place twice in succession (with no
/// other mutation in between) restores the prior framebuffer contents
/// exactly: XOR is its own inverse. The opcode must not name register 15
/// for a coordinate, since the first draw overwrites that register with
/// its collision flag.
pub proof fn lemma_draw_twice_restores_vram(s0: CPU, s1: CPU, s2: CPU, op: OpCode)
    requires
        op.wf(),
        op.lr != 15,
        op.rl != 15,
        sem_op_dxyn(s0, s1, op),
        sem_op_dxyn(s1, s2, op),
    ensures
        forall|r: int, c: int|
            0 <= r < 32 && 0 <= c < 64 ==> #[trigger] s2.pix(r, c) == s0.pix(r, c),
{
    lemma_draw_params_agree(s0, s1, op);
    assert forall|r: int, c: int| 0 <= r < 32 && 0 <= c < 64 implies #[trigger] s2.pix(r, c)
        == s0.pix(r, c) by {
        assert(s1.pix(r, c) == s0.pix(r, c) ^ draw_color(s0, op, r, c));
        assert(s2.pix(r, c) == s1.pix(r, c) ^ draw_color(s1, op, r, c));
        lemma_xor_involution(s0.pix(r, c), draw_color(s0, op, r, c));
    }
}

/// The second draw of a double draw reports no collision exactly when the
/// first draw wrote every pixel it painted over to zero — that is, every
/// cell that receives a set sprite bit is clear between the two draws.
pub proof fn lemma_draw_twice_collision(s0: CPU, s1: CPU, s2: CPU, op: OpCode)
    requires
        op.wf(),
        op.lr != 15,
        op.rl != 15,
        sem_op_dxyn(s0, s1, op),
        sem_op_dxyn(s1, s2, op),
    ensures
        (s2.reg(15) == 0) <==> (forall|r: int, c: int|
            0 <= r < 32 && 0 <= c < 64 && #[trigger] draw_color(s0, op, r, c) == 1 ==> s1.pix(r, c)
                & 1 == 0),
{
    lemma_draw_params_agree(s0, s1, op);
    assert forall|r: int, c: int|
        #![trigger draw_color_upto(s1, op, draw_rows(op), 0, r, c)]
        #![trigger draw_color(s0, op, r, c)]
        0 <= r < 32 && 0 <= c < 64 implies draw_color_upto(s1, op, draw_rows(op), 0, r, c)
        == draw_color(s0, op, r, c) by {
        assert(draw_color(s1, op, r, c) == draw_color(s0, op, r, c));
    }
    assert(s2.reg(15) == 0 <==> !draw_collides_upto(s1, op, draw_rows(op), 0));
    if s2.reg(15) == 0 {
        assert forall|r: int, c: int|
            0 <= r < 32 && 0 <= c < 64 && #[trigger] draw_color(s0, op, r, c) == 1 implies s1.pix(
            r,
            c,
        ) & 1 == 0 by {
            lemma_low_bit_le_one(s1.pix(r, c));
            if s1.pix(r, c) & 1 == 1 {
                assert(draw_color_upto(s1, op, draw_rows(op), 0, r, c) == 1);
                assert(draw_collides_upto(s1, op, draw_rows(op), 0));
            }
        }
    } else {
        let (r, c) = choose|r: int, c: int|
            0 <= r < 32 && 0 <= c < 64 && #[trigger] draw_color_upto(
                s1,
                op,
                draw_rows(op),
                0,
                r,
                c,
            ) == 1 && s1.pix(r, c) & 1 == 1;
        assert(draw_color(s0, op, r, c) == 1 && s1.pix(r, c) & 1 == 1);
    }
}

} // verus!

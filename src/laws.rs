use vstd::prelude::*;

use crate::cpu::{
    covers, wrap8, execute_spec, fetch_word, step_spec, CpuError, CpuState, Flow, DISPLAY_SIZE, FLAG,
    RAM_SIZE, STACK_DEPTH,
};
use crate::decode::{opcode_of, Opcode, Operands};

verus! {

/// Adding two registers sets the flag register to 1 exactly when the true sum
/// exceeds 255 (to 0 otherwise), and stores the sum modulo 256 in `Vx`.
pub proof fn lemma_add_with_carry(m: CpuState, ops: Operands, rnd: u8)
    requires
        m.wf(),
        ops.reg_x() != FLAG,
    ensures
        ({
            let x = ops.reg_x() as int;
            let sum = m.v[x] + m.v[ops.reg_y() as int];
            let r = execute_spec(m, Opcode::Add, ops, rnd);
            &&& r is Ok
            &&& r->Ok_0.0.v[FLAG as int] == if sum > 255 { 1u8 } else { 0u8 }
            &&& r->Ok_0.0.v[x] == sum % 256
        }),
{
    ops.lemma_fields_in_range();
}

/// Subtracting `Vy` from `Vx` sets the flag register to 1 exactly when
/// `Vx >= Vy` held before (no borrow; 0 otherwise), and stores
/// `(Vx - Vy) mod 256` in `Vx`.
pub proof fn lemma_subtract_with_borrow(m: CpuState, ops: Operands, rnd: u8)
    requires
        m.wf(),
        ops.reg_x() != FLAG,
    ensures
        ({
            let x = ops.reg_x() as int;
            let vx = m.v[x];
            let vy = m.v[ops.reg_y() as int];
            let r = execute_spec(m, Opcode::Sub, ops, rnd);
            &&& r is Ok
            &&& r->Ok_0.0.v[FLAG as int] == if vx >= vy { 1u8 } else { 0u8 }
            &&& r->Ok_0.0.v[x] == (vx - vy) % 256
        }),
{
    ops.lemma_fields_in_range();
}

/// Shifting a register right and then left, capturing the flag after the
/// first shift, gives back the original value: the flag holds its low bit
/// and the register its other bits, the high bit included.
pub proof fn lemma_shift_right_then_left(m: CpuState, ops: Operands, rnd: u8)
    requires
        m.wf(),
        ops.reg_x() != FLAG,
    ensures
        ({
            let x = ops.reg_x() as int;
            let v = m.v[x];
            let s1 = execute_spec(m, Opcode::Shr, ops, rnd)->Ok_0.0;
            let low = s1.v[FLAG as int];
            let s2 = execute_spec(s1, Opcode::Shl, ops, rnd)->Ok_0.0;
            &&& low == v % 2
            &&& s2.v[x] / 128 == v / 128
            &&& s2.v[x] + low == v
        }),
{
    ops.lemma_fields_in_range();
    let x = ops.reg_x() as int;
    let v = m.v[x];
    let s1 = m.with_flag_then_v(v % 2, x, v / 2);
    assert(execute_spec(m, Opcode::Shr, ops, rnd) == Ok::<(CpuState, Flow), CpuError>((s1, Flow::Next)));
    let h = v / 2;
    assert(s1.v[x] == h);
    let s2 = s1.with_flag_then_v(h / 128, x, wrap8(h * 2));
    assert(execute_spec(s1, Opcode::Shl, ops, rnd) == Ok::<(CpuState, Flow), CpuError>((s2, Flow::Next)));
    assert(s2.v[x] == wrap8(h * 2));
    assert(wrap8(h * 2) == h * 2);
}

/// Shifting a register left and then right, capturing the flag after the
/// first shift, gives back the original value: the flag holds its high bit
/// and the register its other bits, the low bit included.
pub proof fn lemma_shift_left_then_right(m: CpuState, ops: Operands, rnd: u8)
    requires
        m.wf(),
        ops.reg_x() != FLAG,
    ensures
        ({
            let x = ops.reg_x() as int;
            let v = m.v[x];
            let s1 = execute_spec(m, Opcode::Shl, ops, rnd)->Ok_0.0;
            let high = s1.v[FLAG as int];
            let s2 = execute_spec(s1, Opcode::Shr, ops, rnd)->Ok_0.0;
            &&& high == v / 128
            &&& s2.v[x] % 2 == v % 2
            &&& s2.v[x] + 128 * high == v
        }),
{
    ops.lemma_fields_in_range();
    let x = ops.reg_x() as int;
    let v = m.v[x];
    let s1 = m.with_flag_then_v(v / 128, x, wrap8(v * 2));
    assert(execute_spec(m, Opcode::Shl, ops, rnd) == Ok::<(CpuState, Flow), CpuError>((s1, Flow::Next)));
    let d = wrap8(v * 2);
    assert(d == (v * 2) % 256);
    assert(s1.v[x] == d);
    let s2 = s1.with_flag_then_v(d % 2, x, d / 2);
    assert(execute_spec(s1, Opcode::Shr, ops, rnd) == Ok::<(CpuState, Flow), CpuError>((s2, Flow::Next)));
    assert(s2.v[x] == d / 2);
    assert(d / 2 == v % 128 && v == 128 * (v / 128) + v % 128) by (nonlinear_arith)
        requires
            0 <= v < 256,
            d == (v * 2) % 256,
    ;
}

/// Drawing the same sprite twice at the same place gives back the display as
/// it was, and the second draw reports a collision exactly when the first
/// one turned some pixel on.
pub proof fn lemma_draw_twice(m: CpuState, ops: Operands, rnd: u8)
    requires
        m.wf(),
        ops.reg_x() != FLAG,
        ops.reg_y() != FLAG,
        m.i + ops.nibble4() <= RAM_SIZE,
    ensures
        ({
            let s1 = execute_spec(m, Opcode::Display, ops, rnd)->Ok_0.0;
            let r2 = execute_spec(s1, Opcode::Display, ops, rnd);
            let s2 = r2->Ok_0.0;
            &&& r2 is Ok
            &&& s2.display == m.display
            &&& (s2.v[FLAG as int] == 1) <==> exists|idx: int|
                0 <= idx < DISPLAY_SIZE && !m.display[idx] && #[trigger] s1.display[idx]
        }),
{
    ops.lemma_fields_in_range();
    let x = ops.reg_x() as int;
    let y = ops.reg_y() as int;
    let n = ops.nibble4() as int;
    let vx = m.v[x];
    let vy = m.v[y];
    let s1 = execute_spec(m, Opcode::Display, ops, rnd)->Ok_0.0;
    assert(s1.v[x] == vx && s1.v[y] == vy);
    assert forall|idx: int| 0 <= idx < DISPLAY_SIZE implies covers(s1, vx, vy, n, idx) == covers(
        m,
        vx,
        vy,
        n,
        idx,
    ) by {}
    let s2 = execute_spec(s1, Opcode::Display, ops, rnd)->Ok_0.0;
    assert(s2.display =~= m.display);
    if s2.v[FLAG as int] == 1 {
        let idx = choose|idx: int|
            0 <= idx < DISPLAY_SIZE && covers(s1, vx, vy, n, idx) && #[trigger] s1.display[idx];
        assert(!m.display[idx]);
    }
    if exists|idx: int| 0 <= idx < DISPLAY_SIZE && !m.display[idx] && #[trigger] s1.display[idx] {
        let idx = choose|idx: int|
            0 <= idx < DISPLAY_SIZE && !m.display[idx] && #[trigger] s1.display[idx];
        assert(covers(s1, vx, vy, n, idx));
    }
}

/// A call followed by a return brings the program counter back to the word
/// after the call, with the stack as deep as before, at every depth that
/// leaves room for the call.
pub proof fn lemma_call_then_return(m: CpuState, rnd1: u8, rnd2: u8)
    requires
        m.wf(),
        m.pc + 1 < RAM_SIZE,
        opcode_of(fetch_word(m)) == Opcode::Call,
        m.sp < STACK_DEPTH,
        (Operands { instruction: fetch_word(m) }).addr12() + 1 < RAM_SIZE,
        opcode_of(fetch_word(CpuState { pc: (Operands { instruction: fetch_word(m) }).addr12(), ..m }))
            == Opcode::Ret,
    ensures
        ({
            let r1 = step_spec(m, rnd1);
            let r2 = step_spec(r1->Ok_0, rnd2);
            &&& r1 is Ok
            &&& r1->Ok_0.sp == m.sp + 1
            &&& r1->Ok_0.pc == (Operands { instruction: fetch_word(m) }).addr12()
            &&& r2 is Ok
            &&& r2->Ok_0.pc == m.pc + 2
            &&& r2->Ok_0.sp == m.sp
        }),
{
    let ops = Operands { instruction: fetch_word(m) };
    ops.lemma_fields_in_range();
    let target = ops.addr12();
    let e1 = CpuState {
        stack: m.stack.update(m.sp as int, (m.pc + 2) as u16),
        sp: (m.sp + 1) as u8,
        ..m
    };
    assert(execute_spec(m, Opcode::Call, ops, rnd1) == Ok::<(CpuState, Flow), CpuError>((e1, Flow::Goto(target))));
    let s1 = CpuState { pc: target, ..e1 };
    assert(step_spec(m, rnd1) == Ok::<CpuState, CpuError>(s1));
    assert(fetch_word(s1) == fetch_word(CpuState { pc: target, ..m }));
    let ops2 = Operands { instruction: fetch_word(s1) };
    let e2 = CpuState { sp: m.sp, ..s1 };
    assert(s1.stack[m.sp as int] == m.pc + 2);
    assert(execute_spec(s1, Opcode::Ret, ops2, rnd2) == Ok::<(CpuState, Flow), CpuError>((e2, Flow::Goto((m.pc + 2) as u16))));
    assert(step_spec(s1, rnd2) == Ok::<CpuState, CpuError>(CpuState { pc: (m.pc + 2) as u16, ..e2 }));
}

/// A call with all sixteen stack slots in use fails with a stack overflow.
pub proof fn lemma_call_overflow(m: CpuState, rnd: u8)
    requires
        m.wf(),
        m.pc + 1 < RAM_SIZE,
        opcode_of(fetch_word(m)) == Opcode::Call,
        m.sp == STACK_DEPTH,
    ensures
        step_spec(m, rnd) == Err::<CpuState, CpuError>(CpuError::StackOverflow),
{
}

} // verus!

//! General laws of the instruction semantics, each proved once for all
//! machine states that satisfy its stated premises.

use vstd::prelude::*;

use crate::chip::{
    ChipView, ExecutionFault, spec_exec, spec_step, spec_store_regs, spec_load_regs, MEM_SIZE,
    NUM_REGS, SCREEN_SIZE, STACK_SIZE,
};
use crate::decode::Instr;

verus! {

/// Adding an immediate to a register wraps at 8 bits; when the target is not
/// the flag register, the flag register is untouched.
pub proof fn lemma_add_byte(s: ChipView, x: usize, kk: u8)
    requires
        s.wf(),
        x < NUM_REGS,
    ensures
        spec_exec(s, Instr::AddByte { x, kk }) is Ok,
        (spec_exec(s, Instr::AddByte { x, kk })->Ok_0).v[x as int] == (s.v[x as int] + kk) % 256,
        x != 0xF ==> (spec_exec(s, Instr::AddByte { x, kk })->Ok_0).v[0xF] == s.v[0xF],
{
}

/// Adding register to register: the flag register becomes 1 exactly when the
/// true sum exceeds 255, and the target receives the sum modulo 256.
/// Stated for a target other than the flag register itself, which the flag
/// write would overwrite.
pub proof fn lemma_add_reg(s: ChipView, x: usize, y: usize)
    requires
        s.wf(),
        x < NUM_REGS,
        y < NUM_REGS,
        x != 0xF,
    ensures
        spec_exec(s, Instr::AddReg { x, y }) is Ok,
        (spec_exec(s, Instr::AddReg { x, y })->Ok_0).v[x as int] == (s.v[x as int] + s.v[y as int])
            % 256,
        (spec_exec(s, Instr::AddReg { x, y })->Ok_0).v[0xF] == 1 <==> s.v[x as int] + s.v[y as int]
            > 255,
        (spec_exec(s, Instr::AddReg { x, y })->Ok_0).v[0xF] == 0 <==> s.v[x as int] + s.v[y as int]
            <= 255,
{
}

/// Subtracting register from register: the flag register becomes 1 exactly
/// when the minuend was at least the subtrahend — compared before the
/// mutation — and the target receives the difference modulo 256.  Stated for
/// a target other than the flag register itself.
pub proof fn lemma_sub_reg(s: ChipView, x: usize, y: usize)
    requires
        s.wf(),
        x < NUM_REGS,
        y < NUM_REGS,
        x != 0xF,
    ensures
        spec_exec(s, Instr::Sub { x, y }) is Ok,
        (spec_exec(s, Instr::Sub { x, y })->Ok_0).v[x as int] == (s.v[x as int] - s.v[y as int]
            + 256) % 256,
        (spec_exec(s, Instr::Sub { x, y })->Ok_0).v[0xF] == 1 <==> s.v[x as int] >= s.v[y as int],
        (spec_exec(s, Instr::Sub { x, y })->Ok_0).v[0xF] == 0 <==> s.v[x as int] < s.v[y as int],
{
}

/// Clearing the screen makes every one of its pixels false and touches
/// nothing else.
pub proof fn lemma_cls_clears(s: ChipView)
    requires
        s.wf(),
    ensures
        spec_exec(s, Instr::Cls) is Ok,
        (spec_exec(s, Instr::Cls)->Ok_0).screen.len() == SCREEN_SIZE,
        forall|p: int|
            0 <= p < SCREEN_SIZE ==> !(spec_exec(s, Instr::Cls)->Ok_0).screen[p],
        (spec_exec(s, Instr::Cls)->Ok_0) == (ChipView {
            screen: (spec_exec(s, Instr::Cls)->Ok_0).screen,
            ..s
        }),
{
}

/// A call followed directly by a return restores the program counter to the
/// value it had right after the call instruction was fetched, and restores
/// the stack depth.
pub proof fn lemma_call_ret(s: ChipView, addr: u16)
    requires
        s.wf(),
        s.sp < STACK_SIZE,
    ensures
        spec_exec(s, Instr::Call { addr }) is Ok,
        (spec_exec(s, Instr::Call { addr })->Ok_0).pc == addr,
        spec_exec(spec_exec(s, Instr::Call { addr })->Ok_0, Instr::Ret) is Ok,
        (spec_exec(spec_exec(s, Instr::Call { addr })->Ok_0, Instr::Ret)->Ok_0).pc == s.pc,
        (spec_exec(spec_exec(s, Instr::Call { addr })->Ok_0, Instr::Ret)->Ok_0).sp == s.sp,
{
}

/// Each byte of memory after a register store: the stored register inside
/// the written window, the old byte outside it.
proof fn lemma_store_regs_at(memory: Seq<u8>, v: Seq<u8>, i: int, k: int, a: int)
    requires
        0 <= a < memory.len(),
        0 <= i,
        0 <= k,
        i + k <= memory.len(),
    ensures
        spec_store_regs(memory, v, i, k).len() == memory.len(),
        spec_store_regs(memory, v, i, k)[a] == (if i <= a < i + k {
            v[a - i]
        } else {
            memory[a]
        }),
    decreases k,
{
    if k > 0 {
        lemma_store_regs_at(memory, v, i, k - 1, a);
    }
}

/// Each register after a register load: the loaded byte inside the read
/// window, the old register outside it.
proof fn lemma_load_regs_at(v: Seq<u8>, memory: Seq<u8>, i: int, k: int, j: int)
    requires
        0 <= j < v.len(),
        0 <= k <= v.len(),
        0 <= i,
        i + k <= memory.len(),
    ensures
        spec_load_regs(v, memory, i, k).len() == v.len(),
        spec_load_regs(v, memory, i, k)[j] == (if 0 <= j < k {
            memory[i + j]
        } else {
            v[j]
        }),
    decreases k,
{
    if k > 0 {
        lemma_load_regs_at(v, memory, i, k - 1, j);
    }
}

/// Round trip: storing registers `V[0..=x]` to memory at the index register
/// and loading them back from the same place reproduces every register
/// exactly.
pub proof fn lemma_store_load_roundtrip(s: ChipView, x: usize)
    requires
        s.wf(),
        x < NUM_REGS,
        s.i + x + 1 <= MEM_SIZE,
    ensures
        spec_exec(s, Instr::StoreRegs { x }) is Ok,
        spec_exec(spec_exec(s, Instr::StoreRegs { x })->Ok_0, Instr::LoadRegs { x }) is Ok,
        (spec_exec(spec_exec(s, Instr::StoreRegs { x })->Ok_0, Instr::LoadRegs { x })->Ok_0).v
            == s.v,
{
    let s1 = spec_exec(s, Instr::StoreRegs { x })->Ok_0;
    let s2 = spec_exec(s1, Instr::LoadRegs { x })->Ok_0;
    lemma_store_regs_at(s.memory, s.v, s.i as int, x as int + 1, 0);
    assert forall|j: int| 0 <= j < NUM_REGS implies s2.v[j] == s.v[j] by {
        lemma_load_regs_at(s1.v, s1.memory, s.i as int, x as int + 1, j);
        if 0 <= j < x as int + 1 {
            lemma_store_regs_at(s.memory, s.v, s.i as int, x as int + 1, s.i as int + j);
        }
    }
    assert(s2.v.len() == s.v.len()) by {
        lemma_load_regs_at(s1.v, s1.memory, s.i as int, x as int + 1, 0);
    }
    assert(s2.v =~= s.v);
}

/// Stepping with an odd program counter fails with the alignment fault and
/// with no other.
pub proof fn lemma_unaligned_pc_faults(s: ChipView)
    requires
        s.pc % 2 != 0,
    ensures
        spec_step(s) == Err::<ChipView, ExecutionFault>(ExecutionFault::UnalignedPc),
{
}

} // verus!

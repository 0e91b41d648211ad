//! The library's stated laws, proved over the models its contracts use: the
//! effect of the step-over write sequence on target memory, the idempotence
//! of recording a breakpoint, and the termination of a backtrace walk.

use vstd::prelude::*;

use crate::backtrace::{walk_continues, walk_length};
use crate::bits::TRAP_BYTE;
use crate::breakpoints::{
    addrs_unique, seq_contains_addr, seq_index_of, spec_add, spec_ordinal, Breakpoint,
};
use crate::inferior::{
    byte_writes, is_installed_pair, resume_ops_complete, step_over_ops, step_over_writes, TraceOp,
};

verus! {

/// Target memory after a sequence of single-byte writes, applied in order.
pub open spec fn mem_after_writes(mem: Map<u64, u8>, ws: Seq<(u64, u8)>) -> Map<u64, u8>
    decreases ws.len(),
{
    if ws.len() == 0 {
        mem
    } else {
        mem_after_writes(mem.insert(ws[0].0, ws[0].1), ws.skip(1))
    }
}

/// A step-over at breakpoint address `a` with saved original byte `b`
/// leaves the byte at `a` equal to the trap byte; the original byte is in
/// place only in the transient window after the restoring write alone; and
/// no other address is ever touched.
pub proof fn lemma_step_over_window(mem: Map<u64, u8>, a: u64, b: u8)
    ensures
        mem_after_writes(mem, step_over_writes(a, b)) == mem.insert(a, TRAP_BYTE),
        mem_after_writes(mem, step_over_writes(a, b))[a] == TRAP_BYTE,
        mem_after_writes(mem, step_over_writes(a, b).take(1))[a] == b,
        forall|x: u64|
            x != a && mem.contains_key(x) ==> mem_after_writes(mem, step_over_writes(a, b))[x]
                == mem[x],
{
    let ws = step_over_writes(a, b);
    assert(ws[0] == (a, b) && ws[1] == (a, TRAP_BYTE));
    assert(ws.skip(1) =~= seq![(a, TRAP_BYTE)]);
    assert(ws.skip(1).skip(1) =~= Seq::<(u64, u8)>::empty());
    let m1 = mem.insert(a, b);
    assert(mem_after_writes(mem, ws) == mem_after_writes(m1, ws.skip(1)));
    assert(mem_after_writes(m1, ws.skip(1)) == mem_after_writes(
        m1.insert(a, TRAP_BYTE),
        ws.skip(1).skip(1),
    ));
    assert(mem_after_writes(m1.insert(a, TRAP_BYTE), ws.skip(1).skip(1)) == m1.insert(
        a,
        TRAP_BYTE,
    ));
    assert(m1.insert(a, TRAP_BYTE) =~= mem.insert(a, TRAP_BYTE));
    let w1 = ws.take(1);
    assert(w1 =~= seq![(a, b)]);
    assert(w1.skip(1) =~= Seq::<(u64, u8)>::empty());
    assert(mem_after_writes(mem, w1) == mem_after_writes(m1, w1.skip(1)));
    assert(mem_after_writes(m1, w1.skip(1)) == m1);
}

/// The byte writes inside the concrete resume operation sequences: a bare
/// continue writes nothing, and a step-over (with or without its final
/// continue) writes the restore/re-install pair.
pub proof fn lemma_step_over_ops_writes(a: u64, b: u8)
    ensures
        byte_writes(seq![TraceOp::Continue]) == Seq::<(u64, u8)>::empty(),
        byte_writes(step_over_ops(a, b).push(TraceOp::Continue)) == step_over_writes(a, b),
{
    let c = seq![TraceOp::Continue];
    assert(c.skip(1) =~= Seq::<TraceOp>::empty());
    assert(byte_writes(c.skip(1)) =~= Seq::<(u64, u8)>::empty());
    assert(c[0] == TraceOp::Continue);
    assert(byte_writes(c) == byte_writes(c.skip(1)));
    let full = step_over_ops(a, b).push(TraceOp::Continue);
    let s1 = full.skip(1);
    let s2 = s1.skip(1);
    let s3 = s2.skip(1);
    let s4 = s3.skip(1);
    let s5 = s4.skip(1);
    assert(full[0] == TraceOp::WriteByte(a, b));
    assert(s1 =~= seq![TraceOp::SetIp(a), TraceOp::Step, TraceOp::WriteByte(a, TRAP_BYTE), TraceOp::Continue]);
    assert(s2 =~= seq![TraceOp::Step, TraceOp::WriteByte(a, TRAP_BYTE), TraceOp::Continue]);
    assert(s3 =~= seq![TraceOp::WriteByte(a, TRAP_BYTE), TraceOp::Continue]);
    assert(s4 =~= seq![TraceOp::Continue]);
    assert(s5 =~= Seq::<TraceOp>::empty());
    assert(byte_writes(s5) =~= Seq::<(u64, u8)>::empty());
    assert(byte_writes(s4) == byte_writes(s5));
    assert(byte_writes(s3) == seq![(a, TRAP_BYTE)] + byte_writes(s4));
    assert(byte_writes(s2) == byte_writes(s3));
    assert(byte_writes(s1) == byte_writes(s2));
    assert(byte_writes(full) == seq![(a, b)] + byte_writes(s1));
    assert(byte_writes(full) =~= step_over_writes(a, b));
}

/// A completed resume that stopped again never leaves a breakpoint
/// disarmed: either it wrote nothing into the target (and its memory model
/// is unchanged), or its whole operation sequence was a step-over at one
/// installed breakpoint, whose byte ends up equal to the trap byte again
/// while every other address keeps its value.
pub proof fn lemma_resume_stop_preserves_traps(
    bps: Seq<Breakpoint>,
    d: Seq<TraceOp>,
    mem: Map<u64, u8>,
)
    requires
        resume_ops_complete(bps, d, true),
    ensures
        mem_after_writes(mem, byte_writes(d)) == mem || exists|w: (u64, u8)|
            #[trigger] is_installed_pair(bps, w) && byte_writes(d) == step_over_writes(w.0, w.1)
                && mem_after_writes(mem, byte_writes(d)) == mem.insert(w.0, TRAP_BYTE),
{
    if d == seq![TraceOp::Continue] {
        lemma_step_over_ops_writes(0, 0);
        assert(byte_writes(d) =~= Seq::<(u64, u8)>::empty());
        assert(mem_after_writes(mem, byte_writes(d)) == mem);
    } else {
        let w = choose|w: (u64, u8)|
            #[trigger] is_installed_pair(bps, w) && d == step_over_ops(w.0, w.1).push(
                TraceOp::Continue,
            );
        lemma_step_over_ops_writes(w.0, w.1);
        assert(byte_writes(d) == step_over_writes(w.0, w.1));
        lemma_step_over_window(mem, w.0, w.1);
    }
}

/// Setting a breakpoint at one address twice yields one table entry and one
/// ordinal: the second add changes nothing and answers the same ordinal.
pub proof fn lemma_duplicate_breakpoint_add(s: Seq<Breakpoint>, a: u64)
    requires
        addrs_unique(s),
    ensures
        spec_add(spec_add(s, a), a) == spec_add(s, a),
        spec_ordinal(spec_add(s, a), a) == spec_ordinal(s, a),
{
    let s1 = spec_add(s, a);
    if !seq_contains_addr(s, a) {
        assert(s1[s.len() as int].addr == a);
        assert(seq_contains_addr(s1, a));
        let i = seq_index_of(s1, a);
        assert(0 <= i < s1.len() && s1[i].addr == a);
        if i < s.len() {
            assert(s[i].addr == a);
            assert(seq_contains_addr(s, a));
        }
        assert(i == s.len());
    }
}

/// A backtrace terminates at the boundary: if the resolver's answer for
/// some frame is terminal — the entry function, or no function at all, as
/// at the entry stop of a freshly started process — then the walk records
/// at most that many frames, whatever the frame chain holds beyond it.
pub proof fn lemma_backtrace_terminates(answers: Seq<Option<Seq<char>>>, t: int)
    requires
        0 <= t < answers.len(),
        !walk_continues(answers[t]),
    ensures
        walk_length(answers) <= t + 1,
    decreases t,
{
    if walk_continues(answers[0]) {
        assert(t != 0);
        assert(answers.skip(1)[t - 1] == answers[t]);
        lemma_backtrace_terminates(answers.skip(1), t - 1);
    }
}

} // verus!

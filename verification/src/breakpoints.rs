//! The breakpoint table: the authoritative record of requested breakpoints
//! and their installation state, independent of any particular traced
//! process, so that breakpoints survive process restarts. Addresses are
//! unique and insertion order defines the user-visible ordinal.

use vstd::prelude::*;

use crate::bits::TRAP_BYTE;
use crate::inferior::{Inferior, ProcState, TraceOp};

verus! {

/// One requested breakpoint: a target virtual address and, while a trap
/// instruction is physically installed in the current process, the original
/// byte it replaced. `orig` is `None` whenever no trap is installed, in
/// particular for breakpoints recorded before a process exists.
#[derive(Clone, Copy)]
pub struct Breakpoint {
    pub addr: u64,
    pub orig: Option<u8>,
}

/// No two entries share an address.
pub open spec fn addrs_unique(s: Seq<Breakpoint>) -> bool {
    forall|i: int, j: int| 0 <= i < j < s.len() ==> s[i].addr != s[j].addr
}

/// Whether some entry of `s` has address `a`.
pub open spec fn seq_contains_addr(s: Seq<Breakpoint>, a: u64) -> bool {
    exists|i: int| 0 <= i < s.len() && s[i].addr == a
}

/// The index of the entry of `s` with address `a` (meaningful when present).
pub open spec fn seq_index_of(s: Seq<Breakpoint>, a: u64) -> int {
    choose|i: int| 0 <= i < s.len() && s[i].addr == a
}

/// What looking `a` up in `s` yields: the entry's saved-byte field, if an
/// entry is present.
pub open spec fn seq_lookup(s: Seq<Breakpoint>, a: u64) -> Option<Option<u8>> {
    if seq_contains_addr(s, a) {
        Some(s[seq_index_of(s, a)].orig)
    } else {
        None
    }
}

/// What `BreakpointTable::add` does to the table: record `a` if absent.
pub open spec fn spec_add(s: Seq<Breakpoint>, a: u64) -> Seq<Breakpoint> {
    if seq_contains_addr(s, a) {
        s
    } else {
        s.push(Breakpoint { addr: a, orig: None })
    }
}

/// The 1-based display ordinal `BreakpointTable::add` answers: the existing
/// entry's position, or the table size after insertion.
pub open spec fn spec_ordinal(s: Seq<Breakpoint>, a: u64) -> int {
    if seq_contains_addr(s, a) {
        seq_index_of(s, a) + 1
    } else {
        s.len() as int + 1
    }
}

/// Address-to-breakpoint mapping in insertion order.
pub struct BreakpointTable {
    entries: Vec<Breakpoint>,
}

impl View for BreakpointTable {
    type V = Seq<Breakpoint>;

    closed spec fn view(&self) -> Seq<Breakpoint> {
        self.entries@
    }
}

impl BreakpointTable {
    #[verifier::type_invariant]
    spec fn wf(self) -> bool {
        addrs_unique(self@)
    }

    /// Whether some entry has address `a`.
    pub open spec fn spec_contains(self, a: u64) -> bool {
        seq_contains_addr(self@, a)
    }

    /// The index of the entry with address `a` (meaningful when present).
    pub open spec fn spec_index_of(self, a: u64) -> int {
        seq_index_of(self@, a)
    }

    /// What looking up `a` yields: the entry's saved-byte field, if present.
    pub open spec fn spec_lookup(self, a: u64) -> Option<Option<u8>> {
        seq_lookup(self@, a)
    }

    /// An empty table.
    pub fn new() -> (t: Self)
        ensures
            t@ == Seq::<Breakpoint>::empty(),
    {
        BreakpointTable { entries: Vec::new() }
    }

    /// How many breakpoints are recorded.
    pub fn len(&self) -> (n: usize)
        ensures
            n == self@.len(),
    {
        self.entries.len()
    }

    /// The address of the `i`-th breakpoint, in insertion order.
    pub fn addr_at(&self, i: usize) -> (a: u64)
        requires
            i < self@.len(),
        ensures
            a == self@[i as int].addr,
    {
        self.entries[i].addr
    }

    /// The saved-byte field of the `i`-th breakpoint.
    pub fn orig_at(&self, i: usize) -> (o: Option<u8>)
        requires
            i < self@.len(),
        ensures
            o == self@[i as int].orig,
    {
        self.entries[i].orig
    }

    /// The index of the entry at address `a`, if one exists.
    fn position_of(&self, a: u64) -> (r: Option<usize>)
        ensures
            match r {
                Some(i) => i < self@.len() && self@[i as int].addr == a,
                None => !self.spec_contains(a),
            },
    {
        let n = self.entries.len();
        let mut i: usize = 0;
        while i < n
            invariant
                0 <= i <= n,
                n == self@.len(),
                forall|k: int| 0 <= k < i ==> self@[k].addr != a,
            decreases n - i,
        {
            if self.entries[i].addr == a {
                return Some(i);
            }
            i += 1;
        }
        None
    }

    /// Looks up `a`: `None` when no breakpoint is recorded there, otherwise
    /// the saved original byte (itself `None` while no trap is installed).
    pub fn lookup(&self, a: u64) -> (r: Option<Option<u8>>)
        ensures
            r == self.spec_lookup(a),
    {
        proof {
            use_type_invariant(self);
        }
        match self.position_of(a) {
            Some(i) => {
                proof {
                    let j = self.spec_index_of(a);
                    assert(0 <= j < self@.len() && self@[j].addr == a);
                    assert(j == i);
                }
                Some(self.entries[i].orig)
            },
            None => None,
        }
    }

    /// Records a breakpoint at `a` if none exists there and answers its
    /// 1-based display ordinal. A duplicate address is a no-op that answers
    /// the existing ordinal.
    pub fn add(&mut self, a: u64) -> (ord: usize)
        ensures
            final (self)@ == spec_add(old(self)@, a),
            ord == spec_ordinal(old(self)@, a),
    {
        proof {
            use_type_invariant(&*self);
        }
        match self.position_of(a) {
            Some(i) => {
                let n = self.entries.len();
                proof {
                    let j = self.spec_index_of(a);
                    assert(0 <= j < self@.len() && self@[j].addr == a);
                    assert(j == i);
                    assert(i < n);
                }
                i + 1
            },
            None => {
                let ghost prev = self@;
                let mut entries: Vec<Breakpoint> = Vec::new();
                std::mem::swap(&mut entries, &mut self.entries);
                entries.push(Breakpoint { addr: a, orig: None });
                proof {
                    assert forall|i: int, j: int|
                        0 <= i < j < entries@.len() implies entries@[i].addr
                        != entries@[j].addr by {
                        if j < prev.len() {
                            assert(prev[i].addr != prev[j].addr);
                        } else {
                            assert(entries@[j].addr == a && entries@[i].addr == prev[i].addr);
                        }
                    }
                }
                self.entries = entries;
                self.entries.len()
            },
        }
    }

    /// Installs every recorded breakpoint into the stopped target by
    /// planting the trap byte and saving the original byte it replaced; used
    /// when a new process starts. An address that cannot be patched is
    /// answered in the failure list and its breakpoint left uninstalled —
    /// the run proceeds without it. Every breakpoint not in the failure list
    /// had its trap byte written.
    pub fn install_all(&mut self, inferior: &mut Inferior) -> (failed: Vec<u64>)
        requires
            old(inferior).state() == ProcState::Stopped,
        ensures
            final (inferior).spec_pid() == old(inferior).spec_pid(),
            final (inferior).state() == ProcState::Stopped,
            final (self)@.len() == old(self)@.len(),
            forall|i: int|
                0 <= i < old(self)@.len() ==> final (self)@[i].addr == old(self)@[i].addr,
            forall|i: int|
                0 <= i < final (self)@.len() ==> ((#[trigger] final (self)@[i].orig is Some)
                    <==> !failed@.contains(final (self)@[i].addr)),
            old(inferior).log().is_prefix_of(final (inferior).log()),
            forall|j: int|
                old(inferior).log().len() <= j < final (inferior).log().len() ==> exists|k: int|
                    0 <= k < old(self)@.len() && #[trigger] final (inferior).log()[j]
                        == TraceOp::WriteByte(old(self)@[k].addr, TRAP_BYTE),
            forall|i: int|
                0 <= i < old(self)@.len() && !failed@.contains(#[trigger] old(self)@[i].addr)
                    ==> exists|j: int|
                    old(inferior).log().len() <= j < final (inferior).log().len()
                        && final (inferior).log()[j] == TraceOp::WriteByte(
                        old(self)@[i].addr,
                        TRAP_BYTE,
                    ),
    {
        proof {
            use_type_invariant(&*self);
        }
        let ghost orig_table = self@;
        let ghost base = inferior.log();
        let n = self.len();
        let mut failed: Vec<u64> = Vec::new();
        let mut i: usize = 0;
        while i < n
            invariant
                0 <= i <= n,
                n == self@.len(),
                self@.len() == orig_table.len(),
                addrs_unique(orig_table),
                inferior.state() == ProcState::Stopped,
                inferior.spec_pid() == old(inferior).spec_pid(),
                base == old(inferior).log(),
                orig_table == old(self)@,
                forall|k: int| 0 <= k < orig_table.len() ==> self@[k].addr == orig_table[k].addr,
                forall|k: int| i <= k < orig_table.len() ==> self@[k] == orig_table[k],
                forall|k: int|
                    0 <= k < i ==> ((#[trigger] self@[k].orig is Some) <==> !failed@.contains(
                        self@[k].addr,
                    )),
                forall|x: u64|
                    failed@.contains(x) ==> exists|k: int|
                        0 <= k < i && orig_table[k].addr == x,
                base.is_prefix_of(inferior.log()),
                forall|j: int|
                    base.len() <= j < inferior.log().len() ==> exists|k: int|
                        0 <= k < i && #[trigger] inferior.log()[j] == TraceOp::WriteByte(
                            orig_table[k].addr,
                            TRAP_BYTE,
                        ),
                forall|k: int|
                    0 <= k < i && !failed@.contains(#[trigger] orig_table[k].addr) ==> exists|
                        j: int,
                    |
                        base.len() <= j < inferior.log().len() && inferior.log()[j]
                            == TraceOp::WriteByte(orig_table[k].addr, TRAP_BYTE),
            decreases n - i,
        {
            let a = self.addr_at(i);
            let ghost log_before = inferior.log();
            let ghost failed_before = failed@;
            match inferior.write_byte(a, TRAP_BYTE) {
                Ok(prev) => {
                    self.set_orig_at(i, Some(prev));
                    proof {
                        assert(inferior.log() == log_before.push(TraceOp::WriteByte(a, TRAP_BYTE)));
                        assert(inferior.log()[log_before.len() as int] == TraceOp::WriteByte(
                            a,
                            TRAP_BYTE,
                        ));
                        assert forall|k: int|
                            0 <= k < i + 1 implies ((#[trigger] self@[k].orig is Some)
                            <==> !failed@.contains(self@[k].addr)) by {
                            if k < i && self@[k].orig is Some && failed@.contains(self@[k].addr) {
                                assert(failed@.contains(orig_table[k].addr));
                            }
                            if k == i && failed@.contains(self@[k].addr) {
                                let m = choose|m: int|
                                    0 <= m < failed@.len() && failed@[m] == self@[k].addr;
                                let k2 = choose|k2: int|
                                    0 <= k2 < i && orig_table[k2].addr == self@[k].addr;
                                assert(orig_table[k2].addr != orig_table[k].addr);
                            }
                        }
                        assert forall|j: int|
                            base.len() <= j < inferior.log().len() implies exists|k: int|
                            0 <= k < i + 1 && #[trigger] inferior.log()[j] == TraceOp::WriteByte(
                                orig_table[k].addr,
                                TRAP_BYTE,
                            ) by {
                            if j < log_before.len() {
                                assert(inferior.log()[j] == log_before[j]);
                                let k = choose|k: int|
                                    0 <= k < i && log_before[j] == TraceOp::WriteByte(
                                        orig_table[k].addr,
                                        TRAP_BYTE,
                                    );
                                assert(0 <= k < i + 1 && inferior.log()[j] == TraceOp::WriteByte(
                                    orig_table[k].addr,
                                    TRAP_BYTE,
                                ));
                            } else {
                                assert(inferior.log()[j] == TraceOp::WriteByte(a, TRAP_BYTE));
                                assert(inferior.log()[j] == TraceOp::WriteByte(
                                    orig_table[i as int].addr,
                                    TRAP_BYTE,
                                ));
                            }
                        }
                        assert forall|k: int|
                            0 <= k < i + 1 && !failed@.contains(#[trigger] orig_table[k].addr)
                            implies exists|j: int|
                            base.len() <= j < inferior.log().len() && inferior.log()[j]
                                == TraceOp::WriteByte(orig_table[k].addr, TRAP_BYTE) by {
                            if k < i {
                                let j = choose|j: int|
                                    base.len() <= j < log_before.len() && log_before[j]
                                        == TraceOp::WriteByte(orig_table[k].addr, TRAP_BYTE);
                                assert(inferior.log()[j] == TraceOp::WriteByte(
                                    orig_table[k].addr,
                                    TRAP_BYTE,
                                ));
                            } else {
                                assert(inferior.log()[log_before.len() as int]
                                    == TraceOp::WriteByte(orig_table[k].addr, TRAP_BYTE));
                            }
                        }
                    }
                },
                Err(_) => {
                    self.set_orig_at(i, None);
                    failed.push(a);
                    proof {
                        assert(failed@ == failed_before.push(a));
                        assert(failed@.contains(a)) by {
                            assert(failed@[failed@.len() - 1] == a);
                        }
                        assert forall|x: u64| failed@.contains(x) implies exists|k: int|
                            0 <= k < i + 1 && orig_table[k].addr == x by {
                            let m = choose|m: int| 0 <= m < failed@.len() && failed@[m] == x;
                            if m < failed_before.len() {
                                assert(failed_before.contains(x));
                                let k = choose|k: int| 0 <= k < i && orig_table[k].addr == x;
                                assert(0 <= k < i + 1 && orig_table[k].addr == x);
                            } else {
                                assert(orig_table[i as int].addr == x);
                            }
                        }
                        assert forall|k: int|
                            0 <= k < i + 1 implies ((#[trigger] self@[k].orig is Some)
                            <==> !failed@.contains(self@[k].addr)) by {
                            if k < i {
                                if self@[k].orig is Some {
                                    if failed@.contains(self@[k].addr) {
                                        let m = choose|m: int|
                                            0 <= m < failed@.len() && failed@[m] == self@[k].addr;
                                        if m < failed_before.len() {
                                            assert(failed_before.contains(self@[k].addr));
                                        } else {
                                            assert(orig_table[k].addr == orig_table[i as int].addr);
                                        }
                                    }
                                } else {
                                    assert(failed_before.contains(self@[k].addr));
                                    let m = choose|m: int|
                                        0 <= m < failed_before.len() && failed_before[m]
                                            == self@[k].addr;
                                    assert(failed@[m] == self@[k].addr);
                                    assert(failed@.contains(self@[k].addr));
                                }
                            }
                        }
                        assert forall|k: int|
                            0 <= k < i + 1 && !failed@.contains(#[trigger] orig_table[k].addr)
                            implies exists|j: int|
                            base.len() <= j < inferior.log().len() && inferior.log()[j]
                                == TraceOp::WriteByte(orig_table[k].addr, TRAP_BYTE) by {
                            if failed_before.contains(orig_table[k].addr) {
                                let m = choose|m: int|
                                    0 <= m < failed_before.len() && failed_before[m]
                                        == orig_table[k].addr;
                                assert(failed@[m] == orig_table[k].addr);
                                assert(failed@.contains(orig_table[k].addr));
                            }
                            assert(k < i);
                        }
                    }
                },
            }
            i += 1;
        }
        failed
    }

    /// Rewrites the saved-byte field of the `i`-th breakpoint.
    pub fn set_orig_at(&mut self, i: usize, o: Option<u8>)
        requires
            i < old(self)@.len(),
        ensures
            final (self)@ == old(self)@.update(
                i as int,
                Breakpoint { addr: old(self)@[i as int].addr, orig: o },
            ),
    {
        proof {
            use_type_invariant(&*self);
        }
        let ghost prev = self@;
        let mut entries: Vec<Breakpoint> = Vec::new();
        std::mem::swap(&mut entries, &mut self.entries);
        let a = entries[i].addr;
        entries.set(i, Breakpoint { addr: a, orig: o });
        proof {
            assert forall|p: int, q: int|
                0 <= p < q < entries@.len() implies entries@[p].addr != entries@[q].addr by {
                assert(entries@[p].addr == prev[p].addr && entries@[q].addr == prev[q].addr);
            }
        }
        self.entries = entries;
    }
}

} // verus!

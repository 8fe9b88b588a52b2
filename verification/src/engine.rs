//! The execution engine: the fetch/compute/store/branch cycle of the
//! single-instruction machine, run to one of the three halt conditions.
//!
//! One cycle: dereference the program counter (cell 0) to an operand
//! address `x`, subtract the accumulator (cell 1) from the value at `x`
//! with 8-bit wraparound, store the result both in the accumulator and
//! back at `x`, then advance the program counter by one, or by two when
//! the subtraction borrowed.

use vstd::prelude::*;
use vstd::string::StringExecFns;

use crate::arith::{inc_wrap, inc_wraps, increment_wrapping, sub_borrows, sub_wrap,
    subtract_with_borrow};
use crate::dump::{dump_chars, hex_pair, push_hex_pair};
use crate::memory::{loaded_mem, mem_inv, read_at, write_at, zero_mem, LoadError, Memory};

verus! {

/// Everything one cycle produces: the memory after the cycle, the two
/// diagnostic shadow registers, the borrow flag, and whether either
/// program-counter increment wrapped past 255.
pub ghost struct CycleOut {
    pub mem: Seq<u8>,
    pub mar: u8,
    pub mdr: u8,
    pub borrow: bool,
    pub pc_overflow: bool,
}

/// One cycle of the machine over the memory view `m`.
pub open spec fn cycle(m: Seq<u8>) -> CycleOut {
    let pc = read_at(m, 0);
    let x = read_at(m, pc);
    let xv = read_at(m, x);
    let a = read_at(m, 1);
    let res = sub_wrap(xv, a);
    let borrow = sub_borrows(xv, a);
    let m1 = write_at(m, 1, res);
    let m2 = write_at(m1, x, res);
    let p1 = read_at(m2, 0);
    let m3 = write_at(m2, 0, inc_wrap(p1));
    let ov1 = inc_wraps(p1);
    let p2 = read_at(m3, 0);
    let m4 = if borrow {
        write_at(m3, 0, inc_wrap(p2))
    } else {
        m3
    };
    let ov2 = borrow && inc_wraps(p2);
    CycleOut { mem: m4, mar: x, mdr: xv, borrow: borrow, pc_overflow: ov1 || ov2 }
}

/// A cycle keeps the memory well formed.
pub proof fn lemma_cycle_preserves_inv(m: Seq<u8>)
    requires
        mem_inv(m),
    ensures
        mem_inv(cycle(m).mem),
{
}

/// The deliberate-stop pattern: program counter and accumulator both zero.
pub open spec fn zero_loop(m: Seq<u8>) -> bool {
    read_at(m, 0) == 0 && read_at(m, 1) == 0
}

/// The alternate stop pattern: program counter on the hardwired zero cell
/// with the accumulator holding exactly one.
pub open spec fn one_loop(m: Seq<u8>) -> bool {
    read_at(m, 0) == 2 && read_at(m, 1) == 1
}

/// Whether a cycle's outcome satisfies any halt condition.
pub open spec fn halts(out: CycleOut) -> bool {
    out.pc_overflow || zero_loop(out.mem) || one_loop(out.mem)
}

/// Which of the three halt conditions is reported, in their fixed priority
/// order: a wrapped program counter outranks the zero-loop pattern, which
/// outranks the one-loop pattern.
#[derive(Debug, Clone, Copy, PartialEq, Eq, Structural)]
pub enum HaltKind {
    PcOverflow,
    ZeroLoop,
    OneLoop,
}

/// The halt kind a halting cycle outcome is reported as.
pub open spec fn halt_kind_of(out: CycleOut) -> HaltKind {
    if out.pc_overflow {
        HaltKind::PcOverflow
    } else if zero_loop(out.mem) {
        HaltKind::ZeroLoop
    } else {
        HaltKind::OneLoop
    }
}

/// The memory view after `k` cycles from `m`.
pub open spec fn mem_after(m: Seq<u8>, k: nat) -> Seq<u8>
    decreases k,
{
    if k == 0 {
        m
    } else {
        cycle(mem_after(m, (k - 1) as nat)).mem
    }
}

/// The outcome of the `k`-th cycle (counting from 1) of a run from `m`.
pub open spec fn cycle_at(m: Seq<u8>, k: nat) -> CycleOut
    recommends
        k >= 1,
{
    cycle(mem_after(m, (k - 1) as nat))
}

/// Whether a run from `m` satisfies a halt condition right after its `k`-th
/// cycle (counting from 1).
pub open spec fn halts_at(m: Seq<u8>, k: nat) -> bool {
    halts(cycle_at(m, k))
}

/// No halt condition fires during the first `j_max` cycles of a run
/// from `m0`.
pub open spec fn no_halt_through(m0: Seq<u8>, j_max: nat) -> bool {
    forall|j: nat| 1 <= j <= j_max ==> !halts_at(m0, j)
}

/// What a completed run reports: after its `k`-th cycle the machine halted
/// for the first time, the memory is the `k`-fold iterate, the shadow
/// registers and borrow flag are those of the last cycle, and the reported
/// kind follows the fixed priority order.
pub open spec fn run_post(m0: Seq<u8>, s: Rssb, kind: HaltKind, k: nat) -> bool {
    &&& 1 <= k
    &&& halts_at(m0, k)
    &&& forall|j: nat| 1 <= j < k ==> !halts_at(m0, j)
    &&& s.mem_view() == mem_after(m0, k)
    &&& s.mar_spec() == cycle_at(m0, k).mar
    &&& s.mdr_spec() == cycle_at(m0, k).mdr
    &&& s.borrow_spec() == cycle_at(m0, k).borrow
    &&& kind == halt_kind_of(cycle_at(m0, k))
}

/// The machine: its memory, the diagnostic shadow registers, and the
/// borrow flag of the most recent subtraction. The program counter and the
/// accumulator are not separate fields: they alias memory cells 0 and 1.
pub struct Rssb {
    pub mem: Memory,
    mar: u8,
    mdr: u8,
    borrow: bool,
}

impl Rssb {
    /// The observable contents of the machine's memory.
    pub closed spec fn mem_view(&self) -> Seq<u8> {
        self.mem@
    }

    /// The memory-address shadow register: the operand address the last
    /// cycle fetched.
    pub closed spec fn mar_spec(&self) -> u8 {
        self.mar
    }

    /// The memory-data shadow register: the value the operand cell held at
    /// fetch time.
    pub closed spec fn mdr_spec(&self) -> u8 {
        self.mdr
    }

    /// The borrow flag of the most recent subtraction.
    pub closed spec fn borrow_spec(&self) -> bool {
        self.borrow
    }

    /// Internal invariant: the machine is well formed when its memory is.
    pub closed spec fn wf(&self) -> bool {
        self.mem.wf()
    }

    /// A fresh machine: zero-filled memory, cleared shadow registers and
    /// borrow flag.
    pub fn new() -> (r: Rssb)
        ensures
            r.wf(),
            r.mem_view() == zero_mem(),
            r.mar_spec() == 0,
            r.mdr_spec() == 0,
            !r.borrow_spec(),
    {
        Rssb { mem: Memory::new(), mar: 0, mdr: 0, borrow: false }
    }

    /// Fill the memory from a raw program image; see `Memory::load_from`.
    pub fn load(&mut self, bytes: &Vec<u8>) -> (r: Result<(), LoadError>)
        requires
            old(self).wf(),
        ensures
            final(self).wf(),
            final(self).mar_spec() == old(self).mar_spec(),
            final(self).mdr_spec() == old(self).mdr_spec(),
            final(self).borrow_spec() == old(self).borrow_spec(),
            bytes@.len() < 256 ==> r is Err && final(self).mem_view() == old(self).mem_view(),
            bytes@.len() >= 256 ==> r is Ok && final(self).mem_view() == loaded_mem(bytes@),
    {
        self.mem.load_from(bytes)
    }

    /// Execute exactly one cycle; returns whether a program-counter
    /// increment wrapped past 255.
    pub fn step(&mut self) -> (pc_overflow: bool)
        requires
            old(self).wf(),
        ensures
            final(self).wf(),
            final(self).mem_view() == cycle(old(self).mem_view()).mem,
            final(self).mar_spec() == cycle(old(self).mem_view()).mar,
            final(self).mdr_spec() == cycle(old(self).mem_view()).mdr,
            final(self).borrow_spec() == cycle(old(self).mem_view()).borrow,
            pc_overflow == cycle(old(self).mem_view()).pc_overflow,
    {
        let pc = self.mem.read(0);
        let x = self.mem.read(pc);
        let xv = self.mem.read(x);
        let a = self.mem.read(1);
        let (res, borrow) = subtract_with_borrow(xv, a);
        self.mem.write(1, res);
        self.mem.write(x, res);
        let p1 = self.mem.read(0);
        let (q1, ov1) = increment_wrapping(p1);
        self.mem.write(0, q1);
        let mut ov2 = false;
        if borrow {
            let p2 = self.mem.read(0);
            let (q2, o) = increment_wrapping(p2);
            self.mem.write(0, q2);
            ov2 = o;
        }
        self.mar = x;
        self.mdr = xv;
        self.borrow = borrow;
        ov1 || ov2
    }

    /// Execute one cycle and then check the halt conditions in their
    /// fixed priority order: program-counter overflow first, then the
    /// zero-loop pattern, then the one-loop pattern. Returns the halt kind
    /// when the machine just halted, `None` when it keeps running.
    pub fn step_halt(&mut self) -> (r: Option<HaltKind>)
        requires
            old(self).wf(),
        ensures
            final(self).wf(),
            final(self).mem_view() == cycle(old(self).mem_view()).mem,
            final(self).mar_spec() == cycle(old(self).mem_view()).mar,
            final(self).mdr_spec() == cycle(old(self).mem_view()).mdr,
            final(self).borrow_spec() == cycle(old(self).mem_view()).borrow,
            match r {
                Some(kind) => halts(cycle(old(self).mem_view()))
                    && kind == halt_kind_of(cycle(old(self).mem_view())),
                None => !halts(cycle(old(self).mem_view())),
            },
    {
        let ov = self.step();
        let pc = self.mem.read(0);
        let a = self.mem.read(1);
        if ov {
            Some(HaltKind::PcOverflow)
        } else if pc == 0 && a == 0 {
            Some(HaltKind::ZeroLoop)
        } else if pc == 2 && a == 1 {
            Some(HaltKind::OneLoop)
        } else {
            None
        }
    }

    /// Run cycles until the first halt condition fires, for at most
    /// `max_cycles` cycles. The architecture itself puts no bound on a
    /// run -- a program that never satisfies a halt condition runs forever,
    /// which is an accepted outcome, not a fault -- so the caller chooses
    /// how many cycles to attempt and keeps calling while `None` comes
    /// back. `None` promises that no halt condition fired during any of
    /// the `max_cycles` cycles executed: the machine never stops early.
    #[verifier::loop_isolation(false)]
    pub fn run(&mut self, max_cycles: u64) -> (r: Option<HaltKind>)
        requires
            old(self).wf(),
            max_cycles >= 1,
        ensures
            final(self).wf(),
            r is Some ==> exists|k: nat|
                #[trigger] halts_at(old(self).mem_view(), k) && k <= max_cycles
                    && run_post(old(self).mem_view(), *final(self), r.unwrap(), k),
            r is None ==> {
                &&& no_halt_through(old(self).mem_view(), max_cycles as nat)
                &&& final(self).mem_view() == mem_after(old(self).mem_view(), max_cycles as nat)
                &&& final(self).mar_spec() == cycle_at(old(self).mem_view(), max_cycles as nat).mar
                &&& final(self).mdr_spec() == cycle_at(old(self).mem_view(), max_cycles as nat).mdr
                &&& final(self).borrow_spec() == cycle_at(old(self).mem_view(), max_cycles as nat).borrow
            },
    {
        let ghost m0 = self.mem_view();
        let mut i: u64 = 0;
        while i < max_cycles
            invariant
                self.wf(),
                i <= max_cycles,
                self.mem_view() == mem_after(m0, i as nat),
                no_halt_through(m0, i as nat),
                i >= 1 ==> self.mar_spec() == cycle_at(m0, i as nat).mar,
                i >= 1 ==> self.mdr_spec() == cycle_at(m0, i as nat).mdr,
                i >= 1 ==> self.borrow_spec() == cycle_at(m0, i as nat).borrow,
            decreases max_cycles - i,
        {
            let r = self.step_halt();
            proof {
                assert(mem_after(m0, (i + 1) as nat)
                    == cycle(mem_after(m0, i as nat)).mem);
            }
            match r {
                Some(kind) => {
                    proof {
                        let w: nat = (i + 1) as nat;
                        assert(run_post(m0, *self, kind, w));
                        assert(halts_at(m0, w));
                    }
                    return Some(kind);
                },
                None => {},
            }
            i = i + 1;
        }
        None
    }

    /// Overwrite the registers, data cells and program text with the
    /// built-in demonstration program.
    pub fn _load_sample_program(&mut self)
        requires
            old(self).wf(),
        ensures
            final(self).wf(),
            final(self).mem_view() == sample_program(old(self).mem_view()),
            final(self).mar_spec() == old(self).mar_spec(),
            final(self).mdr_spec() == old(self).mdr_spec(),
            final(self).borrow_spec() == old(self).borrow_spec(),
    {
        self.mem.write(0, 16);
        self.mem.write(1, 65);
        self.mem.write(8, 66);
        self.mem.write(9, 67);
        self.mem.write(10, 68);
        self.mem.write(11, 69);
        self.mem.write(16, 8);
        self.mem.write(17, 8);
        self.mem.write(18, 8);
        self.mem.write(19, 9);
        self.mem.write(20, 9);
        self.mem.write(21, 10);
        self.mem.write(22, 8);
        self.mem.write(23, 8);
        self.mem.write(24, 9);
        self.mem.write(25, 8);
        self.mem.write(26, 8);
        self.mem.write(27, 8);
        self.mem.write(28, 11);
        self.mem.write(29, 9);
    }

    /// The register block of the post-run report.
    pub fn registers_report(&self) -> (r: String)
        requires
            self.wf(),
        ensures
            r@ == report_chars(
                read_at(self.mem_view(), 0),
                read_at(self.mem_view(), 1),
                0,
                self.mar_spec(),
                self.mdr_spec(),
                self.borrow_spec(),
            ),
    {
        let mut w = String::new();
        w.append("PC:\t");
        proof {
            assert(w@ =~= "PC:\t"@);
        }
        push_hex_pair(&mut w, self.mem.read(0));
        w.append("\nA:\t");
        push_hex_pair(&mut w, self.mem.read(1));
        w.append("\nZERO:\t");
        push_hex_pair(&mut w, self.mem.read(2));
        w.append("\nMAR:\t");
        push_hex_pair(&mut w, self.mar);
        w.append("\nMDR:\t");
        push_hex_pair(&mut w, self.mdr);
        w.append("\nBORROW\t");
        if self.borrow {
            w.append("true");
        } else {
            w.append("false");
        }
        w.append("\n");
        w
    }

    /// The complete post-run report, ready to print.
    pub fn report(&self) -> (r: String)
        requires
            self.wf(),
        ensures
            r@ == report_text(
                self.mem_view(),
                self.mar_spec(),
                self.mdr_spec(),
                self.borrow_spec(),
            ),
    {
        let mut w = String::new();
        w.append("***********************************************************************\n");
        proof {
            assert(w@ =~= frame_chars());
        }
        w.append("--REGISTERS--\n");
        let regs = self.registers_report();
        w.append(regs.as_str());
        w.append("\n--MEMORY--\n");
        let dump = self.mem.hexdump();
        w.append(dump.as_str());
        w.append("***********************************************************************\n");
        proof {
            assert(w@ =~= report_text(
                self.mem_view(),
                self.mar_spec(),
                self.mdr_spec(),
                self.borrow_spec(),
            ));
        }
        w
    }

    /// The memory-address shadow register.
    pub fn mar(&self) -> (r: u8)
        ensures
            r == self.mar_spec(),
    {
        self.mar
    }

    /// The memory-data shadow register.
    pub fn mdr(&self) -> (r: u8)
        ensures
            r == self.mdr_spec(),
    {
        self.mdr
    }

    /// The borrow flag of the most recent subtraction.
    pub fn borrow(&self) -> (r: bool)
        ensures
            r == self.borrow_spec(),
    {
        self.borrow
    }
}

/// How a boolean renders in the register report.
pub open spec fn bool_chars(b: bool) -> Seq<char> {
    if b {
        "true"@
    } else {
        "false"@
    }
}

/// The register block of the post-run report: program counter,
/// accumulator, the hardwired zero cell, the two shadow registers -- each
/// as two hexadecimal digits -- and the borrow flag as a boolean.
pub open spec fn report_chars(pc: u8, a: u8, zero: u8, mar: u8, mdr: u8, borrow: bool) -> Seq<
    char,
> {
    "PC:\t"@ + hex_pair(pc) + "\nA:\t"@ + hex_pair(a) + "\nZERO:\t"@ + hex_pair(zero)
        + "\nMAR:\t"@ + hex_pair(mar) + "\nMDR:\t"@ + hex_pair(mdr) + "\nBORROW\t"@
        + bool_chars(borrow) + "\n"@
}

/// The frame line above and below the post-run report.
pub open spec fn frame_chars() -> Seq<char> {
    "***********************************************************************\n"@
}

/// The complete post-run report: the register block and the memory dump,
/// between two frame lines.
pub open spec fn report_text(m: Seq<u8>, mar: u8, mdr: u8, borrow: bool) -> Seq<char> {
    frame_chars() + "--REGISTERS--\n"@ + report_chars(
        read_at(m, 0),
        read_at(m, 1),
        0,
        mar,
        mdr,
        borrow,
    ) + "\n--MEMORY--\n"@ + dump_chars(m) + frame_chars()
}

/// The built-in demonstration image: cell 0 starts the program counter at
/// 16, cell 1 starts the accumulator at 65, cells 8 through 11 hold data,
/// and cells 16 through 29 hold the operand addresses of a short
/// self-terminating program.
pub open spec fn sample_program(m: Seq<u8>) -> Seq<u8> {
    m.update(0, 16u8).update(1, 65u8).update(8, 66u8).update(9, 67u8).update(10, 68u8).update(
        11,
        69u8,
    ).update(16, 8u8).update(17, 8u8).update(18, 8u8).update(19, 9u8).update(20, 9u8).update(
        21,
        10u8,
    ).update(22, 8u8).update(23, 8u8).update(24, 9u8).update(25, 8u8).update(26, 8u8).update(
        27,
        8u8,
    ).update(28, 11u8).update(29, 9u8)
}

/// Runs are deterministic: two completed runs from the same initial
/// memory halt after the same number of cycles, report the same halt
/// condition, and leave bit-for-bit identical memory, shadow registers
/// and borrow flag.
pub proof fn lemma_run_deterministic(
    m0: Seq<u8>,
    s1: Rssb,
    s2: Rssb,
    kind1: HaltKind,
    kind2: HaltKind,
    k1: nat,
    k2: nat,
)
    requires
        run_post(m0, s1, kind1, k1),
        run_post(m0, s2, kind2, k2),
    ensures
        k1 == k2,
        kind1 == kind2,
        s1.mem_view() == s2.mem_view(),
        s1.mar_spec() == s2.mar_spec(),
        s1.mdr_spec() == s2.mdr_spec(),
        s1.borrow_spec() == s2.borrow_spec(),
{
    if k1 < k2 {
        assert(!halts_at(m0, k1));
        assert(false);
    }
    if k2 < k1 {
        assert(!halts_at(m0, k2));
        assert(false);
    }
}

/// After any cycle the program counter can be zero only because one of the
/// two increments wrapped past 255, so the zero-loop pattern can never be
/// reached without the overflow halt outranking it.
pub proof fn lemma_pc_zero_means_overflow(m: Seq<u8>)
    requires
        mem_inv(m),
    ensures
        read_at(cycle(m).mem, 0) == 0 ==> cycle(m).pc_overflow,
{
}

} // verus!

//! Cache enables and the line-by-line maintenance (`cbo.inval`, `cbo.clean`) around DMA.
use vstd::prelude::*;
use crate::mmio::RegOp;
use crate::cpu::csr::{MSetupCSR, MSETUP_D_CACHE, MSETUP_I_CACHE};

verus! {

/// Bytes of a cache line.
pub const LINE_BYTES: usize = 64;

/// Enable the instruction and data caches (MSETUP bits 1 and 0).
pub fn enable(plan: &mut Vec<RegOp>)
    ensures
        final(plan)@ == old(plan)@.push(RegOp::CsrSet { csr: 0x7C0, bits: 0b11 }),
{
    proof { crate::bits::shift_constants(); }
    MSetupCSR::enable(plan, MSETUP_D_CACHE | MSETUP_I_CACHE);
}

/// The number of 64-byte lines that intersect `[start, start + len)`: none for an empty
/// range, else from the line holding `start` to the line holding the last byte.
pub open spec fn line_count(start: int, len: int) -> int {
    if len == 0 { 0 } else { (start + len + 63) / 64 - start / 64 }
}

/// The `k`-th of those lines: the line holding `start`, rounded down to 64, plus `64 k`.
pub open spec fn line_addr(start: int, k: int) -> int {
    64 * (start / 64 + k)
}

/// The maintenance operation on one line.
pub open spec fn line_op(line: usize, clean: bool) -> RegOp {
    if clean { RegOp::CboClean { line } } else { RegOp::CboInval { line } }
}

/// One operation per line intersecting `[start, start + len)`, in address order, then
/// `fence` and `fence.i`.
pub open spec fn spec_maintain_ops(start: usize, len: usize, clean: bool) -> Seq<RegOp> {
    Seq::new(line_count(start as int, len as int) as nat, |k: int| line_op(line_addr(start as int, k) as usize, clean))
        + seq![RegOp::Fence, RegOp::FenceI]
}

fn maintain(plan: &mut Vec<RegOp>, start: usize, len: usize, clean: bool)
    requires
        start + len <= usize::MAX,
    ensures
        final(plan)@ == old(plan)@ + spec_maintain_ops(start, len, clean),
{
    let ghost head = plan@;
    let ghost lines = Seq::new(
        line_count(start as int, len as int) as nat,
        |k: int| line_op(line_addr(start as int, k) as usize, clean),
    );
    if len > 0 {
        let first = start / LINE_BYTES;
        let last = (start + (len - 1)) / LINE_BYTES;
        let count = last - first + 1;
        assert(count == line_count(start as int, len as int)) by (nonlinear_arith)
            requires
                first == start / 64,
                last == (start + len - 1) / 64,
                count == last - first + 1,
                len > 0,
        ;
        let mut k: usize = 0;
        while k < count
            invariant
                start + len <= usize::MAX,
                len > 0,
                first == start / 64,
                last == (start + len - 1) / 64,
                count == last - first + 1,
                count == line_count(start as int, len as int),
                k <= count,
                lines == Seq::new(
                    line_count(start as int, len as int) as nat,
                    |j: int| line_op(line_addr(start as int, j) as usize, clean),
                ),
                plan@ == head + lines.take(k as int),
            decreases count - k,
        {
            assert(64 * (first + k) <= start + len - 1) by (nonlinear_arith)
                requires
                    first + k <= last,
                    last == (start + len - 1) / 64,
                    len > 0,
            ;
            let line = LINE_BYTES * (first + k);
            assert(line == line_addr(start as int, k as int));
            if clean {
                plan.push(RegOp::CboClean { line });
            } else {
                plan.push(RegOp::CboInval { line });
            }
            assert(lines.take(k as int + 1) =~= lines.take(k as int).push(lines[k as int]));
            k = k + 1;
        }
        assert(lines.take(k as int) =~= lines);
    } else {
        assert(lines =~= Seq::<RegOp>::empty());
    }
    plan.push(RegOp::Fence);
    plan.push(RegOp::FenceI);
    assert(plan@ =~= head + spec_maintain_ops(start, len, clean));
}

/// Cache maintenance touches no register and copies no data: it is line operations and
/// fences only.
pub proof fn maintain_ops_are_cache_only(start: usize, len: usize, clean: bool)
    ensures
        forall|j: int| 0 <= j < spec_maintain_ops(start, len, clean).len() ==> {
            let op = #[trigger] spec_maintain_ops(start, len, clean)[j];
            op is CboClean || op is CboInval || op is Fence || op is FenceI
        },
{
    let n = line_count(start as int, len as int);
    let lines = Seq::new(n as nat, |k: int| line_op(line_addr(start as int, k) as usize, clean));
    assert forall|j: int| 0 <= j < spec_maintain_ops(start, len, clean).len() implies {
        let op = #[trigger] spec_maintain_ops(start, len, clean)[j];
        op is CboClean || op is CboInval || op is Fence || op is FenceI
    } by {
        if j < lines.len() {
            assert(spec_maintain_ops(start, len, clean)[j] == lines[j]);
        }
    }
}

/// Invalidate (`cbo.inval`, DMA to CPU, dirty lines dropped) every line intersecting
/// `[start, start + len)`, then `fence` and `fence.i`.
pub fn inval(plan: &mut Vec<RegOp>, start: usize, len: usize)
    requires
        start + len <= usize::MAX,
    ensures
        final(plan)@ == old(plan)@ + spec_maintain_ops(start, len, false),
{
    maintain(plan, start, len, false);
}

/// Clean (`cbo.clean`, CPU to DMA, written back and kept) every line intersecting
/// `[start, start + len)`, then `fence` and `fence.i`.
pub fn clean(plan: &mut Vec<RegOp>, start: usize, len: usize)
    requires
        start + len <= usize::MAX,
    ensures
        final(plan)@ == old(plan)@ + spec_maintain_ops(start, len, true),
{
    maintain(plan, start, len, true);
}

/// The maintained lines are exactly those meeting the range: every byte `b` of
/// `[start, start + len)` lies in line `b / 64 - start / 64`, and every line `k` starts on a
/// 64-byte boundary below the end of the range and ends above its start.
pub proof fn lines_cover_range(start: nat, len: nat, b: int, k: int)
    ensures
        start <= b < start + len ==> {
            let j = b / 64 - start / 64;
            &&& 0 <= j < line_count(start as int, len as int)
            &&& line_addr(start as int, j) <= b < line_addr(start as int, j) + 64
        },
        0 <= k < line_count(start as int, len as int) ==> {
            &&& line_addr(start as int, k) % 64 == 0
            &&& line_addr(start as int, k) < start + len
            &&& start < line_addr(start as int, k) + 64
        },
{
    if start <= b < start + len {
        let j = b / 64 - start / 64;
        assert(0 <= j < (start + len + 63) / 64 - start / 64 && 64 * (start / 64 + j) <= b < 64 * (start / 64 + j) + 64)
            by (nonlinear_arith)
            requires
                start <= b < start + len,
                j == b / 64 - start / 64,
        ;
    }
    if 0 <= k < line_count(start as int, len as int) {
        assert(64 * (start / 64 + k) % 64 == 0 && 64 * (start / 64 + k) < start + len && start < 64 * (start
            / 64 + k) + 64) by (nonlinear_arith)
            requires
                0 <= k < (start + len + 63) / 64 - start / 64,
                len > 0,
        ;
    }
}

} // verus!

//! Plans for the flash: what to erase and what to write, and what becomes of the flash by it.
use vstd::prelude::*;

verus! {

/// The unit in which flash is erased.
pub const SECTOR_SIZE: u32 = 4096;

/// The unit in which flash is written.
pub const WRITE_ALIGN: u32 = 4;

/// One operation on the flash.
#[derive(Debug)]
pub enum FlashOp {
    /// Erase the bytes from `from` up to `to`.
    Erase { from: u32, to: u32 },
    /// Write `bytes` from `addr` on.
    Write { addr: u32, bytes: Vec<u8> },
}

/// One operation on the flash, as contracts speak of it.
pub enum Step {
    Erase { from: int, to: int },
    Write { addr: int, bytes: Seq<u8> },
}

impl View for FlashOp {
    type V = Step;

    open spec fn view(&self) -> Step {
        match self {
            FlashOp::Erase { from, to } => Step::Erase { from: *from as int, to: *to as int },
            FlashOp::Write { addr, bytes } => Step::Write { addr: *addr as int, bytes: bytes@ },
        }
    }
}

pub open spec fn steps(ops: Seq<FlashOp>) -> Seq<Step> {
    Seq::new(ops.len(), |i: int| ops[i]@)
}

/// The flash after one operation.
pub open spec fn apply(flash: Seq<u8>, step: Step) -> Seq<u8> {
    Seq::new(
        flash.len(),
        |i: int|
            match step {
                Step::Erase { from, to } => if from <= i < to {
                    0xFF
                } else {
                    flash[i]
                },
                Step::Write { addr, bytes } => if addr <= i < addr + bytes.len() {
                    bytes[i - addr]
                } else {
                    flash[i]
                },
            },
    )
}

/// The flash after a plan.
pub open spec fn apply_all(flash: Seq<u8>, plan: Seq<Step>) -> Seq<u8>
    decreases plan.len(),
{
    if plan.len() == 0 {
        flash
    } else {
        apply(apply_all(flash, plan.drop_last()), plan.last())
    }
}

/// Whether an operation touches nothing outside `from..to`.
pub open spec fn step_within(step: Step, from: int, to: int) -> bool {
    match step {
        Step::Erase { from: a, to: b } => from <= a <= b <= to,
        Step::Write { addr, bytes } => from <= addr && addr + bytes.len() <= to,
    }
}

pub open spec fn within(plan: Seq<Step>, from: int, to: int) -> bool {
    forall|i: int| 0 <= i < plan.len() ==> step_within(#[trigger] plan[i], from, to)
}

/// A plan that keeps to a region leaves the rest of the flash alone.
pub proof fn plan_changes_its_region_only(flash: Seq<u8>, plan: Seq<Step>, from: int, to: int)
    requires
        within(plan, from, to),
    ensures
        apply_all(flash, plan).len() == flash.len(),
        forall|i: int|
            0 <= i < flash.len() && !(from <= i < to) ==> #[trigger] apply_all(flash, plan)[i]
                == flash[i],
    decreases plan.len(),
{
    if plan.len() > 0 {
        assert(within(plan.drop_last(), from, to)) by {
            assert forall|i: int| 0 <= i < plan.drop_last().len() implies step_within(
                #[trigger] plan.drop_last()[i],
                from,
                to,
            ) by {
                assert(plan[i] == plan.drop_last()[i]);
            }
        }
        plan_changes_its_region_only(flash, plan.drop_last(), from, to);
        assert(step_within(plan[plan.len() - 1], from, to));
    }
}

/// Two plans one after the other are one plan.
pub proof fn plans_concatenate(flash: Seq<u8>, a: Seq<Step>, b: Seq<Step>)
    ensures
        apply_all(flash, a + b) == apply_all(apply_all(flash, a), b),
    decreases b.len(),
{
    if b.len() == 0 {
        assert(a + b == a);
    } else {
        assert((a + b).drop_last() == a + b.drop_last());
        plans_concatenate(flash, a, b.drop_last());
    }
}

/// The end of the sectors that hold the first `n` bytes of a region.
pub open spec fn sector_end(n: int) -> int {
    (n + SECTOR_SIZE - 1) / SECTOR_SIZE as int * SECTOR_SIZE
}

/// The sectors to erase, from `from` on, so that all is erased up to `upto`. False, where that
/// takes a sector that reaches past `end`; the sectors before it are erased all the same.
pub open spec fn erasures(from: int, upto: int, end: int) -> (Seq<Step>, bool)
    decreases
        (if from < upto {
            upto - from
        } else {
            0
        }),
{
    if from >= upto {
        (Seq::empty(), true)
    } else if from + SECTOR_SIZE > end {
        (Seq::empty(), false)
    } else {
        let (rest, ok) = erasures(from + SECTOR_SIZE, upto, end);
        (seq![Step::Erase { from, to: from + SECTOR_SIZE }] + rest, ok)
    }
}

/// How `bytes` are appended to a region that holds `n` bytes: its next sectors are erased as far
/// as needed, then the bytes are written. False, where the region is too small for that.
pub open spec fn append_plan(offset: int, size: int, n: int, bytes: Seq<u8>) -> (Seq<Step>, bool) {
    if bytes.len() == 0 {
        (Seq::empty(), true)
    } else if n + bytes.len() > size {
        (Seq::empty(), false)
    } else {
        let (erased, ok) = erasures(
            offset + sector_end(n),
            offset + n + bytes.len(),
            offset + size,
        );
        if ok {
            (erased.push(Step::Write { addr: offset + n, bytes }), true)
        } else {
            (erased, false)
        }
    }
}

proof fn lemma_erasures(flash: Seq<u8>, from: int, upto: int, end: int)
    requires
        0 <= from,
    ensures
        within(erasures(from, upto, end).0, from, end),
        apply_all(flash, erasures(from, upto, end).0).len() == flash.len(),
        forall|i: int|
            0 <= i < flash.len() && i < from ==> #[trigger] apply_all(
                flash,
                erasures(from, upto, end).0,
            )[i] == flash[i],
    decreases
        (if from < upto {
            upto - from
        } else {
            0
        }),
{
    let plan = erasures(from, upto, end).0;
    if from < upto && from + SECTOR_SIZE <= end {
        let first = seq![Step::Erase { from, to: from + SECTOR_SIZE }];
        let rest = erasures(from + SECTOR_SIZE, upto, end).0;
        lemma_erasures(flash, from + SECTOR_SIZE, upto, end);
        assert forall|i: int| 0 <= i < plan.len() implies step_within(
            #[trigger] plan[i],
            from,
            end,
        ) by {
            if i > 0 {
                assert(plan[i] == rest[i - 1]);
                assert(step_within(rest[i - 1], from + SECTOR_SIZE, end));
            }
        }
    }
    plan_changes_its_region_only(flash, plan, from, end);
}

/// An append touches its region only, keeps what the region holds, and puts the new bytes behind
/// it.
pub proof fn append_appends(flash: Seq<u8>, offset: int, size: int, n: int, bytes: Seq<u8>)
    requires
        0 <= offset,
        0 <= n <= size,
        offset + size <= flash.len(),
    ensures
        within(append_plan(offset, size, n, bytes).0, offset, offset + size),
        apply_all(flash, append_plan(offset, size, n, bytes).0).len() == flash.len(),
        apply_all(flash, append_plan(offset, size, n, bytes).0).subrange(offset, offset + n)
            == flash.subrange(offset, offset + n),
        append_plan(offset, size, n, bytes).1 ==> n + bytes.len() <= size && apply_all(
            flash,
            append_plan(offset, size, n, bytes).0,
        ).subrange(offset + n, offset + n + bytes.len()) == bytes,
{
    let (plan, ok) = append_plan(offset, size, n, bytes);
    if bytes.len() > 0 && n + bytes.len() <= size {
        let from = offset + sector_end(n);
        let (erased, fits) = erasures(from, offset + n + bytes.len(), offset + size);
        assert(n <= sector_end(n));
        lemma_erasures(flash, from, offset + n + bytes.len(), offset + size);
        assert forall|i: int| 0 <= i < plan.len() implies step_within(
            #[trigger] plan[i],
            offset,
            offset + size,
        ) by {
            if i < erased.len() {
                assert(plan[i] == erased[i]);
                assert(step_within(erased[i], from, offset + size));
            }
        }
        let f1 = apply_all(flash, erased);
        let f2 = apply_all(flash, plan);
        if fits {
            assert(plan.drop_last() == erased);
            assert(f2.subrange(offset + n, offset + n + bytes.len()) =~= bytes);
        }
        assert(f2.subrange(offset, offset + n) =~= flash.subrange(offset, offset + n));
    }
}

/// A flash that holds `bytes` from `offset` on, in sectors that were erased for them.
pub open spec fn holding(flash: Seq<u8>, offset: int, bytes: Seq<u8>) -> Seq<u8> {
    Seq::new(
        flash.len(),
        |i: int|
            if offset <= i < offset + bytes.len() {
                bytes[i - offset]
            } else if offset <= i < offset + sector_end(bytes.len() as int) {
                0xFF
            } else {
                flash[i]
            },
    )
}

/// A flash that is erased between two addresses.
spec fn erased(flash: Seq<u8>, from: int, to: int) -> Seq<u8> {
    Seq::new(
        flash.len(),
        |i: int|
            if from <= i < to {
                0xFF
            } else {
                flash[i]
            },
    )
}

proof fn lemma_erasures_exact(flash: Seq<u8>, offset: int, from: int, upto: int, end: int)
    requires
        0 <= offset <= from,
        (from - offset) % SECTOR_SIZE as int == 0,
        erasures(from, upto, end).1,
    ensures
        apply_all(flash, erasures(from, upto, end).0) == erased(
            flash,
            from,
            if from < upto {
                offset + sector_end(upto - offset)
            } else {
                from
            },
        ),
    decreases
        (if from < upto {
            upto - from
        } else {
            0
        }),
{
    if from < upto {
        let next = from + SECTOR_SIZE;
        let first = seq![Step::Erase { from, to: next }];
        let rest = erasures(next, upto, end).0;
        let f1 = erased(flash, from, next);
        assert(first.drop_last() == Seq::<Step>::empty());
        assert(apply_all(flash, first) =~= f1) by {
            reveal_with_fuel(apply_all, 2);
        }
        plans_concatenate(flash, first, rest);
        lemma_erasures_exact(f1, offset, next, upto, end);
        let last = offset + sector_end(upto - offset);
        if next < upto {
            assert(erased(f1, next, last) =~= erased(flash, from, last));
        } else {
            assert(last == next);
            assert(erased(f1, next, next) =~= erased(flash, from, last));
        }
    } else {
        assert(erased(flash, from, from) =~= flash);
    }
}

/// What an append leaves behind depends on what the region held and on the bytes alone.
pub proof fn append_is_exact(
    flash: Seq<u8>,
    offset: int,
    size: int,
    held: Seq<u8>,
    bytes: Seq<u8>,
)
    requires
        0 <= offset,
        offset + size <= flash.len(),
        append_plan(offset, size, held.len() as int, bytes).1,
    ensures
        apply_all(
            holding(flash, offset, held),
            append_plan(offset, size, held.len() as int, bytes).0,
        ) == holding(flash, offset, held + bytes),
{
    let n = held.len() as int;
    let base = holding(flash, offset, held);
    let plan = append_plan(offset, size, n, bytes).0;
    if bytes.len() == 0 {
        assert(held + bytes == held);
    } else {
        let upto = offset + n + bytes.len();
        let from = offset + sector_end(n);
        let erasing = erasures(from, upto, offset + size).0;
        lemma_erasures_exact(base, offset, from, upto, offset + size);
        assert(plan.drop_last() == erasing);
        assert(n <= sector_end(n) && n + bytes.len() <= sector_end(n + bytes.len()));
        if from >= upto {
            assert(sector_end(n + bytes.len()) == sector_end(n));
        }
        assert(sector_end(n) <= sector_end(n + bytes.len()));
        assert(apply_all(base, plan) =~= holding(flash, offset, held + bytes));
    }
}

/// The sectors that hold some bytes end at a whole sector, the first that leaves none of them out.
pub proof fn sectors_are_whole(n: int)
    ensures
        sector_end(n) % 4096 == 0,
        n <= sector_end(n) < n + 4096,
{
}

/// How many sectors are erased from one address on: as many as reach another, and none that passes
/// the end.
proof fn lemma_erasures_counted(from: int, upto: int, end: int, k: int)
    requires
        k >= 0,
        k == 0 <==> from >= upto,
        k > 0 ==> from + 4096 * (k - 1) < upto <= from + 4096 * k,
    ensures
        ({
            let (plan, ok) = erasures(from, upto, end);
            &&& ok <==> k == 0 || from + 4096 * k <= end
            &&& plan.len() <= k
            &&& ok ==> plan.len() == k
            &&& !ok ==> from + 4096 * (plan.len() + 1) > end
            &&& plan.len() > 0 ==> from + 4096 * plan.len() <= end
            &&& forall|i: int|
                0 <= i < plan.len() ==> #[trigger] plan[i] == (Step::Erase {
                    from: from + 4096 * i,
                    to: from + 4096 * i + 4096,
                })
        }),
    decreases k,
{
    if k > 0 && from + 4096 <= end {
        lemma_erasures_counted(from + 4096, upto, end, k - 1);
        let (plan, ok) = erasures(from, upto, end);
        let rest = erasures(from + SECTOR_SIZE, upto, end).0;
        assert forall|i: int| 0 <= i < plan.len() implies #[trigger] plan[i] == (Step::Erase {
            from: from + 4096 * i,
            to: from + 4096 * i + 4096,
        }) by {
            if i > 0 {
                assert(plan[i] == rest[i - 1]);
            }
        }
    }
}

/// Bytes can be appended to a region where they fit in it, and where the sectors that they begin
/// do. Then the plan erases each of those sectors, in turn, and writes the bytes behind what the
/// region holds. Where they do not fit, nothing is written.
pub proof fn an_append_takes_its_sectors(offset: int, size: int, n: int, bytes: Seq<u8>)
    requires
        0 <= n,
        bytes.len() > 0,
    ensures
        ({
            let (plan, ok) = append_plan(offset, size, n, bytes);
            let upto = n + bytes.len();
            let sectors = (sector_end(upto) - sector_end(n)) / 4096;
            &&& ok <==> upto <= size && (upto <= sector_end(n) || sector_end(upto) <= size)
            &&& ok ==> {
                &&& plan.len() == sectors + 1
                &&& plan.last() == (Step::Write { addr: offset + n, bytes })
                &&& forall|i: int|
                    0 <= i < sectors ==> #[trigger] plan[i] == (Step::Erase {
                        from: offset + sector_end(n) + 4096 * i,
                        to: offset + sector_end(n) + 4096 * i + 4096,
                    })
            }
            &&& !ok ==> forall|i: int| 0 <= i < plan.len() ==> #[trigger] plan[i] is Erase
        }),
{
    let upto = n + bytes.len();
    let from = sector_end(n);
    let k = (sector_end(upto) - from) / 4096;
    assert(sector_end(upto) == from + 4096 * k && k >= 0);
    assert(k == 0 <==> from >= upto);
    if upto <= size {
        lemma_erasures_counted(offset + from, offset + upto, offset + size, k);
    }
}

} // verus!

use vstd::prelude::*;

use crate::bank::Bank;
use crate::convergence::changed_count;
use crate::diagn::{Diagnostic, Report};
use crate::resolver::{
    resolve_addr, step_diagnostics, step_result, stepped_address, with_address, AddrDirective,
    AstDirectiveAddr, ItemDefs, ResolutionState, ResolverContext,
};
use crate::value::Value;

verus! {

/// The addresses held by `ds`, in order.
pub open spec fn addresses(ds: Seq<AddrDirective>) -> Seq<int> {
    ds.map_values(|d: AddrDirective| d.address as int)
}

/// What step `i` of a pass returns.
pub open spec fn pass_step(
    values: Seq<Result<Value, ()>>,
    dirs: Seq<AddrDirective>,
    banks: Seq<Bank>,
    last: bool,
    i: int,
) -> Result<ResolutionState, ()> {
    step_result(values[i], dirs[i].address, banks[dirs[i].bank_ref as int], last)
}

/// The diagnostics recorded by the first `k` steps of a pass.
pub open spec fn pass_diagnostics(
    asts: Seq<AstDirectiveAddr>,
    values: Seq<Result<Value, ()>>,
    dirs: Seq<AddrDirective>,
    banks: Seq<Bank>,
    last: bool,
    k: int,
) -> Seq<Diagnostic>
    decreases k,
{
    if k <= 0 {
        seq![]
    } else {
        pass_diagnostics(asts, values, dirs, banks, last, k - 1) + step_diagnostics(
            values[k - 1],
            dirs[k - 1].address,
            banks[dirs[k - 1].bank_ref as int],
            last,
            asts[k - 1].span,
        )
    }
}

/// The directives after the first `k` steps of a pass.
pub open spec fn pass_directives(values: Seq<Result<Value, ()>>, dirs: Seq<AddrDirective>, k: int) -> Seq<
    AddrDirective,
> {
    Seq::new(
        dirs.len(),
        |i: int|
            if i < k {
                with_address(dirs[i], stepped_address(values[i], dirs[i].address))
            } else {
                dirs[i]
            },
    )
}

/// Runs one resolution pass: resolves every address directive once, in
/// order, each against its own bank, with `values[i]` the evaluation of
/// directive `i` against the addresses of the previous pass.
///
/// Returns how many directives changed their address (were `Unresolved`), or
/// `Err` as soon as a step aborts; the steps before it have then taken effect,
/// and the rest have not run.
pub fn resolve_pass(
    report: &mut Report,
    asts: &Vec<AstDirectiveAddr>,
    values: &Vec<Result<Value, ()>>,
    defs: &mut ItemDefs,
    is_last_iteration: bool,
) -> (r: Result<usize, ()>)
    requires
        asts@.len() == old(defs).addr_directives@.len(),
        values@.len() == asts@.len(),
        forall|i: int| 0 <= i < asts@.len() ==> (#[trigger] asts@[i]).item_ref == i,
        forall|i: int|
            0 <= i < old(defs).addr_directives@.len() ==> (#[trigger] old(
                defs,
            ).addr_directives@[i]).bank_ref < old(defs).bankdefs@.len(),
    ensures
        final(defs).bankdefs@ == old(defs).bankdefs@,
        r is Ok <==> forall|i: int|
            0 <= i < asts@.len() ==> (#[trigger] pass_step(
                values@,
                old(defs).addr_directives@,
                old(defs).bankdefs@,
                is_last_iteration,
                i,
            )) is Ok,
        r is Ok ==> {
            &&& final(defs).addr_directives@ == pass_directives(
                values@,
                old(defs).addr_directives@,
                asts@.len() as int,
            )
            &&& r.unwrap() == changed_count(
                addresses(old(defs).addr_directives@),
                addresses(final(defs).addr_directives@),
            )
            &&& final(report)@ == old(report)@ + pass_diagnostics(
                asts@,
                values@,
                old(defs).addr_directives@,
                old(defs).bankdefs@,
                is_last_iteration,
                asts@.len() as int,
            )
        },
        r is Err ==> exists|k: int|
            0 <= k < asts@.len() && (#[trigger] pass_step(
                values@,
                old(defs).addr_directives@,
                old(defs).bankdefs@,
                is_last_iteration,
                k,
            )) is Err && (forall|j: int|
                0 <= j < k ==> (#[trigger] pass_step(
                    values@,
                    old(defs).addr_directives@,
                    old(defs).bankdefs@,
                    is_last_iteration,
                    j,
                )) is Ok) && final(defs).addr_directives@ == pass_directives(
                values@,
                old(defs).addr_directives@,
                k + 1,
            ) && final(report)@ == old(report)@ + pass_diagnostics(
                asts@,
                values@,
                old(defs).addr_directives@,
                old(defs).bankdefs@,
                is_last_iteration,
                k + 1,
            ),
{
    let ghost dirs0 = defs.addr_directives@;
    let ghost banks = defs.bankdefs@;
    let ghost report0 = report@;
    let n = asts.len();
    let mut count: usize = 0;
    let mut i: usize = 0;
    assert(defs.addr_directives@ =~= pass_directives(values@, dirs0, 0));
    assert(report@ =~= report0 + pass_diagnostics(asts@, values@, dirs0, banks, is_last_iteration, 0));
    while i < n
        invariant
            dirs0 == old(defs).addr_directives@,
            banks == old(defs).bankdefs@,
            report0 == old(report)@,
            n == asts@.len(),
            n == dirs0.len(),
            values@.len() == n,
            i <= n,
            count <= i,
            forall|k: int| 0 <= k < n ==> (#[trigger] asts@[k]).item_ref == k,
            forall|k: int| 0 <= k < n ==> (#[trigger] dirs0[k]).bank_ref < banks.len(),
            defs.bankdefs@ == banks,
            defs.addr_directives@ == pass_directives(values@, dirs0, i as int),
            report@ == report0 + pass_diagnostics(asts@, values@, dirs0, banks, is_last_iteration, i as int),
            forall|j: int|
                0 <= j < i ==> (#[trigger] pass_step(values@, dirs0, banks, is_last_iteration, j)) is Ok,
            count == changed_count(
                addresses(dirs0).take(i as int),
                addresses(defs.addr_directives@).take(i as int),
            ),
        decreases n - i,
    {
        let ghost before = defs.addr_directives@;
        let ctx = ResolverContext {
            is_last_iteration,
            bank_ref: defs.addr_directives[i].bank_ref,
        };
        assert(asts@[i as int].item_ref == i);
        let step = resolve_addr(report, &asts[i], values[i], defs, &ctx);
        let ghost next = defs.addr_directives@;
        assert(next =~= pass_directives(values@, dirs0, i + 1));
        match step {
            Err(()) => {
                assert(pass_step(values@, dirs0, banks, is_last_iteration, i as int) is Err);
                return Err(());
            },
            Ok(state) => {
                let ghost a = addresses(dirs0);
                let ghost b = addresses(next);
                assert(a.take(i + 1).drop_last() =~= a.take(i as int));
                assert(b.take(i + 1).drop_last() =~= b.take(i as int));
                assert(addresses(before).take(i as int) =~= b.take(i as int));
                if state == ResolutionState::Unresolved {
                    count = count + 1;
                }
            },
        }
        i = i + 1;
    }
    assert(addresses(dirs0).take(n as int) =~= addresses(dirs0));
    assert(addresses(defs.addr_directives@).take(n as int) =~= addresses(defs.addr_directives@));
    Ok(count)
}

/// The kind of pass the driver runs.
#[derive(Clone, Copy, Debug, PartialEq, Eq, Structural)]
pub enum PassPhase {
    /// Looking for the fixed point: changes are expected and not reported.
    Searching,
    /// The single last pass: changes are reported and banks are checked.
    Final,
}

/// What the driver decides after a pass.
#[derive(Clone, Copy, Debug, PartialEq, Eq, Structural)]
pub enum NextStep {
    /// Run another searching pass.
    Search,
    /// Run the last pass.
    Final,
    /// Resolution is complete and every address converged.
    Succeeded,
    /// Resolution failed; the report says why.
    Failed,
}

/// The decision after pass number `pass_number` (counting from one), run in
/// `phase` under a budget of `max_passes` searching passes, whose outcome
/// was `outcome` (the number of unresolved directives, or an abort).
pub open spec fn next_step(phase: PassPhase, pass_number: int, max_passes: int, outcome: Result<usize, ()>) -> NextStep {
    match outcome {
        Err(_) => NextStep::Failed,
        Ok(unresolved) => match phase {
            PassPhase::Final => if unresolved == 0 {
                NextStep::Succeeded
            } else {
                NextStep::Failed
            },
            PassPhase::Searching => if unresolved > 0 && pass_number < max_passes {
                NextStep::Search
            } else {
                NextStep::Final
            },
        },
    }
}

/// Sequences resolution passes: searching passes while directives remain
/// unresolved and the budget lasts, then exactly one final pass.
pub struct Driver {
    pub max_passes: usize,
    pub passes_done: usize,
    pub phase: PassPhase,
    pub finished: bool,
}

impl Driver {
    pub fn new(max_passes: usize) -> (r: Driver)
        ensures
            r.max_passes == max_passes,
            r.passes_done == 0,
            r.phase == PassPhase::Searching,
            !r.finished,
    {
        Driver { max_passes, passes_done: 0, phase: PassPhase::Searching, finished: false }
    }

    /// Whether the pass about to run is the last one.
    pub fn is_last_iteration(&self) -> (r: bool)
        ensures
            r == (self.phase == PassPhase::Final),
    {
        self.phase == PassPhase::Final
    }

    /// Records the outcome of the pass just run and decides what follows.
    pub fn after_pass(&mut self, outcome: Result<usize, ()>) -> (r: NextStep)
        requires
            !old(self).finished,
            old(self).passes_done < usize::MAX,
        ensures
            r == next_step(old(self).phase, old(self).passes_done + 1, old(self).max_passes as int, outcome),
            final(self).max_passes == old(self).max_passes,
            final(self).passes_done == old(self).passes_done + 1,
            final(self).phase == (if r == NextStep::Final {
                PassPhase::Final
            } else {
                old(self).phase
            }),
            final(self).finished == (r == NextStep::Succeeded || r == NextStep::Failed),
    {
        self.passes_done = self.passes_done + 1;
        let next = match outcome {
            Err(()) => NextStep::Failed,
            Ok(unresolved) => match self.phase {
                PassPhase::Final => if unresolved == 0 {
                    NextStep::Succeeded
                } else {
                    NextStep::Failed
                },
                PassPhase::Searching => if unresolved > 0 && self.passes_done < self.max_passes {
                    NextStep::Search
                } else {
                    NextStep::Final
                },
            },
        };
        if next == NextStep::Final {
            self.phase = PassPhase::Final;
        }
        if next == NextStep::Succeeded || next == NextStep::Failed {
            self.finished = true;
        }
        next
    }
}

/// Resolution succeeds only after a final pass: the final pass is never
/// skipped, even when a searching pass already saw no change. A searching pass
/// that finds nothing unresolved, or exhausts the budget, leads to the final
/// pass, and an abort ends resolution at once.
pub proof fn lemma_final_pass_always_runs(phase: PassPhase, pass_number: int, max_passes: int, outcome: Result<usize, ()>)
    ensures
        next_step(phase, pass_number, max_passes, outcome) == NextStep::Succeeded ==> phase == PassPhase::Final,
        phase == PassPhase::Searching && outcome == Ok::<usize, ()>(0) ==> next_step(
            phase,
            pass_number,
            max_passes,
            outcome,
        ) == NextStep::Final,
        phase == PassPhase::Searching && outcome is Ok && pass_number >= max_passes ==> next_step(
            phase,
            pass_number,
            max_passes,
            outcome,
        ) == NextStep::Final,
        outcome is Err ==> next_step(phase, pass_number, max_passes, outcome) == NextStep::Failed,
{
}

} // verus!

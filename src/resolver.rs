use vstd::prelude::*;

use crate::bank::{bank_range_error, check_bank_range, Bank};
use crate::diagn::{diagnostic, Diagnostic, Message, Report, Span};
use crate::value::{integer_or_zero, is_error_or_integer, Value};

verus! {

/// The outcome of one resolution step that did not abort.
#[derive(Clone, Copy, Debug, PartialEq, Eq, Structural)]
pub enum ResolutionState {
    /// The value is the same as on the previous pass.
    Resolved,
    /// The value changed: another pass is needed.
    Unresolved,
}

/// The recorded state of one address directive.
#[derive(Clone, Copy, Debug, PartialEq, Eq)]
pub struct AddrDirective {
    /// The address computed on the latest pass.
    pub address: i128,
    /// The bank the directive belongs to.
    pub bank_ref: usize,
}

/// The definition table: every address directive and every bank of the unit,
/// each addressed by its index.
pub struct ItemDefs {
    pub addr_directives: Vec<AddrDirective>,
    pub bankdefs: Vec<Bank>,
}

/// What one resolution step knows of the pass it runs in.
#[derive(Clone, Copy, Debug, PartialEq, Eq)]
pub struct ResolverContext {
    pub is_last_iteration: bool,
    pub bank_ref: usize,
}

/// The syntax of an address directive: which definition it fills, and where
/// its address expression stands in the source.
#[derive(Clone, Copy, Debug, PartialEq, Eq)]
pub struct AstDirectiveAddr {
    pub item_ref: usize,
    pub span: Span,
}

/// The address a directive holds after one step, given what its expression
/// evaluated to and the address it held before.
pub open spec fn stepped_address(value: Result<Value, ()>, prev: i128) -> i128 {
    match value {
        Ok(v) => if is_error_or_integer(v) {
            integer_or_zero(v)
        } else {
            prev
        },
        Err(_) => prev,
    }
}

/// What one step returns.
pub open spec fn step_result(value: Result<Value, ()>, prev: i128, bank: Bank, last: bool) -> Result<ResolutionState, ()> {
    match value {
        Err(_) => Err(()),
        Ok(v) => if !is_error_or_integer(v) {
            Err(())
        } else if integer_or_zero(v) != prev {
            Ok(ResolutionState::Unresolved)
        } else if last && bank_range_error(prev as int, bank).is_some() {
            Err(())
        } else {
            Ok(ResolutionState::Resolved)
        },
    }
}

/// The diagnostics that one step records, in order.
pub open spec fn step_diagnostics(
    value: Result<Value, ()>,
    prev: i128,
    bank: Bank,
    last: bool,
    span: Span,
) -> Seq<Diagnostic> {
    match value {
        Err(_) => seq![],
        Ok(v) => if !is_error_or_integer(v) {
            seq![diagnostic(Message::ExpectedInteger, Some(span))]
        } else if integer_or_zero(v) != prev {
            if last {
                seq![diagnostic(Message::AddressDidNotConverge, Some(span))]
            } else {
                seq![]
            }
        } else if last && bank_range_error(prev as int, bank).is_some() {
            seq![diagnostic(bank_range_error(prev as int, bank).unwrap(), Some(span))]
        } else {
            seq![]
        },
    }
}

/// `d` with its address replaced.
pub open spec fn with_address(d: AddrDirective, address: i128) -> AddrDirective {
    AddrDirective { address, bank_ref: d.bank_ref }
}

/// One resolution step for an address directive.
///
/// `value` is what the directive's expression evaluated to against the
/// addresses of the previous pass (`Err` when evaluation failed, already
/// diagnosed). The new address is recorded whenever the value is an integer
/// or a sentinel (which counts as zero). A changed address is `Unresolved`,
/// and on the last pass also reported as not converging. An unchanged address
/// is `Resolved`; on the last pass it must first pass the bank-range check,
/// and a failure there is reported and aborts.
pub fn resolve_addr(
    report: &mut Report,
    ast_addr: &AstDirectiveAddr,
    value: Result<Value, ()>,
    defs: &mut ItemDefs,
    ctx: &ResolverContext,
) -> (r: Result<ResolutionState, ()>)
    requires
        ast_addr.item_ref < old(defs).addr_directives@.len(),
        ctx.bank_ref < old(defs).bankdefs@.len(),
    ensures
        r == step_result(
            value,
            old(defs).addr_directives@[ast_addr.item_ref as int].address,
            old(defs).bankdefs@[ctx.bank_ref as int],
            ctx.is_last_iteration,
        ),
        final(report)@ == old(report)@ + step_diagnostics(
            value,
            old(defs).addr_directives@[ast_addr.item_ref as int].address,
            old(defs).bankdefs@[ctx.bank_ref as int],
            ctx.is_last_iteration,
            ast_addr.span,
        ),
        final(defs).bankdefs@ == old(defs).bankdefs@,
        final(defs).addr_directives@ == old(defs).addr_directives@.update(
            ast_addr.item_ref as int,
            with_address(
                old(defs).addr_directives@[ast_addr.item_ref as int],
                stepped_address(value, old(defs).addr_directives@[ast_addr.item_ref as int].address),
            ),
        ),
{
    let item_ref = ast_addr.item_ref;
    let value = match value {
        Ok(v) => v,
        Err(()) => {
            assert(old(defs).addr_directives@.update(item_ref as int, old(defs).addr_directives@[item_ref as int])
                =~= old(defs).addr_directives@);
            assert(old(report)@ + seq![] =~= old(report)@);
            return Err(());
        },
    };
    let value = match value.expect_error_or_bigint(report, ast_addr.span) {
        Ok(v) => v,
        Err(()) => {
            assert(old(defs).addr_directives@.update(item_ref as int, old(defs).addr_directives@[item_ref as int])
                =~= old(defs).addr_directives@);
            return Err(());
        },
    };
    let value = value.integer_or_zero();

    let prev = defs.addr_directives[item_ref];
    defs.addr_directives[item_ref] = AddrDirective { address: value, bank_ref: prev.bank_ref };

    if value != prev.address {
        // On the last pass an address that still moves is an error.
        if ctx.is_last_iteration {
            report.error_span(Message::AddressDidNotConverge, ast_addr.span);
        }
        return Ok(ResolutionState::Unresolved);
    }

    if ctx.is_last_iteration {
        let bank = &defs.bankdefs[ctx.bank_ref];
        match check_bank_range(value, bank) {
            Some(message) => {
                report.error_span(message, ast_addr.span);
                return Err(());
            },
            None => {},
        }
    }
    Ok(ResolutionState::Resolved)
}

/// Once a step reports `Resolved`, it left the address as it was, and running
/// it again on the same value reports `Resolved` again and still keeps it.
pub proof fn lemma_resolved_is_stable(value: Result<Value, ()>, prev: i128, bank: Bank, last: bool)
    requires
        step_result(value, prev, bank, last) == Ok::<ResolutionState, ()>(ResolutionState::Resolved),
    ensures
        stepped_address(value, prev) == prev,
        step_result(value, stepped_address(value, prev), bank, last) == Ok::<ResolutionState, ()>(
            ResolutionState::Resolved,
        ),
        stepped_address(value, stepped_address(value, prev)) == prev,
{
}

/// A step whose address still changes reports `Unresolved` on every pass; on
/// the last pass it records exactly one non-convergence diagnostic, and on any
/// other pass none.
pub proof fn lemma_last_pass_strictness(value: Result<Value, ()>, prev: i128, bank: Bank, span: Span)
    requires
        stepped_address(value, prev) != prev,
    ensures
        step_result(value, prev, bank, true) == Ok::<ResolutionState, ()>(ResolutionState::Unresolved),
        step_result(value, prev, bank, false) == Ok::<ResolutionState, ()>(ResolutionState::Unresolved),
        step_diagnostics(value, prev, bank, true, span) == seq![
            diagnostic(Message::AddressDidNotConverge, Some(span)),
        ],
        step_diagnostics(value, prev, bank, false, span) == Seq::<Diagnostic>::empty(),
{
}

} // verus!

use customasm::bank::{check_bank_range, Bank};
use customasm::diagn::{Message, Report, Span};
use customasm::driver::{resolve_pass, Driver, NextStep, PassPhase};
use customasm::resolver::{
    resolve_addr, AddrDirective, AstDirectiveAddr, ItemDefs, ResolutionState, ResolverContext,
};
use customasm::value::Value;

fn span() -> Span {
    Span { file_handle: 0, start: 4, end: 10 }
}

fn standard_bank() -> Bank {
    Bank { addr_start: 0x8000, addr_unit: 1, size: Some(0x4000) }
}

fn one_directive(bank: Bank, address: i128) -> ItemDefs {
    ItemDefs {
        addr_directives: vec![AddrDirective { address, bank_ref: 0 }],
        bankdefs: vec![bank],
    }
}

fn ast() -> AstDirectiveAddr {
    AstDirectiveAddr { item_ref: 0, span: span() }
}

fn ctx(last: bool) -> ResolverContext {
    ResolverContext { is_last_iteration: last, bank_ref: 0 }
}

fn is_out_of_bank_range(report: &Report) -> bool {
    report.len() == 1 && matches!(report.get(0).message, Message::AddressOutOfBankRange)
}

#[test]
fn converging_sequence_resolves_on_final_pass() {
    let mut defs = one_directive(standard_bank(), 0);
    let mut report = Report::new();
    let r1 = resolve_addr(&mut report, &ast(), Ok(Value::Integer(0x8010)), &mut defs, &ctx(false));
    assert_eq!(r1, Ok(ResolutionState::Unresolved));
    let r2 = resolve_addr(&mut report, &ast(), Ok(Value::Integer(0x8020)), &mut defs, &ctx(false));
    assert_eq!(r2, Ok(ResolutionState::Unresolved));
    let r3 = resolve_addr(&mut report, &ast(), Ok(Value::Integer(0x8020)), &mut defs, &ctx(true));
    assert_eq!(r3, Ok(ResolutionState::Resolved));
    assert_eq!(report.len(), 0);
    assert_eq!(defs.addr_directives[0].address, 0x8020);
}

#[test]
fn address_below_bank_start_fails() {
    let mut defs = one_directive(standard_bank(), 0x7FFF);
    let mut report = Report::new();
    let r = resolve_addr(&mut report, &ast(), Ok(Value::Integer(0x7FFF)), &mut defs, &ctx(true));
    assert_eq!(r, Err(()));
    assert!(is_out_of_bank_range(&report));
    assert_eq!(report.get(0).span, Some(span()));
}

#[test]
fn address_at_bank_end_fails() {
    let mut defs = one_directive(standard_bank(), 0xC000);
    let mut report = Report::new();
    let r = resolve_addr(&mut report, &ast(), Ok(Value::Integer(0xC000)), &mut defs, &ctx(true));
    assert_eq!(r, Err(()));
    assert!(is_out_of_bank_range(&report));
}

#[test]
fn bank_boundaries() {
    let bank = standard_bank();
    assert!(check_bank_range(0x8000, &bank).is_none());
    assert!(matches!(check_bank_range(0x7FFF, &bank), Some(Message::AddressOutOfBankRange)));
    assert!(check_bank_range(0xBFFF, &bank).is_none());
    assert!(matches!(check_bank_range(0xC000, &bank), Some(Message::AddressOutOfBankRange)));
}

#[test]
fn bank_boundaries_with_scaled_unit() {
    let bank = Bank { addr_start: 0x100, addr_unit: 8, size: Some(64) };
    assert!(check_bank_range(0x107, &bank).is_none());
    assert!(matches!(check_bank_range(0x108, &bank), Some(Message::AddressOutOfBankRange)));
}

#[test]
fn unbounded_bank_accepts_large_offsets() {
    let bank = Bank { addr_start: -5, addr_unit: 1, size: None };
    assert!(check_bank_range(usize::MAX as i128 - 5, &bank).is_none());
}

#[test]
fn offset_past_native_size_is_out_of_supported_range() {
    let bank = Bank { addr_start: 0, addr_unit: 1, size: None };
    let too_far = usize::MAX as i128 + 1;
    assert!(matches!(check_bank_range(too_far, &bank), Some(Message::ValueOutOfSupportedRange)));
    let scaled = Bank { addr_start: 0, addr_unit: 2, size: None };
    let half = (usize::MAX / 2) as i128 + 1;
    assert!(matches!(check_bank_range(half, &scaled), Some(Message::ValueOutOfSupportedRange)));
    let extreme = Bank { addr_start: i128::MIN, addr_unit: 1, size: None };
    assert!(matches!(check_bank_range(i128::MAX, &extreme), Some(Message::ValueOutOfSupportedRange)));
}

#[test]
fn offset_overflow_fails_resolution() {
    let bank = Bank { addr_start: 0, addr_unit: 4, size: None };
    let addr = (usize::MAX / 2) as i128;
    let mut defs = one_directive(bank, addr);
    let mut report = Report::new();
    let r = resolve_addr(&mut report, &ast(), Ok(Value::Integer(addr)), &mut defs, &ctx(true));
    assert_eq!(r, Err(()));
    assert_eq!(report.len(), 1);
    assert!(matches!(report.get(0).message, Message::ValueOutOfSupportedRange));
}

#[test]
fn changing_value_reports_only_on_last_pass() {
    let mut defs = one_directive(standard_bank(), 0x8000);
    let mut report = Report::new();
    let r = resolve_addr(&mut report, &ast(), Ok(Value::Integer(0x8004)), &mut defs, &ctx(false));
    assert_eq!(r, Ok(ResolutionState::Unresolved));
    assert_eq!(report.len(), 0);

    let mut defs = one_directive(standard_bank(), 0x8000);
    let r = resolve_addr(&mut report, &ast(), Ok(Value::Integer(0x8004)), &mut defs, &ctx(true));
    assert_eq!(r, Ok(ResolutionState::Unresolved));
    assert_eq!(report.len(), 1);
    assert!(matches!(report.get(0).message, Message::AddressDidNotConverge));
    assert_eq!(defs.addr_directives[0].address, 0x8004);
}

#[test]
fn resolved_stays_resolved() {
    let mut defs = one_directive(standard_bank(), 0x8100);
    let mut report = Report::new();
    for _ in 0..3 {
        let r = resolve_addr(&mut report, &ast(), Ok(Value::Integer(0x8100)), &mut defs, &ctx(false));
        assert_eq!(r, Ok(ResolutionState::Resolved));
        assert_eq!(defs.addr_directives[0].address, 0x8100);
    }
    assert_eq!(report.len(), 0);
}

#[test]
fn sentinel_counts_as_zero() {
    let mut defs = one_directive(standard_bank(), 0x8000);
    let mut report = Report::new();
    let r = resolve_addr(&mut report, &ast(), Ok(Value::FailedConstraint), &mut defs, &ctx(false));
    assert_eq!(r, Ok(ResolutionState::Unresolved));
    assert_eq!(defs.addr_directives[0].address, 0);
    let r = resolve_addr(&mut report, &ast(), Ok(Value::Unknown), &mut defs, &ctx(false));
    assert_eq!(r, Ok(ResolutionState::Resolved));
    assert_eq!(report.len(), 0);
}

#[test]
fn non_integer_value_is_fatal() {
    let mut defs = one_directive(standard_bank(), 0x8000);
    let mut report = Report::new();
    let r = resolve_addr(&mut report, &ast(), Ok(Value::Bool(true)), &mut defs, &ctx(false));
    assert_eq!(r, Err(()));
    assert_eq!(report.len(), 1);
    assert!(matches!(report.get(0).message, Message::ExpectedInteger));
    assert_eq!(defs.addr_directives[0].address, 0x8000);
}

#[test]
fn evaluation_failure_is_fatal_and_silent() {
    let mut defs = one_directive(standard_bank(), 0x8000);
    let mut report = Report::new();
    let r = resolve_addr(&mut report, &ast(), Err(()), &mut defs, &ctx(true));
    assert_eq!(r, Err(()));
    assert_eq!(report.len(), 0);
    assert_eq!(defs.addr_directives[0].address, 0x8000);
}

/// Directive 0 sits at 0x8000, directive 1 four units after directive 0,
/// directive 2 two units after directive 1: no circular dependency.
fn evaluate(defs: &ItemDefs) -> Vec<Result<Value, ()>> {
    let a = &defs.addr_directives;
    vec![
        Ok(Value::Integer(0x8000)),
        Ok(Value::Integer(a[0].address + 4)),
        Ok(Value::Integer(a[1].address + 2)),
    ]
}

#[test]
fn chained_directives_converge() {
    let mut defs = ItemDefs {
        addr_directives: vec![
            AddrDirective { address: 0, bank_ref: 0 },
            AddrDirective { address: 0, bank_ref: 0 },
            AddrDirective { address: 0, bank_ref: 0 },
        ],
        bankdefs: vec![standard_bank()],
    };
    let asts: Vec<AstDirectiveAddr> =
        (0..3).map(|i| AstDirectiveAddr { item_ref: i, span: span() }).collect();
    let mut report = Report::new();
    let mut driver = Driver::new(10);
    let mut counts = Vec::new();
    let outcome = loop {
        let values = evaluate(&defs);
        let last = driver.is_last_iteration();
        let r = resolve_pass(&mut report, &asts, &values, &mut defs, last);
        if let Ok(c) = r {
            counts.push(c);
        }
        match driver.after_pass(r) {
            NextStep::Search | NextStep::Final => {},
            done => break done,
        }
    };
    assert_eq!(outcome, NextStep::Succeeded);
    assert_eq!(counts, vec![3, 2, 1, 0, 0]);
    assert_eq!(report.len(), 0);
    let addrs: Vec<i128> = defs.addr_directives.iter().map(|d| d.address).collect();
    assert_eq!(addrs, vec![0x8000, 0x8004, 0x8006]);
}

#[test]
fn pass_reports_every_unstable_directive_on_final_pass() {
    let mut defs = ItemDefs {
        addr_directives: vec![
            AddrDirective { address: 0x8000, bank_ref: 0 },
            AddrDirective { address: 0x8001, bank_ref: 0 },
        ],
        bankdefs: vec![standard_bank()],
    };
    let asts = vec![
        AstDirectiveAddr { item_ref: 0, span: span() },
        AstDirectiveAddr { item_ref: 1, span: span() },
    ];
    let values = vec![Ok(Value::Integer(0x8002)), Ok(Value::Integer(0x8003))];
    let mut report = Report::new();
    let r = resolve_pass(&mut report, &asts, &values, &mut defs, true);
    assert_eq!(r, Ok(2));
    assert_eq!(report.len(), 2);
    assert!(matches!(report.get(1).message, Message::AddressDidNotConverge));
}

#[test]
fn pass_stops_at_first_fatal_step() {
    let mut defs = ItemDefs {
        addr_directives: vec![
            AddrDirective { address: 0x7000, bank_ref: 0 },
            AddrDirective { address: 0x8000, bank_ref: 0 },
        ],
        bankdefs: vec![standard_bank()],
    };
    let asts = vec![
        AstDirectiveAddr { item_ref: 0, span: span() },
        AstDirectiveAddr { item_ref: 1, span: span() },
    ];
    let values = vec![Ok(Value::Integer(0x7000)), Ok(Value::Integer(0x8005))];
    let mut report = Report::new();
    let r = resolve_pass(&mut report, &asts, &values, &mut defs, true);
    assert_eq!(r, Err(()));
    assert!(is_out_of_bank_range(&report));
    assert_eq!(defs.addr_directives[1].address, 0x8000);
}

#[test]
fn driver_runs_final_pass_after_budget() {
    let mut driver = Driver::new(2);
    assert!(!driver.is_last_iteration());
    assert_eq!(driver.after_pass(Ok(4)), NextStep::Search);
    assert_eq!(driver.after_pass(Ok(1)), NextStep::Final);
    assert!(driver.is_last_iteration());
    assert_eq!(driver.phase, PassPhase::Final);
    assert_eq!(driver.after_pass(Ok(1)), NextStep::Failed);
    assert!(driver.finished);
}

#[test]
fn driver_runs_final_pass_after_early_convergence() {
    let mut driver = Driver::new(100);
    assert_eq!(driver.after_pass(Ok(0)), NextStep::Final);
    assert_eq!(driver.after_pass(Ok(0)), NextStep::Succeeded);
    let mut aborted = Driver::new(100);
    assert_eq!(aborted.after_pass(Err(())), NextStep::Failed);
}

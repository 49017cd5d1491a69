use vstd::prelude::*;

use crate::diagn::Message;

verus! {

/// A named address space: where it starts, how many storage units one
/// address step covers, and optionally how many storage units it holds.
#[derive(Clone, Copy, Debug, PartialEq, Eq)]
pub struct Bank {
    pub addr_start: i128,
    pub addr_unit: usize,
    pub size: Option<usize>,
}

/// The storage offset of `addr` within `bank`: the address distance from the
/// bank's start, scaled by its addressing unit.
pub open spec fn scaled_offset(addr: int, bank: Bank) -> int {
    (addr - bank.addr_start) * bank.addr_unit
}

/// Why a final address is rejected by its bank, if it is.
pub open spec fn bank_range_error(addr: int, bank: Bank) -> Option<Message> {
    if addr < bank.addr_start {
        Some(Message::AddressOutOfBankRange)
    } else if scaled_offset(addr, bank) > usize::MAX {
        Some(Message::ValueOutOfSupportedRange)
    } else if bank.size.is_some() && scaled_offset(addr, bank) >= bank.size.unwrap() {
        Some(Message::AddressOutOfBankRange)
    } else {
        None
    }
}

/// The distance from `start` up to `addr`, which is never negative here.
fn distance(addr: i128, start: i128) -> (r: u128)
    requires
        start <= addr,
    ensures
        r == addr - start,
{
    if start >= 0 || addr < 0 {
        (addr - start) as u128
    } else {
        addr as u128 + (-(start + 1)) as u128 + 1
    }
}

/// Checks a final address against its bank: it must not precede the bank's
/// start, its scaled offset must fit a `usize`, and that offset must be below
/// the bank's size when the bank has one.
pub fn check_bank_range(addr: i128, bank: &Bank) -> (r: Option<Message>)
    ensures
        r == bank_range_error(addr as int, *bank),
{
    if addr < bank.addr_start {
        return Some(Message::AddressOutOfBankRange);
    }
    let offset = distance(addr, bank.addr_start);
    let delta: Option<usize> = if bank.addr_unit == 0 {
        Some(0)
    } else if offset > usize::MAX as u128 {
        proof {
            let o = offset as int;
            let u = bank.addr_unit as int;
            assert(o * u >= o) by (nonlinear_arith)
                requires u >= 1, o >= 0;
        }
        None
    } else {
        (offset as usize).checked_mul(bank.addr_unit)
    };
    match delta {
        None => Some(Message::ValueOutOfSupportedRange),
        Some(delta) => {
            match bank.size {
                Some(size) => {
                    if delta >= size {
                        Some(Message::AddressOutOfBankRange)
                    } else {
                        None
                    }
                },
                None => None,
            }
        },
    }
}

/// An address equal to the bank's start is accepted, unless the bank has a
/// size of zero; the address one below the start is out of bank range.
pub proof fn lemma_bank_start_boundary(bank: Bank)
    requires
        bank.size != Some(0usize),
    ensures
        bank_range_error(bank.addr_start as int, bank) is None,
        bank_range_error(bank.addr_start - 1, bank) == Some(Message::AddressOutOfBankRange),
{
    assert(scaled_offset(bank.addr_start as int, bank) == 0);
}

/// In a bank with a size, an address whose scaled offset equals the size is
/// out of bank range, and one whose scaled offset is one below the size is
/// accepted.
pub proof fn lemma_bank_end_boundary(addr: int, bank: Bank)
    requires
        bank.addr_start <= addr,
        bank.size is Some,
    ensures
        scaled_offset(addr, bank) == bank.size.unwrap() ==> bank_range_error(addr, bank) == Some(
            Message::AddressOutOfBankRange,
        ),
        scaled_offset(addr, bank) == bank.size.unwrap() - 1 ==> bank_range_error(addr, bank) is None,
{
}

/// An address at or past the bank's start whose scaled offset exceeds what a
/// `usize` holds is rejected as out of supported range, never wrapped.
pub proof fn lemma_offset_overflow(addr: int, bank: Bank)
    requires
        bank.addr_start <= addr,
        scaled_offset(addr, bank) > usize::MAX,
    ensures
        bank_range_error(addr, bank) == Some(Message::ValueOutOfSupportedRange),
{
}

} // verus!

//! The investor's daily decision, and its one-line text form.
use crate::bank::Bank;
use crate::decimal::{amount_of, decimal_parts, parse_amount};
use crate::market::Market;
use crate::settlement::Repository;
use vstd::prelude::*;
use vstd::string::StringSliceAdditionalSpecFns;
use vstd::utf8::is_char_boundary;

verus! {

/// What to do on a trading day.
#[derive(Clone, Copy, Debug, PartialEq, Eq, Structural)]
pub enum Plan {
    /// Buy for this amount of money.
    Buy(u64),
    /// Sell this many shares.
    Sell(u64),
    Pass,
}

/// Chooses each day's plan from what the market, the bank and the
/// repository show.
pub trait Strategy {
    fn make_decision(&mut self, market: &Market, bank: &Bank, repository: &Repository) -> Plan;
}

pub open spec fn is_space(b: u8) -> bool {
    b == 0x20 || b == 0x09 || b == 0x0a || b == 0x0c || b == 0x0d
}

/// The plan that a line spells: `p` passes, `i` followed by an amount buys
/// for it, `r` followed by a share count sells it. The number is a decimal
/// with no whitespace in it.
pub open spec fn command_of(b: Seq<u8>) -> Option<Plan> {
    if b.len() == 1 && b[0] == 0x70 {
        Some(Plan::Pass)
    } else if b.len() >= 2 && (b[0] == 0x69 || b[0] == 0x72) && is_char_boundary(b, 1)
        && forall|i: int| 1 <= i < b.len() ==> !is_space(#[trigger] b[i]) {
        match amount_of(decimal_parts(b.subrange(1, b.len() as int))) {
            Some(a) => Some(if b[0] == 0x69 { Plan::Buy(a) } else { Plan::Sell(a) }),
            None => None,
        }
    } else {
        None
    }
}

/// Reads a plan from one line of text.
pub fn parse_command(line: &str) -> (r: Option<Plan>)
    ensures
        r == command_of(line.spec_bytes()),
{
    let b = line.as_bytes();
    let n = b.len();
    if n == 1 && b[0] == 0x70 {
        return Some(Plan::Pass);
    }
    if n < 2 || !(b[0] == 0x69 || b[0] == 0x72) || !line.is_char_boundary(1) {
        return None;
    }
    let mut i: usize = 1;
    while i < n
        invariant
            1 <= i <= n,
            n == b@.len(),
            b@ == line.spec_bytes(),
            forall|k: int| 1 <= k < i ==> !is_space(#[trigger] b@[k]),
        decreases n - i,
    {
        let c = b[i];
        if c == 0x20 || c == 0x09 || c == 0x0a || c == 0x0c || c == 0x0d {
            assert(is_space(line.spec_bytes()[i as int]));
            return None;
        }
        i = i + 1;
    }
    let (_, tail) = line.split_at(1);
    assert(tail.spec_bytes() == b@.subrange(1, n as int));
    match parse_amount(tail) {
        Some(a) => Some(if b[0] == 0x69 { Plan::Buy(a) } else { Plan::Sell(a) }),
        None => None,
    }
}

} // verus!

//! The investor's side: answers to balance and quote queries.
use crate::date::Date;
use vstd::prelude::*;

verus! {

/// What the investor is told.
#[derive(Clone, Copy, Debug, PartialEq, Eq, Structural)]
pub enum Message {
    Balance(u64),
    NetAssetValue(u64),
    NextTradeDate(Date),
}

/// The investor, who receives answers to queries.
pub struct Person {}

} // verus!

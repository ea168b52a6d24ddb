//! Decision engine of a bitcoin broker: a ledger of past purchases ordered by
//! buy rate, the fee and margin arithmetic, the greedy selection of purchases
//! worth selling at a given market rate, and the message protocol of the
//! seller that owns the ledger.

pub mod decimal;
pub mod error;
pub mod ledger;
pub mod models;
pub mod seller;

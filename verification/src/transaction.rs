use vstd::prelude::*;
use crate::Chain;

verus! {

/// Mathematical image of a [`Transaction`].
pub struct TransactionModel {
    pub hash: Seq<char>,
    pub timestamp: i64,
    pub transaction_type: Seq<char>,
    pub amount: u64,
    pub token_symbol: Seq<char>,
    pub chain: Chain,
    pub status: Seq<char>,
    pub from: Seq<char>,
    pub to: Seq<char>,
}

/// One historical transfer touching an address.  `status` is
/// `"success"` or `"failed"`; `amount` counts raw base units of the
/// asset named by `token_symbol`.
#[derive(Debug)]
pub struct Transaction {
    pub hash: String,
    pub timestamp: i64,
    pub transaction_type: String,
    pub amount: u64,
    pub token_symbol: String,
    pub chain: Chain,
    pub status: String,
    pub from: String,
    pub to: String,
}

impl View for Transaction {
    type V = TransactionModel;

    open spec fn view(&self) -> TransactionModel {
        TransactionModel {
            hash: self.hash@,
            timestamp: self.timestamp,
            transaction_type: self.transaction_type@,
            amount: self.amount,
            token_symbol: self.token_symbol@,
            chain: self.chain,
            status: self.status@,
            from: self.from@,
            to: self.to@,
        }
    }
}

/// Query parameters of a transaction-history request.
#[derive(Debug)]
pub struct TransactionQuery {
    pub limit: Option<usize>,
}

impl TransactionQuery {
    /// The limit actually applied: the caller's figure, or ten when
    /// none was given.
    pub fn effective_limit(&self) -> (r: usize)
        ensures
            r == match self.limit {
                Some(l) => l,
                None => 10,
            },
    {
        match self.limit {
            Some(l) => l,
            None => 10,
        }
    }
}

impl Clone for Transaction {
    fn clone(&self) -> (r: Self)
        ensures
            r@ == self@,
    {
        Transaction {
            hash: self.hash.clone(),
            timestamp: self.timestamp,
            transaction_type: self.transaction_type.clone(),
            amount: self.amount,
            token_symbol: self.token_symbol.clone(),
            chain: self.chain,
            status: self.status.clone(),
            from: self.from.clone(),
            to: self.to.clone(),
        }
    }
}

} // verus!

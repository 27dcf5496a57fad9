use vstd::prelude::*;
use crate::state::{Cw20Deposits, Deposits};

verus! {

/// The hook intents a fungible-token callback payload can decode to.
#[derive(Debug)]
pub enum Cw20HookMsg {
    Deposit,
}

/// The hook intents a non-fungible-token callback payload can decode to.
#[derive(Debug)]
pub enum Cw721HookMsg {
    Deposit,
}

/// A fungible-token transfer callback, as handed in by the host after
/// decoding. `msg` is `None` when the attached payload did not decode to a
/// known hook intent.
#[derive(Debug)]
pub struct Cw20ReceiveMsg {
    pub sender: String,
    pub amount: u128,
    pub msg: Option<Cw20HookMsg>,
}

/// A non-fungible-token transfer callback, as handed in by the host after
/// decoding. `msg` is `None` when the attached payload did not decode to a
/// known hook intent.
#[derive(Debug)]
pub struct Cw721ReceiveMsg {
    pub sender: String,
    pub token_id: String,
    pub msg: Option<Cw721HookMsg>,
}

/// An outbound transfer instruction, requested by the engine and executed by
/// the host as part of the same atomic unit.
#[derive(Debug)]
pub enum OutMsg {
    /// Send native coins to an address.
    BankSend { to_address: String, amount: u128, denom: String },
    /// Direct a fungible-token contract to transfer tokens to a recipient.
    Cw20Transfer { contract: String, recipient: String, amount: u128 },
    /// Direct a non-fungible-token contract to transfer a token to a recipient.
    Cw721Transfer { contract: String, recipient: String, token_id: String },
}

/// An attribute value: either text or an amount.
#[derive(Debug)]
pub enum AttrValue {
    Text(String),
    Amount(u128),
}

/// A diagnostic key/value pair emitted with a successful operation.
#[derive(Debug)]
pub struct Attribute {
    pub key: String,
    pub value: AttrValue,
}

/// What a successful operation hands back to the host: diagnostic attributes
/// and the outbound transfer instructions to execute.
#[derive(Debug)]
pub struct Response {
    pub attributes: Vec<Attribute>,
    pub messages: Vec<OutMsg>,
}

/// `a` is the text attribute `k: v`.
pub open spec fn attr_is_text(a: Attribute, k: Seq<char>, v: Seq<char>) -> bool {
    &&& a.key@ == k
    &&& a.value matches AttrValue::Text(t) && t@ == v
}

/// `a` is the amount attribute `k: v`.
pub open spec fn attr_is_amount(a: Attribute, k: Seq<char>, v: u128) -> bool {
    &&& a.key@ == k
    &&& a.value == AttrValue::Amount(v)
}

/// All native records of one depositor, in ascending denomination order.
#[derive(Debug)]
pub struct DepositResponse {
    pub deposits: Vec<Deposits>,
}

/// All fungible records of one depositor, in ascending contract order.
#[derive(Debug)]
pub struct Cw20DepositResponse {
    pub deposits: Vec<Cw20Deposits>,
}

} // verus!

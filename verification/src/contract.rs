use vstd::prelude::*;
use crate::error::ContractError;
use crate::msg::{
    attr_is_amount, attr_is_text, AttrValue, Attribute, Cw20HookMsg, Cw20ReceiveMsg, Cw721HookMsg,
    Cw721ReceiveMsg, OutMsg, Response,
};
use crate::msg::{Cw20DepositResponse, DepositResponse};
use crate::state::{
    has_key, lemma_key_of_index, lemma_keyed_push, lemma_keyed_update, rec_at, Coin, Cw20Deposits,
    Cw721Deposits, Deposits, Keyed, Store, LOCK_WINDOW,
};
use crate::strcmp::{lemma_lex_lt_connected, lemma_lex_lt_trans, lex_lt, str_lt};

verus! {

/// A deposit of `amount` to the native record (owner, denom): the record is
/// created with count 1 or grown by checked addition, every other native
/// record is untouched, and the other two families are untouched.
pub open spec fn native_deposited(
    pre: Store,
    post: Store,
    owner: Seq<char>,
    denom: Seq<char>,
    amount: u128,
) -> bool {
    &&& post.fungible@ == pre.fungible@
    &&& post.nonfungible@ == pre.nonfungible@
    &&& post.has_native(owner, denom)
    &&& post.native_at(owner, denom).owner@ == owner
    &&& post.native_at(owner, denom).coins.denom@ == denom
    &&& (if pre.has_native(owner, denom) {
        post.native_at(owner, denom).count == pre.native_at(owner, denom).count + 1
            && post.native_at(owner, denom).coins.amount == pre.native_at(
            owner,
            denom,
        ).coins.amount + amount
    } else {
        post.native_at(owner, denom).count == 1 && post.native_at(owner, denom).coins.amount
            == amount
    })
    &&& forall|k: (Seq<char>, Seq<char>)|
        k != (owner, denom) ==> #[trigger] has_key(post.native@, k) == has_key(pre.native@, k)
    &&& forall|k: (Seq<char>, Seq<char>)|
        k != (owner, denom) && has_key(pre.native@, k) ==> #[trigger] rec_at(post.native@, k)
            == rec_at(pre.native@, k)
}

/// A withdrawal of `amount` from the native record (owner, denom): amount and
/// count shrink by checked subtraction, everything else is untouched.
pub open spec fn native_withdrawn(
    pre: Store,
    post: Store,
    owner: Seq<char>,
    denom: Seq<char>,
    amount: u128,
) -> bool {
    &&& post.fungible@ == pre.fungible@
    &&& post.nonfungible@ == pre.nonfungible@
    &&& pre.has_native(owner, denom)
    &&& post.has_native(owner, denom)
    &&& post.native_at(owner, denom).owner@ == owner
    &&& post.native_at(owner, denom).coins.denom@ == denom
    &&& post.native_at(owner, denom).count == pre.native_at(owner, denom).count - 1
    &&& post.native_at(owner, denom).coins.amount == pre.native_at(owner, denom).coins.amount
        - amount
    &&& forall|k: (Seq<char>, Seq<char>)|
        k != (owner, denom) ==> #[trigger] has_key(post.native@, k) == has_key(pre.native@, k)
    &&& forall|k: (Seq<char>, Seq<char>)|
        k != (owner, denom) && has_key(pre.native@, k) ==> #[trigger] rec_at(post.native@, k)
            == rec_at(pre.native@, k)
}

/// The checked additions of a native deposit to (owner, denom) stay in range.
pub open spec fn native_deposit_fits(
    pre: Store,
    owner: Seq<char>,
    denom: Seq<char>,
    amount: u128,
) -> bool {
    !pre.has_native(owner, denom) || (pre.native_at(owner, denom).coins.amount + amount
        <= u128::MAX && pre.native_at(owner, denom).count + 1 <= u64::MAX)
}

/// A deposit of `amount` at `height` to the fungible record (owner, contract):
/// besides the balance bookkeeping, the time-lock expiry is reset to
/// `height + LOCK_WINDOW` whether or not the record existed before.
pub open spec fn fungible_deposited(
    pre: Store,
    post: Store,
    owner: Seq<char>,
    contract: Seq<char>,
    amount: u128,
    height: u64,
) -> bool {
    &&& post.native@ == pre.native@
    &&& post.nonfungible@ == pre.nonfungible@
    &&& post.has_fungible(owner, contract)
    &&& post.fungible_at(owner, contract).owner@ == owner
    &&& post.fungible_at(owner, contract).contract@ == contract
    &&& post.fungible_at(owner, contract).stake_time == height + LOCK_WINDOW
    &&& (if pre.has_fungible(owner, contract) {
        post.fungible_at(owner, contract).count == pre.fungible_at(owner, contract).count + 1
            && post.fungible_at(owner, contract).amount == pre.fungible_at(owner, contract).amount
            + amount
    } else {
        post.fungible_at(owner, contract).count == 1 && post.fungible_at(owner, contract).amount
            == amount
    })
    &&& forall|k: (Seq<char>, Seq<char>)|
        k != (owner, contract) ==> #[trigger] has_key(post.fungible@, k) == has_key(
            pre.fungible@,
            k,
        )
    &&& forall|k: (Seq<char>, Seq<char>)|
        k != (owner, contract) && has_key(pre.fungible@, k) ==> #[trigger] rec_at(post.fungible@, k)
            == rec_at(pre.fungible@, k)
}

/// The checked additions of a fungible deposit to (owner, contract) stay in
/// range.
pub open spec fn fungible_deposit_fits(
    pre: Store,
    owner: Seq<char>,
    contract: Seq<char>,
    amount: u128,
) -> bool {
    !pre.has_fungible(owner, contract) || (pre.fungible_at(owner, contract).amount + amount
        <= u128::MAX && pre.fungible_at(owner, contract).count + 1 <= u64::MAX)
}

/// A withdrawal of `amount` from the fungible record (owner, contract): the
/// balance bookkeeping shrinks, the time-lock expiry stays as it was.
pub open spec fn fungible_withdrawn(
    pre: Store,
    post: Store,
    owner: Seq<char>,
    contract: Seq<char>,
    amount: u128,
) -> bool {
    &&& post.native@ == pre.native@
    &&& post.nonfungible@ == pre.nonfungible@
    &&& pre.has_fungible(owner, contract)
    &&& post.has_fungible(owner, contract)
    &&& post.fungible_at(owner, contract).owner@ == owner
    &&& post.fungible_at(owner, contract).contract@ == contract
    &&& post.fungible_at(owner, contract).stake_time == pre.fungible_at(owner, contract).stake_time
    &&& post.fungible_at(owner, contract).count == pre.fungible_at(owner, contract).count - 1
    &&& post.fungible_at(owner, contract).amount == pre.fungible_at(owner, contract).amount - amount
    &&& forall|k: (Seq<char>, Seq<char>)|
        k != (owner, contract) ==> #[trigger] has_key(post.fungible@, k) == has_key(
            pre.fungible@,
            k,
        )
    &&& forall|k: (Seq<char>, Seq<char>)|
        k != (owner, contract) && has_key(pre.fungible@, k) ==> #[trigger] rec_at(post.fungible@, k)
            == rec_at(pre.fungible@, k)
}

/// A non-fungible deposit creates or overwrites the custody record for
/// (contract, owner, token_id) and touches nothing else.
pub open spec fn nonfungible_deposited(
    pre: Store,
    post: Store,
    contract: Seq<char>,
    owner: Seq<char>,
    token_id: Seq<char>,
) -> bool {
    &&& post.native@ == pre.native@
    &&& post.fungible@ == pre.fungible@
    &&& post.has_nonfungible(contract, owner, token_id)
    &&& post.nonfungible_at(contract, owner, token_id).contract@ == contract
    &&& post.nonfungible_at(contract, owner, token_id).owner@ == owner
    &&& post.nonfungible_at(contract, owner, token_id).token_id@ == token_id
    &&& forall|k: (Seq<char>, Seq<char>, Seq<char>)|
        k != (contract, owner, token_id) ==> #[trigger] has_key(post.nonfungible@, k) == has_key(
            pre.nonfungible@,
            k,
        )
    &&& forall|k: (Seq<char>, Seq<char>, Seq<char>)|
        k != (contract, owner, token_id) && has_key(pre.nonfungible@, k) ==> #[trigger] rec_at(
            post.nonfungible@,
            k,
        ) == rec_at(pre.nonfungible@, k)
}

/// Builds the text attribute `k: v`.
fn text_attr(k: &str, v: String) -> (a: Attribute)
    ensures
        attr_is_text(a, k@, v@),
{
    Attribute { key: k.to_owned(), value: AttrValue::Text(v) }
}

/// Builds the amount attribute `k: v`.
fn amount_attr(k: &str, v: u128) -> (a: Attribute)
    ensures
        attr_is_amount(a, k@, v),
{
    Attribute { key: k.to_owned(), value: AttrValue::Amount(v) }
}

/// Deposit native coins for `sender`. The funds are trusted as already
/// escrowed by the host: `d_coins` is the single coin attached to the call.
pub fn execute_deposit(store: &mut Store, sender: String, d_coins: Coin) -> (r: Result<
    Response,
    ContractError,
>)
    requires
        old(store).wf(),
        d_coins.amount > 0,
    ensures
        final (store).wf(),
        (r matches Ok(_)) <==> native_deposit_fits(
            *old(store),
            sender@,
            d_coins.denom@,
            d_coins.amount,
        ),
        r matches Ok(resp) ==> native_deposited(
            *old(store),
            *final (store),
            sender@,
            d_coins.denom@,
            d_coins.amount,
        ) && resp.messages@.len() == 0 && resp.attributes@.len() == 3 && attr_is_text(
            resp.attributes@[0],
            "execute"@,
            "deposit"@,
        ) && attr_is_text(resp.attributes@[1], "denom"@, d_coins.denom@) && attr_is_amount(
            resp.attributes@[2],
            "amount"@,
            d_coins.amount,
        ),
        r matches Err(e) ==> e == (ContractError::ArithmeticOverflow {}) && *final (store) == *old(
            store,
        ),
{
    let ghost pre = store.native@;
    match crate::state::native_find(&store.native, &sender, &d_coins.denom) {
        Some(i) => {
            let na = match store.native[i].coins.amount.checked_add(d_coins.amount) {
                Some(a) => a,
                None => {
                    return Err(ContractError::ArithmeticOverflow {});
                },
            };
            let nc = match store.native[i].count.checked_add(1) {
                Some(c) => c,
                None => {
                    return Err(ContractError::ArithmeticOverflow {});
                },
            };
            store.native[i].coins.amount = na;
            store.native[i].count = nc;
            proof {
                assert(store.native@ =~= pre.update(i as int, store.native@[i as int]));
                lemma_keyed_update(pre, store.native@, i as int);
            }
            let mut attributes: Vec<Attribute> = Vec::new();
            attributes.push(text_attr("execute", "deposit".to_owned()));
            attributes.push(text_attr("denom", d_coins.denom.clone()));
            attributes.push(amount_attr("amount", d_coins.amount));
            Ok(Response { attributes, messages: Vec::new() })
        },
        None => {
            let mut attributes: Vec<Attribute> = Vec::new();
            attributes.push(text_attr("execute", "deposit".to_owned()));
            attributes.push(text_attr("denom", d_coins.denom.clone()));
            attributes.push(amount_attr("amount", d_coins.amount));
            let d = Deposits { count: 1, owner: sender, coins: d_coins };
            store.native.push(d);
            proof {
                lemma_keyed_push(pre, store.native@, store.native@.last());
            }
            Ok(Response { attributes, messages: Vec::new() })
        },
    }
}

/// Withdraw `amount` of `denom` back to `sender` from their native record,
/// emitting one outbound bank transfer on success.
pub fn execute_withdraw(store: &mut Store, sender: String, amount: u128, denom: String) -> (r:
    Result<Response, ContractError>)
    requires
        old(store).wf(),
    ensures
        final (store).wf(),
        !old(store).has_native(sender@, denom@) ==> (r matches Err(e) && e
            == (ContractError::NoRecord {}) && *final (store) == *old(store)),
        old(store).has_native(sender@, denom@) && amount > old(store).native_at(
            sender@,
            denom@,
        ).coins.amount ==> (r matches Err(e) && e == (ContractError::InsufficientBalance {})
            && *final (store) == *old(store)),
        old(store).has_native(sender@, denom@) && amount <= old(store).native_at(
            sender@,
            denom@,
        ).coins.amount && old(store).native_at(sender@, denom@).count == 0 ==> (r matches Err(e)
            && e == (ContractError::ArithmeticUnderflow {}) && *final (store) == *old(store)),
        old(store).has_native(sender@, denom@) && amount <= old(store).native_at(
            sender@,
            denom@,
        ).coins.amount && old(store).native_at(sender@, denom@).count >= 1 ==> (r matches Ok(resp)
            && native_withdrawn(*old(store), *final (store), sender@, denom@, amount)
            && resp.messages@.len() == 1 && resp.messages@[0] == (OutMsg::BankSend {
            to_address: sender,
            amount,
            denom,
        }) && resp.attributes@.len() == 3 && attr_is_text(
            resp.attributes@[0],
            "execute"@,
            "withdraw"@,
        ) && attr_is_text(resp.attributes@[1], "denom"@, denom@) && attr_is_amount(
            resp.attributes@[2],
            "amount"@,
            amount,
        )),
{
    let ghost pre = store.native@;
    match crate::state::native_find(&store.native, &sender, &denom) {
        None => Err(ContractError::NoRecord {}),
        Some(i) => {
            let na = match store.native[i].coins.amount.checked_sub(amount) {
                Some(a) => a,
                None => {
                    return Err(ContractError::InsufficientBalance {});
                },
            };
            let nc = match store.native[i].count.checked_sub(1) {
                Some(c) => c,
                None => {
                    return Err(ContractError::ArithmeticUnderflow {});
                },
            };
            store.native[i].coins.amount = na;
            store.native[i].count = nc;
            proof {
                assert(store.native@ =~= pre.update(i as int, store.native@[i as int]));
                lemma_keyed_update(pre, store.native@, i as int);
            }
            let mut messages: Vec<OutMsg> = Vec::new();
            messages.push(
                OutMsg::BankSend { to_address: sender.clone(), amount, denom: denom.clone() },
            );
            let mut attributes: Vec<Attribute> = Vec::new();
            attributes.push(text_attr("execute", "withdraw".to_owned()));
            attributes.push(text_attr("denom", denom));
            attributes.push(amount_attr("amount", amount));
            Ok(Response { attributes, messages })
        },
    }
}

/// Deposit `amount` of the fungible token run by `token_contract` for
/// `owner`, resetting the record's time-lock to `height + LOCK_WINDOW`.
pub fn execute_cw20_deposit(
    store: &mut Store,
    height: u64,
    token_contract: String,
    owner: String,
    amount: u128,
) -> (r: Result<Response, ContractError>)
    requires
        old(store).wf(),
        amount > 0,
        height + LOCK_WINDOW <= u64::MAX,
    ensures
        final (store).wf(),
        (r matches Ok(_)) <==> fungible_deposit_fits(*old(store), owner@, token_contract@, amount),
        r matches Ok(resp) ==> fungible_deposited(
            *old(store),
            *final (store),
            owner@,
            token_contract@,
            amount,
            height,
        ) && resp.messages@.len() == 0 && resp.attributes@.len() == 4 && attr_is_text(
            resp.attributes@[0],
            "execute"@,
            "cw20_deposit"@,
        ) && attr_is_text(resp.attributes@[1], "owner"@, owner@) && attr_is_text(
            resp.attributes@[2],
            "contract"@,
            token_contract@,
        ) && attr_is_amount(resp.attributes@[3], "amount"@, amount),
        r matches Err(e) ==> e == (ContractError::ArithmeticOverflow {}) && *final (store) == *old(
            store,
        ),
{
    let ghost pre = store.fungible@;
    let expiration = height + LOCK_WINDOW;
    let mut attributes: Vec<Attribute> = Vec::new();
    attributes.push(text_attr("execute", "cw20_deposit".to_owned()));
    attributes.push(text_attr("owner", owner.clone()));
    attributes.push(text_attr("contract", token_contract.clone()));
    attributes.push(amount_attr("amount", amount));
    match crate::state::fungible_find(&store.fungible, &owner, &token_contract) {
        Some(i) => {
            let na = match store.fungible[i].amount.checked_add(amount) {
                Some(a) => a,
                None => {
                    return Err(ContractError::ArithmeticOverflow {});
                },
            };
            let nc = match store.fungible[i].count.checked_add(1) {
                Some(c) => c,
                None => {
                    return Err(ContractError::ArithmeticOverflow {});
                },
            };
            store.fungible[i].amount = na;
            store.fungible[i].count = nc;
            store.fungible[i].stake_time = expiration;
            proof {
                assert(store.fungible@ =~= pre.update(i as int, store.fungible@[i as int]));
                lemma_keyed_update(pre, store.fungible@, i as int);
            }
            Ok(Response { attributes, messages: Vec::new() })
        },
        None => {
            let d = Cw20Deposits {
                count: 1,
                owner,
                contract: token_contract,
                amount,
                stake_time: expiration,
            };
            store.fungible.push(d);
            proof {
                lemma_keyed_push(pre, store.fungible@, store.fungible@.last());
            }
            Ok(Response { attributes, messages: Vec::new() })
        },
    }
}

/// Withdraw `amount` of the fungible token run by `contract` back to
/// `sender`, allowed only once the record's time-lock has expired; emits one
/// outbound token-transfer instruction on success.
pub fn execute_cw20_withdraw(
    store: &mut Store,
    height: u64,
    sender: String,
    contract: String,
    amount: u128,
) -> (r: Result<Response, ContractError>)
    requires
        old(store).wf(),
    ensures
        final (store).wf(),
        !old(store).has_fungible(sender@, contract@) ==> (r matches Err(e) && e
            == (ContractError::NoRecord {}) && *final (store) == *old(store)),
        old(store).has_fungible(sender@, contract@) && height < old(store).fungible_at(
            sender@,
            contract@,
        ).stake_time ==> (r matches Err(e) && e == (ContractError::StakeDurationNotPassed {})
            && *final (store) == *old(store)),
        old(store).has_fungible(sender@, contract@) && height >= old(store).fungible_at(
            sender@,
            contract@,
        ).stake_time && amount > old(store).fungible_at(sender@, contract@).amount ==> (r matches
        Err(e) && e == (ContractError::InsufficientBalance {}) && *final (store) == *old(store)),
        old(store).has_fungible(sender@, contract@) && height >= old(store).fungible_at(
            sender@,
            contract@,
        ).stake_time && amount <= old(store).fungible_at(sender@, contract@).amount && old(
            store,
        ).fungible_at(sender@, contract@).count == 0 ==> (r matches Err(e) && e
            == (ContractError::ArithmeticUnderflow {}) && *final (store) == *old(store)),
        old(store).has_fungible(sender@, contract@) && height >= old(store).fungible_at(
            sender@,
            contract@,
        ).stake_time && amount <= old(store).fungible_at(sender@, contract@).amount && old(
            store,
        ).fungible_at(sender@, contract@).count >= 1 ==> (r matches Ok(resp) && fungible_withdrawn(
            *old(store),
            *final (store),
            sender@,
            contract@,
            amount,
        ) && resp.messages@.len() == 1 && resp.messages@[0] == (OutMsg::Cw20Transfer {
            contract,
            recipient: sender,
            amount,
        }) && resp.attributes@.len() == 1 && attr_is_text(
            resp.attributes@[0],
            "execute"@,
            "withdraw"@,
        )),
{
    let ghost pre = store.fungible@;
    match crate::state::fungible_find(&store.fungible, &sender, &contract) {
        None => Err(ContractError::NoRecord {}),
        Some(i) => {
            if height < store.fungible[i].stake_time {
                return Err(ContractError::StakeDurationNotPassed {});
            }
            let na = match store.fungible[i].amount.checked_sub(amount) {
                Some(a) => a,
                None => {
                    return Err(ContractError::InsufficientBalance {});
                },
            };
            let nc = match store.fungible[i].count.checked_sub(1) {
                Some(c) => c,
                None => {
                    return Err(ContractError::ArithmeticUnderflow {});
                },
            };
            store.fungible[i].amount = na;
            store.fungible[i].count = nc;
            proof {
                assert(store.fungible@ =~= pre.update(i as int, store.fungible@[i as int]));
                lemma_keyed_update(pre, store.fungible@, i as int);
            }
            let mut messages: Vec<OutMsg> = Vec::new();
            messages.push(
                OutMsg::Cw20Transfer {
                    contract: contract.clone(),
                    recipient: sender.clone(),
                    amount,
                },
            );
            let mut attributes: Vec<Attribute> = Vec::new();
            attributes.push(text_attr("execute", "withdraw".to_owned()));
            Ok(Response { attributes, messages })
        },
    }
}

/// Record custody of token `token_id` from the non-fungible contract
/// `token_contract` on behalf of `owner`. Re-depositing the same token by the
/// same owner overwrites the record in place.
pub fn execute_cw721_deposit(
    store: &mut Store,
    token_contract: String,
    owner: String,
    token_id: String,
) -> (r: Result<Response, ContractError>)
    requires
        old(store).wf(),
    ensures
        final (store).wf(),
        r matches Ok(resp) && nonfungible_deposited(
            *old(store),
            *final (store),
            token_contract@,
            owner@,
            token_id@,
        ) && resp.messages@.len() == 0 && resp.attributes@.len() == 4 && attr_is_text(
            resp.attributes@[0],
            "execute"@,
            "cw721_deposit"@,
        ) && attr_is_text(resp.attributes@[1], "owner"@, owner@) && attr_is_text(
            resp.attributes@[2],
            "contract"@,
            token_contract@,
        ) && attr_is_text(resp.attributes@[3], "token_id"@, token_id@),
{
    let ghost pre = store.nonfungible@;
    let mut attributes: Vec<Attribute> = Vec::new();
    attributes.push(text_attr("execute", "cw721_deposit".to_owned()));
    attributes.push(text_attr("owner", owner.clone()));
    attributes.push(text_attr("contract", token_contract.clone()));
    attributes.push(text_attr("token_id", token_id.clone()));
    let data = Cw721Deposits { owner, contract: token_contract, token_id };
    match crate::state::nonfungible_find(
        &store.nonfungible,
        &data.contract,
        &data.owner,
        &data.token_id,
    ) {
        Some(i) => {
            store.nonfungible[i] = data;
            proof {
                assert(store.nonfungible@ =~= pre.update(i as int, store.nonfungible@[i as int]));
                lemma_keyed_update(pre, store.nonfungible@, i as int);
            }
        },
        None => {
            store.nonfungible.push(data);
            proof {
                lemma_keyed_push(pre, store.nonfungible@, store.nonfungible@.last());
            }
        },
    }
    Ok(Response { attributes, messages: Vec::new() })
}

/// Release token `token_id` of the non-fungible contract `address` back to
/// `sender`. `chain_owner` must be the token's current on-chain owner as
/// queried from that contract by the host, and `self_address` this ledger's
/// own address: custody is verified against both before the transfer
/// instruction is emitted. The custody record itself is kept.
pub fn execute_cw721_withdraw(
    store: &mut Store,
    chain_owner: String,
    self_address: String,
    sender: String,
    address: String,
    token_id: String,
) -> (r: Result<Response, ContractError>)
    requires
        old(store).wf(),
    ensures
        *final (store) == *old(store),
        chain_owner@ != self_address@ ==> (r matches Err(e) && e matches ContractError::NoCustody {
            token_id: t,
        } && t@ == token_id@),
        chain_owner@ == self_address@ && !old(store).has_nonfungible(
            address@,
            sender@,
            token_id@,
        ) ==> (r matches Err(e) && e == (ContractError::NoRecord {})),
        chain_owner@ == self_address@ && old(store).has_nonfungible(address@, sender@, token_id@)
            && old(store).nonfungible_at(address@, sender@, token_id@).owner@ != chain_owner@ ==> (r
        matches Err(e) && e == (ContractError::InvalidOwner {})),
        chain_owner@ == self_address@ && old(store).has_nonfungible(address@, sender@, token_id@)
            && old(store).nonfungible_at(address@, sender@, token_id@).owner@ == chain_owner@ ==> (r
        matches Ok(resp) && resp.messages@.len() == 1 && (resp.messages@[0] matches
        OutMsg::Cw721Transfer { contract, recipient, token_id: t } && contract@ == address@
            && recipient@ == sender@ && t@ == token_id@) && resp.attributes@.len() == 3
            && attr_is_text(resp.attributes@[0], "execute"@, "withdraw"@) && attr_is_text(
            resp.attributes@[1],
            "address"@,
            address@,
        ) && attr_is_text(resp.attributes@[2], "token_id"@, token_id@)),
{
    if chain_owner != self_address {
        return Err(ContractError::NoCustody { token_id });
    }
    match crate::state::nonfungible_find(&store.nonfungible, &address, &sender, &token_id) {
        None => Err(ContractError::NoRecord {}),
        Some(i) => {
            if store.nonfungible[i].owner != chain_owner {
                return Err(ContractError::InvalidOwner {});
            }
            let mut messages: Vec<OutMsg> = Vec::new();
            messages.push(
                OutMsg::Cw721Transfer {
                    contract: store.nonfungible[i].contract.clone(),
                    recipient: sender.clone(),
                    token_id: token_id.clone(),
                },
            );
            let mut attributes: Vec<Attribute> = Vec::new();
            attributes.push(text_attr("execute", "withdraw".to_owned()));
            attributes.push(text_attr("address", address));
            attributes.push(text_attr("token_id", token_id));
            Ok(Response { attributes, messages })
        },
    }
}

/// Route a fungible-token callback: a decoded Deposit hook goes to
/// [`execute_cw20_deposit`] with the token contract as the calling contract;
/// anything else is rejected with no ledger mutation.
pub fn receive_cw20(
    store: &mut Store,
    height: u64,
    token_contract: String,
    cw20_msg: Cw20ReceiveMsg,
) -> (r: Result<Response, ContractError>)
    requires
        old(store).wf(),
        cw20_msg.amount > 0,
        height + LOCK_WINDOW <= u64::MAX,
    ensures
        final (store).wf(),
        cw20_msg.msg matches Some(Cw20HookMsg::Deposit) ==> ((r matches Ok(_))
            <==> fungible_deposit_fits(
            *old(store),
            cw20_msg.sender@,
            token_contract@,
            cw20_msg.amount,
        )) && (r matches Ok(resp) ==> fungible_deposited(
            *old(store),
            *final (store),
            cw20_msg.sender@,
            token_contract@,
            cw20_msg.amount,
            height,
        ) && resp.messages@.len() == 0 && resp.attributes@.len() == 4 && attr_is_text(
            resp.attributes@[0],
            "execute"@,
            "cw20_deposit"@,
        ) && attr_is_text(resp.attributes@[1], "owner"@, cw20_msg.sender@) && attr_is_text(
            resp.attributes@[2],
            "contract"@,
            token_contract@,
        ) && attr_is_amount(resp.attributes@[3], "amount"@, cw20_msg.amount)) && (r matches Err(e)
            ==> e == (ContractError::ArithmeticOverflow {}) && *final (store) == *old(store)),
        cw20_msg.msg is None ==> (r matches Err(e) && e == (ContractError::InvalidHookPayload {})
            && *final (store) == *old(store)),
{
    let Cw20ReceiveMsg { sender, amount, msg } = cw20_msg;
    match msg {
        Some(Cw20HookMsg::Deposit) => execute_cw20_deposit(
            store,
            height,
            token_contract,
            sender,
            amount,
        ),
        None => Err(ContractError::InvalidHookPayload {}),
    }
}

/// Route a non-fungible-token callback: a decoded Deposit hook goes to
/// [`execute_cw721_deposit`] with the token contract as the calling contract;
/// anything else is rejected with no ledger mutation.
pub fn receive_cw721(store: &mut Store, token_contract: String, cw721_msg: Cw721ReceiveMsg) -> (r:
    Result<Response, ContractError>)
    requires
        old(store).wf(),
    ensures
        final (store).wf(),
        cw721_msg.msg matches Some(Cw721HookMsg::Deposit) ==> (r matches Ok(resp)
            && nonfungible_deposited(
            *old(store),
            *final (store),
            token_contract@,
            cw721_msg.sender@,
            cw721_msg.token_id@,
        ) && resp.messages@.len() == 0 && resp.attributes@.len() == 4 && attr_is_text(
            resp.attributes@[0],
            "execute"@,
            "cw721_deposit"@,
        ) && attr_is_text(resp.attributes@[1], "owner"@, cw721_msg.sender@) && attr_is_text(
            resp.attributes@[2],
            "contract"@,
            token_contract@,
        ) && attr_is_text(resp.attributes@[3], "token_id"@, cw721_msg.token_id@)),
        cw721_msg.msg is None ==> (r matches Err(e) && e == (ContractError::InvalidHookPayload {})
            && *final (store) == *old(store)),
{
    let Cw721ReceiveMsg { sender, token_id, msg } = cw721_msg;
    match msg {
        Some(Cw721HookMsg::Deposit) => execute_cw721_deposit(store, token_contract, sender, token_id),
        None => Err(ContractError::InvalidHookPayload {}),
    }
}

/// Insert `rec` into `out`, which is strictly ascending by denomination and
/// nowhere carries `rec`'s denomination; returns the insertion position.
fn insert_by_denom(out: &mut Vec<Deposits>, rec: Deposits) -> (q: usize)
    requires
        forall|x: int, y: int|
            0 <= x < y < old(out)@.len() ==> lex_lt(
                old(out)@[x].coins.denom@,
                old(out)@[y].coins.denom@,
            ),
        forall|x: int|
            0 <= x < old(out)@.len() ==> (#[trigger] old(out)@[x]).coins.denom@
                != rec.coins.denom@,
    ensures
        q <= old(out)@.len(),
        final (out)@ == old(out)@.insert(q as int, rec),
        forall|x: int, y: int|
            0 <= x < y < final (out)@.len() ==> lex_lt(
                final (out)@[x].coins.denom@,
                final (out)@[y].coins.denom@,
            ),
{
    let ghost pre = out@;
    let mut p: usize = 0;
    while p < out.len() && str_lt(out[p].coins.denom.as_str(), rec.coins.denom.as_str())
        invariant
            out@ == pre,
            p <= out@.len(),
            forall|x: int| 0 <= x < p ==> lex_lt((#[trigger] out@[x]).coins.denom@, rec.coins.denom@),
        decreases out@.len() - p,
    {
        p = p + 1;
    }
    proof {
        if (p as int) < pre.len() {
            if !lex_lt(rec.coins.denom@, pre[p as int].coins.denom@) {
                lemma_lex_lt_connected(pre[p as int].coins.denom@, rec.coins.denom@);
                assert(false);
            }
        }
    }
    out.insert(p, rec);
    proof {
        pre.insert_ensures(p as int, rec);
        assert forall|x: int, y: int|
            0 <= x < y < out@.len() implies lex_lt(
            out@[x].coins.denom@,
            out@[y].coins.denom@,
        ) by {
            let pi = p as int;
            if y < pi {
            } else if y == pi {
                assert(out@[x] == pre[x]);
            } else {
                assert(out@[y] == pre[y - 1]);
                if x < pi {
                    assert(out@[x] == pre[x]);
                    if x < y - 1 {
                    } else {
                        assert(false);
                    }
                } else if x == pi {
                    if y - 1 == pi {
                    } else {
                        lemma_lex_lt_trans(
                            rec.coins.denom@,
                            pre[pi].coins.denom@,
                            pre[y - 1].coins.denom@,
                        );
                    }
                } else {
                    assert(out@[x] == pre[x - 1]);
                }
            }
        }
    }
    p
}

/// All native records of `address`, in ascending denomination order: exactly
/// the records of the store whose owner is `address`, each as recorded.
pub fn query_deposits(store: &Store, address: String) -> (r: DepositResponse)
    requires
        store.wf(),
    ensures
        forall|x: int|
            0 <= x < r.deposits@.len() ==> (#[trigger] r.deposits@[x]).owner@ == address@
                && store.has_native(address@, r.deposits@[x].coins.denom@) && store.native_at(
                address@,
                r.deposits@[x].coins.denom@,
            ) == r.deposits@[x],
        forall|j: int|
            0 <= j < store.native@.len() && (#[trigger] store.native@[j]).owner@ == address@
                ==> exists|x: int| 0 <= x < r.deposits@.len() && r.deposits@[x] == store.native@[j],
        forall|x: int, y: int|
            0 <= x < y < r.deposits@.len() ==> lex_lt(
                r.deposits@[x].coins.denom@,
                r.deposits@[y].coins.denom@,
            ),
{
    let mut out: Vec<Deposits> = Vec::new();
    let ghost mut src: Seq<int> = Seq::empty();
    let mut i: usize = 0;
    while i < store.native.len()
        invariant
            store.wf(),
            i <= store.native@.len(),
            src.len() == out@.len(),
            forall|x: int|
                0 <= x < out@.len() ==> 0 <= #[trigger] src[x] < i && out@[x]
                    == store.native@[src[x]] && store.native@[src[x]].owner@ == address@,
            forall|j: int|
                0 <= j < i && (#[trigger] store.native@[j]).owner@ == address@ ==> exists|x: int|
                    0 <= x < out@.len() && out@[x] == store.native@[j],
            forall|x: int, y: int|
                0 <= x < y < out@.len() ==> lex_lt(out@[x].coins.denom@, out@[y].coins.denom@),
        decreases store.native@.len() - i,
    {
        if store.native[i].owner == address {
            let rec = store.native[i].clone();
            let ghost pre_out = out@;
            let ghost pre_src = src;
            proof {
                assert forall|x: int|
                    0 <= x < out@.len() implies (#[trigger] out@[x]).coins.denom@
                    != rec.coins.denom@ by {
                    if out@[x].coins.denom@ == rec.coins.denom@ {
                        assert(store.native@[src[x]].key() == store.native@[i as int].key());
                        assert(false);
                    }
                }
            }
            let q = insert_by_denom(&mut out, rec);
            proof {
                src = src.insert(q as int, i as int);
                pre_out.insert_ensures(q as int, rec);
                pre_src.insert_ensures(q as int, i as int);
                assert forall|x: int|
                    0 <= x < out@.len() implies 0 <= #[trigger] src[x] < i + 1 && out@[x]
                    == store.native@[src[x]] && store.native@[src[x]].owner@ == address@ by {
                    if x < q {
                        assert(out@[x] == pre_out[x]);
                        assert(src[x] == pre_src[x]);
                    } else if x == q {
                        assert(out@[x] == rec);
                        assert(src[x] == i as int);
                    } else {
                        assert(out@[x] == pre_out[x - 1]);
                        assert(src[x] == pre_src[x - 1]);
                    }
                }
                assert forall|j: int|
                    0 <= j < i + 1 && (#[trigger] store.native@[j]).owner@
                    == address@ implies exists|x: int|
                    0 <= x < out@.len() && out@[x] == store.native@[j] by {
                    if j == i {
                        assert(out@[q as int] == store.native@[i as int]);
                    } else {
                        let x = choose|x: int|
                            0 <= x < pre_out.len() && pre_out[x] == store.native@[j];
                        if x < q {
                            assert(out@[x] == store.native@[j]);
                        } else {
                            assert(out@[x + 1] == store.native@[j]);
                        }
                    }
                }
            }
        }
        i = i + 1;
    }
    proof {
        assert(i == store.native@.len());
        assert forall|x: int|
            0 <= x < out@.len() implies (#[trigger] out@[x]).owner@ == address@ && store.has_native(
            address@,
            out@[x].coins.denom@,
        ) && store.native_at(address@, out@[x].coins.denom@) == out@[x] by {
            lemma_key_of_index(store.native@, src[x]);
        }
    }
    let ghost outv = out@;
    let r = DepositResponse { deposits: out };
    proof {
        assert(r.deposits@ == outv);
        assert forall|j: int|
            0 <= j < store.native@.len() && (#[trigger] store.native@[j]).owner@
            == address@ implies exists|x: int|
            0 <= x < r.deposits@.len() && r.deposits@[x] == store.native@[j] by {
            assert(0 <= j < i);
            let x = choose|x: int| 0 <= x < outv.len() && outv[x] == store.native@[j];
            assert(0 <= x < r.deposits@.len() && r.deposits@[x] == store.native@[j]);
        }
    }
    r
}

/// Insert `rec` into `out`, which is strictly ascending by token contract and
/// nowhere carries `rec`'s contract; returns the insertion position.
fn insert_by_contract(out: &mut Vec<Cw20Deposits>, rec: Cw20Deposits) -> (q: usize)
    requires
        forall|x: int, y: int|
            0 <= x < y < old(out)@.len() ==> lex_lt(old(out)@[x].contract@, old(out)@[y].contract@),
        forall|x: int|
            0 <= x < old(out)@.len() ==> (#[trigger] old(out)@[x]).contract@ != rec.contract@,
    ensures
        q <= old(out)@.len(),
        final (out)@ == old(out)@.insert(q as int, rec),
        forall|x: int, y: int|
            0 <= x < y < final (out)@.len() ==> lex_lt(
                final (out)@[x].contract@,
                final (out)@[y].contract@,
            ),
{
    let ghost pre = out@;
    let mut p: usize = 0;
    while p < out.len() && str_lt(out[p].contract.as_str(), rec.contract.as_str())
        invariant
            out@ == pre,
            p <= out@.len(),
            forall|x: int| 0 <= x < p ==> lex_lt((#[trigger] out@[x]).contract@, rec.contract@),
        decreases out@.len() - p,
    {
        p = p + 1;
    }
    proof {
        if (p as int) < pre.len() {
            if !lex_lt(rec.contract@, pre[p as int].contract@) {
                lemma_lex_lt_connected(pre[p as int].contract@, rec.contract@);
                assert(false);
            }
        }
    }
    out.insert(p, rec);
    proof {
        pre.insert_ensures(p as int, rec);
        assert forall|x: int, y: int|
            0 <= x < y < out@.len() implies lex_lt(out@[x].contract@, out@[y].contract@) by {
            let pi = p as int;
            if y < pi {
            } else if y == pi {
                assert(out@[x] == pre[x]);
            } else {
                assert(out@[y] == pre[y - 1]);
                if x < pi {
                    assert(out@[x] == pre[x]);
                    if x < y - 1 {
                    } else {
                        assert(false);
                    }
                } else if x == pi {
                    if y - 1 == pi {
                    } else {
                        lemma_lex_lt_trans(rec.contract@, pre[pi].contract@, pre[y - 1].contract@);
                    }
                } else {
                    assert(out@[x] == pre[x - 1]);
                }
            }
        }
    }
    p
}

/// All fungible records of `address`, in ascending token-contract order:
/// exactly the records of the store whose owner is `address`, each as
/// recorded.
pub fn query_cw20_deposits(store: &Store, address: String) -> (r: Cw20DepositResponse)
    requires
        store.wf(),
    ensures
        forall|x: int|
            0 <= x < r.deposits@.len() ==> (#[trigger] r.deposits@[x]).owner@ == address@
                && store.has_fungible(address@, r.deposits@[x].contract@) && store.fungible_at(
                address@,
                r.deposits@[x].contract@,
            ) == r.deposits@[x],
        forall|j: int|
            0 <= j < store.fungible@.len() && (#[trigger] store.fungible@[j]).owner@ == address@
                ==> exists|x: int| 0 <= x < r.deposits@.len() && r.deposits@[x]
                == store.fungible@[j],
        forall|x: int, y: int|
            0 <= x < y < r.deposits@.len() ==> lex_lt(
                r.deposits@[x].contract@,
                r.deposits@[y].contract@,
            ),
{
    let mut out: Vec<Cw20Deposits> = Vec::new();
    let ghost mut src: Seq<int> = Seq::empty();
    let mut i: usize = 0;
    while i < store.fungible.len()
        invariant
            store.wf(),
            i <= store.fungible@.len(),
            src.len() == out@.len(),
            forall|x: int|
                0 <= x < out@.len() ==> 0 <= #[trigger] src[x] < i && out@[x]
                    == store.fungible@[src[x]] && store.fungible@[src[x]].owner@ == address@,
            forall|j: int|
                0 <= j < i && (#[trigger] store.fungible@[j]).owner@ == address@ ==> exists|x: int|
                    0 <= x < out@.len() && out@[x] == store.fungible@[j],
            forall|x: int, y: int|
                0 <= x < y < out@.len() ==> lex_lt(out@[x].contract@, out@[y].contract@),
        decreases store.fungible@.len() - i,
    {
        if store.fungible[i].owner == address {
            let rec = store.fungible[i].clone();
            let ghost pre_out = out@;
            let ghost pre_src = src;
            proof {
                assert forall|x: int|
                    0 <= x < out@.len() implies (#[trigger] out@[x]).contract@ != rec.contract@ by {
                    if out@[x].contract@ == rec.contract@ {
                        assert(store.fungible@[src[x]].key() == store.fungible@[i as int].key());
                        assert(false);
                    }
                }
            }
            let q = insert_by_contract(&mut out, rec);
            proof {
                src = src.insert(q as int, i as int);
                pre_out.insert_ensures(q as int, rec);
                pre_src.insert_ensures(q as int, i as int);
                assert forall|x: int|
                    0 <= x < out@.len() implies 0 <= #[trigger] src[x] < i + 1 && out@[x]
                    == store.fungible@[src[x]] && store.fungible@[src[x]].owner@ == address@ by {
                    if x < q {
                        assert(out@[x] == pre_out[x]);
                        assert(src[x] == pre_src[x]);
                    } else if x == q {
                        assert(out@[x] == rec);
                        assert(src[x] == i as int);
                    } else {
                        assert(out@[x] == pre_out[x - 1]);
                        assert(src[x] == pre_src[x - 1]);
                    }
                }
                assert forall|j: int|
                    0 <= j < i + 1 && (#[trigger] store.fungible@[j]).owner@
                    == address@ implies exists|x: int|
                    0 <= x < out@.len() && out@[x] == store.fungible@[j] by {
                    if j == i {
                        assert(out@[q as int] == store.fungible@[i as int]);
                    } else {
                        let x = choose|x: int|
                            0 <= x < pre_out.len() && pre_out[x] == store.fungible@[j];
                        if x < q {
                            assert(out@[x] == store.fungible@[j]);
                        } else {
                            assert(out@[x + 1] == store.fungible@[j]);
                        }
                    }
                }
            }
        }
        i = i + 1;
    }
    proof {
        assert(i == store.fungible@.len());
        assert forall|x: int|
            0 <= x < out@.len() implies (#[trigger] out@[x]).owner@ == address@
            && store.has_fungible(address@, out@[x].contract@) && store.fungible_at(
            address@,
            out@[x].contract@,
        ) == out@[x] by {
            lemma_key_of_index(store.fungible@, src[x]);
        }
    }
    let ghost outv = out@;
    let r = Cw20DepositResponse { deposits: out };
    proof {
        assert(r.deposits@ == outv);
        assert forall|j: int|
            0 <= j < store.fungible@.len() && (#[trigger] store.fungible@[j]).owner@
            == address@ implies exists|x: int|
            0 <= x < r.deposits@.len() && r.deposits@[x] == store.fungible@[j] by {
            assert(0 <= j < i);
            let x = choose|x: int| 0 <= x < outv.len() && outv[x] == store.fungible@[j];
            assert(0 <= x < r.deposits@.len() && r.deposits@[x] == store.fungible@[j]);
        }
    }
    r
}

} // verus!

use deposit_cw20::contract::{
    execute_cw20_deposit, execute_cw20_withdraw, execute_cw721_deposit, execute_cw721_withdraw,
    execute_deposit, execute_withdraw, query_cw20_deposits, query_deposits, receive_cw20,
    receive_cw721,
};
use deposit_cw20::error::ContractError;
use deposit_cw20::msg::{
    AttrValue, Cw20HookMsg, Cw20ReceiveMsg, Cw721HookMsg, Cw721ReceiveMsg, OutMsg,
};
use deposit_cw20::state::{Coin, Store};

fn coin(amount: u128, denom: &str) -> Coin {
    Coin { denom: denom.to_string(), amount }
}

#[test]
fn native_deposit_accumulates() {
    let mut store = Store::new();
    execute_deposit(&mut store, "d".to_string(), coin(100, "uusd")).unwrap();
    let resp = execute_deposit(&mut store, "d".to_string(), coin(50, "uusd")).unwrap();
    assert_eq!(store.native.len(), 1);
    assert_eq!(store.native[0].coins.amount, 150);
    assert_eq!(store.native[0].count, 2);
    assert_eq!(store.native[0].owner, "d");
    assert!(resp.messages.is_empty());
    assert_eq!(resp.attributes.len(), 3);
    assert_eq!(resp.attributes[0].key, "execute");
    assert!(matches!(&resp.attributes[0].value, AttrValue::Text(t) if t == "deposit"));
    assert_eq!(resp.attributes[1].key, "denom");
    assert!(matches!(&resp.attributes[1].value, AttrValue::Text(t) if t == "uusd"));
    assert!(matches!(resp.attributes[2].value, AttrValue::Amount(50)));
}

#[test]
fn native_withdraw_scenario() {
    let mut store = Store::new();
    execute_deposit(&mut store, "d".to_string(), coin(100, "uusd")).unwrap();
    execute_deposit(&mut store, "d".to_string(), coin(50, "uusd")).unwrap();
    let resp = execute_withdraw(&mut store, "d".to_string(), 120, "uusd".to_string()).unwrap();
    assert_eq!(store.native[0].coins.amount, 30);
    assert_eq!(store.native[0].count, 1);
    assert_eq!(resp.messages.len(), 1);
    match &resp.messages[0] {
        OutMsg::BankSend { to_address, amount, denom } => {
            assert_eq!(to_address, "d");
            assert_eq!(*amount, 120);
            assert_eq!(denom, "uusd");
        },
        _ => panic!("expected a bank transfer"),
    }
    let err = execute_withdraw(&mut store, "d".to_string(), 50, "uusd".to_string()).unwrap_err();
    assert_eq!(err, ContractError::InsufficientBalance {});
    assert_eq!(store.native[0].coins.amount, 30);
    assert_eq!(store.native[0].count, 1);
}

#[test]
fn native_withdraw_without_record_fails() {
    let mut store = Store::new();
    execute_deposit(&mut store, "d".to_string(), coin(5, "uusd")).unwrap();
    let err = execute_withdraw(&mut store, "d".to_string(), 1, "uatom".to_string()).unwrap_err();
    assert_eq!(err, ContractError::NoRecord {});
    let err = execute_withdraw(&mut store, "e".to_string(), 1, "uusd".to_string()).unwrap_err();
    assert_eq!(err, ContractError::NoRecord {});
}

#[test]
fn native_deposit_overflow_fails() {
    let mut store = Store::new();
    execute_deposit(&mut store, "d".to_string(), coin(u128::MAX, "uusd")).unwrap();
    let err = execute_deposit(&mut store, "d".to_string(), coin(1, "uusd")).unwrap_err();
    assert_eq!(err, ContractError::ArithmeticOverflow {});
    assert_eq!(store.native[0].coins.amount, u128::MAX);
    assert_eq!(store.native[0].count, 1);
}

#[test]
fn native_withdraw_count_underflow_fails() {
    let mut store = Store::new();
    execute_deposit(&mut store, "d".to_string(), coin(100, "uusd")).unwrap();
    execute_withdraw(&mut store, "d".to_string(), 60, "uusd".to_string()).unwrap();
    assert_eq!(store.native[0].count, 0);
    assert_eq!(store.native[0].coins.amount, 40);
    let err = execute_withdraw(&mut store, "d".to_string(), 40, "uusd".to_string()).unwrap_err();
    assert_eq!(err, ContractError::ArithmeticUnderflow {});
    assert_eq!(store.native[0].coins.amount, 40);
}

#[test]
fn fungible_lock_scenario() {
    let mut store = Store::new();
    let msg = Cw20ReceiveMsg {
        sender: "owner".to_string(),
        amount: 10,
        msg: Some(Cw20HookMsg::Deposit),
    };
    receive_cw20(&mut store, 100, "token".to_string(), msg).unwrap();
    assert_eq!(store.fungible[0].stake_time, 120);
    assert_eq!(store.fungible[0].amount, 10);
    assert_eq!(store.fungible[0].count, 1);

    let err = execute_cw20_withdraw(&mut store, 105, "owner".to_string(), "token".to_string(), 10)
        .unwrap_err();
    assert_eq!(err, ContractError::StakeDurationNotPassed {});
    assert_eq!(store.fungible[0].amount, 10);

    let resp = execute_cw20_withdraw(&mut store, 120, "owner".to_string(), "token".to_string(), 10)
        .unwrap();
    assert_eq!(store.fungible[0].amount, 0);
    assert_eq!(store.fungible[0].count, 0);
    assert_eq!(resp.messages.len(), 1);
    match &resp.messages[0] {
        OutMsg::Cw20Transfer { contract, recipient, amount } => {
            assert_eq!(contract, "token");
            assert_eq!(recipient, "owner");
            assert_eq!(*amount, 10);
        },
        _ => panic!("expected a token transfer"),
    }
}

#[test]
fn fungible_redeposit_resets_lock() {
    let mut store = Store::new();
    execute_cw20_deposit(&mut store, 100, "token".to_string(), "owner".to_string(), 10).unwrap();
    assert_eq!(store.fungible[0].stake_time, 120);
    execute_cw20_deposit(&mut store, 150, "token".to_string(), "owner".to_string(), 5).unwrap();
    assert_eq!(store.fungible[0].stake_time, 170);
    assert_eq!(store.fungible[0].amount, 15);
    assert_eq!(store.fungible[0].count, 2);
    let err = execute_cw20_withdraw(&mut store, 169, "owner".to_string(), "token".to_string(), 15)
        .unwrap_err();
    assert_eq!(err, ContractError::StakeDurationNotPassed {});
    execute_cw20_withdraw(&mut store, 170, "owner".to_string(), "token".to_string(), 15).unwrap();
    assert_eq!(store.fungible[0].amount, 0);
}

#[test]
fn fungible_withdraw_without_record_fails() {
    let mut store = Store::new();
    let err = execute_cw20_withdraw(&mut store, 500, "owner".to_string(), "token".to_string(), 1)
        .unwrap_err();
    assert_eq!(err, ContractError::NoRecord {});
}

#[test]
fn fungible_withdraw_too_much_fails() {
    let mut store = Store::new();
    execute_cw20_deposit(&mut store, 100, "token".to_string(), "owner".to_string(), 10).unwrap();
    let err = execute_cw20_withdraw(&mut store, 120, "owner".to_string(), "token".to_string(), 20)
        .unwrap_err();
    assert_eq!(err, ContractError::InsufficientBalance {});
    assert_eq!(store.fungible[0].amount, 10);
    assert_eq!(store.fungible[0].count, 1);
}

#[test]
fn fungible_deposit_overflow_fails() {
    let mut store = Store::new();
    execute_cw20_deposit(&mut store, 100, "token".to_string(), "owner".to_string(), u128::MAX)
        .unwrap();
    let err = execute_cw20_deposit(&mut store, 101, "token".to_string(), "owner".to_string(), 1)
        .unwrap_err();
    assert_eq!(err, ContractError::ArithmeticOverflow {});
    assert_eq!(store.fungible[0].amount, u128::MAX);
    assert_eq!(store.fungible[0].stake_time, 120);
}

#[test]
fn unknown_hook_payload_rejected() {
    let mut store = Store::new();
    let msg = Cw20ReceiveMsg { sender: "owner".to_string(), amount: 10, msg: None };
    let err = receive_cw20(&mut store, 100, "token".to_string(), msg).unwrap_err();
    assert_eq!(err, ContractError::InvalidHookPayload {});
    assert!(store.fungible.is_empty());

    let msg = Cw721ReceiveMsg { sender: "owner".to_string(), token_id: "7".to_string(), msg: None };
    let err = receive_cw721(&mut store, "nfts".to_string(), msg).unwrap_err();
    assert_eq!(err, ContractError::InvalidHookPayload {});
    assert!(store.nonfungible.is_empty());
}

#[test]
fn nft_deposit_and_withdraw() {
    let mut store = Store::new();
    let msg = Cw721ReceiveMsg {
        sender: "vault".to_string(),
        token_id: "7".to_string(),
        msg: Some(Cw721HookMsg::Deposit),
    };
    receive_cw721(&mut store, "nfts".to_string(), msg).unwrap();
    assert_eq!(store.nonfungible.len(), 1);
    assert_eq!(store.nonfungible[0].owner, "vault");
    assert_eq!(store.nonfungible[0].contract, "nfts");
    assert_eq!(store.nonfungible[0].token_id, "7");

    // The on-chain owner is this ledger's own address, and it matches the
    // recorded owner: the withdrawal succeeds with a transfer instruction.
    let resp = execute_cw721_withdraw(
        &mut store,
        "vault".to_string(),
        "vault".to_string(),
        "vault".to_string(),
        "nfts".to_string(),
        "7".to_string(),
    )
    .unwrap();
    assert_eq!(resp.messages.len(), 1);
    match &resp.messages[0] {
        OutMsg::Cw721Transfer { contract, recipient, token_id } => {
            assert_eq!(contract, "nfts");
            assert_eq!(recipient, "vault");
            assert_eq!(token_id, "7");
        },
        _ => panic!("expected a token transfer"),
    }
    // The custody record is kept after the withdrawal.
    assert_eq!(store.nonfungible.len(), 1);

    // A depositor key that never deposited finds no record.
    let err = execute_cw721_withdraw(
        &mut store,
        "vault".to_string(),
        "vault".to_string(),
        "mallory".to_string(),
        "nfts".to_string(),
        "7".to_string(),
    )
    .unwrap_err();
    assert_eq!(err, ContractError::NoRecord {});
}

#[test]
fn nft_withdraw_without_custody_fails() {
    let mut store = Store::new();
    execute_cw721_deposit(&mut store, "nfts".to_string(), "alice".to_string(), "7".to_string())
        .unwrap();
    let err = execute_cw721_withdraw(
        &mut store,
        "somebody".to_string(),
        "vault".to_string(),
        "alice".to_string(),
        "nfts".to_string(),
        "7".to_string(),
    )
    .unwrap_err();
    assert_eq!(err, ContractError::NoCustody { token_id: "7".to_string() });
    assert_eq!(store.nonfungible.len(), 1);
}

#[test]
fn nft_withdraw_owner_mismatch_fails() {
    let mut store = Store::new();
    execute_cw721_deposit(&mut store, "nfts".to_string(), "alice".to_string(), "7".to_string())
        .unwrap();
    let err = execute_cw721_withdraw(
        &mut store,
        "vault".to_string(),
        "vault".to_string(),
        "alice".to_string(),
        "nfts".to_string(),
        "7".to_string(),
    )
    .unwrap_err();
    assert_eq!(err, ContractError::InvalidOwner {});
    assert_eq!(store.nonfungible.len(), 1);
}

#[test]
fn nft_redeposit_overwrites() {
    let mut store = Store::new();
    execute_cw721_deposit(&mut store, "nfts".to_string(), "alice".to_string(), "7".to_string())
        .unwrap();
    execute_cw721_deposit(&mut store, "nfts".to_string(), "alice".to_string(), "7".to_string())
        .unwrap();
    assert_eq!(store.nonfungible.len(), 1);
}

#[test]
fn query_native_deposits_sorted() {
    let mut store = Store::new();
    execute_deposit(&mut store, "alice".to_string(), coin(3, "uusd")).unwrap();
    execute_deposit(&mut store, "alice".to_string(), coin(1, "uatom")).unwrap();
    execute_deposit(&mut store, "bob".to_string(), coin(9, "uusd")).unwrap();
    execute_deposit(&mut store, "alice".to_string(), coin(2, "ubtc")).unwrap();
    let resp = query_deposits(&store, "alice".to_string());
    assert_eq!(resp.deposits.len(), 3);
    assert_eq!(resp.deposits[0].coins.denom, "uatom");
    assert_eq!(resp.deposits[0].coins.amount, 1);
    assert_eq!(resp.deposits[1].coins.denom, "ubtc");
    assert_eq!(resp.deposits[1].coins.amount, 2);
    assert_eq!(resp.deposits[2].coins.denom, "uusd");
    assert_eq!(resp.deposits[2].coins.amount, 3);
    let empty = query_deposits(&store, "carol".to_string());
    assert!(empty.deposits.is_empty());
}

#[test]
fn query_fungible_deposits_sorted() {
    let mut store = Store::new();
    execute_cw20_deposit(&mut store, 10, "tokenb".to_string(), "alice".to_string(), 5).unwrap();
    execute_cw20_deposit(&mut store, 10, "tokena".to_string(), "alice".to_string(), 7).unwrap();
    execute_cw20_deposit(&mut store, 10, "tokena".to_string(), "bob".to_string(), 9).unwrap();
    let resp = query_cw20_deposits(&store, "alice".to_string());
    assert_eq!(resp.deposits.len(), 2);
    assert_eq!(resp.deposits[0].contract, "tokena");
    assert_eq!(resp.deposits[0].amount, 7);
    assert_eq!(resp.deposits[1].contract, "tokenb");
    assert_eq!(resp.deposits[1].amount, 5);
}

#[test]
fn well_formedness_check_detects_duplicates() {
    let mut store = Store::new();
    execute_deposit(&mut store, "d".to_string(), coin(1, "uusd")).unwrap();
    execute_cw20_deposit(&mut store, 1, "token".to_string(), "d".to_string(), 1).unwrap();
    execute_cw721_deposit(&mut store, "nfts".to_string(), "d".to_string(), "7".to_string())
        .unwrap();
    assert!(store.check_wf());
    let dup = store.native[0].clone();
    store.native.push(dup);
    assert!(!store.check_wf());
}

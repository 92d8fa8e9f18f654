use icrc7_ledger::approve::{ApproveCollectionArg, ApproveTokenArg, RevokeCollectionApprovalArg, RevokeTokenApprovalArg};
use icrc7_ledger::catalog::{CreateTokenArg, UpdateTokenArg};
use icrc7_ledger::challenge::{sha3_256, SecretArg};
use icrc7_ledger::metadata::supported_standards;
use icrc7_ledger::ledger::Ledger;
use icrc7_ledger::principal::Principal;
use icrc7_ledger::queries::IsApprovedArg;
use icrc7_ledger::settings::{Collection, Settings, UpdateCollectionArg};
use icrc7_ledger::token_id::TokenId;
use icrc7_ledger::transaction::Op;
use icrc7_ledger::transfer::TransferArg;
use icrc7_ledger::transfer_from::TransferFromArg;
use icrc7_ledger::types::{
    ApproveCollectionError, ApproveTokenError, MetaValue, Metadata, MintError, RevokeCollectionApprovalError,
    RevokeTokenApprovalError, TransferError, TransferFromError,
};

const NOW: u64 = 1_700_000_000;

fn p(b: u8) -> Principal {
    Principal(vec![b, b, 1])
}

fn settings(atomic: bool) -> Settings {
    Settings {
        max_query_batch_size: 100,
        max_update_batch_size: 20,
        default_take_value: 10,
        max_take_value: 100,
        max_memo_size: 32,
        atomic_batch_transfers: atomic,
        tx_window: 7200,
        permitted_drift: 120,
        max_approvals_per_token_or_collection: 3,
        max_revoke_approvals: 10,
    }
}

fn ledger(atomic: bool) -> Ledger {
    let c = Collection {
        symbol: "TT".to_string(),
        name: "Test".to_string(),
        description: None,
        logo: None,
        assets_origin: None,
        total_supply: 0,
        supply_cap: None,
        created_at: 0,
        updated_at: 0,
        minters: vec![p(9)],
        managers: vec![p(9)],
        settings: settings(atomic),
    };
    Ledger::new(c, vec![7u8; 32])
}

fn create_arg(content: &[u8], cap: Option<u32>) -> CreateTokenArg {
    CreateTokenArg {
        name: "C1".to_string(),
        description: None,
        asset_name: "a.png".to_string(),
        asset_content_type: "image/png".to_string(),
        asset_content: content.to_vec(),
        metadata: Metadata(vec![]),
        supply_cap: cap,
        author: p(9),
        challenge: None,
    }
}

fn key(c: u32, s: u32) -> u64 {
    TokenId(c, s).to_u64()
}

fn xfer(to: u8, id: u64) -> TransferArg {
    TransferArg { to: p(to), token_id: id, memo: None, created_at_time: None }
}

#[test]
fn supply_cap_scenario() {
    let mut l = ledger(false);
    let c1 = l.create_token(&p(9), create_arg(b"one", Some(2)), NOW).unwrap();
    assert_eq!(c1, 1);
    let r = l.mint(&p(9), key(c1, 0), &vec![p(1), p(2)], NOW).unwrap();
    assert_eq!(r, Ok(1));
    let r = l.mint(&p(9), key(c1, 0), &vec![p(3)], NOW).unwrap();
    assert_eq!(r, Err(MintError::SupplyCapReached));
    assert_eq!(l.tokens[0].total_supply, 2);
}

#[test]
fn approve_then_transfer_from_scenario() {
    let mut l = ledger(false);
    let c1 = l.create_token(&p(9), create_arg(b"one", None), NOW).unwrap();
    l.mint(&p(9), key(c1, 0), &vec![p(1)], NOW).unwrap().unwrap();
    let a = ApproveTokenArg { token_id: key(c1, 1), spender: p(5), created_at_time: None, expires_at: Some(NOW + 100), memo: None };
    let r = l.approve_tokens(&p(1), vec![a], NOW).unwrap();
    assert!(r[0].is_ok());
    let tf = TransferFromArg { from: p(1), to: p(2), token_id: key(c1, 1), memo: None, created_at_time: None };
    let r = l.transfer_from(&p(5), &vec![tf], NOW).unwrap();
    let idx = r[0].clone().unwrap();
    assert_eq!(l.log.0[idx as usize].op, Op::TransferFrom);
    assert_eq!(l.owner_of(&vec![key(c1, 1)]).unwrap()[0], Some(p(2)));
    let q = IsApprovedArg { spender: p(5), token_id: key(c1, 1) };
    assert_eq!(l.is_approved(&p(2), &vec![q], NOW).unwrap(), vec![false]);
    assert!(l.token_approvals.iter().all(|t| t.id != key(c1, 1) || t.approvals.0.is_empty()));
}

fn minted(atomic: bool) -> Ledger {
    // class 1: serials 1..=3 held by p(1), p(1), p(2); class 2: serial 1 held by p(1)
    let mut l = ledger(atomic);
    l.create_token(&p(9), create_arg(b"one", None), NOW).unwrap();
    l.create_token(&p(9), create_arg(b"two", None), NOW).unwrap();
    l.mint(&p(9), key(1, 0), &vec![p(1), p(1), p(2)], NOW).unwrap().unwrap();
    l.mint(&p(9), key(2, 0), &vec![p(1)], NOW).unwrap().unwrap();
    l
}

fn holder(l: &Ledger, id: u64) -> Option<Principal> {
    l.owner_of(&vec![id]).unwrap()[0].clone()
}

fn all_tokens_of(l: &Ledger, who: &Principal, take: u64) -> Vec<u64> {
    let mut out = Vec::new();
    let mut prev = None;
    loop {
        let page = l.tokens_of(who, prev, Some(take));
        if page.is_empty() {
            return out;
        }
        prev = Some(*page.last().unwrap());
        out.extend(page);
    }
}

fn consistent(l: &Ledger) {
    for (ci, o) in l.owners.iter().enumerate() {
        for (si, h) in o.0.iter().enumerate() {
            let id = key(ci as u32 + 1, si as u32 + 1);
            assert!(l.tokens_of(h, Some(id - 1), Some(1)) == vec![id]);
        }
    }
    let total: u64 = l.owner_tokens.iter().map(|e| e.ids.len() as u64).sum();
    let minted: u64 = l.owners.iter().map(|o| o.0.len() as u64).sum();
    assert_eq!(total, minted);
}

#[test]
fn transfer_moves_and_logs() {
    let mut l = minted(false);
    let before = l.total();
    let r = l.transfer(&p(1), &vec![xfer(3, key(1, 1))], NOW).unwrap();
    assert_eq!(r, vec![Ok(before)]);
    assert_eq!(holder(&l, key(1, 1)), Some(p(3)));
    assert_eq!(l.log.0[before as usize].op, Op::Transfer);
    assert_eq!(l.balance_of(&vec![p(1), p(3)]).unwrap(), vec![2, 1]);
    consistent(&l);
}

#[test]
fn transfer_item_errors() {
    let mut l = minted(false);
    let mut old = xfer(3, key(1, 1));
    old.created_at_time = Some(NOW - 7321);
    let mut future = xfer(3, key(1, 1));
    future.created_at_time = Some(NOW + 121);
    let mut memo = xfer(3, key(1, 1));
    memo.memo = Some(vec![0u8; 33]);
    let args = vec![xfer(3, key(1, 9)), xfer(3, key(1, 3)), xfer(1, key(1, 1)), old, future, memo];
    let r = l.transfer(&p(1), &args, NOW).unwrap();
    assert_eq!(r[0], Err(TransferError::NonExistingTokenId));
    assert_eq!(r[1], Err(TransferError::Unauthorized));
    assert_eq!(r[2], Err(TransferError::InvalidRecipient));
    assert_eq!(r[3], Err(TransferError::TooOld));
    assert_eq!(r[4], Err(TransferError::CreatedInFuture { ledger_time: NOW }));
    assert!(matches!(r[5], Err(TransferError::GenericError { .. })));
    assert_eq!(holder(&l, key(1, 1)), Some(p(1)));
}

#[test]
fn transfer_batch_aborts() {
    let mut l = minted(false);
    assert!(l.transfer(&p(1), &vec![], NOW).is_err());
    let big: Vec<TransferArg> = (0..21).map(|_| xfer(3, key(1, 1))).collect();
    assert!(l.transfer(&p(1), &big, NOW).is_err());
    assert!(l.transfer(&Principal(vec![4]), &vec![xfer(3, key(1, 1))], NOW).is_err());
    assert_eq!(l.total(), 4);
}

#[test]
fn atomic_batch_all_or_nothing() {
    let mut l = minted(true);
    let args = vec![xfer(3, key(1, 1)), xfer(3, key(1, 2)), xfer(3, key(1, 3))];
    assert!(l.transfer(&p(1), &args, NOW).is_err());
    assert_eq!(holder(&l, key(1, 1)), Some(p(1)));
    assert_eq!(holder(&l, key(1, 2)), Some(p(1)));
    assert_eq!(l.total(), 4);
    let ok = vec![xfer(3, key(1, 1)), xfer(3, key(1, 2))];
    assert_eq!(l.transfer(&p(1), &ok, NOW).unwrap(), vec![Ok(4), Ok(5)]);
}

#[test]
fn non_atomic_batch_keeps_earlier_items() {
    let mut l = minted(false);
    let args = vec![xfer(3, key(1, 1)), xfer(3, key(1, 3))];
    let r = l.transfer(&p(1), &args, NOW).unwrap();
    assert_eq!(r[0], Ok(4));
    assert_eq!(r[1], Err(TransferError::Unauthorized));
    assert_eq!(holder(&l, key(1, 1)), Some(p(3)));
}

#[test]
fn ownership_consistent_after_sequence() {
    let mut l = minted(false);
    l.transfer(&p(1), &vec![xfer(2, key(1, 1))], NOW).unwrap();
    let a = ApproveCollectionArg { spender: p(5), created_at_time: None, expires_at: Some(NOW + 10), memo: None };
    l.approve_collection(&p(2), vec![a], NOW).unwrap();
    let tf = TransferFromArg { from: p(2), to: p(4), token_id: key(1, 3), memo: None, created_at_time: None };
    assert!(l.transfer_from(&p(5), &vec![tf], NOW).unwrap()[0].is_ok());
    consistent(&l);
    assert_eq!(all_tokens_of(&l, &p(2), 10), vec![key(1, 1)]);
    assert_eq!(all_tokens_of(&l, &p(4), 10), vec![key(1, 3)]);
}

#[test]
fn pagination_visits_each_once() {
    let l = minted(false);
    assert_eq!(all_tokens_of(&l, &p(1), 1), vec![key(1, 1), key(1, 2), key(2, 1)]);
    assert_eq!(all_tokens_of(&l, &p(1), 2), vec![key(1, 1), key(1, 2), key(2, 1)]);
    assert_eq!(l.tokens_of(&p(1), None, Some(2)), vec![key(1, 1), key(1, 2)]);
    assert_eq!(l.tokens_of(&p(1), Some(key(1, 2)), Some(2)), vec![key(2, 1)]);
    assert!(l.tokens_of(&p(7), None, None).is_empty());
}

#[test]
fn class_pagination() {
    let mut l = minted(false);
    l.create_token(&p(9), create_arg(b"three", None), NOW).unwrap();
    assert_eq!(l.tokens(None, Some(2)), vec![key(1, 1), key(2, 1)]);
    assert_eq!(l.owner_of(&vec![key(1, 1)]).unwrap()[0], Some(p(1)));
    assert_eq!(l.tokens(Some(key(2, 1)), Some(2)), vec![key(3, 1)]);
    assert!(l.tokens(Some(key(3, 1)), Some(2)).is_empty());
}

#[test]
fn approval_expiry_is_comparison() {
    let mut l = minted(false);
    let a = |s: u8, exp: u64| ApproveTokenArg { token_id: key(1, 1), spender: p(s), created_at_time: None, expires_at: Some(exp), memo: None };
    let r = l.approve_tokens(&p(1), vec![a(5, NOW - 1), a(6, NOW + 1)], NOW).unwrap();
    assert!(r.iter().all(|x| x.is_ok()));
    let q = |s: u8| IsApprovedArg { spender: p(s), token_id: key(1, 1) };
    assert_eq!(l.is_approved(&p(1), &vec![q(5), q(6)], NOW).unwrap(), vec![false, true]);
    let rv = RevokeTokenApprovalArg { token_id: key(1, 1), spender: None, memo: None, created_at_time: None };
    assert!(l.revoke_token_approvals(&p(1), vec![rv], NOW).unwrap()[0].is_ok());
    assert_eq!(l.is_approved(&p(1), &vec![q(5), q(6)], NOW).unwrap(), vec![false, false]);
    assert!(l.get_token_approvals(key(1, 1), &None, None).is_empty());
    assert_eq!(l.is_approved(&Principal(vec![4]), &vec![q(6)], NOW).unwrap(), vec![false]);
}

#[test]
fn approve_token_errors() {
    let mut l = minted(false);
    let a = |id: u64, s: u8| ApproveTokenArg { token_id: id, spender: p(s), created_at_time: None, expires_at: Some(NOW + 5), memo: None };
    let r = l.approve_tokens(&p(1), vec![a(key(1, 1), 1), a(key(1, 3), 5), a(key(1, 1), 5), a(key(1, 1), 6), a(key(1, 1), 7), a(key(1, 1), 8)], NOW).unwrap();
    assert_eq!(r[0], Err(ApproveTokenError::InvalidSpender));
    assert_eq!(r[1], Err(ApproveTokenError::NonExistingTokenId));
    assert!(r[2].is_ok() && r[3].is_ok() && r[4].is_ok());
    assert!(matches!(r[5], Err(ApproveTokenError::GenericBatchError { .. })));
    let r = l.approve_tokens(&p(8), vec![a(key(1, 1), 5)], NOW).unwrap();
    assert_eq!(r[0], Err(ApproveTokenError::Unauthorized));
    let infos = l.get_token_approvals(key(1, 1), &None, Some(2));
    assert_eq!(infos.len(), 2);
    assert_eq!(infos[0].approval_info.spender, p(5));
    let rest = l.get_token_approvals(key(1, 1), &Some(p(6)), Some(2));
    assert_eq!(rest.len(), 1);
    assert_eq!(rest[0].approval_info.spender, p(7));
    assert_eq!(rest[0].approval_info.created_at_time, None);
    assert_eq!(rest[0].approval_info.expires_at, Some(NOW + 5));
}

#[test]
fn revoke_token_errors() {
    let mut l = minted(false);
    let rv = |id: u64, s: Option<u8>| RevokeTokenApprovalArg { token_id: id, spender: s.map(p), memo: None, created_at_time: None };
    let r = l.revoke_token_approvals(&p(1), vec![rv(key(1, 1), Some(5)), rv(key(1, 3), None)], NOW).unwrap();
    assert_eq!(r[0], Err(RevokeTokenApprovalError::ApprovalDoesNotExist));
    assert_eq!(r[1], Err(RevokeTokenApprovalError::NonExistingTokenId));
    let r = l.revoke_token_approvals(&p(8), vec![rv(key(1, 1), None)], NOW).unwrap();
    assert_eq!(r[0], Err(RevokeTokenApprovalError::Unauthorized));
}

#[test]
fn collection_approvals_and_transfer_from() {
    let mut l = minted(false);
    let a = |s: u8| ApproveCollectionArg { spender: p(s), created_at_time: Some(NOW), expires_at: Some(NOW + 50), memo: None };
    let r = l.approve_collection(&p(1), vec![a(5), a(1)], NOW).unwrap();
    assert!(r[0].is_ok());
    assert_eq!(r[1], Err(ApproveCollectionError::InvalidSpender));
    let listed = l.get_collection_approvals(&p(1), &None, None);
    assert_eq!(listed.len(), 1);
    assert_eq!(listed[0].created_at_time, Some(NOW));
    let tf = |id: u64, to: u8| TransferFromArg { from: p(1), to: p(to), token_id: id, memo: None, created_at_time: None };
    let r = l.transfer_from(&p(5), &vec![tf(key(2, 1), 3), tf(key(1, 3), 3), tf(key(1, 1), 1)], NOW).unwrap();
    assert!(r[0].is_ok());
    assert_eq!(r[1], Err(TransferFromError::Unauthorized));
    assert_eq!(r[2], Err(TransferFromError::InvalidRecipient));
    let r = l.transfer_from(&p(6), &vec![tf(key(1, 1), 3)], NOW).unwrap();
    assert_eq!(r[0], Err(TransferFromError::Unauthorized));
    let rv = |s: Option<u8>| RevokeCollectionApprovalArg { spender: s.map(p), memo: None, created_at_time: None };
    let r = l.revoke_collection_approvals(&p(1), vec![rv(Some(6)), rv(None)], NOW).unwrap();
    assert_eq!(r[0], Err(RevokeCollectionApprovalError::ApprovalDoesNotExist));
    assert!(r[1].is_ok());
    assert!(l.get_collection_approvals(&p(1), &None, None).is_empty());
    let r = l.transfer_from(&p(5), &vec![tf(key(1, 1), 3)], NOW).unwrap();
    assert_eq!(r[0], Err(TransferFromError::Unauthorized));
}

#[test]
fn mint_guards() {
    let mut l = minted(false);
    assert!(l.mint(&p(1), key(1, 0), &vec![p(2)], NOW).is_err());
    assert!(l.mint(&p(9), key(1, 0), &vec![], NOW).is_err());
    assert_eq!(l.mint(&p(9), key(7, 0), &vec![p(2)], NOW).unwrap(), Err(MintError::NonExistingTokenId));
    assert_eq!(l.mint(&p(9), key(1, 0), &vec![p(2)], NOW).unwrap(), Ok(4));
    assert_eq!(holder(&l, key(1, 4)), Some(p(2)));
}

#[test]
fn create_token_guards() {
    let mut l = ledger(false);
    assert!(l.create_token(&p(1), create_arg(b"x", None), NOW).is_err());
    assert_eq!(l.create_token(&p(9), create_arg(b"x", None), NOW), Ok(1));
    assert!(l.create_token(&p(9), create_arg(b"x", None), NOW).is_err());
    assert_eq!(l.collection.total_supply, 1);
    assert_eq!(icrc7_ledger::assets::total(&l.assets), 1);
    let mut capped = ledger(false);
    capped.collection.supply_cap = Some(1);
    capped.create_token(&p(9), create_arg(b"x", None), NOW).unwrap();
    assert!(capped.create_token(&p(9), create_arg(b"y", None), NOW).is_err());
}

#[test]
fn create_token_by_secret_flow() {
    let mut l = ledger(false);
    let content = b"art".to_vec();
    let req = SecretArg { author: p(3), asset_hash: sha3_256(&content).to_vec() };
    let challenge = l.secret(&p(9), &req, NOW).unwrap();
    assert!(l.secret(&p(3), &req, NOW).is_err());
    let mut arg = create_arg(&content, None);
    arg.author = p(3);
    arg.challenge = Some(challenge.clone());
    assert!(l.create_token_by_secret(&p(4), arg.clone(), NOW).is_err());
    assert!(l.create_token_by_secret(&p(3), arg.clone(), NOW + 601).is_err());
    assert_eq!(l.create_token_by_secret(&p(3), arg.clone(), NOW + 600), Ok(1));
    let mut other = create_arg(b"different", None);
    other.author = p(3);
    other.challenge = Some(challenge);
    assert!(l.create_token_by_secret(&p(3), other, NOW).is_err());
    let mut none = create_arg(b"z", None);
    none.author = p(3);
    assert!(l.create_token_by_secret(&p(3), none, NOW).is_err());
}

#[test]
fn update_token_rules() {
    let mut l = ledger(false);
    l.create_token(&p(9), create_arg(b"one", Some(5)), NOW).unwrap();
    l.mint(&p(9), key(1, 0), &vec![p(1), p(2)], NOW).unwrap().unwrap();
    let upd = |cap: Option<u32>| UpdateTokenArg {
        id: key(1, 0), name: Some("renamed".to_string()), description: None, asset_name: None,
        asset_content_type: None, asset_content: None, metadata: None, supply_cap: cap, author: None,
    };
    assert!(l.update_token(&p(9), upd(Some(6)), NOW).is_err());
    assert!(l.update_token(&p(9), upd(Some(1)), NOW).is_err());
    assert!(l.update_token(&p(1), upd(None), NOW).is_err());
    assert!(l.update_token(&p(9), upd(Some(2)), NOW + 1).is_ok());
    assert_eq!(l.tokens[0].name, "renamed");
    assert_eq!(l.tokens[0].supply_cap, Some(2));
    assert_eq!(l.tokens[0].updated_at, NOW + 1);
    let mut a = upd(None);
    a.asset_content = Some(b"new".to_vec());
    a.name = None;
    assert!(l.update_token(&p(9), a, NOW).is_ok());
    assert_eq!(l.tokens[0].asset_hash, icrc7_ledger::challenge::sha3_256(b"new").to_vec());
    assert_eq!(l.assets.len(), 1);
    assert_eq!(l.mint(&p(9), key(1, 0), &vec![p(3)], NOW).unwrap(), Err(MintError::SupplyCapReached));
}

#[test]
fn update_collection_rules() {
    let mut l = ledger(false);
    l.collection.supply_cap = Some(10);
    let arg = |cap: Option<u64>| UpdateCollectionArg {
        name: Some("N".to_string()), description: None, logo: None, assets_origin: None, supply_cap: cap,
        max_query_batch_size: None, max_update_batch_size: Some(5), default_take_value: None,
        max_take_value: None, max_memo_size: None, atomic_batch_transfers: Some(true), tx_window: None,
        permitted_drift: None, max_approvals_per_token_or_collection: None, max_revoke_approvals: None,
    };
    assert!(l.update_collection(&p(9), arg(Some(11)), NOW).is_err());
    assert!(l.update_collection(&p(1), arg(None), NOW).is_err());
    assert!(l.update_collection(&p(9), arg(Some(8)), NOW).is_ok());
    assert_eq!(l.collection.supply_cap, Some(8));
    assert_eq!(l.collection.name, "N");
    assert_eq!(l.collection.settings.max_update_batch_size, 5);
    assert!(l.collection.settings.atomic_batch_transfers);
    assert_eq!(l.collection.settings.max_query_batch_size, 100);
}

#[test]
fn metadata_entries() {
    let l = minted(false);
    let m = l.collection.metadata();
    assert_eq!(m.0[0], ("icrc7:symbol".to_string(), MetaValue::Text("TT".to_string())));
    assert_eq!(m.0.len(), 3);
    assert_eq!(m.0[2], ("icrc7:total_supply".to_string(), MetaValue::Nat(2)));
    let t = l.token_metadata(&vec![key(1, 1), key(5, 1)]).unwrap();
    assert!(t[1].is_none());
    let tm = t[0].clone().unwrap();
    assert!(tm.0.contains(&("asset_hash".to_string(), MetaValue::Blob(icrc7_ledger::challenge::sha3_256(b"one").to_vec()))));
    assert_eq!(l.collection.icrc37_metadata().0.len(), 2);
    let s = supported_standards();
    assert_eq!(s.len(), 3);
    assert_eq!(s[0].name, "ICRC-7");
}

#[test]
fn atomic_transfer_from_all_or_nothing() {
    let mut l = minted(true);
    let a = ApproveCollectionArg { spender: p(5), created_at_time: None, expires_at: Some(NOW + 50), memo: None };
    l.approve_collection(&p(1), vec![a], NOW).unwrap();
    let tf = |id: u64| TransferFromArg { from: p(1), to: p(3), token_id: id, memo: None, created_at_time: None };
    let before = l.total();
    assert!(l.transfer_from(&p(5), &vec![tf(key(1, 1)), tf(key(1, 3))], NOW).is_err());
    assert_eq!(holder(&l, key(1, 1)), Some(p(1)));
    assert_eq!(l.total(), before);
    let r = l.transfer_from(&p(5), &vec![tf(key(1, 1)), tf(key(2, 1))], NOW).unwrap();
    assert_eq!(r, vec![Ok(before), Ok(before + 1)]);
    assert_eq!(all_tokens_of(&l, &p(3), 1), vec![key(1, 1), key(2, 1)]);
}

#[test]
fn collection_approval_limit_and_paging() {
    let mut l = minted(false);
    let a = |s: u8| ApproveCollectionArg { spender: p(s), created_at_time: None, expires_at: None, memo: None };
    let r = l.approve_collection(&p(1), vec![a(4), a(5), a(6), a(7)], NOW).unwrap();
    assert!(r[0].is_ok() && r[1].is_ok() && r[2].is_ok());
    assert!(matches!(r[3], Err(ApproveCollectionError::GenericBatchError { .. })));
    let first = l.get_collection_approvals(&p(1), &None, Some(2));
    assert_eq!(first.iter().map(|i| i.spender.clone()).collect::<Vec<_>>(), vec![p(4), p(5)]);
    let next = l.get_collection_approvals(&p(1), &Some(p(5)), Some(2));
    assert_eq!(next.iter().map(|i| i.spender.clone()).collect::<Vec<_>>(), vec![p(6)]);
    assert_eq!(next[0].expires_at, None);
    let q = IsApprovedArg { spender: p(4), token_id: key(1, 1) };
    assert_eq!(l.is_approved(&p(1), &vec![q], NOW).unwrap(), vec![false]);
}

#[test]
fn default_page_size_applies() {
    let mut l = ledger(false);
    l.create_token(&p(9), create_arg(b"one", None), NOW).unwrap();
    let holders: Vec<Principal> = (0..12).map(|_| p(1)).collect();
    l.mint(&p(9), key(1, 0), &holders[..12].to_vec(), NOW).unwrap().unwrap();
    assert_eq!(l.tokens_of(&p(1), None, None).len(), 10);
    assert_eq!(l.tokens_of(&p(1), None, Some(500)).len(), 12);
    assert_eq!(l.balance_of(&vec![p(1)]).unwrap(), vec![12]);
}

#[test]
fn duplicate_transfer_detected() {
    let mut l = minted(false);
    let mut a = xfer(3, key(1, 1));
    a.created_at_time = Some(NOW);
    a.memo = Some(vec![1, 2]);
    let r = l.transfer(&p(1), &vec![a.clone(), a.clone()], NOW).unwrap();
    assert_eq!(r[0], Ok(4));
    assert_eq!(r[1], Err(TransferError::Duplicate { duplicate_of: 4 }));
    let mut other_memo = a.clone();
    other_memo.memo = Some(vec![1, 3]);
    let r = l.transfer(&p(1), &vec![other_memo], NOW).unwrap();
    assert_eq!(r[0], Err(TransferError::Unauthorized));
    let mut untimed = xfer(1, key(1, 1));
    untimed.created_at_time = None;
    assert_eq!(l.transfer(&p(3), &vec![untimed.clone()], NOW).unwrap()[0], Ok(5));
    assert_eq!(l.transfer(&p(1), &vec![xfer(3, key(1, 1))], NOW).unwrap()[0], Ok(6));
}

#[test]
fn duplicate_transfer_from_detected() {
    let mut l = minted(false);
    let a = ApproveCollectionArg { spender: p(5), created_at_time: None, expires_at: Some(NOW + 50), memo: None };
    l.approve_collection(&p(1), vec![a], NOW).unwrap();
    let tf = TransferFromArg { from: p(1), to: p(3), token_id: key(1, 1), memo: None, created_at_time: Some(NOW - 5) };
    let r = l.transfer_from(&p(5), &vec![tf.clone()], NOW).unwrap();
    let first = r[0].clone().unwrap();
    let r = l.transfer_from(&p(5), &vec![tf], NOW).unwrap();
    assert_eq!(r[0], Err(TransferFromError::Duplicate { duplicate_of: first }));
}

#[test]
fn approvals_listed_by_spender() {
    let mut l = minted(false);
    let a = |s: u8| ApproveTokenArg { token_id: key(1, 1), spender: p(s), created_at_time: None, expires_at: Some(NOW + 9), memo: None };
    l.approve_tokens(&p(1), vec![a(7), a(5)], NOW).unwrap();
    let all: Vec<Principal> = l.get_token_approvals(key(1, 1), &None, None).into_iter().map(|t| t.approval_info.spender).collect();
    assert_eq!(all, vec![p(5), p(7)]);
    let after: Vec<Principal> = l.get_token_approvals(key(1, 1), &Some(p(6)), None).into_iter().map(|t| t.approval_info.spender).collect();
    assert_eq!(after, vec![p(7)]);
    assert_eq!(Principal(vec![9]).compare(&Principal(vec![1, 1])), -1);
    assert_eq!(p(5).compare(&p(5)), 0);
}

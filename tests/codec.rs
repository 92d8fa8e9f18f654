use icrc7_ledger::settings::{check_item, take_value, Settings};
use icrc7_ledger::token_id::TokenId;
use icrc7_ledger::types::ItemCheck;

fn settings() -> Settings {
    Settings {
        max_query_batch_size: 100,
        max_update_batch_size: 20,
        default_take_value: 10,
        max_take_value: 100,
        max_memo_size: 32,
        atomic_batch_transfers: false,
        tx_window: 7200,
        permitted_drift: 120,
        max_approvals_per_token_or_collection: 3,
        max_revoke_approvals: 10,
    }
}

#[test]
fn id_round_trip_values() {
    for (c, s) in [(1u32, 1u32), (1, 2), (7, 0), (u32::MAX, u32::MAX), (123456, 654321)] {
        let v = TokenId(c, s).to_u64();
        assert_eq!(TokenId::from_u64(v), TokenId(c, s));
    }
    assert_eq!(TokenId(1, 1).to_u64(), (1u64 << 32) | 1);
    assert_eq!(TokenId(2, 0).to_u64(), 2u64 << 32);
}

#[test]
fn id_order_is_lexicographic() {
    assert!(TokenId(1, u32::MAX).to_u64() < TokenId(2, 0).to_u64());
    assert!(TokenId(3, 4).to_u64() < TokenId(3, 5).to_u64());
}

#[test]
fn id_next_and_index() {
    assert_eq!(TokenId(1, 1).next(), TokenId(1, 2));
    assert_eq!(TokenId(1, u32::MAX).next(), TokenId(2, 0));
    assert_eq!(TokenId(u32::MAX, u32::MAX).next(), TokenId(u32::MAX, u32::MAX));
    assert_eq!(TokenId(5, 9).token_index(), 4);
    assert_eq!(TokenId::min_id(), TokenId(1, 1));
}

#[test]
fn take_value_clamps() {
    let s = settings();
    assert_eq!(take_value(&s, None), 10);
    assert_eq!(take_value(&s, Some(5)), 5);
    assert_eq!(take_value(&s, Some(100)), 100);
    assert_eq!(take_value(&s, Some(1000)), 100);
}

#[test]
fn item_time_window() {
    let s = settings();
    let now = 1_000_000u64;
    assert_eq!(check_item(&s, now, None, 0), ItemCheck::Valid);
    assert_eq!(check_item(&s, now, Some(now - 7320), 0), ItemCheck::Valid);
    assert_eq!(check_item(&s, now, Some(now - 7321), 0), ItemCheck::TooOld);
    assert_eq!(check_item(&s, now, Some(now + 120), 0), ItemCheck::Valid);
    assert_eq!(check_item(&s, now, Some(now + 121), 0), ItemCheck::CreatedInFuture);
    assert_eq!(check_item(&s, now, None, 33), ItemCheck::MemoTooLong);
    assert_eq!(check_item(&s, now, None, 32), ItemCheck::Valid);
}

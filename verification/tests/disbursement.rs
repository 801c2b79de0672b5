//! The disbursement pass: treasury minting, obligation ordering,
//! partial-failure isolation, and steward rewards.

use treasury_bridge::addr::Address;
use treasury_bridge::dec::Dec;
use treasury_bridge::inflation::{apply_inflation, LogEntry};
use treasury_bridge::inflation_types::{
    PgfFunding, PgfParameters, PGFIbcTarget, PGFInternalTarget, PGFTarget, Steward,
};
use treasury_bridge::kv::Kv;
use treasury_bridge::ledger::{BalanceEntry, EventKind, Ledger, MintedEntry};

const NATIVE: Address = Address::Account(1);

fn base_ledger() -> Ledger {
    Ledger {
        store: Kv::empty(),
        balances: vec![],
        // One million native tokens minted in total.
        minted: vec![MintedEntry { token: NATIVE, amount: 1_000_000 }],
        minters: vec![],
        events: vec![],
        payments: vec![],
        stewards: vec![],
        pgf_params: PgfParameters {
            // One tenth per year for each pool.
            pgf_inflation_rate: Dec::from_raw(100_000),
            stewards_inflation_rate: Dec::from_raw(100_000),
        },
        epochs_per_year: 10,
        min_epoch_duration: 600,
        native_token: NATIVE,
    }
}

fn internal(id: u64, target: Address, amount: u128) -> PgfFunding {
    PgfFunding { id, detail: PGFTarget::Internal(PGFInternalTarget { target, amount }) }
}

fn paid_ids(log: &[LogEntry]) -> Vec<u64> {
    log.iter()
        .filter_map(|e| match e {
            LogEntry::PaidFunding { id, .. } => Some(*id),
            _ => None,
        })
        .collect()
}

#[test]
fn test_treasury_mint_amount() {
    let mut l = base_ledger();
    let log = apply_inflation(&mut l, 1000);
    // 1_000_000 total supply, 0.1 / year over 10 epochs: 10_000 per epoch.
    assert_eq!(log[0], LogEntry::MintedToTreasury { amount: 10_000 });
    assert_eq!(l.get_balance(NATIVE, Address::Pgf), 10_000);
    assert_eq!(l.get_minted(NATIVE), 1_010_000);
}

#[test]
fn test_obligations_paid_in_ascending_id_order() {
    let mut l = base_ledger();
    let (a, b, c) = (Address::Account(10), Address::Account(11), Address::Account(12));
    l.payments = vec![internal(3, a, 7), internal(1, b, 8), internal(2, c, 9)];
    let log = apply_inflation(&mut l, 1000);
    assert_eq!(paid_ids(&log), vec![1, 2, 3]);
    assert_eq!(l.get_balance(NATIVE, a), 7);
    assert_eq!(l.get_balance(NATIVE, b), 8);
    assert_eq!(l.get_balance(NATIVE, c), 9);
}

#[test]
fn test_failed_obligation_does_not_block_siblings() {
    let mut l = base_ledger();
    let (a, b, c) = (Address::Account(10), Address::Account(11), Address::Account(12));
    // Obligation 2's recipient rejects the credit: its balance cannot grow.
    l.balances = vec![BalanceEntry { token: NATIVE, owner: b, amount: u128::MAX }];
    l.payments = vec![internal(2, b, 8), internal(1, a, 7), internal(3, c, 9)];
    let log = apply_inflation(&mut l, 1000);
    assert_eq!(paid_ids(&log), vec![1, 3]);
    assert!(log.contains(&LogEntry::FundingFailed { id: 2, amount: 8 }));
    assert_eq!(l.get_balance(NATIVE, a), 7);
    assert_eq!(l.get_balance(NATIVE, b), u128::MAX);
    assert_eq!(l.get_balance(NATIVE, c), 9);
}

#[test]
fn test_insufficient_treasury_fails_only_late_obligations() {
    let mut l = base_ledger();
    let (a, b) = (Address::Account(10), Address::Account(11));
    // The epoch mints 10_000; the first obligation drains almost all of it.
    l.payments = vec![internal(1, a, 9_999), internal(2, b, 5_000)];
    let log = apply_inflation(&mut l, 1000);
    assert_eq!(paid_ids(&log), vec![1]);
    assert!(log.contains(&LogEntry::FundingFailed { id: 2, amount: 5_000 }));
    assert_eq!(l.get_balance(NATIVE, Address::Pgf), 1);
}

#[test]
fn test_steward_rewards_split_by_distribution() {
    let mut l = base_ledger();
    let (a, b) = (Address::Account(20), Address::Account(21));
    l.stewards = vec![Steward {
        address: Address::Account(19),
        reward_distribution: vec![(a, Dec::from_raw(600_000)), (b, Dec::from_raw(400_000))],
    }];
    let log = apply_inflation(&mut l, 1000);
    // The steward pool is 10_000; A holds 0.6 of it, B 0.4.
    assert!(log.contains(&LogEntry::PaidStewardReward { recipient: a, amount: 6_000 }));
    assert!(log.contains(&LogEntry::PaidStewardReward { recipient: b, amount: 4_000 }));
    assert_eq!(l.get_balance(NATIVE, a), 6_000);
    assert_eq!(l.get_balance(NATIVE, b), 4_000);
    // Steward rewards are minted, not moved from the treasury.
    assert_eq!(l.get_balance(NATIVE, Address::Pgf), 10_000);
    assert_eq!(l.get_minted(NATIVE), 1_020_000);
}

#[test]
fn test_steward_reward_failure_is_isolated() {
    let mut l = base_ledger();
    let (a, b) = (Address::Account(20), Address::Account(21));
    l.balances = vec![BalanceEntry { token: NATIVE, owner: a, amount: u128::MAX }];
    l.stewards = vec![Steward {
        address: Address::Account(19),
        reward_distribution: vec![(a, Dec::from_raw(600_000)), (b, Dec::from_raw(400_000))],
    }];
    let log = apply_inflation(&mut l, 1000);
    assert!(log.contains(&LogEntry::StewardRewardFailed { recipient: a, amount: 6_000 }));
    assert!(log.contains(&LogEntry::PaidStewardReward { recipient: b, amount: 4_000 }));
    assert_eq!(l.get_balance(NATIVE, b), 4_000);
}

#[test]
fn test_obligations_precede_stewards() {
    let mut l = base_ledger();
    let a = Address::Account(10);
    l.payments = vec![internal(1, a, 7)];
    l.stewards = vec![Steward {
        address: Address::Account(19),
        reward_distribution: vec![(a, Dec::from_raw(500_000))],
    }];
    let log = apply_inflation(&mut l, 1000);
    let funding_at = log
        .iter()
        .position(|e| matches!(e, LogEntry::PaidFunding { .. }))
        .unwrap();
    let steward_at = log
        .iter()
        .position(|e| matches!(e, LogEntry::PaidStewardReward { .. }))
        .unwrap();
    assert!(funding_at < steward_at);
}

#[test]
fn test_cross_chain_obligation_escrows_and_emits() {
    let mut l = base_ledger();
    l.payments = vec![PgfFunding {
        id: 1,
        detail: PGFTarget::Ibc(PGFIbcTarget {
            target: b"cosmos1recipient".to_vec(),
            amount: 25,
            port_id: b"transfer".to_vec(),
            channel_id: b"channel-0".to_vec(),
        }),
    }];
    let log = apply_inflation(&mut l, 1000);
    assert_eq!(paid_ids(&log), vec![1]);
    assert_eq!(l.get_balance(NATIVE, Address::IbcEscrow), 25);
    assert_eq!(l.events.len(), 1);
    let ev = &l.events[0];
    assert_eq!(ev.kind, EventKind::SendPacket);
    assert_eq!(ev.token, NATIVE);
    assert_eq!(ev.sender, Address::Pgf);
    assert_eq!(ev.receiver, b"cosmos1recipient".to_vec());
    assert_eq!(ev.amount, 25);
    assert_eq!(ev.port_id, b"transfer".to_vec());
    assert_eq!(ev.channel_id, b"channel-0".to_vec());
    // Dispatch time plus the configured minimum epoch duration.
    assert_eq!(ev.timeout_timestamp, 1600);
}

#[test]
fn test_dec_arithmetic() {
    let a = Dec::from_raw(600_000);
    let b = Dec::from_raw(1_500_000);
    assert_eq!(a.checked_mul(&b), Some(Dec::from_raw(900_000)));
    assert_eq!(b.checked_div(&a), Some(Dec::from_raw(2_500_000)));
    assert_eq!(Dec::from_raw(2_500_000).to_amount_floor(), 2);
    assert_eq!(a.checked_div(&Dec::zero()), None);
    assert_eq!(Dec::from_raw(u128::MAX).checked_mul(&Dec::from_raw(2)), None);
    assert_eq!(Dec::checked_from_u128(7), Some(Dec::from_raw(7_000_000)));
    assert_eq!(Dec::checked_from_u128(u128::MAX), None);
}

//! The protocol action execution context and the cross-chain dispatcher.

use treasury_bridge::actions::{transfer_over_ibc, ActionError, IbcProtocolContext};
use treasury_bridge::addr::Address;
use treasury_bridge::dec::Dec;
use treasury_bridge::inflation_types::{PgfParameters, PGFIbcTarget};
use treasury_bridge::kv::Kv;
use treasury_bridge::ledger::{BalanceEntry, EventKind, IbcEvent, Ledger, MintedEntry};

const NATIVE: Address = Address::Account(1);

fn ledger_with_balance(owner: Address, amount: u128) -> Ledger {
    Ledger {
        store: Kv::empty(),
        balances: vec![BalanceEntry { token: NATIVE, owner, amount }],
        minted: vec![MintedEntry { token: NATIVE, amount }],
        minters: vec![],
        events: vec![],
        payments: vec![],
        stewards: vec![],
        pgf_params: PgfParameters {
            pgf_inflation_rate: Dec::zero(),
            stewards_inflation_rate: Dec::zero(),
        },
        epochs_per_year: 1,
        min_epoch_duration: 60,
        native_token: NATIVE,
    }
}

fn ibc_target() -> PGFIbcTarget {
    PGFIbcTarget {
        target: b"chain-b-account".to_vec(),
        amount: 40,
        port_id: b"transfer".to_vec(),
        channel_id: b"channel-7".to_vec(),
    }
}

#[test]
fn test_dispatch_escrows_and_buffers_event() {
    let mut l = ledger_with_balance(Address::Pgf, 100);
    let r = transfer_over_ibc(&mut l, NATIVE, Address::Pgf, &ibc_target(), 500);
    assert!(r.is_ok());
    assert_eq!(l.get_balance(NATIVE, Address::Pgf), 60);
    assert_eq!(l.get_balance(NATIVE, Address::IbcEscrow), 40);
    assert_eq!(l.events.len(), 1);
    assert_eq!(l.events[0].kind, EventKind::SendPacket);
    assert_eq!(l.events[0].timeout_timestamp, 560);
    assert_eq!(l.events[0].receiver, b"chain-b-account".to_vec());
}

#[test]
fn test_dispatch_failure_leaves_ledger_unchanged() {
    let mut l = ledger_with_balance(Address::Pgf, 10);
    let r = transfer_over_ibc(&mut l, NATIVE, Address::Pgf, &ibc_target(), 500);
    assert!(r.is_err());
    assert_eq!(l.get_balance(NATIVE, Address::Pgf), 10);
    assert_eq!(l.get_balance(NATIVE, Address::IbcEscrow), 0);
    assert!(l.events.is_empty());
}

#[test]
fn test_context_transfer_and_burn() {
    let mut ctx = IbcProtocolContext { ledger: ledger_with_balance(Address::Account(5), 100) };
    ctx.transfer_token(Address::Account(5), Address::Account(6), NATIVE, 30).unwrap();
    assert_eq!(ctx.ledger.get_balance(NATIVE, Address::Account(5)), 70);
    assert_eq!(ctx.ledger.get_balance(NATIVE, Address::Account(6)), 30);

    ctx.burn_token(Address::Account(6), NATIVE, 10).unwrap();
    assert_eq!(ctx.ledger.get_balance(NATIVE, Address::Account(6)), 20);
    assert_eq!(ctx.ledger.get_minted(NATIVE), 90);

    // Insufficient balance: an error, and nothing moves.
    assert!(ctx.transfer_token(Address::Account(5), Address::Account(6), NATIVE, 1000).is_err());
    assert_eq!(ctx.ledger.get_balance(NATIVE, Address::Account(5)), 70);
}

#[test]
fn test_context_mint_records_minter() {
    let mut ctx = IbcProtocolContext { ledger: ledger_with_balance(Address::Pgf, 0) };
    let token = Address::Account(9);
    ctx.mint_token(Address::Account(5), token, 15).unwrap();
    assert_eq!(ctx.ledger.get_balance(token, Address::Account(5)), 15);
    assert_eq!(ctx.ledger.get_minted(token), 15);
    let minter = ctx.ledger.minters.last().unwrap();
    assert_eq!(minter.token, token);
    assert_eq!(minter.minter, Address::Ibc);
}

#[test]
fn test_shielded_transfer_is_refused() {
    let mut ctx = IbcProtocolContext { ledger: ledger_with_balance(Address::Pgf, 100) };
    let r = ctx.handle_masp_tx(&vec![1, 2, 3]);
    assert_eq!(r, Err(ActionError::UnsupportedShieldedTransfer));
    assert_eq!(ctx.ledger.get_balance(NATIVE, Address::Pgf), 100);
}

#[test]
fn test_event_query_filters_by_kind() {
    let mut ctx = IbcProtocolContext { ledger: ledger_with_balance(Address::Pgf, 0) };
    let mk = |kind: EventKind, amount: u128| IbcEvent {
        kind,
        token: NATIVE,
        sender: Address::Pgf,
        receiver: b"r".to_vec(),
        amount,
        port_id: b"transfer".to_vec(),
        channel_id: b"channel-0".to_vec(),
        timeout_timestamp: 9,
    };
    ctx.emit_ibc_event(mk(EventKind::SendPacket, 1)).unwrap();
    ctx.emit_ibc_event(mk(EventKind::AcknowledgePacket, 2)).unwrap();
    ctx.emit_ibc_event(mk(EventKind::SendPacket, 3)).unwrap();

    let sends = ctx.get_ibc_events(EventKind::SendPacket);
    assert_eq!(sends.len(), 2);
    assert_eq!(sends[0].amount, 1);
    assert_eq!(sends[1].amount, 3);
    assert_eq!(ctx.get_ibc_events(EventKind::TimeoutPacket).len(), 0);
}

#[test]
fn test_log_string_is_silent() {
    let ctx = IbcProtocolContext { ledger: ledger_with_balance(Address::Pgf, 5) };
    ctx.log_string(String::from("paid 5 tokens"));
    assert_eq!(ctx.ledger.get_balance(NATIVE, Address::Pgf), 5);
}

#[test]
fn test_transfer_to_self_moves_nothing() {
    let mut ctx = IbcProtocolContext { ledger: ledger_with_balance(Address::Account(5), 50) };
    ctx.transfer_token(Address::Account(5), Address::Account(5), NATIVE, 20).unwrap();
    assert_eq!(ctx.ledger.get_balance(NATIVE, Address::Account(5)), 50);
    // Still checked against the balance.
    assert!(ctx.transfer_token(Address::Account(5), Address::Account(5), NATIVE, 60).is_err());
}

#[test]
fn test_burn_more_than_held_fails() {
    let mut ctx = IbcProtocolContext { ledger: ledger_with_balance(Address::Account(5), 10) };
    assert!(ctx.burn_token(Address::Account(5), NATIVE, 11).is_err());
    assert_eq!(ctx.ledger.get_balance(NATIVE, Address::Account(5)), 10);
    assert_eq!(ctx.ledger.get_minted(NATIVE), 10);
}

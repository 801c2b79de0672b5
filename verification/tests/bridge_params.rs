//! Bridge parameter store: text round trip, storage initialization and
//! read-back, and the fatal/absent distinction.

use treasury_bridge::addr::{DenominatedAmount, EthAddress};
use treasury_bridge::kv::Kv;
use treasury_bridge::params::{
    active_key, encode_status, min_confirmations_key, native_erc20_key, BridgeStatus,
    ContractVersion, Contracts, Erc20WhitelistEntry, EthereumBridgeParams, EthereumOracleConfig,
    MinimumConfirmations, OracleReadOutcome, ReadError, UpgradeableContract,
};

fn sample_config() -> EthereumBridgeParams {
    EthereumBridgeParams {
        erc20_whitelist: vec![],
        eth_start_height: 0,
        min_confirmations: MinimumConfirmations::default(),
        contracts: Contracts {
            native_erc20: EthAddress { bytes: vec![42; 20] },
            bridge: UpgradeableContract {
                address: EthAddress { bytes: vec![23; 20] },
                version: ContractVersion::default(),
            },
        },
    }
}

#[test]
fn test_round_trip_toml_serde() {
    let config = sample_config();
    let serialized = config.to_text();
    let deserialized = EthereumBridgeParams::from_text(&serialized).unwrap();
    assert_eq!(config, deserialized);
}

#[test]
fn test_ethereum_bridge_config_read_write_storage() {
    let mut store = Kv::empty();
    let config = sample_config();
    config.init_storage(&mut store);

    let read = EthereumOracleConfig::read(&store).unwrap();
    let config = EthereumOracleConfig::from(config);

    assert_eq!(config, read);
}

#[test]
fn test_ethereum_bridge_config_uninitialized() {
    let store = Kv::empty();
    let read = EthereumOracleConfig::read(&store);

    assert!(read.is_none());
}

#[test]
fn test_ethereum_bridge_config_storage_corrupt() {
    let mut store = Kv::empty();
    let config = sample_config();
    config.init_storage(&mut store);
    store.write(min_confirmations_key(), vec![42, 1, 2, 3, 4]);

    // The value no longer decodes: the read is fatal, not `None`.
    assert_eq!(EthereumOracleConfig::try_read(&store), OracleReadOutcome::Corrupt);
}

#[test]
fn test_ethereum_bridge_config_storage_partially_configured() {
    let mut store = Kv::empty();
    store.write(active_key(), encode_status(BridgeStatus::EnabledAtGenesis));
    store.write(
        min_confirmations_key(),
        treasury_bridge::codec::borsh_encode_u64(100),
    );

    // The flag is present but most values are missing: fatal, not `None`.
    assert_eq!(EthereumOracleConfig::try_read(&store), OracleReadOutcome::Corrupt);
}

#[test]
fn test_deleted_key_is_corrupt() {
    let mut store = Kv::empty();
    sample_config().init_storage(&mut store);
    store.delete(native_erc20_key());
    assert_eq!(EthereumOracleConfig::try_read(&store), OracleReadOutcome::Corrupt);
}

#[test]
fn test_disabled_bridge_reads_none() {
    let mut store = Kv::empty();
    sample_config().init_storage(&mut store);
    store.write(active_key(), encode_status(BridgeStatus::Disabled));
    assert!(EthereumOracleConfig::read(&store).is_none());
}

#[test]
fn test_read_with_whitelist_and_epoch_status() {
    let mut store = Kv::empty();
    let mut config = sample_config();
    config.eth_start_height = 1234;
    config.min_confirmations = MinimumConfirmations::new(7).unwrap();
    config.erc20_whitelist = vec![
        Erc20WhitelistEntry {
            token_address: EthAddress { bytes: vec![1; 20] },
            token_cap: DenominatedAmount { amount: 500, denom: 18 },
        },
        Erc20WhitelistEntry {
            token_address: EthAddress { bytes: vec![42; 20] },
            token_cap: DenominatedAmount { amount: 9, denom: 6 },
        },
    ];
    config.init_storage(&mut store);
    store.write(active_key(), encode_status(BridgeStatus::EnabledAtEpoch(11)));

    let read = EthereumOracleConfig::read(&store).unwrap();
    assert_eq!(read.eth_start_height, 1234);
    assert_eq!(read.min_confirmations.get(), 7);
    assert_eq!(read.contracts.native_erc20.bytes, vec![42; 20]);
    assert_eq!(read.contracts.bridge.address.bytes, vec![23; 20]);
    assert_eq!(read.contracts.bridge.version.get(), 1);
}

#[test]
fn test_read_native_erc20_address() {
    let mut store = Kv::empty();
    assert_eq!(
        treasury_bridge::params::read_native_erc20_address(&store),
        Err(ReadError::NotInitialized)
    );

    sample_config().init_storage(&mut store);
    let addr = treasury_bridge::params::read_native_erc20_address(&store).unwrap();
    assert_eq!(addr.bytes, vec![42; 20]);

    store.write(native_erc20_key(), vec![1, 2, 3]);
    assert_eq!(
        treasury_bridge::params::read_native_erc20_address(&store),
        Err(ReadError::ReadFailed)
    );
}

#[test]
fn test_native_whitelist_precision_check() {
    let mut config = sample_config();
    // A non-native asset may use any precision.
    config.erc20_whitelist = vec![Erc20WhitelistEntry {
        token_address: EthAddress { bytes: vec![7; 20] },
        token_cap: DenominatedAmount { amount: 10, denom: 18 },
    }];
    assert!(config.whitelist_precision_ok());

    // The wrapped native asset must use the canonical native precision.
    config.erc20_whitelist = vec![Erc20WhitelistEntry {
        token_address: EthAddress { bytes: vec![42; 20] },
        token_cap: DenominatedAmount { amount: 10, denom: 18 },
    }];
    assert!(!config.whitelist_precision_ok());

    config.erc20_whitelist = vec![Erc20WhitelistEntry {
        token_address: EthAddress { bytes: vec![42; 20] },
        token_cap: DenominatedAmount {
            amount: 10,
            denom: treasury_bridge::NATIVE_MAX_DECIMAL_PLACES,
        },
    }];
    assert!(config.whitelist_precision_ok());
}

#[test]
fn test_text_form_is_exact() {
    let mut config = sample_config();
    config.eth_start_height = 42;
    config.erc20_whitelist = vec![Erc20WhitelistEntry {
        token_address: EthAddress { bytes: vec![1; 20] },
        token_cap: DenominatedAmount { amount: 500, denom: 18 },
    }];
    let text = config.to_text();
    let expected = "h = 42\nc = 100\nn = 2a2a2a2a2a2a2a2a2a2a2a2a2a2a2a2a2a2a2a2a\n\
                    b = 1717171717171717171717171717171717171717\nv = 1\nw = 1\n\
                    e = 0101010101010101010101010101010101010101 500 18\n";
    assert_eq!(text, expected.as_bytes());
}

#[test]
fn test_text_round_trip_with_whitelist() {
    let mut config = sample_config();
    config.eth_start_height = u64::MAX;
    config.min_confirmations = MinimumConfirmations::new(1).unwrap();
    config.erc20_whitelist = vec![
        Erc20WhitelistEntry {
            token_address: EthAddress { bytes: (0..20).collect() },
            token_cap: DenominatedAmount { amount: u128::MAX, denom: 0 },
        },
        Erc20WhitelistEntry {
            token_address: EthAddress { bytes: vec![0xab; 20] },
            token_cap: DenominatedAmount { amount: 0, denom: 255 },
        },
    ];
    let text = config.to_text();
    assert_eq!(EthereumBridgeParams::from_text(&text).unwrap(), config);
}

#[test]
fn test_text_rejects_invalid() {
    // A zero confirmation count may not enter memory.
    let zero_conf = "h = 1\nc = 0\nn = 2a2a2a2a2a2a2a2a2a2a2a2a2a2a2a2a2a2a2a2a\n\
                     b = 1717171717171717171717171717171717171717\nv = 1\nw = 0\n";
    assert!(EthereumBridgeParams::from_text(&zero_conf.as_bytes().to_vec()).is_none());

    // Truncated text.
    let truncated = "h = 1\nc = 5\n";
    assert!(EthereumBridgeParams::from_text(&truncated.as_bytes().to_vec()).is_none());

    // Trailing bytes.
    let config = sample_config();
    let mut text = config.to_text();
    text.push(b'x');
    assert!(EthereumBridgeParams::from_text(&text).is_none());
}

#[test]
fn test_validated_constructors_reject_zero() {
    assert!(MinimumConfirmations::new(0).is_none());
    assert_eq!(MinimumConfirmations::new(3).unwrap().get(), 3);
    assert!(ContractVersion::new(0).is_none());
    assert_eq!(ContractVersion::new(2).unwrap().get(), 2);
    assert_eq!(MinimumConfirmations::default().get(), 100);
    assert_eq!(ContractVersion::default().get(), 1);
}

#[test]
fn test_borsh_codec_shapes() {
    // borsh's own documented example: a u64 is eight little-endian bytes.
    assert_eq!(
        treasury_bridge::codec::borsh_encode_u64(12),
        vec![12, 0, 0, 0, 0, 0, 0, 0]
    );
    assert_eq!(
        treasury_bridge::codec::borsh_decode_u64(&vec![12, 0, 0, 0, 0, 0, 0, 0]),
        Some(12)
    );
    // Wrong length or an invalid flag byte is rejected.
    assert_eq!(treasury_bridge::codec::borsh_decode_u64(&vec![1, 2, 3]), None);
    assert_eq!(treasury_bridge::codec::borsh_encode_bool(true), vec![1]);
    assert_eq!(treasury_bridge::codec::borsh_decode_bool(&vec![2]), None);
    assert_eq!(
        treasury_bridge::codec::borsh_encode_u128(1).len(),
        16
    );
    assert_eq!(
        treasury_bridge::codec::borsh_decode_u128(&treasury_bridge::codec::borsh_encode_u128(
            u128::MAX
        )),
        Some(u128::MAX)
    );
}

#[test]
fn test_kv_store_latest_write_wins() {
    let mut store = Kv::empty();
    assert!(!store.has_key(&vec![9]));
    store.write(vec![9], vec![1]);
    store.write(vec![9], vec![2, 2]);
    assert_eq!(store.read(&vec![9]), Some(vec![2, 2]));
    store.delete(vec![9]);
    assert!(store.read(&vec![9]).is_none());
}

#[test]
fn test_hand_edited_text_parses() {
    let text = "h = 7\nc = 3\nn = 2a2a2a2a2a2a2a2a2a2a2a2a2a2a2a2a2a2a2a2a\n\
                b = 1717171717171717171717171717171717171717\nv = 2\nw = 0\n";
    let parsed = EthereumBridgeParams::from_text(&text.as_bytes().to_vec()).unwrap();
    assert_eq!(parsed.eth_start_height, 7);
    assert_eq!(parsed.min_confirmations.get(), 3);
    assert_eq!(parsed.contracts.bridge.version.get(), 2);
    assert!(parsed.erc20_whitelist.is_empty());
}

#[test]
fn test_eth_address_validation() {
    assert!(EthAddress::from_bytes(vec![1, 2, 3]).is_none());
    let a = EthAddress::from_bytes(vec![5; 20]).unwrap();
    let b = EthAddress::from_bytes(vec![5; 20]).unwrap();
    let c = EthAddress::from_bytes(vec![6; 20]).unwrap();
    assert!(a.eq_addr(&b));
    assert!(!a.eq_addr(&c));
}

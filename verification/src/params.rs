//! Parameters for configuring the external-chain bridge: their data model,
//! binary storage layout, initialization, and read-back.
//!
//! The parameters are written once at genesis to distinct keys of the
//! key-value store. Reading them back distinguishes three situations: the
//! bridge was never bootstrapped (the enabled flag is absent, or it says
//! disabled) — a recoverable "absent" answer; the flag is present and every
//! key reads back — the oracle configuration; the flag is present but some
//! key is missing or undecodable — corrupt storage, a fatal condition that
//! must never be mistaken for either of the other two.

use vstd::prelude::*;

use crate::NATIVE_MAX_DECIMAL_PLACES;
use crate::addr::{DenominatedAmount, EthAddress, ETH_ADDRESS_LEN};
use crate::codec::{
    borsh_decode_u64, borsh_encode_bool, borsh_encode_u128, borsh_encode_u64, bytes_range,
    dec_u64, enc_bool, enc_u128, enc_u64, le_val, lemma_u64_round_trip,
};
use crate::kv::{clone_bytes, Kv};

verus! {

// ---------------------------------------------------------------------------
// Value types
// ---------------------------------------------------------------------------
/// The minimum number of external-chain confirmations an event must reach
/// before it can be acted on. Never zero: the constructor rejects zero, so a
/// zero value cannot exist.
#[derive(Clone, Copy, PartialEq, Eq, Structural, Debug)]
pub struct MinimumConfirmations {
    raw: u64,
}

impl View for MinimumConfirmations {
    type V = u64;

    closed spec fn view(&self) -> u64 {
        self.raw
    }
}

impl MinimumConfirmations {
    /// The value is a positive integer.
    #[verifier::type_invariant]
    pub closed spec fn inv(&self) -> bool {
        self.raw != 0
    }

    /// Validated construction: zero is rejected.
    pub fn new(raw: u64) -> (r: Option<MinimumConfirmations>)
        ensures
            raw != 0 ==> (r matches Some(c) && c@ == raw),
            raw == 0 ==> r is None,
    {
        if raw != 0 {
            Some(MinimumConfirmations { raw })
        } else {
            None
        }
    }

    /// The underlying count.
    pub fn get(&self) -> (r: u64)
        ensures
            r == self@,
            r >= 1,
    {
        proof {
            use_type_invariant(self);
        }
        self.raw
    }
}

impl Default for MinimumConfirmations {
    /// The default confirmation threshold.
    fn default() -> (r: Self)
        ensures
            r@ == 100,
    {
        MinimumConfirmations { raw: 100 }
    }
}

/// The version of an upgradeable bridge contract. Starts from 1 and never
/// holds zero: the constructor rejects zero.
#[derive(Clone, Copy, PartialEq, Eq, Structural, Debug)]
pub struct ContractVersion {
    raw: u64,
}

impl View for ContractVersion {
    type V = u64;

    closed spec fn view(&self) -> u64 {
        self.raw
    }
}

impl ContractVersion {
    /// The version is a positive integer.
    #[verifier::type_invariant]
    pub closed spec fn inv(&self) -> bool {
        self.raw != 0
    }

    /// Validated construction: zero is rejected.
    pub fn new(raw: u64) -> (r: Option<ContractVersion>)
        ensures
            raw != 0 ==> (r matches Some(c) && c@ == raw),
            raw == 0 ==> r is None,
    {
        if raw != 0 {
            Some(ContractVersion { raw })
        } else {
            None
        }
    }

    /// The underlying version number.
    pub fn get(&self) -> (r: u64)
        ensures
            r == self@,
            r >= 1,
    {
        proof {
            use_type_invariant(self);
        }
        self.raw
    }
}

impl Default for ContractVersion {
    /// The first version of a freshly deployed contract.
    fn default() -> (r: Self)
        ensures
            r@ == 1,
    {
        ContractVersion { raw: 1 }
    }
}

/// An external-chain contract that may be upgraded.
#[derive(Clone, Debug, PartialEq, Eq)]
pub struct UpgradeableContract {
    /// The external-chain address of the contract.
    pub address: EthAddress,
    /// The version of the contract, starting from 1.
    pub version: ContractVersion,
}

/// Abstract value of an [`UpgradeableContract`].
pub struct ContractV {
    /// The contract's address bytes.
    pub addr: Seq<u8>,
    /// The contract's version.
    pub version: u64,
}

impl View for UpgradeableContract {
    type V = ContractV;

    open spec fn view(&self) -> ContractV {
        ContractV { addr: self.address@, version: self.version@ }
    }
}

/// The external-chain contracts validators must know about directly.
#[derive(Clone, Debug, PartialEq, Eq)]
pub struct Contracts {
    /// The address of the wrapped-native-asset contract.
    pub native_erc20: EthAddress,
    /// The bridge contract.
    pub bridge: UpgradeableContract,
}

/// Abstract value of a [`Contracts`].
pub struct ContractsV {
    /// The wrapped-native-asset address bytes.
    pub native_erc20: Seq<u8>,
    /// The bridge contract.
    pub bridge: ContractV,
}

impl View for Contracts {
    type V = ContractsV;

    open spec fn view(&self) -> ContractsV {
        ContractsV { native_erc20: self.native_erc20@, bridge: self.bridge@ }
    }
}

/// A whitelisted wrapped-asset entry: the asset's external address and the
/// cap on the amount that may be bridged.
#[derive(Clone, Debug, PartialEq, Eq)]
pub struct Erc20WhitelistEntry {
    /// The address of the whitelisted wrapped asset.
    pub token_address: EthAddress,
    /// The cap of the whitelisted wrapped asset.
    pub token_cap: DenominatedAmount,
}

/// Abstract value of an [`Erc20WhitelistEntry`].
pub struct EntryV {
    /// The asset's address bytes.
    pub addr: Seq<u8>,
    /// The asset's cap.
    pub cap: DenominatedAmount,
}

impl View for Erc20WhitelistEntry {
    type V = EntryV;

    open spec fn view(&self) -> EntryV {
        EntryV { addr: self.token_address@, cap: self.token_cap }
    }
}

/// Chain parameters of the external-chain bridge.
#[derive(Debug, PartialEq, Eq)]
pub struct EthereumBridgeParams {
    /// First external-chain height from which events are considered.
    pub eth_start_height: u64,
    /// Minimum confirmations needed to trust an external-chain branch.
    pub min_confirmations: MinimumConfirmations,
    /// Wrapped assets whitelisted at genesis time.
    pub erc20_whitelist: Vec<Erc20WhitelistEntry>,
    /// The external-chain contracts validators must know about.
    pub contracts: Contracts,
}

/// Abstract value of an [`EthereumBridgeParams`].
pub struct ParamsV {
    /// First external-chain height from which events are considered.
    pub eth_start_height: u64,
    /// Minimum confirmations needed to trust an external-chain branch.
    pub min_confirmations: u64,
    /// Whitelisted wrapped assets.
    pub erc20_whitelist: Seq<EntryV>,
    /// The external-chain contracts.
    pub contracts: ContractsV,
}

impl View for EthereumBridgeParams {
    type V = ParamsV;

    open spec fn view(&self) -> ParamsV {
        ParamsV {
            eth_start_height: self.eth_start_height,
            min_confirmations: self.min_confirmations@,
            erc20_whitelist: self.erc20_whitelist@.map_values(|e: Erc20WhitelistEntry| e@),
            contracts: self.contracts@,
        }
    }
}

/// Well-formedness of abstract bridge parameters: addresses have their fixed
/// length, and the never-zero integers are not zero.
pub open spec fn params_wf(p: ParamsV) -> bool {
    &&& p.min_confirmations >= 1
    &&& p.contracts.native_erc20.len() == ETH_ADDRESS_LEN
    &&& p.contracts.bridge.addr.len() == ETH_ADDRESS_LEN
    &&& p.contracts.bridge.version >= 1
    &&& forall|i: int|
        0 <= i < p.erc20_whitelist.len() ==> (#[trigger] p.erc20_whitelist[i]).addr.len()
            == ETH_ADDRESS_LEN
}

/// Whether every whitelist entry for the wrapped native asset is denominated
/// in the chain's canonical native precision. A violation is a
/// configuration-authoring bug and is fatal at initialization time.
pub open spec fn native_precision_ok(p: ParamsV) -> bool {
    forall|i: int|
        0 <= i < p.erc20_whitelist.len() && (#[trigger] p.erc20_whitelist[i]).addr
            == p.contracts.native_erc20 ==> p.erc20_whitelist[i].cap.denom
            == NATIVE_MAX_DECIMAL_PLACES
}

/// The subset of the bridge parameters that the external event oracle needs.
/// Derived from [`EthereumBridgeParams`], never independently constructed.
#[derive(Clone, Debug, PartialEq, Eq)]
pub struct EthereumOracleConfig {
    /// First external-chain height from which events are considered.
    pub eth_start_height: u64,
    /// Minimum confirmations needed to trust an external-chain branch.
    pub min_confirmations: MinimumConfirmations,
    /// The external-chain contracts validators must know about.
    pub contracts: Contracts,
}

/// Abstract value of an [`EthereumOracleConfig`].
pub struct OracleV {
    /// First external-chain height from which events are considered.
    pub eth_start_height: u64,
    /// Minimum confirmations needed to trust an external-chain branch.
    pub min_confirmations: u64,
    /// The external-chain contracts.
    pub contracts: ContractsV,
}

impl View for EthereumOracleConfig {
    type V = OracleV;

    open spec fn view(&self) -> OracleV {
        OracleV {
            eth_start_height: self.eth_start_height,
            min_confirmations: self.min_confirmations@,
            contracts: self.contracts@,
        }
    }
}

/// The projection of bridge parameters onto what the oracle needs.
pub open spec fn oracle_projection(p: ParamsV) -> OracleV {
    OracleV {
        eth_start_height: p.eth_start_height,
        min_confirmations: p.min_confirmations,
        contracts: p.contracts,
    }
}

impl From<EthereumBridgeParams> for EthereumOracleConfig {
    /// Projects the full bridge parameters onto the oracle's subset.
    fn from(config: EthereumBridgeParams) -> (r: Self) {
        let EthereumBridgeParams { eth_start_height, min_confirmations, contracts, .. } = config;
        EthereumOracleConfig { eth_start_height, min_confirmations, contracts }
    }
}

impl vstd::std_specs::convert::FromSpecImpl<EthereumBridgeParams> for EthereumOracleConfig {
    open spec fn obeys_from_spec() -> bool {
        true
    }

    open spec fn from_spec(config: EthereumBridgeParams) -> Self {
        EthereumOracleConfig {
            eth_start_height: config.eth_start_height,
            min_confirmations: config.min_confirmations,
            contracts: config.contracts,
        }
    }
}

// ---------------------------------------------------------------------------
// The bridge-enabled status and the binary layout of stored values
// ---------------------------------------------------------------------------
/// Whether the bridge is operating, and since when.
#[derive(Clone, Copy, PartialEq, Eq, Structural, Debug)]
pub enum BridgeStatus {
    /// The bridge is switched off.
    Disabled,
    /// The bridge has been operating since genesis.
    EnabledAtGenesis,
    /// The bridge was switched on at the given epoch.
    EnabledAtEpoch(u64),
}

impl BridgeStatus {
    /// An enabled status, either since genesis or since some epoch.
    pub open spec fn is_enabled(&self) -> bool {
        !(*self is Disabled)
    }
}

/// The stored form of a [`BridgeStatus`]: a variant tag, then the epoch for
/// the epoch-enabled variant.
pub open spec fn enc_status(st: BridgeStatus) -> Seq<u8> {
    match st {
        BridgeStatus::Disabled => seq![0u8],
        BridgeStatus::EnabledAtGenesis => seq![1u8, 0u8],
        BridgeStatus::EnabledAtEpoch(e) => seq![1u8, 1u8] + enc_u64(e),
    }
}

/// Decoding a stored [`BridgeStatus`]; anything else is rejected.
pub open spec fn dec_status(s: Seq<u8>) -> Option<BridgeStatus> {
    if s.len() == 1 && s[0] == 0 {
        Some(BridgeStatus::Disabled)
    } else if s.len() == 2 && s[0] == 1 && s[1] == 0 {
        Some(BridgeStatus::EnabledAtGenesis)
    } else if s.len() == 10 && s[0] == 1 && s[1] == 1 {
        Some(BridgeStatus::EnabledAtEpoch(le_val(s.subrange(2, 10)) as u64))
    } else {
        None
    }
}

/// A status decodes to what was encoded.
pub proof fn lemma_status_round_trip(st: BridgeStatus)
    ensures
        dec_status(enc_status(st)) == Some(st),
{
    crate::codec::lemma_le_bytes_len(0, 8);
    match st {
        BridgeStatus::EnabledAtEpoch(e) => {
            crate::codec::lemma_le_bytes_len(e as nat, 8);
            assert(enc_status(st).subrange(2, 10) =~= enc_u64(e));
            lemma_u64_round_trip(e);
        },
        _ => {},
    }
}

/// The stored form of a contract: its twenty address bytes, then its version.
pub open spec fn enc_contract(c: ContractV) -> Seq<u8> {
    c.addr + enc_u64(c.version)
}

/// Decoding a stored contract; a zero version is rejected, so that a zero
/// version can never enter memory through storage.
pub open spec fn dec_contract(s: Seq<u8>) -> Option<ContractV> {
    if s.len() == 28 && le_val(s.subrange(20, 28)) != 0 {
        Some(
            ContractV {
                addr: s.subrange(0, 20),
                version: le_val(s.subrange(20, 28)) as u64,
            },
        )
    } else {
        None
    }
}

/// A well-formed contract decodes to what was encoded.
pub proof fn lemma_contract_round_trip(c: ContractV)
    requires
        c.addr.len() == ETH_ADDRESS_LEN,
        c.version >= 1,
    ensures
        dec_contract(enc_contract(c)) == Some(c),
{
    crate::codec::lemma_le_bytes_len(c.version as nat, 8);
    assert(enc_contract(c).subrange(20, 28) =~= enc_u64(c.version));
    crate::codec::lemma_pow256_values();
    crate::codec::lemma_le_val_of_le_bytes(c.version as nat, 8);
    assert(enc_contract(c).subrange(0, 20) =~= c.addr);
}

/// Decoding a stored confirmation threshold; zero is rejected.
pub open spec fn dec_min_confirmations(s: Seq<u8>) -> Option<u64> {
    match dec_u64(s) {
        Some(x) => if x != 0 {
            Some(x)
        } else {
            None
        },
        None => None,
    }
}

// ---------------------------------------------------------------------------
// Storage keys
// ---------------------------------------------------------------------------
/// Key tag: the bridge-enabled status.
pub const KEY_ACTIVE: u8 = 1;

/// Key tag: the minimum confirmation threshold.
pub const KEY_MIN_CONFIRMATIONS: u8 = 2;

/// Key tag: the wrapped-native-asset address.
pub const KEY_NATIVE_ERC20: u8 = 3;

/// Key tag: the bridge contract.
pub const KEY_BRIDGE_CONTRACT: u8 = 4;

/// Key tag: the first external-chain height considered.
pub const KEY_ETH_START_HEIGHT: u8 = 5;

/// Key tag: the per-asset whitelist space.
pub const KEY_ERC20: u8 = 6;

/// Whitelist key suffix: the whitelisted flag.
pub const WL_WHITELISTED: u8 = 1;

/// Whitelist key suffix: the cap amount.
pub const WL_CAP: u8 = 2;

/// Whitelist key suffix: the cap's decimal precision.
pub const WL_DENOM: u8 = 3;

/// The key of the bridge-enabled status.
pub open spec fn active_key_spec() -> Seq<u8> {
    seq![KEY_ACTIVE]
}

/// The key of the minimum confirmation threshold.
pub open spec fn min_confirmations_key_spec() -> Seq<u8> {
    seq![KEY_MIN_CONFIRMATIONS]
}

/// The key of the wrapped-native-asset address.
pub open spec fn native_erc20_key_spec() -> Seq<u8> {
    seq![KEY_NATIVE_ERC20]
}

/// The key of the bridge contract.
pub open spec fn bridge_contract_key_spec() -> Seq<u8> {
    seq![KEY_BRIDGE_CONTRACT]
}

/// The key of the first external-chain height considered.
pub open spec fn eth_start_height_key_spec() -> Seq<u8> {
    seq![KEY_ETH_START_HEIGHT]
}

/// The key of one field of one whitelisted asset.
pub open spec fn whitelist_key_spec(addr: Seq<u8>, suffix: u8) -> Seq<u8> {
    seq![KEY_ERC20] + addr + seq![suffix]
}

/// Whether a key lies in the per-asset whitelist space. Every key written
/// for a whitelist entry is of this shape, and no fixed configuration key is.
pub open spec fn is_whitelist_key(k: Seq<u8>) -> bool {
    k.len() == ETH_ADDRESS_LEN + 2 && k[0] == KEY_ERC20
}

/// The key of the bridge-enabled status.
pub fn active_key() -> (r: Vec<u8>)
    ensures
        r@ == active_key_spec(),
{
    let mut v: Vec<u8> = Vec::new();
    v.push(KEY_ACTIVE);
    proof {
        assert(v@ =~= active_key_spec());
    }
    v
}

/// The key of the minimum confirmation threshold.
pub fn min_confirmations_key() -> (r: Vec<u8>)
    ensures
        r@ == min_confirmations_key_spec(),
{
    let mut v: Vec<u8> = Vec::new();
    v.push(KEY_MIN_CONFIRMATIONS);
    proof {
        assert(v@ =~= min_confirmations_key_spec());
    }
    v
}

/// The key of the wrapped-native-asset address.
pub fn native_erc20_key() -> (r: Vec<u8>)
    ensures
        r@ == native_erc20_key_spec(),
{
    let mut v: Vec<u8> = Vec::new();
    v.push(KEY_NATIVE_ERC20);
    proof {
        assert(v@ =~= native_erc20_key_spec());
    }
    v
}

/// The key of the bridge contract.
pub fn bridge_contract_key() -> (r: Vec<u8>)
    ensures
        r@ == bridge_contract_key_spec(),
{
    let mut v: Vec<u8> = Vec::new();
    v.push(KEY_BRIDGE_CONTRACT);
    proof {
        assert(v@ =~= bridge_contract_key_spec());
    }
    v
}

/// The key of the first external-chain height considered.
pub fn eth_start_height_key() -> (r: Vec<u8>)
    ensures
        r@ == eth_start_height_key_spec(),
{
    let mut v: Vec<u8> = Vec::new();
    v.push(KEY_ETH_START_HEIGHT);
    proof {
        assert(v@ =~= eth_start_height_key_spec());
    }
    v
}

/// The key of one field of one whitelisted asset.
pub fn whitelist_key(addr: &EthAddress, suffix: u8) -> (r: Vec<u8>)
    ensures
        r@ == whitelist_key_spec(addr@, suffix),
{
    let mut v: Vec<u8> = Vec::new();
    v.push(KEY_ERC20);
    let mut a = clone_bytes(&addr.bytes);
    v.append(&mut a);
    v.push(suffix);
    proof {
        assert(v@ =~= whitelist_key_spec(addr@, suffix));
    }
    v
}

// ---------------------------------------------------------------------------
// Initialization
// ---------------------------------------------------------------------------
/// The three writes recorded for one whitelist entry.
pub open spec fn wl_entry_map(m: Map<Seq<u8>, Seq<u8>>, e: EntryV) -> Map<Seq<u8>, Seq<u8>> {
    m.insert(whitelist_key_spec(e.addr, WL_WHITELISTED), enc_bool(true)).insert(
        whitelist_key_spec(e.addr, WL_CAP),
        enc_u128(e.cap.amount),
    ).insert(whitelist_key_spec(e.addr, WL_DENOM), seq![e.cap.denom])
}

/// The writes recorded for a whole whitelist, in order.
pub open spec fn wl_map(m: Map<Seq<u8>, Seq<u8>>, entries: Seq<EntryV>) -> Map<Seq<u8>, Seq<u8>>
    decreases entries.len(),
{
    if entries.len() == 0 {
        m
    } else {
        wl_entry_map(wl_map(m, entries.drop_last()), entries.last())
    }
}

/// The storage contents after initializing bridge parameters `p` over a
/// store holding `m`: the enabled flag and the four configuration values,
/// then three keys per whitelist entry.
pub open spec fn init_map(m: Map<Seq<u8>, Seq<u8>>, p: ParamsV) -> Map<Seq<u8>, Seq<u8>> {
    wl_map(
        m.insert(active_key_spec(), enc_status(BridgeStatus::EnabledAtGenesis)).insert(
            min_confirmations_key_spec(),
            enc_u64(p.min_confirmations),
        ).insert(native_erc20_key_spec(), p.contracts.native_erc20).insert(
            bridge_contract_key_spec(),
            enc_contract(p.contracts.bridge),
        ).insert(eth_start_height_key_spec(), enc_u64(p.eth_start_height)),
        p.erc20_whitelist,
    )
}

impl EthereumBridgeParams {
    /// Whether every whitelist entry for the wrapped native asset carries
    /// the chain's canonical native precision. Initialization demands this;
    /// a violation is a configuration-authoring bug, fatal at the
    /// initialization boundary and never surfaced as a recoverable error.
    pub fn whitelist_precision_ok(&self) -> (r: bool)
        ensures
            r == native_precision_ok(self@),
    {
        let mut i: usize = 0;
        while i < self.erc20_whitelist.len()
            invariant
                0 <= i <= self.erc20_whitelist@.len(),
                forall|j: int|
                    0 <= j < i && (#[trigger] self@.erc20_whitelist[j]).addr
                        == self@.contracts.native_erc20 ==> self@.erc20_whitelist[j].cap.denom
                        == NATIVE_MAX_DECIMAL_PLACES,
            decreases self.erc20_whitelist@.len() - i,
        {
            let e = &self.erc20_whitelist[i];
            if e.token_address.eq_addr(&self.contracts.native_erc20) && e.token_cap.denom
                != NATIVE_MAX_DECIMAL_PLACES {
                proof {
                    assert((self@.erc20_whitelist[i as int]).addr == self@.contracts.native_erc20);
                    assert(self@.erc20_whitelist[i as int].cap.denom != NATIVE_MAX_DECIMAL_PLACES);
                }
                return false;
            }
            i += 1;
        }
        true
    }

    /// Initializes the bridge parameters in storage: writes the enabled
    /// flag, the four configuration values, and three keys per whitelist
    /// entry.
    ///
    /// A parameter set whitelisting the wrapped native asset at a precision
    /// other than the chain's canonical one is rejected at this boundary
    /// (see [`Self::whitelist_precision_ok`]); such a configuration is a
    /// fatal authoring bug, not a runtime condition, so it is excluded here
    /// rather than surfaced as an error.
    pub fn init_storage(&self, store: &mut Kv)
        requires
            params_wf(self@),
            native_precision_ok(self@),
        ensures
            final(store)@ == init_map(old(store)@, self@),
    {
        store.write(
            active_key(),
            encode_status(BridgeStatus::EnabledAtGenesis),
        );
        store.write(min_confirmations_key(), borsh_encode_u64(self.min_confirmations.get()));
        store.write(native_erc20_key(), clone_bytes(&self.contracts.native_erc20.bytes));
        store.write(bridge_contract_key(), encode_contract(&self.contracts.bridge));
        store.write(eth_start_height_key(), borsh_encode_u64(self.eth_start_height));
        let ghost base = store@;
        let mut i: usize = 0;
        proof {
            assert(self@.erc20_whitelist.take(0) =~= Seq::<EntryV>::empty());
        }
        while i < self.erc20_whitelist.len()
            invariant
                0 <= i <= self.erc20_whitelist@.len(),
                params_wf(self@),
                store@ == wl_map(base, self@.erc20_whitelist.take(i as int)),
            decreases self.erc20_whitelist@.len() - i,
        {
            let ghost before = store@;
            let e = &self.erc20_whitelist[i];
            store.write(whitelist_key(&e.token_address, WL_WHITELISTED), borsh_encode_bool(true));
            store.write(
                whitelist_key(&e.token_address, WL_CAP),
                borsh_encode_u128(e.token_cap.amount()),
            );
            let mut denom_bytes: Vec<u8> = Vec::new();
            denom_bytes.push(e.token_cap.denom());
            proof {
                assert(denom_bytes@ =~= seq![self@.erc20_whitelist[i as int].cap.denom]);
            }
            store.write(whitelist_key(&e.token_address, WL_DENOM), denom_bytes);
            proof {
                let entries = self@.erc20_whitelist;
                assert(entries.take(i + 1).drop_last() =~= entries.take(i as int));
                assert(entries.take(i + 1).last() == entries[i as int]);
                assert(store@ == wl_entry_map(before, entries[i as int]));
            }
            i += 1;
        }
        proof {
            assert(self@.erc20_whitelist.take(self.erc20_whitelist@.len() as int)
                =~= self@.erc20_whitelist);
        }
    }
}

/// Encodes a bridge status for storage.
pub fn encode_status(st: BridgeStatus) -> (r: Vec<u8>)
    ensures
        r@ == enc_status(st),
{
    let mut v: Vec<u8> = Vec::new();
    match st {
        BridgeStatus::Disabled => {
            v.push(0);
        },
        BridgeStatus::EnabledAtGenesis => {
            v.push(1);
            v.push(0);
        },
        BridgeStatus::EnabledAtEpoch(e) => {
            v.push(1);
            v.push(1);
            let mut tail = borsh_encode_u64(e);
            v.append(&mut tail);
        },
    }
    proof {
        assert(v@ =~= enc_status(st));
    }
    v
}

/// Decodes a stored bridge status.
pub fn decode_status(b: &Vec<u8>) -> (r: Option<BridgeStatus>)
    ensures
        r == dec_status(b@),
{
    if b.len() == 1 && b[0] == 0 {
        Some(BridgeStatus::Disabled)
    } else if b.len() == 2 && b[0] == 1 && b[1] == 0 {
        Some(BridgeStatus::EnabledAtGenesis)
    } else if b.len() == 10 && b[0] == 1 && b[1] == 1 {
        let tail = bytes_range(b, 2, 10);
        match borsh_decode_u64(&tail) {
            Some(e) => Some(BridgeStatus::EnabledAtEpoch(e)),
            None => None,
        }
    } else {
        None
    }
}

/// Encodes an upgradeable contract for storage.
pub fn encode_contract(c: &UpgradeableContract) -> (r: Vec<u8>)
    ensures
        r@ == enc_contract(c@),
{
    let mut v = clone_bytes(&c.address.bytes);
    let mut tail = borsh_encode_u64(c.version.get());
    v.append(&mut tail);
    v
}

/// Decodes a stored upgradeable contract.
pub fn decode_contract(b: &Vec<u8>) -> (r: Option<UpgradeableContract>)
    ensures
        (r matches Some(c)) == (dec_contract(b@) is Some),
        r matches Some(c) ==> dec_contract(b@) == Some(c@),
{
    if b.len() != 28 {
        return None;
    }
    let addr = bytes_range(b, 0, 20);
    let version_bytes = bytes_range(b, 20, 28);
    match borsh_decode_u64(&version_bytes) {
        Some(version_raw) => {
            proof {
                crate::codec::lemma_pow256_values();
                crate::codec::lemma_le_val_bound(b@.subrange(20, 28));
            }
            match ContractVersion::new(version_raw) {
                Some(version) => Some(
                    UpgradeableContract { address: EthAddress { bytes: addr }, version },
                ),
                None => None,
            }
        },
        None => None,
    }
}

// ---------------------------------------------------------------------------
// Reading back
// ---------------------------------------------------------------------------
/// The outcome of reading the oracle configuration out of storage.
#[derive(Debug, PartialEq, Eq)]
pub enum OracleReadOutcome {
    /// The bridge was never bootstrapped, or is disabled: there is no
    /// configuration, and that is not an error.
    NotEnabled,
    /// The configuration, read back in full.
    Ready(EthereumOracleConfig),
    /// The enabled flag is present but some required value is missing or
    /// undecodable: the storage is corrupt, a fatal condition.
    Corrupt,
}

/// Abstract value of an [`OracleReadOutcome`].
pub enum OracleReadV {
    /// No configuration, recoverably.
    NotEnabled,
    /// The configuration.
    Ready(OracleV),
    /// Fatally corrupt storage.
    Corrupt,
}

/// What reading the oracle configuration from storage contents `m` yields.
pub open spec fn oracle_read_spec(m: Map<Seq<u8>, Seq<u8>>) -> OracleReadV {
    if !m.contains_key(active_key_spec()) {
        OracleReadV::NotEnabled
    } else {
        match dec_status(m[active_key_spec()]) {
            None => OracleReadV::Corrupt,
            Some(st) => if !st.is_enabled() {
                OracleReadV::NotEnabled
            } else {
                oracle_fields_spec(m)
            },
        }
    }
}

/// Reading the four configuration values once the flag says enabled: every
/// one of them must be present and decodable, else the storage is corrupt.
pub open spec fn oracle_fields_spec(m: Map<Seq<u8>, Seq<u8>>) -> OracleReadV {
    if !m.contains_key(min_confirmations_key_spec()) || !m.contains_key(native_erc20_key_spec())
        || !m.contains_key(bridge_contract_key_spec()) || !m.contains_key(
        eth_start_height_key_spec(),
    ) {
        OracleReadV::Corrupt
    } else {
        match dec_min_confirmations(m[min_confirmations_key_spec()]) {
            None => OracleReadV::Corrupt,
            Some(mc) => if m[native_erc20_key_spec()].len() != ETH_ADDRESS_LEN {
                OracleReadV::Corrupt
            } else {
                match dec_contract(m[bridge_contract_key_spec()]) {
                    None => OracleReadV::Corrupt,
                    Some(bridge) => match dec_u64(m[eth_start_height_key_spec()]) {
                        None => OracleReadV::Corrupt,
                        Some(h) => OracleReadV::Ready(
                            OracleV {
                                eth_start_height: h,
                                min_confirmations: mc,
                                contracts: ContractsV {
                                    native_erc20: m[native_erc20_key_spec()],
                                    bridge,
                                },
                            },
                        ),
                    },
                }
            },
        }
    }
}

impl EthereumOracleConfig {
    /// Reads the oracle configuration back, reporting exactly one of: not
    /// bootstrapped, ready, or corrupt. Never conflates a corrupt store
    /// with an absent one.
    pub fn try_read(store: &Kv) -> (r: OracleReadOutcome)
        ensures
            (r is NotEnabled) == (oracle_read_spec(store@) is NotEnabled),
            (r is Corrupt) == (oracle_read_spec(store@) is Corrupt),
            oracle_read_spec(store@) matches OracleReadV::Ready(v) ==> (
            r matches OracleReadOutcome::Ready(c) && c@ == v),
    {
        let active = match store.read(&active_key()) {
            Some(b) => b,
            None => {
                return OracleReadOutcome::NotEnabled;
            },
        };
        let status = match decode_status(&active) {
            Some(st) => st,
            None => {
                return OracleReadOutcome::Corrupt;
            },
        };
        match status {
            BridgeStatus::Disabled => {
                return OracleReadOutcome::NotEnabled;
            },
            _ => {},
        }
        let min_confirmations_bytes = match store.read(&min_confirmations_key()) {
            Some(b) => b,
            None => {
                return OracleReadOutcome::Corrupt;
            },
        };
        let native_bytes = match store.read(&native_erc20_key()) {
            Some(b) => b,
            None => {
                return OracleReadOutcome::Corrupt;
            },
        };
        let contract_bytes = match store.read(&bridge_contract_key()) {
            Some(b) => b,
            None => {
                return OracleReadOutcome::Corrupt;
            },
        };
        let height_bytes = match store.read(&eth_start_height_key()) {
            Some(b) => b,
            None => {
                return OracleReadOutcome::Corrupt;
            },
        };
        let min_confirmations = match borsh_decode_u64(&min_confirmations_bytes) {
            Some(x) => match MinimumConfirmations::new(x) {
                Some(mc) => mc,
                None => {
                    return OracleReadOutcome::Corrupt;
                },
            },
            None => {
                return OracleReadOutcome::Corrupt;
            },
        };
        let native_erc20 = match EthAddress::from_bytes(native_bytes) {
            Some(a) => a,
            None => {
                return OracleReadOutcome::Corrupt;
            },
        };
        let bridge = match decode_contract(&contract_bytes) {
            Some(c) => c,
            None => {
                return OracleReadOutcome::Corrupt;
            },
        };
        let eth_start_height = match borsh_decode_u64(&height_bytes) {
            Some(h) => h,
            None => {
                return OracleReadOutcome::Corrupt;
            },
        };
        OracleReadOutcome::Ready(
            EthereumOracleConfig {
                eth_start_height,
                min_confirmations,
                contracts: Contracts { native_erc20, bridge },
            },
        )
    }

    /// Reads the latest oracle configuration from storage. `None` means the
    /// bridge has not been bootstrapped yet (or is disabled). A corrupt
    /// store — flag present but some value missing or undecodable — is
    /// excluded by contract: that situation is fatal and is surfaced by
    /// [`Self::try_read`], never as a partial or absent configuration.
    pub fn read(store: &Kv) -> (r: Option<EthereumOracleConfig>)
        requires
            !(oracle_read_spec(store@) is Corrupt),
        ensures
            oracle_read_spec(store@) matches OracleReadV::Ready(v) ==> (r matches Some(c) && c@
                == v),
            oracle_read_spec(store@) is NotEnabled ==> r is None,
    {
        match Self::try_read(store) {
            OracleReadOutcome::NotEnabled => None,
            OracleReadOutcome::Ready(c) => Some(c),
            OracleReadOutcome::Corrupt => {
                proof {
                    assert(false);
                }
                None
            },
        }
    }
}

/// Why the wrapped-native-asset address could not be read.
#[derive(Clone, Copy, PartialEq, Eq, Structural, Debug)]
pub enum ReadError {
    /// The bridge storage was never initialized: the key is absent.
    NotInitialized,
    /// The key is present but its value does not decode to an address.
    ReadFailed,
}

/// Reads the wrapped-native-asset address from storage. Unlike the oracle
/// read, this is reachable outside the privileged initialization path, so
/// both failure modes are surfaced as recoverable typed errors.
pub fn read_native_erc20_address(store: &Kv) -> (r: Result<EthAddress, ReadError>)
    ensures
        !store@.contains_key(native_erc20_key_spec()) ==> r == Err::<EthAddress, ReadError>(
            ReadError::NotInitialized,
        ),
        store@.contains_key(native_erc20_key_spec()) && store@[native_erc20_key_spec()].len()
            != ETH_ADDRESS_LEN ==> r == Err::<EthAddress, ReadError>(ReadError::ReadFailed),
        store@.contains_key(native_erc20_key_spec()) && store@[native_erc20_key_spec()].len()
            == ETH_ADDRESS_LEN ==> (r matches Ok(a) && a@ == store@[native_erc20_key_spec()]),
{
    match store.read(&native_erc20_key()) {
        Some(b) => match EthAddress::from_bytes(b) {
            Some(a) => Ok(a),
            None => Err(ReadError::ReadFailed),
        },
        None => Err(ReadError::NotInitialized),
    }
}

// ---------------------------------------------------------------------------
// Laws of initialization and read-back
// ---------------------------------------------------------------------------
/// Writing a whitelist touches only whitelist-space keys: any other key
/// keeps exactly the binding it had.
pub proof fn lemma_wl_map_preserves(m: Map<Seq<u8>, Seq<u8>>, entries: Seq<EntryV>, k: Seq<u8>)
    requires
        forall|i: int|
            0 <= i < entries.len() ==> (#[trigger] entries[i]).addr.len() == ETH_ADDRESS_LEN,
        !is_whitelist_key(k),
    ensures
        wl_map(m, entries).contains_key(k) == m.contains_key(k),
        m.contains_key(k) ==> wl_map(m, entries)[k] == m[k],
    decreases entries.len(),
{
    if entries.len() > 0 {
        lemma_wl_map_preserves(m, entries.drop_last(), k);
        let e = entries.last();
        assert(whitelist_key_spec(e.addr, WL_WHITELISTED).len() == ETH_ADDRESS_LEN + 2);
        assert(whitelist_key_spec(e.addr, WL_WHITELISTED)[0] == KEY_ERC20);
        assert(whitelist_key_spec(e.addr, WL_CAP)[0] == KEY_ERC20);
        assert(whitelist_key_spec(e.addr, WL_DENOM)[0] == KEY_ERC20);
    }
}

/// After initialization, each of the five configuration keys holds exactly
/// the encoding of the corresponding parameter field.
pub proof fn lemma_init_map_fields(m0: Map<Seq<u8>, Seq<u8>>, p: ParamsV)
    requires
        params_wf(p),
    ensures
        init_map(m0, p).contains_key(active_key_spec()),
        init_map(m0, p)[active_key_spec()] == enc_status(BridgeStatus::EnabledAtGenesis),
        init_map(m0, p).contains_key(min_confirmations_key_spec()),
        init_map(m0, p)[min_confirmations_key_spec()] == enc_u64(p.min_confirmations),
        init_map(m0, p).contains_key(native_erc20_key_spec()),
        init_map(m0, p)[native_erc20_key_spec()] == p.contracts.native_erc20,
        init_map(m0, p).contains_key(bridge_contract_key_spec()),
        init_map(m0, p)[bridge_contract_key_spec()] == enc_contract(p.contracts.bridge),
        init_map(m0, p).contains_key(eth_start_height_key_spec()),
        init_map(m0, p)[eth_start_height_key_spec()] == enc_u64(p.eth_start_height),
{
    let base = m0.insert(active_key_spec(), enc_status(BridgeStatus::EnabledAtGenesis)).insert(
        min_confirmations_key_spec(),
        enc_u64(p.min_confirmations),
    ).insert(native_erc20_key_spec(), p.contracts.native_erc20).insert(
        bridge_contract_key_spec(),
        enc_contract(p.contracts.bridge),
    ).insert(eth_start_height_key_spec(), enc_u64(p.eth_start_height));
    assert(active_key_spec()[0] == KEY_ACTIVE);
    assert(min_confirmations_key_spec()[0] == KEY_MIN_CONFIRMATIONS);
    assert(native_erc20_key_spec()[0] == KEY_NATIVE_ERC20);
    assert(bridge_contract_key_spec()[0] == KEY_BRIDGE_CONTRACT);
    assert(eth_start_height_key_spec()[0] == KEY_ETH_START_HEIGHT);
    assert(active_key_spec().len() == 1 && min_confirmations_key_spec().len() == 1
        && native_erc20_key_spec().len() == 1 && bridge_contract_key_spec().len() == 1
        && eth_start_height_key_spec().len() == 1);
    lemma_wl_map_preserves(base, p.erc20_whitelist, active_key_spec());
    lemma_wl_map_preserves(base, p.erc20_whitelist, min_confirmations_key_spec());
    lemma_wl_map_preserves(base, p.erc20_whitelist, native_erc20_key_spec());
    lemma_wl_map_preserves(base, p.erc20_whitelist, bridge_contract_key_spec());
    lemma_wl_map_preserves(base, p.erc20_whitelist, eth_start_height_key_spec());
}

/// Initializing well-formed parameters and then reading the oracle
/// configuration yields it in full: exactly the projection of the
/// parameters onto the start height, the confirmation threshold and the
/// contracts.
pub proof fn lemma_init_then_read(m0: Map<Seq<u8>, Seq<u8>>, p: ParamsV)
    requires
        params_wf(p),
    ensures
        oracle_read_spec(init_map(m0, p)) == OracleReadV::Ready(oracle_projection(p)),
{
    let m = init_map(m0, p);
    lemma_init_map_fields(m0, p);
    lemma_status_round_trip(BridgeStatus::EnabledAtGenesis);
    lemma_u64_round_trip(p.min_confirmations);
    lemma_contract_round_trip(p.contracts.bridge);
    lemma_u64_round_trip(p.eth_start_height);
}

/// Reading the oracle configuration from a store that was never initialized
/// yields the recoverable "not bootstrapped" answer, never an error and
/// never a configuration.
pub proof fn lemma_uninitialized_reads_none()
    ensures
        oracle_read_spec(Map::<Seq<u8>, Seq<u8>>::empty()) is NotEnabled,
{
}

/// Deleting any one of the four required configuration values after a valid
/// initialization makes the read fatal: the outcome is corrupt storage, not
/// an absent and not a partial configuration.
pub proof fn lemma_missing_key_is_corrupt(m0: Map<Seq<u8>, Seq<u8>>, p: ParamsV, k: Seq<u8>)
    requires
        params_wf(p),
        k == min_confirmations_key_spec() || k == native_erc20_key_spec() || k
            == bridge_contract_key_spec() || k == eth_start_height_key_spec(),
    ensures
        oracle_read_spec(init_map(m0, p).remove(k)) is Corrupt,
{
    lemma_init_map_fields(m0, p);
    lemma_status_round_trip(BridgeStatus::EnabledAtGenesis);
    assert(active_key_spec()[0] != k[0]);
}

/// Overwriting any one of the five required keys with bytes that do not
/// decode after a valid initialization makes the read fatal: the outcome is
/// corrupt storage, never a partial configuration.
pub proof fn lemma_corrupt_value_is_corrupt(
    m0: Map<Seq<u8>, Seq<u8>>,
    p: ParamsV,
    k: Seq<u8>,
    b: Seq<u8>,
)
    requires
        params_wf(p),
        k == active_key_spec() ==> dec_status(b) is None,
        k == min_confirmations_key_spec() ==> dec_min_confirmations(b) is None,
        k == native_erc20_key_spec() ==> b.len() != ETH_ADDRESS_LEN,
        k == bridge_contract_key_spec() ==> dec_contract(b) is None,
        k == eth_start_height_key_spec() ==> dec_u64(b) is None,
        k == active_key_spec() || k == min_confirmations_key_spec() || k == native_erc20_key_spec()
            || k == bridge_contract_key_spec() || k == eth_start_height_key_spec(),
    ensures
        oracle_read_spec(init_map(m0, p).insert(k, b)) is Corrupt,
{
    lemma_init_map_fields(m0, p);
    lemma_status_round_trip(BridgeStatus::EnabledAtGenesis);
    lemma_u64_round_trip(p.min_confirmations);
    lemma_contract_round_trip(p.contracts.bridge);
    lemma_u64_round_trip(p.eth_start_height);
}

} // verus!

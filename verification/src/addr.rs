//! Plain value types shared by the bridge store and the disbursement engine:
//! ledger account addresses, external-chain addresses and denominated amounts.

use vstd::prelude::*;

verus! {

/// Number of bytes in an external-chain (ERC20-style) address.
pub const ETH_ADDRESS_LEN: usize = 20;

/// A ledger account address. Internal protocol accounts are distinguished
/// variants; ordinary accounts and token addresses carry a numeric identity.
#[derive(Clone, Copy, PartialEq, Eq, Structural, Debug)]
pub enum Address {
    /// The public-goods-funding treasury account.
    Pgf,
    /// The cross-chain protocol's internal identity (minter of record for
    /// protocol-minted assets).
    Ibc,
    /// The escrow account holding assets locked for outgoing cross-chain
    /// transfers.
    IbcEscrow,
    /// An ordinary established account or token address.
    Account(u64),
}

/// An address on the external chain, as 20 raw bytes.
#[derive(Clone, Debug, PartialEq, Eq)]
pub struct EthAddress {
    /// The raw address bytes; well-formed values hold exactly
    /// [`ETH_ADDRESS_LEN`] of them.
    pub bytes: Vec<u8>,
}

impl View for EthAddress {
    type V = Seq<u8>;

    open spec fn view(&self) -> Seq<u8> {
        self.bytes@
    }
}

impl EthAddress {
    /// A well-formed external address holds exactly 20 bytes.
    pub open spec fn wf(&self) -> bool {
        self@.len() == ETH_ADDRESS_LEN
    }

    /// Builds an address from raw bytes, rejecting any length but 20.
    pub fn from_bytes(bytes: Vec<u8>) -> (r: Option<EthAddress>)
        ensures
            bytes@.len() == ETH_ADDRESS_LEN ==> (r matches Some(a) && a@ == bytes@ && a.wf()),
            bytes@.len() != ETH_ADDRESS_LEN ==> r is None,
    {
        if bytes.len() == ETH_ADDRESS_LEN {
            Some(EthAddress { bytes })
        } else {
            None
        }
    }

    /// Byte-wise equality of two external addresses.
    pub fn eq_addr(&self, other: &EthAddress) -> (r: bool)
        ensures
            r == (self@ == other@),
    {
        bytes_eq(&self.bytes, &other.bytes)
    }
}

/// Byte-wise equality of two byte vectors.
pub fn bytes_eq(a: &Vec<u8>, b: &Vec<u8>) -> (r: bool)
    ensures
        r == (a@ == b@),
{
    if a.len() != b.len() {
        assert(a@ != b@);
        return false;
    }
    let mut i: usize = 0;
    while i < a.len()
        invariant
            0 <= i <= a@.len(),
            a@.len() == b@.len(),
            forall|j: int| 0 <= j < i ==> a@[j] == b@[j],
        decreases a@.len() - i,
    {
        if a[i] != b[i] {
            assert(a@ != b@);
            return false;
        }
        i += 1;
    }
    proof {
        assert(a@ =~= b@);
    }
    true
}

/// An amount of a token together with the decimal precision it is denominated
/// in.
#[derive(Clone, Copy, PartialEq, Eq, Structural, Debug)]
pub struct DenominatedAmount {
    /// The raw token amount.
    pub amount: u128,
    /// The number of decimal places the amount is denominated in.
    pub denom: u8,
}

impl DenominatedAmount {
    /// The raw amount.
    pub fn amount(&self) -> (r: u128)
        ensures
            r == self.amount,
    {
        self.amount
    }

    /// The decimal precision.
    pub fn denom(&self) -> (r: u8)
        ensures
            r == self.denom,
    {
        self.denom
    }
}

} // verus!

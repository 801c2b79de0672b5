//! The ledger state this crate mutates: the binary key-value store, native
//! token accounting, the write-log's event buffer, and the treasury's
//! collaborator data (rates, obligations, stewards, chain parameters).
//!
//! Token balances, minted supplies and minters-of-record are kept as
//! append-style logs where the latest entry for a key wins, the same
//! write-log discipline as the binary store; their abstract values are maps.

use vstd::prelude::*;

use crate::addr::Address;
use crate::inflation_types::{FundingV, PgfFunding, PgfParameters, Steward, StewardV};
use crate::kv::Kv;

verus! {

/// The families of protocol events the write-log can buffer.
#[derive(Clone, Copy, PartialEq, Eq, Structural, Debug)]
pub enum EventKind {
    /// A cross-chain transfer packet was sent.
    SendPacket,
    /// A previously sent packet was acknowledged.
    AcknowledgePacket,
    /// A previously sent packet timed out.
    TimeoutPacket,
}

/// A protocol event buffered in the in-progress write-log.
#[derive(Debug, PartialEq, Eq)]
pub struct IbcEvent {
    /// Which family of event this is.
    pub kind: EventKind,
    /// The token moved.
    pub token: Address,
    /// The local sender.
    pub sender: Address,
    /// The receiver on the other chain, as UTF-8 bytes.
    pub receiver: Vec<u8>,
    /// The amount moved.
    pub amount: u128,
    /// The port the packet left through.
    pub port_id: Vec<u8>,
    /// The channel the packet left through.
    pub channel_id: Vec<u8>,
    /// The packet's timeout timestamp, in seconds.
    pub timeout_timestamp: u64,
}

/// Abstract value of an [`IbcEvent`].
pub struct IbcEventV {
    /// Which family of event this is.
    pub kind: EventKind,
    /// The token moved.
    pub token: Address,
    /// The local sender.
    pub sender: Address,
    /// The receiver bytes.
    pub receiver: Seq<u8>,
    /// The amount moved.
    pub amount: u128,
    /// The port the packet left through.
    pub port_id: Seq<u8>,
    /// The channel the packet left through.
    pub channel_id: Seq<u8>,
    /// The packet's timeout timestamp, in seconds.
    pub timeout_timestamp: u64,
}

impl View for IbcEvent {
    type V = IbcEventV;

    open spec fn view(&self) -> IbcEventV {
        IbcEventV {
            kind: self.kind,
            token: self.token,
            sender: self.sender,
            receiver: self.receiver@,
            amount: self.amount,
            port_id: self.port_id@,
            channel_id: self.channel_id@,
            timeout_timestamp: self.timeout_timestamp,
        }
    }
}

/// One logged balance write.
#[derive(Clone, Copy, PartialEq, Eq, Structural, Debug)]
pub struct BalanceEntry {
    /// The token the balance is of.
    pub token: Address,
    /// The account holding it.
    pub owner: Address,
    /// The balance after the write.
    pub amount: u128,
}

/// One logged total-minted-supply write.
#[derive(Clone, Copy, PartialEq, Eq, Structural, Debug)]
pub struct MintedEntry {
    /// The token.
    pub token: Address,
    /// The total minted supply after the write.
    pub amount: u128,
}

/// One logged minter-of-record write.
#[derive(Clone, Copy, PartialEq, Eq, Structural, Debug)]
pub struct MinterEntry {
    /// The token.
    pub token: Address,
    /// The account recorded as its minter.
    pub minter: Address,
}

/// The balance map obtained by replaying balance writes in order.
pub open spec fn balances_map(s: Seq<BalanceEntry>) -> Map<(Address, Address), u128>
    decreases s.len(),
{
    if s.len() == 0 {
        Map::empty()
    } else {
        balances_map(s.drop_last()).insert((s.last().token, s.last().owner), s.last().amount)
    }
}

/// The latest logged balance for a token and owner, if any.
pub open spec fn balances_lookup(s: Seq<BalanceEntry>, token: Address, owner: Address) -> Option<
    u128,
>
    decreases s.len(),
{
    if s.len() == 0 {
        None
    } else if s.last().token == token && s.last().owner == owner {
        Some(s.last().amount)
    } else {
        balances_lookup(s.drop_last(), token, owner)
    }
}

/// Replaying the balance log and following its latest entry agree.
pub proof fn lemma_balances_lookup_is_map(s: Seq<BalanceEntry>, token: Address, owner: Address)
    ensures
        balances_lookup(s, token, owner) == (if balances_map(s).contains_key((token, owner)) {
            Some(balances_map(s)[(token, owner)])
        } else {
            None::<u128>
        }),
    decreases s.len(),
{
    if s.len() > 0 {
        lemma_balances_lookup_is_map(s.drop_last(), token, owner);
    }
}

/// The total-minted map obtained by replaying supply writes in order.
pub open spec fn minted_map(s: Seq<MintedEntry>) -> Map<Address, u128>
    decreases s.len(),
{
    if s.len() == 0 {
        Map::empty()
    } else {
        minted_map(s.drop_last()).insert(s.last().token, s.last().amount)
    }
}

/// The latest logged minted supply for a token, if any.
pub open spec fn minted_lookup(s: Seq<MintedEntry>, token: Address) -> Option<u128>
    decreases s.len(),
{
    if s.len() == 0 {
        None
    } else if s.last().token == token {
        Some(s.last().amount)
    } else {
        minted_lookup(s.drop_last(), token)
    }
}

/// Replaying the supply log and following its latest entry agree.
pub proof fn lemma_minted_lookup_is_map(s: Seq<MintedEntry>, token: Address)
    ensures
        minted_lookup(s, token) == (if minted_map(s).contains_key(token) {
            Some(minted_map(s)[token])
        } else {
            None::<u128>
        }),
    decreases s.len(),
{
    if s.len() > 0 {
        lemma_minted_lookup_is_map(s.drop_last(), token);
    }
}

/// The minter-of-record map obtained by replaying minter writes in order.
pub open spec fn minters_map(s: Seq<MinterEntry>) -> Map<Address, Address>
    decreases s.len(),
{
    if s.len() == 0 {
        Map::empty()
    } else {
        minters_map(s.drop_last()).insert(s.last().token, s.last().minter)
    }
}

/// The ledger state, as this crate sees it.
pub struct Ledger {
    /// The binary key-value store holding the bridge configuration.
    pub store: Kv,
    /// The balance write log.
    pub balances: Vec<BalanceEntry>,
    /// The total-minted-supply write log.
    pub minted: Vec<MintedEntry>,
    /// The minter-of-record write log.
    pub minters: Vec<MinterEntry>,
    /// The in-progress write-log's event buffer.
    pub events: Vec<IbcEvent>,
    /// The funding obligations currently persisted.
    pub payments: Vec<PgfFunding>,
    /// The stewards currently persisted.
    pub stewards: Vec<Steward>,
    /// The treasury's inflation rates.
    pub pgf_params: PgfParameters,
    /// How many inflation epochs make up a year; at least one.
    pub epochs_per_year: u64,
    /// The configured lower bound on an epoch's duration, in seconds.
    pub min_epoch_duration: u64,
    /// The address of the chain's native (staking) token.
    pub native_token: Address,
}

/// Abstract value of a [`Ledger`].
#[verifier::ext_equal]
pub struct LedgerV {
    /// The binary key-value store contents.
    pub store: Map<Seq<u8>, Seq<u8>>,
    /// Balances by token and owner.
    pub balances: Map<(Address, Address), u128>,
    /// Total minted supply by token.
    pub minted: Map<Address, u128>,
    /// Minter of record by token.
    pub minters: Map<Address, Address>,
    /// The buffered events, oldest first.
    pub events: Seq<IbcEventV>,
    /// The persisted funding obligations.
    pub payments: Seq<FundingV>,
    /// The persisted stewards.
    pub stewards: Seq<StewardV>,
    /// The treasury's inflation rates.
    pub pgf_params: PgfParameters,
    /// Epochs per year.
    pub epochs_per_year: u64,
    /// The lower bound on an epoch's duration, in seconds.
    pub min_epoch_duration: u64,
    /// The native token's address.
    pub native_token: Address,
}

impl View for Ledger {
    type V = LedgerV;

    open spec fn view(&self) -> LedgerV {
        LedgerV {
            store: self.store@,
            balances: balances_map(self.balances@),
            minted: minted_map(self.minted@),
            minters: minters_map(self.minters@),
            events: self.events@.map_values(|e: IbcEvent| e@),
            payments: self.payments@.map_values(|f: PgfFunding| f@),
            stewards: self.stewards@.map_values(|s: Steward| s@),
            pgf_params: self.pgf_params,
            epochs_per_year: self.epochs_per_year,
            min_epoch_duration: self.min_epoch_duration,
            native_token: self.native_token,
        }
    }
}

/// The balance of `owner` in `token`; zero when no balance was ever written.
pub open spec fn bal(v: LedgerV, token: Address, owner: Address) -> u128 {
    if v.balances.contains_key((token, owner)) {
        v.balances[(token, owner)]
    } else {
        0
    }
}

/// The total minted supply of `token`; zero when never written.
pub open spec fn minted_of(v: LedgerV, token: Address) -> u128 {
    if v.minted.contains_key(token) {
        v.minted[token]
    } else {
        0
    }
}

/// Why a token operation failed. Every failure leaves the ledger unchanged.
#[derive(Clone, Copy, PartialEq, Eq, Structural, Debug)]
pub enum TokenError {
    /// The source balance does not cover the amount.
    InsufficientBalance,
    /// A balance or supply would exceed the representable maximum.
    Overflow,
}

/// The ledger after crediting (minting) `amount` of `token` to `owner`:
/// both the balance and the total minted supply grow. `None` when either
/// would overflow.
pub open spec fn spec_credit(v: LedgerV, token: Address, owner: Address, amount: u128) -> Option<
    LedgerV,
> {
    if bal(v, token, owner) + amount <= u128::MAX && minted_of(v, token) + amount <= u128::MAX {
        Some(
            LedgerV {
                balances: v.balances.insert(
                    (token, owner),
                    (bal(v, token, owner) + amount) as u128,
                ),
                minted: v.minted.insert(token, (minted_of(v, token) + amount) as u128),
                ..v
            },
        )
    } else {
        None
    }
}

/// The ledger after burning `amount` of `token` from `owner`: both the
/// balance and the total minted supply shrink. `None` when either would go
/// negative.
pub open spec fn spec_burn(v: LedgerV, token: Address, owner: Address, amount: u128) -> Option<
    LedgerV,
> {
    if bal(v, token, owner) >= amount && minted_of(v, token) >= amount {
        Some(
            LedgerV {
                balances: v.balances.insert(
                    (token, owner),
                    (bal(v, token, owner) - amount) as u128,
                ),
                minted: v.minted.insert(token, (minted_of(v, token) - amount) as u128),
                ..v
            },
        )
    } else {
        None
    }
}

/// The ledger after transferring `amount` of `token` from `src` to `dest`.
/// `None` when the source balance does not cover the amount or the
/// destination balance would overflow; a transfer to oneself moves nothing.
pub open spec fn spec_transfer(
    v: LedgerV,
    token: Address,
    src: Address,
    dest: Address,
    amount: u128,
) -> Option<LedgerV> {
    if src == dest {
        if bal(v, token, src) >= amount {
            Some(v)
        } else {
            None
        }
    } else if bal(v, token, src) >= amount && bal(v, token, dest) + amount <= u128::MAX {
        Some(
            LedgerV {
                balances: v.balances.insert(
                    (token, src),
                    (bal(v, token, src) - amount) as u128,
                ).insert((token, dest), (bal(v, token, dest) + amount) as u128),
                ..v
            },
        )
    } else {
        None
    }
}

impl Ledger {
    /// The balance of `owner` in `token`.
    pub fn get_balance(&self, token: Address, owner: Address) -> (r: u128)
        ensures
            r == bal(self@, token, owner),
    {
        proof {
            lemma_balances_lookup_is_map(self.balances@, token, owner);
        }
        let mut i: usize = self.balances.len();
        proof {
            assert(self.balances@.take(self.balances@.len() as int) =~= self.balances@);
        }
        while i > 0
            invariant
                0 <= i <= self.balances@.len(),
                balances_lookup(self.balances@.take(i as int), token, owner) == balances_lookup(
                    self.balances@,
                    token,
                    owner,
                ),
            decreases i,
        {
            i -= 1;
            proof {
                assert(self.balances@.take(i + 1).drop_last() =~= self.balances@.take(i as int));
                assert(self.balances@.take(i + 1).last() == self.balances@[i as int]);
            }
            let e = &self.balances[i];
            if e.token == token && e.owner == owner {
                proof {
                    assert(balances_lookup(self.balances@.take(i + 1), token, owner) == Some(
                        e.amount,
                    ));
                    lemma_balances_lookup_is_map(self.balances@, token, owner);
                }
                return e.amount;
            }
        }
        0
    }

    /// The total minted supply of `token`.
    pub fn get_minted(&self, token: Address) -> (r: u128)
        ensures
            r == minted_of(self@, token),
    {
        proof {
            lemma_minted_lookup_is_map(self.minted@, token);
        }
        let mut i: usize = self.minted.len();
        proof {
            assert(self.minted@.take(self.minted@.len() as int) =~= self.minted@);
        }
        while i > 0
            invariant
                0 <= i <= self.minted@.len(),
                minted_lookup(self.minted@.take(i as int), token) == minted_lookup(
                    self.minted@,
                    token,
                ),
            decreases i,
        {
            i -= 1;
            proof {
                assert(self.minted@.take(i + 1).drop_last() =~= self.minted@.take(i as int));
                assert(self.minted@.take(i + 1).last() == self.minted@[i as int]);
            }
            let e = &self.minted[i];
            if e.token == token {
                proof {
                    assert(minted_lookup(self.minted@.take(i + 1), token) == Some(e.amount));
                    lemma_minted_lookup_is_map(self.minted@, token);
                }
                return e.amount;
            }
        }
        0
    }

    /// Writes a balance.
    fn set_balance(&mut self, token: Address, owner: Address, amount: u128)
        ensures
            final(self)@ == (LedgerV {
                balances: old(self)@.balances.insert((token, owner), amount),
                ..old(self)@
            }),
    {
        self.balances.push(BalanceEntry { token, owner, amount });
        proof {
            assert(self.balances@.drop_last() =~= old(self).balances@);
            assert(self@ =~= LedgerV {
                balances: old(self)@.balances.insert((token, owner), amount),
                ..old(self)@
            });
        }
    }

    /// Writes a total minted supply.
    fn set_minted(&mut self, token: Address, amount: u128)
        ensures
            final(self)@ == (LedgerV {
                minted: old(self)@.minted.insert(token, amount),
                ..old(self)@
            }),
    {
        self.minted.push(MintedEntry { token, amount });
        proof {
            assert(self.minted@.drop_last() =~= old(self).minted@);
            assert(self@ =~= LedgerV {
                minted: old(self)@.minted.insert(token, amount),
                ..old(self)@
            });
        }
    }

    /// Records the minter of record for a token.
    pub fn set_minter(&mut self, token: Address, minter: Address)
        ensures
            final(self)@ == (LedgerV {
                minters: old(self)@.minters.insert(token, minter),
                ..old(self)@
            }),
    {
        self.minters.push(MinterEntry { token, minter });
        proof {
            assert(self.minters@.drop_last() =~= old(self).minters@);
            assert(self@ =~= LedgerV {
                minters: old(self)@.minters.insert(token, minter),
                ..old(self)@
            });
        }
    }

    /// Credits (mints) `amount` of `token` to `owner`: grows the balance
    /// and the total minted supply together. On failure the ledger is
    /// unchanged.
    pub fn credit_tokens(&mut self, token: Address, owner: Address, amount: u128) -> (r: Result<
        (),
        TokenError,
    >)
        ensures
            (match spec_credit(old(self)@, token, owner, amount) {
                Some(v) => r is Ok && final(self)@ == v,
                None => r == Err::<(), TokenError>(TokenError::Overflow) && final(self)@ == old(
                    self,
                )@,
            }),
    {
        let balance = self.get_balance(token, owner);
        let supply = self.get_minted(token);
        let new_balance = match balance.checked_add(amount) {
            Some(b) => b,
            None => {
                return Err(TokenError::Overflow);
            },
        };
        let new_supply = match supply.checked_add(amount) {
            Some(s) => s,
            None => {
                return Err(TokenError::Overflow);
            },
        };
        self.set_balance(token, owner, new_balance);
        self.set_minted(token, new_supply);
        proof {
            assert(final(self)@ =~= spec_credit(old(self)@, token, owner, amount).unwrap());
        }
        Ok(())
    }

    /// Burns `amount` of `token` from `owner`: shrinks the balance and the
    /// total minted supply together. On failure the ledger is unchanged.
    pub fn burn_tokens(&mut self, token: Address, owner: Address, amount: u128) -> (r: Result<
        (),
        TokenError,
    >)
        ensures
            (match spec_burn(old(self)@, token, owner, amount) {
                Some(v) => r is Ok && final(self)@ == v,
                None => r == Err::<(), TokenError>(TokenError::InsufficientBalance) && final(self)@
                    == old(self)@,
            }),
    {
        let balance = self.get_balance(token, owner);
        let supply = self.get_minted(token);
        if balance < amount || supply < amount {
            return Err(TokenError::InsufficientBalance);
        }
        self.set_balance(token, owner, balance - amount);
        self.set_minted(token, supply - amount);
        proof {
            assert(final(self)@ =~= spec_burn(old(self)@, token, owner, amount).unwrap());
        }
        Ok(())
    }

    /// Transfers `amount` of `token` from `src` to `dest`. The attempt is
    /// atomic: on failure the ledger is unchanged.
    pub fn transfer(&mut self, token: Address, src: Address, dest: Address, amount: u128) -> (r:
        Result<(), TokenError>)
        ensures
            (match spec_transfer(old(self)@, token, src, dest, amount) {
                Some(v) => r is Ok && final(self)@ == v,
                None => r is Err && final(self)@ == old(self)@,
            }),
    {
        let src_balance = self.get_balance(token, src);
        if src_balance < amount {
            return Err(TokenError::InsufficientBalance);
        }
        if src == dest {
            return Ok(());
        }
        let dest_balance = self.get_balance(token, dest);
        let new_dest = match dest_balance.checked_add(amount) {
            Some(b) => b,
            None => {
                return Err(TokenError::Overflow);
            },
        };
        self.set_balance(token, src, src_balance - amount);
        self.set_balance(token, dest, new_dest);
        proof {
            assert(final(self)@ =~= spec_transfer(old(self)@, token, src, dest, amount).unwrap());
        }
        Ok(())
    }

    /// A throwaway empty ledger, used only to stand in while the real one
    /// is lent to an execution context.
    pub(crate) fn placeholder() -> Ledger {
        Ledger {
            store: Kv::empty(),
            balances: Vec::new(),
            minted: Vec::new(),
            minters: Vec::new(),
            events: Vec::new(),
            payments: Vec::new(),
            stewards: Vec::new(),
            pgf_params: PgfParameters {
                pgf_inflation_rate: crate::dec::Dec { raw: 0 },
                stewards_inflation_rate: crate::dec::Dec { raw: 0 },
            },
            epochs_per_year: 1,
            min_epoch_duration: 0,
            native_token: Address::Pgf,
        }
    }

    /// Appends an event to the write-log's event buffer. Never fails.
    pub fn push_event(&mut self, event: IbcEvent)
        ensures
            final(self)@ == (LedgerV { events: old(self)@.events.push(event@), ..old(self)@ }),
    {
        let ghost ev = event@;
        self.events.push(event);
        proof {
            assert(self@.events =~= old(self)@.events.push(ev));
            assert(self@ =~= LedgerV { events: old(self)@.events.push(ev), ..old(self)@ });
        }
    }
}

} // verus!

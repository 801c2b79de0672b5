//! The protocol-internal action execution context and the cross-chain
//! transfer dispatcher.
//!
//! A dispatch builds a transfer message, encodes it into a canonical binary
//! envelope — length-delimited fields with LEB128 variable-length integers,
//! the integers encoded through prost — and hands the envelope to the
//! executor, which decodes it and drives the capability context: escrow the
//! amount and buffer a send-packet event. A failure anywhere leaves the
//! ledger exactly as it was.

use vstd::prelude::*;

use crate::addr::Address;
use crate::codec::{
    borsh_decode_u128, borsh_decode_u64, borsh_encode_u128, borsh_encode_u64, bytes_range,
    enc_u128, enc_u64, lemma_u128_round_trip, lemma_u64_round_trip,
};
use crate::inflation_types::{IbcTargetV, PGFIbcTarget};
use crate::kv::clone_bytes;
use crate::ledger::{
    spec_credit, spec_transfer, EventKind, IbcEvent, IbcEventV, Ledger, LedgerV, TokenError,
};

verus! {

/// Why a protocol action failed.
#[derive(Clone, Copy, PartialEq, Eq, Structural, Debug)]
pub enum ActionError {
    /// The underlying token movement failed.
    Token(TokenError),
    /// A shielded transfer was requested of a protocol-internal context,
    /// which must never perform one.
    UnsupportedShieldedTransfer,
    /// The envelope handed to the executor did not decode.
    MalformedMessage,
}

// ---------------------------------------------------------------------------
// The canonical binary envelope
// ---------------------------------------------------------------------------
/// The LEB128 encoding of an integer: little-endian base-128 digits, each
/// carrying a continuation bit except the last.
pub open spec fn varint(n: nat) -> Seq<u8>
    decreases n,
{
    if n < 128 {
        seq![n as u8]
    } else {
        seq![(n % 128 + 128) as u8] + varint(n / 128)
    }
}

/// A length-delimited field: the length as a LEB128 integer, then the bytes.
pub open spec fn lp(s: Seq<u8>) -> Seq<u8> {
    varint(s.len()) + s
}

/// Relies on `prost::encoding::encode_varint`: it appends the LEB128
/// encoding of the value — little-endian base-128 digits with a
/// continuation bit on every digit but the last — and never fails on a
/// `Vec` buffer.
#[verifier::external_body]
fn prost_encode_varint(value: u64, buf: &mut Vec<u8>)
    ensures
        final(buf)@ == old(buf)@ + varint(value as nat),
{
    prost::encoding::encode_varint(value, buf)
}

/// Reads back a LEB128 integer written at `pos`.
fn read_varint(b: &Vec<u8>, pos: usize, Ghost(x): Ghost<u64>, Ghost(rest): Ghost<Seq<u8>>) -> (r: (
    u64,
    usize,
))
    requires
        pos <= b@.len(),
        b@.skip(pos as int) == varint(x as nat) + rest,
    ensures
        r.0 == x,
        r.1 <= b@.len(),
        b@.skip(r.1 as int) == rest,
    decreases b@.len() - pos,
{
    let blen = b.len();
    proof {
        assert(b@.skip(pos as int).len() >= 1);
        assert(pos < blen);
        assert(b@.skip(pos as int)[0] == b@[pos as int]);
        assert((varint(x as nat) + rest)[0] == varint(x as nat)[0]);
    }
    let byte = b[pos];
    if byte < 128 {
        proof {
            if x >= 128 {
                assert(varint(x as nat)[0] == (x as nat % 128 + 128) as u8);
                assert(false);
            }
            assert(varint(x as nat) =~= seq![x as u8]);
            assert(b@.skip(pos + 1) =~= (varint(x as nat) + rest).drop_first());
        }
        (byte as u64, pos + 1)
    } else {
        proof {
            if x < 128 {
                assert(varint(x as nat)[0] == x as u8);
                assert(false);
            }
            assert(b@.skip(pos + 1) =~= b@.skip(pos as int).drop_first());
            assert((varint(x as nat) + rest).drop_first() =~= varint(x as nat).drop_first()
                + rest);
            assert(varint(x as nat).drop_first() =~= varint(x as nat / 128));
            assert(varint((x / 128) as u64 as nat) == varint(x as nat / 128));
        }
        let (hi, end) = read_varint(b, pos + 1, Ghost(x / 128), Ghost(rest));
        proof {
            assert(byte == (x as nat % 128 + 128) as u8);
            assert(byte - 128 == x % 128);
            assert(128 * (x / 128) + x % 128 == x);
        }
        ((byte - 128) as u64 + 128 * hi, end)
    }
}

/// Appends a length-delimited field to the envelope under construction.
fn append_lp(out: &mut Vec<u8>, bytes: &Vec<u8>)
    ensures
        final(out)@ == old(out)@ + lp(bytes@),
{
    prost_encode_varint(bytes.len() as u64, out);
    let mut tmp = clone_bytes(bytes);
    out.append(&mut tmp);
    proof {
        assert(out@ =~= old(out)@ + lp(bytes@));
    }
}

/// Reads back a length-delimited field written at `pos`.
fn read_lp(b: &Vec<u8>, pos: usize, Ghost(bytes): Ghost<Seq<u8>>, Ghost(rest): Ghost<Seq<u8>>) -> (r:
    (Vec<u8>, usize))
    requires
        pos <= b@.len(),
        b@.skip(pos as int) == lp(bytes) + rest,
    ensures
        r.0@ == bytes,
        r.1 <= b@.len(),
        b@.skip(r.1 as int) == rest,
{
    let blen = b.len();
    proof {
        assert(blen == b@.len());
        assert(b@.skip(pos as int).len() == b@.len() - pos);
        assert(lp(bytes).len() == varint(bytes.len()).len() + bytes.len());
        assert(varint(bytes.len()).len() >= 1);
        assert(bytes.len() <= b@.len());
        assert((lp(bytes) + rest) =~= varint(bytes.len()) + (bytes + rest));
        assert(varint(bytes.len() as u64 as nat) == varint(bytes.len()));
    }
    let (n, p1) = read_varint(b, pos, Ghost(bytes.len() as u64), Ghost(bytes + rest));
    proof {
        assert(b@.skip(p1 as int).len() == b@.len() - p1);
        assert((bytes + rest).len() == bytes.len() + rest.len());
        assert(p1 + bytes.len() <= b@.len());
    }
    let n_usize = n as usize;
    proof {
        assert(n_usize as nat == bytes.len());
    }
    let end = p1 + n_usize;
    let out = bytes_range(b, p1, end);
    proof {
        assert(out@ =~= bytes);
        assert(b@.skip(end as int) =~= b@.skip(p1 as int).skip(bytes.len() as int));
        assert((bytes + rest).skip(bytes.len() as int) =~= rest);
        assert(b@.skip(end as int) =~= rest);
    }
    (out, end)
}

/// The encoding of a ledger address inside the envelope: a variant tag,
/// then the numeric identity for ordinary accounts.
pub open spec fn enc_addr(a: Address) -> Seq<u8> {
    match a {
        Address::Pgf => seq![1u8],
        Address::Ibc => seq![2u8],
        Address::IbcEscrow => seq![3u8],
        Address::Account(n) => seq![4u8] + enc_u64(n),
    }
}

/// Encodes a ledger address for the envelope.
fn encode_address(a: Address) -> (r: Vec<u8>)
    ensures
        r@ == enc_addr(a),
{
    let mut v: Vec<u8> = Vec::new();
    match a {
        Address::Pgf => {
            v.push(1);
        },
        Address::Ibc => {
            v.push(2);
        },
        Address::IbcEscrow => {
            v.push(3);
        },
        Address::Account(n) => {
            v.push(4);
            let mut id = borsh_encode_u64(n);
            v.append(&mut id);
        },
    }
    proof {
        assert(v@ =~= enc_addr(a));
    }
    v
}

/// Decodes an address field of the envelope.
fn decode_address(b: &Vec<u8>, Ghost(a): Ghost<Address>) -> (r: Address)
    requires
        b@ == enc_addr(a),
    ensures
        r == a,
{
    let tag = b[0];
    if tag == 1 {
        Address::Pgf
    } else if tag == 2 {
        Address::Ibc
    } else if tag == 3 {
        Address::IbcEscrow
    } else {
        proof {
            assert(a is Account);
            crate::codec::lemma_le_bytes_len(a->Account_0 as nat, 8);
            assert(b@.len() == 9);
            assert(b@.subrange(1, 9) =~= enc_u64(a->Account_0));
            lemma_u64_round_trip(a->Account_0);
        }
        let id_bytes = bytes_range(b, 1, 9);
        match borsh_decode_u64(&id_bytes) {
            Some(n) => Address::Account(n),
            None => {
                proof {
                    assert(false);
                }
                Address::Pgf
            },
        }
    }
}

// ---------------------------------------------------------------------------
// The transfer message
// ---------------------------------------------------------------------------
/// An ephemeral cross-chain transfer message, built once per obligation and
/// discarded after dispatch. Its timeout height is unbounded ("never"); its
/// timeout timestamp is the dispatch time plus the configured lower bound on
/// an epoch's duration.
pub struct MsgTransfer {
    /// The port the transfer leaves through.
    pub port_id_on_a: Vec<u8>,
    /// The channel the transfer leaves through.
    pub chan_id_on_a: Vec<u8>,
    /// The token being moved.
    pub token: Address,
    /// The amount being moved.
    pub amount: u128,
    /// The local sender.
    pub sender: Address,
    /// The receiver on the other chain, as UTF-8 bytes.
    pub receiver: Vec<u8>,
    /// The memo; empty for treasury dispatches.
    pub memo: Vec<u8>,
    /// The timeout timestamp, in seconds.
    pub timeout_timestamp_on_b: u64,
}

/// Abstract value of a [`MsgTransfer`].
pub struct MsgTransferV {
    /// The port the transfer leaves through.
    pub port_id: Seq<u8>,
    /// The channel the transfer leaves through.
    pub channel_id: Seq<u8>,
    /// The token being moved.
    pub token: Address,
    /// The amount being moved.
    pub amount: u128,
    /// The local sender.
    pub sender: Address,
    /// The receiver bytes.
    pub receiver: Seq<u8>,
    /// The memo bytes.
    pub memo: Seq<u8>,
    /// The timeout timestamp, in seconds.
    pub timeout_timestamp: u64,
}

impl View for MsgTransfer {
    type V = MsgTransferV;

    open spec fn view(&self) -> MsgTransferV {
        MsgTransferV {
            port_id: self.port_id_on_a@,
            channel_id: self.chan_id_on_a@,
            token: self.token,
            amount: self.amount,
            sender: self.sender,
            receiver: self.receiver@,
            memo: self.memo@,
            timeout_timestamp: self.timeout_timestamp_on_b,
        }
    }
}

/// The canonical binary envelope of a transfer message: its fields in
/// order, length-delimited, then the unbounded timeout height (zero) and
/// the timeout timestamp as LEB128 integers.
pub open spec fn enc_msg(m: MsgTransferV) -> Seq<u8> {
    lp(m.port_id) + lp(m.channel_id) + lp(enc_addr(m.token)) + lp(enc_u128(m.amount)) + lp(
        enc_addr(m.sender),
    ) + lp(m.receiver) + lp(m.memo) + varint(0) + varint(m.timeout_timestamp as nat)
}

/// Encodes a transfer message into its canonical binary envelope.
pub fn encode_msg_transfer(m: &MsgTransfer) -> (r: Vec<u8>)
    ensures
        r@ == enc_msg(m@),
{
    let mut out: Vec<u8> = Vec::new();
    append_lp(&mut out, &m.port_id_on_a);
    append_lp(&mut out, &m.chan_id_on_a);
    let token_bytes = encode_address(m.token);
    append_lp(&mut out, &token_bytes);
    let amount_bytes = borsh_encode_u128(m.amount);
    append_lp(&mut out, &amount_bytes);
    let sender_bytes = encode_address(m.sender);
    append_lp(&mut out, &sender_bytes);
    append_lp(&mut out, &m.receiver);
    append_lp(&mut out, &m.memo);
    prost_encode_varint(0, &mut out);
    prost_encode_varint(m.timeout_timestamp_on_b, &mut out);
    proof {
        assert(out@ =~= enc_msg(m@));
    }
    out
}

/// The send-packet event buffered when a transfer message executes.
pub open spec fn packet_event(m: MsgTransferV) -> IbcEventV {
    IbcEventV {
        kind: EventKind::SendPacket,
        token: m.token,
        sender: m.sender,
        receiver: m.receiver,
        amount: m.amount,
        port_id: m.port_id,
        channel_id: m.channel_id,
        timeout_timestamp: m.timeout_timestamp,
    }
}

// ---------------------------------------------------------------------------
// The protocol action execution context
// ---------------------------------------------------------------------------
/// The capability set a protocol-internal (non-user-signed) cross-chain
/// action may drive: event emission and query, transfer, mint, burn, and
/// best-effort logging. Constructed fresh per dispatch around the ledger,
/// and discarded when the dispatch returns. Shielded transfers are outside
/// this capability set and fail loudly.
pub struct IbcProtocolContext {
    /// The ledger the context mutates.
    pub ledger: Ledger,
}

/// The events of one family among some buffered events, oldest first.
pub open spec fn events_matching(s: Seq<IbcEventV>, kind: EventKind) -> Seq<IbcEventV>
    decreases s.len(),
{
    if s.len() == 0 {
        Seq::empty()
    } else if s.last().kind == kind {
        events_matching(s.drop_last(), kind).push(s.last())
    } else {
        events_matching(s.drop_last(), kind)
    }
}

impl Clone for IbcEvent {
    /// Field-wise copy.
    fn clone(&self) -> (r: Self)
        ensures
            r@ == self@,
    {
        IbcEvent {
            kind: self.kind,
            token: self.token,
            sender: self.sender,
            receiver: clone_bytes(&self.receiver),
            amount: self.amount,
            port_id: clone_bytes(&self.port_id),
            channel_id: clone_bytes(&self.channel_id),
            timeout_timestamp: self.timeout_timestamp,
        }
    }
}

impl IbcProtocolContext {
    /// Appends an event to the write-log's event buffer. Never fails.
    pub fn emit_ibc_event(&mut self, event: IbcEvent) -> (r: Result<(), ActionError>)
        ensures
            r is Ok,
            final(self).ledger@ == (LedgerV {
                events: old(self).ledger@.events.push(event@),
                ..old(self).ledger@
            }),
    {
        self.ledger.push_event(event);
        Ok(())
    }

    /// The buffered events of one family, oldest first.
    pub fn get_ibc_events(&self, kind: EventKind) -> (r: Vec<IbcEvent>)
        ensures
            r@.map_values(|e: IbcEvent| e@) == events_matching(self.ledger@.events, kind),
    {
        let mut out: Vec<IbcEvent> = Vec::new();
        let mut i: usize = 0;
        proof {
            assert(self.ledger.events@.take(0) =~= Seq::<IbcEvent>::empty());
            assert(out@.map_values(|e: IbcEvent| e@) =~= events_matching(
                self.ledger.events@.take(0).map_values(|e: IbcEvent| e@),
                kind,
            ));
        }
        while i < self.ledger.events.len()
            invariant
                0 <= i <= self.ledger.events@.len(),
                out@.map_values(|e: IbcEvent| e@) == events_matching(
                    self.ledger.events@.take(i as int).map_values(|e: IbcEvent| e@),
                    kind,
                ),
            decreases self.ledger.events@.len() - i,
        {
            let ghost prefix = self.ledger.events@.take(i as int).map_values(
                |e: IbcEvent| e@,
            );
            let e = &self.ledger.events[i];
            proof {
                let next = self.ledger.events@.take(i + 1).map_values(|e: IbcEvent| e@);
                assert(next.drop_last() =~= prefix);
                assert(next.last() == self.ledger.events@[i as int]@);
            }
            if e.kind == kind {
                out.push(e.clone());
                proof {
                    assert(out@.map_values(|e: IbcEvent| e@) =~= events_matching(
                        self.ledger.events@.take(i + 1).map_values(|e: IbcEvent| e@),
                        kind,
                    ));
                }
            } else {
                proof {
                    assert(out@.map_values(|e: IbcEvent| e@) =~= events_matching(
                        self.ledger.events@.take(i + 1).map_values(|e: IbcEvent| e@),
                        kind,
                    ));
                }
            }
            i += 1;
        }
        proof {
            assert(self.ledger.events@.take(self.ledger.events@.len() as int)
                =~= self.ledger.events@);
        }
        out
    }

    /// Moves `amount` of `token` from `src` to `dest` through the native
    /// transfer primitive. Atomic: on failure the ledger is unchanged.
    pub fn transfer_token(
        &mut self,
        src: Address,
        dest: Address,
        token: Address,
        amount: u128,
    ) -> (r: Result<(), ActionError>)
        ensures
            (match spec_transfer(old(self).ledger@, token, src, dest, amount) {
                Some(v) => r is Ok && final(self).ledger@ == v,
                None => r is Err && final(self).ledger@ == old(self).ledger@,
            }),
    {
        match self.ledger.transfer(token, src, dest, amount) {
            Ok(()) => Ok(()),
            Err(e) => Err(ActionError::Token(e)),
        }
    }

    /// A shielded transfer inside a protocol-internal action is a contract
    /// violation: it fails loudly and changes nothing.
    pub fn handle_masp_tx(&mut self, shielded: &Vec<u8>) -> (r: Result<(), ActionError>)
        ensures
            r == Err::<(), ActionError>(ActionError::UnsupportedShieldedTransfer),
            final(self).ledger@ == old(self).ledger@,
    {
        let _ = shielded.len();
        Err(ActionError::UnsupportedShieldedTransfer)
    }

    /// Credits `amount` of `token` to `target` and records the cross-chain
    /// protocol's internal identity as the token's minter of record. On
    /// failure the ledger is unchanged.
    pub fn mint_token(&mut self, target: Address, token: Address, amount: u128) -> (r: Result<
        (),
        ActionError,
    >)
        ensures
            (match spec_credit(old(self).ledger@, token, target, amount) {
                Some(v) => r is Ok && final(self).ledger@ == (LedgerV {
                    minters: v.minters.insert(token, Address::Ibc),
                    ..v
                }),
                None => r is Err && final(self).ledger@ == old(self).ledger@,
            }),
    {
        match self.ledger.credit_tokens(token, target, amount) {
            Ok(()) => {
                self.ledger.set_minter(token, Address::Ibc);
                Ok(())
            },
            Err(e) => Err(ActionError::Token(e)),
        }
    }

    /// Burns `amount` of `token` held by `target` through the native burn
    /// primitive. On failure the ledger is unchanged.
    pub fn burn_token(&mut self, target: Address, token: Address, amount: u128) -> (r: Result<
        (),
        ActionError,
    >)
        ensures
            (match crate::ledger::spec_burn(old(self).ledger@, token, target, amount) {
                Some(v) => r is Ok && final(self).ledger@ == v,
                None => r is Err && final(self).ledger@ == old(self).ledger@,
            }),
    {
        match self.ledger.burn_tokens(token, target, amount) {
            Ok(()) => Ok(()),
            Err(e) => Err(ActionError::Token(e)),
        }
    }

    /// Best-effort diagnostic trace: never fails and never observable in
    /// consensus state.
    pub fn log_string(&self, message: String) {
        let _ = message;
    }
}

// ---------------------------------------------------------------------------
// The executor
// ---------------------------------------------------------------------------
/// Decodes a transfer envelope and drives the capability context: the
/// amount moves from the sender into cross-chain escrow and a send-packet
/// event is buffered. On failure the ledger is unchanged.
fn execute_transfer_message(
    ctx: &mut IbcProtocolContext,
    data: &Vec<u8>,
    Ghost(m): Ghost<MsgTransferV>,
) -> (r: Result<(), ActionError>)
    requires
        data@ == enc_msg(m),
    ensures
        (match spec_transfer(old(ctx).ledger@, m.token, m.sender, Address::IbcEscrow, m.amount) {
            Some(v) => r is Ok && final(ctx).ledger@ == (LedgerV {
                events: v.events.push(packet_event(m)),
                ..v
            }),
            None => r is Err && final(ctx).ledger@ == old(ctx).ledger@,
        }),
{
    let ghost t1 = lp(m.channel_id) + lp(enc_addr(m.token)) + lp(enc_u128(m.amount)) + lp(
        enc_addr(m.sender),
    ) + lp(m.receiver) + lp(m.memo) + varint(0) + varint(m.timeout_timestamp as nat);
    let ghost t2 = lp(enc_addr(m.token)) + lp(enc_u128(m.amount)) + lp(enc_addr(m.sender)) + lp(
        m.receiver,
    ) + lp(m.memo) + varint(0) + varint(m.timeout_timestamp as nat);
    let ghost t3 = lp(enc_u128(m.amount)) + lp(enc_addr(m.sender)) + lp(m.receiver) + lp(m.memo)
        + varint(0) + varint(m.timeout_timestamp as nat);
    let ghost t4 = lp(enc_addr(m.sender)) + lp(m.receiver) + lp(m.memo) + varint(0) + varint(
        m.timeout_timestamp as nat,
    );
    let ghost t5 = lp(m.receiver) + lp(m.memo) + varint(0) + varint(m.timeout_timestamp as nat);
    let ghost t6 = lp(m.memo) + varint(0) + varint(m.timeout_timestamp as nat);
    let ghost t7 = varint(0) + varint(m.timeout_timestamp as nat);
    let ghost t8 = varint(m.timeout_timestamp as nat);
    proof {
        assert(data@.skip(0) =~= lp(m.port_id) + t1);
        assert(t1 =~= lp(m.channel_id) + t2);
        assert(t2 =~= lp(enc_addr(m.token)) + t3);
        assert(t3 =~= lp(enc_u128(m.amount)) + t4);
        assert(t4 =~= lp(enc_addr(m.sender)) + t5);
        assert(t5 =~= lp(m.receiver) + t6);
        assert(t6 =~= lp(m.memo) + t7);
        assert(t7 =~= varint(0u64 as nat) + t8);
        assert(t8 =~= varint(m.timeout_timestamp as nat) + Seq::<u8>::empty());
    }
    let (port_id, p1) = read_lp(data, 0, Ghost(m.port_id), Ghost(t1));
    let (channel_id, p2) = read_lp(data, p1, Ghost(m.channel_id), Ghost(t2));
    let (token_bytes, p3) = read_lp(data, p2, Ghost(enc_addr(m.token)), Ghost(t3));
    let (amount_bytes, p4) = read_lp(data, p3, Ghost(enc_u128(m.amount)), Ghost(t4));
    let (sender_bytes, p5) = read_lp(data, p4, Ghost(enc_addr(m.sender)), Ghost(t5));
    let (receiver, p6) = read_lp(data, p5, Ghost(m.receiver), Ghost(t6));
    let (memo, p7) = read_lp(data, p6, Ghost(m.memo), Ghost(t7));
    let (_height, p8) = read_varint(data, p7, Ghost(0), Ghost(t8));
    let (timeout_timestamp, _p9) = read_varint(
        data,
        p8,
        Ghost(m.timeout_timestamp),
        Ghost(Seq::empty()),
    );
    let token = decode_address(&token_bytes, Ghost(m.token));
    let sender = decode_address(&sender_bytes, Ghost(m.sender));
    proof {
        lemma_u128_round_trip(m.amount);
    }
    let amount = match borsh_decode_u128(&amount_bytes) {
        Some(a) => a,
        None => {
            proof {
                assert(false);
            }
            return Err(ActionError::MalformedMessage);
        },
    };
    match ctx.transfer_token(sender, Address::IbcEscrow, token, amount) {
        Ok(()) => {
            let event = IbcEvent {
                kind: EventKind::SendPacket,
                token,
                sender,
                receiver,
                amount,
                port_id,
                channel_id,
                timeout_timestamp,
            };
            proof {
                assert(event@ == packet_event(m));
            }
            ctx.emit_ibc_event(event)
        },
        Err(e) => Err(e),
    }
}

// ---------------------------------------------------------------------------
// The dispatcher
// ---------------------------------------------------------------------------
/// The transfer message built for one cross-chain obligation: the target's
/// channel, port, receiver and amount; an empty memo; a timeout of "never"
/// in height and dispatch time plus the configured minimum epoch duration
/// in seconds.
pub open spec fn ibc_msg(
    token: Address,
    source: Address,
    target: IbcTargetV,
    now: u64,
    min_epoch_duration: u64,
) -> MsgTransferV {
    MsgTransferV {
        port_id: target.port_id,
        channel_id: target.channel_id,
        token,
        amount: target.amount,
        sender: source,
        receiver: target.target,
        memo: Seq::empty(),
        timeout_timestamp: (now + min_epoch_duration) as u64,
    }
}

/// Builds, encodes and executes the cross-chain transfer for one funding
/// obligation: `target.amount` of `token` moves from `source` into escrow
/// and a send-packet event is buffered. `now` is the wall-clock time of
/// this dispatch, sampled once by the caller. On failure — the source
/// balance does not cover the amount, or escrow would overflow — the error
/// is surfaced and the ledger is unchanged.
pub fn transfer_over_ibc(
    l: &mut Ledger,
    token: Address,
    source: Address,
    target: &PGFIbcTarget,
    now: u64,
) -> (r: Result<(), ActionError>)
    requires
        now + old(l)@.min_epoch_duration <= u64::MAX,
    ensures
        (match spec_transfer(old(l)@, token, source, Address::IbcEscrow, target@.amount) {
            Some(v) => r is Ok && final(l)@ == (LedgerV {
                events: v.events.push(
                    packet_event(
                        ibc_msg(token, source, target@, now, old(l)@.min_epoch_duration),
                    ),
                ),
                ..v
            }),
            None => r is Err && final(l)@ == old(l)@,
        }),
{
    let timeout_timestamp_on_b = now + l.min_epoch_duration;
    let msg = MsgTransfer {
        port_id_on_a: clone_bytes(&target.port_id),
        chan_id_on_a: clone_bytes(&target.channel_id),
        token,
        amount: target.amount,
        sender: source,
        receiver: clone_bytes(&target.target),
        memo: Vec::new(),
        timeout_timestamp_on_b,
    };
    let ghost mv = ibc_msg(token, source, target@, now, old(l)@.min_epoch_duration);
    proof {
        assert(msg@.memo =~= mv.memo);
        assert(msg@ == mv);
    }
    let data = encode_msg_transfer(&msg);
    let mut ctx = IbcProtocolContext { ledger: Ledger::placeholder() };
    core::mem::swap(&mut ctx.ledger, l);
    let r = execute_transfer_message(&mut ctx, &data, Ghost(mv));
    core::mem::swap(&mut ctx.ledger, l);
    r
}

} // verus!

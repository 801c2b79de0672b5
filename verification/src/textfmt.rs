//! The human-editable structured text form of the bridge parameters.
//!
//! One field per line, `<key> = <value>`, simple scalar fields before the
//! composite whitelist; numbers in decimal, external addresses as forty
//! lowercase hex digits. The keys are one letter each: `h` start height,
//! `c` minimum confirmations, `n` wrapped-native-asset address, `b` bridge
//! contract address, `v` bridge contract version, `w` whitelist length, and
//! one `e` line per whitelisted asset (`address amount precision`).
//!
//! Parsing validates at the boundary: a zero confirmation count or contract
//! version is rejected, so no such value enters memory. Emitting and then
//! parsing any well-formed parameter value yields it back unchanged —
//! [`lemma_text_round_trip`].

use vstd::prelude::*;

use crate::addr::{DenominatedAmount, EthAddress, ETH_ADDRESS_LEN};
use crate::params::{
    params_wf, ContractV, Contracts, ContractsV, ContractVersion, EntryV, Erc20WhitelistEntry,
    EthereumBridgeParams, MinimumConfirmations, ParamsV, UpgradeableContract,
};

verus! {

/// The space character.
pub const SP: u8 = 32;

/// The equals sign.
pub const EQ: u8 = 61;

/// The line feed ending every line.
pub const NL: u8 = 10;

/// Key letter: the first external-chain height considered.
pub const KEY_H: u8 = 104;

/// Key letter: the minimum confirmation threshold.
pub const KEY_C: u8 = 99;

/// Key letter: the wrapped-native-asset address.
pub const KEY_N: u8 = 110;

/// Key letter: the bridge contract address.
pub const KEY_B: u8 = 98;

/// Key letter: the bridge contract version.
pub const KEY_V: u8 = 118;

/// Key letter: the whitelist length.
pub const KEY_W: u8 = 119;

/// Key letter: one whitelisted asset.
pub const KEY_E: u8 = 101;

// ---------------------------------------------------------------------------
// Emitting
// ---------------------------------------------------------------------------
/// The decimal digits of a number, most significant first.
pub open spec fn dec_digits(n: nat) -> Seq<u8>
    decreases n,
{
    if n < 10 {
        seq![(48 + n) as u8]
    } else {
        dec_digits(n / 10) + seq![(48 + n % 10) as u8]
    }
}

/// One lowercase hex digit.
pub open spec fn hexd(n: nat) -> u8 {
    if n < 10 {
        (48 + n) as u8
    } else {
        (87 + n) as u8
    }
}

/// The lowercase hex digits of a byte string, two per byte.
pub open spec fn hex_digits(s: Seq<u8>) -> Seq<u8>
    decreases s.len(),
{
    if s.len() == 0 {
        Seq::empty()
    } else {
        seq![hexd(s[0] as nat / 16), hexd(s[0] as nat % 16)] + hex_digits(s.drop_first())
    }
}

/// The `<key> = ` opening of a line.
pub open spec fn key_prefix(key: u8) -> Seq<u8> {
    seq![key, SP, EQ, SP]
}

/// A whole numeric line.
pub open spec fn num_line(key: u8, n: nat) -> Seq<u8> {
    key_prefix(key) + dec_digits(n) + seq![NL]
}

/// A whole address line.
pub open spec fn hex_line(key: u8, bytes: Seq<u8>) -> Seq<u8> {
    key_prefix(key) + hex_digits(bytes) + seq![NL]
}

/// A whole whitelist-entry line: address, cap amount, cap precision.
pub open spec fn entry_line(e: EntryV) -> Seq<u8> {
    key_prefix(KEY_E) + hex_digits(e.addr) + seq![SP] + dec_digits(e.cap.amount as nat) + seq![SP]
        + dec_digits(e.cap.denom as nat) + seq![NL]
}

/// The whitelist entries, one line each, in order.
pub open spec fn emit_entries(es: Seq<EntryV>) -> Seq<u8>
    decreases es.len(),
{
    if es.len() == 0 {
        Seq::empty()
    } else {
        entry_line(es[0]) + emit_entries(es.drop_first())
    }
}

/// The text form of a parameter value.
pub open spec fn emit_params(p: ParamsV) -> Seq<u8> {
    num_line(KEY_H, p.eth_start_height as nat) + num_line(KEY_C, p.min_confirmations as nat)
        + hex_line(KEY_N, p.contracts.native_erc20) + hex_line(KEY_B, p.contracts.bridge.addr)
        + num_line(KEY_V, p.contracts.bridge.version as nat) + num_line(
        KEY_W,
        p.erc20_whitelist.len(),
    ) + emit_entries(p.erc20_whitelist)
}

/// Appends the decimal digits of `n`.
fn push_dec(out: &mut Vec<u8>, n: u128)
    ensures
        final(out)@ == old(out)@ + dec_digits(n as nat),
    decreases n,
{
    if n < 10 {
        out.push(48 + n as u8);
        proof {
            assert(out@ =~= old(out)@ + dec_digits(n as nat));
        }
    } else {
        push_dec(out, n / 10);
        out.push(48 + (n % 10) as u8);
        proof {
            assert(out@ =~= old(out)@ + dec_digits(n as nat));
        }
    }
}

/// Splitting a byte string splits its hex digits.
proof fn lemma_hex_digits_concat(a: Seq<u8>, b: Seq<u8>)
    ensures
        hex_digits(a + b) == hex_digits(a) + hex_digits(b),
    decreases a.len(),
{
    if a.len() == 0 {
        assert(a + b =~= b);
        assert(hex_digits(a) + hex_digits(b) =~= hex_digits(b));
    } else {
        lemma_hex_digits_concat(a.drop_first(), b);
        assert((a + b).drop_first() =~= a.drop_first() + b);
        assert(hex_digits(a + b) =~= hex_digits(a) + hex_digits(b));
    }
}

/// Appends the hex digits of a byte string.
#[verifier::loop_isolation(false)]
fn push_hex(out: &mut Vec<u8>, bytes: &Vec<u8>)
    ensures
        final(out)@ == old(out)@ + hex_digits(bytes@),
{
    let mut i: usize = 0;
    proof {
        assert(bytes@.take(0) =~= Seq::<u8>::empty());
        assert(out@ =~= old(out)@ + hex_digits(bytes@.take(0)));
    }
    while i < bytes.len()
        invariant
            0 <= i <= bytes@.len(),
            out@ == old(out)@ + hex_digits(bytes@.take(i as int)),
        decreases bytes@.len() - i,
    {
        let b = bytes[i];
        out.push(if b / 16 < 10 {
            48 + b / 16
        } else {
            87 + b / 16
        });
        out.push(if b % 16 < 10 {
            48 + b % 16
        } else {
            87 + b % 16
        });
        proof {
            assert(bytes@.take(i + 1) =~= bytes@.take(i as int) + seq![bytes@[i as int]]);
            lemma_hex_digits_concat(bytes@.take(i as int), seq![bytes@[i as int]]);
            assert(seq![bytes@[i as int]].drop_first() =~= Seq::<u8>::empty());
            assert(hex_digits(seq![bytes@[i as int]]) =~= seq![
                hexd(b as nat / 16),
                hexd(b as nat % 16),
            ]);
            assert(out@ =~= old(out)@ + hex_digits(bytes@.take(i + 1)));
        }
        i += 1;
    }
    proof {
        assert(bytes@.take(bytes@.len() as int) =~= bytes@);
    }
}

/// Splitting a whitelist splits its lines.
proof fn lemma_emit_entries_concat(a: Seq<EntryV>, b: Seq<EntryV>)
    ensures
        emit_entries(a + b) == emit_entries(a) + emit_entries(b),
    decreases a.len(),
{
    if a.len() == 0 {
        assert(a + b =~= b);
        assert(emit_entries(a) + emit_entries(b) =~= emit_entries(b));
    } else {
        lemma_emit_entries_concat(a.drop_first(), b);
        assert((a + b).drop_first() =~= a.drop_first() + b);
        assert((a + b)[0] == a[0]);
        assert(emit_entries(a + b) =~= emit_entries(a) + emit_entries(b));
    }
}

/// Appends a `<key> = ` line opening.
fn push_key(out: &mut Vec<u8>, key: u8)
    ensures
        final(out)@ == old(out)@ + key_prefix(key),
{
    out.push(key);
    out.push(SP);
    out.push(EQ);
    out.push(SP);
    proof {
        assert(out@ =~= old(out)@ + key_prefix(key));
    }
}

impl EthereumBridgeParams {
    /// Renders the parameters in their structured text form.
    #[verifier::loop_isolation(false)]
    #[verifier::rlimit(60)]
    pub fn to_text(&self) -> (r: Vec<u8>)
        ensures
            r@ == emit_params(self@),
    {
        let mut out: Vec<u8> = Vec::new();
        push_key(&mut out, KEY_H);
        push_dec(&mut out, self.eth_start_height as u128);
        out.push(NL);
        push_key(&mut out, KEY_C);
        push_dec(&mut out, self.min_confirmations.get() as u128);
        out.push(NL);
        push_key(&mut out, KEY_N);
        push_hex(&mut out, &self.contracts.native_erc20.bytes);
        out.push(NL);
        push_key(&mut out, KEY_B);
        push_hex(&mut out, &self.contracts.bridge.address.bytes);
        out.push(NL);
        push_key(&mut out, KEY_V);
        push_dec(&mut out, self.contracts.bridge.version.get() as u128);
        out.push(NL);
        push_key(&mut out, KEY_W);
        push_dec(&mut out, self.erc20_whitelist.len() as u128);
        out.push(NL);
        let ghost header = out@;
        let ghost entries = self@.erc20_whitelist;
        let mut i: usize = 0;
        proof {
            assert(entries.take(0) =~= Seq::<EntryV>::empty());
            assert(out@ =~= header + emit_entries(entries.take(0)));
        }
        while i < self.erc20_whitelist.len()
            invariant
                0 <= i <= entries.len(),
                out@ == header + emit_entries(entries.take(i as int)),
            decreases entries.len() - i,
        {
            let ghost before = out@;
            let e = &self.erc20_whitelist[i];
            push_key(&mut out, KEY_E);
            push_hex(&mut out, &e.token_address.bytes);
            out.push(SP);
            push_dec(&mut out, e.token_cap.amount);
            out.push(SP);
            push_dec(&mut out, e.token_cap.denom as u128);
            out.push(NL);
            proof {
                let ev = entries[i as int];
                assert(ev == self.erc20_whitelist@[i as int]@);
                assert(out@ =~= before + entry_line(ev));
                assert(entries.take(i + 1) =~= entries.take(i as int) + seq![ev]);
                lemma_emit_entries_concat(entries.take(i as int), seq![ev]);
                assert(seq![ev].drop_first() =~= Seq::<EntryV>::empty());
                assert(emit_entries(seq![ev]) =~= entry_line(ev));
                assert(out@ =~= header + emit_entries(entries.take(i + 1)));
            }
            i += 1;
        }
        proof {
            assert(entries.take(entries.len() as int) =~= entries);
            assert(out@ =~= emit_params(self@));
        }
        out
    }
}

// ---------------------------------------------------------------------------
// Parsing
// ---------------------------------------------------------------------------
/// An ASCII decimal digit.
pub open spec fn is_digit(b: u8) -> bool {
    48 <= b <= 57
}

/// An ASCII lowercase hex digit.
pub open spec fn is_hexd(b: u8) -> bool {
    (48 <= b <= 57) || (97 <= b <= 102)
}

/// The value of a lowercase hex digit.
pub open spec fn hexv(b: u8) -> nat {
    if b <= 57 {
        (b - 48) as nat
    } else {
        (b - 87) as nat
    }
}

/// Consumes decimal digits, folding them into the accumulator.
pub open spec fn parse_dec_rec(s: Seq<u8>, acc: nat) -> (nat, Seq<u8>)
    decreases s.len(),
{
    if s.len() > 0 && is_digit(s[0]) {
        parse_dec_rec(s.drop_first(), acc * 10 + (s[0] - 48) as nat)
    } else {
        (acc, s)
    }
}

/// A decimal number: at least one digit, and a value within `max`.
pub open spec fn parse_dec(s: Seq<u8>, max: nat) -> Option<(nat, Seq<u8>)> {
    if s.len() > 0 && is_digit(s[0]) {
        let r = parse_dec_rec(s, 0);
        if r.0 <= max {
            Some(r)
        } else {
            None
        }
    } else {
        None
    }
}

/// Exactly `n` bytes, each as two lowercase hex digits.
pub open spec fn parse_hex_bytes(s: Seq<u8>, n: nat) -> Option<(Seq<u8>, Seq<u8>)>
    decreases n,
{
    if n == 0 {
        Some((Seq::empty(), s))
    } else if s.len() >= 2 && is_hexd(s[0]) && is_hexd(s[1]) {
        match parse_hex_bytes(s.skip(2), (n - 1) as nat) {
            Some(r) => Some((seq![(hexv(s[0]) * 16 + hexv(s[1])) as u8] + r.0, r.1)),
            None => None,
        }
    } else {
        None
    }
}

/// An exact literal prefix.
pub open spec fn expect(s: Seq<u8>, p: Seq<u8>) -> Option<Seq<u8>> {
    if s.len() >= p.len() && s.take(p.len() as int) == p {
        Some(s.skip(p.len() as int))
    } else {
        None
    }
}

/// A whole numeric line.
pub open spec fn parse_num_line(s: Seq<u8>, key: u8, max: nat) -> Option<(nat, Seq<u8>)> {
    match expect(s, key_prefix(key)) {
        Some(s1) => match parse_dec(s1, max) {
            Some(r) => match expect(r.1, seq![NL]) {
                Some(s3) => Some((r.0, s3)),
                None => None,
            },
            None => None,
        },
        None => None,
    }
}

/// A whole address line.
pub open spec fn parse_hex_line(s: Seq<u8>, key: u8) -> Option<(Seq<u8>, Seq<u8>)> {
    match expect(s, key_prefix(key)) {
        Some(s1) => match parse_hex_bytes(s1, ETH_ADDRESS_LEN as nat) {
            Some(r) => match expect(r.1, seq![NL]) {
                Some(s3) => Some((r.0, s3)),
                None => None,
            },
            None => None,
        },
        None => None,
    }
}

/// A whole whitelist-entry line.
pub open spec fn parse_entry_line(s: Seq<u8>) -> Option<(EntryV, Seq<u8>)> {
    match expect(s, key_prefix(KEY_E)) {
        Some(s1) => match parse_hex_bytes(s1, ETH_ADDRESS_LEN as nat) {
            Some(ra) => match expect(ra.1, seq![SP]) {
                Some(s2) => match parse_dec(s2, u128::MAX as nat) {
                    Some(rm) => match expect(rm.1, seq![SP]) {
                        Some(s3) => match parse_dec(s3, 255) {
                            Some(rd) => match expect(rd.1, seq![NL]) {
                                Some(s4) => Some(
                                    (
                                        EntryV {
                                            addr: ra.0,
                                            cap: DenominatedAmount {
                                                amount: rm.0 as u128,
                                                denom: rd.0 as u8,
                                            },
                                        },
                                        s4,
                                    ),
                                ),
                                None => None,
                            },
                            None => None,
                        },
                        None => None,
                    },
                    None => None,
                },
                None => None,
            },
            None => None,
        },
        None => None,
    }
}

/// Exactly `n` whitelist-entry lines.
pub open spec fn parse_entries(s: Seq<u8>, n: nat) -> Option<(Seq<EntryV>, Seq<u8>)>
    decreases n,
{
    if n == 0 {
        Some((Seq::empty(), s))
    } else {
        match parse_entry_line(s) {
            Some(re) => match parse_entries(re.1, (n - 1) as nat) {
                Some(rs) => Some((seq![re.0] + rs.0, rs.1)),
                None => None,
            },
            None => None,
        }
    }
}

/// The whole text form: the six configuration lines, then exactly the
/// announced number of whitelist entries, then nothing. A zero
/// confirmation count or contract version is rejected here, at the
/// boundary.
pub open spec fn parse_params(s: Seq<u8>) -> Option<ParamsV> {
    match parse_num_line(s, KEY_H, u64::MAX as nat) {
        Some(rh) => match parse_num_line(rh.1, KEY_C, u64::MAX as nat) {
            Some(rc) => if rc.0 == 0 {
                None
            } else {
                match parse_hex_line(rc.1, KEY_N) {
                    Some(rn) => match parse_hex_line(rn.1, KEY_B) {
                        Some(rb) => match parse_num_line(rb.1, KEY_V, u64::MAX as nat) {
                            Some(rv) => if rv.0 == 0 {
                                None
                            } else {
                                match parse_num_line(rv.1, KEY_W, u64::MAX as nat) {
                                    Some(rw) => match parse_entries(rw.1, rw.0) {
                                        Some(re) => if re.1.len() == 0 {
                                            Some(
                                                ParamsV {
                                                    eth_start_height: rh.0 as u64,
                                                    min_confirmations: rc.0 as u64,
                                                    erc20_whitelist: re.0,
                                                    contracts: ContractsV {
                                                        native_erc20: rn.0,
                                                        bridge: ContractV {
                                                            addr: rb.0,
                                                            version: rv.0 as u64,
                                                        },
                                                    },
                                                },
                                            )
                                        } else {
                                            None
                                        },
                                        None => None,
                                    },
                                    None => None,
                                }
                            },
                            None => None,
                        },
                        None => None,
                    },
                    None => None,
                }
            },
            None => None,
        },
        None => None,
    }
}

// ---------------------------------------------------------------------------
// The round trip
// ---------------------------------------------------------------------------
/// `10 ^ k`.
pub open spec fn pow10(k: nat) -> nat
    decreases k,
{
    if k == 0 {
        1
    } else {
        10 * pow10((k - 1) as nat)
    }
}

/// How many decimal digits a number prints as.
pub open spec fn n_digits(n: nat) -> nat
    decreases n,
{
    if n < 10 {
        1
    } else {
        1 + n_digits(n / 10)
    }
}

/// A printed number is at least one character, all of them digits.
proof fn lemma_dec_digits_shape(n: nat)
    ensures
        dec_digits(n).len() == n_digits(n),
        dec_digits(n).len() >= 1,
        is_digit(dec_digits(n)[0]),
    decreases n,
{
    if n >= 10 {
        lemma_dec_digits_shape(n / 10);
    }
}

/// Reading printed digits folds back to the printed number.
proof fn lemma_parse_dec_rec(n: nat, rest: Seq<u8>, acc: nat)
    ensures
        parse_dec_rec(dec_digits(n) + rest, acc) == parse_dec_rec(
            rest,
            acc * pow10(n_digits(n)) + n,
        ),
    decreases n,
{
    if n < 10 {
        let s = dec_digits(n) + rest;
        assert(s[0] == (48 + n) as u8);
        assert(s.drop_first() =~= rest);
        assert(pow10(0) == 1);
        assert(pow10(1) == 10);
    } else {
        let d = (48 + n % 10) as u8;
        assert(dec_digits(n) + rest =~= dec_digits(n / 10) + (seq![d] + rest));
        lemma_parse_dec_rec(n / 10, seq![d] + rest, acc);
        let k = n_digits(n / 10);
        assert((seq![d] + rest)[0] == d);
        assert((seq![d] + rest).drop_first() =~= rest);
        assert(parse_dec_rec(seq![d] + rest, acc * pow10(k) + n / 10) == parse_dec_rec(
            rest,
            (acc * pow10(k) + n / 10) * 10 + (n % 10),
        ));
        assert((acc * pow10(k) + n / 10) * 10 + (n % 10) == acc * (10 * pow10(k)) + n) by (nonlinear_arith);
        assert(pow10(n_digits(n)) == 10 * pow10(k));
    }
}

/// A printed number parses back to itself, given the text goes on with a
/// non-digit.
proof fn lemma_parse_dec_round(n: nat, rest: Seq<u8>, max: nat)
    requires
        n <= max,
        rest.len() == 0 || !is_digit(rest[0]),
    ensures
        parse_dec(dec_digits(n) + rest, max) == Some((n, rest)),
{
    lemma_dec_digits_shape(n);
    lemma_parse_dec_rec(n, rest, 0);
    assert(0 * pow10(n_digits(n)) + n == n);
    assert((dec_digits(n) + rest)[0] == dec_digits(n)[0]);
}

/// A printed address parses back to itself.
proof fn lemma_parse_hex_round(bytes: Seq<u8>, rest: Seq<u8>)
    ensures
        parse_hex_bytes(hex_digits(bytes) + rest, bytes.len()) == Some((bytes, rest)),
    decreases bytes.len(),
{
    if bytes.len() == 0 {
        assert(hex_digits(bytes) + rest =~= rest);
        assert(parse_hex_bytes(rest, 0)->Some_0.0 =~= bytes);
    } else {
        let b = bytes[0];
        let h1 = hexd(b as nat / 16);
        let h2 = hexd(b as nat % 16);
        let s = hex_digits(bytes) + rest;
        assert(s =~= seq![h1, h2] + (hex_digits(bytes.drop_first()) + rest));
        assert(is_hexd(h1) && is_hexd(h2));
        assert(hexv(h1) == b as nat / 16 && hexv(h2) == b as nat % 16);
        assert(s.skip(2) =~= hex_digits(bytes.drop_first()) + rest);
        lemma_parse_hex_round(bytes.drop_first(), rest);
        assert((hexv(s[0]) * 16 + hexv(s[1])) as u8 == b);
        assert(seq![b] + bytes.drop_first() =~= bytes);
    }
}

/// A literal prefix strips back off.
proof fn lemma_expect_round(p: Seq<u8>, rest: Seq<u8>)
    ensures
        expect(p + rest, p) == Some(rest),
{
    assert((p + rest).take(p.len() as int) =~= p);
    assert((p + rest).skip(p.len() as int) =~= rest);
}

/// A printed numeric line parses back to its number.
proof fn lemma_num_line_round(key: u8, n: nat, max: nat, rest: Seq<u8>)
    requires
        n <= max,
    ensures
        parse_num_line(num_line(key, n) + rest, key, max) == Some((n, rest)),
{
    let tail = dec_digits(n) + (seq![NL] + rest);
    assert(num_line(key, n) + rest =~= key_prefix(key) + tail);
    lemma_expect_round(key_prefix(key), tail);
    lemma_parse_dec_round(n, seq![NL] + rest, max);
    lemma_expect_round(seq![NL], rest);
}

/// A printed address line parses back to its address.
proof fn lemma_hex_line_round(key: u8, bytes: Seq<u8>, rest: Seq<u8>)
    requires
        bytes.len() == ETH_ADDRESS_LEN,
    ensures
        parse_hex_line(hex_line(key, bytes) + rest, key) == Some((bytes, rest)),
{
    let tail = hex_digits(bytes) + (seq![NL] + rest);
    assert(hex_line(key, bytes) + rest =~= key_prefix(key) + tail);
    lemma_expect_round(key_prefix(key), tail);
    lemma_parse_hex_round(bytes, seq![NL] + rest);
    lemma_expect_round(seq![NL], rest);
}

/// A printed whitelist-entry line parses back to its entry.
proof fn lemma_entry_line_round(e: EntryV, rest: Seq<u8>)
    requires
        e.addr.len() == ETH_ADDRESS_LEN,
    ensures
        parse_entry_line(entry_line(e) + rest) == Some((e, rest)),
{
    let t3 = dec_digits(e.cap.denom as nat) + (seq![NL] + rest);
    let t2 = dec_digits(e.cap.amount as nat) + (seq![SP] + t3);
    let t1 = hex_digits(e.addr) + (seq![SP] + t2);
    assert(entry_line(e) + rest =~= key_prefix(KEY_E) + t1);
    lemma_expect_round(key_prefix(KEY_E), t1);
    lemma_parse_hex_round(e.addr, seq![SP] + t2);
    lemma_expect_round(seq![SP], t2);
    lemma_parse_dec_round(e.cap.amount as nat, seq![SP] + t3, u128::MAX as nat);
    lemma_expect_round(seq![SP], t3);
    lemma_parse_dec_round(e.cap.denom as nat, seq![NL] + rest, 255);
    lemma_expect_round(seq![NL], rest);
}

/// A printed whitelist parses back to itself.
proof fn lemma_entries_round(es: Seq<EntryV>, rest: Seq<u8>)
    requires
        forall|i: int| 0 <= i < es.len() ==> (#[trigger] es[i]).addr.len() == ETH_ADDRESS_LEN,
    ensures
        parse_entries(emit_entries(es) + rest, es.len()) == Some((es, rest)),
    decreases es.len(),
{
    if es.len() == 0 {
        assert(emit_entries(es) + rest =~= rest);
        assert(parse_entries(rest, 0)->Some_0.0 =~= es);
    } else {
        assert(emit_entries(es) + rest =~= entry_line(es[0]) + (emit_entries(es.drop_first())
            + rest));
        lemma_entry_line_round(es[0], emit_entries(es.drop_first()) + rest);
        lemma_entries_round(es.drop_first(), rest);
        assert(seq![es[0]] + es.drop_first() =~= es);
    }
}

/// Rendering any well-formed parameter value to text and parsing the text
/// back yields exactly that value.
pub proof fn lemma_text_round_trip(p: ParamsV)
    requires
        params_wf(p),
        p.erc20_whitelist.len() <= u64::MAX,
    ensures
        parse_params(emit_params(p)) == Some(p),
{
    let t6 = emit_entries(p.erc20_whitelist);
    let t5 = num_line(KEY_W, p.erc20_whitelist.len()) + t6;
    let t4 = num_line(KEY_V, p.contracts.bridge.version as nat) + t5;
    let t3 = hex_line(KEY_B, p.contracts.bridge.addr) + t4;
    let t2 = hex_line(KEY_N, p.contracts.native_erc20) + t3;
    let t1 = num_line(KEY_C, p.min_confirmations as nat) + t2;
    assert(emit_params(p) =~= num_line(KEY_H, p.eth_start_height as nat) + t1);
    lemma_num_line_round(KEY_H, p.eth_start_height as nat, u64::MAX as nat, t1);
    assert(t1 =~= num_line(KEY_C, p.min_confirmations as nat) + t2);
    lemma_num_line_round(KEY_C, p.min_confirmations as nat, u64::MAX as nat, t2);
    assert(t2 =~= hex_line(KEY_N, p.contracts.native_erc20) + t3);
    lemma_hex_line_round(KEY_N, p.contracts.native_erc20, t3);
    assert(t3 =~= hex_line(KEY_B, p.contracts.bridge.addr) + t4);
    lemma_hex_line_round(KEY_B, p.contracts.bridge.addr, t4);
    assert(t4 =~= num_line(KEY_V, p.contracts.bridge.version as nat) + t5);
    lemma_num_line_round(KEY_V, p.contracts.bridge.version as nat, u64::MAX as nat, t5);
    assert(t5 =~= num_line(KEY_W, p.erc20_whitelist.len()) + t6);
    lemma_num_line_round(KEY_W, p.erc20_whitelist.len(), u64::MAX as nat, t6);
    assert(t6 =~= emit_entries(p.erc20_whitelist) + Seq::<u8>::empty());
    lemma_entries_round(p.erc20_whitelist, Seq::empty());
    assert(parse_params(emit_params(p)) == Some(p));
}

// ---------------------------------------------------------------------------
// Parsing, executed
// ---------------------------------------------------------------------------
/// Reads a `<key> = ` line opening at `pos`.
fn px_key(b: &Vec<u8>, pos: usize, key: u8) -> (r: Option<usize>)
    requires
        pos <= b@.len(),
    ensures
        (match expect(b@.skip(pos as int), key_prefix(key)) {
            Some(rest) => r matches Some(np) && np <= b@.len() && b@.skip(np as int) == rest,
            None => r is None,
        }),
{
    let ghost s = b@.skip(pos as int);
    if b.len() - pos >= 4 && b[pos] == key && b[pos + 1] == SP && b[pos + 2] == EQ && b[pos + 3]
        == SP {
        proof {
            assert(s.take(4) =~= key_prefix(key));
            assert(b@.skip(pos + 4) =~= s.skip(4));
        }
        Some(pos + 4)
    } else {
        proof {
            if s.len() >= 4 && s.take(4) == key_prefix(key) {
                assert(s[0] == key && s[1] == SP && s[2] == EQ && s[3] == SP) by {
                    assert(s.take(4)[0] == s[0] && s.take(4)[1] == s[1] && s.take(4)[2] == s[2]
                        && s.take(4)[3] == s[3]);
                };
                assert(false);
            }
        }
        None
    }
}

/// Reads one expected byte at `pos`.
fn px_byte(b: &Vec<u8>, pos: usize, ch: u8) -> (r: Option<usize>)
    requires
        pos <= b@.len(),
    ensures
        (match expect(b@.skip(pos as int), seq![ch]) {
            Some(rest) => r matches Some(np) && np <= b@.len() && b@.skip(np as int) == rest,
            None => r is None,
        }),
{
    let ghost s = b@.skip(pos as int);
    if pos < b.len() && b[pos] == ch {
        proof {
            assert(s.take(1) =~= seq![ch]);
            assert(b@.skip(pos + 1) =~= s.skip(1));
        }
        Some(pos + 1)
    } else {
        proof {
            if s.len() >= 1 && s.take(1) == seq![ch] {
                assert(s.take(1)[0] == s[0]);
                assert(false);
            }
        }
        None
    }
}

/// Reads a decimal number at `pos`, rejecting values beyond `max`.
#[verifier::loop_isolation(false)]
fn px_dec(b: &Vec<u8>, pos: usize, max: u128) -> (r: Option<(u128, usize)>)
    requires
        pos <= b@.len(),
    ensures
        (match parse_dec(b@.skip(pos as int), max as nat) {
            Some(v) => r matches Some(x) && x.0 as nat == v.0 && x.1 <= b@.len() && b@.skip(
                x.1 as int,
            ) == v.1,
            None => r is None,
        }),
{
    let ghost s0 = b@.skip(pos as int);
    if pos >= b.len() || b[pos] < 48 || b[pos] > 57 {
        return None;
    }
    let mut i: usize = pos;
    let mut acc: u128 = 0;
    let mut over: bool = false;
    let ghost mut acc_t: nat = 0;
    while i < b.len() && 48 <= b[i] && b[i] <= 57
        invariant
            pos <= i <= b@.len(),
            parse_dec_rec(s0, 0) == parse_dec_rec(b@.skip(i as int), acc_t),
            over == (acc_t > u128::MAX),
            !over ==> acc == acc_t,
        decreases b@.len() - i,
    {
        let d = b[i] - 48;
        proof {
            assert(b@.skip(i as int)[0] == b@[i as int]);
            assert(b@.skip(i + 1) =~= b@.skip(i as int).drop_first());
            acc_t = acc_t * 10 + d as nat;
        }
        if !over {
            match acc.checked_mul(10) {
                Some(a10) => match a10.checked_add(d as u128) {
                    Some(a) => {
                        acc = a;
                    },
                    None => {
                        over = true;
                    },
                },
                None => {
                    over = true;
                },
            }
        }
        i += 1;
    }
    proof {
        if i < b@.len() {
            assert(b@.skip(i as int)[0] == b@[i as int]);
        }
        assert(parse_dec_rec(b@.skip(i as int), acc_t) == (acc_t, b@.skip(i as int)));
        assert(s0[0] == b@[pos as int]);
    }
    if over || acc > max {
        None
    } else {
        Some((acc, i))
    }
}

/// Reads a twenty-byte address as forty hex digits at `pos`.
#[verifier::loop_isolation(false)]
fn px_hex20(b: &Vec<u8>, pos: usize) -> (r: Option<(Vec<u8>, usize)>)
    requires
        pos <= b@.len(),
    ensures
        (match parse_hex_bytes(b@.skip(pos as int), ETH_ADDRESS_LEN as nat) {
            Some(v) => r matches Some(x) && x.0@ == v.0 && x.0@.len() == ETH_ADDRESS_LEN && x.1
                <= b@.len() && b@.skip(x.1 as int) == v.1,
            None => r is None,
        }),
{
    let ghost s0 = b@.skip(pos as int);
    let mut out: Vec<u8> = Vec::new();
    let mut i: usize = pos;
    let mut k: usize = 0;
    while k < ETH_ADDRESS_LEN
        invariant
            pos <= i <= b@.len(),
            0 <= k <= ETH_ADDRESS_LEN,
            out@.len() == k,
            (match parse_hex_bytes(b@.skip(i as int), (ETH_ADDRESS_LEN - k) as nat) {
                Some(v) => parse_hex_bytes(s0, ETH_ADDRESS_LEN as nat) == Some::<
                    (Seq<u8>, Seq<u8>),
                >((out@ + v.0, v.1)),
                None => parse_hex_bytes(s0, ETH_ADDRESS_LEN as nat) is None,
            }),
        decreases ETH_ADDRESS_LEN - k,
    {
        let ghost si = b@.skip(i as int);
        if b.len() - i < 2 {
            proof {
                assert(si.len() < 2);
            }
            return None;
        }
        let c1 = b[i];
        let c2 = b[i + 1];
        proof {
            assert(si[0] == b@[i as int] && si[1] == b@[i + 1]);
        }
        let h1 = if 48 <= c1 && c1 <= 57 {
            c1 - 48
        } else if 97 <= c1 && c1 <= 102 {
            c1 - 87
        } else {
            return None;
        };
        let h2 = if 48 <= c2 && c2 <= 57 {
            c2 - 48
        } else if 97 <= c2 && c2 <= 102 {
            c2 - 87
        } else {
            return None;
        };
        let byte = h1 * 16 + h2;
        out.push(byte);
        proof {
            assert(b@.skip(i + 2) =~= si.skip(2));
            assert(byte as nat == hexv(si[0]) * 16 + hexv(si[1]));
            match parse_hex_bytes(si.skip(2), (ETH_ADDRESS_LEN - k - 1) as nat) {
                Some(r) => {
                    assert(out@.drop_last() + (seq![byte] + r.0) =~= out@ + r.0);
                },
                None => {},
            }
        }
        i += 2;
        k += 1;
    }
    proof {
        assert(parse_hex_bytes(b@.skip(i as int), 0) == Some::<(Seq<u8>, Seq<u8>)>((
            Seq::empty(),
            b@.skip(i as int),
        )));
        assert(out@ + Seq::<u8>::empty() =~= out@);
    }
    Some((out, i))
}

/// Reads a whole numeric line at `pos`.
fn px_num_line(b: &Vec<u8>, pos: usize, key: u8, max: u128) -> (r: Option<(u128, usize)>)
    requires
        pos <= b@.len(),
    ensures
        (match parse_num_line(b@.skip(pos as int), key, max as nat) {
            Some(v) => r matches Some(x) && x.0 as nat == v.0 && x.1 <= b@.len() && b@.skip(
                x.1 as int,
            ) == v.1,
            None => r is None,
        }),
{
    let p1 = match px_key(b, pos, key) {
        Some(p) => p,
        None => {
            return None;
        },
    };
    let (n, p2) = match px_dec(b, p1, max) {
        Some(x) => x,
        None => {
            return None;
        },
    };
    let p3 = match px_byte(b, p2, NL) {
        Some(p) => p,
        None => {
            return None;
        },
    };
    Some((n, p3))
}

/// Reads a whole address line at `pos`.
fn px_hex_line(b: &Vec<u8>, pos: usize, key: u8) -> (r: Option<(Vec<u8>, usize)>)
    requires
        pos <= b@.len(),
    ensures
        (match parse_hex_line(b@.skip(pos as int), key) {
            Some(v) => r matches Some(x) && x.0@ == v.0 && x.0@.len() == ETH_ADDRESS_LEN && x.1
                <= b@.len() && b@.skip(x.1 as int) == v.1,
            None => r is None,
        }),
{
    let p1 = match px_key(b, pos, key) {
        Some(p) => p,
        None => {
            return None;
        },
    };
    let (bytes, p2) = match px_hex20(b, p1) {
        Some(x) => x,
        None => {
            return None;
        },
    };
    let p3 = match px_byte(b, p2, NL) {
        Some(p) => p,
        None => {
            return None;
        },
    };
    Some((bytes, p3))
}

/// Reads a whole whitelist-entry line at `pos`.
fn px_entry(b: &Vec<u8>, pos: usize) -> (r: Option<(Erc20WhitelistEntry, usize)>)
    requires
        pos <= b@.len(),
    ensures
        (match parse_entry_line(b@.skip(pos as int)) {
            Some(v) => r matches Some(x) && x.0@ == v.0 && x.0.token_address.wf() && x.1
                <= b@.len() && b@.skip(x.1 as int) == v.1,
            None => r is None,
        }),
{
    let p1 = match px_key(b, pos, KEY_E) {
        Some(p) => p,
        None => {
            return None;
        },
    };
    let (addr_bytes, p2) = match px_hex20(b, p1) {
        Some(x) => x,
        None => {
            return None;
        },
    };
    let p3 = match px_byte(b, p2, SP) {
        Some(p) => p,
        None => {
            return None;
        },
    };
    let (amount, p4) = match px_dec(b, p3, u128::MAX) {
        Some(x) => x,
        None => {
            return None;
        },
    };
    let p5 = match px_byte(b, p4, SP) {
        Some(p) => p,
        None => {
            return None;
        },
    };
    let (denom, p6) = match px_dec(b, p5, 255) {
        Some(x) => x,
        None => {
            return None;
        },
    };
    let p7 = match px_byte(b, p6, NL) {
        Some(p) => p,
        None => {
            return None;
        },
    };
    let entry = Erc20WhitelistEntry {
        token_address: EthAddress { bytes: addr_bytes },
        token_cap: DenominatedAmount { amount, denom: denom as u8 },
    };
    Some((entry, p7))
}

impl EthereumBridgeParams {
    /// Parses the structured text form back into a parameter value; any
    /// malformed, truncated or out-of-range text — a zero confirmation
    /// count or contract version included — is rejected.
    #[verifier::loop_isolation(false)]
    #[verifier::rlimit(60)]
    pub fn from_text(b: &Vec<u8>) -> (r: Option<EthereumBridgeParams>)
        ensures
            (match parse_params(b@) {
                Some(v) => r matches Some(q) && q@ == v,
                None => r is None,
            }),
    {
        proof {
            assert(b@.skip(0) =~= b@);
        }
        let (h, p1) = match px_num_line(b, 0, KEY_H, u64::MAX as u128) {
            Some(x) => x,
            None => {
                return None;
            },
        };
        let (c, p2) = match px_num_line(b, p1, KEY_C, u64::MAX as u128) {
            Some(x) => x,
            None => {
                return None;
            },
        };
        let min_confirmations = match MinimumConfirmations::new(c as u64) {
            Some(mc) => mc,
            None => {
                return None;
            },
        };
        let (native_bytes, p3) = match px_hex_line(b, p2, KEY_N) {
            Some(x) => x,
            None => {
                return None;
            },
        };
        let (bridge_bytes, p4) = match px_hex_line(b, p3, KEY_B) {
            Some(x) => x,
            None => {
                return None;
            },
        };
        let (v, p5) = match px_num_line(b, p4, KEY_V, u64::MAX as u128) {
            Some(x) => x,
            None => {
                return None;
            },
        };
        let version = match ContractVersion::new(v as u64) {
            Some(cv) => cv,
            None => {
                return None;
            },
        };
        let (w, p6) = match px_num_line(b, p5, KEY_W, u64::MAX as u128) {
            Some(x) => x,
            None => {
                return None;
            },
        };
        let ghost s_w = b@.skip(p6 as int);
        let count = w as u64;
        let mut entries: Vec<Erc20WhitelistEntry> = Vec::new();
        let mut pos = p6;
        let mut i: u64 = 0;
        proof {
            assert(entries@.map_values(|e: Erc20WhitelistEntry| e@) =~= Seq::<EntryV>::empty());
        }
        while i < count
            invariant
                0 <= i <= count,
                pos <= b@.len(),
                entries@.len() == i,
                (match parse_entries(b@.skip(pos as int), (count - i) as nat) {
                    Some(v) => parse_entries(s_w, count as nat) == Some::<
                        (Seq<EntryV>, Seq<u8>),
                    >((entries@.map_values(|e: Erc20WhitelistEntry| e@) + v.0, v.1)),
                    None => parse_entries(s_w, count as nat) is None,
                }),
            decreases count - i,
        {
            let ghost before = entries@.map_values(|e: Erc20WhitelistEntry| e@);
            let (entry, np) = match px_entry(b, pos) {
                Some(x) => x,
                None => {
                    return None;
                },
            };
            entries.push(entry);
            proof {
                let now_views = entries@.map_values(|e: Erc20WhitelistEntry| e@);
                assert(now_views =~= before.push(entries@.last()@));
                match parse_entries(b@.skip(np as int), (count - i - 1) as nat) {
                    Some(r) => {
                        assert(before + (seq![entries@.last()@] + r.0) =~= now_views + r.0);
                    },
                    None => {},
                }
            }
            pos = np;
            i += 1;
        }
        if pos != b.len() {
            proof {
                assert(b@.skip(pos as int).len() > 0);
                assert(parse_entries(b@.skip(pos as int), 0) == Some::<(Seq<EntryV>, Seq<u8>)>((
                    Seq::empty(),
                    b@.skip(pos as int),
                )));
            }
            return None;
        }
        proof {
            assert(parse_entries(b@.skip(pos as int), 0) == Some::<(Seq<EntryV>, Seq<u8>)>((
                Seq::empty(),
                b@.skip(pos as int),
            )));
            assert(Seq::<EntryV>::empty() + entries@.map_values(|e: Erc20WhitelistEntry| e@)
                =~= entries@.map_values(|e: Erc20WhitelistEntry| e@));
            assert(entries@.map_values(|e: Erc20WhitelistEntry| e@) + Seq::<EntryV>::empty()
                =~= entries@.map_values(|e: Erc20WhitelistEntry| e@));
        }
        let result = EthereumBridgeParams {
            eth_start_height: h as u64,
            min_confirmations,
            erc20_whitelist: entries,
            contracts: Contracts {
                native_erc20: EthAddress { bytes: native_bytes },
                bridge: UpgradeableContract {
                    address: EthAddress { bytes: bridge_bytes },
                    version,
                },
            },
        };
        proof {
            assert(result@ == parse_params(b@)->Some_0);
        }
        Some(result)
    }
}

} // verus!

//! The periodic treasury disbursement pass: mint inflation into the
//! treasury, pay funding obligations oldest-first, then split steward
//! rewards.
//!
//! The whole pass is modelled by [`apply_inflation_spec`]; the executable
//! [`apply_inflation`] is proved to produce exactly that state and log.
//! Each obligation's attempt is atomic — a failure leaves the ledger
//! untouched and is recorded as a warning entry, and processing continues —
//! which is what [`lemma_funding_failure_isolated`] states.

use vstd::prelude::*;

use crate::actions::{ibc_msg, packet_event, transfer_over_ibc};
use crate::addr::Address;
use crate::dec::{Dec, SCALE};
use crate::inflation_types::{FundingV, PGFIbcTarget, PGFTarget, PgfFunding, StewardV};
use crate::kv::clone_bytes;
use crate::ledger::{minted_of, spec_credit, spec_transfer, Ledger, LedgerV};

verus! {

// ---------------------------------------------------------------------------
// Rate arithmetic
// ---------------------------------------------------------------------------
/// The raw value of an annualized rate divided down to one epoch.
pub open spec fn pd_raw(rate: Dec, epochs_per_year: u64) -> int {
    (rate.raw * SCALE) / (epochs_per_year * SCALE)
}

/// The amount minted for a pass: the total supply times the per-epoch rate,
/// truncated to a whole token amount.
pub open spec fn inflation_amount(total: u128, rate: Dec, epochs_per_year: u64) -> u128 {
    ((((total * SCALE) * pd_raw(rate, epochs_per_year)) / (SCALE as int)) / (SCALE as int)) as u128
}

/// The steward reward for one recipient: the steward pool times the
/// recipient's share, truncated; zero when the product is not
/// representable.
pub open spec fn reward_of(pool: Dec, share: Dec) -> u128 {
    if pool.raw * share.raw <= u128::MAX {
        (((pool.raw * share.raw) / (SCALE as int)) / (SCALE as int)) as u128
    } else {
        0
    }
}

/// The machine-limit bounds under which a disbursement pass is defined:
/// the fixed-point intermediates fit the backing integer and the treasury
/// mint — which must never fail — cannot overflow.
pub open spec fn disbursement_fits(v: LedgerV) -> bool {
    let total = minted_of(v, v.native_token);
    let pgf = v.pgf_params.pgf_inflation_rate;
    let stw = v.pgf_params.stewards_inflation_rate;
    &&& v.epochs_per_year >= 1
    &&& pgf.raw * SCALE <= u128::MAX
    &&& stw.raw * SCALE <= u128::MAX
    &&& total * SCALE <= u128::MAX
    &&& (total * SCALE) * pd_raw(pgf, v.epochs_per_year) <= u128::MAX
    &&& (total * SCALE) * pd_raw(stw, v.epochs_per_year) <= u128::MAX
    &&& spec_credit(
        v,
        v.native_token,
        Address::Pgf,
        inflation_amount(total, pgf, v.epochs_per_year),
    ) is Some
}

// ---------------------------------------------------------------------------
// Ordering obligations
// ---------------------------------------------------------------------------
/// Inserts an obligation into an id-ordered sequence, after any equal ids.
pub open spec fn insert_by_id(f: FundingV, s: Seq<FundingV>) -> Seq<FundingV>
    decreases s.len(),
{
    if s.len() == 0 {
        seq![f]
    } else if f.id < s[0].id {
        seq![f] + s
    } else {
        seq![s[0]] + insert_by_id(f, s.drop_first())
    }
}

/// The obligations in ascending id order: oldest funding commitment first.
pub open spec fn sort_by_id(s: Seq<FundingV>) -> Seq<FundingV>
    decreases s.len(),
{
    if s.len() == 0 {
        Seq::empty()
    } else {
        insert_by_id(s.last(), sort_by_id(s.drop_last()))
    }
}

/// Whether ids never decrease along the sequence.
pub open spec fn sorted_by_id(s: Seq<FundingV>) -> bool {
    forall|i: int, j: int| 0 <= i < j < s.len() ==> s[i].id <= s[j].id
}

/// Inserting into an id-ordered sequence at the position found by a linear
/// scan is what [`insert_by_id`] does.
proof fn lemma_insert_by_id_at(s: Seq<FundingV>, f: FundingV, j: int)
    requires
        0 <= j <= s.len(),
        forall|k: int| 0 <= k < j ==> (#[trigger] s[k]).id <= f.id,
        j < s.len() ==> s[j].id > f.id,
    ensures
        insert_by_id(f, s) == s.take(j) + seq![f] + s.skip(j),
    decreases j,
{
    if j == 0 {
        if s.len() == 0 {
            assert(insert_by_id(f, s) =~= s.take(0) + seq![f] + s.skip(0));
        } else {
            assert(f.id < s[0].id);
            assert(insert_by_id(f, s) =~= s.take(0) + seq![f] + s.skip(0));
        }
    } else {
        assert(s[0].id <= f.id);
        let d = s.drop_first();
        assert(forall|k: int| 0 <= k < j - 1 ==> (#[trigger] d[k]).id <= f.id);
        lemma_insert_by_id_at(d, f, j - 1);
        assert(insert_by_id(f, s) =~= s.take(j) + seq![f] + s.skip(j));
    }
}

/// The position a linear scan finds for inserting into an id-ordered
/// sequence: past every element of no greater id.
proof fn scan_pos(f: FundingV, s: Seq<FundingV>) -> (j: int)
    requires
        sorted_by_id(s),
    ensures
        0 <= j <= s.len(),
        forall|k: int| 0 <= k < j ==> (#[trigger] s[k]).id <= f.id,
        j < s.len() ==> s[j].id > f.id,
    decreases s.len(),
{
    if s.len() == 0 {
        0
    } else if s[0].id > f.id {
        0
    } else {
        let d = s.drop_first();
        assert(sorted_by_id(d));
        let j0 = scan_pos(f, d);
        assert forall|k: int| 0 <= k < j0 + 1 implies (#[trigger] s[k]).id <= f.id by {
            if k >= 1 {
                assert(s[k] == d[k - 1]);
                assert(d[k - 1].id <= f.id);
            }
        }
        j0 + 1
    }
}

/// Insertion keeps the order and adds exactly the one obligation.
pub proof fn lemma_insert_by_id_sorted(f: FundingV, s: Seq<FundingV>)
    requires
        sorted_by_id(s),
    ensures
        sorted_by_id(insert_by_id(f, s)),
        insert_by_id(f, s).to_multiset() == s.to_multiset().insert(f),
{
    broadcast use vstd::seq_lib::group_to_multiset_ensures;

    let j = scan_pos(f, s);
    lemma_insert_by_id_at(s, f, j);
    let r = insert_by_id(f, s);
    assert(r =~= s.insert(j, f));
    assert(r.len() == s.len() + 1);
    assert(forall|x: int| 0 <= x < j ==> r[x] == #[trigger] s[x]);
    assert(r[j] == f);
    assert(forall|x: int| j < x < r.len() ==> r[x] == #[trigger] s[x - 1]);
    assert forall|x: int, y: int| 0 <= x < y < r.len() implies r[x].id <= r[y].id by {
        if x < j && y < j {
            assert(s[x].id <= s[y].id);
        } else if x < j && y == j {
            assert(s[x].id <= f.id);
        } else if x < j && y > j {
            assert(s[x].id <= s[y - 1].id);
        } else if x == j {
            assert(s[y - 1].id >= s[j].id);
        } else {
            assert(s[x - 1].id <= s[y - 1].id);
        }
    }
}

/// Sorting yields the same obligations, in ascending id order.
pub proof fn lemma_sort_by_id_sorted(s: Seq<FundingV>)
    ensures
        sorted_by_id(sort_by_id(s)),
        sort_by_id(s).to_multiset() == s.to_multiset(),
    decreases s.len(),
{
    broadcast use vstd::seq_lib::group_to_multiset_ensures;

    if s.len() == 0 {
    } else {
        lemma_sort_by_id_sorted(s.drop_last());
        lemma_insert_by_id_sorted(s.last(), sort_by_id(s.drop_last()));
        assert(s =~= s.drop_last().push(s.last()));
        assert(s.to_multiset() == s.drop_last().to_multiset().insert(s.last()));
    }
}

// ---------------------------------------------------------------------------
// The pass, as a model
// ---------------------------------------------------------------------------
/// One entry of the pass's diagnostic log. The log is returned to the
/// caller and is not consensus state.
#[derive(Clone, Copy, PartialEq, Eq, Structural, Debug)]
pub enum LogEntry {
    /// The treasury inflation was minted.
    MintedToTreasury {
        /// The minted amount.
        amount: u128,
    },
    /// A funding obligation was paid in full.
    PaidFunding {
        /// The obligation's id.
        id: u64,
        /// The amount paid.
        amount: u128,
    },
    /// A funding obligation's transfer failed; the ledger kept its state
    /// and the pass went on. Logged at warning level.
    FundingFailed {
        /// The obligation's id.
        id: u64,
        /// The amount that could not be paid.
        amount: u128,
    },
    /// A steward reward was credited.
    PaidStewardReward {
        /// The rewarded recipient.
        recipient: Address,
        /// The credited amount.
        amount: u128,
    },
    /// A steward reward credit failed; the ledger kept its state and the
    /// pass went on. Logged at warning level.
    StewardRewardFailed {
        /// The recipient whose credit failed.
        recipient: Address,
        /// The amount that could not be credited.
        amount: u128,
    },
}

/// The amount a funding obligation owes.
pub open spec fn funding_amount(f: FundingV) -> u128 {
    match f.detail {
        crate::inflation_types::PGFTargetV::Internal(t) => t.amount,
        crate::inflation_types::PGFTargetV::Ibc(t) => t.amount,
    }
}

/// The log entry recorded for one obligation's attempt.
pub open spec fn funding_log(f: FundingV, ok: bool) -> LogEntry {
    if ok {
        LogEntry::PaidFunding { id: f.id, amount: funding_amount(f) }
    } else {
        LogEntry::FundingFailed { id: f.id, amount: funding_amount(f) }
    }
}

/// One obligation's attempt: a same-chain transfer from the treasury, or a
/// cross-chain dispatch which also buffers a send-packet event. The
/// returned flag says whether it succeeded; on failure the state is the
/// input state, untouched.
pub open spec fn attempt_funding(v: LedgerV, f: FundingV, now: u64) -> (LedgerV, bool) {
    match f.detail {
        crate::inflation_types::PGFTargetV::Internal(t) => match spec_transfer(
            v,
            v.native_token,
            Address::Pgf,
            t.target,
            t.amount,
        ) {
            Some(v2) => (v2, true),
            None => (v, false),
        },
        crate::inflation_types::PGFTargetV::Ibc(t) => match spec_transfer(
            v,
            v.native_token,
            Address::Pgf,
            Address::IbcEscrow,
            t.amount,
        ) {
            Some(v2) => (
                LedgerV {
                    events: v2.events.push(
                        packet_event(
                            ibc_msg(v.native_token, Address::Pgf, t, now, v.min_epoch_duration),
                        ),
                    ),
                    ..v2
                },
                true,
            ),
            None => (v, false),
        },
    }
}

/// Attempts a sequence of obligations in order, accumulating the log.
pub open spec fn process_fundings(v: LedgerV, fs: Seq<FundingV>, now: u64) -> (LedgerV, Seq<
    LogEntry,
>)
    decreases fs.len(),
{
    if fs.len() == 0 {
        (v, Seq::empty())
    } else {
        let prev = process_fundings(v, fs.drop_last(), now);
        let step = attempt_funding(prev.0, fs.last(), now);
        (step.0, prev.1.push(funding_log(fs.last(), step.1)))
    }
}

/// Credits one steward's distribution, one recipient at a time; each credit
/// is independent and a failure is only logged.
pub open spec fn process_dist(v: LedgerV, dist: Seq<(Address, Dec)>, pool: Dec) -> (LedgerV, Seq<
    LogEntry,
>)
    decreases dist.len(),
{
    if dist.len() == 0 {
        (v, Seq::empty())
    } else {
        let prev = process_dist(v, dist.drop_last(), pool);
        let recipient = dist.last().0;
        let reward = reward_of(pool, dist.last().1);
        match spec_credit(prev.0, prev.0.native_token, recipient, reward) {
            Some(v2) => (v2, prev.1.push(LogEntry::PaidStewardReward { recipient, amount: reward })),
            None => (
                prev.0,
                prev.1.push(LogEntry::StewardRewardFailed { recipient, amount: reward }),
            ),
        }
    }
}

/// Credits every steward's distribution, visiting each steward once.
pub open spec fn process_stewards(v: LedgerV, stewards: Seq<StewardV>, pool: Dec) -> (LedgerV, Seq<
    LogEntry,
>)
    decreases stewards.len(),
{
    if stewards.len() == 0 {
        (v, Seq::empty())
    } else {
        let prev = process_stewards(v, stewards.drop_last(), pool);
        let step = process_dist(prev.0, stewards.last().reward_distribution, pool);
        (step.0, prev.1 + step.1)
    }
}

/// The steward pool for a pass: the total supply times the per-epoch
/// steward rate, kept in fixed point.
pub open spec fn steward_pool(v: LedgerV) -> Dec {
    Dec {
        raw: (((minted_of(v, v.native_token) * SCALE) * pd_raw(
            v.pgf_params.stewards_inflation_rate,
            v.epochs_per_year,
        )) / (SCALE as int)) as u128,
    }
}

/// The whole disbursement pass over a ledger: mint the treasury inflation,
/// pay the obligations in ascending id order, then credit steward rewards.
/// Obligation payout strictly precedes steward payout.
pub open spec fn apply_inflation_spec(v: LedgerV, now: u64) -> (LedgerV, Seq<LogEntry>) {
    let total = minted_of(v, v.native_token);
    let mint_amount = inflation_amount(total, v.pgf_params.pgf_inflation_rate, v.epochs_per_year);
    let v1 = spec_credit(v, v.native_token, Address::Pgf, mint_amount)->Some_0;
    let fstep = process_fundings(v1, sort_by_id(v.payments), now);
    let sstep = process_stewards(fstep.0, v.stewards, steward_pool(v));
    (sstep.0, seq![LogEntry::MintedToTreasury { amount: mint_amount }] + fstep.1 + sstep.1)
}

// ---------------------------------------------------------------------------
// Laws of the pass
// ---------------------------------------------------------------------------
/// Splitting a run of obligations: processing a concatenation is processing
/// the first part, then the second from the state the first left behind.
pub proof fn lemma_process_fundings_concat(v: LedgerV, a: Seq<FundingV>, b: Seq<FundingV>, now: u64)
    ensures
        process_fundings(v, a + b, now).0 == process_fundings(
            process_fundings(v, a, now).0,
            b,
            now,
        ).0,
        process_fundings(v, a + b, now).1 == process_fundings(v, a, now).1 + process_fundings(
            process_fundings(v, a, now).0,
            b,
            now,
        ).1,
    decreases b.len(),
{
    if b.len() == 0 {
        assert(a + b =~= a);
        assert(process_fundings(v, a, now).1 + Seq::<LogEntry>::empty() =~= process_fundings(
            v,
            a,
            now,
        ).1);
    } else {
        lemma_process_fundings_concat(v, a, b.drop_last(), now);
        assert((a + b).drop_last() =~= a + b.drop_last());
        assert((a + b).last() == b.last());
    }
}

/// Partial-failure isolation: an obligation whose attempt fails at its
/// place in the order leaves the ledger exactly as if it had not been in
/// the run at all — the obligations before and after it succeed or fail
/// exactly as they would without it, and only a warning entry marks it.
pub proof fn lemma_funding_failure_isolated(
    v: LedgerV,
    before: Seq<FundingV>,
    f: FundingV,
    after: Seq<FundingV>,
    now: u64,
)
    requires
        !attempt_funding(process_fundings(v, before, now).0, f, now).1,
    ensures
        process_fundings(v, before + seq![f] + after, now).0 == process_fundings(
            v,
            before + after,
            now,
        ).0,
        process_fundings(v, before + seq![f] + after, now).1 == process_fundings(v, before, now).1
            + seq![funding_log(f, false)] + process_fundings(
            process_fundings(v, before, now).0,
            after,
            now,
        ).1,
{
    let mid = process_fundings(v, before, now).0;
    assert((before + seq![f]).drop_last() =~= before);
    assert((before + seq![f]).last() == f);
    assert(process_fundings(v, before + seq![f], now).0 == mid);
    assert(process_fundings(v, before + seq![f], now).1 =~= process_fundings(v, before, now).1
        + seq![funding_log(f, false)]);
    lemma_process_fundings_concat(v, before + seq![f], after, now);
    assert(before + seq![f] + after =~= (before + seq![f]) + after);
    lemma_process_fundings_concat(v, before, after, now);
}

/// The obligation id a funding log entry speaks of.
pub open spec fn entry_id(e: LogEntry) -> u64 {
    match e {
        LogEntry::PaidFunding { id, .. } => id,
        LogEntry::FundingFailed { id, .. } => id,
        _ => 0,
    }
}

/// A funding run logs one entry per obligation, carrying that obligation's
/// id, in the order the obligations were given.
pub proof fn lemma_funding_log_ids(v: LedgerV, fs: Seq<FundingV>, now: u64)
    ensures
        process_fundings(v, fs, now).1.len() == fs.len(),
        forall|i: int|
            0 <= i < fs.len() ==> entry_id(#[trigger] process_fundings(v, fs, now).1[i])
                == fs[i].id,
    decreases fs.len(),
{
    if fs.len() > 0 {
        lemma_funding_log_ids(v, fs.drop_last(), now);
        let log = process_fundings(v, fs, now).1;
        let prev = process_fundings(v, fs.drop_last(), now).1;
        assert forall|i: int| 0 <= i < fs.len() implies entry_id(#[trigger] log[i]) == fs[i].id by {
            if i < fs.len() - 1 {
                assert(log[i] == prev[i]);
                assert(fs.drop_last()[i] == fs[i]);
            } else {
                assert(log[i] == funding_log(fs.last(), attempt_funding(
                    process_fundings(v, fs.drop_last(), now).0,
                    fs.last(),
                    now,
                ).1));
            }
        }
    }
}

/// Disbursement ordering: a pass attempts every persisted obligation
/// exactly once, and walks their ids in ascending order — the oldest
/// funding commitment is paid first.
pub proof fn lemma_payouts_in_id_order(v: LedgerV, fs: Seq<FundingV>, now: u64)
    ensures
        process_fundings(v, sort_by_id(fs), now).1.len() == fs.len(),
        forall|i: int, j: int|
            0 <= i < j < fs.len() ==> entry_id(
                #[trigger] process_fundings(v, sort_by_id(fs), now).1[i],
            ) <= entry_id(#[trigger] process_fundings(v, sort_by_id(fs), now).1[j]),
{
    broadcast use vstd::seq_lib::group_to_multiset_ensures;

    lemma_sort_by_id_sorted(fs);
    assert(sort_by_id(fs).to_multiset().len() == fs.to_multiset().len());
    assert(sort_by_id(fs).len() == fs.len());
    lemma_funding_log_ids(v, sort_by_id(fs), now);
}

/// The recipient a steward log entry speaks of.
pub open spec fn entry_recipient(e: LogEntry) -> Address {
    match e {
        LogEntry::PaidStewardReward { recipient, .. } => recipient,
        LogEntry::StewardRewardFailed { recipient, .. } => recipient,
        _ => Address::Pgf,
    }
}

/// The amount a log entry speaks of.
pub open spec fn entry_amount(e: LogEntry) -> u128 {
    match e {
        LogEntry::MintedToTreasury { amount } => amount,
        LogEntry::PaidFunding { amount, .. } => amount,
        LogEntry::FundingFailed { amount, .. } => amount,
        LogEntry::PaidStewardReward { amount, .. } => amount,
        LogEntry::StewardRewardFailed { amount, .. } => amount,
    }
}

/// Steward rewards are exact: crediting a distribution attempts, for every
/// recipient in order, exactly the pool times that recipient's share —
/// truncated, and zero where the product is not representable.
pub proof fn lemma_steward_rewards_exact(v: LedgerV, dist: Seq<(Address, Dec)>, pool: Dec)
    ensures
        process_dist(v, dist, pool).1.len() == dist.len(),
        forall|i: int|
            0 <= i < dist.len() ==> {
                let e = #[trigger] process_dist(v, dist, pool).1[i];
                entry_recipient(e) == dist[i].0 && entry_amount(e) == reward_of(pool, dist[i].1)
            },
    decreases dist.len(),
{
    if dist.len() > 0 {
        lemma_steward_rewards_exact(v, dist.drop_last(), pool);
        let log = process_dist(v, dist, pool).1;
        let prev = process_dist(v, dist.drop_last(), pool).1;
        assert forall|i: int| 0 <= i < dist.len() implies {
            let e = #[trigger] log[i];
            entry_recipient(e) == dist[i].0 && entry_amount(e) == reward_of(pool, dist[i].1)
        } by {
            if i < dist.len() - 1 {
                assert(log[i] == prev[i]);
                assert(dist.drop_last()[i] == dist[i]);
            }
        }
    }
}

// ---------------------------------------------------------------------------
// The pass, executed
// ---------------------------------------------------------------------------
impl Clone for PGFIbcTarget {
    /// Field-wise copy.
    fn clone(&self) -> (r: Self)
        ensures
            r@ == self@,
    {
        PGFIbcTarget {
            target: clone_bytes(&self.target),
            amount: self.amount,
            port_id: clone_bytes(&self.port_id),
            channel_id: clone_bytes(&self.channel_id),
        }
    }
}

impl Clone for PGFTarget {
    /// Field-wise copy.
    fn clone(&self) -> (r: Self)
        ensures
            r@ == self@,
    {
        match self {
            PGFTarget::Internal(t) => PGFTarget::Internal(*t),
            PGFTarget::Ibc(t) => PGFTarget::Ibc(t.clone()),
        }
    }
}

impl Clone for PgfFunding {
    /// Field-wise copy.
    fn clone(&self) -> (r: Self)
        ensures
            r@ == self@,
    {
        PgfFunding { id: self.id, detail: self.detail.clone() }
    }
}

/// Inserts an obligation into an id-sorted vector, scanning for its place.
#[verifier::loop_isolation(false)]
fn insert_funding(out: &mut Vec<PgfFunding>, f: PgfFunding)
    ensures
        final(out)@.map_values(|x: PgfFunding| x@) == insert_by_id(
            f@,
            old(out)@.map_values(|x: PgfFunding| x@),
        ),
{
    let ghost fv = f@;
    let ghost sv = out@.map_values(|x: PgfFunding| x@);
    let mut j: usize = 0;
    while j < out.len() && out[j].id <= f.id
        invariant
            0 <= j <= out@.len(),
            out@ == old(out)@,
            forall|k: int| 0 <= k < j ==> (#[trigger] sv[k]).id <= fv.id,
        decreases out@.len() - j,
    {
        proof {
            assert(sv[j as int].id == out@[j as int].id);
        }
        j += 1;
    }
    proof {
        assert(j < out@.len() ==> sv[j as int].id > fv.id);
        lemma_insert_by_id_at(sv, fv, j as int);
    }
    out.insert(j, f);
    proof {
        assert(out@.map_values(|x: PgfFunding| x@) =~= sv.take(j as int) + seq![fv] + sv.skip(
            j as int,
        ));
    }
}

/// The funding obligations, copied and sorted into ascending id order.
#[verifier::loop_isolation(false)]
fn sorted_payments(payments: &Vec<PgfFunding>) -> (r: Vec<PgfFunding>)
    ensures
        r@.map_values(|x: PgfFunding| x@) == sort_by_id(
            payments@.map_values(|x: PgfFunding| x@),
        ),
{
    let ghost pv = payments@.map_values(|x: PgfFunding| x@);
    let mut out: Vec<PgfFunding> = Vec::new();
    let mut i: usize = 0;
    proof {
        assert(out@.map_values(|x: PgfFunding| x@) =~= sort_by_id(pv.take(0)));
    }
    while i < payments.len()
        invariant
            0 <= i <= payments@.len(),
            out@.map_values(|x: PgfFunding| x@) == sort_by_id(pv.take(i as int)),
        decreases payments@.len() - i,
    {
        insert_funding(&mut out, payments[i].clone());
        proof {
            assert(pv.take(i + 1).drop_last() =~= pv.take(i as int));
            assert(pv.take(i + 1).last() == pv[i as int]);
            assert(pv[i as int] == payments@[i as int]@);
        }
        i += 1;
    }
    proof {
        assert(pv.take(payments@.len() as int) =~= pv);
    }
    out
}

/// Runs one disbursement pass: reads the rates, the conversion factor and
/// the total minted supply; mints the treasury inflation — which must
/// succeed, so its preconditions are demanded up front; pays every funding
/// obligation in ascending id order, each attempt atomic and its failure
/// only logged; then credits every steward's reward distribution, each
/// credit equally independent. Returns the pass's diagnostic log.
///
/// `now` is the wall-clock time of the pass, sampled once by the caller
/// and reused for every cross-chain dispatch, keeping timeout computation
/// deterministic.
#[verifier::loop_isolation(false)]
pub fn apply_inflation(l: &mut Ledger, now: u64) -> (log: Vec<LogEntry>)
    requires
        disbursement_fits(old(l)@),
        now + old(l)@.min_epoch_duration <= u64::MAX,
    ensures
        final(l)@ == apply_inflation_spec(old(l)@, now).0,
        log@ == apply_inflation_spec(old(l)@, now).1,
{
    let native = l.native_token;
    let epochs = l.epochs_per_year;
    let params = l.pgf_params;
    let ghost md = old(l)@.min_epoch_duration;
    let total = l.get_minted(native);
    let epochs_dec = match Dec::checked_from_u128(epochs as u128) {
        Some(d) => d,
        None => {
            proof {
                assert(false);
            }
            Dec::zero()
        },
    };
    let pd_pgf = match params.pgf_inflation_rate.checked_div(&epochs_dec) {
        Some(d) => d,
        None => {
            proof {
                assert(false);
            }
            Dec::zero()
        },
    };
    let total_dec = match Dec::checked_from_u128(total) {
        Some(d) => d,
        None => {
            proof {
                assert(false);
            }
            Dec::zero()
        },
    };
    let inflation_dec = match total_dec.checked_mul(&pd_pgf) {
        Some(d) => d,
        None => {
            proof {
                assert(false);
            }
            Dec::zero()
        },
    };
    let mint_amount = inflation_dec.to_amount_floor();
    proof {
        assert(mint_amount == inflation_amount(total, params.pgf_inflation_rate, epochs));
    }
    match l.credit_tokens(native, Address::Pgf, mint_amount) {
        Ok(()) => {},
        Err(_) => {
            proof {
                assert(false);
            }
        },
    }
    let ghost v1 = l@;
    let mut log: Vec<LogEntry> = Vec::new();
    log.push(LogEntry::MintedToTreasury { amount: mint_amount });
    let ghost mint_log = seq![LogEntry::MintedToTreasury { amount: mint_amount }];
    proof {
        assert(log@ =~= mint_log);
    }
    let sorted = sorted_payments(&l.payments);
    let ghost sv = sorted@.map_values(|x: PgfFunding| x@);
    proof {
        assert(sv == sort_by_id(old(l)@.payments));
    }
    let mut i: usize = 0;
    proof {
        assert(sv.take(0) =~= Seq::<FundingV>::empty());
        assert(log@ =~= mint_log + process_fundings(v1, sv.take(0), now).1);
    }
    while i < sorted.len()
        invariant
            0 <= i <= sorted@.len(),
            sv == sorted@.map_values(|x: PgfFunding| x@),
            l@ == process_fundings(v1, sv.take(i as int), now).0,
            log@ == mint_log + process_fundings(v1, sv.take(i as int), now).1,
            l@.native_token == native,
            l@.min_epoch_duration == md,
            l@.stewards == old(l)@.stewards,
            now + md <= u64::MAX,
        decreases sorted@.len() - i,
    {
        let ghost prev = l@;
        let f = &sorted[i];
        proof {
            assert(sv[i as int] == sorted@[i as int]@);
        }
        let ok: bool;
        let amount: u128;
        let id = f.id;
        match &f.detail {
            PGFTarget::Internal(t) => {
                amount = t.amount;
                let r = l.transfer(native, Address::Pgf, t.target, t.amount);
                ok = r.is_ok();
            },
            PGFTarget::Ibc(t) => {
                amount = t.amount;
                let r = transfer_over_ibc(l, native, Address::Pgf, t, now);
                ok = r.is_ok();
            },
        }
        proof {
            assert(l@ == attempt_funding(prev, sv[i as int], now).0);
            assert(ok == attempt_funding(prev, sv[i as int], now).1);
        }
        if ok {
            log.push(LogEntry::PaidFunding { id, amount });
        } else {
            log.push(LogEntry::FundingFailed { id, amount });
        }
        proof {
            assert(sv.take(i + 1).drop_last() =~= sv.take(i as int));
            assert(sv.take(i + 1).last() == sv[i as int]);
            assert(funding_log(sv[i as int], ok) == (if ok {
                LogEntry::PaidFunding { id, amount }
            } else {
                LogEntry::FundingFailed { id, amount }
            }));
            assert(log@ =~= mint_log + process_fundings(v1, sv.take(i + 1), now).1);
        }
        i += 1;
    }
    proof {
        assert(sv.take(sorted@.len() as int) =~= sv);
    }
    let ghost v2 = l@;
    let ghost flog = process_fundings(v1, sv, now).1;
    let pd_stw = match params.stewards_inflation_rate.checked_div(&epochs_dec) {
        Some(d) => d,
        None => {
            proof {
                assert(false);
            }
            Dec::zero()
        },
    };
    let pool = match total_dec.checked_mul(&pd_stw) {
        Some(d) => d,
        None => {
            proof {
                assert(false);
            }
            Dec::zero()
        },
    };
    proof {
        assert(pool == steward_pool(old(l)@));
    }
    let ghost sw = old(l)@.stewards;
    let ghost base2 = log@;
    let mut j: usize = 0;
    proof {
        assert(sw.take(0) =~= Seq::<StewardV>::empty());
        assert(log@ =~= base2 + process_stewards(v2, sw.take(0), pool).1);
    }
    while j < l.stewards.len()
        invariant
            0 <= j <= sw.len(),
            l@.stewards == sw,
            l@ == process_stewards(v2, sw.take(j as int), pool).0,
            log@ == base2 + process_stewards(v2, sw.take(j as int), pool).1,
            l@.native_token == native,
        decreases sw.len() - j,
    {
        let ghost vj = l@;
        let ghost dist = sw[j as int].reward_distribution;
        let ghost basej = log@;
        let mut k: usize = 0;
        proof {
            assert(l.stewards@[j as int]@ == sw[j as int]);
            assert(dist.take(0) =~= Seq::<(Address, Dec)>::empty());
        }
        while k < l.stewards[j].reward_distribution.len()
            invariant
                0 <= j < sw.len(),
                0 <= k <= dist.len(),
                l@.stewards == sw,
                dist == sw[j as int].reward_distribution,
                l@ == process_dist(vj, dist.take(k as int), pool).0,
                log@ == basej + process_dist(vj, dist.take(k as int), pool).1,
                l@.native_token == native,
            decreases dist.len() - k,
        {
            proof {
                assert(l.stewards@[j as int]@ == sw[j as int]);
            }
            let pair = l.stewards[j].reward_distribution[k];
            let recipient = pair.0;
            let share = pair.1;
            proof {
                assert(l.stewards@[j as int]@.reward_distribution[k as int] == dist[k as int]);
            }
            let ghost prev = l@;
            let reward_dec = match pool.checked_mul(&share) {
                Some(d) => d,
                None => Dec::zero(),
            };
            let reward = reward_dec.to_amount_floor();
            proof {
                assert(reward == reward_of(pool, share));
            }
            match l.credit_tokens(native, recipient, reward) {
                Ok(()) => {
                    log.push(LogEntry::PaidStewardReward { recipient, amount: reward });
                },
                Err(_) => {
                    log.push(LogEntry::StewardRewardFailed { recipient, amount: reward });
                },
            }
            proof {
                assert(dist.take(k + 1).drop_last() =~= dist.take(k as int));
                assert(dist.take(k + 1).last() == dist[k as int]);
                assert(log@ =~= basej + process_dist(vj, dist.take(k + 1), pool).1);
            }
            k += 1;
        }
        proof {
            assert(dist.take(dist.len() as int) =~= dist);
            assert(sw.take(j + 1).drop_last() =~= sw.take(j as int));
            assert(sw.take(j + 1).last() == sw[j as int]);
            assert(log@ =~= base2 + process_stewards(v2, sw.take(j + 1), pool).1);
        }
        j += 1;
    }
    proof {
        assert(sw.take(sw.len() as int) =~= sw);
        assert(log@ =~= mint_log + flog + process_stewards(v2, sw, pool).1);
    }
    log
}

} // verus!

//! The knock tracker and its sequence policy.
//!
//! Every source address has at most one record: the most recent ports it
//! knocked, oldest first, never more entries than the policy has ports.
//! An address is authorized exactly when its record equals the policy,
//! position by position.

use std::collections::HashMap;
use vstd::prelude::*;

verus! {

broadcast use vstd::std_specs::hash::group_hash_axioms;

/// Outcome of evaluating an address's knock history against the policy.
#[derive(Debug, PartialEq, Eq, Structural)]
pub enum KnockResult {
    /// The recorded knocks match the policy exactly.
    Success,
    /// The address has no recorded knocks at all.
    Unknown,
    /// The address has knocked, but its recent knocks are not the policy.
    Fail,
}

/// The history recorded for `addr`, or the empty sequence when none exists.
pub open spec fn record_of(records: Map<u128, Seq<u16>>, addr: u128) -> Seq<u16> {
    if records.contains_key(addr) {
        records[addr]
    } else {
        Seq::empty()
    }
}

/// One knock appended to a history bounded by `bound`: once the record would
/// grow past `bound` entries, the oldest entry is evicted.
pub open spec fn record_after_knock(rec: Seq<u16>, bound: nat, port: u16) -> Seq<u16> {
    let grown = rec.push(port);
    if grown.len() <= bound {
        grown
    } else {
        grown.drop_first()
    }
}

/// All histories after one knock from `addr` on `port`; other addresses keep
/// their records untouched.
pub open spec fn records_after_knock(
    records: Map<u128, Seq<u16>>,
    bound: nat,
    addr: u128,
    port: u16,
) -> Map<u128, Seq<u16>> {
    records.insert(addr, record_after_knock(record_of(records, addr), bound, port))
}

/// Position-by-position match of a history against the policy.
pub open spec fn matches_policy(rec: Seq<u16>, policy: Seq<u16>) -> bool {
    &&& rec.len() == policy.len()
    &&& forall|i: int| 0 <= i < policy.len() ==> rec[i] == policy[i]
}

/// The decision for `addr` under `policy`, given the recorded histories.
pub open spec fn evaluation(
    records: Map<u128, Seq<u16>>,
    policy: Seq<u16>,
    addr: u128,
) -> KnockResult {
    if !records.contains_key(addr) {
        KnockResult::Unknown
    } else if matches_policy(records[addr], policy) {
        KnockResult::Success
    } else {
        KnockResult::Fail
    }
}

/// Per-address bounded knock histories, evaluated against a fixed ordered
/// list of ports. Addresses are identified by a caller-chosen 128-bit key.
pub struct PortKnockingState {
    sequence: Vec<u16>,
    knocks: HashMap<u128, Vec<u16>>,
}

impl PortKnockingState {
    /// The ordered list of ports a client must knock, most recent last.
    pub closed spec fn policy(&self) -> Seq<u16> {
        self.sequence@
    }

    /// Mathematical view of the per-address knock histories.
    pub closed spec fn records(&self) -> Map<u128, Seq<u16>> {
        self.knocks@.map_values(|v: Vec<u16>| v@)
    }

    /// The tracker's invariant: the policy is non-empty and every record
    /// holds between one entry and one per policy port.
    pub open spec fn wf(&self) -> bool {
        &&& self.policy().len() >= 1
        &&& forall|a: u128|
            #[trigger] self.records().contains_key(a) ==> 1 <= self.records()[a].len()
                <= self.policy().len()
    }

    /// A fresh tracker for the given policy: no address has any record.
    pub fn new(sequence: Vec<u16>) -> (state: Self)
        requires
            sequence@.len() >= 1,
        ensures
            state.wf(),
            state.policy() == sequence@,
            state.records() == Map::<u128, Seq<u16>>::empty(),
    {
        let state = PortKnockingState { sequence, knocks: HashMap::new() };
        proof {
            assert(state.records() =~= Map::<u128, Seq<u16>>::empty());
        }
        state
    }

    /// Record one knock from `srcaddr` on `port`, evicting that address's
    /// oldest knock once the record exceeds the policy length.
    pub fn knock(&mut self, srcaddr: u128, port: u16)
        requires
            old(self).wf(),
        ensures
            final(self).wf(),
            final(self).policy() == old(self).policy(),
            final(self).records() == records_after_knock(
                old(self).records(),
                old(self).policy().len(),
                srcaddr,
                port,
            ),
    {
        let mut rec: Vec<u16> = match self.knocks.remove(&srcaddr) {
            Some(existing) => existing,
            None => Vec::new(),
        };
        rec.push(port);
        if rec.len() > self.sequence.len() {
            rec.remove(0);
            proof {
                assert(rec@ =~= old(self).records()[srcaddr].push(port).drop_first());
            }
        }
        self.knocks.insert(srcaddr, rec);
        proof {
            let target = records_after_knock(
                old(self).records(),
                old(self).policy().len(),
                srcaddr,
                port,
            );
            assert(self.records() =~= target);
        }
    }

    /// Evaluate `addr`'s record against the policy: `Unknown` without a
    /// record, `Success` on an exact match, `Fail` otherwise.
    #[verifier::loop_isolation(false)]
    pub fn check(&self, addr: u128) -> (result: KnockResult)
        ensures
            result == evaluation(self.records(), self.policy(), addr),
    {
        match self.knocks.get(&addr) {
            Some(port_list) => {
                if port_list.len() != self.sequence.len() {
                    return KnockResult::Fail;
                }
                let mut i: usize = 0;
                while i < self.sequence.len()
                    invariant
                        i <= self.sequence@.len(),
                        forall|j: int| 0 <= j < i ==> port_list@[j] == self.sequence@[j],
                    decreases self.sequence@.len() - i,
                {
                    if port_list[i] != self.sequence[i] {
                        return KnockResult::Fail;
                    }
                    i = i + 1;
                }
                KnockResult::Success
            },
            None => KnockResult::Unknown,
        }
    }

    /// Forget everything recorded for `addr`, so that its next evaluation is
    /// `Unknown` again.
    pub fn reset(&mut self, addr: u128)
        requires
            old(self).wf(),
        ensures
            final(self).wf(),
            final(self).policy() == old(self).policy(),
            final(self).records() == old(self).records().remove(addr),
    {
        self.knocks.remove(&addr);
        proof {
            assert(self.records() =~= old(self).records().remove(addr));
        }
    }
}

/// The history left by a whole run of knocks on one address, oldest first.
pub open spec fn record_after_run(rec: Seq<u16>, bound: nat, ports: Seq<u16>) -> Seq<u16>
    decreases ports.len(),
{
    if ports.len() == 0 {
        rec
    } else {
        record_after_run(record_after_knock(rec, bound, ports[0]), bound, ports.drop_first())
    }
}

/// All histories after a run of knocks from `addr`, one per entry of `ports`.
pub open spec fn records_after_run(
    records: Map<u128, Seq<u16>>,
    bound: nat,
    addr: u128,
    ports: Seq<u16>,
) -> Map<u128, Seq<u16>>
    decreases ports.len(),
{
    if ports.len() == 0 {
        records
    } else {
        records_after_run(
            records_after_knock(records, bound, addr, ports[0]),
            bound,
            addr,
            ports.drop_first(),
        )
    }
}

/// The `bound` most recent entries of `s` (all of `s` when it is shorter).
pub open spec fn recent(s: Seq<u16>, bound: nat) -> Seq<u16> {
    if s.len() <= bound {
        s
    } else {
        s.subrange(s.len() - bound, s.len() as int)
    }
}

/// Law: a bounded record is a sliding window. After any run of knocks, the
/// record holds exactly the `bound` most recent ports of the whole history,
/// whatever preceded them.
pub proof fn lemma_record_after_run_is_recent(rec: Seq<u16>, bound: nat, ports: Seq<u16>)
    requires
        rec.len() <= bound,
        bound >= 1,
    ensures
        record_after_run(rec, bound, ports) == recent(rec + ports, bound),
    decreases ports.len(),
{
    if ports.len() == 0 {
        assert(rec + ports =~= rec);
    } else {
        let port = ports[0];
        let tail = ports.drop_first();
        let rec1 = record_after_knock(rec, bound, port);
        lemma_record_after_run_is_recent(rec1, bound, tail);
        if rec.push(port).len() <= bound {
            assert(rec1 + tail =~= rec + ports);
        } else {
            let whole = rec + ports;
            assert(rec1 + tail =~= whole.drop_first());
            assert(recent(whole.drop_first(), bound) =~= recent(whole, bound));
        }
    }
}

/// How a run of knocks acts on the full map of histories: it rewrites the
/// knocking address's record as `record_after_run` and touches nothing else.
pub proof fn lemma_records_after_run(
    records: Map<u128, Seq<u16>>,
    bound: nat,
    addr: u128,
    ports: Seq<u16>,
)
    ensures
        record_of(records_after_run(records, bound, addr, ports), addr) == record_after_run(
            record_of(records, addr),
            bound,
            ports,
        ),
        records_after_run(records, bound, addr, ports).contains_key(addr) == (
        records.contains_key(addr) || ports.len() >= 1),
        forall|b: u128|
            b != addr ==> #[trigger] records_after_run(
                records,
                bound,
                addr,
                ports,
            ).contains_key(b) == records.contains_key(b),
        forall|b: u128|
            b != addr && records.contains_key(b) ==> #[trigger] records_after_run(
                records,
                bound,
                addr,
                ports,
            )[b] == records[b],
    decreases ports.len(),
{
    if ports.len() > 0 {
        let records1 = records_after_knock(records, bound, addr, ports[0]);
        lemma_records_after_run(records1, bound, addr, ports.drop_first());
    }
}

/// Law: an address with no recorded knocks always evaluates to `Unknown`.
pub proof fn lemma_no_record_unknown(records: Map<u128, Seq<u16>>, policy: Seq<u16>, addr: u128)
    requires
        !records.contains_key(addr),
    ensures
        evaluation(records, policy, addr) == KnockResult::Unknown,
{
}

/// Law: once an address has knocked at all, its evaluation is never `Unknown`
/// again until a reset — a record exists, even one too short to match.
pub proof fn lemma_knocked_never_unknown(
    records: Map<u128, Seq<u16>>,
    bound: nat,
    policy: Seq<u16>,
    addr: u128,
    port: u16,
)
    ensures
        evaluation(records_after_knock(records, bound, addr, port), policy, addr)
            != KnockResult::Unknown,
{
}

/// Law: one knock on a port other than the policy's first leaves the address
/// failing evaluation — it never reads as `Unknown` again.
pub proof fn lemma_wrong_first_knock_fails(
    records: Map<u128, Seq<u16>>,
    policy: Seq<u16>,
    addr: u128,
    port: u16,
)
    requires
        !records.contains_key(addr),
        policy.len() >= 1,
        port != policy[0],
    ensures
        evaluation(
            records_after_knock(records, policy.len(), addr, port),
            policy,
            addr,
        ) == KnockResult::Fail,
{
    let rec1 = record_after_knock(record_of(records, addr), policy.len(), port);
    assert(rec1 =~= seq![port]);
    if matches_policy(rec1, policy) {
        assert(rec1[0] == policy[0]);
        assert(false);
    }
}

/// Law: recording exactly the policy ports, in order, from no record at all
/// yields `Success`.
pub proof fn lemma_exact_sequence_success(
    records: Map<u128, Seq<u16>>,
    policy: Seq<u16>,
    addr: u128,
)
    requires
        !records.contains_key(addr),
        policy.len() >= 1,
    ensures
        evaluation(
            records_after_run(records, policy.len(), addr, policy),
            policy,
            addr,
        ) == KnockResult::Success,
{
    assert(record_of(records, addr) + policy =~= policy);
    assert(recent(policy, policy.len()) == policy);
    lemma_rollover_success(records, policy, addr, policy);
}

/// Law (rollover): a run whose most recent knocks equal the policy ends in
/// `Success`, whatever ports came before them.
pub proof fn lemma_rollover_success(
    records: Map<u128, Seq<u16>>,
    policy: Seq<u16>,
    addr: u128,
    ports: Seq<u16>,
)
    requires
        record_of(records, addr).len() <= policy.len(),
        policy.len() >= 1,
        recent(record_of(records, addr) + ports, policy.len()) == policy,
    ensures
        evaluation(
            records_after_run(records, policy.len(), addr, ports),
            policy,
            addr,
        ) == KnockResult::Success,
{
    let outcome = records_after_run(records, policy.len(), addr, ports);
    lemma_records_after_run(records, policy.len(), addr, ports);
    lemma_record_after_run_is_recent(record_of(records, addr), policy.len(), ports);
    if ports.len() == 0 && !records.contains_key(addr) {
        assert(record_of(records, addr) + ports =~= Seq::<u16>::empty());
        assert(false);
    }
    assert(outcome.contains_key(addr));
    assert(outcome[addr] == policy);
}

/// Law (interleaving): a run whose most recent knocks are not the policy ends
/// in `Fail` — never `Success`, and never `Unknown` once anything is recorded.
pub proof fn lemma_stale_run_fails(
    records: Map<u128, Seq<u16>>,
    policy: Seq<u16>,
    addr: u128,
    ports: Seq<u16>,
)
    requires
        record_of(records, addr).len() <= policy.len(),
        policy.len() >= 1,
        records.contains_key(addr) || ports.len() >= 1,
        recent(record_of(records, addr) + ports, policy.len()) != policy,
    ensures
        evaluation(
            records_after_run(records, policy.len(), addr, ports),
            policy,
            addr,
        ) == KnockResult::Fail,
{
    let outcome = records_after_run(records, policy.len(), addr, ports);
    lemma_records_after_run(records, policy.len(), addr, ports);
    lemma_record_after_run_is_recent(record_of(records, addr), policy.len(), ports);
    assert(outcome.contains_key(addr));
    if matches_policy(outcome[addr], policy) {
        assert(outcome[addr] =~= policy);
        assert(false);
    }
}

/// Law: after a reset the address evaluates to `Unknown` again.
pub proof fn lemma_reset_unknown(records: Map<u128, Seq<u16>>, policy: Seq<u16>, addr: u128)
    ensures
        evaluation(records.remove(addr), policy, addr) == KnockResult::Unknown,
{
}

/// Law: distinct addresses keep independent records. A knock from one address
/// leaves every other address's evaluation unchanged.
pub proof fn lemma_address_independence(
    records: Map<u128, Seq<u16>>,
    bound: nat,
    policy: Seq<u16>,
    addr_a: u128,
    addr_b: u128,
    port: u16,
)
    requires
        addr_a != addr_b,
    ensures
        evaluation(
            records_after_knock(records, bound, addr_a, port),
            policy,
            addr_b,
        ) == evaluation(records, policy, addr_b),
{
}

} // verus!

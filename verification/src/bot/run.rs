//! `renew_domains` as a state machine: the renewals are sent in batches of
//! at most 75, the nonce advances with each sent transaction, receipts are
//! folded in, and the run stops once the last three settled transactions
//! all reverted.

use vstd::prelude::*;
use crate::felt::{Felt, felt_add, felt_prime};
use crate::bot::models::{AggregateResults, TxResult};
use crate::text::contains_text;

verus! {

/// Renewals per transaction, to stay below the step limit.
pub const RENEWALS_PER_TX: usize = 75;

/// The state of one run over the renewals of an auto-renewal contract.
pub struct RenewalRun {
    pub remaining: AggregateResults,
    pub nonce: Felt,
    pub tx_results: Vec<TxResult>,
}

/// What a receipt says of a transaction.
pub enum ReceiptStatus {
    Succeeded,
    Reverted { reason: Option<String> },
}

/// What to do after `send_transaction` failed.
#[derive(PartialEq, Eq, Structural, Clone, Copy, Debug)]
pub enum SendFailure {
    /// The fee could not be estimated: go on with the next batch.
    SkipBatch,
    /// Any other failure: the run ends with the error.
    Abort,
}

pub open spec fn min_batch(n: nat) -> nat {
    if n < RENEWALS_PER_TX {
        n
    } else {
        RENEWALS_PER_TX as nat
    }
}

/// The five vectors are all non-empty: another batch is due.
pub open spec fn has_batch_spec(a: AggregateResults) -> bool {
    &&& a.domains@.len() > 0
    &&& a.renewers@.len() > 0
    &&& a.domain_prices@.len() > 0
    &&& a.tax_prices@.len() > 0
    &&& a.meta_hashes@.len() > 0
}

/// Draining the batch does not run past the end of any vector.
pub open spec fn batch_fits(a: AggregateResults) -> bool {
    let n = min_batch(a.domains@.len());
    &&& a.renewers@.len() >= n
    &&& a.domain_prices@.len() >= n
    &&& a.tax_prices@.len() >= n
    &&& a.meta_hashes@.len() >= n
}

/// The outcomes of the settled transactions, in sending order.
pub open spec fn settled(txs: Seq<TxResult>) -> Seq<bool>
    decreases txs.len(),
{
    if txs.len() == 0 {
        Seq::empty()
    } else {
        let prev = settled(txs.drop_last());
        match txs.last().reverted {
            Some(b) => prev.push(b),
            None => prev,
        }
    }
}

/// The last three settled transactions all reverted.
pub open spec fn last_three_reverted(s: Seq<bool>) -> bool {
    s.len() >= 3 && s[s.len() - 1] && s[s.len() - 2] && s[s.len() - 3]
}

pub open spec fn fee_estimation_error() -> Seq<char> {
    seq!['E', 'r', 'r', 'o', 'r', ' ', 'w', 'h', 'i', 'l', 'e', ' ', 'e', 's', 't', 'i', 'm', 'a',
        't', 'i', 'n', 'g', ' ', 'f', 'e', 'e']
}

/// A transaction whose receipt settled its outcome.
pub open spec fn has_outcome() -> spec_fn(TxResult) -> bool {
    |t: TxResult| t.reverted is Some
}

/// Its outcome: whether it reverted.
pub open spec fn outcome_of() -> spec_fn(TxResult) -> bool {
    |t: TxResult| t.reverted->0
}

/// The settled outcomes are those of the transactions with a receipt, in
/// sending order; pending transactions contribute nothing.
pub proof fn lemma_settled_are_the_receipted(txs: Seq<TxResult>)
    ensures
        settled(txs) == txs.filter(has_outcome()).map_values(outcome_of()),
    decreases txs.len(),
{
    reveal(Seq::filter);
    if txs.len() > 0 {
        lemma_settled_are_the_receipted(txs.drop_last());
        let prev = txs.drop_last().filter(has_outcome());
        if txs.last().reverted is Some {
            assert(prev.push(txs.last()).map_values(outcome_of()) =~= prev.map_values(outcome_of()).push(
                txs.last().reverted->0,
            ));
        }
    }
}

/// A pending transaction changes neither the settled outcomes nor the
/// decision to stop, and a settled one adds its own outcome last.
pub proof fn lemma_pending_changes_nothing(txs: Seq<TxResult>, t: TxResult)
    ensures
        t.reverted is None ==> settled(txs.push(t)) == settled(txs),
        t.reverted is None ==> last_three_reverted(settled(txs.push(t))) == last_three_reverted(settled(txs)),
        t.reverted matches Some(b) ==> settled(txs.push(t)) == settled(txs).push(b),
{
    assert(txs.push(t).drop_last() =~= txs);
}

/// The run stops exactly when the three most recent transactions with a
/// receipt all reverted, however many pending ones lie between them.
pub proof fn lemma_stop_on_three_receipted_reverts(txs: Seq<TxResult>)
    ensures
        ({
            let s = txs.filter(has_outcome());
            last_three_reverted(settled(txs)) <==> (s.len() >= 3 && s[s.len() - 1].reverted == Some(true)
                && s[s.len() - 2].reverted == Some(true) && s[s.len() - 3].reverted == Some(true))
        }),
{
    lemma_settled_are_the_receipted(txs);
    let s = txs.filter(has_outcome());
    if s.len() >= 3 {
        txs.lemma_filter_pred(has_outcome(), s.len() - 1);
        txs.lemma_filter_pred(has_outcome(), s.len() - 2);
        txs.lemma_filter_pred(has_outcome(), s.len() - 3);
    }
}

/// A transaction after its receipt was read: a pending one is settled by
/// the receipt, a settled one stays as it is.
pub open spec fn receipt_applied(t: TxResult, status: ReceiptStatus) -> TxResult {
    if t.reverted is Some {
        t
    } else {
        match status {
            ReceiptStatus::Succeeded => TxResult {
                tx_hash: t.tx_hash,
                reverted: Some(false),
                revert_reason: t.revert_reason,
                domains_renewed: t.domains_renewed,
            },
            ReceiptStatus::Reverted { reason } => TxResult {
                tx_hash: t.tx_hash,
                reverted: Some(true),
                revert_reason: reason,
                domains_renewed: t.domains_renewed,
            },
        }
    }
}

/// The transactions after one pass of `check_pending_transactions`:
/// transaction `i` takes receipt `i` where one was read.
pub open spec fn receipts_applied(txs: Seq<TxResult>, receipts: Seq<Option<ReceiptStatus>>) -> Seq<TxResult> {
    Seq::new(
        txs.len(),
        |i: int|
            if i < receipts.len() && receipts[i] is Some {
                receipt_applied(txs[i], receipts[i]->0)
            } else {
                txs[i]
            },
    )
}

/// Once settled, a transaction keeps its outcome whatever receipt is read
/// for it later.
pub proof fn lemma_settled_stays(t: TxResult, first: ReceiptStatus, later: ReceiptStatus)
    ensures
        receipt_applied(receipt_applied(t, first), later) == receipt_applied(t, first),
{
}

/// Checking the pending transactions a second time against the same
/// receipts changes nothing.
pub proof fn lemma_receipts_idempotent(txs: Seq<TxResult>, receipts: Seq<Option<ReceiptStatus>>)
    ensures
        receipts_applied(receipts_applied(txs, receipts), receipts) == receipts_applied(txs, receipts),
{
    let once = receipts_applied(txs, receipts);
    assert forall|i: int| 0 <= i < once.len() implies #[trigger] receipts_applied(once, receipts)[i] == once[i] by {
        if i < receipts.len() && receipts[i] is Some {
            lemma_settled_stays(txs[i], receipts[i]->0, receipts[i]->0);
        }
    }
    assert(receipts_applied(once, receipts) =~= once);
}

/// The first `n` elements of `v` move to the result.
fn drain_front<T>(v: &mut Vec<T>, n: usize) -> (r: Vec<T>)
    requires
        n <= old(v)@.len(),
    ensures
        r@ == old(v)@.subrange(0, n as int),
        final(v)@ == old(v)@.subrange(n as int, old(v)@.len() as int),
{
    let mut rest = v.split_off(n);
    std::mem::swap(v, &mut rest);
    rest
}

impl RenewalRun {
    pub fn new(results: AggregateResults, nonce: Felt) -> (r: RenewalRun)
        ensures
            r.remaining == results,
            r.nonce == nonce,
            r.tx_results@.len() == 0,
    {
        RenewalRun { remaining: results, nonce, tx_results: Vec::new() }
    }

    /// The loop condition of `renew_domains`.
    pub fn has_batch(&self) -> (r: bool)
        ensures
            r == has_batch_spec(self.remaining),
    {
        self.remaining.domains.len() > 0 && self.remaining.renewers.len() > 0
            && self.remaining.domain_prices.len() > 0 && self.remaining.tax_prices.len() > 0
            && self.remaining.meta_hashes.len() > 0
    }

    /// Whether the next batch can be drained from every vector.
    pub fn batch_fits(&self) -> (r: bool)
        ensures
            r == batch_fits(self.remaining),
    {
        let n = if self.remaining.domains.len() < RENEWALS_PER_TX {
            self.remaining.domains.len()
        } else {
            RENEWALS_PER_TX
        };
        self.remaining.renewers.len() >= n && self.remaining.domain_prices.len() >= n
            && self.remaining.tax_prices.len() >= n && self.remaining.meta_hashes.len() >= n
    }

    /// Takes the next batch: the first min(75, domains) entries of each vector.
    pub fn next_batch(&mut self) -> (r: AggregateResults)
        requires
            batch_fits(old(self).remaining),
        ensures
            ({
                let n = min_batch(old(self).remaining.domains@.len()) as int;
                let o = old(self).remaining;
                let f = final(self).remaining;
                &&& r.domains@ == o.domains@.subrange(0, n)
                &&& r.renewers@ == o.renewers@.subrange(0, n)
                &&& r.domain_prices@ == o.domain_prices@.subrange(0, n)
                &&& r.tax_prices@ == o.tax_prices@.subrange(0, n)
                &&& r.meta_hashes@ == o.meta_hashes@.subrange(0, n)
                &&& r.auto_renew_contracts@.len() == 0
                &&& f.domains@ == o.domains@.subrange(n, o.domains@.len() as int)
                &&& f.renewers@ == o.renewers@.subrange(n, o.renewers@.len() as int)
                &&& f.domain_prices@ == o.domain_prices@.subrange(n, o.domain_prices@.len() as int)
                &&& f.tax_prices@ == o.tax_prices@.subrange(n, o.tax_prices@.len() as int)
                &&& f.meta_hashes@ == o.meta_hashes@.subrange(n, o.meta_hashes@.len() as int)
                &&& f.auto_renew_contracts@ == o.auto_renew_contracts@
            }),
            final(self).nonce == old(self).nonce,
            final(self).tx_results@ == old(self).tx_results@,
    {
        let n = if self.remaining.domains.len() < RENEWALS_PER_TX {
            self.remaining.domains.len()
        } else {
            RENEWALS_PER_TX
        };
        let domains = drain_front(&mut self.remaining.domains, n);
        let renewers = drain_front(&mut self.remaining.renewers, n);
        let domain_prices = drain_front(&mut self.remaining.domain_prices, n);
        let tax_prices = drain_front(&mut self.remaining.tax_prices, n);
        let meta_hashes = drain_front(&mut self.remaining.meta_hashes, n);
        AggregateResults {
            domains,
            renewers,
            domain_prices,
            tax_prices,
            meta_hashes,
            auto_renew_contracts: Vec::new(),
        }
    }

    /// A transaction was sent: it is recorded as pending and the nonce advances by one.
    pub fn record_sent(&mut self, tx_hash: Felt, domains_renewed: usize)
        requires
            old(self).nonce.wf(),
        ensures
            final(self).remaining == old(self).remaining,
            final(self).nonce.wf(),
            final(self).nonce.value() == (old(self).nonce.value() + 1) % felt_prime(),
            final(self).tx_results@.len() == old(self).tx_results@.len() + 1,
            final(self).tx_results@.subrange(0, old(self).tx_results@.len() as int) == old(self).tx_results@,
            final(self).tx_results@.last().tx_hash == tx_hash,
            final(self).tx_results@.last().reverted is None,
            final(self).tx_results@.last().revert_reason is None,
            final(self).tx_results@.last().domains_renewed == domains_renewed,
    {
        self.tx_results.push(TxResult { tx_hash, reverted: None, revert_reason: None, domains_renewed });
        let one = Felt::one();
        self.nonce = felt_add(&self.nonce, &one);
        assert(self.tx_results@.subrange(0, old(self).tx_results@.len() as int) =~= old(self).tx_results@);
    }

    /// Whether transaction `i` has no settled outcome yet.
    pub fn is_pending(&self, i: usize) -> (r: bool)
        requires
            i < self.tx_results@.len(),
        ensures
            r == (self.tx_results@[i as int].reverted is None),
    {
        self.tx_results[i].reverted.is_none()
    }

    /// `check_pending_transactions` for one pending transaction whose
    /// receipt was read: success settles it as not reverted; a revert
    /// settles it as reverted with the receipt's reason. Settled
    /// transactions stay as they are.
    pub fn apply_receipt(&mut self, i: usize, status: ReceiptStatus)
        requires
            i < old(self).tx_results@.len(),
        ensures
            final(self).remaining == old(self).remaining,
            final(self).nonce == old(self).nonce,
            final(self).tx_results@.len() == old(self).tx_results@.len(),
            forall|j: int| 0 <= j < old(self).tx_results@.len() && j != i ==> final(self).tx_results@[j]
                == old(self).tx_results@[j],
            ({
                let o = old(self).tx_results@[i as int];
                let f = final(self).tx_results@[i as int];
                &&& f.tx_hash == o.tx_hash
                &&& f.domains_renewed == o.domains_renewed
                &&& o.reverted is Some ==> f == o
                &&& o.reverted is None ==> match status {
                    ReceiptStatus::Succeeded => f.reverted == Some(false) && f.revert_reason == o.revert_reason,
                    ReceiptStatus::Reverted { reason } => f.reverted == Some(true) && f.revert_reason == reason,
                }
            }),
            final(self).tx_results@[i as int] == receipt_applied(old(self).tx_results@[i as int], status),
    {
        if self.tx_results[i].reverted.is_some() {
            return;
        }
        let mut tx = self.tx_results.remove(i);
        match status {
            ReceiptStatus::Succeeded => {
                tx.reverted = Some(false);
            },
            ReceiptStatus::Reverted { reason } => {
                tx.reverted = Some(true);
                tx.revert_reason = reason;
            },
        }
        self.tx_results.insert(i, tx);
    }

    /// `check_pending_transactions`: every transaction for which a receipt
    /// was read (`receipts[i]`) takes it; the others stay as they are.
    pub fn apply_receipts(&mut self, receipts: Vec<Option<ReceiptStatus>>)
        ensures
            final(self).remaining == old(self).remaining,
            final(self).nonce == old(self).nonce,
            final(self).tx_results@ == receipts_applied(old(self).tx_results@, receipts@),
    {
        let ghost orig = self.tx_results@;
        let ghost all = receipts@;
        let mut rest = receipts;
        while rest.len() > 0
            invariant
                rest@ == all.subrange(0, rest@.len() as int),
                rest@.len() <= all.len(),
                self.remaining == old(self).remaining,
                self.nonce == old(self).nonce,
                self.tx_results@.len() == orig.len(),
                forall|j: int| 0 <= j < orig.len() ==> #[trigger] self.tx_results@[j] == (if rest@.len() <= j < all.len()
                    && all[j] is Some {
                    receipt_applied(orig[j], all[j]->0)
                } else {
                    orig[j]
                }),
            decreases rest@.len(),
        {
            let k = rest.len() - 1;
            let r = rest.pop().unwrap();
            assert(r == all[k as int]);
            if k < self.tx_results.len() {
                if let Some(status) = r {
                    self.apply_receipt(k, status);
                }
            }
            assert(rest@ =~= all.subrange(0, rest@.len() as int));
        }
        assert(self.tx_results@ =~= receipts_applied(orig, all));
    }

    /// The outcomes of the settled transactions, in order.
    pub fn settled_outcomes(&self) -> (r: Vec<bool>)
        ensures
            r@ == settled(self.tx_results@),
    {
        let mut r: Vec<bool> = Vec::new();
        let mut i: usize = 0;
        while i < self.tx_results.len()
            invariant
                i <= self.tx_results@.len(),
                r@ == settled(self.tx_results@.subrange(0, i as int)),
            decreases self.tx_results.len() - i,
        {
            proof {
                let s = self.tx_results@.subrange(0, i + 1);
                assert(s.drop_last() =~= self.tx_results@.subrange(0, i as int));
                assert(s.last() == self.tx_results@[i as int]);
            }
            match self.tx_results[i].reverted {
                Some(b) => r.push(b),
                None => {},
            }
            i = i + 1;
        }
        assert(self.tx_results@.subrange(0, self.tx_results@.len() as int) =~= self.tx_results@);
        r
    }

    /// The run stops when the last three settled transactions all reverted.
    pub fn should_stop(&self) -> (r: bool)
        ensures
            r == last_three_reverted(settled(self.tx_results@)),
    {
        let s = self.settled_outcomes();
        let n = s.len();
        n >= 3 && s[n - 1] && s[n - 2] && s[n - 3]
    }
}

/// A batch followed by what remains is the vector before the batch was
/// taken: successive batches send the renewals in order, none skipped or
/// repeated.
pub proof fn lemma_batch_then_rest<T>(s: Seq<T>, n: int)
    requires
        0 <= n <= s.len(),
    ensures
        s.subrange(0, n) + s.subrange(n, s.len() as int) == s,
{
    assert(s.subrange(0, n) + s.subrange(n, s.len() as int) =~= s);
}

/// A batch holds at most 75 renewals, and only the last batch of a run
/// holds fewer.
pub proof fn lemma_batch_size(n: nat)
    ensures
        min_batch(n) <= RENEWALS_PER_TX,
        min_batch(n) < RENEWALS_PER_TX ==> min_batch(n) == n,
        n > 0 ==> min_batch(n) > 0,
{
}

/// A failed send is skipped when the error mentions the fee estimation,
/// and ends the run otherwise.
pub fn send_failure_action(message: &str) -> (r: SendFailure)
    ensures
        r == (if contains_text(message@, fee_estimation_error()) {
            SendFailure::SkipBatch
        } else {
            SendFailure::Abort
        }),
{
    let text = crate::text::chars_of(message);
    let pattern_str = "Error while estimating fee";
    proof {
        reveal_strlit("Error while estimating fee");
    }
    let pattern = crate::text::chars_of(pattern_str);
    assert(pattern@ =~= fee_estimation_error());
    if crate::text::contains(&text, &pattern) {
        SendFailure::SkipBatch
    } else {
        SendFailure::Abort
    }
}

} // verus!

//! `get_domains_ready_for_renewal` as a sequence of verified steps: which
//! token each renewal is paid in, the renewers' balances, the per-renewal
//! decision, and the grouping of planned renewals by auto-renewal contract.
//! The caller performs the reads (balances, quotes, metadata) between steps.

use vstd::prelude::*;
use crate::felt::{Felt, felt_hex_text, felt_eq, felt_from_hex, from_uint256, hex_felt_ok, to_hex,
    two_pow_128};
use crate::num::Int;
use crate::bot::models::{AggregateResult, AggregateResults, DomainAggregateResult, TaxPrice};
use crate::bot::eligibility::PlanError;

verus! {

/// One (outer key, inner key) -> amount entry; later entries override earlier ones.
pub struct BalanceEntry {
    pub outer: String,
    pub inner: String,
    pub amount: Int,
}

pub open spec fn table_view(s: Seq<BalanceEntry>) -> Map<(Seq<char>, Seq<char>), int>
    decreases s.len(),
{
    if s.len() == 0 {
        Map::empty()
    } else {
        table_view(s.drop_last()).insert((s.last().outer@, s.last().inner@), s.last().amount@)
    }
}

/// The renewers' balances, keyed by two strings (a nested map in spirit).
pub struct BalanceTable {
    pub entries: Vec<BalanceEntry>,
}

impl View for BalanceTable {
    type V = Map<(Seq<char>, Seq<char>), int>;

    open spec fn view(&self) -> Map<(Seq<char>, Seq<char>), int> {
        table_view(self.entries@)
    }
}

impl BalanceTable {
    pub fn new() -> (r: BalanceTable)
        ensures
            r@ == Map::<(Seq<char>, Seq<char>), int>::empty(),
    {
        BalanceTable { entries: Vec::new() }
    }

    /// Sets the amount under (outer, inner).
    pub fn insert(&mut self, outer: &String, inner: &String, amount: Int)
        ensures
            final(self)@ == old(self)@.insert((outer@, inner@), amount@),
    {
        let e = BalanceEntry { outer: outer.clone(), inner: inner.clone(), amount };
        self.entries.push(e);
        proof {
            assert(self.entries@.drop_last() =~= old(self).entries@);
        }
    }

    /// The amount under (outer, inner), if any.
    pub fn get(&self, outer: &String, inner: &String) -> (r: Option<Int>)
        ensures
            r is Some <==> self@.contains_key((outer@, inner@)),
            r matches Some(v) ==> v@ == self@[(outer@, inner@)],
    {
        let ghost k = (outer@, inner@);
        let mut i: usize = self.entries.len();
        assert(self.entries@.subrange(0, i as int) =~= self.entries@);
        while i > 0
            invariant
                k == (outer@, inner@),
                i <= self.entries@.len(),
                table_view(self.entries@.subrange(0, i as int)).contains_key(k) == self@.contains_key(k),
                self@.contains_key(k) ==> table_view(self.entries@.subrange(0, i as int))[k] == self@[k],
            decreases i,
        {
            let e = &self.entries[i - 1];
            let ghost s = self.entries@.subrange(0, i as int);
            proof {
                assert(s.drop_last() =~= self.entries@.subrange(0, i - 1));
                assert(s.last() == self.entries@[i - 1]);
            }
            let same_outer = e.outer == *outer;
            let same_inner = e.inner == *inner;
            if same_outer && same_inner {
                proof {
                    assert(e.outer@ == outer@);
                    assert(*e == s.last());
                    assert((s.last().outer@, s.last().inner@) == k);
                    assert(table_view(s) == table_view(s.drop_last()).insert(k, s.last().amount@));
                }
                return Some(e.amount.copy());
            }
            proof {
                assert((s.last().outer@, s.last().inner@) != k);
                assert(table_view(s) == table_view(s.drop_last()).insert(
                    (s.last().outer@, s.last().inner@),
                    s.last().amount@,
                ));
            }
            i = i - 1;
        }
        None
    }
}

/// What `from_multicall` builds: for pair k, the balance at positions
/// 3k+1 (low) and 3k+2 (high) of the multicall answer.
pub open spec fn multicall_table(
    pairs: Seq<(String, String)>,
    balances: Seq<Felt>,
    n: nat,
) -> Map<(Seq<char>, Seq<char>), int>
    decreases n,
{
    if n == 0 {
        Map::empty()
    } else {
        let k = n - 1;
        multicall_table(pairs, balances, k as nat).insert(
            (pairs[k].0@, pairs[k].1@),
            (balances[3 * k + 2].value() * two_pow_128() + balances[3 * k + 1].value()) as int,
        )
    }
}

impl BalanceTable {
    /// The balance table read from the multicall answer: each renewer's
    /// entry is skipped over, then read as a low and a high half. Fails when
    /// nothing was fetched, and when the answer is too short for the renewers.
    pub fn from_multicall(pairs: &Vec<(String, String)>, balances: &Vec<Felt>) -> (r: Result<
        BalanceTable,
        PlanError,
    >)
        ensures
            r is Err <==> balances@.len() == 0 || balances@.len() < 3 * pairs@.len(),
            balances@.len() == 0 ==> r == Err::<BalanceTable, PlanError>(PlanError::NoBalances),
            balances@.len() > 0 && balances@.len() < 3 * pairs@.len() ==> r == Err::<BalanceTable, PlanError>(
                PlanError::MissingBalance,
            ),
            r matches Ok(t) ==> t@ == multicall_table(pairs@, balances@, pairs@.len()),
    {
        if balances.len() == 0 {
            return Err(PlanError::NoBalances);
        }
        let mut table = BalanceTable::new();
        let mut k: usize = 0;
        while k < pairs.len()
            invariant
                k <= pairs@.len(),
                table@ == multicall_table(pairs@, balances@, k as nat),
                3 * k <= balances@.len(),
                balances@.len() > 0,
            decreases pairs.len() - k,
        {
            if balances.len() - 3 * k < 3 {
                return Err(PlanError::MissingBalance);
            }
            let balance = from_uint256(&balances[3 * k + 1], &balances[3 * k + 2]);
            table.insert(&pairs[k].0, &pairs[k].1, balance);
            k = k + 1;
        }
        Ok(table)
    }
}

/// The token of the first mapping entry for `contract`.
pub open spec fn mapping_lookup(mapping: Seq<(Felt, Felt)>, contract: Seq<u8>) -> Option<Felt>
    decreases mapping.len(),
{
    if mapping.len() == 0 {
        None
    } else if mapping[0].0@ == contract {
        Some(mapping[0].1)
    } else {
        mapping_lookup(mapping.subrange(1, mapping.len() as int), contract)
    }
}

pub open spec fn mapping_wf(mapping: Seq<(Felt, Felt)>) -> bool {
    forall|i: int| 0 <= i < mapping.len() ==> (#[trigger] mapping[i]).1.wf()
}

fn lookup_token(mapping: &Vec<(Felt, Felt)>, contract: &Felt) -> (r: Option<Felt>)
    requires
        mapping_wf(mapping@),
    ensures
        r matches Some(t) ==> t.wf(),
        r is Some <==> mapping_lookup(mapping@, contract@) is Some,
        r matches Some(t) ==> t@ == mapping_lookup(mapping@, contract@)->0@,
{
    let mut i: usize = 0;
    assert(mapping@.subrange(0, mapping@.len() as int) =~= mapping@);
    while i < mapping.len()
        invariant
            mapping_wf(mapping@),
            i <= mapping@.len(),
            mapping_lookup(mapping@, contract@) == mapping_lookup(
                mapping@.subrange(i as int, mapping@.len() as int),
                contract@,
            ),
        decreases mapping.len() - i,
    {
        proof {
            let t = mapping@.subrange(i as int, mapping@.len() as int);
            assert(t.subrange(1, t.len() as int) =~= mapping@.subrange(i + 1, mapping@.len() as int));
            assert(t[0] == mapping@[i as int]);
        }
        if felt_eq(&mapping[i].0, contract) {
            assert(mapping@[i as int].1.wf());
            return Some(mapping[i].1.copy());
        }
        i = i + 1;
    }
    None
}

/// The (renewer, token) pair of a renewal: its renewer address and the hex
/// address of the token its auto-renewal contract is paid in.
pub open spec fn renewal_pair_ok(
    item: DomainAggregateResult,
    pair: (String, String),
    mapping: Seq<(Felt, Felt)>,
) -> bool {
    &&& mapping_lookup(mapping, item.auto_renew_contract@) is Some
    &&& hex_felt_ok(pair.1@)
    &&& pair.0@ == item.renewer_address@
    &&& pair.1@ == felt_hex_text(mapping_lookup(mapping, item.auto_renew_contract@)->0@)
}

/// How planning starts.
pub enum PlanStart {
    /// Nothing is due: the plan is one empty group under the ETH token.
    NothingDue(Vec<(Felt, AggregateResults)>),
    /// Renewals are due, paid in the tokens of `pairs`.
    Due { items: Vec<DomainAggregateResult>, pairs: Vec<(String, String)> },
}

/// First step of `get_domains_ready_for_renewal`: merges the ETH and the
/// altcoin renewals and pairs each with its renewer and token.
pub fn start_plan(
    results: Vec<DomainAggregateResult>,
    results_altcoins: Vec<DomainAggregateResult>,
    altcoins_mapping: &Vec<(Felt, Felt)>,
    eth_erc20: &Felt,
) -> (r: Result<PlanStart, PlanError>)
    requires
        mapping_wf(altcoins_mapping@),
    ensures
        results@.len() == 0 && results_altcoins@.len() == 0 ==> (r matches Ok(
            PlanStart::NothingDue(g),
        ) && g@.len() == 1 && g@[0].0@ == eth_erc20@ && g@[0].1.domains@.len() == 0
            && g@[0].1.renewers@.len() == 0 && g@[0].1.domain_prices@.len() == 0
            && g@[0].1.tax_prices@.len() == 0 && g@[0].1.meta_hashes@.len() == 0
            && g@[0].1.auto_renew_contracts@.len() == 0),
        !(results@.len() == 0 && results_altcoins@.len() == 0) ==> {
            &&& r is Err <==> exists|i: int|
                0 <= i < results@.len() + results_altcoins@.len() && mapping_lookup(
                    altcoins_mapping@,
                    (results@ + results_altcoins@)[i].auto_renew_contract@,
                ) is None
            &&& r matches Err(e) ==> e == PlanError::UnknownAutoRenewContract
            &&& r matches Ok(s) ==> (s matches PlanStart::Due { items, pairs } && items@ == results@
                + results_altcoins@ && pairs@.len() == items@.len() && forall|i: int|
                0 <= i < items@.len() ==> renewal_pair_ok(
                    #[trigger] items@[i],
                    pairs@[i],
                    altcoins_mapping@,
                ))
        },
{
    if results.len() == 0 && results_altcoins.len() == 0 {
        let mut g: Vec<(Felt, AggregateResults)> = Vec::new();
        g.push((eth_erc20.copy(), AggregateResults::empty()));
        return Ok(PlanStart::NothingDue(g));
    }
    let mut items = results;
    let mut more = results_altcoins;
    let ghost expected = items@ + more@;
    assert(expected =~= results@ + results_altcoins@);
    items.append(&mut more);
    assert(items@ =~= expected);
    let mut pairs: Vec<(String, String)> = Vec::new();
    let mut i: usize = 0;
    while i < items.len()
        invariant
            mapping_wf(altcoins_mapping@),
            items@ == expected,
            expected == results@ + results_altcoins@,
            expected.len() > 0,
            i <= items@.len(),
            pairs@.len() == i,
            forall|j: int| 0 <= j < i ==> renewal_pair_ok(#[trigger] items@[j], pairs@[j], altcoins_mapping@),
            forall|j: int| 0 <= j < i ==> mapping_lookup(altcoins_mapping@, (#[trigger] items@[j]).auto_renew_contract@) is Some,
        decreases items.len() - i,
    {
        let token = match lookup_token(altcoins_mapping, &items[i].auto_renew_contract) {
            Some(t) => t,
            None => return Err(PlanError::UnknownAutoRenewContract),
        };
        let hex = to_hex(&token);
        pairs.push((items[i].renewer_address.clone(), hex));
        proof {
            crate::felt::lemma_hex_roundtrip(token);
            assert(renewal_pair_ok(items@[i as int], pairs@[i as int], altcoins_mapping@));
        }
        i = i + 1;
    }
    Ok(PlanStart::Due { items, pairs })
}

/// The renewals of one group, entry by entry: domain, renewer, price, tax
/// in hundredths, meta hash.
pub type EntryView = (Seq<u8>, Seq<u8>, int, int, Seq<u8>);

pub open spec fn entry_of(r: AggregateResult) -> EntryView {
    (r.domain@, r.renewer_addr@, r.domain_price@, r.tax_price.hundredths@, r.meta_hash@)
}

/// The parallel vectors of a group have one entry per renewal, and the
/// contract vector stays empty.
pub open spec fn aligned(a: AggregateResults) -> bool {
    &&& a.renewers@.len() == a.domains@.len()
    &&& a.domain_prices@.len() == a.domains@.len()
    &&& a.tax_prices@.len() == a.domains@.len()
    &&& a.meta_hashes@.len() == a.domains@.len()
    &&& a.auto_renew_contracts@.len() == 0
}

pub open spec fn results_entries(a: AggregateResults) -> Seq<EntryView> {
    Seq::new(
        a.domains@.len(),
        |i: int|
            (
                a.domains@[i]@,
                a.renewers@[i]@,
                a.domain_prices@[i]@,
                a.tax_prices@[i].hundredths@,
                a.meta_hashes@[i]@,
            ),
    )
}

/// The planned renewals paid through `key`, in plan order.
pub open spec fn entries_for(outs: Seq<Option<AggregateResult>>, key: Seq<u8>) -> Seq<EntryView>
    decreases outs.len(),
{
    if outs.len() == 0 {
        Seq::empty()
    } else {
        let prev = entries_for(outs.drop_last(), key);
        match outs.last() {
            Some(r) => if r.auto_renew_contract@ == key {
                prev.push(entry_of(r))
            } else {
                prev
            },
            None => prev,
        }
    }
}

/// How many renewals were not planned.
pub open spec fn none_count_spec(outs: Seq<Option<AggregateResult>>) -> nat
    decreases outs.len(),
{
    if outs.len() == 0 {
        0
    } else {
        none_count_spec(outs.drop_last()) + if outs.last() is None {
            1nat
        } else {
            0nat
        }
    }
}

/// A planned renewal paid through `key`.
pub open spec fn pays_through(o: Option<AggregateResult>, key: Seq<u8>) -> bool {
    o matches Some(r) && r.auto_renew_contract@ == key
}

/// Some planned renewal is paid through `key`.
pub open spec fn has_key(outs: Seq<Option<AggregateResult>>, key: Seq<u8>) -> bool {
    exists|i: int| 0 <= i < outs.len() && pays_through(#[trigger] outs[i], key)
}

/// The grouping promised by `group_by_contract`.
pub open spec fn grouped(outs: Seq<Option<AggregateResult>>, groups: Seq<(Felt, AggregateResults)>) -> bool {
    &&& forall|j: int| 0 <= j < groups.len() ==> aligned(#[trigger] groups[j].1)
    &&& forall|j: int| 0 <= j < groups.len() ==> results_entries(#[trigger] groups[j].1) == entries_for(outs, groups[j].0@)
    &&& forall|j: int, k: int| 0 <= j < k < groups.len() ==> (#[trigger] groups[j]).0@ != (#[trigger] groups[k]).0@
    &&& forall|key: Seq<u8>| #[trigger] has_key(outs, key) <==> exists|j: int| 0 <= j < groups.len() && (#[trigger] groups[j]).0@ == key
}

/// The outputs that are renewals paid through `key`.
pub open spec fn paid_through(key: Seq<u8>) -> spec_fn(Option<AggregateResult>) -> bool {
    |o: Option<AggregateResult>| pays_through(o, key)
}

proof fn lemma_entries_are_the_planned(outs: Seq<Option<AggregateResult>>, key: Seq<u8>)
    ensures
        entries_for(outs, key) == outs.filter(paid_through(key)).map_values(
            |o: Option<AggregateResult>| entry_of(o->0),
        ),
    decreases outs.len(),
{
    reveal(Seq::filter);
    if outs.len() > 0 {
        lemma_entries_are_the_planned(outs.drop_last(), key);
        let prev = outs.drop_last().filter(paid_through(key));
        if pays_through(outs.last(), key) {
            assert(prev.push(outs.last()).map_values(|o: Option<AggregateResult>| entry_of(o->0))
                =~= prev.map_values(|o: Option<AggregateResult>| entry_of(o->0)).push(entry_of(outs.last()->0)));
        }
    }
}

/// Each group lists, in plan order, exactly the planned renewals paid
/// through its contract: entry `i` of every vector of the group is the
/// domain, renewer, price, tax and metadata hash of the `i`-th of them.
pub proof fn lemma_groups_carry_the_planned_renewals(
    outs: Seq<Option<AggregateResult>>,
    groups: Seq<(Felt, AggregateResults)>,
    j: int,
)
    requires
        grouped(outs, groups),
        0 <= j < groups.len(),
    ensures
        ({
            let p = outs.filter(paid_through(groups[j].0@));
            let g = groups[j].1;
            &&& g.domains@.len() == p.len()
            &&& g.renewers@.len() == p.len()
            &&& g.domain_prices@.len() == p.len()
            &&& g.tax_prices@.len() == p.len()
            &&& g.meta_hashes@.len() == p.len()
            &&& forall|i: int| 0 <= i < p.len() ==> {
                &&& p[i] is Some
                &&& (#[trigger] p[i])->0.auto_renew_contract@ == groups[j].0@
                &&& g.domains@[i]@ == p[i]->0.domain@
                &&& g.renewers@[i]@ == p[i]->0.renewer_addr@
                &&& g.domain_prices@[i]@ == p[i]->0.domain_price@
                &&& g.tax_prices@[i].hundredths@ == p[i]->0.tax_price.hundredths@
                &&& g.meta_hashes@[i]@ == p[i]->0.meta_hash@
            }
        }),
{
    let key = groups[j].0@;
    let p = outs.filter(paid_through(key));
    let g = groups[j].1;
    assert(aligned(g));
    assert(results_entries(g) == entries_for(outs, key));
    lemma_entries_are_the_planned(outs, key);
    let m = p.map_values(|o: Option<AggregateResult>| entry_of(o->0));
    assert(results_entries(g) == m);
    assert(results_entries(g).len() == g.domains@.len());
    assert(m.len() == p.len());
    assert forall|i: int| 0 <= i < p.len() implies {
        &&& p[i] is Some
        &&& (#[trigger] p[i])->0.auto_renew_contract@ == key
        &&& g.domains@[i]@ == p[i]->0.domain@
        &&& g.renewers@[i]@ == p[i]->0.renewer_addr@
        &&& g.domain_prices@[i]@ == p[i]->0.domain_price@
        &&& g.tax_prices@[i].hundredths@ == p[i]->0.tax_price.hundredths@
        &&& g.meta_hashes@[i]@ == p[i]->0.meta_hash@
    } by {
        outs.lemma_filter_pred(paid_through(key), i);
        assert(paid_through(key)(p[i]));
        assert(pays_through(p[i], key));
        assert(m[i] == entry_of(p[i]->0));
        assert(results_entries(g)[i] == m[i]);
        assert(results_entries(g)[i] == (
            g.domains@[i]@,
            g.renewers@[i]@,
            g.domain_prices@[i]@,
            g.tax_prices@[i].hundredths@,
            g.meta_hashes@[i]@,
        ));
    }
}

fn copy_result(r: &AggregateResult) -> (c: AggregateResult)
    ensures
        entry_of(c) == entry_of(*r),
        c.auto_renew_contract@ == r.auto_renew_contract@,
{
    AggregateResult {
        domain: r.domain.copy(),
        renewer_addr: r.renewer_addr.copy(),
        domain_price: r.domain_price.copy(),
        tax_price: TaxPrice { hundredths: r.tax_price.hundredths.copy() },
        meta_hash: r.meta_hash.copy(),
        auto_renew_contract: r.auto_renew_contract.copy(),
    }
}

proof fn lemma_entries_for_step(outs: Seq<Option<AggregateResult>>, i: int, key: Seq<u8>)
    requires
        0 <= i < outs.len(),
    ensures
        entries_for(outs.subrange(0, i + 1), key) == match outs[i] {
            Some(r) => if r.auto_renew_contract@ == key {
                entries_for(outs.subrange(0, i), key).push(entry_of(r))
            } else {
                entries_for(outs.subrange(0, i), key)
            },
            None => entries_for(outs.subrange(0, i), key),
        },
        none_count_spec(outs.subrange(0, i + 1)) == none_count_spec(outs.subrange(0, i)) + if outs[i] is None {
            1nat
        } else {
            0nat
        },
{
    let s = outs.subrange(0, i + 1);
    assert(s.drop_last() =~= outs.subrange(0, i));
    assert(s.last() == outs[i]);
}

/// The planned renewals paid through `key`, as parallel vectors.
fn collect_for_key(outs: &Vec<Option<AggregateResult>>, key: &Felt) -> (a: AggregateResults)
    ensures
        aligned(a),
        results_entries(a) == entries_for(outs@, key@),
{
    let mut a = AggregateResults::empty();
    let mut i: usize = 0;
    assert(results_entries(a) =~= entries_for(outs@.subrange(0, 0), key@));
    while i < outs.len()
        invariant
            i <= outs@.len(),
            aligned(a),
            results_entries(a) == entries_for(outs@.subrange(0, i as int), key@),
        decreases outs.len() - i,
    {
        proof {
            lemma_entries_for_step(outs@, i as int, key@);
        }
        match &outs[i] {
            Some(r) => {
                if felt_eq(&r.auto_renew_contract, key) {
                    let c = copy_result(r);
                    let ghost before = results_entries(a);
                    a.domains.push(c.domain);
                    a.renewers.push(c.renewer_addr);
                    a.domain_prices.push(c.domain_price);
                    a.tax_prices.push(c.tax_price);
                    a.meta_hashes.push(c.meta_hash);
                    assert(results_entries(a) =~= before.push(entry_of(*r)));
                }
            },
            None => {},
        }
        i = i + 1;
    }
    assert(outs@.subrange(0, outs@.len() as int) =~= outs@);
    a
}

fn key_index(keys: &Vec<Felt>, key: &Felt) -> (r: Option<usize>)
    ensures
        r is None ==> forall|j: int| 0 <= j < keys@.len() ==> (#[trigger] keys@[j])@ != key@,
        r matches Some(j) ==> j < keys@.len() && keys@[j as int]@ == key@,
{
    let mut i: usize = 0;
    while i < keys.len()
        invariant
            i <= keys@.len(),
            forall|j: int| 0 <= j < i ==> (#[trigger] keys@[j])@ != key@,
        decreases keys.len() - i,
    {
        if felt_eq(&keys[i], key) {
            return Some(i);
        }
        i = i + 1;
    }
    None
}

/// The grouping loop of `get_domains_ready_for_renewal`: each planned
/// renewal joins the group of its auto-renewal contract, and the renewals
/// that were not planned are counted.
pub fn group_by_contract(outs: &Vec<Option<AggregateResult>>) -> (r: (Vec<(Felt, AggregateResults)>, usize))
    requires
        outs@.len() < usize::MAX,
    ensures
        grouped(outs@, r.0@),
        r.1 as nat == none_count_spec(outs@),
{
    let mut keys: Vec<Felt> = Vec::new();
    let mut none_count: usize = 0;
    let mut i: usize = 0;
    while i < outs.len()
        invariant
            outs@.len() < usize::MAX,
            i <= outs@.len(),
            none_count as nat == none_count_spec(outs@.subrange(0, i as int)),
            none_count <= i,
            forall|j: int, k: int| 0 <= j < k < keys@.len() ==> (#[trigger] keys@[j])@ != (#[trigger] keys@[k])@,
            forall|key: Seq<u8>| #[trigger] has_key(outs@.subrange(0, i as int), key) <==> exists|j: int| 0 <= j < keys@.len() && (#[trigger] keys@[j])@ == key,
        decreases outs.len() - i,
    {
        let ghost pre = outs@.subrange(0, i as int);
        let ghost post = outs@.subrange(0, i + 1);
        proof {
            lemma_entries_for_step(outs@, i as int, Seq::empty());
            assert(post.drop_last() =~= pre);
            assert forall|key: Seq<u8>| has_key(post, key) <==> (has_key(pre, key) || pays_through(outs@[i as int], key)) by {
                if has_key(post, key) {
                    let w = choose|w: int| 0 <= w < post.len() && pays_through(#[trigger] post[w], key);
                    if w < i {
                        assert(pre[w] == post[w]);
                    }
                }
                if has_key(pre, key) {
                    let w = choose|w: int| 0 <= w < pre.len() && pays_through(#[trigger] pre[w], key);
                    assert(post[w] == pre[w]);
                }
                if pays_through(outs@[i as int], key) {
                    assert(post[i as int] == outs@[i as int]);
                }
            }
        }
        let ghost old_keys = keys@;
        match &outs[i] {
            Some(r) => {
                let found = key_index(&keys, &r.auto_renew_contract);
                match found {
                    Some(_) => {},
                    None => {
                        keys.push(r.auto_renew_contract.copy());
                    },
                }
                proof {
                    assert forall|key: Seq<u8>| #[trigger] has_key(post, key) <==> exists|j: int| 0 <= j < keys@.len() && (#[trigger] keys@[j])@ == key by {
                        if exists|j: int| 0 <= j < old_keys.len() && (#[trigger] old_keys[j])@ == key {
                            let j = choose|j: int| 0 <= j < old_keys.len() && (#[trigger] old_keys[j])@ == key;
                            assert(keys@[j] == old_keys[j]);
                        }
                        if pays_through(outs@[i as int], key) {
                            match found {
                                Some(idx) => {
                                    assert(keys@[idx as int]@ == key);
                                },
                                None => {
                                    assert(keys@[keys@.len() - 1]@ == key);
                                },
                            }
                        }
                        if exists|j: int| 0 <= j < keys@.len() && (#[trigger] keys@[j])@ == key {
                            let j = choose|j: int| 0 <= j < keys@.len() && (#[trigger] keys@[j])@ == key;
                            if j < old_keys.len() {
                                assert(old_keys[j] == keys@[j]);
                            }
                        }
                    }
                }
            },
            None => {
                none_count = none_count + 1;
            },
        }
        i = i + 1;
    }
    assert(outs@.subrange(0, outs@.len() as int) =~= outs@);
    let mut groups: Vec<(Felt, AggregateResults)> = Vec::new();
    let mut j: usize = 0;
    while j < keys.len()
        invariant
            j <= keys@.len(),
            groups@.len() == j,
            forall|t: int| 0 <= t < j ==> (#[trigger] groups@[t]).0@ == keys@[t]@,
            forall|t: int| 0 <= t < j ==> aligned(#[trigger] groups@[t].1),
            forall|t: int| 0 <= t < j ==> results_entries(#[trigger] groups@[t].1) == entries_for(outs@, groups@[t].0@),
        decreases keys.len() - j,
    {
        let a = collect_for_key(outs, &keys[j]);
        groups.push((keys[j].copy(), a));
        j = j + 1;
    }
    proof {
        assert forall|a: int, b: int| 0 <= a < b < groups@.len() implies (#[trigger] groups@[a]).0@ != (#[trigger] groups@[b]).0@ by {
            assert(groups@[a].0@ == keys@[a]@);
            assert(groups@[b].0@ == keys@[b]@);
        }
        assert forall|key: Seq<u8>| #[trigger] has_key(outs@, key) <==> exists|t: int| 0 <= t < groups@.len() && (#[trigger] groups@[t]).0@ == key by {
            if has_key(outs@, key) {
                let t = choose|t: int| 0 <= t < keys@.len() && (#[trigger] keys@[t])@ == key;
                assert(groups@[t].0@ == key);
            }
            if exists|t: int| 0 <= t < groups@.len() && (#[trigger] groups@[t]).0@ == key {
                let t = choose|t: int| 0 <= t < groups@.len() && (#[trigger] groups@[t]).0@ == key;
                assert(keys@[t]@ == key);
            }
        }
    }
    (groups, none_count)
}

pub open spec fn pair_key(p: (String, String)) -> (Seq<char>, Seq<char>) {
    (p.0@, p.1@)
}

proof fn lemma_multicall_keys(pairs: Seq<(String, String)>, balances: Seq<Felt>, n: nat, k: int)
    requires
        0 <= k < n,
        n <= pairs.len(),
    ensures
        multicall_table(pairs, balances, n).contains_key(pair_key(pairs[k])),
    decreases n,
{
    if k < n - 1 {
        lemma_multicall_keys(pairs, balances, (n - 1) as nat, k);
    }
}

/// The per-renewal state of `get_domains_ready_for_renewal`: the due
/// renewals, their (renewer, token) pairs, the running balances, and the
/// outcome of each renewal handled so far.
pub struct RenewalPlanner {
    pub items: Vec<DomainAggregateResult>,
    pub pairs: Vec<(String, String)>,
    pub balances: BalanceTable,
    pub outputs: Vec<Option<AggregateResult>>,
}

impl RenewalPlanner {
    pub open spec fn wf(&self) -> bool {
        &&& self.pairs@.len() == self.items@.len()
        &&& self.outputs@.len() <= self.items@.len()
        &&& self.items@.len() < usize::MAX
        &&& forall|k: int| 0 <= k < self.pairs@.len() ==> self.balances@.contains_key(#[trigger] pair_key(self.pairs@[k]))
    }

    /// The planner after the balances were fetched: fails when no balance
    /// was fetched at all, and when the multicall answer is too short.
    pub fn new(
        items: Vec<DomainAggregateResult>,
        pairs: Vec<(String, String)>,
        balances: &Vec<Felt>,
    ) -> (r: Result<RenewalPlanner, PlanError>)
        requires
            pairs@.len() == items@.len(),
            items@.len() < usize::MAX,
        ensures
            r is Err <==> balances@.len() == 0 || balances@.len() < 3 * pairs@.len(),
            balances@.len() == 0 ==> (r matches Err(e) && e == PlanError::NoBalances),
            balances@.len() > 0 && balances@.len() < 3 * pairs@.len() ==> (r matches Err(e) && e
                == PlanError::MissingBalance),
            r matches Ok(p) ==> p.wf() && p.items@ == items@ && p.pairs@ == pairs@ && p.outputs@.len() == 0
                && p.balances@ == multicall_table(pairs@, balances@, pairs@.len()),
    {
        let table = match BalanceTable::from_multicall(&pairs, balances) {
            Ok(t) => t,
            Err(e) => return Err(e),
        };
        proof {
            assert forall|k: int| 0 <= k < pairs@.len() implies table@.contains_key(#[trigger] pair_key(pairs@[k])) by {
                lemma_multicall_keys(pairs@, balances@, pairs@.len(), k);
            }
        }
        Ok(RenewalPlanner { items, pairs, balances: table, outputs: Vec::new() })
    }

    /// The current balance of renewal `i`'s renewer in its token.
    pub fn balance_of(&self, i: usize) -> (r: Int)
        requires
            self.wf(),
            i < self.items@.len(),
        ensures
            r@ == self.balances@[pair_key(self.pairs@[i as int])],
    {
        let v = self.balances.get(&self.pairs[i].0, &self.pairs[i].1);
        assert(self.balances@.contains_key(pair_key(self.pairs@[i as int])));
        v.unwrap()
    }

    /// Records the outcome of the next renewal. A planned renewal lowers the
    /// running balance, stored under (token, renewer).
    pub fn record(&mut self, renewal_price: &Int, output: Option<AggregateResult>)
        requires
            old(self).wf(),
            old(self).outputs@.len() < old(self).items@.len(),
        ensures
            final(self).wf(),
            final(self).items@ == old(self).items@,
            final(self).pairs@ == old(self).pairs@,
            final(self).outputs@ == old(self).outputs@.push(output),
            ({
                let p = old(self).pairs@[old(self).outputs@.len() as int];
                output is Some ==> final(self).balances@ == old(self).balances@.insert(
                    (p.1@, p.0@),
                    old(self).balances@[(p.0@, p.1@)] - renewal_price@,
                )
            }),
            output is None ==> final(self).balances@ == old(self).balances@,
    {
        let i = self.outputs.len();
        if output.is_some() {
            let balance = self.balance_of(i);
            let new_balance = balance.sub(renewal_price);
            let erc20 = self.pairs[i].1.clone();
            let address = self.pairs[i].0.clone();
            self.balances.insert(&erc20, &address, new_balance);
        }
        self.outputs.push(output);
    }

    /// The renewals grouped by auto-renewal contract, and how many were not planned.
    pub fn finish(&self) -> (r: (Vec<(Felt, AggregateResults)>, usize))
        requires
            self.wf(),
        ensures
            grouped(self.outputs@, r.0@),
            r.1 as nat == none_count_spec(self.outputs@),
    {
        group_by_contract(&self.outputs)
    }
}

/// Whether renewal `i` is paid in another token than ETH, so that its price
/// needs a quote (`FieldElement::from_hex_be(erc20) != eth_erc20`).
pub fn needs_quote(erc20: &String, eth_erc20: &Felt) -> (r: bool)
    requires
        hex_felt_ok(erc20@),
        eth_erc20.wf(),
    ensures
        r == (crate::felt::hex_value(crate::text::trim_0x(erc20@)) != eth_erc20.value()),
{
    let token = felt_from_hex(erc20.as_str()).unwrap();
    let same = felt_eq(&token, eth_erc20);
    proof {
        if token.value() == eth_erc20.value() {
            crate::felt::lemma_be_value_injective(token@, eth_erc20@);
        }
    }
    !same
}

} // verus!

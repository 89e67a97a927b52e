//! Calldata of the bot's two contract calls: the multicall that reads the
//! renewers' token balances, and `batch_renew` on an auto-renewal contract.

use vstd::prelude::*;
use crate::felt::{Felt, felt_from_hex, felt_from_u64, hex_felt_ok, hex_value, selector_from_name,
    starknet_keccak_name, to_uint256, two_pow_128, uint256_splittable};
use crate::num::{Int, abs, div_trunc};
use crate::text::trim_0x;
use crate::bot::models::{AggregateResults, TaxPrice};

verus! {

/// Requests per multicall.
pub const BALANCE_BATCH_SIZE: usize = 2500;

pub open spec fn balance_of_name() -> Seq<char> {
    seq!['b', 'a', 'l', 'a', 'n', 'c', 'e', 'O', 'f']
}

pub open spec fn felt_values(fs: Seq<Felt>) -> Seq<nat> {
    fs.map_values(|f: Felt| f.value())
}

/// The multicall calldata of `fetch_users_balances`: the number of calls,
/// then for each (renewer, token): token, `balanceOf` selector, one
/// argument, renewer.
pub open spec fn balance_calldata_spec(pairs: Seq<(String, String)>) -> Seq<nat>
    decreases pairs.len(),
{
    if pairs.len() == 0 {
        Seq::empty()
    } else {
        let p = pairs.last();
        balance_calldata_spec(pairs.drop_last()) + seq![
            hex_value(trim_0x(p.1@)),
            starknet_keccak_name(balance_of_name()),
            1nat,
            hex_value(trim_0x(p.0@)),
        ]
    }
}

pub open spec fn pairs_parse(pairs: Seq<(String, String)>) -> bool {
    forall|k: int| 0 <= k < pairs.len() ==> hex_felt_ok((#[trigger] pairs[k]).0@) && hex_felt_ok(pairs[k].1@)
}

fn balance_of_selector() -> (r: Felt)
    ensures
        r.wf(),
        r.value() == starknet_keccak_name(balance_of_name()),
{
    let name = "balanceOf";
    proof {
        reveal_strlit("balanceOf");
        assert(name@ =~= balance_of_name());
    }
    selector_from_name(name).unwrap()
}

/// `fetch_users_balances`: the calldata of the balance multicall.
pub fn balances_calldata(pairs: &Vec<(String, String)>) -> (r: Vec<Felt>)
    requires
        pairs_parse(pairs@),
    ensures
        felt_values(r@) == seq![pairs@.len()] + balance_calldata_spec(pairs@),
        forall|k: int| 0 <= k < r@.len() ==> (#[trigger] r@[k]).wf(),
{
    let mut calls: Vec<Felt> = Vec::new();
    calls.push(felt_from_u64(pairs.len() as u64));
    let selector = balance_of_selector();
    let mut k: usize = 0;
    while k < pairs.len()
        invariant
            pairs_parse(pairs@),
            k <= pairs@.len(),
            selector.wf(),
            selector.value() == starknet_keccak_name(balance_of_name()),
            felt_values(calls@) == seq![pairs@.len()] + balance_calldata_spec(pairs@.subrange(0, k as int)),
            forall|j: int| 0 <= j < calls@.len() ==> (#[trigger] calls@[j]).wf(),
        decreases pairs.len() - k,
    {
        assert(hex_felt_ok(pairs@[k as int].0@));
        let ghost before = calls@;
        calls.push(felt_from_hex(pairs[k].1.as_str()).unwrap());
        calls.push(selector.copy());
        calls.push(Felt::one());
        calls.push(felt_from_hex(pairs[k].0.as_str()).unwrap());
        proof {
            let s = pairs@.subrange(0, k + 1);
            assert(s.drop_last() =~= pairs@.subrange(0, k as int));
            assert(s.last() == pairs@[k as int]);
            assert(felt_values(calls@) =~= felt_values(before) + seq![
                hex_value(trim_0x(pairs@[k as int].1@)),
                starknet_keccak_name(balance_of_name()),
                1nat,
                hex_value(trim_0x(pairs@[k as int].0@)),
            ]);
        }
        k = k + 1;
    }
    assert(pairs@.subrange(0, pairs@.len() as int) =~= pairs@);
    calls
}

/// `get_balances`: the (renewer, token) pairs in batches of at most 2500,
/// in order.
pub fn balance_batches(pairs: &Vec<(String, String)>) -> (r: Vec<Vec<(String, String)>>)
    ensures
        r@.len() == (pairs@.len() + BALANCE_BATCH_SIZE - 1) / BALANCE_BATCH_SIZE as int,
        forall|b: int| #![trigger r@[b]] 0 <= b < r@.len() ==> r@[b]@.len() > 0 && r@[b]@ == pairs@.subrange(
            b * BALANCE_BATCH_SIZE,
            if (b + 1) * BALANCE_BATCH_SIZE <= pairs@.len() {
                (b + 1) * BALANCE_BATCH_SIZE
            } else {
                pairs@.len() as int
            },
        ),
{
    let mut r: Vec<Vec<(String, String)>> = Vec::new();
    let mut start: usize = 0;
    while start < pairs.len()
        invariant
            start <= pairs@.len(),
            start == r@.len() * BALANCE_BATCH_SIZE || start == pairs@.len(),
            start < pairs@.len() ==> start == r@.len() * BALANCE_BATCH_SIZE,
            r@.len() == (start + BALANCE_BATCH_SIZE - 1) / BALANCE_BATCH_SIZE as int,
            forall|b: int| #![trigger r@[b]] 0 <= b < r@.len() ==> r@[b]@.len() > 0 && r@[b]@ == pairs@.subrange(
                b * BALANCE_BATCH_SIZE,
                if (b + 1) * BALANCE_BATCH_SIZE <= pairs@.len() {
                    (b + 1) * BALANCE_BATCH_SIZE
                } else {
                    pairs@.len() as int
                },
            ),
        decreases pairs.len() - start,
    {
        let end = if pairs.len() - start >= BALANCE_BATCH_SIZE {
            start + BALANCE_BATCH_SIZE
        } else {
            pairs.len()
        };
        let mut batch: Vec<(String, String)> = Vec::new();
        let mut k: usize = start;
        while k < end
            invariant
                start <= k <= end,
                end <= pairs@.len(),
                batch@ == pairs@.subrange(start as int, k as int),
            decreases end - k,
        {
            batch.push((pairs[k].0.clone(), pairs[k].1.clone()));
            proof {
                assert(batch@ =~= pairs@.subrange(start as int, k + 1));
            }
            k = k + 1;
        }
        let ghost b = r@.len();
        r.push(batch);
        proof {
            assert(start == b * BALANCE_BATCH_SIZE);
            if (b + 1) * BALANCE_BATCH_SIZE <= pairs@.len() {
                assert(end == (b + 1) * BALANCE_BATCH_SIZE);
            } else {
                assert(end == pairs@.len());
            }
        }
        start = end;
    }
    r
}

/// Appends one multicall answer without its first two elements (the block
/// number and the number of results).
pub fn append_batch_balances(balances: &mut Vec<Felt>, batch: Vec<Felt>)
    ensures
        final(balances)@ == old(balances)@ + if batch@.len() >= 2 {
            batch@.subrange(2, batch@.len() as int)
        } else {
            Seq::<Felt>::empty()
        },
{
    let ghost start = balances@;
    let mut batch = batch;
    let ghost whole = batch@;
    if batch.len() < 2 {
        assert(balances@ =~= start + Seq::<Felt>::empty());
        return;
    }
    let mut rest: Vec<Felt> = batch.split_off(2);
    balances.append(&mut rest);
    assert(balances@ =~= start + whole.subrange(2, whole.len() as int));
}

/// Low and high halves of each amount's magnitude.
pub open spec fn split_values(xs: Seq<int>) -> Seq<nat>
    decreases xs.len(),
{
    if xs.len() == 0 {
        Seq::empty()
    } else {
        split_values(xs.drop_last()) + seq![abs(xs.last()) % two_pow_128(), abs(xs.last()) / two_pow_128()]
    }
}

pub open spec fn int_values(xs: Seq<Int>) -> Seq<int> {
    xs.map_values(|x: Int| x@)
}

/// The integer part of each tax (`BigDecimal::to_bigint`, truncating).
pub open spec fn tax_integer_values(xs: Seq<TaxPrice>) -> Seq<int> {
    xs.map_values(|t: TaxPrice| div_trunc(t.hundredths@, 100))
}

/// The `batch_renew` calldata of `send_transaction`: each vector preceded by
/// its length; prices and taxes as (low, high) halves.
pub open spec fn renewal_calldata_spec(a: AggregateResults) -> Seq<nat> {
    seq![a.domains@.len()] + felt_values(a.domains@) + seq![a.renewers@.len()] + felt_values(
        a.renewers@,
    ) + seq![a.domain_prices@.len()] + split_values(int_values(a.domain_prices@)) + seq![
        a.tax_prices@.len(),
    ] + split_values(tax_integer_values(a.tax_prices@)) + seq![a.meta_hashes@.len()]
        + felt_values(a.meta_hashes@)
}

/// Every price and every tax fits the (low, high) split.
pub open spec fn amounts_splittable(a: AggregateResults) -> bool {
    &&& forall|i: int| 0 <= i < a.domain_prices@.len() ==> uint256_splittable((#[trigger] a.domain_prices@[i])@)
    &&& forall|i: int| 0 <= i < a.tax_prices@.len() ==> uint256_splittable(div_trunc((#[trigger] a.tax_prices@[i]).hundredths@, 100))
}

/// Whether `to_uint256` accepts the amount: the high half is a field element.
pub fn splittable(x: &Int) -> (r: bool)
    ensures
        r == uint256_splittable(x@),
{
    let base = crate::felt::two_pow_128_nat();
    let (high, _low) = x.magnitude.div_rem(&base);
    assert(abs(x@) == x.magnitude@);
    crate::felt::felt_from_nat(&high).is_some()
}

/// Whether every price and tax of the batch can be split for the calldata.
pub fn amounts_fit(a: &AggregateResults) -> (r: bool)
    ensures
        r == amounts_splittable(*a),
{
    let mut i: usize = 0;
    while i < a.domain_prices.len()
        invariant
            i <= a.domain_prices@.len(),
            forall|j: int| 0 <= j < i ==> uint256_splittable((#[trigger] a.domain_prices@[j])@),
        decreases a.domain_prices.len() - i,
    {
        if !splittable(&a.domain_prices[i]) {
            return false;
        }
        i = i + 1;
    }
    let hundred = Int::from_u64(100);
    let mut j: usize = 0;
    while j < a.tax_prices.len()
        invariant
            hundred@ == 100,
            j <= a.tax_prices@.len(),
            forall|k: int| 0 <= k < a.domain_prices@.len() ==> uint256_splittable((#[trigger] a.domain_prices@[k])@),
            forall|k: int| 0 <= k < j ==> uint256_splittable(div_trunc((#[trigger] a.tax_prices@[k]).hundredths@, 100)),
        decreases a.tax_prices.len() - j,
    {
        let whole = a.tax_prices[j].hundredths.div_trunc(&hundred);
        if !splittable(&whole) {
            return false;
        }
        j = j + 1;
    }
    true
}

/// Whether every (renewer, token) pair holds two field elements in hex.
pub fn pairs_fit(pairs: &Vec<(String, String)>) -> (r: bool)
    ensures
        r == pairs_parse(pairs@),
{
    let mut k: usize = 0;
    while k < pairs.len()
        invariant
            k <= pairs@.len(),
            forall|j: int| 0 <= j < k ==> hex_felt_ok((#[trigger] pairs@[j]).0@) && hex_felt_ok(pairs@[j].1@),
        decreases pairs.len() - k,
    {
        if felt_from_hex(pairs[k].0.as_str()).is_none() || felt_from_hex(pairs[k].1.as_str()).is_none() {
            return false;
        }
        k = k + 1;
    }
    true
}

fn push_felts(out: &mut Vec<Felt>, fs: &Vec<Felt>)
    ensures
        felt_values(final(out)@) == felt_values(old(out)@) + seq![fs@.len()] + felt_values(fs@),
{
    let ghost start = felt_values(out@);
    out.push(felt_from_u64(fs.len() as u64));
    let mut i: usize = 0;
    while i < fs.len()
        invariant
            i <= fs@.len(),
            felt_values(out@) == start + seq![fs@.len()] + felt_values(fs@.subrange(0, i as int)),
        decreases fs.len() - i,
    {
        let ghost before = out@;
        out.push(fs[i].copy());
        proof {
            assert(fs@.subrange(0, i + 1) =~= fs@.subrange(0, i as int).push(fs@[i as int]));
            assert(felt_values(out@) =~= felt_values(before).push(fs@[i as int].value()));
            assert(felt_values(fs@.subrange(0, i + 1)) =~= felt_values(fs@.subrange(0, i as int)).push(fs@[i as int].value()));
        }
        i = i + 1;
    }
    assert(fs@.subrange(0, fs@.len() as int) =~= fs@);
}

fn push_split(out: &mut Vec<Felt>, x: &Int)
    requires
        uint256_splittable(x@),
    ensures
        felt_values(final(out)@) == felt_values(old(out)@) + seq![abs(x@) % two_pow_128(), abs(x@) / two_pow_128()],
{
    let ghost before = out@;
    let (low, high) = to_uint256(x);
    out.push(low);
    out.push(high);
    assert(felt_values(out@) =~= felt_values(before) + seq![abs(x@) % two_pow_128(), abs(x@) / two_pow_128()]);
}

/// `send_transaction`: the calldata of `batch_renew` for one batch.
pub fn renewal_calldata(a: &AggregateResults) -> (r: Vec<Felt>)
    requires
        amounts_splittable(*a),
    ensures
        felt_values(r@) == renewal_calldata_spec(*a),
{
    let mut calldata: Vec<Felt> = Vec::new();
    assert(felt_values(calldata@) =~= Seq::<nat>::empty());
    push_felts(&mut calldata, &a.domains);
    push_felts(&mut calldata, &a.renewers);
    let ghost p1 = felt_values(calldata@);
    assert(p1 =~= seq![a.domains@.len()] + felt_values(a.domains@) + seq![a.renewers@.len()] + felt_values(a.renewers@));
    calldata.push(felt_from_u64(a.domain_prices.len() as u64));
    let ghost mark = felt_values(calldata@);
    assert(mark =~= p1.push(a.domain_prices@.len()));
    let mut i: usize = 0;
    while i < a.domain_prices.len()
        invariant
            amounts_splittable(*a),
            i <= a.domain_prices@.len(),
            felt_values(calldata@) == mark + split_values(int_values(a.domain_prices@.subrange(0, i as int))),
        decreases a.domain_prices.len() - i,
    {
        proof {
            let s = a.domain_prices@.subrange(0, i + 1);
            assert(int_values(s).drop_last() =~= int_values(a.domain_prices@.subrange(0, i as int)));
            assert(int_values(s).last() == a.domain_prices@[i as int]@);
        }
        push_split(&mut calldata, &a.domain_prices[i]);
        i = i + 1;
    }
    assert(a.domain_prices@.subrange(0, a.domain_prices@.len() as int) =~= a.domain_prices@);
    let ghost p2 = felt_values(calldata@);
    calldata.push(felt_from_u64(a.tax_prices.len() as u64));
    let ghost mark2 = felt_values(calldata@);
    assert(mark2 =~= p2.push(a.tax_prices@.len()));
    let hundred = Int::from_u64(100);
    let mut j: usize = 0;
    while j < a.tax_prices.len()
        invariant
            amounts_splittable(*a),
            hundred@ == 100,
            j <= a.tax_prices@.len(),
            felt_values(calldata@) == mark2 + split_values(tax_integer_values(a.tax_prices@.subrange(0, j as int))),
        decreases a.tax_prices.len() - j,
    {
        proof {
            let s = a.tax_prices@.subrange(0, j + 1);
            assert(tax_integer_values(s).drop_last() =~= tax_integer_values(a.tax_prices@.subrange(0, j as int)));
            assert(tax_integer_values(s).last() == div_trunc(a.tax_prices@[j as int].hundredths@, 100));
        }
        let whole = a.tax_prices[j].hundredths.div_trunc(&hundred);
        push_split(&mut calldata, &whole);
        j = j + 1;
    }
    assert(a.tax_prices@.subrange(0, a.tax_prices@.len() as int) =~= a.tax_prices@);
    let ghost p3 = felt_values(calldata@);
    push_felts(&mut calldata, &a.meta_hashes);
    assert(p3 =~= seq![a.domains@.len()] + felt_values(a.domains@) + seq![a.renewers@.len()] + felt_values(a.renewers@) + seq![a.domain_prices@.len()] + split_values(int_values(a.domain_prices@)) + seq![a.tax_prices@.len()] + split_values(tax_integer_values(a.tax_prices@)));
    assert(felt_values(calldata@) =~= renewal_calldata_spec(*a));
    calldata
}


pub open spec fn batch_renew_name() -> Seq<char> {
    seq!['b', 'a', 't', 'c', 'h', '_', 'r', 'e', 'n', 'e', 'w']
}

/// A call of a contract's entry point.
pub struct ContractCall {
    pub to: Felt,
    pub selector: Felt,
    pub calldata: Vec<Felt>,
}

/// `send_transaction`: the `batch_renew` call of one batch on the
/// auto-renewal contract.
pub fn renewal_call(contract: &Felt, a: &AggregateResults) -> (r: ContractCall)
    requires
        amounts_splittable(*a),
    ensures
        r.to@ == contract@,
        r.selector.wf(),
        r.selector.value() == starknet_keccak_name(batch_renew_name()),
        felt_values(r.calldata@) == renewal_calldata_spec(*a),
{
    let name = "batch_renew";
    proof {
        reveal_strlit("batch_renew");
        assert(name@ =~= batch_renew_name());
    }
    let selector = selector_from_name(name).unwrap();
    ContractCall { to: contract.copy(), selector, calldata: renewal_calldata(a) }
}

pub open spec fn aggregate_name() -> Seq<char> {
    seq!['a', 'g', 'g', 'r', 'e', 'g', 'a', 't', 'e']
}

/// `fetch_users_balances`: the `aggregate` call on the multicall contract.
pub fn balances_call(multicall: &Felt, pairs: &Vec<(String, String)>) -> (r: ContractCall)
    requires
        pairs_parse(pairs@),
    ensures
        r.to@ == multicall@,
        r.selector.wf(),
        r.selector.value() == starknet_keccak_name(aggregate_name()),
        felt_values(r.calldata@) == seq![pairs@.len()] + balance_calldata_spec(pairs@),
{
    let name = "aggregate";
    proof {
        reveal_strlit("aggregate");
        assert(name@ =~= aggregate_name());
    }
    let selector = selector_from_name(name).unwrap();
    ContractCall { to: multicall.copy(), selector, calldata: balances_calldata(pairs) }
}

} // verus!

//! Renewal prices.

use vstd::prelude::*;
use vstd::utf8::encode_utf8;
use crate::num::{Int, div_trunc};
use crate::text::ends_with;

verus! {

pub open spec fn stark_suffix() -> Seq<char> {
    seq!['.', 's', 't', 'a', 'r', 'k']
}

/// The name part of "<name>.stark".
pub open spec fn domain_name(domain: Seq<char>) -> Seq<char> {
    domain.subrange(0, domain.len() - 6)
}

/// Yearly price in wei of a name whose UTF-8 encoding has `len` bytes.
pub open spec fn eth_price_for_len(len: nat) -> int {
    if len == 1 {
        1068493150684932int * 365
    } else if len == 2 {
        657534246575343int * 365
    } else if len == 3 {
        410958904109590int * 365
    } else if len == 4 {
        232876712328767int * 365
    } else {
        24657534246575int * 365
    }
}

pub open spec fn renewal_price_eth_spec(domain: Seq<char>) -> int {
    eth_price_for_len(encode_utf8(domain_name(domain)).len())
}

/// Whether the domain ends with ".stark".
pub fn is_stark_domain(domain: &str) -> (r: bool)
    ensures
        r == ends_with(domain@, stark_suffix()),
{
    let cs = crate::text::chars_of(domain);
    let suffix: Vec<char> = vec!['.', 's', 't', 'a', 'r', 'k'];
    assert(suffix@ =~= stark_suffix());
    crate::text::has_suffix(&cs, &suffix)
}

/// `get_renewal_price_eth`: the yearly ETH price of "<name>.stark", which
/// depends on the byte length of the name (one to four bytes, or more).
pub fn get_renewal_price_eth(domain: &str) -> (r: Int)
    requires
        ends_with(domain@, stark_suffix()),
    ensures
        r@ == renewal_price_eth_spec(domain@),
        encode_utf8(domain_name(domain@)).len() >= 5 ==> r@ == 8999999999999875,
{
    proof {
        lemma_price_table(encode_utf8(domain_name(domain@)).len());
    }
    let n = domain.unicode_len();
    let name = domain.substring_char(0, n - 6);
    let domain_len = name.as_bytes().len();
    let price: u64 = if domain_len == 1 {
        1068493150684932u64 * 365
    } else if domain_len == 2 {
        657534246575343u64 * 365
    } else if domain_len == 3 {
        410958904109590u64 * 365
    } else if domain_len == 4 {
        232876712328767u64 * 365
    } else {
        24657534246575u64 * 365
    };
    Int::from_u64(price)
}

/// Wei per ether: the scale of altcoin quotes.
pub open spec fn quote_scale() -> int {
    1000000000000000000int
}

/// The price in an altcoin: `quote * price_eth / 10^18`, truncated toward zero.
pub open spec fn altcoin_price_spec(quote: int, price_eth: int) -> int {
    div_trunc(quote * price_eth, quote_scale())
}

/// The price charged in a token: the ETH price itself for ETH, else the
/// ETH price converted with the token's quote.
pub fn renewal_price(price_eth: &Int, quote: Option<&Int>) -> (r: Int)
    ensures
        quote is None ==> r@ == price_eth@,
        quote matches Some(q) ==> r@ == altcoin_price_spec(q@, price_eth@),
        quote matches Some(q) ==> (q@ >= 0 && price_eth@ >= 0 ==> (r@ * 1000000000000000000 <= q@
            * price_eth@ && q@ * price_eth@ < (r@ + 1) * 1000000000000000000)),
{
    proof {
        if let Some(q) = quote {
            if q@ >= 0 && price_eth@ >= 0 {
                lemma_altcoin_price_truncates(q@, price_eth@);
            }
        }
    }
    match quote {
        None => price_eth.copy(),
        Some(q) => {
            let scale = Int::from_u64(1000000000000000000u64);
            q.mul(price_eth).div_trunc(&scale)
        },
    }
}

/// `BigInt::from_str` on a quote.
pub fn parse_quote(quote: &str) -> (r: Option<Int>)
    ensures
        r is Some <==> crate::num::parse_integer(quote@, 10) is Some,
        r matches Some(x) ==> x@ == crate::num::parse_integer(quote@, 10)->0,
{
    crate::num::parse_int_radix(quote, 10)
}

/// Longer names never cost more: for names of at least one byte the price
/// does not increase with the length.
pub proof fn lemma_price_non_increasing(a: nat, b: nat)
    requires
        1 <= a <= b,
    ensures
        eth_price_for_len(b) <= eth_price_for_len(a),
{
}

/// The yearly ETH price by byte length of the name, in wei: one byte
/// 390000000000000180, two 240000000000000195, three 150000000000000350,
/// four 84999999999999955, and every length of five bytes or more
/// 8999999999999875.
pub proof fn lemma_price_table(len: nat)
    ensures
        len == 1 ==> eth_price_for_len(len) == 390000000000000180,
        len == 2 ==> eth_price_for_len(len) == 240000000000000195,
        len == 3 ==> eth_price_for_len(len) == 150000000000000350,
        len == 4 ==> eth_price_for_len(len) == 84999999999999955,
        len >= 5 ==> eth_price_for_len(len) == 8999999999999875,
{
}

/// Every name of five bytes or more costs the same: two such names have
/// equal prices.
pub proof fn lemma_long_names_cost_the_same(d1: Seq<char>, d2: Seq<char>)
    requires
        encode_utf8(domain_name(d1)).len() >= 5,
        encode_utf8(domain_name(d2)).len() >= 5,
    ensures
        renewal_price_eth_spec(d1) == renewal_price_eth_spec(d2),
        renewal_price_eth_spec(d1) == 8999999999999875,
{
    lemma_price_table(encode_utf8(domain_name(d1)).len());
    lemma_price_table(encode_utf8(domain_name(d2)).len());
}

/// The altcoin price is the quotient of the whole product `quote *
/// price_eth` by 10^18, rounded down: the product lies between the price
/// times 10^18 and the next multiple of 10^18.
pub proof fn lemma_altcoin_price_truncates(quote: int, price_eth: int)
    requires
        quote >= 0,
        price_eth >= 0,
    ensures
        altcoin_price_spec(quote, price_eth) * 1000000000000000000 <= quote * price_eth,
        quote * price_eth < (altcoin_price_spec(quote, price_eth) + 1) * 1000000000000000000,
        quote * price_eth >= 1000000000000000000 ==> altcoin_price_spec(quote, price_eth) >= 1,
{
    let x = quote * price_eth;
    let d = 1000000000000000000int;
    assert(x >= 0) by (nonlinear_arith)
        requires
            quote >= 0,
            price_eth >= 0,
            x == quote * price_eth,
    ;
    vstd::arithmetic::div_mod::lemma_fundamental_div_mod(x, d);
    vstd::arithmetic::div_mod::lemma_mod_pos_bound(x, d);
    assert(altcoin_price_spec(quote, price_eth) == x / d);
}

} // verus!

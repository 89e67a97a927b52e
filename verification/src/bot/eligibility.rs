//! Whether one due auto-renewal can be renewed now: its approvals, its
//! allowance, the renewer's balance and the sales tax of the renewer's state.

use vstd::prelude::*;
use crate::felt::{Felt, felt_from_hex, hex_felt_ok, hex_value};
use crate::num::{Int, parse_integer, int_radix_text};
use crate::text::{trim_0x, chars_of, trim_0x_prefix, string_from_chars, ends_with};
use crate::bot::models::{AggregateResult, AutoRenewAllowance, DomainAggregateResult, TaxPrice};
use crate::bot::pricing::{stark_suffix, domain_name};

verus! {

/// Where the bot gives up on a renewal plan with a panic.
#[derive(PartialEq, Eq, Structural, Clone, Copy, Debug)]
pub enum PlanError {
    /// The renewer address is not a field element.
    InvalidRenewerAddress,
    /// The approval value for the token is not a hex number.
    InvalidApprovalValue,
    /// The allowance is not a hex number.
    InvalidAllowance,
    /// The meta hash is not a field element.
    InvalidMetaHash,
    /// The meta hash is a field element but not a hex number.
    MetaHashNotHex,
    /// The domain name could not be encoded.
    DomainEncodingFailed,
    /// An auto-renewal contract has no token in the altcoin mapping.
    UnknownAutoRenewContract,
    /// The multicall answer holds fewer balances than renewers.
    MissingBalance,
    /// No balance could be fetched at all.
    NoBalances,
}

/// A hex amount as `hex_to_bigdecimal` reads it.
pub open spec fn hex_amount(s: Seq<char>) -> Option<int> {
    parse_integer(trim_0x(s), 16)
}

/// The approval value of the first allowance given for `erc20`.
pub open spec fn first_approval(vals: Seq<AutoRenewAllowance>, erc20: Seq<char>) -> Option<
    Seq<char>,
>
    decreases vals.len(),
{
    if vals.len() == 0 {
        None
    } else if vals[0].erc20_addr@ == erc20 {
        Some(vals[0].approval_value@)
    } else {
        first_approval(vals.subrange(1, vals.len() as int), erc20)
    }
}

pub open spec fn is_zero_text(s: Seq<char>) -> bool {
    s == seq!['0']
}

/// The first reason, in the order the checks run, why preparing the plan
/// fails; `None` when it does not.
pub open spec fn prepare_failure(r: DomainAggregateResult, erc20: Seq<char>) -> Option<PlanError> {
    let approval = first_approval(r.approval_values@, erc20);
    if !hex_felt_ok(r.renewer_address@) {
        Some(PlanError::InvalidRenewerAddress)
    } else if approval matches Some(v) && hex_amount(v) is None {
        Some(PlanError::InvalidApprovalValue)
    } else if hex_amount(r.allowance->0@) is None {
        Some(PlanError::InvalidAllowance)
    } else if r.meta_hash matches Some(h) && !hex_felt_ok(h@) {
        Some(PlanError::InvalidMetaHash)
    } else if r.meta_hash matches Some(h) && !is_zero_text(h@) && hex_amount(h@) is None {
        Some(PlanError::MetaHashNotHex)
    } else {
        None
    }
}

/// What a renewal plan reads before the tax state is looked up.
pub struct PreparedRenewal {
    pub renewer_addr: Felt,
    pub erc20_allowance: Int,
    pub allowance: Int,
    pub meta_hash: Felt,
    /// The meta hash in lower-case hex, by which the metadata is looked up;
    /// `None` when there is nothing to look up.
    pub metadata_key: Option<String>,
}

/// `hex_to_bigdecimal`: every leading "0x" removed, then a hex integer.
pub fn hex_to_bigdecimal(hex: &str) -> (r: Option<Int>)
    ensures
        r is Some <==> hex_amount(hex@) is Some,
        r matches Some(x) ==> x@ == hex_amount(hex@)->0,
{
    let cs = chars_of(hex);
    let t = trim_0x_prefix(&cs);
    let s = string_from_chars(&t);
    crate::num::parse_int_radix(s.as_str(), 16)
}

fn find_approval(vals: &Vec<AutoRenewAllowance>, erc20: &String) -> (r: Option<usize>)
    ensures
        r is None ==> first_approval(vals@, erc20@) is None,
        r matches Some(i) ==> i < vals@.len() && first_approval(vals@, erc20@) == Some(
            vals@[i as int].approval_value@,
        ),
{
    let mut i: usize = 0;
    assert(vals@.subrange(0, vals@.len() as int) =~= vals@);
    while i < vals.len()
        invariant
            i <= vals@.len(),
            first_approval(vals@, erc20@) == first_approval(
                vals@.subrange(i as int, vals@.len() as int),
                erc20@,
            ),
        decreases vals.len() - i,
    {
        proof {
            let t = vals@.subrange(i as int, vals@.len() as int);
            assert(t.subrange(1, t.len() as int) =~= vals@.subrange(i + 1, vals@.len() as int));
            assert(t[0] == vals@[i as int]);
        }
        if vals[i].erc20_addr == *erc20 {
            return Some(i);
        }
        i = i + 1;
    }
    None
}

fn is_zero_string(s: &String) -> (r: bool)
    ensures
        r == is_zero_text(s@),
{
    let cs = chars_of(s.as_str());
    let r = cs.len() == 1 && cs[0] == '0';
    assert(r ==> cs@ =~= seq!['0']);
    r
}

/// First half of `process_aggregate_result`: skips disabled renewals and
/// renewals without an allowance, then reads the renewer, the approval for
/// `erc20_addr`, the allowance and the meta hash.
pub fn prepare_renewal(result: &DomainAggregateResult, erc20_addr: &String) -> (r: Result<
    Option<PreparedRenewal>,
    PlanError,
>)
    ensures
        !result.enabled || result.allowance is None ==> r matches Ok(None),
        result.enabled && result.allowance is Some ==> {
            &&& r is Err <==> prepare_failure(*result, erc20_addr@) is Some
            &&& r matches Err(e) ==> prepare_failure(*result, erc20_addr@) == Some(e)
            &&& r matches Ok(p) ==> p is Some
        },
        r matches Ok(Some(p)) ==> {
            &&& p.renewer_addr.wf()
            &&& p.renewer_addr.value() == hex_value(trim_0x(result.renewer_address@))
            &&& p.erc20_allowance@ == match first_approval(result.approval_values@, erc20_addr@) {
                Some(v) => hex_amount(v)->0,
                None => 0,
            }
            &&& p.allowance@ == hex_amount(result.allowance->0@)->0
            &&& p.meta_hash.wf()
            &&& p.meta_hash.value() == match result.meta_hash {
                Some(h) => hex_value(trim_0x(h@)),
                None => 0,
            }
            &&& p.metadata_key is Some <==> (result.meta_hash matches Some(h) && !is_zero_text(h@))
            &&& p.metadata_key matches Some(k) ==> k@ == int_radix_text(
                hex_amount(result.meta_hash->0@)->0,
                16,
            )
        },
{
    if !result.enabled || result.allowance.is_none() {
        return Ok(None);
    }
    let renewer_addr = match felt_from_hex(result.renewer_address.as_str()) {
        Some(f) => f,
        None => return Err(PlanError::InvalidRenewerAddress),
    };
    let erc20_allowance = match find_approval(&result.approval_values, erc20_addr) {
        Some(i) => match hex_to_bigdecimal(result.approval_values[i].approval_value.as_str()) {
            Some(v) => v,
            None => return Err(PlanError::InvalidApprovalValue),
        },
        None => Int::from_u64(0),
    };
    let allowance = match &result.allowance {
        Some(a) => match hex_to_bigdecimal(a.as_str()) {
            Some(v) => v,
            None => return Err(PlanError::InvalidAllowance),
        },
        None => return Err(PlanError::InvalidAllowance),
    };
    let mut meta_hash = Felt::zero();
    let mut metadata_key: Option<String> = None;
    match &result.meta_hash {
        Some(hash) => {
            meta_hash = match felt_from_hex(hash.as_str()) {
                Some(f) => f,
                None => return Err(PlanError::InvalidMetaHash),
            };
            if !is_zero_string(hash) {
                let decimal_meta_hash = match hex_to_bigdecimal(hash.as_str()) {
                    Some(v) => v,
                    None => return Err(PlanError::MetaHashNotHex),
                };
                metadata_key = Some(decimal_meta_hash.to_str_radix(16));
            }
        },
        None => {},
    }
    Ok(
        Some(
            PreparedRenewal {
                renewer_addr,
                erc20_allowance,
                allowance,
                meta_hash,
                metadata_key,
            },
        ),
    )
}

/// The tax in hundredths: `price * rate` when the renewer's state has a rate.
pub open spec fn tax_hundredths(price: int, rate: Option<i32>) -> int {
    match rate {
        Some(t) => price * t,
        None => 0,
    }
}

/// Renewal price plus tax, in hundredths.
pub open spec fn final_price_hundredths(price: int, rate: Option<i32>) -> int {
    price * 100 + tax_hundredths(price, rate)
}

/// The renewal is affordable: the token approval and the allowance both
/// cover price plus tax, and the balance is not below it.
pub open spec fn affordable(
    erc20_allowance: int,
    allowance: int,
    balance: int,
    price: int,
    rate: Option<i32>,
) -> bool {
    let f = final_price_hundredths(price, rate);
    &&& erc20_allowance * 100 >= f
    &&& allowance * 100 >= f
    &&& balance * 100 >= f
}

/// "<name>" of "<name>.stark".
pub fn stark_name(domain: &str) -> (r: String)
    requires
        ends_with(domain@, stark_suffix()),
    ensures
        r@ == domain_name(domain@),
{
    let n = domain.unicode_len();
    let name = domain.substring_char(0, n - 6);
    crate::text::string_of(name)
}

/// Second half of `process_aggregate_result`: with the tax rate of the
/// renewer's state (`None` when there is none), the renewal is planned iff
/// it is affordable; it then carries the encoded domain, the renewer, the
/// price and the tax.
pub fn decide_renewal(
    result: &DomainAggregateResult,
    prepared: &PreparedRenewal,
    balance: &Int,
    renewal_price: &Int,
    tax_rate: Option<i32>,
    encoded_domain: Option<&Felt>,
) -> (r: Result<Option<AggregateResult>, PlanError>)
    ensures
        !affordable(
            prepared.erc20_allowance@,
            prepared.allowance@,
            balance@,
            renewal_price@,
            tax_rate,
        ) ==> r matches Ok(None),
        affordable(
            prepared.erc20_allowance@,
            prepared.allowance@,
            balance@,
            renewal_price@,
            tax_rate,
        ) ==> {
            &&& encoded_domain is None ==> r == Err::<Option<AggregateResult>, PlanError>(
                PlanError::DomainEncodingFailed,
            )
            &&& encoded_domain matches Some(e) ==> r matches Ok(Some(a)) && a.domain@ == e@
                && a.renewer_addr@ == prepared.renewer_addr@ && a.domain_price@
                == renewal_price@ && a.tax_price.hundredths@ == tax_hundredths(
                renewal_price@,
                tax_rate,
            ) && a.meta_hash@ == prepared.meta_hash@ && a.auto_renew_contract@
                == result.auto_renew_contract@
        },
        r matches Ok(Some(a)) ==> prepared.allowance@ * 100 >= a.domain_price@ * 100 + a.tax_price.hundredths@
            && prepared.erc20_allowance@ * 100 >= a.domain_price@ * 100 + a.tax_price.hundredths@ && balance@
            * 100 >= a.domain_price@ * 100 + a.tax_price.hundredths@,
{
    let tax = match tax_rate {
        Some(rate) => renewal_price.mul(&Int::from_i32(rate)),
        None => Int::from_u64(0),
    };
    let hundred = Int::from_u64(100);
    let final_price = renewal_price.mul(&hundred).add(&tax);
    if final_price.le(&prepared.erc20_allowance.mul(&hundred)) {
        if final_price.le(&prepared.allowance.mul(&hundred)) {
            if balance.mul(&hundred).lt(&final_price) {
                return Ok(None);
            }
            let domain = match encoded_domain {
                Some(e) => e.copy(),
                None => return Err(PlanError::DomainEncodingFailed),
            };
            Ok(
                Some(
                    AggregateResult {
                        domain,
                        renewer_addr: prepared.renewer_addr.copy(),
                        domain_price: renewal_price.copy(),
                        tax_price: TaxPrice { hundredths: tax },
                        meta_hash: prepared.meta_hash.copy(),
                        auto_renew_contract: result.auto_renew_contract.copy(),
                    },
                ),
            )
        } else {
            Ok(None)
        }
    } else {
        Ok(None)
    }
}

/// A renewal counts as affordable only when each of the token approval,
/// the renewal allowance and the balance, in hundredths, covers the price
/// in hundredths plus the tax (the price times the state's rate, or nothing
/// without a state), each on its own; and when all three do, it is.
pub proof fn lemma_affordable_covers(
    erc20_allowance: int,
    allowance: int,
    balance: int,
    price: int,
    rate: Option<i32>,
)
    ensures
        affordable(erc20_allowance, allowance, balance, price, rate) <==> ({
            let due = price * 100 + match rate {
                Some(t) => price * t,
                None => 0,
            };
            &&& erc20_allowance * 100 >= due
            &&& allowance * 100 >= due
            &&& balance * 100 >= due
        }),
{
}

/// The renewal allowance alone can refuse a renewal: whatever the token
/// approval and the balance, an allowance below the price plus tax is not
/// affordable.
pub proof fn lemma_low_allowance_refuses(
    erc20_allowance: int,
    allowance: int,
    balance: int,
    price: int,
    rate: Option<i32>,
)
    requires
        allowance * 100 < price * 100 + match rate {
            Some(t) => price * t,
            None => 0,
        },
    ensures
        !affordable(erc20_allowance, allowance, balance, price, rate),
{
}

} // verus!

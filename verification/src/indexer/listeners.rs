//! What each followed event changes in the database. Each listener turns
//! the event's data (and the decoded domain name, which the caller reads
//! with the Starknet ID decoder) into a plan of database writes.

use vstd::prelude::*;
use chrono::TimeZone;
use bigdecimal::num_bigint::BigUint;
use bigdecimal::num_traits::ToPrimitive;
use crate::felt::{Felt, felt_eq, felt_from_word, word_to_decimal};
use crate::text::{decimal_text, u64_to_decimal};

verus! {

/// Why a listener gives up on an event.
#[derive(PartialEq, Eq, Structural, Clone, Copy, Debug)]
pub enum ListenerError {
    /// The domain word is not a field element.
    DomainNotFieldElement,
    /// The expiry does not fit a u64.
    ExpiryNotU64,
    /// The expiry does not fit an i64.
    ExpiryNotI64,
    /// The expiry is not a representable UTC date.
    InvalidTimestamp,
    /// The toggle value does not fit an i64.
    ValueNotI64,
}

/// Whether chrono's `Utc.timestamp_opt(secs, 0)` gives a single date: the
/// date lies between -262143-01-01 00:00:00 and 262142-12-31 23:59:59, the
/// bounds of chrono's `NaiveDate`.
pub open spec fn utc_seconds_valid(secs: i64) -> bool {
    -8334601228800 <= secs <= 8210266876799
}

/// chrono's `Display` of the UTC date `secs` seconds after the epoch.
pub uninterp spec fn utc_datetime_text(secs: i64) -> Seq<char>;

/// `BigDecimal::new(value, 18).to_string()`.
pub uninterp spec fn scaled_18_text(value: nat) -> Seq<char>;

/// chrono `Utc.timestamp_opt(secs, 0).single()`, rendered with `to_string`
/// and read back with `timestamp_millis` (which counts milliseconds since
/// the epoch). It accepts the seconds of chrono's date range; the date's
/// text is named, not stated.
#[verifier::external_body]
fn utc_from_seconds(secs: i64) -> (r: Option<(String, i64)>)
    ensures
        r is Some <==> utc_seconds_valid(secs),
        r matches Some(p) ==> p.0@ == utc_datetime_text(secs) && p.1 == secs * 1000,
{
    match chrono::Utc.timestamp_opt(secs, 0).single() {
        Some(dt) => Some((dt.to_string(), dt.timestamp_millis())),
        None => None,
    }
}

/// `BigUint::to_u64` on a word.
#[verifier::external_body]
fn word_to_u64(w: &Felt) -> (r: Option<u64>)
    ensures
        r is Some <==> w.value() <= u64::MAX,
        r matches Some(x) ==> x as nat == w.value(),
{
    BigUint::from_bytes_be(&w.bytes).to_u64()
}

/// `BigDecimal::new(BigUint::from_bytes_be(word).into(), 18).to_string()`:
/// the word read with 18 decimals. The rendering is named, not stated.
#[verifier::external_body]
fn scaled_18_string(w: &Felt) -> (r: String)
    ensures
        r@ == scaled_18_text(w.value()),
{
    bigdecimal::BigDecimal::new(BigUint::from_bytes_be(&w.bytes).into(), 18).to_string()
}

/// The domain-length word says the domain is a single field element.
pub open spec fn single_felt(w: Felt) -> bool {
    w.value() == 1
}

/// The first element of an event's data is 1.
pub fn is_single_felt(w: &Felt) -> (r: bool)
    requires
        w.is_word(),
    ensures
        r == single_felt(*w),
{
    let one = Felt::one();
    let same = felt_eq(w, &one);
    proof {
        if w.value() == 1 {
            crate::felt::lemma_be_value_injective(w@, one@);
        }
    }
    same
}

/// The field element holding a domain, to be decoded; fails when the word
/// is not a field element.
pub fn domain_felt(w: &Felt) -> (r: Result<Felt, ListenerError>)
    requires
        w.is_word(),
    ensures
        r is Ok <==> w.value() < crate::felt::felt_prime(),
        r matches Ok(f) ==> f.wf() && f@ == w@,
        r matches Err(e) ==> e == ListenerError::DomainNotFieldElement,
{
    match felt_from_word(w) {
        Some(f) => Ok(f),
        None => Err(ListenerError::DomainNotFieldElement),
    }
}

pub open spec fn with_stark(name: Seq<char>) -> Seq<char> {
    name + seq!['.', 's', 't', 'a', 'r', 'k']
}

/// "<decoded name>.stark".
pub fn stark_domain(name: &str) -> (r: String)
    ensures
        r@ == with_stark(name@),
{
    let mut r = crate::text::string_of(name);
    crate::text::push_char(&mut r, '.');
    crate::text::push_char(&mut r, 's');
    crate::text::push_char(&mut r, 't');
    crate::text::push_char(&mut r, 'a');
    crate::text::push_char(&mut r, 'r');
    crate::text::push_char(&mut r, 'k');
    assert(r@ =~= with_stark(name@));
    r
}

/// Address-to-domain update: the domain's reverse record is first unset,
/// then set to the domain itself (its name is never empty).
pub struct AddrToDomainPlan {
    pub address: String,
    pub domain: String,
    pub set_rev_addr: bool,
}

pub fn addr_to_domain_plan(data: &Vec<Felt>, domain: String) -> (r: AddrToDomainPlan)
    requires
        data@.len() >= 1,
    ensures
        r.address@ == decimal_text(data@[0].value()),
        r.domain@ == domain@,
        r.set_rev_addr == (domain@.len() > 0),
{
    let address = word_to_decimal(&data[0]);
    let set_rev_addr = domain.unicode_len() > 0;
    AddrToDomainPlan { address, domain, set_rev_addr }
}

/// Domain-to-address update: the address is set on the document whose
/// reverse record is the domain, or (for an empty name) unset on the
/// domain's document.
pub struct DomainToAddrPlan {
    pub domain: String,
    pub address: String,
    pub set_by_rev_addr: bool,
}

pub fn domain_to_addr_plan(data: &Vec<Felt>, domain: String) -> (r: DomainToAddrPlan)
    requires
        data@.len() >= 3,
    ensures
        r.address@ == decimal_text(data@[2].value()),
        r.domain@ == domain@,
        r.set_by_rev_addr == (domain@.len() > 0),
{
    let address = word_to_decimal(&data[2]);
    let set_by_rev_addr = domain.unicode_len() > 0;
    DomainToAddrPlan { domain, address, set_by_rev_addr }
}

/// Starknet ID update: the domain's document gets the new expiry and owner;
/// then a renewal record is added if the domain existed, a purchase record
/// if not.
pub struct IdUpdatePlan {
    pub domain: String,
    pub owner: String,
    pub expiry: i64,
    /// chrono's rendering of the expiry date, stored on the domain.
    pub expiry_text: String,
    /// The expiry in milliseconds, stored on a purchase record.
    pub expiry_millis: i64,
    /// The expiry in seconds as text, stored on a renewal record.
    pub new_expiry_text: String,
}

pub fn starknet_id_update_plan(data: &Vec<Felt>, domain: String) -> (r: Result<
    IdUpdatePlan,
    ListenerError,
>)
    requires
        data@.len() >= 4,
    ensures
        data@[3].value() > u64::MAX ==> r == Err::<IdUpdatePlan, ListenerError>(ListenerError::ExpiryNotU64),
        data@[3].value() <= u64::MAX && data@[3].value() > i64::MAX ==> r == Err::<IdUpdatePlan, ListenerError>(
            ListenerError::ExpiryNotI64,
        ),
        data@[3].value() <= i64::MAX && !utc_seconds_valid(data@[3].value() as i64) ==> r == Err::<
            IdUpdatePlan,
            ListenerError,
        >(ListenerError::InvalidTimestamp),
        data@[3].value() <= i64::MAX && utc_seconds_valid(data@[3].value() as i64) ==> (r matches Ok(p)
            && p.domain@ == domain@ && p.owner@ == decimal_text(data@[2].value()) && p.expiry
            == data@[3].value() && p.expiry_text@ == utc_datetime_text(p.expiry) && p.expiry_millis
            == p.expiry * 1000 && p.new_expiry_text@ == decimal_text(data@[3].value())),
{
    let owner = word_to_decimal(&data[2]);
    let expiry_u64 = match word_to_u64(&data[3]) {
        Some(x) => x,
        None => return Err(ListenerError::ExpiryNotU64),
    };
    if expiry_u64 > 9223372036854775807u64 {
        return Err(ListenerError::ExpiryNotI64);
    }
    let expiry = expiry_u64 as i64;
    let (expiry_text, expiry_millis) = match utc_from_seconds(expiry) {
        Some(p) => p,
        None => return Err(ListenerError::InvalidTimestamp),
    };
    let new_expiry_text = u64_to_decimal(expiry_u64);
    Ok(IdUpdatePlan { domain, owner, expiry, expiry_text, expiry_millis, new_expiry_text })
}

/// The record added after a Starknet ID update.
#[derive(PartialEq, Eq, Structural, Clone, Copy, Debug)]
pub enum IdUpdateRecord {
    /// The domain existed: a renewal (previous expiry, new expiry, block date).
    Renewal,
    /// The domain is new: a purchase (expiry date, owner, block date).
    Purchase,
}

pub fn id_update_record(existing: bool) -> (r: IdUpdateRecord)
    ensures
        r == (if existing {
            IdUpdateRecord::Renewal
        } else {
            IdUpdateRecord::Purchase
        }),
{
    if existing {
        IdUpdateRecord::Renewal
    } else {
        IdUpdateRecord::Purchase
    }
}

/// Domain transfer: a domain with a previous owner changes owner; a domain
/// without one (owner 0) is inserted with the zero address and no expiry.
pub enum TransferPlan {
    ChangeOwner { domain: String, prev_owner: String, new_owner: String },
    Insert { domain: String, prev_owner: String },
}

pub fn domain_transfer_plan(data: &Vec<Felt>, domain: String) -> (r: TransferPlan)
    requires
        data@.len() >= 4,
    ensures
        data@[2].value() != 0 ==> (r matches TransferPlan::ChangeOwner { domain: d, prev_owner, new_owner }
            && d@ == domain@ && prev_owner@ == decimal_text(data@[2].value()) && new_owner@
            == decimal_text(data@[3].value())),
        data@[2].value() == 0 ==> (r matches TransferPlan::Insert { domain: d, prev_owner } && d@
            == domain@ && prev_owner@ == decimal_text(data@[2].value())),
{
    let prev_owner = word_to_decimal(&data[2]);
    let new_owner = word_to_decimal(&data[3]);
    let prev = data[2].to_nat();
    if prev.is_zero() {
        TransferPlan::Insert { domain, prev_owner }
    } else {
        TransferPlan::ChangeOwner { domain, prev_owner, new_owner }
    }
}

/// Auto-renewal toggle: the renewal of (domain, renewer) is enabled iff the
/// value is non-zero.
pub struct ToggledRenewalPlan {
    pub domain: String,
    pub renewer: String,
    pub enabled: bool,
}

pub fn toggled_renewal_plan(data: &Vec<Felt>, domain: String) -> (r: Result<
    ToggledRenewalPlan,
    ListenerError,
>)
    requires
        data@.len() >= 3,
    ensures
        data@[2].value() > i64::MAX ==> r == Err::<ToggledRenewalPlan, ListenerError>(
            ListenerError::ValueNotI64,
        ),
        data@[2].value() <= i64::MAX ==> (r matches Ok(p) && p.domain@ == domain@ && p.renewer@
            == decimal_text(data@[1].value()) && p.enabled == (data@[2].value() != 0)),
{
    let renewer = word_to_decimal(&data[1]);
    let value = match word_to_u64(&data[2]) {
        Some(x) => x,
        None => return Err(ListenerError::ValueNotI64),
    };
    if value > 9223372036854775807u64 {
        return Err(ListenerError::ValueNotI64);
    }
    Ok(ToggledRenewalPlan { domain, renewer, enabled: value != 0 })
}

/// Approval: when the spender is the renewal contract, the renewer's
/// allowance, read with 18 decimals, is recorded.
pub struct ApprovalPlan {
    pub renewer: String,
    pub allowance: String,
}

/// The spender is compared with the renewal contract through their hex
/// renderings, which are equal exactly when the words are.
pub fn approval_plan(data: &Vec<Felt>, renewal_contract: &Felt) -> (r: Option<ApprovalPlan>)
    requires
        data@.len() >= 3,
    ensures
        r is Some <==> data@[1]@ == renewal_contract@,
        r matches Some(p) ==> p.renewer@ == decimal_text(data@[0].value()) && p.allowance@
            == scaled_18_text(data@[2].value()),
{
    if !felt_eq(&data[1], renewal_contract) {
        return None;
    }
    let renewer = word_to_decimal(&data[0]);
    let allowance = scaled_18_string(&data[2]);
    Some(ApprovalPlan { renewer, allowance })
}

} // verus!

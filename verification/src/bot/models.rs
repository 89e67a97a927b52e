//! Records the bot reads from the database and the plans it builds.

use vstd::prelude::*;
use crate::felt::Felt;
use crate::num::Int;

verus! {

/// An ERC-20 approval given to the renewal contract.
pub struct Approval {
    pub renewer: String,
    pub value: String,
}

/// An auto-renewal flow as stored by the indexer.
pub struct AutoRenewals {
    pub domain: String,
    pub renewer_address: String,
    pub auto_renewal_enabled: bool,
}

/// The indexer's validity range of a document.
pub struct Cursor {
    pub to: Option<i64>,
    pub from: Option<i64>,
}

/// The allowance a renewer gave for one ERC-20 token.
pub struct AutoRenewAllowance {
    pub approval_value: String,
    pub erc20_addr: String,
}

/// One enabled auto-renewal whose domain expires soon, joined with its
/// approvals.
pub struct DomainAggregateResult {
    pub domain: String,
    pub expiry: Option<i32>,
    pub renewer_address: String,
    pub enabled: bool,
    pub allowance: Option<String>,
    pub last_renewal: Option<i64>,
    pub meta_hash: Option<String>,
    pub _cursor: Cursor,
    pub auto_renew_contract: Felt,
    pub approval_values: Vec<AutoRenewAllowance>,
}

/// The tax on a renewal, kept exactly as a number of hundredths of a token
/// unit: the tax price is `hundredths / 100`.
pub struct TaxPrice {
    pub hundredths: Int,
}

/// One renewal that passed every check.
pub struct AggregateResult {
    pub domain: Felt,
    pub renewer_addr: Felt,
    pub domain_price: Int,
    pub tax_price: TaxPrice,
    pub meta_hash: Felt,
    pub auto_renew_contract: Felt,
}

/// Renewals for one auto-renewal contract, as parallel vectors.
pub struct AggregateResults {
    pub domains: Vec<Felt>,
    pub renewers: Vec<Felt>,
    pub domain_prices: Vec<Int>,
    pub tax_prices: Vec<TaxPrice>,
    pub meta_hashes: Vec<Felt>,
    pub auto_renew_contracts: Vec<Felt>,
}

/// A user's metadata, of which the tax state is read.
pub struct MetadataDoc {
    pub meta_hash: String,
    pub email: String,
    pub tax_state: String,
    pub salt: String,
}

/// The Starknet ID server's answer to an altcoin quote request.
pub struct QuoteQueryResult {
    pub quote: String,
    pub max_quote_validity: u64,
}

/// A renewal transaction that was sent, and what its receipt said.
pub struct TxResult {
    pub tx_hash: Felt,
    pub reverted: Option<bool>,
    pub revert_reason: Option<String>,
    pub domains_renewed: usize,
}

impl AggregateResults {
    pub fn empty() -> (r: AggregateResults)
        ensures
            r.domains@.len() == 0,
            r.renewers@.len() == 0,
            r.domain_prices@.len() == 0,
            r.tax_prices@.len() == 0,
            r.meta_hashes@.len() == 0,
            r.auto_renew_contracts@.len() == 0,
    {
        AggregateResults {
            domains: Vec::new(),
            renewers: Vec::new(),
            domain_prices: Vec::new(),
            tax_prices: Vec::new(),
            meta_hashes: Vec::new(),
            auto_renew_contracts: Vec::new(),
        }
    }
}

} // verus!

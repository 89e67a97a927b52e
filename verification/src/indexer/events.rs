//! The events the indexer follows: their keys, the stream filter, and
//! which listener handles an event.

use vstd::prelude::*;
use crate::felt::{Felt, felt_eq, selector_from_name, starknet_keccak_name};

verus! {

pub open spec fn starknet_id_update_key_bytes() -> Seq<u8> {
    seq![0x00u8, 0x44u8, 0x0fu8, 0xc0u8, 0x89u8, 0x95u8, 0x6du8, 0x79u8, 0xd0u8, 0x58u8, 0xeau8, 0x92u8, 0xabu8, 0xe9u8, 0x9cu8, 0x71u8, 0x8au8, 0x6bu8, 0x14u8, 0x41u8, 0xe3u8, 0xaau8, 0xecu8, 0x13u8, 0x2cu8, 0xc3u8, 0x8au8, 0x01u8, 0xe9u8, 0xb8u8, 0x95u8, 0xcbu8]
}

/// Key of the Starknet ID update (purchase or renewal of a domain) event: 0x440fc089956d79d058ea92abe99c718a6b1441e3aaec132cc38a01e9b895cb.
pub fn starknet_id_update_key() -> (r: Felt)
    ensures
        r@ == starknet_id_update_key_bytes(),
{
    let r = Felt { bytes: vec![0x00, 0x44, 0x0f, 0xc0, 0x89, 0x95, 0x6d, 0x79, 0xd0, 0x58, 0xea, 0x92, 0xab, 0xe9, 0x9c, 0x71, 0x8a, 0x6b, 0x14, 0x41, 0xe3, 0xaa, 0xec, 0x13, 0x2c, 0xc3, 0x8a, 0x01, 0xe9, 0xb8, 0x95, 0xcb] };
    assert(r@ =~= starknet_id_update_key_bytes());
    r
}

pub open spec fn domain_to_address_update_key_bytes() -> Seq<u8> {
    seq![0x01u8, 0xb6u8, 0xd2u8, 0x6cu8, 0x8bu8, 0x54u8, 0x5fu8, 0x51u8, 0xffu8, 0x27u8, 0x31u8, 0xcau8, 0x42u8, 0xb8u8, 0x1au8, 0xa2u8, 0x26u8, 0x22u8, 0x16u8, 0x30u8, 0xabu8, 0xc9u8, 0x5fu8, 0xd9u8, 0xd1u8, 0xbcu8, 0xacu8, 0xbeu8, 0x75u8, 0xbcu8, 0xe7u8, 0xa1u8]
}

/// Key of the domain-to-address update event: 0x1b6d26c8b545f51ff2731ca42b81aa226221630abc95fd9d1bcacbe75bce7a1.
pub fn domain_to_address_update_key() -> (r: Felt)
    ensures
        r@ == domain_to_address_update_key_bytes(),
{
    let r = Felt { bytes: vec![0x01, 0xb6, 0xd2, 0x6c, 0x8b, 0x54, 0x5f, 0x51, 0xff, 0x27, 0x31, 0xca, 0x42, 0xb8, 0x1a, 0xa2, 0x26, 0x22, 0x16, 0x30, 0xab, 0xc9, 0x5f, 0xd9, 0xd1, 0xbc, 0xac, 0xbe, 0x75, 0xbc, 0xe7, 0xa1] };
    assert(r@ =~= domain_to_address_update_key_bytes());
    r
}

pub open spec fn address_to_domain_update_key_bytes() -> Seq<u8> {
    seq![0x02u8, 0x5du8, 0x4fu8, 0x50u8, 0xffu8, 0xa7u8, 0x59u8, 0x47u8, 0x6du8, 0xcbu8, 0x00u8, 0x3bu8, 0x1cu8, 0x94u8, 0xb6u8, 0xb1u8, 0x97u8, 0x63u8, 0x21u8, 0xccu8, 0xceu8, 0xaeu8, 0x5fu8, 0x22u8, 0x36u8, 0x96u8, 0x59u8, 0x8eu8, 0xd6u8, 0x26u8, 0xe9u8, 0xd3u8]
}

/// Key of the address-to-domain (reverse record) update event: 0x25d4f50ffa759476dcb003b1c94b6b1976321ccceae5f223696598ed626e9d3.
pub fn address_to_domain_update_key() -> (r: Felt)
    ensures
        r@ == address_to_domain_update_key_bytes(),
{
    let r = Felt { bytes: vec![0x02, 0x5d, 0x4f, 0x50, 0xff, 0xa7, 0x59, 0x47, 0x6d, 0xcb, 0x00, 0x3b, 0x1c, 0x94, 0xb6, 0xb1, 0x97, 0x63, 0x21, 0xcc, 0xce, 0xae, 0x5f, 0x22, 0x36, 0x96, 0x59, 0x8e, 0xd6, 0x26, 0xe9, 0xd3] };
    assert(r@ =~= address_to_domain_update_key_bytes());
    r
}

pub open spec fn domain_transfer_key_bytes() -> Seq<u8> {
    seq![0x00u8, 0x8au8, 0xbcu8, 0xf1u8, 0xbau8, 0xaeu8, 0x89u8, 0xeau8, 0x5du8, 0x4eu8, 0xa9u8, 0xbau8, 0xa0u8, 0x68u8, 0xabu8, 0xfdu8, 0xf4u8, 0x71u8, 0xebu8, 0x2bu8, 0x8eu8, 0xd9u8, 0x85u8, 0xf8u8, 0x85u8, 0x79u8, 0xb0u8, 0x12u8, 0x8du8, 0x4au8, 0x59u8, 0x7fu8]
}

/// Key of the domain transfer event: 0x8abcf1baae89ea5d4ea9baa068abfdf471eb2b8ed985f88579b0128d4a597f.
pub fn domain_transfer_key() -> (r: Felt)
    ensures
        r@ == domain_transfer_key_bytes(),
{
    let r = Felt { bytes: vec![0x00, 0x8a, 0xbc, 0xf1, 0xba, 0xae, 0x89, 0xea, 0x5d, 0x4e, 0xa9, 0xba, 0xa0, 0x68, 0xab, 0xfd, 0xf4, 0x71, 0xeb, 0x2b, 0x8e, 0xd9, 0x85, 0xf8, 0x85, 0x79, 0xb0, 0x12, 0x8d, 0x4a, 0x59, 0x7f] };
    assert(r@ =~= domain_transfer_key_bytes());
    r
}

pub open spec fn toggled_renewal_key_bytes() -> Seq<u8> {
    seq![0x00u8, 0xfdu8, 0x0eu8, 0x38u8, 0xe2u8, 0x3fu8, 0x58u8, 0xcbu8, 0x48u8, 0x45u8, 0x30u8, 0x57u8, 0x11u8, 0x69u8, 0x18u8, 0x33u8, 0xc5u8, 0x8bu8, 0xa2u8, 0x12u8, 0x26u8, 0xc8u8, 0x17u8, 0x1au8, 0x68u8, 0x39u8, 0xb3u8, 0x98u8, 0x94u8, 0x6eu8, 0xc4u8, 0xcfu8]
}

/// Key of the auto-renewal toggle event: 0xfd0e38e23f58cb4845305711691833c58ba21226c8171a6839b398946ec4cf.
pub fn toggled_renewal_key() -> (r: Felt)
    ensures
        r@ == toggled_renewal_key_bytes(),
{
    let r = Felt { bytes: vec![0x00, 0xfd, 0x0e, 0x38, 0xe2, 0x3f, 0x58, 0xcb, 0x48, 0x45, 0x30, 0x57, 0x11, 0x69, 0x18, 0x33, 0xc5, 0x8b, 0xa2, 0x12, 0x26, 0xc8, 0x17, 0x1a, 0x68, 0x39, 0xb3, 0x98, 0x94, 0x6e, 0xc4, 0xcf] };
    assert(r@ =~= toggled_renewal_key_bytes());
    r
}

pub open spec fn domain_renewed_key_bytes() -> Seq<u8> {
    seq![0x03u8, 0xdeu8, 0xdeu8, 0x05u8, 0xd9u8, 0x0cu8, 0xefu8, 0xb3u8, 0xdeu8, 0x02u8, 0xb2u8, 0xedu8, 0x61u8, 0x66u8, 0x2fu8, 0x01u8, 0xc6u8, 0x61u8, 0xb9u8, 0xf7u8, 0x9eu8, 0xd1u8, 0x34u8, 0x16u8, 0x7au8, 0x95u8, 0xc7u8, 0x18u8, 0xc7u8, 0x61u8, 0x76u8, 0xbdu8]
}

/// Key of the domain renewal by the renewal contract event: 0x3dede05d90cefb3de02b2ed61662f01c661b9f79ed134167a95c718c76176bd.
pub fn domain_renewed_key() -> (r: Felt)
    ensures
        r@ == domain_renewed_key_bytes(),
{
    let r = Felt { bytes: vec![0x03, 0xde, 0xde, 0x05, 0xd9, 0x0c, 0xef, 0xb3, 0xde, 0x02, 0xb2, 0xed, 0x61, 0x66, 0x2f, 0x01, 0xc6, 0x61, 0xb9, 0xf7, 0x9e, 0xd1, 0x34, 0x16, 0x7a, 0x95, 0xc7, 0x18, 0xc7, 0x61, 0x76, 0xbd] };
    assert(r@ =~= domain_renewed_key_bytes());
    r
}

pub open spec fn voted_key_bytes() -> Seq<u8> {
    seq![0x01u8, 0xa9u8, 0x9eu8, 0x22u8, 0x9cu8, 0x0cu8, 0x32u8, 0x76u8, 0x58u8, 0xe8u8, 0x9du8, 0x76u8, 0x62u8, 0x62u8, 0x71u8, 0x65u8, 0x60u8, 0x2au8, 0xf3u8, 0xcfu8, 0xa1u8, 0x20u8, 0x1bu8, 0x7cu8, 0xa2u8, 0xf1u8, 0x24u8, 0xb8u8, 0x13u8, 0x86u8, 0x63u8, 0x00u8]
}

/// Key of the price vote event: 0x1a99e229c0c327658e89d7662627165602af3cfa1201b7ca2f124b813866300.
pub fn voted_key() -> (r: Felt)
    ensures
        r@ == voted_key_bytes(),
{
    let r = Felt { bytes: vec![0x01, 0xa9, 0x9e, 0x22, 0x9c, 0x0c, 0x32, 0x76, 0x58, 0xe8, 0x9d, 0x76, 0x62, 0x62, 0x71, 0x65, 0x60, 0x2a, 0xf3, 0xcf, 0xa1, 0x20, 0x1b, 0x7c, 0xa2, 0xf1, 0x24, 0xb8, 0x13, 0x86, 0x63, 0x00] };
    assert(r@ =~= voted_key_bytes());
    r
}

pub open spec fn approval_name() -> Seq<char> {
    seq!['A', 'p', 'p', 'r', 'o', 'v', 'a', 'l']
}

/// Key of the ERC-20 `Approval` event: the Starknet keccak of its name.
pub fn approval_key() -> (r: Felt)
    ensures
        r.wf(),
        r.value() == starknet_keccak_name(approval_name()),
{
    let name = "Approval";
    proof {
        reveal_strlit("Approval");
        assert(name@ =~= approval_name());
    }
    selector_from_name(name).unwrap()
}

/// Which listener handles an event.
#[derive(PartialEq, Eq, Structural, Clone, Copy, Debug)]
pub enum EventKind {
    AddressToDomainUpdate,
    DomainToAddressUpdate,
    StarknetIdUpdate,
    DomainTransfer,
    ToggledRenewal,
    Approval,
    /// Any other key: the event is ignored.
    Other,
}

/// `process_block`'s dispatch on the first key of an event, in its order.
pub open spec fn event_kind_spec(key: Seq<u8>) -> EventKind {
    if key == address_to_domain_update_key_bytes() {
        EventKind::AddressToDomainUpdate
    } else if key == domain_to_address_update_key_bytes() {
        EventKind::DomainToAddressUpdate
    } else if key == starknet_id_update_key_bytes() {
        EventKind::StarknetIdUpdate
    } else if key == domain_transfer_key_bytes() {
        EventKind::DomainTransfer
    } else if key == toggled_renewal_key_bytes() {
        EventKind::ToggledRenewal
    } else if crate::num::be_value(key) == starknet_keccak_name(approval_name()) {
        EventKind::Approval
    } else {
        EventKind::Other
    }
}

/// The listener for an event with the given keys (the first key decides).
pub fn classify_event(keys: &Vec<Felt>) -> (r: EventKind)
    requires
        keys@.len() > 0,
        keys@[0].is_word(),
    ensures
        r == event_kind_spec(keys@[0]@),
{
    let key = &keys[0];
    let approval = approval_key();
    let r = if felt_eq(key, &address_to_domain_update_key()) {
        EventKind::AddressToDomainUpdate
    } else if felt_eq(key, &domain_to_address_update_key()) {
        EventKind::DomainToAddressUpdate
    } else if felt_eq(key, &starknet_id_update_key()) {
        EventKind::StarknetIdUpdate
    } else if felt_eq(key, &domain_transfer_key()) {
        EventKind::DomainTransfer
    } else if felt_eq(key, &toggled_renewal_key()) {
        EventKind::ToggledRenewal
    } else if felt_eq(key, &approval) {
        EventKind::Approval
    } else {
        EventKind::Other
    };
    proof {
        if key.value() == approval.value() {
            crate::felt::lemma_be_value_injective(key@, approval@);
        }
    }
    r
}

/// The event filter of `create_apibara_config`: (emitting contract, key)
/// pairs, four from the naming contract and three from the renewal contract.
pub fn event_filters(naming: &Felt, renewal: &Felt) -> (r: Vec<(Felt, Felt)>)
    ensures
        r@.len() == 7,
        r@[0].0@ == naming@ && r@[0].1@ == starknet_id_update_key_bytes(),
        r@[1].0@ == naming@ && r@[1].1@ == domain_to_address_update_key_bytes(),
        r@[2].0@ == naming@ && r@[2].1@ == address_to_domain_update_key_bytes(),
        r@[3].0@ == naming@ && r@[3].1@ == domain_transfer_key_bytes(),
        r@[4].0@ == renewal@ && r@[4].1@ == toggled_renewal_key_bytes(),
        r@[5].0@ == renewal@ && r@[5].1@ == domain_renewed_key_bytes(),
        r@[6].0@ == renewal@ && r@[6].1@ == voted_key_bytes(),
{
    let mut r: Vec<(Felt, Felt)> = Vec::new();
    r.push((naming.copy(), starknet_id_update_key()));
    r.push((naming.copy(), domain_to_address_update_key()));
    r.push((naming.copy(), address_to_domain_update_key()));
    r.push((naming.copy(), domain_transfer_key()));
    r.push((renewal.copy(), toggled_renewal_key()));
    r.push((renewal.copy(), domain_renewed_key()));
    r.push((renewal.copy(), voted_key()));
    r
}

/// The finality the indexer asks the stream for.
#[derive(PartialEq, Eq, Structural, Clone, Copy, Debug)]
pub enum Finality {
    Unknown,
    Pending,
    Accepted,
    Finalized,
}

/// The configured finality: "Pending", "Accepted", "Finalized" or
/// "Unknown"; any other text is refused.
pub fn parse_finality(text: &str) -> (r: Option<Finality>)
    ensures
        r == (if text@ == seq!['P', 'e', 'n', 'd', 'i', 'n', 'g'] {
            Some(Finality::Pending)
        } else if text@ == seq!['A', 'c', 'c', 'e', 'p', 't', 'e', 'd'] {
            Some(Finality::Accepted)
        } else if text@ == seq!['F', 'i', 'n', 'a', 'l', 'i', 'z', 'e', 'd'] {
            Some(Finality::Finalized)
        } else if text@ == seq!['U', 'n', 'k', 'n', 'o', 'w', 'n'] {
            Some(Finality::Unknown)
        } else {
            None
        }),
{
    let t = crate::text::chars_of(text);
    let pending: Vec<char> = vec!['P', 'e', 'n', 'd', 'i', 'n', 'g'];
    let accepted: Vec<char> = vec!['A', 'c', 'c', 'e', 'p', 't', 'e', 'd'];
    let finalized: Vec<char> = vec!['F', 'i', 'n', 'a', 'l', 'i', 'z', 'e', 'd'];
    let unknown: Vec<char> = vec!['U', 'n', 'k', 'n', 'o', 'w', 'n'];
    if chars_equal(&t, &pending) {
        Some(Finality::Pending)
    } else if chars_equal(&t, &accepted) {
        Some(Finality::Accepted)
    } else if chars_equal(&t, &finalized) {
        Some(Finality::Finalized)
    } else if chars_equal(&t, &unknown) {
        Some(Finality::Unknown)
    } else {
        None
    }
}

fn chars_equal(a: &Vec<char>, b: &Vec<char>) -> (r: bool)
    ensures
        r == (a@ == b@),
{
    if a.len() != b.len() {
        return false;
    }
    let mut i: usize = 0;
    while i < a.len()
        invariant
            a@.len() == b@.len(),
            i <= a@.len(),
            forall|j: int| 0 <= j < i ==> a@[j] == b@[j],
        decreases a.len() - i,
    {
        if a[i] != b[i] {
            return false;
        }
        i = i + 1;
    }
    assert(a@ =~= b@);
    true
}

} // verus!

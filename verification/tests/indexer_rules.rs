use autorenewal::felt::{felt_from_hex, felt_to_decimal, to_hex, Felt};
use autorenewal::indexer::events::{
    address_to_domain_update_key, approval_key, classify_event, domain_renewed_key, domain_to_address_update_key,
    domain_transfer_key, event_filters, parse_finality, starknet_id_update_key, toggled_renewal_key, voted_key,
    EventKind, Finality,
};
use autorenewal::indexer::listeners::{
    addr_to_domain_plan, approval_plan, domain_felt, domain_to_addr_plan, domain_transfer_plan, id_update_record,
    is_single_felt, stark_domain, starknet_id_update_plan, toggled_renewal_plan, IdUpdateRecord, ListenerError,
    TransferPlan,
};
use autorenewal::indexer::models::Approval;
use autorenewal::indexer::stream::{chain_key, invalidation_plan, readiness_reply, ProcessingError, StreamCursor, StreamState};

fn word(s: &str) -> Felt {
    felt_from_hex(s).unwrap()
}

fn raw_word(byte0: u8) -> Felt {
    let mut bytes = vec![0xffu8; 32];
    bytes[0] = byte0;
    Felt { bytes }
}

fn cursor(k: u64) -> StreamCursor {
    StreamCursor { order_key: k, unique_key: vec![1, 2, 3] }
}

#[test]
fn event_keys_match_their_hex() {
    assert_eq!(to_hex(&starknet_id_update_key()), "0x00440fc089956d79d058ea92abe99c718a6b1441e3aaec132cc38a01e9b895cb");
    assert_eq!(to_hex(&domain_to_address_update_key()), "0x01b6d26c8b545f51ff2731ca42b81aa226221630abc95fd9d1bcacbe75bce7a1");
    assert_eq!(to_hex(&address_to_domain_update_key()), "0x025d4f50ffa759476dcb003b1c94b6b1976321ccceae5f223696598ed626e9d3");
    assert_eq!(to_hex(&domain_transfer_key()), "0x008abcf1baae89ea5d4ea9baa068abfdf471eb2b8ed985f88579b0128d4a597f");
    assert_eq!(to_hex(&toggled_renewal_key()), "0x00fd0e38e23f58cb4845305711691833c58ba21226c8171a6839b398946ec4cf");
    assert_eq!(to_hex(&domain_renewed_key()), "0x03dede05d90cefb3de02b2ed61662f01c661b9f79ed134167a95c718c76176bd");
    assert_eq!(to_hex(&voted_key()), "0x01a99e229c0c327658e89d7662627165602af3cfa1201b7ca2f124b813866300");
}

#[test]
fn events_are_dispatched_by_first_key() {
    assert_eq!(classify_event(&vec![address_to_domain_update_key()]), EventKind::AddressToDomainUpdate);
    assert_eq!(classify_event(&vec![domain_to_address_update_key(), word("0x1")]), EventKind::DomainToAddressUpdate);
    assert_eq!(classify_event(&vec![starknet_id_update_key()]), EventKind::StarknetIdUpdate);
    assert_eq!(classify_event(&vec![domain_transfer_key()]), EventKind::DomainTransfer);
    assert_eq!(classify_event(&vec![toggled_renewal_key()]), EventKind::ToggledRenewal);
    assert_eq!(classify_event(&vec![approval_key()]), EventKind::Approval);
    assert_eq!(classify_event(&vec![domain_renewed_key()]), EventKind::Other);
    assert_eq!(classify_event(&vec![word("0x1"), starknet_id_update_key()]), EventKind::Other);
}

#[test]
fn approval_key_is_the_selector_of_its_name() {
    assert_eq!(to_hex(&approval_key()), "0x0134692b230b9e1ffa39098904722134159652b09c5bc41d88d6698779d228ff");
}

#[test]
fn stream_filter_lists_seven_events() {
    let naming = word("0x6ac");
    let renewal = word("0x7bd");
    let f = event_filters(&naming, &renewal);
    assert_eq!(f.len(), 7);
    assert_eq!(f[0].0.bytes, naming.bytes);
    assert_eq!(f[0].1.bytes, starknet_id_update_key().bytes);
    assert_eq!(f[3].1.bytes, domain_transfer_key().bytes);
    assert_eq!(f[4].0.bytes, renewal.bytes);
    assert_eq!(f[6].1.bytes, voted_key().bytes);
}

#[test]
fn finality_names() {
    assert_eq!(parse_finality("Pending"), Some(Finality::Pending));
    assert_eq!(parse_finality("Accepted"), Some(Finality::Accepted));
    assert_eq!(parse_finality("Finalized"), Some(Finality::Finalized));
    assert_eq!(parse_finality("Unknown"), Some(Finality::Unknown));
    assert_eq!(parse_finality("pending"), None);
    assert_eq!(parse_finality(""), None);
}

#[test]
fn domain_words() {
    assert!(is_single_felt(&word("0x1")));
    assert!(!is_single_felt(&word("0x2")));
    assert!(domain_felt(&word("0x1234")).is_ok());
    assert_eq!(domain_felt(&raw_word(0xff)).err(), Some(ListenerError::DomainNotFieldElement));
    assert_eq!(stark_domain("ben"), "ben.stark");
}

#[test]
fn reverse_and_forward_records() {
    let data = vec![word("0xff"), word("0x1"), word("0x1234")];
    let p = addr_to_domain_plan(&data, "ben.stark".to_string());
    assert_eq!(p.address, "255");
    assert_eq!(p.domain, "ben.stark");
    assert!(p.set_rev_addr);
    let d = vec![word("0x1"), word("0x1234"), word("0x10")];
    let q = domain_to_addr_plan(&d, "ben.stark".to_string());
    assert_eq!(q.address, "16");
    assert!(q.set_by_rev_addr);
}

#[test]
fn starknet_id_updates() {
    let d = vec![word("0x1"), word("0x1234"), word("0x7"), word("0x65920080")];
    let p = starknet_id_update_plan(&d, "ben.stark".to_string()).unwrap();
    assert_eq!(p.owner, "7");
    assert_eq!(p.expiry, 1704067200);
    assert_eq!(p.expiry_text, "2024-01-01 00:00:00 UTC");
    assert_eq!(p.expiry_millis, 1704067200000);
    assert_eq!(p.new_expiry_text, "1704067200");
    let big = vec![word("0x1"), word("0x1"), word("0x7"), word("0x10000000000000000")];
    assert_eq!(starknet_id_update_plan(&big, "x.stark".to_string()).err(), Some(ListenerError::ExpiryNotU64));
    let over = vec![word("0x1"), word("0x1"), word("0x7"), word("0x8000000000000000")];
    assert_eq!(starknet_id_update_plan(&over, "x.stark".to_string()).err(), Some(ListenerError::ExpiryNotI64));
    let far = vec![word("0x1"), word("0x1"), word("0x7"), word("0x7fffffffffffffff")];
    assert_eq!(starknet_id_update_plan(&far, "x.stark".to_string()).err(), Some(ListenerError::InvalidTimestamp));
    let last = vec![word("0x1"), word("0x1"), word("0x7"), word("0x7779a0a6b7f")];
    let p = starknet_id_update_plan(&last, "x.stark".to_string()).unwrap();
    assert_eq!(p.expiry_text, "+262142-12-31 23:59:59 UTC");
    let past = vec![word("0x1"), word("0x1"), word("0x7"), word("0x7779a0a6b80")];
    assert_eq!(starknet_id_update_plan(&past, "x.stark".to_string()).err(), Some(ListenerError::InvalidTimestamp));
    assert_eq!(id_update_record(true), IdUpdateRecord::Renewal);
    assert_eq!(id_update_record(false), IdUpdateRecord::Purchase);
}

#[test]
fn transfers() {
    let d = vec![word("0x1"), word("0x1234"), word("0x5"), word("0x6")];
    match domain_transfer_plan(&d, "ben.stark".to_string()) {
        TransferPlan::ChangeOwner { domain, prev_owner, new_owner } => {
            assert_eq!(domain, "ben.stark");
            assert_eq!(prev_owner, "5");
            assert_eq!(new_owner, "6");
        }
        _ => panic!("expected an owner change"),
    }
    let d0 = vec![word("0x1"), word("0x1234"), word("0x0"), word("0x6")];
    match domain_transfer_plan(&d0, "ben.stark".to_string()) {
        TransferPlan::Insert { prev_owner, .. } => assert_eq!(prev_owner, "0"),
        _ => panic!("expected an insert"),
    }
}

#[test]
fn renewal_toggles() {
    let on = toggled_renewal_plan(&vec![word("0x1234"), word("0x9"), word("0x1")], "ben.stark".to_string()).unwrap();
    assert!(on.enabled);
    assert_eq!(on.renewer, "9");
    let off = toggled_renewal_plan(&vec![word("0x1234"), word("0x9"), word("0x0")], "ben.stark".to_string()).unwrap();
    assert!(!off.enabled);
    let bad = toggled_renewal_plan(&vec![word("0x1234"), word("0x9"), word("0x8000000000000000")], "b.stark".to_string());
    assert_eq!(bad.err(), Some(ListenerError::ValueNotI64));
}

#[test]
fn approvals_to_the_renewal_contract() {
    let renewal = word("0x7bd");
    let d = vec![word("0x42"), word("0x7bd"), word("0xde0b6b3a7640000")];
    let p = approval_plan(&d, &renewal).unwrap();
    assert_eq!(p.renewer, "66");
    assert_eq!(p.allowance, "1.000000000000000000");
    let rec = Approval::from_plan(&p);
    assert_eq!(rec.renewer, "66");
    assert!(approval_plan(&vec![word("0x42"), word("0x7be"), word("0x1")], &renewal).is_none());
}

#[test]
fn pending_data_is_rolled_back_when_accepted() {
    let mut s = StreamState::new();
    let p = s.on_data(false, &cursor(10), &cursor(12), Finality::Pending);
    assert!(p.invalidate_first);
    assert_eq!(p.order_key, 10);
    assert_eq!(p.published_order_key, "12");
    assert!(s.pending_received);
    let a = s.on_data(false, &cursor(10), &cursor(12), Finality::Accepted);
    assert!(a.invalidate_first);
    assert!(!s.pending_received);
    let b = s.on_data(false, &cursor(12), &cursor(13), Finality::Accepted);
    assert!(!b.invalidate_first);
    let dev = s.on_data(true, &cursor(13), &cursor(14), Finality::Pending);
    assert!(!dev.invalidate_first);
    assert!(!s.pending_received);
}

#[test]
fn stream_error_carries_the_last_processed_cursor() {
    let mut s = StreamState::new();
    match s.on_stream_error() {
        ProcessingError::CursorError(c) => assert!(c.is_none()),
    }
    s.block_done(&cursor(21));
    match s.on_stream_error() {
        ProcessingError::CursorError(c) => assert_eq!(c.unwrap().order_key, 21),
    }
}

#[test]
fn invalidation_skips_private_collections() {
    let names = vec!["domains".to_string(), "_meta".to_string(), "auto_renewals".to_string(), "".to_string()];
    let plan = invalidation_plan(&cursor(u64::MAX), &names);
    assert_eq!(plan.collections, vec!["domains".to_string(), "auto_renewals".to_string(), "".to_string()]);
    assert_eq!(plan.cursor_key, -1);
    assert_eq!(chain_key(7), 7);
}

#[test]
fn readiness_endpoint_text() {
    assert_eq!(readiness_reply(&Some("123".to_string())), "123");
    assert_eq!(readiness_reply(&None), "Service is running, but no state available yet");
}

#[test]
fn decimal_of_a_word() {
    assert_eq!(felt_to_decimal(&word("0x10")), "16");
}

#[test]
fn a_failed_block_is_handed_back_and_keeps_the_cursor() {
    let mut s = StreamState::new();
    assert_eq!(s.block_result(&cursor(5), Ok::<(), String>(())), Ok(()));
    assert_eq!(s.block_result(&cursor(9), Err::<(), String>("bad timestamp".to_string())), Err("bad timestamp".to_string()));
    match s.on_stream_error() {
        ProcessingError::CursorError(c) => assert_eq!(c.unwrap().order_key, 5),
    }
}

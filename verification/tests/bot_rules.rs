use autorenewal::bot::calls::{append_batch_balances, balance_batches, balances_call, balances_calldata, renewal_call, renewal_calldata};
use autorenewal::bot::eligibility::{decide_renewal, hex_to_bigdecimal, prepare_renewal, stark_name, PlanError};
use autorenewal::bot::models::{AggregateResult, AggregateResults, AutoRenewAllowance, Cursor, DomainAggregateResult, TaxPrice, QuoteQueryResult};
use autorenewal::bot::planner::{group_by_contract, needs_quote, start_plan, PlanStart, RenewalPlanner};
use autorenewal::bot::pricing::{get_renewal_price_eth, is_stark_domain, parse_quote, renewal_price};
use autorenewal::bot::run::{send_failure_action, ReceiptStatus, RenewalRun, SendFailure};
use autorenewal::bot::status::{
    block_caught_up, indexer_last_block, indexers_ready, probe_verdict, retry_after_failure, BlockStatus, ProbeOutcome,
    ProbeVerdict, StatusReplyError,
};
use autorenewal::felt::{felt_from_hex, felt_to_decimal, from_uint256, to_hex, to_uint256, Felt};
use autorenewal::num::Int;

fn felt(s: &str) -> Felt {
    felt_from_hex(s).unwrap()
}

fn amount(s: &str) -> Int {
    parse_quote(s).unwrap()
}

fn dec(x: &Int) -> String {
    x.to_str_radix(10)
}

fn item(domain: &str, renewer: &str, allowance: Option<&str>, approvals: Vec<(&str, &str)>, meta_hash: Option<&str>, contract: &str) -> DomainAggregateResult {
    DomainAggregateResult {
        domain: domain.to_string(),
        expiry: Some(1700000000),
        renewer_address: renewer.to_string(),
        enabled: true,
        allowance: allowance.map(|a| a.to_string()),
        last_renewal: None,
        meta_hash: meta_hash.map(|m| m.to_string()),
        _cursor: Cursor { to: None, from: Some(10) },
        auto_renew_contract: felt(contract),
        approval_values: approvals
            .into_iter()
            .map(|(v, e)| AutoRenewAllowance { approval_value: v.to_string(), erc20_addr: e.to_string() })
            .collect(),
    }
}

#[test]
fn renewal_price_by_name_length() {
    assert_eq!(dec(&get_renewal_price_eth("a.stark")), "390000000000000180");
    assert_eq!(dec(&get_renewal_price_eth("ab.stark")), "240000000000000195");
    assert_eq!(dec(&get_renewal_price_eth("abc.stark")), "150000000000000350");
    assert_eq!(dec(&get_renewal_price_eth("abcd.stark")), "84999999999999955");
    assert_eq!(dec(&get_renewal_price_eth("abcde.stark")), "8999999999999875");
    assert_eq!(dec(&get_renewal_price_eth(".stark")), "8999999999999875");
}

#[test]
fn renewal_price_counts_bytes_not_characters() {
    // "é" is two bytes in UTF-8.
    assert_eq!(dec(&get_renewal_price_eth("\u{e9}.stark")), "240000000000000195");
}

#[test]
fn stark_suffix_is_required() {
    assert!(is_stark_domain("hello.stark"));
    assert!(!is_stark_domain("hello.eth"));
    assert!(!is_stark_domain("stark"));
    assert_eq!(stark_name("hello.stark"), "hello");
}

#[test]
fn altcoin_price_uses_quote_and_truncates() {
    let eth = amount("1000000000000000000");
    let quote = amount("2500000000000000000000");
    assert_eq!(dec(&renewal_price(&eth, Some(&quote))), "2500000000000000000000");
    let small = amount("3");
    let q = amount("5");
    // 5 * 3 / 10^18 truncates to 0
    assert_eq!(dec(&renewal_price(&small, Some(&q))), "0");
    let neg = amount("-7000000000000000000");
    assert_eq!(dec(&renewal_price(&amount("1"), Some(&neg))), "-7");
    assert_eq!(dec(&renewal_price(&eth, None)), "1000000000000000000");
}

#[test]
fn quote_parsing() {
    let q = QuoteQueryResult { quote: "123".to_string(), max_quote_validity: 60 };
    assert_eq!(dec(&parse_quote(&q.quote).unwrap()), "123");
    assert!(parse_quote("12a").is_none());
    assert!(parse_quote("").is_none());
    assert_eq!(dec(&parse_quote("+1_000").unwrap()), "1000");
    assert!(parse_quote("_1").is_none());
    assert!(parse_quote("-+1").is_none());
}

#[test]
fn hex_amounts() {
    assert_eq!(dec(&hex_to_bigdecimal("0xff").unwrap()), "255");
    assert_eq!(dec(&hex_to_bigdecimal("0x0xff").unwrap()), "255");
    assert_eq!(dec(&hex_to_bigdecimal("FF").unwrap()), "255");
    assert_eq!(dec(&hex_to_bigdecimal("-ff").unwrap()), "-255");
    assert!(hex_to_bigdecimal("0x").is_none());
    assert!(hex_to_bigdecimal("0xzz").is_none());
}

#[test]
fn felt_hex_and_decimal() {
    let f = felt("0x0x1f");
    assert_eq!(felt_to_decimal(&f), "31");
    assert_eq!(to_hex(&f), format!("0x{}1f", "0".repeat(62)));
    assert!(felt_from_hex("0x800000000000011000000000000000000000000000000000000000000000001").is_none());
    assert!(felt_from_hex("0x800000000000011000000000000000000000000000000000000000000000000").is_some());
    assert!(felt_from_hex("0xg").is_none());
    assert_eq!(felt_to_decimal(&felt("")), "0");
}

#[test]
fn hex_roundtrip_of_an_element() {
    let f = felt("0x1234abcdef");
    let back = felt_from_hex(&to_hex(&f)).unwrap();
    assert_eq!(back.bytes, f.bytes);
}

#[test]
fn uint256_split_and_join() {
    let n = amount("340282366920938463463374607431768211461"); // 2^128 + 5
    let (low, high) = to_uint256(&n);
    assert_eq!(felt_to_decimal(&low), "5");
    assert_eq!(felt_to_decimal(&high), "1");
    assert_eq!(dec(&from_uint256(&low, &high)), "340282366920938463463374607431768211461");
    let (l2, h2) = to_uint256(&amount("-12"));
    assert_eq!(felt_to_decimal(&l2), "12");
    assert_eq!(felt_to_decimal(&h2), "0");
}

#[test]
fn disabled_or_unapproved_renewals_are_skipped() {
    let mut it = item("abcde.stark", "0x1", Some("0x0"), vec![], None, "0x99");
    it.enabled = false;
    assert!(matches!(prepare_renewal(&it, &"0xe".to_string()), Ok(None)));
    let it2 = item("abcde.stark", "0x1", None, vec![], None, "0x99");
    assert!(matches!(prepare_renewal(&it2, &"0xe".to_string()), Ok(None)));
}

#[test]
fn preparation_errors_in_order() {
    let it = item("abcde.stark", "0xzz", Some("zz"), vec![], None, "0x99");
    assert_eq!(prepare_renewal(&it, &"0xe".to_string()).err(), Some(PlanError::InvalidRenewerAddress));
    let it = item("abcde.stark", "0x1", Some("0x10"), vec![("nothex", "0xe")], None, "0x99");
    assert_eq!(prepare_renewal(&it, &"0xe".to_string()).err(), Some(PlanError::InvalidApprovalValue));
    let it = item("abcde.stark", "0x1", Some("nothex"), vec![], None, "0x99");
    assert_eq!(prepare_renewal(&it, &"0xe".to_string()).err(), Some(PlanError::InvalidAllowance));
    let it = item("abcde.stark", "0x1", Some("0x10"), vec![], Some("xyz"), "0x99");
    assert_eq!(prepare_renewal(&it, &"0xe".to_string()).err(), Some(PlanError::InvalidMetaHash));
    let it = item("abcde.stark", "0x1", Some("0x10"), vec![], Some("0x"), "0x99");
    assert_eq!(prepare_renewal(&it, &"0xe".to_string()).err(), Some(PlanError::MetaHashNotHex));
}

#[test]
fn metadata_key_is_lowercase_hex_without_prefix() {
    let it = item("abcde.stark", "0x1", Some("0x10"), vec![("0x20", "0xe")], Some("0x00AB"), "0x99");
    let p = prepare_renewal(&it, &"0xe".to_string()).unwrap().unwrap();
    assert_eq!(p.metadata_key.as_deref(), Some("ab"));
    assert_eq!(dec(&p.erc20_allowance), "32");
    assert_eq!(dec(&p.allowance), "16");
    let it0 = item("abcde.stark", "0x1", Some("0x10"), vec![], Some("0"), "0x99");
    let p0 = prepare_renewal(&it0, &"0xe".to_string()).unwrap().unwrap();
    assert!(p0.metadata_key.is_none());
    assert_eq!(dec(&p0.erc20_allowance), "0");
}

#[test]
fn renewal_is_planned_only_when_affordable() {
    let it = item("abcde.stark", "0x1", Some("0x100"), vec![("0x100", "0xe")], None, "0x99");
    let p = prepare_renewal(&it, &"0xe".to_string()).unwrap().unwrap();
    let price = amount("200");
    let encoded = felt("0x777");
    // tax 10%: final 220 <= 256 allowances, balance 220 is enough
    let r = decide_renewal(&it, &p, &amount("220"), &price, Some(10), Some(&encoded)).unwrap().unwrap();
    assert_eq!(dec(&r.domain_price), "200");
    assert_eq!(dec(&r.tax_price.hundredths), "2000");
    assert_eq!(r.domain.bytes, encoded.bytes);
    // balance 219 is short
    assert!(decide_renewal(&it, &p, &amount("219"), &price, Some(10), Some(&encoded)).unwrap().is_none());
    // tax 29%: final 258 > 256 allowance
    assert!(decide_renewal(&it, &p, &amount("1000"), &price, Some(29), Some(&encoded)).unwrap().is_none());
    // fractional tax: 200 * 7 / 100 = 14; 201 * 7 / 100 = 14.07
    assert!(decide_renewal(&it, &p, &amount("215"), &amount("201"), Some(7), Some(&encoded)).unwrap().is_none());
    assert!(decide_renewal(&it, &p, &amount("216"), &amount("201"), Some(7), Some(&encoded)).unwrap().is_some());
    // encoding failure only matters once the renewal is affordable
    assert_eq!(decide_renewal(&it, &p, &amount("220"), &price, None, None).err(), Some(PlanError::DomainEncodingFailed));
    assert!(decide_renewal(&it, &p, &amount("1"), &price, None, None).unwrap().is_none());
}

fn result(domain: &str, contract: &str, price: &str) -> AggregateResult {
    AggregateResult {
        domain: felt(domain),
        renewer_addr: felt("0x1"),
        domain_price: amount(price),
        tax_price: TaxPrice { hundredths: amount("0") },
        meta_hash: felt("0x0"),
        auto_renew_contract: felt(contract),
    }
}

#[test]
fn planned_renewals_are_grouped_by_contract() {
    let outs = vec![
        Some(result("0xa", "0x99", "1")),
        None,
        Some(result("0xb", "0x98", "2")),
        Some(result("0xc", "0x99", "3")),
        None,
    ];
    let (groups, none_count) = group_by_contract(&outs);
    assert_eq!(none_count, 2);
    assert_eq!(groups.len(), 2);
    assert_eq!(felt_to_decimal(&groups[0].0), "153");
    assert_eq!(groups[0].1.domains.len(), 2);
    assert_eq!(felt_to_decimal(&groups[0].1.domains[1]), "12");
    assert_eq!(dec(&groups[0].1.domain_prices[1]), "3");
    assert_eq!(groups[1].1.domains.len(), 1);
    assert!(groups[0].1.auto_renew_contracts.is_empty());
}

#[test]
fn nothing_due_gives_one_empty_eth_group() {
    let eth = felt("0xe");
    match start_plan(vec![], vec![], &vec![], &eth).unwrap() {
        PlanStart::NothingDue(g) => {
            assert_eq!(g.len(), 1);
            assert_eq!(g[0].0.bytes, eth.bytes);
            assert!(g[0].1.domains.is_empty());
        }
        _ => panic!("expected nothing due"),
    }
}

#[test]
fn due_renewals_are_paired_with_their_token() {
    let eth = felt("0xe");
    let mapping = vec![(felt("0x99"), felt("0xe")), (felt("0x98"), felt("0xabc"))];
    let a = item("a.stark", "0x1", Some("0x1"), vec![], None, "0x99");
    let b = item("b.stark", "0x2", Some("0x1"), vec![], None, "0x98");
    match start_plan(vec![a], vec![b], &mapping, &eth).unwrap() {
        PlanStart::Due { items, pairs } => {
            assert_eq!(items.len(), 2);
            assert_eq!(pairs[0].0, "0x1");
            assert_eq!(pairs[1].1, format!("0x{}abc", "0".repeat(61)));
            assert!(!needs_quote(&pairs[0].1, &eth));
            assert!(needs_quote(&pairs[1].1, &eth));
        }
        _ => panic!("expected due renewals"),
    }
    let c = item("c.stark", "0x3", Some("0x1"), vec![], None, "0x97");
    assert_eq!(start_plan(vec![c], vec![], &mapping, &eth).err(), Some(PlanError::UnknownAutoRenewContract));
}

#[test]
fn balances_are_read_from_the_multicall_answer() {
    let items = vec![
        item("a.stark", "0x1", Some("0x1"), vec![], None, "0x99"),
        item("b.stark", "0x2", Some("0x1"), vec![], None, "0x99"),
    ];
    let pairs = vec![("0x1".to_string(), "0xe".to_string()), ("0x2".to_string(), "0xe".to_string())];
    let answer = vec![felt("0x2"), felt("0x5"), felt("0x0"), felt("0x2"), felt("0x7"), felt("0x1")];
    let mut planner = RenewalPlanner::new(items, pairs, &answer).unwrap();
    assert_eq!(dec(&planner.balance_of(0)), "5");
    assert_eq!(dec(&planner.balance_of(1)), "340282366920938463463374607431768211463");
    // a planned renewal records the lowered balance under (token, renewer)
    planner.record(&amount("3"), Some(result("0xa", "0x99", "3")));
    assert_eq!(dec(&planner.balance_of(0)), "5");
    assert_eq!(dec(&planner.balances.get(&"0xe".to_string(), &"0x1".to_string()).unwrap()), "2");
    planner.record(&amount("3"), None);
    let (groups, none_count) = planner.finish();
    assert_eq!(groups.len(), 1);
    assert_eq!(none_count, 1);

    let short = vec![felt("0x2"), felt("0x5")];
    let items = vec![item("a.stark", "0x1", Some("0x1"), vec![], None, "0x99")];
    let pairs = vec![("0x1".to_string(), "0xe".to_string())];
    assert_eq!(RenewalPlanner::new(items, pairs, &short).err(), Some(PlanError::MissingBalance));
}

#[test]
fn balance_requests_are_batched_by_2500() {
    let pairs: Vec<(String, String)> = (0..2501).map(|i| (format!("0x{:x}", i + 1), "0xe".to_string())).collect();
    let batches = balance_batches(&pairs);
    assert_eq!(batches.len(), 2);
    assert_eq!(batches[0].len(), 2500);
    assert_eq!(batches[1].len(), 1);
    assert_eq!(batches[1][0].0, "0x9c5");
    assert!(balance_batches(&vec![]).is_empty());
}

#[test]
fn multicall_answers_lose_their_two_header_elements() {
    let mut all = vec![felt("0x1")];
    append_batch_balances(&mut all, vec![felt("0x7"), felt("0x2"), felt("0x3"), felt("0x4")]);
    assert_eq!(all.len(), 3);
    assert_eq!(felt_to_decimal(&all[1]), "3");
    append_batch_balances(&mut all, vec![felt("0x7")]);
    assert_eq!(all.len(), 3);
}

#[test]
fn balance_calldata_layout() {
    let pairs = vec![("0x1".to_string(), "0xe".to_string()), ("0x2".to_string(), "0xf".to_string())];
    let calls = balances_calldata(&pairs);
    assert_eq!(calls.len(), 9);
    assert_eq!(felt_to_decimal(&calls[0]), "2");
    assert_eq!(felt_to_decimal(&calls[1]), "14");
    assert_eq!(to_hex(&calls[2]), "0x02e4263afad30923c891518314c3c95dbe830a16874e8abc5777a9a20b54c76e");
    assert_eq!(felt_to_decimal(&calls[3]), "1");
    assert_eq!(felt_to_decimal(&calls[4]), "1");
    assert_eq!(felt_to_decimal(&calls[8]), "2");
}

#[test]
fn renewal_calldata_layout() {
    let a = AggregateResults {
        domains: vec![felt("0xa"), felt("0xb")],
        renewers: vec![felt("0x1"), felt("0x2")],
        domain_prices: vec![amount("340282366920938463463374607431768211461"), amount("9")],
        tax_prices: vec![TaxPrice { hundredths: amount("1234") }, TaxPrice { hundredths: amount("-99") }],
        meta_hashes: vec![felt("0x5"), felt("0x6")],
        auto_renew_contracts: vec![],
    };
    let c: Vec<String> = renewal_calldata(&a).iter().map(felt_to_decimal).collect();
    assert_eq!(
        c,
        vec!["2", "10", "11", "2", "1", "2", "2", "5", "1", "9", "0", "2", "12", "0", "0", "0", "2", "5", "6"]
    );
}

#[test]
fn renewals_go_out_in_batches_of_75() {
    let n = 80;
    let a = AggregateResults {
        domains: (0..n).map(|i| felt(&format!("0x{:x}", i + 1))).collect(),
        renewers: (0..n).map(|_| felt("0x1")).collect(),
        domain_prices: (0..n).map(|_| amount("1")).collect(),
        tax_prices: (0..n).map(|_| TaxPrice { hundredths: amount("0") }).collect(),
        meta_hashes: (0..n).map(|_| felt("0x0")).collect(),
        auto_renew_contracts: vec![],
    };
    let mut run = RenewalRun::new(a, felt("0x7"));
    assert!(run.has_batch() && run.batch_fits());
    let b1 = run.next_batch();
    assert_eq!(b1.domains.len(), 75);
    assert_eq!(felt_to_decimal(&b1.domains[74]), "75");
    run.record_sent(felt("0x100"), b1.domains.len());
    assert_eq!(felt_to_decimal(&run.nonce), "8");
    let b2 = run.next_batch();
    assert_eq!(b2.domains.len(), 5);
    assert_eq!(felt_to_decimal(&b2.domains[0]), "76");
    assert!(!run.has_batch());
}

#[test]
fn a_batch_that_does_not_fit_is_detected() {
    let a = AggregateResults {
        domains: vec![felt("0xa"), felt("0xb")],
        renewers: vec![felt("0x1")],
        domain_prices: vec![amount("1"), amount("1")],
        tax_prices: vec![TaxPrice { hundredths: amount("0") }, TaxPrice { hundredths: amount("0") }],
        meta_hashes: vec![felt("0x0"), felt("0x0")],
        auto_renew_contracts: vec![],
    };
    let run = RenewalRun::new(a, felt("0x0"));
    assert!(run.has_batch());
    assert!(!run.batch_fits());
}

#[test]
fn run_stops_after_three_settled_reverts() {
    let mut run = RenewalRun::new(AggregateResults::empty(), felt("0x0"));
    for i in 0..5u64 {
        run.record_sent(felt(&format!("0x{:x}", i + 1)), 75);
    }
    assert!(!run.should_stop());
    run.apply_receipt(0, ReceiptStatus::Reverted { reason: Some("out of gas".to_string()) });
    run.apply_receipt(1, ReceiptStatus::Succeeded);
    run.apply_receipt(2, ReceiptStatus::Reverted { reason: None });
    run.apply_receipt(3, ReceiptStatus::Reverted { reason: None });
    assert!(!run.should_stop());
    // a settled transaction is not changed by a later receipt
    run.apply_receipt(1, ReceiptStatus::Reverted { reason: None });
    assert_eq!(run.tx_results[1].reverted, Some(false));
    run.apply_receipt(4, ReceiptStatus::Reverted { reason: None });
    assert!(run.should_stop());
    assert_eq!(run.tx_results[0].revert_reason.as_deref(), Some("out of gas"));
    assert!(run.is_pending(4) == false);
}

#[test]
fn send_failures_and_run_failures() {
    assert_eq!(send_failure_action("Error while estimating fee: boom"), SendFailure::SkipBatch);
    assert_eq!(send_failure_action("An error occurred while renewing domains: x"), SendFailure::Abort);
    assert!(retry_after_failure("provider: request rate limited, retry"));
    assert!(!retry_after_failure("nonce too low"));
}

#[test]
fn indexer_readiness() {
    assert_eq!(probe_verdict(&ProbeOutcome::ConnectFailed), ProbeVerdict::NextPort);
    assert_eq!(probe_verdict(&ProbeOutcome::StatusFailed), ProbeVerdict::NotReady);
    assert_eq!(
        probe_verdict(&ProbeOutcome::Status { current_block: Some(9), head_block: Some(10) }),
        ProbeVerdict::NotReady
    );
    assert_eq!(
        probe_verdict(&ProbeOutcome::Status { current_block: Some(10), head_block: Some(10) }),
        ProbeVerdict::NextPort
    );
    assert_eq!(
        probe_verdict(&ProbeOutcome::Status { current_block: None, head_block: Some(10) }),
        ProbeVerdict::NextPort
    );
    assert!(indexers_ready(&vec![ProbeOutcome::ConnectFailed, ProbeOutcome::Status { current_block: Some(3), head_block: Some(3) }]));
    assert!(!indexers_ready(&vec![ProbeOutcome::ConnectFailed, ProbeOutcome::StatusFailed]));
    assert!(block_caught_up(Some(BlockStatus::AcceptedOnL2)));
    assert!(block_caught_up(Some(BlockStatus::Pending)));
    assert!(!block_caught_up(Some(BlockStatus::AcceptedOnL1)));
    assert!(!block_caught_up(None));
}

#[test]
fn an_empty_balance_answer_is_no_balances() {
    let items = vec![item("a.stark", "0x1", Some("0x1"), vec![], None, "0x99")];
    let pairs = vec![("0x1".to_string(), "0xe".to_string())];
    assert_eq!(RenewalPlanner::new(items, pairs, &vec![]).err(), Some(PlanError::NoBalances));
    assert_eq!(RenewalPlanner::new(vec![], vec![], &vec![]).err(), Some(PlanError::NoBalances));
}

#[test]
fn contract_calls_carry_target_selector_and_calldata() {
    let a = AggregateResults {
        domains: vec![felt("0xa")],
        renewers: vec![felt("0x1")],
        domain_prices: vec![amount("9")],
        tax_prices: vec![TaxPrice { hundredths: amount("250") }],
        meta_hashes: vec![felt("0x5")],
        auto_renew_contracts: vec![],
    };
    let call = renewal_call(&felt("0x99"), &a);
    assert_eq!(felt_to_decimal(&call.to), "153");
    assert_eq!(to_hex(&call.selector), "0x0074e2afa7c45d352e3fa61b5efa6fbdb233e6cf6c147048f90ea0bd05111b64");
    let c: Vec<String> = call.calldata.iter().map(felt_to_decimal).collect();
    assert_eq!(c, vec!["1", "10", "1", "1", "1", "9", "0", "1", "2", "0", "1", "5"]);

    let pairs = vec![("0x1".to_string(), "0xe".to_string())];
    let m = balances_call(&felt("0x77"), &pairs);
    assert_eq!(felt_to_decimal(&m.to), "119");
    assert_eq!(to_hex(&m.selector), "0x023ce8154ba7968a9d040577a2140e30474cee3aad4ba52d26bc483e648643f4");
    assert_eq!(m.calldata.len(), 5);
}

#[test]
fn receipts_settle_pending_transactions_once() {
    let mut run = RenewalRun::new(AggregateResults::empty(), felt("0x0"));
    for i in 0..3u64 {
        run.record_sent(felt(&format!("0x{:x}", i + 1)), 75);
    }
    run.apply_receipts(vec![
        Some(ReceiptStatus::Reverted { reason: Some("boom".to_string()) }),
        None,
        Some(ReceiptStatus::Succeeded),
    ]);
    assert_eq!(run.tx_results[0].reverted, Some(true));
    assert_eq!(run.tx_results[1].reverted, None);
    assert_eq!(run.tx_results[2].reverted, Some(false));
    // the same receipts a second time change nothing
    run.apply_receipts(vec![
        Some(ReceiptStatus::Reverted { reason: Some("boom".to_string()) }),
        None,
        Some(ReceiptStatus::Succeeded),
    ]);
    assert_eq!(run.tx_results[0].reverted, Some(true));
    assert_eq!(run.tx_results[0].revert_reason.as_deref(), Some("boom"));
    assert_eq!(run.tx_results[1].reverted, None);
    assert_eq!(run.tx_results[2].reverted, Some(false));
    // a later receipt settles the one left pending; extra receipts are ignored
    run.apply_receipts(vec![Some(ReceiptStatus::Succeeded), Some(ReceiptStatus::Succeeded), None, Some(ReceiptStatus::Succeeded)]);
    assert_eq!(run.tx_results[0].reverted, Some(true));
    assert_eq!(run.tx_results[1].reverted, Some(false));
    assert_eq!(run.tx_results.len(), 3);
}

#[test]
fn indexer_status_reply() {
    assert_eq!(indexer_last_block("{\"last_block\": 123}"), Ok(123));
    assert_eq!(indexer_last_block("{\"last_block\": \"123\"}"), Err(StatusReplyError::NoLastBlock));
    assert_eq!(indexer_last_block("\"Service is running, but no state available yet\""), Err(StatusReplyError::NoLastBlock));
    assert_eq!(indexer_last_block("{\"other\": 1}"), Err(StatusReplyError::NoLastBlock));
    assert_eq!(indexer_last_block("not json"), Err(StatusReplyError::NotJson));
}

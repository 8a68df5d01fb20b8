use subscan_staking::codec::{decode_address, parse_amount, UNITS_PER_TOKEN};
use subscan_staking::model::{
    BatchCall, CallParam, ExtrinsicsType, Network, OperationType, RawExtrinsic, SubscanEvent,
    SubscanEventParam, SubscanOperation, Validator,
};
use subscan_staking::normalize::{
    all_extrinsics_types, classify_call, decode_batch, enrich_operation, operation_skeleton,
    operations_from_listing,
};
use subscan_staking::pipeline::{
    apply_price, collect_successes, convert_operations_to_validators, distinct_senders,
    resolve_and_hash,
};
use subscan_staking::retry::{envelope_step, EnvelopeStep, RETRY_DELAY_MS};
use subscan_staking::store::{OperationStore, ValidatorStore};

const ZERO_ACCOUNT_HEX: &str =
    "0x0000000000000000000000000000000000000000000000000000000000000000";
const ZERO_ACCOUNT_ADDRESS: &str = "5C4hrfjw9DjXZTzV3MwzrrAr9P1MJhSrvWGWqi1eSuyUpnhM";

fn raw(index: &str, account: &str) -> RawExtrinsic {
    RawExtrinsic {
        success: Some(true),
        block_timestamp: Some(1_700_000_000),
        account_id: Some(account.to_string()),
        block_num: Some(42),
        extrinsic_index: Some(index.to_string()),
    }
}

fn op(index: &str, kind: OperationType, from: &str, to: &str) -> SubscanOperation {
    SubscanOperation {
        hash: String::new(),
        block_number: 1,
        operation_timestamp: 1_000,
        operation_quantity: 2 * UNITS_PER_TOKEN,
        operation_usd: 0,
        operation_type: kind,
        from_wallet: from.to_string(),
        to_wallet: to.to_string(),
        extrinsic_index: index.to_string(),
    }
}

fn call(name: &str, params: &[(&str, &str)]) -> BatchCall {
    BatchCall {
        call_name: name.to_string(),
        params: params
            .iter()
            .map(|(n, v)| CallParam { name: n.to_string(), value: v.to_string() })
            .collect(),
    }
}

fn param(name: &str, value: &str) -> SubscanEventParam {
    SubscanEventParam { name: name.to_string(), param_type: "U128".to_string(), value: value.to_string() }
}

fn event(params: Vec<SubscanEventParam>) -> SubscanEvent {
    SubscanEvent { event_index: "1-1".to_string(), event_params: params }
}

#[test]
fn retries_twice_then_accepts() {
    let answers = [Some(1u64), Some(1), Some(0)];
    let mut retries = 0;
    let mut accepted_at = None;
    for (i, code) in answers.iter().enumerate() {
        match envelope_step(*code) {
            EnvelopeStep::Accept => {
                accepted_at = Some(i);
                break;
            }
            EnvelopeStep::RetryAfter(ms) => {
                assert_eq!(ms, RETRY_DELAY_MS);
                retries += 1;
            }
            EnvelopeStep::Abandon => panic!("a code was present"),
        }
    }
    assert_eq!(retries, 2);
    assert_eq!(accepted_at, Some(2));
}

#[test]
fn envelope_without_code_is_abandoned() {
    assert_eq!(envelope_step(None), EnvelopeStep::Abandon);
    assert_eq!(envelope_step(Some(u64::MAX)), EnvelopeStep::RetryAfter(1000));
}

#[test]
fn classification_table() {
    assert_eq!(classify_call(ExtrinsicsType::Bond), OperationType::Stake);
    assert_eq!(classify_call(ExtrinsicsType::BondExtra), OperationType::Stake);
    assert_eq!(classify_call(ExtrinsicsType::Rebond), OperationType::Stake);
    assert_eq!(classify_call(ExtrinsicsType::Nominate), OperationType::ReStake);
    assert_eq!(classify_call(ExtrinsicsType::Unbond), OperationType::RequestUnstake);
    assert_eq!(classify_call(ExtrinsicsType::WithdrawUnbonded), OperationType::WithdrawUnstaked);
    assert_eq!(all_extrinsics_types().len(), 6);
}

#[test]
fn network_name() {
    assert_eq!(Network::default().name(), "alephzero");
}

#[test]
fn amounts_parse_as_fixed_point() {
    assert_eq!(parse_amount("1000000000000"), Some(UNITS_PER_TOKEN));
    assert_eq!(parse_amount("0"), Some(0));
    assert_eq!(parse_amount(""), None);
    assert_eq!(parse_amount("12a"), None);
    assert_eq!(parse_amount("-5"), None);
    assert_eq!(parse_amount("340282366920938463463374607431768211455"), Some(u128::MAX));
    assert_eq!(parse_amount("340282366920938463463374607431768211456"), None);
}

#[test]
fn zero_account_decodes_to_address() {
    assert_eq!(decode_address(ZERO_ACCOUNT_HEX).as_deref(), Some(ZERO_ACCOUNT_ADDRESS));
}

#[test]
fn malformed_account_is_skipped() {
    let no_prefix = &ZERO_ACCOUNT_HEX[2..];
    assert_eq!(decode_address(no_prefix), None);
    assert_eq!(decode_address("0x00"), None);
    assert_eq!(decode_address("0x"), None);
    assert_eq!(decode_address(""), None);
    let bad_digit = format!("0x{}g", &ZERO_ACCOUNT_HEX[3..]);
    assert_eq!(decode_address(&bad_digit), None);
}

#[test]
fn skeleton_from_listing() {
    let r = raw("10-2", "5Alice");
    let s = operation_skeleton(&r, OperationType::Stake).unwrap();
    assert_eq!(s.hash, "");
    assert_eq!(s.block_number, 42);
    assert_eq!(s.operation_timestamp, 1_700_000_000_000);
    assert_eq!(s.operation_quantity, 0);
    assert_eq!(s.from_wallet, "5Alice");
    assert_eq!(s.to_wallet, "none");
    assert_eq!(s.extrinsic_index, "10-2");
    let mut failed = r.clone();
    failed.success = Some(false);
    assert!(operation_skeleton(&failed, OperationType::Stake).is_none());
    let mut huge = r.clone();
    huge.block_timestamp = Some(i64::MAX);
    assert!(operation_skeleton(&huge, OperationType::Stake).is_none());
}

#[test]
fn listing_keeps_usable_records_in_order() {
    let mut missing = raw("3-1", "5Carol");
    missing.block_num = None;
    let raws = vec![raw("1-1", "5Alice"), missing, raw("2-1", "5Bob")];
    let ops = operations_from_listing(&raws, ExtrinsicsType::Unbond);
    assert_eq!(ops.len(), 2);
    assert_eq!(ops[0].extrinsic_index, "1-1");
    assert_eq!(ops[1].extrinsic_index, "2-1");
    assert_eq!(ops[1].operation_type, OperationType::RequestUnstake);
}

#[test]
fn batch_with_bond_unbond_and_nominate() {
    let calls = vec![
        call("bond", &[("controller", "x"), ("value", "1000000000000")]),
        call("unbond", &[("value", "500000000000")]),
        call("nominate", &[("targets", ZERO_ACCOUNT_HEX)]),
    ];
    let o = decode_batch(&raw("7-1", "5Alice"), &calls).unwrap();
    assert_eq!(o.operation_quantity, 1_500_000_000_000);
    assert_eq!(o.operation_type, OperationType::RequestUnstake);
    assert_eq!(o.to_wallet, ZERO_ACCOUNT_ADDRESS);
}

#[test]
fn batch_with_bond_extra_and_nominate_is_restake() {
    let calls = vec![
        call("bond_extra", &[("max_additional", "250000000000")]),
        call("nominate", &[("targets", ZERO_ACCOUNT_HEX)]),
    ];
    let o = decode_batch(&raw("7-2", "5Alice"), &calls).unwrap();
    assert_eq!(o.operation_quantity, 250_000_000_000);
    assert_eq!(o.operation_type, OperationType::ReStake);
}

#[test]
fn batch_with_bond_only_is_stake() {
    let calls = vec![call("bond", &[("value", "3000000000000")])];
    let o = decode_batch(&raw("7-3", "5Alice"), &calls).unwrap();
    assert_eq!(o.operation_quantity, 3 * UNITS_PER_TOKEN);
    assert_eq!(o.operation_type, OperationType::Stake);
    assert_eq!(o.to_wallet, "none");
}

#[test]
fn batch_with_bad_parts_is_skipped() {
    let no_value = vec![call("bond", &[("amount", "1")])];
    assert!(decode_batch(&raw("7-4", "5Alice"), &no_value).is_none());
    let bad_amount = vec![call("unbond", &[("value", "1.5")])];
    assert!(decode_batch(&raw("7-5", "5Alice"), &bad_amount).is_none());
    let bad_target = vec![call("nominate", &[("targets", "0x1234")])];
    assert!(decode_batch(&raw("7-6", "5Alice"), &bad_target).is_none());
}

#[test]
fn enrichment_reads_second_event() {
    let base = op("9-1", OperationType::Stake, "5Old", "none");
    let events = vec![
        event(vec![]),
        event(vec![param("stash", ZERO_ACCOUNT_HEX), param("amount", "2500000000000")]),
    ];
    let e = enrich_operation(&base, &events).unwrap();
    assert_eq!(e.from_wallet, ZERO_ACCOUNT_ADDRESS);
    assert_eq!(e.operation_quantity, 2_500_000_000_000);
    assert_eq!(e.to_wallet, "none");
    assert_eq!(e.extrinsic_index, "9-1");
}

#[test]
fn enrichment_drops_other_shapes() {
    let base = op("9-2", OperationType::Stake, "5Old", "none");
    let one_event = vec![event(vec![param("stash", ZERO_ACCOUNT_HEX), param("amount", "1")])];
    assert!(enrich_operation(&base, &one_event).is_none());
    let one_param = vec![event(vec![]), event(vec![param("amount", "1")])];
    assert!(enrich_operation(&base, &one_param).is_none());
    let wrong_first = vec![event(vec![]), event(vec![param("dest", ZERO_ACCOUNT_HEX), param("amount", "1")])];
    assert!(enrich_operation(&base, &wrong_first).is_none());
    let wrong_last = vec![event(vec![]), event(vec![param("who", ZERO_ACCOUNT_HEX), param("value", "1")])];
    assert!(enrich_operation(&base, &wrong_last).is_none());
    let who = vec![event(vec![]), event(vec![param("who", ZERO_ACCOUNT_HEX), param("amount", "7")])];
    assert_eq!(enrich_operation(&base, &who).unwrap().operation_quantity, 7);
}

#[test]
fn dedup_twice_yields_nothing_new() {
    let mut store = OperationStore::new();
    store.persist(&vec![op("1-1", OperationType::Stake, "a", "none")]);
    let candidates = vec![
        op("1-1", OperationType::Stake, "a", "none"),
        op("2-1", OperationType::Stake, "b", "none"),
    ];
    let first = store.get_not_existing_operations(candidates.clone());
    assert_eq!(first.len(), 1);
    assert_eq!(first[0].extrinsic_index, "2-1");
    store.persist(&first);
    assert!(store.get_not_existing_operations(candidates).is_empty());
}

#[test]
fn failed_listings_are_dropped() {
    let results = vec![
        Some(vec![op("1-1", OperationType::Stake, "a", "none")]),
        None,
        Some(vec![op("2-1", OperationType::ReStake, "b", "none")]),
    ];
    let all = collect_successes(&results);
    assert_eq!(all.len(), 2);
    assert_eq!(all[1].extrinsic_index, "2-1");
}

#[test]
fn validators_from_resolved_operations() {
    let ops = vec![
        op("1-1", OperationType::ReStake, "nom", "val"),
        op("2-1", OperationType::Stake, "other", "none"),
    ];
    let v = convert_operations_to_validators(ops);
    assert_eq!(v.len(), 1);
    assert_eq!(v[0].nominator, "nom");
    assert_eq!(v[0].validator, "val");
}

#[test]
fn validator_store_keeps_latest() {
    let mut store = ValidatorStore::new();
    store.import_or_update_validators(&vec![
        Validator { nominator: "n1".to_string(), validator: "v1".to_string() },
        Validator { nominator: "n1".to_string(), validator: "v2".to_string() },
    ]);
    assert_eq!(store.get_validator_by_nominator("n1").unwrap().validator, "v2");
    assert!(store.get_validator_by_nominator("n2").is_none());
    let missing = store.get_not_existing_nominators(&vec!["n1".to_string(), "n2".to_string()]);
    assert_eq!(missing, vec!["n2".to_string()]);
}

#[test]
fn price_applies_uniformly() {
    let mut ops = vec![
        op("1-1", OperationType::Stake, "a", "none"),
        op("2-1", OperationType::Stake, "b", "none"),
    ];
    ops[1].operation_quantity = UNITS_PER_TOKEN / 2;
    apply_price(&mut ops, 1_250_000);
    assert_eq!(ops[0].operation_usd, 2_500_000);
    assert_eq!(ops[1].operation_usd, 625_000);
    let mut huge = vec![op("3-1", OperationType::Stake, "c", "none")];
    huge[0].operation_quantity = u128::MAX;
    apply_price(&mut huge, 2);
    assert_eq!(huge[0].operation_usd, u128::MAX / UNITS_PER_TOKEN);
}

#[test]
fn hashes_follow_resolution_and_are_unique() {
    let mut store = ValidatorStore::new();
    store.import_or_update_validators(&vec![Validator {
        nominator: "a".to_string(),
        validator: "val".to_string(),
    }]);
    let mut ops = vec![
        op("1-1", OperationType::Stake, "a", "none"),
        op("1-1", OperationType::ReStake, "a", "none"),
        op("2-1", OperationType::Stake, "b", "none"),
    ];
    resolve_and_hash(&mut ops, &store);
    assert_eq!(ops[0].to_wallet, "val");
    assert_eq!(ops[2].to_wallet, "none");
    assert_eq!(
        ops[0].hash,
        "000000000000000000031-1S00000000000000000001a00000000000000000003val"
    );
    assert_ne!(ops[0].hash, ops[1].hash);
    assert_ne!(ops[0].hash, ops[2].hash);
    assert_ne!(ops[1].hash, ops[2].hash);
}

#[test]
fn senders_listed_once() {
    let ops = vec![
        op("1-1", OperationType::Stake, "a", "none"),
        op("2-1", OperationType::Stake, "b", "none"),
        op("3-1", OperationType::Stake, "a", "none"),
    ];
    assert_eq!(distinct_senders(&ops), vec!["a".to_string(), "b".to_string()]);
}

#[test]
fn account_hex_is_case_insensitive() {
    let lower = "0x00000000000000000000000000000000000000000000000000000000000000ab";
    let upper = "0x00000000000000000000000000000000000000000000000000000000000000AB";
    let a = decode_address(lower).unwrap();
    assert_eq!(decode_address(upper).unwrap(), a);
    assert_ne!(a, ZERO_ACCOUNT_ADDRESS);
}

use prover_orchestration::avail_client::{
    blob_id_of, proof_url, split_blob_id, to_non_retriable_da_error, to_retriable_da_error,
    AbiValue, BridgeAPIResponse, MerkleProofInput, MAX_PROOF_HASHES,
};
use prover_orchestration::da_client::{
    required, AvailConfig, DAClient, DAClientConfig, DataAvailabilityClient, MissingField,
    ProtoAvailConfig, ProtoConfig,
};
use prover_orchestration::debug::{
    Address, Call, CallTracerConfig, CallTracerResult, CallTracerResultWithNestedResult, CallType,
    DebugCallFlat, DebugCallType, DebugNamespace, ExecutionResult, FarCallOpcode,
    SupportedTracers, TracerConfig, Web3Error, H256, U256,
};
use prover_orchestration::fees::FeesArgs;
use prover_orchestration::forced_price_client::{
    BaseTokenAPIRatio, ExternalPriceApiClientConfig, ForcedPriceClient, ForcedPriceClientConfig,
};
use prover_orchestration::validate_chain_ids_task::{
    ChainCheck, ChainIdError, CheckStep, L2ChainId, RpcFailure, SLChainId, TaskEvent, TaskStep,
    ValidateChainIdsTask, BACKOFF_INTERVAL_SECS, MAX_L2_CHAIN_ID,
};

fn forced(fluctuation: Option<u32>, next: u32) -> ExternalPriceApiClientConfig {
    ExternalPriceApiClientConfig {
        forced: Some(ForcedPriceClientConfig {
            numerator: Some(1000),
            denominator: Some(7),
            fluctuation,
            next_value_fluctuation: next,
        }),
    }
}

#[test]
fn forced_price_without_fluctuation_is_constant() {
    let mut client = ForcedPriceClient::new(forced(None, 3), 42);
    let expected = BaseTokenAPIRatio { numerator: 1000, denominator: 7, ratio_timestamp: 42 };
    assert_eq!(client.forced_ratio(), expected);
    assert_eq!(client.fetch_ratio(1, 5, 50), expected);
    assert_eq!(client.ratio_for(77, 51), expected);
    assert_eq!(client.previous_numerator(), 1000);
    assert_eq!(client.fluctuations(), (None, 3));
}

#[test]
fn forced_price_percentages_are_held_to_a_hundred() {
    let client = ForcedPriceClient::new(forced(Some(250), 101), 0);
    assert_eq!(client.fluctuations(), (Some(100), 100));
    let client = ForcedPriceClient::new(forced(Some(10), 3), 0);
    assert_eq!(client.fluctuations(), (Some(10), 3));
}

#[test]
fn forced_price_uses_the_drawn_numerator() {
    let mut client = ForcedPriceClient::new(forced(Some(10), 3), 42);
    let ratio = client.ratio_for(970, 43);
    assert_eq!(ratio, BaseTokenAPIRatio { numerator: 970, denominator: 7, ratio_timestamp: 43 });
    assert_eq!(client.previous_numerator(), 970);
    // A drawn zero is replaced by the configured numerator.
    let ratio = client.ratio_for(0, 44);
    assert_eq!(ratio.numerator, 1000);
    assert_eq!(client.previous_numerator(), 1000);
    assert_eq!(client.forced_ratio().ratio_timestamp, 42);
}

#[test]
fn forced_price_draws_within_the_bounds() {
    let mut client = ForcedPriceClient::new(forced(Some(10), 3), 42);
    let mut seen_low = false;
    let mut seen_other = false;
    for round in 0..200 {
        let ratio = client.fetch_ratio(970, 1030, round);
        assert!(970 <= ratio.numerator && ratio.numerator <= 1030);
        assert_eq!(ratio.denominator, 7);
        assert_eq!(ratio.ratio_timestamp, round);
        assert_eq!(client.previous_numerator(), ratio.numerator);
        if ratio.numerator == 970 {
            seen_low = true;
        } else {
            seen_other = true;
        }
    }
    // Two hundred draws from 61 numbers do not all give the lower bound.
    assert!(seen_other);
    let _ = seen_low;
    assert_eq!(client.fetch_ratio(5, 5, 1).numerator, 5);
}

#[test]
fn validating_chain_ids_errors() {
    // The Ethereum client is on chain 9, the configuration says 3.
    let mut task = ValidateChainIdsTask::new(SLChainId(3), L2ChainId(270), vec![]);
    let step = task.run(TaskEvent::Answer(ChainCheck::EthClient, Ok(9)));
    let expected = ChainIdError::EthClientMismatch { expected: 3, actual: 9 };
    assert_eq!(step, TaskStep::Done(Err(expected)));
    let err = expected.describe();
    assert!(err.contains("L1 chain ID") && err.contains("Ethereum node"), "{err}");

    // The main node names L1 chain 3, the configuration says 9.
    let mut task = ValidateChainIdsTask::new(SLChainId(9), L2ChainId(270), vec![]);
    assert_eq!(task.run(TaskEvent::Answer(ChainCheck::EthClient, Ok(9))), TaskStep::Wait);
    let step = task.run(TaskEvent::Answer(ChainCheck::MainNodeL1, Ok(3)));
    let expected = ChainIdError::MainNodeL1Mismatch { expected: 9, actual: 3 };
    assert_eq!(step, TaskStep::Done(Err(expected)));
    let err = expected.describe();
    assert!(err.contains("L1 chain ID") && err.contains("main node"), "{err}");

    // The main node is chain 270, the configuration says 271.
    let mut task = ValidateChainIdsTask::new(SLChainId(9), L2ChainId(271), vec![]);
    assert_eq!(task.run(TaskEvent::Answer(ChainCheck::MainNodeL1, Ok(9))), TaskStep::Wait);
    let step = task.run(TaskEvent::Answer(ChainCheck::MainNodeL2, Ok(270)));
    let expected = ChainIdError::MainNodeL2Mismatch { expected: 271, actual: 270 };
    assert_eq!(step, TaskStep::Done(Err(expected)));
    let err = expected.describe();
    assert!(err.contains("L2 chain ID") && err.contains("main node"), "{err}");
}

#[test]
fn validating_chain_ids_success() {
    let mut task = ValidateChainIdsTask::new(SLChainId(9), L2ChainId(270), vec![]);
    // The task does not end while every check passes.
    assert_eq!(task.run(TaskEvent::Answer(ChainCheck::EthClient, Ok(9))), TaskStep::Wait);
    assert_eq!(task.run(TaskEvent::Answer(ChainCheck::MainNodeL2, Ok(270))), TaskStep::Wait);
    assert_eq!(task.run(TaskEvent::Answer(ChainCheck::MainNodeL1, Ok(9))), TaskStep::Wait);
    assert_eq!(task.run(TaskEvent::Stop), TaskStep::Done(Ok(())));
}

#[test]
fn chain_id_run_once_ends_when_all_checks_passed() {
    let mut task =
        ValidateChainIdsTask::new(SLChainId(9), L2ChainId(270), vec![SLChainId(5), SLChainId(6)]);
    assert_eq!(task.run_once(TaskEvent::Answer(ChainCheck::EthClient, Ok(9))), TaskStep::Wait);
    assert_eq!(task.run_once(TaskEvent::Answer(ChainCheck::MainNodeL1, Ok(9))), TaskStep::Wait);
    assert_eq!(task.run_once(TaskEvent::Answer(ChainCheck::MainNodeL2, Ok(270))), TaskStep::Wait);
    assert_eq!(
        task.run_once(TaskEvent::Answer(ChainCheck::MappedClient(1), Ok(6))),
        TaskStep::Wait
    );
    assert_eq!(
        task.run_once(TaskEvent::Answer(ChainCheck::MappedClient(7), Ok(6))),
        TaskStep::Wait
    );
    assert_eq!(
        task.run_once(TaskEvent::Answer(ChainCheck::MappedClient(0), Err(RpcFailure::Fatal))),
        TaskStep::Retry(ChainCheck::MappedClient(0), 5)
    );
    assert_eq!(
        task.run_once(TaskEvent::Answer(ChainCheck::MappedClient(0), Ok(5))),
        TaskStep::Done(Ok(()))
    );
    let mut task = ValidateChainIdsTask::new(SLChainId(9), L2ChainId(270), vec![SLChainId(5)]);
    assert_eq!(
        task.run_once(TaskEvent::Answer(ChainCheck::MappedClient(0), Ok(4))),
        TaskStep::Done(Err(ChainIdError::EthClientMismatch { expected: 5, actual: 4 }))
    );
    assert_eq!(task.run_once(TaskEvent::Stop), TaskStep::Done(Ok(())));
}

#[test]
fn chain_id_checks_retry_or_fail_on_errors() {
    let retry = CheckStep::RetryAfter(BACKOFF_INTERVAL_SECS);
    assert_eq!(BACKOFF_INTERVAL_SECS, 5);
    assert_eq!(ValidateChainIdsTask::check_eth_client(SLChainId(1), Err(RpcFailure::Fatal)), retry);
    assert_eq!(
        ValidateChainIdsTask::check_eth_client(SLChainId(1), Err(RpcFailure::Retriable)),
        retry
    );
    assert_eq!(ValidateChainIdsTask::check_eth_client(SLChainId(1), Ok(1)), CheckStep::Passed);
    assert_eq!(
        ValidateChainIdsTask::check_l1_chain_using_main_node(SLChainId(1), Err(RpcFailure::Retriable)),
        retry
    );
    assert_eq!(
        ValidateChainIdsTask::check_l1_chain_using_main_node(SLChainId(1), Err(RpcFailure::Fatal)),
        CheckStep::Failed(ChainIdError::MainNodeCall)
    );
    assert_eq!(
        ValidateChainIdsTask::check_l2_chain_using_main_node(L2ChainId(1), Err(RpcFailure::Fatal)),
        CheckStep::Failed(ChainIdError::MainNodeCall)
    );
    assert_eq!(
        ValidateChainIdsTask::check_l2_chain_using_main_node(
            L2ChainId(1),
            Ok(MAX_L2_CHAIN_ID + 1)
        ),
        CheckStep::Failed(ChainIdError::InvalidL2ChainId { supplied: MAX_L2_CHAIN_ID + 1 })
    );
    assert_eq!(
        ValidateChainIdsTask::check_l2_chain_using_main_node(
            L2ChainId(MAX_L2_CHAIN_ID),
            Ok(MAX_L2_CHAIN_ID)
        ),
        CheckStep::Passed
    );
    assert_eq!(MAX_L2_CHAIN_ID, ((1u64 << 53) - 1 - 36) / 2);
    assert_eq!(
        ChainIdError::InvalidL2ChainId { supplied: 0 }.describe(),
        "invalid chain ID supplied by main node"
    );
}

fn full_proto() -> ProtoAvailConfig {
    ProtoAvailConfig {
        api_node_url: Some("wss://node".to_string()),
        bridge_api_url: Some("https://bridge".to_string()),
        seed: Some("seed words".to_string()),
        app_id: Some(7),
        timeout: Some(30),
        max_retries: Some(5),
        gas_relay_mode: None,
        gas_relay_api_url: Some("https://relay".to_string()),
        gas_relay_api_key: Some("key".to_string()),
    }
}

#[test]
fn da_config_reads_the_fields_of_its_mode() {
    let config = full_proto().read().unwrap();
    assert_eq!(config.api_node_url.as_deref(), Some("wss://node"));
    assert_eq!(config.bridge_api_url, "https://bridge");
    assert_eq!(config.seed.as_deref(), Some("seed words"));
    assert_eq!(config.app_id, Some(7));
    assert_eq!((config.timeout, config.max_retries), (30, 5));
    assert!(!config.gas_relay_mode);
    assert_eq!(config.gas_relay_api_url, None);
    assert_eq!(config.gas_relay_api_key, None);

    let mut relay = full_proto();
    relay.gas_relay_mode = Some(true);
    relay.api_node_url = None;
    relay.seed = None;
    let config = relay.read().unwrap();
    assert!(config.gas_relay_mode);
    assert_eq!(config.api_node_url, None);
    assert_eq!(config.app_id, None);
    assert_eq!(config.gas_relay_api_url.as_deref(), Some("https://relay"));
    assert_eq!(config.gas_relay_api_key.as_deref(), Some("key"));
}

#[test]
fn da_config_reports_the_first_missing_field() {
    let cases: Vec<(fn(&mut ProtoAvailConfig), bool, MissingField, &str)> = vec![
        (|c| c.api_node_url = None, false, MissingField::ApiNodeUrl, "api_node_url"),
        (|c| c.bridge_api_url = None, false, MissingField::BridgeApiUrl, "bridge_api_url"),
        (|c| c.bridge_api_url = None, true, MissingField::BridgeApiUrl, "bridge_api_url"),
        (|c| c.seed = None, false, MissingField::Seed, "seed"),
        (|c| c.app_id = None, false, MissingField::AppId, "app_id"),
        (|c| c.timeout = None, false, MissingField::Timeout, "timeout"),
        (|c| c.max_retries = None, true, MissingField::MaxRetries, "max_retries"),
        (|c| c.gas_relay_api_url = None, true, MissingField::GasRelayApiUrl, "gas_relay_api_url"),
        (|c| c.gas_relay_api_key = None, true, MissingField::GasRelayApiKey, "gas_relay_api_key"),
    ];
    for (change, relay, missing, name) in cases {
        let mut conf = full_proto();
        conf.gas_relay_mode = Some(relay);
        change(&mut conf);
        assert_eq!(conf.read().unwrap_err(), missing);
        assert_eq!(missing.field_name(), name);
    }
    let mut conf = full_proto();
    conf.seed = None;
    conf.timeout = None;
    assert_eq!(conf.read().unwrap_err(), MissingField::Seed);
    let empty: DataAvailabilityClient<u8> = DataAvailabilityClient { config: None };
    assert_eq!(empty.read().unwrap_err(), MissingField::Config);
    assert_eq!(MissingField::Config.field_name(), "config");
    assert_eq!(required(&Some(3), MissingField::AppId), Ok(&3));
    assert_eq!(required::<u8>(&None, MissingField::AppId), Err(MissingField::AppId));
}

#[test]
fn da_config_survives_writing_and_reading() {
    let config = AvailConfig {
        api_node_url: Some("wss://node".to_string()),
        bridge_api_url: "https://bridge".to_string(),
        seed: Some("seed".to_string()),
        app_id: Some(1),
        timeout: 2,
        max_retries: 3,
        gas_relay_mode: false,
        gas_relay_api_url: None,
        gas_relay_api_key: None,
    };
    let wire = DataAvailabilityClient::<u8>::build(DAClientConfig { client: DAClient::Avail(config) });
    let proto = match &wire.config {
        Some(ProtoConfig::Avail(proto)) => proto,
        other => panic!("{other:?}"),
    };
    assert_eq!(proto.gas_relay_mode, Some(false));
    assert_eq!(proto.timeout, Some(2));
    assert_eq!(proto.bridge_api_url.as_deref(), Some("https://bridge"));
    let back = match wire.read().unwrap().client {
        DAClient::Avail(config) => config,
        other => panic!("{other:?}"),
    };
    assert_eq!(back.api_node_url.as_deref(), Some("wss://node"));
    assert_eq!(back.seed.as_deref(), Some("seed"));
    assert_eq!((back.app_id, back.timeout, back.max_retries), (Some(1), 2, 3));

    let store = DataAvailabilityClient { config: Some(ProtoConfig::ObjectStore(9u8)) };
    match store.read().unwrap().client {
        DAClient::ObjectStore(payload) => assert_eq!(payload, 9),
        other => panic!("{other:?}"),
    }
}

fn call(call_type: CallType, gas: u64, error: Option<&str>, calls: Vec<Call>) -> Call {
    Call {
        call_type,
        from: Address([1; 20]),
        to: Address([2; 20]),
        parent_gas: 0,
        gas,
        gas_used: gas / 2,
        value: U256([gas, 0, 0, 0]),
        input: vec![gas as u8],
        output: vec![gas as u8, 0xff],
        error: error.map(str::to_string),
        revert_reason: None,
        calls,
    }
}

fn tree() -> Call {
    let normal = CallType::Call(FarCallOpcode::Normal);
    call(
        normal,
        100,
        None,
        vec![
            call(CallType::Create, 10, None, vec![call(normal, 1, Some("boom"), vec![])]),
            call(CallType::Call(FarCallOpcode::Mimic), 20, None, vec![]),
        ],
    )
}

fn options(tracer: SupportedTracers, only_top_call: bool) -> Option<TracerConfig> {
    Some(TracerConfig { tracer, tracer_config: CallTracerConfig { only_top_call } })
}

#[test]
fn nested_trace_keeps_the_tree() {
    let trace = DebugNamespace::map_default_call(tree(), false);
    assert_eq!(trace.call_type, DebugCallType::Call);
    assert_eq!((trace.gas, trace.gas_used), (100, 50));
    assert_eq!(trace.value, U256([100, 0, 0, 0]));
    assert_eq!(trace.input, vec![100]);
    assert_eq!(trace.output, vec![100, 0xff]);
    assert_eq!(trace.calls.len(), 2);
    assert_eq!(trace.calls[0].call_type, DebugCallType::Create);
    assert_eq!(trace.calls[0].calls.len(), 1);
    assert_eq!(trace.calls[0].calls[0].error.as_deref(), Some("boom"));
    assert_eq!(trace.calls[1].gas, 20);
    let top = DebugNamespace::map_default_call(tree(), true);
    assert!(top.calls.is_empty());
    assert_eq!(top.gas, 100);
}

fn summary(calls: &[DebugCallFlat]) -> Vec<(u64, usize, Vec<usize>, bool)> {
    calls
        .iter()
        .map(|c| (c.action.gas, c.subtraces, c.traceaddress.clone(), c.result.is_some()))
        .collect()
}

#[test]
fn flat_trace_lists_children_before_parents() {
    let hash = H256([9; 32]);
    let flat = match DebugNamespace::map_call(tree(), 3, hash, options(SupportedTracers::FlatCallTracer, false)) {
        CallTracerResult::FlattCallTrace(calls) => calls,
        other => panic!("{other:?}"),
    };
    assert_eq!(
        summary(&flat),
        vec![
            (1, 0, vec![3, 0, 0], false),
            (10, 1, vec![3, 0], true),
            (20, 0, vec![3, 1], true),
            (100, 2, vec![3], true),
        ]
    );
    assert_eq!(flat[1].action.call_type, DebugCallType::Create);
    assert_eq!(flat[1].call_type, DebugCallType::Call);
    assert_eq!(flat[3].transaction_position, 3);
    assert_eq!(flat[3].transaction_hash, hash);
    let result = flat[3].result.as_ref().unwrap();
    assert_eq!((result.output.clone(), result.gas_used), (vec![100, 0xff], 50));

    let top = match DebugNamespace::map_call(tree(), 3, hash, options(SupportedTracers::FlatCallTracer, true)) {
        CallTracerResult::FlattCallTrace(calls) => calls,
        other => panic!("{other:?}"),
    };
    assert_eq!(summary(&top), vec![(100, 2, vec![3], true)]);
}

#[test]
fn map_call_defaults_to_the_nested_trace() {
    let hash = H256([0; 32]);
    for option in [None, options(SupportedTracers::CallTracer, false)] {
        match DebugNamespace::map_call(tree(), 0, hash, option) {
            CallTracerResult::CallTrace(trace) => assert_eq!(trace.calls.len(), 2),
            other => panic!("{other:?}"),
        }
    }
    let mut calls = Vec::new();
    let mut address = vec![4, 2];
    DebugNamespace::map_flatten_call(&tree(), &mut calls, &mut address, false, 4, hash);
    assert_eq!(address, vec![4, 2]);
    assert_eq!(calls.len(), 4);
    assert_eq!(calls[0].traceaddress, vec![4, 2, 0, 0]);
}

#[test]
fn block_traces_come_nested_or_as_one_flat_list() {
    let traces = vec![(tree(), H256([1; 32]), 0usize), (tree(), H256([2; 32]), 1usize)];
    let nested = DebugNamespace::debug_trace_block_impl(&traces, None);
    assert_eq!(nested.len(), 2);
    assert!(matches!(&nested[1], CallTracerResultWithNestedResult::CallTrace(t) if t.result.calls.len() == 2));
    let flat = DebugNamespace::debug_trace_block_impl(&traces, options(SupportedTracers::FlatCallTracer, false));
    assert_eq!(flat.len(), 1);
    match &flat[0] {
        CallTracerResultWithNestedResult::FlattCallTrace(calls) => {
            assert_eq!(calls.len(), 8);
            assert_eq!(calls[3].traceaddress, vec![0]);
            assert_eq!(calls[4].traceaddress, vec![1, 0, 0]);
            assert_eq!(calls[7].transaction_hash, H256([2; 32]));
        }
        other => panic!("{other:?}"),
    }
    let empty = Vec::new();
    assert!(DebugNamespace::debug_trace_block_impl(&empty, options(SupportedTracers::FlatCallTracer, false)).is_empty());
    assert!(DebugNamespace::debug_trace_block_impl(&empty, None).is_empty());
    assert!(DebugNamespace::debug_trace_transaction_impl(None, None).is_none());
    let found = DebugNamespace::debug_trace_transaction_impl(Some((tree(), H256([1; 32]), 5)), None);
    assert!(matches!(found, Some(CallTracerResult::CallTrace(_))));
}

#[test]
fn blob_ids_split_at_the_first_colon() {
    let (hash, idx) = split_blob_id("0xabc:12:rest").unwrap();
    assert_eq!((hash.as_str(), idx.as_str()), ("0xabc", "12:rest"));
    let (hash, idx) = split_blob_id(":").unwrap();
    assert_eq!((hash.as_str(), idx.as_str()), ("", ""));
    let (hash, idx) = split_blob_id("häsh:ü").unwrap();
    assert_eq!((hash.as_str(), idx.as_str()), ("häsh", "ü"));
    let err = split_blob_id("no colon").unwrap_err();
    assert_eq!(err.error, "Invalid blob ID format");
    assert!(!err.is_retriable);
    assert!(split_blob_id("").is_err());
    assert_eq!(blob_id_of("0xabc", "12"), "0xabc:12");
    assert_eq!(
        proof_url("https://bridge", "0xabc", "12"),
        "https://bridge/eth/proof/0xabc?index=12"
    );
}

#[test]
fn da_errors_say_whether_to_try_again() {
    let err = to_retriable_da_error("timeout".to_string());
    assert_eq!(err.error, "timeout");
    assert!(err.is_retriable);
    let err = to_non_retriable_da_error("bad input".to_string());
    assert_eq!(err.error, "bad input");
    assert!(!err.is_retriable);
}

fn response() -> BridgeAPIResponse {
    BridgeAPIResponse {
        blob_root: Some(H256([3; 32])),
        bridge_root: Some(H256([4; 32])),
        data_root_index: Some(U256([5, 0, 0, 1])),
        data_root_proof: Some(vec![H256([1; 32]), H256([11; 32])]),
        leaf: Some(H256([6; 32])),
        leaf_index: Some(U256([7, 0, 0, 0])),
        leaf_proof: Some(vec![H256([2; 32])]),
        range_hash: Some(H256([8; 32])),
        error: None,
    }
}

#[test]
fn bridge_error_is_handed_on_for_a_retry() {
    let mut answer = response();
    answer.error = Some("not ready".to_string());
    answer.leaf = None;
    let err = MerkleProofInput::from_response(answer).unwrap_err();
    assert_eq!(err.error, "Bridge API returned an error: not ready");
    assert!(err.is_retriable);
}

#[test]
fn proof_becomes_one_tuple_of_eight_tokens() {
    let input = MerkleProofInput::from_response(response()).unwrap();
    let tokens = input.into_tokens();
    assert_eq!(tokens.len(), 1);
    let fields = match &tokens[0] {
        AbiValue::Tuple(fields) => fields,
        other => panic!("{other:?}"),
    };
    assert_eq!(fields.len(), 8);
    assert!(matches!(&fields[0], AbiValue::Array(items) if items.len() == 2
        && matches!(&items[1], AbiValue::FixedBytes(b) if b == &vec![11u8; 32])));
    assert!(matches!(&fields[1], AbiValue::Array(items) if items.len() == 1));
    assert!(matches!(&fields[2], AbiValue::FixedBytes(b) if b == &vec![8u8; 32]));
    assert!(matches!(&fields[3], AbiValue::Uint(n) if *n == U256([5, 0, 0, 1])));
    assert!(matches!(&fields[4], AbiValue::FixedBytes(b) if b == &vec![3u8; 32]));
    assert!(matches!(&fields[5], AbiValue::FixedBytes(b) if b == &vec![4u8; 32]));
    assert!(matches!(&fields[6], AbiValue::FixedBytes(b) if b == &vec![6u8; 32]));
    assert!(matches!(&fields[7], AbiValue::Uint(n) if *n == U256([7, 0, 0, 0])));
}

#[test]
fn proof_is_encoded_as_the_abi_crate_encodes_it() {
    let input = MerkleProofInput::from_response(response()).unwrap();
    let data = input.inclusion_data().unwrap().data;
    let bytes32 = |b: u8| ethabi::Token::FixedBytes(vec![b; 32]);
    let expected = ethabi::encode(&[ethabi::Token::Tuple(vec![
        ethabi::Token::Array(vec![bytes32(1), bytes32(11)]),
        ethabi::Token::Array(vec![bytes32(2)]),
        bytes32(8),
        ethabi::Token::Uint(ethabi::ethereum_types::U256([5, 0, 0, 1])),
        bytes32(3),
        bytes32(4),
        bytes32(6),
        ethabi::Token::Uint(ethabi::ethereum_types::U256([7, 0, 0, 0])),
    ])]);
    assert_eq!(data, expected);
    // Eleven words and one for each of the three hashes.
    assert_eq!(data.len(), 32 * 14);
    // The tuple starts after the one word that says where.
    assert_eq!(data[31], 32);
    // The data root's index is written with its highest limb first.
    assert_eq!(data[32 + 3 * 32 + 7], 1);
    assert_eq!(data[32 + 3 * 32 + 31], 5);
    assert_eq!(MAX_PROOF_HASHES, (u32::MAX as usize - 352) / 32);
}

#[test]
fn fees_args_hold_two_switches() {
    let args = FeesArgs { external_node: true, no_deps: false };
    assert!(args.external_node);
    assert!(!args.no_deps);
    assert_eq!(args, FeesArgs { external_node: true, no_deps: false });
}

#[test]
fn traced_call_is_wrapped_in_a_top_call() {
    let hash = H256([7; 32]);
    let trace = DebugNamespace::debug_trace_call_impl(
        ExecutionResult::Success { output: vec![1, 2] },
        1000,
        400,
        U256([3, 0, 0, 0]),
        vec![9],
        vec![tree()],
        hash,
        None,
    );
    let top = match trace {
        Ok(CallTracerResult::CallTrace(top)) => top,
        other => panic!("{other:?}"),
    };
    assert_eq!(top.call_type, DebugCallType::Call);
    assert_eq!(top.from, Address([0; 20]));
    let mut bootloader = [0u8; 20];
    bootloader[18] = 0x80;
    bootloader[19] = 0x01;
    assert_eq!(top.to, Address(bootloader));
    assert_eq!((top.gas, top.gas_used), (1000, 400));
    assert_eq!(top.value, U256([3, 0, 0, 0]));
    assert_eq!((top.input.clone(), top.output.clone()), (vec![9], vec![1, 2]));
    assert_eq!((top.error.clone(), top.revert_reason.clone()), (None, None));
    assert_eq!(top.calls.len(), 1);
    assert_eq!(top.calls[0].calls.len(), 2);

    let call = Call::new_high_level(1, 2, U256([0; 4]), vec![], vec![], None, vec![]);
    assert_eq!(call.call_type, CallType::Call(FarCallOpcode::Normal));
    assert_eq!((call.parent_gas, call.gas, call.gas_used), (1, 1, 2));
}

#[test]
fn reverted_and_halted_calls() {
    let hash = H256([7; 32]);
    let trace = DebugNamespace::debug_trace_call_impl(
        ExecutionResult::Revert { reason: "out of gas".to_string() },
        1000,
        1000,
        U256([0; 4]),
        vec![9],
        vec![],
        hash,
        options(SupportedTracers::FlatCallTracer, true),
    );
    let flat = match trace {
        Ok(CallTracerResult::FlattCallTrace(flat)) => flat,
        other => panic!("{other:?}"),
    };
    assert_eq!(summary(&flat), vec![(1000, 0, vec![0], true)]);
    assert!(flat[0].result.as_ref().unwrap().output.is_empty());
    assert_eq!(flat[0].transaction_hash, hash);

    let trace = DebugNamespace::debug_trace_call_impl(
        ExecutionResult::Halt { reason: "validation failed".to_string() },
        1000,
        0,
        U256([0; 4]),
        vec![],
        vec![],
        hash,
        None,
    );
    match trace {
        Err(Web3Error::SubmitTransactionError(reason, data)) => {
            assert_eq!(reason, "validation failed");
            assert!(data.is_empty());
        }
        other => panic!("{other:?}"),
    }
}

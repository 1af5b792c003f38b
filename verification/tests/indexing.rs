use rindexer_core::callback_registry::{EventCallbackRegistry, EventInformation};
use rindexer_core::contract_setup::{
    ContractInformation, FilterDetails, IndexingContractSetup, NetworkContract,
};
use rindexer_core::fetch_logs::{FetchError, FetchLogsStream, ProviderErrorKind};
use rindexer_core::indexing::{
    handle_logs_result, plan_unit, ConcurrentSettings, Dispatch, FailureReason, HandledLogs,
    PlanError, StartIndexingSettings, UnitError, UnitObservation, UnitPlan,
    DEFAULT_MAX_CONCURRENCY,
};
use rindexer_core::primitives::{BlockRange, TopicHash};
use rindexer_core::reorg::ChainId;

fn contract(start: Option<u64>, end: Option<u64>) -> NetworkContract {
    NetworkContract {
        id: "nc".to_string(),
        network: "mainnet".to_string(),
        indexing_contract_setup: IndexingContractSetup::Filter(FilterDetails {
            event_name: "Transfer".to_string(),
            indexed_filters: None,
        }),
        cached_provider: 0,
        decoder: 0,
        start_block: start,
        end_block: end,
    }
}

fn observed(latest: u64, last_synced: Option<u64>, chain: Option<u64>) -> UnitObservation {
    UnitObservation {
        latest_block: latest,
        last_synced_block: last_synced,
        chain_id: chain.map(ChainId::from_u64),
    }
}

fn registry(topic: u8, callback: usize) -> EventCallbackRegistry {
    let mut registry = EventCallbackRegistry::new();
    registry
        .register_event(EventInformation {
            indexer_name: "Idx".to_string(),
            topic_id: TopicHash { bytes: [topic; 32] },
            event_name: "Transfer".to_string(),
            contract: ContractInformation {
                name: "Erc20".to_string(),
                details: vec![],
                abi: String::new(),
                reorg_safe_distance: false,
            },
            callback,
        })
        .unwrap();
    registry.complete()
}

#[test]
fn settings_default_to_a_hundred_units_in_parallel() {
    assert_eq!(DEFAULT_MAX_CONCURRENCY, 100);
    assert_eq!(ConcurrentSettings::default().max_concurrency, 100);
    let settings = StartIndexingSettings::default();
    assert_eq!(settings.concurrent, Some(ConcurrentSettings { max_concurrency: 100 }));
    assert!(!settings.execute_in_event_order);
    assert!(!settings.execute_event_logs_in_order);
    assert_eq!(settings.max_concurrency(), 100);
    let two = StartIndexingSettings {
        concurrent: Some(ConcurrentSettings { max_concurrency: 2 }),
        ..settings
    };
    assert_eq!(two.max_concurrency(), 2);
    let unset = StartIndexingSettings { concurrent: None, ..settings };
    assert_eq!(unset.max_concurrency(), 100);
}

#[test]
fn unit_resumes_after_the_last_synced_block() {
    let plan = plan_unit(&contract(Some(100), Some(300)), false, &observed(5000, Some(150), None));
    assert_eq!(
        plan,
        Ok(UnitPlan {
            start_block: 151,
            end_block: Some(300),
            live_indexing: false,
            indexing_distance_from_head: 0,
        })
    );
    let done = plan_unit(&contract(Some(100), Some(300)), false, &observed(5000, Some(300), None));
    assert_eq!(done.unwrap().start_block, 301);
    let last = plan_unit(&contract(None, None), false, &observed(5000, Some(u64::MAX), None));
    assert_eq!(last.unwrap().start_block, u64::MAX);
}

#[test]
fn unit_starts_at_the_start_block_or_at_the_head() {
    let plan = plan_unit(&contract(Some(100), Some(300)), false, &observed(5000, None, None));
    assert_eq!(plan.unwrap().start_block, 100);
    let plan = plan_unit(&contract(None, None), false, &observed(5000, None, None)).unwrap();
    assert_eq!(
        plan,
        UnitPlan {
            start_block: 5000,
            end_block: Some(5000),
            live_indexing: true,
            indexing_distance_from_head: 0,
        }
    );
}

#[test]
fn unit_ends_at_the_end_block_and_at_the_head_at_the_latest() {
    let plan = plan_unit(&contract(Some(0), Some(300)), false, &observed(200, None, None)).unwrap();
    assert_eq!(plan.end_block, Some(200));
    assert!(!plan.live_indexing);
    let plan = plan_unit(&contract(Some(0), Some(200)), false, &observed(200, None, None)).unwrap();
    assert_eq!(plan.end_block, Some(200));
    let plan = plan_unit(&contract(Some(0), None), false, &observed(200, None, Some(1))).unwrap();
    assert_eq!(plan.end_block, Some(200));
    assert_eq!(plan.indexing_distance_from_head, 0);
    assert!(plan.live_indexing);
}

#[test]
fn reorg_safe_unit_stays_a_safe_distance_behind_the_head() {
    let plan = plan_unit(&contract(Some(100), None), true, &observed(1000, None, Some(1)));
    assert_eq!(
        plan,
        Ok(UnitPlan {
            start_block: 100,
            end_block: Some(988),
            live_indexing: true,
            indexing_distance_from_head: 12,
        })
    );
    let bounded =
        plan_unit(&contract(Some(100), Some(500)), true, &observed(1000, None, Some(1))).unwrap();
    assert_eq!(bounded.end_block, Some(500));
    assert_eq!(bounded.indexing_distance_from_head, 12);
    let near =
        plan_unit(&contract(Some(100), Some(995)), true, &observed(1000, None, Some(1))).unwrap();
    assert_eq!(near.end_block, Some(988));
    assert!(!near.live_indexing);
    let rollup =
        plan_unit(&contract(Some(100), None), true, &observed(1000, None, Some(42161))).unwrap();
    assert_eq!((rollup.end_block, rollup.indexing_distance_from_head), (Some(997), 3));
    let unknown =
        plan_unit(&contract(Some(100), None), true, &observed(1000, None, Some(77))).unwrap();
    assert_eq!((unknown.end_block, unknown.indexing_distance_from_head), (Some(1000), 0));
}

#[test]
fn young_chain_has_no_safe_block_yet() {
    let plan = plan_unit(&contract(None, None), true, &observed(11, None, Some(1))).unwrap();
    assert_eq!(
        plan,
        UnitPlan {
            start_block: 11,
            end_block: None,
            live_indexing: true,
            indexing_distance_from_head: 12,
        }
    );
    let plan = plan_unit(&contract(None, None), true, &observed(12, None, Some(1))).unwrap();
    assert_eq!(plan.end_block, Some(0));
}

#[test]
fn reorg_safe_unit_needs_the_chain_id() {
    let plan = plan_unit(&contract(Some(100), None), true, &observed(1000, None, None));
    assert_eq!(plan, Err(PlanError::ChainIdMissing));
    let plan = plan_unit(&contract(Some(100), None), false, &observed(1000, None, None));
    assert!(plan.is_ok());
}

#[test]
fn logs_of_a_window_become_a_batch_for_the_callback() {
    let registry = registry(1, 40);
    let topic = TopicHash { bytes: [1; 32] };
    let logs = vec![(100u64, 0u64), (100, 1), (124, 0)];
    let stream = FetchLogsStream { logs: logs.clone(), from_block: 100, to_block: 124 };
    assert_eq!(
        handle_logs_result(&topic, true, &registry, Ok(stream)),
        Ok(HandledLogs {
            dispatch: Some(Dispatch { callback: 40, data: logs.clone(), awaited: true }),
            synced_to: 124,
        })
    );
    let stream = FetchLogsStream { logs: logs.clone(), from_block: 100, to_block: 124 };
    let detached = handle_logs_result(&topic, false, &registry, Ok(stream)).unwrap();
    assert_eq!(detached.dispatch, Some(Dispatch { callback: 40, data: logs, awaited: false }));
}

#[test]
fn window_without_logs_is_synced_without_a_batch() {
    let registry = registry(1, 40);
    let stream = FetchLogsStream { logs: Vec::<u8>::new(), from_block: 125, to_block: 149 };
    let handled = handle_logs_result(&TopicHash { bytes: [1; 32] }, true, &registry, Ok(stream));
    assert_eq!(handled, Ok(HandledLogs { dispatch: None, synced_to: 149 }));
    let stream = FetchLogsStream { logs: Vec::<u8>::new(), from_block: 125, to_block: 149 };
    let handled = handle_logs_result(&TopicHash { bytes: [9; 32] }, true, &registry, Ok(stream));
    assert_eq!(handled, Ok(HandledLogs { dispatch: None, synced_to: 149 }));
}

#[test]
fn logs_without_a_callback_end_the_unit() {
    let registry = registry(1, 40);
    let stream = FetchLogsStream { logs: vec![1u8], from_block: 125, to_block: 149 };
    let handled = handle_logs_result(&TopicHash { bytes: [9; 32] }, true, &registry, Ok(stream));
    assert_eq!(
        handled,
        Err(UnitError {
            reason: FailureReason::MissingHandler,
            range: Some(BlockRange { from: 125, to: 149 }),
        })
    );
}

#[test]
fn failed_fetch_ends_the_unit_with_its_window() {
    let registry = registry(1, 40);
    let error = FetchError {
        kind: ProviderErrorKind::Fatal,
        window: Some(BlockRange { from: 1, to: 2 }),
    };
    let handled =
        handle_logs_result::<u8>(&TopicHash { bytes: [1; 32] }, false, &registry, Err(error));
    assert_eq!(
        handled,
        Err(UnitError {
            reason: FailureReason::Provider(ProviderErrorKind::Fatal),
            range: Some(BlockRange { from: 1, to: 2 }),
        })
    );
}

#[test]
fn reasons_are_given_in_words() {
    assert_eq!(
        FailureReason::Provider(ProviderErrorKind::RangeTooWide).text(),
        "the provider found the range too wide"
    );
    assert_eq!(
        FailureReason::Provider(ProviderErrorKind::RateLimited).text(),
        "the provider limited the rate of requests"
    );
    assert_eq!(FailureReason::Provider(ProviderErrorKind::Transient).text(), "the provider failed");
    assert_eq!(
        FailureReason::Provider(ProviderErrorKind::Fatal).text(),
        "the provider refused the request"
    );
    assert_eq!(FailureReason::MissingHandler.text(), "no callback is registered for the topic");
    assert_eq!(FailureReason::UnusableSetup.text(), "the setup of the contract gives no filter");
    assert_eq!(FailureReason::Unresolved.text(), "the chain or the store could not be read");
}

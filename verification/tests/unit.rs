use rindexer_core::callback_registry::{EventCallbackRegistry, EventInformation};
use rindexer_core::contract_setup::{
    AddressDetails, ContractAddresses, ContractInformation, FactoryDetails, IndexingContractSetup,
    NetworkContract,
};
use rindexer_core::fetch_logs::{FetchPhase, ProviderErrorKind, RetryPolicy};
use rindexer_core::filter::LogFilter;
use rindexer_core::indexing::{FailureReason, UnitError, UnitPlan};
use rindexer_core::primitives::{Address, BlockRange, TopicHash};
use rindexer_core::unit::{
    process_logs, ProcessLogsParams, RunnerStage, UnitAction, UnitEvent, UnitRunner,
};

type ChainLog = (u64, u64);

const TOPIC: TopicHash = TopicHash { bytes: [1; 32] };

fn setup() -> IndexingContractSetup {
    IndexingContractSetup::Address(AddressDetails {
        address: ContractAddresses::Single(Address { bytes: [7; 20] }),
        indexed_filters: None,
    })
}

fn registry(topic: u8, callback: usize) -> EventCallbackRegistry {
    let mut registry = EventCallbackRegistry::new();
    registry
        .register_event(EventInformation {
            indexer_name: "Idx".to_string(),
            topic_id: TopicHash { bytes: [topic; 32] },
            event_name: "Transfer".to_string(),
            contract: ContractInformation {
                name: "Erc20".to_string(),
                details: vec![],
                abi: String::new(),
                reorg_safe_distance: false,
            },
            callback,
        })
        .unwrap();
    registry.complete()
}

fn params_with(setup: IndexingContractSetup, plan: UnitPlan, in_order: bool) -> ProcessLogsParams {
    ProcessLogsParams {
        indexer_name: "Idx".to_string(),
        contract_name: "Erc20".to_string(),
        topic_id: TOPIC,
        event_name: "Transfer".to_string(),
        network_contract: NetworkContract {
            id: "nc".to_string(),
            network: "mainnet".to_string(),
            indexing_contract_setup: setup,
            cached_provider: 0,
            decoder: 0,
            start_block: None,
            end_block: None,
        },
        plan,
        execute_events_logs_in_order: in_order,
    }
}

fn unit_params(plan: UnitPlan, in_order: bool) -> ProcessLogsParams {
    params_with(setup(), plan, in_order)
}

fn runner_for(params: &ProcessLogsParams, max_block_range: u64) -> UnitRunner {
    process_logs(params, max_block_range, RetryPolicy::default())
}

fn historical(start: u64, end: u64) -> UnitPlan {
    UnitPlan {
        start_block: start,
        end_block: Some(end),
        live_indexing: false,
        indexing_distance_from_head: 0,
    }
}

fn chain_logs() -> Vec<ChainLog> {
    vec![
        (100, 0),
        (110, 3),
        (124, 1),
        (150, 0),
        (174, 7),
        (175, 0),
        (175, 1),
        (180, 0),
        (199, 0),
        (199, 4),
    ]
}

fn logs_in(chain: &[ChainLog], filter: &LogFilter) -> Vec<ChainLog> {
    chain
        .iter()
        .copied()
        .filter(|log| filter.from_block <= log.0 && log.0 <= filter.to_block)
        .collect()
}

struct Trace {
    windows: Vec<(u64, u64)>,
    batches: Vec<Vec<ChainLog>>,
    awaited: Vec<bool>,
    callbacks: Vec<usize>,
    writes: Vec<u64>,
    permits_taken: usize,
    ended: UnitAction<ChainLog>,
}

fn drive(
    runner: &mut UnitRunner,
    params: &ProcessLogsParams,
    registry: &EventCallbackRegistry,
    chain: &[ChainLog],
) -> Trace {
    let mut trace = Trace {
        windows: vec![],
        batches: vec![],
        awaited: vec![],
        callbacks: vec![],
        writes: vec![],
        permits_taken: 0,
        ended: UnitAction::Ignored,
    };
    let mut holding = false;
    let mut event = UnitEvent::Begin;
    loop {
        let action = runner.step(params, registry, event);
        event = match action {
            UnitAction::AcquirePermit => {
                assert!(!holding);
                holding = true;
                trace.permits_taken += 1;
                UnitEvent::PermitAcquired
            }
            UnitAction::GetLogs(filter) => {
                assert!(holding);
                assert_eq!(filter.topic0, TOPIC);
                assert_eq!(
                    filter.address,
                    Some(ContractAddresses::Single(Address { bytes: [7; 20] }))
                );
                trace.windows.push((filter.from_block, filter.to_block));
                UnitEvent::Logs(logs_in(chain, &filter))
            }
            UnitAction::Dispatch(dispatch) => {
                assert!(holding);
                trace.batches.push(dispatch.data);
                trace.awaited.push(dispatch.awaited);
                trace.callbacks.push(dispatch.callback);
                UnitEvent::Dispatched
            }
            UnitAction::ReleasePermit => {
                assert!(holding);
                holding = false;
                UnitEvent::Continue
            }
            UnitAction::WriteProgress(block) => {
                assert!(!holding);
                trace.writes.push(block);
                UnitEvent::Continue
            }
            ended => {
                assert!(!holding);
                trace.ended = ended;
                return trace;
            }
        };
    }
}

#[test]
fn historical_unit_dispatches_the_windows_that_hold_logs() {
    let registry = registry(1, 40);
    let params = unit_params(historical(100, 200), true);
    let mut runner = runner_for(&params, 25);
    assert_eq!(runner.stage(), RunnerStage::Created);
    let trace = drive(&mut runner, &params, &registry, &chain_logs());
    assert_eq!(trace.ended, UnitAction::Finished);
    assert_eq!(trace.windows, vec![(100, 124), (125, 149), (150, 174), (175, 199), (200, 200)]);
    let sizes: Vec<usize> = trace.batches.iter().map(|b| b.len()).collect();
    assert_eq!(sizes, vec![3, 2, 5]);
    assert_eq!(trace.callbacks, vec![40, 40, 40]);
    assert_eq!(trace.awaited, vec![true, true, true]);
    assert_eq!(trace.writes, vec![124, 149, 174, 199, 200]);
    assert_eq!(*trace.writes.last().unwrap(), 200);
    assert_eq!(trace.permits_taken, 5);
    assert_eq!(runner.stage(), RunnerStage::Finished);
    assert_eq!(runner.fetcher().phase(), FetchPhase::Finished);
}

#[test]
fn batches_reach_the_callback_in_the_order_of_the_chain() {
    let registry = registry(1, 40);
    let params = unit_params(historical(100, 200), true);
    let mut runner = runner_for(&params, 25);
    let trace = drive(&mut runner, &params, &registry, &chain_logs());
    let delivered: Vec<ChainLog> = trace.batches.concat();
    assert_eq!(delivered, chain_logs());
    for pair in delivered.windows(2) {
        assert!(pair[0] < pair[1]);
    }
}

#[test]
fn detached_delivery_hands_on_the_same_batches() {
    let registry = registry(1, 40);
    let awaited = unit_params(historical(100, 200), true);
    let started = unit_params(historical(100, 200), false);
    let mut in_order = runner_for(&awaited, 25);
    let mut detached = runner_for(&started, 25);
    let first = drive(&mut in_order, &awaited, &registry, &chain_logs());
    let second = drive(&mut detached, &started, &registry, &chain_logs());
    assert_eq!(first.batches, second.batches);
    assert_eq!(first.windows, second.windows);
    assert_eq!(first.writes, second.writes);
    assert_eq!(first.awaited, vec![true, true, true]);
    assert_eq!(second.awaited, vec![false, false, false]);
    let mut sorted_first = first.batches.concat();
    let mut sorted_second = second.batches.concat();
    sorted_first.sort();
    sorted_second.sort();
    assert_eq!(sorted_first, sorted_second);
}

#[test]
fn unit_begins_by_asking_for_a_permit() {
    let registry = registry(1, 40);
    let params = unit_params(historical(0, 9), true);
    let mut runner = runner_for(&params, 10);
    assert_eq!(
        runner.step::<ChainLog>(&params, &registry, UnitEvent::Begin),
        UnitAction::AcquirePermit
    );
    assert_eq!(runner.stage(), RunnerStage::AwaitingPermit);
    assert_eq!(
        runner.step::<ChainLog>(&params, &registry, UnitEvent::Begin),
        UnitAction::Ignored
    );
    assert_eq!(
        runner.step(&params, &registry, UnitEvent::Logs(vec![(1u64, 1u64)])),
        UnitAction::Ignored
    );
    let action = runner.step::<ChainLog>(&params, &registry, UnitEvent::PermitAcquired);
    assert_eq!(
        action,
        UnitAction::GetLogs(LogFilter {
            address: Some(ContractAddresses::Single(Address { bytes: [7; 20] })),
            topic0: TOPIC,
            topic1: None,
            topic2: None,
            topic3: None,
            from_block: 0,
            to_block: 9,
        })
    );
    assert_eq!(runner.stage(), RunnerStage::FetchingLogs);
}

#[test]
fn progress_is_written_only_after_the_batch_is_accepted() {
    let registry = registry(1, 40);
    let params = unit_params(historical(0, 9), true);
    let mut runner = runner_for(&params, 10);
    runner.step::<ChainLog>(&params, &registry, UnitEvent::Begin);
    runner.step::<ChainLog>(&params, &registry, UnitEvent::PermitAcquired);
    let action = runner.step(&params, &registry, UnitEvent::Logs(vec![(3u64, 0u64)]));
    assert!(matches!(action, UnitAction::Dispatch(_)));
    assert_eq!(runner.stage(), RunnerStage::Dispatching { synced_to: 9 });
    assert_eq!(
        runner.step::<ChainLog>(&params, &registry, UnitEvent::Continue),
        UnitAction::Ignored
    );
    assert_eq!(
        runner.step::<ChainLog>(&params, &registry, UnitEvent::PermitAcquired),
        UnitAction::Ignored
    );
    assert_eq!(
        runner.step::<ChainLog>(&params, &registry, UnitEvent::Dispatched),
        UnitAction::ReleasePermit
    );
    assert_eq!(
        runner.step::<ChainLog>(&params, &registry, UnitEvent::Continue),
        UnitAction::WriteProgress(9)
    );
    assert_eq!(
        runner.step::<ChainLog>(&params, &registry, UnitEvent::Continue),
        UnitAction::Finished
    );
}

#[test]
fn logs_without_a_callback_give_the_unit_up() {
    let registry = registry(2, 40);
    let params = unit_params(historical(100, 200), true);
    let mut runner = runner_for(&params, 25);
    let trace = drive(&mut runner, &params, &registry, &chain_logs());
    assert_eq!(
        trace.ended,
        UnitAction::Failed(UnitError {
            reason: FailureReason::MissingHandler,
            range: Some(BlockRange { from: 100, to: 124 }),
        })
    );
    assert!(trace.batches.is_empty());
    assert!(trace.writes.is_empty());
    assert_eq!(runner.stage(), RunnerStage::Failed);
}

#[test]
fn failed_requests_give_the_permit_back_and_are_retried() {
    let registry = registry(1, 40);
    let params = unit_params(historical(0, 99), true);
    let policy = RetryPolicy { max_retries: 1, base_delay_ms: 200, max_delay_ms: 30_000 };
    let mut runner = process_logs(&params, 100, policy);
    let mut step = |event: UnitEvent<ChainLog>| runner.step(&params, &registry, event);
    assert_eq!(step(UnitEvent::Begin), UnitAction::AcquirePermit);
    assert!(matches!(step(UnitEvent::PermitAcquired), UnitAction::GetLogs(_)));
    assert_eq!(
        step(UnitEvent::RequestFailed(ProviderErrorKind::RangeTooWide)),
        UnitAction::ReleasePermit
    );
    assert_eq!(step(UnitEvent::Continue), UnitAction::AcquirePermit);
    match step(UnitEvent::PermitAcquired) {
        UnitAction::GetLogs(filter) => assert_eq!((filter.from_block, filter.to_block), (0, 49)),
        other => panic!("unexpected {:?}", other),
    }
    assert_eq!(
        step(UnitEvent::RequestFailed(ProviderErrorKind::Transient)),
        UnitAction::ReleasePermit
    );
    assert_eq!(step(UnitEvent::Continue), UnitAction::Sleep { delay_ms: 200 });
    assert_eq!(step(UnitEvent::Continue), UnitAction::Ignored);
    assert_eq!(step(UnitEvent::Woken), UnitAction::AcquirePermit);
    assert!(matches!(step(UnitEvent::PermitAcquired), UnitAction::GetLogs(_)));
    assert_eq!(
        step(UnitEvent::RequestFailed(ProviderErrorKind::Transient)),
        UnitAction::ReleasePermit
    );
    assert_eq!(
        step(UnitEvent::Continue),
        UnitAction::Failed(UnitError {
            reason: FailureReason::Provider(ProviderErrorKind::Transient),
            range: Some(BlockRange { from: 0, to: 49 }),
        })
    );
    assert_eq!(step(UnitEvent::Begin), UnitAction::Ignored);
}

#[test]
fn unusable_setup_gives_the_unit_up_before_any_request() {
    let registry = registry(1, 40);
    let broken = IndexingContractSetup::Factory(FactoryDetails {
        address: "not an address".to_string(),
        event_name: "PairCreated".to_string(),
        parameter_name: "pair".to_string(),
        abi: String::new(),
    });
    let params = params_with(broken, historical(0, 9), true);
    let mut runner = runner_for(&params, 10);
    let mut step = |event: UnitEvent<ChainLog>| runner.step(&params, &registry, event);
    assert_eq!(step(UnitEvent::Begin), UnitAction::AcquirePermit);
    assert_eq!(step(UnitEvent::PermitAcquired), UnitAction::ReleasePermit);
    assert_eq!(
        step(UnitEvent::Continue),
        UnitAction::Failed(UnitError {
            reason: FailureReason::UnusableSetup,
            range: Some(BlockRange { from: 0, to: 9 }),
        })
    );
}

#[test]
fn live_unit_waits_for_blocks_behind_the_head() {
    let registry = registry(1, 40);
    let plan = UnitPlan {
        start_block: 980,
        end_block: Some(988),
        live_indexing: true,
        indexing_distance_from_head: 12,
    };
    let params = params_with(setup(), plan, false);
    let mut runner = runner_for(&params, 100);
    let mut step = |event: UnitEvent<ChainLog>| runner.step(&params, &registry, event);
    assert_eq!(step(UnitEvent::Begin), UnitAction::AcquirePermit);
    match step(UnitEvent::PermitAcquired) {
        UnitAction::GetLogs(filter) => assert_eq!((filter.from_block, filter.to_block), (980, 988)),
        other => panic!("unexpected {:?}", other),
    }
    assert_eq!(step(UnitEvent::Logs(vec![])), UnitAction::ReleasePermit);
    assert_eq!(step(UnitEvent::Continue), UnitAction::WriteProgress(988));
    assert_eq!(step(UnitEvent::Continue), UnitAction::AcquirePermit);
    assert_eq!(step(UnitEvent::PermitAcquired), UnitAction::LatestBlock);
    assert_eq!(step(UnitEvent::Head(1000)), UnitAction::ReleasePermit);
    assert_eq!(step(UnitEvent::Continue), UnitAction::WaitForBlocks);
    assert_eq!(step(UnitEvent::Woken), UnitAction::AcquirePermit);
    assert_eq!(step(UnitEvent::PermitAcquired), UnitAction::LatestBlock);
    assert_eq!(step(UnitEvent::Head(1001)), UnitAction::ReleasePermit);
    assert_eq!(step(UnitEvent::Continue), UnitAction::AcquirePermit);
    match step(UnitEvent::PermitAcquired) {
        UnitAction::GetLogs(filter) => assert_eq!((filter.from_block, filter.to_block), (989, 989)),
        other => panic!("unexpected {:?}", other),
    }
    match step(UnitEvent::Logs(vec![(989, 0)])) {
        UnitAction::Dispatch(dispatch) => {
            assert_eq!(dispatch.data, vec![(989, 0)]);
            assert!(!dispatch.awaited);
        }
        other => panic!("unexpected {:?}", other),
    }
    assert_eq!(step(UnitEvent::Dispatched), UnitAction::ReleasePermit);
    assert_eq!(step(UnitEvent::Continue), UnitAction::WriteProgress(989));
    assert_eq!(step(UnitEvent::Continue), UnitAction::WaitForBlocks);
}

#[test]
fn shutdown_drops_a_request_and_ends_the_unit() {
    let registry = registry(1, 40);
    let params = unit_params(historical(0, 99), true);
    let mut runner = runner_for(&params, 10);
    let mut step = |event: UnitEvent<ChainLog>| runner.step(&params, &registry, event);
    step(UnitEvent::Begin);
    step(UnitEvent::PermitAcquired);
    assert_eq!(step(UnitEvent::Cancelled), UnitAction::ReleasePermit);
    assert_eq!(step(UnitEvent::Continue), UnitAction::Finished);
    assert_eq!(step(UnitEvent::Cancelled), UnitAction::Ignored);
    assert_eq!(step(UnitEvent::Begin), UnitAction::Ignored);
}

#[test]
fn shutdown_waits_for_the_batch_at_the_dispatcher() {
    let registry = registry(1, 40);
    let params = unit_params(historical(0, 99), true);
    let mut runner = runner_for(&params, 10);
    let mut step = |event: UnitEvent<ChainLog>| runner.step(&params, &registry, event);
    step(UnitEvent::Begin);
    step(UnitEvent::PermitAcquired);
    assert!(matches!(step(UnitEvent::Logs(vec![(1, 0)])), UnitAction::Dispatch(_)));
    assert_eq!(step(UnitEvent::Cancelled), UnitAction::AwaitDispatch);
    assert_eq!(step(UnitEvent::Dispatched), UnitAction::ReleasePermit);
    assert_eq!(step(UnitEvent::Continue), UnitAction::WriteProgress(9));
    assert_eq!(step(UnitEvent::Continue), UnitAction::Finished);
}

#[test]
fn shutdown_ends_a_waiting_unit_at_once() {
    let registry = registry(1, 40);
    let params = unit_params(historical(0, 99), true);
    let mut created = runner_for(&params, 10);
    assert_eq!(
        created.step::<ChainLog>(&params, &registry, UnitEvent::Cancelled),
        UnitAction::Finished
    );
    let mut waiting = runner_for(&params, 10);
    waiting.step::<ChainLog>(&params, &registry, UnitEvent::Begin);
    assert_eq!(
        waiting.step::<ChainLog>(&params, &registry, UnitEvent::Cancelled),
        UnitAction::Finished
    );
    assert_eq!(waiting.stage(), RunnerStage::Finished);
    let mut released = runner_for(&params, 10);
    released.step::<ChainLog>(&params, &registry, UnitEvent::Begin);
    released.step::<ChainLog>(&params, &registry, UnitEvent::PermitAcquired);
    released.step::<ChainLog>(&params, &registry, UnitEvent::Logs(vec![]));
    assert_eq!(
        released.step::<ChainLog>(&params, &registry, UnitEvent::Cancelled),
        UnitAction::WriteProgress(9)
    );
    assert_eq!(
        released.step::<ChainLog>(&params, &registry, UnitEvent::Continue),
        UnitAction::Finished
    );
}

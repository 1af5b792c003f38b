use rindexer_core::callback_registry::{EventCallbackRegistry, EventInformation};
use rindexer_core::contract_setup::{
    ContractInformation, FilterDetails, IndexingContractSetup, NetworkContract,
};
use rindexer_core::fetch_logs::{
    FetchPhase, FetchStep, LiveIndexingDetails, LogFetcher, ProviderErrorKind, RetryPolicy,
};
use rindexer_core::indexing::UnitPlan;
use rindexer_core::primitives::TopicHash;
use rindexer_core::progress::{IndexingEventProgress, IndexingEventsProgressState};
use rindexer_core::unit::{process_logs, ProcessLogsParams, RunnerStage, UnitAction, UnitEvent};

struct Dice(u64);

impl Dice {
    fn roll(&mut self, sides: u64) -> u64 {
        self.0 = self.0.wrapping_mul(6364136223846793005).wrapping_add(1442695040888963407);
        (self.0 >> 33) % sides
    }
}

fn kind(dice: &mut Dice) -> ProviderErrorKind {
    match dice.roll(3) {
        0 => ProviderErrorKind::RangeTooWide,
        1 => ProviderErrorKind::RateLimited,
        _ => ProviderErrorKind::Transient,
    }
}

#[test]
fn windows_cover_the_span_whatever_the_provider_does() {
    for seed in 0..200u64 {
        let mut dice = Dice(seed);
        let start = dice.roll(1000);
        let end = start + dice.roll(5000);
        let range = dice.roll(700);
        let policy = RetryPolicy { max_retries: u32::MAX, base_delay_ms: 1, max_delay_ms: 8 };
        let mut fetcher = LogFetcher::new(start, Some(end), range, policy, None);
        let mut windows: Vec<(u64, u64)> = Vec::new();
        let mut steps = 0;
        loop {
            steps += 1;
            assert!(steps < 1_000_000);
            match fetcher.next_step() {
                FetchStep::GetLogs(window) => {
                    assert!(window.from <= window.to);
                    assert!(window.to - window.from < fetcher.width());
                    assert!(fetcher.width() >= 1 && fetcher.width() <= range.max(1));
                    if dice.roll(3) == 0 {
                        assert!(fetcher.on_error(kind(&mut dice)).is_none());
                    } else {
                        let stream = fetcher.on_logs(vec![0u8]).unwrap();
                        windows.push((stream.from_block, stream.to_block));
                    }
                }
                FetchStep::Backoff { delay_ms } => {
                    assert!(delay_ms >= 1 && delay_ms <= 8);
                    fetcher.on_waited();
                }
                FetchStep::Finished => break,
                other => panic!("unexpected {:?}", other),
            }
        }
        assert_eq!(windows[0].0, start);
        assert_eq!(windows[windows.len() - 1].1, end);
        for pair in windows.windows(2) {
            assert_eq!(pair[1].0, pair[0].1 + 1);
        }
        assert!(windows.len() as u64 <= end - start + 1);
        assert_eq!(fetcher.phase(), FetchPhase::Finished);
    }
}

#[test]
fn live_windows_stay_behind_the_head_whatever_the_head_does() {
    for seed in 0..200u64 {
        let mut dice = Dice(seed ^ 0xabcdef);
        let margin = dice.roll(20);
        let live = Some(LiveIndexingDetails { indexing_distance_from_head: margin });
        let start = dice.roll(100);
        let mut head = start + dice.roll(300);
        let end = if head >= margin { Some(head - margin) } else { None };
        let policy = RetryPolicy { max_retries: u32::MAX, base_delay_ms: 1, max_delay_ms: 8 };
        let mut fetcher = LogFetcher::new(start, end, 1 + dice.roll(50), policy, live);
        let mut last_to: Option<u64> = None;
        let mut ranks = vec![fetcher.phase()];
        for _ in 0..400 {
            match fetcher.next_step() {
                FetchStep::GetLogs(window) => {
                    assert!(window.to + margin <= head);
                    if let Some(to) = last_to {
                        assert_eq!(window.from, to + 1);
                    } else {
                        assert_eq!(window.from, start);
                    }
                    if dice.roll(4) == 0 {
                        fetcher.on_error(ProviderErrorKind::RangeTooWide);
                    } else {
                        last_to = Some(fetcher.on_logs(vec![0u8]).unwrap().to_block);
                    }
                }
                FetchStep::PollHead { wait } => {
                    assert_eq!(wait, fetcher.phase() == FetchPhase::Tailing);
                    head = if dice.roll(5) == 0 {
                        head.saturating_sub(dice.roll(30))
                    } else {
                        head + dice.roll(40)
                    };
                    fetcher.on_head(head);
                }
                FetchStep::Backoff { .. } => fetcher.on_waited(),
                other => panic!("unexpected {:?}", other),
            }
            if *ranks.last().unwrap() != fetcher.phase() {
                ranks.push(fetcher.phase());
            }
        }
        let order = |phase: &FetchPhase| match phase {
            FetchPhase::Backfilling => 0,
            FetchPhase::CatchingUp => 1,
            FetchPhase::Tailing => 2,
            _ => 3,
        };
        for pair in ranks.windows(2) {
            assert!(order(&pair[0]) < order(&pair[1]));
        }
    }
}

#[test]
fn narrowed_window_recovers_under_any_mix_of_other_failures() {
    for seed in 0..100u64 {
        let mut dice = Dice(seed ^ 0x5eed);
        let ceiling = 1 + dice.roll(400);
        let policy = RetryPolicy { max_retries: u32::MAX, base_delay_ms: 1, max_delay_ms: 1 };
        let mut fetcher = LogFetcher::new(0, Some(u64::MAX), ceiling, policy, None);
        for _ in 0..dice.roll(12) {
            if fetcher.width() > 1 {
                fetcher.on_error(ProviderErrorKind::RangeTooWide);
            }
        }
        let narrowed = fetcher.width();
        let mut answered = 0;
        while answered < ceiling - narrowed {
            let before = fetcher.width();
            match fetcher.next_step() {
                FetchStep::GetLogs(_) => {
                    if dice.roll(3) == 0 {
                        fetcher.on_error(ProviderErrorKind::Transient);
                        assert_eq!(fetcher.width(), before);
                    } else {
                        fetcher.on_logs(vec![0u8]).unwrap();
                        answered += 1;
                        assert!(fetcher.width() >= (before + 1).min(ceiling));
                    }
                }
                FetchStep::Backoff { .. } => fetcher.on_waited(),
                other => panic!("unexpected {:?}", other),
            }
        }
        assert_eq!(fetcher.width(), ceiling);
    }
}

#[test]
fn units_write_increasing_progress_and_hold_one_permit_at_most() {
    let topic = TopicHash { bytes: [1; 32] };
    let mut registry = EventCallbackRegistry::new();
    registry
        .register_event(EventInformation {
            indexer_name: "Idx".to_string(),
            topic_id: topic,
            event_name: "Transfer".to_string(),
            contract: ContractInformation {
                name: "Erc20".to_string(),
                details: vec![],
                abi: String::new(),
                reorg_safe_distance: false,
            },
            callback: 0,
        })
        .unwrap();
    let registry = registry.complete();
    for seed in 0..100u64 {
        let mut dice = Dice(seed ^ 0x1234);
        let start = dice.roll(50);
        let params = ProcessLogsParams {
            indexer_name: "Idx".to_string(),
            contract_name: "Erc20".to_string(),
            topic_id: topic,
            event_name: "Transfer".to_string(),
            network_contract: NetworkContract {
                id: "nc".to_string(),
                network: "mainnet".to_string(),
                indexing_contract_setup: IndexingContractSetup::Filter(FilterDetails {
                    event_name: "Transfer".to_string(),
                    indexed_filters: None,
                }),
                cached_provider: 0,
                decoder: 0,
                start_block: None,
                end_block: None,
            },
            plan: UnitPlan {
                start_block: start,
                end_block: Some(start + dice.roll(2000)),
                live_indexing: false,
                indexing_distance_from_head: 0,
            },
            execute_events_logs_in_order: dice.roll(2) == 0,
        };
        let policy = RetryPolicy { max_retries: u32::MAX, base_delay_ms: 1, max_delay_ms: 4 };
        let mut runner = process_logs(&params, 1 + dice.roll(300), policy);
        let mut state = IndexingEventsProgressState {
            events: vec![IndexingEventProgress {
                id: "nc".to_string(),
                event_name: "Transfer".to_string(),
                last_synced_block: 0,
            }],
        };
        let mut held = 0u32;
        let mut dispatching = false;
        let mut last_written: Option<u64> = None;
        let mut last_window_to: Option<u64> = None;
        let mut event: UnitEvent<u64> = UnitEvent::Begin;
        loop {
            let action = runner.step(&params, &registry, event);
            let holding = matches!(
                runner.stage(),
                RunnerStage::FetchingLogs
                    | RunnerStage::FetchingHead
                    | RunnerStage::Dispatching { .. }
            );
            event = match action {
                UnitAction::AcquirePermit => {
                    assert_eq!(held, 0);
                    UnitEvent::PermitAcquired
                }
                UnitAction::GetLogs(filter) => {
                    assert_eq!(held, 0);
                    held += 1;
                    assert!(!dispatching);
                    if dice.roll(4) == 0 {
                        UnitEvent::RequestFailed(kind(&mut dice))
                    } else {
                        last_window_to = Some(filter.to_block);
                        UnitEvent::Logs((0..dice.roll(3)).map(|i| filter.from_block + i).collect())
                    }
                }
                UnitAction::Dispatch(dispatch) => {
                    assert_eq!(held, 1);
                    assert!(!dispatching);
                    assert!(!dispatch.data.is_empty());
                    assert_eq!(dispatch.awaited, params.execute_events_logs_in_order);
                    dispatching = true;
                    UnitEvent::Dispatched
                }
                UnitAction::ReleasePermit => {
                    assert_eq!(held, 1);
                    held -= 1;
                    dispatching = false;
                    UnitEvent::Continue
                }
                UnitAction::WriteProgress(block) => {
                    assert_eq!(held, 0);
                    assert_eq!(Some(block), last_window_to);
                    if let Some(before) = last_written {
                        assert!(block > before);
                    }
                    last_written = Some(block);
                    let earlier = state.events[0].last_synced_block;
                    state.update_last_synced_block(&"nc".to_string(), block);
                    assert!(state.events[0].last_synced_block >= earlier);
                    UnitEvent::Continue
                }
                UnitAction::Sleep { .. } => UnitEvent::Woken,
                UnitAction::Finished => break,
                other => panic!("unexpected {:?}", other),
            };
            assert_eq!(holding, held == 1);
        }
        assert_eq!(held, 0);
        assert_eq!(last_written, params.plan.end_block);
    }
}

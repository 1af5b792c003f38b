//! The indexing of events: how a unit of work is planned, how the logs of a
//! window are handled, how a unit runs, and how a run of units is supervised.
//!
//! A unit is one event on one network contract.

use vstd::prelude::*;
use vstd::string::StringExecFns;
use crate::primitives::{BlockRange, TopicHash};
use crate::contract_setup::NetworkContract;
use crate::callback_registry::{handler_of, EventCallbackRegistry};
use crate::fetch_logs::{
    lemma_tiles_without_last,
    tiles,
    FetchError,
    FetchEvent,
    FetchLogsStream,
    FetcherView,
    LiveIndexingDetails,
    ProviderErrorKind,
    RetryPolicy,
};
use crate::reorg::{reorg_safe_distance_for_chain, safe_distance, ChainId};

verus! {

pub const DEFAULT_MAX_CONCURRENCY: usize = 100;

/// Settings for the number of units of work in flight.
#[derive(Clone, Copy, Debug, PartialEq, Eq, Structural)]
pub struct ConcurrentSettings {
    pub max_concurrency: usize,
}

impl Default for ConcurrentSettings {
    fn default() -> (settings: ConcurrentSettings)
        ensures
            settings.max_concurrency == DEFAULT_MAX_CONCURRENCY,
    {
        ConcurrentSettings { max_concurrency: DEFAULT_MAX_CONCURRENCY }
    }
}

/// Settings for starting the indexing.
#[derive(Clone, Copy, Debug, PartialEq, Eq, Structural)]
pub struct StartIndexingSettings {
    pub concurrent: Option<ConcurrentSettings>,
    /// Events are indexed one after the other, in the order of registration.
    pub execute_in_event_order: bool,
    /// The callback of a batch is awaited before the next window is fetched.
    pub execute_event_logs_in_order: bool,
}

impl Default for StartIndexingSettings {
    fn default() -> (settings: StartIndexingSettings)
        ensures
            settings == (StartIndexingSettings {
                concurrent: Some(ConcurrentSettings { max_concurrency: DEFAULT_MAX_CONCURRENCY }),
                execute_in_event_order: false,
                execute_event_logs_in_order: false,
            }),
    {
        StartIndexingSettings {
            concurrent: Some(ConcurrentSettings::default()),
            execute_in_event_order: false,
            execute_event_logs_in_order: false,
        }
    }
}

impl StartIndexingSettings {
    /// The number of permits of the pool that bounds the work in flight.
    pub open spec fn spec_max_concurrency(&self) -> usize {
        match self.concurrent {
            Some(c) => c.max_concurrency,
            None => DEFAULT_MAX_CONCURRENCY,
        }
    }

    /// The number of permits of the pool that bounds the work in flight.
    #[verifier::when_used_as_spec(spec_max_concurrency)]
    pub fn max_concurrency(&self) -> (permits: usize)
        ensures
            permits == self.spec_max_concurrency(),
    {
        match self.concurrent {
            Some(c) => c.max_concurrency,
            None => DEFAULT_MAX_CONCURRENCY,
        }
    }
}

/// What was read of a chain and of the store before a unit is planned.
#[derive(Clone, Copy, Debug, PartialEq, Eq)]
pub struct UnitObservation {
    /// The head of the chain.
    pub latest_block: u64,
    /// The last block that the store holds as synced, if it holds one.
    pub last_synced_block: Option<u64>,
    /// The id of the chain; it is needed where the contract is indexed at a
    /// safe distance from the head.
    pub chain_id: Option<ChainId>,
}

/// The blocks that a unit is to index.
#[derive(Clone, Copy, Debug, PartialEq, Eq, Structural)]
pub struct UnitPlan {
    /// The first block to fetch.
    pub start_block: u64,
    /// The last block of the historical span; `None` where no block is far
    /// enough behind the head yet.
    pub end_block: Option<u64>,
    /// The unit goes on behind the head when the span is done.
    pub live_indexing: bool,
    /// The distance that the unit keeps from the head.
    pub indexing_distance_from_head: u64,
}

/// Why a unit could not be planned.
#[derive(Clone, Copy, Debug, PartialEq, Eq, Structural)]
pub enum PlanError {
    /// The contract is indexed at a safe distance, and the chain id is not
    /// known.
    ChainIdMissing,
}

/// The block after `last_synced`: a synced block is not fetched again.
pub open spec fn resume_block(last_synced: u64) -> u64 {
    if last_synced < u64::MAX {
        (last_synced + 1) as u64
    } else {
        last_synced
    }
}

/// The least of two blocks.
pub open spec fn lower_block(a: u64, b: u64) -> u64 {
    if a <= b {
        a
    } else {
        b
    }
}

/// The plan of a unit.
///
/// It starts after the last synced block, else at the contract's start block,
/// else at the head. It ends at the contract's end block, and at the head at
/// the latest. With a safe distance (`distance` is `Some`) it ends that far
/// behind the head at the latest, and keeps that distance when it goes on
/// live. It is live where the contract has no end block.
pub open spec fn planned(
    start_block: Option<u64>,
    end_block: Option<u64>,
    distance: Option<u64>,
    latest_block: u64,
    last_synced_block: Option<u64>,
) -> UnitPlan {
    let start = match last_synced_block {
        Some(last) => resume_block(last),
        None => match start_block {
            Some(block) => block,
            None => latest_block,
        },
    };
    let end = lower_block(
        match end_block {
            Some(block) => block,
            None => latest_block,
        },
        latest_block,
    );
    UnitPlan {
        start_block: start,
        end_block: match distance {
            Some(d) => if latest_block >= d {
                Some(lower_block(end, (latest_block - d) as u64))
            } else {
                None
            },
            None => Some(end),
        },
        live_indexing: end_block is None,
        indexing_distance_from_head: match distance {
            Some(d) => d,
            None => 0,
        },
    }
}

/// Plans a unit from what was read of the chain and of the store.
/// `reorg_safe_distance` says whether the contract is indexed at a safe
/// distance from the head.
pub fn plan_unit(
    contract: &NetworkContract,
    reorg_safe_distance: bool,
    observed: &UnitObservation,
) -> (r: Result<UnitPlan, PlanError>)
    ensures
        r is Err <==> reorg_safe_distance && observed.chain_id is None,
        r matches Ok(plan) ==> plan == planned(
            contract.start_block,
            contract.end_block,
            if reorg_safe_distance {
                Some(safe_distance(observed.chain_id.unwrap()@) as u64)
            } else {
                None
            },
            observed.latest_block,
            observed.last_synced_block,
        ),
{
    let latest = observed.latest_block;
    let distance: Option<u64> = if reorg_safe_distance {
        match &observed.chain_id {
            Some(chain_id) => Some(reorg_safe_distance_for_chain(chain_id)),
            None => {
                return Err(PlanError::ChainIdMissing);
            },
        }
    } else {
        None
    };
    let start_block = match observed.last_synced_block {
        Some(last) => if last < u64::MAX {
            last + 1
        } else {
            last
        },
        None => match contract.start_block {
            Some(block) => block,
            None => latest,
        },
    };
    let declared_end = match contract.end_block {
        Some(block) => block,
        None => latest,
    };
    let end = if declared_end <= latest {
        declared_end
    } else {
        latest
    };
    let end_block = match distance {
        Some(d) => if latest >= d {
            let safe = latest - d;
            Some(
                if end <= safe {
                    end
                } else {
                    safe
                },
            )
        } else {
            None
        },
        None => Some(end),
    };
    Ok(
        UnitPlan {
            start_block,
            end_block,
            live_indexing: contract.end_block.is_none(),
            indexing_distance_from_head: match distance {
                Some(d) => d,
                None => 0,
            },
        },
    )
}

/// Reorg safety of a plan: a span planned with a safe distance ends at least
/// that far behind the head, and never behind the head's own block.
pub proof fn law_plan_stays_behind_head(
    start_block: Option<u64>,
    end_block: Option<u64>,
    distance: Option<u64>,
    latest_block: u64,
    last_synced_block: Option<u64>,
)
    ensures
        planned(start_block, end_block, distance, latest_block, last_synced_block).end_block
            matches Some(end) ==> end <= latest_block && (distance matches Some(d) ==> end + d
            <= latest_block),
        end_block matches Some(declared) ==> (planned(
            start_block,
            end_block,
            distance,
            latest_block,
            last_synced_block,
        ).end_block matches Some(end) ==> end <= declared),
{
}

impl UnitPlan {
    /// The state of a new fetcher for the plan.
    pub open spec fn fetcher(self, max_block_range: u64, policy: RetryPolicy) -> FetcherView {
        FetcherView::initial(
            self.start_block,
            self.end_block,
            max_block_range,
            policy,
            if self.live_indexing {
                Some(
                    LiveIndexingDetails {
                        indexing_distance_from_head: self.indexing_distance_from_head,
                    },
                )
            } else {
                None
            },
        )
    }
}

/// Reorg safety of the historical span: the windows that the fetcher of a
/// plan hands out before a new head is reported to it do not reach above the
/// head that the plan was made with, and with a safe distance they stay that
/// far behind it.
pub proof fn law_planned_windows_stay_behind_head(
    start_block: Option<u64>,
    end_block: Option<u64>,
    distance: Option<u64>,
    latest_block: u64,
    last_synced_block: Option<u64>,
    max_block_range: u64,
    policy: RetryPolicy,
    events: Seq<FetchEvent>,
)
    requires
        forall|i: int| 0 <= i < events.len() ==> !((#[trigger] events[i]) is Head),
    ensures
        ({
            let plan = planned(start_block, end_block, distance, latest_block, last_synced_block);
            let windows = plan.fetcher(max_block_range, policy).windows(events);
            forall|i: int|
                0 <= i < windows.len() ==> (#[trigger] windows[i]).to <= latest_block && (
                distance matches Some(d) ==> windows[i].to + d <= latest_block)
        }),
{
    let plan = planned(start_block, end_block, distance, latest_block, last_synced_block);
    let fetcher = plan.fetcher(max_block_range, policy);
    law_plan_stays_behind_head(start_block, end_block, distance, latest_block, last_synced_block);
    fetcher.law_windows_stay_below_limit(events);
}

/// Why a unit was given up.
#[derive(Clone, Copy, Debug, PartialEq, Eq, Structural)]
pub enum FailureReason {
    /// The provider failed a request for good.
    Provider(ProviderErrorKind),
    /// Logs came for a topic that no callback is registered under.
    MissingHandler,
    /// The contract's setup gives no filter.
    UnusableSetup,
    /// The chain or the store could not be read before the unit began.
    Unresolved,
}

impl FailureReason {
    /// The reason in words.
    pub open spec fn spec_text(self) -> Seq<char> {
        match self {
            FailureReason::Provider(ProviderErrorKind::RangeTooWide) =>
                "the provider found the range too wide"@,
            FailureReason::Provider(ProviderErrorKind::RateLimited) =>
                "the provider limited the rate of requests"@,
            FailureReason::Provider(ProviderErrorKind::Transient) => "the provider failed"@,
            FailureReason::Provider(ProviderErrorKind::Fatal) =>
                "the provider refused the request"@,
            FailureReason::MissingHandler => "no callback is registered for the topic"@,
            FailureReason::UnusableSetup => "the setup of the contract gives no filter"@,
            FailureReason::Unresolved => "the chain or the store could not be read"@,
        }
    }

    /// The reason in words.
    pub fn text(&self) -> (r: String)
        ensures
            r@ == self.spec_text(),
    {
        match self {
            FailureReason::Provider(ProviderErrorKind::RangeTooWide) => String::from_str(
                "the provider found the range too wide",
            ),
            FailureReason::Provider(ProviderErrorKind::RateLimited) => String::from_str(
                "the provider limited the rate of requests",
            ),
            FailureReason::Provider(ProviderErrorKind::Transient) => String::from_str(
                "the provider failed",
            ),
            FailureReason::Provider(ProviderErrorKind::Fatal) => String::from_str(
                "the provider refused the request",
            ),
            FailureReason::MissingHandler => String::from_str(
                "no callback is registered for the topic",
            ),
            FailureReason::UnusableSetup => String::from_str(
                "the setup of the contract gives no filter",
            ),
            FailureReason::Unresolved => String::from_str(
                "the chain or the store could not be read",
            ),
        }
    }
}

/// The error that ends a unit, with the window that failed, if one did.
#[derive(Clone, Copy, Debug, PartialEq, Eq, Structural)]
pub struct UnitError {
    pub reason: FailureReason,
    pub range: Option<BlockRange>,
}

/// A batch for a callback, and how it is delivered.
#[derive(Debug, PartialEq, Eq)]
pub struct Dispatch<E> {
    /// The handle of the callback.
    pub callback: usize,
    /// The batch, whole and in the order in which the provider gave it.
    pub data: Vec<E>,
    /// The callback is awaited; otherwise it is started and left to run.
    pub awaited: bool,
}

/// What is to be done with the logs of a window.
#[derive(Debug, PartialEq, Eq)]
pub struct HandledLogs<E> {
    /// The batch to deliver; `None` for a window without logs.
    pub dispatch: Option<Dispatch<E>>,
    /// The block up to which the unit is synced once the batch is accepted.
    pub synced_to: u64,
}

/// Handles the result of fetching the logs of one window.
///
/// A window with logs gives a batch for the callback registered under
/// `topic_id`, awaited where `execute_events_logs_in_order` is set. A window
/// without logs gives none. Either way the unit is synced up to the end of the
/// window. A failed fetch, and a batch that no callback is registered for,
/// give the error that ends the unit.
pub fn handle_logs_result<E>(
    topic_id: &TopicHash,
    execute_events_logs_in_order: bool,
    registry: &EventCallbackRegistry,
    result: Result<FetchLogsStream<E>, FetchError>,
) -> (r: Result<HandledLogs<E>, UnitError>)
    ensures
        match result {
            Ok(stream) => if stream.logs@.len() == 0 {
                &&& r matches Ok(handled)
                &&& handled.dispatch is None
                &&& handled.synced_to == stream.to_block
            } else if handler_of(registry.events@, topic_id@) is Some {
                &&& r matches Ok(handled)
                &&& handled.synced_to == stream.to_block
                &&& handled.dispatch matches Some(dispatch)
                &&& dispatch.data == stream.logs
                &&& dispatch.awaited == execute_events_logs_in_order
                &&& Some(dispatch.callback) == handler_of(registry.events@, topic_id@)
            } else {
                r == Err::<HandledLogs<E>, UnitError>(
                    UnitError {
                        reason: FailureReason::MissingHandler,
                        range: Some(BlockRange { from: stream.from_block, to: stream.to_block }),
                    },
                )
            },
            Err(error) => r == Err::<HandledLogs<E>, UnitError>(
                UnitError { reason: FailureReason::Provider(error.kind), range: error.window },
            ),
        },
{
    match result {
        Ok(stream) => {
            let from_block = stream.from_block;
            let to_block = stream.to_block;
            if stream.logs.len() == 0 {
                Ok(HandledLogs { dispatch: None, synced_to: to_block })
            } else {
                match registry.trigger_event(topic_id, stream.logs) {
                    Some(delivery) => Ok(
                        HandledLogs {
                            dispatch: Some(
                                Dispatch {
                                    callback: delivery.callback,
                                    data: delivery.data,
                                    awaited: execute_events_logs_in_order,
                                },
                            ),
                            synced_to: to_block,
                        },
                    ),
                    None => Err(
                        UnitError {
                            reason: FailureReason::MissingHandler,
                            range: Some(BlockRange { from: from_block, to: to_block }),
                        },
                    ),
                }
            }
        },
        Err(error) => Err(
            UnitError { reason: FailureReason::Provider(error.kind), range: error.window },
        ),
    }
}

/// Where a log stands on the chain.
#[derive(Clone, Copy, Debug, PartialEq, Eq, Structural)]
pub struct LogPosition {
    pub block_number: u64,
    pub log_index: u64,
}

/// Whether `a` stands before `b` on the chain.
pub open spec fn stands_before(a: LogPosition, b: LogPosition) -> bool {
    a.block_number < b.block_number || (a.block_number == b.block_number && a.log_index
        < b.log_index)
}

/// Whether the logs of `logs` come in the order of the chain.
pub open spec fn in_chain_order(logs: Seq<LogPosition>) -> bool {
    forall|i: int, j: int| 0 <= i < j < logs.len() ==> stands_before(logs[i], logs[j])
}

/// Whether every log of `logs` lies in a block of `window`.
pub open spec fn lies_in(logs: Seq<LogPosition>, window: BlockRange) -> bool {
    forall|i: int|
        0 <= i < logs.len() ==> window.from <= (#[trigger] logs[i]).block_number <= window.to
}

/// The logs of the batches of `batches`, batch after batch.
pub open spec fn delivered(batches: Seq<Seq<LogPosition>>) -> Seq<LogPosition>
    decreases batches.len(),
{
    if batches.len() == 0 {
        Seq::empty()
    } else {
        delivered(batches.drop_last()) + batches.last()
    }
}

/// In-order dispatch: where a provider gives the logs of each window in the
/// order of the chain, the logs that reach the callbacks window after window
/// are in the order of the chain as a whole.
///
/// `windows` are the windows that a fetcher handed out, which cut the blocks
/// from `from` up to `limit` into consecutive pieces, and `batches` holds the
/// logs that the provider gave for each. Batches are handed on whole, in their
/// order and one at a time.
pub proof fn law_in_order_dispatch(
    windows: Seq<BlockRange>,
    from: nat,
    limit: nat,
    batches: Seq<Seq<LogPosition>>,
)
    requires
        tiles(windows, from, limit),
        batches.len() == windows.len(),
        forall|i: int|
            0 <= i < batches.len() ==> in_chain_order(#[trigger] batches[i]) && lies_in(
                batches[i],
                windows[i],
            ),
    ensures
        in_chain_order(delivered(batches)),
        forall|k: int|
            0 <= k < delivered(batches).len() ==> from <= (#[trigger] delivered(
                batches,
            )[k]).block_number < limit,
    decreases batches.len(),
{
    if batches.len() > 0 {
        let last = batches.len() - 1;
        let earlier_windows = windows.drop_last();
        let earlier = batches.drop_last();
        let cut: nat = windows[last].from as nat;
        assert(windows.last() == windows[last]);
        lemma_tiles_without_last(windows, from, limit);
        assert forall|i: int| 0 <= i < earlier.len() implies in_chain_order(#[trigger] earlier[i])
            && lies_in(earlier[i], earlier_windows[i]) by {
            assert(earlier[i] == batches[i]);
            assert(earlier_windows[i] == windows[i]);
        }
        law_in_order_dispatch(earlier_windows, from, cut, earlier);
        let before = delivered(earlier);
        let batch = batches[last];
        let all = delivered(batches);
        assert(batches.last() == batch);
        assert(all == before + batch);
        assert forall|k: int| 0 <= k < all.len() implies from <= (#[trigger] all[k]).block_number
            < limit by {
            if k < before.len() {
                assert(all[k] == before[k]);
            } else {
                assert(all[k] == batch[k - before.len()]);
            }
        }
        assert forall|i: int, j: int| 0 <= i < j < all.len() implies stands_before(
            all[i],
            all[j],
        ) by {
            if j < before.len() {
                assert(all[i] == before[i]);
                assert(all[j] == before[j]);
            } else if i < before.len() {
                assert(all[i] == before[i]);
                assert(all[j] == batch[j - before.len()]);
            } else {
                assert(all[i] == batch[i - before.len()]);
                assert(all[j] == batch[j - before.len()]);
            }
        }
    }
}

} // verus!

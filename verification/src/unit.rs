//! The run of one unit: one event on one network contract.
//!
//! A unit fetches its windows one after the other. For each request to the
//! provider it first takes a permit from the pool that bounds the work in
//! flight, and it gives the permit back when the dispatcher has accepted the
//! batch. Then it records its progress. [`UnitRunner::step`] takes what
//! happened and says what to do next.

use vstd::prelude::*;
use crate::primitives::{BlockRange, TopicHash};
use crate::contract_setup::{NetworkContract, NetworkContractView};
use crate::callback_registry::{handler_of, EventCallbackRegistry, EventInformation};
use crate::fetch_logs::{
    FetchEvent,
    FetchStep,
    FetcherView,
    LiveIndexingDetails,
    LogFetcher,
    ProviderErrorKind,
    RetryPolicy,
};
use crate::filter::{filter_for, setup_usable, try_build_filter, LogFilter};
use crate::indexing::{handle_logs_result, Dispatch, FailureReason, UnitError, UnitPlan};

verus! {

/// What a unit is waiting for.
#[derive(Clone, Copy, Debug, PartialEq, Eq, Structural)]
pub enum RunnerStage {
    /// Nothing was asked for yet.
    Created,
    /// A permit was asked for.
    AwaitingPermit,
    /// The logs of a window were asked for; the unit holds a permit.
    FetchingLogs,
    /// The latest block was asked for; the unit holds a permit.
    FetchingHead,
    /// A batch was handed to the dispatcher; the unit holds a permit.
    Dispatching { synced_to: u64 },
    /// The permit was given back.
    Released { synced_to: Option<u64>, failure: Option<UnitError> },
    /// The progress was handed on to be written.
    Writing,
    /// A wait before a request is made again.
    BackingOff,
    /// A wait before the head is asked for again.
    WaitingForBlocks,
    /// The unit has indexed its span and is not live.
    Finished,
    /// The unit was given up.
    Failed,
}

/// What is reported to a unit, as far as its state depends on it.
pub enum RunnerEvent {
    /// The run begins.
    Begin,
    /// The pool gave a permit.
    PermitAcquired,
    /// The provider gave this many logs for the window.
    Logs(nat),
    /// The provider failed the request.
    RequestFailed(ProviderErrorKind),
    /// The provider gave the latest block.
    Head(u64),
    /// The dispatcher accepted the batch: in order, its callback has
    /// returned; detached, its callback was started.
    Dispatched,
    /// The step just asked for needs no answer and was taken.
    Continue,
    /// The wait is over.
    Woken,
    /// The run is shut down.
    Cancelled,
}

/// What a unit asks for, without what it carries.
pub enum RunnerAction {
    AcquirePermit,
    GetLogs(BlockRange),
    LatestBlock,
    Dispatch { callback: usize, awaited: bool },
    ReleasePermit,
    WriteProgress(u64),
    Sleep { delay_ms: u64 },
    WaitForBlocks,
    AwaitDispatch,
    Finished,
    Failed(UnitError),
    Ignored,
}

/// The mathematical state of a unit.
pub struct RunnerView {
    pub fetcher: FetcherView,
    pub stage: RunnerStage,
    /// Batches are delivered in order: each callback is awaited.
    pub awaited: bool,
    /// The run is shut down: the unit asks for no more work.
    pub cancelled: bool,
}

impl RunnerView {
    /// The state of a new unit with the plan `plan`.
    pub open spec fn initial(
        plan: UnitPlan,
        max_block_range: u64,
        policy: RetryPolicy,
        execute_event_logs_in_order: bool,
    ) -> RunnerView {
        RunnerView {
            fetcher: plan.fetcher(max_block_range, policy),
            stage: RunnerStage::Created,
            awaited: execute_event_logs_in_order,
            cancelled: false,
        }
    }

    /// Whether the state is one that a unit can be in: its fetcher is
    /// well-formed and needs what the unit is waiting for, and a block that
    /// waits to be written is the last one fetched.
    pub open spec fn wf(self) -> bool {
        &&& self.fetcher.wf()
        &&& match self.stage {
            RunnerStage::AwaitingPermit => self.fetcher.next_step() is GetLogs
                || self.fetcher.next_step() is PollHead,
            RunnerStage::FetchingLogs => self.fetcher.next_step() is GetLogs,
            RunnerStage::FetchingHead => self.fetcher.next_step() is PollHead,
            RunnerStage::BackingOff => self.fetcher.next_step() is Backoff,
            RunnerStage::WaitingForBlocks => self.fetcher.next_step() is PollHead,
            RunnerStage::Dispatching { synced_to } => synced_to + 1 == self.fetcher.next,
            RunnerStage::Released { synced_to, failure } => {
                &&& synced_to matches Some(block) ==> block + 1 == self.fetcher.next
                &&& failure is Some ==> synced_to is None
            },
            RunnerStage::Finished => self.cancelled || self.fetcher.phase is Finished,
            _ => true,
        }
    }

    /// Whether the unit holds a permit: it does from the grant of the permit
    /// until it gives the permit back, which is while a request to the
    /// provider or a batch for the dispatcher is outstanding.
    pub open spec fn holds_permit(self) -> bool {
        self.stage is FetchingLogs || self.stage is FetchingHead || self.stage is Dispatching
    }

    /// Whether the unit has ended.
    pub open spec fn ended(self) -> bool {
        self.stage is Finished || self.stage is Failed
    }

    /// What a unit that is waiting for nothing does next: what its fetcher
    /// needs, or nothing more once the run is shut down.
    pub open spec fn decide(self) -> (RunnerView, RunnerAction) {
        if self.cancelled {
            (RunnerView { stage: RunnerStage::Finished, ..self }, RunnerAction::Finished)
        } else {
            self.decide_fetch()
        }
    }

    /// What a unit that is waiting for nothing does for its fetcher.
    pub open spec fn decide_fetch(self) -> (RunnerView, RunnerAction) {
        match self.fetcher.next_step() {
            FetchStep::GetLogs(_) => (
                RunnerView { stage: RunnerStage::AwaitingPermit, ..self },
                RunnerAction::AcquirePermit,
            ),
            FetchStep::PollHead { wait } => if wait {
                (
                    RunnerView { stage: RunnerStage::WaitingForBlocks, ..self },
                    RunnerAction::WaitForBlocks,
                )
            } else {
                (
                    RunnerView { stage: RunnerStage::AwaitingPermit, ..self },
                    RunnerAction::AcquirePermit,
                )
            },
            FetchStep::Backoff { delay_ms } => (
                RunnerView { stage: RunnerStage::BackingOff, ..self },
                RunnerAction::Sleep { delay_ms },
            ),
            FetchStep::Finished => (
                RunnerView { stage: RunnerStage::Finished, ..self },
                RunnerAction::Finished,
            ),
            FetchStep::Failed => (
                RunnerView { stage: RunnerStage::Failed, ..self },
                RunnerAction::Failed(
                    UnitError {
                        reason: FailureReason::Provider(ProviderErrorKind::Fatal),
                        range: None,
                    },
                ),
            ),
        }
    }

    /// The state after the permit is given back, with what is left to do.
    pub open spec fn release(self, synced_to: Option<u64>, failure: Option<UnitError>) -> (
        RunnerView,
        RunnerAction,
    ) {
        (
            RunnerView { stage: RunnerStage::Released { synced_to, failure }, ..self },
            RunnerAction::ReleasePermit,
        )
    }

    /// The state after `event`, and what the unit asks for. `callback` is the
    /// callback registered under the unit's topic, if one is, and `usable`
    /// says whether the contract's setup gives a filter. An event that the
    /// unit is not waiting for changes nothing and is ignored.
    pub open spec fn outcome(self, event: RunnerEvent, callback: Option<usize>, usable: bool) -> (
        RunnerView,
        RunnerAction,
    ) {
        match (self.stage, event) {
            (RunnerStage::Created, RunnerEvent::Begin) => self.decide(),
            (RunnerStage::AwaitingPermit, RunnerEvent::PermitAcquired) => match self.fetcher.next_step() {
                FetchStep::GetLogs(window) => if usable {
                    (
                        RunnerView { stage: RunnerStage::FetchingLogs, ..self },
                        RunnerAction::GetLogs(window),
                    )
                } else {
                    self.release(
                        None,
                        Some(
                            UnitError { reason: FailureReason::UnusableSetup, range: Some(window) },
                        ),
                    )
                },
                FetchStep::PollHead { .. } => (
                    RunnerView { stage: RunnerStage::FetchingHead, ..self },
                    RunnerAction::LatestBlock,
                ),
                _ => self.release(None, None),
            },
            (RunnerStage::FetchingLogs, RunnerEvent::Logs(count)) => {
                let fetched = RunnerView {
                    fetcher: self.fetcher.react(FetchEvent::Logs),
                    ..self
                };
                match self.fetcher.yielded(FetchEvent::Logs) {
                    Some(window) => if count == 0 {
                        fetched.release(Some(window.to), None)
                    } else {
                        match callback {
                            Some(callback) => (
                                RunnerView {
                                    stage: RunnerStage::Dispatching { synced_to: window.to },
                                    ..fetched
                                },
                                RunnerAction::Dispatch { callback, awaited: self.awaited },
                            ),
                            None => fetched.release(
                                None,
                                Some(
                                    UnitError {
                                        reason: FailureReason::MissingHandler,
                                        range: Some(window),
                                    },
                                ),
                            ),
                        }
                    },
                    None => fetched.release(None, None),
                }
            },
            (RunnerStage::FetchingLogs, RunnerEvent::RequestFailed(kind)) => self.fail_request(kind),
            (RunnerStage::FetchingHead, RunnerEvent::RequestFailed(kind)) => self.fail_request(kind),
            (RunnerStage::FetchingHead, RunnerEvent::Head(latest)) => RunnerView {
                fetcher: self.fetcher.react(FetchEvent::Head(latest)),
                ..self
            }.release(None, None),
            (RunnerStage::Dispatching { synced_to }, RunnerEvent::Dispatched) => self.release(
                Some(synced_to),
                None,
            ),
            (RunnerStage::Released { .. }, RunnerEvent::Continue) => self.proceed(),
            (RunnerStage::Writing, RunnerEvent::Continue) => self.proceed(),
            (RunnerStage::BackingOff, RunnerEvent::Woken) => RunnerView {
                fetcher: self.fetcher.react(FetchEvent::Waited),
                ..self
            }.decide(),
            (RunnerStage::WaitingForBlocks, RunnerEvent::Woken) => (
                RunnerView { stage: RunnerStage::AwaitingPermit, ..self },
                RunnerAction::AcquirePermit,
            ),
            (_, RunnerEvent::Cancelled) => self.cancel(),
            _ => (self, RunnerAction::Ignored),
        }
    }

    /// The state after the run was shut down, and what the unit asks for.
    ///
    /// A request at the provider is dropped and its permit given back. A batch
    /// at the dispatcher stays there: the unit waits for its acceptance and
    /// records its progress before it ends. A unit that was about to take a
    /// step that needs no answer takes it. Every other unit ends at once.
    pub open spec fn cancel(self) -> (RunnerView, RunnerAction) {
        let stopped = RunnerView { cancelled: true, ..self };
        match self.stage {
            RunnerStage::Finished | RunnerStage::Failed => (self, RunnerAction::Ignored),
            RunnerStage::FetchingLogs | RunnerStage::FetchingHead => stopped.release(None, None),
            RunnerStage::Dispatching { .. } => (stopped, RunnerAction::AwaitDispatch),
            RunnerStage::Released { .. } | RunnerStage::Writing => stopped.proceed(),
            _ => stopped.decide(),
        }
    }

    /// What a unit does after a step that needs no answer: after the permit
    /// was given back it ends with the failure, if there is one, and else
    /// hands on the block that it is synced to, if there is one; then it goes
    /// on with what is next.
    pub open spec fn proceed(self) -> (RunnerView, RunnerAction) {
        match self.stage {
            RunnerStage::Released { synced_to, failure } => match failure {
                Some(error) => (
                    RunnerView { stage: RunnerStage::Failed, ..self },
                    RunnerAction::Failed(error),
                ),
                None => match synced_to {
                    Some(block) => (
                        RunnerView { stage: RunnerStage::Writing, ..self },
                        RunnerAction::WriteProgress(block),
                    ),
                    None => self.decide(),
                },
            },
            _ => self.decide(),
        }
    }

    /// The state after the request at hand failed: the permit is given back,
    /// and the unit is given up where the fetcher is.
    pub open spec fn fail_request(self, kind: ProviderErrorKind) -> (RunnerView, RunnerAction) {
        RunnerView { fetcher: self.fetcher.react(FetchEvent::Error(kind)), ..self }.release(
            None,
            if self.fetcher.fails_on(kind) {
                Some(
                    UnitError {
                        reason: FailureReason::Provider(kind),
                        range: self.fetcher.yielded(FetchEvent::Logs),
                    },
                )
            } else {
                None
            },
        )
    }
}

/// What is reported to a unit.
#[derive(Debug, PartialEq, Eq)]
pub enum UnitEvent<E> {
    /// The run begins.
    Begin,
    /// The pool gave a permit.
    PermitAcquired,
    /// The provider gave these logs for the window.
    Logs(Vec<E>),
    /// The provider failed the request.
    RequestFailed(ProviderErrorKind),
    /// The provider gave the latest block.
    Head(u64),
    /// The dispatcher accepted the batch.
    Dispatched,
    /// The step just asked for needs no answer and was taken.
    Continue,
    /// The wait is over.
    Woken,
    /// The run is shut down.
    Cancelled,
}

impl<E> View for UnitEvent<E> {
    type V = RunnerEvent;

    open spec fn view(&self) -> RunnerEvent {
        match self {
            UnitEvent::Begin => RunnerEvent::Begin,
            UnitEvent::PermitAcquired => RunnerEvent::PermitAcquired,
            UnitEvent::Logs(logs) => RunnerEvent::Logs(logs@.len()),
            UnitEvent::RequestFailed(kind) => RunnerEvent::RequestFailed(*kind),
            UnitEvent::Head(latest) => RunnerEvent::Head(*latest),
            UnitEvent::Dispatched => RunnerEvent::Dispatched,
            UnitEvent::Continue => RunnerEvent::Continue,
            UnitEvent::Woken => RunnerEvent::Woken,
            UnitEvent::Cancelled => RunnerEvent::Cancelled,
        }
    }
}

/// What a unit asks for.
#[derive(Debug, PartialEq, Eq)]
pub enum UnitAction<E> {
    /// Take a permit from the pool, then report `PermitAcquired`.
    AcquirePermit,
    /// Ask the provider for the logs that the filter selects, then report
    /// `Logs` or `RequestFailed`.
    GetLogs(LogFilter),
    /// Ask the provider for the latest block, then report `Head` or
    /// `RequestFailed`.
    LatestBlock,
    /// Hand the batch to its callback, then report `Dispatched`: when the
    /// callback has returned where it is awaited, at once where it is not.
    Dispatch(Dispatch<E>),
    /// Give the permit back, then report `Continue`.
    ReleasePermit,
    /// Record that the unit is synced up to this block, then report
    /// `Continue` without waiting for the write.
    WriteProgress(u64),
    /// Wait this long, with jitter, then report `Woken`.
    Sleep { delay_ms: u64 },
    /// Wait for the interval at which the head is asked for, then report
    /// `Woken`.
    WaitForBlocks,
    /// Go on waiting for the dispatcher to accept the batch, for as long as
    /// the shutdown allows, then report `Dispatched`.
    AwaitDispatch,
    /// The unit has indexed its span and is not live, or the run was shut
    /// down.
    Finished,
    /// The unit is given up.
    Failed(UnitError),
    /// The event was not awaited; nothing changed.
    Ignored,
}

impl<E> View for UnitAction<E> {
    type V = RunnerAction;

    open spec fn view(&self) -> RunnerAction {
        match self {
            UnitAction::AcquirePermit => RunnerAction::AcquirePermit,
            UnitAction::GetLogs(filter) => RunnerAction::GetLogs(
                BlockRange { from: filter.from_block, to: filter.to_block },
            ),
            UnitAction::LatestBlock => RunnerAction::LatestBlock,
            UnitAction::Dispatch(dispatch) => RunnerAction::Dispatch {
                callback: dispatch.callback,
                awaited: dispatch.awaited,
            },
            UnitAction::ReleasePermit => RunnerAction::ReleasePermit,
            UnitAction::WriteProgress(block) => RunnerAction::WriteProgress(*block),
            UnitAction::Sleep { delay_ms } => RunnerAction::Sleep { delay_ms: *delay_ms },
            UnitAction::WaitForBlocks => RunnerAction::WaitForBlocks,
            UnitAction::AwaitDispatch => RunnerAction::AwaitDispatch,
            UnitAction::Finished => RunnerAction::Finished,
            UnitAction::Failed(error) => RunnerAction::Failed(*error),
            UnitAction::Ignored => RunnerAction::Ignored,
        }
    }
}

/// What the logs of a unit are processed with.
#[derive(Clone, Debug, PartialEq, Eq)]
pub struct ProcessLogsParams {
    pub indexer_name: String,
    pub contract_name: String,
    pub topic_id: TopicHash,
    pub event_name: String,
    pub network_contract: NetworkContract,
    /// The blocks to index.
    pub plan: UnitPlan,
    pub execute_events_logs_in_order: bool,
}

/// The mathematical content of [`ProcessLogsParams`].
pub struct ParamsView {
    pub indexer_name: Seq<char>,
    pub contract_name: Seq<char>,
    pub topic_id: Seq<u8>,
    pub event_name: Seq<char>,
    pub network_contract: NetworkContractView,
    pub plan: UnitPlan,
    pub execute_events_logs_in_order: bool,
}

impl View for ProcessLogsParams {
    type V = ParamsView;

    open spec fn view(&self) -> ParamsView {
        ParamsView {
            indexer_name: self.indexer_name@,
            contract_name: self.contract_name@,
            topic_id: self.topic_id@,
            event_name: self.event_name@,
            network_contract: self.network_contract@,
            plan: self.plan,
            execute_events_logs_in_order: self.execute_events_logs_in_order,
        }
    }
}

impl ProcessLogsParams {
    /// The parameters of the unit of `event` on its network contract at
    /// `contract`, with the plan `plan`; `None` where the event has no such
    /// contract.
    pub fn for_unit(
        event: &EventInformation,
        contract: usize,
        plan: UnitPlan,
        execute_events_logs_in_order: bool,
    ) -> (r: Option<ProcessLogsParams>)
        ensures
            r is Some <==> contract < event.contract.details@.len(),
            r matches Some(params) ==> params@ == (ParamsView {
                indexer_name: event.indexer_name@,
                contract_name: event.contract.name@,
                topic_id: event.topic_id@,
                event_name: event.event_name@,
                network_contract: event.contract.details@[contract as int]@,
                plan,
                execute_events_logs_in_order,
            }),
    {
        if contract >= event.contract.details.len() {
            return None;
        }
        Some(
            ProcessLogsParams {
                indexer_name: event.indexer_name.clone(),
                contract_name: event.contract.name.clone(),
                topic_id: event.topic_id,
                event_name: event.event_name.clone(),
                network_contract: event.contract.details[contract].copy(),
                plan,
                execute_events_logs_in_order,
            },
        )
    }
}

/// The runner that processes the logs of a unit: it fetches the blocks of the
/// plan in windows of at most `max_block_range` blocks.
pub fn process_logs(params: &ProcessLogsParams, max_block_range: u64, policy: RetryPolicy) -> (runner:
    UnitRunner)
    ensures
        runner@ == RunnerView::initial(
            params.plan,
            max_block_range,
            policy,
            params.execute_events_logs_in_order,
        ),
        runner@.wf(),
{
    UnitRunner::new(&params.plan, max_block_range, policy, params.execute_events_logs_in_order)
}

/// The run of one unit.
#[derive(Clone, Copy, Debug)]
pub struct UnitRunner {
    fetcher: LogFetcher,
    stage: RunnerStage,
    awaited: bool,
    cancelled: bool,
}

impl View for UnitRunner {
    type V = RunnerView;

    closed spec fn view(&self) -> RunnerView {
        RunnerView {
            fetcher: self.fetcher@,
            stage: self.stage,
            awaited: self.awaited,
            cancelled: self.cancelled,
        }
    }
}

impl UnitRunner {
    #[verifier::type_invariant]
    spec fn inv(self) -> bool {
        self@.wf()
    }

    /// A unit that is to index the blocks of `plan`, with windows of at most
    /// `max_block_range` blocks.
    pub fn new(
        plan: &UnitPlan,
        max_block_range: u64,
        policy: RetryPolicy,
        execute_event_logs_in_order: bool,
    ) -> (runner: UnitRunner)
        ensures
            runner@ == RunnerView::initial(
                *plan,
                max_block_range,
                policy,
                execute_event_logs_in_order,
            ),
            runner@.wf(),
    {
        let live = if plan.live_indexing {
            Some(
                LiveIndexingDetails {
                    indexing_distance_from_head: plan.indexing_distance_from_head,
                },
            )
        } else {
            None
        };
        UnitRunner {
            fetcher: LogFetcher::new(plan.start_block, plan.end_block, max_block_range, policy, live),
            stage: RunnerStage::Created,
            awaited: execute_event_logs_in_order,
            cancelled: false,
        }
    }

    /// What the unit is waiting for.
    pub fn stage(&self) -> (stage: RunnerStage)
        ensures
            stage == self@.stage,
    {
        self.stage
    }

    /// The fetcher of the unit.
    pub fn fetcher(&self) -> (fetcher: LogFetcher)
        ensures
            fetcher@ == self@.fetcher,
    {
        self.fetcher
    }

    fn decide<E>(fetcher: LogFetcher, awaited: bool, cancelled: bool) -> (r: (
        UnitRunner,
        UnitAction<E>,
    ))
        requires
            fetcher@.wf(),
        ensures
            (r.0@, r.1@) == (RunnerView {
                fetcher: fetcher@,
                stage: RunnerStage::Created,
                awaited,
                cancelled,
            }).decide(),
            r.0@.wf(),
    {
        if cancelled {
            return (
                UnitRunner { fetcher, stage: RunnerStage::Finished, awaited, cancelled },
                UnitAction::Finished,
            );
        }
        match fetcher.next_step() {
            FetchStep::GetLogs(_) => (
                UnitRunner { fetcher, stage: RunnerStage::AwaitingPermit, awaited, cancelled },
                UnitAction::AcquirePermit,
            ),
            FetchStep::PollHead { wait } => if wait {
                (
                    UnitRunner { fetcher, stage: RunnerStage::WaitingForBlocks, awaited, cancelled },
                    UnitAction::WaitForBlocks,
                )
            } else {
                (
                    UnitRunner { fetcher, stage: RunnerStage::AwaitingPermit, awaited, cancelled },
                    UnitAction::AcquirePermit,
                )
            },
            FetchStep::Backoff { delay_ms } => (
                UnitRunner { fetcher, stage: RunnerStage::BackingOff, awaited, cancelled },
                UnitAction::Sleep { delay_ms },
            ),
            FetchStep::Finished => (
                UnitRunner { fetcher, stage: RunnerStage::Finished, awaited, cancelled },
                UnitAction::Finished,
            ),
            FetchStep::Failed => (
                UnitRunner { fetcher, stage: RunnerStage::Failed, awaited, cancelled },
                UnitAction::Failed(
                    UnitError {
                        reason: FailureReason::Provider(ProviderErrorKind::Fatal),
                        range: None,
                    },
                ),
            ),
        }
    }

    /// Takes what happened and says what to do next.
    ///
    /// `params` are the parameters that the unit was made with, and
    /// `registry` holds the callbacks. The unit asks for one thing at a time;
    /// each request names the event that answers it.
    pub fn step<E>(
        &mut self,
        params: &ProcessLogsParams,
        registry: &EventCallbackRegistry,
        event: UnitEvent<E>,
    ) -> (action: UnitAction<E>)
        ensures
            (final(self)@, action@) == old(self)@.outcome(
                event@,
                handler_of(registry.events@, params.topic_id@),
                setup_usable(params.network_contract.indexing_contract_setup@),
            ),
            final(self)@.wf(),
            action matches UnitAction::GetLogs(filter) ==> filter@ == filter_for(
                params.topic_id@,
                params.network_contract.indexing_contract_setup@,
                filter.from_block,
                filter.to_block,
            ),
            action matches UnitAction::Dispatch(dispatch) ==> (event matches UnitEvent::Logs(logs)
                && dispatch.data == logs),
    {
        proof {
            use_type_invariant(&*self);
        }
        let topic_id = &params.topic_id;
        let setup = &params.network_contract.indexing_contract_setup;
        let mut fetcher = self.fetcher;
        let awaited = self.awaited;
        let cancelled = self.cancelled;
        match (self.stage, event) {
            (RunnerStage::Created, UnitEvent::Begin) => {
                let (next, action) = Self::decide(fetcher, awaited, cancelled);
                *self = next;
                action
            },
            (RunnerStage::AwaitingPermit, UnitEvent::PermitAcquired) => {
                match fetcher.next_step() {
                    FetchStep::GetLogs(window) => {
                        match try_build_filter(topic_id, setup, window.from, window.to) {
                            Some(filter) => {
                                *self = UnitRunner {
                                    fetcher,
                                    stage: RunnerStage::FetchingLogs,
                                    awaited,
                                    cancelled,
                                };
                                UnitAction::GetLogs(filter)
                            },
                            None => {
                                *self = UnitRunner {
                                    fetcher,
                                    stage: RunnerStage::Released {
                                        synced_to: None,
                                        failure: Some(
                                            UnitError {
                                                reason: FailureReason::UnusableSetup,
                                                range: Some(window),
                                            },
                                        ),
                                    },
                                    awaited,
                                    cancelled,
                                };
                                UnitAction::ReleasePermit
                            },
                        }
                    },
                    FetchStep::PollHead { .. } => {
                        *self = UnitRunner { fetcher, stage: RunnerStage::FetchingHead, awaited, cancelled };
                        UnitAction::LatestBlock
                    },
                    _ => {
                        *self = UnitRunner {
                            fetcher,
                            stage: RunnerStage::Released { synced_to: None, failure: None },
                            awaited,
                            cancelled,
                        };
                        UnitAction::ReleasePermit
                    },
                }
            },
            (RunnerStage::FetchingLogs, UnitEvent::Logs(logs)) => {
                match fetcher.on_logs(logs) {
                    Some(stream) => {
                        match handle_logs_result(topic_id, awaited, registry, Ok(stream)) {
                            Ok(handled) => match handled.dispatch {
                                Some(dispatch) => {
                                    *self = UnitRunner {
                                        fetcher,
                                        stage: RunnerStage::Dispatching {
                                            synced_to: handled.synced_to,
                                        },
                                        awaited,
                                        cancelled,
                                    };
                                    UnitAction::Dispatch(dispatch)
                                },
                                None => {
                                    *self = UnitRunner {
                                        fetcher,
                                        stage: RunnerStage::Released {
                                            synced_to: Some(handled.synced_to),
                                            failure: None,
                                        },
                                        awaited,
                                        cancelled,
                                    };
                                    UnitAction::ReleasePermit
                                },
                            },
                            Err(error) => {
                                *self = UnitRunner {
                                    fetcher,
                                    stage: RunnerStage::Released {
                                        synced_to: None,
                                        failure: Some(error),
                                    },
                                    awaited,
                                    cancelled,
                                };
                                UnitAction::ReleasePermit
                            },
                        }
                    },
                    None => {
                        *self = UnitRunner {
                            fetcher,
                            stage: RunnerStage::Released { synced_to: None, failure: None },
                            awaited,
                            cancelled,
                        };
                        UnitAction::ReleasePermit
                    },
                }
            },
            (RunnerStage::FetchingLogs, UnitEvent::RequestFailed(kind)) => {
                let (next, action) = Self::fail_request(fetcher, awaited, cancelled, topic_id, registry, kind);
                *self = next;
                action
            },
            (RunnerStage::FetchingHead, UnitEvent::RequestFailed(kind)) => {
                let (next, action) = Self::fail_request(fetcher, awaited, cancelled, topic_id, registry, kind);
                *self = next;
                action
            },
            (RunnerStage::FetchingHead, UnitEvent::Head(latest)) => {
                fetcher.on_head(latest);
                *self = UnitRunner {
                    fetcher,
                    stage: RunnerStage::Released { synced_to: None, failure: None },
                    awaited,
                    cancelled,
                };
                UnitAction::ReleasePermit
            },
            (RunnerStage::Dispatching { synced_to }, UnitEvent::Dispatched) => {
                *self = UnitRunner {
                    fetcher,
                    stage: RunnerStage::Released { synced_to: Some(synced_to), failure: None },
                    awaited,
                    cancelled,
                };
                UnitAction::ReleasePermit
            },
            (RunnerStage::Released { synced_to, failure }, UnitEvent::Continue) => match failure {
                Some(error) => {
                    *self = UnitRunner { fetcher, stage: RunnerStage::Failed, awaited, cancelled };
                    UnitAction::Failed(error)
                },
                None => match synced_to {
                    Some(block) => {
                        *self = UnitRunner { fetcher, stage: RunnerStage::Writing, awaited, cancelled };
                        UnitAction::WriteProgress(block)
                    },
                    None => {
                        let (next, action) = Self::decide(fetcher, awaited, cancelled);
                        *self = next;
                        action
                    },
                },
            },
            (RunnerStage::Writing, UnitEvent::Continue) => {
                let (next, action) = Self::decide(fetcher, awaited, cancelled);
                *self = next;
                action
            },
            (RunnerStage::BackingOff, UnitEvent::Woken) => {
                fetcher.on_waited();
                let (next, action) = Self::decide(fetcher, awaited, cancelled);
                *self = next;
                action
            },
            (RunnerStage::WaitingForBlocks, UnitEvent::Woken) => {
                *self = UnitRunner { fetcher, stage: RunnerStage::AwaitingPermit, awaited, cancelled };
                UnitAction::AcquirePermit
            },
            (stage, UnitEvent::Cancelled) => {
                let cancelled = true;
                match stage {
                    RunnerStage::Finished | RunnerStage::Failed => UnitAction::Ignored,
                    RunnerStage::FetchingLogs | RunnerStage::FetchingHead => {
                        *self = UnitRunner {
                            fetcher,
                            stage: RunnerStage::Released { synced_to: None, failure: None },
                            awaited,
                            cancelled,
                        };
                        UnitAction::ReleasePermit
                    },
                    RunnerStage::Dispatching { .. } => {
                        *self = UnitRunner { fetcher, stage, awaited, cancelled };
                        UnitAction::AwaitDispatch
                    },
                    RunnerStage::Released { synced_to, failure } => match failure {
                        Some(error) => {
                            *self = UnitRunner {
                                fetcher,
                                stage: RunnerStage::Failed,
                                awaited,
                                cancelled,
                            };
                            UnitAction::Failed(error)
                        },
                        None => match synced_to {
                            Some(block) => {
                                *self = UnitRunner {
                                    fetcher,
                                    stage: RunnerStage::Writing,
                                    awaited,
                                    cancelled,
                                };
                                UnitAction::WriteProgress(block)
                            },
                            None => {
                                let (next, action) = Self::decide(fetcher, awaited, cancelled);
                                *self = next;
                                action
                            },
                        },
                    },
                    _ => {
                        let (next, action) = Self::decide(fetcher, awaited, cancelled);
                        *self = next;
                        action
                    },
                }
            },
            _ => UnitAction::Ignored,
        }
    }

    fn fail_request<E>(
        fetcher: LogFetcher,
        awaited: bool,
        cancelled: bool,
        topic_id: &TopicHash,
        registry: &EventCallbackRegistry,
        kind: ProviderErrorKind,
    ) -> (r: (UnitRunner, UnitAction<E>))
        requires
            fetcher@.wf(),
        ensures
            (r.0@, r.1@) == (RunnerView {
                fetcher: fetcher@,
                stage: RunnerStage::Created,
                awaited,
                cancelled,
            }).fail_request(kind),
            r.0@.wf(),
    {
        let mut fetcher = fetcher;
        let failure = match fetcher.on_error(kind) {
            Some(error) => match handle_logs_result::<E>(topic_id, awaited, registry, Err(error)) {
                Ok(_) => None,
                Err(error) => Some(error),
            },
            None => None,
        };
        (
            UnitRunner {
                fetcher,
                stage: RunnerStage::Released { synced_to: None, failure },
                awaited,
                cancelled,
            },
            UnitAction::ReleasePermit,
        )
    }
}

/// Whether the blocks of `blocks` strictly increase.
pub open spec fn increasing(blocks: Seq<u64>) -> bool {
    forall|i: int, j: int| 0 <= i < j < blocks.len() ==> blocks[i] < blocks[j]
}

impl RunnerView {
    /// The block that the unit has fetched and not yet handed on to be
    /// written.
    pub open spec fn pending_write(self) -> Option<u64> {
        match self.stage {
            RunnerStage::Dispatching { synced_to } => Some(synced_to),
            RunnerStage::Released { synced_to, .. } => synced_to,
            _ => None,
        }
    }

    /// What the fetcher of the unit is told when the unit is told `event`.
    pub open spec fn fetch_event(self, event: RunnerEvent) -> Option<FetchEvent> {
        match (self.stage, event) {
            (RunnerStage::FetchingLogs, RunnerEvent::Logs(_)) => Some(FetchEvent::Logs),
            (RunnerStage::FetchingLogs, RunnerEvent::RequestFailed(kind)) => Some(
                FetchEvent::Error(kind),
            ),
            (RunnerStage::FetchingHead, RunnerEvent::RequestFailed(kind)) => Some(
                FetchEvent::Error(kind),
            ),
            (RunnerStage::FetchingHead, RunnerEvent::Head(latest)) => Some(FetchEvent::Head(latest)),
            (RunnerStage::BackingOff, RunnerEvent::Woken) => Some(FetchEvent::Waited),
            _ => None,
        }
    }

    /// What one event does to a well-formed unit.
    ///
    /// The unit stays well-formed, and its fetcher is told at most one thing.
    /// A permit is held from its grant until it is given back: a request to
    /// the provider is made only on the grant, a batch is handed to the
    /// dispatcher only under the permit, a permit is given back only by a unit
    /// that holds one or was just granted one, and the permit is asked for
    /// only by a unit that holds none. A batch is handed over only by a unit that has no
    /// batch with the dispatcher, and only the dispatcher's acceptance takes
    /// the unit on from there.
    pub proof fn lemma_outcome_effects(
        self,
        event: RunnerEvent,
        callback: Option<usize>,
        usable: bool,
    )
        requires
            self.wf(),
        ensures
            ({
                let (next, action) = self.outcome(event, callback, usable);
                &&& next.wf()
                &&& next.awaited == self.awaited
                &&& next.fetcher == match self.fetch_event(event) {
                    Some(told) => self.fetcher.react(told),
                    None => self.fetcher,
                }
                &&& (action is GetLogs || action is LatestBlock) ==> event is PermitAcquired
                &&& (!self.holds_permit() && next.holds_permit()) <==> (action is GetLogs
                    || action is LatestBlock)
                &&& action is Dispatch ==> self.stage is FetchingLogs && next.stage is Dispatching
                    && action->Dispatch_awaited == self.awaited
                &&& (self.holds_permit() && !next.holds_permit()) ==> action is ReleasePermit
                &&& action is ReleasePermit ==> !next.holds_permit() && (self.holds_permit()
                    || event is PermitAcquired)
                &&& next.holds_permit() ==> self.holds_permit() || (self.stage is AwaitingPermit
                    && event is PermitAcquired)
                &&& action is AcquirePermit ==> !self.holds_permit() && next.stage
                    is AwaitingPermit
                &&& (self.stage is Dispatching && !(next.stage is Dispatching)) ==> event
                    is Dispatched
                &&& action matches RunnerAction::GetLogs(window) ==> self.fetcher.next_step()
                    == FetchStep::GetLogs(window)
                &&& action matches RunnerAction::WriteProgress(block) ==> self.pending_write()
                    == Some(block) && next.pending_write() is None
                &&& !(action is WriteProgress) ==> (next.pending_write() == self.pending_write()
                    || self.pending_write() is None || next.ended())
                &&& (next.pending_write() is Some && self.pending_write() is None)
                    ==> self.fetcher.next <= next.pending_write().unwrap()
            }),
    {
        self.fetcher.lemma_event_effects(FetchEvent::Logs);
        self.fetcher.lemma_event_effects(FetchEvent::Waited);
        match event {
            RunnerEvent::RequestFailed(kind) => {
                self.fetcher.lemma_event_effects(FetchEvent::Error(kind));
            },
            RunnerEvent::Head(latest) => {
                self.fetcher.lemma_event_effects(FetchEvent::Head(latest));
            },
            _ => {},
        }
    }

    /// The state after the events of `events`, in their order.
    pub open spec fn run(self, events: Seq<RunnerEvent>, callback: Option<usize>, usable: bool)
        -> RunnerView
        decreases events.len(),
    {
        if events.len() == 0 {
            self
        } else {
            self.run(events.drop_last(), callback, usable).outcome(
                events.last(),
                callback,
                usable,
            ).0
        }
    }

    /// What the unit asks for on each of the events of `events`.
    pub open spec fn asked(self, events: Seq<RunnerEvent>, callback: Option<usize>, usable: bool)
        -> Seq<RunnerAction>
        decreases events.len(),
    {
        if events.len() == 0 {
            Seq::empty()
        } else {
            self.asked(events.drop_last(), callback, usable).push(
                self.run(events.drop_last(), callback, usable).outcome(
                    events.last(),
                    callback,
                    usable,
                ).1,
            )
        }
    }

    /// The blocks that the unit hands on to be written on the events of
    /// `events`, in their order.
    pub open spec fn writes(self, events: Seq<RunnerEvent>, callback: Option<usize>, usable: bool)
        -> Seq<u64>
        decreases events.len(),
    {
        if events.len() == 0 {
            Seq::empty()
        } else {
            let before = self.writes(events.drop_last(), callback, usable);
            match self.run(events.drop_last(), callback, usable).outcome(
                events.last(),
                callback,
                usable,
            ).1 {
                RunnerAction::WriteProgress(block) => before.push(block),
                _ => before,
            }
        }
    }

    /// A run keeps a well-formed unit well-formed.
    pub proof fn lemma_run_keeps_wf(
        self,
        events: Seq<RunnerEvent>,
        callback: Option<usize>,
        usable: bool,
    )
        requires
            self.wf(),
        ensures
            self.run(events, callback, usable).wf(),
            self.run(events, callback, usable).awaited == self.awaited,
            self.asked(events, callback, usable).len() == events.len(),
        decreases events.len(),
    {
        if events.len() > 0 {
            self.lemma_run_keeps_wf(events.drop_last(), callback, usable);
            self.run(events.drop_last(), callback, usable).lemma_outcome_effects(
                events.last(),
                callback,
                usable,
            );
        }
    }

    /// Monotonic progress of a unit: the blocks that a unit hands on to be
    /// written strictly increase, whatever is reported to it, and each lies
    /// behind the cursor of its fetcher.
    pub proof fn law_unit_progress_increases(
        self,
        events: Seq<RunnerEvent>,
        callback: Option<usize>,
        usable: bool,
    )
        requires
            self.wf(),
            self.pending_write() is None,
        ensures
            increasing(self.writes(events, callback, usable)),
            forall|i: int|
                0 <= i < self.writes(events, callback, usable).len() ==> self.fetcher.next <= (
                #[trigger] self.writes(events, callback, usable)[i]) < self.run(
                    events,
                    callback,
                    usable,
                ).fetcher.next,
            self.fetcher.next <= self.run(events, callback, usable).fetcher.next,
            self.run(events, callback, usable).pending_write() matches Some(block) ==> {
                &&& self.fetcher.next <= block
                &&& forall|i: int|
                    0 <= i < self.writes(events, callback, usable).len() ==> (
                    #[trigger] self.writes(events, callback, usable)[i]) < block
            },
        decreases events.len(),
    {
        if events.len() > 0 {
            let earlier = events.drop_last();
            let before = self.run(earlier, callback, usable);
            let done = self.writes(earlier, callback, usable);
            let all = self.writes(events, callback, usable);
            self.law_unit_progress_increases(earlier, callback, usable);
            self.lemma_run_keeps_wf(earlier, callback, usable);
            before.lemma_outcome_effects(events.last(), callback, usable);
            match before.fetch_event(events.last()) {
                Some(told) => {
                    before.fetcher.lemma_event_effects(told);
                },
                None => {},
            }
            assert forall|i: int| 0 <= i < all.len() implies self.fetcher.next <= (
            #[trigger] all[i]) < self.run(events, callback, usable).fetcher.next by {
                if i < done.len() {
                    assert(all[i] == done[i]);
                }
            }
            assert forall|i: int, j: int| 0 <= i < j < all.len() implies all[i] < all[j] by {
                assert(all[i] == done[i]);
                if j < done.len() {
                    assert(all[j] == done[j]);
                }
            }
            if self.run(events, callback, usable).pending_write() is Some {
                let block = self.run(events, callback, usable).pending_write().unwrap();
                assert forall|i: int| 0 <= i < all.len() implies (#[trigger] all[i]) < block by {
                    assert(all[i] == done[i]);
                }
            }
        }
    }

    /// A live unit ends only on shutdown: a unit that goes on behind the head
    /// finishes only after the run was shut down. Short of that it ends only
    /// where it is given up.
    pub proof fn law_live_unit_ends_only_on_shutdown(
        self,
        events: Seq<RunnerEvent>,
        callback: Option<usize>,
        usable: bool,
    )
        requires
            self.wf(),
            self.fetcher.margin is Some,
        ensures
            self.run(events, callback, usable).stage is Finished ==> self.run(
                events,
                callback,
                usable,
            ).cancelled,
        decreases events.len(),
    {
        self.lemma_run_keeps_wf(events, callback, usable);
        self.lemma_unit_keeps_margin(events, callback, usable);
    }

    /// A unit keeps the margin of its fetcher.
    proof fn lemma_unit_keeps_margin(
        self,
        events: Seq<RunnerEvent>,
        callback: Option<usize>,
        usable: bool,
    )
        requires
            self.wf(),
        ensures
            self.run(events, callback, usable).fetcher.margin == self.fetcher.margin,
        decreases events.len(),
    {
        if events.len() > 0 {
            let earlier = events.drop_last();
            let before = self.run(earlier, callback, usable);
            self.lemma_unit_keeps_margin(earlier, callback, usable);
            self.lemma_run_keeps_wf(earlier, callback, usable);
            before.lemma_outcome_effects(events.last(), callback, usable);
            match before.fetch_event(events.last()) {
                Some(told) => {
                    before.fetcher.lemma_event_effects(told);
                },
                None => {},
            }
        }
    }

    /// One batch at a time: between two batches that a unit hands to the
    /// dispatcher, the dispatcher has accepted the first. Where batches are
    /// delivered in order, the acceptance is the return of the callback, so
    /// the callback of a batch has returned before the next batch is handed
    /// over.
    pub proof fn law_one_batch_at_a_time(
        self,
        events: Seq<RunnerEvent>,
        callback: Option<usize>,
        usable: bool,
        first: int,
        second: int,
    )
        requires
            self.wf(),
            0 <= first < second < events.len(),
            self.asked(events, callback, usable)[first] is Dispatch,
            self.asked(events, callback, usable)[second] is Dispatch,
        ensures
            exists|k: int| first < k < second && (#[trigger] events[k]) is Dispatched,
    {
        self.lemma_asked_at(events, callback, usable, first);
        self.lemma_asked_at(events, callback, usable, second);
        self.lemma_run_keeps_wf(events.take(first), callback, usable);
        self.lemma_run_keeps_wf(events.take(second), callback, usable);
        self.run(events.take(first), callback, usable).lemma_outcome_effects(
            events[first],
            callback,
            usable,
        );
        self.run(events.take(second), callback, usable).lemma_outcome_effects(
            events[second],
            callback,
            usable,
        );
        assert(events.take(first + 1).drop_last() == events.take(first));
        assert(events.take(first + 1).last() == events[first]);
        self.lemma_leaves_dispatching(events, callback, usable, first + 1, second);
    }

    /// What the unit asks for on the event at `at` comes of the state after
    /// the events before it.
    proof fn lemma_asked_at(
        self,
        events: Seq<RunnerEvent>,
        callback: Option<usize>,
        usable: bool,
        at: int,
    )
        requires
            0 <= at < events.len(),
        ensures
            self.asked(events, callback, usable).len() == events.len(),
            self.asked(events, callback, usable)[at] == self.run(
                events.take(at),
                callback,
                usable,
            ).outcome(events[at], callback, usable).1,
        decreases events.len(),
    {
        let earlier = events.drop_last();
        self.lemma_asked_len(earlier, callback, usable);
        if at < earlier.len() {
            self.lemma_asked_at(earlier, callback, usable, at);
            assert(earlier.take(at) == events.take(at));
            assert(earlier[at] == events[at]);
        } else {
            assert(events.take(at) == earlier);
        }
    }

    /// The unit asks for one thing on each event.
    proof fn lemma_asked_len(self, events: Seq<RunnerEvent>, callback: Option<usize>, usable: bool)
        ensures
            self.asked(events, callback, usable).len() == events.len(),
        decreases events.len(),
    {
        if events.len() > 0 {
            self.lemma_asked_len(events.drop_last(), callback, usable);
        }
    }

    /// A unit with a batch at the dispatcher stays so until the dispatcher's
    /// acceptance is reported.
    proof fn lemma_leaves_dispatching(
        self,
        events: Seq<RunnerEvent>,
        callback: Option<usize>,
        usable: bool,
        from: int,
        to: int,
    )
        requires
            self.wf(),
            0 <= from <= to <= events.len(),
            self.run(events.take(from), callback, usable).stage is Dispatching,
            !(self.run(events.take(to), callback, usable).stage is Dispatching),
        ensures
            exists|k: int| from <= k < to && (#[trigger] events[k]) is Dispatched,
        decreases to - from,
    {
        if from < to {
            let here = self.run(events.take(from), callback, usable);
            self.lemma_run_keeps_wf(events.take(from), callback, usable);
            here.lemma_outcome_effects(events[from], callback, usable);
            assert(events.take(from + 1).drop_last() == events.take(from));
            assert(events.take(from + 1).last() == events[from]);
            if !(events[from] is Dispatched) {
                self.lemma_leaves_dispatching(events, callback, usable, from + 1, to);
            }
        }
    }
}

} // verus!

//! The supervision of a run: which units there are, in what order they are
//! launched, and what has become of them.

use vstd::prelude::*;
use vstd::string::StringExecFns;
use crate::callback_registry::{EventCallbackRegistry, EventInformation};
use crate::fetch_logs::RetryPolicy;
use crate::indexing::{FailureReason, StartIndexingSettings, UnitError, UnitPlan};
use crate::unit::{
    process_logs,
    ParamsView,
    ProcessLogsParams,
    RunnerEvent,
    RunnerView,
    UnitRunner,
};

verus! {

/// The greatest number of blocks that a unit asks a provider for at once. A
/// provider that finds a range too wide narrows the window.
pub const MAX_BLOCK_RANGE: u64 = 20_000_000_000;

/// A unit of work: one event on one network contract.
#[derive(Clone, Debug, PartialEq, Eq)]
pub struct WorkUnit {
    /// The position of the event in the registry.
    pub event: usize,
    /// The position of the network contract among those of the event's
    /// contract.
    pub contract: usize,
    pub event_name: String,
    pub network: String,
}

/// The mathematical content of [`WorkUnit`].
pub struct WorkUnitView {
    pub event: usize,
    pub contract: usize,
    pub event_name: Seq<char>,
    pub network: Seq<char>,
}

impl View for WorkUnit {
    type V = WorkUnitView;

    open spec fn view(&self) -> WorkUnitView {
        WorkUnitView {
            event: self.event,
            contract: self.contract,
            event_name: self.event_name@,
            network: self.network@,
        }
    }
}

impl WorkUnit {
    /// A copy with the same content.
    pub fn copy(&self) -> (r: WorkUnit)
        ensures
            r@ == self@,
    {
        WorkUnit {
            event: self.event,
            contract: self.contract,
            event_name: self.event_name.clone(),
            network: self.network.clone(),
        }
    }
}

/// The units of one event: one for each network contract, in their order.
pub open spec fn units_of_event(event: EventInformation, position: int) -> Seq<WorkUnitView> {
    Seq::new(
        event.contract.details@.len(),
        |c: int|
            WorkUnitView {
                event: position as usize,
                contract: c as usize,
                event_name: event.event_name@,
                network: event.contract.details@[c].network@,
            },
    )
}

/// The units of the events of `events`: those of the first event, then those
/// of the second, and so on.
pub open spec fn units_of(events: Seq<EventInformation>) -> Seq<WorkUnitView>
    decreases events.len(),
{
    if events.len() == 0 {
        Seq::empty()
    } else {
        units_of(events.drop_last()) + units_of_event(events.last(), events.len() - 1)
    }
}

/// The view of a list of units.
pub open spec fn units_view(units: Seq<WorkUnit>) -> Seq<WorkUnitView> {
    Seq::new(units.len(), |i: int| units[i]@)
}

/// The units of a registry, in the order of registration.
pub fn work_units(registry: &EventCallbackRegistry) -> (units: Vec<WorkUnit>)
    ensures
        units_view(units@) == units_of(registry.events@),
{
    let mut units: Vec<WorkUnit> = Vec::new();
    let mut e: usize = 0;
    assert(units_view(units@) =~= units_of(registry.events@.take(0)));
    while e < registry.events.len()
        invariant
            e <= registry.events@.len(),
            units_view(units@) == units_of(registry.events@.take(e as int)),
        decreases registry.events@.len() - e,
    {
        let event = &registry.events[e];
        let ghost before = units_view(units@);
        let mut c: usize = 0;
        while c < event.contract.details.len()
            invariant
                c <= event.contract.details@.len(),
                e < registry.events@.len(),
                *event == registry.events@[e as int],
                units_view(units@) == before + units_of_event(*event, e as int).take(c as int),
            decreases event.contract.details@.len() - c,
        {
            let unit = WorkUnit {
                event: e,
                contract: c,
                event_name: event.event_name.clone(),
                network: event.contract.details[c].network.clone(),
            };
            let ghost earlier = units@;
            let ghost all = units_of_event(*event, e as int);
            proof {
                assert(all[c as int] == unit@);
                assert(all.take(c as int + 1) =~= all.take(c as int).push(unit@));
            }
            units.push(unit);
            proof {
                assert(units_view(units@) =~= units_view(earlier).push(unit@));
                assert(units_view(units@) =~= before + all.take(c as int + 1));
            }
            c += 1;
        }
        proof {
            let all = units_of_event(*event, e as int);
            assert(all.take(all.len() as int) == all);
            assert(registry.events@.take(e as int + 1).drop_last() == registry.events@.take(
                e as int,
            ));
            assert(registry.events@.take(e as int + 1).last() == *event);
        }
        e += 1;
    }
    assert(registry.events@.take(registry.events@.len() as int) == registry.events@);
    units
}

/// What has become of a unit.
#[derive(Clone, Copy, Debug, PartialEq, Eq, Structural)]
pub enum UnitState {
    /// Not launched yet.
    Waiting,
    Running,
    /// Ended without an error.
    Completed,
    /// Given up with an error.
    Failed,
}

/// A unit that was given up, and why.
#[derive(Clone, Debug, PartialEq, Eq)]
pub struct UnitFailure {
    pub unit: WorkUnit,
    pub error: UnitError,
}

/// The mathematical content of [`UnitFailure`].
pub struct UnitFailureView {
    pub unit: WorkUnitView,
    pub error: UnitError,
}

impl View for UnitFailure {
    type V = UnitFailureView;

    open spec fn view(&self) -> UnitFailureView {
        UnitFailureView { unit: self.unit@, error: self.error }
    }
}

/// A failure as a sentence: the event, the network and the reason.
pub open spec fn failure_text(failure: UnitFailureView) -> Seq<char> {
    "event "@ + failure.unit.event_name + " on network "@ + failure.unit.network + ": "@
        + failure.error.reason.spec_text()
}

impl UnitFailure {
    /// The failure as a sentence.
    pub fn message(&self) -> (r: String)
        ensures
            r@ == failure_text(self@),
    {
        let mut text = String::from_str("event ");
        text.append(self.unit.event_name.as_str());
        text.append(" on network ");
        text.append(self.unit.network.as_str());
        text.append(": ");
        text.append(self.error.reason.text().as_str());
        text
    }
}

/// The view of a list of failures.
pub open spec fn failures_view(failures: Seq<UnitFailure>) -> Seq<UnitFailureView> {
    Seq::new(failures.len(), |i: int| failures[i]@)
}

/// What the supervisor does next.
#[derive(Clone, Copy, Debug, PartialEq, Eq, Structural)]
pub enum Launch {
    /// Launch this unit: run it to its end before anything else where
    /// `awaited`, start it beside the others where not.
    Run { unit: usize, awaited: bool },
    /// Wait for a running unit to end.
    Wait,
    /// Every unit has ended, or the run was shut down and no unit is running.
    Finished,
}

/// The mathematical state of a run.
pub struct RunView {
    pub units: Seq<WorkUnitView>,
    pub states: Seq<UnitState>,
    /// The number of units launched so far.
    pub launched: nat,
    pub settings: StartIndexingSettings,
    /// No more units are launched.
    pub cancelled: bool,
    pub failures: Seq<UnitFailureView>,
}

impl RunView {
    /// The state of a run of `units` that has launched nothing yet.
    pub open spec fn initial(units: Seq<WorkUnitView>, settings: StartIndexingSettings) -> RunView {
        RunView {
            units,
            states: Seq::new(units.len(), |i: int| UnitState::Waiting),
            launched: 0,
            settings,
            cancelled: false,
            failures: Seq::empty(),
        }
    }

    /// Whether the state is one that a run can be in: every unit has a
    /// state, and exactly the units not yet launched are waiting.
    pub open spec fn wf(self) -> bool {
        &&& self.states.len() == self.units.len()
        &&& self.launched <= self.units.len() <= usize::MAX
        &&& forall|i: int|
            0 <= i < self.states.len() ==> ((#[trigger] self.states[i]) is Waiting <==> i
                >= self.launched)
    }

    /// Whether a unit is running.
    pub open spec fn any_running(self) -> bool {
        exists|i: int| 0 <= i < self.states.len() && (#[trigger] self.states[i]) is Running
    }

    /// What the supervisor does next, and the state after it.
    ///
    /// Units are launched in the order of registration. Where events are
    /// indexed in order, a unit is launched only when none is running, and is
    /// run to its end. Otherwise every unit is launched beside the others.
    /// After a shutdown no unit is launched.
    pub open spec fn launch(self) -> (RunView, Launch) {
        if !self.cancelled && self.launched < self.units.len() && !(
        self.settings.execute_in_event_order && self.any_running()) {
            (
                RunView {
                    states: self.states.update(self.launched as int, UnitState::Running),
                    launched: self.launched + 1,
                    ..self
                },
                Launch::Run {
                    unit: self.launched as usize,
                    awaited: self.settings.execute_in_event_order,
                },
            )
        } else if self.any_running() {
            (self, Launch::Wait)
        } else {
            (self, Launch::Finished)
        }
    }

    /// Whether the unit `unit` is running.
    pub open spec fn is_running(self, unit: usize) -> bool {
        unit < self.states.len() && self.states[unit as int] is Running
    }

    /// The state after the unit `unit` has ended, with `error` where it was
    /// given up. The other units go on. A unit that received logs for which
    /// no callback is registered shuts the run down. The end of a unit that is
    /// not running changes nothing.
    pub open spec fn after_end(self, unit: usize, error: Option<UnitError>) -> RunView {
        if !self.is_running(unit) {
            self
        } else {
            match error {
                None => RunView {
                    states: self.states.update(unit as int, UnitState::Completed),
                    ..self
                },
                Some(error) => RunView {
                    states: self.states.update(unit as int, UnitState::Failed),
                    failures: self.failures.push(
                        UnitFailureView { unit: self.units[unit as int], error },
                    ),
                    cancelled: self.cancelled || error.reason is MissingHandler,
                    ..self
                },
            }
        }
    }
}

/// A run of the units of a registry.
#[derive(Debug)]
pub struct IndexingRun {
    units: Vec<WorkUnit>,
    states: Vec<UnitState>,
    launched: usize,
    settings: StartIndexingSettings,
    cancelled: bool,
    failures: Vec<UnitFailure>,
}

impl View for IndexingRun {
    type V = RunView;

    closed spec fn view(&self) -> RunView {
        RunView {
            units: units_view(self.units@),
            states: self.states@,
            launched: self.launched as nat,
            settings: self.settings,
            cancelled: self.cancelled,
            failures: failures_view(self.failures@),
        }
    }
}

/// Starts the indexing of the events of `registry`: the run of their units,
/// with nothing launched yet.
pub fn start_indexing(registry: &EventCallbackRegistry, settings: StartIndexingSettings) -> (run:
    IndexingRun)
    ensures
        run@ == RunView::initial(units_of(registry.events@), settings),
        run@.wf(),
{
    let units = work_units(registry);
    let mut states: Vec<UnitState> = Vec::new();
    let mut i: usize = 0;
    while i < units.len()
        invariant
            i <= units@.len(),
            states@.len() == i,
            forall|j: int| 0 <= j < i ==> states@[j] == UnitState::Waiting,
        decreases units@.len() - i,
    {
        states.push(UnitState::Waiting);
        i += 1;
    }
    let run = IndexingRun {
        units,
        states,
        launched: 0,
        settings,
        cancelled: false,
        failures: Vec::new(),
    };
    assert(run@.states =~= RunView::initial(units_of(registry.events@), settings).states);
    assert(run@.failures =~= Seq::empty());
    run
}

impl IndexingRun {
    /// The settings of the run.
    pub fn settings(&self) -> (settings: StartIndexingSettings)
        ensures
            settings == self@.settings,
    {
        self.settings
    }

    /// The units of the run, in the order of registration.
    pub fn units(&self) -> (units: &Vec<WorkUnit>)
        ensures
            units_view(units@) == self@.units,
    {
        &self.units
    }

    /// What has become of each unit.
    pub fn states(&self) -> (states: &Vec<UnitState>)
        ensures
            states@ == self@.states,
    {
        &self.states
    }

    /// Whether no more units are launched.
    pub fn is_cancelled(&self) -> (cancelled: bool)
        ensures
            cancelled == self@.cancelled,
    {
        self.cancelled
    }

    /// The parameters of the unit `unit` of this run with the plan `plan`;
    /// `None` where `registry` holds no such unit.
    pub fn params(&self, registry: &EventCallbackRegistry, unit: usize, plan: UnitPlan) -> (r:
        Option<ProcessLogsParams>)
        ensures
            r is Some <==> unit < self@.units.len() && self@.units[unit as int].event
                < registry.events@.len() && self@.units[unit as int].contract
                < registry.events@[self@.units[unit as int].event as int].contract.details@.len(),
            r matches Some(params) ==> {
                let event = registry.events@[self@.units[unit as int].event as int];
                params@ == (ParamsView {
                    indexer_name: event.indexer_name@,
                    contract_name: event.contract.name@,
                    topic_id: event.topic_id@,
                    event_name: event.event_name@,
                    network_contract: event.contract.details@[self@.units[unit as int].contract as int]@,
                    plan,
                    execute_events_logs_in_order: self@.settings.execute_event_logs_in_order,
                })
            },
    {
        if unit >= self.units.len() {
            return None;
        }
        let work = &self.units[unit];
        assert(units_view(self.units@)[unit as int] == work@);
        if work.event >= registry.events.len() {
            return None;
        }
        ProcessLogsParams::for_unit(
            &registry.events[work.event],
            work.contract,
            plan,
            self.settings.execute_event_logs_in_order,
        )
    }

    /// The runner of a unit of this run.
    pub fn runner(&self, params: &ProcessLogsParams) -> (runner: UnitRunner)
        ensures
            runner@ == RunnerView::initial(
                params.plan,
                MAX_BLOCK_RANGE,
                RetryPolicy { max_retries: 5, base_delay_ms: 200, max_delay_ms: 30_000 },
                params.execute_events_logs_in_order,
            ),
            runner@.wf(),
    {
        process_logs(params, MAX_BLOCK_RANGE, RetryPolicy::default())
    }

    fn any_running(&self) -> (r: bool)
        ensures
            r == self@.any_running(),
    {
        let mut i: usize = 0;
        while i < self.states.len()
            invariant
                i <= self.states@.len(),
                forall|j: int| 0 <= j < i ==> !((#[trigger] self.states@[j]) is Running),
            decreases self.states@.len() - i,
        {
            match self.states[i] {
                UnitState::Running => {
                    return true;
                },
                _ => {},
            }
            i += 1;
        }
        false
    }

    /// Says what to do next, and counts a unit that is to be launched as
    /// running.
    pub fn next_launch(&mut self) -> (launch: Launch)
        requires
            old(self)@.wf(),
        ensures
            (final(self)@, launch) == old(self)@.launch(),
            final(self)@.wf(),
    {
        let running = self.any_running();
        if !self.cancelled && self.launched < self.units.len() && !(
        self.settings.execute_in_event_order && running) {
            let unit = self.launched;
            self.states.set(unit, UnitState::Running);
            self.launched = unit + 1;
            Launch::Run { unit, awaited: self.settings.execute_in_event_order }
        } else if running {
            Launch::Wait
        } else {
            Launch::Finished
        }
    }

    /// Takes the end of the unit `unit`, with the error where it was given
    /// up.
    pub fn on_unit_ended(&mut self, unit: usize, error: Option<UnitError>)
        requires
            old(self)@.wf(),
        ensures
            final(self)@ == old(self)@.after_end(unit, error),
            final(self)@.wf(),
    {
        if unit >= self.states.len() {
            return ;
        }
        match self.states[unit] {
            UnitState::Running => {},
            _ => {
                return ;
            },
        }
        match error {
            None => {
                self.states.set(unit, UnitState::Completed);
            },
            Some(error) => {
                let failure = UnitFailure { unit: self.units[unit].copy(), error };
                let ghost earlier = self.failures@;
                let ghost failed = failure@;
                self.states.set(unit, UnitState::Failed);
                self.failures.push(failure);
                match error.reason {
                    FailureReason::MissingHandler => {
                        self.cancelled = true;
                    },
                    _ => {},
                }
                assert(failures_view(self.failures@) =~= failures_view(earlier).push(failed));
            },
        }
    }

    /// Shuts the run down: no more units are launched. The units that are
    /// running are to be told so; the run is finished when they have ended.
    pub fn cancel(&mut self)
        ensures
            final(self)@ == (RunView { cancelled: true, ..old(self)@ }),
    {
        self.cancelled = true;
    }

    /// The result of the run: the units that were given up, if any was.
    pub fn into_result(self) -> (r: Result<(), Vec<UnitFailure>>)
        ensures
            match r {
                Ok(_) => self@.failures.len() == 0,
                Err(failures) => failures@.len() > 0 && failures_view(failures@)
                    == self@.failures,
            },
    {
        if self.failures.len() == 0 {
            Ok(())
        } else {
            Err(self.failures)
        }
    }
}

impl RunView {
    /// Whether at most one unit is running.
    pub open spec fn one_at_a_time(self) -> bool {
        forall|i: int, j: int|
            0 <= i < self.states.len() && 0 <= j < self.states.len() && (
            #[trigger] self.states[i]) is Running && (#[trigger] self.states[j]) is Running ==> i
                == j
    }

    /// Each unit is launched once: the supervisor launches the units in the
    /// order of registration, each one from waiting, and a unit that was
    /// launched never waits again. So no unit, and no live tail of a unit,
    /// runs twice.
    pub proof fn law_units_launch_once(self, unit: usize, error: Option<UnitError>)
        requires
            self.wf(),
        ensures
            self.launch().0.wf(),
            self.after_end(unit, error).wf(),
            self.launch().1 matches Launch::Run { unit: launched, .. } ==> {
                &&& launched == self.launched
                &&& self.states[launched as int] is Waiting
                &&& self.launch().0.states[launched as int] is Running
                &&& self.launch().0.launched == self.launched + 1
            },
            !(self.launch().1 is Run) ==> self.launch().0 == self,
            self.after_end(unit, error).launched == self.launched,
    {
    }

    /// Events in order: where events are indexed in order, the supervisor
    /// launches a unit only when none is running, so the units run one at a
    /// time, and in the order of registration.
    pub proof fn law_events_run_one_at_a_time(self, unit: usize, error: Option<UnitError>)
        requires
            self.wf(),
            self.settings.execute_in_event_order,
            self.one_at_a_time(),
        ensures
            self.launch().0.one_at_a_time(),
            self.launch().0.wf(),
            self.launch().1 matches Launch::Run { unit: launched, awaited } ==> launched
                == self.launched && awaited && !self.any_running(),
            self.after_end(unit, error).one_at_a_time(),
            self.after_end(unit, error).wf(),
    {
        let next = self.launch().0;
        if self.launch().1 is Run {
            assert forall|i: int, j: int|
                0 <= i < next.states.len() && 0 <= j < next.states.len() && (
                #[trigger] next.states[i]) is Running && (#[trigger] next.states[j])
                    is Running implies i == j by {
                if i != self.launched {
                    assert(self.states[i] is Running);
                }
                if j != self.launched {
                    assert(self.states[j] is Running);
                }
            }
        }
        let ended = self.after_end(unit, error);
        assert forall|i: int, j: int|
            0 <= i < ended.states.len() && 0 <= j < ended.states.len() && (
            #[trigger] ended.states[i]) is Running && (#[trigger] ended.states[j])
                is Running implies i == j by {
            assert(self.states[i] is Running);
            assert(self.states[j] is Running);
        }
    }
}

/// The number of units that hold a permit.
pub open spec fn permits_in_use(units: Seq<RunnerView>) -> nat
    decreases units.len(),
{
    if units.len() == 0 {
        0
    } else {
        permits_in_use(units.drop_last()) + if units.last().holds_permit() {
            1nat
        } else {
            0nat
        }
    }
}

/// One event reported to one unit of a run. `callback` and `usable` say what
/// the unit's topic and setup give.
pub struct Report {
    pub unit: int,
    pub event: RunnerEvent,
    pub callback: Option<usize>,
    pub usable: bool,
}

/// The units after a report.
pub open spec fn after_report(units: Seq<RunnerView>, report: Report) -> Seq<RunnerView> {
    if 0 <= report.unit < units.len() {
        units.update(
            report.unit,
            units[report.unit].outcome(report.event, report.callback, report.usable).0,
        )
    } else {
        units
    }
}

/// The units after the reports of `reports`, in their order.
pub open spec fn after_reports(units: Seq<RunnerView>, reports: Seq<Report>) -> Seq<RunnerView>
    decreases reports.len(),
{
    if reports.len() == 0 {
        units
    } else {
        after_report(after_reports(units, reports.drop_last()), reports.last())
    }
}

/// Whether the report keeps to what a pool of `capacity` permits does: it
/// grants a unit the permit that the unit waits for only while fewer than
/// `capacity` permits are in use.
pub open spec fn pool_grants(units: Seq<RunnerView>, capacity: nat, report: Report) -> bool {
    (0 <= report.unit < units.len() && report.event is PermitAcquired
        && units[report.unit].stage is AwaitingPermit) ==> permits_in_use(units) < capacity
}

/// Whether every report of `reports` keeps to what a pool of `capacity`
/// permits does.
pub open spec fn pool_grants_all(units: Seq<RunnerView>, capacity: nat, reports: Seq<Report>)
    -> bool {
    forall|k: int|
        0 <= k < reports.len() ==> pool_grants(
            after_reports(units, reports.take(k)),
            capacity,
            #[trigger] reports[k],
        )
}

/// What a change of one unit does to the number of permits in use.
pub proof fn lemma_permits_after_change(units: Seq<RunnerView>, at: int, changed: RunnerView)
    requires
        0 <= at < units.len(),
    ensures
        permits_in_use(units.update(at, changed)) + (if units[at].holds_permit() {
            1nat
        } else {
            0nat
        }) == permits_in_use(units) + (if changed.holds_permit() {
            1nat
        } else {
            0nat
        }),
    decreases units.len(),
{
    let after = units.update(at, changed);
    if at == units.len() - 1 {
        assert(after.drop_last() == units.drop_last());
    } else {
        lemma_permits_after_change(units.drop_last(), at, changed);
        assert(after.drop_last() == units.drop_last().update(at, changed));
    }
}

/// Concurrency bound: as long as the pool grants a permit only while fewer
/// than `capacity` are in use, at no instant do more than `capacity` units
/// hold one. A unit holds a permit whenever it has a request at the provider
/// or a batch at the dispatcher, so at no instant are there more than
/// `capacity` of those together.
pub proof fn law_concurrency_bound(units: Seq<RunnerView>, capacity: nat, reports: Seq<Report>)
    requires
        forall|i: int| 0 <= i < units.len() ==> (#[trigger] units[i]).wf(),
        permits_in_use(units) <= capacity,
        pool_grants_all(units, capacity, reports),
    ensures
        after_reports(units, reports).len() == units.len(),
        forall|i: int|
            0 <= i < units.len() ==> (#[trigger] after_reports(units, reports)[i]).wf(),
        permits_in_use(after_reports(units, reports)) <= capacity,
    decreases reports.len(),
{
    if reports.len() > 0 {
        let earlier = reports.drop_last();
        let report = reports.last();
        let before = after_reports(units, earlier);
        assert forall|k: int| 0 <= k < earlier.len() implies pool_grants(
            after_reports(units, earlier.take(k)),
            capacity,
            #[trigger] earlier[k],
        ) by {
            assert(earlier.take(k) == reports.take(k));
            assert(earlier[k] == reports[k]);
        }
        law_concurrency_bound(units, capacity, earlier);
        assert(reports.take(reports.len() - 1) == earlier);
        assert(pool_grants(before, capacity, reports[reports.len() - 1]));
        if 0 <= report.unit < before.len() {
            let unit = before[report.unit];
            let changed = unit.outcome(report.event, report.callback, report.usable).0;
            unit.lemma_outcome_effects(report.event, report.callback, report.usable);
            lemma_permits_after_change(before, report.unit, changed);
        }
    }
}

} // verus!

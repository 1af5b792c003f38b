//! The log fetcher: a block span cut into windows, one provider query each.
//!
//! The fetcher is a state machine. [`LogFetcher::next_step`] says what has to
//! be done next, and the `on_*` methods take what came of it. The window
//! shrinks when the provider finds a range too wide and grows again with every
//! window that is answered. A live fetcher goes on behind the head of the
//! chain once the span it was given is done.

use vstd::prelude::*;
use crate::primitives::BlockRange;

verus! {

/// After an answered window the width grows by one part in this many.
pub const WIDTH_GROWTH_DIVISOR: u64 = 10;

/// One more than the greatest block number.
pub open spec fn block_space() -> nat {
    0x1_0000_0000_0000_0000
}

/// What a provider error means for the fetcher.
#[derive(Clone, Copy, Debug, PartialEq, Eq, Structural)]
pub enum ProviderErrorKind {
    RangeTooWide,
    RateLimited,
    Transient,
    Fatal,
}

/// Where a fetcher stands in its life.
#[derive(Clone, Copy, Debug, PartialEq, Eq, Structural)]
pub enum FetchPhase {
    /// Working through the span it was given.
    Backfilling,
    /// Past that span, closing the gap to the head.
    CatchingUp,
    /// At the head, asking for it at intervals.
    Tailing,
    /// The span is done and the fetcher is not live.
    Finished,
    /// Ended by an error.
    Failed,
}

/// The margin that a live fetcher keeps from the head.
#[derive(Clone, Copy, Debug, PartialEq, Eq, Structural)]
pub struct LiveIndexingDetails {
    pub indexing_distance_from_head: u64,
}

/// How often and how long a fetcher waits before it gives a request up.
#[derive(Clone, Copy, Debug, PartialEq, Eq, Structural)]
pub struct RetryPolicy {
    pub max_retries: u32,
    pub base_delay_ms: u64,
    pub max_delay_ms: u64,
}

/// What the fetcher needs done next.
#[derive(Clone, Copy, Debug, PartialEq, Eq, Structural)]
pub enum FetchStep {
    /// Ask the provider for the logs of this window.
    GetLogs(BlockRange),
    /// Wait this long, then report [`LogFetcher::on_waited`].
    Backoff { delay_ms: u64 },
    /// Ask the provider for the latest block; with `wait`, after the caller's
    /// polling interval.
    PollHead { wait: bool },
    /// The sequence has ended.
    Finished,
    /// The sequence has ended with an error.
    Failed,
}

/// What is reported to the fetcher.
#[derive(Clone, Copy, Debug, PartialEq, Eq, Structural)]
pub enum FetchEvent {
    /// The provider answered the window.
    Logs,
    /// The provider failed the request.
    Error(ProviderErrorKind),
    /// The backoff is over.
    Waited,
    /// The provider gave the latest block.
    Head(u64),
}

/// The error that ends a fetcher: its kind and the window that failed, if a
/// window was being fetched.
#[derive(Clone, Copy, Debug, PartialEq, Eq, Structural)]
pub struct FetchError {
    pub kind: ProviderErrorKind,
    pub window: Option<BlockRange>,
}

/// The logs of one window.
#[derive(Debug, PartialEq, Eq)]
pub struct FetchLogsStream<L> {
    pub logs: Vec<L>,
    pub from_block: u64,
    pub to_block: u64,
}

/// The width after an answered window: a tenth more, at least one block more,
/// and never above the ceiling.
pub open spec fn grown(width: nat, ceiling: nat) -> nat {
    let step = if width / (WIDTH_GROWTH_DIVISOR as nat) >= 1 {
        width / (WIDTH_GROWTH_DIVISOR as nat)
    } else {
        1
    };
    if width + step >= ceiling {
        ceiling
    } else {
        width + step
    }
}

/// The width after a range was found too wide: half, and never below one.
pub open spec fn halved(width: nat) -> nat {
    if width / 2 >= 1 {
        width / 2
    } else {
        1
    }
}

/// `base` doubled `times` times.
pub open spec fn doubled(base: nat, times: nat) -> nat
    decreases times,
{
    if times == 0 {
        base
    } else {
        2 * doubled(base, (times - 1) as nat)
    }
}

/// The wait before the retry that follows the `attempt`-th failure in a row:
/// the base delay doubled with each further failure, up to the greatest delay.
pub open spec fn backoff_delay(policy: RetryPolicy, attempt: nat) -> nat {
    let times: nat = if attempt >= 1 {
        (attempt - 1) as nat
    } else {
        0
    };
    let raw = doubled(policy.base_delay_ms as nat, times);
    if raw >= policy.max_delay_ms {
        policy.max_delay_ms as nat
    } else {
        raw
    }
}

/// The mathematical state of a fetcher.
pub struct FetcherView {
    /// The next block to fetch.
    pub next: nat,
    /// One more than the last block that may be fetched now.
    pub limit: nat,
    /// The number of blocks asked for at once.
    pub width: nat,
    /// The greatest width.
    pub ceiling: nat,
    /// The distance kept from the head, for a live fetcher.
    pub margin: Option<nat>,
    pub phase: FetchPhase,
    /// Failures in a row of the request at hand.
    pub attempts: nat,
    pub policy: RetryPolicy,
    /// A wait is due before the request is made again.
    pub backing_off: bool,
}

impl FetcherView {
    /// The state of a new fetcher for the blocks `start_block ..= end_block`
    /// (`None`: no block yet).
    pub open spec fn initial(
        start_block: u64,
        end_block: Option<u64>,
        max_block_range: u64,
        policy: RetryPolicy,
        live: Option<LiveIndexingDetails>,
    ) -> FetcherView {
        let limit: nat = match end_block {
            Some(e) => (e + 1) as nat,
            None => 0,
        };
        let ceiling: nat = if max_block_range >= 1 {
            max_block_range as nat
        } else {
            1
        };
        FetcherView {
            next: start_block as nat,
            limit,
            width: ceiling,
            ceiling,
            margin: match live {
                Some(d) => Some(d.indexing_distance_from_head as nat),
                None => None,
            },
            phase: if start_block < limit {
                FetchPhase::Backfilling
            } else if live is Some {
                FetchPhase::CatchingUp
            } else {
                FetchPhase::Finished
            },
            attempts: 0,
            policy,
            backing_off: false,
        }
    }

    /// Whether the state is one that a fetcher can be in: the width lies
    /// between one block and the ceiling, the numbers fit their machine
    /// types, and the phase agrees with the rest.
    pub open spec fn wf(self) -> bool {
        &&& 1 <= self.width <= self.ceiling <= u64::MAX
        &&& self.next <= block_space()
        &&& self.limit <= block_space()
        &&& self.attempts <= self.policy.max_retries
        &&& (self.margin matches Some(d) ==> d <= u64::MAX)
        &&& (self.phase is Backfilling ==> self.next < self.limit)
        &&& (self.phase is Finished ==> self.margin is None && self.next >= self.limit)
        &&& (self.phase is CatchingUp || self.phase is Tailing ==> self.margin is Some)
        &&& (self.backing_off ==> self.attempts >= 1)
    }

    /// Whether the fetcher has ended.
    pub open spec fn ended(self) -> bool {
        self.phase is Finished || self.phase is Failed
    }

    /// One more than the last block of the window at hand.
    pub open spec fn window_end(self) -> nat {
        if self.next + self.width >= self.limit {
            self.limit
        } else {
            self.next + self.width
        }
    }

    /// The window at hand, where there are blocks left below the limit.
    pub open spec fn window(self) -> BlockRange {
        BlockRange { from: self.next as u64, to: (self.window_end() - 1) as u64 }
    }

    /// What has to be done next.
    pub open spec fn next_step(self) -> FetchStep {
        if self.phase is Finished {
            FetchStep::Finished
        } else if self.phase is Failed {
            FetchStep::Failed
        } else if self.backing_off {
            FetchStep::Backoff { delay_ms: backoff_delay(self.policy, self.attempts) as u64 }
        } else if self.next < self.limit {
            FetchStep::GetLogs(self.window())
        } else {
            FetchStep::PollHead { wait: self.phase is Tailing }
        }
    }

    /// The state after the window at hand was answered.
    pub open spec fn after_logs(self) -> FetcherView {
        let next = self.window_end();
        FetcherView {
            next,
            width: grown(self.width, self.ceiling),
            attempts: 0,
            phase: if self.phase is Backfilling && next >= self.limit {
                if self.margin is Some {
                    FetchPhase::CatchingUp
                } else {
                    FetchPhase::Finished
                }
            } else {
                self.phase
            },
            ..self
        }
    }

    /// Whether an error of this kind on the request at hand is answered by a
    /// narrower window.
    pub open spec fn shrinks_on(self, kind: ProviderErrorKind) -> bool {
        self.next_step() is GetLogs && kind is RangeTooWide && self.width > 1
    }

    /// Whether an error of this kind on the request at hand ends the fetcher.
    pub open spec fn fails_on(self, kind: ProviderErrorKind) -> bool {
        &&& self.next_step() is GetLogs || self.next_step() is PollHead
        &&& !self.shrinks_on(kind)
        &&& kind is Fatal || self.attempts >= self.policy.max_retries
    }

    /// The state after the request at hand failed.
    pub open spec fn after_error(self, kind: ProviderErrorKind) -> FetcherView {
        if !(self.next_step() is GetLogs || self.next_step() is PollHead) {
            self
        } else if self.shrinks_on(kind) {
            FetcherView { width: halved(self.width), ..self }
        } else if self.fails_on(kind) {
            FetcherView { phase: FetchPhase::Failed, ..self }
        } else {
            FetcherView { attempts: self.attempts + 1, backing_off: true, ..self }
        }
    }

    /// The state after a backoff.
    pub open spec fn after_wait(self) -> FetcherView {
        FetcherView { backing_off: false, ..self }
    }

    /// One more than the last block that is safe under the head `latest`.
    pub open spec fn safe_limit(self, latest: u64) -> nat {
        let margin = self.margin.unwrap();
        if latest >= margin {
            (latest - margin + 1) as nat
        } else {
            0
        }
    }

    /// The state after the head was reported.
    pub open spec fn after_head(self, latest: u64) -> FetcherView {
        if !(self.next_step() is PollHead) {
            self
        } else if self.safe_limit(latest) > self.next {
            FetcherView { limit: self.safe_limit(latest), attempts: 0, ..self }
        } else {
            FetcherView { phase: FetchPhase::Tailing, attempts: 0, ..self }
        }
    }

    /// The state after `event`.
    pub open spec fn react(self, event: FetchEvent) -> FetcherView {
        match event {
            FetchEvent::Logs => if self.next_step() is GetLogs {
                self.after_logs()
            } else {
                self
            },
            FetchEvent::Error(kind) => self.after_error(kind),
            FetchEvent::Waited => self.after_wait(),
            FetchEvent::Head(latest) => self.after_head(latest),
        }
    }

    /// The window that `event` completes, if it completes one.
    pub open spec fn yielded(self, event: FetchEvent) -> Option<BlockRange> {
        if event is Logs && self.next_step() is GetLogs {
            Some(self.window())
        } else {
            None
        }
    }

    /// The state after the events of `events`, in their order.
    pub open spec fn run(self, events: Seq<FetchEvent>) -> FetcherView
        decreases events.len(),
    {
        if events.len() == 0 {
            self
        } else {
            self.run(events.drop_last()).react(events.last())
        }
    }

    /// The windows completed by the events of `events`, in their order.
    pub open spec fn windows(self, events: Seq<FetchEvent>) -> Seq<BlockRange>
        decreases events.len(),
    {
        if events.len() == 0 {
            Seq::empty()
        } else {
            let done = self.windows(events.drop_last());
            match self.run(events.drop_last()).yielded(events.last()) {
                Some(w) => done.push(w),
                None => done,
            }
        }
    }
}

/// Doubling never lowers a delay.
pub proof fn lemma_doubled_grows(base: nat, times: nat)
    ensures
        doubled(base, times) <= doubled(base, times + 1),
        base <= doubled(base, times),
    decreases times,
{
    if times > 0 {
        lemma_doubled_grows(base, (times - 1) as nat);
    }
}

impl Default for RetryPolicy {
    /// Five retries, from a fifth of a second up to half a minute.
    fn default() -> (policy: RetryPolicy)
        ensures
            policy == (RetryPolicy { max_retries: 5, base_delay_ms: 200, max_delay_ms: 30_000 }),
    {
        RetryPolicy { max_retries: 5, base_delay_ms: 200, max_delay_ms: 30_000 }
    }
}

impl RetryPolicy {
    /// The wait before the retry that follows the `attempt`-th failure in a
    /// row.
    pub fn delay_ms(&self, attempt: u32) -> (delay: u64)
        ensures
            delay == backoff_delay(*self, attempt as nat),
    {
        let mut delay: u64 = self.base_delay_ms;
        let mut done: u32 = 1;
        while done < attempt && delay < self.max_delay_ms
            invariant
                1 <= done,
                done <= attempt || done == 1,
                delay == doubled(self.base_delay_ms as nat, (done - 1) as nat),
            decreases attempt - done,
        {
            proof {
                assert(doubled(self.base_delay_ms as nat, done as nat) == 2 * doubled(
                    self.base_delay_ms as nat,
                    (done - 1) as nat,
                ));
            }
            if delay >= self.max_delay_ms - delay {
                proof {
                    lemma_delay_capped(*self, done as nat, attempt as nat);
                }
                return self.max_delay_ms;
            }
            delay = delay + delay;
            done = done + 1;
        }
        proof {
            if done < attempt {
                lemma_delay_capped(*self, (done - 1) as nat, attempt as nat);
            }
        }
        if delay >= self.max_delay_ms {
            self.max_delay_ms
        } else {
            delay
        }
    }

    /// A delay with a random part added: up to half the delay more, picked by
    /// `entropy`, and never above the greatest `u64`.
    pub fn jittered(delay_ms: u64, entropy: u64) -> (r: u64)
        ensures
            r == if delay_ms + entropy % ((delay_ms / 2 + 1) as u64) <= u64::MAX {
                delay_ms + entropy % ((delay_ms / 2 + 1) as u64)
            } else {
                u64::MAX as int
            },
            delay_ms <= r,
            r - delay_ms <= delay_ms / 2,
    {
        let spread: u64 = delay_ms / 2 + 1;
        let extra: u64 = entropy % spread;
        if extra > u64::MAX - delay_ms {
            u64::MAX
        } else {
            delay_ms + extra
        }
    }
}

/// Once the doubled delay has reached the greatest delay, it stays there.
proof fn lemma_delay_capped(policy: RetryPolicy, reached: nat, attempt: nat)
    requires
        doubled(policy.base_delay_ms as nat, reached) >= policy.max_delay_ms,
        reached < attempt,
    ensures
        backoff_delay(policy, attempt) == policy.max_delay_ms,
    decreases attempt - reached,
{
    if reached + 1 < attempt {
        lemma_doubled_grows(policy.base_delay_ms as nat, reached);
        lemma_delay_capped(policy, reached + 1, attempt);
    }
}

/// A fetcher of the logs of one event on one network.
#[derive(Clone, Copy, Debug)]
pub struct LogFetcher {
    next: u128,
    limit: u128,
    width: u64,
    ceiling: u64,
    live: Option<LiveIndexingDetails>,
    phase: FetchPhase,
    attempts: u32,
    policy: RetryPolicy,
    backing_off: bool,
}

impl View for LogFetcher {
    type V = FetcherView;

    closed spec fn view(&self) -> FetcherView {
        FetcherView {
            next: self.next as nat,
            limit: self.limit as nat,
            width: self.width as nat,
            ceiling: self.ceiling as nat,
            margin: match self.live {
                Some(d) => Some(d.indexing_distance_from_head as nat),
                None => None,
            },
            phase: self.phase,
            attempts: self.attempts as nat,
            policy: self.policy,
            backing_off: self.backing_off,
        }
    }
}

impl LogFetcher {
    #[verifier::type_invariant]
    spec fn inv(self) -> bool {
        self@.wf()
    }

    /// A fetcher for the blocks `start_block ..= end_block`, or for no block
    /// yet where `end_block` is `None`. It asks for at most `max_block_range`
    /// blocks at once (for one block where that is zero). With `live` it goes
    /// on behind the head when the span is done.
    pub fn new(
        start_block: u64,
        end_block: Option<u64>,
        max_block_range: u64,
        policy: RetryPolicy,
        live: Option<LiveIndexingDetails>,
    ) -> (fetcher: LogFetcher)
        ensures
            fetcher@ == FetcherView::initial(start_block, end_block, max_block_range, policy, live),
            fetcher@.wf(),
    {
        let limit: u128 = match end_block {
            Some(e) => e as u128 + 1,
            None => 0,
        };
        let ceiling: u64 = if max_block_range >= 1 {
            max_block_range
        } else {
            1
        };
        let phase = if (start_block as u128) < limit {
            FetchPhase::Backfilling
        } else if live.is_some() {
            FetchPhase::CatchingUp
        } else {
            FetchPhase::Finished
        };
        LogFetcher {
            next: start_block as u128,
            limit,
            width: ceiling,
            ceiling,
            live,
            phase,
            attempts: 0,
            policy,
            backing_off: false,
        }
    }

    /// Where the fetcher stands in its life.
    pub fn phase(&self) -> (phase: FetchPhase)
        ensures
            phase == self@.phase,
    {
        self.phase
    }

    /// The number of blocks asked for at once.
    pub fn width(&self) -> (width: u64)
        ensures
            width == self@.width,
    {
        self.width
    }

    /// The next block to fetch; `None` when every block has been fetched.
    pub fn next_block(&self) -> (block: Option<u64>)
        ensures
            self@.wf(),
            block == if self@.next < block_space() {
                Some(self@.next as u64)
            } else {
                None
            },
    {
        proof {
            use_type_invariant(self);
        }
        if self.next <= u64::MAX as u128 {
            Some(self.next as u64)
        } else {
            None
        }
    }

    fn window_end(&self) -> (end: u128)
        requires
            self@.wf(),
        ensures
            end == self@.window_end(),
    {
        let wide: u128 = self.next + self.width as u128;
        if wide >= self.limit {
            self.limit
        } else {
            wide
        }
    }

    /// What has to be done next.
    pub fn next_step(&self) -> (step: FetchStep)
        ensures
            self@.wf(),
            step == self@.next_step(),
    {
        proof {
            use_type_invariant(self);
        }
        match self.phase {
            FetchPhase::Finished => FetchStep::Finished,
            FetchPhase::Failed => FetchStep::Failed,
            _ => {
                if self.backing_off {
                    FetchStep::Backoff { delay_ms: self.policy.delay_ms(self.attempts) }
                } else if self.next < self.limit {
                    let end = self.window_end();
                    FetchStep::GetLogs(BlockRange { from: self.next as u64, to: (end - 1) as u64 })
                } else {
                    let wait = match self.phase {
                        FetchPhase::Tailing => true,
                        _ => false,
                    };
                    FetchStep::PollHead { wait }
                }
            },
        }
    }

    /// Takes the logs that the provider gave for the window at hand and hands
    /// them on with the window. The fetcher moves past the window and widens.
    /// Where no window was asked for, nothing changes and `None` is returned.
    pub fn on_logs<L>(&mut self, logs: Vec<L>) -> (r: Option<FetchLogsStream<L>>)
        ensures
            final(self)@ == old(self)@.react(FetchEvent::Logs),
            final(self)@.wf(),
            match r {
                Some(stream) => {
                    &&& old(self)@.yielded(FetchEvent::Logs) == Some(
                        BlockRange { from: stream.from_block, to: stream.to_block },
                    )
                    &&& stream.logs == logs
                },
                None => old(self)@.yielded(FetchEvent::Logs) is None,
            },
    {
        proof {
            use_type_invariant(&*self);
        }
        match self.next_step() {
            FetchStep::GetLogs(window) => {
                let end = self.window_end();
                let step: u64 = if self.width / WIDTH_GROWTH_DIVISOR >= 1 {
                    self.width / WIDTH_GROWTH_DIVISOR
                } else {
                    1
                };
                let width: u64 = if step >= self.ceiling - self.width {
                    self.ceiling
                } else {
                    self.width + step
                };
                let phase = match self.phase {
                    FetchPhase::Backfilling => {
                        if end >= self.limit {
                            if self.live.is_some() {
                                FetchPhase::CatchingUp
                            } else {
                                FetchPhase::Finished
                            }
                        } else {
                            FetchPhase::Backfilling
                        }
                    },
                    other => other,
                };
                *self = LogFetcher {
                    next: end,
                    limit: self.limit,
                    width,
                    ceiling: self.ceiling,
                    live: self.live,
                    phase,
                    attempts: 0,
                    policy: self.policy,
                    backing_off: self.backing_off,
                };
                Some(FetchLogsStream { logs, from_block: window.from, to_block: window.to })
            },
            _ => None,
        }
    }

    /// Takes the failure of the request at hand. A range found too wide halves
    /// the window. Other failures are retried after a wait, up to the policy's
    /// number of retries; a fatal one, or one after the last retry, ends the
    /// fetcher and is returned. Where no request was at hand, nothing changes.
    pub fn on_error(&mut self, kind: ProviderErrorKind) -> (r: Option<FetchError>)
        ensures
            final(self)@ == old(self)@.react(FetchEvent::Error(kind)),
            final(self)@.wf(),
            r is Some <==> old(self)@.fails_on(kind),
            r matches Some(error) ==> error.kind == kind && error.window == old(self)@.yielded(
                FetchEvent::Logs,
            ),
    {
        proof {
            use_type_invariant(&*self);
        }
        let window = match self.next_step() {
            FetchStep::GetLogs(window) => Some(window),
            FetchStep::PollHead { .. } => None,
            _ => {
                return None;
            },
        };
        let too_wide = match kind {
            ProviderErrorKind::RangeTooWide => true,
            _ => false,
        };
        let fatal = match kind {
            ProviderErrorKind::Fatal => true,
            _ => false,
        };
        if window.is_some() && too_wide && self.width > 1 {
            *self = LogFetcher {
                next: self.next,
                limit: self.limit,
                width: self.width / 2,
                ceiling: self.ceiling,
                live: self.live,
                phase: self.phase,
                attempts: self.attempts,
                policy: self.policy,
                backing_off: self.backing_off,
            };
            None
        } else if fatal || self.attempts >= self.policy.max_retries {
            *self = LogFetcher {
                next: self.next,
                limit: self.limit,
                width: self.width,
                ceiling: self.ceiling,
                live: self.live,
                phase: FetchPhase::Failed,
                attempts: self.attempts,
                policy: self.policy,
                backing_off: self.backing_off,
            };
            Some(FetchError { kind, window })
        } else {
            *self = LogFetcher {
                next: self.next,
                limit: self.limit,
                width: self.width,
                ceiling: self.ceiling,
                live: self.live,
                phase: self.phase,
                attempts: self.attempts + 1,
                policy: self.policy,
                backing_off: true,
            };
            None
        }
    }

    /// Takes the end of a backoff: the request at hand is due again.
    pub fn on_waited(&mut self)
        ensures
            final(self)@ == old(self)@.react(FetchEvent::Waited),
            final(self)@.wf(),
    {
        proof {
            use_type_invariant(&*self);
        }
        *self = LogFetcher {
            next: self.next,
            limit: self.limit,
            width: self.width,
            ceiling: self.ceiling,
            live: self.live,
            phase: self.phase,
            attempts: self.attempts,
            policy: self.policy,
            backing_off: false,
        };
    }

    /// Takes the latest block from the provider. Where blocks behind the
    /// margin are new, they become the span to fetch; where none is, the
    /// fetcher is at the head and tails it. Where the head was not asked for,
    /// nothing changes.
    pub fn on_head(&mut self, latest: u64)
        ensures
            final(self)@ == old(self)@.react(FetchEvent::Head(latest)),
            final(self)@.wf(),
    {
        proof {
            use_type_invariant(&*self);
        }
        match self.next_step() {
            FetchStep::PollHead { .. } => {
                let margin = match self.live {
                    Some(d) => d.indexing_distance_from_head,
                    None => 0,
                };
                let safe_limit: u128 = if latest >= margin {
                    (latest - margin) as u128 + 1
                } else {
                    0
                };
                if safe_limit > self.next {
                    *self = LogFetcher {
                        next: self.next,
                        limit: safe_limit,
                        width: self.width,
                        ceiling: self.ceiling,
                        live: self.live,
                        phase: self.phase,
                        attempts: 0,
                        policy: self.policy,
                        backing_off: self.backing_off,
                    };
                } else {
                    *self = LogFetcher {
                        next: self.next,
                        limit: self.limit,
                        width: self.width,
                        ceiling: self.ceiling,
                        live: self.live,
                        phase: FetchPhase::Tailing,
                        attempts: 0,
                        policy: self.policy,
                        backing_off: self.backing_off,
                    };
                }
            },
            _ => {},
        }
    }
}

/// Whether `windows` cut the blocks from `from` up to, but not including,
/// `limit` into consecutive pieces: each holds a block, the first begins at
/// `from`, each next one begins right after the one before, and the last ends
/// right below `limit`. No block is left out and none is covered twice.
pub open spec fn tiles(windows: Seq<BlockRange>, from: nat, limit: nat) -> bool {
    &&& from <= limit
    &&& windows.len() == 0 ==> from == limit
    &&& windows.len() > 0 ==> windows[0].from == from && windows.last().to + 1 == limit
    &&& forall|i: int| 0 <= i < windows.len() ==> (#[trigger] windows[i]).from <= windows[i].to
    &&& forall|i: int, j: int|
        0 <= i && j == i + 1 && j < windows.len() ==> (#[trigger] windows[j]).from == (
        #[trigger] windows[i]).to + 1
}

/// In a tiling, no window begins before the first block.
pub proof fn lemma_tiles_begin_in_order(windows: Seq<BlockRange>, from: nat, limit: nat, i: int)
    requires
        tiles(windows, from, limit),
        0 <= i < windows.len(),
    ensures
        from <= windows[i].from,
        i > 0 ==> windows[i - 1].to < windows[i].from,
    decreases i,
{
    if i > 0 {
        lemma_tiles_begin_in_order(windows, from, limit, i - 1);
        assert(windows[i].from == windows[i - 1].to + 1);
    }
}

/// A tiling without its last window is a tiling of the blocks below that
/// window.
pub proof fn lemma_tiles_without_last(windows: Seq<BlockRange>, from: nat, limit: nat)
    requires
        tiles(windows, from, limit),
        windows.len() > 0,
    ensures
        tiles(windows.drop_last(), from, windows.last().from as nat),
{
    let last = windows.len() - 1;
    let earlier = windows.drop_last();
    lemma_tiles_begin_in_order(windows, from, limit, last);
    if last > 0 {
        assert(earlier.last() == windows[last - 1]);
        assert(earlier[0] == windows[0]);
    }
    assert forall|i: int| 0 <= i < earlier.len() implies (#[trigger] earlier[i]).from
        <= earlier[i].to by {
        assert(earlier[i] == windows[i]);
    }
    assert forall|i: int, j: int| 0 <= i && j == i + 1 && j < earlier.len() implies (
    #[trigger] earlier[j]).from == (#[trigger] earlier[i]).to + 1 by {
        assert(earlier[i] == windows[i]);
        assert(earlier[j] == windows[j]);
    }
}

/// The least of two numbers.
pub open spec fn least(a: nat, b: nat) -> nat {
    if a <= b {
        a
    } else {
        b
    }
}

impl FetcherView {
    /// The place of a phase in the life of a fetcher.
    pub open spec fn phase_rank(phase: FetchPhase) -> nat {
        match phase {
            FetchPhase::Backfilling => 0,
            FetchPhase::CatchingUp => 1,
            FetchPhase::Tailing => 2,
            FetchPhase::Finished => 3,
            FetchPhase::Failed => 3,
        }
    }

    /// What one event does to a well-formed state: the state stays
    /// well-formed, the completed window begins at the cursor and moves the
    /// cursor right past its end, only a report of the head moves the limit,
    /// and only a range found too wide narrows the window. The phase never
    /// goes back, and a fetcher leaves its backfill, unless it fails, with the
    /// cursor at the limit that it began with.
    pub proof fn lemma_event_effects(self, event: FetchEvent)
        requires
            self.wf(),
        ensures
            self.react(event).wf(),
            self.react(event).ceiling == self.ceiling,
            self.react(event).margin == self.margin,
            self.react(event).policy == self.policy,
            match self.yielded(event) {
                Some(w) => {
                    &&& w.from == self.next
                    &&& w.from <= w.to
                    &&& w.to < self.limit
                    &&& self.react(event).next == w.to + 1
                    &&& self.react(event).width >= least(self.ceiling, self.width + 1)
                },
                None => self.react(event).next == self.next,
            },
            !(event is Head) ==> self.react(event).limit == self.limit,
            event matches FetchEvent::Head(latest) ==> self.react(event).limit == self.limit || (
            self.next >= self.limit && self.react(event).limit == self.safe_limit(latest)),
            event != FetchEvent::Error(ProviderErrorKind::RangeTooWide) ==> self.react(
                event,
            ).width >= self.width,
            Self::phase_rank(self.phase) <= Self::phase_rank(self.react(event).phase),
            self.ended() ==> self.react(event).phase == self.phase && self.yielded(event) is None,
            self.phase is Backfilling ==> self.react(event).limit == self.limit,
            self.phase is Backfilling && !(self.react(event).phase is Backfilling) && !(self.react(
                event,
            ).phase is Failed) ==> self.react(event).next == self.limit,
    {
    }

    /// A run keeps a well-formed state well-formed, and keeps its ceiling,
    /// its margin and its policy.
    pub proof fn lemma_run_effects(self, events: Seq<FetchEvent>)
        requires
            self.wf(),
        ensures
            self.run(events).wf(),
            self.run(events).ceiling == self.ceiling,
            self.run(events).margin == self.margin,
            self.run(events).policy == self.policy,
            self.run(events).next >= self.next,
        decreases events.len(),
    {
        if events.len() > 0 {
            self.lemma_run_effects(events.drop_last());
            self.run(events.drop_last()).lemma_event_effects(events.last());
        }
    }

    /// Range coverage: whatever is reported to a fetcher, the windows that it
    /// hands out cut the blocks from where it began up to its cursor into
    /// consecutive pieces, with no gap and no overlap.
    pub proof fn law_windows_tile_the_span(self, events: Seq<FetchEvent>)
        requires
            self.wf(),
        ensures
            tiles(self.windows(events), self.next, self.run(events).next),
        decreases events.len(),
    {
        if events.len() > 0 {
            let before = self.run(events.drop_last());
            let done = self.windows(events.drop_last());
            self.law_windows_tile_the_span(events.drop_last());
            self.lemma_run_effects(events.drop_last());
            before.lemma_event_effects(events.last());
            match before.yielded(events.last()) {
                Some(w) => {
                    let all = done.push(w);
                    assert(all.last() == w);
                    assert forall|i: int| 0 <= i < all.len() implies (#[trigger] all[i]).from
                        <= all[i].to by {
                        if i < done.len() {
                            assert(all[i] == done[i]);
                        }
                    }
                    assert forall|i: int, j: int|
                        0 <= i && j == i + 1 && j < all.len() implies (#[trigger] all[j]).from == (
                    #[trigger] all[i]).to + 1 by {
                        assert(all[i] == done[i]);
                        if j < done.len() {
                            assert(all[j] == done[j]);
                        } else {
                            assert(done.last() == done[i]);
                        }
                    }
                    if done.len() > 0 {
                        assert(all[0] == done[0]);
                    }
                },
                None => {},
            }
        }
    }

    /// Every answered window moves the fetcher on: after a number of them the
    /// cursor is at least that many blocks past where it began. So a span of
    /// `n` blocks is done after at most `n` answered windows.
    pub proof fn law_each_window_advances(self, events: Seq<FetchEvent>)
        requires
            self.wf(),
        ensures
            self.run(events).next >= self.next + self.windows(events).len(),
        decreases events.len(),
    {
        if events.len() > 0 {
            self.law_each_window_advances(events.drop_last());
            self.lemma_run_effects(events.drop_last());
            self.run(events.drop_last()).lemma_event_effects(events.last());
        }
    }

    /// The phases follow in order: a fetcher never goes back to an earlier
    /// phase. The span that it was given is done before it goes on behind the
    /// head, and a fetcher that has ended stays as it ended.
    pub proof fn law_phases_follow_in_order(self, events: Seq<FetchEvent>)
        requires
            self.wf(),
        ensures
            Self::phase_rank(self.phase) <= Self::phase_rank(self.run(events).phase),
            self.ended() ==> self.run(events).phase == self.phase && self.windows(events).len()
                == 0,
        decreases events.len(),
    {
        if events.len() > 0 {
            self.law_phases_follow_in_order(events.drop_last());
            self.lemma_run_effects(events.drop_last());
        }
    }

    /// A live fetcher never finishes: its sequence of windows ends only with
    /// an error, or when it is dropped.
    pub proof fn law_live_fetcher_never_finishes(self, events: Seq<FetchEvent>)
        requires
            self.wf(),
            self.margin is Some,
        ensures
            !(self.run(events).phase is Finished),
    {
        self.lemma_run_effects(events);
    }

    /// Range coverage of the backfill: when a fetcher, live or not, has left
    /// its backfill without failing, the first windows that it handed out cut
    /// exactly the span it was given into consecutive pieces. What it hands
    /// out after them lies behind the head.
    pub proof fn law_backfill_covers_span(self, events: Seq<FetchEvent>)
        requires
            self.wf(),
            self.phase is Backfilling,
            !(self.run(events).phase is Backfilling),
            !(self.run(events).phase is Failed),
        ensures
            exists|k: int|
                0 <= k <= self.windows(events).len() && tiles(
                    #[trigger] self.windows(events).take(k),
                    self.next,
                    self.limit,
                ),
        decreases events.len(),
    {
        let earlier = events.drop_last();
        let before = self.run(earlier);
        self.lemma_run_effects(earlier);
        before.lemma_event_effects(events.last());
        if before.phase is Backfilling {
            self.lemma_backfill_keeps_limit(earlier);
            self.law_windows_tile_the_span(events);
            let all = self.windows(events);
            assert(all.take(all.len() as int) == all);
        } else {
            self.law_backfill_covers_span(earlier);
            let done = self.windows(earlier);
            let k = choose|k: int| 0 <= k <= done.len() && tiles(#[trigger] done.take(k), self.next, self.limit);
            assert(self.windows(events).take(k) == done.take(k));
        }
    }

    /// While a fetcher is backfilling, its limit stays where it was.
    proof fn lemma_backfill_keeps_limit(self, events: Seq<FetchEvent>)
        requires
            self.wf(),
            self.run(events).phase is Backfilling,
        ensures
            self.phase is Backfilling,
            self.run(events).limit == self.limit,
        decreases events.len(),
    {
        if events.len() > 0 {
            let earlier = events.drop_last();
            self.lemma_run_effects(earlier);
            self.run(earlier).lemma_event_effects(events.last());
            self.lemma_backfill_keeps_limit(earlier);
        }
    }

    /// A fetcher that is not live never moves its limit, and its cursor never
    /// passes it.
    pub proof fn lemma_span_is_fixed(self, events: Seq<FetchEvent>)
        requires
            self.wf(),
            self.margin is None,
            self.next <= self.limit,
        ensures
            self.run(events).limit == self.limit,
            self.run(events).next <= self.limit,
        decreases events.len(),
    {
        if events.len() > 0 {
            self.lemma_span_is_fixed(events.drop_last());
            self.lemma_run_effects(events.drop_last());
            self.run(events.drop_last()).lemma_event_effects(events.last());
        }
    }

    /// Range coverage of a completed run: when a fetcher that is not live has
    /// finished the span `start_block ..= end_block`, the windows that it
    /// handed out cut exactly that span into consecutive pieces.
    pub proof fn law_finished_run_covers_span(
        start_block: u64,
        end_block: u64,
        max_block_range: u64,
        policy: RetryPolicy,
        events: Seq<FetchEvent>,
    )
        requires
            start_block <= end_block,
            FetcherView::initial(start_block, Some(end_block), max_block_range, policy, None).run(
                events,
            ).phase is Finished,
        ensures
            tiles(
                FetcherView::initial(
                    start_block,
                    Some(end_block),
                    max_block_range,
                    policy,
                    None,
                ).windows(events),
                start_block as nat,
                (end_block + 1) as nat,
            ),
    {
        let begin = FetcherView::initial(start_block, Some(end_block), max_block_range, policy, None);
        begin.law_windows_tile_the_span(events);
        begin.lemma_span_is_fixed(events);
        begin.lemma_run_effects(events);
    }

    /// Until the head is reported, no window reaches the limit.
    pub proof fn law_windows_stay_below_limit(self, events: Seq<FetchEvent>)
        requires
            self.wf(),
            forall|i: int| 0 <= i < events.len() ==> !((#[trigger] events[i]) is Head),
        ensures
            forall|i: int|
                0 <= i < self.windows(events).len() ==> (#[trigger] self.windows(events)[i]).to
                    < self.limit,
        decreases events.len(),
    {
        if events.len() > 0 {
            let earlier = events.drop_last();
            let before = self.run(earlier);
            let done = self.windows(earlier);
            self.law_windows_stay_below_limit(earlier);
            self.lemma_limit_holds(self.limit, earlier);
            self.lemma_run_effects(earlier);
            before.lemma_event_effects(events.last());
            assert forall|i: int| 0 <= i < self.windows(events).len() implies (
            #[trigger] self.windows(events)[i]).to < self.limit by {
                if i < done.len() {
                    assert(self.windows(events)[i] == done[i]);
                } else {
                    assert(self.windows(events)[i] == before.yielded(events.last()).unwrap());
                }
            }
        }
    }

    /// Reorg safety behind the head: once the head `latest` has been reported
    /// to a live fetcher that asked for it, no window that it hands out
    /// reaches above `latest` less the margin, until the head is reported
    /// again.
    pub proof fn law_windows_stay_behind_head(self, latest: u64, events: Seq<FetchEvent>)
        requires
            self.wf(),
            self.next_step() is PollHead,
            forall|i: int| 0 <= i < events.len() ==> !((#[trigger] events[i]) is Head),
        ensures
            forall|i: int|
                0 <= i < self.after_head(latest).windows(events).len() ==> (
                #[trigger] self.after_head(latest).windows(events)[i]).to + self.margin.unwrap()
                    <= latest,
        decreases events.len(),
    {
        let begin = self.after_head(latest);
        self.lemma_event_effects(FetchEvent::Head(latest));
        begin.lemma_limit_holds(self.safe_limit(latest), events);
        if events.len() > 0 {
            let earlier = events.drop_last();
            let before = begin.run(earlier);
            let done = begin.windows(earlier);
            self.law_windows_stay_behind_head(latest, earlier);
            begin.lemma_limit_holds(self.safe_limit(latest), earlier);
            begin.lemma_run_effects(earlier);
            before.lemma_event_effects(events.last());
            assert forall|i: int| 0 <= i < begin.windows(events).len() implies (
            #[trigger] begin.windows(events)[i]).to + self.margin.unwrap() <= latest by {
                if i < done.len() {
                    assert(begin.windows(events)[i] == done[i]);
                } else {
                    let w = before.yielded(events.last()).unwrap();
                    assert(begin.windows(events)[i] == w);
                    assert(w.to + 1 <= self.safe_limit(latest));
                }
            }
        }
    }

    /// While the head is not reported, a limit that is at most `bound`, or
    /// that leaves no block to fetch, stays so.
    proof fn lemma_limit_holds(self, bound: nat, events: Seq<FetchEvent>)
        requires
            self.wf(),
            self.limit <= bound || self.next >= self.limit,
            forall|i: int| 0 <= i < events.len() ==> !((#[trigger] events[i]) is Head),
        ensures
            self.run(events).limit <= bound || self.run(events).next >= self.run(events).limit,
        decreases events.len(),
    {
        if events.len() > 0 {
            self.lemma_limit_holds(bound, events.drop_last());
            self.lemma_run_effects(events.drop_last());
            self.run(events.drop_last()).lemma_event_effects(events.last());
        }
    }

    /// Recovery of the width: as long as no range is found too wide, the
    /// width never falls, and every answered window adds at least one block to
    /// it until the ceiling is reached. So a window that was narrowed is back
    /// at its ceiling after at most `ceiling - width` answered windows.
    pub proof fn law_width_recovers(self, events: Seq<FetchEvent>)
        requires
            self.wf(),
            forall|i: int|
                0 <= i < events.len() ==> (#[trigger] events[i]) != FetchEvent::Error(
                    ProviderErrorKind::RangeTooWide,
                ),
        ensures
            self.run(events).width >= least(self.ceiling, self.width + self.windows(events).len()),
            self.windows(events).len() >= self.ceiling - self.width ==> self.run(events).width
                == self.ceiling,
        decreases events.len(),
    {
        self.lemma_run_effects(events);
        if events.len() > 0 {
            self.law_width_recovers(events.drop_last());
            self.lemma_run_effects(events.drop_last());
            self.run(events.drop_last()).lemma_event_effects(events.last());
        }
    }
}

} // verus!

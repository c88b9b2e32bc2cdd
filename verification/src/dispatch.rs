//! The dispatcher: a bounded window of replica attempts.
//!
//! The dispatcher decides; its caller performs. It hands out replicas in
//! order while the window has room, and takes each completion as it comes,
//! in any order. A failed replica ends like any other and stops nothing.

use crate::config::KeyConfiguration;
use crate::encapsulation::{
    encapsulate, reason_text, usable_config, EncapsulationError, ENCAPSULATION_OVERHEAD,
};
use crate::outcome::{outcome_of, Exchange, Outcome, OutcomeView};
use crate::template::MessageTemplate;
use vstd::prelude::*;

verus! {

/// Why a plan was refused.
#[derive(Debug, Clone, Copy, PartialEq, Eq)]
pub enum PlanError {
    /// With a concurrency of zero the window could never open.
    ZeroConcurrency,
}

/// How many replicas to send, and how many of them at once.
#[derive(Debug, Clone, Copy, PartialEq, Eq)]
pub struct DispatchPlan {
    total_requests: usize,
    concurrency: usize,
}

impl DispatchPlan {
    #[verifier::type_invariant]
    spec fn window_can_open(self) -> bool {
        self.concurrency >= 1
    }

    /// The number of replicas.
    pub closed spec fn total(self) -> nat {
        self.total_requests as nat
    }

    /// The most attempts that may be in flight at once.
    pub closed spec fn limit(self) -> nat {
        self.concurrency as nat
    }

    /// A plan for `total_requests` replicas, at most `concurrency` of them in
    /// flight at once. The concurrency may exceed the number of replicas.
    pub fn new(total_requests: usize, concurrency: usize) -> (planned: Result<
        DispatchPlan,
        PlanError,
    >)
        ensures
            match planned {
                Ok(plan) => concurrency >= 1 && plan.total() == total_requests && plan.limit()
                    == concurrency,
                Err(_) => concurrency == 0,
            },
    {
        if concurrency == 0 {
            Err(PlanError::ZeroConcurrency)
        } else {
            Ok(DispatchPlan { total_requests, concurrency })
        }
    }

    /// The number of replicas.
    pub fn total_requests(&self) -> (total: usize)
        ensures
            total == self.total(),
    {
        self.total_requests
    }

    /// The most attempts that may be in flight at once.
    pub fn concurrency(&self) -> (limit: usize)
        ensures
            limit == self.limit(),
            limit >= 1,
    {
        proof {
            use_type_invariant(self);
        }
        self.concurrency
    }
}

/// The state of a dispatch as a mathematical value.
pub struct DispatchState {
    /// The number of replicas.
    pub total: nat,
    /// The most attempts that may be in flight at once.
    pub concurrency: nat,
    /// The replicas `0 .. started` have been started.
    pub started: nat,
    /// The number of outcomes that have been handed out.
    pub reported: nat,
    /// The replicas in flight, in the order in which they started.
    pub window: Seq<usize>,
}

/// What can happen to a dispatch.
pub enum Event {
    /// The next replica is started, if the window has room for it.
    Start,
    /// The attempt for replica `index` ends, if it is in flight.
    Complete { index: usize },
}

/// What the caller of a dispatcher has to do next.
#[derive(Debug, Clone, Copy, PartialEq, Eq)]
pub enum Decision {
    /// Start the next replica.
    Start,
    /// Wait for an attempt in flight to end.
    Wait,
    /// Nothing: every replica has been reported.
    Done,
}

impl DispatchState {
    /// The state before anything has started.
    pub open spec fn initial(total: nat, concurrency: nat) -> DispatchState {
        DispatchState { total, concurrency, started: 0, reported: 0, window: Seq::empty() }
    }

    /// The invariant of a dispatch: every started replica is either in flight
    /// or reported, no replica is in flight twice, and the window is within
    /// its limit.
    pub open spec fn valid(self) -> bool {
        &&& self.concurrency >= 1
        &&& self.total <= usize::MAX
        &&& self.started <= self.total
        &&& self.started == self.window.len() + self.reported
        &&& self.window.len() <= self.concurrency
        &&& self.window.no_duplicates()
        &&& forall|i: int| 0 <= i < self.window.len() ==> (#[trigger] self.window[i]) < self.started
    }

    /// The number of attempts in flight.
    pub open spec fn in_flight(self) -> nat {
        self.window.len()
    }

    /// Whether a replica is left and the window has room for it.
    pub open spec fn can_start(self) -> bool {
        self.started < self.total && self.window.len() < self.concurrency
    }

    /// Whether every replica has started and none is in flight.
    pub open spec fn finished(self) -> bool {
        self.started == self.total && self.window.len() == 0
    }

    /// The state once the next replica has started.
    pub open spec fn after_start(self) -> DispatchState {
        DispatchState {
            started: self.started + 1,
            window: self.window.push(self.started as usize),
            ..self
        }
    }

    /// The state once the attempt for replica `index` has ended.
    pub open spec fn after_completion(self, index: usize) -> DispatchState {
        DispatchState {
            reported: self.reported + 1,
            window: self.window.remove(self.window.index_of(index)),
            ..self
        }
    }

    /// The state after one event. An event that does not apply changes
    /// nothing.
    pub open spec fn apply(self, event: Event) -> DispatchState {
        match event {
            Event::Start => if self.can_start() {
                self.after_start()
            } else {
                self
            },
            Event::Complete { index } => if self.window.contains(index) {
                self.after_completion(index)
            } else {
                self
            },
        }
    }

    /// The state after a sequence of events.
    pub open spec fn run(self, events: Seq<Event>) -> DispatchState
        decreases events.len(),
    {
        if events.len() == 0 {
            self
        } else {
            self.run(events.drop_last()).apply(events.last())
        }
    }

    /// What is to be done in this state: start while the window has room,
    /// else wait while anything is in flight.
    pub open spec fn decision(self) -> Decision {
        if self.can_start() {
            Decision::Start
        } else if self.window.len() > 0 {
            Decision::Wait
        } else {
            Decision::Done
        }
    }
}

/// No event breaks the invariant of a dispatch.
pub proof fn lemma_apply_keeps_valid(state: DispatchState, event: Event)
    requires
        state.valid(),
    ensures
        state.apply(event).valid(),
{
    match event {
        Event::Start => {},
        Event::Complete { index } => {
            if state.window.contains(index) {
                let at = state.window.index_of(index);
                state.window.remove_ensures(at);
            }
        },
    }
}

/// Whatever happens, and in whatever order, the number of attempts in flight
/// never exceeds the concurrency nor the number of replicas.
pub proof fn lemma_window_is_bounded(total: nat, concurrency: nat, events: Seq<Event>)
    requires
        concurrency >= 1,
        total <= usize::MAX,
    ensures
        DispatchState::initial(total, concurrency).run(events).valid(),
        DispatchState::initial(total, concurrency).run(events).total == total,
        DispatchState::initial(total, concurrency).run(events).concurrency == concurrency,
        DispatchState::initial(total, concurrency).run(events).in_flight() <= concurrency,
        DispatchState::initial(total, concurrency).run(events).in_flight() <= total,
    decreases events.len(),
{
    if events.len() > 0 {
        lemma_window_is_bounded(total, concurrency, events.drop_last());
        lemma_apply_keeps_valid(
            DispatchState::initial(total, concurrency).run(events.drop_last()),
            events.last(),
        );
    }
}

/// With no replica to send there is nothing to do from the outset: nothing
/// starts, and nothing is ever in flight.
pub proof fn lemma_empty_plan_is_done(concurrency: nat, events: Seq<Event>)
    requires
        concurrency >= 1,
    ensures
        DispatchState::initial(0, concurrency).decision() == Decision::Done,
        DispatchState::initial(0, concurrency).run(events) == DispatchState::initial(
            0,
            concurrency,
        ),
    decreases events.len(),
{
    if events.len() > 0 {
        lemma_empty_plan_is_done(concurrency, events.drop_last());
    }
}

/// A dispatch is never stuck, and it is done only when every replica has
/// been reported: until then a replica can start or an attempt is in flight,
/// however many of the attempts before have failed.
pub proof fn lemma_dispatch_ends_with_every_outcome(state: DispatchState)
    requires
        state.valid(),
    ensures
        state.decision() == Decision::Done <==> state.reported == state.total,
        state.decision() == Decision::Done <==> state.finished(),
        state.decision() == Decision::Wait ==> state.in_flight() > 0,
        state.decision() == Decision::Start ==> state.apply(Event::Start).in_flight()
            == state.in_flight() + 1,
{
}

/// A replica that has been reported is never in flight again, so no replica
/// is reported twice.
pub proof fn lemma_reported_stays_reported(state: DispatchState, index: usize, event: Event)
    requires
        state.valid(),
        index < state.started,
        !state.window.contains(index),
    ensures
        index < state.apply(event).started,
        !state.apply(event).window.contains(index),
{
    match event {
        Event::Start => {},
        Event::Complete { index: ended } => {
            if state.window.contains(ended) {
                let at = state.window.index_of(ended);
                state.window.remove_ensures(at);
                let rest = state.window.remove(at);
                assert forall|i: int| 0 <= i < rest.len() implies rest[i] != index by {
                    if i < at {
                        assert(rest[i] == state.window[i]);
                    } else {
                        assert(rest[i] == state.window[i + 1]);
                    }
                }
            }
        },
    }
}

/// One replica on its way: its place in the batch and the plaintext that it
/// is encapsulated from.
pub struct ReplicaAttempt<'a> {
    index: usize,
    plaintext: &'a [u8],
}

impl<'a> ReplicaAttempt<'a> {
    /// The place of the replica in the batch, counted from zero.
    pub closed spec fn ordinal(&self) -> usize {
        self.index
    }

    /// The plaintext of the replica.
    pub closed spec fn payload(&self) -> Seq<u8> {
        self.plaintext@
    }

    /// The place of the replica in the batch, counted from zero.
    pub fn index(&self) -> (index: usize)
        ensures
            index == self.ordinal(),
    {
        self.index
    }

    /// The plaintext of the replica.
    pub fn plaintext(&self) -> (bytes: &'a [u8])
        ensures
            bytes@ == self.payload(),
    {
        self.plaintext
    }

    /// Encapsulates the plaintext under `config`. Every call makes a context
    /// of its own, so that no two ciphertexts share cryptographic state.
    pub fn encapsulate(&self, config: &KeyConfiguration) -> (sealed: Result<
        Vec<u8>,
        EncapsulationError,
    >)
        ensures
            sealed == Err::<Vec<u8>, EncapsulationError>(EncapsulationError::InvalidConfig)
                <==> !usable_config(config@),
            sealed matches Ok(ciphertext) ==> ciphertext@.len() == self.payload().len()
                + ENCAPSULATION_OVERHEAD,
    {
        encapsulate(config, self.plaintext)
    }
}

/// What the caller of [`Dispatcher::poll`] has to do next.
#[derive(Debug, PartialEq, Eq)]
pub enum Step {
    /// Post `body` as replica `index` without waiting for the answer, then
    /// poll again.
    Send { index: usize, body: Vec<u8> },
    /// Report `outcome`: replica `index` ended before it reached the network.
    Report { index: usize, outcome: Outcome },
    /// Wait for an attempt in flight to end and hand its result to
    /// [`Dispatcher::complete`].
    Wait,
    /// Nothing: every replica has been reported.
    Done,
}

/// The dispatcher of one batch of replicas.
#[derive(Debug)]
pub struct Dispatcher {
    plan: DispatchPlan,
    started: usize,
    window: Vec<usize>,
}

impl View for Dispatcher {
    type V = DispatchState;

    closed spec fn view(&self) -> DispatchState {
        DispatchState {
            total: self.plan.total(),
            concurrency: self.plan.limit(),
            started: self.started as nat,
            reported: (self.started - self.window@.len()) as nat,
            window: self.window@,
        }
    }
}

impl Dispatcher {
    #[verifier::type_invariant]
    spec fn well_formed(&self) -> bool {
        self@.valid()
    }

    /// A dispatcher for `plan`, with nothing started.
    pub fn new(plan: DispatchPlan) -> (dispatcher: Dispatcher)
        ensures
            dispatcher@ == DispatchState::initial(plan.total(), plan.limit()),
            dispatcher@.valid(),
    {
        proof {
            use_type_invariant(&plan);
        }
        Dispatcher { plan, started: 0, window: Vec::new() }
    }

    /// The number of attempts in flight: never more than the concurrency,
    /// nor than the number of replicas.
    pub fn in_flight(&self) -> (count: usize)
        ensures
            count == self@.in_flight(),
            count <= self@.concurrency,
            count <= self@.total,
            self@.valid(),
    {
        proof {
            use_type_invariant(self);
        }
        self.window.len()
    }

    /// The number of outcomes handed out so far.
    pub fn reported(&self) -> (count: usize)
        ensures
            count == self@.reported,
    {
        proof {
            use_type_invariant(self);
        }
        self.started - self.window.len()
    }

    /// What is to be done next.
    pub fn decide(&self) -> (decision: Decision)
        ensures
            decision == self@.decision(),
    {
        proof {
            use_type_invariant(self);
        }
        if self.started < self.plan.total_requests && self.window.len() < self.plan.concurrency {
            Decision::Start
        } else if self.window.len() > 0 {
            Decision::Wait
        } else {
            Decision::Done
        }
    }

    /// Starts the next replica if one is left and the window has room for it.
    /// The replica carries the canonical bytes of `template`, as every other
    /// replica of the batch does.
    pub fn start<'a>(&mut self, template: &'a MessageTemplate) -> (attempt: Option<
        ReplicaAttempt<'a>,
    >)
        ensures
            final(self)@.valid(),
            final(self)@ == old(self)@.apply(Event::Start),
            attempt is Some <==> old(self)@.can_start(),
            attempt matches Some(started) ==> started.ordinal() == old(self)@.started
                && started.payload() == template@,
    {
        proof {
            use_type_invariant(&*self);
        }
        if self.started < self.plan.total_requests && self.window.len() < self.plan.concurrency {
            let index = self.started;
            let mut window = self.take_window();
            window.push(index);
            self.started = index + 1;
            self.window = window;
            Some(ReplicaAttempt { index, plaintext: template.canonical() })
        } else {
            None
        }
    }

    /// Takes the window out to be edited and leaves an empty one, with which
    /// the dispatcher is still well formed.
    fn take_window(&mut self) -> (window: Vec<usize>)
        ensures
            window@ == old(self)@.window,
            final(self)@.window.len() == 0,
            final(self)@.started == old(self)@.started,
            final(self)@.total == old(self)@.total,
            final(self)@.concurrency == old(self)@.concurrency,
    {
        proof {
            use_type_invariant(&*self);
        }
        let mut window: Vec<usize> = Vec::new();
        core::mem::swap(&mut self.window, &mut window);
        window
    }

    /// Where `index` stands in the window, if it is in flight.
    fn position(&self, index: usize) -> (found: Option<usize>)
        ensures
            match found {
                Some(at) => at < self@.window.len() && self@.window[at as int] == index,
                None => !self@.window.contains(index),
            },
    {
        let mut at: usize = 0;
        while at < self.window.len()
            invariant
                at <= self.window@.len(),
                forall|j: int| 0 <= j < at ==> self.window@[j] != index,
            decreases self.window@.len() - at,
        {
            if self.window[at] == index {
                return Some(at);
            }
            at += 1;
        }
        None
    }

    /// Ends the attempt for replica `index` with what the transport gave for
    /// it. A failure ends the attempt as a success does. Returns the outcome
    /// to report, or `None`, with nothing changed, if that replica is not in
    /// flight.
    pub fn complete(&mut self, index: usize, exchange: Exchange) -> (outcome: Option<Outcome>)
        ensures
            final(self)@.valid(),
            final(self)@ == old(self)@.apply(Event::Complete { index }),
            outcome is Some <==> old(self)@.window.contains(index),
            outcome matches Some(reported) ==> reported@ == outcome_of(exchange@),
    {
        proof {
            use_type_invariant(&*self);
        }
        match self.position(index) {
            None => None,
            Some(at) => {
                proof {
                    lemma_apply_keeps_valid(self@, Event::Complete { index });
                    assert(self@.window.index_of(index) == at);
                }
                let mut window = self.take_window();
                window.remove(at);
                self.window = window;
                Some(Outcome::from_exchange(exchange))
            },
        }
    }

    /// Takes the result of encapsulating replica `index`: a ciphertext goes
    /// to the network and leaves the attempt in flight, an error ends the
    /// attempt with a failure to report.
    pub fn settle(&mut self, index: usize, sealed: Result<Vec<u8>, EncapsulationError>) -> (step:
        Step)
        requires
            old(self)@.window.contains(index),
        ensures
            final(self)@.valid(),
            match sealed {
                Ok(ciphertext) => {
                    &&& step matches Step::Send { index: sent, body }
                    &&& sent == index
                    &&& body@ == ciphertext@
                    &&& final(self)@ == old(self)@
                },
                Err(error) => {
                    &&& step matches Step::Report { index: ended, outcome }
                    &&& ended == index
                    &&& outcome@ == (OutcomeView::Failure { reason: reason_text(error) })
                    &&& final(self)@ == old(self)@.after_completion(index)
                },
            },
    {
        proof {
            use_type_invariant(&*self);
        }
        match sealed {
            Ok(body) => Step::Send { index, body },
            Err(error) => {
                match self.complete(index, Exchange::Failed { reason: error.reason() }) {
                    Some(outcome) => Step::Report { index, outcome },
                    // Not reached: the replica is in flight.
                    None => Step::Wait,
                }
            },
        }
    }

    /// Makes the next move of the batch. While a replica is left and the
    /// window has room, the replica is started and encapsulated: the step is
    /// to send its ciphertext, or to report that it could not be
    /// encapsulated. Else the step is to wait, or the batch is done.
    pub fn poll(&mut self, config: &KeyConfiguration, template: &MessageTemplate) -> (step: Step)
        ensures
            final(self)@.valid(),
            match step {
                Step::Send { index, body } => {
                    &&& old(self)@.can_start()
                    &&& usable_config(config@)
                    &&& index == old(self)@.started
                    &&& body@.len() == template@.len() + ENCAPSULATION_OVERHEAD
                    &&& final(self)@ == old(self)@.after_start()
                },
                Step::Report { index, outcome } => {
                    &&& old(self)@.can_start()
                    &&& index == old(self)@.started
                    &&& outcome@ == (OutcomeView::Failure {
                        reason: reason_text(
                            if usable_config(config@) {
                                EncapsulationError::Failed
                            } else {
                                EncapsulationError::InvalidConfig
                            },
                        ),
                    })
                    &&& final(self)@ == old(self)@.after_start().after_completion(index)
                    &&& final(self)@.window == old(self)@.window
                },
                Step::Wait => {
                    &&& old(self)@.decision() == Decision::Wait
                    &&& final(self)@ == old(self)@
                },
                Step::Done => {
                    &&& old(self)@.decision() == Decision::Done
                    &&& final(self)@ == old(self)@
                },
            },
    {
        match self.start(template) {
            Some(attempt) => {
                let sealed = attempt.encapsulate(config);
                let index = attempt.index();
                assert(self@.window.last() == index);
                self.settle(index, sealed)
            },
            None => {
                if self.window.len() > 0 {
                    Step::Wait
                } else {
                    Step::Done
                }
            },
        }
    }
}

} // verus!

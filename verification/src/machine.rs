//! The event-driven state machine engine.
//!
//! A `StateMachine` owns the shared context (`Data`), a registry mapping each
//! state to its transition handler, an optional registration hook, and the
//! channels that connect it to producers and observers. Processing one event
//! is the verified `step`: record the event's timestamp, run the hook,
//! dispatch to the current state's handler, and broadcast the (possibly
//! unchanged) current state.
//!
//! Receiving is the only awaiting operation; the host drives the dispatch
//! loop by pulling events from `event_receiver` and calling `step` for each,
//! strictly one at a time.

use vstd::laws_eq::obeys_concrete_eq;
use vstd::prelude::*;

use crate::kv::{
    keys_unique, lemma_lookup_first_match, lemma_lookup_map_of, lemma_lookup_no_match,
    lemma_map_of_push, lemma_map_of_update, map_of, spec_lookup, val_eq,
};

verus! {

/// Mathematical view of the shared context: the timestamp list is seen as a
/// finite map from event value to the time it was last observed.
#[verifier::ext_equal]
#[verifier::reject_recursive_types(Event)]
pub struct DataView<Event, State, UserData> {
    pub prev_state: Option<State>,
    pub state: State,
    pub user_data: UserData,
    pub events: Map<Event, u64>,
}

/// The shared context threaded through every dispatch.
pub struct Data<Event, State, UserData> {
    /// State before the most recently completed dispatch; `None` until the
    /// first event is processed.
    pub prev_state: Option<State>,
    /// Current state.
    pub state: State,
    /// User-defined record, shared across all states.
    pub user_data: UserData,
    /// Last-observed timestamp per distinct event value; unique keys.
    pub events: Vec<(Event, u64)>,
}

impl<Event, State, UserData> View for Data<Event, State, UserData> {
    type V = DataView<Event, State, UserData>;

    open spec fn view(&self) -> DataView<Event, State, UserData> {
        DataView {
            prev_state: self.prev_state,
            state: self.state,
            user_data: self.user_data,
            events: map_of(self.events@),
        }
    }
}

/// Per-state transition logic, implemented by the user for each state value.
pub trait Transition<Event, State, UserData>: Sized {
    /// The pure transition function this handler implements.
    spec fn next_spec(&self, event: Event, data: DataView<Event, State, UserData>) -> State;

    /// Compute the next state for an incoming event, given read access to the
    /// full shared context.
    fn next(&self, event: Event, data: &Data<Event, State, UserData>) -> (s: State)
        ensures
            s == self.next_spec(event, data@),
    ;

    /// Invoked once, right after a dispatch that changed the state, on the
    /// handler registered for the new state. Defaults to doing nothing.
    fn enter(&self, data: &Data<Event, State, UserData>) {
    }
}

/// Callback run synchronously on every event arrival, before dispatch. It may
/// rework the user record; the engine-owned fields stay untouched.
pub trait RegistrationHook<Event, State, UserData>: Sized {
    /// The bookkeeping function this hook implements, over the full context
    /// it is shown (the event's own timestamp already recorded).
    spec fn on_register_spec(
        &self,
        event: Event,
        data: DataView<Event, State, UserData>,
    ) -> UserData;

    fn on_register(&self, event: Event, data: &mut Data<Event, State, UserData>)
        ensures
            final(data).state == old(data).state,
            final(data).prev_state == old(data).prev_state,
            final(data).events == old(data).events,
            final(data).user_data == self.on_register_spec(event, old(data)@),
    ;
}

/// What one processed event did: the state that was broadcast, whether the
/// dispatch changed the state, and whether an `enter` hook ran.
pub struct StepReport<State> {
    pub published: State,
    pub changed: bool,
    pub entered: bool,
}

/// The context after recording one event: its timestamp is (over)written and
/// the registration hook, if any, has reworked the user record.
pub open spec fn registered_view<Event, State, UserData, R: RegistrationHook<Event, State, UserData>>(
    d: DataView<Event, State, UserData>,
    hook: Option<R>,
    event: Event,
    now: u64,
) -> DataView<Event, State, UserData> {
    let d1 = DataView {
        prev_state: d.prev_state,
        state: d.state,
        user_data: d.user_data,
        events: d.events.insert(event, now),
    };
    match hook {
        None => d1,
        Some(h) => DataView {
            prev_state: d1.prev_state,
            state: d1.state,
            user_data: h.on_register_spec(event, d1),
            events: d1.events,
        },
    }
}

/// The context the handler reads while computing the next state: the previous
/// state has already been set to the current one.
pub open spec fn pre_dispatch_view<Event, State, UserData>(
    d: DataView<Event, State, UserData>,
) -> DataView<Event, State, UserData> {
    DataView { prev_state: Some(d.state), state: d.state, user_data: d.user_data, events: d.events }
}

/// The context after dispatching one event: with a handler registered for the
/// current state, the handler's transition function decides the new state; with
/// none, nothing moves.
pub open spec fn dispatched_view<Event, State, UserData, H: Transition<Event, State, UserData>>(
    d: DataView<Event, State, UserData>,
    ts: Seq<(State, H)>,
    event: Event,
) -> DataView<Event, State, UserData> {
    match spec_lookup(ts, d.state) {
        None => d,
        Some(h) => {
            let mid = pre_dispatch_view(d);
            DataView {
                prev_state: mid.prev_state,
                state: h.next_spec(event, mid),
                user_data: mid.user_data,
                events: mid.events,
            }
        },
    }
}

/// Whether dispatching `event` on context `d` changes the state.
pub open spec fn step_changed<Event, State, UserData, H: Transition<Event, State, UserData>>(
    d: DataView<Event, State, UserData>,
    ts: Seq<(State, H)>,
    event: Event,
) -> bool {
    match spec_lookup(ts, d.state) {
        None => false,
        Some(h) => h.next_spec(event, pre_dispatch_view(d)) != d.state,
    }
}

/// Whether dispatching `event` on context `d` invokes an `enter` hook: only
/// after a change, and only if the new state has a registered handler.
pub open spec fn step_entered<Event, State, UserData, H: Transition<Event, State, UserData>>(
    d: DataView<Event, State, UserData>,
    ts: Seq<(State, H)>,
    event: Event,
) -> bool {
    &&& step_changed(d, ts, event)
    &&& match spec_lookup(ts, d.state) {
        None => false,
        Some(h) => spec_lookup(ts, h.next_spec(event, pre_dispatch_view(d))).is_some(),
    }
}

/// The context after one full step: register, then dispatch.
pub open spec fn step_view<
    Event,
    State,
    UserData,
    H: Transition<Event, State, UserData>,
    R: RegistrationHook<Event, State, UserData>,
>(
    d: DataView<Event, State, UserData>,
    ts: Seq<(State, H)>,
    hook: Option<R>,
    event: Event,
    now: u64,
) -> DataView<Event, State, UserData> {
    dispatched_view(registered_view(d, hook, event, now), ts, event)
}

/// An event-driven finite state machine with asynchronous interactions: a
/// bounded event queue in, a state broadcast out, and a per-state handler
/// registry in between.
#[verifier::reject_recursive_types(Event)]
#[verifier::reject_recursive_types(State)]
pub struct StateMachine<Event, State, UserData, H, R> {
    /// Consumer half of the event channel; the host's dispatch loop awaits on
    /// it and feeds each received event to `step`.
    pub event_receiver: tokio::sync::mpsc::Receiver<Event>,
    /// Producer half of the state broadcast.
    pub broadcast_sender: tokio::sync::broadcast::Sender<State>,
    /// One handler per state value; unique keys.
    pub transitions: Vec<(State, H)>,
    /// The shared context.
    pub data: Data<Event, State, UserData>,
    /// Optional registration hook.
    pub on_event_register: Option<R>,
}

impl<Event, State, UserData, H, R> StateMachine<Event, State, UserData, H, R> where
    Event: Copy + PartialEq + Eq,
    State: Copy + PartialEq + Eq + Default,
    UserData: Default,
    H: Transition<Event, State, UserData>,
    R: RegistrationHook<Event, State, UserData>,
 {
    /// Well-formedness: `==` on states and events is value equality, and both
    /// association lists keep their keys unique.
    pub open spec fn wf(&self) -> bool {
        &&& obeys_concrete_eq::<State>()
        &&& obeys_concrete_eq::<Event>()
        &&& keys_unique(self.transitions@)
        &&& keys_unique(self.data.events@)
    }

    /// Create a machine whose event channel and broadcast queues hold up to
    /// `size` values (at most `usize::MAX / 8`, the event queue's permit
    /// bound), together with the producer handle for feeding events.
    /// The machine starts in `State`'s default value with `UserData`'s
    /// default value; the registry, the timestamp map and the previous state
    /// start empty, and no hook is installed. (What the default values are is
    /// the `Default` implementations' business; `with_initial` pins the
    /// starting context exactly.)
    pub fn new(size: usize) -> (r: (Self, tokio::sync::mpsc::Sender<Event>))
        requires
            1 <= size <= usize::MAX / 8,
            obeys_concrete_eq::<State>(),
            obeys_concrete_eq::<Event>(),
        ensures
            r.0.wf(),
            r.0.data.prev_state == None::<State>,
            r.0.data.events@ == Seq::<(Event, u64)>::empty(),
            r.0.data@.events == Map::<Event, u64>::empty(),
            r.0.transitions@ == Seq::<(State, H)>::empty(),
            r.0.on_event_register == None::<R>,
    {
        Self::with_initial(size, State::default(), UserData::default())
    }

    /// Create a machine exactly as `new` does, but starting in the given
    /// state and with the given user record.
    pub fn with_initial(size: usize, state: State, user_data: UserData) -> (r: (
        Self,
        tokio::sync::mpsc::Sender<Event>,
    ))
        requires
            1 <= size <= usize::MAX / 8,
            obeys_concrete_eq::<State>(),
            obeys_concrete_eq::<Event>(),
        ensures
            r.0.wf(),
            r.0.data.state == state,
            r.0.data.user_data == user_data,
            r.0.data.prev_state == None::<State>,
            r.0.data.events@ == Seq::<(Event, u64)>::empty(),
            r.0.data@.events == Map::<Event, u64>::empty(),
            r.0.transitions@ == Seq::<(State, H)>::empty(),
            r.0.on_event_register == None::<R>,
    {
        let (event_sender, event_receiver) = crate::channel::event_channel(size);
        proof {
            assert(usize::MAX / 8 <= usize::MAX / 2) by (nonlinear_arith);
        }
        let bc = crate::channel::state_channel(size);
        let fsm = StateMachine {
            event_receiver,
            broadcast_sender: bc.0,
            transitions: Vec::new(),
            data: Data { prev_state: None, state, user_data, events: Vec::new() },
            on_event_register: None,
        };
        proof {
            assert(fsm.data@.events =~= Map::<Event, u64>::empty());
        }
        (fsm, event_sender)
    }

    /// Index of the registry entry for `state`, if one exists.
    fn find_transition_index(&self, state: State) -> (r: Option<usize>)
        requires
            obeys_concrete_eq::<State>(),
        ensures
            match r {
                Some(i) => i < self.transitions@.len() && self.transitions@[i as int].0 == state
                    && forall|j: int| 0 <= j < i ==> self.transitions@[j].0 != state,
                None => forall|j: int|
                    0 <= j < self.transitions@.len() ==> self.transitions@[j].0 != state,
            },
    {
        let mut i: usize = 0;
        while i < self.transitions.len()
            invariant
                obeys_concrete_eq::<State>(),
                i <= self.transitions@.len(),
                forall|j: int| 0 <= j < i ==> self.transitions@[j].0 != state,
            decreases self.transitions@.len() - i,
        {
            if val_eq(self.transitions[i].0, state) {
                return Some(i);
            }
            i += 1;
        }
        None
    }

    /// Index of the timestamp entry for `event`, if one exists.
    fn find_event_index(&self, event: Event) -> (r: Option<usize>)
        requires
            obeys_concrete_eq::<Event>(),
        ensures
            match r {
                Some(i) => i < self.data.events@.len() && self.data.events@[i as int].0 == event
                    && forall|j: int| 0 <= j < i ==> self.data.events@[j].0 != event,
                None => forall|j: int|
                    0 <= j < self.data.events@.len() ==> self.data.events@[j].0 != event,
            },
    {
        let mut i: usize = 0;
        while i < self.data.events.len()
            invariant
                obeys_concrete_eq::<Event>(),
                i <= self.data.events@.len(),
                forall|j: int| 0 <= j < i ==> self.data.events@[j].0 != event,
            decreases self.data.events@.len() - i,
        {
            if val_eq(self.data.events[i].0, event) {
                return Some(i);
            }
            i += 1;
        }
        None
    }

    /// Register the handler for a state; a later registration for the same
    /// state replaces the earlier one.
    pub fn add_transition(&mut self, state: State, transition: H)
        requires
            old(self).wf(),
        ensures
            final(self).wf(),
            map_of(final(self).transitions@) == map_of(old(self).transitions@).insert(
                state,
                transition,
            ),
            spec_lookup(final(self).transitions@, state) == Some(transition),
            final(self).data == old(self).data,
            final(self).on_event_register == old(self).on_event_register,
            final(self).event_receiver == old(self).event_receiver,
            final(self).broadcast_sender == old(self).broadcast_sender,
    {
        let idx = self.find_transition_index(state);
        match idx {
            Some(i) => {
                let ghost before = self.transitions@;
                self.transitions.remove(i);
                self.transitions.insert(i, (state, transition));
                proof {
                    assert(self.transitions@ =~= before.update(i as int, (state, transition)));
                    lemma_map_of_update(before, i as int, transition);
                    assert(map_of(before.update(i as int, (before[i as int].0, transition)))
                        =~= map_of(before).insert(state, transition));
                    assert(map_of(self.transitions@) =~= map_of(old(self).transitions@).insert(
                        state,
                        transition,
                    ));
                    lemma_lookup_map_of(self.transitions@, state);
                    crate::kv::lemma_map_of_get(self.transitions@, i as int);
                }
            },
            None => {
                let ghost before = self.transitions@;
                self.transitions.push((state, transition));
                proof {
                    lemma_map_of_push(before, state, transition);
                    assert(map_of(self.transitions@) =~= map_of(old(self).transitions@).insert(
                        state,
                        transition,
                    ));
                    lemma_lookup_map_of(self.transitions@, state);
                    crate::kv::lemma_map_of_get(self.transitions@, before.len() as int);
                }
            },
        }
    }

    /// Install (or replace) the registration hook.
    pub fn add_on_register_callback(&mut self, callback: R)
        requires
            old(self).wf(),
        ensures
            final(self).wf(),
            final(self).on_event_register == Some(callback),
            final(self).data == old(self).data,
            final(self).transitions == old(self).transitions,
            final(self).event_receiver == old(self).event_receiver,
            final(self).broadcast_sender == old(self).broadcast_sender,
    {
        self.on_event_register = Some(callback);
    }

    /// A new, independent subscription to the state broadcast; it observes
    /// only states published from this moment on.
    pub fn subscribe(&self) -> (r: tokio::sync::broadcast::Receiver<State>) {
        crate::channel::state_subscribe(&self.broadcast_sender)
    }

    /// Record an accepted event: overwrite its last-seen timestamp and run the
    /// registration hook, if one is installed.
    pub fn register_event(&mut self, event: Event, now: u64)
        requires
            old(self).wf(),
        ensures
            final(self).wf(),
            final(self).data@ == registered_view(
                old(self).data@,
                old(self).on_event_register,
                event,
                now,
            ),
            final(self).transitions == old(self).transitions,
            final(self).on_event_register == old(self).on_event_register,
            final(self).event_receiver == old(self).event_receiver,
            final(self).broadcast_sender == old(self).broadcast_sender,
    {
        let idx = self.find_event_index(event);
        match idx {
            Some(i) => {
                let ghost before = self.data.events@;
                self.data.events.remove(i);
                self.data.events.insert(i, (event, now));
                proof {
                    assert(self.data.events@ =~= before.update(i as int, (event, now)));
                    lemma_map_of_update(before, i as int, now);
                    assert(map_of(self.data.events@) =~= map_of(before).insert(event, now));
                }
            },
            None => {
                let ghost before = self.data.events@;
                self.data.events.push((event, now));
                proof {
                    lemma_map_of_push(before, event, now);
                    assert(map_of(self.data.events@) =~= map_of(before).insert(event, now));
                }
            },
        }
        if let Some(cb) = &self.on_event_register {
            cb.on_register(event, &mut self.data);
        }
        proof {
            assert(self.data@ =~= registered_view(
                old(self).data@,
                old(self).on_event_register,
                event,
                now,
            ));
        }
    }

    /// Dispatch one event: with a handler registered for the current state,
    /// shift the current state into the previous one, let the handler compute
    /// the next state, and on a change invoke `enter` on the new state's
    /// handler; with none, leave everything as it is. Returns whether the
    /// state changed and whether `enter` ran.
    pub fn process_event(&mut self, event: Event) -> (r: (bool, bool))
        requires
            old(self).wf(),
        ensures
            final(self).wf(),
            final(self).data@ == dispatched_view(old(self).data@, old(self).transitions@, event),
            final(self).transitions == old(self).transitions,
            final(self).on_event_register == old(self).on_event_register,
            final(self).event_receiver == old(self).event_receiver,
            final(self).broadcast_sender == old(self).broadcast_sender,
            r.0 == step_changed(old(self).data@, old(self).transitions@, event),
            r.1 == step_entered(old(self).data@, old(self).transitions@, event),
    {
        let cur = self.data.state;
        let idx = self.find_transition_index(cur);
        match idx {
            None => {
                proof {
                    lemma_lookup_no_match(self.transitions@, cur);
                }
                (false, false)
            },
            Some(i) => {
                proof {
                    lemma_lookup_first_match(self.transitions@, cur, i as int);
                }
                self.data.prev_state = Some(cur);
                let nxt = self.transitions[i].1.next(event, &self.data);
                self.data.state = nxt;
                let changed = !val_eq(cur, nxt);
                let mut entered = false;
                if changed {
                    let jdx = self.find_transition_index(nxt);
                    match jdx {
                        Some(j) => {
                            proof {
                                lemma_lookup_first_match(self.transitions@, nxt, j as int);
                            }
                            self.transitions[j].1.enter(&self.data);
                            entered = true;
                        },
                        None => {
                            proof {
                                lemma_lookup_no_match(self.transitions@, nxt);
                            }
                        },
                    }
                }
                proof {
                    assert(self.data@ =~= dispatched_view(
                        old(self).data@,
                        old(self).transitions@,
                        event,
                    ));
                }
                (changed, entered)
            },
        }
    }

    /// Process one event completely: register it under the caller-supplied
    /// arrival time, dispatch it, and broadcast the current state to every
    /// subscriber — unconditionally, changed or not. Publishing with zero
    /// live subscriptions is a successful no-op.
    pub fn step(&mut self, event: Event, now: u64) -> (r: StepReport<State>)
        requires
            old(self).wf(),
        ensures
            final(self).wf(),
            final(self).data@ == step_view(
                old(self).data@,
                old(self).transitions@,
                old(self).on_event_register,
                event,
                now,
            ),
            final(self).transitions == old(self).transitions,
            final(self).on_event_register == old(self).on_event_register,
            r.published == final(self).data.state,
            r.changed == step_changed(
                registered_view(old(self).data@, old(self).on_event_register, event, now),
                old(self).transitions@,
                event,
            ),
            r.entered == step_entered(
                registered_view(old(self).data@, old(self).on_event_register, event, now),
                old(self).transitions@,
                event,
            ),
    {
        self.register_event(event, now);
        let (changed, entered) = self.process_event(event);
        let published = self.data.state;
        let _delivered = crate::channel::state_publish(&self.broadcast_sender, published);
        StepReport { published, changed, entered }
    }
}

/// The context after a whole run: the given events applied in order, one
/// `step` each, all with the same registry and hook.
pub open spec fn run_view<
    Event,
    State,
    UserData,
    H: Transition<Event, State, UserData>,
    R: RegistrationHook<Event, State, UserData>,
>(
    d: DataView<Event, State, UserData>,
    ts: Seq<(State, H)>,
    hook: Option<R>,
    inputs: Seq<(Event, u64)>,
) -> DataView<Event, State, UserData>
    decreases inputs.len(),
{
    if inputs.len() == 0 {
        d
    } else {
        run_view(
            step_view(d, ts, hook, inputs[0].0, inputs[0].1),
            ts,
            hook,
            inputs.drop_first(),
        )
    }
}

/// The states a subscription that never lags observes over a run: each step
/// publishes exactly the state it left current.
pub open spec fn observed_states<
    Event,
    State,
    UserData,
    H: Transition<Event, State, UserData>,
    R: RegistrationHook<Event, State, UserData>,
>(
    d: DataView<Event, State, UserData>,
    ts: Seq<(State, H)>,
    hook: Option<R>,
    inputs: Seq<(Event, u64)>,
) -> Seq<State>
    decreases inputs.len(),
{
    if inputs.len() == 0 {
        Seq::empty()
    } else {
        seq![step_view(d, ts, hook, inputs[0].0, inputs[0].1).state] + observed_states(
            step_view(d, ts, hook, inputs[0].0, inputs[0].1),
            ts,
            hook,
            inputs.drop_first(),
        )
    }
}

/// For every sequence of events, the sequence of states a never-lagging
/// subscription observes is exactly the one obtained by repeatedly stepping
/// the machine from its starting context: the i-th observed state is the
/// current state after the first i+1 events.
pub proof fn lemma_observed_states_are_run<
    Event,
    State,
    UserData,
    H: Transition<Event, State, UserData>,
    R: RegistrationHook<Event, State, UserData>,
>(
    d: DataView<Event, State, UserData>,
    ts: Seq<(State, H)>,
    hook: Option<R>,
    inputs: Seq<(Event, u64)>,
)
    ensures
        observed_states(d, ts, hook, inputs).len() == inputs.len(),
        forall|i: int|
            0 <= i < inputs.len() ==> observed_states(d, ts, hook, inputs)[i] == run_view(
                d,
                ts,
                hook,
                inputs.take(i + 1),
            ).state,
    decreases inputs.len(),
{
    if inputs.len() > 0 {
        let d1 = step_view(d, ts, hook, inputs[0].0, inputs[0].1);
        let rest = inputs.drop_first();
        lemma_observed_states_are_run(d1, ts, hook, rest);
        assert(inputs.take(1)[0] == inputs[0]);
        assert(inputs.take(1).drop_first() =~= Seq::<(Event, u64)>::empty());
        assert(run_view(d, ts, hook, inputs.take(1)) == run_view(
            d1,
            ts,
            hook,
            inputs.take(1).drop_first(),
        ));
        assert(run_view(d1, ts, hook, Seq::<(Event, u64)>::empty()) == d1);
        assert forall|i: int| 0 < i < inputs.len() implies observed_states(d, ts, hook, inputs)[i]
            == run_view(d, ts, hook, inputs.take(i + 1)).state by {
            let head = seq![d1.state];
            let tail = observed_states(d1, ts, hook, rest);
            assert(observed_states(d, ts, hook, inputs) == head + tail);
            assert((head + tail)[i] == tail[i - 1]);
            assert(inputs.take(i + 1)[0] == inputs[0]);
            assert(inputs.take(i + 1).drop_first() =~= rest.take(i));
            assert(run_view(d, ts, hook, inputs.take(i + 1)) == run_view(
                d1,
                ts,
                hook,
                rest.take(i),
            ));
        }
    }
}

/// Each step's resulting state comes from the registered handler of the state
/// that was current when the event was dispatched: it is that handler's
/// transition function applied to the event and the context; with no handler
/// registered, the state stays what it was — never an error, and the
/// unchanged state is still published.
pub proof fn lemma_step_state_is_handler_next<
    Event,
    State,
    UserData,
    H: Transition<Event, State, UserData>,
    R: RegistrationHook<Event, State, UserData>,
>(
    d: DataView<Event, State, UserData>,
    ts: Seq<(State, H)>,
    hook: Option<R>,
    event: Event,
    now: u64,
)
    ensures
        ({
            let b = registered_view(d, hook, event, now);
            match spec_lookup(ts, b.state) {
                Some(h) => step_view(d, ts, hook, event, now).state == h.next_spec(
                    event,
                    pre_dispatch_view(b),
                ),
                None => step_view(d, ts, hook, event, now).state == d.state,
            }
        }),
{
}

/// Idempotence of no-op transitions: when the handler returns the very state
/// it was given (or no handler is registered), the state is unchanged, the
/// dispatch counts as unchanged, and no `enter` hook runs — while `step`
/// still publishes the (unchanged) current state.
pub proof fn lemma_noop_transition_skips_enter<
    Event,
    State,
    UserData,
    H: Transition<Event, State, UserData>,
    R: RegistrationHook<Event, State, UserData>,
>(
    d: DataView<Event, State, UserData>,
    ts: Seq<(State, H)>,
    hook: Option<R>,
    event: Event,
    now: u64,
)
    requires
        ({
            let b = registered_view(d, hook, event, now);
            match spec_lookup(ts, b.state) {
                Some(h) => h.next_spec(event, pre_dispatch_view(b)) == b.state,
                None => true,
            }
        }),
    ensures
        step_view(d, ts, hook, event, now).state == d.state,
        !step_changed(registered_view(d, hook, event, now), ts, event),
        !step_entered(registered_view(d, hook, event, now), ts, event),
{
}

/// Every accepted event updates its own last-seen timestamp in the context's
/// event map, whatever the dispatch then does.
pub proof fn lemma_step_records_timestamp<
    Event,
    State,
    UserData,
    H: Transition<Event, State, UserData>,
    R: RegistrationHook<Event, State, UserData>,
>(
    d: DataView<Event, State, UserData>,
    ts: Seq<(State, H)>,
    hook: Option<R>,
    event: Event,
    now: u64,
)
    ensures
        step_view(d, ts, hook, event, now).events =~= d.events.insert(event, now),
        step_view(d, ts, hook, event, now).events[event] == now,
{
}

/// Sending the same event value twice overwrites its entry rather than
/// duplicating it: after the second step the event map is exactly the one a
/// single send at the later time would have produced.
pub proof fn lemma_same_event_overwrites<
    Event,
    State,
    UserData,
    H: Transition<Event, State, UserData>,
    R: RegistrationHook<Event, State, UserData>,
>(
    d: DataView<Event, State, UserData>,
    ts: Seq<(State, H)>,
    hook: Option<R>,
    event: Event,
    t1: u64,
    t2: u64,
)
    ensures
        step_view(step_view(d, ts, hook, event, t1), ts, hook, event, t2).events =~= d.events.insert(
            event,
            t2,
        ),
{
    lemma_step_records_timestamp(d, ts, hook, event, t1);
    lemma_step_records_timestamp(step_view(d, ts, hook, event, t1), ts, hook, event, t2);
}

} // verus!

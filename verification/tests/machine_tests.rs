use async_fsm::machine::{Data, DataView, RegistrationHook, StateMachine, Transition};

#[derive(Debug, Eq, PartialEq, Copy, Clone, Hash)]
pub enum State {
    Idle,
    State1,
    State2,
}

impl Default for State {
    fn default() -> Self {
        State::Idle
    }
}

#[derive(Debug, Copy, Clone, PartialEq, Eq, Hash)]
pub enum Event {
    Event1,
    Event2,
    Event3,
}

#[derive(Debug, Default)]
pub struct UserData {
    event_counter: u64,
}

#[derive(Copy, Clone)]
struct TestHandler;

impl Transition<Event, State, UserData> for TestHandler {
    // compiled form of the trait's specification item; never called at run time
    fn next_spec(&self, _event: Event, _data: DataView<Event, State, UserData>) -> State {
        State::Idle
    }

    fn next(&self, event: Event, data: &Data<Event, State, UserData>) -> State {
        match data.state {
            State::Idle => match event {
                Event::Event1 => State::State1,
                _ => data.state,
            },
            State::State1 => match event {
                Event::Event2 => State::State2,
                _ => data.state,
            },
            State::State2 => {
                if data.user_data.event_counter > 5 {
                    // too many events
                    State::Idle
                } else {
                    match event {
                        Event::Event3 => State::Idle,
                        _ => data.state,
                    }
                }
            }
        }
    }
}

struct CounterHook;

impl RegistrationHook<Event, State, UserData> for CounterHook {
    // compiled form of the trait's specification item; never called at run time
    fn on_register_spec(&self, _event: Event, _data: DataView<Event, State, UserData>) -> UserData {
        UserData { event_counter: 0 }
    }

    fn on_register(&self, _event: Event, data: &mut Data<Event, State, UserData>) {
        data.user_data.event_counter = data.user_data.event_counter + 1;
    }
}

type Machine = StateMachine<Event, State, UserData, TestHandler, CounterHook>;

fn create_machine(size: usize) -> (Machine, tokio::sync::mpsc::Sender<Event>) {
    let (mut stm, sender) = Machine::new(size);
    stm.add_transition(State::Idle, TestHandler);
    stm.add_transition(State::State1, TestHandler);
    stm.add_transition(State::State2, TestHandler);
    stm.add_on_register_callback(CounterHook);
    (stm, sender)
}

fn run_machine(
    stm: Machine,
) -> (
    tokio::task::JoinHandle<()>,
    tokio::sync::broadcast::Receiver<State>,
) {
    let mut stm = stm;
    let states = stm.subscribe();
    let task = tokio::spawn(async move {
        while let Some(event) = stm.event_receiver.recv().await {
            stm.step(event, 0);
        }
    });
    (task, states)
}

#[test]
fn given_idle_state_when_event1_occur_then_state_change_to_state1() {
    let rt = tokio::runtime::Runtime::new().unwrap();
    rt.block_on(async {
        let (stm, sender) = create_machine(100);
        let (task, mut states) = run_machine(stm);

        // when
        let _ = sender.send(Event::Event1).await;

        // then
        assert_eq!(states.recv().await.unwrap(), State::State1);

        task.abort();
    });
}

#[test]
fn given_idle_state_when_event2_occur_then_state_remain_the_same() {
    let rt = tokio::runtime::Runtime::new().unwrap();
    rt.block_on(async {
        let (stm, sender) = create_machine(100);
        let (task, mut states) = run_machine(stm);

        // when
        // Event is not handled in Idle state
        let _ = sender.send(Event::Event2).await;

        // then
        assert_eq!(states.recv().await.unwrap(), State::Idle);

        task.abort();
    });
}

#[test]
fn given_state1_when_event3_occur_then_state_return_to_idle() {
    let rt = tokio::runtime::Runtime::new().unwrap();
    rt.block_on(async {
        let (stm, sender) = create_machine(100);
        let (task, mut states) = run_machine(stm);

        // given
        let _ = sender.send(Event::Event1).await;
        assert_eq!(states.recv().await.unwrap(), State::State1);
        let _ = sender.send(Event::Event2).await;
        assert_eq!(states.recv().await.unwrap(), State::State2);

        // when
        let _ = sender.send(Event::Event3).await;

        // then
        assert_eq!(states.recv().await.unwrap(), State::Idle);

        task.abort();
    });
}

#[test]
fn given_state2_when_events_counter_exceeded_then_state_return_to_idle() {
    let rt = tokio::runtime::Runtime::new().unwrap();
    rt.block_on(async {
        let (stm, sender) = create_machine(100);
        let (task, mut states) = run_machine(stm);

        // given
        let _ = sender.send(Event::Event1).await;
        assert_eq!(states.recv().await.unwrap(), State::State1);
        let _ = sender.send(Event::Event2).await;
        assert_eq!(states.recv().await.unwrap(), State::State2);

        // when
        for _ in 0..3 {
            let _ = sender.send(Event::Event1).await;
            assert_eq!(states.recv().await.unwrap(), State::State2);
        }
        let _ = sender.send(Event::Event1).await;

        // then
        // after the 5th event the state should get back to Idle.
        assert_eq!(states.recv().await.unwrap(), State::Idle);

        task.abort();
    });
}

#[test]
fn late_subscription_sees_only_later_states() {
    let (mut stm, _sender) = create_machine(100);
    let mut early = stm.subscribe();
    stm.step(Event::Event1, 0); // Idle -> State1
    let mut late = stm.subscribe();
    stm.step(Event::Event2, 0); // State1 -> State2
    assert_eq!(early.try_recv().unwrap(), State::State1);
    assert_eq!(early.try_recv().unwrap(), State::State2);
    // the late subscription gets no backfill of State1
    assert_eq!(late.try_recv().unwrap(), State::State2);
    assert!(late.try_recv().is_err());
}

#[test]
fn capacity_one_makes_second_send_wait() {
    let (mut stm, sender) = create_machine(1);
    // the first event fills the queue; a second send would suspend, which
    // try_send reports as the queue being full
    sender.try_send(Event::Event1).unwrap();
    assert!(sender.try_send(Event::Event2).is_err());
    // draining one event frees the capacity
    let event = stm.event_receiver.try_recv().unwrap();
    stm.step(event, 0);
    sender.try_send(Event::Event2).unwrap();
}

#[test]
fn noop_transition_broadcasts_but_skips_enter() {
    let (mut stm, _sender) = create_machine(100);
    let mut states = stm.subscribe();
    // Event3 is a self-loop in Idle: the handler returns the state unchanged
    let report = stm.step(Event::Event3, 0);
    assert!(!report.changed);
    assert!(!report.entered);
    assert_eq!(report.published, State::Idle);
    assert_eq!(states.try_recv().unwrap(), State::Idle);
}

#[test]
fn changing_transition_reports_enter() {
    let (mut stm, _sender) = create_machine(100);
    let report = stm.step(Event::Event1, 0);
    assert!(report.changed);
    assert!(report.entered);
    assert_eq!(report.published, State::State1);
    assert_eq!(stm.data.prev_state, Some(State::Idle));
    assert_eq!(stm.data.state, State::State1);
}

#[test]
fn unregistered_state_still_broadcasts_unchanged() {
    // no handlers at all: dispatching is a no-op, never an error
    let (mut stm, _sender) = Machine::new(16);
    let mut states = stm.subscribe();
    let report = stm.step(Event::Event1, 0);
    assert!(!report.changed);
    assert!(!report.entered);
    assert_eq!(report.published, State::Idle);
    assert_eq!(states.try_recv().unwrap(), State::Idle);
    assert_eq!(stm.data.prev_state, None);
}

#[test]
fn publishing_without_subscribers_succeeds() {
    let (mut stm, _sender) = create_machine(100);
    // no subscription exists; the broadcast must be a harmless no-op
    let report = stm.step(Event::Event1, 0);
    assert_eq!(report.published, State::State1);
    assert_eq!(stm.data.state, State::State1);
}

#[test]
fn lagged_subscription_reports_missed_values() {
    // broadcast queue of one value: the second publish evicts the first
    let (mut stm, _sender) = create_machine(1);
    let mut sub = stm.subscribe();
    stm.step(Event::Event1, 0); // publishes State1
    stm.step(Event::Event2, 0); // publishes State2, sub now lags by one
    assert!(matches!(
        sub.try_recv(),
        Err(tokio::sync::broadcast::error::TryRecvError::Lagged(1))
    ));
    // after the lag report the subscriber resynchronizes on the latest state
    assert_eq!(sub.try_recv().unwrap(), State::State2);
}

#[test]
fn sending_after_machine_drop_reports_closed() {
    let (stm, sender) = create_machine(4);
    drop(stm);
    assert!(matches!(
        sender.try_send(Event::Event1),
        Err(tokio::sync::mpsc::error::TrySendError::Closed(Event::Event1))
    ));
}

#[test]
fn event_timestamps_overwrite_not_duplicate() {
    let (mut stm, _sender) = create_machine(100);
    stm.step(Event::Event2, 10);
    stm.step(Event::Event3, 20);
    stm.step(Event::Event2, 30);
    // two distinct events were seen, each with one entry
    assert_eq!(stm.data.events.len(), 2);
    let mut seen2 = None;
    let mut seen3 = None;
    for (event, at) in &stm.data.events {
        if *event == Event::Event2 {
            seen2 = Some(*at);
        }
        if *event == Event::Event3 {
            seen3 = Some(*at);
        }
    }
    assert_eq!(seen2, Some(30));
    assert_eq!(seen3, Some(20));
}

#[test]
fn with_initial_starts_where_told() {
    let (mut stm, _sender) =
        StateMachine::<Event, State, UserData, TestHandler, CounterHook>::with_initial(
            8,
            State::State1,
            UserData { event_counter: 2 },
        );
    stm.add_transition(State::State1, TestHandler);
    assert_eq!(stm.data.state, State::State1);
    assert_eq!(stm.data.user_data.event_counter, 2);
    let report = stm.step(Event::Event2, 0);
    assert_eq!(report.published, State::State2);
}

#[test]
fn registration_hook_counts_every_event() {
    let (mut stm, _sender) = create_machine(100);
    stm.step(Event::Event1, 0);
    stm.step(Event::Event1, 1);
    stm.step(Event::Event2, 2);
    assert_eq!(stm.data.user_data.event_counter, 3);
}

#[derive(Copy, Clone)]
struct AlwaysState2;

impl Transition<Event, State, UserData> for AlwaysState2 {
    // compiled form of the trait's specification item; never called at run time
    fn next_spec(&self, _event: Event, _data: DataView<Event, State, UserData>) -> State {
        State::State2
    }

    fn next(&self, _event: Event, _data: &Data<Event, State, UserData>) -> State {
        State::State2
    }
}

#[test]
fn replacing_a_handler_takes_the_last_registration() {
    let (mut stm, _sender) =
        StateMachine::<Event, State, UserData, AlwaysState2, CounterHook>::new(8);
    stm.add_transition(State::Idle, AlwaysState2);
    stm.add_transition(State::Idle, AlwaysState2);
    let report = stm.step(Event::Event3, 0);
    assert_eq!(report.published, State::State2);
}

use async_fsm::render::{get_build_descriptor, get_main};
use async_fsm::uml::Uml;

#[test]
fn scaffold_substitutes_every_collection() {
    let mut uml = Uml::default();
    uml.parse_line("[*] --> Idle");
    uml.parse_line("Idle --> State1 : Event1");
    uml.parse_line("State1 --> Idle : Event2");
    let text = get_main(&uml.events, &uml.states, &uml.transitions);
    assert!(text.contains("    Idle,\n    State1,\n"));
    assert!(text.contains("    Event1,\n    Event2,\n"));
    assert!(text.contains("            (State::Idle, Event::Event1) => State::State1,\n"));
    assert!(text.contains("            (State::State1, Event::Event2) => State::Idle,\n"));
    assert!(text.contains("        stm.add_transition(State::Idle, TableHandler);\n"));
    assert!(text.contains("        stm.add_transition(State::State1, TableHandler);\n"));
    assert!(text.contains("pub enum State {"));
    assert!(text.contains("pub enum Event {"));
    assert!(text.contains("impl Transition<Event, State, UserData> for TableHandler"));
    assert!(text.contains("while let Some(event) = stm.event_receiver.recv().await"));
}

#[test]
fn scaffold_for_one_transition_is_exactly_the_template() {
    let mut uml = Uml::default();
    uml.parse_line("A --> B : go");
    let text = get_main(&uml.events, &uml.states, &uml.transitions);
    let mut expected = String::new();
    expected.push_str("use async_fsm::machine::{Data, DataView, RegistrationHook, StateMachine, Transition};\n\n#[derive(Default, Debug, Eq, PartialEq, Copy, Clone, Hash)]\npub enum State {\n    #[default]\n");
    expected.push_str("    A,\n    B,\n");
    expected.push_str("}\n\n#[derive(Debug, Copy, Clone, PartialEq, Eq, Hash)]\npub enum Event {\n");
    expected.push_str("    go,\n");
    expected.push_str("}\n\n#[derive(Debug, Default)]\npub struct UserData {}\n\n#[derive(Copy, Clone)]\npub struct TableHandler;\n\nimpl Transition<Event, State, UserData> for TableHandler {\n    fn next_spec(&self, _event: Event, data: DataView<Event, State, UserData>) -> State {\n        data.state\n    }\n\n    fn next(&self, event: Event, data: &Data<Event, State, UserData>) -> State {\n        match (data.state, event) {\n");
    expected.push_str("            (State::A, Event::go) => State::B,\n");
    expected.push_str("            _ => data.state,\n        }\n    }\n}\n\npub struct Hook;\n\nimpl RegistrationHook<Event, State, UserData> for Hook {\n    fn on_register_spec(&self, _event: Event, data: DataView<Event, State, UserData>) -> UserData {\n        data.user_data\n    }\n\n    fn on_register(&self, _event: Event, _data: &mut Data<Event, State, UserData>) {}\n}\n\nfn main() {\n    let rt = tokio::runtime::Runtime::new().unwrap();\n    rt.block_on(async {\n        let (mut stm, event_sender) = StateMachine::<Event, State, UserData, TableHandler, Hook>::new(100);\n        let mut states = stm.subscribe();\n");
    expected.push_str("        stm.add_transition(State::A, TableHandler);\n        stm.add_transition(State::B, TableHandler);\n");
    expected.push_str("        let run = tokio::spawn(async move {\n            while let Some(event) = stm.event_receiver.recv().await {\n                let now = std::time::UNIX_EPOCH.elapsed().map(|d| d.as_millis() as u64).unwrap_or(0);\n                stm.step(event, now);\n            }\n        });\n        let printer = tokio::spawn(async move {\n            while let Ok(state) = states.recv().await {\n                println!(\"state: {state:?}\");\n            }\n        });\n        drop(event_sender);\n        let _ = run.await;\n        let _ = printer.await;\n    });\n}\n");
    assert_eq!(text, expected);
}

#[test]
fn empty_collections_render_no_rows() {
    let text = get_main(&Vec::new(), &Vec::new(), &Vec::new());
    assert!(!text.contains("=> State::"));
    assert!(!text.contains("add_transition(State::"));
    assert!(text.contains("pub enum State {\n    #[default]\n}\n"));
    assert!(text.contains("pub enum Event {\n}\n"));
}

#[test]
fn build_descriptor_is_exact() {
    let text = get_build_descriptor();
    assert_eq!(
        text,
        "[package]\nname = \"generated_fsm\"\nversion = \"0.1.0\"\nedition = \"2021\"\n\n[dependencies]\nasync_fsm = \"*\"\ntokio = { version = \"*\", features = [\"sync\", \"rt\", \"rt-multi-thread\"] }\n"
    );
}

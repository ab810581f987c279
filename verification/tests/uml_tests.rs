use async_fsm::uml::Uml;

fn strings(items: &[&str]) -> Vec<String> {
    items.iter().map(|s| s.to_string()).collect()
}

#[test]
fn transition_line_records_states_event_and_transition() {
    let mut uml = Uml::default();
    uml.parse_line("Idle --> State1 : Event1");
    assert_eq!(uml.states, strings(&["Idle", "State1"]));
    assert_eq!(uml.events, strings(&["Event1"]));
    assert_eq!(uml.transitions.len(), 1);
    assert_eq!(uml.transitions[0].0, "Idle".to_string());
    assert_eq!(
        uml.transitions[0].1,
        vec![("Event1".to_string(), "State1".to_string())]
    );
}

#[test]
fn compact_transition_line_parses_without_spaces() {
    let mut uml = Uml::default();
    uml.parse_line("A-->B:ev");
    assert_eq!(uml.states, strings(&["A", "B"]));
    assert_eq!(uml.events, strings(&["ev"]));
    assert_eq!(uml.transitions[0].0, "A".to_string());
    assert_eq!(
        uml.transitions[0].1,
        vec![("ev".to_string(), "B".to_string())]
    );
}

#[test]
fn start_point_line_records_the_state() {
    let mut uml = Uml::default();
    uml.parse_line("[*] --> Idle");
    assert_eq!(uml.states, strings(&["Idle"]));
    assert_eq!(uml.events.len(), 0);
    assert_eq!(uml.transitions.len(), 0);
}

#[test]
fn end_point_line_records_the_state() {
    let mut uml = Uml::default();
    uml.parse_line("Done --> [*]");
    assert_eq!(uml.states, strings(&["Done"]));
    assert_eq!(uml.events.len(), 0);
    assert_eq!(uml.transitions.len(), 0);
}

#[test]
fn unrecognized_lines_add_nothing() {
    let mut uml = Uml::default();
    uml.parse_line("@startuml");
    uml.parse_line("");
    uml.parse_line("some note without an arrow");
    uml.parse_line("A --> B");
    assert_eq!(uml.states.len(), 0);
    assert_eq!(uml.events.len(), 0);
    assert_eq!(uml.transitions.len(), 0);
}

#[test]
fn names_are_recorded_once() {
    let mut uml = Uml::default();
    let a = "Idle".to_string();
    uml.add_state(&a);
    uml.add_state(&a);
    assert_eq!(uml.states, strings(&["Idle"]));
}

#[test]
fn transitions_group_under_their_source_state() {
    let mut uml = Uml::default();
    let from = "Idle".to_string();
    let e1 = "E1".to_string();
    let e2 = "E2".to_string();
    let s1 = "State1".to_string();
    let s2 = "State2".to_string();
    uml.add_transition(&from, &e1, &s1);
    uml.add_transition(&from, &e2, &s2);
    uml.add_transition(&s1, &e1, &from);
    assert_eq!(uml.transitions.len(), 2);
    assert_eq!(
        uml.transitions[0].1,
        vec![
            ("E1".to_string(), "State1".to_string()),
            ("E2".to_string(), "State2".to_string())
        ]
    );
    assert_eq!(
        uml.transitions[1].1,
        vec![("E1".to_string(), "Idle".to_string())]
    );
}

#[test]
fn parse_collects_a_whole_diagram() {
    let mut uml = Uml::default();
    let lines = strings(&[
        "@startuml",
        "[*] --> Idle",
        "Idle --> State1 : Event1",
        "State1 --> State2 : Event2",
        "State2 --> Idle : Event3",
        "State2 --> [*]",
        "@enduml",
    ]);
    uml.parse(&lines);
    assert_eq!(uml.states, strings(&["Idle", "State1", "State2"]));
    assert_eq!(uml.events, strings(&["Event1", "Event2", "Event3"]));
    assert_eq!(uml.transitions.len(), 3);
    assert_eq!(
        uml.transitions[0].1,
        vec![("Event1".to_string(), "State1".to_string())]
    );
}

#[test]
fn dashes_of_any_length_make_an_arrow() {
    let mut uml = Uml::default();
    uml.parse_line("A ---> B : go");
    assert_eq!(uml.states, strings(&["A", "B"]));
    assert_eq!(uml.events, strings(&["go"]));
}

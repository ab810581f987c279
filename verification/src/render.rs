//! Scaffold generator: renders the facts extracted from a state diagram into
//! the source text of a program wired to this engine, plus a minimal build
//! descriptor. Pure template substitution: fixed text around the state,
//! event and transition names, in their recorded order.

use vstd::prelude::*;

verus! {

/// The names a list of strings denotes.
pub open spec fn names_view(v: Seq<String>) -> Seq<Seq<char>> {
    v.map_values(|s: String| s@)
}

/// The table a transition list denotes.
pub open spec fn table_view(v: Seq<(String, Vec<(String, String)>)>) -> Seq<
    (Seq<char>, Seq<(Seq<char>, Seq<char>)>),
> {
    v.map_values(
        |p: (String, Vec<(String, String)>)|
            (p.0@, p.1@.map_values(|q: (String, String)| (q.0@, q.1@))),
    )
}

/// One rendered row per item, in order.
pub open spec fn render_list<T>(items: Seq<T>, row: spec_fn(T) -> Seq<char>) -> Seq<char>
    decreases items.len(),
{
    if items.len() == 0 {
        Seq::empty()
    } else {
        row(items[0]) + render_list(items.drop_first(), row)
    }
}

/// Rendering one more item appends its row.
pub proof fn lemma_render_list_snoc<T>(items: Seq<T>, row: spec_fn(T) -> Seq<char>, i: int)
    requires
        0 <= i < items.len(),
    ensures
        render_list(items.take(i + 1), row) == render_list(items.take(i), row) + row(items[i]),
    decreases i,
{
    let t = items.drop_first();
    if i == 0 {
        assert(items.take(1)[0] == items[0]);
        assert(items.take(1).drop_first() =~= Seq::<T>::empty());
        assert(render_list(Seq::<T>::empty(), row) == Seq::<char>::empty());
        assert(render_list(items.take(1), row) == row(items[0]) + Seq::<char>::empty());
        assert(row(items[0]) + Seq::<char>::empty() =~= row(items[0]));
        assert(render_list(items.take(0), row) + row(items[0]) =~= row(items[0]));
    } else {
        lemma_render_list_snoc(t, row, i - 1);
        assert(items.take(i + 1)[0] == items[0]);
        assert(items.take(i + 1).drop_first() =~= t.take(i));
        assert(items.take(i)[0] == items[0]);
        assert(items.take(i).drop_first() =~= t.take(i - 1));
        assert(t[i - 1] == items[i]);
        assert(render_list(items.take(i + 1), row) == row(items[0]) + (render_list(
            t.take(i - 1),
            row,
        ) + row(items[i])));
        assert(row(items[0]) + (render_list(t.take(i - 1), row) + row(items[i])) =~= (row(items[0])
            + render_list(t.take(i - 1), row)) + row(items[i]));
    }
}

/// A state-enumeration row.
pub open spec fn state_row() -> spec_fn(Seq<char>) -> Seq<char> {
    |n: Seq<char>| "    "@ + n + ",\n"@
}

/// An event-enumeration row.
pub open spec fn event_row() -> spec_fn(Seq<char>) -> Seq<char> {
    |n: Seq<char>| "    "@ + n + ",\n"@
}

/// One match arm of the transition table, for a fixed source state.
pub open spec fn arm_row(from: Seq<char>) -> spec_fn((Seq<char>, Seq<char>)) -> Seq<char> {
    |q: (Seq<char>, Seq<char>)|
        "            (State::"@ + from + ", Event::"@ + q.0 + ") => State::"@ + q.1 + ",\n"@
}

/// All match arms of one source state's transition list.
pub open spec fn entry_row() -> spec_fn((Seq<char>, Seq<(Seq<char>, Seq<char>)>)) -> Seq<char> {
    |p: (Seq<char>, Seq<(Seq<char>, Seq<char>)>)| render_list(p.1, arm_row(p.0))
}

/// A handler-registration row.
pub open spec fn registration_row() -> spec_fn(Seq<char>) -> Seq<char> {
    |n: Seq<char>| "        stm.add_transition(State::"@ + n + ", TableHandler);\n"@
}

/// The complete scaffold source: fixed text with the state variants, event
/// variants, transition arms and handler registrations substituted in.
pub open spec fn render_main(
    events: Seq<Seq<char>>,
    states: Seq<Seq<char>>,
    transitions: Seq<(Seq<char>, Seq<(Seq<char>, Seq<char>)>)>,
) -> Seq<char> {
    scaffold_head()@ + render_list(states, state_row()) + scaffold_events_head()@ + render_list(
        events,
        event_row(),
    ) + scaffold_handler_head()@ + render_list(transitions, entry_row()) + scaffold_main_head()@
        + render_list(states, registration_row()) + scaffold_tail()@
}

/// Fixed text up to the state variants.
pub open spec fn scaffold_head() -> &'static str {
    "use async_fsm::machine::{Data, DataView, RegistrationHook, StateMachine, Transition};\n\n#[derive(Default, Debug, Eq, PartialEq, Copy, Clone, Hash)]\npub enum State {\n    #[default]\n"
}

/// Fixed text between the state and event variants.
pub open spec fn scaffold_events_head() -> &'static str {
    "}\n\n#[derive(Debug, Copy, Clone, PartialEq, Eq, Hash)]\npub enum Event {\n"
}

/// Fixed text introducing the table-driven handler.
pub open spec fn scaffold_handler_head() -> &'static str {
    "}\n\n#[derive(Debug, Default)]\npub struct UserData {}\n\n#[derive(Copy, Clone)]\npub struct TableHandler;\n\nimpl Transition<Event, State, UserData> for TableHandler {\n    fn next_spec(&self, _event: Event, data: DataView<Event, State, UserData>) -> State {\n        data.state\n    }\n\n    fn next(&self, event: Event, data: &Data<Event, State, UserData>) -> State {\n        match (data.state, event) {\n"
}

/// Fixed text from the handler's default arm up to the registrations.
pub open spec fn scaffold_main_head() -> &'static str {
    "            _ => data.state,\n        }\n    }\n}\n\npub struct Hook;\n\nimpl RegistrationHook<Event, State, UserData> for Hook {\n    fn on_register_spec(&self, _event: Event, data: DataView<Event, State, UserData>) -> UserData {\n        data.user_data\n    }\n\n    fn on_register(&self, _event: Event, _data: &mut Data<Event, State, UserData>) {}\n}\n\nfn main() {\n    let rt = tokio::runtime::Runtime::new().unwrap();\n    rt.block_on(async {\n        let (mut stm, event_sender) = StateMachine::<Event, State, UserData, TableHandler, Hook>::new(100);\n        let mut states = stm.subscribe();\n"
}

/// Fixed closing text: spawn the dispatch loop and observe the states.
pub open spec fn scaffold_tail() -> &'static str {
    "        let run = tokio::spawn(async move {\n            while let Some(event) = stm.event_receiver.recv().await {\n                let now = std::time::UNIX_EPOCH.elapsed().map(|d| d.as_millis() as u64).unwrap_or(0);\n                stm.step(event, now);\n            }\n        });\n        let printer = tokio::spawn(async move {\n            while let Ok(state) = states.recv().await {\n                println!(\"state: {state:?}\");\n            }\n        });\n        drop(event_sender);\n        let _ = run.await;\n        let _ = printer.await;\n    });\n}\n"
}

fn push_names(out: &mut String, names: &Vec<String>, registrations: bool)
    ensures
        final(out)@ == old(out)@ + render_list(
            names_view(names@),
            if registrations {
                registration_row()
            } else {
                state_row()
            },
        ),
{
    let ghost row = if registrations {
        registration_row()
    } else {
        state_row()
    };
    let ghost nv = names_view(names@);
    let n = names.len();
    let mut i: usize = 0;
    proof {
        assert(nv.take(0) =~= Seq::<Seq<char>>::empty());
        assert(old(out)@ + render_list(nv.take(0), row) =~= old(out)@);
    }
    while i < n
        invariant
            n == names@.len(),
            i <= n,
            nv == names_view(names@),
            row == (if registrations {
                registration_row()
            } else {
                state_row()
            }),
            out@ == old(out)@ + render_list(nv.take(i as int), row),
        decreases n - i,
    {
        if registrations {
            out.append("        stm.add_transition(State::");
            out.append(names[i].as_str());
            out.append(", TableHandler);\n");
        } else {
            out.append("    ");
            out.append(names[i].as_str());
            out.append(",\n");
        }
        proof {
            lemma_render_list_snoc(nv, row, i as int);
            assert(nv[i as int] == names@[i as int]@);
            assert(row(nv[i as int]) == (if registrations {
                "        stm.add_transition(State::"@ + nv[i as int] + ", TableHandler);\n"@
            } else {
                "    "@ + nv[i as int] + ",\n"@
            }));
            assert(out@ =~= old(out)@ + render_list(nv.take(i as int + 1), row));
        }
        i += 1;
    }
    proof {
        assert(nv.take(n as int) =~= nv);
    }
}

fn push_arms(out: &mut String, transitions: &Vec<(String, Vec<(String, String)>)>)
    ensures
        final(out)@ == old(out)@ + render_list(table_view(transitions@), entry_row()),
{
    let ghost tv = table_view(transitions@);
    let n = transitions.len();
    let mut i: usize = 0;
    proof {
        assert(tv.take(0) =~= Seq::<(Seq<char>, Seq<(Seq<char>, Seq<char>)>)>::empty());
        assert(old(out)@ + render_list(tv.take(0), entry_row()) =~= old(out)@);
    }
    while i < n
        invariant
            n == transitions@.len(),
            i <= n,
            tv == table_view(transitions@),
            out@ == old(out)@ + render_list(tv.take(i as int), entry_row()),
        decreases n - i,
    {
        let ghost from = tv[i as int].0;
        let ghost pairs = tv[i as int].1;
        let ghost pre = out@;
        let m = transitions[i].1.len();
        let mut j: usize = 0;
        proof {
            assert(pairs.take(0) =~= Seq::<(Seq<char>, Seq<char>)>::empty());
            assert(pre + render_list(pairs.take(0), arm_row(from)) =~= pre);
        }
        while j < m
            invariant
                i < transitions@.len(),
                m == transitions@[i as int].1@.len(),
                j <= m,
                tv == table_view(transitions@),
                from == tv[i as int].0,
                pairs == tv[i as int].1,
                out@ == pre + render_list(pairs.take(j as int), arm_row(from)),
            decreases m - j,
        {
            out.append("            (State::");
            out.append(transitions[i].0.as_str());
            out.append(", Event::");
            out.append(transitions[i].1[j].0.as_str());
            out.append(") => State::");
            out.append(transitions[i].1[j].1.as_str());
            out.append(",\n");
            proof {
                lemma_render_list_snoc(pairs, arm_row(from), j as int);
                assert(pairs[j as int] == (
                    transitions@[i as int].1@[j as int].0@,
                    transitions@[i as int].1@[j as int].1@,
                ));
                assert(arm_row(from)(pairs[j as int]) == "            (State::"@ + from
                    + ", Event::"@ + pairs[j as int].0 + ") => State::"@ + pairs[j as int].1
                    + ",\n"@);
                assert(out@ =~= pre + render_list(pairs.take(j as int + 1), arm_row(from)));
            }
            j += 1;
        }
        proof {
            assert(pairs.take(m as int) =~= pairs);
            lemma_render_list_snoc(tv, entry_row(), i as int);
            assert(entry_row()(tv[i as int]) == render_list(pairs, arm_row(from)));
            assert(out@ =~= old(out)@ + render_list(tv.take(i as int + 1), entry_row()));
        }
        i += 1;
    }
    proof {
        assert(tv.take(n as int) =~= tv);
    }
}

/// Render the scaffold program for the given events, states and transitions.
pub fn get_main(
    events: &Vec<String>,
    states: &Vec<String>,
    transitions: &Vec<(String, Vec<(String, String)>)>,
) -> (r: String)
    ensures
        r@ == render_main(names_view(events@), names_view(states@), table_view(transitions@)),
{
    let mut out = String::new();
    out.append(
        "use async_fsm::machine::{Data, DataView, RegistrationHook, StateMachine, Transition};\n\n#[derive(Default, Debug, Eq, PartialEq, Copy, Clone, Hash)]\npub enum State {\n    #[default]\n",
    );
    push_names(&mut out, states, false);
    out.append("}\n\n#[derive(Debug, Copy, Clone, PartialEq, Eq, Hash)]\npub enum Event {\n");
    push_names(&mut out, events, false);
    out.append(
        "}\n\n#[derive(Debug, Default)]\npub struct UserData {}\n\n#[derive(Copy, Clone)]\npub struct TableHandler;\n\nimpl Transition<Event, State, UserData> for TableHandler {\n    fn next_spec(&self, _event: Event, data: DataView<Event, State, UserData>) -> State {\n        data.state\n    }\n\n    fn next(&self, event: Event, data: &Data<Event, State, UserData>) -> State {\n        match (data.state, event) {\n",
    );
    push_arms(&mut out, transitions);
    out.append(
        "            _ => data.state,\n        }\n    }\n}\n\npub struct Hook;\n\nimpl RegistrationHook<Event, State, UserData> for Hook {\n    fn on_register_spec(&self, _event: Event, data: DataView<Event, State, UserData>) -> UserData {\n        data.user_data\n    }\n\n    fn on_register(&self, _event: Event, _data: &mut Data<Event, State, UserData>) {}\n}\n\nfn main() {\n    let rt = tokio::runtime::Runtime::new().unwrap();\n    rt.block_on(async {\n        let (mut stm, event_sender) = StateMachine::<Event, State, UserData, TableHandler, Hook>::new(100);\n        let mut states = stm.subscribe();\n",
    );
    push_names(&mut out, states, true);
    out.append(
        "        let run = tokio::spawn(async move {\n            while let Some(event) = stm.event_receiver.recv().await {\n                let now = std::time::UNIX_EPOCH.elapsed().map(|d| d.as_millis() as u64).unwrap_or(0);\n                stm.step(event, now);\n            }\n        });\n        let printer = tokio::spawn(async move {\n            while let Ok(state) = states.recv().await {\n                println!(\"state: {state:?}\");\n            }\n        });\n        drop(event_sender);\n        let _ = run.await;\n        let _ = printer.await;\n    });\n}\n",
    );
    proof {
        assert(out@ =~= render_main(
            names_view(events@),
            names_view(states@),
            table_view(transitions@),
        ));
    }
    out
}

/// The build descriptor accompanying the generated program.
pub open spec fn descriptor_text() -> &'static str {
    "[package]\nname = \"generated_fsm\"\nversion = \"0.1.0\"\nedition = \"2021\"\n\n[dependencies]\nasync_fsm = \"*\"\ntokio = { version = \"*\", features = [\"sync\", \"rt\", \"rt-multi-thread\"] }\n"
}

/// The build descriptor for the generated program.
pub fn get_build_descriptor() -> (r: String)
    ensures
        r@ == descriptor_text()@,
{
    let mut out = String::new();
    out.append(
        "[package]\nname = \"generated_fsm\"\nversion = \"0.1.0\"\nedition = \"2021\"\n\n[dependencies]\nasync_fsm = \"*\"\ntokio = { version = \"*\", features = [\"sync\", \"rt\", \"rt-multi-thread\"] }\n",
    );
    proof {
        assert(out@ =~= descriptor_text()@);
    }
    out
}

} // verus!

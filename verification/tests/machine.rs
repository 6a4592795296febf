use browser_agent::convo::Brain;
use browser_agent::events::AgentEvent;
use browser_agent::events::EventBus;
use browser_agent::executor::make_extraction;
use browser_agent::intake::AgentLoop;
use browser_agent::intake::CommandIntake;
use browser_agent::session::Directive;
use browser_agent::session::TaskSession;
use browser_agent::types::Extraction;
use browser_agent::types::PageState;
use browser_agent::types::Step;
use browser_agent::types::MAX_STEPS_PER_TASK;

fn page(error: Option<&str>, extracted: Vec<Extraction>) -> PageState {
    PageState {
        url: "https://example.com/".to_string(),
        title: "Example".to_string(),
        dom_snapshot: "[e0] input type=text placeholder=\"\"".to_string(),
        extracted,
        error: error.map(|e| e.to_string()),
    }
}

fn kind_of(e: &AgentEvent) -> &'static str {
    match e {
        AgentEvent::Step { .. } => "step",
        AgentEvent::StepError { .. } => "step_error",
        AgentEvent::TaskComplete { .. } => "task_complete",
        AgentEvent::TaskError { .. } => "task_error",
        AgentEvent::Thinking => "thinking",
        AgentEvent::Ready => "ready",
    }
}

#[test]
fn intake_is_single_slot() {
    let mut q = CommandIntake::new();
    assert!(!q.is_occupied());
    assert!(q.offer("first".to_string()));
    assert!(q.is_occupied());
    assert!(!q.offer("second".to_string()));
    assert_eq!(q.take(), Some("first".to_string()));
    assert_eq!(q.take(), None);
    assert!(q.offer("second".to_string()));
    assert_eq!(q.take(), Some("second".to_string()));
}

#[test]
fn loop_admits_no_second_task_while_active() {
    let mut agent = AgentLoop::new(MAX_STEPS_PER_TASK);
    assert!(agent.submit("task one".to_string()));
    let started = agent.tick();
    assert!(matches!(started, Some((ref c, Directive::OpenTab)) if c == "task one"));

    // One command may queue while the session runs (capacity one)...
    assert!(agent.submit("task two".to_string()));
    // ...but a further sender is held back,
    assert!(!agent.submit("task three".to_string()));
    // and nothing is admitted until the session has ended.
    assert!(agent.tick().is_none());
    assert!(agent.tick().is_none());

    let (_evs, _dir) = agent.session.on_tab_result(true);
    let (_evs, _dir) = agent
        .session
        .on_decision(Ok(Step::Done { summary: "done".to_string() }));
    assert!(agent.session.is_finished());

    // Ready was observed; the queued command is admitted now.
    let next = agent.tick();
    assert!(matches!(next, Some((ref c, Directive::OpenTab)) if c == "task two"));
}

#[test]
fn done_produces_one_task_complete_and_no_further_actions() {
    let (mut session, _dir) = TaskSession::start(MAX_STEPS_PER_TASK);
    let (evs, dir) = session.on_tab_result(true);
    assert_eq!(evs.len(), 1);
    assert!(matches!(evs[0], AgentEvent::Thinking));
    assert!(matches!(dir, Directive::Decide));

    let (evs, dir) = session.on_decision(Ok(Step::Done { summary: "X".to_string() }));
    let kinds: Vec<&str> = evs.iter().map(kind_of).collect();
    assert_eq!(kinds, vec!["task_complete", "ready"]);
    assert!(matches!(&evs[0], AgentEvent::TaskComplete { summary } if summary == "X"));
    assert!(matches!(dir, Directive::Idle));
    assert!(session.is_finished());
}

#[test]
fn budget_exhaustion_emits_one_task_error_naming_the_limit() {
    let budget = MAX_STEPS_PER_TASK;
    let (mut session, _dir) = TaskSession::start(budget);
    let mut all_events: Vec<AgentEvent> = Vec::new();
    let mut executed = 0usize;

    let (evs, mut dir) = session.on_tab_result(true);
    all_events.extend(evs);
    loop {
        match dir {
            Directive::Decide => {
                let (evs, d) = session.on_decision(Ok(Step::Click {
                    selector: "[data-eid='[e0]']".to_string(),
                }));
                all_events.extend(evs);
                dir = d;
            },
            Directive::Execute(_) => {
                executed += 1;
                let (evs, d) = session.on_observation(&page(None, vec![]));
                all_events.extend(evs);
                dir = d;
            },
            Directive::Idle => break,
            Directive::OpenTab => panic!("no tab expected here"),
        }
    }

    assert_eq!(executed, budget);
    let errors: Vec<&AgentEvent> = all_events
        .iter()
        .filter(|e| matches!(e, AgentEvent::TaskError { .. }))
        .collect();
    assert_eq!(errors.len(), 1);
    assert!(matches!(
        errors[0],
        AgentEvent::TaskError { message } if message == "Reached maximum step limit (25)"
    ));
    assert!(matches!(all_events.last(), Some(AgentEvent::Ready)));
    assert!(session.is_finished());
}

#[test]
fn search_scenario_yields_ordered_events_and_extraction() {
    let mut agent = AgentLoop::new(MAX_STEPS_PER_TASK);
    let mut brain = Brain::new();
    let mut bus = EventBus::new();
    let sub = bus.subscribe();
    let mut trace: Vec<AgentEvent> = Vec::new();

    assert!(agent.submit("search for X".to_string()));
    let (cmd, _dir) = agent.tick().expect("idle loop admits the command");
    brain.start_task(&cmd);

    let decisions = vec![
        "{\"action\":\"Navigate\",\"url\":\"https://example.com\"}",
        "{\"action\":\"TypeInto\",\"selector\":\"#q\",\"text\":\"X\"}",
        "{\"action\":\"PressKey\",\"key\":\"Enter\"}",
        "{\"action\":\"Extract\",\"selector\":\"body\",\"label\":\"result\"}",
        "{\"action\":\"Done\",\"summary\":\"found X\"}",
    ];
    let mut next_decision = 0usize;

    let (evs, mut dir) = agent.session.on_tab_result(true);
    for e in evs {
        bus.publish(&e);
        trace.push(e);
    }
    loop {
        match dir {
            Directive::Decide => {
                let reply = decisions[next_decision];
                next_decision += 1;
                let step = brain.accept_reply(reply).expect("reply parses");
                let (evs, d) = agent.session.on_decision(Ok(step));
                for e in evs {
                    bus.publish(&e);
                    trace.push(e);
                }
                dir = d;
            },
            Directive::Execute(step) => {
                let extracted = match &step {
                    Step::Extract { label, .. } => {
                        vec![make_extraction(label, "the result text")]
                    },
                    _ => vec![],
                };
                let state = page(None, extracted);
                let (evs, d) = agent.session.on_observation(&state);
                brain.observe(&state);
                for e in evs {
                    bus.publish(&e);
                    trace.push(e);
                }
                dir = d;
            },
            Directive::Idle => break,
            Directive::OpenTab => panic!("no tab expected mid-task"),
        }
    }

    let kinds: Vec<&str> = trace.iter().map(kind_of).collect();
    assert_eq!(
        kinds,
        vec![
            "thinking", "step", "thinking", "step", "thinking", "step", "thinking", "step",
            "thinking", "task_complete", "ready",
        ]
    );
    let numbers: Vec<usize> = trace
        .iter()
        .filter_map(|e| match e {
            AgentEvent::Step { number, .. } => Some(*number),
            _ => None,
        })
        .collect();
    assert_eq!(numbers, vec![1, 2, 3, 4]);
    assert!(matches!(
        trace.iter().find(|e| matches!(e, AgentEvent::TaskComplete { .. })),
        Some(AgentEvent::TaskComplete { summary }) if summary == "found X"
    ));

    // The observation after the fourth step carries the extraction.
    let last_observation = brain.turn(brain.turn_count() - 2);
    assert_eq!(last_observation.role, "user");
    assert!(last_observation
        .content
        .ends_with("\n\nExtracted [result]: the result text"));

    // The subscriber sees the same trace, in order, at most once.
    for expected in &trace {
        let got = bus.poll(sub).expect("event buffered");
        assert_eq!(kind_of(&got), kind_of(expected));
    }
    assert!(bus.poll(sub).is_none());
}

#[test]
fn failed_click_surfaces_step_error_then_next_thinking() {
    let (mut session, _dir) = TaskSession::start(MAX_STEPS_PER_TASK);
    let (_evs, _dir) = session.on_tab_result(true);
    let (evs, dir) = session.on_decision(Ok(Step::Click { selector: "#missing".to_string() }));
    assert!(matches!(dir, Directive::Execute(Step::Click { .. })));
    assert_eq!(evs.len(), 1);

    let (evs, dir) = session.on_observation(&page(Some("no element found for #missing"), vec![]));
    let kinds: Vec<&str> = evs.iter().map(kind_of).collect();
    assert_eq!(kinds, vec!["step_error", "thinking"]);
    assert!(matches!(
        &evs[0],
        AgentEvent::StepError { message } if message == "no element found for #missing"
    ));
    assert!(matches!(dir, Directive::Decide));
    assert!(!session.is_finished());
}

#[test]
fn decision_failure_ends_the_session_with_task_error() {
    let (mut session, _dir) = TaskSession::start(MAX_STEPS_PER_TASK);
    let (_evs, _dir) = session.on_tab_result(true);
    let (evs, dir) = session.on_decision(Err("OpenAI API error (401): bad key".to_string()));
    let kinds: Vec<&str> = evs.iter().map(kind_of).collect();
    assert_eq!(kinds, vec!["task_error", "ready"]);
    assert!(matches!(
        &evs[0],
        AgentEvent::TaskError { message } if message == "OpenAI API error (401): bad key"
    ));
    assert!(matches!(dir, Directive::Idle));
    assert!(session.is_finished());
}

#[test]
fn tab_failure_is_absorbed_and_the_session_continues() {
    let (mut session, _dir) = TaskSession::start(MAX_STEPS_PER_TASK);
    let (evs, dir) = session.on_tab_result(false);
    assert_eq!(evs.len(), 1);
    assert!(matches!(evs[0], AgentEvent::Thinking));
    assert!(matches!(dir, Directive::Decide));
    assert!(!session.is_finished());
}

#[test]
fn zero_budget_session_ends_before_any_decision() {
    let (mut session, _dir) = TaskSession::start(0);
    let (evs, dir) = session.on_tab_result(true);
    let kinds: Vec<&str> = evs.iter().map(kind_of).collect();
    assert_eq!(kinds, vec!["task_error", "ready"]);
    assert!(matches!(
        &evs[0],
        AgentEvent::TaskError { message } if message == "Reached maximum step limit (0)"
    ));
    assert!(matches!(dir, Directive::Idle));
}

#[test]
fn event_bus_delivers_in_order_and_drops_oldest_on_overflow() {
    let mut bus = EventBus::new();
    let a = bus.subscribe();
    for i in 0..70usize {
        bus.publish(&AgentEvent::Step { number: i, description: format!("s{}", i) });
    }
    let b = bus.subscribe();
    // The buffer holds 64: the first six events were dropped.
    let first = bus.poll(a).expect("buffered");
    assert!(matches!(first, AgentEvent::Step { number: 6, .. }));
    let mut count = 1usize;
    while let Some(_e) = bus.poll(a) {
        count += 1;
    }
    assert_eq!(count, 64);
    // The late subscriber saw nothing published before it joined.
    assert!(bus.poll(b).is_none());
}

#[test]
fn sse_wire_forms_match_the_front_end_contract() {
    let (name, data) = AgentEvent::Step { number: 3, description: "Click".to_string() }
        .to_sse_event();
    assert_eq!(name, "step");
    assert_eq!(data, "{\"number\":3,\"description\":\"Click\"}");

    let (name, data) = AgentEvent::StepError { message: "x\"y".to_string() }.to_sse_event();
    assert_eq!(name, "step_error");
    assert_eq!(data, "{\"message\":\"x\\\"y\"}");

    let (name, data) = AgentEvent::TaskComplete { summary: "ok".to_string() }.to_sse_event();
    assert_eq!(name, "task_complete");
    assert_eq!(data, "{\"summary\":\"ok\"}");

    let (name, data) = AgentEvent::TaskError { message: "m".to_string() }.to_sse_event();
    assert_eq!(name, "task_error");
    assert_eq!(data, "{\"message\":\"m\"}");

    let (name, data) = AgentEvent::Thinking.to_sse_event();
    assert_eq!((name.as_str(), data.as_str()), ("thinking", "{}"));
    let (name, data) = AgentEvent::Ready.to_sse_event();
    assert_eq!((name.as_str(), data.as_str()), ("ready", "{}"));
}

#[test]
fn step_descriptions_name_the_action_and_its_fields() {
    let step = Step::Navigate { url: "https://a".to_string() };
    assert_eq!(step.describe(), "Navigate { url: \"https://a\" }");
    let step = Step::WaitFor { selector: "#q".to_string(), timeout_ms: 250 };
    assert_eq!(step.describe(), "WaitFor { selector: \"#q\", timeout_ms: 250 }");
    let step = Step::Screenshot;
    assert_eq!(step.describe(), "Screenshot");
}

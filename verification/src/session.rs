//! The task-session state machine: the span from one accepted command to
//! its terminal action, budget exhaustion, or an unrecoverable decision
//! failure.  Each transition takes one event from outside (tab opened,
//! decision arrived, observation captured) and yields the lifecycle
//! events to publish and the next directive for the surrounding loop.
//! The machine itself performs no input or output.

use vstd::prelude::*;
use crate::events::AgentEvent;
use crate::events::EventView;
use crate::events::events_view;
use crate::json::jstr;
use crate::json::write_jstr;
use crate::text::chars_of;
use crate::text::dec_digits;
use crate::text::push_decimal;
use crate::text::string_from_chars;
use crate::types::PageState;
use crate::types::Step;
use crate::types::StepView;

verus! {

// ===== describing a step =====

/// The human-readable description of a step, as published in `Step`
/// events.
pub open spec fn describe_step(st: StepView) -> Seq<char> {
    match st {
        StepView::Navigate { url } => "Navigate { url: "@ + jstr(url) + " }"@,
        StepView::WaitFor { selector, timeout_ms } => "WaitFor { selector: "@ + jstr(selector)
            + ", timeout_ms: "@ + dec_digits(timeout_ms as nat) + " }"@,
        StepView::TypeInto { selector, text } => "TypeInto { selector: "@ + jstr(selector)
            + ", text: "@ + jstr(text) + " }"@,
        StepView::Click { selector } => "Click { selector: "@ + jstr(selector) + " }"@,
        StepView::PressKey { key } => "PressKey { key: "@ + jstr(key) + " }"@,
        StepView::Extract { selector, label } => "Extract { selector: "@ + jstr(selector)
            + ", label: "@ + jstr(label) + " }"@,
        StepView::Screenshot => "Screenshot"@,
        StepView::Done { summary } => "Done { summary: "@ + jstr(summary) + " }"@,
        StepView::NewTab => "NewTab"@,
    }
}

impl Step {
    /// The description published with this step's `Step` event.
    pub fn describe(&self) -> (r: String)
        ensures
            r@ == describe_step(self@),
    {
        match self {
            Step::Navigate { url } => {
                let mut buf = chars_of("Navigate { url: ");
                let v = chars_of(url.as_str());
                write_jstr(&mut buf, &v);
                let mut t = chars_of(" }");
                buf.append(&mut t);
                assert(buf@ =~= describe_step(self@));
                string_from_chars(&buf)
            },
            Step::WaitFor { selector, timeout_ms } => {
                let mut buf = chars_of("WaitFor { selector: ");
                let v = chars_of(selector.as_str());
                write_jstr(&mut buf, &v);
                let mut m = chars_of(", timeout_ms: ");
                buf.append(&mut m);
                push_decimal(&mut buf, *timeout_ms);
                let mut t = chars_of(" }");
                buf.append(&mut t);
                assert(buf@ =~= describe_step(self@));
                string_from_chars(&buf)
            },
            Step::TypeInto { selector, text } => {
                let mut buf = chars_of("TypeInto { selector: ");
                let v = chars_of(selector.as_str());
                write_jstr(&mut buf, &v);
                let mut m = chars_of(", text: ");
                buf.append(&mut m);
                let w = chars_of(text.as_str());
                write_jstr(&mut buf, &w);
                let mut t = chars_of(" }");
                buf.append(&mut t);
                assert(buf@ =~= describe_step(self@));
                string_from_chars(&buf)
            },
            Step::Click { selector } => {
                let mut buf = chars_of("Click { selector: ");
                let v = chars_of(selector.as_str());
                write_jstr(&mut buf, &v);
                let mut t = chars_of(" }");
                buf.append(&mut t);
                assert(buf@ =~= describe_step(self@));
                string_from_chars(&buf)
            },
            Step::PressKey { key } => {
                let mut buf = chars_of("PressKey { key: ");
                let v = chars_of(key.as_str());
                write_jstr(&mut buf, &v);
                let mut t = chars_of(" }");
                buf.append(&mut t);
                assert(buf@ =~= describe_step(self@));
                string_from_chars(&buf)
            },
            Step::Extract { selector, label } => {
                let mut buf = chars_of("Extract { selector: ");
                let v = chars_of(selector.as_str());
                write_jstr(&mut buf, &v);
                let mut m = chars_of(", label: ");
                buf.append(&mut m);
                let w = chars_of(label.as_str());
                write_jstr(&mut buf, &w);
                let mut t = chars_of(" }");
                buf.append(&mut t);
                assert(buf@ =~= describe_step(self@));
                string_from_chars(&buf)
            },
            Step::Screenshot => "Screenshot".to_owned(),
            Step::Done { summary } => {
                let mut buf = chars_of("Done { summary: ");
                let v = chars_of(summary.as_str());
                write_jstr(&mut buf, &v);
                let mut t = chars_of(" }");
                buf.append(&mut t);
                assert(buf@ =~= describe_step(self@));
                string_from_chars(&buf)
            },
            Step::NewTab => "NewTab".to_owned(),
        }
    }
}

// ===== the machine =====

/// Where a session stands in its cycle.
#[derive(Clone, Copy, Debug, PartialEq, Eq, Structural)]
pub enum SessionPhase {
    /// Waiting for the fresh tab the session starts in.
    StartingTab,
    /// Waiting for the decision service's reply.
    Deciding,
    /// Waiting for the outcome and observation of a dispatched step.
    Acting,
    /// Ended: by a terminal action, a decision failure, or the budget.
    Finished,
}

/// What the surrounding loop must do next.
#[derive(Clone, Debug)]
pub enum Directive {
    /// Ask the decision service for the next step.
    Decide,
    /// Apply the step to the live page, then observe and report back.
    Execute(Step),
    /// Open a fresh tab, then report whether it opened.
    OpenTab,
    /// The session is over; nothing to do.
    Idle,
}

/// The mathematical value of a `Directive`.
pub enum DirectiveView {
    Decide,
    Execute(StepView),
    OpenTab,
    Idle,
}

impl View for Directive {
    type V = DirectiveView;

    open spec fn view(&self) -> DirectiveView {
        match self {
            Directive::Decide => DirectiveView::Decide,
            Directive::Execute(st) => DirectiveView::Execute(st@),
            Directive::OpenTab => DirectiveView::OpenTab,
            Directive::Idle => DirectiveView::Idle,
        }
    }
}

/// One task session: its step count, its budget, and its phase.
#[derive(Clone, Copy, Debug, PartialEq, Eq, Structural)]
pub struct TaskSession {
    pub steps_taken: usize,
    pub budget: usize,
    pub phase: SessionPhase,
}

/// The message of the budget-exhaustion error, naming the configured
/// limit.
pub open spec fn limit_message(budget: usize) -> Seq<char> {
    "Reached maximum step limit ("@ + dec_digits(budget as nat) + seq![')']
}

/// A session is well formed when a pending decision still has budget
/// for its step.
pub open spec fn session_wf(s: TaskSession) -> bool {
    s.phase == SessionPhase::Deciding ==> s.steps_taken < s.budget
}

/// The round entry common to every non-terminal transition: exhaust the
/// budget with exactly one `TaskError` naming the limit, or announce
/// `Thinking` and ask for a decision.
pub open spec fn spec_round(s: TaskSession) -> (TaskSession, Seq<EventView>, DirectiveView) {
    if s.steps_taken >= s.budget {
        (
            TaskSession { phase: SessionPhase::Finished, ..s },
            seq![
                EventView::TaskError { message: limit_message(s.budget) },
                EventView::Ready,
            ],
            DirectiveView::Idle,
        )
    } else {
        (
            TaskSession { phase: SessionPhase::Deciding, ..s },
            seq![EventView::Thinking],
            DirectiveView::Decide,
        )
    }
}

/// What one decision outcome does to the session.
pub open spec fn spec_on_decision(s: TaskSession, d: Result<StepView, Seq<char>>) -> (
    TaskSession,
    Seq<EventView>,
    DirectiveView,
) {
    match d {
        Err(msg) => (
            TaskSession { phase: SessionPhase::Finished, ..s },
            seq![EventView::TaskError { message: msg }, EventView::Ready],
            DirectiveView::Idle,
        ),
        Ok(st) => {
            let s2 = TaskSession { steps_taken: (s.steps_taken + 1) as usize, ..s };
            match st {
                StepView::Done { summary } => (
                    TaskSession { phase: SessionPhase::Finished, ..s2 },
                    seq![EventView::TaskComplete { summary }, EventView::Ready],
                    DirectiveView::Idle,
                ),
                _ => (
                    TaskSession { phase: SessionPhase::Acting, ..s2 },
                    seq![
                        EventView::Step {
                            number: s2.steps_taken,
                            description: describe_step(st),
                        },
                    ],
                    DirectiveView::Execute(st),
                ),
            }
        },
    }
}

/// What one observation does to the session: a failed step yields a
/// `StepError` but the session continues into the next round.
pub open spec fn spec_on_observation(s: TaskSession, error: Option<Seq<char>>) -> (
    TaskSession,
    Seq<EventView>,
    DirectiveView,
) {
    let head = match error {
        Some(m) => seq![EventView::StepError { message: m }],
        None => Seq::<EventView>::empty(),
    };
    let (s2, evs, dir) = spec_round(s);
    (s2, head + evs, dir)
}

impl TaskSession {
    /// Open a session for one accepted command: a fresh tab is requested
    /// first.
    pub fn start(budget: usize) -> (r: (TaskSession, Directive))
        ensures
            r.0 == (TaskSession {
                steps_taken: 0,
                budget,
                phase: SessionPhase::StartingTab,
            }),
            r.1@ == DirectiveView::OpenTab,
            session_wf(r.0),
    {
        (
            TaskSession { steps_taken: 0, budget, phase: SessionPhase::StartingTab },
            Directive::OpenTab,
        )
    }

    /// The starting tab was opened, or failed to open: the session
    /// continues either way (a session-control failure is absorbed with
    /// a warning), and the first round begins.
    pub fn on_tab_result(&mut self, opened: bool) -> (r: (Vec<AgentEvent>, Directive))
        requires
            old(self).phase == SessionPhase::StartingTab,
        ensures
            ({
                let (s2, evs, dir) = spec_round(*old(self));
                *final(self) == s2 && events_view(r.0@) == evs && r.1@ == dir
            }),
            session_wf(*final(self)),
    {
        self.round_start()
    }

    /// The decision service answered, or failed: a failure ends the
    /// session with exactly one `TaskError`; `Done` ends it with exactly
    /// one `TaskComplete` carrying the summary; any other step is
    /// counted, announced, and handed out for execution.
    pub fn on_decision(&mut self, decision: Result<Step, String>) -> (r: (
        Vec<AgentEvent>,
        Directive,
    ))
        requires
            old(self).phase == SessionPhase::Deciding,
            session_wf(*old(self)),
        ensures
            ({
                let dv = match decision {
                    Ok(st) => Ok::<StepView, Seq<char>>(st@),
                    Err(m) => Err::<StepView, Seq<char>>(m@),
                };
                let (s2, evs, dir) = spec_on_decision(*old(self), dv);
                *final(self) == s2 && events_view(r.0@) == evs && r.1@ == dir
            }),
            session_wf(*final(self)),
    {
        match decision {
            Err(m) => {
                self.phase = SessionPhase::Finished;
                let mut evs: Vec<AgentEvent> = Vec::new();
                evs.push(AgentEvent::TaskError { message: m });
                evs.push(AgentEvent::Ready);
                proof {
                    let dv = Err::<StepView, Seq<char>>(decision->Err_0@);
                    assert(events_view(evs@) =~= spec_on_decision(*old(self), dv).1);
                }
                (evs, Directive::Idle)
            },
            Ok(st) => {
                self.steps_taken = self.steps_taken + 1;
                match st {
                    Step::Done { summary } => {
                        self.phase = SessionPhase::Finished;
                        let mut evs: Vec<AgentEvent> = Vec::new();
                        evs.push(AgentEvent::TaskComplete { summary });
                        evs.push(AgentEvent::Ready);
                        proof {
                            let dv = Ok::<StepView, Seq<char>>(decision->Ok_0@);
                            assert(events_view(evs@) =~= spec_on_decision(*old(self), dv).1);
                        }
                        (evs, Directive::Idle)
                    },
                    _ => {
                        self.phase = SessionPhase::Acting;
                        let number = self.steps_taken;
                        let description = st.describe();
                        let mut evs: Vec<AgentEvent> = Vec::new();
                        evs.push(AgentEvent::Step { number, description });
                        proof {
                            let dv = Ok::<StepView, Seq<char>>(decision->Ok_0@);
                            assert(events_view(evs@) =~= spec_on_decision(*old(self), dv).1);
                        }
                        (evs, Directive::Execute(st))
                    },
                }
            },
        }
    }

    /// A step finished and its observation is in: surface its error, if
    /// any, as a `StepError`, then begin the next round.
    pub fn on_observation(&mut self, page: &PageState) -> (r: (Vec<AgentEvent>, Directive))
        requires
            old(self).phase == SessionPhase::Acting,
        ensures
            ({
                let (s2, evs, dir) = spec_on_observation(*old(self), page@.error);
                *final(self) == s2 && events_view(r.0@) == evs && r.1@ == dir
            }),
            session_wf(*final(self)),
    {
        let mut head: Vec<AgentEvent> = Vec::new();
        match &page.error {
            Some(m) => {
                head.push(AgentEvent::StepError { message: m.clone() });
            },
            None => {},
        }
        let (mut tail, dir) = self.round_start();
        let ghost headv = events_view(head@);
        let ghost tailv = events_view(tail@);
        head.append(&mut tail);
        proof {
            assert(events_view(head@) =~= headv + tailv);
            assert(events_view(head@) =~= spec_on_observation(*old(self), page@.error).1);
        }
        (head, dir)
    }

    /// Whether the session has ended.
    pub fn is_finished(&self) -> (r: bool)
        ensures
            r == (self.phase == SessionPhase::Finished),
    {
        matches!(self.phase, SessionPhase::Finished)
    }

    fn round_start(&mut self) -> (r: (Vec<AgentEvent>, Directive))
        ensures
            ({
                let (s2, evs, dir) = spec_round(*old(self));
                *final(self) == s2 && events_view(r.0@) == evs && r.1@ == dir
            }),
            session_wf(*final(self)),
    {
        if self.steps_taken >= self.budget {
            self.phase = SessionPhase::Finished;
            let mut buf = chars_of("Reached maximum step limit (");
            push_decimal(&mut buf, self.budget as u64);
            buf.push(')');
            assert(buf@ =~= limit_message(self.budget));
            let mut evs: Vec<AgentEvent> = Vec::new();
            evs.push(AgentEvent::TaskError { message: string_from_chars(&buf) });
            evs.push(AgentEvent::Ready);
            proof {
                assert(events_view(evs@) =~= spec_round(*old(self)).1);
            }
            (evs, Directive::Idle)
        } else {
            self.phase = SessionPhase::Deciding;
            let mut evs: Vec<AgentEvent> = Vec::new();
            evs.push(AgentEvent::Thinking);
            proof {
                assert(events_view(evs@) =~= spec_round(*old(self)).1);
            }
            (evs, Directive::Decide)
        }
    }
}

// ===== laws =====

/// Law: a `Done` decision, once parsed, produces exactly one
/// `TaskComplete` event carrying its summary, followed by `Ready`; the
/// session is finished and no further step is directed.  (Every further
/// transition requires an unfinished phase, so none applies.)
pub proof fn lemma_done_terminates(s: TaskSession, summary: Seq<char>)
    requires
        session_wf(s),
        s.phase == SessionPhase::Deciding,
    ensures
        ({
            let (s2, evs, dir) = spec_on_decision(s, Ok(StepView::Done { summary }));
            &&& evs == seq![EventView::TaskComplete { summary }, EventView::Ready]
            &&& s2.phase == SessionPhase::Finished
            &&& dir == DirectiveView::Idle
        }),
{
}

/// Law: a session whose budget is spent produces exactly one `TaskError`
/// naming the configured limit, followed by `Ready`; the session is
/// finished, and no step beyond the budget is ever directed.
pub proof fn lemma_budget_exhausted(s: TaskSession)
    requires
        s.steps_taken >= s.budget,
    ensures
        ({
            let (s2, evs, dir) = spec_round(s);
            &&& evs == seq![
                EventView::TaskError { message: limit_message(s.budget) },
                EventView::Ready,
            ]
            &&& s2.phase == SessionPhase::Finished
            &&& s2.steps_taken == s.steps_taken
            &&& dir == DirectiveView::Idle
        }),
{
}

/// Law: a failed step never ends the session: its observation yields a
/// `StepError` carrying the error text, and — while budget remains — the
/// next round still opens with `Thinking` and a fresh decision request.
pub proof fn lemma_step_error_recovers(s: TaskSession, message: Seq<char>)
    requires
        s.phase == SessionPhase::Acting,
        s.steps_taken < s.budget,
    ensures
        ({
            let (s2, evs, dir) = spec_on_observation(s, Some(message));
            &&& evs == seq![EventView::StepError { message }, EventView::Thinking]
            &&& s2.phase == SessionPhase::Deciding
            &&& dir == DirectiveView::Decide
        }),
{
    let (s2, evs, dir) = spec_on_observation(s, Some(message));
    assert(evs =~= seq![EventView::StepError { message }, EventView::Thinking]);
}

} // verus!

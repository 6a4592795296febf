//! The command intake and the orchestrating loop state.  The intake is a
//! single slot: an offer is refused while the slot is occupied, so a
//! sender queues at most one command and blocks (retries) otherwise, and
//! never drops one.  The loop state admits a queued command only when no
//! task session is active, which enforces one session at a time.

use vstd::prelude::*;
use crate::session::Directive;
use crate::session::DirectiveView;
use crate::session::SessionPhase;
use crate::session::TaskSession;
use crate::session::session_wf;

verus! {

/// The single-slot command queue.
pub struct CommandIntake {
    slot: Option<String>,
}

impl View for CommandIntake {
    type V = Option<Seq<char>>;

    closed spec fn view(&self) -> Option<Seq<char>> {
        match self.slot {
            Some(ref c) => Some(c@),
            None => None,
        }
    }
}

impl CommandIntake {
    /// An empty intake.
    pub fn new() -> (q: CommandIntake)
        ensures
            q@ is None,
    {
        CommandIntake { slot: None }
    }

    /// Offer one command.  It is accepted exactly when the slot is free;
    /// a refused sender holds its command and offers again, so no
    /// command is ever dropped.
    pub fn offer(&mut self, command: String) -> (accepted: bool)
        ensures
            accepted == (old(self)@ is None),
            accepted ==> final(self)@ == Some(command@),
            !accepted ==> *final(self) == *old(self),
    {
        match self.slot {
            None => {
                self.slot = Some(command);
                true
            },
            Some(_) => false,
        }
    }

    /// Whether a command is waiting.
    pub fn is_occupied(&self) -> (r: bool)
        ensures
            r == (self@ is Some),
    {
        matches!(self.slot, Some(_))
    }

    /// Drain the slot.
    pub fn take(&mut self) -> (r: Option<String>)
        ensures
            final(self)@ is None,
            match r {
                Some(c) => old(self)@ == Some(c@),
                None => old(self)@ is None,
            },
    {
        let mut out: Option<String> = None;
        core::mem::swap(&mut self.slot, &mut out);
        out
    }
}

/// The orchestrator's state: the intake and the session in progress.
/// A finished session means the loop is idle.
pub struct AgentLoop {
    pub intake: CommandIntake,
    pub session: TaskSession,
    pub budget: usize,
}

impl AgentLoop {
    /// An idle loop with an empty intake.
    pub fn new(budget: usize) -> (l: AgentLoop)
        ensures
            l.intake@ is None,
            l.session.phase == SessionPhase::Finished,
            l.budget == budget,
            session_wf(l.session),
    {
        AgentLoop {
            intake: CommandIntake::new(),
            session: TaskSession { steps_taken: 0, budget, phase: SessionPhase::Finished },
            budget,
        }
    }

    /// Offer a command from outside; the intake decides.
    pub fn submit(&mut self, command: String) -> (accepted: bool)
        ensures
            accepted == (old(self).intake@ is None),
            accepted ==> final(self).intake@ == Some(command@),
            !accepted ==> final(self).intake@ == old(self).intake@,
            final(self).session == old(self).session,
            final(self).budget == old(self).budget,
    {
        self.intake.offer(command)
    }

    /// Admit the next command, if the loop is idle and one is queued:
    /// the command is returned for recording, a fresh session opens, and
    /// its first directive is to open a tab.  While a session is active
    /// nothing is admitted and nothing changes: one task at a time.
    pub fn tick(&mut self) -> (r: Option<(String, Directive)>)
        ensures
            old(self).session.phase != SessionPhase::Finished ==> r is None && *final(self)
                == *old(self),
            old(self).session.phase == SessionPhase::Finished && old(self).intake@ is None
                ==> r is None && *final(self) == *old(self),
            old(self).session.phase == SessionPhase::Finished && old(self).intake@ is Some
                ==> r is Some,
            match r {
                Some((c, d)) => {
                    &&& old(self).session.phase == SessionPhase::Finished
                    &&& old(self).intake@ == Some(c@)
                    &&& final(self).intake@ is None
                    &&& final(self).session == (TaskSession {
                        steps_taken: 0,
                        budget: old(self).budget,
                        phase: SessionPhase::StartingTab,
                    })
                    &&& final(self).budget == old(self).budget
                    &&& d@ == DirectiveView::OpenTab
                },
                None => *final(self) == *old(self),
            },
            r is Some ==> session_wf(final(self).session),
    {
        if !self.session.is_finished() {
            return None;
        }
        if !self.intake.is_occupied() {
            return None;
        }
        let cmd = match self.intake.take() {
            Some(c) => c,
            None => {
                return None;
            },
        };
        let (session, directive) = TaskSession::start(self.budget);
        self.session = session;
        Some((cmd, directive))
    }
}

} // verus!

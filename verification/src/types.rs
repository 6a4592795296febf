//! The action vocabulary and the plain records that cross the library
//! boundary: steps, page observations, extractions and chat messages.

use vstd::prelude::*;

verus! {

/// One atomic browser operation the decision service may request per round.
/// A step is immutable once parsed: it is either fully applied or reported
/// as failed, never partially retried.
#[derive(Clone, Debug)]
pub enum Step {
    Navigate { url: String },
    WaitFor { selector: String, timeout_ms: u64 },
    TypeInto { selector: String, text: String },
    Click { selector: String },
    PressKey { key: String },
    Extract { selector: String, label: String },
    Screenshot,
    Done { summary: String },
    NewTab,
}

/// One labelled piece of text read off the page by an `Extract` step.
#[derive(Clone, Debug)]
pub struct Extraction {
    pub label: String,
    pub content: String,
}

/// What the agent observes after executing a step: page metadata, the
/// encoded snapshot, any extractions, and the error of the step if it failed.
#[derive(Clone, Debug)]
pub struct PageState {
    pub url: String,
    pub title: String,
    pub dom_snapshot: String,
    pub extracted: Vec<Extraction>,
    pub error: Option<String>,
}

/// A message in the conversation history sent to the decision service.
#[derive(Clone, Debug)]
pub struct ChatMessage {
    pub role: String,
    pub content: String,
}

/// The mathematical value of a `Step`: the same tagged union over
/// character sequences.
pub enum StepView {
    Navigate { url: Seq<char> },
    WaitFor { selector: Seq<char>, timeout_ms: u64 },
    TypeInto { selector: Seq<char>, text: Seq<char> },
    Click { selector: Seq<char> },
    PressKey { key: Seq<char> },
    Extract { selector: Seq<char>, label: Seq<char> },
    Screenshot,
    Done { summary: Seq<char> },
    NewTab,
}

impl View for Step {
    type V = StepView;

    open spec fn view(&self) -> StepView {
        match self {
            Step::Navigate { url } => StepView::Navigate { url: url@ },
            Step::WaitFor { selector, timeout_ms } => StepView::WaitFor {
                selector: selector@,
                timeout_ms: *timeout_ms,
            },
            Step::TypeInto { selector, text } => StepView::TypeInto {
                selector: selector@,
                text: text@,
            },
            Step::Click { selector } => StepView::Click { selector: selector@ },
            Step::PressKey { key } => StepView::PressKey { key: key@ },
            Step::Extract { selector, label } => StepView::Extract {
                selector: selector@,
                label: label@,
            },
            Step::Screenshot => StepView::Screenshot,
            Step::Done { summary } => StepView::Done { summary: summary@ },
            Step::NewTab => StepView::NewTab,
        }
    }
}

/// The mathematical value of an `Extraction`.
pub struct ExtractionView {
    pub label: Seq<char>,
    pub content: Seq<char>,
}

impl View for Extraction {
    type V = ExtractionView;

    open spec fn view(&self) -> ExtractionView {
        ExtractionView { label: self.label@, content: self.content@ }
    }
}

/// The mathematical value of a `PageState`.
pub struct PageStateView {
    pub url: Seq<char>,
    pub title: Seq<char>,
    pub dom_snapshot: Seq<char>,
    pub extracted: Seq<ExtractionView>,
    pub error: Option<Seq<char>>,
}

impl View for PageState {
    type V = PageStateView;

    open spec fn view(&self) -> PageStateView {
        PageStateView {
            url: self.url@,
            title: self.title@,
            dom_snapshot: self.dom_snapshot@,
            extracted: Seq::new(self.extracted@.len(), |i: int| self.extracted@[i]@),
            error: match self.error {
                Some(ref e) => Some(e@),
                None => None,
            },
        }
    }
}

/// The mathematical value of a `ChatMessage`: its role and content.
pub struct MessageView {
    pub role: Seq<char>,
    pub content: Seq<char>,
}

impl View for ChatMessage {
    type V = MessageView;

    open spec fn view(&self) -> MessageView {
        MessageView { role: self.role@, content: self.content@ }
    }
}

/// Step budget: the most actions permitted within one task session.
pub const MAX_STEPS_PER_TASK: usize = 25;

/// Character budget for one encoded page snapshot.
pub const DOM_SNAPSHOT_MAX_CHARS: usize = 4000;

} // verus!

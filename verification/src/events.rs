//! Lifecycle events and the event bus: a single-writer, multi-reader
//! fan-out with bounded per-subscriber buffers.  A slow or absent
//! subscriber never blocks the writer: on overflow the oldest buffered
//! event is dropped.  Delivery is at most once per subscriber.

use vstd::prelude::*;
use crate::json::jstr;
use crate::json::write_jstr;
use crate::text::chars_of;
use crate::text::dec_digits;
use crate::text::push_decimal;
use crate::text::string_from_chars;

verus! {

/// One lifecycle event streamed to observers.
#[derive(Clone, Debug)]
pub enum AgentEvent {
    Step { number: usize, description: String },
    StepError { message: String },
    TaskComplete { summary: String },
    TaskError { message: String },
    Thinking,
    Ready,
}

/// The mathematical value of an `AgentEvent`.
pub enum EventView {
    Step { number: usize, description: Seq<char> },
    StepError { message: Seq<char> },
    TaskComplete { summary: Seq<char> },
    TaskError { message: Seq<char> },
    Thinking,
    Ready,
}

impl View for AgentEvent {
    type V = EventView;

    open spec fn view(&self) -> EventView {
        match self {
            AgentEvent::Step { number, description } => EventView::Step {
                number: *number,
                description: description@,
            },
            AgentEvent::StepError { message } => EventView::StepError { message: message@ },
            AgentEvent::TaskComplete { summary } => EventView::TaskComplete { summary: summary@ },
            AgentEvent::TaskError { message } => EventView::TaskError { message: message@ },
            AgentEvent::Thinking => EventView::Thinking,
            AgentEvent::Ready => EventView::Ready,
        }
    }
}

/// The mathematical value of an event vector.
pub open spec fn events_view(v: Seq<AgentEvent>) -> Seq<EventView> {
    Seq::new(v.len(), |i: int| v[i]@)
}

/// The name of the push-channel event kind an event is delivered under.
pub open spec fn sse_name(e: EventView) -> Seq<char> {
    match e {
        EventView::Step { number, description } => "step"@,
        EventView::StepError { message } => "step_error"@,
        EventView::TaskComplete { summary } => "task_complete"@,
        EventView::TaskError { message } => "task_error"@,
        EventView::Thinking => "thinking"@,
        EventView::Ready => "ready"@,
    }
}

/// The JSON payload an event is delivered with.
pub open spec fn sse_data(e: EventView) -> Seq<char> {
    match e {
        EventView::Step { number, description } => "{\"number\":"@ + dec_digits(number as nat)
            + ",\"description\":"@ + jstr(description) + seq!['}'],
        EventView::StepError { message } => "{\"message\":"@ + jstr(message) + seq!['}'],
        EventView::TaskComplete { summary } => "{\"summary\":"@ + jstr(summary) + seq!['}'],
        EventView::TaskError { message } => "{\"message\":"@ + jstr(message) + seq!['}'],
        EventView::Thinking => "{}"@,
        EventView::Ready => "{}"@,
    }
}

impl AgentEvent {
    /// An identical event (the derived clone carries no contract).
    pub fn duplicate(&self) -> (r: AgentEvent)
        ensures
            r@ == self@,
    {
        match self {
            AgentEvent::Step { number, description } => AgentEvent::Step {
                number: *number,
                description: description.clone(),
            },
            AgentEvent::StepError { message } => AgentEvent::StepError {
                message: message.clone(),
            },
            AgentEvent::TaskComplete { summary } => AgentEvent::TaskComplete {
                summary: summary.clone(),
            },
            AgentEvent::TaskError { message } => AgentEvent::TaskError {
                message: message.clone(),
            },
            AgentEvent::Thinking => AgentEvent::Thinking,
            AgentEvent::Ready => AgentEvent::Ready,
        }
    }

    /// The push-channel form of the event: its kind name and its JSON
    /// payload.
    pub fn to_sse_event(&self) -> (r: (String, String))
        ensures
            r.0@ == sse_name(self@),
            r.1@ == sse_data(self@),
    {
        match self {
            AgentEvent::Step { number, description } => {
                let mut buf = chars_of("{\"number\":");
                push_decimal(&mut buf, *number as u64);
                let mut mid = chars_of(",\"description\":");
                buf.append(&mut mid);
                let dv = chars_of(description.as_str());
                write_jstr(&mut buf, &dv);
                buf.push('}');
                assert(buf@ =~= sse_data(self@));
                ("step".to_owned(), string_from_chars(&buf))
            },
            AgentEvent::StepError { message } => {
                let mut buf = chars_of("{\"message\":");
                let mv = chars_of(message.as_str());
                write_jstr(&mut buf, &mv);
                buf.push('}');
                assert(buf@ =~= sse_data(self@));
                ("step_error".to_owned(), string_from_chars(&buf))
            },
            AgentEvent::TaskComplete { summary } => {
                let mut buf = chars_of("{\"summary\":");
                let sv = chars_of(summary.as_str());
                write_jstr(&mut buf, &sv);
                buf.push('}');
                assert(buf@ =~= sse_data(self@));
                ("task_complete".to_owned(), string_from_chars(&buf))
            },
            AgentEvent::TaskError { message } => {
                let mut buf = chars_of("{\"message\":");
                let mv = chars_of(message.as_str());
                write_jstr(&mut buf, &mv);
                buf.push('}');
                assert(buf@ =~= sse_data(self@));
                ("task_error".to_owned(), string_from_chars(&buf))
            },
            AgentEvent::Thinking => ("thinking".to_owned(), "{}".to_owned()),
            AgentEvent::Ready => ("ready".to_owned(), "{}".to_owned()),
        }
    }
}

/// How many events one subscriber's buffer holds before the oldest is
/// dropped.
pub const EVENT_BUFFER_CAPACITY: usize = 64;

/// What publishing does to one subscriber's buffer: append, dropping the
/// oldest buffered event when the buffer is full.
pub open spec fn bounded_push(q: Seq<EventView>, e: EventView) -> Seq<EventView> {
    if q.len() < EVENT_BUFFER_CAPACITY {
        q.push(e)
    } else {
        q.skip(1).push(e)
    }
}

/// The fan-out bus: one bounded buffer per subscriber.
pub struct EventBus {
    queues: Vec<Vec<AgentEvent>>,
}

impl View for EventBus {
    type V = Seq<Seq<EventView>>;

    closed spec fn view(&self) -> Seq<Seq<EventView>> {
        Seq::new(self.queues@.len(), |i: int| events_view(self.queues@[i]@))
    }
}

impl EventBus {
    /// A bus with no subscribers yet.
    pub fn new() -> (b: EventBus)
        ensures
            b@ == Seq::<Seq<EventView>>::empty(),
    {
        let b = EventBus { queues: Vec::new() };
        proof {
            assert(b@ =~= Seq::<Seq<EventView>>::empty());
        }
        b
    }

    /// Add one subscriber; its identifier indexes its buffer.
    pub fn subscribe(&mut self) -> (id: usize)
        ensures
            id == old(self)@.len(),
            final(self)@ == old(self)@.push(Seq::<EventView>::empty()),
    {
        let id = self.queues.len();
        self.queues.push(Vec::new());
        proof {
            assert(events_view(Seq::<AgentEvent>::empty()) =~= Seq::<EventView>::empty());
            assert(final(self)@ =~= old(self)@.push(Seq::<EventView>::empty()));
        }
        id
    }

    pub fn subscriber_count(&self) -> (n: usize)
        ensures
            n == self@.len(),
    {
        self.queues.len()
    }

    /// Deliver one event to every subscriber's buffer, never blocking:
    /// a full buffer drops its oldest event.
    pub fn publish(&mut self, e: &AgentEvent)
        ensures
            final(self)@.len() == old(self)@.len(),
            forall|i: int|
                0 <= i < old(self)@.len() ==> final(self)@[i] == bounded_push(
                    old(self)@[i],
                    e@,
                ),
    {
        let n = self.queues.len();
        let mut newqs: Vec<Vec<AgentEvent>> = Vec::new();
        let mut i: usize = 0;
        while i < n
            invariant
                n == self.queues@.len(),
                self@ == old(self)@,
                i <= n,
                newqs@.len() == i,
                forall|j: int|
                    0 <= j < i ==> events_view(newqs@[j]@) == bounded_push(old(self)@[j], e@),
            decreases n - i,
        {
            let src = &self.queues[i];
            let ghost qv = events_view(src@);
            assert(qv == old(self)@[i as int]);
            let lo: usize = if src.len() >= EVENT_BUFFER_CAPACITY {
                1
            } else {
                0
            };
            let mut q: Vec<AgentEvent> = Vec::new();
            let mut k: usize = lo;
            while k < src.len()
                invariant
                    lo <= k <= src@.len(),
                    qv == events_view(src@),
                    q@.len() == k - lo,
                    forall|m: int| 0 <= m < k - lo ==> q@[m]@ == qv[m + lo],
                decreases src@.len() - k,
            {
                q.push(src[k].duplicate());
                k = k + 1;
            }
            q.push(e.duplicate());
            proof {
                if qv.len() < EVENT_BUFFER_CAPACITY {
                    assert(events_view(q@) =~= qv.push(e@));
                } else {
                    assert(events_view(q@) =~= qv.skip(1).push(e@));
                }
            }
            newqs.push(q);
            i = i + 1;
        }
        self.queues = newqs;
        proof {
            assert(final(self)@.len() == old(self)@.len());
        }
    }

    /// Take the oldest buffered event of one subscriber, if any:
    /// at-most-once delivery.
    pub fn poll(&mut self, id: usize) -> (r: Option<AgentEvent>)
        requires
            id < old(self)@.len(),
        ensures
            final(self)@.len() == old(self)@.len(),
            forall|j: int|
                0 <= j < old(self)@.len() && j != id ==> final(self)@[j] == old(self)@[j],
            match r {
                Some(e) => old(self)@[id as int].len() > 0 && e@ == old(self)@[id as int][0]
                    && final(self)@[id as int] == old(self)@[id as int].skip(1),
                None => old(self)@[id as int].len() == 0 && final(self)@[id as int] == old(
                    self,
                )@[id as int],
            },
    {
        let n = self.queues.len();
        if self.queues[id].len() == 0 {
            return None;
        }
        let taken = self.queues[id][0].duplicate();
        let mut newqs: Vec<Vec<AgentEvent>> = Vec::new();
        let mut i: usize = 0;
        while i < n
            invariant
                n == self.queues@.len(),
                self@ == old(self)@,
                id < n,
                old(self)@[id as int].len() > 0,
                i <= n,
                newqs@.len() == i,
                forall|j: int|
                    0 <= j < i && j != id ==> events_view(newqs@[j]@) == old(self)@[j],
                i > id ==> events_view(newqs@[id as int]@) == old(self)@[id as int].skip(1),
            decreases n - i,
        {
            let src = &self.queues[i];
            let ghost qv = events_view(src@);
            assert(qv == old(self)@[i as int]);
            let lo: usize = if i == id {
                1
            } else {
                0
            };
            let mut q: Vec<AgentEvent> = Vec::new();
            let mut k: usize = lo;
            while k < src.len()
                invariant
                    lo <= k <= src@.len() || (k == lo && lo >= src@.len()),
                    qv == events_view(src@),
                    q@.len() == k - lo || (q@.len() == 0 && k == lo),
                    forall|m: int| 0 <= m < q@.len() ==> q@[m]@ == qv[m + lo],
                decreases src@.len() - k,
            {
                q.push(src[k].duplicate());
                k = k + 1;
            }
            proof {
                if i == id {
                    assert(events_view(q@) =~= qv.skip(1));
                } else {
                    assert(events_view(q@) =~= qv);
                }
            }
            newqs.push(q);
            i = i + 1;
        }
        self.queues = newqs;
        Some(taken)
    }
}

} // verus!
use vstd::prelude::*;
use crate::RequestId;
use crate::admission::ADMISSION_CAPACITY;
use crate::channel::{bounded_channel, unbounded_channel, send_value, recv_value};
use crate::model::ModelResource;

verus! {

// The caller-facing side of the pipeline: requests, correlation-tagged
// output events, and the per-request collector that filters one request's
// events out of the shared output bus.

/// Relies on uuid::Uuid::new_v4: a freshly drawn random 128-bit identifier.
/// Of a random value nothing is stated.
#[verifier::external_body]
fn fresh_correlation_id() -> (r: RequestId) {
    RequestId(uuid::Uuid::new_v4().as_u128())
}

/// One submitted request: a correlation id drawn at submission time and the
/// input text. Immutable once created.
#[derive(Debug)]
pub struct Prompt {
    pub id: RequestId,
    pub payload: String,
}

impl Prompt {
    /// Build a request around a fresh correlation id.
    pub fn new(payload: String) -> (r: Prompt)
        ensures
            r.payload@ == payload@,
    {
        Prompt { id: fresh_correlation_id(), payload }
    }
}

/// One correlation-tagged event on the output bus: a text fragment of some
/// request's answer, or the terminal marker of that request.
#[derive(Debug)]
pub enum Token {
    Completion { prompt: RequestId, token: String },
    Eos { prompt: RequestId },
}

/// The request an event belongs to.
pub open spec fn event_request(t: Token) -> RequestId {
    match t {
        Token::Completion { prompt, .. } => prompt,
        Token::Eos { prompt } => prompt,
    }
}

/// Whether an event is the terminal marker.
pub open spec fn event_is_eos(t: Token) -> bool {
    match t {
        Token::Completion { .. } => false,
        Token::Eos { .. } => true,
    }
}

/// The text an event carries; empty for the terminal marker.
pub open spec fn event_text(t: Token) -> Seq<char> {
    match t {
        Token::Completion { token, .. } => token@,
        Token::Eos { .. } => Seq::empty(),
    }
}

impl Token {
    /// The id of the request this event belongs to.
    pub fn pid(&self) -> (r: RequestId)
        ensures
            r == event_request(*self),
    {
        match self {
            Token::Eos { prompt } => *prompt,
            Token::Completion { prompt, .. } => *prompt,
        }
    }
}

impl PartialEq for Token {
    fn eq(&self, o: &Token) -> (r: bool) {
        match (self, o) {
            (
                Token::Completion { prompt: a, token: s },
                Token::Completion { prompt: b, token: t },
            ) => a.0 == b.0 && s.eq(t),
            (Token::Eos { prompt: a }, Token::Eos { prompt: b }) => a.0 == b.0,
            _ => false,
        }
    }
}

impl vstd::std_specs::cmp::PartialEqSpecImpl for Token {
    open spec fn obeys_eq_spec() -> bool {
        true
    }

    open spec fn eq_spec(&self, o: &Token) -> bool {
        match (*self, *o) {
            (
                Token::Completion { prompt: a, token: s },
                Token::Completion { prompt: b, token: t },
            ) => a == b && s@ == t@,
            (Token::Eos { prompt: a }, Token::Eos { prompt: b }) => a == b,
            _ => false,
        }
    }
}

impl Eq for Token {

}

/// What one event contributes to the answer of request `id`: its text if it
/// is a fragment of that request, nothing otherwise.
pub open spec fn absorbed_text(id: RequestId, t: Token) -> Seq<char> {
    if event_request(t) == id && !event_is_eos(t) {
        event_text(t)
    } else {
        Seq::empty()
    }
}

/// The answer assembled for request `id` from a bus event sequence: the
/// concatenation of its fragments' texts, read in order, stopping at its
/// terminal marker.
pub open spec fn collected_text(id: RequestId, events: Seq<Token>) -> Seq<char>
    decreases events.len(),
{
    if events.len() == 0 {
        Seq::empty()
    } else if event_request(events[0]) == id && event_is_eos(events[0]) {
        Seq::empty()
    } else {
        absorbed_text(id, events[0]) + collected_text(id, events.drop_first())
    }
}

/// Whether the terminal marker of request `id` occurs in the sequence.
pub open spec fn saw_end(id: RequestId, events: Seq<Token>) -> bool
    decreases events.len(),
{
    if events.len() == 0 {
        false
    } else {
        (event_request(events[0]) == id && event_is_eos(events[0])) || saw_end(
            id,
            events.drop_first(),
        )
    }
}

/// The subsequence of events tagged with `id`, in bus order.
pub open spec fn events_for(id: RequestId, events: Seq<Token>) -> Seq<Token>
    decreases events.len(),
{
    if events.len() == 0 {
        Seq::empty()
    } else if event_request(events[0]) == id {
        seq![events[0]] + events_for(id, events.drop_first())
    } else {
        events_for(id, events.drop_first())
    }
}

/// Correlation isolation: what a reader assembles for its request from the
/// shared bus is exactly what it would assemble from its own request's
/// events alone, in emission order — events of concurrently served requests,
/// however interleaved, contribute nothing.
pub proof fn lemma_correlation_isolation(id: RequestId, events: Seq<Token>)
    ensures
        collected_text(id, events) == collected_text(id, events_for(id, events)),
        saw_end(id, events) == saw_end(id, events_for(id, events)),
    decreases events.len(),
{
    if events.len() == 0 {
    } else {
        let rest = events.drop_first();
        lemma_correlation_isolation(id, rest);
        if event_request(events[0]) == id {
            let own = events_for(id, events);
            assert(own == seq![events[0]] + events_for(id, rest));
            assert(own.len() > 0);
            assert(own[0] == events[0]);
            assert(own.drop_first() =~= events_for(id, rest));
        }
    }
}

/// Per-request client state: filters the shared bus down to one request's
/// answer. Fed one event at a time until its terminal marker arrives.
pub struct ResponseCollector {
    request: RequestId,
    acc: String,
    done: bool,
}

impl ResponseCollector {
    pub closed spec fn request_spec(&self) -> RequestId {
        self.request
    }

    pub closed spec fn acc_view(&self) -> Seq<char> {
        self.acc@
    }

    pub closed spec fn is_done(&self) -> bool {
        self.done
    }

    pub fn new(request: RequestId) -> (r: ResponseCollector)
        ensures
            r.request_spec() == request,
            r.acc_view() == Seq::<char>::empty(),
            !r.is_done(),
    {
        ResponseCollector { request, acc: String::new(), done: false }
    }

    /// Read one bus event: append the text of an own fragment, finish on the
    /// own terminal marker, ignore everything tagged for another request.
    pub fn absorb(&mut self, t: &Token) -> (done: bool)
        requires
            !old(self).is_done(),
        ensures
            final(self).request_spec() == old(self).request_spec(),
            done == final(self).is_done(),
            final(self).is_done() == (event_request(*t) == old(self).request_spec()
                && event_is_eos(*t)),
            final(self).is_done() ==> final(self).acc_view() == old(self).acc_view(),
            !final(self).is_done() ==> final(self).acc_view() == old(self).acc_view()
                + absorbed_text(old(self).request_spec(), *t),
    {
        match t {
            Token::Completion { prompt, token } => {
                if *prompt == self.request {
                    self.acc.append(token.as_str());
                }
            },
            Token::Eos { prompt } => {
                if *prompt == self.request {
                    self.done = true;
                }
            },
        }
        self.done
    }

    /// The answer assembled so far.
    pub fn into_text(self) -> (r: String)
        ensures
            r@ == self.acc_view(),
    {
        self.acc
    }

    /// Assemble an answer from an in-order batch of bus events, exactly as
    /// the event-at-a-time loop would: fragments of `self.request` are
    /// appended until that request's terminal marker.
    pub fn absorb_all(&mut self, events: &Vec<Token>) -> (done: bool)
        requires
            !old(self).is_done(),
        ensures
            final(self).request_spec() == old(self).request_spec(),
            done == final(self).is_done(),
            final(self).acc_view() == old(self).acc_view() + collected_text(
                old(self).request_spec(),
                events@,
            ),
            done == saw_end(old(self).request_spec(), events@),
    {
        let id = Ghost(self.request);
        let n: usize = events.len();
        let mut i: usize = 0;
        proof {
            assert(events@.skip(0) =~= events@);
        }
        while i < n
            invariant
                0 <= i <= n,
                n == events@.len(),
                !self.is_done(),
                self.request_spec() == id@,
                id@ == old(self).request_spec(),
                old(self).acc_view() + collected_text(id@, events@) == self.acc_view()
                    + collected_text(id@, events@.skip(i as int)),
                saw_end(id@, events@) == saw_end(id@, events@.skip(i as int)),
            decreases n - i,
        {
            let ghost pre = events@.skip(i as int);
            proof {
                assert(pre[0] == events@[i as int]);
                assert(pre.drop_first() =~= events@.skip(i as int + 1));
            }
            let done = self.absorb(&events[i]);
            if done {
                return true;
            }
            i = i + 1;
        }
        proof {
            assert(events@.skip(n as int) =~= Seq::<Token>::empty());
        }
        false
    }
}

/// The published, shareable reference to the running dispatcher: the
/// submission endpoint and the output-bus endpoint. Shared by every client;
/// outlives individual requests.
pub struct DriverHandle {
    prompt: crossbeam_channel::Sender<Prompt>,
    token: crossbeam_channel::Receiver<Token>,
}

impl DriverHandle {
    /// Another handle to the same dispatcher, for another client.
    pub fn duplicate(&self) -> DriverHandle {
        DriverHandle { prompt: self.prompt.clone(), token: self.token.clone() }
    }

    /// Submit request text under a fresh correlation id: the id every event
    /// of the answer will carry. Blocks while the admission queue is full;
    /// `None` only when the dispatcher is gone, in which case nothing was
    /// admitted.
    pub fn submit(&self, payload: String) -> (r: Option<RequestId>) {
        let id: RequestId = fresh_correlation_id();
        if send_value(&self.prompt, Prompt { id, payload }) {
            Some(id)
        } else {
            None
        }
    }

    /// Read the next event off the shared output bus, blocking until one
    /// arrives; events of concurrent requests interleave here, and the
    /// caller filters them with a `ResponseCollector`. `None` only when the
    /// dispatcher is gone.
    pub fn receive_event(&self) -> (r: Option<Token>) {
        recv_value(&self.token)
    }
}

/// The dispatcher: sole owner of the model resource at runtime. Takes one
/// request at a time from the admission queue, runs the generation to
/// completion, and publishes its events to the output bus in order; there
/// is no concurrent generation.
pub struct Driver {
    model: ModelResource,
    prompts: crossbeam_channel::Receiver<Prompt>,
    tokens: crossbeam_channel::Sender<Token>,
}

impl Driver {
    pub closed spec fn model_spec(&self) -> ModelResource {
        self.model
    }

    /// Create the dispatcher around the already-loaded model, together with
    /// the handle its clients share. The admission queue is bounded so that
    /// a submission burst cannot exhaust the one shared resource; the
    /// output bus is unbounded so publication never blocks generation.
    pub fn boot(model: ModelResource) -> (r: (Driver, DriverHandle))
        ensures
            r.0.model_spec() == model,
    {
        let (ptx, prx) = bounded_channel::<Prompt>(ADMISSION_CAPACITY);
        let (ttx, trx) = unbounded_channel::<Token>();
        (
            Driver { model, prompts: prx, tokens: ttx },
            DriverHandle { prompt: ptx, token: trx },
        )
    }

    pub fn model(&self) -> (r: ModelResource)
        ensures
            r == self.model_spec(),
    {
        self.model
    }

    /// Block until the admission queue yields the request that has waited
    /// longest. `None` only when every handle is gone.
    pub fn take_request(&self) -> (r: Option<Prompt>) {
        recv_value(&self.prompts)
    }

    /// Publish a completed request's events to the output bus, in order.
    /// `false` when the bus is gone, in which case a suffix of the events
    /// was never delivered.
    pub fn publish(&self, events: Vec<Token>) -> (ok: bool) {
        let mut evs = events;
        while evs.len() > 0
            decreases evs@.len(),
        {
            let e = evs.remove(0);
            if !send_value(&self.tokens, e) {
                return false;
            }
        }
        true
    }
}

} // verus!

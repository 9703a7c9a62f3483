use vstd::prelude::*;
use crate::RequestId;
use crate::driver::{Token, event_request, event_is_eos, event_text, collected_text, saw_end};
use crate::token_stream::{TokenOutputStream, TokenizerError};

verus! {

// The generation engine's control state for one request: the unit budget,
// the end-of-generation test, and the ordered event list built up while the
// host alternates model evaluation with these decisions. The model's forward
// pass and the sampler stay outside; every value they produce passes through
// here and is handled whatever it is.

/// The most units one generation may produce before the budget fallback
/// stops it.
pub const GENERATION_UNIT_BUDGET: u32 = 100;

/// Every event is a fragment of request `id`.
pub open spec fn all_fragments_for(id: RequestId, evs: Seq<Token>) -> bool {
    forall|i: int|
        0 <= i < evs.len() ==> event_request(#[trigger] evs[i]) == id && !event_is_eos(evs[i])
}

/// The event sequence of one completed request: its fragments in generation
/// order, closed by its one terminal marker.
pub open spec fn closed_stream_for(id: RequestId, evs: Seq<Token>) -> bool {
    &&& evs.len() >= 1
    &&& event_request(evs.last()) == id
    &&& event_is_eos(evs.last())
    &&& all_fragments_for(id, evs.drop_last())
}

/// How many terminal markers of request `id` a sequence carries.
pub open spec fn eos_count(id: RequestId, evs: Seq<Token>) -> int
    decreases evs.len(),
{
    if evs.len() == 0 {
        0
    } else {
        eos_count(id, evs.drop_last()) + if event_request(evs.last()) == id && event_is_eos(
            evs.last(),
        ) {
            1 as int
        } else {
            0 as int
        }
    }
}

proof fn lemma_fragments_have_no_eos(id: RequestId, evs: Seq<Token>)
    requires
        all_fragments_for(id, evs),
    ensures
        eos_count(id, evs) == 0,
    decreases evs.len(),
{
    if evs.len() > 0 {
        assert(all_fragments_for(id, evs.drop_last()));
        lemma_fragments_have_no_eos(id, evs.drop_last());
    }
}

/// Exactly one terminal marker: the event sequence of a completed request
/// carries one `Eos` for its id — never zero, never two — wherever the
/// request stopped, a failure immediately after admission included.
pub proof fn lemma_exactly_one_end_of_stream(id: RequestId, evs: Seq<Token>)
    requires
        closed_stream_for(id, evs),
    ensures
        eos_count(id, evs) == 1,
{
    lemma_fragments_have_no_eos(id, evs.drop_last());
}

/// The texts of a fragment run, concatenated in order.
pub open spec fn concat_texts(evs: Seq<Token>) -> Seq<char>
    decreases evs.len(),
{
    if evs.len() == 0 {
        Seq::empty()
    } else {
        event_text(evs[0]) + concat_texts(evs.drop_first())
    }
}

/// A reader that filters the bus for `id` over exactly this request's
/// completed stream assembles the concatenation of the fragments, and does
/// see the terminal marker.
pub proof fn lemma_stream_collects_to_answer(id: RequestId, evs: Seq<Token>)
    requires
        closed_stream_for(id, evs),
    ensures
        collected_text(id, evs) == concat_texts(evs.drop_last()),
        saw_end(id, evs),
    decreases evs.len(),
{
    if evs.len() == 1 {
        assert(evs[0] == evs.last());
        assert(concat_texts(evs.drop_last()) == Seq::<char>::empty());
    } else {
        let rest = evs.drop_first();
        assert(rest.last() == evs.last());
        assert(rest.drop_last() =~= evs.drop_last().drop_first());
        assert(all_fragments_for(id, rest.drop_last())) by {
            assert(forall|i: int|
                0 <= i < rest.drop_last().len() ==> rest.drop_last()[i] == evs.drop_last()[i + 1]);
        }
        lemma_stream_collects_to_answer(id, rest);
        assert(evs.drop_last()[0] == evs[0]);
        assert(event_request(evs[0]) == id && !event_is_eos(evs[0]));
        assert(collected_text(id, evs) == event_text(evs[0]) + collected_text(id, rest));
        assert(concat_texts(evs.drop_last()) == event_text(evs[0]) + concat_texts(
            evs.drop_last().drop_first(),
        ));
    }
}

/// Per-request engine state: owned by the dispatcher for the duration of one
/// generation, discarded afterwards.
pub struct GenerationSession {
    request: RequestId,
    events: Vec<Token>,
    budget: u32,
    eos_unit: u32,
    closed: bool,
}

impl GenerationSession {
    pub closed spec fn request_spec(&self) -> RequestId {
        self.request
    }

    pub closed spec fn events_seq(&self) -> Seq<Token> {
        self.events@
    }

    pub closed spec fn budget_spec(&self) -> u32 {
        self.budget
    }

    pub closed spec fn eos_unit_spec(&self) -> u32 {
        self.eos_unit
    }

    pub closed spec fn is_closed(&self) -> bool {
        self.closed
    }

    pub open spec fn wf(&self) -> bool {
        if self.is_closed() {
            closed_stream_for(self.request_spec(), self.events_seq())
        } else {
            all_fragments_for(self.request_spec(), self.events_seq())
        }
    }

    /// A fresh session: no events yet, the full unit budget, stopping on
    /// `eos_unit`.
    pub fn new(request: RequestId, eos_unit: u32) -> (r: GenerationSession)
        ensures
            r.wf(),
            !r.is_closed(),
            r.request_spec() == request,
            r.events_seq() == Seq::<Token>::empty(),
            r.budget_spec() == GENERATION_UNIT_BUDGET,
            r.eos_unit_spec() == eos_unit,
    {
        GenerationSession {
            request,
            events: Vec::new(),
            budget: GENERATION_UNIT_BUDGET,
            eos_unit,
            closed: false,
        }
    }

    /// Whether the budget still admits another unit.
    pub fn can_continue(&self) -> (r: bool)
        ensures
            r == (self.budget_spec() > 0),
    {
        self.budget > 0
    }

    /// Account one sampled unit against the budget and decide whether it
    /// ends the generation. The end-of-generation unit stops the loop and
    /// yields no fragment.
    pub fn accept_unit(&mut self, unit: u32) -> (stop: bool)
        requires
            old(self).wf(),
            !old(self).is_closed(),
            old(self).budget_spec() > 0,
        ensures
            final(self).wf(),
            !final(self).is_closed(),
            final(self).request_spec() == old(self).request_spec(),
            final(self).eos_unit_spec() == old(self).eos_unit_spec(),
            final(self).events_seq() == old(self).events_seq(),
            final(self).budget_spec() == old(self).budget_spec() - 1,
            stop == (unit == old(self).eos_unit_spec()),
    {
        self.budget = self.budget - 1;
        unit == self.eos_unit
    }

    /// Record one stable fragment of the answer, in generation order.
    pub fn push_fragment(&mut self, text: String)
        requires
            old(self).wf(),
            !old(self).is_closed(),
        ensures
            final(self).wf(),
            !final(self).is_closed(),
            final(self).request_spec() == old(self).request_spec(),
            final(self).eos_unit_spec() == old(self).eos_unit_spec(),
            final(self).budget_spec() == old(self).budget_spec(),
            final(self).events_seq() == old(self).events_seq().push(
                Token::Completion { prompt: old(self).request_spec(), token: text },
            ),
    {
        let prompt = self.request;
        self.events.push(Token::Completion { prompt, token: text });
    }

    /// Close the stream: append the final withheld fragment, when the
    /// decoder released one, and then the one terminal marker. Every path
    /// out of a generation — natural end, budget exhaustion, or any
    /// per-request failure — ends here, so a terminal marker is emitted no
    /// matter how the generation went.
    pub fn finish(&mut self, rest: Option<String>)
        requires
            old(self).wf(),
            !old(self).is_closed(),
        ensures
            final(self).wf(),
            final(self).is_closed(),
            final(self).request_spec() == old(self).request_spec(),
            match rest {
                Some(t) => final(self).events_seq() == old(self).events_seq().push(
                    Token::Completion { prompt: old(self).request_spec(), token: t },
                ).push(Token::Eos { prompt: old(self).request_spec() }),
                None => final(self).events_seq() == old(self).events_seq().push(
                    Token::Eos { prompt: old(self).request_spec() },
                ),
            },
    {
        let prompt = self.request;
        match rest {
            Some(t) => {
                self.events.push(Token::Completion { prompt, token: t });
            },
            None => {},
        }
        self.events.push(Token::Eos { prompt });
        self.closed = true;
        proof {
            assert(self.events@.drop_last() =~= self.events@.subrange(
                0,
                self.events@.len() - 1,
            ));
            assert(forall|i: int|
                0 <= i < self.events@.len() - 1 ==> self.events@.drop_last()[i] == self.events@[i]);
        }
    }

    /// One generation step, after the host has sampled `unit`: account it
    /// against the budget and stop on the end-of-generation unit (which
    /// yields no fragment); otherwise run the incremental decoder on it and
    /// record the stable fragment it may release.
    pub fn advance(&mut self, stream: &mut TokenOutputStream, unit: u32) -> (r: Result<
        bool,
        TokenizerError,
    >)
        requires
            old(self).wf(),
            !old(self).is_closed(),
            old(self).budget_spec() > 0,
            old(stream).wf(),
        ensures
            final(self).wf(),
            final(stream).wf(),
            !final(self).is_closed(),
            final(self).request_spec() == old(self).request_spec(),
            final(self).eos_unit_spec() == old(self).eos_unit_spec(),
            final(self).budget_spec() == old(self).budget_spec() - 1,
            r matches Ok(stop) ==> stop == (unit == old(self).eos_unit_spec()),
            unit == old(self).eos_unit_spec() ==> r matches Ok(true),
            r matches Ok(true) ==> {
                &&& final(self).events_seq() == old(self).events_seq()
                &&& final(stream).units_seq() == old(stream).units_seq()
            },
            r matches Ok(false) ==> {
                &&& final(stream).units_seq() == old(stream).units_seq().push(unit)
                &&& (final(self).events_seq() == old(self).events_seq() <==> final(stream).committed_ix()
                    == old(stream).committed_ix())
                &&& (final(self).events_seq() != old(self).events_seq() ==> {
                    &&& (exists|t: String|
                        final(self).events_seq() == old(self).events_seq().push(
                            Token::Completion { prompt: old(self).request_spec(), token: t },
                        ))
                    &&& final(stream).stable_ix() == old(stream).committed_ix()
                    &&& final(stream).committed_ix() == old(stream).units_seq().len() + 1
                })
            },
            r is Err ==> final(self).events_seq() == old(self).events_seq(),
    {
        if self.accept_unit(unit) {
            return Ok(true);
        }
        match stream.next_token(unit) {
            Ok(Some(fragment)) => {
                let ghost t = fragment;
                self.push_fragment(fragment);
                proof {
                    assert(self.events_seq() == old(self).events_seq().push(
                        Token::Completion { prompt: old(self).request_spec(), token: t },
                    ));
                    assert(self.events_seq().len() == old(self).events_seq().len() + 1);
                }
                Ok(false)
            },
            Ok(None) => Ok(false),
            Err(e) => Err(e),
        }
    }

    /// Hand the completed stream to the dispatcher for publication.
    pub fn into_events(self) -> (r: Vec<Token>)
        requires
            self.wf(),
            self.is_closed(),
        ensures
            r@ == self.events_seq(),
            closed_stream_for(self.request_spec(), r@),
    {
        self.events
    }
}

} // verus!

use vstd::prelude::*;
use crate::driver::Prompt;

verus! {

// Admission control: a bounded first-in-first-out queue of requests waiting
// for the single worker. The bound protects the one shared model resource
// from submission bursts; it limits how many requests may be waiting, not
// how many run (execution is always one at a time). A submission that finds
// the queue full is not dropped and not reordered: the caller holds on to it
// and must stay blocked until a slot frees.
//
// At runtime the dispatcher realizes this discipline with a bounded channel;
// this model is the queue those channel contracts describe, and the
// admission laws are proved of it.

/// How many requests may be queued for the worker at once before further
/// submissions must wait.
pub const ADMISSION_CAPACITY: usize = 2;

/// The outcome of one submission attempt: admitted to the queue, or handed
/// back because the queue is full and the caller must wait for a free slot.
#[derive(Debug)]
pub enum Admission {
    Queued,
    MustWait(Prompt),
}

/// What the queue holds after a submission attempt.
pub open spec fn queued_after_submit(items: Seq<Prompt>, cap: nat, p: Prompt) -> Seq<Prompt> {
    if items.len() < cap {
        items.push(p)
    } else {
        items
    }
}

/// Whether a submission attempt must wait: exactly when the queue is full.
pub open spec fn submit_waits(items: Seq<Prompt>, cap: nat) -> bool {
    items.len() >= cap
}

pub struct AdmissionQueue {
    items: Vec<Prompt>,
    cap: usize,
}

impl AdmissionQueue {
    pub closed spec fn items_seq(&self) -> Seq<Prompt> {
        self.items@
    }

    pub closed spec fn cap_spec(&self) -> nat {
        self.cap as nat
    }

    pub open spec fn wf(&self) -> bool {
        self.items_seq().len() <= self.cap_spec() && self.cap_spec() >= 1
    }

    pub fn new(cap: usize) -> (r: AdmissionQueue)
        requires
            cap >= 1,
        ensures
            r.wf(),
            r.items_seq() == Seq::<Prompt>::empty(),
            r.cap_spec() == cap as nat,
    {
        AdmissionQueue { items: Vec::new(), cap }
    }

    pub fn is_full(&self) -> (r: bool)
        ensures
            r == submit_waits(self.items_seq(), self.cap_spec()),
    {
        self.items.len() >= self.cap
    }

    pub fn waiting(&self) -> (r: usize)
        ensures
            r == self.items_seq().len(),
    {
        self.items.len()
    }

    /// One submission attempt. A full queue hands the request back untouched
    /// — nothing is dropped — and the caller must wait; otherwise the
    /// request takes its place at the tail.
    pub fn submit(&mut self, p: Prompt) -> (r: Admission)
        requires
            old(self).wf(),
        ensures
            final(self).wf(),
            final(self).cap_spec() == old(self).cap_spec(),
            final(self).items_seq() == queued_after_submit(
                old(self).items_seq(),
                old(self).cap_spec(),
                p,
            ),
            !submit_waits(old(self).items_seq(), old(self).cap_spec()) ==> r is Queued,
            submit_waits(old(self).items_seq(), old(self).cap_spec()) ==> (r matches Admission::MustWait(
                q,
            ) && q == p),
    {
        if self.items.len() < self.cap {
            self.items.push(p);
            Admission::Queued
        } else {
            Admission::MustWait(p)
        }
    }

    /// The worker takes the request that has waited longest: the head of the
    /// queue, freeing one slot.
    pub fn take_next(&mut self) -> (r: Option<Prompt>)
        requires
            old(self).wf(),
        ensures
            final(self).wf(),
            final(self).cap_spec() == old(self).cap_spec(),
            old(self).items_seq().len() == 0 ==> (r is None && final(self).items_seq() == old(
                self,
            ).items_seq()),
            old(self).items_seq().len() > 0 ==> (r matches Some(p) && p == old(self).items_seq()[0]
                && final(self).items_seq() == old(self).items_seq().drop_first()),
    {
        if self.items.len() == 0 {
            None
        } else {
            let p = self.items.remove(0);
            proof {
                assert(self.items@ =~= old(self).items@.drop_first());
            }
            Some(p)
        }
    }
}

/// First-in-first-out admission. With capacity one: the first submission is
/// admitted at once; a second, made while the first still waits for the
/// worker, must wait — it is handed back, not dropped; the worker admits the
/// first-submitted request first; only then does the second submission go
/// through, and a third must in turn wait behind it.
pub proof fn lemma_fifo_admission(r1: Prompt, r2: Prompt, r3: Prompt)
    ensures
        !submit_waits(Seq::<Prompt>::empty(), 1),
        queued_after_submit(Seq::<Prompt>::empty(), 1, r1) == seq![r1],
        submit_waits(seq![r1], 1),
        queued_after_submit(seq![r1], 1, r2) == seq![r1],
        seq![r1][0] == r1 && seq![r1].drop_first() == Seq::<Prompt>::empty(),
        queued_after_submit(seq![r1].drop_first(), 1, r2) == seq![r2],
        submit_waits(seq![r2], 1),
        queued_after_submit(seq![r2], 1, r3) == seq![r2],
        seq![r2][0] == r2,
{
    assert(queued_after_submit(Seq::<Prompt>::empty(), 1, r1) =~= seq![r1]);
    assert(seq![r1].drop_first() =~= Seq::<Prompt>::empty());
    assert(queued_after_submit(seq![r1].drop_first(), 1, r2) =~= seq![r2]);
}

} // verus!

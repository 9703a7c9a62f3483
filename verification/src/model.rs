use vstd::prelude::*;

verus! {

// The one expensive-to-load model resource. Loading happens at most once in
// a process: the first acquisition stores the loaded handle, every later one
// returns the stored handle untouched. There is no unload. The cell is the
// single-execution guard's state; at runtime the host serializes concurrent
// first calls through its synchronized-once primitive, so every interleaving
// of acquisitions is some sequential order of these transitions.

/// A reference to the loaded model. The model's contents are opaque to this
/// library; the tag identifies one loaded instance, and the host resolves it
/// to the actual weights.
#[derive(Clone, Copy, PartialEq, Eq, Structural, Debug)]
pub struct ModelResource {
    pub tag: u64,
}

/// The slot after one acquisition that would load `fresh` if the slot were
/// empty: an occupied slot is never replaced.
pub open spec fn slot_after_acquire(
    slot: Option<ModelResource>,
    fresh: ModelResource,
) -> Option<ModelResource> {
    if slot is Some {
        slot
    } else {
        Some(fresh)
    }
}

/// What that acquisition returns: the already-stored resource, or the one
/// just loaded.
pub open spec fn acquire_result(slot: Option<ModelResource>, fresh: ModelResource) -> ModelResource {
    if slot is Some {
        slot->0
    } else {
        fresh
    }
}

/// The slot after a whole sequence of acquisitions against an initially
/// empty cell, the i-th of which would load `cands[i]`.
pub open spec fn slot_after_calls(cands: Seq<ModelResource>) -> Option<ModelResource>
    decreases cands.len(),
{
    if cands.len() == 0 {
        None
    } else {
        slot_after_acquire(slot_after_calls(cands.drop_last()), cands.last())
    }
}

/// How many of those acquisitions actually loaded.
pub open spec fn loads_after_calls(cands: Seq<ModelResource>) -> int
    decreases cands.len(),
{
    if cands.len() == 0 {
        0
    } else {
        loads_after_calls(cands.drop_last()) + if slot_after_calls(cands.drop_last()) is Some {
            0 as int
        } else {
            1 as int
        }
    }
}

/// Idempotent resource load: any number of acquisitions against one fresh
/// cell perform exactly one load — the first — and every one of them
/// returns that first resource.
pub proof fn lemma_single_load(cands: Seq<ModelResource>)
    requires
        cands.len() >= 1,
    ensures
        slot_after_calls(cands) == Some(cands[0]),
        loads_after_calls(cands) == 1,
    decreases cands.len(),
{
    if cands.len() == 1 {
        assert(cands.drop_last().len() == 0);
        assert(slot_after_calls(cands.drop_last()) is None);
        assert(loads_after_calls(cands.drop_last()) == 0);
    } else {
        lemma_single_load(cands.drop_last());
        assert(cands.drop_last()[0] == cands[0]);
    }
}

/// The single-execution guard's state: the stored resource, if any, and how
/// many loads have ever run.
pub struct ResourceCell {
    slot: Option<ModelResource>,
    loads: u64,
}

impl ResourceCell {
    pub closed spec fn slot_spec(&self) -> Option<ModelResource> {
        self.slot
    }

    pub closed spec fn loads_spec(&self) -> int {
        self.loads as int
    }

    pub open spec fn wf(&self) -> bool {
        self.loads_spec() == if self.slot_spec() is Some {
            1 as int
        } else {
            0 as int
        }
    }

    pub fn new() -> (r: ResourceCell)
        ensures
            r.wf(),
            r.slot_spec() is None,
            r.loads_spec() == 0,
    {
        ResourceCell { slot: None, loads: 0 }
    }

    /// Acquire the resource, loading `fresh` only if no load ever ran.
    /// Idempotent: once the slot holds a resource, every call returns it and
    /// the load count never moves again.
    pub fn get_or_load(&mut self, fresh: ModelResource) -> (r: ModelResource)
        requires
            old(self).wf(),
        ensures
            final(self).wf(),
            final(self).slot_spec() == slot_after_acquire(old(self).slot_spec(), fresh),
            r == acquire_result(old(self).slot_spec(), fresh),
            final(self).loads_spec() == if old(self).slot_spec() is Some {
                old(self).loads_spec()
            } else {
                old(self).loads_spec() + 1
            },
    {
        match self.slot {
            Some(r) => r,
            None => {
                self.slot = Some(fresh);
                self.loads = self.loads + 1;
                fresh
            },
        }
    }

    /// The resource, if one was ever loaded.
    pub fn current(&self) -> (r: Option<ModelResource>)
        ensures
            r == self.slot_spec(),
    {
        self.slot
    }

    /// How many loads have ever run: never more than one.
    pub fn loads(&self) -> (r: u64)
        ensures
            r == self.loads_spec(),
    {
        self.loads
    }
}

} // verus!

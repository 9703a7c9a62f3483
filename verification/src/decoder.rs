use vstd::prelude::*;
use vstd::string::*;

verus! {

// The incremental decoder turns a growing list of vocabulary-unit ids into
// text fragments that are safe to show: a fragment, once emitted, is never
// retracted or rewritten by later units.
//
// The decoder itself never decodes: the caller decodes the two windows it
// designates (the committed window and the open window) and hands the texts
// in. All decisions about what to emit and how the boundaries move are made
// here and are fully specified.

/// Whether a character counts as alphanumeric, as the Unicode tables have it.
pub uninterp spec fn spec_alphanumeric(c: char) -> bool;

/// Relies on char::is_alphanumeric; the result depends on the character alone.
#[verifier::external_body]
fn char_alphanumeric(c: char) -> (r: bool)
    ensures
        r == spec_alphanumeric(c),
{
    c.is_alphanumeric()
}

/// The boundary is considered stable when the open window's text has grown
/// past the committed text and ends in an alphanumeric character.
pub open spec fn step_emits(prev: Seq<char>, cur: Seq<char>) -> bool {
    cur.len() > prev.len() && spec_alphanumeric(cur[cur.len() - 1])
}

/// The fragment released by a stable step: what the open text adds beyond
/// the committed text's length.
pub open spec fn step_fragment(prev: Seq<char>, cur: Seq<char>) -> Seq<char> {
    cur.skip(prev.len() as int)
}

/// The final flush releases the withheld text whenever there is any,
/// with no stability condition.
pub open spec fn flush_emits(prev: Seq<char>, cur: Seq<char>) -> bool {
    cur.len() > prev.len()
}

pub open spec fn flush_fragment(prev: Seq<char>, cur: Seq<char>) -> Seq<char> {
    cur.skip(prev.len() as int)
}

/// Two cursors into the list of units generated so far. Text for
/// `[stable, committed)` has been emitted except for its most recent part;
/// units in `[committed, len)` are held pending further context.
pub struct StreamDecoder {
    units: Vec<u32>,
    stable: usize,
    committed: usize,
}

impl StreamDecoder {
    pub closed spec fn units_seq(&self) -> Seq<u32> {
        self.units@
    }

    pub closed spec fn stable_ix(&self) -> int {
        self.stable as int
    }

    pub closed spec fn committed_ix(&self) -> int {
        self.committed as int
    }

    pub open spec fn wf(&self) -> bool {
        0 <= self.stable_ix() <= self.committed_ix() <= self.units_seq().len()
    }

    pub fn new() -> (r: StreamDecoder)
        ensures
            r.wf(),
            r.units_seq() == Seq::<u32>::empty(),
            r.stable_ix() == 0,
            r.committed_ix() == 0,
    {
        StreamDecoder { units: Vec::new(), stable: 0, committed: 0 }
    }

    /// The units whose decoded text has been accounted for: `[stable, committed)`.
    pub fn held_window(&self) -> (r: &[u32])
        requires
            self.wf(),
        ensures
            r@ == self.units_seq().subrange(self.stable_ix(), self.committed_ix()),
    {
        vstd::slice::slice_subrange(self.units.as_slice(), self.stable, self.committed)
    }

    /// All units not yet released by an emission: `[stable, len)`.
    pub fn open_window(&self) -> (r: &[u32])
        requires
            self.wf(),
        ensures
            r@ == self.units_seq().subrange(self.stable_ix(), self.units_seq().len() as int),
    {
        vstd::slice::slice_subrange(self.units.as_slice(), self.stable, self.units.len())
    }

    pub fn unit_count(&self) -> (r: usize)
        ensures
            r == self.units_seq().len(),
    {
        self.units.len()
    }

    pub fn all_units(&self) -> (r: &[u32])
        ensures
            r@ == self.units_seq(),
    {
        self.units.as_slice()
    }

    /// Record one more generated unit; the boundaries do not move until
    /// `decide` sees the decoded windows.
    pub fn append_unit(&mut self, unit: u32)
        requires
            old(self).wf(),
        ensures
            final(self).wf(),
            final(self).units_seq() == old(self).units_seq().push(unit),
            final(self).stable_ix() == old(self).stable_ix(),
            final(self).committed_ix() == old(self).committed_ix(),
    {
        self.units.push(unit);
    }

    /// The emission decision. `prev_text` must be the caller's decode of the
    /// held window as it was before the latest `append_unit`, and `text` the
    /// decode of the open window including that unit; the contract states
    /// what happens for whatever texts are supplied.
    pub fn decide(&mut self, prev_text: &str, text: &str) -> (r: Option<String>)
        requires
            old(self).wf(),
        ensures
            final(self).wf(),
            final(self).units_seq() == old(self).units_seq(),
            step_emits(prev_text@, text@) ==> {
                &&& r matches Some(f) && f@ == step_fragment(prev_text@, text@)
                &&& final(self).stable_ix() == old(self).committed_ix()
                &&& final(self).committed_ix() == old(self).units_seq().len()
            },
            !step_emits(prev_text@, text@) ==> {
                &&& r is None
                &&& final(self).stable_ix() == old(self).stable_ix()
                &&& final(self).committed_ix() == old(self).committed_ix()
            },
    {
        let plen: usize = prev_text.unicode_len();
        let tlen: usize = text.unicode_len();
        if tlen > plen {
            let last: char = text.get_char(tlen - 1);
            if char_alphanumeric(last) {
                let frag: &str = text.substring_char(plen, tlen);
                self.stable = self.committed;
                self.committed = self.units.len();
                proof {
                    assert(frag@ =~= step_fragment(prev_text@, text@));
                }
                return Some(frag.to_owned());
            }
        }
        None
    }

    /// The final release of withheld text, decided from the caller's decode
    /// of the held window and of the open window. Reads the cursors only
    /// through the supplied texts, and moves nothing.
    pub fn remainder(prev_text: &str, text: &str) -> (r: Option<String>)
        ensures
            flush_emits(prev_text@, text@) ==> (r matches Some(f) && f@ == flush_fragment(
                prev_text@,
                text@,
            )),
            !flush_emits(prev_text@, text@) ==> r is None,
    {
        let plen: usize = prev_text.unicode_len();
        let tlen: usize = text.unicode_len();
        if tlen > plen {
            let frag: &str = text.substring_char(plen, tlen);
            proof {
                assert(frag@ =~= flush_fragment(prev_text@, text@));
            }
            Some(frag.to_owned())
        } else {
            None
        }
    }

    /// Forget all units and start over on an empty list.
    pub fn reset(&mut self)
        ensures
            final(self).wf(),
            final(self).units_seq() == Seq::<u32>::empty(),
            final(self).stable_ix() == 0,
            final(self).committed_ix() == 0,
    {
        self.units.clear();
        self.stable = 0;
        self.committed = 0;
    }
}

// A ghost replay of a whole decoding run against an arbitrary decode
// function `d`. The executable decoder's `decide` and `remainder` follow
// exactly the `step_emits` / `step_fragment` / `flush_emits` /
// `flush_fragment` rules used here, so this model is the decoder run in
// which the caller decodes every window with `d`.

pub ghost struct DecoderModel {
    pub units: Seq<u32>,
    pub stable: int,
    pub committed: int,
    pub emitted: Seq<char>,
}

pub open spec fn model_init() -> DecoderModel {
    DecoderModel { units: Seq::empty(), stable: 0, committed: 0, emitted: Seq::empty() }
}

pub open spec fn model_wf(m: DecoderModel) -> bool {
    0 <= m.stable <= m.committed <= m.units.len()
}

/// One `append_unit` followed by `decide`, with both windows decoded by `d`.
pub open spec fn model_step(d: spec_fn(Seq<u32>) -> Seq<char>, m: DecoderModel, unit: u32) -> DecoderModel {
    let prev = d(m.units.subrange(m.stable, m.committed));
    let units2 = m.units.push(unit);
    let cur = d(units2.subrange(m.stable, units2.len() as int));
    if step_emits(prev, cur) {
        DecoderModel {
            units: units2,
            stable: m.committed,
            committed: units2.len() as int,
            emitted: m.emitted + step_fragment(prev, cur),
        }
    } else {
        DecoderModel { units: units2, stable: m.stable, committed: m.committed, emitted: m.emitted }
    }
}

/// The whole run: every unit fed one at a time into a fresh decoder.
pub open spec fn model_run(d: spec_fn(Seq<u32>) -> Seq<char>, units: Seq<u32>) -> DecoderModel
    decreases units.len(),
{
    if units.len() == 0 {
        model_init()
    } else {
        model_step(d, model_run(d, units.drop_last()), units.last())
    }
}

/// Everything the run emits, the final flush (`remainder`) included.
pub open spec fn model_flush(d: spec_fn(Seq<u32>) -> Seq<char>, m: DecoderModel) -> Seq<char> {
    let prev = d(m.units.subrange(m.stable, m.committed));
    let cur = d(m.units.subrange(m.stable, m.units.len() as int));
    if flush_emits(prev, cur) {
        m.emitted + flush_fragment(prev, cur)
    } else {
        m.emitted
    }
}

/// A decode function under which decoding a concatenation is the
/// concatenation of the decodings. Unit-to-text decoders whose output is
/// assembled piecewise from per-unit text have this shape; the equivalence
/// law below holds for exactly these.
pub open spec fn additive(d: spec_fn(Seq<u32>) -> Seq<char>) -> bool {
    forall|a: Seq<u32>, b: Seq<u32>| #[trigger] d(a + b) == d(a) + d(b)
}

proof fn lemma_additive_empty(d: spec_fn(Seq<u32>) -> Seq<char>)
    requires
        additive(d),
    ensures
        d(Seq::<u32>::empty()) == Seq::<char>::empty(),
{
    let e = Seq::<u32>::empty();
    assert(e + e =~= e);
    assert(d(e + e) == d(e) + d(e));
    assert(d(e) =~= Seq::<char>::empty());
}

/// An additive decode splits over any cut of a subrange.
proof fn lemma_additive_split(d: spec_fn(Seq<u32>) -> Seq<char>, s: Seq<u32>, i: int, j: int, k: int)
    requires
        additive(d),
        0 <= i <= j <= k <= s.len(),
    ensures
        d(s.subrange(i, k)) == d(s.subrange(i, j)) + d(s.subrange(j, k)),
{
    assert(s.subrange(i, j) + s.subrange(j, k) =~= s.subrange(i, k));
    assert(d(s.subrange(i, j) + s.subrange(j, k)) == d(s.subrange(i, j)) + d(s.subrange(j, k)));
}

/// Run invariant: what a run has emitted is exactly the decode of the
/// committed prefix.
proof fn lemma_run_invariant(d: spec_fn(Seq<u32>) -> Seq<char>, units: Seq<u32>)
    requires
        additive(d),
    ensures
        model_wf(model_run(d, units)),
        model_run(d, units).units == units,
        model_run(d, units).emitted == d(units.subrange(0, model_run(d, units).committed)),
    decreases units.len(),
{
    if units.len() == 0 {
        lemma_additive_empty(d);
        assert(units.subrange(0, 0) =~= Seq::<u32>::empty());
    } else {
        let head = units.drop_last();
        let u = units.last();
        lemma_run_invariant(d, head);
        let m = model_run(d, head);
        let units2 = m.units.push(u);
        assert(units2 =~= units);
        let s = m.stable;
        let c = m.committed;
        let n = head.len() as int;
        let prev = d(m.units.subrange(s, c));
        let cur = d(units2.subrange(s, n + 1));
        // The committed window is unchanged by the push.
        assert(units2.subrange(s, c) =~= m.units.subrange(s, c));
        if step_emits(prev, cur) {
            // cur == prev + (decode of the units beyond the old committed point)
            lemma_additive_split(d, units2, s, c, n + 1);
            assert(cur == prev + d(units2.subrange(c, n + 1)));
            assert(step_fragment(prev, cur) =~= d(units2.subrange(c, n + 1)));
            // old emitted is the decode of the committed prefix; append the new piece
            assert(head.subrange(0, c) =~= units2.subrange(0, c));
            lemma_additive_split(d, units2, 0, c, n + 1);
            assert(units2.subrange(0, n + 1) =~= units2);
        } else {
            assert(head.subrange(0, c) =~= units.subrange(0, c));
        }
    }
}

/// Decoder equivalence: feeding any unit sequence one at a time into a fresh
/// decoder and flushing at the end emits, in concatenation, exactly the
/// one-shot decode of the whole sequence — for every additive decode
/// function. (For a decode that is not additive, an already-emitted fragment
/// could be contradicted by later units, and no decoder that never retracts
/// text can achieve equivalence.)
pub proof fn lemma_stream_decode_equivalence(d: spec_fn(Seq<u32>) -> Seq<char>, units: Seq<u32>)
    requires
        additive(d),
    ensures
        model_flush(d, model_run(d, units)) == d(units),
{
    lemma_run_invariant(d, units);
    let m = model_run(d, units);
    let s = m.stable;
    let c = m.committed;
    let n = m.units.len() as int;
    let prev = d(m.units.subrange(s, c));
    let cur = d(m.units.subrange(s, n));
    lemma_additive_split(d, m.units, s, c, n);
    assert(cur == prev + d(m.units.subrange(c, n)));
    lemma_additive_split(d, m.units, 0, c, n);
    assert(m.units.subrange(0, n) =~= units);
    if flush_emits(prev, cur) {
        assert(flush_fragment(prev, cur) =~= d(m.units.subrange(c, n)));
    } else {
        assert(d(m.units.subrange(c, n)).len() == 0);
        assert(d(m.units.subrange(c, n)) =~= Seq::<char>::empty());
        assert(d(units) =~= m.emitted);
    }
}

} // verus!

use vstd::prelude::*;
use crate::decoder::{StreamDecoder, step_emits, step_fragment, flush_emits, flush_fragment};

verus! {

// A wrapper around a tokenizer so that generated units can be returned to
// the caller as a stream of stable text fragments rather than only after the
// full decoding. The emission decisions live in `crate::decoder` and are
// fully verified; the tokenizer itself is called through trusted wrappers,
// and every decision is stated over whatever text those calls return.

#[verifier::external_type_specification]
#[verifier::external_body]
pub struct ExTokenizer(tokenizers::Tokenizer);

/// Why a call into the tokenizer failed.
#[derive(Clone, Copy, Debug, PartialEq, Eq, Structural)]
pub enum TokenizerError {
    /// Unit ids could not be decoded into text.
    Decode,
    /// Input text could not be encoded into unit ids.
    Encode,
}

/// Relies on tokenizers::Tokenizer::decode: turns unit ids back into text.
/// What text comes back depends on the vocabulary the tokenizer was loaded
/// with, so nothing is stated of it; callers handle every possible string.
#[verifier::external_body]
fn decode_units(t: &tokenizers::Tokenizer, ids: &[u32]) -> (r: Result<String, TokenizerError>) {
    match t.decode(ids, true) {
        Ok(s) => Ok(s),
        Err(_) => Err(TokenizerError::Decode),
    }
}

/// Relies on tokenizers::Tokenizer::encode: turns text into unit ids, which
/// depend on the loaded vocabulary; nothing is stated of them.
#[verifier::external_body]
fn encode_text(t: &tokenizers::Tokenizer, text: &str) -> (r: Result<Vec<u32>, TokenizerError>) {
    match t.encode(text, false) {
        Ok(e) => Ok(e.get_ids().to_vec()),
        Err(_) => Err(TokenizerError::Encode),
    }
}

/// Relies on tokenizers::Tokenizer::get_vocab: looks a token string up in
/// the vocabulary, `None` when the vocabulary has no such token.
#[verifier::external_body]
fn vocab_id(t: &tokenizers::Tokenizer, token_s: &str) -> (r: Option<u32>) {
    t.get_vocab(true).get(token_s).copied()
}

/// A tokenizer together with the two-cursor decoder state for one request.
pub struct TokenOutputStream {
    tokenizer: tokenizers::Tokenizer,
    stream: StreamDecoder,
}

impl TokenOutputStream {
    pub closed spec fn units_seq(&self) -> Seq<u32> {
        self.stream.units_seq()
    }

    pub closed spec fn stable_ix(&self) -> int {
        self.stream.stable_ix()
    }

    pub closed spec fn committed_ix(&self) -> int {
        self.stream.committed_ix()
    }

    pub open spec fn wf(&self) -> bool {
        0 <= self.stable_ix() <= self.committed_ix() <= self.units_seq().len()
    }

    pub fn new(tokenizer: tokenizers::Tokenizer) -> (r: TokenOutputStream)
        ensures
            r.wf(),
            r.units_seq() == Seq::<u32>::empty(),
    {
        TokenOutputStream { tokenizer, stream: StreamDecoder::new() }
    }

    pub fn into_inner(self) -> tokenizers::Tokenizer {
        self.tokenizer
    }

    /// Record one generated unit and decide whether a new stable fragment
    /// can be released. The fragment, when there is one, is what the open
    /// window's text adds beyond the held window's text.
    pub fn next_token(&mut self, token: u32) -> (r: Result<Option<String>, TokenizerError>)
        requires
            old(self).wf(),
        ensures
            final(self).wf(),
            r is Ok ==> final(self).units_seq() == old(self).units_seq().push(token),
            r matches Ok(Some(f)) ==> {
                &&& final(self).stable_ix() == old(self).committed_ix()
                &&& final(self).committed_ix() == old(self).units_seq().len() + 1
                &&& exists|p: Seq<char>, t: Seq<char>| step_emits(p, t) && f@ == step_fragment(p, t)
            },
            r matches Ok(None) ==> {
                &&& final(self).stable_ix() == old(self).stable_ix()
                &&& final(self).committed_ix() == old(self).committed_ix()
            },
            r is Err ==> {
                &&& final(self).stable_ix() == old(self).stable_ix()
                &&& final(self).committed_ix() == old(self).committed_ix()
                &&& (final(self).units_seq() == old(self).units_seq() || final(self).units_seq()
                    == old(self).units_seq().push(token))
            },
    {
        let prev_text: String = if self.stream.unit_count() == 0 {
            String::new()
        } else {
            match decode_units(&self.tokenizer, self.stream.held_window()) {
                Ok(s) => s,
                Err(e) => {
                    return Err(e);
                },
            }
        };
        self.stream.append_unit(token);
        let text: String = match decode_units(&self.tokenizer, self.stream.open_window()) {
            Ok(s) => s,
            Err(e) => {
                return Err(e);
            },
        };
        Ok(self.stream.decide(prev_text.as_str(), text.as_str()))
    }

    /// Release the withheld text, if any; the one place where an unstable
    /// boundary is emitted. Called once at the very end of a generation.
    pub fn decode_rest(&self) -> (r: Result<Option<String>, TokenizerError>)
        requires
            self.wf(),
        ensures
            r matches Ok(Some(f)) ==> exists|p: Seq<char>, t: Seq<char>|
                flush_emits(p, t) && f@ == flush_fragment(p, t),
    {
        let prev_text: String = if self.stream.unit_count() == 0 {
            String::new()
        } else {
            match decode_units(&self.tokenizer, self.stream.held_window()) {
                Ok(s) => s,
                Err(e) => {
                    return Err(e);
                },
            }
        };
        let text: String = match decode_units(&self.tokenizer, self.stream.open_window()) {
            Ok(s) => s,
            Err(e) => {
                return Err(e);
            },
        };
        Ok(StreamDecoder::remainder(prev_text.as_str(), text.as_str()))
    }

    /// One-shot decode of every unit recorded so far.
    pub fn decode_all(&self) -> (r: Result<String, TokenizerError>)
        requires
            self.wf(),
    {
        decode_units(&self.tokenizer, self.stream.all_units())
    }

    /// The unit id of a token string, `None` when the vocabulary lacks it.
    pub fn get_token(&self, token_s: &str) -> (r: Option<u32>) {
        vocab_id(&self.tokenizer, token_s)
    }

    /// Encode request text into the unit ids the model consumes.
    pub fn encode(&self, text: &str) -> (r: Result<Vec<u32>, TokenizerError>) {
        encode_text(&self.tokenizer, text)
    }

    pub fn tokenizer(&self) -> &tokenizers::Tokenizer {
        &self.tokenizer
    }

    /// Feed the request's own encoded units through the decoder so that
    /// generation starts from a consistent boundary; their fragments belong
    /// to the caller's input and are discarded, as they are not output.
    pub fn prime(&mut self, units: &Vec<u32>) -> (r: Result<(), TokenizerError>)
        requires
            old(self).wf(),
        ensures
            final(self).wf(),
            r is Ok ==> final(self).units_seq() == old(self).units_seq() + units@,
            r is Err ==> exists|k: int|
                0 <= k <= units@.len() && final(self).units_seq() == old(self).units_seq()
                    + units@.subrange(0, k),
    {
        let n: usize = units.len();
        let mut i: usize = 0;
        while i < n
            invariant
                self.wf(),
                n == units@.len(),
                0 <= i <= n,
                self.units_seq() == old(self).units_seq() + units@.subrange(0, i as int),
            decreases n - i,
        {
            match self.next_token(units[i]) {
                Ok(_) => {},
                Err(e) => {
                    proof {
                        let base = old(self).units_seq();
                        if self.units_seq() != base + units@.subrange(0, i as int) {
                            assert((base + units@.subrange(0, i as int)).push(units@[i as int])
                                =~= base + units@.subrange(0, i + 1));
                        }
                    }
                    return Err(e);
                },
            }
            i = i + 1;
            proof {
                assert(old(self).units_seq() + units@.subrange(0, i - 1).push(units@[i - 1])
                    =~= old(self).units_seq() + units@.subrange(0, i as int));
            }
        }
        proof {
            assert(units@.subrange(0, n as int) =~= units@);
        }
        Ok(())
    }

    /// Forget all recorded units and start over.
    pub fn clear(&mut self)
        ensures
            final(self).wf(),
            final(self).units_seq() == Seq::<u32>::empty(),
    {
        self.stream.reset();
    }
}

} // verus!

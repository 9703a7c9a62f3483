use vstd::prelude::*;
use vstd::std_specs::iter::IteratorSpec;

verus! {

broadcast use vstd::string::group_string_axioms;

// Character-level helpers shared by the text-processing functions.

/// Whether a character counts as whitespace, as the Unicode tables have it.
pub uninterp spec fn spec_whitespace(c: char) -> bool;

/// Relies on char::is_whitespace; the result depends on the character alone.
#[verifier::external_body]
pub(crate) fn char_whitespace(c: char) -> (r: bool)
    ensures
        r == spec_whitespace(c),
{
    c.is_whitespace()
}

/// Relies on String's FromIterator for char: the string of exactly these
/// characters.
#[verifier::external_body]
pub(crate) fn string_from_chars(v: &Vec<char>) -> (r: String)
    ensures
        r@ == v@,
{
    v.iter().collect()
}

/// The characters of a string, as a vector.
pub fn chars_vec(s: &str) -> (r: Vec<char>)
    ensures
        r@ == s@,
{
    let mut it = s.chars();
    let mut out: Vec<char> = Vec::new();
    loop
        invariant
            it.decrease() is Some,
            out@ + it.remaining() == s@,
        ensures
            out@ == s@,
        decreases it.decrease()->0,
    {
        let ghost pre = it.remaining();
        match it.next() {
            Some(c) => {
                proof {
                    assert(pre.len() > 0);
                    assert(c == pre[0]);
                    assert(out@.push(c) + pre.drop_first() =~= out@ + pre);
                }
                out.push(c);
            },
            None => {
                proof {
                    assert(pre.len() == 0);
                    assert(out@ + pre =~= out@);
                }
                break;
            },
        }
    }
    out
}

} // verus!

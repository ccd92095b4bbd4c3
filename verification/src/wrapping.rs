//! The word-wrap boundary: the split of a text chunk into lines no wider
//! than the interior is delegated to the textwrap crate, and its result is
//! given a name the renderer's contracts are stated over.

use vstd::prelude::*;

verus! {

/// What `textwrap::wrap` returns for a text and a width: an ordered sequence
/// of lines. The result depends on the text and the width alone.
pub uninterp spec fn wrap_of(text: Seq<char>, width: int) -> Seq<Seq<char>>;

/// Relies on `textwrap::wrap`: it splits the text on newlines, wraps each
/// piece to the width, and returns the lines in order, deterministically in
/// its two arguments; an empty text yields exactly one empty line whenever
/// the width is positive.
#[verifier::external_body]
pub fn wrap_lines(s: &str, width: usize) -> (r: Vec<Vec<char>>)
    ensures
        r.deep_view() == wrap_of(s@, width as int),
        s@.len() == 0 && width >= 1 ==> r.deep_view() == seq![Seq::<char>::empty()],
{
    textwrap::wrap(s, width).into_iter().map(|l| l.chars().collect()).collect()
}

} // verus!

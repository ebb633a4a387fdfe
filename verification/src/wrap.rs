//! Word wrapping, done by the `textwrap` crate.

use vstd::prelude::*;

verus! {

/// The lines into which `textwrap::wrap` breaks `text` for lines of `width`
/// columns, with the crate's default options.
pub uninterp spec fn wrapped(text: Seq<char>, width: usize) -> Seq<Seq<char>>;

/// The characters of each of `lines`.
pub open spec fn texts(lines: Seq<String>) -> Seq<Seq<char>> {
    Seq::new(lines.len(), |i: int| lines[i]@)
}

/// `textwrap::wrap` with a width and the default options. What it returns
/// depends on the text and the width alone, and is given the name `wrapped`;
/// nothing else is claimed of it.
#[verifier::external_body]
pub(crate) fn wrap_text(text: &str, width: usize) -> (lines: Vec<String>)
    ensures
        texts(lines@) == wrapped(text@, width),
{
    textwrap::wrap(text, width).into_iter().map(|line| line.into_owned()).collect()
}

} // verus!

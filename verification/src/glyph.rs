use vstd::prelude::*;

verus! {

/// The code-page-437 glyph that `rltk::to_cp437` gives for the character
/// `c`.
pub uninterp spec fn cp437_glyph(c: char) -> u16;

/// `rltk::to_cp437`: the glyph of the terminal's font that stands for `c`.
#[verifier::external_body]
pub(crate) fn to_cp437(c: char) -> (glyph: u16)
    ensures
        glyph == cp437_glyph(c),
{
    rltk::to_cp437(c)
}

} // verus!

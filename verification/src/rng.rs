use vstd::prelude::*;

verus! {

/// `rltk::RandomNumberGenerator`, the source of all chance in the game.
/// Nothing of its inside is used here.
#[verifier::external_type_specification]
#[verifier::external_body]
pub struct ExRandomNumberGenerator(rltk::RandomNumberGenerator);

/// `rltk::RandomNumberGenerator::new`: a generator seeded from the
/// machine's entropy. Nothing is claimed of it.
#[verifier::external_body]
pub(crate) fn new_rng() -> (rng: rltk::RandomNumberGenerator) {
    rltk::RandomNumberGenerator::new()
}

/// `rltk::RandomNumberGenerator::range` on `i32`: some value from `min` up
/// to, but not including, `max`. The call panics on an empty range, which
/// the precondition leaves out; which value comes back is left open.
#[verifier::external_body]
pub(crate) fn range(rng: &mut rltk::RandomNumberGenerator, min: i32, max: i32) -> (r: i32)
    requires
        min < max,
    ensures
        min <= r < max,
{
    rng.range(min, max)
}

/// `rltk::RandomNumberGenerator::roll_dice`: the sum of `n` throws of a die
/// with faces 1 to `die_type`, hence 0 for no dice and else between `n` and
/// `n * die_type`. The call panics where the die has no face or the sum
/// leaves `i32`, which the precondition leaves out.
#[verifier::external_body]
pub(crate) fn roll_dice(rng: &mut rltk::RandomNumberGenerator, n: i32, die_type: i32) -> (r: i32)
    requires
        n > 0 ==> 1 <= die_type < i32::MAX && n * die_type <= i32::MAX,
    ensures
        n <= 0 ==> r == 0,
        n > 0 ==> n <= r <= n * die_type,
{
    rng.roll_dice(n, die_type)
}

} // verus!

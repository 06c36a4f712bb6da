//! Random choices for gossip, drawn from the thread-local generator.
use rand::seq::SliceRandom;
use rand::Rng;
use vstd::prelude::*;

verus! {

/// Relies on rand's `SliceRandom::choose` on the thread-local generator: no
/// element for an empty slice, otherwise one of the slice's elements.
#[verifier::external_body]
pub(crate) fn choose_one(items: &Vec<String>) -> (r: Option<&String>)
    ensures
        r is None <==> items@.len() == 0,
        r matches Some(s) ==> items@.contains(*s),
{
    items.choose(&mut rand::thread_rng())
}

/// Relies on rand's `Rng::gen_ratio` on the thread-local generator: true
/// with probability `numerator / denominator`; never true for a zero
/// numerator, always true when numerator and denominator are equal.  It
/// panics on a zero denominator or a numerator above the denominator.
#[verifier::external_body]
pub(crate) fn draw_ratio(numerator: u32, denominator: u32) -> (r: bool)
    requires
        0 < denominator,
        numerator <= denominator,
    ensures
        numerator == 0 ==> !r,
        numerator == denominator ==> r,
{
    rand::thread_rng().gen_ratio(numerator, denominator)
}

} // verus!

use rand::prelude::IndexedRandom;
use vstd::prelude::*;

verus! {

#[verifier::external_type_specification]
#[verifier::external_body]
pub struct ExThreadRng(rand::rngs::ThreadRng);

/// Calls `rand::rng`, which hands out the thread's random generator. Nothing
/// is claimed of the generator: Verus sees it as an opaque value.
#[verifier::external_body]
pub(crate) fn thread_rng() -> (r: rand::rngs::ThreadRng) {
    rand::rng()
}

/// Calls `IndexedRandom::choose` on the items: by rand's source it returns
/// `None` exactly for an empty slice, and otherwise one of the slice's
/// elements, drawn uniformly with `rng`. Which element comes out is left
/// unsaid: it rests on chance.
#[verifier::external_body]
pub(crate) fn choose_one<T: Copy>(items: &Vec<T>, rng: &mut rand::rngs::ThreadRng) -> (r: Option<T>)
    ensures
        r is None <==> items@.len() == 0,
        r matches Some(v) ==> items@.contains(v),
{
    items.as_slice().choose(rng).copied()
}

} // verus!

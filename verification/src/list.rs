//! Lists that are used up from the front.
use vstd::prelude::*;

verus! {

/// The same items in the opposite order.
pub fn reversed<T>(v: Vec<T>) -> (r: Vec<T>)
    ensures
        r@ == v@.reverse(),
{
    let ghost whole = v@;
    let mut from = v;
    let mut r: Vec<T> = Vec::new();
    while from.len() > 0
        invariant
            from@.len() + r@.len() == whole.len(),
            forall|i: int| 0 <= i < from@.len() ==> from@[i] == whole[i],
            forall|i: int| 0 <= i < r@.len() ==> r@[i] == whole[whole.len() - 1 - i],
        decreases from@.len(),
    {
        let item = from.pop().unwrap();
        r.push(item);
    }
    assert(r@ =~= whole.reverse());
    r
}

} // verus!

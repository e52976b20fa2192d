//! Stacks of cards and the operations that split their tops off.
//!
//! The last element of a stack is its top.
use vstd::prelude::*;

verus! {

/// A stack of cards; the last element is the top.
pub type Stack<T> = Vec<T>;

/// Splits `slice` into `(remaining, taken)`, where `taken` is the top `n`
/// elements in bottom-to-top order.
pub fn take_n_slice<T>(slice: &[T], n: usize) -> (r: (&[T], &[T]))
    requires
        n <= slice@.len(),
    ensures
        r.0@ == slice@.subrange(0, slice@.len() - n),
        r.1@ == slice@.subrange(slice@.len() - n, slice@.len() as int),
{
    slice.split_at(slice.len() - n)
}

/// Removes the top `n` elements of `cs` and returns them in bottom-to-top
/// order.
pub fn take_n_vec_mut<T>(cs: &mut Vec<T>, n: usize) -> (r: Vec<T>)
    requires
        n <= old(cs)@.len(),
    ensures
        final(cs)@ == old(cs)@.subrange(0, old(cs)@.len() - n),
        r@ == old(cs)@.subrange(old(cs)@.len() - n, old(cs)@.len() as int),
{
    let at = cs.len() - n;
    cs.split_off(at)
}

/// Returns the remaining elements and the top one.
pub fn take_one_slice<T>(cs: &[T]) -> (r: (&[T], &T))
    requires
        cs@.len() >= 1,
    ensures
        r.0@ == cs@.subrange(0, cs@.len() - 1),
        *r.1 == cs@[cs@.len() - 1],
{
    let (rest, top) = take_n_slice(cs, 1);
    (rest, &top[0])
}

/// Removes the top element of `cs` and returns it.
pub fn take_one_vec_mut<T>(cs: &mut Vec<T>) -> (r: T)
    requires
        old(cs)@.len() >= 1,
    ensures
        final(cs)@ == old(cs)@.drop_last(),
        r == old(cs)@.last(),
{
    let top = cs.pop();
    top.unwrap()
}

/// A stack holding copies of the elements of `cs`, in the same order.
pub fn from_slice<T: Copy>(cs: &[T]) -> (r: Stack<T>)
    ensures
        r@ == cs@,
{
    let mut r: Vec<T> = Vec::new();
    let mut i: usize = 0;
    while i < cs.len()
        invariant
            i <= cs@.len(),
            r@ == cs@.subrange(0, i as int),
        decreases cs@.len() - i,
    {
        r.push(cs[i]);
        i += 1;
        assert(r@ =~= cs@.subrange(0, i as int));
    }
    assert(r@ =~= cs@);
    r
}

} // verus!

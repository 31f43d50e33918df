use vstd::prelude::*;

use crate::channel::Receiver;

verus! {

/// Which of two raced operations completed, with its result.
pub enum Either<A, B> {
    First(A),
    Second(B),
}

/// Races a receive on `first` against a receive on `second`. `first` is
/// polled first and wins a tie; `second` is polled only while `first` is
/// pending, so the losing leg is left exactly as it was.
pub fn select<R1: Receiver, R2: Receiver>(first: &mut R1, second: &mut R2) -> (r: Option<
    Either<R1::Data, R2::Data>,
>)
    requires
        old(first).recv_inv(),
        old(second).recv_inv(),
    ensures
        final(first).recv_inv(),
        final(second).recv_inv(),
        match r {
            Some(Either::First(v)) => R1::receives(*old(first), *final(first), Some(v))
                && *final(second) == *old(second),
            Some(Either::Second(v)) => R1::receives(*old(first), *final(first), None)
                && R2::receives(*old(second), *final(second), Some(v)),
            None => R1::receives(*old(first), *final(first), None) && R2::receives(
                *old(second),
                *final(second),
                None,
            ),
        },
        old(first).ready().len() > 0 ==> r == Some(Either::<R1::Data, R2::Data>::First(
            old(first).ready()[0],
        )) && final(first).ready() == old(first).ready().drop_first() && *final(second) == *old(second),
        old(first).ready().len() == 0 && old(second).ready().len() > 0 ==> r == Some(
            Either::<R1::Data, R2::Data>::Second(old(second).ready()[0]),
        ) && final(first).ready() == old(first).ready() && final(second).ready() == old(second).ready().drop_first(),
        old(first).ready().len() == 0 && old(second).ready().len() == 0 ==> r is None
            && final(first).ready() == old(first).ready() && final(second).ready() == old(second).ready(),
{
    match first.recv() {
        Some(v) => Some(Either::First(v)),
        None => match second.recv() {
            Some(v) => Some(Either::Second(v)),
            None => None,
        },
    }
}

} // verus!

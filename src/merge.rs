use vstd::prelude::*;

use crate::channel::{Receiver, Sender};
use crate::select::{select, Either};

verus! {

/// Two channels of one data type presented as one: a send reaches both legs,
/// first then second; a receive races the two legs.
pub struct MergedChannel<A, B> {
    first: A,
    second: B,
}

/// The merge of `first` and `second`.
pub fn merge<A, B>(first: A, second: B) -> (r: MergedChannel<A, B>)
    ensures
        r.first_leg() == first,
        r.second_leg() == second,
{
    MergedChannel::new(first, second)
}

impl<A, B> MergedChannel<A, B> {
    /// The leg that is sent to first and that wins a tied race.
    pub closed spec fn first_leg(&self) -> A {
        self.first
    }

    /// The other leg.
    pub closed spec fn second_leg(&self) -> B {
        self.second
    }

    pub fn new(first: A, second: B) -> (r: Self)
        ensures
            r.first_leg() == first,
            r.second_leg() == second,
    {
        MergedChannel { first, second }
    }

    /// Extends the merge by a third leg: the result has this merge as its
    /// first leg and `third` as its second.
    pub fn and<T>(self, third: T) -> (r: MergedChannel<Self, T>)
        ensures
            r.first_leg() == self,
            r.second_leg() == third,
    {
        MergedChannel::new(self, third)
    }
}

/// Sends a clone of `value` to `sender1`, and once that send has completed,
/// `value` itself to `sender2`.
pub fn send_both<S1, S2>(sender1: &mut S1, sender2: &mut S2, value: S1::Data)
    where
        S1: Sender,
        S1::Data: Clone,
        S2: Sender<Data = S1::Data>,
    requires
        old(sender1).send_inv(),
        old(sender2).send_inv(),
    ensures
        final(sender1).send_inv(),
        final(sender2).send_inv(),
        exists|c: S1::Data|
            cloned::<S1::Data>(value, c) && #[trigger] S1::sends(*old(sender1), *final(sender1), c),
        S2::sends(*old(sender2), *final(sender2), value),
{
    let c = value.clone();
    sender1.send(c);
    sender2.send(value);
}

/// Races a receive on `receiver1` against one on `receiver2` and hands out
/// whichever value arrives first; `receiver1` wins a tie.
pub fn recv_both<R1, R2>(receiver1: &mut R1, receiver2: &mut R2) -> (r: Option<R1::Data>)
    where
        R1: Receiver,
        R2: Receiver<Data = R1::Data>,
    requires
        old(receiver1).recv_inv(),
        old(receiver2).recv_inv(),
    ensures
        final(receiver1).recv_inv(),
        final(receiver2).recv_inv(),
        old(receiver1).ready().len() > 0 ==> R1::receives(*old(receiver1), *final(receiver1), r)
            && *final(receiver2) == *old(receiver2),
        old(receiver1).ready().len() == 0 ==> R1::receives(
            *old(receiver1),
            *final(receiver1),
            None,
        ) && R2::receives(*old(receiver2), *final(receiver2), r),
        old(receiver1).ready().len() > 0 ==> r == Some(old(receiver1).ready()[0]) && final(receiver1).ready() == old(receiver1).ready().drop_first() && *final(receiver2) == *old(receiver2),
        old(receiver1).ready().len() == 0 && old(receiver2).ready().len() > 0 ==> r == Some(
            old(receiver2).ready()[0],
        ) && final(receiver1).ready() == old(receiver1).ready() && final(receiver2).ready() == old(receiver2).ready().drop_first(),
        old(receiver1).ready().len() == 0 && old(receiver2).ready().len() == 0 ==> r is None
            && final(receiver1).ready() == old(receiver1).ready() && final(receiver2).ready()
            == old(receiver2).ready(),
{
    match select(receiver1, receiver2) {
        Some(Either::First(v)) => Some(v),
        Some(Either::Second(v)) => Some(v),
        None => None,
    }
}

impl<A, B> Sender for MergedChannel<A, B>
    where
        A: Sender,
        A::Data: Clone,
        B: Sender<Data = A::Data>,
{
    type Data = A::Data;

    open spec fn send_inv(&self) -> bool {
        self.first_leg().send_inv() && self.second_leg().send_inv()
    }

    open spec fn sends(pre: Self, post: Self, value: A::Data) -> bool {
        &&& exists|c: A::Data|
            cloned::<A::Data>(value, c) && #[trigger] A::sends(
                pre.first_leg(),
                post.first_leg(),
                c,
            )
        &&& B::sends(pre.second_leg(), post.second_leg(), value)
    }

    fn send(&mut self, value: A::Data) {
        send_both(&mut self.first, &mut self.second, value);
        assert(old(self).first_leg() == old(self).first && self.first_leg() == self.first);
    }
}

impl<A, B> Receiver for MergedChannel<A, B>
    where
        A: Receiver,
        B: Receiver<Data = A::Data>,
{
    type Data = A::Data;

    open spec fn recv_inv(&self) -> bool {
        self.first_leg().recv_inv() && self.second_leg().recv_inv()
    }

    /// The first leg's ready values, then the second's: the first leg is
    /// drained before the second wins a race.
    open spec fn ready(&self) -> Seq<A::Data> {
        self.first_leg().ready() + self.second_leg().ready()
    }

    /// While the first leg has a value ready, it alone is received from and
    /// the second leg is left exactly as it was; otherwise the first leg's
    /// receive stays pending and the second leg's decides the result.
    open spec fn receives(pre: Self, post: Self, r: Option<A::Data>) -> bool {
        if pre.first_leg().ready().len() > 0 {
            A::receives(pre.first_leg(), post.first_leg(), r) && post.second_leg()
                == pre.second_leg()
        } else {
            A::receives(pre.first_leg(), post.first_leg(), None) && B::receives(
                pre.second_leg(),
                post.second_leg(),
                r,
            )
        }
    }

    fn recv(&mut self) -> (r: Option<A::Data>) {
        let r = recv_both(&mut self.first, &mut self.second);
        proof {
            assert(old(self).first_leg() == old(self).first && self.first_leg() == self.first);
            assert(old(self).second_leg() == old(self).second && self.second_leg() == self.second);
            let pre = old(self).ready();
            if old(self).first.ready().len() > 0 {
                assert(pre[0] == old(self).first.ready()[0]);
                assert(self.ready() =~= pre.drop_first());
            } else {
                assert(old(self).first.ready() =~= Seq::<A::Data>::empty());
                assert(pre =~= old(self).second.ready());
                assert(self.ready() =~= self.second.ready());
            }
        }
        r
    }
}

} // verus!

use vstd::prelude::*;

verus! {

/// The capability to hand values, one at a time, to a channel.
pub trait Sender: Sized {
    type Data;

    /// What every operation on this endpoint relies on and preserves.
    spec fn send_inv(&self) -> bool;

    /// `post` is what `pre` becomes when `value` is sent through it.
    spec fn sends(pre: Self, post: Self, value: Self::Data) -> bool;

    /// Hands `value` to the channel; returns once it has been accepted.
    fn send(&mut self, value: Self::Data)
        requires
            old(self).send_inv(),
        ensures
            final(self).send_inv(),
            Self::sends(*old(self), *final(self), value),
    ;
}

/// The capability to take values, one at a time, out of a channel.
pub trait Receiver: Sized {
    type Data;

    /// What every operation on this endpoint relies on and preserves.
    spec fn recv_inv(&self) -> bool;

    /// The values that successive receives would hand out now, oldest first.
    spec fn ready(&self) -> Seq<Self::Data>;

    /// `post` is what `pre` becomes when a receive on it hands out `r`.
    spec fn receives(pre: Self, post: Self, r: Option<Self::Data>) -> bool;

    /// Polls for one value: the oldest ready value, or `None` (pending) when
    /// nothing is ready. A pending poll leaves nothing ready behind it, so an
    /// abandoned receive loses no value.
    fn recv(&mut self) -> (r: Option<Self::Data>)
        requires
            old(self).recv_inv(),
        ensures
            final(self).recv_inv(),
            Self::receives(*old(self), *final(self), r),
            old(self).ready().len() == 0 ==> r is None && final(self).ready() == old(self).ready(),
            old(self).ready().len() > 0 ==> r == Some(old(self).ready()[0]) && final(self).ready()
                == old(self).ready().drop_first(),
    ;
}

} // verus!

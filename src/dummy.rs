use vstd::prelude::*;

use crate::channel::{Receiver, Sender};

verus! {

/// A channel with no backing storage: a send completes at once and discards
/// its value, a receive never completes.
pub struct DummyChannel<T> {
    _data: core::marker::PhantomData<T>,
}

/// The inert channel, the neutral leg of a merge.
pub fn dummy<T>() -> (r: DummyChannel<T>)
    ensures
        r.ready().len() == 0,
{
    DummyChannel::new()
}

impl<T> DummyChannel<T> {
    pub fn new() -> (r: Self)
        ensures
            r.ready().len() == 0,
    {
        DummyChannel { _data: core::marker::PhantomData }
    }
}

impl<T> Default for DummyChannel<T> {
    fn default() -> (r: Self)
        ensures
            r.ready().len() == 0,
    {
        Self::new()
    }
}

impl<T> Sender for DummyChannel<T> {
    type Data = T;

    open spec fn send_inv(&self) -> bool {
        true
    }

    open spec fn sends(pre: Self, post: Self, value: T) -> bool {
        post == pre
    }

    fn send(&mut self, value: T) {
    }
}

impl<T> Receiver for DummyChannel<T> {
    type Data = T;

    open spec fn recv_inv(&self) -> bool {
        true
    }

    open spec fn ready(&self) -> Seq<T> {
        Seq::empty()
    }

    /// A receive stays pending and leaves the channel as it was.
    open spec fn receives(pre: Self, post: Self, r: Option<T>) -> bool {
        r is None && post == pre
    }

    fn recv(&mut self) -> (r: Option<T>) {
        None
    }
}

} // verus!

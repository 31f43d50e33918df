use vstd::prelude::*;

use crate::channel::{Receiver, Sender};

verus! {

/// A software mailbox: a first-in first-out queue that is a channel on both
/// ends. Every value sent is ready at once, behind those sent before it.
pub struct Mailbox<T> {
    items: Vec<T>,
}

impl<T> View for Mailbox<T> {
    type V = Seq<T>;

    /// The queued values, oldest first.
    closed spec fn view(&self) -> Seq<T> {
        self.items@
    }
}

impl<T> Mailbox<T> {
    /// An empty mailbox.
    pub fn new() -> (r: Self)
        ensures
            r@ == Seq::<T>::empty(),
    {
        Mailbox { items: Vec::new() }
    }

    /// How many values are queued.
    pub fn len(&self) -> (r: usize)
        ensures
            r == self@.len(),
    {
        self.items.len()
    }

    /// Whether no value is queued.
    pub fn is_empty(&self) -> (r: bool)
        ensures
            r == (self@.len() == 0),
    {
        self.items.len() == 0
    }
}

impl<T> Sender for Mailbox<T> {
    type Data = T;

    open spec fn send_inv(&self) -> bool {
        true
    }

    /// The value joins the back of the queue.
    open spec fn sends(pre: Self, post: Self, value: T) -> bool {
        post@ == pre@.push(value)
    }

    fn send(&mut self, value: T) {
        self.items.push(value);
    }
}

impl<T> Receiver for Mailbox<T> {
    type Data = T;

    open spec fn recv_inv(&self) -> bool {
        true
    }

    open spec fn ready(&self) -> Seq<T> {
        self@
    }

    /// The oldest value leaves the queue; an empty queue is left as it was.
    open spec fn receives(pre: Self, post: Self, r: Option<T>) -> bool {
        if pre@.len() == 0 {
            r is None && post@ == pre@
        } else {
            r == Some(pre@[0]) && post@ == pre@.drop_first()
        }
    }

    fn recv(&mut self) -> (r: Option<T>) {
        if self.items.len() == 0 {
            None
        } else {
            let v = self.items.remove(0);
            assert(self.items@ =~= old(self).items@.drop_first());
            Some(v)
        }
    }
}

} // verus!

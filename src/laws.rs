use vstd::prelude::*;

use crate::adapt::{adapted, law_adapter_recv_skips, AdapterChannel};
use crate::channel::{Receiver, Sender};
use crate::dummy::DummyChannel;
use crate::merge::MergedChannel;

verus! {

/// A send that the adapter drops completes without any operation on the
/// inner channel: the inner channel is left exactly as it was.
pub proof fn law_adapter_send_drops<C, F, T>(
    pre: AdapterChannel<C, F, T>,
    post: AdapterChannel<C, F, T>,
    value: T,
)
    where
        C: Sender,
        F: Fn(T) -> Option<C::Data>,
    requires
        AdapterChannel::<C, F, T>::sends(pre, post, value),
        adapted(pre.adapter_fn(), value) is None,
    ensures
        post.inner_channel() == pre.inner_channel(),
{
}

/// A send that the adapter translates to `x` is exactly one send of `x` on
/// the inner channel.
pub proof fn law_adapter_send_forwards<C, F, T>(
    pre: AdapterChannel<C, F, T>,
    post: AdapterChannel<C, F, T>,
    value: T,
    x: C::Data,
)
    where
        C: Sender,
        F: Fn(T) -> Option<C::Data>,
    requires
        AdapterChannel::<C, F, T>::sends(pre, post, value),
        adapted(pre.adapter_fn(), value) == Some(x),
    ensures
        C::sends(pre.inner_channel(), post.inner_channel(), x),
{
}

/// A merged send delivers a value equal to the one sent to each leg, where
/// cloning gives an equal value.
pub proof fn law_merge_send_duplicates<A, B>(
    pre: MergedChannel<A, B>,
    post: MergedChannel<A, B>,
    value: A::Data,
)
    where
        A: Sender,
        A::Data: Clone,
        B: Sender<Data = A::Data>,
    requires
        MergedChannel::<A, B>::sends(pre, post, value),
        forall|a: A::Data, b: A::Data| #[trigger] cloned::<A::Data>(a, b) ==> a == b,
    ensures
        A::sends(pre.first_leg(), post.first_leg(), value),
        B::sends(pre.second_leg(), post.second_leg(), value),
{
}

/// While the first leg has a value ready, a merged receive hands it out,
/// whatever the second leg does: the first leg alone is received from, and
/// the second leg's abandoned receive leaves it exactly as it was.
pub proof fn law_merge_recv_first_ready<A, B>(
    pre: MergedChannel<A, B>,
    post: MergedChannel<A, B>,
    r: Option<A::Data>,
)
    where
        A: Receiver,
        B: Receiver<Data = A::Data>,
    requires
        MergedChannel::<A, B>::receives(pre, post, r),
        pre.first_leg().ready().len() > 0,
    ensures
        pre.ready().len() > 0,
        pre.ready()[0] == pre.first_leg().ready()[0],
        A::receives(pre.first_leg(), post.first_leg(), r),
        post.second_leg() == pre.second_leg(),
{
}

/// A merge with the inert channel receives exactly as its real leg alone:
/// the same values are ready, in the same order, each receive acts on the
/// real leg as a receive on it alone would, and the inert leg is untouched.
pub proof fn law_dummy_neutral<R: Receiver>(
    pre: MergedChannel<R, DummyChannel<R::Data>>,
    post: MergedChannel<R, DummyChannel<R::Data>>,
    r: Option<R::Data>,
)
    requires
        MergedChannel::<R, DummyChannel<R::Data>>::receives(pre, post, r),
    ensures
        pre.ready() == pre.first_leg().ready(),
        R::receives(pre.first_leg(), post.first_leg(), r),
        post.second_leg() == pre.second_leg(),
{
    assert(pre.ready() =~= pre.first_leg().ready());
}

/// A merge extended by a third leg races all three as one flat race: a
/// receive acts on the first of the three legs, in order, that has a value
/// ready, leaves the legs after it exactly as they were, and finds the legs
/// before it pending; it is pending only while none has a value.
pub proof fn law_chain_recv<A, B, C>(
    pre: MergedChannel<MergedChannel<A, B>, C>,
    post: MergedChannel<MergedChannel<A, B>, C>,
    r: Option<A::Data>,
)
    where
        A: Receiver,
        B: Receiver<Data = A::Data>,
        C: Receiver<Data = A::Data>,
    requires
        MergedChannel::<MergedChannel<A, B>, C>::receives(pre, post, r),
    ensures
        ({
            let (a, a2) = (pre.first_leg().first_leg(), post.first_leg().first_leg());
            let (b, b2) = (pre.first_leg().second_leg(), post.first_leg().second_leg());
            let (c, c2) = (pre.second_leg(), post.second_leg());
            &&& pre.ready() == a.ready() + b.ready() + c.ready()
            &&& a.ready().len() > 0 ==> pre.ready()[0] == a.ready()[0] && A::receives(a, a2, r)
                && b2 == b && c2 == c
            &&& a.ready().len() == 0 && b.ready().len() > 0 ==> pre.ready()[0] == b.ready()[0]
                && A::receives(a, a2, None) && B::receives(b, b2, r) && c2 == c
            &&& a.ready().len() == 0 && b.ready().len() == 0 ==> A::receives(a, a2, None)
                && B::receives(b, b2, None) && C::receives(c, c2, r)
            &&& a.ready().len() == 0 && b.ready().len() == 0 && c.ready().len() > 0
                ==> pre.ready()[0] == c.ready()[0]
            &&& a.ready().len() == 0 && b.ready().len() == 0 && c.ready().len() == 0
                ==> pre.ready().len() == 0
        }),
{
    let a = pre.first_leg().first_leg().ready();
    let b = pre.first_leg().second_leg().ready();
    let c = pre.second_leg().ready();
    assert(pre.ready() =~= a + b + c);
    assert(pre.first_leg().ready() == a + b);
    if a.len() == 0 {
        assert(pre.ready() =~= b + c);
        if b.len() == 0 {
            assert(pre.first_leg().ready() =~= Seq::<A::Data>::empty());
            assert(pre.ready() =~= c);
        }
    }
}

/// Where the adapter drops the first `k` ready inner values and keeps the
/// next as `y`, a receive through the adapter channel hands out `y`, takes
/// exactly those `k + 1` inner values, leaves the rest, and keeps the adapter.
pub proof fn law_adapter_recv_takes<C, F, T>(
    pre: AdapterChannel<C, F, T>,
    post: AdapterChannel<C, F, T>,
    r: Option<T>,
    k: int,
    y: T,
)
    where
        C: Receiver,
        F: Fn(C::Data) -> Option<T>,
    requires
        AdapterChannel::<C, F, T>::receives(pre, post, r),
        0 <= k < pre.inner_channel().ready().len(),
        forall|i: int|
            0 <= i < k ==> adapted(pre.adapter_fn(), #[trigger] pre.inner_channel().ready()[i])
                is None,
        adapted(pre.adapter_fn(), pre.inner_channel().ready()[k]) == Some(y),
    ensures
        r == Some(y),
        post.inner_channel().ready() == pre.inner_channel().ready().skip(k + 1),
        post.adapter_fn() == pre.adapter_fn(),
{
    law_adapter_recv_skips(pre.adapter_fn(), pre.inner_channel().ready(), k, y);
}

} // verus!

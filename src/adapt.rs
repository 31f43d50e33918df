use vstd::prelude::*;

use crate::channel::{Receiver, Sender};

verus! {

/// What `adapter` returns for `v`.
pub open spec fn adapted<X, Y, F: Fn(X) -> Option<Y>>(adapter: F, v: X) -> Option<Y> {
    choose|r: Option<Y>| call_ensures(adapter, (v,), r)
}

/// `adapter` accepts every value, and gives each value one result: it is a
/// pure function.
pub open spec fn is_adapter<X, Y, F: Fn(X) -> Option<Y>>(adapter: F) -> bool {
    &&& forall|v: X| call_requires(adapter, (v,))
    &&& forall|v: X, r1: Option<Y>, r2: Option<Y>|
        #[trigger] call_ensures(adapter, (v,), r1) && #[trigger] call_ensures(adapter, (v,), r2)
            ==> r1 == r2
}

/// The results of `adapter` on `s` that are not `None`, in order.
pub open spec fn kept<X, Y, F: Fn(X) -> Option<Y>>(adapter: F, s: Seq<X>) -> Seq<Y>
    decreases s.len(),
{
    if s.len() == 0 {
        Seq::empty()
    } else {
        let rest = kept(adapter, s.drop_first());
        match adapted(adapter, s[0]) {
            Some(y) => seq![y] + rest,
            None => rest,
        }
    }
}

/// How many values of `s` a filtering receive takes: those up to and
/// including the first that `adapter` keeps, or all of them.
pub open spec fn consumed<X, Y, F: Fn(X) -> Option<Y>>(adapter: F, s: Seq<X>) -> nat
    decreases s.len(),
{
    if s.len() == 0 {
        0
    } else if adapted(adapter, s[0]) is Some {
        1
    } else {
        1 + consumed(adapter, s.drop_first())
    }
}

/// After the values that a filtering receive takes, the kept values that
/// remain are those after the first; where nothing is kept, everything is
/// taken.
pub proof fn lemma_consumed<X, Y, F: Fn(X) -> Option<Y>>(adapter: F, s: Seq<X>)
    ensures
        consumed(adapter, s) <= s.len(),
        kept(adapter, s).len() == 0 ==> consumed(adapter, s) == s.len(),
        kept(adapter, s).len() > 0 ==> kept(adapter, s.skip(consumed(adapter, s) as int)) == kept(
            adapter,
            s,
        ).drop_first(),
    decreases s.len(),
{
    if s.len() > 0 {
        lemma_consumed(adapter, s.drop_first());
        if adapted(adapter, s[0]) is Some {
            assert(s.skip(1) =~= s.drop_first());
            assert(kept(adapter, s).drop_first() =~= kept(adapter, s.drop_first()));
        } else {
            let c: int = consumed(adapter, s.drop_first()) as int;
            assert(s.skip(c + 1 as int) =~= s.drop_first().skip(c));
        }
    }
}

/// `adapter` accepts every value.
pub open spec fn accepts_all<X, Y, F: Fn(X) -> Option<Y>>(adapter: F) -> bool {
    forall|v: X| call_requires(adapter, (v,))
}

/// What a result of `adapter` tells of `adapted`, where the adapter is a pure
/// function.
pub proof fn lemma_adapted<X, Y, F: Fn(X) -> Option<Y>>(adapter: F, v: X, r: Option<Y>)
    requires
        is_adapter(adapter),
        call_ensures(adapter, (v,), r),
    ensures
        adapted(adapter, v) == r,
{
}

/// Where the adapter drops every value of `s`, it keeps none of them.
pub proof fn lemma_none_kept<X, Y, F: Fn(X) -> Option<Y>>(adapter: F, s: Seq<X>)
    requires
        forall|i: int| 0 <= i < s.len() ==> adapted(adapter, #[trigger] s[i]) is None,
    ensures
        kept(adapter, s).len() == 0,
    decreases s.len(),
{
    if s.len() > 0 {
        let t = s.drop_first();
        assert forall|i: int| 0 <= i < t.len() implies adapted(adapter, #[trigger] t[i]) is None by {
            assert(t[i] == s[i + 1]);
        }
        lemma_none_kept(adapter, t);
        assert(adapted(adapter, s[0]) is None);
    }
}

/// Where the adapter drops the first `k` values of `s` and keeps the next as
/// `y`, a receive through it takes those `k + 1` values and hands out `y`.
pub proof fn law_adapter_recv_skips<X, Y, F: Fn(X) -> Option<Y>>(
    adapter: F,
    s: Seq<X>,
    k: int,
    y: Y,
)
    requires
        0 <= k < s.len(),
        forall|i: int| 0 <= i < k ==> adapted(adapter, #[trigger] s[i]) is None,
        adapted(adapter, s[k]) == Some(y),
    ensures
        consumed(adapter, s) == k + 1,
        kept(adapter, s).len() > 0,
        kept(adapter, s)[0] == y,
    decreases k,
{
    if k > 0 {
        let t = s.drop_first();
        assert forall|i: int| 0 <= i < k - 1 implies adapted(adapter, #[trigger] t[i]) is None by {
            assert(t[i] == s[i + 1]);
        }
        law_adapter_recv_skips(adapter, t, k - 1, y);
        assert(adapted(adapter, s[0]) is None);
    }
}

/// Sends `value` through `adapter`: its translation goes to `sender`, and a
/// value that the adapter drops completes the send without touching `sender`.
pub fn send<S: Sender, P, F: Fn(P) -> Option<S::Data>>(sender: &mut S, value: P, adapter: &F)
    requires
        old(sender).send_inv(),
        accepts_all(*adapter),
    ensures
        final(sender).send_inv(),
        call_ensures(*adapter, (value,), None::<S::Data>) && *final(sender) == *old(sender)
            || exists|x: S::Data|
            call_ensures(*adapter, (value,), Some(x)) && #[trigger] S::sends(
                *old(sender),
                *final(sender),
                x,
            ),
{
    if let Some(x) = adapter(value) {
        sender.send(x);
    }
}

/// Receives through `adapter`: takes values from `receiver` until one is kept
/// and hands out its translation, or `None` once `receiver` is pending. The
/// values taken are the first `n` that were ready, where `n` is how many fewer
/// are ready afterwards.
pub fn recv<R: Receiver, P, F: Fn(R::Data) -> Option<P>>(receiver: &mut R, adapter: &F) -> (r:
    Option<P>)
    requires
        old(receiver).recv_inv(),
        accepts_all(*adapter),
    ensures
        final(receiver).recv_inv(),
        ({
            let s = old(receiver).ready();
            let n = s.len() - final(receiver).ready().len();
            &&& 0 <= n <= s.len()
            &&& final(receiver).ready() == s.skip(n)
            &&& r is None ==> n == s.len() && forall|i: int|
                0 <= i < n ==> call_ensures(*adapter, (#[trigger] s[i],), None::<P>)
            &&& r is Some ==> n > 0 && call_ensures(*adapter, (s[n - 1],), r) && forall|i: int|
                0 <= i < n - 1 ==> call_ensures(*adapter, (#[trigger] s[i],), None::<P>)
        }),
{
    let ghost s0 = receiver.ready();
    let ghost mut j: int = 0;
    loop
        invariant
            receiver.recv_inv(),
            accepts_all(*adapter),
            s0 == old(receiver).ready(),
            0 <= j <= s0.len(),
            receiver.ready() == s0.skip(j),
            forall|i: int| 0 <= i < j ==> call_ensures(*adapter, (#[trigger] s0[i],), None::<P>),
        decreases receiver.ready().len(),
    {
        let ghost cur = receiver.ready();
        match receiver.recv() {
            None => {
                assert(cur.len() == 0);
                return None;
            },
            Some(m) => {
                assert(cur.drop_first() =~= s0.skip(j + 1));
                assert(m == s0[j]);
                let a = adapter(m);
                if a.is_some() {
                    return a;
                }
                proof {
                    j = j + 1;
                }
            },
        }
    }
}

/// A channel seen through an adapter: values sent are translated, or
/// dropped, before they reach the inner channel; values received from it are
/// translated, and those the adapter drops are skipped.
pub struct AdapterChannel<C, F, T> {
    inner: C,
    adapter: F,
    _outer: core::marker::PhantomData<T>,
}

/// `channel` seen through `adapter`.
pub fn adapt<C, T, F>(channel: C, adapter: F) -> (r: AdapterChannel<C, F, T>)
    ensures
        r.inner_channel() == channel,
        r.adapter_fn() == adapter,
{
    AdapterChannel::new(channel, adapter)
}

impl<C, F, T> AdapterChannel<C, F, T> {
    /// The wrapped channel.
    pub closed spec fn inner_channel(&self) -> C {
        self.inner
    }

    /// The translation applied at the boundary.
    pub closed spec fn adapter_fn(&self) -> F {
        self.adapter
    }

    pub fn new(inner: C, adapter: F) -> (r: Self)
        ensures
            r.inner_channel() == inner,
            r.adapter_fn() == adapter,
    {
        AdapterChannel { inner, adapter, _outer: core::marker::PhantomData }
    }
}

impl<C, F, T> Sender for AdapterChannel<C, F, T>
    where
        C: Sender,
        F: Fn(T) -> Option<C::Data>,
{
    type Data = T;

    open spec fn send_inv(&self) -> bool {
        self.inner_channel().send_inv() && is_adapter(self.adapter_fn())
    }

    /// The inner channel sends the translation once, or is left as it was
    /// where the adapter drops the value.
    open spec fn sends(pre: Self, post: Self, value: T) -> bool {
        &&& post.adapter_fn() == pre.adapter_fn()
        &&& match adapted(pre.adapter_fn(), value) {
            Some(x) => C::sends(pre.inner_channel(), post.inner_channel(), x),
            None => post.inner_channel() == pre.inner_channel(),
        }
    }

    fn send(&mut self, value: T) {
        send(&mut self.inner, value, &self.adapter);
        proof {
            if call_ensures(self.adapter, (value,), None::<C::Data>) && self.inner == old(
                self,
            ).inner {
                lemma_adapted(self.adapter, value, None);
            } else {
                let x = choose|x: C::Data|
                    call_ensures(self.adapter, (value,), Some(x)) && #[trigger] C::sends(
                        old(self).inner,
                        self.inner,
                        x,
                    );
                lemma_adapted(self.adapter, value, Some(x));
            }
        }
    }
}

impl<C, F, T> Receiver for AdapterChannel<C, F, T>
    where
        C: Receiver,
        F: Fn(C::Data) -> Option<T>,
{
    type Data = T;

    open spec fn recv_inv(&self) -> bool {
        self.inner_channel().recv_inv() && is_adapter(self.adapter_fn())
    }

    /// The translations of the inner channel's ready values that the adapter
    /// keeps.
    open spec fn ready(&self) -> Seq<T> {
        kept(self.adapter_fn(), self.inner_channel().ready())
    }

    /// The adapter stays; the inner channel loses its ready values up to and
    /// including the first that the adapter keeps (all of them where it keeps
    /// none), and the translation of that value is handed out.
    open spec fn receives(pre: Self, post: Self, r: Option<T>) -> bool {
        let f = pre.adapter_fn();
        let s = pre.inner_channel().ready();
        &&& post.adapter_fn() == f
        &&& post.inner_channel().ready() == s.skip(consumed(f, s) as int)
        &&& r == if kept(f, s).len() > 0 {
            Some(kept(f, s)[0])
        } else {
            None
        }
    }

    fn recv(&mut self) -> (r: Option<T>) {
        let r = recv(&mut self.inner, &self.adapter);
        proof {
            let f = self.adapter;
            let s = old(self).inner.ready();
            let n = s.len() - self.inner.ready().len();
            assert forall|i: int| 0 <= i < n - 1 || (r is None && 0 <= i < n) implies adapted(
                f,
                #[trigger] s[i],
            ) is None by {
                lemma_adapted(f, s[i], None);
            }
            lemma_consumed(f, s);
            assert(old(self).adapter_fn() == f && self.adapter_fn() == f);
            assert(old(self).inner_channel() == old(self).inner);
            assert(self.inner_channel() == self.inner);
            if r is None {
                lemma_none_kept(f, s);
                assert(self.inner.ready() =~= Seq::<C::Data>::empty());
            } else {
                lemma_adapted(f, s[n - 1], r);
                law_adapter_recv_skips(f, s, n - 1, r->0);
            }
        }
        r
    }
}

} // verus!

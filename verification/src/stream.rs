//! Splitting one stream among several subscribers.
use crate::runtime::mpsc::{Sender, TrySendError};
use vstd::prelude::*;

verus! {

/// The subscribers that remain after a broadcast in which subscriber `i` reported a
/// closed channel exactly when `closed[i]`: the others, in their order.
pub open spec fn kept<S>(subscribers: Seq<S>, closed: Seq<bool>) -> Seq<S>
    decreases subscribers.len(),
{
    if subscribers.len() == 0 {
        Seq::empty()
    } else {
        let rest = kept(subscribers.drop_last(), closed.drop_last());
        if closed.last() {
            rest
        } else {
            rest.push(subscribers.last())
        }
    }
}

/// Whether each outcome is a refusal because the channel is closed.
pub open spec fn flags_of<Item>(outs: Seq<Result<(), TrySendError<Item>>>) -> Seq<bool> {
    Seq::new(outs.len(), |i: int| outs[i] matches Err(TrySendError::Closed(_)))
}

/// `sub` was handed a clone of `item` through its `try_send`, which answered `out`.
pub open spec fn offered_to<S, Item>(sub: S, item: Item, out: Result<(), TrySendError<Item>>) -> bool
    where Item: Send + Clone, S: Sender<Item>
{
    exists|v: Item|
        #![trigger call_ensures(<S as Sender<Item>>::try_send, (&sub, v), out)]
        vstd::pervasive::cloned(item, v) && call_ensures(<S as Sender<Item>>::try_send, (&sub, v), out)
}

/// Each subscriber `subs[i]` was offered a clone of `item` and answered `outs[i]`.
pub open spec fn offered<S, Item>(subs: Seq<S>, item: Item, outs: Seq<Result<(), TrySendError<Item>>>) -> bool
    where Item: Send + Clone, S: Sender<Item>
{
    &&& outs.len() == subs.len()
    &&& forall|i: int| 0 <= i < subs.len() ==> #[trigger] offered_to(subs[i], item, outs[i])
}

/// A stream splitter that broadcasts items to multiple subscribers.
///
/// Items are delivered on a best-effort basis: if a subscriber's channel is full,
/// the item is dropped for that subscriber rather than blocking the producer.
/// Subscribers whose channels are closed are removed.
pub struct Tee<S, St> {
    subscribers: Vec<S>,
    stream: St,
}

impl<S, St> Tee<S, St> {
    /// The subscribers, oldest first.
    pub closed spec fn spec_subscribers(&self) -> Seq<S> {
        self.subscribers@
    }

    /// The stream being split.
    pub closed spec fn spec_stream(&self) -> St {
        self.stream
    }

    /// A splitter of `stream`, with no subscriber yet.
    pub fn new(stream: St) -> (t: Self)
        ensures
            t.spec_subscribers() == Seq::<S>::empty(),
            t.spec_stream() == stream,
    {
        Tee { subscribers: Vec::new(), stream }
    }

    /// Adds a subscriber, which from now on gets every item the stream yields.
    pub fn subscribe(&mut self, subscriber: S)
        ensures
            final(self).spec_subscribers() == old(self).spec_subscribers().push(subscriber),
            final(self).spec_stream() == old(self).spec_stream(),
    {
        self.subscribers.push(subscriber);
    }

    /// The number of subscribers.
    pub fn subscriber_count(&self) -> (r: usize)
        ensures
            r == self.spec_subscribers().len(),
    {
        self.subscribers.len()
    }

    /// The stream being split, to poll it.
    pub fn stream_mut(&mut self) -> (r: &mut St)
        ensures
            *r == old(self).spec_stream(),
            final(self).spec_stream() == *final(r),
            final(self).spec_subscribers() == old(self).spec_subscribers(),
    {
        &mut self.stream
    }

    /// Offers a copy of `item` to every subscriber without waiting: one
    /// `try_send` per subscriber, in order. A subscriber whose channel is full
    /// misses the item and stays; a subscriber whose channel is closed is removed
    /// (`retain_open` with the outcomes that `is_closed` reads). The remaining
    /// subscribers keep their order.
    pub fn broadcast<Item>(&mut self, item: &Item)
        where Item: Send + Clone, S: Sender<Item>
        ensures
            exists|outs: Seq<Result<(), TrySendError<Item>>>|
                #[trigger] offered(old(self).spec_subscribers(), *item, outs)
                && final(self).spec_subscribers() == kept(old(self).spec_subscribers(), flags_of(outs)),
            final(self).spec_stream() == old(self).spec_stream(),
    {
        let ghost subs = self.subscribers@;
        let ghost mut outs: Seq<Result<(), TrySendError<Item>>> = Seq::empty();
        let mut closed: Vec<bool> = Vec::new();
        let mut index: usize = 0;
        while index < self.subscribers.len()
            invariant
                closed.len() == index,
                outs.len() == index,
                index <= self.subscribers.len(),
                subs == old(self).subscribers@,
                self.subscribers@ == subs,
                self.stream == old(self).stream,
                closed@ == flags_of(outs),
                forall|i: int| 0 <= i < index ==> #[trigger] offered_to(subs[i], *item, outs[i]),
            decreases self.subscribers.len() - index,
        {
            let copy = item.clone();
            let ghost handed = copy;
            let outcome = self.subscribers[index].try_send(copy);
            proof {
                assert(offered_to(subs[index as int], *item, outcome)) by {
                    assert(vstd::pervasive::cloned(*item, handed));
                    assert(call_ensures(<S as Sender<Item>>::try_send, (&subs[index as int], handed), outcome));
                }
                let before = outs;
                outs = outs.push(outcome);
                assert forall|i: int| 0 <= i < index + 1 implies #[trigger] offered_to(subs[i], *item, outs[i]) by {
                    if i < index {
                        assert(before[i] == outs[i]);
                    }
                }
            }
            closed.push(is_closed(&outcome));
            proof {
                assert(closed@ =~= flags_of(outs));
            }
            index = index + 1;
        }
        assert(offered(subs, *item, outs));
        retain_open(&mut self.subscribers, &closed);
        proof {
            assert(old(self).spec_subscribers() == subs);
            assert(self.spec_subscribers() == kept(subs, flags_of(outs)));
        }
    }
}

/// Whether a send failed because the channel is closed.
pub fn is_closed<T>(r: &Result<(), TrySendError<T>>) -> (b: bool)
    ensures
        b == (r matches Err(TrySendError::Closed(_))),
{
    match r {
        Err(TrySendError::Closed(_)) => true,
        _ => false,
    }
}

/// Keeps the subscribers whose channel was not reported closed (`closed[i]` for
/// subscriber `i`), in their order.
pub fn retain_open<S>(subs: &mut Vec<S>, closed: &Vec<bool>)
    requires
        closed.len() == old(subs).len(),
    ensures
        final(subs)@ == kept(old(subs)@, closed@),
{
    let ghost orig = subs@;
    let mut rest: Vec<S> = Vec::new();
    std::mem::swap(&mut rest, subs);
    let mut out: Vec<S> = Vec::new();
    let mut j: usize = 0;
    while rest.len() > 0
        invariant
            j <= orig.len(),
            closed.len() == orig.len(),
            rest@ == orig.skip(j as int),
            out@ == kept(orig.take(j as int), closed@.take(j as int)),
        decreases rest.len(),
    {
        let s = rest.remove(0);
        proof {
            assert(s == orig[j as int]);
            assert(orig.skip(j as int).drop_first() == orig.skip(j + 1));
            assert(orig.take(j + 1).drop_last() == orig.take(j as int));
            assert(orig.take(j + 1).last() == orig[j as int]);
            assert(closed@.take(j + 1).drop_last() == closed@.take(j as int));
            assert(closed@.take(j + 1).last() == closed@[j as int]);
        }
        if !closed[j] {
            out.push(s);
        }
        j = j + 1;
    }
    proof {
        assert(orig.take(j as int) == orig);
        assert(closed@.take(j as int) == closed@);
    }
    *subs = out;
}

/// A broadcast in which no subscriber's channel was closed (every send went
/// through or found the channel full) keeps every subscriber, in order; one in
/// which every channel was closed keeps none.
pub proof fn lemma_only_closed_subscribers_leave<S, Item>(
    subs: Seq<S>,
    outs: Seq<Result<(), TrySendError<Item>>>,
)
    requires
        outs.len() == subs.len(),
    ensures
        (forall|i: int| 0 <= i < outs.len() ==> !(#[trigger] outs[i] matches Err(TrySendError::Closed(_))))
            ==> kept(subs, flags_of(outs)) == subs,
        (forall|i: int| 0 <= i < outs.len() ==> (#[trigger] outs[i] matches Err(TrySendError::Closed(_))))
            ==> kept(subs, flags_of(outs)) == Seq::<S>::empty(),
    decreases subs.len(),
{
    if subs.len() > 0 {
        let outs0 = outs.drop_last();
        lemma_only_closed_subscribers_leave(subs.drop_last(), outs0);
        assert(flags_of(outs).drop_last() =~= flags_of(outs0));
        assert(flags_of(outs).last() == (outs.last() matches Err(TrySendError::Closed(_))));
        if forall|i: int| 0 <= i < outs.len() ==> !(#[trigger] outs[i] matches Err(TrySendError::Closed(_))) {
            assert forall|i: int| 0 <= i < outs0.len() implies !(#[trigger] outs0[i] matches Err(TrySendError::Closed(_))) by {
                assert(outs0[i] == outs[i]);
            }
            assert(!(outs[outs.len() - 1] matches Err(TrySendError::Closed(_))));
            assert(subs.drop_last().push(subs.last()) =~= subs);
        }
        if forall|i: int| 0 <= i < outs.len() ==> (#[trigger] outs[i] matches Err(TrySendError::Closed(_))) {
            assert forall|i: int| 0 <= i < outs0.len() implies (#[trigger] outs0[i] matches Err(TrySendError::Closed(_))) by {
                assert(outs0[i] == outs[i]);
            }
            assert(outs[outs.len() - 1] matches Err(TrySendError::Closed(_)));
        }
    }
}

} // verus!

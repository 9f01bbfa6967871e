//! Subscriptions: the long-lived message sources an application asks for, and the
//! set of active ones, reconciled with the application's wishes after each update.
use vstd::prelude::*;

verus! {

/// A running message source, identified by the subscription that started it.
pub struct Source<St> {
    id: u64,
    stream: St,
}

impl<St> Source<St> {
    pub closed spec fn spec_id(&self) -> u64 {
        self.id
    }

    pub closed spec fn spec_stream(&self) -> St {
        self.stream
    }

    pub fn new(id: u64, stream: St) -> (s: Self)
        ensures
            s.spec_id() == id,
            s.spec_stream() == stream,
    {
        Source { id, stream }
    }

    pub fn id(&self) -> (r: u64)
        ensures
            r == self.spec_id(),
    {
        self.id
    }

    /// The source's stream, to poll it.
    pub fn stream_mut(&mut self) -> (r: &mut St)
        ensures
            *r == old(self).spec_stream(),
            final(self).spec_stream() == *final(r),
            final(self).spec_id() == old(self).spec_id(),
    {
        &mut self.stream
    }
}

/// A message source that an application asks for: an identity, and how to start
/// it. Two subscriptions with the same identity stand for the same source.
pub struct Subscription<B> {
    id: u64,
    builder: B,
}

impl<B> Subscription<B> {
    pub closed spec fn spec_id(&self) -> u64 {
        self.id
    }

    pub closed spec fn spec_builder(&self) -> B {
        self.builder
    }

    /// A subscription with identity `id`, started by calling `builder`.
    pub fn from_id(id: u64, builder: B) -> (s: Self)
        ensures
            s.spec_id() == id,
            s.spec_builder() == builder,
    {
        Subscription { id, builder }
    }

    pub fn id(&self) -> (r: u64)
        ensures
            r == self.spec_id(),
    {
        self.id
    }

    /// Starts the source, handing the builder the terminal's event stream.
    pub fn build<T, St>(self, stream: &mut T) -> (s: Source<St>)
        where B: FnOnce(&mut T) -> St
        requires
            forall|x: &mut T| self.spec_builder().requires((x,)),
        ensures
            s.spec_id() == self.spec_id(),
            exists|x: &mut T|
                *x == *old(stream) && *final(x) == *final(stream)
                    && self.spec_builder().ensures((x,), s.spec_stream()),
    {
        assert(self.spec_builder().requires((stream,)));
        let Subscription { id, builder } = self;
        let stream = builder(stream);
        Source { id, stream }
    }
}

/// The identities of some subscriptions, in order.
pub open spec fn subscription_ids<B>(subs: Seq<Subscription<B>>) -> Seq<u64> {
    Seq::new(subs.len(), |i: int| subs[i].spec_id())
}

/// The identities of some sources, in order.
pub open spec fn source_ids<St>(sources: Seq<Source<St>>) -> Seq<u64> {
    Seq::new(sources.len(), |i: int| sources[i].spec_id())
}

/// The sources whose identity is in `ids`, in their order.
pub open spec fn still_wanted<St>(sources: Seq<Source<St>>, ids: Seq<u64>) -> Seq<Source<St>>
    decreases sources.len(),
{
    if sources.len() == 0 {
        Seq::empty()
    } else {
        let rest = still_wanted(sources.drop_last(), ids);
        if ids.contains(sources.last().spec_id()) {
            rest.push(sources.last())
        } else {
            rest
        }
    }
}

/// The identities of `incoming` that are not in `present`, each once, in the order
/// of their first occurrence.
pub open spec fn newly_wanted(incoming: Seq<u64>, present: Seq<u64>) -> Seq<u64>
    decreases incoming.len(),
{
    if incoming.len() == 0 {
        Seq::empty()
    } else if present.contains(incoming[0]) {
        newly_wanted(incoming.drop_first(), present)
    } else {
        seq![incoming[0]] + newly_wanted(incoming.drop_first(), present.push(incoming[0]))
    }
}

/// The subscriptions whose source gets started when `subs` are wanted and sources
/// with the identities in `present` run already: the first subscription of each
/// identity not in `present`, in order.
pub open spec fn started<B>(subs: Seq<Subscription<B>>, present: Seq<u64>) -> Seq<Subscription<B>>
    decreases subs.len(),
{
    if subs.len() == 0 {
        Seq::empty()
    } else if present.contains(subs[0].spec_id()) {
        started(subs.drop_first(), present)
    } else {
        seq![subs[0]] + started(subs.drop_first(), present.push(subs[0].spec_id()))
    }
}

/// The streams of some sources, in order.
pub open spec fn source_streams<St>(sources: Seq<Source<St>>) -> Seq<St> {
    Seq::new(sources.len(), |i: int| sources[i].spec_stream())
}

/// `refs` are borrows of the event stream handed to the builders of `starters`, in
/// turn: the first sees `t0`, and builder `k` made stream `streams[k]`. (That each
/// borrow sees what the previous one left is stated where the borrows end.)
pub open spec fn builders_made<B, T, St>(refs: Seq<&mut T>, starters: Seq<Subscription<B>>, streams: Seq<St>, t0: T) -> bool
    where B: FnOnce(&mut T) -> St
{
    &&& refs.len() == starters.len()
    &&& streams.len() == starters.len()
    &&& refs.len() > 0 ==> *refs[0] == t0
    &&& forall|k: int|
        0 <= k < refs.len() ==> #[trigger] starters[k].spec_builder().ensures((refs[k],), streams[k])
}

/// The running sources, at most one per identity.
pub struct Active<St> {
    sources: Vec<Source<St>>,
}

impl<St> Active<St> {
    #[verifier::type_invariant]
    spec fn distinct_ids(self) -> bool {
        source_ids(self.sources@).no_duplicates()
    }

    /// The running sources, oldest first.
    pub closed spec fn spec_sources(&self) -> Seq<Source<St>> {
        self.sources@
    }

    /// The identities of the running sources, oldest first.
    pub open spec fn ids(&self) -> Seq<u64> {
        source_ids(self.spec_sources())
    }

    /// No source is running.
    pub fn new() -> (a: Self)
        ensures
            a.spec_sources() == Seq::<Source<St>>::empty(),
    {
        Active { sources: Vec::new() }
    }

    pub fn len(&self) -> (r: usize)
        ensures
            r == self.spec_sources().len(),
    {
        self.sources.len()
    }

    pub fn is_empty(&self) -> (r: bool)
        ensures
            r == (self.spec_sources().len() == 0),
    {
        self.sources.len() == 0
    }

    /// Puts `stream` in place of the stream of the source at position `i`, and hands
    /// out the stream it replaces; the source keeps its identity and place. The
    /// runner takes a stream out this way to poll it, then puts it back.
    pub fn swap_stream(&mut self, i: usize, stream: St) -> (r: St)
        requires
            i < old(self).spec_sources().len(),
        ensures
            r == old(self).spec_sources()[i as int].spec_stream(),
            final(self).spec_sources().len() == old(self).spec_sources().len(),
            final(self).ids() == old(self).ids(),
            final(self).spec_sources()[i as int].spec_stream() == stream,
            final(self).ids().no_duplicates(),
            forall|j: int|
                0 <= j < old(self).spec_sources().len() && j != i ==> final(self).spec_sources()[j]
                    == old(self).spec_sources()[j],
    {
        proof {
            use_type_invariant(&*self);
        }
        let mut sources: Vec<Source<St>> = Vec::new();
        std::mem::swap(&mut sources, &mut self.sources);
        let ghost before = sources@;
        let taken = sources.remove(i);
        let id = taken.id;
        sources.insert(i, Source { id, stream });
        proof {
            assert(source_ids(sources@) =~= source_ids(before));
        }
        self.sources = sources;
        proof {
            use_type_invariant(&*self);
        }
        taken.stream
    }

    /// Stops the source at position `i`, whose stream ended.
    pub fn remove(&mut self, i: usize) -> (s: Source<St>)
        requires
            i < old(self).spec_sources().len(),
        ensures
            s == old(self).spec_sources()[i as int],
            final(self).spec_sources() == old(self).spec_sources().remove(i as int),
            final(self).ids().no_duplicates(),
    {
        proof {
            use_type_invariant(&*self);
        }
        let mut sources: Vec<Source<St>> = Vec::new();
        std::mem::swap(&mut sources, &mut self.sources);
        let ghost before = sources@;
        let s = sources.remove(i);
        proof {
            assert(source_ids(sources@) == source_ids(before).remove(i as int));
            lemma_no_duplicates_after_remove(source_ids(before), i as int);
        }
        self.sources = sources;
        proof {
            use_type_invariant(&*self);
        }
        s
    }
}

impl<St> Active<St> {
    /// Whether a source with identity `id` runs in `sources`.
    fn has_id(sources: &Vec<Source<St>>, id: u64) -> (r: bool)
        ensures
            r == source_ids(sources@).contains(id),
    {
        let mut i: usize = 0;
        while i < sources.len()
            invariant
                i <= sources.len(),
                forall|j: int| 0 <= j < i ==> sources@[j].spec_id() != id,
            decreases sources.len() - i,
        {
            if sources[i].id() == id {
                assert(source_ids(sources@)[i as int] == id);
                return true;
            }
            i = i + 1;
        }
        assert forall|k: int| 0 <= k < source_ids(sources@).len() implies source_ids(sources@)[k] != id by {
            assert(sources@[k].spec_id() != id);
        }
        false
    }

    /// Whether one of `subscriptions` has identity `id`.
    fn wanted<B>(subscriptions: &Vec<Subscription<B>>, id: u64) -> (r: bool)
        ensures
            r == subscription_ids(subscriptions@).contains(id),
    {
        let mut i: usize = 0;
        while i < subscriptions.len()
            invariant
                i <= subscriptions.len(),
                forall|j: int| 0 <= j < i ==> subscriptions@[j].spec_id() != id,
            decreases subscriptions.len() - i,
        {
            if subscriptions[i].id() == id {
                assert(subscription_ids(subscriptions@)[i as int] == id);
                return true;
            }
            i = i + 1;
        }
        assert forall|k: int| 0 <= k < subscription_ids(subscriptions@).len() implies subscription_ids(subscriptions@)[k] != id by {
            assert(subscriptions@[k].spec_id() != id);
        }
        false
    }

    /// Starts `subscription`'s source unless a source with its identity runs already.
    fn add<T, B>(&mut self, stream: &mut T, subscription: Subscription<B>)
        where B: FnOnce(&mut T) -> St
        requires
            forall|x: &mut T| subscription.spec_builder().requires((x,)),
        ensures
            final(self).spec_sources().len() >= old(self).spec_sources().len(),
            final(self).spec_sources().take(old(self).spec_sources().len() as int) == old(self).spec_sources(),
            final(self).ids() == (if old(self).ids().contains(subscription.spec_id()) {
                old(self).ids()
            } else {
                old(self).ids().push(subscription.spec_id())
            }),
            old(self).ids().contains(subscription.spec_id()) ==> final(self).spec_sources() == old(self).spec_sources()
                && *final(stream) == *old(stream),
            !old(self).ids().contains(subscription.spec_id()) ==> exists|x: &mut T|
                *x == *old(stream) && *final(x) == *final(stream)
                    && subscription.spec_builder().ensures((x,), final(self).spec_sources().last().spec_stream()),
    {
        proof {
            use_type_invariant(&*self);
        }
        let registered = Self::has_id(&self.sources, subscription.id());
        if !registered {
            let ghost id = subscription.spec_id();
            let ghost b = subscription.spec_builder();
            let source = subscription.build(stream);
            let ghost st = source.spec_stream();
            let mut sources: Vec<Source<St>> = Vec::new();
            std::mem::swap(&mut sources, &mut self.sources);
            let ghost before = sources@;
            sources.push(source);
            proof {
                assert(sources@.take(before.len() as int) == before);
                assert(source_ids(sources@) == source_ids(before).push(id));
                lemma_push_fresh_keeps_distinct(source_ids(before), id);
                assert(sources@.last().spec_stream() == st);
            }
            self.sources = sources;
        } else {
            proof {
                assert(self.sources@.take(self.sources@.len() as int) == self.sources@);
            }
        }
    }

    /// Reconciles the running sources with the subscriptions the application wants
    /// now. Sources whose identity is still wanted keep running, untouched and in
    /// their order; the others stop. Then every wanted identity that has no source
    /// yet gets one, started from the first subscription with that identity, in the
    /// order of the subscriptions. Only those subscriptions' builders run, once each
    /// and in that order, each on the event stream as the previous one left it; no
    /// other builder runs and nothing else touches the event stream. The running
    /// sources keep distinct identities.
    pub fn diff<T, B>(&mut self, stream: &mut T, subscriptions: Vec<Subscription<B>>)
        where B: FnOnce(&mut T) -> St
        requires
            forall|i: int, x: &mut T|
                0 <= i < subscriptions.len() ==> #[trigger] subscriptions@[i].spec_builder().requires((x,)),
        ensures
            ({
                let kept = still_wanted(old(self).spec_sources(), subscription_ids(subscriptions@));
                &&& final(self).spec_sources().take(kept.len() as int) == kept
                &&& final(self).ids() == source_ids(kept) + newly_wanted(
                    subscription_ids(subscriptions@),
                    source_ids(kept),
                )
                &&& final(self).ids().no_duplicates()
            }),
            exists|refs: Seq<&mut T>|
                {
                    &&& #[trigger] builders_made(
                        refs,
                        started(
                            subscriptions@,
                            source_ids(still_wanted(old(self).spec_sources(), subscription_ids(subscriptions@))),
                        ),
                        source_streams(
                            final(self).spec_sources().skip(
                                still_wanted(old(self).spec_sources(), subscription_ids(subscriptions@)).len() as int,
                            ),
                        ),
                        *old(stream),
                    )
                    &&& refs.len() == 0 ==> *final(stream) == *old(stream)
                    &&& refs.len() > 0 ==> *final(refs[refs.len() - 1]) == *final(stream)
                    &&& forall|i: int| 0 <= i < refs.len() - 1 ==> *final(#[trigger] refs[i]) == *refs[i + 1]
                },
    {
        proof {
            use_type_invariant(&*self);
        }
        let ghost incoming = subscription_ids(subscriptions@);
        let ghost olds_orig = self.sources@;
        let mut olds: Vec<Source<St>> = Vec::new();
        std::mem::swap(&mut olds, &mut self.sources);
        let mut kept: Vec<Source<St>> = Vec::new();
        let ghost mut j: int = 0;
        while olds.len() > 0
            invariant
                0 <= j <= olds_orig.len(),
                olds@ == olds_orig.skip(j),
                kept@ == still_wanted(olds_orig.take(j), incoming),
                incoming == subscription_ids(subscriptions@),
            decreases olds.len(),
        {
            let source = olds.remove(0);
            proof {
                assert(source == olds_orig[j]);
                assert(olds_orig.take(j + 1).drop_last() == olds_orig.take(j));
                assert(olds_orig.take(j + 1).last() == olds_orig[j]);
                assert(olds_orig.skip(j).drop_first() == olds_orig.skip(j + 1));
            }
            let was_previously = Self::wanted(&subscriptions, source.id());
            if was_previously {
                kept.push(source);
            }
            proof {
                j = j + 1;
            }
        }
        proof {
            assert(olds_orig.take(j) == olds_orig);
            lemma_still_wanted_distinct(olds_orig, incoming);
        }
        let ghost kept_seq = kept@;
        let ghost present = source_ids(kept_seq);
        self.sources = kept;

        let ghost subs_orig = subscriptions@;
        let ghost t0 = *stream;
        let mut rest = subscriptions;
        let ghost mut k: int = 0;
        proof {
            assert(subs_orig.take(0) =~= Seq::<Subscription<B>>::empty());
            assert(subscription_ids(started(subs_orig.take(0), present)) =~= Seq::<u64>::empty());
            assert(self.spec_sources().take(kept_seq.len() as int) =~= kept_seq);
            assert(self.ids() =~= source_ids(kept_seq) + subscription_ids(started(subs_orig.take(0), present)));
            assert(source_streams(self.spec_sources().skip(kept_seq.len() as int)) =~= Seq::<St>::empty());
            let refs0 = Seq::<&mut T>::empty();
            assert(builders_made(refs0, started(subs_orig.take(0), present), source_streams(self.spec_sources().skip(kept_seq.len() as int)), t0));
        }
        while rest.len() > 0
            invariant
                0 <= k <= subs_orig.len(),
                rest@ == subs_orig.skip(k),
                incoming == subscription_ids(subs_orig),
                present == source_ids(kept_seq),
                forall|i: int, x: &mut T|
                    0 <= i < subs_orig.len() ==> #[trigger] subs_orig[i].spec_builder().requires((x,)),
                kept_seq.len() <= self.spec_sources().len(),
                self.spec_sources().take(kept_seq.len() as int) == kept_seq,
                self.ids() == present + subscription_ids(started(subs_orig.take(k), present)),
                exists|refs: Seq<&mut T>|
                    {
                        &&& #[trigger] builders_made(
                            refs,
                            started(subs_orig.take(k), present),
                            source_streams(self.spec_sources().skip(kept_seq.len() as int)),
                            t0,
                        )
                        &&& refs.len() == 0 ==> *stream == t0
                        &&& refs.len() > 0 ==> *final(refs[refs.len() - 1]) == *stream
                        &&& forall|i: int| 0 <= i < refs.len() - 1 ==> *final(#[trigger] refs[i]) == *refs[i + 1]
                    },
            decreases rest.len(),
        {
            let subscription = rest.remove(0);
            let ghost refs = choose|refs: Seq<&mut T>|
                {
                    &&& #[trigger] builders_made(
                        refs,
                        started(subs_orig.take(k), present),
                        source_streams(self.spec_sources().skip(kept_seq.len() as int)),
                        t0,
                    )
                    &&& refs.len() == 0 ==> *stream == t0
                    &&& refs.len() > 0 ==> *final(refs[refs.len() - 1]) == *stream
                    &&& forall|i: int| 0 <= i < refs.len() - 1 ==> *final(#[trigger] refs[i]) == *refs[i + 1]
                };
            let ghost starters = started(subs_orig.take(k), present);
            let ghost streams = source_streams(self.spec_sources().skip(kept_seq.len() as int));
            let ghost cur = *stream;
            proof {
                assert(subscription == subs_orig[k]);
                assert(rest@ == subs_orig.skip(k + 1));
                assert(subs_orig.take(k + 1) == subs_orig.take(k).push(subscription));
                lemma_started_extend(subs_orig.take(k), present, subscription);
                lemma_subscription_ids_concat(starters, seq![subscription]);
                assert(subscription_ids(seq![subscription]) =~= seq![subscription.spec_id()]);
                assert(forall|x: &mut T| subscription.spec_builder().requires((x,)));
            }
            let ghost before = self.spec_sources();
            let ghost fresh = !self.ids().contains(subscription.spec_id());
            self.add(stream, subscription);
            proof {
                assert forall|i: int| 0 <= i < kept_seq.len() implies self.spec_sources()[i] == kept_seq[i] by {
                    assert(self.spec_sources().take(before.len() as int)[i] == before[i]);
                    assert(before.take(kept_seq.len() as int)[i] == kept_seq[i]);
                }
                assert(self.spec_sources().take(kept_seq.len() as int) =~= kept_seq);
                if fresh {
                    let new_streams = source_streams(self.spec_sources().skip(kept_seq.len() as int));
                    assert(self.spec_sources() == before.push(self.spec_sources().last())) by {
                        assert(self.spec_sources().len() == before.len() + 1) by {
                            assert(self.ids().len() == before.len() + 1);
                        }
                        assert forall|i: int| 0 <= i < before.len() implies self.spec_sources()[i] == before[i] by {
                            assert(self.spec_sources().take(before.len() as int)[i] == before[i]);
                        }
                        assert(self.spec_sources() =~= before.push(self.spec_sources().last()));
                    }
                    assert(new_streams =~= streams.push(self.spec_sources().last().spec_stream()));
                    let x = choose|x: &mut T|
                        #![trigger subscription.spec_builder().ensures((x,), self.spec_sources().last().spec_stream())]
                        *x == cur && *final(x) == *stream
                            && subscription.spec_builder().ensures((x,), self.spec_sources().last().spec_stream());
                    let refs2 = refs.push(x);
                    assert(started(subs_orig.take(k + 1), present) == starters.push(subscription)) by {
                        assert(starters + seq![subscription] =~= starters.push(subscription));
                    }
                    assert forall|i: int| 0 <= i < refs2.len() - 1 implies *final(#[trigger] refs2[i]) == *refs2[i + 1] by {
                        if i < refs.len() - 1 {
                            assert(refs2[i] == refs[i] && refs2[i + 1] == refs[i + 1]);
                        } else {
                            assert(refs2[i] == refs[refs.len() - 1]);
                            assert(refs2[i + 1] == x);
                        }
                    }
                    assert(builders_made(refs2, starters.push(subscription), new_streams, t0)) by {
                        assert forall|i: int| 0 <= i < refs2.len() implies #[trigger] starters.push(subscription)[i].spec_builder().ensures((refs2[i],), new_streams[i]) by {
                            if i < refs.len() {
                                assert(refs2[i] == refs[i]);
                                assert(starters.push(subscription)[i] == starters[i]);
                                assert(new_streams[i] == streams[i]);
                            } else {
                                assert(refs2[i] == x);
                            }
                        }
                    }
                    assert(refs2.len() > 0 ==> *final(refs2[refs2.len() - 1]) == *stream);
                } else {
                    assert(self.spec_sources() == before);
                    assert(started(subs_orig.take(k + 1), present) =~= starters);
                    assert(*stream == cur);
                }
                k = k + 1;
            }
        }
        proof {
            assert(subs_orig.take(k) == subs_orig);
            lemma_started_ids(subs_orig, present);
            use_type_invariant(&*self);
        }
    }
}

proof fn lemma_subscription_ids_concat<B>(a: Seq<Subscription<B>>, b: Seq<Subscription<B>>)
    ensures
        subscription_ids(a + b) == subscription_ids(a) + subscription_ids(b),
{
    assert(subscription_ids(a + b) =~= subscription_ids(a) + subscription_ids(b));
}

proof fn lemma_started_ids<B>(subs: Seq<Subscription<B>>, present: Seq<u64>)
    ensures
        subscription_ids(started(subs, present)) == newly_wanted(subscription_ids(subs), present),
    decreases subs.len(),
{
    let ids = subscription_ids(subs);
    if subs.len() == 0 {
        assert(subscription_ids(started(subs, present)) =~= Seq::<u64>::empty());
    } else {
        let h = subs[0];
        let t = subs.drop_first();
        assert(ids[0] == h.spec_id());
        assert(ids.drop_first() =~= subscription_ids(t));
        if present.contains(h.spec_id()) {
            lemma_started_ids(t, present);
        } else {
            let p2 = present.push(h.spec_id());
            lemma_started_ids(t, p2);
            lemma_subscription_ids_concat(seq![h], started(t, p2));
            assert(subscription_ids(seq![h]) =~= seq![h.spec_id()]);
        }
    }
}

proof fn lemma_started_extend<B>(a: Seq<Subscription<B>>, present: Seq<u64>, x: Subscription<B>)
    ensures
        started(a.push(x), present) == started(a, present) + (if (present + subscription_ids(
            started(a, present),
        )).contains(x.spec_id()) {
            Seq::<Subscription<B>>::empty()
        } else {
            seq![x]
        }),
    decreases a.len(),
{
    if a.len() == 0 {
        assert(a.push(x) == seq![x]);
        assert(seq![x].drop_first() =~= Seq::<Subscription<B>>::empty());
        assert(subscription_ids(Seq::<Subscription<B>>::empty()) =~= Seq::<u64>::empty());
        assert(present + Seq::<u64>::empty() =~= present);
        assert(seq![x] + Seq::<Subscription<B>>::empty() =~= seq![x]);
        assert(Seq::<Subscription<B>>::empty() + seq![x] =~= seq![x]);
        assert(Seq::<Subscription<B>>::empty() + Seq::<Subscription<B>>::empty() =~= Seq::<Subscription<B>>::empty());
        assert(started(a, present) == Seq::<Subscription<B>>::empty());
        assert(seq![x][0] == x);
        assert(started(Seq::<Subscription<B>>::empty(), present.push(x.spec_id())) == Seq::<Subscription<B>>::empty());
        assert(started(Seq::<Subscription<B>>::empty(), present) == Seq::<Subscription<B>>::empty());
        if present.contains(x.spec_id()) {
            assert(started(seq![x], present) == started(seq![x].drop_first(), present));
        } else {
            assert(started(seq![x], present) == seq![x] + started(seq![x].drop_first(), present.push(x.spec_id())));
        }
    } else {
        let h = a[0];
        let t = a.drop_first();
        assert(a.push(x)[0] == h);
        assert(a.push(x).drop_first() =~= t.push(x));
        if present.contains(h.spec_id()) {
            lemma_started_extend(t, present, x);
        } else {
            let p2 = present.push(h.spec_id());
            lemma_started_extend(t, p2, x);
            lemma_subscription_ids_concat(seq![h], started(t, p2));
            assert(subscription_ids(seq![h]) =~= seq![h.spec_id()]);
            assert(present + subscription_ids(started(a, present)) =~= p2 + subscription_ids(started(t, p2)));
            let tail = if (p2 + subscription_ids(started(t, p2))).contains(x.spec_id()) {
                Seq::<Subscription<B>>::empty()
            } else {
                seq![x]
            };
            assert(seq![h] + started(t, p2) + tail =~= seq![h] + (started(t, p2) + tail));
        }
    }
}

proof fn lemma_push_fresh_keeps_distinct(s: Seq<u64>, x: u64)
    requires
        s.no_duplicates(),
        !s.contains(x),
    ensures
        s.push(x).no_duplicates(),
{
    let t = s.push(x);
    assert forall|a: int, b: int| 0 <= a < t.len() && 0 <= b < t.len() && a != b implies t[a] != t[b] by {
        if a < s.len() && b < s.len() {
            assert(t[a] == s[a] && t[b] == s[b]);
        } else if a < s.len() {
            assert(t[a] == s[a]);
        } else if b < s.len() {
            assert(t[b] == s[b]);
        }
    }
}

proof fn lemma_still_wanted_ids<St>(sources: Seq<Source<St>>, ids: Seq<u64>, x: u64)
    ensures
        source_ids(still_wanted(sources, ids)).contains(x) <==> (source_ids(sources).contains(x) && ids.contains(x)),
    decreases sources.len(),
{
    if sources.len() > 0 {
        let init = sources.drop_last();
        let rest = still_wanted(init, ids);
        let y = sources.last().spec_id();
        lemma_still_wanted_ids(init, ids, x);
        assert(source_ids(sources) == source_ids(init).push(y));
        vstd::seq_lib::lemma_seq_contains_after_push(source_ids(init), y, x);
        if ids.contains(y) {
            assert(source_ids(rest.push(sources.last())) == source_ids(rest).push(y));
            vstd::seq_lib::lemma_seq_contains_after_push(source_ids(rest), y, x);
        }
    } else {
        assert(source_ids(still_wanted(sources, ids)) =~= Seq::<u64>::empty());
    }
}

proof fn lemma_still_wanted_distinct<St>(sources: Seq<Source<St>>, ids: Seq<u64>)
    requires
        source_ids(sources).no_duplicates(),
    ensures
        source_ids(still_wanted(sources, ids)).no_duplicates(),
    decreases sources.len(),
{
    if sources.len() > 0 {
        let init = sources.drop_last();
        let rest = still_wanted(init, ids);
        assert(source_ids(sources) == source_ids(init).push(sources.last().spec_id()));
        assert(source_ids(init).no_duplicates()) by {
            assert forall|a: int, b: int| 0 <= a < source_ids(init).len() && 0 <= b < source_ids(init).len() && a != b
                implies source_ids(init)[a] != source_ids(init)[b] by {
                assert(source_ids(init)[a] == source_ids(sources)[a]);
                assert(source_ids(init)[b] == source_ids(sources)[b]);
            }
        }
        lemma_still_wanted_distinct(init, ids);
        if ids.contains(sources.last().spec_id()) {
            let x = sources.last().spec_id();
            assert(!source_ids(init).contains(x)) by {
                if source_ids(init).contains(x) {
                    let a = choose|a: int| 0 <= a < source_ids(init).len() && source_ids(init)[a] == x;
                    assert(source_ids(sources)[a] == x);
                    assert(source_ids(sources)[sources.len() - 1] == x);
                }
            }
            lemma_still_wanted_ids(init, ids, x);
            assert(source_ids(rest.push(sources.last())) == source_ids(rest).push(x));
            lemma_push_fresh_keeps_distinct(source_ids(rest), x);
        }
    }
}

proof fn lemma_newly_wanted_ids(incoming: Seq<u64>, present: Seq<u64>, x: u64)
    ensures
        newly_wanted(incoming, present).contains(x) <==> (incoming.contains(x) && !present.contains(x)),
    decreases incoming.len(),
{
    if incoming.len() > 0 {
        let h = incoming[0];
        let t = incoming.drop_first();
        assert(incoming == seq![h] + t);
        vstd::seq_lib::lemma_seq_concat_contains_all_elements(seq![h], t, x);
        assert(seq![h].contains(x) <==> x == h) by {
            if x == h {
                assert(seq![h][0] == x);
            }
        }
        if present.contains(h) {
            lemma_newly_wanted_ids(t, present, x);
        } else {
            lemma_newly_wanted_ids(t, present.push(h), x);
            vstd::seq_lib::lemma_seq_contains_after_push(present, h, x);
            vstd::seq_lib::lemma_seq_concat_contains_all_elements(seq![h], newly_wanted(t, present.push(h)), x);
        }
    }
}

/// Reconciling the running sources with what the application wants leaves exactly
/// the wanted identities running: an identity has a source afterwards exactly when
/// one of the wanted subscriptions has it (and, by the type's invariant, only one).
pub proof fn lemma_diff_runs_exactly_the_wanted<St>(old_sources: Seq<Source<St>>, incoming: Seq<u64>, x: u64)
    ensures
        ({
            let kept = still_wanted(old_sources, incoming);
            (source_ids(kept) + newly_wanted(incoming, source_ids(kept))).contains(x) <==> incoming.contains(x)
        }),
{
    let kept = still_wanted(old_sources, incoming);
    vstd::seq_lib::lemma_seq_concat_contains_all_elements(
        source_ids(kept),
        newly_wanted(incoming, source_ids(kept)),
        x,
    );
    lemma_still_wanted_ids(old_sources, incoming, x);
    lemma_newly_wanted_ids(incoming, source_ids(kept), x);
}

/// A source whose identity is still wanted keeps running across a reconciliation:
/// it is not restarted, and it keeps its place among the other kept sources.
pub proof fn lemma_diff_keeps_wanted_sources<St>(old_sources: Seq<Source<St>>, incoming: Seq<u64>, i: int)
    requires
        0 <= i < old_sources.len(),
        incoming.contains(old_sources[i].spec_id()),
    ensures
        still_wanted(old_sources, incoming).contains(old_sources[i]),
    decreases old_sources.len(),
{
    let init = old_sources.drop_last();
    let rest = still_wanted(init, incoming);
    if i < old_sources.len() - 1 {
        assert(init[i] == old_sources[i]);
        lemma_diff_keeps_wanted_sources(init, incoming, i);
        vstd::seq_lib::lemma_seq_contains_after_push(rest, old_sources.last(), old_sources[i]);
    } else {
        vstd::seq_lib::lemma_seq_contains_after_push(rest, old_sources.last(), old_sources[i]);
    }
}

proof fn lemma_no_duplicates_after_remove(s: Seq<u64>, i: int)
    requires
        s.no_duplicates(),
        0 <= i < s.len(),
    ensures
        s.remove(i).no_duplicates(),
{
    let r = s.remove(i);
    assert forall|a: int, b: int| 0 <= a < r.len() && 0 <= b < r.len() && a != b implies r[a] != r[b] by {
        let sa = if a < i { a } else { a + 1 };
        let sb = if b < i { b } else { b + 1 };
        assert(r[a] == s[sa]);
        assert(r[b] == s[sb]);
    }
}

} // verus!

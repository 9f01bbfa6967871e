//! The decisions of the application's event loop: what a widget's reaction to an
//! input event asks of the runner, and what the runner does with each thing it
//! wakes up for.
use crate::runtime::JoinError;
use crate::terminal::Cursor;
use vstd::prelude::*;

verus! {

/// What widgets see and leave behind while they react to one input event: the
/// pointer, the messages they publish for the application, and whether they ask
/// for a redraw.
#[derive(Debug)]
pub struct Context<Message> {
    cursor: Cursor,
    messages: Vec<Message>,
    redraw: bool,
}

impl<Message> Context<Message> {
    pub closed spec fn spec_cursor(&self) -> Cursor {
        self.cursor
    }

    /// The messages published so far, oldest first.
    pub closed spec fn pending(&self) -> Seq<Message> {
        self.messages@
    }

    /// A widget asked for a redraw.
    pub closed spec fn redraw_requested(&self) -> bool {
        self.redraw
    }

    /// The runner must redraw: a widget asked for it or published a message.
    pub open spec fn spec_should_redraw(&self) -> bool {
        self.redraw_requested() || self.pending().len() > 0
    }

    /// A context for one event, with the pointer at `cursor`, no message and no
    /// redraw request.
    pub fn new(cursor: Cursor) -> (c: Self)
        ensures
            c.spec_cursor() == cursor,
            c.pending() == Seq::<Message>::empty(),
            !c.redraw_requested(),
    {
        Context { cursor, messages: Vec::new(), redraw: false }
    }

    pub fn cursor(&self) -> (r: &Cursor)
        ensures
            *r == self.spec_cursor(),
    {
        &self.cursor
    }

    /// Publishes a message for the application's `update`.
    pub fn publish(&mut self, message: Message)
        ensures
            final(self).pending() == old(self).pending().push(message),
            final(self).redraw_requested() == old(self).redraw_requested(),
            final(self).spec_cursor() == old(self).spec_cursor(),
    {
        self.messages.push(message);
    }

    pub fn should_redraw(&self) -> (r: bool)
        ensures
            r == self.spec_should_redraw(),
    {
        self.redraw || self.messages.len() > 0
    }

    /// Asks the runner to redraw.
    pub fn redraw(&mut self)
        ensures
            final(self).redraw_requested(),
            final(self).pending() == old(self).pending(),
            final(self).spec_cursor() == old(self).spec_cursor(),
    {
        self.redraw = true;
    }

    /// Hands out the published messages, oldest first, and forgets them.
    pub fn messages(&mut self) -> (r: Vec<Message>)
        ensures
            r@ == old(self).pending(),
            final(self).pending() == Seq::<Message>::empty(),
            final(self).redraw_requested() == old(self).redraw_requested(),
            final(self).spec_cursor() == old(self).spec_cursor(),
    {
        let mut taken: Vec<Message> = Vec::new();
        std::mem::swap(&mut taken, &mut self.messages);
        taken
    }
}

/// What the runner makes of the widgets' reaction to an input event: nothing when
/// no widget asked for a redraw or published anything; otherwise the published
/// messages, oldest first, for the application's `update`, to be followed by a
/// redraw.
pub fn handled_event<Message>(ctx: &mut Context<Message>) -> (r: Option<Vec<Message>>)
    ensures
        r is None <==> !old(ctx).spec_should_redraw(),
        r matches Some(msgs) ==> msgs@ == old(ctx).pending(),
        final(ctx).pending() == Seq::<Message>::empty(),
{
    if !ctx.should_redraw() {
        return None;
    }
    Some(ctx.messages())
}

/// What the runner woke up for.
pub enum Wake<Message, Event, Error> {
    /// A subscription produced a message (or had nothing).
    Subscription(Option<Message>),
    /// A background task finished, with its message or how it failed (or there was
    /// nothing to wait for).
    Task(Option<Result<Message, JoinError>>),
    /// The terminal produced an input event or an error, or its stream ended.
    Terminal(Option<Result<Event, Error>>),
}

/// What the runner does next.
pub enum Step<Message, Event, Error> {
    /// Hand the message to the application's `update`, then redraw.
    Update(Message),
    /// Redraw without updating.
    Redraw,
    /// Let the widgets react to the input event; redraw only if they ask for it.
    Handle(Event),
    /// Stop with this error.
    Fail(Error),
    /// Stop: there is no more input.
    Stop,
}

/// The runner's decision for each wake-up: messages go to `update`, input events
/// to the widgets, a terminal error ends the loop with that error and the end of
/// the terminal's input ends it normally; a subscription or task that produced
/// nothing (or a failed task) only leads to a redraw.
pub open spec fn spec_step<Message, Event, Error>(wake: Wake<Message, Event, Error>) -> Step<Message, Event, Error> {
    match wake {
        Wake::Subscription(Some(msg)) => Step::Update(msg),
        Wake::Subscription(None) => Step::Redraw,
        Wake::Task(Some(Ok(msg))) => Step::Update(msg),
        Wake::Task(_) => Step::Redraw,
        Wake::Terminal(Some(Ok(event))) => Step::Handle(event),
        Wake::Terminal(Some(Err(error))) => Step::Fail(error),
        Wake::Terminal(None) => Step::Stop,
    }
}

/// The runner's decision for a wake-up.
pub fn step<Message, Event, Error>(wake: Wake<Message, Event, Error>) -> (r: Step<Message, Event, Error>)
    ensures
        r == spec_step(wake),
{
    match wake {
        Wake::Subscription(Some(msg)) => Step::Update(msg),
        Wake::Subscription(None) => Step::Redraw,
        Wake::Task(Some(Ok(msg))) => Step::Update(msg),
        Wake::Task(_) => Step::Redraw,
        Wake::Terminal(Some(Ok(event))) => Step::Handle(event),
        Wake::Terminal(Some(Err(error))) => Step::Fail(error),
        Wake::Terminal(None) => Step::Stop,
    }
}

/// A message reaches the application's `update` the same way whether a
/// subscription or a finished task produced it, and a terminal input event goes to
/// the widgets unchanged; a failed task only leads to a redraw.
pub proof fn lemma_messages_and_events_reach_their_handlers<Message, Event, Error>(
    msg: Message,
    event: Event,
    failure: JoinError,
)
    ensures
        spec_step(Wake::<Message, Event, Error>::Subscription(Some(msg))) == Step::<Message, Event, Error>::Update(msg),
        spec_step(Wake::<Message, Event, Error>::Task(Some(Ok(msg)))) == Step::<Message, Event, Error>::Update(msg),
        spec_step(Wake::<Message, Event, Error>::Terminal(Some(Ok(event)))) == Step::<Message, Event, Error>::Handle(event),
        spec_step(Wake::<Message, Event, Error>::Task(Some(Err(failure)))) is Redraw,
{
}

/// The loop stops only because of the terminal: with that error when the terminal
/// reports one, and normally when the terminal's input is over. Messages, finished
/// tasks and input events never stop it.
pub proof fn lemma_only_the_terminal_stops_the_loop<Message, Event, Error>(wake: Wake<Message, Event, Error>)
    ensures
        spec_step(wake) is Stop <==> wake matches Wake::Terminal(None),
        spec_step(wake) is Fail <==> wake matches Wake::Terminal(Some(Err(_))),
        wake matches Wake::Terminal(Some(Err(e))) ==> spec_step(wake) == Step::<Message, Event, Error>::Fail(e),
{
}

/// Every message a widget publishes reaches the application: once a message is
/// published (`publish` took the context from `before` to `after`), the runner's
/// reaction to the event hands the application's `update` all pending messages in
/// publishing order, the new one last, and redraws.
pub proof fn lemma_published_message_reaches_update<Message>(
    before: Context<Message>,
    after: Context<Message>,
    message: Message,
    r: Option<Vec<Message>>,
)
    requires
        after.pending() == before.pending().push(message),
        r is None <==> !after.spec_should_redraw(),
        r matches Some(msgs) ==> msgs@ == after.pending(),
    ensures
        r matches Some(msgs) && msgs@ == before.pending().push(message) && msgs@.last() == message,
{
}

/// The messages published by a sequence of widget actions, in order: `Some(m)` is a
/// `publish(m)`, `None` a `redraw()`.
pub open spec fn published<Message>(ops: Seq<Option<Message>>) -> Seq<Message>
    decreases ops.len(),
{
    if ops.len() == 0 {
        Seq::empty()
    } else {
        let rest = published(ops.drop_last());
        match ops.last() {
            Some(m) => rest.push(m),
            None => rest,
        }
    }
}

/// `next` is what `publish` (for `Some`) or `redraw` (for `None`) makes of `ctx`,
/// as their contracts say.
pub open spec fn acted<Message>(ctx: Context<Message>, op: Option<Message>, next: Context<Message>) -> bool {
    match op {
        Some(m) => next.pending() == ctx.pending().push(m) && next.redraw_requested() == ctx.redraw_requested(),
        None => next.pending() == ctx.pending() && next.redraw_requested(),
    }
}

proof fn lemma_contexts_follow_actions<Message>(cs: Seq<Context<Message>>, ops: Seq<Option<Message>>, j: int)
    requires
        cs.len() == ops.len() + 1,
        cs[0].pending() == Seq::<Message>::empty(),
        !cs[0].redraw_requested(),
        forall|k: int| 0 <= k < ops.len() ==> #[trigger] acted(cs[k], ops[k], cs[k + 1]),
        0 <= j <= ops.len(),
    ensures
        cs[j].pending() == published(ops.take(j)),
        cs[j].redraw_requested() == ops.take(j).contains(None),
    decreases j,
{
    if j == 0 {
        assert(ops.take(0) =~= Seq::<Option<Message>>::empty());
    } else {
        lemma_contexts_follow_actions(cs, ops, j - 1);
        let k = j - 1;
        assert(acted(cs[k], ops[k], cs[k + 1]));
        assert(k + 1 == j);
        assert(ops.take(j).drop_last() =~= ops.take(j - 1));
        assert(ops.take(j).last() == ops[j - 1]);
        assert(ops.take(j) =~= ops.take(j - 1).push(ops[j - 1]));
        vstd::seq_lib::lemma_seq_contains_after_push(ops.take(j - 1), ops[j - 1], None);
    }
}

/// Draining a context hands out every message published since it was made, in
/// publishing order, whatever redraw requests came in between; afterwards the
/// runner must redraw exactly when a widget asked for it.
pub proof fn lemma_messages_returns_all_published<Message>(
    cs: Seq<Context<Message>>,
    ops: Seq<Option<Message>>,
    r: Seq<Message>,
    after: Context<Message>,
)
    requires
        cs.len() == ops.len() + 1,
        cs[0].pending() == Seq::<Message>::empty(),
        !cs[0].redraw_requested(),
        forall|k: int| 0 <= k < ops.len() ==> #[trigger] acted(cs[k], ops[k], cs[k + 1]),
        r == cs[ops.len() as int].pending(),
        after.pending() == Seq::<Message>::empty(),
        after.redraw_requested() == cs[ops.len() as int].redraw_requested(),
    ensures
        r == published(ops),
        after.spec_should_redraw() == ops.contains(None),
{
    lemma_contexts_follow_actions(cs, ops, ops.len() as int);
    assert(ops.take(ops.len() as int) == ops);
}

} // verus!

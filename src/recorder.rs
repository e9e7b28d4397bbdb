//! The batching actor: decides, for each event that reaches it, which batch to
//! hand to storage, when to wait for outstanding writes and when to
//! acknowledge.  Whoever runs it performs the effects and feeds the next event.
use crate::entry::LogEntry;
use vstd::prelude::*;

verus! {

/// Number of entries after which a batch is written without waiting for a flush.
pub const MAX_BATCH_SIZE: usize = 128;

/// Seconds of inactivity after which buffered entries are flushed.
pub const MAX_FLUSH_DELAY_SECS: u64 = 5;

/// Maximum number of requests queued towards the recorder.
pub const CHANNEL_SIZE: usize = 128;

/// A request sent to the recorder.
#[derive(Debug)]
pub enum Action {
    /// Flush what is buffered, then terminate.
    Stop,
    /// Write what is buffered and wait for every outstanding write.
    Flush,
    /// Persist one entry.
    Record(LogEntry),
}

/// What the recorder observes when it waits for its next request.
#[derive(Debug)]
pub enum Event {
    /// A request arrived.
    Received(Action),
    /// No request arrived within the flush delay.
    Timeout,
    /// Every sender is gone.
    Disconnected,
}

/// What the runner has to do after one step, in this order: start writing
/// `write` as one batch, wait for every outstanding write, send one
/// acknowledgment, and end the recorder.
#[derive(Debug)]
pub struct Effects {
    pub write: Option<Vec<LogEntry>>,
    pub await_writers: bool,
    pub ack: bool,
    pub stop: bool,
}

/// Mathematical form of `Effects`.
pub struct EffectsModel {
    pub write: Option<Seq<LogEntry>>,
    pub await_writers: bool,
    pub ack: bool,
    pub stop: bool,
}

impl View for Effects {
    type V = EffectsModel;

    open spec fn view(&self) -> EffectsModel {
        EffectsModel {
            write: match self.write {
                Some(b) => Some(b@),
                None => None,
            },
            await_writers: self.await_writers,
            ack: self.ack,
            stop: self.stop,
        }
    }
}

/// Mathematical form of a recorder: its buffer, the number of writes started
/// and not yet waited for, and whether it has terminated.
pub struct RecorderModel {
    pub buffer: Seq<LogEntry>,
    pub in_flight: nat,
    pub terminated: bool,
}

/// The state of the batching actor.
pub struct Recorder {
    buffer: Vec<LogEntry>,
    in_flight: Ghost<nat>,
    terminated: bool,
}

impl View for Recorder {
    type V = RecorderModel;

    closed spec fn view(&self) -> RecorderModel {
        RecorderModel {
            buffer: self.buffer@,
            in_flight: self.in_flight@,
            terminated: self.terminated,
        }
    }
}

/// A recorder state that can be reached: the buffer never holds a full batch.
pub open spec fn model_wf(s: RecorderModel) -> bool {
    s.buffer.len() < MAX_BATCH_SIZE
}

/// The effects of a step that writes `batch` (if it is not empty) and then
/// waits for every outstanding write.
pub open spec fn flush_effects(batch: Seq<LogEntry>, ack: bool, stop: bool) -> EffectsModel {
    EffectsModel {
        write: if batch.len() > 0 {
            Some(batch)
        } else {
            None
        },
        await_writers: true,
        ack,
        stop,
    }
}

/// No effect at all.
pub open spec fn no_effects() -> EffectsModel {
    EffectsModel { write: None, await_writers: false, ack: false, stop: false }
}

/// The state after a flush: nothing buffered and nothing outstanding.
pub open spec fn drained(terminated: bool) -> RecorderModel {
    RecorderModel { buffer: Seq::empty(), in_flight: 0, terminated }
}

/// One step of the batching actor: the next state and the effects.
pub open spec fn next(s: RecorderModel, e: Event) -> (RecorderModel, EffectsModel) {
    if s.terminated {
        (s, EffectsModel { stop: true, ..no_effects() })
    } else {
        match e {
            Event::Received(Action::Record(entry)) => {
                let b = s.buffer.push(entry);
                if b.len() == MAX_BATCH_SIZE {
                    (
                        RecorderModel { buffer: Seq::empty(), in_flight: s.in_flight + 1, ..s },
                        EffectsModel { write: Some(b), ..no_effects() },
                    )
                } else {
                    (RecorderModel { buffer: b, ..s }, no_effects())
                }
            },
            Event::Received(Action::Flush) => (drained(false), flush_effects(s.buffer, true, false)),
            Event::Timeout => (drained(false), flush_effects(s.buffer, false, false)),
            Event::Received(Action::Stop) => (drained(true), flush_effects(s.buffer, true, true)),
            Event::Disconnected => (
                RecorderModel { terminated: true, ..s },
                EffectsModel { ack: true, stop: true, ..no_effects() },
            ),
        }
    }
}

impl Recorder {
    /// A running recorder with nothing buffered and nothing outstanding.
    pub fn new() -> (r: Recorder)
        ensures
            r@ == drained(false),
    {
        Recorder { buffer: Vec::new(), in_flight: Ghost(0), terminated: false }
    }

    /// Whether the recorder has terminated.
    pub fn is_terminated(&self) -> (r: bool)
        ensures
            r == self@.terminated,
    {
        self.terminated
    }

    /// Number of entries buffered and not yet handed to storage.
    pub fn buffered(&self) -> (r: usize)
        ensures
            r == self@.buffer.len(),
    {
        self.buffer.len()
    }

    /// Moves the buffer out as a batch, if it holds anything.
    fn take_batch(&mut self) -> (r: Option<Vec<LogEntry>>)
        ensures
            final(self)@.buffer == Seq::<LogEntry>::empty(),
            final(self).in_flight == old(self).in_flight,
            final(self).terminated == old(self).terminated,
            old(self)@.buffer.len() > 0 ==> (r matches Some(b) && b@ == old(self)@.buffer),
            old(self)@.buffer.len() == 0 ==> r is None,
    {
        if self.buffer.len() > 0 {
            let batch = self.buffer.split_off(0);
            assert(self.buffer@ =~= Seq::<LogEntry>::empty());
            assert(batch@ =~= old(self)@.buffer);
            Some(batch)
        } else {
            None
        }
    }

    /// Consumes one event and says what the runner must do.
    pub fn step(&mut self, event: Event) -> (r: Effects)
        requires
            model_wf(old(self)@),
        ensures
            model_wf(final(self)@),
            (final(self)@, r@) == next(old(self)@, event),
    {
        if self.terminated {
            return Effects { write: None, await_writers: false, ack: false, stop: true };
        }
        match event {
            Event::Received(Action::Record(entry)) => {
                let ghost pushed = old(self)@.buffer.push(entry);
                self.buffer.push(entry);
                assert(self.buffer@ =~= pushed);
                if self.buffer.len() == MAX_BATCH_SIZE {
                    let batch = self.buffer.split_off(0);
                    assert(self.buffer@ =~= Seq::<LogEntry>::empty());
                    assert(batch@ =~= pushed);
                    self.in_flight = Ghost(self.in_flight@ + 1);
                    Effects { write: Some(batch), await_writers: false, ack: false, stop: false }
                } else {
                    Effects { write: None, await_writers: false, ack: false, stop: false }
                }
            },
            Event::Received(Action::Flush) => {
                let write = self.take_batch();
                self.in_flight = Ghost(0);
                Effects { write, await_writers: true, ack: true, stop: false }
            },
            Event::Timeout => {
                let write = self.take_batch();
                self.in_flight = Ghost(0);
                Effects { write, await_writers: true, ack: false, stop: false }
            },
            Event::Received(Action::Stop) => {
                let write = self.take_batch();
                self.in_flight = Ghost(0);
                self.terminated = true;
                Effects { write, await_writers: true, ack: true, stop: true }
            },
            Event::Disconnected => {
                self.terminated = true;
                Effects { write: None, await_writers: false, ack: true, stop: true }
            },
        }
    }
}

/// The state and the effects after feeding `es` to a recorder in state `s`.
pub open spec fn run(s: RecorderModel, es: Seq<Event>) -> (RecorderModel, Seq<EffectsModel>)
    decreases es.len(),
{
    if es.len() == 0 {
        (s, Seq::empty())
    } else {
        let (t, fx) = run(s, es.drop_last());
        let (u, f) = next(t, es.last());
        (u, fx.push(f))
    }
}

/// The batches handed to storage, in order.
pub open spec fn batches(fx: Seq<EffectsModel>) -> Seq<Seq<LogEntry>>
    decreases fx.len(),
{
    if fx.len() == 0 {
        Seq::empty()
    } else {
        match fx.last().write {
            Some(b) => batches(fx.drop_last()).push(b),
            None => batches(fx.drop_last()),
        }
    }
}

/// The entries handed to storage, in order.
pub open spec fn written(fx: Seq<EffectsModel>) -> Seq<LogEntry>
    decreases fx.len(),
{
    if fx.len() == 0 {
        Seq::empty()
    } else {
        match fx.last().write {
            Some(b) => written(fx.drop_last()) + b,
            None => written(fx.drop_last()),
        }
    }
}

/// The entries that `es` asks to record, in order.
pub open spec fn recorded(es: Seq<Event>) -> Seq<LogEntry>
    decreases es.len(),
{
    if es.len() == 0 {
        Seq::empty()
    } else {
        match es.last() {
            Event::Received(Action::Record(e)) => recorded(es.drop_last()).push(e),
            _ => recorded(es.drop_last()),
        }
    }
}

/// `e` neither stops the recorder nor reports that its senders are gone.
pub open spec fn is_live(e: Event) -> bool {
    match e {
        Event::Received(Action::Stop) => false,
        Event::Disconnected => false,
        _ => true,
    }
}

/// Every event of `es` is a request to record an entry.
pub open spec fn all_records(es: Seq<Event>) -> bool {
    forall|i: int| 0 <= i < es.len() ==> (#[trigger] es[i] matches Event::Received(Action::Record(_)))
}

/// While the recorder runs, what it handed to storage followed by what it
/// still buffers is what it held at first followed by every entry it
/// received, in arrival order.
pub proof fn lemma_run_keeps_order(s: RecorderModel, es: Seq<Event>)
    requires
        model_wf(s),
        !s.terminated,
        forall|i: int| 0 <= i < es.len() ==> is_live(#[trigger] es[i]),
    ensures
        model_wf(run(s, es).0),
        !run(s, es).0.terminated,
        written(run(s, es).1) + run(s, es).0.buffer == s.buffer + recorded(es),
    decreases es.len(),
{
    if es.len() == 0 {
        assert(Seq::<LogEntry>::empty() + s.buffer =~= s.buffer + Seq::<LogEntry>::empty());
    } else {
        let pre = es.drop_last();
        assert forall|i: int| 0 <= i < pre.len() implies is_live(#[trigger] pre[i]) by {
            assert(pre[i] == es[i]);
        }
        lemma_run_keeps_order(s, pre);
        let (t, fx) = run(s, pre);
        let (u, f) = next(t, es.last());
        assert(run(s, es) == (u, fx.push(f)));
        lemma_written_push(fx, f);
        assert(is_live(es[es.len() - 1]));
        match es.last() {
            Event::Received(Action::Record(e)) => {
                let b = t.buffer.push(e);
                assert(written(fx) + b =~= (written(fx) + t.buffer).push(e));
                assert((s.buffer + recorded(pre)).push(e) =~= s.buffer + recorded(pre).push(e));
                if b.len() == MAX_BATCH_SIZE {
                    assert(written(fx) + b + Seq::<LogEntry>::empty() =~= written(fx) + b);
                }
            },
            _ => {
                assert(written(fx) + t.buffer + Seq::<LogEntry>::empty() =~= written(fx)
                    + t.buffer);
                assert(written(fx) + Seq::<LogEntry>::empty() =~= written(fx));
            },
        }
    }
}

/// `written` and `batches` of one more step.
proof fn lemma_written_push(fx: Seq<EffectsModel>, f: EffectsModel)
    ensures
        written(fx.push(f)) == match f.write {
            Some(b) => written(fx) + b,
            None => written(fx),
        },
        batches(fx.push(f)) == match f.write {
            Some(b) => batches(fx).push(b),
            None => batches(fx),
        },
{
    assert(fx.push(f).drop_last() =~= fx);
}

/// Records followed by a flush: every recorded entry reaches storage, in the
/// order received, before the flush is acknowledged; the flush waits for all
/// outstanding writes and leaves nothing buffered.
pub proof fn lemma_flush_writes_everything_in_order(es: Seq<Event>)
    requires
        forall|i: int| 0 <= i < es.len() ==> is_live(#[trigger] es[i]),
    ensures
        ({
            let (t, fx) = run(drained(false), es.push(Event::Received(Action::Flush)));
            &&& written(fx) == recorded(es)
            &&& t == drained(false)
            &&& fx.last().await_writers
            &&& fx.last().ack
        }),
{
    lemma_run_keeps_order(drained(false), es);
    let all = es.push(Event::Received(Action::Flush));
    assert(all.drop_last() =~= es);
    let (t, fx) = run(drained(false), es);
    let (u, f) = next(t, all.last());
    assert(run(drained(false), all) == (u, fx.push(f)));
    lemma_written_push(fx, f);
    assert(recorded(all) == recorded(es));
    assert(Seq::<LogEntry>::empty() + recorded(es) =~= recorded(es));
    assert(written(fx) + t.buffer == recorded(es));
    if t.buffer.len() == 0 {
        assert(written(fx) + t.buffer =~= written(fx));
    }
}

/// Records followed by a period without requests: the automatic flush hands
/// every recorded entry to storage, in order, and acknowledges nothing.
pub proof fn lemma_timeout_writes_everything_in_order(es: Seq<Event>)
    requires
        forall|i: int| 0 <= i < es.len() ==> is_live(#[trigger] es[i]),
    ensures
        ({
            let (t, fx) = run(drained(false), es.push(Event::Timeout));
            &&& written(fx) == recorded(es)
            &&& t == drained(false)
            &&& fx.last().await_writers
            &&& !fx.last().ack
        }),
{
    lemma_run_keeps_order(drained(false), es);
    let all = es.push(Event::Timeout);
    assert(all.drop_last() =~= es);
    let (t, fx) = run(drained(false), es);
    let (u, f) = next(t, all.last());
    assert(run(drained(false), all) == (u, fx.push(f)));
    lemma_written_push(fx, f);
    assert(recorded(all) == recorded(es));
    assert(Seq::<LogEntry>::empty() + recorded(es) =~= recorded(es));
    assert(written(fx) + t.buffer == recorded(es));
    if t.buffer.len() == 0 {
        assert(written(fx) + t.buffer =~= written(fx));
    }
}

/// Fewer records than a batch, from an idle recorder, are all buffered and
/// nothing is written yet.
proof fn lemma_records_below_threshold(es: Seq<Event>)
    requires
        all_records(es),
        es.len() < MAX_BATCH_SIZE,
    ensures
        run(drained(false), es).0 == (RecorderModel { buffer: recorded(es), ..drained(false) }),
        batches(run(drained(false), es).1) == Seq::<Seq<LogEntry>>::empty(),
        recorded(es).len() == es.len(),
    decreases es.len(),
{
    if es.len() > 0 {
        let pre = es.drop_last();
        assert forall|i: int| 0 <= i < pre.len() implies (#[trigger] pre[i] matches Event::Received(
            Action::Record(_),
        )) by {
            assert(pre[i] == es[i]);
        }
        lemma_records_below_threshold(pre);
        assert(es[es.len() - 1] matches Event::Received(Action::Record(_)));
        let (t, fx) = run(drained(false), pre);
        let (u, f) = next(t, es.last());
        assert(run(drained(false), es) == (u, fx.push(f)));
        lemma_written_push(fx, f);
    }
}

/// A full batch of records, from an idle recorder and without any flush,
/// gives exactly one write, of exactly those entries in order, and leaves
/// nothing buffered.
pub proof fn lemma_full_batch_written_once(es: Seq<Event>)
    requires
        all_records(es),
        es.len() == MAX_BATCH_SIZE,
    ensures
        batches(run(drained(false), es).1) == seq![recorded(es)],
        recorded(es).len() == MAX_BATCH_SIZE,
        run(drained(false), es).0.buffer.len() == 0,
{
    let pre = es.drop_last();
    assert forall|i: int| 0 <= i < pre.len() implies (#[trigger] pre[i] matches Event::Received(
        Action::Record(_),
    )) by {
        assert(pre[i] == es[i]);
    }
    lemma_records_below_threshold(pre);
    assert(es[es.len() - 1] matches Event::Received(Action::Record(_)));
    let (t, fx) = run(drained(false), pre);
    let (u, f) = next(t, es.last());
    assert(run(drained(false), es) == (u, fx.push(f)));
    lemma_written_push(fx, f);
    assert(Seq::<Seq<LogEntry>>::empty().push(recorded(es)) =~= seq![recorded(es)]);
}

/// Flush then stop, with entries buffered and no write outstanding: the
/// flush writes every buffered entry and waits for it before its
/// acknowledgment, and the stop then writes nothing more, acknowledges and
/// ends the recorder; nothing is left behind.
pub proof fn lemma_flush_then_stop_loses_nothing(s: RecorderModel)
    requires
        model_wf(s),
        !s.terminated,
        s.in_flight == 0,
    ensures
        ({
            let (t, fx) = run(
                s,
                seq![Event::Received(Action::Flush), Event::Received(Action::Stop)],
            );
            &&& written(fx) == s.buffer
            &&& fx[0].await_writers && fx[0].ack
            &&& fx[1].write is None
            &&& fx[1].ack && fx[1].stop
            &&& t == drained(true)
        }),
{
    let one = seq![Event::Received(Action::Flush)];
    let es = seq![Event::Received(Action::Flush), Event::Received(Action::Stop)];
    assert(es.drop_last() =~= one);
    assert(one.drop_last() =~= Seq::<Event>::empty());
    let (t1, f1) = next(s, Event::Received(Action::Flush));
    let (t2, f2) = next(t1, Event::Received(Action::Stop));
    let fx1 = Seq::<EffectsModel>::empty().push(f1);
    assert(run(s, Seq::<Event>::empty()) == (s, Seq::<EffectsModel>::empty()));
    assert(one.last() == Event::Received(Action::Flush));
    assert(run(s, one) == (t1, fx1));
    assert(run(s, es) == (t2, fx1.push(f2)));
    lemma_written_push(Seq::<EffectsModel>::empty(), f1);
    lemma_written_push(fx1, f2);
    assert(Seq::<LogEntry>::empty() + s.buffer =~= s.buffer);
}

} // verus!

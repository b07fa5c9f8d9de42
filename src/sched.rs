//! The ingest actor: it gathers discovered paths into a batch and decides
//! when the batch is flushed; and the ticker's decision to go on or stop.
use vstd::prelude::*;
use std::sync::mpsc::SyncSender;
use crate::channel::send_bounded;
use crate::datetime::{local_now, LocalDateTime};
use crate::img::{ImgMeta, ResolutionError};
use crate::store::{consistent, failures, gen_uuid, planned, planned_positions, store_outcome, ImgMetaDO, ImgMetaDao, SqlValue};

verus! {

/// A batch is flushed as soon as it holds more paths than this.
pub const BATCH_THRESHOLD: usize = 500;

/// What reaches the actor.
pub enum HandleEvent {
    /// The periodic signal.
    Tick,
    /// A file was discovered at this path.
    NewPathEvent(String),
    /// No more events will come: flush what is left and stop.
    Shutdown,
}

/// How many events the actor's queue holds before producers wait.
pub const EVENT_QUEUE_CAPACITY: usize = 1024;

/// The producers' way to the actor: hands events to its bounded queue,
/// waiting while it is full.
pub struct ImgHandle {
    sender: SyncSender<HandleEvent>,
}

impl ImgHandle {
    /// A handle that sends through `sender`.
    pub fn new(sender: SyncSender<HandleEvent>) -> (r: ImgHandle) {
        ImgHandle { sender }
    }

    /// Queues one event for the actor; false when the actor is gone.
    pub fn sched(&self, event: HandleEvent) -> (r: bool) {
        send_bounded(&self.sender, event)
    }
}

/// What the actor asks of the loop that drives it.
pub enum ActorStep {
    /// Nothing to do; wait for the next event.
    Wait,
    /// Resolve and persist these paths.
    Flush(Vec<String>),
    /// Resolve and persist these paths (possibly none), then stop.
    Stop(Vec<String>),
}

/// The batch after the actor has taken `e`.
pub open spec fn next_batch(batch: Seq<String>, e: HandleEvent) -> Seq<String> {
    match e {
        HandleEvent::NewPathEvent(p) => if batch.len() + 1 > BATCH_THRESHOLD {
            Seq::empty()
        } else {
            batch.push(p)
        },
        HandleEvent::Tick => if batch.len() > 0 {
            Seq::empty()
        } else {
            batch
        },
        HandleEvent::Shutdown => Seq::empty(),
    }
}

/// The paths that the actor flushes on taking `e`, if it flushes.
pub open spec fn flushed(batch: Seq<String>, e: HandleEvent) -> Option<Seq<String>> {
    match e {
        HandleEvent::NewPathEvent(p) => if batch.len() + 1 > BATCH_THRESHOLD {
            Some(batch.push(p))
        } else {
            None
        },
        HandleEvent::Tick => if batch.len() > 0 {
            Some(batch)
        } else {
            None
        },
        HandleEvent::Shutdown => Some(batch),
    }
}

/// The actor's state: the paths gathered since the last flush.
pub struct ImgActor {
    batch: Vec<String>,
}

impl ImgActor {
    /// The paths waiting to be flushed.
    pub closed spec fn pending(&self) -> Seq<String> {
        self.batch@
    }

    /// An actor with an empty batch.
    pub fn new() -> (r: ImgActor)
        ensures
            r.pending() == Seq::<String>::empty(),
    {
        ImgActor { batch: Vec::new() }
    }

    /// Number of paths waiting.
    pub fn pending_len(&self) -> (r: usize)
        ensures
            r == self.pending().len(),
    {
        self.batch.len()
    }

    /// Hands out the batch, leaving it empty.
    fn take_batch(&mut self) -> (r: Vec<String>)
        ensures
            r@ == old(self).pending(),
            final(self).pending() == Seq::<String>::empty(),
    {
        let mut out: Vec<String> = Vec::new();
        std::mem::swap(&mut self.batch, &mut out);
        out
    }

    /// Takes one event: a new path joins the batch, and the batch is handed
    /// out once it exceeds the threshold; a tick hands out a non-empty batch;
    /// shutdown hands out whatever is left. The batch is empty after each
    /// hand-out.
    pub fn handle(&mut self, event: HandleEvent) -> (r: ActorStep)
        ensures
            final(self).pending() == next_batch(old(self).pending(), event),
            match r {
                ActorStep::Wait => flushed(old(self).pending(), event) is None,
                ActorStep::Flush(v) => !(event is Shutdown) && flushed(old(self).pending(), event)
                    == Some(v@),
                ActorStep::Stop(v) => event is Shutdown && v@ == old(self).pending(),
            },
    {
        match event {
            HandleEvent::NewPathEvent(p) => {
                self.batch.push(p);
                if self.batch.len() > BATCH_THRESHOLD {
                    let out = self.take_batch();
                    ActorStep::Flush(out)
                } else {
                    ActorStep::Wait
                }
            },
            HandleEvent::Tick => {
                if self.batch.len() > 0 {
                    let out = self.take_batch();
                    ActorStep::Flush(out)
                } else {
                    ActorStep::Wait
                }
            },
            HandleEvent::Shutdown => {
                let out = self.take_batch();
                ActorStep::Stop(out)
            },
        }
    }
}

/// The record made of a resolution, under key `id`, at flush time `now`:
/// the resolved time where there is one, else `now`; none without a
/// fingerprint.
pub open spec fn record_of(img: ImgMeta, id: String, now: LocalDateTime) -> Option<ImgMetaDO> {
    match img.sig {
        None => None,
        Some(s) => Some(ImgMetaDO {
            id: Some(id),
            time: match img.time {
                Some(t) => t,
                None => now,
            },
            sign: s,
        }),
    }
}

/// The successful resolutions of a batch that carry a fingerprint, in order.
pub open spec fn kept(batch: Seq<Result<ImgMeta, ResolutionError>>) -> Seq<ImgMeta>
    decreases batch.len(),
{
    if batch.len() == 0 {
        Seq::empty()
    } else {
        let rest = kept(batch.drop_last());
        match batch.last() {
            Ok(m) => if m.sig is Some {
                rest.push(m)
            } else {
                rest
            },
            Err(_) => rest,
        }
    }
}

/// `recs` are the records of `metas`, one each and in order, made at flush
/// time `now` under fresh keys of 36 characters.
pub open spec fn records_for(recs: Seq<ImgMetaDO>, metas: Seq<ImgMeta>, now: LocalDateTime) -> bool {
    &&& recs.len() == metas.len()
    &&& forall|i: int|
        0 <= i < recs.len() ==> {
            &&& (#[trigger] recs[i]).id matches Some(id) && id@.len() == 36
            &&& record_of(metas[i], recs[i].id->0, now) == Some(recs[i])
        }
}

/// What one flush reports.
pub struct FlushReport {
    /// Paths in the batch.
    pub discovered: usize,
    /// Paths resolved to a record.
    pub resolved: usize,
    /// Records the store could not write.
    pub failed: Vec<ImgMetaDO>,
}

/// `r` reports a flush of `batch` that made the records `recs` at `now`
/// and handed all of them to the store, which handed every planned row
/// `plan` to the database (at the positions `sent`) with the outcomes `ok`;
/// those that failed are listed.
pub open spec fn flush_outcome(
    r: FlushReport,
    batch: Seq<Result<ImgMeta, ResolutionError>>,
    recs: Seq<ImgMetaDO>,
    plan: Seq<Option<Vec<SqlValue>>>,
    sent: Seq<int>,
    ok: Seq<bool>,
    now: LocalDateTime,
) -> bool {
    &&& now.wf()
    &&& r.discovered == batch.len()
    &&& r.resolved == kept(batch).len()
    &&& records_for(recs, kept(batch), now)
    &&& planned(plan, recs)
    &&& sent == planned_positions(plan)
    &&& consistent(plan, ok)
    &&& r.failed@ == failures(recs, ok)
}

/// Makes the record of one resolution under key `id` at flush time `now`.
pub fn to_record(img: ImgMeta, id: String, now: LocalDateTime) -> (r: Option<ImgMetaDO>)
    ensures
        r == record_of(img, id, now),
{
    match img.sig {
        None => None,
        Some(s) => {
            let time = match img.time {
                Some(t) => t,
                None => now,
            };
            Some(ImgMetaDO::with_id(id, time, s))
        },
    }
}

impl ImgActor {
    /// The records of a batch's resolutions at flush time `now`: failed
    /// resolutions are dropped, each other one gets a fresh key.
    pub fn records_of(batch: Vec<Result<ImgMeta, ResolutionError>>, now: LocalDateTime) -> (r: Vec<ImgMetaDO>)
        ensures
            records_for(r@, kept(batch@), now),
    {
        let ghost all = batch@;
        let mut rest = batch;
        let mut out: Vec<ImgMetaDO> = Vec::new();
        let ghost mut done: Seq<Result<ImgMeta, ResolutionError>> = Seq::empty();
        while rest.len() > 0
            invariant
                all == done + rest@,
                records_for(out@, kept(done), now),
            decreases rest@.len(),
        {
            let item = rest.remove(0);
            proof {
                let done2 = done.push(item);
                assert(done2.drop_last() =~= done);
                assert(all =~= done2 + rest@);
            }
            let ghost before = out@;
            if let Ok(img) = item {
                if img.sig.is_some() {
                    let id = gen_uuid();
                    let ghost idv = id;
                    let rec = to_record(img, id, now);
                    if let Some(rec) = rec {
                        out.push(rec);
                        proof {
                            let ks = kept(done.push(item));
                            assert(ks =~= kept(done).push(img));
                            assert forall|i: int| 0 <= i < out@.len() implies {
                                &&& (#[trigger] out@[i]).id matches Some(id) && id@.len() == 36
                                &&& record_of(ks[i], out@[i].id->0, now) == Some(out@[i])
                            } by {
                                if i < before.len() {
                                    assert(out@[i] == before[i]);
                                }
                            }
                        }
                    }
                }
            }
            proof {
                done = done.push(item);
            }
        }
        assert(done =~= all);
        out
    }

    /// Flushes one batch: makes the records of its resolutions (see
    /// `records_of`, at the current time) and writes them to the store,
    /// which goes on past failing rows.
    pub fn batch_write(batch: Vec<Result<ImgMeta, ResolutionError>>, conn: &rusqlite::Connection) -> (r: FlushReport)
        ensures
            exists|
                recs: Seq<ImgMetaDO>,
                plan: Seq<Option<Vec<SqlValue>>>,
                sent: Seq<int>,
                ok: Seq<bool>,
                now: LocalDateTime,
            | #[trigger] flush_outcome(r, batch@, recs, plan, sent, ok, now),
    {
        let discovered = batch.len();
        let now = local_now();
        let ghost b = batch@;
        let recs = Self::records_of(batch, now);
        let resolved = recs.len();
        let ghost rv = recs@;
        let res = ImgMetaDao::batch_write(recs, conn);
        let ghost (plan, sent, ok) = choose|plan: Seq<Option<Vec<SqlValue>>>, sent: Seq<int>, ok: Seq<bool>|
            store_outcome(res, rv, plan, sent, ok);
        let failed = match res {
            Ok(()) => Vec::new(),
            Err(f) => f,
        };
        let r = FlushReport { discovered, resolved, failed };
        assert(flush_outcome(r, b, rv, plan, sent, ok, now)) by {
            if failed@.len() == 0 {
                assert(failed@ =~= failures(rv, ok));
            }
        }
        r
    }
}

/// Feeding `events` to a fresh actor: the batch left at the end, and each
/// flush with the position of the event that caused it.
pub open spec fn run(events: Seq<HandleEvent>) -> (Seq<String>, Seq<(int, Seq<String>)>)
    decreases events.len(),
{
    if events.len() == 0 {
        (Seq::empty(), Seq::empty())
    } else {
        let (b, fl) = run(events.drop_last());
        let e = events.last();
        let fl2 = match flushed(b, e) {
            Some(v) => fl.push((events.len() - 1, v)),
            None => fl,
        };
        (next_batch(b, e), fl2)
    }
}

/// One `NewPathEvent` per path, in order.
pub open spec fn new_paths(paths: Seq<String>) -> Seq<HandleEvent> {
    paths.map_values(|p: String| HandleEvent::NewPathEvent(p))
}

/// Up to the threshold, new paths only gather: nothing is flushed.
pub proof fn lemma_gathering(paths: Seq<String>)
    requires
        paths.len() <= BATCH_THRESHOLD,
    ensures
        run(new_paths(paths)) == (paths, Seq::<(int, Seq<String>)>::empty()),
    decreases paths.len(),
{
    if paths.len() > 0 {
        let events = new_paths(paths);
        assert(events.drop_last() =~= new_paths(paths.drop_last()));
        lemma_gathering(paths.drop_last());
        assert(paths.drop_last().push(paths.last()) =~= paths);
    } else {
        assert(new_paths(paths) =~= Seq::<HandleEvent>::empty());
    }
}

/// From a fresh actor, `n` new paths (1 <= n <= threshold) and then a tick
/// cause exactly one flush, of those `n` paths in order, at the tick; the
/// batch is empty afterwards.
pub proof fn lemma_tick_flushes(paths: Seq<String>)
    requires
        1 <= paths.len() <= BATCH_THRESHOLD,
    ensures
        run(new_paths(paths).push(HandleEvent::Tick)) == (
            Seq::<String>::empty(),
            seq![(paths.len() as int, paths)],
        ),
{
    let events = new_paths(paths).push(HandleEvent::Tick);
    assert(events.drop_last() =~= new_paths(paths));
    lemma_gathering(paths);
    assert(Seq::<(int, Seq<String>)>::empty().push((paths.len() as int, paths)) =~= seq![(paths.len() as int, paths)]);
}

/// From a fresh actor, threshold + 1 new paths cause exactly one flush, of
/// all of them in order, at the last one; the batch is empty afterwards.
pub proof fn lemma_threshold_flushes(paths: Seq<String>)
    requires
        paths.len() == BATCH_THRESHOLD + 1,
    ensures
        run(new_paths(paths)) == (
            Seq::<String>::empty(),
            seq![(BATCH_THRESHOLD as int, paths)],
        ),
{
    let events = new_paths(paths);
    assert(events.drop_last() =~= new_paths(paths.drop_last()));
    lemma_gathering(paths.drop_last());
    assert(paths.drop_last().push(paths.last()) =~= paths);
    assert(Seq::<(int, Seq<String>)>::empty().push((BATCH_THRESHOLD as int, paths)) =~= seq![(BATCH_THRESHOLD as int, paths)]);
}

/// What the ticker does next.
#[derive(Clone, Copy, Debug, PartialEq, Eq, Structural)]
pub enum TickerStep {
    /// Send a tick, then sleep one interval.
    Emit,
    /// Leave the loop without sending.
    Stop,
}

/// The ticker's decision, taken before each sleep: stop once shutdown has
/// been signalled, else emit a tick.
pub fn ticker_step(shutdown_signalled: bool) -> (r: TickerStep)
    ensures
        r == (if shutdown_signalled { TickerStep::Stop } else { TickerStep::Emit }),
{
    if shutdown_signalled {
        TickerStep::Stop
    } else {
        TickerStep::Emit
    }
}

} // verus!

//! Coalescing rules for persisting the transparent-background setting.
//!
//! Each toggle becomes a request tagged with its generation. Requests
//! register the newest desired value; a writer (holding the process-wide
//! write lock) repeatedly writes the current desired value until no newer
//! one arrived during the write. A failed write rolls back to the last value
//! known to be on disk. The application drives the loop: it performs the
//! disk write and hands the result back.

use vstd::prelude::*;

verus! {

/// A value the UI chose, with the generation of that choice.
#[derive(Debug, Clone, Copy, PartialEq, Eq, Structural)]
pub struct Desired {
    pub value: bool,
    pub generation: u64,
}

/// Shared persistence state.
#[derive(Debug, Clone, Copy, PartialEq, Eq, Structural)]
pub struct PersistState {
    /// Last value known to be on disk.
    pub confirmed: Option<bool>,
    /// Latest accepted UI choice that should end up on disk.
    pub desired: Option<Desired>,
}

/// What a persistence task reports when it settles.
#[derive(Debug, Clone)]
pub enum PersistOutcome {
    /// The disk holds `value`; `generation` is the reporting task's own.
    Persisted { value: bool, generation: u64 },
    /// The write failed; the UI should roll back to `rollback_value`.
    Failed { rollback_value: bool, generation: u64, error: String },
}

/// What a task holding the write lock does next.
#[derive(Debug, Clone)]
pub enum PersistAction {
    /// Write this desired value to disk and hand the result to
    /// [`PersistState::complete_write`].
    Write(Desired),
    /// Settle with this outcome.
    Report(PersistOutcome),
}

/// Whether an outcome reports success with the given value and generation.
pub open spec fn is_persisted(o: PersistOutcome, value: bool, generation: u64) -> bool {
    o matches PersistOutcome::Persisted { value: v, generation: g } && v == value && g == generation
}

/// State after a task registers `value` (chosen at `generation`; the disk
/// held `rollback_value` before the toggle): the confirmed value is primed
/// once from `rollback_value`, and the request becomes the desired value
/// unless a newer generation is already desired.
pub open spec fn spec_request(s: PersistState, value: bool, rollback_value: bool, generation: u64) -> PersistState {
    PersistState {
        confirmed: match s.confirmed {
            Some(c) => Some(c),
            None => Some(rollback_value),
        },
        desired: match s.desired {
            Some(d) => if generation >= d.generation {
                Some(Desired { value, generation })
            } else {
                Some(d)
            },
            None => Some(Desired { value, generation }),
        },
    }
}

/// State after a write of `written` succeeded: the disk holds it, and the
/// desired value is cleared when it is still `written`.
pub open spec fn spec_after_success(s: PersistState, written: Desired) -> PersistState {
    PersistState {
        confirmed: Some(written.value),
        desired: if s.desired == Some(written) { None } else { s.desired },
    }
}

/// State after a write of `written` failed: the confirmed value stays, and
/// the desired value is cleared when it is still `written`.
pub open spec fn spec_after_failure(s: PersistState, written: Desired) -> PersistState {
    PersistState {
        confirmed: s.confirmed,
        desired: if s.desired == Some(written) { None } else { s.desired },
    }
}

/// The action of the task that requested `value` at `generation` in state
/// `s`: write the desired value, or report its own request as persisted
/// when nothing is desired.
pub open spec fn spec_next_action(s: PersistState, value: bool, generation: u64) -> PersistAction {
    match s.desired {
        Some(d) => PersistAction::Write(d),
        None => PersistAction::Report(PersistOutcome::Persisted { value, generation }),
    }
}

/// What completing the write of `written` with `result` reports for the task
/// at `generation`: `None` when a newer desired value waits, else success
/// with the written value, or failure rolling back to the confirmed value
/// (`rollback_value` when none is confirmed).
pub open spec fn spec_complete(
    s: PersistState,
    written: Desired,
    result: Result<(), String>,
    rollback_value: bool,
    generation: u64,
) -> Option<PersistOutcome> {
    if s.desired != Some(written) && s.desired is Some {
        None
    } else {
        match result {
            Ok(()) => Some(PersistOutcome::Persisted { value: written.value, generation }),
            Err(e) => Some(
                PersistOutcome::Failed {
                    rollback_value: match s.confirmed {
                        Some(c) => c,
                        None => rollback_value,
                    },
                    generation,
                    error: e,
                },
            ),
        }
    }
}

/// State after the requests `rs` (value, rollback value, generation), in
/// order.
pub open spec fn spec_requests(s: PersistState, rs: Seq<(bool, bool, u64)>) -> PersistState
    decreases rs.len(),
{
    if rs.len() == 0 {
        s
    } else {
        let r = rs.last();
        spec_request(spec_requests(s, rs.drop_last()), r.0, r.1, r.2)
    }
}

/// One event of the shared persistence state: a task registering a request
/// (value, rollback value, generation), or a write of a desired value
/// completing (successfully or not).
pub enum PersistEvent {
    Request(bool, bool, u64),
    Finish(Desired, bool),
}

/// State after one event.
pub open spec fn spec_step(s: PersistState, e: PersistEvent) -> PersistState {
    match e {
        PersistEvent::Request(value, rollback_value, generation) => spec_request(s, value, rollback_value, generation),
        PersistEvent::Finish(written, ok) => if ok {
            spec_after_success(s, written)
        } else {
            spec_after_failure(s, written)
        },
    }
}

/// State after the events `es`, in order.
pub open spec fn spec_run(s: PersistState, es: Seq<PersistEvent>) -> PersistState
    decreases es.len(),
{
    if es.len() == 0 {
        s
    } else {
        spec_step(spec_run(s, es.drop_last()), es.last())
    }
}

/// Whether event `i` of `es` is a request of `value` at `generation`.
pub open spec fn requested_at(es: Seq<PersistEvent>, i: int, value: bool, generation: u64) -> bool {
    es[i] matches PersistEvent::Request(v, _, g) && v == value && g == generation
}

/// Whether request `i` of `es` is the newest: it requests `d`, and no later
/// request has a generation as high.
pub open spec fn newest_request_at(es: Seq<PersistEvent>, i: int, d: Desired) -> bool {
    &&& 0 <= i < es.len()
    &&& requested_at(es, i, d.value, d.generation)
    &&& forall|j: int| i < j < es.len() ==> !(#[trigger] es[j] matches PersistEvent::Request(_, _, g) && g >= d.generation)
}

/// The generation an outcome reports.
pub open spec fn outcome_generation(o: PersistOutcome) -> u64 {
    match o {
        PersistOutcome::Persisted { generation, .. } => generation,
        PersistOutcome::Failed { generation, .. } => generation,
    }
}

impl PersistState {
    /// No value confirmed, none desired.
    pub fn new() -> (s: PersistState)
        ensures
            s.confirmed is None,
            s.desired is None,
    {
        PersistState { confirmed: None, desired: None }
    }

    /// Forget the confirmed and desired values.
    pub fn reset(&mut self)
        ensures
            final(self).confirmed is None,
            final(self).desired is None,
    {
        self.confirmed = None;
        self.desired = None;
    }

    /// The last value known to be on disk, or `fallback` when none is.
    pub fn confirmed_or(&self, fallback: bool) -> (v: bool)
        ensures
            v == match self.confirmed {
                Some(c) => c,
                None => fallback,
            },
    {
        match self.confirmed {
            Some(c) => c,
            None => fallback,
        }
    }

    /// Whether a desired value still waits to be written.
    pub fn is_pending(&self) -> (p: bool)
        ensures
            p == (self.desired is Some),
    {
        self.desired.is_some()
    }

    /// Register a persistence request: `value` chosen at `generation`, the
    /// disk having held `rollback_value` before the toggle.
    pub fn request(&mut self, value: bool, rollback_value: bool, generation: u64)
        ensures
            *final(self) == spec_request(*old(self), value, rollback_value, generation),
    {
        if self.confirmed.is_none() {
            self.confirmed = Some(rollback_value);
        }
        let keep = match self.desired {
            Some(d) => generation >= d.generation,
            None => true,
        };
        if keep {
            self.desired = Some(Desired { value, generation });
        }
    }

    /// Next step of the task that requested `value` at `generation`, once it
    /// holds the write lock: write the current desired value, or — when a
    /// peer already wrote the latest value — report success with the task's
    /// own request.
    pub fn next_action(&self, value: bool, generation: u64) -> (a: PersistAction)
        ensures
            a == spec_next_action(*self, value, generation),
            match self.desired {
                Some(d) => a matches PersistAction::Write(w) && w == d,
                None => a matches PersistAction::Report(o) && is_persisted(o, value, generation),
            },
    {
        match self.desired {
            Some(d) => PersistAction::Write(d),
            None => PersistAction::Report(PersistOutcome::Persisted { value, generation }),
        }
    }

    /// Record the result of writing `written` for the task at `generation`
    /// (whose pre-toggle disk value was `rollback_value`). `None` means a
    /// newer desired value arrived and the task writes again.
    pub fn complete_write(
        &mut self,
        written: Desired,
        result: Result<(), String>,
        rollback_value: bool,
        generation: u64,
    ) -> (r: Option<PersistOutcome>)
        ensures
            r == spec_complete(*old(self), written, result, rollback_value, generation),
            match result {
                Ok(()) => {
                    &&& *final(self) == spec_after_success(*old(self), written)
                    &&& if old(self).desired != Some(written) && old(self).desired is Some {
                        r is None
                    } else {
                        r matches Some(o) && is_persisted(o, written.value, generation)
                    }
                },
                Err(e) => {
                    &&& *final(self) == spec_after_failure(*old(self), written)
                    &&& if old(self).desired != Some(written) && old(self).desired is Some {
                        r is None
                    } else {
                        r matches Some(PersistOutcome::Failed { rollback_value: rb, generation: g, error: err })
                            && rb == (match old(self).confirmed {
                                Some(c) => c,
                                None => rollback_value,
                            })
                            && g == generation
                            && err == e
                    }
                },
            },
    {
        let still_latest = match self.desired {
            Some(d) => d == written,
            None => false,
        };
        match result {
            Ok(()) => {
                self.confirmed = Some(written.value);
                if still_latest {
                    self.desired = None;
                }
                if !still_latest && self.desired.is_some() {
                    return None;
                }
                Some(PersistOutcome::Persisted { value: written.value, generation })
            },
            Err(error) => {
                let rollback = match self.confirmed {
                    Some(c) => c,
                    None => rollback_value,
                };
                if still_latest {
                    self.desired = None;
                } else if self.desired.is_some() {
                    return None;
                }
                Some(PersistOutcome::Failed { rollback_value: rollback, generation, error })
            },
        }
    }
}

/// The newest generation wins: after a request the desired value exists and
/// is the request when its generation is at least the one desired before;
/// otherwise the older desired value stays. The desired generation never
/// decreases.
pub proof fn lemma_request_keeps_newest(s: PersistState, value: bool, rollback_value: bool, generation: u64)
    ensures
        ({
            let t = spec_request(s, value, rollback_value, generation);
            &&& t.desired is Some
            &&& (match s.desired {
                Some(d) => t.desired.unwrap().generation >= d.generation
                    && (generation >= d.generation ==> t.desired == Some(Desired { value, generation }))
                    && (generation < d.generation ==> t.desired == s.desired),
                None => t.desired == Some(Desired { value, generation }),
            })
        }),
{
}

/// The confirmed value is primed at most once by a request: a request never
/// replaces a confirmed value, and afterwards one is always set.
pub proof fn lemma_request_primes_confirmed_once(s: PersistState, value: bool, rollback_value: bool, generation: u64)
    ensures
        spec_request(s, value, rollback_value, generation).confirmed is Some,
        s.confirmed is Some ==> spec_request(s, value, rollback_value, generation).confirmed == s.confirmed,
{
}

/// Writing the value that is still desired settles everything: nothing is
/// pending afterwards and the disk value is confirmed, so a shutdown flush
/// finds no work and the next task reports without writing.
pub proof fn lemma_latest_write_settles(s: PersistState, d: Desired)
    requires
        s.desired == Some(d),
    ensures
        spec_after_success(s, d).desired is None,
        spec_after_success(s, d).confirmed == Some(d.value),
{
}

/// A failure rolls back to the last value confirmed on disk: after a
/// successful write of `w`, later requests and a failed write keep `w`'s
/// value confirmed, and that confirmed value is what a failure reports.
pub proof fn lemma_failure_rolls_back_to_confirmed(
    s: PersistState,
    w: Desired,
    value: bool,
    rollback_value: bool,
    generation: u64,
    failed: Desired,
)
    ensures
        ({
            let after_ok = spec_after_success(s, w);
            let requested = spec_request(after_ok, value, rollback_value, generation);
            &&& requested.confirmed == Some(w.value)
            &&& spec_after_failure(requested, failed).confirmed == Some(w.value)
        }),
{
}

/// A write is retried only for a newer desired value: whenever completing a
/// write asks for another round, the value to write next differs from the
/// one just written.
pub proof fn lemma_retry_writes_newer_value(s: PersistState, written: Desired, ok: bool)
    requires
        s.desired is Some,
        s.desired != Some(written),
    ensures
        (if ok { spec_after_success(s, written) } else { spec_after_failure(s, written) }).desired == s.desired,
        s.desired.unwrap() != written,
{
}

/// Whatever the state, a task reports its own generation, never a peer's:
/// both when it finds nothing to write and when its write completes.
pub proof fn lemma_outcome_has_own_generation(
    s: PersistState,
    value: bool,
    rollback_value: bool,
    generation: u64,
    written: Desired,
    result: Result<(), String>,
)
    ensures
        spec_next_action(s, value, generation) matches PersistAction::Report(o) ==> outcome_generation(o) == generation,
        spec_complete(s, written, result, rollback_value, generation) matches Some(o) ==> outcome_generation(o) == generation,
{
}

/// After any requests made while nothing was pending, the desired value is
/// the newest request: one of the requests, with the highest generation,
/// and the last of those with that generation. The confirmed value is the
/// one the state had, or else the first request's rollback value.
pub proof fn lemma_requests_keep_newest(s: PersistState, rs: Seq<(bool, bool, u64)>)
    requires
        s.desired is None,
        rs.len() > 0,
    ensures
        ({
            let t = spec_requests(s, rs);
            &&& t.desired is Some
            &&& exists|i: int| 0 <= i < rs.len() && #[trigger] rs[i].0 == t.desired.unwrap().value
                && rs[i].2 == t.desired.unwrap().generation
                && forall|j: int| i < j < rs.len() ==> #[trigger] rs[j].2 < t.desired.unwrap().generation
            &&& forall|j: int| 0 <= j < rs.len() ==> #[trigger] rs[j].2 <= t.desired.unwrap().generation
            &&& t.confirmed == (match s.confirmed {
                Some(c) => Some(c),
                None => Some(rs[0].1),
            })
        }),
    decreases rs.len(),
{
    let t = spec_requests(s, rs);
    let r = rs.last();
    let n = rs.len() - 1;
    if rs.len() == 1 {
        assert(spec_requests(s, rs.drop_last()) == s);
        assert(rs[0] == r);
    } else {
        let p = rs.drop_last();
        lemma_requests_keep_newest(s, p);
        let tp = spec_requests(s, p);
        let dp = tp.desired.unwrap();
        assert(p[0] == rs[0]);
        if r.2 >= dp.generation {
            assert(rs[n] == r);
            assert forall|j: int| 0 <= j < rs.len() implies #[trigger] rs[j].2 <= t.desired.unwrap().generation by {
                if j < n {
                    assert(rs[j] == p[j]);
                }
            }
        } else {
            let i = choose|i: int| 0 <= i < p.len() && #[trigger] p[i].0 == dp.value && p[i].2 == dp.generation
                && forall|j: int| i < j < p.len() ==> #[trigger] p[j].2 < dp.generation;
            assert(rs[i] == p[i]);
            assert forall|j: int| i < j < rs.len() implies #[trigger] rs[j].2 < t.desired.unwrap().generation by {
                if j < n {
                    assert(rs[j] == p[j]);
                }
            }
            assert forall|j: int| 0 <= j < rs.len() implies #[trigger] rs[j].2 <= t.desired.unwrap().generation by {
                if j < n {
                    assert(rs[j] == p[j]);
                }
            }
        }
    }
}

/// A serialized run: requests `rs` arrive while nothing is pending, then the
/// task that gets the write lock first (any of them, `k`) writes, and the
/// write succeeds. It writes the newest request, which ends confirmed on
/// disk with nothing pending; it reports the written value under its own
/// generation; and every task that takes the lock afterwards finds nothing
/// to write and reports its own request. So there is exactly one disk write
/// for all the requests.
pub proof fn lemma_serialized_run_writes_newest_once(s: PersistState, rs: Seq<(bool, bool, u64)>, k: int)
    requires
        s.desired is None,
        rs.len() > 0,
        0 <= k < rs.len(),
    ensures
        ({
            let s1 = spec_requests(s, rs);
            let d = s1.desired.unwrap();
            let s2 = spec_after_success(s1, d);
            &&& s1.desired is Some
            &&& forall|j: int| 0 <= j < rs.len() ==> #[trigger] rs[j].2 <= d.generation
            &&& spec_next_action(s1, rs[k].0, rs[k].2) == PersistAction::Write(d)
            &&& spec_complete(s1, d, Ok(()), rs[k].1, rs[k].2)
                == Some(PersistOutcome::Persisted { value: d.value, generation: rs[k].2 })
            &&& s2.confirmed == Some(d.value)
            &&& s2.desired is None
            &&& forall|j: int| 0 <= j < rs.len() ==> spec_next_action(s2, (#[trigger] rs[j]).0, rs[j].2)
                == PersistAction::Report(PersistOutcome::Persisted { value: rs[j].0, generation: rs[j].2 })
        }),
{
    lemma_requests_keep_newest(s, rs);
}

/// Any interleaving of requests and write completions that keeps something
/// pending from its first event on: the desired value is the newest request
/// made (one of them, with the highest generation, and the last of those
/// with it), however the completions of stale writes fall between the
/// requests; and the write that settles it writes that newest value, which
/// ends confirmed on disk with nothing pending, reported under the writing
/// task's own generation.
pub proof fn lemma_interleaved_run_settles_on_newest(
    s: PersistState,
    es: Seq<PersistEvent>,
    rollback_value: bool,
    generation: u64,
)
    requires
        s.desired is None,
        es.len() > 0,
        forall|j: int| 0 < j <= es.len() ==> (#[trigger] spec_run(s, es.take(j))).desired is Some,
    ensures
        ({
            let t = spec_run(s, es);
            let d = t.desired.unwrap();
            &&& t.desired is Some
            &&& exists|i: int| #[trigger] newest_request_at(es, i, d)
            &&& forall|j: int| 0 <= j < es.len() ==> (#[trigger] es[j] matches PersistEvent::Request(_, _, g) ==> g <= d.generation)
            &&& spec_after_success(t, d).desired is None
            &&& spec_after_success(t, d).confirmed == Some(d.value)
            &&& spec_complete(t, d, Ok(()), rollback_value, generation)
                == Some(PersistOutcome::Persisted { value: d.value, generation })
        }),
    decreases es.len(),
{
    let n = es.len() - 1;
    let p = es.drop_last();
    let e = es.last();
    assert(es.take(es.len() as int) =~= es);
    let t = spec_run(s, es);
    if es.len() == 1 {
        assert(p =~= Seq::<PersistEvent>::empty());
        assert(spec_run(s, p) == s);
        match e {
            PersistEvent::Request(v, rb, g) => {
                assert(es[0] == e);
                assert(newest_request_at(es, 0, t.desired.unwrap()));
            },
            PersistEvent::Finish(w, ok) => {
                assert(false);
            },
        }
    } else {
        assert forall|j: int| 0 < j <= p.len() implies (#[trigger] spec_run(s, p.take(j))).desired is Some by {
            assert(p.take(j) =~= es.take(j));
        }
        lemma_interleaved_run_settles_on_newest(s, p, rollback_value, generation);
        let tp = spec_run(s, p);
        let dp = tp.desired.unwrap();
        let i0 = choose|i: int| #[trigger] newest_request_at(p, i, dp);
        assert forall|j: int| 0 <= j < n implies #[trigger] es[j] == p[j] by {}
        assert(es[n] == e);
        match e {
            PersistEvent::Request(v, rb, g) => {
                if g >= dp.generation {
                    assert(newest_request_at(es, n, t.desired.unwrap()));
                } else {
                    assert(requested_at(es, i0, dp.value, dp.generation));
                    assert(es[i0] == p[i0]);
                    assert forall|j: int| i0 < j < es.len() implies !(#[trigger] es[j] matches PersistEvent::Request(_, _, gg) && gg >= dp.generation) by {
                        if j < n {
                            assert(es[j] == p[j]);
                        }
                    }
                    assert(newest_request_at(es, i0, t.desired.unwrap()));
                }
                assert forall|j: int| 0 <= j < es.len() implies (#[trigger] es[j] matches PersistEvent::Request(_, _, gg) ==> gg <= t.desired.unwrap().generation) by {
                    if j < n {
                        assert(es[j] == p[j]);
                    }
                }
            },
            PersistEvent::Finish(w, ok) => {
                assert(t.desired == tp.desired);
                assert(requested_at(es, i0, dp.value, dp.generation)) by {
                    assert(es[i0] == p[i0]);
                }
                assert forall|j: int| i0 < j < es.len() implies !(#[trigger] es[j] matches PersistEvent::Request(_, _, gg) && gg >= dp.generation) by {
                    if j < n {
                        assert(es[j] == p[j]);
                    }
                }
                assert(newest_request_at(es, i0, t.desired.unwrap()));
                assert forall|j: int| 0 <= j < es.len() implies (#[trigger] es[j] matches PersistEvent::Request(_, _, gg) ==> gg <= t.desired.unwrap().generation) by {
                    if j < n {
                        assert(es[j] == p[j]);
                    }
                }
            },
        }
    }
}

/// The persistence state together with the write lock's side of a run: the
/// desired value a write is in flight with, the value the last write
/// started with, the number of requests and of writes, and the highest
/// generation requested.
pub ghost struct WriterState {
    pub shared: PersistState,
    pub in_flight: Option<Desired>,
    pub last_written: Option<Desired>,
    pub requests: nat,
    pub writes: nat,
    pub max_generation: nat,
}

/// One event of a run of persistence tasks: a task registers a request; the
/// task holding the write lock starts writing the desired value (what
/// [`PersistState::next_action`] tells it when something is desired); or
/// that write completes, successfully or not (what it hands to
/// [`PersistState::complete_write`]).
pub enum WriterEvent {
    Request(bool, bool, u64),
    Start,
    Finish(bool),
}

/// State after one event; a start with nothing desired or a write already
/// in flight, and a completion with no write in flight, change nothing.
pub open spec fn writer_step(w: WriterState, e: WriterEvent) -> WriterState {
    match e {
        WriterEvent::Request(value, rollback_value, generation) => WriterState {
            shared: spec_request(w.shared, value, rollback_value, generation),
            in_flight: w.in_flight,
            last_written: w.last_written,
            requests: w.requests + 1,
            writes: w.writes,
            max_generation: if generation > w.max_generation { generation as nat } else { w.max_generation },
        },
        WriterEvent::Start => match (w.in_flight, w.shared.desired) {
            (None, Some(d)) => WriterState {
                shared: w.shared,
                in_flight: Some(d),
                last_written: Some(d),
                requests: w.requests,
                writes: w.writes + 1,
                max_generation: w.max_generation,
            },
            _ => w,
        },
        WriterEvent::Finish(ok) => match w.in_flight {
            Some(x) => WriterState {
                shared: if ok { spec_after_success(w.shared, x) } else { spec_after_failure(w.shared, x) },
                in_flight: None,
                last_written: w.last_written,
                requests: w.requests,
                writes: w.writes,
                max_generation: w.max_generation,
            },
            None => w,
        },
    }
}

/// State after the events `es`, in order.
pub open spec fn writer_run(w: WriterState, es: Seq<WriterEvent>) -> WriterState
    decreases es.len(),
{
    if es.len() == 0 {
        w
    } else {
        writer_step(writer_run(w, es.drop_last()), es.last())
    }
}

/// The start of a run from shared state `s`: nothing in flight, nothing
/// written, nothing requested.
pub open spec fn writer_start(s: PersistState) -> WriterState {
    WriterState { shared: s, in_flight: None, last_written: None, requests: 0, writes: 0, max_generation: 0 }
}

/// 1 when a desired value waits that no write in flight carries, else 0.
pub open spec fn unstarted(w: WriterState) -> nat {
    if w.shared.desired is Some && w.shared.desired != w.in_flight { 1 } else { 0 }
}

/// What every run keeps.
pub open spec fn writer_inv(w: WriterState) -> bool {
    &&& w.writes + unstarted(w) <= w.requests
    &&& w.requests >= 1 ==> (w.shared.desired is Some || w.writes >= 1)
    &&& w.in_flight is Some ==> w.writes >= 1 && w.last_written == w.in_flight
    &&& w.shared.desired matches Some(d) ==> d.generation <= w.max_generation
}

proof fn lemma_writer_step_inv(w: WriterState, e: WriterEvent)
    requires
        writer_inv(w),
    ensures
        writer_inv(writer_step(w, e)),
        writer_step(w, e).max_generation >= w.max_generation,
{
}

proof fn lemma_writer_run_inv(s: PersistState, es: Seq<WriterEvent>)
    requires
        s.desired is None,
    ensures
        writer_inv(writer_run(writer_start(s), es)),
        forall|j: int| 0 <= j < es.len() ==> (#[trigger] es[j] matches WriterEvent::Request(_, _, g)
            ==> g <= writer_run(writer_start(s), es).max_generation),
    decreases es.len(),
{
    if es.len() > 0 {
        let p = es.drop_last();
        lemma_writer_run_inv(s, p);
        lemma_writer_step_inv(writer_run(writer_start(s), p), es.last());
        assert forall|j: int| 0 <= j < p.len() implies #[trigger] es[j] == p[j] by {}
        assert(es[es.len() - 1] == es.last());
        assert forall|j: int| 0 <= j < es.len() implies (#[trigger] es[j] matches WriterEvent::Request(_, _, g)
            ==> g <= writer_run(writer_start(s), es).max_generation) by {
            if j < p.len() {
                assert(es[j] == p[j]);
            }
        }
    }
}

proof fn lemma_writer_requests_grow(w: WriterState, es: Seq<WriterEvent>)
    ensures
        writer_run(w, es).requests >= w.requests,
    decreases es.len(),
{
    if es.len() > 0 {
        lemma_writer_requests_grow(w, es.drop_last());
    }
}

proof fn lemma_writer_max_generation(w: WriterState, es: Seq<WriterEvent>, bound: nat)
    requires
        w.max_generation <= bound,
        forall|j: int| 0 <= j < es.len() ==> (#[trigger] es[j] matches WriterEvent::Request(_, _, g) ==> g <= bound),
    ensures
        writer_run(w, es).max_generation <= bound,
    decreases es.len(),
{
    if es.len() > 0 {
        let p = es.drop_last();
        assert forall|j: int| 0 <= j < p.len() implies (#[trigger] p[j] matches WriterEvent::Request(_, _, g) ==> g <= bound) by {
            assert(es[j] == p[j]);
        }
        lemma_writer_max_generation(w, p, bound);
        assert(es[es.len() - 1] == es.last());
    }
}

proof fn lemma_writer_run_append(w: WriterState, a: Seq<WriterEvent>, b: Seq<WriterEvent>)
    ensures
        writer_run(w, a + b) == writer_run(writer_run(w, a), b),
    decreases b.len(),
{
    if b.len() == 0 {
        assert(a + b =~= a);
    } else {
        lemma_writer_run_append(w, a, b.drop_last());
        assert((a + b).drop_last() =~= a + b.drop_last());
        assert((a + b).last() == b.last());
    }
}

/// After the newest request, while no other request comes and every write
/// succeeds: either that request is still desired (with the in-flight
/// write, if any, the last one started), or it is settled.
proof fn lemma_writer_after_newest(w: WriterState, d: Desired, post: Seq<WriterEvent>)
    requires
        w.shared.desired == Some(d),
        w.in_flight is Some ==> w.last_written == w.in_flight,
        forall|j: int| 0 <= j < post.len() ==> (#[trigger] post[j] is Start || post[j] == WriterEvent::Finish(true)),
    ensures
        ({
            let t = writer_run(w, post);
            ||| t.shared.desired == Some(d) && (t.in_flight is Some ==> t.last_written == t.in_flight)
            ||| t.shared.desired is None && t.in_flight is None && t.shared.confirmed == Some(d.value)
                && t.last_written == Some(d)
        }),
    decreases post.len(),
{
    if post.len() > 0 {
        let p = post.drop_last();
        assert forall|j: int| 0 <= j < p.len() implies (#[trigger] p[j] is Start || p[j] == WriterEvent::Finish(true)) by {
            assert(post[j] == p[j]);
        }
        lemma_writer_after_newest(w, d, p);
        assert(post[post.len() - 1] == post.last());
    }
}

/// The coalescing law over any schedule of tasks: starting with nothing
/// pending, requests and writes interleave in any order; then
/// - there are never more writes than requests, and once anything was
///   requested and nothing remains desired, at least one write happened;
/// - when the last request made has the highest generation, no write after
///   it fails, and the run has settled (nothing desired, nothing in
///   flight), that request's value was the last one written and is the one
///   confirmed on disk.
/// Each task still reports its own generation
/// ([`lemma_outcome_has_own_generation`]).
pub proof fn lemma_coalescing_run(
    s: PersistState,
    pre: Seq<WriterEvent>,
    value: bool,
    rollback_value: bool,
    generation: u64,
    post: Seq<WriterEvent>,
)
    requires
        s.desired is None,
    ensures
        ({
            let es = pre.push(WriterEvent::Request(value, rollback_value, generation)) + post;
            let t = writer_run(writer_start(s), es);
            &&& t.writes <= t.requests
            &&& t.shared.desired is None ==> t.writes >= 1
            &&& ((forall|j: int| 0 <= j < pre.len() ==> (#[trigger] pre[j] matches WriterEvent::Request(_, _, g) ==> g <= generation))
                && (forall|j: int| 0 <= j < post.len() ==> (#[trigger] post[j] is Start || post[j] == WriterEvent::Finish(true)))
                && t.shared.desired is None && t.in_flight is None)
                ==> t.shared.confirmed == Some(value) && t.last_written == Some(Desired { value, generation })
        }),
{
    let r = WriterEvent::Request(value, rollback_value, generation);
    let es = pre.push(r) + post;
    lemma_writer_run_inv(s, es);
    let t = writer_run(writer_start(s), es);
    lemma_writer_run_append(writer_start(s), pre.push(r), post);
    assert(pre.push(r).drop_last() =~= pre);
    let w0 = writer_run(writer_start(s), pre);
    let w1 = writer_run(writer_start(s), pre.push(r));
    assert(w1 == writer_step(w0, r));
    lemma_writer_requests_grow(w1, post);
    lemma_writer_run_inv(s, pre.push(r));
    if (forall|j: int| 0 <= j < pre.len() ==> (#[trigger] pre[j] matches WriterEvent::Request(_, _, g) ==> g <= generation))
        && (forall|j: int| 0 <= j < post.len() ==> (#[trigger] post[j] is Start || post[j] == WriterEvent::Finish(true))) {
        lemma_writer_run_inv(s, pre);
        lemma_writer_max_generation(writer_start(s), pre, generation as nat);
        let d = Desired { value, generation };
        assert(w1.shared.desired == Some(d));
        lemma_writer_after_newest(w1, d, post);
    }
}

/// A task alone: with nothing pending, a request followed by a successful
/// write writes exactly the requested value once, reports it under the
/// task's generation, and leaves it confirmed with nothing pending.
pub proof fn lemma_lone_task_writes_its_value(s: PersistState, value: bool, rollback_value: bool, generation: u64)
    requires
        s.desired is None,
    ensures
        ({
            let s1 = spec_request(s, value, rollback_value, generation);
            let d = Desired { value, generation };
            &&& spec_next_action(s1, value, generation) == PersistAction::Write(d)
            &&& spec_complete(s1, d, Ok(()), rollback_value, generation)
                == Some(PersistOutcome::Persisted { value, generation })
            &&& spec_after_success(s1, d).confirmed == Some(value)
            &&& spec_after_success(s1, d).desired is None
        }),
{
}

} // verus!

//! The asynchronous execution core: coroutines with explicit wakeup
//! times, futures over their terminal values, the first-to-complete
//! combinator, and the binary-exponential retry policy.  There is no
//! thread and no blocking call; all progress is driven by the external
//! tick.

use vstd::prelude::*;
use crate::clock::{Duration, Instant};
use crate::event::Event;
use crate::fail::Fail;
use crate::mac::MacAddress;
use crate::options::Options;
use crate::tcp::TcpConnectionHandle;
use crate::task::{StepOut, Task};

verus! {

/// A terminal coroutine value.  The variants cover every result type a
/// coroutine of this engine can produce, so a future of one type is never
/// read as another.
#[derive(Clone, Copy, Debug, PartialEq, Eq, Structural)]
pub enum Value {
    Unit,
    Dur(Duration),
    Mac(MacAddress),
    Handle(TcpConnectionHandle),
    /// What a finished handshake hands back: the fields of the accepted
    /// segment that the opener still needs.
    Handshake { seq_num: u32, mss: Option<u16>, window_size: u16 },
}

#[derive(Clone, Copy, Debug, PartialEq, Eq, Structural, Hash)]
pub struct CoroutineId {
    pub v: u64,
}

#[derive(Clone, Copy, Debug)]
pub enum CoroutineStatus {
    /// Currently executing; never observed outside `resume`.
    Active,
    /// Wake no earlier than the given instant.
    AsleepUntil(Instant),
    /// Terminal; resuming is a no-op returning the cached result.
    Completed(Result<Value, Fail>),
}

pub struct Coroutine {
    pub id: CoroutineId,
    pub status: CoroutineStatus,
    pub body: Task,
}

/// The scheduler: the registered coroutines in registration order, and
/// the id for the next registration.
pub struct Sched {
    pub next_id: u64,
    pub cos: Vec<Coroutine>,
}

/// Index of the first coroutine with the given id, or -1.
pub open spec fn find_idx(cos: Seq<Coroutine>, id: CoroutineId) -> int
    decreases cos.len(),
{
    if cos.len() == 0 {
        -1
    } else if cos[0].spec_id() == id {
        0
    } else {
        let r = find_idx(cos.drop_first(), id);
        if r == -1 {
            -1
        } else {
            r + 1
        }
    }
}

/// The terminal result the scheduler holds for `id`, if that coroutine
/// exists and has completed.
pub open spec fn result_of(cos: Seq<Coroutine>, id: CoroutineId) -> Option<Result<Value, Fail>> {
    let i = find_idx(cos, id);
    if i == -1 {
        None
    } else if cos[i].spec_status() is Completed {
        Some(cos[i].spec_status()->Completed_0)
    } else {
        None
    }
}

/// The scheduler only grew: every previously registered coroutine is
/// still in place, untouched; new ones are appended after them.
pub open spec fn sched_extends(before: Seq<Coroutine>, after: Seq<Coroutine>) -> bool {
    &&& after.len() >= before.len()
    &&& forall|j: int| 0 <= j < before.len() ==> after[j] == before[j]
}

/// The event log only grew: everything previously emitted is still
/// there, in order; new events are appended after it.
pub open spec fn events_extends(before: Seq<Event>, after: Seq<Event>) -> bool {
    &&& after.len() >= before.len()
    &&& forall|j: int| 0 <= j < before.len() ==> after[j] == before[j]
}

/// The instant a yielded coroutine wakes: its requested delay, with a
/// zero or absent yield rewritten to one nanosecond, added to `now`
/// (saturating).
pub open spec fn wake_after(now: Instant, d_opt: Option<Duration>) -> Instant {
    let d: int = match d_opt {
        Some(d) => if d.ns > 0 {
            d.ns as int
        } else {
            1
        },
        None => 1,
    };
    Instant {
        ns: if now.ns + d <= u64::MAX {
            (now.ns + d) as u64
        } else {
            u64::MAX
        },
    }
}

/// No registered coroutine is marked `Active`: at most one coroutine runs
/// at any instant, and only inside `resume`.
pub open spec fn no_active(cos: Seq<Coroutine>) -> bool {
    forall|i: int| 0 <= i < cos.len() ==> !(#[trigger] cos[i].spec_status() is Active)
}

proof fn lemma_find_idx_bounds(cos: Seq<Coroutine>, id: CoroutineId)
    ensures
        find_idx(cos, id) == -1 || (0 <= find_idx(cos, id) < cos.len() && cos[find_idx(cos, id)].spec_id() == id),
    decreases cos.len(),
{
    if cos.len() > 0 && cos[0].spec_id() != id {
        lemma_find_idx_bounds(cos.drop_first(), id);
    }
}

impl Coroutine {
    pub open spec fn spec_id(&self) -> CoroutineId {
        self.id
    }

    pub open spec fn spec_status(&self) -> CoroutineStatus {
        self.status
    }

    /// Registers the body with a wakeup time of `now`, so that it runs on
    /// the next tick.
    pub fn new(id: CoroutineId, body: Task, now: Instant) -> (r: Coroutine)
        ensures
            r.spec_id() == id,
            r.spec_status() matches CoroutineStatus::AsleepUntil(w) && w == now,
            r.body == body,
    {
        Coroutine { id, status: CoroutineStatus::AsleepUntil(now), body }
    }

    pub fn id(&self) -> (r: CoroutineId)
        ensures
            r == self.spec_id(),
    {
        self.id
    }

    pub fn status(&self) -> (r: &CoroutineStatus)
        ensures
            *r == self.spec_status(),
    {
        &self.status
    }

    pub fn is_due(&self, now: Instant) -> (r: bool)
        ensures
            r == (self.spec_status() matches CoroutineStatus::AsleepUntil(w) && w.ns <= now.ns),
    {
        match &self.status {
            CoroutineStatus::AsleepUntil(w) => w.ns <= now.ns,
            _ => false,
        }
    }

    /// Resumes the coroutine once.  A completed coroutine is left alone; a
    /// sleeping one steps its body and goes back to sleep or completes.  A
    /// zero or absent yield duration is rewritten to one nanosecond, so a
    /// coroutine that yields still cedes the remainder of the tick.
    pub fn resume(
        &mut self,
        now: Instant,
        rt: &mut Runtime,
        peers: &mut crate::task::Peers,
    ) -> (done: bool)
        requires
            !(old(self).spec_status() is Active),
            old(self).spec_status() matches CoroutineStatus::AsleepUntil(w) ==> w.ns <= now.ns,
            now.ns < u64::MAX,
            old(peers).wf(),
        ensures
            final(peers).wf(),
            no_active(old(rt).sched.cos@) ==> no_active(final(rt).sched.cos@),
            sched_extends(old(rt).sched.cos@, final(rt).sched.cos@),
            events_extends(old(rt).events@, final(rt).events@),
            final(self).spec_id() == old(self).spec_id(),
            !(final(self).spec_status() is Active),
            old(self).spec_status() is Completed ==> final(self).spec_status()
                == old(self).spec_status() && done,
            final(self).spec_status() matches CoroutineStatus::AsleepUntil(w) ==> w.ns > now.ns,
            done == (final(self).spec_status() is Completed),
            !done ==> final(self).spec_status() is AsleepUntil,
            // a due coroutine's new body and status are one outcome of a
            // step of its old body: a yield sleeps until `wake_after`
            // (zero and absent delays rewritten to one nanosecond), and a
            // completion stores exactly the step's result
            old(self).spec_status() is AsleepUntil ==> exists|out: StepOut|
                #[trigger] crate::task::step_outcome(
                    old(self).body,
                    now,
                    *old(rt),
                    *old(peers),
                    *final(rt),
                    *final(peers),
                    final(self).body,
                    out,
                ) && match out {
                    StepOut::Yielded(d) => !done && final(self).spec_status()
                        == CoroutineStatus::AsleepUntil(wake_after(now, d)),
                    StepOut::Completed(res) => done && final(self).spec_status()
                        == CoroutineStatus::Completed(res),
                },
    {
        match &self.status {
            CoroutineStatus::Completed(_) => true,
            CoroutineStatus::Active => {
                proof {
                    assert(false);
                }
                true
            },
            CoroutineStatus::AsleepUntil(_) => {
                self.status = CoroutineStatus::Active;
                let mut body = Task::Idle;
                core::mem::swap(&mut self.body, &mut body);
                let (new_body, out) = body.step(now, rt, peers);
                self.body = new_body;
                let ghost g_out = out;
                match out {
                    StepOut::Yielded(d_opt) => {
                        let mut d = match d_opt {
                            Some(d) => d,
                            None => Duration { ns: 0 },
                        };
                        if d.ns == 0 {
                            d = Duration { ns: 1 };
                        }
                        self.status = CoroutineStatus::AsleepUntil(now.plus(d));
                        proof {
                            assert(self.status == CoroutineStatus::AsleepUntil(
                                wake_after(now, d_opt),
                            ));
                        }
                        false
                    },
                    StepOut::Completed(r) => {
                        self.status = CoroutineStatus::Completed(r);
                        true
                    },
                }
            },
        }
    }
}

impl Sched {
    pub fn new() -> (r: Sched)
        ensures
            r.next_id == 0,
            r.cos@.len() == 0,
    {
        Sched { next_id: 0, cos: Vec::new() }
    }
}

/// A shared handle to one coroutine's terminal value.  A `Ready` future
/// was born resolved (a cache hit); a `Pending` one reads the scheduler.
#[derive(Clone, Copy, Debug)]
pub enum Future {
    Ready(Value),
    Pending(CoroutineId),
}

impl Future {
    /// The value a poll returns: the cached value, the registered
    /// coroutine's terminal result, or `TryAgain` while it is pending (or
    /// unknown to the scheduler).
    pub open spec fn spec_poll(self, cos: Seq<Coroutine>) -> Result<Value, Fail> {
        match self {
            Future::Ready(v) => Ok(v),
            Future::Pending(id) => match result_of(cos, id) {
                Some(res) => res,
                None => Err(Fail::TryAgain),
            },
        }
    }

    /// Polls without blocking.
    pub fn poll(&self, sched: &Sched) -> (r: Result<Value, Fail>)
        ensures
            r == self.spec_poll(sched.cos@),
    {
        let me = *self;
        match me {
            Future::Ready(v) => Ok(v),
            Future::Pending(id) => {
                proof {
                    lemma_find_idx_bounds(sched.cos@, id);
                }
                let n = sched.cos.len();
                let mut i: usize = 0;
                while i < n
                    invariant
                        0 <= i <= n,
                        n == sched.cos@.len(),
                        forall|j: int| 0 <= j < i ==> #[trigger] sched.cos@[j].spec_id() != id,
                        find_idx(sched.cos@, id) == -1 || find_idx(sched.cos@, id) >= i,
                        me == *self,
                        me == Future::Pending(id),
                    decreases n - i,
                {
                    if sched.cos[i].id() == id {
                        proof {
                            lemma_find_idx_first(sched.cos@, id, i as int);
                        }
                        match sched.cos[i].status() {
                            CoroutineStatus::Completed(res) => {
                                proof {
                                    assert(result_of(sched.cos@, id) == Some(*res));
                                }
                                return *res;
                            },
                            _ => {
                                return Err(Fail::TryAgain);
                            },
                        }
                    }
                    i = i + 1;
                    proof {
                        lemma_find_idx_skip(sched.cos@, id, i as int);
                    }
                }
                Err(Fail::TryAgain)
            },
        }
    }
}

/// If no index below `i` matches and index `i` does, then `i` is the
/// first match.
proof fn lemma_find_idx_first(cos: Seq<Coroutine>, id: CoroutineId, i: int)
    requires
        0 <= i < cos.len(),
        cos[i].spec_id() == id,
        forall|j: int| 0 <= j < i ==> #[trigger] cos[j].spec_id() != id,
    ensures
        find_idx(cos, id) == i,
    decreases i,
{
    if i == 0 {
    } else {
        lemma_find_idx_first(cos.drop_first(), id, i - 1);
    }
}

/// If no index below `i` matches, the first match (if any) is at or past
/// `i`.
proof fn lemma_find_idx_skip(cos: Seq<Coroutine>, id: CoroutineId, i: int)
    requires
        0 <= i <= cos.len(),
        forall|j: int| 0 <= j < i ==> #[trigger] cos[j].spec_id() != id,
    ensures
        find_idx(cos, id) == -1 || find_idx(cos, id) >= i,
    decreases i,
{
    if i > 0 {
        assert(cos.len() > 0);
        assert(cos[0].spec_id() != id);
        assert forall|j: int| 0 <= j < i - 1 implies #[trigger] cos.drop_first()[j].spec_id()
            != id by {
            assert(cos.drop_first()[j] == cos[j + 1]);
        }
        lemma_find_idx_skip(cos.drop_first(), id, i - 1);
        let r = find_idx(cos.drop_first(), id);
        assert(find_idx(cos, id) == if r == -1 {
            -1int
        } else {
            r + 1
        });
    } else {
        lemma_find_idx_bounds(cos, id);
    }
}

/// The runtime handle every component shares: configuration, the RNG,
/// the event sink and the scheduler.
pub struct Runtime {
    pub options: Options,
    pub rng: rand::rngs::StdRng,
    /// A per-runtime nonce standing in for a process identity, mixed
    /// into ping identifiers.
    pub runtime_nonce: u64,
    pub events: Vec<Event>,
    pub sched: Sched,
}

impl Runtime {
    pub fn new(options: Options, seed: u64) -> (r: Runtime)
        ensures
            r.options == options,
            r.events@.len() == 0,
            r.sched.cos@.len() == 0,
    {
        let mut rng = crate::entropy::rng_from_seed(seed);
        let runtime_nonce = crate::entropy::rng_next_u64(&mut rng);
        Runtime { options, rng, runtime_nonce, events: Vec::new(), sched: Sched::new() }
    }

    pub fn emit_event(&mut self, ev: Event)
        ensures
            final(self).events@ == old(self).events@.push(ev),
            final(self).sched.cos@ == old(self).sched.cos@,
            final(self).sched.next_id == old(self).sched.next_id,
            final(self).options == old(self).options,
    {
        self.events.push(ev);
    }

    /// Hands the accumulated events to the driver and clears the sink.
    pub fn take_events(&mut self) -> (r: Vec<Event>)
        ensures
            r@ == old(self).events@,
            final(self).events@.len() == 0,
            final(self).sched.cos@ == old(self).sched.cos@,
            final(self).options == old(self).options,
    {
        let mut out: Vec<Event> = Vec::new();
        core::mem::swap(&mut self.events, &mut out);
        out
    }

    /// Registers a new coroutine, asleep until `now` so that it runs on
    /// the next tick, and returns the future of its terminal value.
    pub fn spawn(&mut self, body: Task, now: Instant) -> (r: Future)
        ensures
            final(self).sched.cos@.len() == old(self).sched.cos@.len() + 1,
            final(self).sched.cos@[old(self).sched.cos@.len() as int].spec_status()
                matches CoroutineStatus::AsleepUntil(w) && w == now,
            final(self).sched.cos@.last().body == body,
            forall|i: int| 0 <= i < old(self).sched.cos@.len() ==> final(self).sched.cos@[i]
                == old(self).sched.cos@[i],
            sched_extends(old(self).sched.cos@, final(self).sched.cos@),
            r matches Future::Pending(id) && id == final(self).sched.cos@[old(self).sched.cos@.len() as int].spec_id(),
            final(self).events@ == old(self).events@,
            final(self).options == old(self).options,
    {
        let id = CoroutineId { v: self.sched.next_id };
        self.sched.next_id = self.sched.next_id.wrapping_add(1);
        self.sched.cos.push(Coroutine::new(id, body, now));
        Future::Pending(id)
    }
}

/// Binary-exponential retry: each failed round doubles the allowed wait,
/// up to a fixed number of retries.
#[derive(Clone, Copy, Debug)]
pub struct Retry {
    pub wait: Duration,
    pub remaining: usize,
}

impl Retry {
    pub fn binary_exponential(base: Duration, retries: usize) -> (r: Retry)
        ensures
            r.wait == base,
            r.remaining == retries,
    {
        Retry { wait: base, remaining: retries }
    }

    /// After a failed attempt: the doubled wait for the next round, or
    /// `None` when the retry budget is spent.
    pub fn try_again(&mut self) -> (r: Option<Duration>)
        ensures
            old(self).remaining == 0 ==> r is None && *final(self) == *old(self),
            old(self).remaining > 0 ==> {
                &&& final(self).remaining == old(self).remaining - 1
                &&& (old(self).wait.ns * 2 <= u64::MAX ==> final(self).wait.ns == old(self).wait.ns
                    * 2)
                &&& (old(self).wait.ns * 2 > u64::MAX ==> final(self).wait.ns == u64::MAX)
                &&& r == Some(final(self).wait)
            },
    {
        if self.remaining == 0 {
            None
        } else {
            self.remaining = self.remaining - 1;
            self.wait = self.wait.doubled();
            Some(self.wait)
        }
    }
}

/// First-to-complete combinator over a set of pending futures.
pub struct WhenAny {
    pub members: Vec<Future>,
}

impl WhenAny {
    pub fn new() -> (r: WhenAny)
        ensures
            r.members@.len() == 0,
    {
        WhenAny { members: Vec::new() }
    }

    pub fn add(&mut self, f: Future)
        ensures
            final(self).members@ == old(self).members@.push(f),
    {
        self.members.push(f);
    }

    pub fn len(&self) -> (r: usize)
        ensures
            r == self.members@.len(),
    {
        self.members.len()
    }

    /// Polls the members in registration order.  The first success is
    /// removed and returned; when every member has terminated with an
    /// error, the last error observed is returned and the combinator
    /// empties; while any member is pending the result is `None`.
    pub fn poll(&mut self, sched: &Sched) -> (r: Option<Result<Value, Fail>>)
        ensures
            // the first success (in registration order) is removed and
            // returned; every earlier member had terminated with an error
            r matches Some(res) ==> (res matches Ok(v) ==> exists|i: int|
                0 <= i < old(self).members@.len() && (#[trigger] old(self).members@[i]).spec_poll(
                    sched.cos@,
                ) == Ok::<Value, Fail>(v) && final(self).members@ == old(self).members@.remove(i)
                    && forall|j: int| 0 <= j < i ==> (#[trigger] old(self).members@[j]).spec_poll(
                    sched.cos@,
                ) is Err),
            // the last error is surfaced only when every member failed
            r matches Some(res) ==> (res matches Err(e) ==> old(self).members@.len() > 0 && final(self).members@.len() == 0 && old(self).members@.last().spec_poll(sched.cos@)
                == Err::<Value, Fail>(e) && forall|j: int|
                0 <= j < old(self).members@.len() ==> (#[trigger] old(self).members@[j]).spec_poll(
                    sched.cos@,
                ) is Err && old(self).members@[j].spec_poll(sched.cos@) != Err::<Value, Fail>(
                    Fail::TryAgain,
                )),
            // nothing resolves while a member is pending (or none exists)
            r is None ==> final(self).members@ == old(self).members@ && (old(self).members@.len()
                == 0 || exists|j: int|
                0 <= j < old(self).members@.len() && (#[trigger] old(self).members@[j]).spec_poll(
                    sched.cos@,
                ) == Err::<Value, Fail>(Fail::TryAgain)),
    {
        let n = self.members.len();
        let mut i: usize = 0;
        let mut last_err: Fail = Fail::TryAgain;
        let mut any_pending: bool = false;
        while i < n
            invariant
                0 <= i <= n,
                n == self.members@.len(),
                self.members@ == old(self).members@,
                forall|j: int| 0 <= j < i ==> (#[trigger] old(self).members@[j]).spec_poll(
                    sched.cos@,
                ) is Err,
                any_pending == exists|j: int|
                    0 <= j < i && (#[trigger] old(self).members@[j]).spec_poll(sched.cos@)
                        == Err::<Value, Fail>(Fail::TryAgain),
                !any_pending ==> forall|j: int| 0 <= j < i ==> (
                #[trigger] old(self).members@[j]).spec_poll(sched.cos@) != Err::<Value, Fail>(
                    Fail::TryAgain,
                ),
                i > 0 ==> match old(self).members@[i - 1].spec_poll(sched.cos@) {
                    Err(e) => e == Fail::TryAgain || last_err == e,
                    Ok(_) => true,
                },
            decreases n - i,
        {
            let f = self.members[i];
            match f.poll(sched) {
                Ok(v) => {
                    proof {
                        assert(old(self).members@[i as int].spec_poll(sched.cos@) == Ok::<
                            Value,
                            Fail,
                        >(v));
                    }
                    self.members.remove(i);
                    return Some(Ok(v));
                },
                Err(Fail::TryAgain) => {
                    any_pending = true;
                },
                Err(e) => {
                    last_err = e;
                },
            }
            i = i + 1;
        }
        if n > 0 && !any_pending {
            proof {
                assert(old(self).members@.last() == old(self).members@[n - 1]);
                assert(match old(self).members@[n - 1].spec_poll(sched.cos@) {
                    Err(e) => last_err == e,
                    Ok(_) => false,
                });
            }
            self.members.clear();
            return Some(Err(last_err));
        }
        None
    }
}

} // verus!

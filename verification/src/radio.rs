//! Who owns the radio.
//!
//! One actor owns the controller and takes jobs in turn: polls of the sampler,
//! actions, and requests of a phone for the link to the car. This module says
//! how jobs rank, how long a phone may hold the link and what the actor does
//! with each job; the caller runs the queue and the timers.

use std::cmp::Ordering;

use vstd::prelude::*;
use vstd::string::*;

verus! {

/// A span of time.
#[derive(Debug, Clone, Copy, PartialEq, Eq, Structural)]
pub struct Span {
    pub secs: u64,
    pub nanos: u32,
}

impl Span {
    /// Its length in nanoseconds.
    pub open spec fn total(&self) -> int {
        self.secs * 1_000_000_000 + self.nanos
    }

    /// A span of whole seconds.
    pub fn from_secs(secs: u64) -> (res: Span)
        ensures
            res == (Span { secs, nanos: 0 }),
    {
        Span { secs, nanos: 0 }
    }
}

/// The longest time that a phone may hold the link to the car, in seconds. It
/// stays well below the time after which the car would reject the session.
pub const MAX_PHONE_LEASE_SECS: u64 = 30;

/// The longest time that a phone may hold the link to the car.
pub fn max_phone_lease() -> (res: Span)
    ensures
        res == (Span { secs: MAX_PHONE_LEASE_SECS, nanos: 0 }),
{
    Span::from_secs(MAX_PHONE_LEASE_SECS)
}

/// A requested lease, cut to the longest one.
pub open spec fn clamped(requested: Span) -> Span {
    let most = Span { secs: MAX_PHONE_LEASE_SECS, nanos: 0 };
    if requested.total() <= most.total() {
        requested
    } else {
        most
    }
}

/// Cut a requested lease to the longest one.
pub fn clamp_lease(requested: Span) -> (res: Span)
    ensures
        res == clamped(requested),
{
    let total: u128 = (requested.secs as u128) * 1_000_000_000 + (requested.nanos as u128);
    let most: u128 = (MAX_PHONE_LEASE_SECS as u128) * 1_000_000_000;
    if total <= most {
        requested
    } else {
        max_phone_lease()
    }
}

/// Rank of a job.
#[derive(Debug, Clone, Copy, PartialEq, Eq, Ord, Structural)]
pub enum Priority {
    /// Background sampling.
    Sampler,
    /// A phone wants the link to the car.
    Phone,
}

impl Priority {
    /// The place in the order.
    pub open spec fn rank(self) -> int {
        match self {
            Priority::Sampler => 0,
            Priority::Phone => 1,
        }
    }
}

/// How two places compare.
pub open spec fn rank_order(a: int, b: int) -> Ordering {
    if a < b {
        Ordering::Less
    } else if a == b {
        Ordering::Equal
    } else {
        Ordering::Greater
    }
}

impl PartialOrd for Priority {
    fn partial_cmp(&self, other: &Priority) -> (res: Option<Ordering>) {
        match (*self, *other) {
            (Priority::Sampler, Priority::Phone) => Some(Ordering::Less),
            (Priority::Phone, Priority::Sampler) => Some(Ordering::Greater),
            _ => Some(Ordering::Equal),
        }
    }
}

impl vstd::std_specs::cmp::PartialOrdSpecImpl for Priority {
    open spec fn obeys_partial_cmp_spec() -> bool {
        true
    }

    open spec fn partial_cmp_spec(&self, other: &Priority) -> Option<Ordering> {
        Some(rank_order(self.rank(), other.rank()))
    }
}

/// What a poll of the sampler asks for, in the order in which the sampler walks
/// its polls.
#[derive(Debug, Clone, Copy, PartialEq, Eq, Ord, Structural)]
pub enum PollKind {
    /// Gear, location and odometer.
    Drive,
    /// Temperatures and climate control.
    Climate,
    /// Battery and charger.
    Charge,
    /// Doors and Sentry mode.
    Closures,
    /// Tire pressures.
    Tires,
}

impl PollKind {
    /// The order in which the sampler walks its polls.
    pub const LEGACY_ORDER: [PollKind; 5] = [
        PollKind::Drive,
        PollKind::Climate,
        PollKind::Charge,
        PollKind::Closures,
        PollKind::Tires,
    ];

    /// The place in the order.
    pub open spec fn rank(self) -> int {
        match self {
            PollKind::Drive => 0,
            PollKind::Climate => 1,
            PollKind::Charge => 2,
            PollKind::Closures => 3,
            PollKind::Tires => 4,
        }
    }

    fn place(self) -> (res: u8)
        ensures
            res == self.rank(),
    {
        match self {
            PollKind::Drive => 0,
            PollKind::Climate => 1,
            PollKind::Charge => 2,
            PollKind::Closures => 3,
            PollKind::Tires => 4,
        }
    }
}

impl PartialOrd for PollKind {
    fn partial_cmp(&self, other: &PollKind) -> (res: Option<Ordering>) {
        let a: u8 = self.place();
        let b: u8 = other.place();
        if a < b {
            Some(Ordering::Less)
        } else if a == b {
            Some(Ordering::Equal)
        } else {
            Some(Ordering::Greater)
        }
    }
}

impl vstd::std_specs::cmp::PartialOrdSpecImpl for PollKind {
    open spec fn obeys_partial_cmp_spec() -> bool {
        true
    }

    open spec fn partial_cmp_spec(&self, other: &PollKind) -> Option<Ordering> {
        Some(rank_order(self.rank(), other.rank()))
    }
}

/// Work for the radio. `A` is an action with the way to reply to it; `K` is the
/// way to hand a lease to a phone.
pub enum RadioJob<A, K> {
    /// Run one poll of the sampler.
    Poll(PollKind),
    /// Serve an action.
    Action(A),
    /// Hand the link to the car to a phone, for at most this long.
    PhonePreempt { lease: Span, ack: K },
}

impl<A, K> RadioJob<A, K> {
    /// The rank of the job.
    pub open spec fn ranks_as(self) -> Priority {
        if self is PhonePreempt {
            Priority::Phone
        } else {
            Priority::Sampler
        }
    }

    /// The rank of the job. Actions and polls share a session and wait for a
    /// phone's lease to end.
    pub fn priority(&self) -> (res: Priority)
        ensures
            res == self.ranks_as(),
    {
        match self {
            RadioJob::PhonePreempt { .. } => Priority::Phone,
            RadioJob::Poll(_) => Priority::Sampler,
            RadioJob::Action(_) => Priority::Sampler,
        }
    }
}

/// What an action is answered: the actor does not route actions yet.
pub const ACTION_REFUSED: &'static str = "radio-actor action routing is structure-only (flag-on path is inert pending on-vehicle sign-off)";

/// What a job is answered where the actor has stopped.
pub const ACTOR_STOPPED: &'static str = "radio actor task has stopped";

/// What a phone is answered where the actor gave it no lease.
pub const LEASE_DROPPED: &'static str = "radio actor dropped the lease ack";

/// What the actor does with a job.
pub enum RadioStep<A, K> {
    /// Run the sampler.
    Tick(PollKind),
    /// Answer the action with this error.
    Refuse { action: A, error: &'static str },
    /// Hand over a lease and wait until it is released, for at most this long.
    Grant { hold: Span, ack: K },
}

/// What the actor does with a job.
pub open spec fn serves<A, K>(job: RadioJob<A, K>, step: RadioStep<A, K>) -> bool {
    match job {
        RadioJob::Poll(kind) => step == RadioStep::<A, K>::Tick(kind),
        RadioJob::Action(action) => step matches RadioStep::Refuse { action: a, error } && a
            == action && error@ == ACTION_REFUSED@,
        RadioJob::PhonePreempt { lease, ack } => step == (RadioStep::<A, K>::Grant {
            hold: clamped(lease),
            ack,
        }),
    }
}

/// Decide what to do with a job. Jobs are taken in the order in which they were
/// submitted, and each is finished before the next one is taken: a poll cannot
/// be interrupted halfway.
pub fn run_radio_job<A, K>(job: RadioJob<A, K>) -> (res: RadioStep<A, K>)
    ensures
        serves(job, res),
{
    match job {
        RadioJob::Poll(kind) => RadioStep::Tick(kind),
        RadioJob::Action(action) => RadioStep::Refuse { action, error: ACTION_REFUSED },
        RadioJob::PhonePreempt { lease, ack } => RadioStep::Grant {
            hold: clamp_lease(lease),
            ack,
        },
    }
}

/// How long to wait for a lease to be released.
pub open spec fn hold_time(delivered: bool, hold: Span) -> Option<Span> {
    if delivered {
        Some(clamped(hold))
    } else {
        None
    }
}

/// How long to wait for a lease to be released: not at all where nobody was
/// there to take it.
pub fn hold_lease(delivered: bool, hold: Span) -> (res: Option<Span>)
    ensures
        res == hold_time(delivered, hold),
{
    if delivered {
        Some(clamp_lease(hold))
    } else {
        None
    }
}

/// The job asks for the link to the car on behalf of a phone.
pub open spec fn asks_for<A, K>(lease: Span, ack: K, job: RadioJob<A, K>) -> bool {
    job == (RadioJob::<A, K>::PhonePreempt { lease: clamped(lease), ack })
}

/// The job that asks for the link to the car on behalf of a phone.
pub fn phone_job<A, K>(lease: Span, ack: K) -> (res: RadioJob<A, K>)
    ensures
        asks_for(lease, ack, res),
{
    RadioJob::PhonePreempt { lease: clamp_lease(lease), ack }
}

/// What a phone that asked for the link is answered.
pub open spec fn answers_phone<G>(
    queued: bool,
    acked: Option<G>,
    res: Result<G, &'static str>,
) -> bool {
    if !queued {
        res matches Err(e) && e@ == ACTOR_STOPPED@
    } else {
        match acked {
            Some(guard) => res == Ok::<G, &'static str>(guard),
            None => res matches Err(e) && e@ == LEASE_DROPPED@,
        }
    }
}

/// What a phone that asked for the link is answered: `queued` says whether the
/// actor took the job, and `acked` is the lease that came back.
pub fn lease_answer<G>(queued: bool, acked: Option<G>) -> (res: Result<G, &'static str>)
    ensures
        answers_phone(queued, acked, res),
{
    if !queued {
        return Err(ACTOR_STOPPED);
    }
    match acked {
        Some(guard) => Ok(guard),
        None => Err(LEASE_DROPPED),
    }
}

// ---------------------------------------------------------------------------
// Laws
// ---------------------------------------------------------------------------

/// A lease never lasts longer than the longest one, nor longer than asked for;
/// a request within the limit is granted as it is, and cutting twice is cutting
/// once.
pub proof fn law_leases_are_bounded(requested: Span)
    ensures
        clamped(requested).total() <= MAX_PHONE_LEASE_SECS * 1_000_000_000,
        clamped(requested).total() <= requested.total(),
        requested.total() <= MAX_PHONE_LEASE_SECS * 1_000_000_000 ==> clamped(requested)
            == requested,
        clamped(clamped(requested)) == clamped(requested),
{
}

/// A longer request never gives a shorter lease.
pub proof fn law_leases_are_monotone(a: Span, b: Span)
    requires
        a.total() <= b.total(),
    ensures
        clamped(a).total() <= clamped(b).total(),
{
}

/// A phone outranks the sampler, and nothing else does.
pub proof fn law_phone_outranks_sampler(p: Priority)
    ensures
        p.rank() > Priority::Sampler.rank() <==> p == Priority::Phone,
{
}

/// The sampler walks every poll once, in ascending order.
pub proof fn law_walk_is_ascending(kind: PollKind, i: int, j: int)
    ensures
        PollKind::LEGACY_ORDER@[kind.rank()] == kind,
        0 <= i < j < 5 ==> PollKind::LEGACY_ORDER@[i].rank() < PollKind::LEGACY_ORDER@[j].rank(),
{
}

/// A lease lasts as long as it was asked for, and thirty seconds at the most, to
/// the nanosecond.
pub proof fn law_lease_is_the_shorter_of_the_two(requested: Span)
    ensures
        clamped(requested).secs * 1_000_000_000 + clamped(requested).nanos == (if requested.secs
            * 1_000_000_000 + requested.nanos <= 30_000_000_000 {
            requested.secs * 1_000_000_000 + requested.nanos
        } else {
            30_000_000_000
        }),
        requested.secs * 1_000_000_000 + requested.nanos <= 30_000_000_000 ==> clamped(requested)
            == requested,
{
}

/// What the actor does with a job keeps what the job carries: a poll is run as
/// it was asked for, an action is handed back with its refusal, and a phone's
/// acknowledgement goes with a lease that lasts as asked, or thirty seconds.
pub proof fn law_jobs_are_served_as_asked<A, K>(job: RadioJob<A, K>, step: RadioStep<A, K>)
    requires
        serves(job, step),
    ensures
        job matches RadioJob::Poll(kind) ==> (step matches RadioStep::Tick(k) && k == kind),
        job matches RadioJob::Action(a) ==> (step matches RadioStep::Refuse { action, error }
            && action == a && error@ == ACTION_REFUSED@),
        job matches RadioJob::PhonePreempt { lease, ack } ==> (step matches RadioStep::Grant {
            hold,
            ack: k,
        } && k == ack && hold.total() <= 30_000_000_000 && hold.total() <= lease.total() && (
        hold.total() < 30_000_000_000 ==> hold == lease)),
{
}

/// A lease that was taken is waited for as long as it lasts, thirty seconds at
/// the most; one that nobody took is not waited for.
pub proof fn law_only_taken_leases_are_held(delivered: bool, hold: Span)
    ensures
        hold_time(delivered, hold) is Some <==> delivered,
        hold_time(delivered, hold) matches Some(t) ==> t.total() <= 30_000_000_000 && (hold.total()
            <= 30_000_000_000 ==> t == hold),
{
}

/// A phone's job ranks above every other job and carries the phone's own
/// acknowledgement; its lease needs no further cut.
pub proof fn law_phone_jobs_are_within_the_limit<A, K>(
    lease: Span,
    ack: K,
    job: RadioJob<A, K>,
    step: RadioStep<A, K>,
)
    requires
        asks_for(lease, ack, job),
        serves(job, step),
    ensures
        step matches RadioStep::Grant { hold, ack: k } && k == ack && job == (RadioJob::<
            A,
            K,
        >::PhonePreempt { lease: hold, ack }) && hold.total() <= 30_000_000_000 && (lease.total()
            <= 30_000_000_000 ==> hold == lease),
{
}

/// Places compare as numbers do.
pub proof fn law_places_compare_as_numbers(a: int, b: int)
    ensures
        rank_order(a, b) == Ordering::Less <==> a < b,
        rank_order(a, b) == Ordering::Equal <==> a == b,
        rank_order(a, b) == Ordering::Greater <==> a > b,
{
}

/// Drive polls come first, then climate, charge, closures and tires.
pub proof fn law_polls_are_ranked()
    ensures
        PollKind::Drive.rank() < PollKind::Climate.rank(),
        PollKind::Climate.rank() < PollKind::Charge.rank(),
        PollKind::Charge.rank() < PollKind::Closures.rank(),
        PollKind::Closures.rank() < PollKind::Tires.rank(),
{
}

/// Only a phone's job ranks as a phone's; every poll and every action ranks with
/// the sampler, below it.
pub proof fn law_only_phones_preempt<A, K>(job: RadioJob<A, K>)
    ensures
        job is PhonePreempt <==> job.ranks_as() == Priority::Phone,
        job is Poll || job is Action <==> job.ranks_as() == Priority::Sampler,
        job.ranks_as().rank() > Priority::Sampler.rank() <==> job is PhonePreempt,
{
}

/// A phone gets the lease that came back, where its job was taken; else it is
/// told whether the actor has stopped or dropped the lease.
pub proof fn law_leases_are_handed_on<G>(
    queued: bool,
    acked: Option<G>,
    res: Result<G, &'static str>,
)
    requires
        answers_phone(queued, acked, res),
    ensures
        res is Ok <==> queued && acked is Some,
        res matches Ok(guard) ==> acked == Some(guard),
        !queued ==> (res matches Err(e) && e@ == "radio actor task has stopped"@),
        queued && acked is None ==> (res matches Err(e) && e@
            == "radio actor dropped the lease ack"@),
{
}

} // verus!

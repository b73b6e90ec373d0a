//! Bounds on the handshakes that are under way, in all and per source address.
use crate::maps::{AssocMap, Key};
use vstd::multiset::Multiset;
use vstd::prelude::*;

verus! {

/// A source address, as the number that its octets spell.
#[derive(Debug, Clone, Copy, PartialEq, Eq, Structural)]
pub enum IpAddr {
    V4(u32),
    V6(u128),
}

impl Key for IpAddr {
    fn same(&self, other: &Self) -> (r: bool) {
        *self == *other
    }
}

/// The bound that a refused connection ran into.
#[derive(Debug, Clone, Copy, PartialEq, Eq, Structural)]
pub enum IngressLimit {
    Global,
    Peer,
}

/// How a handshake ended.
#[derive(Debug)]
pub enum IngressOutcome<E> {
    Completed,
    Failed(E),
    TimedOut,
}

/// What became of a handshake that was given a deadline: `None` stands for the
/// deadline having passed first.
pub fn run_ingress_handshake<E>(result: Option<Result<(), E>>) -> (outcome: IngressOutcome<E>)
    ensures
        outcome == match result {
            Some(Ok(_)) => IngressOutcome::Completed,
            Some(Err(err)) => IngressOutcome::Failed(err),
            None => IngressOutcome::TimedOut,
        },
{
    match result {
        Some(Ok(())) => IngressOutcome::Completed,
        Some(Err(err)) => IngressOutcome::Failed(err),
        None => IngressOutcome::TimedOut,
    }
}

/// Counts of what happened since the last report.
#[derive(Debug, Clone, Copy, PartialEq, Eq, Structural)]
pub struct IngressStats {
    pub completed: u64,
    pub failed: u64,
    pub timed_out: u64,
    pub rejected_global: u64,
    pub rejected_peer: u64,
}

/// What a report says: the counts, and what is under way at that moment.
#[derive(Debug, Clone, Copy, PartialEq, Eq, Structural)]
pub struct IngressReport {
    pub counts: IngressStats,
    pub active: usize,
    pub peers: usize,
}

/// One of the counts.
#[derive(Debug, Clone, Copy, PartialEq, Eq, Structural)]
pub enum Counter {
    Completed,
    Failed,
    TimedOut,
    RejectedGlobal,
    RejectedPeer,
}

/// The counter that a refusal goes to.
pub open spec fn counter_of_limit(limit: IngressLimit) -> Counter {
    match limit {
        IngressLimit::Global => Counter::RejectedGlobal,
        IngressLimit::Peer => Counter::RejectedPeer,
    }
}

/// The counter that the end of a handshake goes to.
pub open spec fn counter_of_outcome<E>(outcome: IngressOutcome<E>) -> Counter {
    match outcome {
        IngressOutcome::Completed => Counter::Completed,
        IngressOutcome::Failed(_) => Counter::Failed,
        IngressOutcome::TimedOut => Counter::TimedOut,
    }
}

/// The counter after one more event. It wraps at its width.
pub open spec fn bumped(n: u64) -> u64 {
    if n == u64::MAX {
        0
    } else {
        (n + 1) as u64
    }
}

impl IngressStats {
    /// All counts at zero.
    pub open spec fn zero() -> IngressStats {
        IngressStats { completed: 0, failed: 0, timed_out: 0, rejected_global: 0, rejected_peer: 0 }
    }

    /// The sum of the counts.
    pub open spec fn total(self) -> nat {
        (self.completed + self.failed + self.timed_out + self.rejected_global
            + self.rejected_peer) as nat
    }

    /// One of the counts.
    pub open spec fn count(self, counter: Counter) -> nat {
        match counter {
            Counter::Completed => self.completed as nat,
            Counter::Failed => self.failed as nat,
            Counter::TimedOut => self.timed_out as nat,
            Counter::RejectedGlobal => self.rejected_global as nat,
            Counter::RejectedPeer => self.rejected_peer as nat,
        }
    }

    /// The report on these counts: none if all of them are zero.
    pub open spec fn report_of(self, active: usize, peers: usize) -> Option<IngressReport> {
        if self == IngressStats::zero() {
            None
        } else {
            Some(IngressReport { counts: self, active, peers })
        }
    }

    /// No count is at its width, where it would wrap.
    pub open spec fn below_width(self) -> bool {
        &&& self.completed < u64::MAX
        &&& self.failed < u64::MAX
        &&& self.timed_out < u64::MAX
        &&& self.rejected_global < u64::MAX
        &&& self.rejected_peer < u64::MAX
    }

    /// The counts after one more refusal.
    pub open spec fn with_limit(self, limit: IngressLimit) -> IngressStats {
        match limit {
            IngressLimit::Global => IngressStats {
                rejected_global: bumped(self.rejected_global),
                ..self
            },
            IngressLimit::Peer => IngressStats {
                rejected_peer: bumped(self.rejected_peer),
                ..self
            },
        }
    }

    /// The counts after one more handshake has ended.
    pub open spec fn with_outcome<E>(self, outcome: IngressOutcome<E>) -> IngressStats {
        match outcome {
            IngressOutcome::Completed => IngressStats { completed: bumped(self.completed), ..self },
            IngressOutcome::Failed(_) => IngressStats { failed: bumped(self.failed), ..self },
            IngressOutcome::TimedOut => IngressStats { timed_out: bumped(self.timed_out), ..self },
        }
    }

    /// Counts a refusal.
    pub fn record_limit(&mut self, limit: IngressLimit)
        ensures
            *final(self) == old(self).with_limit(limit),
            final(self).completed == old(self).completed,
            final(self).failed == old(self).failed,
            final(self).timed_out == old(self).timed_out,
            final(self).rejected_global == if limit == IngressLimit::Global {
                (old(self).rejected_global + 1) % (u64::MAX + 1)
            } else {
                old(self).rejected_global as int
            },
            final(self).rejected_peer == if limit == IngressLimit::Peer {
                (old(self).rejected_peer + 1) % (u64::MAX + 1)
            } else {
                old(self).rejected_peer as int
            },
    {
        match limit {
            IngressLimit::Global => {
                self.rejected_global = self.rejected_global.wrapping_add(1);
            },
            IngressLimit::Peer => {
                self.rejected_peer = self.rejected_peer.wrapping_add(1);
            },
        }
    }

    /// Counts the end of a handshake.
    pub fn record_outcome<E>(&mut self, outcome: &IngressOutcome<E>)
        ensures
            *final(self) == old(self).with_outcome(*outcome),
            final(self).completed == if outcome is Completed {
                (old(self).completed + 1) % (u64::MAX + 1)
            } else {
                old(self).completed as int
            },
            final(self).failed == if outcome is Failed {
                (old(self).failed + 1) % (u64::MAX + 1)
            } else {
                old(self).failed as int
            },
            final(self).timed_out == if outcome is TimedOut {
                (old(self).timed_out + 1) % (u64::MAX + 1)
            } else {
                old(self).timed_out as int
            },
            final(self).rejected_global == old(self).rejected_global,
            final(self).rejected_peer == old(self).rejected_peer,
    {
        match outcome {
            IngressOutcome::Completed => {
                self.completed = self.completed.wrapping_add(1);
            },
            IngressOutcome::Failed(_) => {
                self.failed = self.failed.wrapping_add(1);
            },
            IngressOutcome::TimedOut => {
                self.timed_out = self.timed_out.wrapping_add(1);
            },
        }
    }

    /// Takes the counts, which start again at zero. There is a report to make
    /// unless all of them were zero.
    pub fn report(&mut self, active: usize, peers: usize) -> (r: Option<IngressReport>)
        ensures
            *final(self) == IngressStats::zero(),
            r == old(self).report_of(active, peers),
            final(self).completed == 0 && final(self).failed == 0 && final(self).timed_out == 0,
            final(self).rejected_global == 0 && final(self).rejected_peer == 0,
            r is None <==> {
                &&& old(self).completed == 0 && old(self).failed == 0 && old(self).timed_out == 0
                &&& old(self).rejected_global == 0 && old(self).rejected_peer == 0
            },
            r matches Some(report) ==> {
                &&& report.counts.completed == old(self).completed
                &&& report.counts.failed == old(self).failed
                &&& report.counts.timed_out == old(self).timed_out
                &&& report.counts.rejected_global == old(self).rejected_global
                &&& report.counts.rejected_peer == old(self).rejected_peer
                &&& report.active == active
                &&& report.peers == peers
            },
    {
        let counts = *self;
        *self = IngressStats::default();
        if counts.completed != 0 || counts.failed != 0 || counts.timed_out != 0
            || counts.rejected_global != 0 || counts.rejected_peer != 0 {
            Some(IngressReport { counts, active, peers })
        } else {
            None
        }
    }
}

impl Default for IngressStats {
    fn default() -> (r: IngressStats)
        ensures
            r == IngressStats::zero(),
            r.completed == 0 && r.failed == 0 && r.timed_out == 0,
            r.rejected_global == 0 && r.rejected_peer == 0,
    {
        IngressStats { completed: 0, failed: 0, timed_out: 0, rejected_global: 0, rejected_peer: 0 }
    }
}

/// What is done to the counts.
pub enum StatsStep<E> {
    /// [`IngressStats::record_limit`].
    Limit(IngressLimit),
    /// [`IngressStats::record_outcome`].
    Outcome(IngressOutcome<E>),
    /// [`IngressStats::report`].
    Report { active: usize, peers: usize },
}

/// What fresh counts are after `steps`.
pub open spec fn stats_after<E>(steps: Seq<StatsStep<E>>) -> IngressStats
    decreases steps.len(),
{
    if steps.len() == 0 {
        IngressStats::zero()
    } else {
        let before = stats_after(steps.drop_last());
        match steps.last() {
            StatsStep::Limit(limit) => before.with_limit(limit),
            StatsStep::Outcome(outcome) => before.with_outcome(outcome),
            StatsStep::Report { .. } => IngressStats::zero(),
        }
    }
}

/// How many of `steps` go to the counter.
pub open spec fn stats_recorded<E>(steps: Seq<StatsStep<E>>, counter: Counter) -> nat
    decreases steps.len(),
{
    if steps.len() == 0 {
        0
    } else {
        let here = match steps.last() {
            StatsStep::Limit(limit) => counter_of_limit(limit) == counter,
            StatsStep::Outcome(outcome) => counter_of_outcome(outcome) == counter,
            StatsStep::Report { .. } => false,
        };
        stats_recorded(steps.drop_last(), counter) + if here {
            1nat
        } else {
            0
        }
    }
}

/// What the reports among `steps` say of the counter, in all.
pub open spec fn stats_reported<E>(steps: Seq<StatsStep<E>>, counter: Counter) -> nat
    decreases steps.len(),
{
    if steps.len() == 0 {
        0
    } else {
        stats_reported(steps.drop_last(), counter) + match steps.last() {
            StatsStep::Report { active, peers } => {
                match stats_after(steps.drop_last()).report_of(active, peers) {
                    Some(report) => report.counts.count(counter),
                    None => 0,
                }
            },
            _ => 0,
        }
    }
}

/// No increment of a counter is lost and none is reported twice: over any run of
/// increments and reports, from fresh counts on, what the reports say and what is
/// counted at the end add up to the increments, as long as these fit the counter.
pub proof fn law_every_increment_is_reported_once<E>(steps: Seq<StatsStep<E>>, counter: Counter)
    requires
        stats_recorded(steps, counter) <= u64::MAX,
    ensures
        stats_reported(steps, counter) + stats_after(steps).count(counter) == stats_recorded(
            steps,
            counter,
        ),
    decreases steps.len(),
{
    if steps.len() > 0 {
        law_every_increment_is_reported_once(steps.drop_last(), counter);
    }
}

/// Why a pair of bounds makes no limiter.
#[derive(Debug, Clone, Copy, PartialEq, Eq, Structural)]
pub enum IngressConfigError {
    NoPendingHandshakes,
    PerIpOutOfRange,
}

impl IngressConfigError {
    /// The error in words.
    pub open spec fn text(self) -> Seq<char> {
        match self {
            IngressConfigError::NoPendingHandshakes =>
                "Maximum pending handshakes must be greater than zero"@,
            IngressConfigError::PerIpOutOfRange =>
                "Maximum pending handshakes per IP must be between one and the global limit"@,
        }
    }

    /// The error in words.
    pub fn message(&self) -> (r: &'static str)
        ensures
            r@ == self.text(),
            self is NoPendingHandshakes ==> r@
                == "Maximum pending handshakes must be greater than zero"@,
            self is PerIpOutOfRange ==> r@
                == "Maximum pending handshakes per IP must be between one and the global limit"@,
    {
        match self {
            IngressConfigError::NoPendingHandshakes =>
                "Maximum pending handshakes must be greater than zero",
            IngressConfigError::PerIpOutOfRange =>
                "Maximum pending handshakes per IP must be between one and the global limit",
        }
    }
}

/// The largest bound on handshakes that a limiter can hold.
pub const MAX_PERMITS: usize = usize::MAX / 8;

/// Admits handshakes up to a bound in all and a bound per source address.
pub struct IngressLimiter {
    max_global: usize,
    max_per_ip: usize,
    available: usize,
    peers: AssocMap<IpAddr, usize>,
    stats: IngressStats,
    pending: Ghost<Multiset<IpAddr>>,
}

/// The right to carry on one handshake. It is given back to the limiter with
/// [`IngressLimiter::release`] when the handshake is over.
pub struct IngressPermit {
    ip: IpAddr,
}

impl IngressPermit {
    /// The source address that the permit was given to.
    pub closed spec fn holder(&self) -> IpAddr {
        self.ip
    }

    /// The source address that the permit was given to.
    pub fn ip(&self) -> (r: IpAddr)
        ensures
            r == self.holder(),
    {
        self.ip
    }
}

/// Which bound, if any, a further handshake from `ip` would exceed.
pub open spec fn limit_for(
    pending: Multiset<IpAddr>,
    max_global: nat,
    max_per_ip: nat,
    ip: IpAddr,
) -> Option<IngressLimit> {
    if pending.len() >= max_global {
        Some(IngressLimit::Global)
    } else if pending.count(ip) >= max_per_ip {
        Some(IngressLimit::Peer)
    } else {
        None
    }
}

proof fn lemma_len_of_one(m: Multiset<IpAddr>, only: IpAddr)
    requires
        forall|ip: IpAddr| #[trigger] m.count(ip) > 0 ==> ip == only,
    ensures
        m.len() == m.count(only),
    decreases m.count(only),
{
    if m.count(only) == 0 {
        assert(m =~= Multiset::empty());
    } else {
        let less = m.remove(only);
        assert forall|ip: IpAddr| #[trigger] less.count(ip) > 0 implies ip == only by {
            assert(m.count(ip) > 0);
        }
        lemma_len_of_one(less, only);
        assert(m =~= less.insert(only));
    }
}

impl IngressLimiter {
    /// The source addresses of the handshakes under way, each as often as it
    /// has one.
    pub closed spec fn pending(&self) -> Multiset<IpAddr> {
        self.pending@
    }

    /// The bound on handshakes in all.
    pub closed spec fn global_bound(&self) -> nat {
        self.max_global as nat
    }

    /// The bound on handshakes from one address.
    pub closed spec fn per_ip_bound(&self) -> nat {
        self.max_per_ip as nat
    }

    /// The counts since the last report.
    pub closed spec fn counts(&self) -> IngressStats {
        self.stats
    }

    /// The bounds are kept, and the tallies agree with the handshakes under way.
    pub closed spec fn wf(&self) -> bool {
        &&& 1 <= self.max_per_ip <= self.max_global
        &&& self.available <= self.max_global
        &&& self.pending@.len() == self.max_global - self.available
        &&& self.peers.wf()
        &&& forall|ip: IpAddr| #[trigger]
            self.peers@.contains_key(ip) <==> self.pending@.count(ip) > 0
        &&& forall|ip: IpAddr| #[trigger]
            self.peers@.contains_key(ip) ==> self.peers@[ip] == self.pending@.count(ip)
        &&& forall|ip: IpAddr| #[trigger] self.pending@.count(ip) <= self.max_per_ip
    }

    /// What differs between two limiters is at most the counts.
    pub open spec fn same_but_counts(&self, other: &Self) -> bool {
        &&& self.pending() == other.pending()
        &&& self.same_bounds(other)
    }

    /// The two limiters have the same bounds.
    pub open spec fn same_bounds(&self, other: &Self) -> bool {
        &&& self.global_bound() == other.global_bound()
        &&& self.per_ip_bound() == other.per_ip_bound()
    }

    /// What asking for a permit for `ip` makes of a limiter, and what comes of it.
    pub open spec fn acquired(
        before: &Self,
        after: &Self,
        ip: IpAddr,
        r: Result<IngressPermit, IngressLimit>,
    ) -> bool {
        &&& after.same_bounds(before)
        &&& match (
            limit_for(before.pending(), before.global_bound(), before.per_ip_bound(), ip),
            r,
        ) {
            (None, Ok(permit)) => {
                &&& permit.holder() == ip
                &&& after.pending() == before.pending().insert(ip)
                &&& after.counts() == before.counts()
            },
            (Some(expected), Err(limit)) => {
                &&& limit == expected
                &&& after.pending() == before.pending()
                &&& after.counts() == before.counts().with_limit(limit)
            },
            _ => false,
        }
    }

    /// What giving back the permit of `ip` makes of a limiter.
    pub open spec fn released(before: &Self, after: &Self, ip: IpAddr) -> bool {
        &&& after.same_bounds(before)
        &&& after.pending() == if before.pending().count(ip) > 0 {
            before.pending().remove(ip)
        } else {
            before.pending()
        }
    }

    /// What a report makes of a limiter, and what it says.
    pub open spec fn reported(before: &Self, after: &Self, r: Option<IngressReport>) -> bool {
        &&& after.same_but_counts(before)
        &&& after.counts() == IngressStats::zero()
        &&& r is None <==> before.counts() == IngressStats::zero()
        &&& r matches Some(report) ==> {
            &&& report.counts == before.counts()
            &&& report.active == before.pending().len()
            &&& report.peers == before.pending().dom().len()
        }
    }

    /// A limiter with nothing under way.
    pub fn new(max_global: usize, max_per_ip: usize) -> (r: Result<Self, IngressConfigError>)
        requires
            1 <= max_per_ip <= max_global ==> max_global <= MAX_PERMITS,
        ensures
            r is Ok <==> 1 <= max_per_ip <= max_global,
            r matches Ok(limiter) ==> {
                &&& limiter.wf()
                &&& limiter.pending() == Multiset::<IpAddr>::empty()
                &&& limiter.global_bound() == max_global
                &&& limiter.per_ip_bound() == max_per_ip
                &&& limiter.counts() == IngressStats::zero()
                &&& limiter.counts().completed == 0 && limiter.counts().failed == 0
                &&& limiter.counts().timed_out == 0 && limiter.counts().rejected_global == 0
                &&& limiter.counts().rejected_peer == 0
            },
            r matches Err(e) ==> e == if max_global == 0 {
                IngressConfigError::NoPendingHandshakes
            } else {
                IngressConfigError::PerIpOutOfRange
            },
    {
        if max_global == 0 {
            return Err(IngressConfigError::NoPendingHandshakes);
        }
        if max_per_ip == 0 || max_per_ip > max_global {
            return Err(IngressConfigError::PerIpOutOfRange);
        }
        let limiter = IngressLimiter {
            max_global,
            max_per_ip,
            available: max_global,
            peers: AssocMap::new(),
            stats: IngressStats::default(),
            pending: Ghost(Multiset::empty()),
        };
        Ok(limiter)
    }

    /// Admits a handshake from `ip`, unless a bound stands against it. The bound
    /// on all of them is looked at first.
    pub fn try_acquire(&mut self, ip: IpAddr) -> (r: Result<IngressPermit, IngressLimit>)
        requires
            old(self).wf(),
        ensures
            final(self).wf(),
            IngressLimiter::acquired(old(self), final(self), ip, r),
            final(self).global_bound() == old(self).global_bound(),
            final(self).per_ip_bound() == old(self).per_ip_bound(),
            r is Ok <==> {
                &&& old(self).pending().len() < old(self).global_bound()
                &&& old(self).pending().count(ip) < old(self).per_ip_bound()
            },
            r matches Ok(permit) ==> {
                &&& permit.holder() == ip
                &&& final(self).pending() == old(self).pending().insert(ip)
                &&& final(self).counts() == old(self).counts()
            },
            r == Err::<IngressPermit, _>(IngressLimit::Global) <==> old(self).pending().len() == old(
                self,
            ).global_bound(),
            r == Err::<IngressPermit, _>(IngressLimit::Peer) ==> {
                &&& old(self).pending().count(ip) == old(self).per_ip_bound()
                &&& old(self).pending().len() < old(self).global_bound()
            },
            r is Err ==> final(self).pending() == old(self).pending(),
            r matches Err(limit) ==> {
                &&& final(self).counts().completed == old(self).counts().completed
                &&& final(self).counts().failed == old(self).counts().failed
                &&& final(self).counts().timed_out == old(self).counts().timed_out
                &&& limit == IngressLimit::Peer ==> final(self).counts().rejected_global == old(
                    self,
                ).counts().rejected_global
                &&& limit == IngressLimit::Global ==> final(self).counts().rejected_peer == old(
                    self,
                ).counts().rejected_peer
                &&& limit == IngressLimit::Global ==> final(self).counts().rejected_global == (old(
                    self,
                ).counts().rejected_global + 1) % (u64::MAX + 1)
                &&& limit == IngressLimit::Peer ==> final(self).counts().rejected_peer == (old(
                    self,
                ).counts().rejected_peer + 1) % (u64::MAX + 1)
            },
    {
        if self.available == 0 {
            self.stats.record_limit(IngressLimit::Global);
            return Err(IngressLimit::Global);
        }
        let active: usize = match self.peers.get(&ip) {
            Some(active) => *active,
            None => 0,
        };
        assert(active == self.pending@.count(ip)) by {
            assert(self.peers@.contains_key(ip) || !self.peers@.contains_key(ip));
        }
        if active >= self.max_per_ip {
            self.stats.record_limit(IngressLimit::Peer);
            return Err(IngressLimit::Peer);
        }
        let _ = self.peers.insert(ip, active + 1);
        self.available = self.available - 1;
        self.pending = Ghost(self.pending@.insert(ip));
        Ok(IngressPermit { ip })
    }

    /// Gives back a permit: the handshake that it stood for is over.
    pub fn release(&mut self, permit: IngressPermit)
        requires
            old(self).wf(),
        ensures
            final(self).wf(),
            IngressLimiter::released(old(self), final(self), permit.holder()),
            final(self).counts() == old(self).counts(),
            final(self).global_bound() == old(self).global_bound(),
            final(self).per_ip_bound() == old(self).per_ip_bound(),
            old(self).pending().count(permit.holder()) > 0 ==> old(self).pending()
                == final(self).pending().insert(permit.holder()),
            old(self).pending().count(permit.holder()) == 0 ==> final(self).pending() == old(
                self,
            ).pending(),
    {
        let ip = permit.ip;
        let active: usize = match self.peers.get(&ip) {
            Some(active) => *active,
            None => {
                return ;
            },
        };
        if active == 1 {
            let _ = self.peers.remove(&ip);
        } else {
            let _ = self.peers.insert(ip, active - 1);
        }
        self.available = self.available + 1;
        self.pending = Ghost(self.pending@.remove(ip));
        assert(old(self).pending@ =~= self.pending@.insert(ip));
    }

    /// Counts the end of a handshake.
    pub fn record_outcome<E>(&mut self, outcome: &IngressOutcome<E>)
        requires
            old(self).wf(),
        ensures
            final(self).wf(),
            final(self).same_but_counts(old(self)),
            final(self).counts() == old(self).counts().with_outcome(*outcome),
            final(self).pending() == old(self).pending(),
            final(self).global_bound() == old(self).global_bound(),
            final(self).per_ip_bound() == old(self).per_ip_bound(),
            final(self).counts().completed == if outcome is Completed {
                (old(self).counts().completed + 1) % (u64::MAX + 1)
            } else {
                old(self).counts().completed as int
            },
            final(self).counts().failed == if outcome is Failed {
                (old(self).counts().failed + 1) % (u64::MAX + 1)
            } else {
                old(self).counts().failed as int
            },
            final(self).counts().timed_out == if outcome is TimedOut {
                (old(self).counts().timed_out + 1) % (u64::MAX + 1)
            } else {
                old(self).counts().timed_out as int
            },
            final(self).counts().rejected_global == old(self).counts().rejected_global,
            final(self).counts().rejected_peer == old(self).counts().rejected_peer,
    {
        self.stats.record_outcome(outcome);
    }

    /// How many more handshakes could be admitted in all.
    pub fn available_permits(&self) -> (n: usize)
        requires
            self.wf(),
        ensures
            n == self.global_bound() - self.pending().len(),
    {
        self.available
    }

    /// How many addresses have a handshake under way.
    pub fn active_peers(&self) -> (n: usize)
        requires
            self.wf(),
        ensures
            n == self.pending().dom().len(),
    {
        assert(self.peers@.dom() =~= self.pending@.dom()) by {
            assert forall|ip: IpAddr| self.peers@.dom().contains(ip)
                <==> self.pending@.dom().contains(ip) by {
                assert(self.peers@.contains_key(ip) <==> self.pending@.count(ip) > 0);
            }
        }
        self.peers.len()
    }

    /// Takes the counts and makes a report of them, if there is anything in them.
    pub fn report(&mut self) -> (r: Option<IngressReport>)
        requires
            old(self).wf(),
        ensures
            final(self).wf(),
            IngressLimiter::reported(old(self), final(self), r),
            final(self).pending() == old(self).pending(),
            final(self).global_bound() == old(self).global_bound(),
            final(self).per_ip_bound() == old(self).per_ip_bound(),
            final(self).counts().completed == 0,
            final(self).counts().failed == 0,
            final(self).counts().timed_out == 0,
            final(self).counts().rejected_global == 0,
            final(self).counts().rejected_peer == 0,
            r is None <==> {
                &&& old(self).counts().completed == 0
                &&& old(self).counts().failed == 0
                &&& old(self).counts().timed_out == 0
                &&& old(self).counts().rejected_global == 0
                &&& old(self).counts().rejected_peer == 0
            },
            r matches Some(report) ==> {
                &&& report.counts == old(self).counts()
                &&& report.active == old(self).pending().len()
                &&& report.peers == old(self).pending().dom().len()
            },
    {
        let active: usize = self.max_global - self.available;
        let peers: usize = self.active_peers();
        self.stats.report(active, peers)
    }

    /// The connections that the limiter can account for: the handshakes under way,
    /// and what was counted since the last report.
    pub open spec fn accounted(&self) -> nat {
        self.pending().len() + self.counts().total()
    }

    /// A connection that comes is accounted for once, as a handshake under way or
    /// as a refusal.
    pub proof fn law_connection_is_accounted_for(
        before: &Self,
        after: &Self,
        ip: IpAddr,
        r: Result<IngressPermit, IngressLimit>,
    )
        requires
            IngressLimiter::acquired(before, after, ip, r),
            before.counts().below_width(),
        ensures
            after.accounted() == before.accounted() + 1,
    {
    }

    /// A connection whose handshake has ended stays accounted for once, now as an
    /// outcome.
    pub proof fn law_outcome_is_accounted_for<E>(
        before: &Self,
        after: &Self,
        ip: IpAddr,
        outcome: IngressOutcome<E>,
    )
        requires
            before.pending().count(ip) > 0,
            IngressLimiter::released(before, after, ip),
            after.counts() == before.counts().with_outcome(outcome),
            before.counts().below_width(),
        ensures
            after.accounted() == before.accounted(),
    {
    }

    /// A connection whose handshake was broken off is accounted for no more, and
    /// the others are as before.
    pub proof fn law_broken_off_handshake_leaves_the_account(
        before: &Self,
        after: &Self,
        ip: IpAddr,
    )
        requires
            before.pending().count(ip) > 0,
            IngressLimiter::released(before, after, ip),
            after.counts() == before.counts(),
        ensures
            after.accounted() + 1 == before.accounted(),
    {
    }

    /// What a report takes from the counts is what it says; without a report
    /// nothing is taken.
    pub proof fn law_report_is_accounted_for(
        before: &Self,
        after: &Self,
        r: Option<IngressReport>,
    )
        requires
            IngressLimiter::reported(before, after, r),
        ensures
            before.accounted() == after.accounted() + match r {
                Some(report) => report.counts.total(),
                None => 0,
            },
    {
    }

    /// A permit that is given back leaves the limiter as it was before the permit
    /// was asked for.
    pub proof fn law_release_undoes_acquire(
        before: &Self,
        during: &Self,
        after: &Self,
        ip: IpAddr,
        permit: IngressPermit,
    )
        requires
            IngressLimiter::acquired(before, during, ip, Ok(permit)),
            IngressLimiter::released(during, after, permit.holder()),
        ensures
            after.same_but_counts(before),
    {
        assert(after.pending() =~= before.pending());
    }

    /// A connection is admitted whenever both bounds leave room for it, and only
    /// then. A refusal names the bound that is reached: the one on all whenever it
    /// is, the one of the address otherwise.
    pub proof fn law_room_means_admission(
        before: &Self,
        after: &Self,
        ip: IpAddr,
        r: Result<IngressPermit, IngressLimit>,
    )
        requires
            before.wf(),
            IngressLimiter::acquired(before, after, ip, r),
        ensures
            before.pending().len() < before.global_bound() && before.pending().count(ip)
                < before.per_ip_bound() ==> r is Ok && after.pending().count(ip)
                == before.pending().count(ip) + 1 && after.pending().len() == before.pending().len()
                + 1,
            before.pending().len() == before.global_bound() ==> r
                == Err::<IngressPermit, _>(IngressLimit::Global),
            before.pending().len() < before.global_bound() && before.pending().count(ip)
                == before.per_ip_bound() ==> r == Err::<IngressPermit, _>(IngressLimit::Peer),
            forall|other: IpAddr|
                other != ip ==> #[trigger] after.pending().count(other) == before.pending().count(
                    other,
                ),
    {
    }

    /// From one address as many handshakes can be under way as its bound says, if the
    /// bound on all leaves room: after each admission below the bound there is another.
    pub proof fn law_address_can_fill_its_bound(
        first: &Self,
        second: &Self,
        third: &Self,
        ip: IpAddr,
        r1: Result<IngressPermit, IngressLimit>,
        r2: Result<IngressPermit, IngressLimit>,
    )
        requires
            first.wf(),
            IngressLimiter::acquired(first, second, ip, r1),
            IngressLimiter::acquired(second, third, ip, r2),
            first.pending().count(ip) + 2 <= first.per_ip_bound(),
            first.pending().len() + 2 <= first.global_bound(),
        ensures
            r1 is Ok && r2 is Ok,
            third.pending().count(ip) == first.pending().count(ip) + 2,
    {
    }

    /// A permit that comes back makes room for one more handshake, of its address and
    /// in all, and for no other address.
    pub proof fn law_release_makes_room(before: &Self, after: &Self, ip: IpAddr, other: IpAddr)
        requires
            IngressLimiter::released(before, after, ip),
            before.pending().count(ip) > 0,
            other != ip,
        ensures
            after.pending().count(ip) + 1 == before.pending().count(ip),
            after.pending().len() + 1 == before.pending().len(),
            after.pending().count(other) == before.pending().count(other),
            after.global_bound() == before.global_bound(),
            after.per_ip_bound() == before.per_ip_bound(),
    {
        assert(before.pending() =~= after.pending().insert(ip));
    }

    /// A refusal leaves the limiter as it was, but for the counts.
    pub proof fn law_refusal_changes_nothing(
        before: &Self,
        after: &Self,
        ip: IpAddr,
        limit: IngressLimit,
    )
        requires
            IngressLimiter::acquired(before, after, ip, Err(limit)),
        ensures
            after.same_but_counts(before),
    {
    }

    /// No address is kept without a handshake under way: there are none of the one
    /// exactly when there are none of the other.
    pub proof fn law_idle_limiter_keeps_no_address(&self)
        requires
            self.wf(),
        ensures
            self.pending().len() == 0 <==> self.pending().dom().len() == 0,
    {
        let dom = self.pending().dom();
        assert(dom.finite());
        if self.pending().len() == 0 {
            assert(dom =~= Set::<IpAddr>::empty()) by {
                assert forall|ip: IpAddr| !dom.contains(ip) by {
                    assert(self.pending().count(ip) <= self.pending().len());
                }
            }
        } else {
            let ip = self.pending().choose();
            assert(self.pending().count(ip) > 0);
            assert(dom.contains(ip));
        }
    }

    /// One address cannot keep the others out, unless its own bound is the bound
    /// on all: if all handshakes under way are its, another address is admitted.
    pub proof fn law_one_address_leaves_room(&self, busy: IpAddr, other: IpAddr)
        requires
            self.wf(),
            self.per_ip_bound() < self.global_bound(),
            forall|ip: IpAddr| #[trigger] self.pending().count(ip) > 0 ==> ip == busy,
            other != busy,
        ensures
            limit_for(self.pending(), self.global_bound(), self.per_ip_bound(), other) is None,
    {
        lemma_len_of_one(self.pending(), busy);
    }

    /// At no time are there more handshakes under way than the bounds allow.
    pub proof fn law_bounds(&self)
        requires
            self.wf(),
        ensures
            self.pending().len() <= self.global_bound(),
            forall|ip: IpAddr| #[trigger] self.pending().count(ip) <= self.per_ip_bound(),
    {
    }
}

/// The permits of `ips` are given back one after the other, and `limiters` are
/// what the limiter is before the first of them and after each.
pub open spec fn all_released(limiters: Seq<IngressLimiter>, ips: Seq<IpAddr>) -> bool {
    &&& limiters.len() == ips.len() + 1
    &&& forall|i: int|
        0 <= i < ips.len() ==> IngressLimiter::released(
            &limiters[i],
            &limiters[i + 1],
            #[trigger] ips[i],
        )
}

/// Once the permits of all handshakes under way were given back, in whatever
/// order, none is under way.
pub proof fn law_all_released_leaves_nothing_pending(
    limiters: Seq<IngressLimiter>,
    ips: Seq<IpAddr>,
)
    requires
        all_released(limiters, ips),
        limiters.first().pending() == ips.to_multiset(),
    ensures
        limiters.last().pending() == Multiset::<IpAddr>::empty(),
    decreases ips.len(),
{
    broadcast use vstd::seq_lib::group_to_multiset_ensures;

    if ips.len() == 0 {
        assert(ips.to_multiset() =~= Multiset::<IpAddr>::empty());
    } else {
        let rest = ips.remove(0);
        assert(ips.contains(ips[0]));
        assert forall|i: int| 0 <= i < rest.len() implies IngressLimiter::released(
            &limiters.drop_first()[i],
            &limiters.drop_first()[i + 1],
            #[trigger] rest[i],
        ) by {
            assert(rest[i] == ips[i + 1]);
        }
        law_all_released_leaves_nothing_pending(limiters.drop_first(), rest);
    }
}

/// Nothing is reported twice: after a report, the next one is empty unless
/// something has happened.
pub proof fn law_report_starts_afresh(
    first: &IngressLimiter,
    second: &IngressLimiter,
    third: &IngressLimiter,
    r1: Option<IngressReport>,
    r2: Option<IngressReport>,
)
    requires
        IngressLimiter::reported(first, second, r1),
        IngressLimiter::reported(second, third, r2),
    ensures
        r2 is None,
{
}

} // verus!

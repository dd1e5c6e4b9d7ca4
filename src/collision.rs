use vstd::prelude::*;
use vstd::set_lib::{lemma_int_range, set_int_range};

verus! {

/// Times within a tick run over `[0, 1]` and are carried as order keys: the
/// IEEE-754 binary64 bit pattern of the time, which orders non-negative
/// values as the values themselves. This is the key of time 1, the end of a
/// tick: an event at or after it does not happen during the tick.
pub const TICK_END: u64 = 0x3FF0_0000_0000_0000;

/// A collision that a step of the arena would run into during the tick.
#[derive(Clone, Copy, Debug, PartialEq, Eq, Structural)]
pub enum ArenaCollision {
    /// Step `i` would leave the unit square at the given time.
    Bound(usize, u64),
    /// Steps `i` and `j` would first touch at the given time.
    Steps(usize, usize, u64),
}

impl ArenaCollision {
    pub open spec fn at(self) -> u64 {
        match self {
            ArenaCollision::Bound(_, t) => t,
            ArenaCollision::Steps(_, _, t) => t,
        }
    }

    /// Whether step `i` takes part in this collision.
    pub open spec fn involves(self, i: int) -> bool {
        match self {
            ArenaCollision::Bound(a, _) => a == i,
            ArenaCollision::Steps(a, b, _) => a == i || b == i,
        }
    }

    /// Whether this collision and `other` have a step in common.
    pub open spec fn shares(self, other: ArenaCollision) -> bool {
        match other {
            ArenaCollision::Bound(a, _) => self.involves(a as int),
            ArenaCollision::Steps(a, b, _) => self.involves(a as int) || self.involves(b as int),
        }
    }

    /// Whether every step of this collision is below `n`.
    pub open spec fn within(self, n: nat) -> bool {
        match self {
            ArenaCollision::Bound(a, _) => a < n,
            ArenaCollision::Steps(a, b, _) => a < n && b < n,
        }
    }

    pub fn new_bound_collision(idx: usize, time: u64) -> (r: ArenaCollision)
        ensures
            r == ArenaCollision::Bound(idx, time),
    {
        ArenaCollision::Bound(idx, time)
    }

    pub fn new_steps_collision(indices: (usize, usize), time: u64) -> (r: ArenaCollision)
        ensures
            r == ArenaCollision::Steps(indices.0, indices.1, time),
    {
        ArenaCollision::Steps(indices.0, indices.1, time)
    }

    /// The time key of the collision.
    pub fn time(&self) -> (r: u64)
        ensures
            r == self.at(),
    {
        match self {
            ArenaCollision::Bound(_, t) => *t,
            ArenaCollision::Steps(_, _, t) => *t,
        }
    }
}

/// The order in which collisions are resolved: by time, and among equal
/// times by the order in which they were found.
pub open spec fn earlier(events: Seq<ArenaCollision>, k: int, j: int) -> bool {
    events[k].at() < events[j].at() || (events[k].at() == events[j].at() && k < j)
}

/// Whether collision `j` is committed, given which collisions are: it happens
/// before the end of the tick, and no earlier committed collision has a step
/// in common with it (a step stopped by an earlier collision is not reopened).
pub open spec fn commits(events: Seq<ArenaCollision>, committed: Seq<bool>, j: int) -> bool {
    &&& events[j].at() < TICK_END
    &&& forall|k: int|
        0 <= k < events.len() && #[trigger] earlier(events, k, j) && events[k].shares(events[j])
            ==> !committed[k]
}

/// `committed` marks exactly the collisions that a time-ordered resolution of
/// `events` commits. There is one such marking (`lemma_resolution_unique`).
pub open spec fn is_resolution(events: Seq<ArenaCollision>, committed: Seq<bool>) -> bool {
    &&& committed.len() == events.len()
    &&& forall|j: int| 0 <= j < events.len() ==> (#[trigger] committed[j] <==> commits(events, committed, j))
}

/// `cut` gives, for step `i`, the time at which a committed collision stops
/// it, or `None` where no committed collision involves it and it runs in full.
pub open spec fn cut_agrees(
    events: Seq<ArenaCollision>,
    committed: Seq<bool>,
    i: int,
    cut: Option<u64>,
) -> bool {
    match cut {
        None => forall|j: int| 0 <= j < events.len() && #[trigger] committed[j] ==> !events[j].involves(i),
        Some(t) => exists|j: int|
            0 <= j < events.len() && #[trigger] committed[j] && events[j].involves(i) && events[j].at() == t,
    }
}

/// The collisions found when a step is added as step `n`: its boundary
/// collision, if any, then its collision with each earlier step in order.
pub open spec fn insertion_events(n: usize, boundary: Option<u64>, pairs: Seq<Option<u64>>) -> Seq<
    ArenaCollision,
> {
    match boundary {
        Some(t) => seq![ArenaCollision::Bound(n, t)] + pair_events(n, pairs),
        None => pair_events(n, pairs),
    }
}

/// `Steps(k, n, t)` for each `k` whose entry in `pairs` is `Some(t)`, in order.
pub open spec fn pair_events(n: usize, pairs: Seq<Option<u64>>) -> Seq<ArenaCollision>
    decreases pairs.len(),
{
    if pairs.len() == 0 {
        seq![]
    } else {
        let k = pairs.len() - 1;
        pair_events(n, pairs.take(k)) + match pairs[k] {
            Some(t) => seq![ArenaCollision::Steps(k as usize, n, t)],
            None => seq![],
        }
    }
}

/// Collects the steps of one tick and the collisions among them, and decides
/// where each step stops.
pub struct Arena {
    len: usize,
    found: Vec<ArenaCollision>,
}

impl Arena {
    /// The number of steps added so far.
    pub closed spec fn step_count(&self) -> nat {
        self.len as nat
    }

    /// The collisions found so far, in the order in which they were found.
    pub closed spec fn events(&self) -> Seq<ArenaCollision> {
        self.found@
    }

    pub closed spec fn wf(&self) -> bool {
        forall|j: int| 0 <= j < self.found@.len() ==> (#[trigger] self.found@[j]).within(self.len as nat)
    }

    pub fn new() -> (r: Arena)
        ensures
            r.wf(),
            r.step_count() == 0,
            r.events() == Seq::<ArenaCollision>::empty(),
    {
        Arena { len: 0, found: Vec::new() }
    }

    /// The number of steps added so far.
    pub fn len(&self) -> (r: usize)
        ensures
            r == self.step_count(),
    {
        self.len
    }

    /// Adds the next step, given the time at which it would leave the unit
    /// square (`None` if it stays inside) and, for each step already added,
    /// the time at which the two would first touch (`None` if they do not).
    pub fn add(&mut self, boundary_time: Option<u64>, pair_times: &Vec<Option<u64>>)
        requires
            old(self).wf(),
            pair_times@.len() == old(self).step_count(),
            old(self).step_count() < usize::MAX,
        ensures
            final(self).wf(),
            final(self).step_count() == old(self).step_count() + 1,
            final(self).events() == old(self).events() + insertion_events(
                old(self).step_count() as usize,
                boundary_time,
                pair_times@,
            ),
    {
        let new_idx = self.len;
        if let Some(time) = boundary_time {
            self.found.push(ArenaCollision::new_bound_collision(new_idx, time));
        }
        let ghost start = self.found@;
        let mut k: usize = 0;
        while k < pair_times.len()
            invariant
                0 <= k <= pair_times@.len(),
                new_idx == self.len,
                pair_times@.len() == new_idx,
                new_idx < usize::MAX,
                self.found@ == start + pair_events(new_idx, pair_times@.take(k as int)),
                forall|j: int| 0 <= j < start.len() ==> (#[trigger] start[j]).within(new_idx as nat + 1),
            decreases pair_times@.len() - k,
        {
            proof {
                assert(pair_times@.take(k + 1).take(k as int) == pair_times@.take(k as int));
            }
            if let Some(time) = pair_times[k] {
                self.found.push(ArenaCollision::new_steps_collision((k, new_idx), time));
                proof {
                    assert(self.found@ == start + pair_events(new_idx, pair_times@.take(k + 1)));
                }
            } else {
                proof {
                    assert(self.found@ == start + pair_events(new_idx, pair_times@.take(k + 1)));
                }
            }
            k += 1;
        }
        proof {
            assert(pair_times@.take(k as int) == pair_times@);
            lemma_pair_events_within(new_idx, pair_times@);
        }
        self.len = new_idx + 1;
    }

    /// Resolves the collisions in time order and returns, for each step in
    /// the order added, the time at which it stops, or `None` where it runs
    /// its full length.
    pub fn into_vec(self) -> (cuts: Vec<Option<u64>>)
        requires
            self.wf(),
        ensures
            cuts@.len() == self.step_count(),
            exists|committed: Seq<bool>|
                {
                    &&& is_resolution(self.events(), committed)
                    &&& forall|i: int|
                        0 <= i < cuts@.len() ==> cut_agrees(
                            self.events(),
                            committed,
                            i,
                            #[trigger] cuts@[i],
                        )
                },
            forall|i: int| 0 <= i < cuts@.len() && #[trigger] cuts@[i] is Some ==> cuts@[i]->Some_0 < TICK_END,
    {
        let n = self.len;
        let events = self.found;
        let m = events.len();
        let ghost ev = events@;

        let mut processed: Vec<bool> = Vec::new();
        let mut committed: Vec<bool> = Vec::new();
        let mut j: usize = 0;
        while j < m
            invariant
                j <= m,
                processed@.len() == j,
                committed@.len() == j,
                forall|k: int| 0 <= k < j ==> !processed@[k] && !committed@[k],
            decreases m - j,
        {
            processed.push(false);
            committed.push(false);
            j += 1;
        }
        let mut cuts: Vec<Option<u64>> = Vec::new();
        let mut i: usize = 0;
        while i < n
            invariant
                i <= n,
                cuts@.len() == i,
                forall|k: int| 0 <= k < i ==> cuts@[k] is None,
            decreases n - i,
        {
            cuts.push(None);
            i += 1;
        }

        let ghost mut pending: Set<int> = set_int_range(0, m as int);
        proof {
            lemma_int_range(0, m as int);
        }
        loop
            invariant
                ev == events@,
                m == ev.len(),
                forall|j: int| 0 <= j < m ==> (#[trigger] ev[j]).within(n as nat),
                processed@.len() == m,
                committed@.len() == m,
                cuts@.len() == n,
                pending.finite(),
                forall|j: int| pending.contains(j) <==> (0 <= j < m && !processed@[j]),
                forall|p: int, u: int|
                    0 <= p < m && 0 <= u < m && #[trigger] processed@[p] && !#[trigger] processed@[u]
                        ==> earlier(ev, p, u),
                forall|j: int| 0 <= j < m && !#[trigger] processed@[j] ==> !committed@[j],
                forall|j: int|
                    0 <= j < m && #[trigger] processed@[j] ==> (committed@[j] <==> commits(
                        ev,
                        committed@,
                        j,
                    )),
                forall|i: int| 0 <= i < n ==> cut_agrees(ev, committed@, i, #[trigger] cuts@[i]),
            ensures
                committed@.len() == m,
                cuts@.len() == n,
                forall|j: int| 0 <= j < m ==> (#[trigger] committed@[j] <==> commits(ev, committed@, j)),
                forall|i: int| 0 <= i < n ==> cut_agrees(ev, committed@, i, #[trigger] cuts@[i]),
            decreases pending.len(),
        {
            let best = earliest_pending(&events, &processed);
            if best == m {
                proof {
                    assert forall|j: int| 0 <= j < m implies (#[trigger] committed@[j] <==> commits(
                        ev,
                        committed@,
                        j,
                    )) by {
                        assert(processed@[j]);
                    }
                }
                break;
            }
            let ghost b = best as int;
            let time = events[best].time();
            assert(time == ev[b].at());
            if time >= TICK_END {
                proof {
                    assert forall|j: int| 0 <= j < m implies (#[trigger] committed@[j] <==> commits(
                        ev,
                        committed@,
                        j,
                    )) by {
                        if !processed@[j] {
                            assert(j == b || earlier(ev, b, j));
                            assert(ev[j].at() >= TICK_END);
                            assert(!commits(ev, committed@, j));
                        }
                    }
                }
                break;
            }
            let blocked = match events[best] {
                ArenaCollision::Bound(a, _) => cuts[a].is_some(),
                ArenaCollision::Steps(a, c, _) => cuts[a].is_some() || cuts[c].is_some(),
            };
            proof {
                // every collision earlier than `best` has been processed
                assert forall|k: int| 0 <= k < m && earlier(ev, k, b) implies #[trigger] processed@[k] by {
                    if !processed@[k] {
                        assert(k == b || earlier(ev, b, k));
                    }
                }
                assert(!blocked <==> commits(ev, committed@, b)) by {
                    if blocked {
                        let a = match ev[b] {
                            ArenaCollision::Bound(a, _) => a as int,
                            ArenaCollision::Steps(a, c, _) => if cuts@[a as int] is Some {
                                a as int
                            } else {
                                c as int
                            },
                        };
                        assert(cut_agrees(ev, committed@, a, cuts@[a]));
                        let k = choose|k: int|
                            0 <= k < ev.len() && #[trigger] committed@[k] && ev[k].involves(a)
                                && ev[k].at() == cuts@[a]->Some_0;
                        assert(processed@[k]);
                        assert(earlier(ev, k, b));
                        assert(ev[k].shares(ev[b]));
                    } else {
                        assert forall|k: int|
                            0 <= k < ev.len() && #[trigger] earlier(ev, k, b) && ev[k].shares(
                                ev[b],
                            ) implies !committed@[k] by {
                            match ev[b] {
                                ArenaCollision::Bound(a, _) => {
                                    assert(cut_agrees(ev, committed@, a as int, cuts@[a as int]));
                                },
                                ArenaCollision::Steps(a, c, _) => {
                                    assert(cut_agrees(ev, committed@, a as int, cuts@[a as int]));
                                    assert(cut_agrees(ev, committed@, c as int, cuts@[c as int]));
                                },
                            }
                        }
                    }
                }
            }
            let ghost old_committed = committed@;
            let ghost old_processed = processed@;
            let ghost old_cuts = cuts@;
            processed.set(best, true);
            if !blocked {
                committed.set(best, true);
                match events[best] {
                    ArenaCollision::Bound(a, _) => {
                        cuts.set(a, Some(time));
                    },
                    ArenaCollision::Steps(a, c, _) => {
                        cuts.set(a, Some(time));
                        cuts.set(c, Some(time));
                    },
                }
            }
            proof {
                pending = pending.remove(b);
                assert forall|j: int|
                    0 <= j < m && #[trigger] processed@[j] implies (committed@[j] <==> commits(
                    ev,
                    committed@,
                    j,
                )) by {
                    if j != b {
                        assert(old_processed[j]);
                        assert(earlier(ev, j, b));
                        assert forall|k: int|
                            0 <= k < ev.len() && #[trigger] earlier(ev, k, j) implies committed@[k]
                            == old_committed[k] by {}
                        assert(commits(ev, committed@, j) == commits(ev, old_committed, j));
                    } else {
                        assert forall|k: int|
                            0 <= k < ev.len() && #[trigger] earlier(ev, k, b) implies committed@[k]
                            == old_committed[k] by {}
                        assert(commits(ev, committed@, b) == commits(ev, old_committed, b));
                    }
                }
                assert forall|i: int| 0 <= i < n implies cut_agrees(
                    ev,
                    committed@,
                    i,
                    #[trigger] cuts@[i],
                ) by {
                    assert(cut_agrees(ev, old_committed, i, old_cuts[i]));
                    if !blocked && ev[b].involves(i) {
                        assert(cuts@[i] == Some(time));
                        assert(committed@[b]);
                    } else {
                        assert(cuts@[i] == old_cuts[i]);
                        match old_cuts[i] {
                            None => {
                                assert forall|j: int|
                                    0 <= j < ev.len() && #[trigger] committed@[j] implies !ev[j].involves(
                                    i,
                                ) by {
                                    if j != b {
                                        assert(old_committed[j]);
                                    }
                                }
                            },
                            Some(t) => {
                                let k = choose|k: int|
                                    0 <= k < ev.len() && #[trigger] old_committed[k]
                                        && ev[k].involves(i) && ev[k].at() == t;
                                assert(committed@[k]);
                            },
                        }
                    }
                }
            }
        }
        proof {
            assert(ev == self.events());
            assert(is_resolution(ev, committed@));
            assert forall|i: int| 0 <= i < cuts@.len() && #[trigger] cuts@[i] is Some implies cuts@[i]->Some_0
                < TICK_END by {
                lemma_stop_before_end(ev, committed@, i, cuts@[i]->Some_0);
            }
        }
        cuts
    }
}

/// The earliest collision, in resolution order, that is not marked done; the
/// length of `events` if all are.
fn earliest_pending(events: &Vec<ArenaCollision>, done: &Vec<bool>) -> (best: usize)
    requires
        done@.len() == events@.len(),
    ensures
        best <= events@.len(),
        best == events@.len() ==> forall|k: int| 0 <= k < events@.len() ==> #[trigger] done@[k],
        best < events@.len() ==> !done@[best as int],
        best < events@.len() ==> forall|k: int|
            0 <= k < events@.len() && !#[trigger] done@[k] ==> k == best || earlier(
                events@,
                best as int,
                k,
            ),
{
    let m = events.len();
    let mut best: usize = m;
    let mut j: usize = 0;
    while j < m
        invariant
            j <= m,
            m == events@.len(),
            done@.len() == m,
            best == m || (best < j && !done@[best as int]),
            best == m ==> forall|k: int| 0 <= k < j ==> #[trigger] done@[k],
            best < m ==> forall|k: int|
                0 <= k < j && !#[trigger] done@[k] ==> k == best || earlier(events@, best as int, k),
        decreases m - j,
    {
        if !done[j] && (best == m || events[j].time() < events[best].time()) {
            best = j;
        }
        j += 1;
    }
    best
}

/// A collision set is resolved in one way only: two markings that both
/// satisfy `is_resolution` commit the same collisions.
pub proof fn lemma_resolution_unique(
    events: Seq<ArenaCollision>,
    c1: Seq<bool>,
    c2: Seq<bool>,
)
    requires
        is_resolution(events, c1),
        is_resolution(events, c2),
    ensures
        c1 == c2,
{
    assert forall|j: int| 0 <= j < events.len() implies c1[j] == c2[j] by {
        lemma_resolution_agrees_at(events, c1, c2, j);
    }
    assert(c1 =~= c2);
}

proof fn lemma_resolution_agrees_at(events: Seq<ArenaCollision>, c1: Seq<bool>, c2: Seq<bool>, j: int)
    requires
        is_resolution(events, c1),
        is_resolution(events, c2),
        0 <= j < events.len(),
    ensures
        c1[j] == c2[j],
    decreases events[j].at(), j,
{
    assert forall|k: int| 0 <= k < events.len() && #[trigger] earlier(events, k, j) implies c1[k]
        == c2[k] by {
        lemma_resolution_agrees_at(events, c1, c2, k);
    }
    assert(commits(events, c1, j) == commits(events, c2, j));
}

/// A step is stopped by at most one committed collision: once a collision
/// stops it, no later collision involving it is committed.
pub proof fn lemma_one_stop_per_step(
    events: Seq<ArenaCollision>,
    committed: Seq<bool>,
    i: int,
    j1: int,
    j2: int,
)
    requires
        is_resolution(events, committed),
        0 <= j1 < events.len(),
        0 <= j2 < events.len(),
        committed[j1],
        committed[j2],
        events[j1].involves(i),
        events[j2].involves(i),
    ensures
        j1 == j2,
{
    if j1 != j2 {
        assert(commits(events, committed, j1));
        assert(commits(events, committed, j2));
        if earlier(events, j1, j2) {
            assert(events[j1].shares(events[j2]));
        } else {
            assert(earlier(events, j2, j1));
            assert(events[j2].shares(events[j1]));
        }
    }
}

/// The stopping times are a function of the collisions found: two results
/// that agree with a resolution of the same collisions are equal.
pub proof fn lemma_cuts_unique(
    events: Seq<ArenaCollision>,
    c1: Seq<bool>,
    c2: Seq<bool>,
    cuts1: Seq<Option<u64>>,
    cuts2: Seq<Option<u64>>,
)
    requires
        is_resolution(events, c1),
        is_resolution(events, c2),
        cuts1.len() == cuts2.len(),
        forall|i: int| 0 <= i < cuts1.len() ==> cut_agrees(events, c1, i, #[trigger] cuts1[i]),
        forall|i: int| 0 <= i < cuts2.len() ==> cut_agrees(events, c2, i, #[trigger] cuts2[i]),
    ensures
        cuts1 == cuts2,
{
    lemma_resolution_unique(events, c1, c2);
    assert forall|i: int| 0 <= i < cuts1.len() implies cuts1[i] == cuts2[i] by {
        assert(cut_agrees(events, c1, i, cuts1[i]));
        assert(cut_agrees(events, c1, i, cuts2[i]));
        match (cuts1[i], cuts2[i]) {
            (Some(t1), Some(t2)) => {
                let j1 = choose|j: int|
                    0 <= j < events.len() && #[trigger] c1[j] && events[j].involves(i) && events[j].at()
                        == t1;
                let j2 = choose|j: int|
                    0 <= j < events.len() && #[trigger] c1[j] && events[j].involves(i) && events[j].at()
                        == t2;
                lemma_one_stop_per_step(events, c1, i, j1, j2);
            },
            (Some(t1), None) => {
                let j1 = choose|j: int|
                    0 <= j < events.len() && #[trigger] c1[j] && events[j].involves(i) && events[j].at()
                        == t1;
            },
            (None, Some(t2)) => {
                let j2 = choose|j: int|
                    0 <= j < events.len() && #[trigger] c1[j] && events[j].involves(i) && events[j].at()
                        == t2;
            },
            (None, None) => {},
        }
    }
    assert(cuts1 =~= cuts2);
}

/// A step is only ever stopped strictly before the end of the tick, so it
/// never travels further than its full step.
pub proof fn lemma_stop_before_end(
    events: Seq<ArenaCollision>,
    committed: Seq<bool>,
    i: int,
    t: u64,
)
    requires
        is_resolution(events, committed),
        cut_agrees(events, committed, i, Some(t)),
    ensures
        t < TICK_END,
{
    let j = choose|j: int|
        0 <= j < events.len() && #[trigger] committed[j] && events[j].involves(i) && events[j].at() == t;
    assert(commits(events, committed, j));
}

proof fn lemma_pair_events_within(n: usize, pairs: Seq<Option<u64>>)
    requires
        pairs.len() <= n,
    ensures
        forall|j: int|
            0 <= j < pair_events(n, pairs).len() ==> (#[trigger] pair_events(n, pairs)[j]).within(
                n as nat + 1,
            ),
    decreases pairs.len(),
{
    if pairs.len() > 0 {
        let k = pairs.len() - 1;
        let prefix = pair_events(n, pairs.take(k));
        lemma_pair_events_within(n, pairs.take(k));
        assert forall|j: int| 0 <= j < pair_events(n, pairs).len() implies (#[trigger] pair_events(
            n,
            pairs,
        )[j]).within(n as nat + 1) by {
            if j < prefix.len() {
                assert(pair_events(n, pairs)[j] == prefix[j]);
            }
        }
    }
}

} // verus!

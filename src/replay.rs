use vstd::prelude::*;

verus! {

/// Nanoseconds in one second: the replay's synthetic tick.
pub const NANOS_PER_SECOND: i128 = 1_000_000_000;

/// Every instant a replay handles lies strictly within this many nanoseconds
/// of the Unix epoch (jiff's timestamps span about ±3.8e11 seconds).
pub const INSTANT_LIMIT_NS: i128 = 400_000_000_000_000_000_000;

pub open spec fn within_limit(ns: int) -> bool {
    -INSTANT_LIMIT_NS < ns < INSTANT_LIMIT_NS
}

/// The range of a replay tick's instant: a recorded instant, or less than a
/// second past one.
pub open spec fn tick_in_range(ns: int) -> bool {
    -INSTANT_LIMIT_NS <= ns <= INSTANT_LIMIT_NS + NANOS_PER_SECOND
}

/// Lexicographic order on (instant, index) pairs.
pub open spec fn pair_le(a: (i128, usize), b: (i128, usize)) -> bool {
    a.0 < b.0 || (a.0 == b.0 && a.1 <= b.1)
}

/// `event` is the recorded sample in force at instant `t`: the latest one
/// recorded at or before `t`, later lines winning among equal instants; `None`
/// when every sample comes after `t`.
pub open spec fn in_force_at(stamps: Seq<i128>, t: int, event: Option<usize>) -> bool {
    match event {
        Some(i) => i < stamps.len() && stamps[i as int] <= t && forall|j: int|
            0 <= j < stamps.len() && stamps[j] <= t ==> (stamps[j] < stamps[i as int] || (
            stamps[j] == stamps[i as int] && j <= i)),
        None => forall|j: int| 0 <= j < stamps.len() ==> stamps[j] > t,
    }
}

/// Whole seconds of an instant in nanoseconds, truncated toward zero.
pub open spec fn whole_seconds(ns: int) -> int {
    if ns >= 0 {
        ns / NANOS_PER_SECOND as int
    } else {
        -((-ns) / NANOS_PER_SECOND as int)
    }
}

/// Relies on `slice::sort_unstable`: it leaves the same items, in ascending
/// order (tuples compare lexicographically).
#[verifier::external_body]
fn sort_pairs(v: &mut Vec<(i128, usize)>)
    ensures
        final(v)@.to_multiset() == old(v)@.to_multiset(),
        forall|p: int, q: int|
            0 <= p <= q < final(v)@.len() ==> pair_le(#[trigger] final(v)@[p], #[trigger] final(v)@[q]),
{
    v.sort_unstable()
}

/// One synthetic tick of a replay.
#[derive(Clone, Copy, Debug, PartialEq, Eq, Structural)]
pub struct ReplayRow {
    /// The tick's instant, in nanoseconds since the Unix epoch.
    pub at: i128,
    /// Index of the recorded sample in force at that instant, if any.
    pub event: Option<usize>,
}

impl ReplayRow {
    /// The tick's instant in whole seconds, truncated toward zero.
    pub fn second(&self) -> (r: i64)
        requires
            tick_in_range(self.at as int),
        ensures
            r as int == whole_seconds(self.at as int),
    {
        if self.at >= 0 {
            (self.at / NANOS_PER_SECOND) as i64
        } else {
            let up = (-self.at) / NANOS_PER_SECOND;
            -(up as i64)
        }
    }
}

/// Steps through a recording one second at a time, from its first instant to
/// its last inclusive, holding the last-seen sample between recorded instants.
pub struct ReplayCursor {
    order: Vec<(i128, usize)>,
    next: usize,
    at: i128,
    end: i128,
    current: Option<usize>,
    stamps: Ghost<Seq<i128>>,
}

impl ReplayCursor {
    /// The recorded instants, one per sample, in input order.
    pub closed spec fn stamps(&self) -> Seq<i128> {
        self.stamps@
    }

    /// The instant of the next row.
    pub closed spec fn clock(&self) -> int {
        self.at as int
    }

    /// Rows are produced while the clock is before this instant.
    pub closed spec fn end(&self) -> int {
        self.end as int
    }

    pub closed spec fn wf(&self) -> bool {
        let s = self.stamps@;
        let o = self.order@;
        &&& o.len() == s.len()
        &&& s.len() <= usize::MAX
        &&& forall|i: int| 0 <= i < s.len() ==> within_limit(#[trigger] s[i] as int)
        &&& forall|p: int, q: int|
            0 <= p <= q < o.len() ==> pair_le(#[trigger] o[p], #[trigger] o[q])
        &&& forall|p: int| 0 <= p < o.len() ==> (#[trigger] o[p]).1 < s.len() && o[p].0 == s[o[p].1 as int]
        &&& forall|i: int| 0 <= i < s.len() ==> o.contains((#[trigger] s[i], i as usize))
        &&& self.next <= o.len()
        &&& forall|p: int| 0 <= p < self.next ==> (#[trigger] o[p]).0 <= self.at
        &&& self.current == if self.next == 0 {
            None
        } else {
            Some(o[self.next - 1].1)
        }
        &&& -INSTANT_LIMIT_NS <= self.at <= self.end + NANOS_PER_SECOND
        &&& self.end <= INSTANT_LIMIT_NS + NANOS_PER_SECOND
    }

    /// A cursor over the samples recorded at `stamps` (nanoseconds since the
    /// Unix epoch, in input order). Its clock starts at the earliest instant and
    /// rows run until one second past the latest; with no samples there are none.
    pub fn new(stamps: &Vec<i128>) -> (r: ReplayCursor)
        requires
            forall|i: int| 0 <= i < stamps@.len() ==> within_limit(#[trigger] stamps@[i] as int),
        ensures
            r.wf(),
            r.stamps() == stamps@,
            stamps@.len() == 0 ==> r.clock() == r.end(),
            stamps@.len() > 0 ==> (exists|i: int|
                0 <= i < stamps@.len() && #[trigger] stamps@[i] == r.clock()) && (forall|i: int|
                0 <= i < stamps@.len() ==> r.clock() <= #[trigger] stamps@[i]),
            stamps@.len() > 0 ==> (exists|i: int|
                0 <= i < stamps@.len() && #[trigger] stamps@[i] + NANOS_PER_SECOND == r.end()) && (
            forall|i: int| 0 <= i < stamps@.len() ==> #[trigger] stamps@[i] + NANOS_PER_SECOND <= r.end()),
    {
        let n = stamps.len();
        let mut order: Vec<(i128, usize)> = Vec::new();
        let mut i: usize = 0;
        while i < n
            invariant
                n == stamps@.len(),
                i <= n,
                order@.len() == i,
                forall|k: int| 0 <= k < i ==> #[trigger] order@[k] == (stamps@[k], k as usize),
            decreases n - i,
        {
            order.push((stamps[i], i));
            i = i + 1;
        }
        let ghost unsorted = order@;
        sort_pairs(&mut order);
        proof {
            unsorted.to_multiset_ensures();
            order@.to_multiset_ensures();
            assert forall|k: int| 0 <= k < n implies order@.contains(
                (#[trigger] stamps@[k], k as usize),
            ) by {
                let x = (stamps@[k], k as usize);
                assert(unsorted[k] == x);
                assert(unsorted.contains(x));
                assert(unsorted.to_multiset().count(x) > 0);
                assert(order@.to_multiset().count(x) > 0);
            }
            assert forall|p: int| 0 <= p < order@.len() implies (#[trigger] order@[p]).1 < n
                && order@[p].0 == stamps@[order@[p].1 as int] by {
                let x = order@[p];
                assert(order@.contains(x));
                assert(order@.to_multiset().count(x) > 0);
                assert(unsorted.to_multiset().count(x) > 0);
                assert(unsorted.contains(x));
            }
        }
        if n == 0 {
            return ReplayCursor {
                order,
                next: 0,
                at: 0,
                end: 0,
                current: None,
                stamps: Ghost(stamps@),
            };
        }
        let first = order[0].0;
        let last = order[n - 1].0;
        proof {
            assert(pair_le(order@[0], order@[n - 1]));
            assert forall|k: int| 0 <= k < n implies first <= #[trigger] stamps@[k] && stamps@[k]
                <= last by {
                let p = choose|p: int| 0 <= p < order@.len() && order@[p] == (stamps@[k], k as usize);
                assert(pair_le(order@[0], order@[p]));
                assert(pair_le(order@[p], order@[n - 1]));
            }
            let a = order@[0].1 as int;
            let b = order@[n - 1].1 as int;
            assert(stamps@[a] == first);
            assert(stamps@[b] + NANOS_PER_SECOND == last + NANOS_PER_SECOND);
        }
        ReplayCursor {
            order,
            next: 0,
            at: first,
            end: last + NANOS_PER_SECOND,
            current: None,
            stamps: Ghost(stamps@),
        }
    }

    /// The next row, or `None` once the clock has reached the end. Each row
    /// carries the clock and the sample in force then; the clock then moves
    /// on by one second.
    pub fn next_row(&mut self) -> (r: Option<ReplayRow>)
        requires
            old(self).wf(),
        ensures
            final(self).wf(),
            final(self).stamps() == old(self).stamps(),
            final(self).end() == old(self).end(),
            r is Some <==> old(self).clock() < old(self).end(),
            r is None ==> final(self).clock() == old(self).clock(),
            r matches Some(row) ==> row.at == old(self).clock() && in_force_at(
                old(self).stamps(),
                old(self).clock(),
                row.event,
            ) && tick_in_range(row.at as int) && final(self).clock() == old(self).clock()
                + NANOS_PER_SECOND,
    {
        if self.at >= self.end {
            return None;
        }
        let n = self.order.len();
        while self.next < n && self.order[self.next].0 <= self.at
            invariant
                self.wf(),
                n == self.order@.len(),
                self.stamps == old(self).stamps,
                self.at == old(self).at,
                self.end == old(self).end,
                self.at < self.end,
            decreases n - self.next,
        {
            self.current = Some(self.order[self.next].1);
            self.next = self.next + 1;
        }
        proof {
            lemma_current_in_force(self.order@, self.stamps@, self.next as int, self.at as int);
        }
        let row = ReplayRow { at: self.at, event: self.current };
        self.at = self.at + NANOS_PER_SECOND;
        Some(row)
    }
}

/// After the sweep has taken in every sample recorded at or before `t`, the
/// last one taken is the sample in force at `t`.
proof fn lemma_current_in_force(o: Seq<(i128, usize)>, s: Seq<i128>, next: int, t: int)
    requires
        o.len() == s.len(),
        s.len() <= usize::MAX,
        0 <= next <= o.len(),
        forall|p: int, q: int| 0 <= p <= q < o.len() ==> pair_le(#[trigger] o[p], #[trigger] o[q]),
        forall|p: int| 0 <= p < o.len() ==> (#[trigger] o[p]).1 < s.len() && o[p].0 == s[o[p].1 as int],
        forall|i: int| 0 <= i < s.len() ==> o.contains((#[trigger] s[i], i as usize)),
        forall|p: int| 0 <= p < next ==> (#[trigger] o[p]).0 <= t,
        next == o.len() || o[next].0 > t,
    ensures
        in_force_at(s, t, if next == 0 { None } else { Some(o[next - 1].1) }),
{
    assert forall|j: int| 0 <= j < s.len() && s[j] <= t implies {
        let x = (s[j], j as usize);
        exists|p: int| 0 <= p < next && o[p] == x
    } by {
        let x = (s[j], j as usize);
        assert(o.contains(x));
        let p = choose|p: int| 0 <= p < o.len() && o[p] == x;
        if p >= next {
            assert(pair_le(o[next], o[p]));
        }
    }
    if next > 0 {
        let k = o[next - 1].1 as int;
        assert(o[next - 1].0 == s[k]);
        assert forall|j: int| 0 <= j < s.len() && s[j] <= t implies (s[j] < s[k] || (s[j] == s[k]
            && j <= k)) by {
            let x = (s[j], j as usize);
            let p = choose|p: int| 0 <= p < next && o[p] == x;
            assert(pair_le(o[p], o[next - 1]));
        }
    }
}

} // verus!

use vstd::prelude::*;

verus! {

/// One completed request, as a virtual user reports it.
pub struct RequestOutcome {
    pub method: String,
    pub path: String,
    pub elapsed: u64,
    pub success: bool,
    pub timestamp: u64,
}

/// Running counters of one request key.
pub struct RequestMetric {
    pub key: String,
    /// Number of response times recorded.
    pub response_time_counter: u64,
    /// Sum of the recorded response times, saturating.
    pub total_response_time: u64,
    pub success_count: u64,
    pub fail_count: u64,
}

/// What the aggregator hands out at the end of a run.
pub struct MetricsSnapshot {
    pub requests: Vec<RequestMetric>,
    pub duration: u64,
    pub users: u64,
}

/// Sole owner of the per-key counters.
pub struct Aggregator {
    buckets: Vec<RequestMetric>,
    recorded: u64,
}

/// The key under which an outcome is counted: method, one space, path.
pub open spec fn key_of(method: Seq<char>, path: Seq<char>) -> Seq<char> {
    method + seq![' '] + path
}

pub open spec fn sat_add(a: u64, b: u64) -> u64 {
    if a + b <= u64::MAX {
        (a + b) as u64
    } else {
        u64::MAX
    }
}

/// `m` after counting one outcome of `elapsed` time units.
pub open spec fn bumped(m: RequestMetric, elapsed: u64, success: bool) -> RequestMetric {
    RequestMetric {
        key: m.key,
        response_time_counter: (m.response_time_counter + 1) as u64,
        total_response_time: sat_add(m.total_response_time, elapsed),
        success_count: if success { (m.success_count + 1) as u64 } else { m.success_count },
        fail_count: if success { m.fail_count } else { (m.fail_count + 1) as u64 },
    }
}

/// `m` with every counter back at zero and its key kept.
pub open spec fn cleared(m: RequestMetric) -> RequestMetric {
    RequestMetric {
        key: m.key,
        response_time_counter: 0,
        total_response_time: 0,
        success_count: 0,
        fail_count: 0,
    }
}

pub open spec fn has_key(s: Seq<RequestMetric>, k: Seq<char>) -> bool {
    exists|i: int| 0 <= i < s.len() && (#[trigger] s[i]).key@ == k
}

pub open spec fn keys_unique(s: Seq<RequestMetric>) -> bool {
    forall|i: int, j: int|
        0 <= i < s.len() && 0 <= j < s.len() && i != j ==> (#[trigger] s[i]).key@ != (#[trigger] s[j]).key@
}

/// Outcomes counted over all buckets.
pub open spec fn total_outcomes(s: Seq<RequestMetric>) -> int
    decreases s.len(),
{
    if s.len() == 0 {
        0
    } else {
        total_outcomes(s.drop_last()) + s.last().success_count + s.last().fail_count
    }
}

proof fn lemma_total_update(s: Seq<RequestMetric>, i: int, m: RequestMetric)
    requires
        0 <= i < s.len(),
    ensures
        total_outcomes(s.update(i, m)) == total_outcomes(s) - s[i].success_count - s[i].fail_count
            + m.success_count + m.fail_count,
    decreases s.len(),
{
    if i < s.len() - 1 {
        lemma_total_update(s.drop_last(), i, m);
        assert(s.update(i, m).drop_last() =~= s.drop_last().update(i, m));
    } else {
        assert(s.update(i, m).drop_last() =~= s.drop_last());
    }
}

proof fn lemma_total_push(s: Seq<RequestMetric>, m: RequestMetric)
    ensures
        total_outcomes(s.push(m)) == total_outcomes(s) + m.success_count + m.fail_count,
{
    assert(s.push(m).drop_last() =~= s);
}

proof fn lemma_total_cleared(s: Seq<RequestMetric>)
    ensures
        total_outcomes(s.map_values(|m: RequestMetric| cleared(m))) == 0,
    decreases s.len(),
{
    if s.len() > 0 {
        lemma_total_cleared(s.drop_last());
        assert(s.map_values(|m: RequestMetric| cleared(m)).drop_last() =~= s.drop_last().map_values(
            |m: RequestMetric| cleared(m),
        ));
    }
}

proof fn lemma_total_bounds(s: Seq<RequestMetric>, i: int)
    requires
        0 <= i < s.len(),
    ensures
        s[i].success_count + s[i].fail_count <= total_outcomes(s),
        total_outcomes(s) >= 0,
    decreases s.len(),
{
    if s.len() > 0 {
        if i < s.len() - 1 {
            lemma_total_bounds(s.drop_last(), i);
        } else if s.len() > 1 {
            lemma_total_bounds(s.drop_last(), 0);
        }
    }
}

fn clone_metric(m: &RequestMetric) -> (r: RequestMetric)
    ensures
        r == *m,
{
    RequestMetric {
        key: m.key.clone(),
        response_time_counter: m.response_time_counter,
        total_response_time: m.total_response_time,
        success_count: m.success_count,
        fail_count: m.fail_count,
    }
}

/// No outcome is lost: the success and fail counts of all buckets add up to
/// the number of outcomes recorded since the aggregator was made or reset.
pub proof fn lemma_no_outcome_lost(a: &Aggregator)
    requires
        a.inv(),
    ensures
        total_outcomes(a@) == a.spec_recorded(),
{
}

/// Two snapshots of an aggregator that recorded nothing in between hold the
/// same counters.
pub proof fn lemma_snapshot_idempotent(a: &Aggregator, first: &MetricsSnapshot, second: &MetricsSnapshot)
    requires
        first.requests@ == a@,
        second.requests@ == a@,
    ensures
        first.requests@ == second.requests@,
{
}

impl MetricsSnapshot {
    /// The first bucket whose key is `key`.
    pub fn get(&self, key: &str) -> (r: Option<&RequestMetric>)
        ensures
            r is None <==> !has_key(self.requests@, key@),
            r matches Some(m) ==> exists|i: int|
                0 <= i < self.requests@.len() && self.requests@[i] == *m && m.key@ == key@ && forall|
                    j: int,
                | 0 <= j < i ==> (#[trigger] self.requests@[j]).key@ != key@,
    {
        let wanted: String = key.to_owned();
        let n = self.requests.len();
        let mut i: usize = 0;
        while i < n
            invariant
                n == self.requests@.len(),
                i <= n,
                wanted@ == key@,
                forall|j: int| 0 <= j < i ==> (#[trigger] self.requests@[j]).key@ != key@,
            decreases n - i,
        {
            if self.requests[i].key.eq(&wanted) {
                return Some(&self.requests[i]);
            }
            i = i + 1;
        }
        None
    }
}

impl Aggregator {
    pub closed spec fn view(&self) -> Seq<RequestMetric> {
        self.buckets@
    }

    /// Outcomes counted since the aggregator was made or last reset.
    pub closed spec fn spec_recorded(&self) -> nat {
        self.recorded as nat
    }

    /// Keys are unique, each bucket's counter is the sum of its successes and
    /// failures, and the buckets together hold every outcome recorded.
    pub closed spec fn inv(&self) -> bool {
        &&& keys_unique(self.buckets@)
        &&& forall|i: int|
            0 <= i < self.buckets@.len() ==> (#[trigger] self.buckets@[i]).response_time_counter
                == self.buckets@[i].success_count + self.buckets@[i].fail_count
        &&& total_outcomes(self.buckets@) == self.recorded
    }

    pub fn new() -> (r: Aggregator)
        ensures
            r.inv(),
            r@ == Seq::<RequestMetric>::empty(),
            r.spec_recorded() == 0,
    {
        Aggregator { buckets: Vec::new(), recorded: 0 }
    }

    pub fn recorded(&self) -> (r: u64)
        ensures
            r == self.spec_recorded(),
    {
        self.recorded
    }

    /// Counts one outcome in the bucket of its key, made if it is new.
    pub fn record(&mut self, outcome: &RequestOutcome)
        requires
            old(self).inv(),
            old(self).spec_recorded() < u64::MAX,
        ensures
            final(self).inv(),
            final(self).spec_recorded() == old(self).spec_recorded() + 1,
            has_key(old(self)@, key_of(outcome.method@, outcome.path@)) ==> {
                &&& final(self)@.len() == old(self)@.len()
                &&& forall|i: int|
                    0 <= i < old(self)@.len() ==> #[trigger] final(self)@[i] == if old(self)@[i].key@
                        == key_of(outcome.method@, outcome.path@) {
                        bumped(old(self)@[i], outcome.elapsed, outcome.success)
                    } else {
                        old(self)@[i]
                    }
            },
            !has_key(old(self)@, key_of(outcome.method@, outcome.path@)) ==> final(self)@
                == old(self)@.push(
                bumped(
                    cleared(final(self)@.last()),
                    outcome.elapsed,
                    outcome.success,
                ),
            ) && final(self)@.last().key@ == key_of(outcome.method@, outcome.path@),
    {
        let key = outcome.method.clone().concat(" ").concat(outcome.path.as_str());
        proof {
            reveal_strlit(" ");
        }
        assert(key@ == key_of(outcome.method@, outcome.path@));
        let ghost k = key@;
        let ghost before = self.buckets@;
        let n = self.buckets.len();
        let mut i: usize = 0;
        while i < n
            invariant
                n == self.buckets@.len(),
                self.buckets@ == before,
                i <= n,
                key@ == k,
                k == key_of(outcome.method@, outcome.path@),
                before == old(self).buckets@,
                self.recorded == old(self).recorded,
                self.inv(),
                self.recorded < u64::MAX,
                forall|j: int| 0 <= j < i ==> (#[trigger] before[j]).key@ != k,
            decreases n - i,
        {
            if self.buckets[i].key.eq(&key) {
                proof {
                    lemma_total_bounds(before, i as int);
                    assert(before[i as int].response_time_counter == before[i as int].success_count
                        + before[i as int].fail_count);
                }
                let old_m = clone_metric(&self.buckets[i]);
                let m = RequestMetric {
                    key: old_m.key,
                    response_time_counter: old_m.response_time_counter + 1,
                    total_response_time: old_m.total_response_time.saturating_add(outcome.elapsed),
                    success_count: if outcome.success {
                        old_m.success_count + 1
                    } else {
                        old_m.success_count
                    },
                    fail_count: if outcome.success {
                        old_m.fail_count
                    } else {
                        old_m.fail_count + 1
                    },
                };
                self.buckets.set(i, m);
                self.recorded = self.recorded + 1;
                proof {
                    assert(before[i as int].key@ == k);
                    assert(has_key(before, k));
                    assert(m == bumped(before[i as int], outcome.elapsed, outcome.success));
                    lemma_total_update(before, i as int, m);
                    assert forall|j: int|
                        0 <= j < before.len() implies #[trigger] self.buckets@[j] == if before[j].key@ == k {
                        bumped(before[j], outcome.elapsed, outcome.success)
                    } else {
                        before[j]
                    } by {
                        if j != i {
                            assert(before[j].key@ != before[i as int].key@);
                        }
                    }
                }
                return;
            }
            i = i + 1;
        }
        let m = RequestMetric {
            key,
            response_time_counter: 1,
            total_response_time: outcome.elapsed,
            success_count: if outcome.success { 1 } else { 0 },
            fail_count: if outcome.success { 0 } else { 1 },
        };
        self.buckets.push(m);
        self.recorded = self.recorded + 1;
        proof {
            lemma_total_push(before, m);
        }
    }

    /// Sets every bucket's counters to zero and keeps the key set.
    pub fn reset(&mut self)
        requires
            old(self).inv(),
        ensures
            final(self).inv(),
            final(self).spec_recorded() == 0,
            final(self)@ == old(self)@.map_values(|m: RequestMetric| cleared(m)),
    {
        let ghost before = self.buckets@;
        let n = self.buckets.len();
        let mut i: usize = 0;
        while i < n
            invariant
                n == self.buckets@.len(),
                n == before.len(),
                i <= n,
                forall|j: int| 0 <= j < i ==> #[trigger] self.buckets@[j] == cleared(before[j]),
                forall|j: int| i <= j < n ==> #[trigger] self.buckets@[j] == before[j],
            decreases n - i,
        {
            let key = self.buckets[i].key.clone();
            self.buckets.set(
                i,
                RequestMetric {
                    key,
                    response_time_counter: 0,
                    total_response_time: 0,
                    success_count: 0,
                    fail_count: 0,
                },
            );
            i = i + 1;
        }
        self.recorded = 0;
        proof {
            assert(self.buckets@ =~= before.map_values(|m: RequestMetric| cleared(m)));
            lemma_total_cleared(before);
        }
    }

    /// A copy of every bucket, with the run's duration and user count.
    pub fn snapshot(&self, duration: u64, users: u64) -> (r: MetricsSnapshot)
        ensures
            r.requests@ == self@,
            r.duration == duration,
            r.users == users,
    {
        let mut requests: Vec<RequestMetric> = Vec::new();
        let n = self.buckets.len();
        let mut i: usize = 0;
        while i < n
            invariant
                n == self.buckets@.len(),
                i <= n,
                requests@ == self.buckets@.take(i as int),
            decreases n - i,
        {
            requests.push(clone_metric(&self.buckets[i]));
            i = i + 1;
            assert(requests@ =~= self.buckets@.take(i as int));
        }
        assert(self.buckets@.take(n as int) =~= self.buckets@);
        MetricsSnapshot { requests, duration, users }
    }
}

} // verus!

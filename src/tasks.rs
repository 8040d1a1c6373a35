use vstd::prelude::*;

verus! {

/// One scripted action of a task set, as registered.
pub struct Task {
    pub name: String,
    pub weight: u64,
    /// Fixed position in the run order; unsequenced tasks come after all
    /// sequenced ones.
    pub sequence: Option<u64>,
    pub on_start: bool,
    pub on_stop: bool,
}

/// A named, weighted collection of tasks.
pub struct TaskSet {
    pub name: String,
    pub weight: u64,
    pub tasks: Vec<Task>,
}

/// The part of a user's life a task runs in.
#[derive(PartialEq, Eq, Structural, Clone, Copy, Debug)]
pub enum TaskPhase {
    OnStart,
    Main,
    OnStop,
}

/// Errors found before any virtual user starts.
#[derive(PartialEq, Eq, Structural, Clone, Copy, Debug)]
pub enum SetupError {
    /// No task set is registered.
    NoTaskSets,
    /// The task set at this index has no weighted task outside on-start and on-stop.
    EmptyTaskSet(usize),
    /// A sum of weights does not fit in 64 bits.
    WeightOverflow,
    /// The task sets' weights add up to zero.
    NoTaskSetWeight,
    /// The debug-log format is neither "json" nor "raw".
    InvalidDebugFormat,
}

pub open spec fn in_phase(t: Task, phase: TaskPhase) -> bool {
    match phase {
        TaskPhase::OnStart => t.on_start,
        TaskPhase::OnStop => t.on_stop,
        TaskPhase::Main => !t.on_start && !t.on_stop && t.weight > 0,
    }
}

/// Sort key of a task: its sequence position, unsequenced ones last.
pub open spec fn order_key(t: Task) -> int {
    match t.sequence {
        Some(n) => n as int,
        None => u64::MAX as int + 1,
    }
}

/// Each entry of `order` runs no later than the next: lower sequence
/// position first, then earlier registration.
pub open spec fn sorted_by_key(tasks: Seq<Task>, order: Seq<usize>) -> bool {
    forall|a: int, b: int|
        0 <= a < b < order.len() ==> {
            ||| order_key(tasks[(#[trigger] order[a]) as int]) < order_key(tasks[(#[trigger] order[b]) as int])
            ||| (order_key(tasks[order[a] as int]) == order_key(tasks[order[b] as int]) && order[a] < order[b])
        }
}

/// `order` lists each task of `phase` exactly once, by ascending sequence
/// position and, on equal positions, by registration order.
pub open spec fn is_phase_order(tasks: Seq<Task>, phase: TaskPhase, order: Seq<usize>) -> bool {
    &&& order.no_duplicates()
    &&& forall|a: int|
        0 <= a < order.len() ==> (#[trigger] order[a]) < tasks.len() && in_phase(tasks[order[a] as int], phase)
    &&& forall|k: int| 0 <= k < tasks.len() && in_phase(#[trigger] tasks[k], phase) ==> order.contains(k as usize)
    &&& sorted_by_key(tasks, order)
}

proof fn lemma_insert_sorted(tasks: Seq<Task>, prev: Seq<usize>, p: int, i: usize)
    requires
        0 <= p <= prev.len(),
        i < tasks.len(),
        prev.no_duplicates(),
        sorted_by_key(tasks, prev),
        forall|a: int| 0 <= a < prev.len() ==> (#[trigger] prev[a]) < i,
        forall|a: int| 0 <= a < p ==> order_key(tasks[(#[trigger] prev[a]) as int]) <= order_key(tasks[i as int]),
        p < prev.len() ==> order_key(tasks[prev[p] as int]) > order_key(tasks[i as int]),
    ensures
        sorted_by_key(tasks, prev.insert(p, i)),
        prev.insert(p, i).no_duplicates(),
        forall|k: usize| prev.contains(k) ==> #[trigger] prev.insert(p, i).contains(k),
        prev.insert(p, i).contains(i),
{
    let order = prev.insert(p, i);
    assert forall|a: int, b: int| 0 <= a < b < order.len() implies {
        ||| order_key(tasks[(#[trigger] order[a]) as int]) < order_key(tasks[(#[trigger] order[b]) as int])
        ||| (order_key(tasks[order[a] as int]) == order_key(tasks[order[b] as int]) && order[a] < order[b])
    } by {
        if b < p {
            assert(order[a] == prev[a] && order[b] == prev[b]);
        } else if b == p {
            assert(order[a] == prev[a]);
        } else if a < p {
            assert(order[a] == prev[a] && order[b] == prev[b - 1]);
        } else if a == p {
            assert(order[b] == prev[b - 1]);
            if p != b - 1 {
                assert(order_key(tasks[prev[p] as int]) <= order_key(tasks[prev[b - 1] as int]));
            }
        } else {
            assert(order[a] == prev[a - 1] && order[b] == prev[b - 1]);
        }
    }
    assert forall|a: int, b: int| 0 <= a < b < order.len() implies order[a] != order[b] by {
        if a != p && b != p {
            let pa = if a < p { a } else { a - 1 };
            let pb = if b < p { b } else { b - 1 };
            assert(order[a] == prev[pa] && order[b] == prev[pb]);
        } else if a == p {
            assert(order[b] == prev[b - 1]);
        } else {
            assert(order[a] == prev[a]);
        }
    }
    assert forall|k: usize| prev.contains(k) implies #[trigger] order.contains(k) by {
        let a = choose|a: int| 0 <= a < prev.len() && prev[a] == k;
        if a < p {
            assert(order[a] == k);
        } else {
            assert(order[a + 1] == k);
        }
    }
    assert(order[p] == i);
}

/// The sequential cycle: each task of `order` repeated as many times as its
/// weight, in order.
pub open spec fn expand(tasks: Seq<Task>, order: Seq<usize>) -> Seq<usize>
    decreases order.len(),
{
    if order.len() == 0 {
        Seq::empty()
    } else {
        expand(tasks, order.drop_last()) + Seq::new(
            tasks[order.last() as int].weight as nat,
            |j: int| order.last(),
        )
    }
}

/// Sum of the weights of the main-loop tasks among the first `n`.
pub open spec fn main_weight(tasks: Seq<Task>, n: int) -> nat
    decreases n,
{
    if n <= 0 {
        0
    } else {
        main_weight(tasks, n - 1) + if in_phase(tasks[n - 1], TaskPhase::Main) {
            tasks[n - 1].weight as nat
        } else {
            0nat
        }
    }
}

/// The task the sequential policy runs at step `step` of the cycle.
pub open spec fn sequential_pick(cycle: Seq<usize>, step: nat) -> usize
    recommends
        cycle.len() > 0,
{
    cycle[(step % cycle.len()) as int]
}

proof fn lemma_main_weight_monotonic(tasks: Seq<Task>, a: int, b: int)
    requires
        a <= b,
    ensures
        main_weight(tasks, a) <= main_weight(tasks, b),
    decreases b - a,
{
    if a < b {
        lemma_main_weight_monotonic(tasks, a, b - 1);
    }
}

fn runs_in_phase(t: &Task, phase: TaskPhase) -> (r: bool)
    ensures
        r == in_phase(*t, phase),
{
    match phase {
        TaskPhase::OnStart => t.on_start,
        TaskPhase::OnStop => t.on_stop,
        TaskPhase::Main => !t.on_start && !t.on_stop && t.weight > 0,
    }
}

fn key_after(a: &Task, b: &Task) -> (r: bool)
    ensures
        r == (order_key(*a) > order_key(*b)),
{
    match (a.sequence, b.sequence) {
        (Some(x), Some(y)) => x > y,
        (None, Some(_)) => true,
        (_, None) => false,
    }
}

/// Sum of the main-loop weights of `tasks`; `None` where it exceeds 64 bits.
pub fn total_main_weight(tasks: &Vec<Task>) -> (r: Option<u64>)
    ensures
        r is None <==> main_weight(tasks@, tasks@.len() as int) > u64::MAX,
        r matches Some(w) ==> w == main_weight(tasks@, tasks@.len() as int),
{
    let n = tasks.len();
    let mut total: u64 = 0;
    let mut i: usize = 0;
    while i < n
        invariant
            n == tasks@.len(),
            i <= n,
            total == main_weight(tasks@, i as int),
        decreases n - i,
    {
        if runs_in_phase(&tasks[i], TaskPhase::Main) {
            match total.checked_add(tasks[i].weight) {
                Some(t) => {
                    total = t;
                },
                None => {
                    proof {
                        lemma_main_weight_monotonic(tasks@, i as int + 1, n as int);
                    }
                    return None;
                },
            }
        }
        i = i + 1;
    }
    Some(total)
}

/// Checks that a task set can run: its main-loop weights add up to a
/// positive number that fits in 64 bits, which is returned.
pub fn validate_task_set(set: &TaskSet, index: usize) -> (r: Result<u64, SetupError>)
    ensures
        r matches Ok(w) ==> w == main_weight(set.tasks@, set.tasks@.len() as int) && w > 0,
        r is Ok <==> 0 < main_weight(set.tasks@, set.tasks@.len() as int) <= u64::MAX,
        r == Err::<u64, SetupError>(SetupError::EmptyTaskSet(index)) <==> main_weight(
            set.tasks@,
            set.tasks@.len() as int,
        ) == 0,
        r == Err::<u64, SetupError>(SetupError::WeightOverflow) <==> main_weight(
            set.tasks@,
            set.tasks@.len() as int,
        ) > u64::MAX,
{
    match total_main_weight(&set.tasks) {
        None => Err(SetupError::WeightOverflow),
        Some(0) => Err(SetupError::EmptyTaskSet(index)),
        Some(w) => Ok(w),
    }
}

/// Weighted-random selection: the main-loop task whose share of the weight
/// line holds `draw`, shares laid out in registration order.
pub fn weighted_pick(tasks: &Vec<Task>, draw: u64) -> (r: usize)
    requires
        draw < main_weight(tasks@, tasks@.len() as int),
    ensures
        r < tasks@.len(),
        in_phase(tasks@[r as int], TaskPhase::Main),
        main_weight(tasks@, r as int) <= draw < main_weight(tasks@, r as int) + tasks@[r as int].weight,
{
    let n = tasks.len();
    let mut before: u64 = 0;
    let mut i: usize = 0;
    while i < n
        invariant
            n == tasks@.len(),
            i <= n,
            before == main_weight(tasks@, i as int),
            before <= draw,
            draw < main_weight(tasks@, n as int),
        decreases n - i,
    {
        if runs_in_phase(&tasks[i], TaskPhase::Main) {
            if draw - before < tasks[i].weight {
                return i;
            }
            before = before + tasks[i].weight;
        }
        i = i + 1;
    }
    i
}

/// The tasks of `phase` in run order: ascending sequence position, ties by
/// registration order.
pub fn phase_order(tasks: &Vec<Task>, phase: TaskPhase) -> (r: Vec<usize>)
    ensures
        is_phase_order(tasks@, phase, r@),
{
    let n = tasks.len();
    let mut order: Vec<usize> = Vec::new();
    let mut i: usize = 0;
    while i < n
        invariant
            n == tasks@.len(),
            i <= n,
            order@.no_duplicates(),
            forall|a: int|
                0 <= a < order@.len() ==> (#[trigger] order@[a]) < i && in_phase(
                    tasks@[order@[a] as int],
                    phase,
                ),
            forall|k: int| 0 <= k < i && in_phase(#[trigger] tasks@[k], phase) ==> order@.contains(k as usize),
            sorted_by_key(tasks@, order@),
        decreases n - i,
    {
        if runs_in_phase(&tasks[i], phase) {
            let len = order.len();
            let mut p: usize = 0;
            while p < len && !key_after(&tasks[order[p]], &tasks[i])
                invariant
                    len == order@.len(),
                    n == tasks@.len(),
                    i < n,
                    p <= len,
                    forall|a: int| 0 <= a < len ==> (#[trigger] order@[a]) < i,
                    forall|a: int| 0 <= a < p ==> order_key(tasks@[(#[trigger] order@[a]) as int]) <= order_key(tasks@[i as int]),
                    sorted_by_key(tasks@, order@),
                decreases len - p,
            {
                p = p + 1;
            }
            let ghost prev = order@;
            proof {
                lemma_insert_sorted(tasks@, prev, p as int, i);
            }
            order.insert(p, i);
            proof {
                assert forall|a: int| 0 <= a < order@.len() implies (#[trigger] order@[a]) < i + 1
                    && in_phase(tasks@[order@[a] as int], phase) by {
                    if a < p {
                        assert(order@[a] == prev[a]);
                    } else if a > p {
                        assert(order@[a] == prev[a - 1]);
                    }
                }
                assert forall|k: int| 0 <= k < i + 1 && in_phase(#[trigger] tasks@[k], phase) implies order@.contains(
                    k as usize,
                ) by {
                    if k < i {
                        assert(prev.contains(k as usize));
                    }
                }
            }
        }
        i = i + 1;
    }
    order
}

/// Repeats each entry of `order` as many times as its task's weight.
pub fn expand_order(tasks: &Vec<Task>, order: &Vec<usize>) -> (r: Vec<usize>)
    requires
        forall|a: int| 0 <= a < order@.len() ==> (#[trigger] order@[a]) < tasks@.len(),
    ensures
        r@ == expand(tasks@, order@),
{
    let mut cycle: Vec<usize> = Vec::new();
    let n = order.len();
    let mut a: usize = 0;
    while a < n
        invariant
            n == order@.len(),
            a <= n,
            forall|x: int| 0 <= x < order@.len() ==> (#[trigger] order@[x]) < tasks@.len(),
            cycle@ == expand(tasks@, order@.take(a as int)),
        decreases n - a,
    {
        let k = order[a];
        let w = tasks[k].weight;
        let ghost base = cycle@;
        let mut j: u64 = 0;
        while j < w
            invariant
                j <= w,
                cycle@ == base + Seq::new(j as nat, |x: int| k),
            decreases w - j,
        {
            cycle.push(k);
            j = j + 1;
            assert(cycle@ =~= base + Seq::new(j as nat, |x: int| k));
        }
        assert(order@.take(a + 1).drop_last() =~= order@.take(a as int));
        a = a + 1;
    }
    assert(order@.take(n as int) =~= order@);
    cycle
}

/// The cycle a sequential user walks through: main-loop tasks in run
/// order, each repeated as many times as its weight.
pub fn sequential_cycle(tasks: &Vec<Task>) -> (r: Vec<usize>)
    ensures
        exists|order: Seq<usize>| is_phase_order(tasks@, TaskPhase::Main, order) && r@ == expand(tasks@, order),
{
    let order = phase_order(tasks, TaskPhase::Main);
    expand_order(tasks, &order)
}

/// A task set whose only main-loop task has weight 1 gives a sequential
/// selection that repeats with period 1: every step runs that task.
pub proof fn lemma_single_task_period_one(tasks: Seq<Task>, order: Seq<usize>, k: int, step: nat)
    requires
        0 <= k < tasks.len(),
        in_phase(tasks[k], TaskPhase::Main),
        tasks[k].weight == 1,
        forall|j: int| 0 <= j < tasks.len() && j != k ==> !in_phase(#[trigger] tasks[j], TaskPhase::Main),
        is_phase_order(tasks, TaskPhase::Main, order),
    ensures
        expand(tasks, order) == seq![k as usize],
        sequential_pick(expand(tasks, order), step) == k,
{
    assert(order.contains(k as usize));
    assert forall|a: int| 0 <= a < order.len() implies order[a] == k as usize by {
        assert(in_phase(tasks[order[a] as int], TaskPhase::Main));
    }
    if order.len() > 1 {
        assert(order[0] == order[1]);
    }
    assert(order.len() == 1);
    assert(order.drop_last() =~= Seq::<usize>::empty());
    assert(expand(tasks, order.drop_last()) =~= Seq::<usize>::empty());
    assert(expand(tasks, order) =~= seq![k as usize]);
}

/// The task that weighted-random selection runs for `draw`.
pub open spec fn weighted_choice(tasks: Seq<Task>, draw: int) -> int {
    choose|r: int|
        0 <= r < tasks.len() && in_phase(tasks[r], TaskPhase::Main) && main_weight(tasks, r) <= draw
            < main_weight(tasks, r) + tasks[r].weight
}

/// At most one task holds a given point of the weight line.
pub proof fn lemma_weighted_choice_unique(tasks: Seq<Task>, draw: int, r: int)
    requires
        0 <= r < tasks.len(),
        in_phase(tasks[r], TaskPhase::Main),
        main_weight(tasks, r) <= draw < main_weight(tasks, r) + tasks[r].weight,
    ensures
        weighted_choice(tasks, draw) == r,
{
    let c = weighted_choice(tasks, draw);
    assert(0 <= c < tasks.len() && in_phase(tasks[c], TaskPhase::Main) && main_weight(tasks, c) <= draw
        < main_weight(tasks, c) + tasks[c].weight);
    if c < r {
        lemma_main_weight_monotonic(tasks, c + 1, r);
    } else if r < c {
        lemma_main_weight_monotonic(tasks, r + 1, c);
    }
}

proof fn lemma_expand_len(tasks: Seq<Task>, order: Seq<usize>, a: int)
    requires
        0 <= a < order.len(),
    ensures
        expand(tasks, order).len() >= tasks[order[a] as int].weight,
    decreases order.len(),
{
    if a < order.len() - 1 {
        lemma_expand_len(tasks, order.drop_last(), a);
    }
}

proof fn lemma_main_task_exists(tasks: Seq<Task>, n: int) -> (k: int)
    requires
        0 <= n <= tasks.len(),
        main_weight(tasks, n) > 0,
    ensures
        0 <= k < n,
        in_phase(tasks[k], TaskPhase::Main),
    decreases n,
{
    if in_phase(tasks[n - 1], TaskPhase::Main) {
        n - 1
    } else {
        lemma_main_task_exists(tasks, n - 1)
    }
}

/// A task set with main-loop weight has a non-empty sequential cycle.
pub proof fn lemma_cycle_nonempty(tasks: Seq<Task>, order: Seq<usize>)
    requires
        main_weight(tasks, tasks.len() as int) > 0,
        is_phase_order(tasks, TaskPhase::Main, order),
    ensures
        expand(tasks, order).len() > 0,
{
    let k = lemma_main_task_exists(tasks, tasks.len() as int);
    assert(order.contains(k as usize));
    let a = choose|a: int| 0 <= a < order.len() && order[a] == k as usize;
    lemma_expand_len(tasks, order, a);
}

} // verus!

use vstd::prelude::*;
use crate::tasks::{main_weight, validate_task_set, SetupError, TaskSet};

verus! {

/// The error, if any, of one task set found at registration index `i`.
pub open spec fn set_error(set: TaskSet, i: int) -> Option<SetupError> {
    let w = main_weight(set.tasks@, set.tasks@.len() as int);
    if w == 0 {
        Some(SetupError::EmptyTaskSet(i as usize))
    } else if w > u64::MAX {
        Some(SetupError::WeightOverflow)
    } else {
        None
    }
}

/// The first error among the first `n` task sets.
pub open spec fn first_set_error(sets: Seq<TaskSet>, n: int) -> Option<SetupError>
    decreases n,
{
    if n <= 0 {
        None
    } else {
        match first_set_error(sets, n - 1) {
            Some(e) => Some(e),
            None => set_error(sets[n - 1], n - 1),
        }
    }
}

/// Sum of the weights of the first `n` task sets.
pub open spec fn set_weight(sets: Seq<TaskSet>, n: int) -> nat
    decreases n,
{
    if n <= 0 {
        0
    } else {
        set_weight(sets, n - 1) + sets[n - 1].weight as nat
    }
}

/// Why a run with these task sets cannot start, if it cannot.
pub open spec fn setup_error(sets: Seq<TaskSet>) -> Option<SetupError> {
    if sets.len() == 0 {
        Some(SetupError::NoTaskSets)
    } else {
        match first_set_error(sets, sets.len() as int) {
            Some(e) => Some(e),
            None => if set_weight(sets, sets.len() as int) > u64::MAX {
                Some(SetupError::WeightOverflow)
            } else if set_weight(sets, sets.len() as int) == 0 {
                Some(SetupError::NoTaskSetWeight)
            } else {
                None
            },
        }
    }
}

/// The task set of user `user`: users walk the weight line of the task sets,
/// laid out in registration order, and start over at its end.
pub open spec fn assigned_to(sets: Seq<TaskSet>, user: int, set: int) -> bool {
    let total = set_weight(sets, sets.len() as int);
    &&& 0 <= set < sets.len()
    &&& set_weight(sets, set) <= user % (total as int) < set_weight(sets, set) + sets[set].weight
}

/// Start of user `i`, in milliseconds after the run starts, at `hatch_rate`
/// users per second.
pub open spec fn hatch_offset(i: int, hatch_rate: int) -> int {
    i * 1000 / hatch_rate
}

proof fn lemma_first_error_sticks(sets: Seq<TaskSet>, m: int, n: int)
    requires
        m <= n,
        first_set_error(sets, m) is Some,
    ensures
        first_set_error(sets, n) == first_set_error(sets, m),
    decreases n - m,
{
    if m < n {
        lemma_first_error_sticks(sets, m, n - 1);
    }
}

proof fn lemma_set_weight_monotonic(sets: Seq<TaskSet>, a: int, b: int)
    requires
        a <= b,
    ensures
        set_weight(sets, a) <= set_weight(sets, b),
    decreases b - a,
{
    if a < b {
        lemma_set_weight_monotonic(sets, a, b - 1);
    }
}

fn total_set_weight(sets: &Vec<TaskSet>) -> (r: Option<u64>)
    ensures
        r is None <==> set_weight(sets@, sets@.len() as int) > u64::MAX,
        r matches Some(w) ==> w == set_weight(sets@, sets@.len() as int),
{
    let n = sets.len();
    let mut total: u64 = 0;
    let mut i: usize = 0;
    while i < n
        invariant
            n == sets@.len(),
            i <= n,
            total == set_weight(sets@, i as int),
        decreases n - i,
    {
        match total.checked_add(sets[i].weight) {
            Some(t) => {
                total = t;
            },
            None => {
                proof {
                    lemma_set_weight_monotonic(sets@, i as int + 1, n as int);
                }
                return None;
            },
        }
        i = i + 1;
    }
    Some(total)
}

/// Checks every task set in registration order, then the task sets' weights.
pub fn validate_sets(sets: &Vec<TaskSet>) -> (r: Result<u64, SetupError>)
    ensures
        r matches Err(e) ==> setup_error(sets@) == Some(e),
        r matches Ok(total) ==> setup_error(sets@) is None && total == set_weight(sets@, sets@.len() as int),
        setup_error(sets@) is None ==> r is Ok,
{
    let n = sets.len();
    if n == 0 {
        return Err(SetupError::NoTaskSets);
    }
    let mut i: usize = 0;
    while i < n
        invariant
            n == sets@.len(),
            i <= n,
            first_set_error(sets@, i as int) is None,
        decreases n - i,
    {
        match validate_task_set(&sets[i], i) {
            Err(e) => {
                proof {
                    assert(first_set_error(sets@, i as int + 1) == Some(e));
                    lemma_first_error_sticks(sets@, i as int + 1, n as int);
                }
                return Err(e);
            },
            Ok(_) => {},
        }
        i = i + 1;
    }
    match total_set_weight(sets) {
        None => Err(SetupError::WeightOverflow),
        Some(0) => Err(SetupError::NoTaskSetWeight),
        Some(total) => Ok(total),
    }
}

fn pick_set(sets: &Vec<TaskSet>, draw: u64) -> (r: usize)
    requires
        draw < set_weight(sets@, sets@.len() as int),
    ensures
        r < sets@.len(),
        set_weight(sets@, r as int) <= draw < set_weight(sets@, r as int) + sets@[r as int].weight,
{
    let n = sets.len();
    let mut before: u64 = 0;
    let mut i: usize = 0;
    while i < n
        invariant
            n == sets@.len(),
            i <= n,
            before == set_weight(sets@, i as int),
            before <= draw,
            draw < set_weight(sets@, n as int),
        decreases n - i,
    {
        if draw - before < sets[i].weight {
            return i;
        }
        before = before + sets[i].weight;
        i = i + 1;
    }
    i
}

/// The task set of each of `users` users, in spawn order. Fails, before any
/// user would start, exactly when the task sets cannot run.
pub fn assign_users(sets: &Vec<TaskSet>, users: usize) -> (r: Result<Vec<usize>, SetupError>)
    ensures
        r matches Err(e) ==> setup_error(sets@) == Some(e),
        setup_error(sets@) is None ==> r is Ok,
        r matches Ok(v) ==> v@.len() == users && forall|i: int|
            0 <= i < users ==> assigned_to(sets@, i, #[trigger] v@[i] as int),
{
    let total = match validate_sets(sets) {
        Err(e) => {
            return Err(e);
        },
        Ok(t) => t,
    };
    let mut assigned: Vec<usize> = Vec::new();
    let mut i: usize = 0;
    while i < users
        invariant
            i <= users,
            total == set_weight(sets@, sets@.len() as int),
            total > 0,
            assigned@.len() == i,
            forall|j: int| 0 <= j < i ==> assigned_to(sets@, j, #[trigger] assigned@[j] as int),
        decreases users - i,
    {
        let set = pick_set(sets, (i as u64) % total);
        assigned.push(set);
        i = i + 1;
    }
    Ok(assigned)
}

/// Start offsets of `users` users, in milliseconds: user `i` starts
/// `i / hatch_rate` seconds after the first.
pub fn hatch_offsets(users: u64, hatch_rate: u64) -> (r: Vec<u64>)
    requires
        hatch_rate > 0,
        users <= u64::MAX / 1000,
    ensures
        r@.len() == users,
        forall|i: int| 0 <= i < users ==> #[trigger] r@[i] == hatch_offset(i, hatch_rate as int),
{
    let mut offsets: Vec<u64> = Vec::new();
    let mut i: u64 = 0;
    while i < users
        invariant
            hatch_rate > 0,
            users <= u64::MAX / 1000,
            i <= users,
            offsets@.len() == i,
            forall|j: int| 0 <= j < i ==> #[trigger] offsets@[j] == hatch_offset(j, hatch_rate as int),
        decreases users - i,
    {
        offsets.push(i * 1000 / hatch_rate);
        i = i + 1;
    }
    offsets
}

} // verus!

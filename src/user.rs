use vstd::prelude::*;
use crate::schedule::set_error;
use crate::tasks::{
    expand, in_phase, is_phase_order, lemma_cycle_nonempty, lemma_weighted_choice_unique,
    main_weight, phase_order, sequential_cycle, validate_task_set, weighted_choice, weighted_pick,
    SetupError, Task, TaskPhase, TaskSet,
};

verus! {

/// How a user picks its next main-loop task.
#[derive(PartialEq, Eq, Structural, Clone, Copy, Debug)]
pub enum SelectionPolicy {
    /// Uniform over the weight line; each pick independent of the last.
    WeightedRandom,
    /// The sequential cycle, in order, starting over at its end.
    Sequential,
}

/// Where a virtual user stands. The index counts the tasks already run of
/// the on-start or on-stop list, or is the position in the sequential cycle.
#[derive(PartialEq, Eq, Structural, Clone, Copy, Debug)]
pub enum UserPhase {
    Idle,
    Starting(usize),
    Running(usize),
    Stopping(usize),
    Done,
}

/// What the user's owner does next.
#[derive(PartialEq, Eq, Structural, Clone, Copy, Debug)]
pub enum UserAction {
    /// Run the task at this registration index of the user's task set.
    RunTask(usize),
    /// The user is done: every on-stop task has run.
    Finish,
}

/// Decisions of one virtual user, bound to one task set.
pub struct VirtualUser {
    phase: UserPhase,
    policy: SelectionPolicy,
    start_order: Vec<usize>,
    stop_order: Vec<usize>,
    cycle: Vec<usize>,
    total_weight: u64,
    stop_requested: bool,
    tasks: Ghost<Seq<Task>>,
}

/// Ghost state of a virtual user.
pub struct UserModel {
    pub phase: UserPhase,
    pub policy: SelectionPolicy,
    pub start_order: Seq<usize>,
    pub stop_order: Seq<usize>,
    pub cycle: Seq<usize>,
    pub total_weight: nat,
    pub stop_requested: bool,
    pub tasks: Seq<Task>,
}

/// The phase a user is really in: an idle user starts, a finished start
/// list gives way to the main loop, a stop request is honoured at the top of
/// the main loop, and a finished stop list ends the user.
pub open spec fn settled(u: UserModel) -> UserPhase {
    let p1 = match u.phase {
        UserPhase::Idle => UserPhase::Starting(0),
        p => p,
    };
    let p2 = match p1 {
        UserPhase::Starting(i) => if i >= u.start_order.len() {
            UserPhase::Running(0)
        } else {
            p1
        },
        p => p,
    };
    let p3 = match p2 {
        UserPhase::Running(_) => if u.stop_requested {
            UserPhase::Stopping(0)
        } else {
            p2
        },
        p => p,
    };
    match p3 {
        UserPhase::Stopping(i) => if i >= u.stop_order.len() {
            UserPhase::Done
        } else {
            p3
        },
        p => p,
    }
}

/// The next phase and action of user `u`, with `draw` the random number
/// handed in for a weighted pick.
pub open spec fn user_step(u: UserModel, draw: u64) -> (UserPhase, UserAction) {
    match settled(u) {
        UserPhase::Starting(i) => (UserPhase::Starting((i + 1) as usize), UserAction::RunTask(u.start_order[i as int])),
        UserPhase::Running(s) => match u.policy {
            SelectionPolicy::WeightedRandom => (
                UserPhase::Running(s),
                UserAction::RunTask(weighted_choice(u.tasks, draw as int % u.total_weight as int) as usize),
            ),
            SelectionPolicy::Sequential => (
                UserPhase::Running(((s + 1) % u.cycle.len() as int) as usize),
                UserAction::RunTask(u.cycle[s as int]),
            ),
        },
        UserPhase::Stopping(i) => (UserPhase::Stopping((i + 1) as usize), UserAction::RunTask(u.stop_order[i as int])),
        _ => (UserPhase::Done, UserAction::Finish),
    }
}

impl VirtualUser {
    pub closed spec fn view(&self) -> UserModel {
        UserModel {
            phase: self.phase,
            policy: self.policy,
            start_order: self.start_order@,
            stop_order: self.stop_order@,
            cycle: self.cycle@,
            total_weight: self.total_weight as nat,
            stop_requested: self.stop_requested,
            tasks: self.tasks@,
        }
    }

    /// The orders are those of the task set, the weight line is not empty,
    /// and every index stays within its list.
    pub closed spec fn inv(&self) -> bool {
        &&& is_phase_order(self.tasks@, TaskPhase::OnStart, self.start_order@)
        &&& is_phase_order(self.tasks@, TaskPhase::OnStop, self.stop_order@)
        &&& exists|order: Seq<usize>|
            is_phase_order(self.tasks@, TaskPhase::Main, order) && self.cycle@ == expand(self.tasks@, order)
        &&& self.cycle@.len() > 0
        &&& self.total_weight == main_weight(self.tasks@, self.tasks@.len() as int)
        &&& self.total_weight > 0
        &&& match self.phase {
            UserPhase::Starting(i) => i <= self.start_order@.len(),
            UserPhase::Running(s) => s < self.cycle@.len(),
            UserPhase::Stopping(i) => i <= self.stop_order@.len(),
            _ => true,
        }
    }

    /// An idle user of `set`; fails exactly when the set cannot run.
    pub fn new(set: &TaskSet, policy: SelectionPolicy) -> (r: Result<VirtualUser, SetupError>)
        ensures
            r matches Err(e) ==> set_error(*set, 0) == Some(e),
            r is Ok <==> set_error(*set, 0) is None,
            r matches Ok(u) ==> {
                &&& u.inv()
                &&& u@.phase == UserPhase::Idle
                &&& u@.policy == policy
                &&& !u@.stop_requested
                &&& u@.tasks == set.tasks@
                &&& is_phase_order(set.tasks@, TaskPhase::OnStart, u@.start_order)
                &&& is_phase_order(set.tasks@, TaskPhase::OnStop, u@.stop_order)
                &&& exists|order: Seq<usize>|
                    is_phase_order(set.tasks@, TaskPhase::Main, order) && u@.cycle == expand(set.tasks@, order)
            },
    {
        let total = match validate_task_set(set, 0) {
            Err(e) => {
                return Err(e);
            },
            Ok(w) => w,
        };
        let start_order = phase_order(&set.tasks, TaskPhase::OnStart);
        let stop_order = phase_order(&set.tasks, TaskPhase::OnStop);
        let cycle = sequential_cycle(&set.tasks);
        proof {
            let order = choose|order: Seq<usize>|
                is_phase_order(set.tasks@, TaskPhase::Main, order) && cycle@ == expand(set.tasks@, order);
            lemma_cycle_nonempty(set.tasks@, order);
        }
        Ok(
            VirtualUser {
                phase: UserPhase::Idle,
                policy,
                start_order,
                stop_order,
                cycle,
                total_weight: total,
                stop_requested: false,
                tasks: Ghost(set.tasks@),
            },
        )
    }

    pub fn phase(&self) -> (r: UserPhase)
        ensures
            r == self@.phase,
    {
        self.phase
    }

    /// The broadcast stop signal. It is honoured at the top of the main
    /// loop, after the task in flight.
    pub fn request_stop(&mut self)
        requires
            old(self).inv(),
        ensures
            final(self).inv(),
            final(self)@ == (UserModel { stop_requested: true, ..old(self)@ }),
    {
        self.stop_requested = true;
    }

    /// Decides the next task to run, or that the user is done. `draw` is a
    /// random number used by the weighted policy only.
    pub fn next_action(&mut self, tasks: &Vec<Task>, draw: u64) -> (action: UserAction)
        requires
            old(self).inv(),
            tasks@ == old(self)@.tasks,
        ensures
            final(self).inv(),
            (final(self)@.phase, action) == user_step(old(self)@, draw),
            final(self)@ == (UserModel { phase: final(self)@.phase, ..old(self)@ }),
    {
        if let UserPhase::Idle = self.phase {
            self.phase = UserPhase::Starting(0);
        }
        if let UserPhase::Starting(i) = self.phase {
            if i >= self.start_order.len() {
                self.phase = UserPhase::Running(0);
            }
        }
        if let UserPhase::Running(_) = self.phase {
            if self.stop_requested {
                self.phase = UserPhase::Stopping(0);
            }
        }
        if let UserPhase::Stopping(i) = self.phase {
            if i >= self.stop_order.len() {
                self.phase = UserPhase::Done;
            }
        }
        assert(self.phase == settled(old(self)@));
        match self.phase {
            UserPhase::Starting(i) => {
                self.phase = UserPhase::Starting(i + 1);
                UserAction::RunTask(self.start_order[i])
            },
            UserPhase::Running(s) => match self.policy {
                SelectionPolicy::WeightedRandom => {
                    let r = weighted_pick(tasks, draw % self.total_weight);
                    proof {
                        lemma_weighted_choice_unique(tasks@, (draw % self.total_weight) as int, r as int);
                    }
                    UserAction::RunTask(r)
                },
                SelectionPolicy::Sequential => {
                    let k = self.cycle[s];
                    let next: usize = if s >= self.cycle.len() - 1 {
                        0
                    } else {
                        s + 1
                    };
                    self.phase = UserPhase::Running(next);
                    proof {
                        let len = self.cycle@.len() as int;
                        assert(s < len);
                        if next == 0 {
                            vstd::arithmetic::div_mod::lemma_mod_self_0(len);
                        } else {
                            vstd::arithmetic::div_mod::lemma_small_mod((s + 1) as nat, len as nat);
                        }
                    }
                    UserAction::RunTask(k)
                },
            },
            UserPhase::Stopping(i) => {
                self.phase = UserPhase::Stopping(i + 1);
                UserAction::RunTask(self.stop_order[i])
            },
            _ => {
                self.phase = UserPhase::Done;
                UserAction::Finish
            },
        }
    }
}

} // verus!

use vstd::prelude::*;
use crate::schedule::{assign_users, assigned_to, hatch_offset, hatch_offsets, setup_error};
use crate::tasks::{SetupError, TaskSet};

verus! {

/// Where a run stands.
#[derive(PartialEq, Eq, Structural, Clone, Copy, Debug)]
pub enum RunPhase {
    /// Users are being started, one per hatch interval.
    Hatching,
    /// Every user runs; the run-time timer is on.
    Running,
    /// The stop signal is out; waiting for the users to drain.
    Stopping,
    /// The final snapshot has been asked for.
    Finished,
}

/// What the controller's owner does next.
#[derive(PartialEq, Eq, Structural, Clone, Copy, Debug)]
pub enum ControlAction {
    /// Launch user `user` on task set `task_set`.
    Spawn { user: usize, task_set: usize },
    /// Nothing to do before this time, in milliseconds from the start.
    WaitUntil(u64),
    /// Hatching is over: start the run-time timer, and clear the metrics
    /// first where so configured.
    StartTimer { reset_metrics: bool },
    /// Nothing to do until an interrupt, or until the users have drained.
    Wait,
    /// Broadcast the stop signal to every user.
    StopUsers,
    /// Close the channels and take the final snapshot.
    Collect { users: usize },
}

/// Ghost state of a controller.
pub struct ControlModel {
    pub phase: RunPhase,
    pub spawned: nat,
    pub assignment: Seq<usize>,
    pub offsets: Seq<u64>,
    pub run_time: Option<u64>,
    pub reset_after_hatch: bool,
    pub hatched_at: u64,
}

/// Milliseconds from the start at which a run whose hatching ended at
/// `hatched_at` stops, saturating.
pub open spec fn stop_at(hatched_at: u64, run_time: u64) -> u64 {
    if hatched_at + run_time * 1000 <= u64::MAX {
        (hatched_at + run_time * 1000) as u64
    } else {
        u64::MAX
    }
}

/// The controller's decision at time `now`.
pub open spec fn control_step(c: ControlModel, now: u64) -> (ControlModel, ControlAction) {
    match c.phase {
        RunPhase::Hatching => if c.spawned < c.assignment.len() {
            if now >= c.offsets[c.spawned as int] {
                (
                    ControlModel { spawned: c.spawned + 1, ..c },
                    ControlAction::Spawn { user: c.spawned as usize, task_set: c.assignment[c.spawned as int] },
                )
            } else {
                (c, ControlAction::WaitUntil(c.offsets[c.spawned as int]))
            }
        } else {
            (
                ControlModel { phase: RunPhase::Running, hatched_at: now, ..c },
                ControlAction::StartTimer { reset_metrics: c.reset_after_hatch },
            )
        },
        RunPhase::Running => match c.run_time {
            None => (c, ControlAction::Wait),
            Some(t) => if now >= stop_at(c.hatched_at, t) {
                (ControlModel { phase: RunPhase::Stopping, ..c }, ControlAction::StopUsers)
            } else {
                (c, ControlAction::WaitUntil(stop_at(c.hatched_at, t)))
            },
        },
        _ => (c, ControlAction::Wait),
    }
}

/// Owns the run's lifecycle: ramp-up, run time, stop, drain.
pub struct Controller {
    phase: RunPhase,
    spawned: usize,
    assignment: Vec<usize>,
    offsets: Vec<u64>,
    run_time: Option<u64>,
    reset_after_hatch: bool,
    hatched_at: u64,
}

impl Controller {
    pub closed spec fn view(&self) -> ControlModel {
        ControlModel {
            phase: self.phase,
            spawned: self.spawned as nat,
            assignment: self.assignment@,
            offsets: self.offsets@,
            run_time: self.run_time,
            reset_after_hatch: self.reset_after_hatch,
            hatched_at: self.hatched_at,
        }
    }

    /// One start offset per user, no more users started than there are,
    /// and every user started once the run is past hatching.
    pub closed spec fn inv(&self) -> bool {
        &&& self.offsets@.len() == self.assignment@.len()
        &&& self.spawned <= self.assignment@.len()
        &&& self.phase == RunPhase::Running ==> self.spawned == self.assignment@.len()
    }

    /// A run of `users` users over `sets`, started `hatch_rate` per second,
    /// stopped `run_time` seconds after the last has started (never, where
    /// `None`). Fails before any user starts exactly when the sets cannot run.
    pub fn new(
        sets: &Vec<TaskSet>,
        users: usize,
        hatch_rate: u64,
        run_time: Option<u64>,
        reset_after_hatch: bool,
    ) -> (r: Result<Controller, SetupError>)
        requires
            hatch_rate > 0,
            users <= u64::MAX / 1000,
        ensures
            r matches Err(e) ==> setup_error(sets@) == Some(e),
            setup_error(sets@) is None ==> r is Ok,
            r matches Ok(c) ==> {
                &&& c.inv()
                &&& c@.phase == RunPhase::Hatching
                &&& c@.spawned == 0
                &&& c@.run_time == run_time
                &&& c@.reset_after_hatch == reset_after_hatch
                &&& c@.assignment.len() == users
                &&& forall|i: int| 0 <= i < users ==> assigned_to(sets@, i, #[trigger] c@.assignment[i] as int)
                &&& forall|i: int|
                    0 <= i < users ==> #[trigger] c@.offsets[i] == hatch_offset(i, hatch_rate as int)
            },
    {
        let assignment = match assign_users(sets, users) {
            Err(e) => {
                return Err(e);
            },
            Ok(v) => v,
        };
        let offsets = hatch_offsets(users as u64, hatch_rate);
        Ok(
            Controller {
                phase: RunPhase::Hatching,
                spawned: 0,
                assignment,
                offsets,
                run_time,
                reset_after_hatch,
                hatched_at: 0,
            },
        )
    }

    pub fn phase(&self) -> (r: RunPhase)
        ensures
            r == self@.phase,
    {
        self.phase
    }

    /// Users started so far.
    pub fn spawned(&self) -> (r: usize)
        ensures
            r == self@.spawned,
    {
        self.spawned
    }

    /// Decides what to do at `now`, in milliseconds from the start.
    pub fn on_tick(&mut self, now: u64) -> (action: ControlAction)
        requires
            old(self).inv(),
        ensures
            final(self).inv(),
            (final(self)@, action) == control_step(old(self)@, now),
    {
        match self.phase {
            RunPhase::Hatching => {
                if self.spawned < self.assignment.len() {
                    let due = self.offsets[self.spawned];
                    if now >= due {
                        let user = self.spawned;
                        self.spawned = self.spawned + 1;
                        ControlAction::Spawn { user, task_set: self.assignment[user] }
                    } else {
                        ControlAction::WaitUntil(due)
                    }
                } else {
                    self.phase = RunPhase::Running;
                    self.hatched_at = now;
                    ControlAction::StartTimer { reset_metrics: self.reset_after_hatch }
                }
            },
            RunPhase::Running => match self.run_time {
                None => ControlAction::Wait,
                Some(t) => {
                    let end = match t.checked_mul(1000) {
                        Some(ms) => self.hatched_at.saturating_add(ms),
                        None => u64::MAX,
                    };
                    if now >= end {
                        self.phase = RunPhase::Stopping;
                        ControlAction::StopUsers
                    } else {
                        ControlAction::WaitUntil(end)
                    }
                },
            },
            _ => ControlAction::Wait,
        }
    }

    /// An external interrupt: stop now, whatever the phase, unless the stop
    /// signal is already out.
    pub fn on_interrupt(&mut self) -> (action: ControlAction)
        requires
            old(self).inv(),
        ensures
            final(self).inv(),
            old(self)@.phase == RunPhase::Hatching || old(self)@.phase == RunPhase::Running ==> action
                == ControlAction::StopUsers && final(self)@ == (ControlModel {
                phase: RunPhase::Stopping,
                ..old(self)@
            }),
            old(self)@.phase == RunPhase::Stopping || old(self)@.phase == RunPhase::Finished ==> action
                == ControlAction::Wait && final(self)@ == old(self)@,
    {
        match self.phase {
            RunPhase::Hatching | RunPhase::Running => {
                self.phase = RunPhase::Stopping;
                ControlAction::StopUsers
            },
            _ => ControlAction::Wait,
        }
    }

    /// Every user loop has exited: collect the final snapshot.
    pub fn on_drained(&mut self) -> (action: ControlAction)
        requires
            old(self).inv(),
        ensures
            final(self).inv(),
            old(self)@.phase == RunPhase::Stopping ==> action == (ControlAction::Collect {
                users: old(self)@.spawned as usize,
            }) && final(self)@ == (ControlModel { phase: RunPhase::Finished, ..old(self)@ }),
            old(self)@.phase != RunPhase::Stopping ==> action == ControlAction::Wait && final(self)@
                == old(self)@,
    {
        match self.phase {
            RunPhase::Stopping => {
                self.phase = RunPhase::Finished;
                ControlAction::Collect { users: self.spawned }
            },
            _ => ControlAction::Wait,
        }
    }
}

/// Once hatching is over, exactly the configured number of users has been
/// started, whatever the hatch rate.
pub proof fn lemma_all_users_spawned(c: &Controller)
    requires
        c.inv(),
        c@.phase == RunPhase::Running,
    ensures
        c@.spawned == c@.assignment.len(),
{
}

} // verus!

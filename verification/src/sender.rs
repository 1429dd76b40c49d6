//! The sender's pacing, as a state machine.
//!
//! The sender runs the phases of its schedule one after the other. In each
//! phase it sends the phase's number of records and pauses after every one
//! of them. The machine decides what comes next; the caller does the work
//! (stamping, writing, sleeping) and reports back how it went.

use vstd::prelude::*;
use crate::experiment::PhaseConfig;

verus! {

/// What the caller reports to the machine.
#[derive(Debug, Clone, Copy, PartialEq, Eq, Structural)]
pub enum SenderEvent {
    /// The connection is up: the run may begin.
    Start,
    /// The frame of the last `Send` was written.
    Sent,
    /// The frame of the last `Send` could not be written.
    SendFailed,
    /// The pause of the last `Sleep` is over.
    Woke,
}

/// What the machine asks of the caller.
#[derive(Debug, Clone, Copy, PartialEq, Eq, Structural)]
pub enum SenderAction {
    /// Stamp, frame and write one record of the given phase, then report
    /// `Sent` or `SendFailed`.
    Send(PhaseConfig),
    /// Pause for so many microseconds, then report `Woke`.
    Sleep { micros: u64 },
    /// Every phase has run: stop.
    Finish,
    /// The run has failed: stop.
    Abort,
}

/// Where a run stands. `Sending(k)` and `Sleeping(k)` count the sends of the
/// whole run from zero.
pub enum SenderState {
    Idle,
    Sending(nat),
    Sleeping(nat),
    Finished,
    Aborted,
}

/// How many records the phases before `phase` send together.
pub open spec fn sends_before(schedule: Seq<PhaseConfig>, phase: int) -> nat
    decreases phase,
{
    if phase <= 0 {
        0
    } else {
        sends_before(schedule, phase - 1) + schedule[phase - 1].iteration_count as nat
    }
}

/// The row of every send of a run, in order: each row of the schedule as
/// many times as its count says, the rows in the schedule's order.
pub open spec fn send_plan(schedule: Seq<PhaseConfig>) -> Seq<PhaseConfig>
    decreases schedule.len(),
{
    if schedule.len() == 0 {
        Seq::empty()
    } else {
        send_plan(schedule.drop_last()) + Seq::new(
            schedule.last().iteration_count as nat,
            |i: int| schedule.last(),
        )
    }
}

/// The state and the action with which send number `next` begins, or with
/// which the run ends if the plan has no such send.
pub open spec fn begin_send(plan: Seq<PhaseConfig>, next: nat) -> (SenderState, SenderAction) {
    if next < plan.len() {
        (SenderState::Sending(next), SenderAction::Send(plan[next as int]))
    } else {
        (SenderState::Finished, SenderAction::Finish)
    }
}

/// The machine's rule: the next state and the action for a state and an
/// event. A write that fails aborts the run, and so does an event that the
/// state does not expect. `Finished` and `Aborted` are final.
pub open spec fn spec_step(schedule: Seq<PhaseConfig>, state: SenderState, event: SenderEvent) -> (
    SenderState,
    SenderAction,
) {
    let plan = send_plan(schedule);
    match (state, event) {
        (SenderState::Idle, SenderEvent::Start) => begin_send(plan, 0),
        (SenderState::Sending(k), SenderEvent::Sent) => (
            SenderState::Sleeping(k),
            SenderAction::Sleep { micros: plan[k as int].interval_micros },
        ),
        (SenderState::Sleeping(k), SenderEvent::Woke) => begin_send(plan, k + 1),
        (SenderState::Finished, _) => (SenderState::Finished, SenderAction::Finish),
        _ => (SenderState::Aborted, SenderAction::Abort),
    }
}

/// The report that a state waits for from a caller whose work succeeds.
pub open spec fn awaited(state: SenderState) -> SenderEvent {
    match state {
        SenderState::Sending(_) => SenderEvent::Sent,
        SenderState::Sleeping(_) => SenderEvent::Woke,
        _ => SenderEvent::Start,
    }
}

/// The state and the action after step number `step`, counted from zero,
/// of a run in which every report is the awaited one.
pub open spec fn undisturbed(schedule: Seq<PhaseConfig>, step: nat) -> (SenderState, SenderAction)
    decreases step,
{
    let before = if step == 0 {
        SenderState::Idle
    } else {
        undisturbed(schedule, (step - 1) as nat).0
    };
    spec_step(schedule, before, awaited(before))
}

/// A run that nothing disturbs asks for every send of the plan, in the
/// plan's order, and for the pause of each send right behind it.
pub proof fn lemma_undisturbed_send(schedule: Seq<PhaseConfig>, k: nat)
    requires
        k < send_plan(schedule).len(),
    ensures
        undisturbed(schedule, 2 * k) == (
            SenderState::Sending(k),
            SenderAction::Send(send_plan(schedule)[k as int]),
        ),
        undisturbed(schedule, 2 * k + 1) == (
            SenderState::Sleeping(k),
            SenderAction::Sleep { micros: send_plan(schedule)[k as int].interval_micros },
        ),
    decreases k,
{
    if k > 0 {
        lemma_undisturbed_send(schedule, (k - 1) as nat);
    }
}

/// A run that nothing disturbs finishes right behind the pause of the last
/// send of the plan, or at once if the plan is empty.
pub proof fn lemma_undisturbed_finish(schedule: Seq<PhaseConfig>)
    ensures
        undisturbed(schedule, 2 * send_plan(schedule).len()) == (
            SenderState::Finished,
            SenderAction::Finish,
        ),
{
    let sends = send_plan(schedule).len();
    if sends > 0 {
        lemma_undisturbed_send(schedule, (sends - 1) as nat);
    }
}

/// Phases that send nothing do not move the count.
pub proof fn lemma_empty_phases(schedule: Seq<PhaseConfig>, from: int, to: int)
    requires
        0 <= from <= to,
        forall|p: int| from <= p < to ==> (#[trigger] schedule[p]).iteration_count == 0,
    ensures
        sends_before(schedule, to) == sends_before(schedule, from),
    decreases to,
{
    if from < to {
        lemma_empty_phases(schedule, from, to - 1);
    }
}

/// The part of a schedule before a phase counts as the whole does.
proof fn lemma_sends_before_prefix(schedule: Seq<PhaseConfig>, phase: int)
    requires
        0 <= phase < schedule.len(),
    ensures
        sends_before(schedule.drop_last(), phase) == sends_before(schedule, phase),
    decreases phase,
{
    if phase > 0 {
        lemma_sends_before_prefix(schedule, phase - 1);
    }
}

/// The plan holds one send for each count of each phase, and nothing else.
pub proof fn lemma_plan_len(schedule: Seq<PhaseConfig>)
    ensures
        send_plan(schedule).len() == sends_before(schedule, schedule.len() as int),
    decreases schedule.len(),
{
    if schedule.len() > 0 {
        lemma_plan_len(schedule.drop_last());
        lemma_sends_before_prefix(schedule, schedule.len() - 1);
    }
}

/// Within the plan the sends of a phase stand together, behind those of
/// the phases before it, and each of them has the phase's row.
pub proof fn lemma_plan_of_phase(schedule: Seq<PhaseConfig>, phase: int, iteration: int)
    requires
        0 <= phase < schedule.len(),
        0 <= iteration < schedule[phase].iteration_count,
    ensures
        sends_before(schedule, phase) + iteration < send_plan(schedule).len(),
        send_plan(schedule)[sends_before(schedule, phase) + iteration] == schedule[phase],
    decreases schedule.len(),
{
    lemma_plan_len(schedule.drop_last());
    lemma_sends_before_prefix(schedule, phase);
    if phase < schedule.len() - 1 {
        lemma_plan_of_phase(schedule.drop_last(), phase, iteration);
    }
}

#[derive(Debug, Clone, Copy, PartialEq, Eq, Structural)]
enum Stage {
    Idle,
    Sending,
    Sleeping,
    Finished,
    Aborted,
}

/// The sender's state machine over a schedule.
pub struct Pacer {
    schedule: Vec<PhaseConfig>,
    phase: usize,
    iteration: u32,
    stage: Stage,
}

impl Pacer {
    #[verifier::type_invariant]
    spec fn within_phase(self) -> bool {
        (self.stage == Stage::Sending || self.stage == Stage::Sleeping) ==> self.phase
            < self.schedule@.len() && self.iteration < self.schedule@[self.phase as int].iteration_count
    }

    /// The schedule that the machine runs.
    pub closed spec fn schedule(&self) -> Seq<PhaseConfig> {
        self.schedule@
    }

    /// Where the run stands.
    pub closed spec fn state(&self) -> SenderState {
        let sent = sends_before(self.schedule@, self.phase as int) + self.iteration as nat;
        match self.stage {
            Stage::Idle => SenderState::Idle,
            Stage::Sending => SenderState::Sending(sent),
            Stage::Sleeping => SenderState::Sleeping(sent),
            Stage::Finished => SenderState::Finished,
            Stage::Aborted => SenderState::Aborted,
        }
    }

    /// A machine that has not begun its run.
    pub fn new(schedule: Vec<PhaseConfig>) -> (pacer: Self)
        ensures
            pacer.schedule() == schedule@,
            pacer.state() == SenderState::Idle,
    {
        Pacer { schedule, phase: 0, iteration: 0, stage: Stage::Idle }
    }

    /// Begins the first send of the first phase from `from` on that sends
    /// anything, or ends the run if there is none.
    fn enter(&mut self, from: usize) -> (action: SenderAction)
        requires
            from <= old(self).schedule@.len(),
            old(self).stage == Stage::Idle,
        ensures
            final(self).schedule@ == old(self).schedule@,
            (final(self).state(), action) == begin_send(
                send_plan(old(self).schedule@),
                sends_before(old(self).schedule@, from as int),
            ),
    {
        let ghost rows = self.schedule@;
        let mut phase = from;
        while phase < self.schedule.len() && self.schedule[phase].iteration_count == 0
            invariant
                from <= phase <= rows.len(),
                self.schedule@ == rows,
                self.stage == Stage::Idle,
                forall|p: int| from <= p < phase ==> (#[trigger] rows[p]).iteration_count == 0,
            decreases rows.len() - phase,
        {
            phase = phase + 1;
        }
        proof {
            lemma_empty_phases(rows, from as int, phase as int);
            lemma_plan_len(rows);
        }
        self.phase = phase;
        self.iteration = 0;
        if phase < self.schedule.len() {
            proof {
                lemma_plan_of_phase(rows, phase as int, 0);
            }
            self.stage = Stage::Sending;
            SenderAction::Send(self.schedule[phase])
        } else {
            self.stage = Stage::Finished;
            SenderAction::Finish
        }
    }

    /// Takes the caller's report and says what to do next.
    pub fn step(&mut self, event: SenderEvent) -> (action: SenderAction)
        ensures
            final(self).schedule() == old(self).schedule(),
            (final(self).state(), action) == spec_step(
                old(self).schedule(),
                old(self).state(),
                event,
            ),
    {
        proof {
            use_type_invariant(&*self);
        }
        let ghost rows = self.schedule@;
        match (self.stage, event) {
            (Stage::Idle, SenderEvent::Start) => self.enter(0),
            (Stage::Sending, SenderEvent::Sent) => {
                proof {
                    lemma_plan_of_phase(rows, self.phase as int, self.iteration as int);
                }
                self.stage = Stage::Sleeping;
                SenderAction::Sleep { micros: self.schedule[self.phase].interval_micros }
            },
            (Stage::Sleeping, SenderEvent::Woke) => {
                let phase = self.phase;
                let done = self.iteration + 1;
                self.stage = Stage::Idle;
                if done < self.schedule[phase].iteration_count {
                    proof {
                        lemma_plan_of_phase(rows, phase as int, done as int);
                    }
                    self.iteration = done;
                    self.stage = Stage::Sending;
                    SenderAction::Send(self.schedule[phase])
                } else {
                    assert(phase < self.schedule.len());
                    self.enter(phase + 1)
                }
            },
            (Stage::Finished, _) => SenderAction::Finish,
            _ => {
                self.stage = Stage::Aborted;
                SenderAction::Abort
            },
        }
    }

    /// Whether the run has ended, well or badly.
    pub fn is_over(&self) -> (over: bool)
        ensures
            over <==> self.state() is Finished || self.state() is Aborted,
    {
        self.stage == Stage::Finished || self.stage == Stage::Aborted
    }
}

} // verus!

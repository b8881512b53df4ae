//! Actuator sequencer: the timed state machine that drives the motor
//! driver through one extend/retract cycle per command.
//!
//! A cycle is a fixed plan: optionally energize the driver enable line,
//! drive the direction pins to the extend configuration, hold for the
//! configured dwell, drive them to the retract configuration, hold for
//! the same dwell, and return them to neutral (de-energizing the enable
//! line again if it was toggled). Whether the enable line is toggled
//! per cycle or left energized for the device's lifetime is a deployment
//! choice, carried as a configuration flag.
//!
//! Pin writes are performed by the hardware layer and can fail; a fault
//! at any step aborts the remaining steps immediately and returns the
//! sequencer to `Idle` — the cycle is never retried, and the next queued
//! command starts its own clean cycle. The module models the hardware's
//! write outcomes as a script of per-write fault bits, so every claim
//! below holds for every possible pattern of hardware faults.

use vstd::prelude::*;

use crate::channel::CommandChannel;
use crate::command::Command;

verus! {

/// Phase of the actuation cycle, owned by the worker context alone.
/// Transitions are strictly `Idle -> Extending -> Retracting -> Idle`,
/// with a pin fault sending any phase straight back to `Idle`.
#[derive(Clone, Copy, PartialEq, Eq, Structural, Debug)]
pub enum MotorState {
    Idle,
    Extending,
    Retracting,
}

/// Configuration of the two direction pins: `Extend` is pin A high and
/// pin B low, `Retract` is pin A low and pin B high, `Neutral` is both
/// pins low (the de-energized fail-safe level).
#[derive(Clone, Copy, PartialEq, Eq, Structural, Debug)]
pub enum PinConfig {
    Extend,
    Retract,
    Neutral,
}

/// One elementary action of a cycle, in the order the worker hands them
/// to the hardware layer.
#[derive(Clone, Copy, PartialEq, Eq, Structural, Debug)]
pub enum SeqAction {
    /// Energize the driver enable line (a pin write).
    EnableOn,
    /// De-energize the driver enable line (a pin write).
    EnableOff,
    /// Drive the direction pins to the given configuration (a pin write).
    SetPins(PinConfig),
    /// Hold the current configuration for this many milliseconds. The
    /// wait blocks only the worker context and cannot fail.
    Dwell(u64),
}

/// Error reported by a cycle that a pin-write fault aborted.
#[derive(Clone, Copy, PartialEq, Eq, Structural, Debug)]
pub struct ActuationError;

/// Deployment configuration of the sequencer: the dwell held in each
/// direction phase, and whether the enable line is toggled per cycle or
/// left energized for the device's lifetime.
#[derive(Clone, Copy, PartialEq, Eq, Structural, Debug)]
pub struct SequencerConfig {
    pub dwell_ms: u64,
    pub toggle_enable: bool,
}

/// Whether an action is a pin write, which the hardware can fail, as
/// opposed to a timed hold, which cannot.
pub open spec fn is_pin_write(a: SeqAction) -> bool {
    !(a is Dwell)
}

/// Outcome of the pin write numbered `i` under fault script `fs`: true
/// means the write fails. Writes beyond the script's end succeed.
pub open spec fn fails_at(fs: Seq<bool>, i: nat) -> bool {
    i < fs.len() && fs[i as int]
}

/// Script cursor after consuming the outcome numbered `i`.
pub open spec fn advance(fs: Seq<bool>, i: nat) -> nat {
    if i < fs.len() {
        i + 1
    } else {
        i
    }
}

/// What performing `acts` under fault script `fs` from cursor `cur`
/// does: the actions actually performed (the failed write performs
/// nothing and aborts the rest), the cursor after the consumed writes,
/// and whether every write succeeded.
pub open spec fn spec_perform(acts: Seq<SeqAction>, fs: Seq<bool>, cur: nat) -> (
    Seq<SeqAction>,
    nat,
    bool,
)
    decreases acts.len(),
{
    if acts.len() == 0 {
        (Seq::<SeqAction>::empty(), cur, true)
    } else if !is_pin_write(acts[0]) {
        let rest = spec_perform(acts.drop_first(), fs, cur);
        (seq![acts[0]] + rest.0, rest.1, rest.2)
    } else if fails_at(fs, cur) {
        (Seq::<SeqAction>::empty(), advance(fs, cur), false)
    } else {
        let rest = spec_perform(acts.drop_first(), fs, advance(fs, cur));
        (seq![acts[0]] + rest.0, rest.1, rest.2)
    }
}

/// A script of pin-write outcomes, standing for the hardware layer:
/// entry `i` says whether the `i`-th pin write of the run fails. Writes
/// past the end of the script succeed, so the empty script is the
/// fault-free hardware.
pub struct FaultScript {
    pub faults: Vec<bool>,
    pub next: usize,
}

impl FaultScript {
    /// Fault-free hardware: every pin write succeeds.
    pub fn none() -> (s: Self)
        ensures
            s.faults@ == Seq::<bool>::empty(),
            s.next == 0,
    {
        FaultScript { faults: Vec::new(), next: 0 }
    }

    /// Hardware whose pin writes fail exactly at the true entries.
    pub fn new(faults: Vec<bool>) -> (s: Self)
        ensures
            s.faults@ == faults@,
            s.next == 0,
    {
        FaultScript { faults, next: 0 }
    }

    /// Outcome of the next pin write: true means the write succeeded.
    pub fn next_outcome(&mut self) -> (ok: bool)
        ensures
            ok == !fails_at(old(self).faults@, old(self).next as nat),
            final(self).faults@ == old(self).faults@,
            final(self).next as nat == advance(old(self).faults@, old(self).next as nat),
    {
        if self.next < self.faults.len() {
            let fails = self.faults[self.next];
            self.next = self.next + 1;
            !fails
        } else {
            true
        }
    }
}

/// Perform the actions of `acts` in order against the hardware script:
/// append each performed action to `trace`, abort at the first failed
/// pin write, and say whether every write succeeded.
fn perform(acts: &Vec<SeqAction>, script: &mut FaultScript, trace: &mut Vec<SeqAction>) -> (ok:
    bool)
    ensures
        ({
            let out = spec_perform(acts@, old(script).faults@, old(script).next as nat);
            &&& ok == out.2
            &&& final(trace)@ == old(trace)@ + out.0
            &&& final(script).faults@ == old(script).faults@
            &&& final(script).next as nat == out.1
        }),
{
    let ghost fs0 = script.faults@;
    let ghost cur0 = script.next as nat;
    let ghost trace0 = trace@;
    let mut i: usize = 0;
    proof {
        assert(acts@.skip(0) =~= acts@);
        assert(trace@.skip(trace0.len() as int) =~= Seq::<SeqAction>::empty());
        assert(trace@.take(trace0.len() as int) =~= trace0);
        let total = spec_perform(acts@, fs0, cur0);
        assert(total.0 =~= Seq::<SeqAction>::empty() + total.0);
    }
    #[verifier::loop_isolation(false)]
    while i < acts.len()
        invariant
            i <= acts@.len(),
            script.faults@ == fs0,
            trace0.len() <= trace@.len(),
            trace@.take(trace0.len() as int) == trace0,
            ({
                let total = spec_perform(acts@, fs0, cur0);
                let rest = spec_perform(acts@.skip(i as int), fs0, script.next as nat);
                let done = trace@.skip(trace0.len() as int);
                &&& total.0 == done + rest.0
                &&& total.1 == rest.1
                &&& total.2 == rest.2
            }),
        decreases acts@.len() - i,
    {
        proof {
            assert(acts@.skip(i as int).drop_first() =~= acts@.skip(i as int + 1));
            assert(acts@.skip(i as int)[0] == acts@[i as int]);
        }
        let a = acts[i];
        match a {
            SeqAction::Dwell(_) => {
                trace.push(a);
            },
            _ => {
                let ghost cur_pre = script.next as nat;
                let write_ok = script.next_outcome();
                if !write_ok {
                    proof {
                        let total = spec_perform(acts@, fs0, cur0);
                        let rest_pre = spec_perform(acts@.skip(i as int), fs0, cur_pre);
                        assert(is_pin_write(acts@.skip(i as int)[0]));
                        assert(fails_at(fs0, cur_pre));
                        assert(rest_pre.0 == Seq::<SeqAction>::empty());
                        assert(rest_pre.1 == advance(fs0, cur_pre));
                        assert(!rest_pre.2);
                        let done = trace@.skip(trace0.len() as int);
                        assert(done + Seq::<SeqAction>::empty() =~= done);
                        assert(trace@ =~= trace0 + done);
                        assert(total.0 == done);
                    }
                    return false;
                }
                trace.push(a);
            },
        }
        proof {
            let done_old = trace@.drop_last().skip(trace0.len() as int);
            let done_new = trace@.skip(trace0.len() as int);
            assert(done_new =~= done_old + seq![a]);
            let rest_new = spec_perform(acts@.skip(i as int + 1), fs0, script.next as nat);
            assert(done_old + (seq![a] + rest_new.0) =~= done_new + rest_new.0);
            assert(trace@.take(trace0.len() as int) =~= trace0);
        }
        i = i + 1;
    }
    proof {
        assert(acts@.skip(i as int) =~= Seq::<SeqAction>::empty());
        let total = spec_perform(acts@, fs0, cur0);
        let done = trace@.skip(trace0.len() as int);
        assert(done + Seq::<SeqAction>::empty() =~= done);
        assert(trace@ =~= trace0 + done);
    }
    true
}

/// The enable-line action opening a cycle: present only when the
/// deployment toggles the enable line per cycle.
pub open spec fn enable_on_prefix(cfg: SequencerConfig) -> Seq<SeqAction> {
    if cfg.toggle_enable {
        seq![SeqAction::EnableOn]
    } else {
        Seq::<SeqAction>::empty()
    }
}

/// The enable-line action closing a cycle, mirroring `enable_on_prefix`.
pub open spec fn enable_off_suffix(cfg: SequencerConfig) -> Seq<SeqAction> {
    if cfg.toggle_enable {
        seq![SeqAction::EnableOff]
    } else {
        Seq::<SeqAction>::empty()
    }
}

/// The fixed plan of one actuation cycle: extend, hold for the dwell,
/// retract, hold for the same dwell, back to neutral — wrapped in the
/// enable-line toggles when the deployment uses them.
pub open spec fn spec_cycle_plan(cfg: SequencerConfig) -> Seq<SeqAction> {
    enable_on_prefix(cfg) + seq![
        SeqAction::SetPins(PinConfig::Extend),
        SeqAction::Dwell(cfg.dwell_ms),
        SeqAction::SetPins(PinConfig::Retract),
        SeqAction::Dwell(cfg.dwell_ms),
        SeqAction::SetPins(PinConfig::Neutral),
    ] + enable_off_suffix(cfg)
}

/// Build the plan of one cycle as the worker executes it.
pub fn cycle_plan(cfg: &SequencerConfig) -> (p: Vec<SeqAction>)
    ensures
        p@ == spec_cycle_plan(*cfg),
{
    let mut p: Vec<SeqAction> = Vec::new();
    if cfg.toggle_enable {
        p.push(SeqAction::EnableOn);
    }
    p.push(SeqAction::SetPins(PinConfig::Extend));
    p.push(SeqAction::Dwell(cfg.dwell_ms));
    p.push(SeqAction::SetPins(PinConfig::Retract));
    p.push(SeqAction::Dwell(cfg.dwell_ms));
    p.push(SeqAction::SetPins(PinConfig::Neutral));
    if cfg.toggle_enable {
        p.push(SeqAction::EnableOff);
    }
    proof {
        assert(p@ =~= spec_cycle_plan(*cfg));
    }
    p
}

/// The phase after feeding `ev` to a sequencer in phase `s`: commands
/// start a cycle only from `Idle`, elapsed phases move the cycle
/// forward, and a pin fault resets any phase straight to `Idle`.
pub open spec fn next_state(s: MotorState, ev: SeqEvent) -> MotorState {
    match ev {
        SeqEvent::PinFault => MotorState::Idle,
        SeqEvent::CommandReady => if s is Idle {
            MotorState::Extending
        } else {
            s
        },
        SeqEvent::PhaseElapsed => match s {
            MotorState::Idle => MotorState::Idle,
            MotorState::Extending => MotorState::Retracting,
            MotorState::Retracting => MotorState::Idle,
        },
    }
}

/// The actions a sequencer in phase `s` hands to the hardware layer on
/// event `ev`. An aborting fault emits nothing: the direction pins
/// default low in hardware, so the abandoned configuration fails safe.
pub open spec fn step_actions(cfg: SequencerConfig, s: MotorState, ev: SeqEvent) -> Seq<
    SeqAction,
> {
    match ev {
        SeqEvent::PinFault => Seq::<SeqAction>::empty(),
        SeqEvent::CommandReady => if s is Idle {
            enable_on_prefix(cfg) + seq![
                SeqAction::SetPins(PinConfig::Extend),
                SeqAction::Dwell(cfg.dwell_ms),
            ]
        } else {
            Seq::<SeqAction>::empty()
        },
        SeqEvent::PhaseElapsed => match s {
            MotorState::Idle => Seq::<SeqAction>::empty(),
            MotorState::Extending => seq![
                SeqAction::SetPins(PinConfig::Retract),
                SeqAction::Dwell(cfg.dwell_ms),
            ],
            MotorState::Retracting => seq![SeqAction::SetPins(PinConfig::Neutral)]
                + enable_off_suffix(cfg),
        },
    }
}

/// Event fed to the sequencer by the worker: a command became ready
/// while idle, the current phase's dwell elapsed, or a pin write failed.
#[derive(Clone, Copy, PartialEq, Eq, Structural, Debug)]
pub enum SeqEvent {
    CommandReady,
    PhaseElapsed,
    PinFault,
}

/// The timed state machine of the actuator. The worker context owns it
/// exclusively; no other component reads or mutates the phase.
pub struct Sequencer {
    pub cfg: SequencerConfig,
    pub state: MotorState,
}

impl Sequencer {
    /// A sequencer at rest.
    pub fn new(cfg: SequencerConfig) -> (s: Self)
        ensures
            s.cfg == cfg,
            s.state is Idle,
    {
        Sequencer { cfg, state: MotorState::Idle }
    }

    /// Feed one event to the state machine and collect the actions the
    /// hardware layer must perform next. This is the non-blocking,
    /// timer-driven form of the cycle: each dwell comes back as an
    /// explicit `Dwell` action instead of a wait inside the call.
    pub fn step(&mut self, ev: SeqEvent) -> (acts: Vec<SeqAction>)
        ensures
            final(self).cfg == old(self).cfg,
            final(self).state == next_state(old(self).state, ev),
            acts@ == step_actions(old(self).cfg, old(self).state, ev),
    {
        let mut acts: Vec<SeqAction> = Vec::new();
        match ev {
            SeqEvent::PinFault => {
                self.state = MotorState::Idle;
            },
            SeqEvent::CommandReady => {
                match self.state {
                    MotorState::Idle => {
                        if self.cfg.toggle_enable {
                            acts.push(SeqAction::EnableOn);
                        }
                        acts.push(SeqAction::SetPins(PinConfig::Extend));
                        acts.push(SeqAction::Dwell(self.cfg.dwell_ms));
                        self.state = MotorState::Extending;
                    },
                    _ => {},
                }
            },
            SeqEvent::PhaseElapsed => {
                match self.state {
                    MotorState::Idle => {},
                    MotorState::Extending => {
                        acts.push(SeqAction::SetPins(PinConfig::Retract));
                        acts.push(SeqAction::Dwell(self.cfg.dwell_ms));
                        self.state = MotorState::Retracting;
                    },
                    MotorState::Retracting => {
                        acts.push(SeqAction::SetPins(PinConfig::Neutral));
                        if self.cfg.toggle_enable {
                            acts.push(SeqAction::EnableOff);
                        }
                        self.state = MotorState::Idle;
                    },
                }
            },
        }
        proof {
            assert(acts@ =~= step_actions(old(self).cfg, old(self).state, ev));
        }
        acts
    }

    /// Run one full actuation cycle against the hardware script,
    /// appending every performed action to `trace`. A pin-write fault
    /// aborts the remaining steps immediately — the cycle is not
    /// retried — and either way the sequencer is back at `Idle` when
    /// the call returns.
    pub fn run_once_cycle(&mut self, script: &mut FaultScript, trace: &mut Vec<SeqAction>) -> (r:
        Result<(), ActuationError>)
        requires
            old(self).state is Idle,
        ensures
            final(self).cfg == old(self).cfg,
            final(self).state is Idle,
            ({
                let out = spec_perform(
                    spec_cycle_plan(old(self).cfg),
                    old(script).faults@,
                    old(script).next as nat,
                );
                &&& (r is Ok) == out.2
                &&& final(trace)@ == old(trace)@ + out.0
                &&& final(script).faults@ == old(script).faults@
                &&& final(script).next as nat == out.1
            }),
    {
        let plan = cycle_plan(&self.cfg);
        let ok = perform(&plan, script, trace);
        if ok {
            Ok(())
        } else {
            Err(ActuationError)
        }
    }
}

/// One cycle is exactly what the step machine emits on the event run of
/// a single command: start on `CommandReady`, advance on two elapsed
/// phases. The blocking plan and the timer-driven machine describe the
/// same cycle.
pub proof fn lemma_plan_matches_steps(cfg: SequencerConfig)
    ensures
        spec_cycle_plan(cfg) == step_actions(cfg, MotorState::Idle, SeqEvent::CommandReady)
            + step_actions(cfg, MotorState::Extending, SeqEvent::PhaseElapsed) + step_actions(
            cfg,
            MotorState::Retracting,
            SeqEvent::PhaseElapsed,
        ),
        next_state(
            next_state(
                next_state(MotorState::Idle, SeqEvent::CommandReady),
                SeqEvent::PhaseElapsed,
            ),
            SeqEvent::PhaseElapsed,
        ) is Idle,
{
    assert(spec_cycle_plan(cfg) =~= step_actions(cfg, MotorState::Idle, SeqEvent::CommandReady)
        + step_actions(cfg, MotorState::Extending, SeqEvent::PhaseElapsed) + step_actions(
        cfg,
        MotorState::Retracting,
        SeqEvent::PhaseElapsed,
    ));
}

/// What the worker does with `k` queued commands: each runs one full
/// cycle against the same hardware script, strictly one after another.
pub open spec fn spec_worker(cfg: SequencerConfig, k: nat, fs: Seq<bool>, cur: nat) -> (
    Seq<SeqAction>,
    nat,
)
    decreases k,
{
    if k == 0 {
        (Seq::<SeqAction>::empty(), cur)
    } else {
        let c = spec_perform(spec_cycle_plan(cfg), fs, cur);
        let rest = spec_worker(cfg, (k - 1) as nat, fs, c.1);
        (c.0 + rest.0, rest.1)
    }
}

/// Drain the command channel: run one full cycle per queued command, in
/// submission order, each cycle completing or aborting before the next
/// one starts. An aborted cycle is not retried; the next command begins
/// its own clean cycle from `Idle`. Returns how many commands were
/// consumed. (The real worker then blocks for the next submission; the
/// model stops at the drained queue instead.)
pub fn run_pending(
    sequencer: &mut Sequencer,
    chan: &mut CommandChannel,
    script: &mut FaultScript,
    trace: &mut Vec<SeqAction>,
) -> (n: usize)
    requires
        old(sequencer).state is Idle,
    ensures
        n as nat == old(chan).queue@.len(),
        final(chan).queue@.len() == 0,
        final(chan).closed == old(chan).closed,
        final(sequencer).cfg == old(sequencer).cfg,
        final(sequencer).state is Idle,
        ({
            let out = spec_worker(
                old(sequencer).cfg,
                old(chan).queue@.len(),
                old(script).faults@,
                old(script).next as nat,
            );
            &&& final(trace)@ == old(trace)@ + out.0
            &&& final(script).faults@ == old(script).faults@
            &&& final(script).next as nat == out.1
        }),
{
    let qlen = chan.queue.len();
    let ghost q0 = chan.queue@;
    let ghost fs0 = script.faults@;
    let ghost cur0 = script.next as nat;
    let ghost trace0 = trace@;
    let ghost cfg0 = sequencer.cfg;
    let mut n: usize = 0;
    proof {
        assert(q0.skip(0) =~= q0);
        assert(trace@.skip(trace0.len() as int) =~= Seq::<SeqAction>::empty());
        assert(trace@.take(trace0.len() as int) =~= trace0);
        let total = spec_worker(cfg0, q0.len(), fs0, cur0);
        assert(total.0 =~= Seq::<SeqAction>::empty() + total.0);
    }
    #[verifier::loop_isolation(false)]
    while chan.queue.len() > 0
        invariant
            q0.len() == qlen as nat,
            n <= qlen,
            chan.queue@ == q0.skip(n as int),
            chan.closed == old(chan).closed,
            sequencer.cfg == cfg0,
            sequencer.state is Idle,
            script.faults@ == fs0,
            trace0.len() <= trace@.len(),
            trace@.take(trace0.len() as int) == trace0,
            ({
                let total = spec_worker(cfg0, q0.len(), fs0, cur0);
                let rest = spec_worker(cfg0, (q0.len() - n) as nat, fs0, script.next as nat);
                let done = trace@.skip(trace0.len() as int);
                &&& total.0 == done + rest.0
                &&& total.1 == rest.1
            }),
        decreases chan.queue@.len(),
    {
        let ghost cur_pre = script.next as nat;
        let ghost done_pre = trace@.skip(trace0.len() as int);
        let command = chan.receive().unwrap();
        match command {
            Command::Open => {
                let _ = sequencer.run_once_cycle(script, trace);
            },
        }
        proof {
            assert(q0.skip(n as int).drop_first() =~= q0.skip(n as int + 1));
            let c = spec_perform(spec_cycle_plan(cfg0), fs0, cur_pre);
            let rest_new = spec_worker(cfg0, (q0.len() - n - 1) as nat, fs0, script.next as nat);
            let done_new = trace@.skip(trace0.len() as int);
            assert(done_new =~= done_pre + c.0);
            assert(done_pre + (c.0 + rest_new.0) =~= done_new + rest_new.0);
            assert(trace@.take(trace0.len() as int) =~= trace0);
        }
        n = n + 1;
    }
    proof {
        assert(q0.skip(n as int).len() == 0);
        let total = spec_worker(cfg0, q0.len(), fs0, cur0);
        let done = trace@.skip(trace0.len() as int);
        assert(done + Seq::<SeqAction>::empty() =~= done);
        assert(trace@ =~= trace0 + done);
    }
    n
}

/// Fault-free hardware performs a run of actions in full: nothing is
/// dropped, nothing added, and the run succeeds.
pub proof fn lemma_perform_all_ok(acts: Seq<SeqAction>, cur: nat)
    ensures
        spec_perform(acts, Seq::<bool>::empty(), cur) == (acts, cur, true),
    decreases acts.len(),
{
    if acts.len() == 0 {
        assert(spec_perform(acts, Seq::<bool>::empty(), cur).0 =~= acts);
    } else {
        lemma_perform_all_ok(acts.drop_first(), cur);
        assert(seq![acts[0]] + acts.drop_first() =~= acts);
    }
}

/// Cycle shape: on fault-free hardware one command performs exactly the
/// fixed plan — one extend configuration held for the configured dwell,
/// immediately one retract configuration held for the same dwell, then
/// neutral — and the cycle reports success.
pub proof fn lemma_cycle_shape(cfg: SequencerConfig, cur: nat)
    ensures
        ({
            let out = spec_perform(spec_cycle_plan(cfg), Seq::<bool>::empty(), cur);
            &&& out.0 == spec_cycle_plan(cfg)
            &&& out.1 == cur
            &&& out.2
        }),
{
    lemma_perform_all_ok(spec_cycle_plan(cfg), cur);
}

/// Total milliseconds of timed hold in a run of performed actions: the
/// time the worker is busy waiting, ignoring the (instant) pin writes.
pub open spec fn dwell_sum(acts: Seq<SeqAction>) -> int
    decreases acts.len(),
{
    if acts.len() == 0 {
        0
    } else {
        (match acts[0] {
            SeqAction::Dwell(d) => d as int,
            _ => 0,
        }) + dwell_sum(acts.drop_first())
    }
}

/// Splitting a run splits its busy time.
pub proof fn lemma_dwell_sum_concat(a: Seq<SeqAction>, b: Seq<SeqAction>)
    ensures
        dwell_sum(a + b) == dwell_sum(a) + dwell_sum(b),
    decreases a.len(),
{
    if a.len() == 0 {
        assert(a + b =~= b);
    } else {
        assert((a + b).drop_first() =~= a.drop_first() + b);
        lemma_dwell_sum_concat(a.drop_first(), b);
    }
}

/// One full cycle holds the pins for exactly twice the configured
/// dwell: once extending, once retracting.
pub proof fn lemma_cycle_busy_time(cfg: SequencerConfig)
    ensures
        dwell_sum(spec_cycle_plan(cfg)) == 2 * cfg.dwell_ms,
{
    reveal_with_fuel(dwell_sum, 10);
    if cfg.toggle_enable {
        assert(spec_cycle_plan(cfg) =~= seq![
            SeqAction::EnableOn,
            SeqAction::SetPins(PinConfig::Extend),
            SeqAction::Dwell(cfg.dwell_ms),
            SeqAction::SetPins(PinConfig::Retract),
            SeqAction::Dwell(cfg.dwell_ms),
            SeqAction::SetPins(PinConfig::Neutral),
            SeqAction::EnableOff,
        ]);
    } else {
        assert(spec_cycle_plan(cfg) =~= seq![
            SeqAction::SetPins(PinConfig::Extend),
            SeqAction::Dwell(cfg.dwell_ms),
            SeqAction::SetPins(PinConfig::Retract),
            SeqAction::Dwell(cfg.dwell_ms),
            SeqAction::SetPins(PinConfig::Neutral),
        ]);
    }
}

/// `k` back-to-back cycles with nothing between them.
pub open spec fn repeat_plan(cfg: SequencerConfig, k: nat) -> Seq<SeqAction>
    decreases k,
{
    if k == 0 {
        Seq::<SeqAction>::empty()
    } else {
        spec_cycle_plan(cfg) + repeat_plan(cfg, (k - 1) as nat)
    }
}

/// FIFO with no interleave: `k` queued commands drained on fault-free
/// hardware perform exactly `k` full cycles, back to back and in
/// submission order — the trace is the plan repeated `k` times, nothing
/// merged or overlapped — and the worker is busy for `k` times the
/// one-cycle hold time.
pub proof fn lemma_fifo_cycles(cfg: SequencerConfig, k: nat, cur: nat)
    ensures
        spec_worker(cfg, k, Seq::<bool>::empty(), cur).0 == repeat_plan(cfg, k),
        spec_worker(cfg, k, Seq::<bool>::empty(), cur).1 == cur,
        dwell_sum(repeat_plan(cfg, k)) == k * (2 * cfg.dwell_ms),
    decreases k,
{
    if k == 0 {
    } else {
        lemma_cycle_shape(cfg, cur);
        lemma_fifo_cycles(cfg, (k - 1) as nat, cur);
        lemma_dwell_sum_concat(spec_cycle_plan(cfg), repeat_plan(cfg, (k - 1) as nat));
        lemma_cycle_busy_time(cfg);
        assert(k * (2 * cfg.dwell_ms) == (k - 1) * (2 * cfg.dwell_ms) + 2 * cfg.dwell_ms)
            by (nonlinear_arith);
    }
}

/// Whatever the fault pattern, a run performs a prefix of its plan:
/// nothing is reordered, skipped over or retried.
pub proof fn lemma_perform_prefix(acts: Seq<SeqAction>, fs: Seq<bool>, cur: nat)
    ensures
        exists|j: int|
            0 <= j <= acts.len() && spec_perform(acts, fs, cur).0 == acts.take(j),
    decreases acts.len(),
{
    let out = spec_perform(acts, fs, cur);
    if acts.len() == 0 {
        assert(out.0 =~= acts.take(0));
    } else if is_pin_write(acts[0]) && fails_at(fs, cur) {
        assert(out.0 =~= acts.take(0));
    } else {
        let cur2 = if is_pin_write(acts[0]) {
            advance(fs, cur)
        } else {
            cur
        };
        lemma_perform_prefix(acts.drop_first(), fs, cur2);
        let j = choose|j: int|
            0 <= j <= acts.drop_first().len() && spec_perform(acts.drop_first(), fs, cur2).0
                == acts.drop_first().take(j);
        assert(out.0 =~= acts.take(j + 1));
    }
}

/// Fail-safe abort: under every fault pattern the performed actions of
/// a cycle are a prefix of the plan, so a pin fault during the extend
/// phase never reaches the retract configuration. Stated positively:
/// whenever the retract configuration was driven, the full extend phase
/// — its configuration and its whole dwell — preceded it.
pub proof fn lemma_fail_safe_abort(cfg: SequencerConfig, fs: Seq<bool>, cur: nat)
    ensures
        ({
            let out = spec_perform(spec_cycle_plan(cfg), fs, cur);
            &&& !out.0.contains(SeqAction::SetPins(PinConfig::Extend)) ==> !out.0.contains(
                SeqAction::SetPins(PinConfig::Retract),
            )
            &&& out.0.contains(SeqAction::SetPins(PinConfig::Retract)) ==> out.0.contains(
                SeqAction::SetPins(PinConfig::Extend),
            ) && out.0.contains(SeqAction::Dwell(cfg.dwell_ms))
        }),
{
    let plan = spec_cycle_plan(cfg);
    let out = spec_perform(plan, fs, cur);
    lemma_perform_prefix(plan, fs, cur);
    let j = choose|j: int| 0 <= j <= plan.len() && out.0 == plan.take(j);
    let e: int = if cfg.toggle_enable {
        1
    } else {
        0
    };
    assert(plan[e] == SeqAction::SetPins(PinConfig::Extend));
    assert(plan[e + 1] == SeqAction::Dwell(cfg.dwell_ms));
    assert(plan[e + 2] == SeqAction::SetPins(PinConfig::Retract));
    if out.0.contains(SeqAction::SetPins(PinConfig::Retract)) {
        let i = choose|i: int|
            0 <= i < out.0.len() && out.0[i] == SeqAction::SetPins(PinConfig::Retract);
        assert(plan[i] == SeqAction::SetPins(PinConfig::Retract));
        assert(i == e + 2);
        assert(out.0[e] == SeqAction::SetPins(PinConfig::Extend));
        assert(out.0[e + 1] == SeqAction::Dwell(cfg.dwell_ms));
    }
}

} // verus!

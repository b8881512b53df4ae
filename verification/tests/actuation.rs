use door_core::channel::CommandChannel;
use door_core::command::Command;
use door_core::sequencer::{
    cycle_plan, run_pending, ActuationError, FaultScript, MotorState, PinConfig, SeqAction,
    SeqEvent, Sequencer, SequencerConfig,
};

fn reference_config() -> SequencerConfig {
    SequencerConfig { dwell_ms: 2000, toggle_enable: false }
}

fn dwell_total(trace: &[SeqAction]) -> u64 {
    trace
        .iter()
        .map(|a| match a {
            SeqAction::Dwell(d) => *d,
            _ => 0,
        })
        .sum()
}

#[test]
fn single_cycle_pin_timeline() {
    // One `Open`: extend configuration held 2000 ms, retract
    // configuration held 2000 ms, then neutral.
    let mut sequencer = Sequencer::new(reference_config());
    let mut script = FaultScript::none();
    let mut trace: Vec<SeqAction> = Vec::new();
    let r = sequencer.run_once_cycle(&mut script, &mut trace);
    assert!(r.is_ok());
    assert_eq!(
        trace,
        vec![
            SeqAction::SetPins(PinConfig::Extend),
            SeqAction::Dwell(2000),
            SeqAction::SetPins(PinConfig::Retract),
            SeqAction::Dwell(2000),
            SeqAction::SetPins(PinConfig::Neutral),
        ]
    );
    assert_eq!(dwell_total(&trace), 4000);
    assert_eq!(sequencer.state, MotorState::Idle);
}

#[test]
fn toggled_enable_cycle_wraps_the_plan() {
    let cfg = SequencerConfig { dwell_ms: 1500, toggle_enable: true };
    let plan = cycle_plan(&cfg);
    assert_eq!(
        plan,
        vec![
            SeqAction::EnableOn,
            SeqAction::SetPins(PinConfig::Extend),
            SeqAction::Dwell(1500),
            SeqAction::SetPins(PinConfig::Retract),
            SeqAction::Dwell(1500),
            SeqAction::SetPins(PinConfig::Neutral),
            SeqAction::EnableOff,
        ]
    );
}

#[test]
fn fault_during_extend_never_attempts_retract() {
    // The very first pin write (the extend configuration) fails: the
    // cycle aborts, nothing was driven, and the state is back to Idle.
    let mut sequencer = Sequencer::new(reference_config());
    let mut script = FaultScript::new(vec![true]);
    let mut trace: Vec<SeqAction> = Vec::new();
    let r = sequencer.run_once_cycle(&mut script, &mut trace);
    assert_eq!(r, Err(ActuationError));
    assert_eq!(trace, Vec::<SeqAction>::new());
    assert_eq!(sequencer.state, MotorState::Idle);
}

#[test]
fn fault_at_retract_write_keeps_extend_prefix_only() {
    let mut sequencer = Sequencer::new(reference_config());
    // First write (extend) succeeds, second write (retract) fails.
    let mut script = FaultScript::new(vec![false, true]);
    let mut trace: Vec<SeqAction> = Vec::new();
    let r = sequencer.run_once_cycle(&mut script, &mut trace);
    assert!(r.is_err());
    assert_eq!(
        trace,
        vec![SeqAction::SetPins(PinConfig::Extend), SeqAction::Dwell(2000)]
    );
    assert!(!trace.contains(&SeqAction::SetPins(PinConfig::Retract)));
    assert_eq!(sequencer.state, MotorState::Idle);
}

#[test]
fn two_commands_run_back_to_back_in_order() {
    // Two `Open` commands in quick succession: two full cycles, no
    // overlap, total busy time about 4000 ms each (8000 ms in all).
    let mut chan = CommandChannel::new();
    chan.send(Command::Open).unwrap();
    chan.send(Command::Open).unwrap();
    let mut sequencer = Sequencer::new(reference_config());
    let mut script = FaultScript::none();
    let mut trace: Vec<SeqAction> = Vec::new();
    let n = run_pending(&mut sequencer, &mut chan, &mut script, &mut trace);
    assert_eq!(n, 2);
    let one_cycle = cycle_plan(&reference_config());
    let mut two_cycles = one_cycle.clone();
    two_cycles.extend(one_cycle);
    assert_eq!(trace, two_cycles);
    assert_eq!(dwell_total(&trace), 8000);
    assert_eq!(sequencer.state, MotorState::Idle);
}

#[test]
fn aborted_cycle_does_not_poison_the_next() {
    let mut chan = CommandChannel::new();
    chan.send(Command::Open).unwrap();
    chan.send(Command::Open).unwrap();
    let mut sequencer = Sequencer::new(reference_config());
    // The first cycle's extend write fails; the second cycle is clean.
    let mut script = FaultScript::new(vec![true]);
    let mut trace: Vec<SeqAction> = Vec::new();
    let n = run_pending(&mut sequencer, &mut chan, &mut script, &mut trace);
    assert_eq!(n, 2);
    assert_eq!(trace, cycle_plan(&reference_config()));
    assert_eq!(sequencer.state, MotorState::Idle);
}

#[test]
fn step_machine_walks_the_cycle() {
    let cfg = reference_config();
    let mut sequencer = Sequencer::new(cfg);
    assert_eq!(sequencer.state, MotorState::Idle);

    let acts = sequencer.step(SeqEvent::CommandReady);
    assert_eq!(sequencer.state, MotorState::Extending);
    assert_eq!(
        acts,
        vec![SeqAction::SetPins(PinConfig::Extend), SeqAction::Dwell(2000)]
    );

    let acts = sequencer.step(SeqEvent::PhaseElapsed);
    assert_eq!(sequencer.state, MotorState::Retracting);
    assert_eq!(
        acts,
        vec![SeqAction::SetPins(PinConfig::Retract), SeqAction::Dwell(2000)]
    );

    let acts = sequencer.step(SeqEvent::PhaseElapsed);
    assert_eq!(sequencer.state, MotorState::Idle);
    assert_eq!(acts, vec![SeqAction::SetPins(PinConfig::Neutral)]);
}

#[test]
fn pin_fault_resets_straight_to_idle() {
    let mut sequencer = Sequencer::new(reference_config());
    sequencer.step(SeqEvent::CommandReady);
    assert_eq!(sequencer.state, MotorState::Extending);
    let acts = sequencer.step(SeqEvent::PinFault);
    assert_eq!(sequencer.state, MotorState::Idle);
    assert_eq!(acts, Vec::<SeqAction>::new());
}

#[test]
fn command_mid_cycle_is_ignored_by_the_machine() {
    let mut sequencer = Sequencer::new(reference_config());
    sequencer.step(SeqEvent::CommandReady);
    let acts = sequencer.step(SeqEvent::CommandReady);
    assert_eq!(sequencer.state, MotorState::Extending);
    assert_eq!(acts, Vec::<SeqAction>::new());
}

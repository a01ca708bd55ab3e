use multibg_sway::cli::{force_xrgb8888, PixelFormat};
use multibg_sway::poll::{
    after_flush, after_read, plan_iteration, FlushOutcome, FlushStep, LoopStep, ReadOutcome,
    ReadStep, Readiness,
};
use multibg_sway::signal::{Signal, SignalAction, SignalFlags, HUP, INT, TERM, USR1, USR2};

#[test]
fn each_signal_has_a_bit_of_its_own() {
    assert_eq!(Signal::Term.flag_byte(), 1);
    assert_eq!(Signal::Int.flag_byte(), 2);
    assert_eq!(Signal::Hup.flag_byte(), 4);
    assert_eq!(Signal::Usr1.flag_byte(), 8);
    assert_eq!(Signal::Usr2.flag_byte(), 16);
    assert_eq!((TERM, INT, HUP, USR1, USR2), (1, 2, 4, 8, 16));
}

#[test]
fn termination_signals_are_named_in_order() {
    let flags = |bytes: &[u8]| SignalFlags::from_bytes(bytes).unwrap();
    assert_eq!(flags(&[]).any_termination(), None);
    assert_eq!(flags(&[TERM]).any_termination(), Some("TERM"));
    assert_eq!(flags(&[INT]).any_termination(), Some("INT"));
    assert_eq!(flags(&[HUP]).any_termination(), Some("HUP"));
    assert_eq!(flags(&[HUP, INT]).any_termination(), Some("INT"));
    assert_eq!(flags(&[HUP, INT, USR1, TERM]).any_termination(), Some("TERM"));
    assert_eq!(flags(&[USR1, USR2]).any_termination(), None);
}

#[test]
fn reserved_signals_are_seen() {
    let flags = |bytes: &[u8]| SignalFlags::from_bytes(bytes).unwrap();
    assert!(flags(&[USR1]).has_usr1());
    assert!(!flags(&[USR1]).has_usr2());
    assert!(flags(&[USR2, TERM]).has_usr2());
    assert!(!flags(&[TERM, INT, HUP]).has_usr1());
}

#[test]
fn zero_byte_gives_no_flags() {
    assert!(SignalFlags::from_bytes(&[TERM, 0, INT]).is_none());
    assert!(SignalFlags::from_bytes(&[0]).is_none());
}

#[test]
fn loop_ends_on_termination_only() {
    let flags = |bytes: &[u8]| SignalFlags::from_bytes(bytes).unwrap();
    assert_eq!(flags(&[HUP]).action(), SignalAction::Exit);
    assert_eq!(flags(&[USR1, INT]).action(), SignalAction::Exit);
    assert_eq!(flags(&[USR1]).action(), SignalAction::ReportReserved);
    assert_eq!(flags(&[USR2, USR2]).action(), SignalAction::ReportReserved);
    assert_eq!(flags(&[]).action(), SignalAction::Ignore);
    assert_eq!(flags(&[32]).action(), SignalAction::Ignore);
}

#[test]
fn iteration_takes_the_sources_in_order() {
    let ready = |display, bridge, signals| Readiness { display, bridge, signals };
    assert_eq!(plan_iteration(ready(false, false, false)), vec![LoopStep::CancelRead]);
    assert_eq!(plan_iteration(ready(true, false, false)), vec![LoopStep::ReadDisplay]);
    assert_eq!(
        plan_iteration(ready(true, true, true)),
        vec![LoopStep::ReadDisplay, LoopStep::DrainBridge, LoopStep::ReadSignals]
    );
    assert_eq!(
        plan_iteration(ready(false, true, false)),
        vec![LoopStep::CancelRead, LoopStep::DrainBridge]
    );
    assert_eq!(
        plan_iteration(ready(false, false, true)),
        vec![LoopStep::CancelRead, LoopStep::ReadSignals]
    );
}

#[test]
fn would_block_is_no_error() {
    assert_eq!(after_flush(FlushOutcome::Flushed), FlushStep::Proceed);
    assert_eq!(after_flush(FlushOutcome::WouldBlock), FlushStep::WaitWritable);
    assert_eq!(after_flush(FlushOutcome::Failed), FlushStep::Abort);
    assert_eq!(after_read(ReadOutcome::Read), ReadStep::Dispatch);
    assert_eq!(after_read(ReadOutcome::WouldBlock), ReadStep::Recheck);
    assert_eq!(after_read(ReadOutcome::Failed), ReadStep::Abort);
}

#[test]
fn only_baseline_forces_the_four_byte_layout() {
    assert!(!force_xrgb8888(None));
    assert!(!force_xrgb8888(Some(PixelFormat::Auto)));
    assert!(force_xrgb8888(Some(PixelFormat::Baseline)));
}

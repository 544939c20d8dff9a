use grate_rs::errors::{classify_copy, classify_registration, classify_relay, GrateError};
use grate_rs::lifecycle::{
    dispatch_decision, CoordAction, CoordEvent, Coordinator, CoordState, GrateBuilder, OsOp,
    DISPATCH_FAILURE,
};

#[test]
fn builder_collects_handlers_in_order() {
    let b = GrateBuilder::new().register(2, 0x1000).register(80, 0x2000);
    assert_eq!(b.handlers.len(), 2);
    assert_eq!(b.handlers[0], (2, 0x1000));
    assert_eq!(b.handlers[1], (80, 0x2000));
    assert!(!b.teardown_hook);
    assert!(b.register(3, 1).teardown().teardown_hook);
}

#[test]
fn find_handler_returns_first_registration() {
    let b = GrateBuilder::new().register(2, 0x1000).register(2, 0x9999).register(80, 0x2000);
    assert_eq!(b.find_handler(2), Some(0x1000));
    assert_eq!(b.find_handler(80), Some(0x2000));
    assert_eq!(b.find_handler(7), None);
}

#[test]
fn zero_handler_address_is_never_invoked() {
    assert_eq!(dispatch_decision(0), None);
    assert_eq!(dispatch_decision(0x4242), Some(0x4242));
    assert_eq!(DISPATCH_FAILURE, -1);
}

#[test]
fn run_teardown_plans_exit_status() {
    let ok = GrateBuilder::run_teardown(true, &Ok(17));
    assert!(ok.invoke_callback);
    assert_eq!(ok.exit_status, 0);
    let err = GrateBuilder::run_teardown(false, &Err(GrateError::HandlerRegistrationError(3)));
    assert!(!err.invoke_callback);
    assert_eq!(err.exit_status, 1);
}

#[test]
fn parent_happy_path_reaches_finish() {
    let b = GrateBuilder::new().register(2, 0x1000).register(80, 0x2000);
    let mut c = Coordinator::new(b, 77, 2);
    assert!(matches!(c.step(CoordEvent::Begin), CoordAction::CreatePipe));
    assert!(matches!(
        c.step(CoordEvent::PipeReady { read_fd: 3, write_fd: 4 }),
        CoordAction::ForkCage { read_fd: 3, write_fd: 4 }
    ));
    assert!(matches!(
        c.step(CoordEvent::ForkedParent { child: 9 }),
        CoordAction::CloseReadEnd { read_fd: 3 }
    ));
    match c.step(CoordEvent::ReadEndClosed) {
        CoordAction::RegisterHandler { cage, call_nr, flag, grate, handler_addr } => {
            assert_eq!(cage, 9);
            assert_eq!(call_nr, 2);
            assert_eq!(flag, 1);
            assert_eq!(grate, 77);
            assert_eq!(handler_addr, 0x1000);
        },
        _ => panic!("expected first registration"),
    }
    match c.step(CoordEvent::Registered { code: 0 }) {
        CoordAction::RegisterHandler { call_nr, handler_addr, .. } => {
            assert_eq!(call_nr, 80);
            assert_eq!(handler_addr, 0x2000);
        },
        _ => panic!("expected second registration"),
    }
    // The ready byte goes out only after the last registration succeeded.
    assert!(matches!(
        c.step(CoordEvent::Registered { code: 0 }),
        CoordAction::SignalCage { write_fd: 4 }
    ));
    assert!(matches!(c.step(CoordEvent::ByteSent), CoordAction::CloseWriteEnd { write_fd: 4 }));
    assert!(matches!(c.step(CoordEvent::WriteEndClosed), CoordAction::WaitCage { cage: 9 }));
    match c.step(CoordEvent::CageExited { status: 5 }) {
        CoordAction::Finish { plan, status } => {
            assert_eq!(status, 5);
            assert_eq!(plan.exit_status, 0);
            assert!(!plan.invoke_callback);
        },
        _ => panic!("expected finish"),
    }
    assert!(matches!(c.state, CoordState::Finished { status: 5 }));
}

#[test]
fn child_path_blocks_then_execs() {
    let b = GrateBuilder::new().register(2, 0x1000);
    let mut c = Coordinator::new(b, 77, 2);
    c.step(CoordEvent::Begin);
    c.step(CoordEvent::PipeReady { read_fd: 3, write_fd: 4 });
    assert!(matches!(
        c.step(CoordEvent::ForkedChild),
        CoordAction::AwaitSignal { read_fd: 3, write_fd: 4 }
    ));
    assert!(matches!(c.step(CoordEvent::SignalReceived), CoordAction::ExecTarget));
}

#[test]
fn registration_failure_aborts_before_signal() {
    // A nonzero registration code surfaces as the typed failure and the run
    // ends before the cage is ever signaled to exec.
    let b = GrateBuilder::new().register(2, 0x1000).register(80, 0x2000).teardown();
    let mut c = Coordinator::new(b, 77, 2);
    c.step(CoordEvent::Begin);
    c.step(CoordEvent::PipeReady { read_fd: 3, write_fd: 4 });
    c.step(CoordEvent::ForkedParent { child: 9 });
    c.step(CoordEvent::ReadEndClosed);
    match c.step(CoordEvent::Registered { code: 7 }) {
        CoordAction::AbortRun { plan, error } => {
            assert!(plan.invoke_callback);
            assert_eq!(plan.exit_status, 1);
            match error {
                GrateError::HandlerRegistrationError(code) => assert_eq!(code, 7),
                _ => panic!("expected the typed registration failure"),
            }
        },
        _ => panic!("expected the run to abort"),
    }
    assert!(matches!(c.state, CoordState::Aborted));
    // No signal, no exec: the machine refuses to go on.
    match c.step(CoordEvent::ByteSent) {
        CoordAction::AbortRun { .. } => {},
        _ => panic!("an aborted run must not continue"),
    }
}

#[test]
fn empty_argument_vector_is_refused() {
    let b = GrateBuilder::new();
    let mut c = Coordinator::new(b, 77, 0);
    match c.step(CoordEvent::Begin) {
        CoordAction::AbortRun { error, .. } => match error {
            GrateError::CoordinationError(m) => assert_eq!(m, "No cage binary provided."),
            _ => panic!("expected a coordination error"),
        },
        _ => panic!("expected the run to abort"),
    }
}

#[test]
fn os_failure_is_fatal_and_named() {
    let b = GrateBuilder::new().register(2, 0x1000);
    let mut c = Coordinator::new(b, 77, 2);
    c.step(CoordEvent::Begin);
    match c.step(
        CoordEvent::OsFailure { op: OsOp::Pipe, detail: String::from("out of descriptors") },
    ) {
        CoordAction::AbortRun { plan, error } => {
            assert_eq!(plan.exit_status, 1);
            match error {
                GrateError::CoordinationError(m) => {
                    assert_eq!(m, "pipe failed: out of descriptors")
                },
                _ => panic!("expected a coordination error"),
            }
        },
        _ => panic!("expected the run to abort"),
    }
    assert!(matches!(c.state, CoordState::Aborted));
}

#[test]
fn no_handlers_signals_immediately() {
    let b = GrateBuilder::new();
    let mut c = Coordinator::new(b, 77, 1);
    c.step(CoordEvent::Begin);
    c.step(CoordEvent::PipeReady { read_fd: 3, write_fd: 4 });
    c.step(CoordEvent::ForkedParent { child: 9 });
    assert!(matches!(
        c.step(CoordEvent::ReadEndClosed),
        CoordAction::SignalCage { write_fd: 4 }
    ));
}

#[test]
fn only_coordination_failures_are_fatal() {
    assert!(GrateError::CoordinationError(String::from("pipe failed")).is_coordination_failure());
    assert!(!GrateError::HandlerRegistrationError(1).is_coordination_failure());
    assert!(!GrateError::CopyDataError(1).is_coordination_failure());
    assert!(!GrateError::MakeSyscallError(-1).is_coordination_failure());
}

#[test]
fn result_classifiers_follow_the_runtime_conventions() {
    assert!(classify_registration(0).is_ok());
    match classify_registration(3) {
        Err(GrateError::HandlerRegistrationError(c)) => assert_eq!(c, 3),
        _ => panic!("expected the registration failure"),
    }
    assert!(classify_copy(0).is_ok());
    assert!(classify_copy(12).is_ok());
    match classify_copy(0xE001_0001u32 as i32) {
        Err(GrateError::CopyDataError(_)) => {},
        _ => panic!("expected the copy failure"),
    }
    assert_eq!(classify_relay(5).unwrap(), 5);
    match classify_relay(-3) {
        Err(GrateError::MakeSyscallError(c)) => assert_eq!(c, -3),
        _ => panic!("expected the relay failure"),
    }
}

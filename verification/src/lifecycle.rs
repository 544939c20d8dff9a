//! The lifecycle coordinator.
//!
//! A grate forks a child cage, registers every handler against the child's
//! identity while the child is provably blocked on a one-byte pipe
//! rendezvous, signals completion, execs the target in the child, and waits
//! for the child's exit in the parent. The protocol is an explicit state
//! machine: `step` maps the current state and an outside event to the next
//! state and the action to perform, and the caller performs the actions and
//! feeds the outcomes back in. Any OS-level failure in the protocol is fatal
//! to the whole grate — reported once, never retried.

use vstd::prelude::*;

use crate::errors::GrateError;

verus! {

/// The sentinel failure value the dispatch thunk answers with when handed a
/// zero handler address — a fatal local error distinct from any call result.
pub const DISPATCH_FAILURE: i32 = -1;

/// The dispatch thunk's local decision: a nonzero handler address may be
/// invoked; a zero address is never reconstituted into a callable.
pub fn dispatch_decision(handler_addr: u64) -> (r: Option<u64>)
    ensures
        handler_addr == 0 <==> r is None,
        handler_addr != 0 ==> r == Some(handler_addr),
{
    if handler_addr == 0 {
        None
    } else {
        Some(handler_addr)
    }
}

/// The first handler registered under `nr`, in registration order.
pub open spec fn lookup_spec(s: Seq<(u64, u64)>, nr: u64) -> Option<u64>
    decreases s.len(),
{
    if s.len() == 0 {
        None
    } else if s.first().0 == nr {
        Some(s.first().1)
    } else {
        lookup_spec(s.drop_first(), nr)
    }
}

/// A builder for creating grates with customizable lifecycle hooks. The
/// registry is assembled before the cage exists and is read-only thereafter.
pub struct GrateBuilder {
    /// The registry: (call number, handler address) pairs in registration
    /// order.
    pub handlers: Vec<(u64, u64)>,
    /// Whether a teardown callback is attached; the callback itself lives
    /// with the caller, outside the verified core.
    pub teardown_hook: bool,
}

/// How the grate winds down once its run is over.
pub struct TeardownPlan {
    /// Run the attached teardown callback with the run's result.
    pub invoke_callback: bool,
    /// The process exit status: zero after a normal cage exit, nonzero after
    /// a coordination failure.
    pub exit_status: i32,
}

/// The wind-down of a run that failed iff `failed`.
pub open spec fn plan_for(hook: bool, failed: bool) -> TeardownPlan {
    TeardownPlan {
        invoke_callback: hook,
        exit_status: if failed {
            1i32
        } else {
            0i32
        },
    }
}

/// Build the wind-down plan.
fn mk_plan(hook: bool, failed: bool) -> (p: TeardownPlan)
    ensures
        p == plan_for(hook, failed),
{
    TeardownPlan {
        invoke_callback: hook,
        exit_status: if failed {
            1
        } else {
            0
        },
    }
}

impl GrateBuilder {
    /// Create an empty grate builder.
    pub fn new() -> (b: Self)
        ensures
            b.handlers@ == Seq::<(u64, u64)>::empty(),
            b.teardown_hook == false,
    {
        GrateBuilder { handlers: Vec::new(), teardown_hook: false }
    }

    /// Register a syscall handler under its call number.
    pub fn register(self, syscall_nr: u64, handler: u64) -> (b: Self)
        ensures
            b.handlers@ == self.handlers@.push((syscall_nr, handler)),
            b.teardown_hook == self.teardown_hook,
    {
        let mut b = self;
        b.handlers.push((syscall_nr, handler));
        b
    }

    /// Attach a teardown callback, to be run with the result after the cage
    /// exits.
    pub fn teardown(self) -> (b: Self)
        ensures
            b.handlers@ == self.handlers@,
            b.teardown_hook == true,
    {
        let mut b = self;
        b.teardown_hook = true;
        b
    }

    /// Decide how a finished run winds down: whether the attached callback
    /// runs with `result`, and the process exit status.
    pub fn run_teardown(has_callback: bool, result: &Result<i32, GrateError>) -> (p: TeardownPlan)
        ensures
            p == plan_for(has_callback, result is Err),
    {
        let failed = match result {
            Ok(_) => false,
            Err(_) => true,
        };
        mk_plan(has_callback, failed)
    }

    /// The first handler registered under `nr`, as the dispatch table is
    /// consulted.
    pub fn find_handler(&self, nr: u64) -> (r: Option<u64>)
        ensures
            r == lookup_spec(self.handlers@, nr),
    {
        let n = self.handlers.len();
        let mut i: usize = 0;
        proof {
            assert(self.handlers@.skip(0) =~= self.handlers@);
        }
        while i < n
            invariant
                i <= n,
                n == self.handlers@.len(),
                lookup_spec(self.handlers@, nr) == lookup_spec(
                    self.handlers@.skip(i as int),
                    nr,
                ),
            decreases n - i,
        {
            if self.handlers[i].0 == nr {
                proof {
                    assert(self.handlers@.skip(i as int).first() == self.handlers@[i as int]);
                }
                return Some(self.handlers[i].1);
            }
            proof {
                assert(self.handlers@.skip(i as int).first() == self.handlers@[i as int]);
                assert(self.handlers@.skip(i as int).drop_first() =~= self.handlers@.skip(i + 1));
            }
            i += 1;
        }
        None
    }
}

/// The OS-level operations of the protocol; any failure of one is fatal.
#[derive(Clone, Copy)]
pub enum OsOp {
    Pipe,
    Fork,
    CloseFd,
    ReadByte,
    WriteByte,
    Exec,
    Wait,
}

impl OsOp {
    /// The operation's name as it appears in a coordination failure report.
    pub open spec fn spec_name(self) -> Seq<char> {
        match self {
            OsOp::Pipe => "pipe"@,
            OsOp::Fork => "fork"@,
            OsOp::CloseFd => "close"@,
            OsOp::ReadByte => "read"@,
            OsOp::WriteByte => "write"@,
            OsOp::Exec => "execv"@,
            OsOp::Wait => "waitpid"@,
        }
    }

    /// The operation's name.
    pub fn name(&self) -> (r: &'static str)
        ensures
            r@ == self.spec_name(),
    {
        match self {
            OsOp::Pipe => "pipe",
            OsOp::Fork => "fork",
            OsOp::CloseFd => "close",
            OsOp::ReadByte => "read",
            OsOp::WriteByte => "write",
            OsOp::Exec => "execv",
            OsOp::Wait => "waitpid",
        }
    }
}

/// A coordination failure carrying the failing operation's name and the OS
/// error text.
pub fn coordination_failure(op: &OsOp, detail: &String) -> (e: GrateError)
    ensures
        e matches GrateError::CoordinationError(m) && m@ == op.spec_name() + " failed: "@
            + detail@,
{
    let m = String::from_str(op.name()).concat(" failed: ").concat(detail.as_str());
    GrateError::CoordinationError(m)
}

/// Where the protocol stands. States before the fork are shared; after it,
/// the child walks the await/launch states and the parent the
/// registering/signaling/awaiting states.
#[derive(Clone, Copy)]
pub enum CoordState {
    /// Nothing happened yet.
    Start,
    /// The synchronization pipe was requested.
    PipeWait,
    /// The pipe exists; the fork was requested.
    ForkWait { read_fd: i32, write_fd: i32 },
    /// Child: blocked on the one-byte rendezvous.
    ChildAwait,
    /// Child: the byte arrived; the exec was requested.
    ChildLaunch,
    /// Parent: registering handler `next` against the child's identity.
    Registering { child: u64, write_fd: i32, next: usize },
    /// Parent: every handler registered; the ready byte was requested.
    Signaling { child: u64, write_fd: i32 },
    /// Parent: the byte was sent; closing the write end.
    Draining { child: u64 },
    /// Parent: waiting for the child's termination.
    Awaiting { child: u64 },
    /// The cage exited with this status.
    Finished { status: i32 },
    /// The run was aborted.
    Aborted,
}

/// What happened outside since the last step.
pub enum CoordEvent {
    /// Start the run.
    Begin,
    /// The pipe exists.
    PipeReady { read_fd: i32, write_fd: i32 },
    /// The fork returned in the child.
    ForkedChild,
    /// The fork returned in the parent with the child's identity.
    ForkedParent { child: u64 },
    /// Child: the ready byte arrived and both pipe ends are closed.
    SignalReceived,
    /// Parent: the read end is closed.
    ReadEndClosed,
    /// The runtime answered a registration with this code; zero is success.
    Registered { code: i32 },
    /// Parent: the ready byte went out.
    ByteSent,
    /// Parent: the write end is closed.
    WriteEndClosed,
    /// The wait returned the child's exit status.
    CageExited { status: i32 },
    /// An OS-level call failed; carries the operation and the error text.
    OsFailure { op: OsOp, detail: String },
}

/// What the caller must do next.
pub enum CoordAction {
    /// Create the synchronization pipe.
    CreatePipe,
    /// Duplicate the process; report `ForkedChild` or `ForkedParent`.
    ForkCage { read_fd: i32, write_fd: i32 },
    /// Child: close the write end, block reading one byte from the read
    /// end, close the read end.
    AwaitSignal { read_fd: i32, write_fd: i32 },
    /// Child: replace the process image with the target program.
    ExecTarget,
    /// Parent: close the read end.
    CloseReadEnd { read_fd: i32 },
    /// Register one handler with the runtime.
    RegisterHandler { cage: u64, call_nr: u64, flag: u64, grate: u64, handler_addr: u64 },
    /// Parent: write the one ready byte.
    SignalCage { write_fd: i32 },
    /// Parent: close the write end.
    CloseWriteEnd { write_fd: i32 },
    /// Parent: wait for the cage to terminate.
    WaitCage { cage: u64 },
    /// The run is over: wind down with the cage's exit status.
    Finish { plan: TeardownPlan, status: i32 },
    /// The run failed: wind down with this error, terminating the whole
    /// grate.
    AbortRun { plan: TeardownPlan, error: GrateError },
}

/// The coordinator: the registry, the attached hook, the grate's identity,
/// the argument count of the exec vector, and where the protocol stands.
pub struct Coordinator {
    /// The registry, fixed before the cage runs.
    pub handlers: Vec<(u64, u64)>,
    /// Whether a teardown callback is attached.
    pub teardown_hook: bool,
    /// The grate's own identity, as handlers are granted to it.
    pub grate_id: u64,
    /// How many entries the exec argument vector has; the first names the
    /// cage binary.
    pub arg_count: usize,
    /// Where the protocol stands.
    pub state: CoordState,
}

/// Everything but the protocol position is immutable across a step.
pub open spec fn frames_kept(pre: Coordinator, post: Coordinator) -> bool {
    &&& post.handlers@ == pre.handlers@
    &&& post.teardown_hook == pre.teardown_hook
    &&& post.grate_id == pre.grate_id
    &&& post.arg_count == pre.arg_count
}

/// The step answered an event that makes no sense in the current state.
pub open spec fn protocol_abort(pre: Coordinator, post: Coordinator, act: CoordAction) -> bool {
    &&& post.state is Aborted
    &&& act matches CoordAction::AbortRun { plan, error } && plan == plan_for(
        pre.teardown_hook,
        true,
    ) && (error matches GrateError::CoordinationError(m) && m@ == "unexpected lifecycle event"@)
}

/// The transition relation of the protocol: what `step` did and said for a
/// given state and event.
pub open spec fn step_rel(
    pre: Coordinator,
    ev: CoordEvent,
    post: Coordinator,
    act: CoordAction,
) -> bool {
    &&& frames_kept(pre, post)
    &&& match ev {
        CoordEvent::OsFailure { op, detail } => {
            &&& post.state is Aborted
            &&& act matches CoordAction::AbortRun { plan, error } && plan == plan_for(
                pre.teardown_hook,
                true,
            ) && (error matches GrateError::CoordinationError(m) && m@ == op.spec_name()
                + " failed: "@ + detail@)
        },
        CoordEvent::Begin => match pre.state {
            CoordState::Start => if pre.arg_count == 0 {
                &&& post.state is Aborted
                &&& act matches CoordAction::AbortRun { plan, error } && plan == plan_for(
                    pre.teardown_hook,
                    true,
                ) && (error matches GrateError::CoordinationError(m) && m@
                    == "No cage binary provided."@)
            } else {
                post.state is PipeWait && act is CreatePipe
            },
            _ => protocol_abort(pre, post, act),
        },
        CoordEvent::PipeReady { read_fd, write_fd } => match pre.state {
            CoordState::PipeWait => {
                &&& post.state == (CoordState::ForkWait { read_fd, write_fd })
                &&& act == (CoordAction::ForkCage { read_fd, write_fd })
            },
            _ => protocol_abort(pre, post, act),
        },
        CoordEvent::ForkedChild => match pre.state {
            CoordState::ForkWait { read_fd, write_fd } => {
                &&& post.state is ChildAwait
                &&& act == (CoordAction::AwaitSignal { read_fd, write_fd })
            },
            _ => protocol_abort(pre, post, act),
        },
        CoordEvent::ForkedParent { child } => match pre.state {
            CoordState::ForkWait { read_fd, write_fd } => {
                &&& post.state == (CoordState::Registering { child, write_fd, next: 0 })
                &&& act == (CoordAction::CloseReadEnd { read_fd })
            },
            _ => protocol_abort(pre, post, act),
        },
        CoordEvent::SignalReceived => match pre.state {
            CoordState::ChildAwait => post.state is ChildLaunch && act is ExecTarget,
            _ => protocol_abort(pre, post, act),
        },
        CoordEvent::ReadEndClosed => match pre.state {
            CoordState::Registering { child, write_fd, next } => if next != 0 {
                protocol_abort(pre, post, act)
            } else if pre.handlers@.len() == 0 {
                &&& post.state == (CoordState::Signaling { child, write_fd })
                &&& act == (CoordAction::SignalCage { write_fd })
            } else {
                &&& post.state == pre.state
                &&& act == (CoordAction::RegisterHandler {
                    cage: child,
                    call_nr: pre.handlers@[0].0,
                    flag: 1,
                    grate: pre.grate_id,
                    handler_addr: pre.handlers@[0].1,
                })
            },
            _ => protocol_abort(pre, post, act),
        },
        CoordEvent::Registered { code } => match pre.state {
            CoordState::Registering { child, write_fd, next } => if next >= pre.handlers@.len() {
                protocol_abort(pre, post, act)
            } else if code != 0 {
                &&& post.state is Aborted
                &&& act matches CoordAction::AbortRun { plan, error } && plan == plan_for(
                    pre.teardown_hook,
                    true,
                ) && error == GrateError::HandlerRegistrationError(code)
            } else if next + 1 == pre.handlers@.len() {
                &&& post.state == (CoordState::Signaling { child, write_fd })
                &&& act == (CoordAction::SignalCage { write_fd })
            } else {
                &&& post.state == (CoordState::Registering {
                    child,
                    write_fd,
                    next: (next + 1) as usize,
                })
                &&& act == (CoordAction::RegisterHandler {
                    cage: child,
                    call_nr: pre.handlers@[next + 1].0,
                    flag: 1,
                    grate: pre.grate_id,
                    handler_addr: pre.handlers@[next + 1].1,
                })
            },
            _ => protocol_abort(pre, post, act),
        },
        CoordEvent::ByteSent => match pre.state {
            CoordState::Signaling { child, write_fd } => {
                &&& post.state == (CoordState::Draining { child })
                &&& act == (CoordAction::CloseWriteEnd { write_fd })
            },
            _ => protocol_abort(pre, post, act),
        },
        CoordEvent::WriteEndClosed => match pre.state {
            CoordState::Draining { child } => {
                &&& post.state == (CoordState::Awaiting { child })
                &&& act == (CoordAction::WaitCage { cage: child })
            },
            _ => protocol_abort(pre, post, act),
        },
        CoordEvent::CageExited { status } => match pre.state {
            CoordState::Awaiting { .. } => {
                &&& post.state == (CoordState::Finished { status })
                &&& act == (CoordAction::Finish {
                    plan: plan_for(pre.teardown_hook, false),
                    status,
                })
            },
            _ => protocol_abort(pre, post, act),
        },
    }
}

impl Coordinator {
    /// Take over a finished builder, ready for `Begin`.
    pub fn new(builder: GrateBuilder, grate_id: u64, arg_count: usize) -> (c: Self)
        ensures
            c.handlers@ == builder.handlers@,
            c.teardown_hook == builder.teardown_hook,
            c.grate_id == grate_id,
            c.arg_count == arg_count,
            c.state is Start,
    {
        Coordinator {
            handlers: builder.handlers,
            teardown_hook: builder.teardown_hook,
            grate_id,
            arg_count,
            state: CoordState::Start,
        }
    }

    /// Abort on an event that makes no sense in the current state.
    fn abort_protocol(&mut self) -> (act: CoordAction)
        ensures
            frames_kept(*old(self), *final(self)),
            protocol_abort(*old(self), *final(self), act),
    {
        self.state = CoordState::Aborted;
        CoordAction::AbortRun {
            plan: mk_plan(self.teardown_hook, true),
            error: GrateError::CoordinationError(String::from_str("unexpected lifecycle event")),
        }
    }

    /// Advance the protocol by one event and say what to do next.
    pub fn step(&mut self, event: CoordEvent) -> (act: CoordAction)
        ensures
            step_rel(*old(self), event, *final(self), act),
    {
        let st = self.state;
        match event {
            CoordEvent::OsFailure { op, detail } => {
                let error = coordination_failure(&op, &detail);
                self.state = CoordState::Aborted;
                CoordAction::AbortRun { plan: mk_plan(self.teardown_hook, true), error }
            },
            CoordEvent::Begin => match st {
                CoordState::Start => {
                    if self.arg_count == 0 {
                        self.state = CoordState::Aborted;
                        CoordAction::AbortRun {
                            plan: mk_plan(self.teardown_hook, true),
                            error: GrateError::CoordinationError(
                                String::from_str("No cage binary provided."),
                            ),
                        }
                    } else {
                        self.state = CoordState::PipeWait;
                        CoordAction::CreatePipe
                    }
                },
                _ => self.abort_protocol(),
            },
            CoordEvent::PipeReady { read_fd, write_fd } => match st {
                CoordState::PipeWait => {
                    self.state = CoordState::ForkWait { read_fd, write_fd };
                    CoordAction::ForkCage { read_fd, write_fd }
                },
                _ => self.abort_protocol(),
            },
            CoordEvent::ForkedChild => match st {
                CoordState::ForkWait { read_fd, write_fd } => {
                    self.state = CoordState::ChildAwait;
                    CoordAction::AwaitSignal { read_fd, write_fd }
                },
                _ => self.abort_protocol(),
            },
            CoordEvent::ForkedParent { child } => match st {
                CoordState::ForkWait { read_fd, write_fd } => {
                    self.state = CoordState::Registering { child, write_fd, next: 0 };
                    CoordAction::CloseReadEnd { read_fd }
                },
                _ => self.abort_protocol(),
            },
            CoordEvent::SignalReceived => match st {
                CoordState::ChildAwait => {
                    self.state = CoordState::ChildLaunch;
                    CoordAction::ExecTarget
                },
                _ => self.abort_protocol(),
            },
            CoordEvent::ReadEndClosed => match st {
                CoordState::Registering { child, write_fd, next } => {
                    if next != 0 {
                        self.abort_protocol()
                    } else if self.handlers.len() == 0 {
                        self.state = CoordState::Signaling { child, write_fd };
                        CoordAction::SignalCage { write_fd }
                    } else {
                        CoordAction::RegisterHandler {
                            cage: child,
                            call_nr: self.handlers[0].0,
                            flag: 1,
                            grate: self.grate_id,
                            handler_addr: self.handlers[0].1,
                        }
                    }
                },
                _ => self.abort_protocol(),
            },
            CoordEvent::Registered { code } => match st {
                CoordState::Registering { child, write_fd, next } => {
                    if next >= self.handlers.len() {
                        self.abort_protocol()
                    } else if code != 0 {
                        self.state = CoordState::Aborted;
                        CoordAction::AbortRun {
                            plan: mk_plan(self.teardown_hook, true),
                            error: GrateError::HandlerRegistrationError(code),
                        }
                    } else if next + 1 == self.handlers.len() {
                        self.state = CoordState::Signaling { child, write_fd };
                        CoordAction::SignalCage { write_fd }
                    } else {
                        self.state = CoordState::Registering { child, write_fd, next: next + 1 };
                        CoordAction::RegisterHandler {
                            cage: child,
                            call_nr: self.handlers[next + 1].0,
                            flag: 1,
                            grate: self.grate_id,
                            handler_addr: self.handlers[next + 1].1,
                        }
                    }
                },
                _ => self.abort_protocol(),
            },
            CoordEvent::ByteSent => match st {
                CoordState::Signaling { child, write_fd } => {
                    self.state = CoordState::Draining { child };
                    CoordAction::CloseWriteEnd { write_fd }
                },
                _ => self.abort_protocol(),
            },
            CoordEvent::WriteEndClosed => match st {
                CoordState::Draining { child } => {
                    self.state = CoordState::Awaiting { child };
                    CoordAction::WaitCage { cage: child }
                },
                _ => self.abort_protocol(),
            },
            CoordEvent::CageExited { status } => match st {
                CoordState::Awaiting { .. } => {
                    self.state = CoordState::Finished { status };
                    CoordAction::Finish { plan: mk_plan(self.teardown_hook, false), status }
                },
                _ => self.abort_protocol(),
            },
        }
    }
}

/// An aborted run stays aborted: whatever arrives next, the machine only
/// ever asks the caller to wind the process down, and never to signal the
/// cage or exec the target. Together with the lemma below, a failed
/// registration therefore ends the run before the cage can execute its
/// target program.
pub proof fn lemma_aborted_is_absorbing(
    pre: Coordinator,
    ev: CoordEvent,
    post: Coordinator,
    act: CoordAction,
)
    requires
        step_rel(pre, ev, post, act),
        pre.state is Aborted,
    ensures
        post.state is Aborted,
        act matches CoordAction::AbortRun { .. },
{
}

/// The cage is signaled to proceed only when every registration is behind
/// it, and a failed registration aborts the run as a typed failure: no
/// signal ever follows a nonzero registration code, so the cage cannot run
/// with an incomplete interception table.
pub proof fn lemma_signal_needs_full_registration(
    pre: Coordinator,
    ev: CoordEvent,
    post: Coordinator,
    act: CoordAction,
)
    requires
        step_rel(pre, ev, post, act),
    ensures
        (act matches CoordAction::SignalCage { .. }) ==> (pre.state matches CoordState::Registering
            { next, .. } && (pre.handlers@.len() == 0 || next + 1 == pre.handlers@.len())),
        match (pre.state, ev) {
            (
                CoordState::Registering { next, .. },
                CoordEvent::Registered { code },
            ) => (next < pre.handlers@.len() && code != 0) ==> (post.state is Aborted && (act
                matches CoordAction::AbortRun { error, .. } && error
                == GrateError::HandlerRegistrationError(code))),
            _ => true,
        },
{
}

} // verus!

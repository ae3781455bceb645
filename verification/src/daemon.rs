//! The daemon's lifecycle state machine.
//!
//! The daemon process moves through `Starting -> Running -> Terminating ->
//! Exited`, never revisiting a state.  `Starting` covers detachment through
//! session start, `Running` is the accept/signal race loop, `Terminating`
//! covers rendezvous cleanup, and `Exited` is the process exit.  The machine
//! also tracks whether the daemon's rendezvous path exists, so the exclusivity
//! and cleanup discipline around it is stated once and proved: binding fails
//! closed when the path already exists, and normal termination removes it.
//!
//! Termination is unified: an interrupt, terminate or quit signal and a
//! protocol `Stop` request all drive the same transition to `Terminating`,
//! so cleanup and exit semantics are defined once for every trigger.

use crate::codec::{encode_response, parse_request, spec_enc_request, spec_enc_response};
use crate::protocol::JsonRequest;
use crate::session::{Reply, Session, StatusReport};
use crate::sock::SockError;
use vstd::prelude::*;

verus! {

/// The daemon process's own state.  No state is revisited.
#[derive(Clone, Copy, Debug, PartialEq, Eq, Structural)]
pub enum DaemonPhase {
    /// Detachment through channel construction and session start.
    Starting,
    /// The accept/signal race loop.
    Running,
    /// Channel resource cleanup.
    Terminating,
    /// The process exit call.
    Exited,
}

/// The triggers that end the running loop.  All four are treated identically.
#[derive(Clone, Copy, Debug, PartialEq, Eq, Structural)]
pub enum ShutdownTrigger {
    /// An interrupt signal from the operator.
    Interrupt,
    /// A terminate signal.
    Terminate,
    /// A quit signal.
    Quit,
    /// A protocol `Stop` request whose response has been produced.
    StopRequest,
}

/// The three continuations of the detachment sequence.  The calling process
/// forks once, the first child forks again, and only the second child goes
/// on as the daemon, detached from any controlling terminal.
#[derive(Clone, Copy, Debug, PartialEq, Eq, Structural)]
pub enum DaemonRole {
    /// The foreground invocation the operator started.
    Originator,
    /// The short-lived first child, reaped quickly.
    Intermediate,
    /// The detached worker that becomes the daemon.
    Worker,
}

/// What each continuation of the detachment does next.
#[derive(Clone, Copy, Debug, PartialEq, Eq, Structural)]
pub enum RoleAction {
    /// Confirm to the operator and exit with success; setup failures found
    /// by the pre-checks were already fatal before this point.
    ConfirmAndExit,
    /// Exit immediately, with success, saying nothing.
    ExitQuietly,
    /// Construct the control channel and run the supervisor.
    Proceed,
}

/// Branches on the detachment outcome: only the worker proceeds to the
/// daemon's actual logic; the originator confirms and exits, and the
/// intermediate exits at once.
pub fn role_action(role: DaemonRole) -> (r: RoleAction)
    ensures
        r == match role {
            DaemonRole::Originator => RoleAction::ConfirmAndExit,
            DaemonRole::Intermediate => RoleAction::ExitQuietly,
            DaemonRole::Worker => RoleAction::Proceed,
        },
{
    match role {
        DaemonRole::Originator => RoleAction::ConfirmAndExit,
        DaemonRole::Intermediate => RoleAction::ExitQuietly,
        DaemonRole::Worker => RoleAction::Proceed,
    }
}

/// The daemon's control state: its lifecycle phase, and whether the
/// rendezvous path currently exists as a result of this daemon's actions.
/// The driving process performs the matching filesystem and socket
/// operations; each transition here states what must hold of them.
#[derive(Clone, Copy, Debug, PartialEq, Eq, Structural)]
pub struct DaemonMachine {
    pub phase: DaemonPhase,
    pub rendezvous_exists: bool,
}

/// The state after a shutdown trigger: the loop exits into `Terminating`,
/// identically for every trigger, with the rendezvous still in place.
pub open spec fn spec_after_trigger(m: DaemonMachine, t: ShutdownTrigger) -> DaemonMachine {
    DaemonMachine { phase: DaemonPhase::Terminating, rendezvous_exists: m.rendezvous_exists }
}

/// The state after cleanup: the rendezvous path is removed and the process
/// proceeds to exit.
pub open spec fn spec_after_cleanup(m: DaemonMachine) -> DaemonMachine {
    DaemonMachine { phase: DaemonPhase::Exited, rendezvous_exists: false }
}

/// The state after serving one request while running: a `Stop` moves the
/// machine to `Terminating`, an `Info` leaves it unchanged.
pub open spec fn spec_after_request(m: DaemonMachine, req: JsonRequest) -> DaemonMachine {
    if req is Stop {
        DaemonMachine { phase: DaemonPhase::Terminating, rendezvous_exists: m.rendezvous_exists }
    } else {
        m
    }
}

impl DaemonMachine {
    /// Requests are accepted only while the loop is running.
    pub open spec fn accepts_requests(&self) -> bool {
        self.phase is Running
    }

    /// A fresh machine, before the channel is bound.
    pub fn new() -> (r: Self)
        ensures
            r.phase is Starting,
            !r.rendezvous_exists,
    {
        DaemonMachine { phase: DaemonPhase::Starting, rendezvous_exists: false }
    }

    /// Binding the control channel.  Binding fails closed when the rendezvous
    /// path already exists — it is never reused or overwritten — and succeeds
    /// exactly when it does not, after which the path exists and is owned by
    /// this daemon.
    pub fn bind_channel(&mut self, path_exists: bool) -> (r: Result<(), SockError>)
        requires
            old(self).phase is Starting,
            !old(self).rendezvous_exists,
        ensures
            r == if path_exists {
                Result::<(), SockError>::Err(SockError::AlreadyExists)
            } else {
                Result::<(), SockError>::Ok(())
            },
            path_exists ==> *final(self) == *old(self),
            !path_exists ==> *final(self) == (DaemonMachine {
                phase: DaemonPhase::Starting,
                rendezvous_exists: true,
            }),
    {
        if path_exists {
            Err(SockError::AlreadyExists)
        } else {
            self.rendezvous_exists = true;
            Ok(())
        }
    }

    /// Entering the accept/signal race loop once the channel is bound and the
    /// session has been started.
    pub fn start_running(&mut self)
        requires
            old(self).phase is Starting,
            old(self).rendezvous_exists,
        ensures
            *final(self) == (DaemonMachine { phase: DaemonPhase::Running, rendezvous_exists: true }),
    {
        self.phase = DaemonPhase::Running;
    }

    /// One shutdown trigger arrived while running: the loop exits.  Every
    /// trigger — interrupt, terminate, quit, or a protocol stop — produces
    /// the same successor state.
    pub fn on_shutdown_trigger(&mut self, t: ShutdownTrigger)
        requires
            old(self).phase is Running,
        ensures
            *final(self) == spec_after_trigger(*old(self), t),
            !final(self).accepts_requests(),
    {
        self.phase = DaemonPhase::Terminating;
    }

    /// Rendezvous cleanup on the termination path: after it, the rendezvous
    /// path no longer exists and the process proceeds to exit.  A failure to
    /// remove the path is fatal in the driving process and never reaches this
    /// state.
    pub fn cleanup(&mut self)
        requires
            old(self).phase is Terminating,
        ensures
            *final(self) == spec_after_cleanup(*old(self)),
            !final(self).rendezvous_exists,
            final(self).phase is Exited,
    {
        self.phase = DaemonPhase::Exited;
        self.rendezvous_exists = false;
    }

    /// Serves one request while running.  The reply is the session's — a
    /// `Stop` is answered with its `StopResult` whatever state the engine
    /// reports — and a `Stop` additionally moves the machine out of the
    /// request-accepting phase, so no further request is processed after the
    /// one `StopResult` has been produced.  The driving process sends the
    /// reply before it acts on the phase change, so the response is on its
    /// way before termination begins.
    pub fn process_request(
        &mut self,
        session: &Session,
        req: JsonRequest,
        report: &StatusReport,
    ) -> (r: Reply)
        requires
            old(self).accepts_requests(),
        ensures
            r.shutdown == (req is Stop),
            req is Stop ==> r.response.model() == session.stop_response_model(),
            req is Info ==> r.response.model() == session.info_response_model(*report),
            *final(self) == spec_after_request(*old(self), req),
            req is Stop ==> !final(self).accepts_requests(),
            req is Info ==> *final(self) == *old(self),
    {
        let reply = session.handle_request(req, report);
        if reply.shutdown {
            self.on_shutdown_trigger(ShutdownTrigger::StopRequest);
        }
        reply
    }
}

/// Serves one connection's frame payload while running: the request is
/// decoded, answered, and the response encoded, all in one step.  A payload
/// that is no request gets no response and changes nothing; a `Stop` payload
/// is answered with the one encoded `StopResult` and ends request
/// processing; an `Info` payload is answered with the encoded `InfoResult`
/// for the engine's reading and leaves the machine running.  The driving
/// process writes the returned bytes before it acts on the shutdown flag.
pub fn serve_payload(
    machine: &mut DaemonMachine,
    session: &Session,
    report: &StatusReport,
    payload: &Vec<u8>,
) -> (r: Option<(Vec<u8>, bool)>)
    requires
        old(machine).accepts_requests(),
    ensures
        r is None ==> *final(machine) == *old(machine),
        r is None ==> forall|q: JsonRequest| payload@ != spec_enc_request(q),
        forall|q: JsonRequest|
            payload@ == spec_enc_request(q) ==> ({
                &&& r matches Some(rb)
                &&& rb.1 == (q is Stop)
                &&& rb.0@ == spec_enc_response(
                    if q is Stop {
                        session.stop_response_model()
                    } else {
                        session.info_response_model(*report)
                    },
                )
                &&& *final(machine) == spec_after_request(*old(machine), q)
            }),
{
    match parse_request(payload) {
        Option::None => Option::None,
        Option::Some(req) => {
            let reply = machine.process_request(session, req, report);
            let bytes = encode_response(&reply.response);
            Option::Some((bytes, reply.shutdown))
        },
    }
}

/// Law: one termination handler for every trigger.  From any running state,
/// every shutdown trigger — any of the three signals or a protocol stop —
/// leads to exactly the same successor state, so cleanup and exit behaviour
/// cannot differ between an operator signal and an explicit stop.
pub proof fn lemma_unified_shutdown(m: DaemonMachine, t1: ShutdownTrigger, t2: ShutdownTrigger)
    ensures
        spec_after_trigger(m, t1) == spec_after_trigger(m, t2),
{
}

/// Law: normal termination removes the rendezvous.  From any running state,
/// any shutdown trigger followed by cleanup leaves the process exited with
/// the rendezvous path gone.
pub proof fn lemma_termination_clears_rendezvous(m: DaemonMachine, t: ShutdownTrigger)
    requires
        m.phase is Running,
    ensures
        !spec_after_cleanup(spec_after_trigger(m, t)).rendezvous_exists,
        spec_after_cleanup(spec_after_trigger(m, t)).phase is Exited,
{
}

/// Law: a `Stop` is answered exactly once and ends request processing.  After
/// a `Stop` request is served, the machine no longer accepts requests, so no
/// second request — and in particular no second `StopResult` — can follow.
pub proof fn lemma_stop_ends_request_processing(m: DaemonMachine)
    requires
        m.accepts_requests(),
    ensures
        !spec_after_request(m, JsonRequest::Stop).accepts_requests(),
        spec_after_request(m, JsonRequest::Info).accepts_requests(),
{
}

} // verus!

//! The session coordinator's state: the server role's lifecycle from port
//! allocation to the recorded report, and the initiator role's entry
//! steps.  Process and socket work happens outside; every decision about
//! it is taken here.

use vstd::prelude::*;

use crate::connection_manager::{InitiatorReply, Request, ServerReply};

verus! {

/// Relies on `uuid::Uuid::new_v4` and its hyphenated `to_string`: a fresh
/// random session identifier, always 36 characters long.
#[verifier::external_body]
fn new_uuid() -> (r: String)
    ensures
        r@.len() == 36,
{
    uuid::Uuid::new_v4().to_string()
}

/// Relies on `portpicker::pick_unused_port`: a port that was free when
/// probed, if the host offered one; nothing more is promised of it.
#[verifier::external_body]
fn pick_unused_port() -> Option<u16> {
    portpicker::pick_unused_port()
}

/// Relies on `port_scanner::local_port_available`: whether the port could
/// be bound at the moment of the probe; nothing more is promised.
#[verifier::external_body]
fn local_port_available(port: u16) -> bool {
    port_scanner::local_port_available(port)
}

/// Where a server-role session stands.  `Failed` is terminal: no
/// transition leaves it, and a report key exists only after a clean exit.
#[derive(Clone, Copy, PartialEq, Eq, Structural, Debug)]
pub enum SessionState {
    Created,
    PortAllocated,
    ChildSpawned,
    PortBound,
    Running,
    Exited,
    Reported,
    Failed,
}

/// One server-role session: the descriptor it serves, the port allocated
/// for it, and how far it has come.
pub struct ServerSession {
    pub state: SessionState,
    pub request: Request,
    pub port: Option<u16>,
}

impl ServerSession {
    /// A fresh session for one incoming descriptor.
    pub fn new(request: Request) -> (r: ServerSession)
        ensures
            r.state == SessionState::Created,
            r.request == request,
            r.port.is_none(),
    {
        ServerSession { state: SessionState::Created, request, port: None }
    }

    /// Allocates the benchmark port.  On success the session holds the
    /// port, the descriptor is rewritten to carry it, and the reply for
    /// the caller names it; when the host offers no port, the session
    /// fails and no background work may start.
    pub fn allocate_port(&mut self) -> (r: Result<ServerReply, &'static str>)
        requires
            old(self).state == SessionState::Created,
        ensures
            final(self).request.uuid == old(self).request.uuid,
            final(self).request.server_address == old(self).request.server_address,
            final(self).request.iterations == old(self).request.iterations,
            final(self).request.message_size == old(self).request.message_size,
            final(self).request.mtu == old(self).request.mtu,
            final(self).request.duration == old(self).request.duration,
            final(self).request.operation == old(self).request.operation,
            final(self).request.mode == old(self).request.mode,
            final(self).request.cm == old(self).request.cm,
            match r {
                Ok(reply) => {
                    &&& final(self).state == SessionState::PortAllocated
                    &&& final(self).port is Some
                    &&& reply.port == final(self).port.unwrap() as u32
                    &&& final(self).request.server_port == reply.port
                },
                Err(_) => final(self).state == SessionState::Failed && final(self).port == old(
                    self,
                ).port && final(self).request.server_port == old(self).request.server_port,
            },
    {
        match pick_unused_port() {
            Some(p) => {
                self.state = SessionState::PortAllocated;
                self.port = Some(p);
                self.request.server_port = p as u32;
                Ok(ServerReply { port: p as u32 })
            },
            None => {
                self.state = SessionState::Failed;
                Err("no free port")
            },
        }
    }

    /// Records that the benchmark child was spawned.
    pub fn mark_child_spawned(&mut self)
        requires
            old(self).state == SessionState::PortAllocated,
        ensures
            final(self).state == SessionState::ChildSpawned,
            final(self).request == old(self).request,
            final(self).port == old(self).port,
    {
        self.state = SessionState::ChildSpawned;
    }

    /// Records that spawning the child failed; the session is over.
    pub fn mark_spawn_failed(&mut self)
        requires
            old(self).state == SessionState::ChildSpawned || old(self).state
                == SessionState::PortAllocated,
        ensures
            final(self).state == SessionState::Failed,
            final(self).request == old(self).request,
            final(self).port == old(self).port,
    {
        self.state = SessionState::Failed;
    }

    /// Probes the allocated port once.  When the probe finds the port no
    /// longer available the child has bound it: the session is ready and
    /// the caller may answer the peer.  Whatever the probe returns, the
    /// session either stays where it was or moves to `PortBound`.
    pub fn poll_port(&mut self) -> (bound: bool)
        requires
            old(self).state == SessionState::ChildSpawned,
            old(self).port is Some,
        ensures
            final(self).request == old(self).request,
            final(self).port == old(self).port,
            bound ==> final(self).state == SessionState::PortBound,
            !bound ==> final(self).state == SessionState::ChildSpawned,
    {
        let p = match self.port {
            Some(p) => p,
            None => {
                return false;
            },
        };
        if !local_port_available(p) {
            self.state = SessionState::PortBound;
            true
        } else {
            false
        }
    }

    /// The session runs once readiness was signalled to the caller.
    pub fn mark_running(&mut self)
        requires
            old(self).state == SessionState::PortBound,
        ensures
            final(self).state == SessionState::Running,
            final(self).request == old(self).request,
            final(self).port == old(self).port,
    {
        self.state = SessionState::Running;
    }

    /// Records the child's exit: a clean exit makes the session's report
    /// due, any other exit fails the session and no report is stored.
    pub fn on_child_exit(&mut self, success: bool)
        requires
            old(self).state == SessionState::Running,
        ensures
            final(self).request == old(self).request,
            final(self).port == old(self).port,
            success ==> final(self).state == SessionState::Exited,
            !success ==> final(self).state == SessionState::Failed,
    {
        if success {
            self.state = SessionState::Exited;
        } else {
            self.state = SessionState::Failed;
        }
    }

    /// The key the session's report is filed under; it exists only after
    /// a clean exit.
    pub fn report_key(&self) -> (r: (String, String))
        requires
            self.state == SessionState::Exited,
            self.request.uuid is Some,
        ensures
            r.0@ == self.request.uuid.unwrap()@,
            r.1@ == "server"@,
    {
        let uuid = match &self.request.uuid {
            Some(u) => u.clone(),
            None => String::new(),
        };
        (uuid, "server".to_owned())
    }

    /// Marks the report as filed; the session is complete.
    pub fn mark_reported(&mut self)
        requires
            old(self).state == SessionState::Exited,
        ensures
            final(self).state == SessionState::Reported,
            final(self).request == old(self).request,
            final(self).port == old(self).port,
    {
        self.state = SessionState::Reported;
    }
}

/// The initiator role's entry step: the descriptor is given its session
/// identifier, assigned fresh only when it arrived without one, and the
/// caller's reply carries that identifier.  Everything else about the
/// descriptor is untouched.
pub fn initiator_entry(req: &mut Request) -> (r: InitiatorReply)
    ensures
        final(req).uuid is Some,
        r.uuid@ == final(req).uuid.unwrap()@,
        old(req).uuid matches Some(u) ==> final(req).uuid.unwrap()@ == u@,
        old(req).uuid is None ==> final(req).uuid.unwrap()@.len() == 36,
        final(req).server_address == old(req).server_address,
        final(req).server_port == old(req).server_port,
        final(req).iterations == old(req).iterations,
        final(req).message_size == old(req).message_size,
        final(req).mtu == old(req).mtu,
        final(req).duration == old(req).duration,
        final(req).operation == old(req).operation,
        final(req).mode == old(req).mode,
        final(req).cm == old(req).cm,
{
    let uuid = match &req.uuid {
        Some(u) => u.clone(),
        None => new_uuid(),
    };
    req.uuid = Some(uuid.clone());
    InitiatorReply { uuid }
}

/// The initiator's rewrite after the peer answered: the descriptor now
/// points at the port the peer allocated; nothing else changes.
pub fn apply_server_reply(req: &mut Request, reply: &ServerReply)
    ensures
        final(req).server_port == reply.port,
        final(req).uuid == old(req).uuid,
        final(req).server_address == old(req).server_address,
        final(req).iterations == old(req).iterations,
        final(req).message_size == old(req).message_size,
        final(req).mtu == old(req).mtu,
        final(req).duration == old(req).duration,
        final(req).operation == old(req).operation,
        final(req).mode == old(req).mode,
        final(req).cm == old(req).cm,
{
    req.server_port = reply.port;
}

} // verus!

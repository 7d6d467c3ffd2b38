//! The telnet server's decisions: the order of its start-up and which
//! connections it admits. The embedding worker, the listener and the sessions
//! themselves are run by the caller, which reports what happened.

use vstd::prelude::*;
use crate::units::MaxK;

verus! {

/// The result-set ceiling of a telnet search.
pub const SESSION_MAX_K: usize = 200;

/// How far the server has come.
#[derive(Debug, Clone, Copy, PartialEq, Eq, Structural)]
pub enum ServerPhase {
    /// The active model is being looked up.
    Resolving,
    /// The embedding worker is loading the model.
    Loading,
    /// The listening socket is being bound.
    Binding,
    /// Connections are accepted.
    Serving,
    /// A failure ended the server.
    Stopped,
}

/// What the caller reports.
#[derive(Debug, Clone, Copy, PartialEq, Eq, Structural)]
pub enum ServerEvent {
    /// The lookup of the active model ended.
    ModelResolved { ok: bool },
    /// The worker reported whether the model is loaded.
    WorkerReady { ok: bool },
    /// The worker went away before it reported.
    WorkerDied,
    /// Binding the listener ended.
    Bound { ok: bool },
    /// A client connected.
    Accepted,
    /// Accepting failed.
    AcceptFailed,
    /// A session ended, with or without an error.
    SessionEnded,
}

/// Why the server stopped.
#[derive(Debug, Clone, Copy, PartialEq, Eq, Structural)]
pub enum ServerError {
    NoActiveModel,
    ModelLoadFailed,
    WorkerDied,
    BindFailed,
    AcceptFailed,
}

/// What the caller is to do next.
#[derive(Debug, Clone, Copy, PartialEq, Eq, Structural)]
pub enum ServerAction {
    /// Start the embedding worker on the active model.
    LoadModel,
    /// Bind the listener.
    Bind,
    /// Wait for the next connection.
    Listen,
    /// Run a session on the new connection.
    Serve,
    /// Close the new connection: the connection cap is reached.
    Refuse,
    /// Give up with this error.
    Fail(ServerError),
    /// The event does not belong to this phase.
    Ignore,
}

/// The server between two events.
#[derive(Debug, Clone, Copy, PartialEq, Eq, Structural)]
pub struct ServerState {
    pub phase: ServerPhase,
    /// Sessions that are running.
    pub open: usize,
    /// The most sessions that may run at once.
    pub max_connections: usize,
}

/// The reaction to one event.
pub open spec fn server_step(s: ServerState, ev: ServerEvent) -> (ServerState, ServerAction) {
    match (s.phase, ev) {
        (ServerPhase::Resolving, ServerEvent::ModelResolved { ok }) => advance(
            s,
            ok,
            ServerPhase::Loading,
            ServerAction::LoadModel,
            ServerError::NoActiveModel,
        ),
        (ServerPhase::Loading, ServerEvent::WorkerReady { ok }) => advance(
            s,
            ok,
            ServerPhase::Binding,
            ServerAction::Bind,
            ServerError::ModelLoadFailed,
        ),
        (ServerPhase::Loading, ServerEvent::WorkerDied) => stopped(s, ServerError::WorkerDied),
        (ServerPhase::Binding, ServerEvent::Bound { ok }) => advance(
            s,
            ok,
            ServerPhase::Serving,
            ServerAction::Listen,
            ServerError::BindFailed,
        ),
        (ServerPhase::Serving, ServerEvent::Accepted) => if s.open < s.max_connections {
            (ServerState { open: (s.open + 1) as usize, ..s }, ServerAction::Serve)
        } else {
            (s, ServerAction::Refuse)
        },
        (ServerPhase::Serving, ServerEvent::AcceptFailed) => stopped(s, ServerError::AcceptFailed),
        (ServerPhase::Serving, ServerEvent::SessionEnded) => if s.open > 0 {
            (ServerState { open: (s.open - 1) as usize, ..s }, ServerAction::Listen)
        } else {
            (s, ServerAction::Ignore)
        },
        _ => (s, ServerAction::Ignore),
    }
}

/// Success moves on to `phase` with `action`; failure stops with `error`.
pub open spec fn advance(
    s: ServerState,
    ok: bool,
    phase: ServerPhase,
    action: ServerAction,
    error: ServerError,
) -> (ServerState, ServerAction) {
    if ok {
        (ServerState { phase, ..s }, action)
    } else {
        stopped(s, error)
    }
}

/// The server given up with `error`.
pub open spec fn stopped(s: ServerState, error: ServerError) -> (ServerState, ServerAction) {
    (ServerState { phase: ServerPhase::Stopped, ..s }, ServerAction::Fail(error))
}

/// The server after a whole history of events.
pub open spec fn server_after(s: ServerState, events: Seq<ServerEvent>) -> ServerState
    decreases events.len(),
{
    if events.len() == 0 {
        s
    } else {
        server_step(server_after(s, events.drop_last()), events.last()).0
    }
}

impl ServerState {
    /// A server about to look up its model.
    pub fn new(max_connections: usize) -> (r: Self)
        ensures
            r == (ServerState { phase: ServerPhase::Resolving, open: 0, max_connections }),
    {
        ServerState { phase: ServerPhase::Resolving, open: 0, max_connections }
    }

    /// Takes in one event and says what to do next.
    pub fn on_event(&mut self, ev: ServerEvent) -> (action: ServerAction)
        ensures
            (*final(self), action) == server_step(*old(self), ev),
    {
        match (self.phase, ev) {
            (ServerPhase::Resolving, ServerEvent::ModelResolved { ok }) => {
                self.go(ok, ServerPhase::Loading, ServerAction::LoadModel, ServerError::NoActiveModel)
            },
            (ServerPhase::Loading, ServerEvent::WorkerReady { ok }) => {
                self.go(ok, ServerPhase::Binding, ServerAction::Bind, ServerError::ModelLoadFailed)
            },
            (ServerPhase::Loading, ServerEvent::WorkerDied) => {
                self.go(false, ServerPhase::Stopped, ServerAction::Ignore, ServerError::WorkerDied)
            },
            (ServerPhase::Binding, ServerEvent::Bound { ok }) => {
                self.go(ok, ServerPhase::Serving, ServerAction::Listen, ServerError::BindFailed)
            },
            (ServerPhase::Serving, ServerEvent::Accepted) => {
                if self.open < self.max_connections {
                    self.open = self.open + 1;
                    ServerAction::Serve
                } else {
                    ServerAction::Refuse
                }
            },
            (ServerPhase::Serving, ServerEvent::AcceptFailed) => {
                self.go(false, ServerPhase::Stopped, ServerAction::Ignore, ServerError::AcceptFailed)
            },
            (ServerPhase::Serving, ServerEvent::SessionEnded) => {
                if self.open > 0 {
                    self.open = self.open - 1;
                    ServerAction::Listen
                } else {
                    ServerAction::Ignore
                }
            },
            _ => ServerAction::Ignore,
        }
    }

    fn go(
        &mut self,
        ok: bool,
        phase: ServerPhase,
        action: ServerAction,
        error: ServerError,
    ) -> (r: ServerAction)
        ensures
            (*final(self), r) == advance(*old(self), ok, phase, action, error),
    {
        if ok {
            self.phase = phase;
            action
        } else {
            self.phase = ServerPhase::Stopped;
            ServerAction::Fail(error)
        }
    }
}

/// The result-set ceiling that each session searches with.
pub fn session_max_k() -> (r: MaxK)
    ensures
        r == MaxK(SESSION_MAX_K),
{
    MaxK(SESSION_MAX_K)
}

/// The connection cap holds at all times: no history of events lets more
/// sessions run than the cap allows.
pub proof fn connection_cap_holds(s: ServerState, events: Seq<ServerEvent>)
    requires
        s.open <= s.max_connections,
    ensures
        server_after(s, events).open <= server_after(s, events).max_connections,
        server_after(s, events).max_connections == s.max_connections,
    decreases events.len(),
{
    if events.len() > 0 {
        connection_cap_holds(s, events.drop_last());
    }
}

/// Nothing is served before the model is loaded and the socket is bound: a
/// server that serves after some history has seen a resolved model, a ready
/// worker and a bound listener in it.
pub proof fn serving_needs_a_full_start(max_connections: usize, events: Seq<ServerEvent>)
    ensures
        ({
            let s = server_after(
                ServerState { phase: ServerPhase::Resolving, open: 0, max_connections },
                events,
            );
            &&& s.phase == ServerPhase::Loading || s.phase == ServerPhase::Binding || s.phase
                == ServerPhase::Serving ==> events.contains(ServerEvent::ModelResolved { ok: true })
            &&& s.phase == ServerPhase::Binding || s.phase == ServerPhase::Serving
                ==> events.contains(ServerEvent::WorkerReady { ok: true })
            &&& s.phase == ServerPhase::Serving ==> events.contains(ServerEvent::Bound { ok: true })
            &&& s.open > 0 ==> events.contains(ServerEvent::Bound { ok: true })
        }),
    decreases events.len(),
{
    if events.len() > 0 {
        serving_needs_a_full_start(max_connections, events.drop_last());
        let before = events.drop_last();
        assert forall|e: ServerEvent| before.contains(e) implies events.contains(e) by {
            let i = choose|i: int| 0 <= i < before.len() && before[i] == e;
            assert(events[i] == e);
        }
        assert(events[events.len() - 1] == events.last());
    }
}

/// A server comes up step by step: once the model is found it is loaded, once
/// it is loaded the listener is bound, and once that is bound connections are
/// awaited; a step that fails stops the server with its own error.
pub proof fn starting_up_goes_step_by_step(open: usize, max_connections: usize, ok: bool)
    ensures
        ({
            let at = |phase: ServerPhase| ServerState { phase, open, max_connections };
            &&& server_step(
                at(ServerPhase::Resolving),
                ServerEvent::ModelResolved { ok },
            ) == if ok {
                (at(ServerPhase::Loading), ServerAction::LoadModel)
            } else {
                (at(ServerPhase::Stopped), ServerAction::Fail(ServerError::NoActiveModel))
            }
            &&& server_step(at(ServerPhase::Loading), ServerEvent::WorkerReady { ok }) == if ok {
                (at(ServerPhase::Binding), ServerAction::Bind)
            } else {
                (at(ServerPhase::Stopped), ServerAction::Fail(ServerError::ModelLoadFailed))
            }
            &&& server_step(at(ServerPhase::Loading), ServerEvent::WorkerDied) == (
                at(ServerPhase::Stopped),
                ServerAction::Fail(ServerError::WorkerDied),
            )
            &&& server_step(at(ServerPhase::Binding), ServerEvent::Bound { ok }) == if ok {
                (at(ServerPhase::Serving), ServerAction::Listen)
            } else {
                (at(ServerPhase::Stopped), ServerAction::Fail(ServerError::BindFailed))
            }
        }),
{
}

/// A connection is served exactly where the cap leaves room for it, and
/// refused otherwise; the end of a session makes room for another one.
pub proof fn connections_are_served_while_there_is_room(s: ServerState)
    requires
        s.phase == ServerPhase::Serving,
    ensures
        s.open < s.max_connections ==> server_step(s, ServerEvent::Accepted).1
            == ServerAction::Serve && server_step(s, ServerEvent::Accepted).0.open == s.open + 1,
        s.open >= s.max_connections ==> server_step(s, ServerEvent::Accepted) == (
            s,
            ServerAction::Refuse,
        ),
        s.open < s.max_connections ==> server_step(
            server_step(s, ServerEvent::Accepted).0,
            ServerEvent::SessionEnded,
        ).0 == s,
        s.open > 0 ==> server_step(s, ServerEvent::SessionEnded).0.open == s.open - 1,
        server_step(s, ServerEvent::AcceptFailed).1 == ServerAction::Fail(
            ServerError::AcceptFailed,
        ),
{
}

/// A server that has stopped stays so.
pub proof fn a_stopped_server_stays_stopped(s: ServerState, ev: ServerEvent)
    requires
        s.phase == ServerPhase::Stopped,
    ensures
        server_step(s, ev) == (s, ServerAction::Ignore),
{
}

} // verus!

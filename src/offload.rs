//! The offload transport's decisions: how a client reads the fate of a
//! request, and the server's loop between its inbox and its running tasks.
use vstd::prelude::*;

use crate::error::ErrorKind;

verus! {

/// The backend that forwards every request to the in-process adapter.
pub struct FsOffloadDefault;

/// What a client returns for a request: the reply when the request was sent
/// and a reply came back; otherwise the connection was aborted.
pub fn settle<T>(sent: bool, reply: Option<Result<T, ErrorKind>>) -> (r: Result<T, ErrorKind>)
    ensures
        !sent ==> r == Err::<T, ErrorKind>(ErrorKind::ConnectionAborted),
        sent && reply is None ==> r == Err::<T, ErrorKind>(ErrorKind::ConnectionAborted),
        sent && reply is Some ==> r == reply->Some_0,
{
    if !sent {
        return Err(ErrorKind::ConnectionAborted);
    }
    match reply {
        Some(res) => res,
        None => Err(ErrorKind::ConnectionAborted),
    }
}

/// What woke the server.
#[derive(Clone, Copy, Debug, PartialEq, Eq, Structural)]
pub enum ServerEvent {
    /// A request arrived in the inbox.
    Request,
    /// A running task finished.
    TaskDone,
    /// The inbox closed: no client is left.
    InboxClosed,
}

/// What the server does next.
#[derive(Clone, Copy, Debug, PartialEq, Eq, Structural)]
pub enum ServerAction {
    /// Start a task for the request that arrived, and keep serving.
    Spawn,
    /// Keep serving.
    Serve,
    /// Stop: the inbox is closed and no task runs.
    Stop,
}

/// The server's state: whether its inbox is open and how many tasks run.
#[derive(Clone, Copy, Debug, PartialEq, Eq, Structural)]
pub struct ServerState {
    pub inbox_open: bool,
    pub in_flight: u64,
}

/// The state after event `e`.
pub open spec fn server_next(s: ServerState, e: ServerEvent) -> ServerState {
    match e {
        ServerEvent::Request => ServerState { in_flight: (s.in_flight + 1) as u64, ..s },
        ServerEvent::TaskDone => ServerState {
            in_flight: if s.in_flight > 0 {
                (s.in_flight - 1) as u64
            } else {
                0
            },
            ..s
        },
        ServerEvent::InboxClosed => ServerState { inbox_open: false, ..s },
    }
}

impl ServerState {
    /// A server with an open inbox and no task.
    pub fn new() -> (r: ServerState)
        ensures
            r == (ServerState { inbox_open: true, in_flight: 0 }),
    {
        ServerState { inbox_open: true, in_flight: 0 }
    }

    /// Whether the server waits on its inbox.
    pub fn waits_on_inbox(&self) -> (r: bool)
        ensures
            r == self.inbox_open,
    {
        self.inbox_open
    }

    /// Whether the server waits on its running tasks.
    pub fn waits_on_tasks(&self) -> (r: bool)
        ensures
            r == (self.in_flight > 0),
    {
        self.in_flight > 0
    }

    /// Takes event `e` and says what to do: spawn a task per request, and
    /// stop once the inbox is closed and every task finished.
    pub fn step(&mut self, e: ServerEvent) -> (r: ServerAction)
        requires
            e == ServerEvent::Request ==> old(self).in_flight < u64::MAX,
        ensures
            *final(self) == server_next(*old(self), e),
            !final(self).inbox_open && final(self).in_flight == 0 ==> r == ServerAction::Stop,
            !(!final(self).inbox_open && final(self).in_flight == 0) ==> r == (if e
                == ServerEvent::Request {
                ServerAction::Spawn
            } else {
                ServerAction::Serve
            }),
    {
        match e {
            ServerEvent::Request => {
                self.in_flight = self.in_flight + 1;
            },
            ServerEvent::TaskDone => {
                if self.in_flight > 0 {
                    self.in_flight = self.in_flight - 1;
                }
            },
            ServerEvent::InboxClosed => {
                self.inbox_open = false;
            },
        }
        if !self.inbox_open && self.in_flight == 0 {
            ServerAction::Stop
        } else if e == ServerEvent::Request {
            ServerAction::Spawn
        } else {
            ServerAction::Serve
        }
    }
}

} // verus!

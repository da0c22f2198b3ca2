//! The registry as mathematics: its state, the calls made on it and what
//! each call does to the state.
//!
//! [`TerminalManager`](crate::terminal::TerminalManager) shows a
//! [`RegistryState`] as its view, and each of its operations states in its
//! contract that it moves the view as [`RegistryState::after`] says and fails
//! as [`RegistryState::refusal`] says.

use vstd::prelude::*;
use crate::error::{id_overflow, not_found, TerminalError, TerminalErrorView};
use crate::terminal::{TerminalInfoView, MAX_TERMINAL_ID};
use crate::text::decimal;

verus! {

/// The name a session gets: the one asked for, or `Terminal` and its number.
pub open spec fn session_name(id: u32, requested: Option<Seq<char>>) -> Seq<char> {
    match requested {
        Some(name) => name,
        None => "Terminal "@ + decimal(id as nat),
    }
}

/// The registry as mathematics: the next identifier and the sessions by
/// identifier.
pub struct RegistryState {
    pub next_id: u32,
    pub sessions: Map<u32, TerminalInfoView>,
}

impl RegistryState {
    /// Every session is filed under its own identifier, and every identifier
    /// in use was handed out before the next one.
    pub open spec fn wf(self) -> bool {
        &&& self.next_id >= 1
        &&& self.sessions.dom().finite()
        &&& forall|id: u32| #[trigger]
            self.sessions.contains_key(id) ==> self.sessions[id].id == id && 1 <= id
                < self.next_id
    }

    /// A registry without sessions whose first identifier is `first`.
    pub open spec fn starting_at(first: u32) -> RegistryState {
        RegistryState { next_id: first, sessions: Map::empty() }
    }

    /// No identifier is left to hand out.
    pub open spec fn exhausted(self) -> bool {
        self.next_id >= MAX_TERMINAL_ID
    }

    /// The metadata of the session that the next creation registers.
    pub open spec fn next_info(
        self,
        cwd: Seq<char>,
        name: Option<Seq<char>>,
        created_at: Seq<char>,
    ) -> TerminalInfoView {
        TerminalInfoView {
            id: self.next_id,
            name: session_name(self.next_id, name),
            cwd,
            created_at,
        }
    }

    /// The registry after the session described by `info` was registered
    /// under the next identifier.
    pub open spec fn register(self, info: TerminalInfoView) -> RegistryState {
        RegistryState {
            next_id: (self.next_id + 1) as u32,
            sessions: self.sessions.insert(info.id, info),
        }
    }

    /// The registry after session `id` was removed.
    pub open spec fn close(self, id: u32) -> RegistryState {
        RegistryState { next_id: self.next_id, sessions: self.sessions.remove(id) }
    }

    /// The registry after the working directory of session `id` was replaced.
    pub open spec fn update_cwd(self, id: u32, cwd: Seq<char>) -> RegistryState {
        RegistryState {
            next_id: self.next_id,
            sessions: self.sessions.insert(
                id,
                TerminalInfoView { cwd, ..self.sessions[id] },
            ),
        }
    }
}

/// One call on the registry, with the values it was given.
pub enum Call {
    /// Create a session; `created_at` is what the clock said.
    Spawn { cwd: Seq<char>, name: Option<Seq<char>>, created_at: Seq<char> },
    /// Write to a session.
    Write { id: u32 },
    /// Resize a session.
    Resize { id: u32 },
    /// Close a session.
    Close { id: u32 },
    /// Replace the working directory in a session's metadata.
    UpdateCwd { id: u32, cwd: Seq<char> },
    /// List the sessions.
    List,
    /// Close every session.
    CloseAll,
}

impl Call {
    /// The session that the call addresses, if it addresses one.
    pub open spec fn target(self) -> Option<u32> {
        match self {
            Call::Write { id } => Some(id),
            Call::Resize { id } => Some(id),
            Call::Close { id } => Some(id),
            Call::UpdateCwd { id, .. } => Some(id),
            _ => None,
        }
    }

    /// The call takes session `id` out of the registry if it is there.
    pub open spec fn closes(self, id: u32) -> bool {
        self == (Call::Close { id }) || self is CloseAll
    }
}

impl RegistryState {
    /// The error that `call` is answered with, `None` where it succeeds.
    pub open spec fn refusal(self, call: Call) -> Option<TerminalErrorView> {
        match call {
            Call::Spawn { .. } => if self.exhausted() {
                Some(id_overflow())
            } else {
                None
            },
            Call::List => None,
            Call::CloseAll => None,
            _ => if self.sessions.contains_key(call.target()->0) {
                None
            } else {
                Some(not_found(call.target()->0))
            },
        }
    }

    /// The identifier that `call` hands out, `None` where it creates no
    /// session.
    pub open spec fn issued(self, call: Call) -> Option<u32> {
        if call is Spawn && !self.exhausted() {
            Some(self.next_id)
        } else {
            None
        }
    }

    /// The registry after `call`. A call that is refused changes nothing.
    pub open spec fn after(self, call: Call) -> RegistryState {
        if self.refusal(call) is Some {
            self
        } else {
            match call {
                Call::Spawn { cwd, name, created_at } => self.register(
                    self.next_info(cwd, name, created_at),
                ),
                Call::Close { id } => self.close(id),
                Call::UpdateCwd { id, cwd } => self.update_cwd(id, cwd),
                Call::CloseAll => RegistryState::starting_at(self.next_id),
                _ => self,
            }
        }
    }

    /// The registry after the calls of `calls`, made in order.
    pub open spec fn after_all(self, calls: Seq<Call>) -> RegistryState
        decreases calls.len(),
    {
        if calls.len() == 0 {
            self
        } else {
            self.after_all(calls.drop_last()).after(calls.last())
        }
    }
}

/// The error inside a result, `None` where the result is a success.
pub open spec fn error_of<T>(r: Result<T, TerminalError>) -> Option<TerminalErrorView> {
    match r {
        Ok(_) => None,
        Err(e) => Some(e@),
    }
}

} // verus!

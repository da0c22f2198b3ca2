//! Terminal sessions: their metadata, the registry that tracks them and the
//! identifiers it hands out.

use std::collections::HashMap;
use vstd::prelude::*;
use vstd::std_specs::hash::spec_hash_map_iter;
use vstd::std_specs::iter::IteratorSpec;
use vstd::utf8::encode_utf8;
use crate::error::{id_overflow, not_found, TerminalError};
use crate::filesystem::home_directory;
use crate::registry::{error_of, Call, RegistryState};
use crate::text::{push_decimal, text_of};

verus! {

broadcast use vstd::std_specs::hash::group_hash_axioms;

/// Rows of a freshly opened pseudo-terminal.
pub const DEFAULT_TERMINAL_ROWS: u16 = 24;

/// Columns of a freshly opened pseudo-terminal.
pub const DEFAULT_TERMINAL_COLS: u16 = 80;

/// Identifiers are handed out below this bound; at the bound, creation fails.
pub const MAX_TERMINAL_ID: u32 = 0xFFFF_FFFE;

/// The geometry of a pseudo-terminal, in character cells and in pixels.
#[derive(Clone, Copy, Debug, PartialEq, Eq, Structural)]
pub struct TerminalSize {
    pub rows: u16,
    pub cols: u16,
    pub pixel_width: u16,
    pub pixel_height: u16,
}

impl TerminalSize {
    /// A geometry of `cols` by `rows` cells that leaves the pixel size unused.
    pub open spec fn cells(cols: u16, rows: u16) -> TerminalSize {
        TerminalSize { rows, cols, pixel_width: 0, pixel_height: 0 }
    }

    /// Builds a geometry of `cols` by `rows` cells that leaves the pixel size
    /// unused.
    pub fn from_cells(cols: u16, rows: u16) -> (size: TerminalSize)
        ensures
            size == TerminalSize::cells(cols, rows),
    {
        TerminalSize { rows, cols, pixel_width: 0, pixel_height: 0 }
    }
}

/// The child process of a session: what to run, where, and with which
/// additions to the environment.
#[derive(Debug)]
pub struct ShellCommand {
    pub program: String,
    pub args: Vec<String>,
    pub cwd: String,
    pub env: Vec<(String, String)>,
}

/// The mathematical content of a [`ShellCommand`].
pub struct ShellCommandView {
    pub program: Seq<char>,
    pub args: Seq<Seq<char>>,
    pub cwd: Seq<char>,
    pub env: Seq<(Seq<char>, Seq<char>)>,
}

impl View for ShellCommand {
    type V = ShellCommandView;

    open spec fn view(&self) -> ShellCommandView {
        ShellCommandView {
            program: self.program@,
            args: self.args@.map_values(|arg: String| arg@),
            cwd: self.cwd@,
            env: self.env@.map_values(|pair: (String, String)| (pair.0@, pair.1@)),
        }
    }
}

/// The interactive shell of a session that starts in `cwd`. Its environment
/// advertises a terminal with 256 and with 24-bit colours.
pub open spec fn interactive_shell(cwd: Seq<char>) -> ShellCommandView {
    ShellCommandView {
        program: "powershell.exe"@,
        args: seq!["-NoLogo"@, "-NoExit"@, "-NoProfile"@],
        cwd,
        env: seq![("TERM"@, "xterm-256color"@), ("COLORTERM"@, "truecolor"@)],
    }
}

impl ShellCommand {
    /// Builds the interactive shell of a session that starts in `cwd`.
    pub fn interactive(cwd: String) -> (command: ShellCommand)
        ensures
            command@ == interactive_shell(cwd@),
    {
        let mut args: Vec<String> = Vec::new();
        args.push(String::from_str("-NoLogo"));
        args.push(String::from_str("-NoExit"));
        args.push(String::from_str("-NoProfile"));
        let mut env: Vec<(String, String)> = Vec::new();
        env.push((String::from_str("TERM"), String::from_str("xterm-256color")));
        env.push((String::from_str("COLORTERM"), String::from_str("truecolor")));
        let command = ShellCommand { program: String::from_str("powershell.exe"), args, cwd, env };
        assert(command@.args =~= interactive_shell(cwd@).args);
        assert(command@.env =~= interactive_shell(cwd@).env);
        command
    }
}

/// The directory a session starts in: the one asked for; else the home
/// directory that the environment names; else the current directory.
pub open spec fn working_directory(
    cwd: Option<Seq<char>>,
    userprofile: Option<Seq<char>>,
    home: Option<Seq<char>>,
) -> Seq<char> {
    match cwd {
        Some(dir) => dir,
        None => match home_directory(userprofile, home) {
            Some(dir) => dir,
            None => "."@,
        },
    }
}

/// Picks the directory a session starts in. `userprofile` and `home` are the
/// values of the environment variables of those names, each `None` where the
/// variable is not set.
pub fn resolve_working_directory(
    cwd: Option<String>,
    userprofile: Option<String>,
    home: Option<String>,
) -> (dir: String)
    ensures
        dir@ == working_directory(text_of(cwd), text_of(userprofile), text_of(home)),
{
    match cwd {
        Some(dir) => dir,
        None => match userprofile {
            Some(dir) => dir,
            None => match home {
                Some(dir) => dir,
                None => String::from_str("."),
            },
        },
    }
}

/// What the caller has to do before a session can be registered: open a
/// pseudo-terminal of this size and start this command on it.
#[derive(Debug)]
pub struct SpawnPlan {
    pub size: TerminalSize,
    pub command: ShellCommand,
}

/// What callers are told about a session.
#[derive(Debug)]
pub struct TerminalInfo {
    pub id: u32,
    pub name: String,
    pub cwd: String,
    pub created_at: String,
}

/// The mathematical content of a [`TerminalInfo`].
pub struct TerminalInfoView {
    pub id: u32,
    pub name: Seq<char>,
    pub cwd: Seq<char>,
    pub created_at: Seq<char>,
}

impl View for TerminalInfo {
    type V = TerminalInfoView;

    open spec fn view(&self) -> TerminalInfoView {
        TerminalInfoView {
            id: self.id,
            name: self.name@,
            cwd: self.cwd@,
            created_at: self.created_at@,
        }
    }
}

impl Clone for TerminalInfo {
    fn clone(&self) -> (r: TerminalInfo)
        ensures
            r@ == self@,
    {
        TerminalInfo {
            id: self.id,
            name: self.name.clone(),
            cwd: self.cwd.clone(),
            created_at: self.created_at.clone(),
        }
    }
}

/// The sessions that a table of metadata describes.
spec fn sessions_of(table: Map<u32, TerminalInfo>) -> Map<u32, TerminalInfoView> {
    Map::new(|id: u32| table.contains_key(id), |id: u32| table[id]@)
}

/// Every entry of `table` sits under its own identifier, which lies below
/// `next_id`.
spec fn table_wf(table: Map<u32, TerminalInfo>, next_id: u32) -> bool {
    &&& next_id >= 1
    &&& forall|id: u32| #[trigger]
        table.contains_key(id) ==> table[id].id == id && 1 <= id < next_id
}

proof fn lemma_sessions_of(table: Map<u32, TerminalInfo>, next_id: u32)
    requires
        table.dom().finite(),
        table_wf(table, next_id),
    ensures
        (RegistryState { next_id, sessions: sessions_of(table) }).wf(),
{
    assert(sessions_of(table).dom() =~= table.dom());
}

/// The present moment of the local clock, written as RFC 3339 text such as
/// `1996-12-19T16:39:57-08:00`.
///
/// Calls `chrono::Local::now` and formats what it returns with
/// `chrono::DateTime::to_rfc3339`. Nothing is claimed of the text: it differs
/// from call to call. The call panics on a machine whose clock stands before
/// 1970, and nowhere else.
#[verifier::external_body]
fn current_timestamp() -> String {
    chrono::Local::now().to_rfc3339()
}

/// The registry of terminal sessions and the allocator of their identifiers.
pub struct TerminalManager {
    terminals: HashMap<u32, TerminalInfo>,
    next_id: u32,
}

impl View for TerminalManager {
    type V = RegistryState;

    closed spec fn view(&self) -> RegistryState {
        RegistryState { next_id: self.next_id, sessions: sessions_of(self.terminals@) }
    }
}

impl TerminalManager {
    #[verifier::type_invariant]
    spec fn inv(&self) -> bool {
        table_wf(self.terminals@, self.next_id)
    }

    /// What the invariant of the type says of the view.
    proof fn lemma_wf(&self)
        requires
            self.inv(),
        ensures
            self@.wf(),
    {
        lemma_sessions_of(self.terminals@, self.next_id);
    }

    /// A registry without sessions; the first identifier is 1.
    pub fn new() -> (m: TerminalManager)
        ensures
            m@ == RegistryState::starting_at(1),
    {
        let m = TerminalManager { terminals: HashMap::new(), next_id: 1 };
        assert(m@.sessions =~= Map::empty());
        m
    }

    /// A registry without sessions whose first identifier is `first`, or 1
    /// where `first` is 0.
    pub fn starting_at(first: u32) -> (m: TerminalManager)
        ensures
            m@ == RegistryState::starting_at(if first == 0 { 1 } else { first }),
    {
        let next_id = if first == 0 { 1 } else { first };
        let m = TerminalManager { terminals: HashMap::new(), next_id };
        assert(m@.sessions =~= Map::empty());
        m
    }

    /// Files `info` under its identifier, in place of what was filed there.
    fn file(&mut self, info: TerminalInfo)
        requires
            1 <= info.id < old(self)@.next_id,
        ensures
            final(self)@ == (RegistryState {
                next_id: old(self)@.next_id,
                sessions: old(self)@.sessions.insert(info.id, info@),
            }),
    {
        proof {
            use_type_invariant(&*self);
        }
        let mut terminals: HashMap<u32, TerminalInfo> = HashMap::new();
        std::mem::swap(&mut self.terminals, &mut terminals);
        terminals.insert(info.id, info);
        std::mem::swap(&mut self.terminals, &mut terminals);
        assert(self@.sessions =~= old(self)@.sessions.insert(info.id, info@));
    }

    /// Takes out what is filed under `id`, if anything.
    fn unfile(&mut self, id: u32) -> (removed: bool)
        ensures
            removed == old(self)@.sessions.contains_key(id),
            final(self)@ == old(self)@.close(id),
    {
        proof {
            use_type_invariant(&*self);
        }
        let mut terminals: HashMap<u32, TerminalInfo> = HashMap::new();
        std::mem::swap(&mut self.terminals, &mut terminals);
        let removed = terminals.remove(&id);
        std::mem::swap(&mut self.terminals, &mut terminals);
        assert(self@.sessions =~= old(self)@.sessions.remove(id));
        removed.is_some()
    }

    /// Registers a session with the given working directory and creation
    /// time under the next identifier, unless none is left.
    pub fn register(
        &mut self,
        working_dir: String,
        name: Option<String>,
        created_at: String,
    ) -> (r: Result<TerminalInfo, TerminalError>)
        ensures
            old(self)@.exhausted() ==> r is Err && r->Err_0@ == id_overflow() && final(self)@
                == old(self)@,
            !old(self)@.exhausted() ==> r is Ok && r->Ok_0@ == old(self)@.next_info(
                working_dir@,
                text_of(name),
                created_at@,
            ) && final(self)@ == old(self)@.register(r->Ok_0@),
            error_of(r) == old(self)@.refusal(
                Call::Spawn { cwd: working_dir@, name: text_of(name), created_at: created_at@ },
            ),
            final(self)@ == old(self)@.after(
                Call::Spawn { cwd: working_dir@, name: text_of(name), created_at: created_at@ },
            ),
            final(self)@.wf(),
    {
        proof {
            use_type_invariant(&*self);
        }
        if self.next_id >= MAX_TERMINAL_ID {
            proof {
                self.lemma_wf();
            }
            return Err(TerminalError::id_overflow());
        }
        let id = self.next_id;
        let terminal_name = match name {
            Some(n) => n,
            None => {
                let mut n = String::from_str("Terminal ");
                push_decimal(&mut n, id);
                n
            },
        };
        let info = TerminalInfo { id, name: terminal_name, cwd: working_dir, created_at };
        self.next_id = id + 1;
        self.file(info.clone());
        proof {
            use_type_invariant(&*self);
            self.lemma_wf();
        }
        Ok(info)
    }

    /// Decides whether a session can be created and, if so, what the caller
    /// has to open and start for it. `userprofile` and `home` are the values
    /// of the environment variables of those names, each `None` where the
    /// variable is not set.
    pub fn plan_spawn(
        &self,
        cwd: Option<String>,
        userprofile: Option<String>,
        home: Option<String>,
    ) -> (r: Result<SpawnPlan, TerminalError>)
        ensures
            self@.exhausted() ==> r is Err && r->Err_0@ == id_overflow(),
            !self@.exhausted() ==> r is Ok && r->Ok_0.size == TerminalSize::cells(
                DEFAULT_TERMINAL_COLS,
                DEFAULT_TERMINAL_ROWS,
            ) && r->Ok_0.command@ == interactive_shell(
                working_directory(text_of(cwd), text_of(userprofile), text_of(home)),
            ),
            self@.wf(),
    {
        proof {
            use_type_invariant(self);
            self.lemma_wf();
        }
        if self.next_id >= MAX_TERMINAL_ID {
            return Err(TerminalError::id_overflow());
        }
        let working_dir = resolve_working_directory(cwd, userprofile, home);
        Ok(
            SpawnPlan {
                size: TerminalSize::from_cells(DEFAULT_TERMINAL_COLS, DEFAULT_TERMINAL_ROWS),
                command: ShellCommand::interactive(working_dir),
            },
        )
    }

    /// Registers the session whose pseudo-terminal and child process the
    /// caller has set up as `plan` says, under the next identifier and with
    /// the present moment as its creation time. Fails, and changes nothing,
    /// where no identifier is left.
    pub fn spawn_terminal(&mut self, plan: SpawnPlan, name: Option<String>) -> (r: Result<
        TerminalInfo,
        TerminalError,
    >)
        ensures
            old(self)@.exhausted() ==> r is Err && r->Err_0@ == id_overflow() && final(self)@
                == old(self)@,
            !old(self)@.exhausted() ==> r is Ok && r->Ok_0@ == old(self)@.next_info(
                plan.command.cwd@,
                text_of(name),
                r->Ok_0@.created_at,
            ) && final(self)@ == old(self)@.register(r->Ok_0@),
            r matches Ok(info) ==> final(self)@ == old(self)@.after(
                Call::Spawn {
                    cwd: plan.command.cwd@,
                    name: text_of(name),
                    created_at: info@.created_at,
                },
            ),
            final(self)@.wf(),
    {
        let created_at = current_timestamp();
        self.register(plan.command.cwd, name, created_at)
    }

    /// Decides a write to session `id`: the bytes to hand to its
    /// pseudo-terminal, which are those of `data`, unchanged.
    pub fn write_to_terminal<'a>(&self, id: u32, data: &'a str) -> (r: Result<
        &'a [u8],
        TerminalError,
    >)
        ensures
            self@.sessions.contains_key(id) ==> r is Ok && r->Ok_0@ == encode_utf8(data@),
            !self@.sessions.contains_key(id) ==> r is Err && r->Err_0@ == not_found(id),
            error_of(r) == self@.refusal(Call::Write { id }),
            self@.wf(),
    {
        proof {
            use_type_invariant(self);
            self.lemma_wf();
        }
        if self.terminals.contains_key(&id) {
            Ok(data.as_bytes())
        } else {
            Err(TerminalError::not_found(id))
        }
    }

    /// Decides a resize of session `id`: the geometry to give its
    /// pseudo-terminal.
    pub fn resize_terminal(&self, id: u32, cols: u16, rows: u16) -> (r: Result<
        TerminalSize,
        TerminalError,
    >)
        ensures
            self@.sessions.contains_key(id) ==> r == Ok::<TerminalSize, TerminalError>(
                TerminalSize::cells(cols, rows),
            ),
            !self@.sessions.contains_key(id) ==> r is Err && r->Err_0@ == not_found(id),
            error_of(r) == self@.refusal(Call::Resize { id }),
            self@.wf(),
    {
        proof {
            use_type_invariant(self);
            self.lemma_wf();
        }
        if self.terminals.contains_key(&id) {
            Ok(TerminalSize::from_cells(cols, rows))
        } else {
            Err(TerminalError::not_found(id))
        }
    }

    /// Removes session `id` from the registry. The caller then lets go of
    /// the session's pseudo-terminal.
    pub fn close_terminal(&mut self, id: u32) -> (r: Result<(), TerminalError>)
        ensures
            old(self)@.sessions.contains_key(id) ==> r is Ok && final(self)@ == old(self)@.close(
                id,
            ),
            !old(self)@.sessions.contains_key(id) ==> r is Err && r->Err_0@ == not_found(id)
                && final(self)@ == old(self)@,
            error_of(r) == old(self)@.refusal(Call::Close { id }),
            final(self)@ == old(self)@.after(Call::Close { id }),
            final(self)@.wf(),
    {
        let removed = self.unfile(id);
        proof {
            use_type_invariant(&*self);
            self.lemma_wf();
        }
        if removed {
            Ok(())
        } else {
            assert(self@.sessions =~= old(self)@.sessions);
            Err(TerminalError::not_found(id))
        }
    }

    /// Removes every session from the registry. Identifiers that were handed
    /// out stay used.
    pub fn close_all(&mut self)
        ensures
            final(self)@ == RegistryState::starting_at(old(self)@.next_id),
            final(self)@ == old(self)@.after(Call::CloseAll),
            final(self)@.wf(),
    {
        proof {
            use_type_invariant(&*self);
        }
        let mut terminals: HashMap<u32, TerminalInfo> = HashMap::new();
        std::mem::swap(&mut self.terminals, &mut terminals);
        assert(self@.sessions =~= Map::empty());
    }

    /// Replaces the working directory in the metadata of session `id`, and
    /// nothing else.
    pub fn update_terminal_cwd(&mut self, id: u32, cwd: String) -> (r: Result<
        (),
        TerminalError,
    >)
        ensures
            old(self)@.sessions.contains_key(id) ==> r is Ok && final(self)@
                == old(self)@.update_cwd(id, cwd@),
            !old(self)@.sessions.contains_key(id) ==> r is Err && r->Err_0@ == not_found(id)
                && final(self)@ == old(self)@,
            error_of(r) == old(self)@.refusal(Call::UpdateCwd { id, cwd: cwd@ }),
            final(self)@ == old(self)@.after(Call::UpdateCwd { id, cwd: cwd@ }),
            final(self)@.wf(),
    {
        proof {
            use_type_invariant(&*self);
            self.lemma_wf();
        }
        let updated = match self.terminals.get(&id) {
            Some(info) => TerminalInfo {
                id: info.id,
                name: info.name.clone(),
                cwd,
                created_at: info.created_at.clone(),
            },
            None => {
                return Err(TerminalError::not_found(id));
            },
        };
        self.file(updated);
        proof {
            use_type_invariant(&*self);
            self.lemma_wf();
        }
        Ok(())
    }

    /// The metadata of every registered session, each once, in no
    /// particular order.
    pub fn list_terminals(&self) -> (r: Vec<TerminalInfo>)
        ensures
            r@.len() == self@.sessions.len(),
            forall|i: int|
                0 <= i < r@.len() ==> self@.sessions.contains_key(#[trigger] r@[i]@.id)
                    && self@.sessions[r@[i]@.id] == r@[i]@,
            forall|i: int, j: int|
                0 <= i < j < r@.len() ==> #[trigger] r@[i]@.id != #[trigger] r@[j]@.id,
            forall|id: u32| #[trigger]
                self@.sessions.contains_key(id) ==> exists|i: int|
                    0 <= i < r@.len() && #[trigger] r@[i]@.id == id,
            self@.wf(),
    {
        proof {
            use_type_invariant(self);
            self.lemma_wf();
        }
        let ghost entries = spec_hash_map_iter(&self.terminals).remaining();
        let mut out: Vec<TerminalInfo> = Vec::new();
        for pair in it: self.terminals.iter()
            invariant
                it.seq() == entries,
                out@.len() == it.index(),
                forall|i: int| 0 <= i < out@.len() ==> #[trigger] out@[i]@ == (*entries[i].1)@,
        {
            out.push(pair.1.clone());
        }
        proof {
            assert(sessions_of(self.terminals@).dom() =~= self.terminals@.dom());
            assert forall|i: int, j: int| 0 <= i < j < out@.len() implies #[trigger] out@[i]@.id
                != #[trigger] out@[j]@.id by {
                assert(self.terminals@.contains_key(*entries[i].0));
                assert(self.terminals@.contains_key(*entries[j].0));
                if out@[i]@.id == out@[j]@.id {
                    assert(*entries[i].0 == *entries[j].0);
                    assert(entries[i] == entries[j]);
                }
            }
            assert forall|i: int| 0 <= i < out@.len() implies self@.sessions.contains_key(
                #[trigger] out@[i]@.id,
            ) && self@.sessions[out@[i]@.id] == out@[i]@ by {
                assert(self.terminals@.contains_key(*entries[i].0));
            }
            assert forall|id: u32| #[trigger] self@.sessions.contains_key(id) implies exists|i: int|
                0 <= i < out@.len() && #[trigger] out@[i]@.id == id by {
                assert(self.terminals@.contains_key(id));
                let pair = (&id, &self.terminals@[id]);
                assert(entries.contains(pair));
                let i = choose|i: int| 0 <= i < entries.len() && entries[i] == pair;
                assert(out@[i]@.id == id);
            }
        }
        out
    }
}

impl Default for TerminalManager {
    fn default() -> (m: TerminalManager)
        ensures
            m@ == RegistryState::starting_at(1),
    {
        TerminalManager::new()
    }
}

} // verus!

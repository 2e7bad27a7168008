//! Agents: what one is started with, which backend its command stands for, and
//! the course of starting and registering it.
use crate::lifecycle::{cleanup_steps, counts_as_gone, DeleteStep};
use crate::run_dir::{join_path, joined};
use crate::table::Table;
use crate::text::{chars_of, opt_copy, opt_view, same, text_of, views};
use vstd::prelude::*;

verus! {

/// The terminal size for an agent where the daemon has no terminal itself.
pub const DEFAULT_COLS: u16 = 120;

pub const DEFAULT_ROWS: u16 = 40;

/// The backends that the daemon knows by name.
#[derive(Debug, Clone, Copy, PartialEq, Eq, Structural)]
pub enum Backend {
    ClaudeCode,
    Codex,
    Kiro,
    OpenCode,
    Agy,
    Grok,
}

/// The program name that a command ends in: what follows its last slash.
pub open spec fn program_name(command: Seq<char>) -> Seq<char>
    decreases command.len(),
{
    if command.len() == 0 || command.last() == '/' {
        Seq::empty()
    } else {
        program_name(command.drop_last()).push(command.last())
    }
}

/// The program of a backend.
pub struct Preset {
    pub program: String,
    pub backend: Backend,
}

/// The backend that a program name stands for: that of the first preset with the
/// name.
pub open spec fn backend_named(presets: Seq<Preset>, name: Seq<char>) -> Option<Backend>
    decreases presets.len(),
{
    if presets.len() == 0 {
        None
    } else if backend_named(presets.drop_last(), name) is Some {
        backend_named(presets.drop_last(), name)
    } else if presets.last().program@ == name {
        Some(presets.last().backend)
    } else {
        None
    }
}

fn name_of_program(command: &str) -> (r: String)
    ensures
        r@ == program_name(command@),
{
    let v = chars_of(command);
    let mut at: usize = v.len();
    assert(v@.subrange(at as int, v@.len() as int) =~= Seq::<char>::empty());
    assert(program_name(command@) =~= program_name(v@.take(at as int)) + v@.subrange(
        at as int,
        v@.len() as int,
    )) by {
        assert(v@.take(at as int) =~= v@);
    }
    while at > 0 && v[at - 1] != '/'
        invariant
            v@ == command@,
            at <= v@.len(),
            program_name(command@) == program_name(v@.take(at as int)) + v@.subrange(
                at as int,
                v@.len() as int,
            ),
        decreases at,
    {
        let ghost t = v@.take(at as int);
        assert(t.drop_last() =~= v@.take(at - 1));
        assert(program_name(t) == program_name(v@.take(at - 1)).push(v@[at - 1]));
        assert(program_name(v@.take(at - 1)).push(v@[at - 1]) + v@.subrange(
            at as int,
            v@.len() as int,
        ) =~= program_name(v@.take(at - 1)) + v@.subrange(at - 1, v@.len() as int));
        at = at - 1;
    }
    assert(program_name(v@.take(at as int)) =~= Seq::<char>::empty());
    assert(program_name(command@) =~= v@.subrange(at as int, v@.len() as int));
    text_of(&v, at, v.len())
}

impl Backend {
    /// The backend that a command stands for, by the name of its program.
    pub fn from_command(presets: &Vec<Preset>, command: &str) -> (r: Option<Backend>)
        ensures
            r == backend_named(presets@, program_name(command@)),
    {
        let name = name_of_program(command);
        let mut r: Option<Backend> = None;
        let mut i: usize = 0;
        while i < presets.len()
            invariant
                name@ == program_name(command@),
                i <= presets@.len(),
                r == backend_named(presets@.take(i as int), name@),
            decreases presets@.len() - i,
        {
            assert(presets@.take(i + 1).drop_last() =~= presets@.take(i as int));
            if r.is_none() && same(presets[i].program.as_str(), name.as_str()) {
                r = Some(presets[i].backend);
            }
            i = i + 1;
        }
        assert(presets@.take(i as int) =~= presets@);
        r
    }
}

/// One variable of an agent's environment.
pub struct EnvVar {
    pub name: String,
    pub value: String,
}

/// What an agent is started with.
pub struct AgentConfig {
    pub name: String,
    pub backend: Option<Backend>,
    pub backend_command: String,
    pub args: Vec<String>,
    pub env: Option<Vec<EnvVar>>,
    pub working_dir: Option<String>,
    pub submit_key: String,
}

/// What an [`AgentConfig`] holds.
#[verifier::ext_equal]
pub struct AgentConfigView {
    pub name: Seq<char>,
    pub backend: Option<Backend>,
    pub backend_command: Seq<char>,
    pub args: Seq<Seq<char>>,
    pub env: Option<Seq<(Seq<char>, Seq<char>)>>,
    pub working_dir: Option<Seq<char>>,
    pub submit_key: Seq<char>,
}

/// What a list of variables holds.
pub open spec fn env_view(s: Seq<EnvVar>) -> Seq<(Seq<char>, Seq<char>)> {
    s.map_values(|e: EnvVar| (e.name@, e.value@))
}

impl View for AgentConfig {
    type V = AgentConfigView;

    open spec fn view(&self) -> AgentConfigView {
        AgentConfigView {
            name: self.name@,
            backend: self.backend,
            backend_command: self.backend_command@,
            args: views(self.args@),
            env: match self.env {
                Some(e) => Some(env_view(e@)),
                None => None,
            },
            working_dir: opt_view(self.working_dir),
            submit_key: self.submit_key@,
        }
    }
}

fn copy_texts(v: &Vec<String>) -> (r: Vec<String>)
    ensures
        views(r@) == views(v@),
{
    let mut r: Vec<String> = Vec::new();
    let mut i: usize = 0;
    while i < v.len()
        invariant
            i <= v@.len(),
            views(r@) == views(v@).take(i as int),
        decreases v@.len() - i,
    {
        let ghost before = views(r@);
        r.push(v[i].clone());
        assert(views(r@) =~= before.push(views(v@)[i as int]));
        i = i + 1;
        assert(views(v@).take(i as int) =~= views(v@).take(i - 1).push(views(v@)[i - 1]));
    }
    assert(views(v@).take(i as int) =~= views(v@));
    r
}

fn copy_env(v: &Vec<EnvVar>) -> (r: Vec<EnvVar>)
    ensures
        env_view(r@) == env_view(v@),
{
    let mut r: Vec<EnvVar> = Vec::new();
    let mut i: usize = 0;
    while i < v.len()
        invariant
            i <= v@.len(),
            env_view(r@) == env_view(v@).take(i as int),
        decreases v@.len() - i,
    {
        let ghost before = env_view(r@);
        r.push(EnvVar { name: v[i].name.clone(), value: v[i].value.clone() });
        assert(env_view(r@) =~= before.push(env_view(v@)[i as int]));
        i = i + 1;
        assert(env_view(v@).take(i as int) =~= env_view(v@).take(i - 1).push(env_view(v@)[i - 1]));
    }
    assert(env_view(v@).take(i as int) =~= env_view(v@));
    r
}

impl AgentConfig {
    /// A copy, kept so that the agent can be started again.
    pub fn copy(&self) -> (r: AgentConfig)
        ensures
            r@ == self@,
    {
        AgentConfig {
            name: self.name.clone(),
            backend: self.backend,
            backend_command: self.backend_command.clone(),
            args: copy_texts(&self.args),
            env: match &self.env {
                Some(e) => Some(copy_env(e)),
                None => None,
            },
            working_dir: opt_copy(&self.working_dir),
            submit_key: self.submit_key.clone(),
        }
    }
}

/// A fleet whose lock, run directory and channels were set up beforehand.
pub struct PreparedFleet {
    pub home: String,
    pub agents: Vec<AgentConfig>,
    /// A chat channel was set up.
    pub has_channel: bool,
}

/// What the daemon is run with.
pub struct RunRequest {
    pub home: String,
    pub agents: Vec<AgentConfig>,
    pub has_channel: bool,
}

/// Runs the daemon with a prepared fleet: the agents are moved out of it, the
/// rest stays with it for as long as the daemon runs.
pub fn run_with_prepared(prepared: &mut PreparedFleet) -> (r: RunRequest)
    ensures
        r.home@ == old(prepared).home@,
        r.agents == old(prepared).agents,
        r.has_channel == old(prepared).has_channel,
        final(prepared).home == old(prepared).home,
        final(prepared).agents@.len() == 0,
        final(prepared).has_channel == old(prepared).has_channel,
{
    let mut agents: Vec<AgentConfig> = Vec::new();
    std::mem::swap(&mut agents, &mut prepared.agents);
    RunRequest { home: prepared.home.clone(), agents, has_channel: prepared.has_channel }
}

/// Why the daemon does not start: another one already runs at `existing`.
pub fn refuse_second_daemon(existing: Option<&str>) -> (r: Result<(), String>)
    ensures
        match existing {
            None => r is Ok,
            Some(path) => r is Err && r->Err_0@ == "Another daemon is already running ("@ + path@
                + ")"@,
        },
{
    match existing {
        None => Ok(()),
        Some(path) => Err(
            String::from_str("Another daemon is already running (").concat(path).concat(")"),
        ),
    }
}

/// The size of an agent's terminal: the daemon's own, where it has one.
pub fn terminal_size(own: Option<(u16, u16)>) -> (r: (u16, u16))
    ensures
        r == (match own {
            Some(size) => size,
            None => (DEFAULT_COLS, DEFAULT_ROWS),
        }),
{
    match own {
        Some(size) => size,
        None => (DEFAULT_COLS, DEFAULT_ROWS),
    }
}

/// The backend for which an agent's skills are installed: the one that it declares,
/// or else the one that its command stands for.
pub fn skill_backend(presets: &Vec<Preset>, config: &AgentConfig) -> (r: Option<Backend>)
    ensures
        r == (match config.backend {
            Some(b) => Some(b),
            None => backend_named(presets@, program_name(config.backend_command@)),
        }),
{
    match config.backend {
        Some(b) => Some(b),
        None => Backend::from_command(presets, config.backend_command.as_str()),
    }
}

/// A path with one more part, which stands alone where it begins at the root.
pub open spec fn path_under(base: Seq<char>, part: Seq<char>) -> Seq<char> {
    if part.len() > 0 && part[0] == '/' {
        part
    } else {
        joined(base, part)
    }
}

/// The directory by which it is asked whether an earlier instance owns the workspace:
/// the agent's own, or else the one of its name under `workspaces`.
pub fn identity_dir(config: &AgentConfig, workspaces: &str) -> (r: String)
    ensures
        r@ == (match config.working_dir {
            Some(d) => d@,
            None => path_under(workspaces@, config.name@),
        }),
{
    match &config.working_dir {
        Some(d) => d.clone(),
        None => {
            let name = config.name.as_str();
            if name.unicode_len() > 0 && name.get_char(0) == '/' {
                config.name.clone()
            } else {
                join_path(workspaces, name)
            }
        },
    }
}

// ---------------------------------------------------------------------------
// Starting one agent
// ---------------------------------------------------------------------------

/// How far the start of an agent has come.
#[derive(Debug, Clone, Copy, PartialEq, Eq, Structural)]
pub enum SpawnPhase {
    /// Nothing has happened; it is asked whether the instance is being deleted.
    AskDeleting,
    /// It is asked whether an earlier instance owns the workspace.
    AskOwner,
    /// The configuration is being stored.
    Storing,
    /// The skills are being installed.
    Skills,
    /// The child is being started and registered.
    Spawning,
    /// Earlier escalations are being put back.
    Rehydrating,
    /// The listener for terminals is being bound and its port published.
    Publishing,
    /// The thread that serves the listener is being started.
    Serving,
    /// The stored configuration is being dropped after a failed start.
    Dropping,
    /// The child, its registration, configuration and port are being undone.
    RollingBack,
    /// The instance was passed over.
    Skipped,
    /// The agent runs.
    Running,
    /// The start failed.
    Failed,
}

/// What the caller is to do.
#[derive(Debug, Clone, Copy, PartialEq, Eq, Structural)]
pub enum SpawnAction {
    AskOwner,
    StoreConfig,
    InstallSkills,
    Spawn,
    Rehydrate,
    PublishPort,
    StartServer,
    DropConfig,
    /// Undo the start by a delete transaction that waits for the child.
    RollBack,
    /// Return; the instance was passed over.
    FinishSkipped,
    /// Return; the agent runs.
    FinishRunning,
    /// Return the error.
    FinishFailed,
}

/// What is done after a step that came to `yes` (an answer, or success), and how
/// far that leaves the start. `has_dir` says that the agent has a working directory of its own.
pub open spec fn spawn_next(phase: SpawnPhase, yes: bool, has_dir: bool) -> (
    SpawnPhase,
    SpawnAction,
) {
    match phase {
        SpawnPhase::AskDeleting => if yes {
            (SpawnPhase::Skipped, SpawnAction::FinishSkipped)
        } else {
            (SpawnPhase::AskOwner, SpawnAction::AskOwner)
        },
        SpawnPhase::AskOwner => if yes {
            (SpawnPhase::Skipped, SpawnAction::FinishSkipped)
        } else {
            (SpawnPhase::Storing, SpawnAction::StoreConfig)
        },
        SpawnPhase::Storing => if has_dir {
            (SpawnPhase::Skills, SpawnAction::InstallSkills)
        } else {
            (SpawnPhase::Spawning, SpawnAction::Spawn)
        },
        SpawnPhase::Skills => (SpawnPhase::Spawning, SpawnAction::Spawn),
        SpawnPhase::Spawning => if yes {
            (SpawnPhase::Rehydrating, SpawnAction::Rehydrate)
        } else {
            (SpawnPhase::Dropping, SpawnAction::DropConfig)
        },
        SpawnPhase::Rehydrating => (SpawnPhase::Publishing, SpawnAction::PublishPort),
        SpawnPhase::Publishing => if yes {
            (SpawnPhase::Serving, SpawnAction::StartServer)
        } else {
            (SpawnPhase::RollingBack, SpawnAction::RollBack)
        },
        SpawnPhase::Serving => if yes {
            (SpawnPhase::Running, SpawnAction::FinishRunning)
        } else {
            (SpawnPhase::RollingBack, SpawnAction::RollBack)
        },
        SpawnPhase::Dropping | SpawnPhase::RollingBack | SpawnPhase::Failed => (
            SpawnPhase::Failed,
            SpawnAction::FinishFailed,
        ),
        SpawnPhase::Skipped => (SpawnPhase::Skipped, SpawnAction::FinishSkipped),
        SpawnPhase::Running => (SpawnPhase::Running, SpawnAction::FinishRunning),
    }
}

/// Takes the start of an agent one step further.
pub fn spawn_and_register_agent(phase: &mut SpawnPhase, yes: bool, has_dir: bool) -> (a:
    SpawnAction)
    ensures
        (*final(phase), a) == spawn_next(*old(phase), yes, has_dir),
{
    match *phase {
        SpawnPhase::AskDeleting => {
            if yes {
                *phase = SpawnPhase::Skipped;
                SpawnAction::FinishSkipped
            } else {
                *phase = SpawnPhase::AskOwner;
                SpawnAction::AskOwner
            }
        },
        SpawnPhase::AskOwner => {
            if yes {
                *phase = SpawnPhase::Skipped;
                SpawnAction::FinishSkipped
            } else {
                *phase = SpawnPhase::Storing;
                SpawnAction::StoreConfig
            }
        },
        SpawnPhase::Storing => {
            if has_dir {
                *phase = SpawnPhase::Skills;
                SpawnAction::InstallSkills
            } else {
                *phase = SpawnPhase::Spawning;
                SpawnAction::Spawn
            }
        },
        SpawnPhase::Skills => {
            *phase = SpawnPhase::Spawning;
            SpawnAction::Spawn
        },
        SpawnPhase::Spawning => {
            if yes {
                *phase = SpawnPhase::Rehydrating;
                SpawnAction::Rehydrate
            } else {
                *phase = SpawnPhase::Dropping;
                SpawnAction::DropConfig
            }
        },
        SpawnPhase::Rehydrating => {
            *phase = SpawnPhase::Publishing;
            SpawnAction::PublishPort
        },
        SpawnPhase::Publishing => {
            if yes {
                *phase = SpawnPhase::Serving;
                SpawnAction::StartServer
            } else {
                *phase = SpawnPhase::RollingBack;
                SpawnAction::RollBack
            }
        },
        SpawnPhase::Serving => {
            if yes {
                *phase = SpawnPhase::Running;
                SpawnAction::FinishRunning
            } else {
                *phase = SpawnPhase::RollingBack;
                SpawnAction::RollBack
            }
        },
        SpawnPhase::Dropping => {
            *phase = SpawnPhase::Failed;
            SpawnAction::FinishFailed
        },
        SpawnPhase::RollingBack => {
            *phase = SpawnPhase::Failed;
            SpawnAction::FinishFailed
        },
        SpawnPhase::Failed => SpawnAction::FinishFailed,
        SpawnPhase::Skipped => SpawnAction::FinishSkipped,
        SpawnPhase::Running => SpawnAction::FinishRunning,
    }
}

/// What a start leaves behind.
pub struct Footprint {
    /// A stored configuration.
    pub config: bool,
    /// A child and its registration.
    pub child: bool,
    /// A published port.
    pub port: bool,
    /// A thread that serves the listener.
    pub server: bool,
}

/// Nothing is left behind.
pub open spec fn no_footprint() -> Footprint {
    Footprint { config: false, child: false, port: false, server: false }
}

/// How a step came out.
#[derive(Debug, Clone, Copy, PartialEq, Eq, Structural)]
pub struct Outcome {
    /// The answer, or whether the step succeeded; of a roll-back, whether the child
    /// was seen to exit.
    pub yes: bool,
    /// Of a roll-back: whether the agent was found by its id.
    pub found: bool,
}

/// The steps with which a roll-back ends: a delete that waits for the child and
/// drops the stored configuration. Without an entry there is no child to wait for.
pub open spec fn roll_back_steps(o: Outcome) -> Seq<DeleteStep> {
    cleanup_steps(counts_as_gone(o.found, false, o.yes), o.found, true)
}

/// What a roll-back leaves of what was there.
pub open spec fn after_roll_back(f: Footprint, o: Outcome) -> Footprint {
    let steps = roll_back_steps(o);
    Footprint {
        config: f.config && !steps.contains(DeleteStep::RemoveConfig),
        child: f.child && !steps.contains(DeleteStep::RemoveEntry),
        port: f.port && !steps.contains(DeleteStep::RemovePort),
        server: f.server,
    }
}

/// What a step leaves behind.
pub open spec fn footprint_after(f: Footprint, a: SpawnAction, o: Outcome) -> Footprint {
    match a {
        SpawnAction::StoreConfig => Footprint { config: true, ..f },
        SpawnAction::Spawn => Footprint { child: o.yes, ..f },
        SpawnAction::PublishPort => Footprint { port: o.yes, ..f },
        SpawnAction::StartServer => Footprint { server: o.yes, ..f },
        SpawnAction::DropConfig => Footprint { config: false, ..f },
        SpawnAction::RollBack => after_roll_back(f, o),
        _ => f,
    }
}

/// How far a start has come and what it has left behind after a run of steps with
/// these outcomes.
pub open spec fn spawn_run(outcomes: Seq<Outcome>, has_dir: bool) -> (SpawnPhase, Footprint)
    decreases outcomes.len(),
{
    if outcomes.len() == 0 {
        (SpawnPhase::AskDeleting, no_footprint())
    } else {
        let (phase, left) = spawn_run(outcomes.drop_last(), has_dir);
        let o = outcomes.last();
        (
            spawn_next(phase, o.yes, has_dir).0,
            match pending_action(phase) {
                Some(a) => footprint_after(left, a, o),
                None => left,
            },
        )
    }
}

/// The run held a roll-back that did not find the agent, or did not see its child exit.
pub open spec fn roll_back_refused(outcomes: Seq<Outcome>, has_dir: bool) -> bool
    decreases outcomes.len(),
{
    outcomes.len() > 0 && {
        ||| roll_back_refused(outcomes.drop_last(), has_dir)
        ||| spawn_run(outcomes.drop_last(), has_dir).0 == SpawnPhase::RollingBack && !(
        outcomes.last().found && outcomes.last().yes)
    }
}

/// The action whose outcome a phase waits for; none where the caller asks of its own
/// accord whether the instance is being deleted.
pub open spec fn pending_action(phase: SpawnPhase) -> Option<SpawnAction> {
    match phase {
        SpawnPhase::AskDeleting => None,
        SpawnPhase::AskOwner => Some(SpawnAction::AskOwner),
        SpawnPhase::Storing => Some(SpawnAction::StoreConfig),
        SpawnPhase::Skills => Some(SpawnAction::InstallSkills),
        SpawnPhase::Spawning => Some(SpawnAction::Spawn),
        SpawnPhase::Rehydrating => Some(SpawnAction::Rehydrate),
        SpawnPhase::Publishing => Some(SpawnAction::PublishPort),
        SpawnPhase::Serving => Some(SpawnAction::StartServer),
        SpawnPhase::Dropping => Some(SpawnAction::DropConfig),
        SpawnPhase::RollingBack => Some(SpawnAction::RollBack),
        SpawnPhase::Skipped => Some(SpawnAction::FinishSkipped),
        SpawnPhase::Running => Some(SpawnAction::FinishRunning),
        SpawnPhase::Failed => Some(SpawnAction::FinishFailed),
    }
}

/// A phase is reached by the action that it waits for.
pub proof fn law_a_phase_waits_for_its_action(phase: SpawnPhase, yes: bool, has_dir: bool)
    ensures
        pending_action(spawn_next(phase, yes, has_dir).0) == Some(
            spawn_next(phase, yes, has_dir).1,
        ),
{
}

/// What a start has left behind when it has come to a phase; `refused` says that
/// its roll-back did not go through.
pub open spec fn footprint_in(phase: SpawnPhase, left: Footprint, refused: bool) -> bool {
    match phase {
        SpawnPhase::AskDeleting | SpawnPhase::AskOwner | SpawnPhase::Skipped | SpawnPhase::Storing =>
        !refused && left == no_footprint(),
        SpawnPhase::Skills | SpawnPhase::Spawning | SpawnPhase::Dropping => !refused && left == (
        Footprint { config: true, ..no_footprint() }),
        SpawnPhase::Rehydrating | SpawnPhase::Publishing => !refused && left == (Footprint {
            config: true,
            child: true,
            ..no_footprint()
        }),
        SpawnPhase::Serving => !refused && left == (Footprint {
            server: false,
            config: true,
            child: true,
            port: true,
        }),
        SpawnPhase::RollingBack => !refused && left.config && left.child && !left.server,
        SpawnPhase::Running => !refused && left == (Footprint {
            server: true,
            config: true,
            child: true,
            port: true,
        }),
        SpawnPhase::Failed => if refused {
            left.child && !left.server
        } else {
            left == no_footprint()
        },
    }
}

/// A roll-back that found the agent and saw its child exit leaves nothing of a start
/// without a serving thread. One that did not see the exit leaves everything as it
/// was, and one that did not find the agent leaves its child.
pub proof fn law_roll_back_keeps_what_it_cannot_end(f: Footprint, o: Outcome)
    requires
        !f.server,
    ensures
        o.found && o.yes ==> after_roll_back(f, o) == no_footprint(),
        o.found && !o.yes ==> after_roll_back(f, o) == f,
        !o.found ==> after_roll_back(f, o) == (Footprint { child: f.child, ..no_footprint() }),
{
    let steps = roll_back_steps(o);
    if o.found && o.yes {
        assert(steps =~= seq![
            DeleteStep::RemoveEntry,
            DeleteStep::DropBinding,
            DeleteStep::RemoveConfig,
            DeleteStep::RemovePort,
            DeleteStep::LogDone,
        ]);
        assert(steps[0] == DeleteStep::RemoveEntry);
        assert(steps[2] == DeleteStep::RemoveConfig);
        assert(steps[3] == DeleteStep::RemovePort);
    } else if !o.found {
        assert(steps =~= seq![
            DeleteStep::DropBinding,
            DeleteStep::RemoveConfig,
            DeleteStep::RemovePort,
            DeleteStep::LogDone,
        ]);
        assert(steps[1] == DeleteStep::RemoveConfig);
        assert(steps[2] == DeleteStep::RemovePort);
    }
}

/// However its steps come out, a start that is passed over leaves nothing behind.
/// One that succeeds leaves the configuration, the registered child, the published
/// port and the serving thread. One that fails leaves nothing, unless its roll-back
/// was refused: then the registered child stays, for a later delete.
pub proof fn law_a_start_is_all_or_nothing(outcomes: Seq<Outcome>, has_dir: bool)
    ensures
        footprint_in(
            spawn_run(outcomes, has_dir).0,
            spawn_run(outcomes, has_dir).1,
            roll_back_refused(outcomes, has_dir),
        ),
        spawn_run(outcomes, has_dir).0 == SpawnPhase::Skipped ==> spawn_run(outcomes, has_dir).1
            == no_footprint(),
        spawn_run(outcomes, has_dir).0 == SpawnPhase::Failed ==> (spawn_run(outcomes, has_dir).1
            == no_footprint() <==> !roll_back_refused(outcomes, has_dir)),
        spawn_run(outcomes, has_dir).0 == SpawnPhase::Running ==> spawn_run(outcomes, has_dir).1
            == (Footprint { config: true, child: true, port: true, server: true }),
    decreases outcomes.len(),
{
    if outcomes.len() > 0 {
        law_a_start_is_all_or_nothing(outcomes.drop_last(), has_dir);
        let (phase, left) = spawn_run(outcomes.drop_last(), has_dir);
        if phase == SpawnPhase::RollingBack {
            law_roll_back_keeps_what_it_cannot_end(left, outcomes.last());
        }
    }
}

/// An instance that is being deleted, or whose workspace an earlier one owns, is
/// not started.
pub proof fn law_deleted_and_duplicate_instances_are_passed_over(has_dir: bool, phase: SpawnPhase)
    requires
        phase == SpawnPhase::AskDeleting || phase == SpawnPhase::AskOwner,
    ensures
        spawn_next(phase, true, has_dir).0 == SpawnPhase::Skipped,
{
}

/// A clean exit: the agent leaves the registry, where its id is known, and nothing
/// is kept to start it again.
pub fn handle_clean_exit<A>(
    registry: &mut Table<String, A>,
    configs: &mut Table<String, AgentConfig>,
    id: &Option<String>,
    name: &str,
)
    ensures
        final(registry)@ == (match opt_view(*id) {
            Some(i) => old(registry)@.remove(i),
            None => old(registry)@,
        }),
        final(configs)@ == old(configs)@.remove(name@),
{
    match id {
        Some(i) => {
            registry.remove(i);
        },
        None => {},
    }
    let key = String::from_str(name);
    configs.remove(&key);
}

/// The program name of a command is what follows its last slash, or the whole command
/// where it has none.
pub proof fn law_what_a_program_is_called(path: Seq<char>, name: Seq<char>)
    requires
        !name.contains('/'),
    ensures
        program_name(name) == name,
        program_name(path.push('/') + name) == name,
    decreases name.len(),
{
    if name.len() == 0 {
        assert(name =~= Seq::<char>::empty());
        assert(path.push('/') + name =~= path.push('/'));
    } else {
        let rest = name.drop_last();
        assert(name.contains(name.last()));
        assert forall|i: int| 0 <= i < rest.len() implies rest[i] != '/' by {
            assert(name.contains(name[i]));
        }
        law_what_a_program_is_called(path, rest);
        assert((path.push('/') + name).drop_last() =~= path.push('/') + rest);
        assert(rest.push(name.last()) =~= name);
    }
}

/// A program name stands for the backend of the first preset with that name, and for none
/// where no preset has it.
pub proof fn law_which_backend_a_name_stands_for(presets: Seq<Preset>, name: Seq<char>, i: int)
    requires
        0 <= i <= presets.len(),
        forall|j: int| 0 <= j < i ==> (#[trigger] presets[j]).program@ != name,
    ensures
        i < presets.len() && presets[i].program@ == name ==> backend_named(presets, name) == Some(
            presets[i].backend,
        ),
        i == presets.len() ==> backend_named(presets, name) is None,
    decreases presets.len(),
{
    if presets.len() > 0 {
        let rest = presets.drop_last();
        assert(forall|j: int| 0 <= j < rest.len() ==> rest[j] == #[trigger] presets[j]);
        if i < presets.len() {
            law_which_backend_a_name_stands_for(rest, name, i);
        } else {
            law_which_backend_a_name_stands_for(rest, name, i - 1);
        }
    }
}

/// A part that begins at the root stands alone; any other is put under the base.
pub proof fn law_what_stands_under_a_path(base: Seq<char>, part: Seq<char>)
    ensures
        path_under(base, seq!['/'] + part) == seq!['/'] + part,
        part.len() == 0 || part[0] != '/' ==> path_under(base, part) == joined(base, part),
{
}

/// A start asks whether the instance is being deleted and whether another one owns its
/// workspace, stores the configuration, installs the skills where there is a directory for
/// them, starts the child, puts the escalations back, publishes the port and serves it.
pub proof fn law_the_course_of_a_start(has_dir: bool)
    ensures
        spawn_next(SpawnPhase::AskDeleting, false, has_dir) == (
            SpawnPhase::AskOwner,
            SpawnAction::AskOwner,
        ),
        spawn_next(SpawnPhase::AskOwner, false, has_dir) == (
            SpawnPhase::Storing,
            SpawnAction::StoreConfig,
        ),
        forall|yes: bool| #[trigger]
            spawn_next(SpawnPhase::Storing, yes, true) == (
                SpawnPhase::Skills,
                SpawnAction::InstallSkills,
            ),
        forall|yes: bool| #[trigger]
            spawn_next(SpawnPhase::Storing, yes, false) == (
                SpawnPhase::Spawning,
                SpawnAction::Spawn,
            ),
        forall|yes: bool| #[trigger]
            spawn_next(SpawnPhase::Skills, yes, has_dir) == (
                SpawnPhase::Spawning,
                SpawnAction::Spawn,
            ),
        spawn_next(SpawnPhase::Spawning, true, has_dir) == (
            SpawnPhase::Rehydrating,
            SpawnAction::Rehydrate,
        ),
        forall|yes: bool| #[trigger]
            spawn_next(SpawnPhase::Rehydrating, yes, has_dir) == (
                SpawnPhase::Publishing,
                SpawnAction::PublishPort,
            ),
        spawn_next(SpawnPhase::Publishing, true, has_dir) == (
            SpawnPhase::Serving,
            SpawnAction::StartServer,
        ),
        spawn_next(SpawnPhase::Serving, true, has_dir) == (
            SpawnPhase::Running,
            SpawnAction::FinishRunning,
        ),
{
}

/// A start that fails before there is a child drops its configuration, one that fails
/// behind that is rolled back, and both then fail; what has ended stays so.
pub proof fn law_how_a_start_fails(yes: bool, has_dir: bool)
    ensures
        spawn_next(SpawnPhase::AskDeleting, true, has_dir) == (
            SpawnPhase::Skipped,
            SpawnAction::FinishSkipped,
        ),
        spawn_next(SpawnPhase::AskOwner, true, has_dir) == (
            SpawnPhase::Skipped,
            SpawnAction::FinishSkipped,
        ),
        spawn_next(SpawnPhase::Spawning, false, has_dir) == (
            SpawnPhase::Dropping,
            SpawnAction::DropConfig,
        ),
        spawn_next(SpawnPhase::Publishing, false, has_dir) == (
            SpawnPhase::RollingBack,
            SpawnAction::RollBack,
        ),
        spawn_next(SpawnPhase::Serving, false, has_dir) == (
            SpawnPhase::RollingBack,
            SpawnAction::RollBack,
        ),
        spawn_next(SpawnPhase::Dropping, yes, has_dir) == (
            SpawnPhase::Failed,
            SpawnAction::FinishFailed,
        ),
        spawn_next(SpawnPhase::RollingBack, yes, has_dir) == (
            SpawnPhase::Failed,
            SpawnAction::FinishFailed,
        ),
        spawn_next(SpawnPhase::Failed, yes, has_dir) == (
            SpawnPhase::Failed,
            SpawnAction::FinishFailed,
        ),
        spawn_next(SpawnPhase::Skipped, yes, has_dir) == (
            SpawnPhase::Skipped,
            SpawnAction::FinishSkipped,
        ),
        spawn_next(SpawnPhase::Running, yes, has_dir) == (
            SpawnPhase::Running,
            SpawnAction::FinishRunning,
        ),
{
}

/// What a configuration holds is what its fields say, in order.
pub proof fn law_what_a_configuration_holds(c: AgentConfig)
    ensures
        c@.name == c.name@,
        c@.backend == c.backend,
        c@.backend_command == c.backend_command@,
        c@.args.len() == c.args@.len(),
        forall|i: int| 0 <= i < c.args@.len() ==> (#[trigger] c@.args[i]) == c.args@[i]@,
        c@.env is Some <==> c.env is Some,
        c.env is Some ==> (c@.env->0).len() == (c.env->0)@.len() && forall|i: int|
            0 <= i < (c.env->0)@.len() ==> (#[trigger] (c@.env->0)[i]).0 == (c.env->0)@[i].name@
                && (c@.env->0)[i].1 == (c.env->0)@[i].value@,
        c@.working_dir is Some <==> c.working_dir is Some,
        c.working_dir is Some ==> c@.working_dir->0 == c.working_dir->0@,
        c@.submit_key == c.submit_key@,
{
}

/// A terminal has 120 columns and 40 rows where the daemon has none itself.
pub proof fn law_the_default_terminal()
    ensures
        DEFAULT_COLS == 120,
        DEFAULT_ROWS == 40,
{
}

} // verus!

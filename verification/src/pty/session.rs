//! A process of the agent in its pseudo terminal: how it is spawned, ended and handed over.

use vstd::prelude::*;

use crate::error::SessionError;
use crate::os_text;
use crate::os_text::OsText;
use crate::pty::config;
use crate::pty::config::ClaudePtyConfig;
use crate::pty::config::ConfigModel;
use crate::pty::mcp;
use crate::pty::mcp::McpConfigFile;
use crate::pty::mcp::NamedValue;
use crate::pty::submit;
use crate::pty::submit::Submission;
use crate::pty::submit::SubmissionModel;
use crate::pty::submit::SubmitAction;
use crate::pty::submit::SubmitActionModel;
use crate::pty::submit::SubmitPhase;
use crate::terminal::PermissionDialog;
use crate::text;

verus! {

/// The size of the buffer into which the terminal's output is read.
pub const READ_BUFFER: usize = 8192;

/// What a process is spawned with.
#[derive(Clone, Debug, PartialEq, Eq)]
pub struct LaunchPlan {
    /// The program, and its arguments.
    pub argv: Vec<OsText>,
    /// The directory in which it runs.
    pub cwd: OsText,
    /// What is added to its environment.
    pub env: Vec<NamedValue>,
    pub rows: u16,
    pub cols: u16,
}

/// What a process is spawned with, in contracts.
pub struct PlanModel {
    pub argv: Seq<Seq<u8>>,
    pub cwd: Seq<u8>,
    pub env: Seq<(Seq<char>, Seq<char>)>,
    pub rows: u16,
    pub cols: u16,
}

impl View for LaunchPlan {
    type V = PlanModel;

    open spec fn view(&self) -> PlanModel {
        PlanModel {
            argv: os_text::os_views(self.argv@),
            cwd: self.cwd@,
            env: mcp::pair_views(self.env@),
            rows: self.rows,
            cols: self.cols,
        }
    }
}

/// The arguments that name the file with the MCP servers, where there is one.
pub open spec fn mcp_args(generated: Option<Seq<u8>>) -> Seq<Seq<u8>> {
    match generated {
        Some(path) => seq![
            os_text::utf8("--mcp-config"@),
            path,
            os_text::utf8("--strict-mcp-config"@),
        ],
        None => Seq::empty(),
    }
}

/// What is added to the environment of every process.
pub open spec fn launch_env() -> Seq<(Seq<char>, Seq<char>)> {
    seq![
        ("CLAUDE_CODE_NO_FLICKER"@, "1"@),
        ("CLAUDE_CODE_DISABLE_MOUSE"@, "1"@),
        ("CLAUDE_CODE_ENABLE_PROMPT_SUGGESTION"@, "false"@),
    ]
}

/// What a process with this configuration is spawned with.
pub open spec fn launch_plan(c: ConfigModel, generated: Option<Seq<u8>>) -> PlanModel {
    PlanModel {
        argv: config::command_line(c) + mcp_args(generated),
        cwd: c.cwd,
        env: launch_env(),
        rows: c.rows,
        cols: c.cols,
    }
}

/// The path at which a file for MCP servers is written, where there is one.
pub open spec fn file_path(directory: Seq<u8>, file: Option<McpConfigFile>) -> Option<Seq<u8>> {
    match file {
        Some(file) => Some(os_text::path_in(directory, os_text::utf8(file.name@))),
        None => None,
    }
}

/// A process of the agent: what has to be remembered of it.
#[derive(Clone, Debug, PartialEq, Eq)]
pub struct ClaudePtySession {
    pub executable: OsText,
    pub cwd: OsText,
    pub session_id: String,
    pub model: Option<String>,
    pub permission_mode: Option<String>,
    /// The file with the MCP servers, as long as it exists.
    pub generated_mcp_config: Option<OsText>,
}

/// A process of the agent in contracts.
pub struct ProcessModel {
    pub executable: Seq<u8>,
    pub cwd: Seq<u8>,
    pub session_id: Seq<char>,
    pub model: Option<Seq<char>>,
    pub permission_mode: Option<Seq<char>>,
    pub generated_mcp_config: Option<Seq<u8>>,
}

impl View for ClaudePtySession {
    type V = ProcessModel;

    open spec fn view(&self) -> ProcessModel {
        ProcessModel {
            executable: self.executable@,
            cwd: self.cwd@,
            session_id: self.session_id@,
            model: text::opt_view(self.model),
            permission_mode: text::opt_view(self.permission_mode),
            generated_mcp_config: os_text::opt_os_view(self.generated_mcp_config),
        }
    }
}

/// What is remembered of a process with this configuration.
pub open spec fn process_of(c: ConfigModel, generated: Option<Seq<u8>>) -> ProcessModel {
    ProcessModel {
        executable: c.executable,
        cwd: c.cwd,
        session_id: c.session_id,
        model: c.model,
        permission_mode: c.permission_mode,
        generated_mcp_config: generated,
    }
}

/// How far the end of a process has come.
#[derive(Clone, Copy, Debug, PartialEq, Eq, Structural)]
pub enum TerminateEvent {
    /// The process is to end.
    Requested,
    /// The process was looked at, and runs or not.
    Polled { running: bool },
    /// The process was killed.
    Killed,
    /// The file with the MCP servers was removed, as far as it could be.
    Removed,
}

/// What the end of a process asks for.
#[derive(Clone, Debug, PartialEq, Eq)]
pub enum TerminateAction {
    /// See whether the process runs.
    Poll,
    /// Kill the process.
    Kill,
    /// Remove this file, if that can be done.
    Remove(OsText),
    /// Nothing more.
    Finish,
}

/// What the end of a process asks for, in contracts.
pub enum TerminateActionModel {
    Poll,
    Kill,
    Remove(Seq<u8>),
    Finish,
}

impl View for TerminateAction {
    type V = TerminateActionModel;

    open spec fn view(&self) -> TerminateActionModel {
        match *self {
            TerminateAction::Poll => TerminateActionModel::Poll,
            TerminateAction::Kill => TerminateActionModel::Kill,
            TerminateAction::Remove(path) => TerminateActionModel::Remove(path@),
            TerminateAction::Finish => TerminateActionModel::Finish,
        }
    }
}

/// The file with the MCP servers goes once the process does not run.
pub open spec fn clean_up(s: ProcessModel) -> (ProcessModel, TerminateActionModel) {
    (
        ProcessModel { generated_mcp_config: None, ..s },
        match s.generated_mcp_config {
            Some(path) => TerminateActionModel::Remove(path),
            None => TerminateActionModel::Finish,
        },
    )
}

/// What follows in the end of a process.
pub open spec fn terminate_next(s: ProcessModel, e: TerminateEvent) -> (
    ProcessModel,
    TerminateActionModel,
) {
    match e {
        TerminateEvent::Requested => (s, TerminateActionModel::Poll),
        TerminateEvent::Polled { running } => if running {
            (s, TerminateActionModel::Kill)
        } else {
            clean_up(s)
        },
        TerminateEvent::Killed => clean_up(s),
        TerminateEvent::Removed => (s, TerminateActionModel::Finish),
    }
}

/// The command line by which the user takes a session over.
pub open spec fn takeover_line(s: ProcessModel) -> Seq<Seq<u8>> {
    seq![s.executable] + config::flag("--resume"@, Some(s.session_id)) + config::flag(
        "--model"@,
        s.model,
    ) + config::flag("--permission-mode"@, s.permission_mode)
}

/// The message when the user's process did not succeed.
pub open spec fn takeover_failed(agent: Seq<char>, status: Seq<char>) -> Seq<char> {
    "attached "@ + agent + " session exited with status "@ + status
}

/// What the reader of the terminal's output does with what it read.
#[derive(Clone, Copy, Debug, PartialEq, Eq, Structural)]
pub enum ReaderAction {
    /// Show so many bytes of the buffer on the screen, and read on.
    Show(usize),
    /// Stop.
    Stop,
}

/// What the reader does: a read of nothing, or one that failed, is the end; so is a
/// screen that cannot be had.
pub fn reader_step(read: Option<usize>, screen_available: bool) -> (res: ReaderAction)
    ensures
        res == (match read {
            Some(n) => if n > 0 && screen_available {
                ReaderAction::Show(n)
            } else {
                ReaderAction::Stop
            },
            None => ReaderAction::Stop,
        }),
{
    match read {
        Some(n) => {
            if n > 0 && screen_available {
                ReaderAction::Show(n)
            } else {
                ReaderAction::Stop
            }
        },
        None => ReaderAction::Stop,
    }
}

/// Appends a variable to an environment.
fn push_env(env: &mut Vec<NamedValue>, name: &str, value: &str)
    ensures
        mcp::pair_views(final(env)@) == mcp::pair_views(old(env)@).push((name@, value@)),
{
    env.push(NamedValue { name: name.to_owned(), value: value.to_owned() });
    assert(mcp::pair_views(env@) == mcp::pair_views(old(env)@).push((name@, value@)));
}

impl ClaudePtySession {
    /// What a process with this configuration is spawned with, and what is remembered of
    /// it. The file with its MCP servers, if it has any, was written before.
    pub fn spawn(config: ClaudePtyConfig, generated_mcp_config: Option<OsText>) -> (res: Result<
        (ClaudePtySession, LaunchPlan),
        SessionError,
    >)
        ensures
            match res {
                Ok((process, plan)) => {
                    &&& config::first_print_mode(config::command_line(config@).skip(1)) is None
                    &&& process@ == process_of(
                        config@,
                        os_text::opt_os_view(generated_mcp_config),
                    )
                    &&& plan@ == launch_plan(config@, os_text::opt_os_view(generated_mcp_config))
                },
                Err(e) => config::first_print_mode(
                    config::command_line(config@).skip(1),
                ) matches Some(arg) && config::refuses(e, arg),
            },
    {
        let mut argv = match config.launch_argv() {
            Ok(argv) => argv,
            Err(e) => {
                return Err(e);
            },
        };
        let ghost before = os_text::os_views(argv@);
        match &generated_mcp_config {
            Some(path) => {
                argv.push(OsText::from_text("--mcp-config"));
                argv.push(path.copy());
                argv.push(OsText::from_text("--strict-mcp-config"));
            },
            None => {},
        }
        assert(os_text::os_views(argv@) == before + mcp_args(
            os_text::opt_os_view(generated_mcp_config),
        ));
        let mut env: Vec<NamedValue> = Vec::new();
        assert(mcp::pair_views(env@) == Seq::<(Seq<char>, Seq<char>)>::empty());
        push_env(&mut env, "CLAUDE_CODE_NO_FLICKER", "1");
        push_env(&mut env, "CLAUDE_CODE_DISABLE_MOUSE", "1");
        push_env(&mut env, "CLAUDE_CODE_ENABLE_PROMPT_SUGGESTION", "false");
        assert(mcp::pair_views(env@) == launch_env());
        let plan = LaunchPlan {
            argv,
            cwd: config.cwd.copy(),
            env,
            rows: config.rows,
            cols: config.cols,
        };
        let process = ClaudePtySession {
            executable: config.executable,
            cwd: config.cwd,
            session_id: config.session_id,
            model: config.model,
            permission_mode: config.permission_mode,
            generated_mcp_config,
        };
        Ok((process, plan))
    }

    /// The whole launch of a process with this configuration by the program `owner`: the
    /// file with its MCP servers, which is to be written in `directory` first, and then
    /// what the process is spawned with. There is a file, and are arguments that name it,
    /// if and only if there are servers. The file is written even where the launch is
    /// refused.
    pub fn plan_launch(owner: &str, directory: OsText, config: ClaudePtyConfig) -> (res: (
        Option<McpConfigFile>,
        Result<(ClaudePtySession, LaunchPlan), SessionError>,
    ))
        requires
            mcp::commands_are_text(config@.mcp_servers),
        ensures
            mcp::file_for(res.0, owner@, config@.session_id, config@.mcp_servers),
            res.0 is Some <==> config@.mcp_servers.len() > 0,
            match res.1 {
                Ok((process, plan)) => {
                    &&& config::first_print_mode(config::command_line(config@).skip(1)) is None
                    &&& process@ == process_of(config@, file_path(directory@, res.0))
                    &&& plan@ == launch_plan(config@, file_path(directory@, res.0))
                },
                Err(e) => config::first_print_mode(
                    config::command_line(config@).skip(1),
                ) matches Some(arg) && config::refuses(e, arg),
            },
    {
        let file = match mcp::mcp_config_file(
            owner,
            config.session_id.as_str(),
            config.mcp_servers.as_slice(),
        ) {
            Ok(file) => file,
            Err(e) => {
                return (None, Err(e));
            },
        };
        let path = match &file {
            Some(file) => Some(directory.join(file.name.as_str())),
            None => None,
        };
        (file, ClaudePtySession::spawn(config, path))
    }

    /// Goes on with the end of the process.
    pub fn terminate(&mut self, event: TerminateEvent) -> (res: TerminateAction)
        ensures
            (final(self)@, res@) == terminate_next(old(self)@, event),
    {
        match event {
            TerminateEvent::Requested => TerminateAction::Poll,
            TerminateEvent::Polled { running } => {
                if running {
                    TerminateAction::Kill
                } else {
                    self.clean_up()
                }
            },
            TerminateEvent::Killed => self.clean_up(),
            TerminateEvent::Removed => TerminateAction::Finish,
        }
    }

    /// Gives up the file with the MCP servers.
    fn clean_up(&mut self) -> (res: TerminateAction)
        ensures
            (final(self)@, res@) == clean_up(old(self)@),
    {
        match self.generated_mcp_config.take() {
            Some(path) => TerminateAction::Remove(path),
            None => TerminateAction::Finish,
        }
    }

    /// Begins the submission of a prompt to the process. It first waits for the prompt
    /// editor.
    pub fn submit_prompt(prompt: &str) -> (res: (Submission, SubmitAction))
        ensures
            res.0@ == (SubmissionModel { prompt: prompt@, phase: SubmitPhase::Settling }),
            res.1@ == SubmitActionModel::Sleep(submit::SETTLE_DELAY),
    {
        Submission::start(prompt)
    }

    /// What the screen shows: nothing, where it cannot be had.
    pub fn screen_snapshot(shown: Option<String>) -> (res: String)
        ensures
            res@ == (match shown {
                Some(t) => t@,
                None => Seq::empty(),
            }),
    {
        match shown {
            Some(t) => t,
            None => String::new(),
        }
    }

    /// The keys to press for a decision: there are some where the screen shows a permission
    /// request, and that offers the decision.
    pub fn select_permission(dialog: &Option<PermissionDialog>, keys: Option<Vec<u8>>) -> (res:
        Option<Vec<u8>>)
        ensures
            res == (if dialog is Some {
                keys
            } else {
                None
            }),
    {
        match dialog {
            Some(_) => keys,
            None => None,
        }
    }

    /// The command line by which the user takes the session over.
    pub fn takeover_argv(&self) -> (res: Vec<OsText>)
        ensures
            os_text::os_views(res@) == takeover_line(self@),
    {
        let mut argv: Vec<OsText> = Vec::new();
        argv.push(self.executable.copy());
        assert(os_text::os_views(argv@) == seq![self@.executable]);
        config::push_flag(&mut argv, "--resume", &Some(self.session_id.clone()));
        config::push_flag(&mut argv, "--model", &self.model);
        config::push_flag(&mut argv, "--permission-mode", &self.permission_mode);
        argv
    }

    /// What comes of handing a session of the agent over, once the user's process has
    /// exited.
    pub fn detach_for_user(agent: &str, success: bool, status: &str) -> (res: Result<(), String>)
        ensures
            match res {
                Ok(_) => success,
                Err(message) => !success && message@ == takeover_failed(agent@, status@),
            },
    {
        if success {
            Ok(())
        } else {
            let mut message = "attached ".to_owned();
            message.append(agent);
            message.append(" session exited with status ");
            message.append(status);
            Err(message)
        }
    }
}

/// The end of a process that runs: it is killed, and then its file goes; and the end of
/// one that does not run: its file goes. Ended once more, there is no file to remove.
pub proof fn theorem_terminate(s: ProcessModel, running: bool)
    ensures
        ({
            let polled = terminate_next(s, TerminateEvent::Polled { running });
            let stopped = if running {
                terminate_next(polled.0, TerminateEvent::Killed)
            } else {
                polled
            };
            &&& running ==> polled == (s, TerminateActionModel::Kill)
            &&& stopped.0 == (ProcessModel { generated_mcp_config: None, ..s })
            &&& stopped.1 == (match s.generated_mcp_config {
                Some(path) => TerminateActionModel::Remove(path),
                None => TerminateActionModel::Finish,
            })
            &&& clean_up(stopped.0) == (stopped.0, TerminateActionModel::Finish)
        }),
{
}

/// The arguments for MCP servers stand behind the command line of a launched process if and
/// only if the session has servers, and they name the file that is written for them.
pub proof fn theorem_servers_are_handed_over(
    owner: Seq<char>,
    directory: Seq<u8>,
    c: ConfigModel,
    file: Option<McpConfigFile>,
)
    requires
        mcp::file_for(file, owner, c.session_id, c.mcp_servers),
    ensures
        ({
            let argv = launch_plan(c, file_path(directory, file)).argv;
            let plain = config::command_line(c);
            &&& c.mcp_servers.len() == 0 ==> argv == plain
            &&& c.mcp_servers.len() > 0 ==> {
                &&& file is Some
                &&& argv == plain + seq![
                    os_text::utf8("--mcp-config"@),
                    os_text::path_in(directory, os_text::utf8(file->Some_0.name@)),
                    os_text::utf8("--strict-mcp-config"@),
                ]
            }
        }),
{
    assert(config::command_line(c) + Seq::<Seq<u8>>::empty() == config::command_line(c));
}

/// The user takes over the session, the model and the permission mode that the process was
/// launched with.
pub proof fn theorem_takeover(c: ConfigModel, generated: Option<Seq<u8>>)
    ensures
        takeover_line(process_of(c, generated)) == seq![c.executable] + config::flag(
            "--resume"@,
            Some(c.session_id),
        ) + config::flag("--model"@, c.model) + config::flag(
            "--permission-mode"@,
            c.permission_mode,
        ),
{
}

/// The command line of a spawned process is the one of its configuration, and behind it
/// come the arguments for the MCP servers; none of the former asks for print mode.
pub proof fn theorem_spawned_interactively(c: ConfigModel, generated: Option<Seq<u8>>)
    requires
        config::interactive(c),
    ensures
        launch_plan(c, generated).argv.take(config::command_line(c).len() as int)
            == config::command_line(c),
        launch_plan(c, generated).argv.skip(config::command_line(c).len() as int) == mcp_args(
            generated,
        ),
        config::none_print_mode(config::command_line(c).skip(1)),
{
    config::theorem_launch_refusal(c);
    config::theorem_first_print_mode(config::command_line(c).skip(1));
}

/// The end of a process begins with a look at it, and is over once its file is removed. A
/// process that runs is killed, and nothing is forgotten before.
pub proof fn theorem_terminate_course(s: ProcessModel)
    ensures
        terminate_next(s, TerminateEvent::Requested) == (s, TerminateActionModel::Poll),
        terminate_next(s, TerminateEvent::Polled { running: true }) == (
            s,
            TerminateActionModel::Kill,
        ),
        terminate_next(s, TerminateEvent::Polled { running: false }) == terminate_next(
            s,
            TerminateEvent::Killed,
        ),
        terminate_next(s, TerminateEvent::Killed).0.generated_mcp_config is None,
        terminate_next(s, TerminateEvent::Killed).1 == (match s.generated_mcp_config {
            Some(path) => TerminateActionModel::Remove(path),
            None => TerminateActionModel::Finish,
        }),
        terminate_next(s, TerminateEvent::Removed) == (s, TerminateActionModel::Finish),
{
}

/// The user resumes the session with its program. A model and a permission mode each add
/// their flag and themselves, in this order, whatever else is remembered of the process.
pub proof fn theorem_takeover_line(s: ProcessModel, model: Seq<char>, mode: Seq<char>)
    ensures
        ({
            let line = |model: Option<Seq<char>>, mode: Option<Seq<char>>|
                takeover_line(ProcessModel { model, permission_mode: mode, ..s });
            let plain = seq![
                s.executable,
                os_text::utf8("--resume"@),
                os_text::utf8(s.session_id),
            ];
            let with_model = seq![os_text::utf8("--model"@), os_text::utf8(model)];
            let with_mode = seq![os_text::utf8("--permission-mode"@), os_text::utf8(mode)];
            &&& line(None, None) == plain
            &&& line(Some(model), None) == plain + with_model
            &&& line(None, Some(mode)) == plain + with_mode
            &&& line(Some(model), Some(mode)) == plain + with_model + with_mode
        }),
{
    let plain = seq![s.executable, os_text::utf8("--resume"@), os_text::utf8(s.session_id)];
    let with_model = seq![os_text::utf8("--model"@), os_text::utf8(model)];
    let with_mode = seq![os_text::utf8("--permission-mode"@), os_text::utf8(mode)];
    assert(takeover_line(ProcessModel { model: None, permission_mode: None, ..s }) == plain);
    assert(takeover_line(ProcessModel { model: Some(model), permission_mode: None, ..s }) == plain
        + with_model);
    assert(takeover_line(ProcessModel { model: None, permission_mode: Some(mode), ..s }) == plain
        + with_mode);
    assert(takeover_line(ProcessModel { model: Some(model), permission_mode: Some(mode), ..s })
        == plain + with_model + with_mode);
}

/// A process is spawned in the directory and with the terminal of its configuration, and in
/// an environment that depends on nothing; and what is remembered of it is of its
/// configuration, with the file that was written for it.
pub proof fn theorem_spawned(c: ConfigModel, generated: Option<Seq<u8>>)
    ensures
        ({
            let plan = launch_plan(c, generated);
            let process = process_of(c, generated);
            &&& plan.cwd == c.cwd && plan.rows == c.rows && plan.cols == c.cols
            &&& plan.env == seq![
                ("CLAUDE_CODE_NO_FLICKER"@, "1"@),
                ("CLAUDE_CODE_DISABLE_MOUSE"@, "1"@),
                ("CLAUDE_CODE_ENABLE_PROMPT_SUGGESTION"@, "false"@),
            ]
            &&& process.executable == c.executable && process.cwd == c.cwd
            &&& process.session_id == c.session_id
            &&& process.model == c.model && process.permission_mode == c.permission_mode
            &&& process.generated_mcp_config == generated
        }),
{
}

/// A takeover that fails names the agent and then the status.
pub proof fn theorem_takeover_failed(agent: Seq<char>, status: Seq<char>)
    ensures
        ({
            let said = takeover_failed(agent, status);
            let n = 9 + agent.len() as int;
            &&& said.take(9) == "attached "@
            &&& said.subrange(9, n) == agent
            &&& said.subrange(n, said.len() - status.len()) == " session exited with status "@
            &&& said.skip(said.len() - status.len()) == status
        }),
{
    reveal_strlit("attached ");
    reveal_strlit(" session exited with status ");
    let said = takeover_failed(agent, status);
    let n = 9 + agent.len() as int;
    assert(said.take(9) == "attached "@);
    assert(said.subrange(9, n) == agent);
    assert(said.subrange(n, said.len() - status.len()) == " session exited with status "@);
    assert(said.skip(said.len() - status.len()) == status);
}

/// A process and its launch are seen as they are, field by field.
pub proof fn theorem_process_view(s: ClaudePtySession, plan: LaunchPlan)
    ensures
        s@.executable == s.executable.bytes@,
        s@.cwd == s.cwd.bytes@,
        s@.session_id == s.session_id@,
        s.model is Some ==> s@.model == Some(s.model->Some_0@),
        s.model is None ==> s@.model is None,
        s.permission_mode is Some ==> s@.permission_mode == Some(s.permission_mode->Some_0@),
        s.permission_mode is None ==> s@.permission_mode is None,
        s.generated_mcp_config is Some ==> s@.generated_mcp_config == Some(
            s.generated_mcp_config->Some_0.bytes@,
        ),
        s.generated_mcp_config is None ==> s@.generated_mcp_config is None,
        plan@.argv.len() == plan.argv@.len(),
        forall|i: int| 0 <= i < plan.argv@.len() ==> #[trigger] plan@.argv[i] == plan.argv@[i].bytes@,
        plan@.cwd == plan.cwd.bytes@,
        plan@.env.len() == plan.env@.len(),
        forall|i: int|
            0 <= i < plan.env@.len() ==> #[trigger] plan@.env[i] == (
                plan.env@[i].name@,
                plan.env@[i].value@,
            ),
        plan@.rows == plan.rows && plan@.cols == plan.cols,
{
}

} // verus!

//! Sessions, and what they remember between turns.

use vstd::prelude::*;

use crate::error::SessionError;
use crate::os_text;
use crate::os_text::OsText;
use crate::pty::config;
use crate::pty::config::ClaudePtyConfig;
use crate::pty::config::ConfigModel;
use crate::pty::mcp;
use crate::pty::mcp::McpServer;
use crate::pty::mcp::ServerModel;
use crate::pty::session as process;
use crate::session::options::OptionsModel;
use crate::session::options::TurnOptions;
use crate::session::turn;
use crate::session::turn::Turn;
use crate::session::turn::TurnAction;
use crate::text;

verus! {

/// The agent's program.
#[derive(Debug, PartialEq, Eq)]
pub struct ClaudeCli {
    pub executable: OsText,
    /// What the agent is called in messages.
    pub name: String,
}

/// The agent's program in contracts.
pub struct CliModel {
    pub executable: Seq<u8>,
    pub name: Seq<char>,
}

impl View for ClaudeCli {
    type V = CliModel;

    open spec fn view(&self) -> CliModel {
        CliModel { executable: self.executable@, name: self.name@ }
    }
}

impl Clone for ClaudeCli {
    fn clone(&self) -> (res: Self)
        ensures
            res@ == self@,
    {
        ClaudeCli { executable: self.executable.copy(), name: self.name.clone() }
    }
}

/// What makes sessions of one program.
#[derive(Debug, PartialEq, Eq)]
pub struct SessionManager {
    pub claude: ClaudeCli,
}

impl Clone for SessionManager {
    /// A manager that makes sessions of the same program.
    fn clone(&self) -> (res: Self)
        ensures
            res.claude@ == self.claude@,
    {
        SessionManager { claude: self.claude.clone() }
    }
}

/// A session. Between turns it keeps the process of type `P` in which the last turn ran.
pub struct ManagedSession<P> {
    pub executable: OsText,
    /// What the agent is called in messages.
    pub agent: String,
    pub session_id: String,
    pub cwd: OsText,
    pub mcp_servers: Vec<McpServer>,
    pub model: Option<String>,
    pub permission_mode: Option<String>,
    pub pty: Option<P>,
}

/// A session in contracts.
pub struct SessionModel<P> {
    pub executable: Seq<u8>,
    pub agent: Seq<char>,
    pub session_id: Seq<char>,
    pub cwd: Seq<u8>,
    pub mcp_servers: Seq<ServerModel>,
    pub model: Option<Seq<char>>,
    pub permission_mode: Option<Seq<char>>,
    pub pty: Option<P>,
}

impl<P> View for ManagedSession<P> {
    type V = SessionModel<P>;

    open spec fn view(&self) -> SessionModel<P> {
        SessionModel {
            executable: self.executable@,
            agent: self.agent@,
            session_id: self.session_id@,
            cwd: self.cwd@,
            mcp_servers: mcp::server_views(self.mcp_servers@),
            model: text::opt_view(self.model),
            permission_mode: text::opt_view(self.permission_mode),
            pty: self.pty,
        }
    }
}

/// A new session: it has no permission mode of its own, and no process.
pub open spec fn new_session<P>(
    executable: Seq<u8>,
    agent: Seq<char>,
    session_id: Seq<char>,
    cwd: Seq<u8>,
    mcp_servers: Seq<ServerModel>,
    model: Option<Seq<char>>,
) -> SessionModel<P> {
    SessionModel {
        executable,
        agent,
        session_id,
        cwd,
        mcp_servers,
        model,
        permission_mode: None,
        pty: None,
    }
}

impl SessionManager {
    /// What makes sessions of the given program.
    pub fn new(claude: ClaudeCli) -> (res: Self)
        ensures
            res.claude == claude,
    {
        SessionManager { claude }
    }

    /// A new session, which has no model of its own.
    pub fn create_session<P>(
        &self,
        session_id: String,
        cwd: OsText,
        mcp_servers: Vec<McpServer>,
    ) -> (res: Result<ManagedSession<P>, SessionError>)
        ensures
            res is Ok,
            res->Ok_0@ == new_session::<P>(
                self.claude@.executable,
                self.claude@.name,
                session_id@,
                cwd@,
                mcp::server_views(mcp_servers@),
                None,
            ),
    {
        Ok(
            ManagedSession::new(
                self.claude.executable.copy(),
                self.claude.name.clone(),
                session_id,
                cwd,
                mcp_servers,
                None,
            ),
        )
    }

    /// A session that existed before, which is made as a new one is.
    pub fn load_session<P>(
        &self,
        session_id: String,
        cwd: OsText,
        mcp_servers: Vec<McpServer>,
    ) -> (res: Result<ManagedSession<P>, SessionError>)
        ensures
            res is Ok,
            res->Ok_0@ == new_session::<P>(
                self.claude@.executable,
                self.claude@.name,
                session_id@,
                cwd@,
                mcp::server_views(mcp_servers@),
                None,
            ),
    {
        self.create_session(session_id, cwd, mcp_servers)
    }

    /// A new session without MCP servers, for a prompt whose reply is printed.
    pub fn create_print_session<P>(
        &self,
        session_id: String,
        cwd: OsText,
        model: Option<String>,
    ) -> (res: Result<ManagedSession<P>, SessionError>)
        ensures
            res is Ok,
            res->Ok_0@ == new_session::<P>(
                self.claude@.executable,
                self.claude@.name,
                session_id@,
                cwd@,
                Seq::empty(),
                text::opt_view(model),
            ),
    {
        let none: Vec<McpServer> = Vec::new();
        assert(mcp::server_views(none@) == Seq::<ServerModel>::empty());
        Ok(
            ManagedSession::new(
                self.claude.executable.copy(),
                self.claude.name.clone(),
                session_id,
                cwd,
                none,
                model,
            ),
        )
    }
}

/// What a change of the session's configuration left behind: its permission mode, its
/// model, and what the client is told of the change.
pub struct ConfigChange<U> {
    pub mode: String,
    pub model: String,
    pub update: Option<U>,
}

/// Where a turn gets its process from.
pub enum PtySource<P> {
    /// The last turn left it behind.
    Reused(P),
    /// It is launched with this configuration.
    Launch(ClaudePtyConfig),
}

/// Where a turn gets its process from, in contracts.
pub enum SourceModel<P> {
    Reused(P),
    Launch(ConfigModel),
}

impl<P> View for PtySource<P> {
    type V = SourceModel<P>;

    open spec fn view(&self) -> SourceModel<P> {
        match *self {
            PtySource::Reused(pty) => SourceModel::Reused(pty),
            PtySource::Launch(config) => SourceModel::Launch(config@),
        }
    }
}

/// The model to launch with: the one that the turn asks for; or else the one of the
/// session or of its configuration, unless that is the default.
pub open spec fn launch_model(
    asked: Option<Seq<char>>,
    own: Option<Seq<char>>,
    configured: Seq<char>,
) -> Option<Seq<char>> {
    let usual = match own {
        Some(m) => m,
        None => configured,
    };
    if asked is Some {
        asked
    } else if usual == "default"@ {
        None
    } else {
        Some(usual)
    }
}

/// The setting sources, unless they are blank.
pub open spec fn launch_sources(sources: Option<Seq<char>>) -> Option<Seq<char>> {
    match sources {
        Some(s) => if text::trimmed(s).len() > 0 {
            Some(s)
        } else {
            None
        },
        None => None,
    }
}

/// How the process of a turn is launched.
pub open spec fn launch_config<P>(
    s: SessionModel<P>,
    options: OptionsModel,
    prompt: Seq<char>,
    configured_model: Seq<char>,
    sources: Option<Seq<char>>,
) -> ConfigModel {
    ConfigModel {
        executable: s.executable,
        cwd: s.cwd,
        session_id: s.session_id,
        model: launch_model(options.model, s.model, configured_model),
        permission_mode: if options.permission_mode is Some {
            options.permission_mode
        } else {
            s.permission_mode
        },
        setting_sources: launch_sources(sources),
        resume: options.resume,
        continue_last: options.continue_last,
        mcp_servers: s.mcp_servers,
        extra_args: if options.initial_prompt_argument {
            seq![os_text::utf8(prompt)]
        } else {
            Seq::empty()
        },
        rows: 24,
        cols: 80,
    }
}

/// The session keeps this process.
pub open spec fn with_process<P>(s: SessionModel<P>, pty: P) -> SessionModel<P> {
    SessionModel { pty: Some(pty), ..s }
}

/// The session keeps no process.
pub open spec fn without_process<P>(s: SessionModel<P>) -> SessionModel<P> {
    SessionModel { pty: None, ..s }
}

/// Where a turn of the session gets its process from.
pub open spec fn process_source<P>(
    s: SessionModel<P>,
    options: OptionsModel,
    prompt: Seq<char>,
    configured_model: Seq<char>,
    sources: Option<Seq<char>>,
) -> SourceModel<P> {
    match s.pty {
        Some(pty) => SourceModel::Reused(pty),
        None => SourceModel::Launch(launch_config(s, options, prompt, configured_model, sources)),
    }
}

/// The session after a turn that ran in this process, and succeeded or failed.
pub open spec fn after_turn<P>(s: SessionModel<P>, pty: P, succeeded: bool) -> SessionModel<P> {
    if succeeded {
        with_process(s, pty)
    } else {
        s
    }
}

/// How far the end of a session has come.
pub enum ShutdownEvent<P> {
    /// The session is to end.
    Requested,
    /// The process was told to exit.
    CommandSent(P),
    /// The process was ended.
    Terminated,
}

/// What the end of a session asks for.
pub enum ShutdownAction<P> {
    /// Type this slash command into the process.
    SendCommand { process: P, command: String },
    /// End the process.
    Terminate(P),
    /// Nothing more.
    Finish,
}

/// What the end of a session asks for, in contracts.
pub enum ShutdownActionModel<P> {
    SendCommand { process: P, command: Seq<char> },
    Terminate(P),
    Finish,
}

impl<P> View for ShutdownAction<P> {
    type V = ShutdownActionModel<P>;

    open spec fn view(&self) -> ShutdownActionModel<P> {
        match *self {
            ShutdownAction::SendCommand { process, command } => ShutdownActionModel::SendCommand {
                process,
                command: command@,
            },
            ShutdownAction::Terminate(process) => ShutdownActionModel::Terminate(process),
            ShutdownAction::Finish => ShutdownActionModel::Finish,
        }
    }
}

/// What follows in the end of a session.
pub open spec fn shutdown_next<P>(s: SessionModel<P>, e: ShutdownEvent<P>) -> (
    SessionModel<P>,
    ShutdownActionModel<P>,
) {
    match e {
        ShutdownEvent::Requested => (
            without_process(s),
            match s.pty {
                Some(process) => ShutdownActionModel::SendCommand { process, command: "exit"@ },
                None => ShutdownActionModel::Finish,
            },
        ),
        ShutdownEvent::CommandSent(process) => (s, ShutdownActionModel::Terminate(process)),
        ShutdownEvent::Terminated => (s, ShutdownActionModel::Finish),
    }
}

/// The model to launch with.
fn choose_model(asked: &Option<String>, own: &Option<String>, configured: &str) -> (res: Option<
    String,
>)
    ensures
        text::opt_view(res) == launch_model(
            text::opt_view(*asked),
            text::opt_view(*own),
            configured@,
        ),
{
    if asked.is_some() {
        return text::copy_opt(asked);
    }
    let usual = match own {
        Some(m) => m.clone(),
        None => configured.to_owned(),
    };
    if text::same(usual.as_str(), "default") {
        None
    } else {
        Some(usual)
    }
}

impl<P> ManagedSession<P> {
    fn new(
        executable: OsText,
        agent: String,
        session_id: String,
        cwd: OsText,
        mcp_servers: Vec<McpServer>,
        model: Option<String>,
    ) -> (res: Self)
        ensures
            res@ == new_session::<P>(
                executable@,
                agent@,
                session_id@,
                cwd@,
                mcp::server_views(mcp_servers@),
                text::opt_view(model),
            ),
    {
        ManagedSession {
            executable,
            agent,
            session_id,
            cwd,
            mcp_servers,
            model,
            permission_mode: None,
            pty: None,
        }
    }

    /// The session's identifier.
    pub fn session_id(&self) -> (res: &String)
        ensures
            *res == self.session_id,
    {
        &self.session_id
    }

    /// The directory in which the session works.
    pub fn cwd(&self) -> (res: &OsText)
        ensures
            *res == self.cwd,
    {
        &self.cwd
    }

    /// Sets the session's model to what the configuration made of the one asked for, or
    /// gives it up where none is asked for. Where the configuration refuses the model,
    /// the session keeps its own.
    pub fn set_model<E>(&mut self, resolved: Option<Result<String, E>>) -> (res: Result<(), E>)
        ensures
            match resolved {
                Some(Ok(model)) => res is Ok && final(self)@ == (SessionModel {
                    model: Some(model@),
                    ..old(self)@
                }),
                Some(Err(e)) => res == Err::<(), E>(e) && final(self)@ == old(self)@,
                None => res is Ok && final(self)@ == (SessionModel { model: None, ..old(self)@ }),
            },
    {
        match resolved {
            Some(Ok(model)) => {
                self.model = Some(model);
                Ok(())
            },
            Some(Err(e)) => Err(e),
            None => {
                self.model = None;
                Ok(())
            },
        }
    }

    /// Sets the session's permission mode to the one that the configuration has after
    /// taking the one asked for, or gives it up where none is asked for. Where the
    /// configuration refuses the mode, the session keeps its own.
    pub fn set_permission_mode<E>(&mut self, taken: Option<Result<String, E>>) -> (res: Result<
        (),
        E,
    >)
        ensures
            match taken {
                Some(Ok(mode)) => res is Ok && final(self)@ == (SessionModel {
                    permission_mode: Some(mode@),
                    ..old(self)@
                }),
                Some(Err(e)) => res == Err::<(), E>(e) && final(self)@ == old(self)@,
                None => res is Ok && final(self)@ == (SessionModel {
                    permission_mode: None,
                    ..old(self)@
                }),
            },
    {
        match taken {
            Some(Ok(mode)) => {
                self.permission_mode = Some(mode);
                Ok(())
            },
            Some(Err(e)) => Err(e),
            None => {
                self.permission_mode = None;
                Ok(())
            },
        }
    }

    /// Follows a change of the configuration's option `config_id`: the session takes over
    /// the permission mode where that is the option `mode`, and the model where it is the
    /// option `model`.
    pub fn set_config_option<U, E>(
        &mut self,
        config_id: &str,
        change: Result<ConfigChange<U>, E>,
    ) -> (res: Result<Option<U>, E>)
        ensures
            match change {
                Ok(c) => res == Ok::<Option<U>, E>(c.update) && final(self)@ == (if config_id@
                    == "mode"@ {
                    SessionModel { permission_mode: Some(c.mode@), ..old(self)@ }
                } else if config_id@ == "model"@ {
                    SessionModel { model: Some(c.model@), ..old(self)@ }
                } else {
                    old(self)@
                }),
                Err(e) => res == Err::<Option<U>, E>(e) && final(self)@ == old(self)@,
            },
    {
        match change {
            Ok(change) => {
                if text::same(config_id, "mode") {
                    self.permission_mode = Some(change.mode);
                } else if text::same(config_id, "model") {
                    self.model = Some(change.model);
                }
                Ok(change.update)
            },
            Err(e) => Err(e),
        }
    }

    /// Gives a turn its process: the one that the last turn left behind, which the session
    /// gives up, or one that is to be launched.
    pub fn ensure_pty(
        &mut self,
        options: &TurnOptions,
        prompt: &str,
        configured_model: &str,
        setting_sources: Option<String>,
    ) -> (res: PtySource<P>)
        ensures
            final(self)@ == without_process(old(self)@),
            res@ == process_source(
                old(self)@,
                options@,
                prompt@,
                configured_model@,
                text::opt_view(setting_sources),
            ),
    {
        match self.pty.take() {
            Some(pty) => {
                return PtySource::Reused(pty);
            },
            None => {},
        }
        let setting_sources = match setting_sources {
            Some(s) => {
                if text::is_blank(s.as_str()) {
                    None
                } else {
                    Some(s)
                }
            },
            None => None,
        };
        let mut extra_args: Vec<OsText> = Vec::new();
        if options.initial_prompt_argument {
            extra_args.push(OsText::from_text(prompt));
        }
        assert(os_text::os_views(extra_args@) == (if options@.initial_prompt_argument {
            seq![os_text::utf8(prompt@)]
        } else {
            Seq::empty()
        }));
        let permission_mode = if options.permission_mode.is_some() {
            text::copy_opt(&options.permission_mode)
        } else {
            text::copy_opt(&self.permission_mode)
        };
        PtySource::Launch(
            ClaudePtyConfig {
                executable: self.executable.copy(),
                cwd: self.cwd.copy(),
                session_id: self.session_id.clone(),
                model: choose_model(&options.model, &self.model, configured_model),
                permission_mode,
                setting_sources,
                resume: text::copy_opt(&options.resume),
                continue_last: options.continue_last,
                mcp_servers: mcp::copy_servers(&self.mcp_servers),
                extra_args,
                rows: config::DEFAULT_ROWS,
                cols: config::DEFAULT_COLS,
            },
        )
    }

    /// Begins a turn of the session. The process may be one that an earlier turn left
    /// behind, and the transcript may have been found already.
    pub fn prompt_with_permission_handler(
        &self,
        options: &TurnOptions,
        reused: bool,
        transcript_open: bool,
    ) -> (res: (Turn, TurnAction))
        ensures
            turn::turn_valid(res.0@),
            res.0@ == turn::turn_start(
                self@.agent,
                self@.session_id,
                options@,
                reused,
                transcript_open,
            ),
            res.1@ == turn::first_action(options@, reused),
    {
        Turn::start(
            self.agent.as_str(),
            self.session_id.as_str(),
            options,
            reused,
            transcript_open,
        )
    }

    /// Takes back the process of a turn. That of a turn that has succeeded is kept for the
    /// next one; that of a turn that has failed is given up, and handed back to be ended.
    pub fn end_turn(&mut self, pty: P, succeeded: bool) -> (res: Option<P>)
        ensures
            final(self)@ == after_turn(old(self)@, pty, succeeded),
            res == (if succeeded {
                None
            } else {
                Some(pty)
            }),
    {
        if succeeded {
            self.pty = Some(pty);
            None
        } else {
            Some(pty)
        }
    }

    /// The process to interrupt, where the session keeps one.
    pub fn cancel(&mut self) -> (res: Option<&mut P>)
        ensures
            match res {
                Some(pty) => old(self)@.pty == Some(*pty) && final(self)@ == with_process(
                    old(self)@,
                    *final(pty),
                ),
                None => old(self)@.pty is None && final(self)@ == old(self)@,
            },
    {
        match &mut self.pty {
            Some(pty) => Some(pty),
            None => None,
        }
    }

    /// Goes on with the end of the session. The process that it keeps, which it gives up at
    /// once, is told to exit and is ended then.
    pub fn shutdown(&mut self, event: ShutdownEvent<P>) -> (res: ShutdownAction<P>)
        ensures
            (final(self)@, res@) == shutdown_next(old(self)@, event),
    {
        match event {
            ShutdownEvent::Requested => match self.pty.take() {
                Some(process) => ShutdownAction::SendCommand {
                    process,
                    command: "exit".to_owned(),
                },
                None => ShutdownAction::Finish,
            },
            ShutdownEvent::CommandSent(process) => ShutdownAction::Terminate(process),
            ShutdownEvent::Terminated => ShutdownAction::Finish,
        }
    }
}

/// A process that a session keeps is the one that its next turn gets, whatever the turn
/// asks for; and a session that was shut down, or whose process is with a turn, has the
/// next turn launch one, as if it had never kept any.
pub proof fn theorem_process_is_reused<P>(
    s: SessionModel<P>,
    pty: P,
    options: OptionsModel,
    prompt: Seq<char>,
    configured_model: Seq<char>,
    sources: Option<Seq<char>>,
)
    ensures
        process_source(with_process(s, pty), options, prompt, configured_model, sources)
            == SourceModel::Reused(pty),
        process_source(
            without_process(with_process(s, pty)),
            options,
            prompt,
            configured_model,
            sources,
        ) == SourceModel::<P>::Launch(launch_config(s, options, prompt, configured_model, sources)),
{
}

/// The process of a turn that has succeeded is the one that the next turn gets; after a
/// turn that has failed the session keeps none, and the next turn launches one. The turn
/// was given its process by the session, which keeps none meanwhile.
pub proof fn theorem_process_after_turn<P>(
    before: SessionModel<P>,
    pty: P,
    succeeded: bool,
    options: OptionsModel,
    prompt: Seq<char>,
    configured_model: Seq<char>,
    sources: Option<Seq<char>>,
)
    ensures
        ({
            let s = after_turn(without_process(before), pty, succeeded);
            let next = process_source(s, options, prompt, configured_model, sources);
            &&& succeeded ==> s.pty == Some(pty) && next == SourceModel::Reused(pty)
            &&& !succeeded ==> s.pty is None && next == SourceModel::<P>::Launch(
                launch_config(before, options, prompt, configured_model, sources),
            )
        }),
{
}

/// A session that is shut down keeps no process from then on, whatever comes of it. The
/// process that it kept is told to exit before it is ended, and no process is ended that
/// was not told so. Without a process nothing is done; so it is when a session is shut
/// down once more.
pub proof fn theorem_shutdown<P>(s: SessionModel<P>, e: ShutdownEvent<P>)
    ensures
        ({
            let asked = shutdown_next(s, ShutdownEvent::Requested);
            &&& asked.0 == without_process(s)
            &&& s.pty is None ==> asked == (s, ShutdownActionModel::<P>::Finish)
            &&& s.pty matches Some(process) ==> {
                let sent = shutdown_next(asked.0, ShutdownEvent::CommandSent(process));
                let ended = shutdown_next(sent.0, ShutdownEvent::Terminated);
                &&& asked.1 == ShutdownActionModel::SendCommand { process, command: "exit"@ }
                &&& sent == (asked.0, ShutdownActionModel::Terminate(process))
                &&& ended == (asked.0, ShutdownActionModel::<P>::Finish)
            }
            &&& shutdown_next(asked.0, ShutdownEvent::Requested) == (
                asked.0,
                ShutdownActionModel::<P>::Finish,
            )
        }),
        shutdown_next(s, e).1 matches ShutdownActionModel::Terminate(process) ==> e
            == ShutdownEvent::CommandSent(process),
        s.pty is None ==> shutdown_next(s, e).0.pty is None,
{
}

/// Every process of a session that was made for a program, whatever model, permission mode
/// and process the session got since, is launched from that program; and so is the process
/// by which the user takes it over.
pub proof fn theorem_program_is_launched<P>(
    cli: CliModel,
    session_id: Seq<char>,
    cwd: Seq<u8>,
    mcp_servers: Seq<ServerModel>,
    model: Option<Seq<char>>,
    s: SessionModel<P>,
    options: OptionsModel,
    prompt: Seq<char>,
    configured_model: Seq<char>,
    sources: Option<Seq<char>>,
    generated: Option<Seq<u8>>,
)
    requires
        s == (SessionModel {
            model: s.model,
            permission_mode: s.permission_mode,
            pty: s.pty,
            ..new_session::<P>(cli.executable, cli.name, session_id, cwd, mcp_servers, model)
        }),
    ensures
        process_source(s, options, prompt, configured_model, sources) matches SourceModel::Launch(
            c,
        ) ==> {
            &&& c.executable == cli.executable
            &&& process::launch_plan(c, generated).argv[0] == cli.executable
            &&& process::takeover_line(process::process_of(c, generated))[0] == cli.executable
        },
{
}

/// A turn's own model and permission mode go before those of the session, and those of the
/// session before the configured model; and a process is never launched with the model
/// `default` unless the turn itself asks for it.
pub proof fn theorem_launch_choice<P>(
    s: SessionModel<P>,
    options: OptionsModel,
    prompt: Seq<char>,
    configured_model: Seq<char>,
    sources: Option<Seq<char>>,
)
    ensures
        ({
            let c = launch_config(s, options, prompt, configured_model, sources);
            &&& options.model is Some ==> c.model == options.model
            &&& options.model is None && s.model is Some && s.model != Some("default"@) ==> c.model
                == s.model
            &&& options.model is None && s.model is None && configured_model != "default"@
                ==> c.model == Some(configured_model)
            &&& c.model == Some("default"@) ==> options.model == c.model
            &&& options.permission_mode is Some ==> c.permission_mode == options.permission_mode
            &&& options.permission_mode is None ==> c.permission_mode == s.permission_mode
            &&& c.setting_sources matches Some(set) ==> !text::blank(set)
        }),
{
    if sources is Some {
        text::theorem_blank(sources->Some_0);
    }
}

/// A process that is launched with the prompt on its command line has it as its last
/// argument; the prompt is typed if and only if the process was not launched that way.
pub proof fn theorem_prompt_reaches_process<P>(
    s: SessionModel<P>,
    options: OptionsModel,
    prompt: Seq<char>,
    configured_model: Seq<char>,
    sources: Option<Seq<char>>,
)
    ensures
        ({
            let source = process_source(s, options, prompt, configured_model, sources);
            let typed = turn::needs_typing(options, source is Reused);
            match source {
                SourceModel::Reused(_) => typed,
                SourceModel::Launch(c) => {
                    &&& typed <==> c.extra_args.len() == 0
                    &&& !typed ==> config::command_line(c).last() == os_text::utf8(prompt)
                },
            }
        }),
{
}

/// A process is launched with the program, directory, session and servers of the session,
/// and with what the turn asks for. The model `default` of the session or its configuration
/// stands for no model, and a session's own model goes before the configured one even then.
/// Setting sources are handed on as they stand, unless they are blank. The prompt is the one
/// extra argument where it is to be handed over so, and else there is none.
pub proof fn theorem_launch_config<P>(
    s: SessionModel<P>,
    options: OptionsModel,
    prompt: Seq<char>,
    configured_model: Seq<char>,
    sources: Option<Seq<char>>,
)
    ensures
        ({
            let c = launch_config(s, options, prompt, configured_model, sources);
            &&& c.executable == s.executable
            &&& c.cwd == s.cwd
            &&& c.session_id == s.session_id
            &&& c.mcp_servers == s.mcp_servers
            &&& c.resume == options.resume
            &&& c.continue_last == options.continue_last
            &&& c.rows == 24 && c.cols == 80
            &&& options.initial_prompt_argument ==> c.extra_args == seq![
                vstd::utf8::encode_utf8(prompt),
            ]
            &&& !options.initial_prompt_argument ==> c.extra_args.len() == 0
            &&& options.model is None && s.model == Some("default"@) ==> c.model is None
            &&& options.model is None && s.model is None && configured_model == "default"@
                ==> c.model is None
            &&& sources is None ==> c.setting_sources is None
            &&& sources is Some && text::blank(sources->Some_0) ==> c.setting_sources is None
            &&& sources is Some && !text::blank(sources->Some_0) ==> c.setting_sources == sources
        }),
{
    if sources is Some {
        text::theorem_blank(sources->Some_0);
    }
    assert(options.initial_prompt_argument ==> launch_config(
        s,
        options,
        prompt,
        configured_model,
        sources,
    ).extra_args == seq![vstd::utf8::encode_utf8(prompt)]);
}

/// A new session holds what it is made of, and has no permission mode and no process.
pub proof fn theorem_new_session<P>(
    cli: CliModel,
    session_id: Seq<char>,
    cwd: Seq<u8>,
    mcp_servers: Seq<ServerModel>,
    model: Option<Seq<char>>,
)
    ensures
        ({
            let s = new_session::<P>(
                cli.executable,
                cli.name,
                session_id,
                cwd,
                mcp_servers,
                model,
            );
            &&& s.executable == cli.executable
            &&& s.agent == cli.name
            &&& s.session_id == session_id
            &&& s.cwd == cwd
            &&& s.mcp_servers == mcp_servers
            &&& s.model == model
            &&& s.permission_mode is None
            &&& s.pty is None
        }),
{
}

/// Keeping a process or giving it up changes nothing else in a session.
pub proof fn theorem_only_the_process_changes<P>(s: SessionModel<P>, pty: P, succeeded: bool)
    ensures
        with_process(s, pty).pty == Some(pty),
        without_process(s).pty is None,
        with_process(s, pty) == (SessionModel { pty: with_process(s, pty).pty, ..s }),
        without_process(s) == (SessionModel { pty: without_process(s).pty, ..s }),
        after_turn(s, pty, succeeded) == (SessionModel {
            pty: after_turn(s, pty, succeeded).pty,
            ..s
        }),
        after_turn(s, pty, false).pty == s.pty,
{
}

/// A session is seen as it is, field by field.
pub proof fn theorem_session_view<P>(s: ManagedSession<P>)
    ensures
        s@.executable == s.executable.bytes@,
        s@.agent == s.agent@,
        s@.session_id == s.session_id@,
        s@.cwd == s.cwd.bytes@,
        s@.mcp_servers.len() == s.mcp_servers@.len(),
        forall|i: int|
            0 <= i < s.mcp_servers@.len() ==> #[trigger] s@.mcp_servers[i] == s.mcp_servers@[i]@,
        s.model is Some ==> s@.model == Some(s.model->Some_0@),
        s.model is None ==> s@.model is None,
        s.permission_mode is Some ==> s@.permission_mode == Some(s.permission_mode->Some_0@),
        s.permission_mode is None ==> s@.permission_mode is None,
        s@.pty == s.pty,
{
}

} // verus!

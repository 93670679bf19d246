//! How the agent's process is launched.

use vstd::prelude::*;

use crate::error::SessionError;
use crate::ident;
use crate::os_text;
use crate::os_text::OsText;
use crate::pty::mcp;
use crate::pty::mcp::McpServer;
use crate::pty::mcp::ServerModel;
use crate::text;

verus! {

/// The rows of the terminal, unless said otherwise.
pub const DEFAULT_ROWS: u16 = 24;

/// The columns of the terminal, unless said otherwise.
pub const DEFAULT_COLS: u16 = 80;

/// How a process of the agent is launched.
#[derive(Clone, Debug, PartialEq, Eq)]
pub struct ClaudePtyConfig {
    pub executable: OsText,
    pub cwd: OsText,
    pub session_id: String,
    pub model: Option<String>,
    pub permission_mode: Option<String>,
    pub setting_sources: Option<String>,
    pub resume: Option<String>,
    pub continue_last: bool,
    pub mcp_servers: Vec<McpServer>,
    pub extra_args: Vec<OsText>,
    pub rows: u16,
    pub cols: u16,
}

/// How a process of the agent is launched, in contracts.
pub struct ConfigModel {
    pub executable: Seq<u8>,
    pub cwd: Seq<u8>,
    pub session_id: Seq<char>,
    pub model: Option<Seq<char>>,
    pub permission_mode: Option<Seq<char>>,
    pub setting_sources: Option<Seq<char>>,
    pub resume: Option<Seq<char>>,
    pub continue_last: bool,
    pub mcp_servers: Seq<ServerModel>,
    pub extra_args: Seq<Seq<u8>>,
    pub rows: u16,
    pub cols: u16,
}

impl View for ClaudePtyConfig {
    type V = ConfigModel;

    open spec fn view(&self) -> ConfigModel {
        ConfigModel {
            executable: self.executable@,
            cwd: self.cwd@,
            session_id: self.session_id@,
            model: text::opt_view(self.model),
            permission_mode: text::opt_view(self.permission_mode),
            setting_sources: text::opt_view(self.setting_sources),
            resume: text::opt_view(self.resume),
            continue_last: self.continue_last,
            mcp_servers: mcp::server_views(self.mcp_servers@),
            extra_args: os_text::os_views(self.extra_args@),
            rows: self.rows,
            cols: self.cols,
        }
    }
}

/// A flag with its value, where there is one.
pub open spec fn flag(name: Seq<char>, value: Option<Seq<char>>) -> Seq<Seq<u8>> {
    match value {
        Some(v) => seq![os_text::utf8(name), os_text::utf8(v)],
        None => Seq::empty(),
    }
}

/// The command line of the process, before it is checked.
pub open spec fn command_line(c: ConfigModel) -> Seq<Seq<u8>> {
    seq![c.executable] + flag("--session-id"@, Some(c.session_id)) + flag("--model"@, c.model)
        + flag("--permission-mode"@, c.permission_mode) + flag(
        "--setting-sources"@,
        c.setting_sources,
    ) + flag("--resume"@, c.resume) + (if c.continue_last {
        seq![os_text::utf8("--continue"@)]
    } else {
        Seq::empty()
    }) + c.extra_args
}

/// The argument asks for print mode.
pub open spec fn print_mode(arg: Seq<u8>) -> bool {
    ||| arg == os_text::utf8("-p"@)
    ||| arg == os_text::utf8("--print"@)
    ||| os_text::begins_with(arg, os_text::utf8("--print="@))
}

/// The first of `args` that asks for print mode.
pub open spec fn first_print_mode(args: Seq<Seq<u8>>) -> Option<Seq<u8>>
    decreases args.len(),
{
    if args.len() == 0 {
        None
    } else if print_mode(args[0]) {
        Some(args[0])
    } else {
        first_print_mode(args.drop_first())
    }
}

/// The error is that `arg` asks for print mode.
pub open spec fn refuses(e: SessionError, arg: Seq<u8>) -> bool {
    e matches SessionError::PrintModeArgument(a) && a@ == arg
}

/// The configuration of a session `session_id` of the program `executable` in the
/// directory `cwd`.
pub open spec fn default_config(
    executable: Seq<u8>,
    cwd: Option<Seq<u8>>,
    session_id: Seq<char>,
) -> ConfigModel {
    ConfigModel {
        executable,
        cwd: match cwd {
            Some(dir) => dir,
            None => os_text::utf8("."@),
        },
        session_id,
        model: None,
        permission_mode: None,
        setting_sources: None,
        resume: None,
        continue_last: false,
        mcp_servers: Seq::empty(),
        extra_args: Seq::empty(),
        rows: 24,
        cols: 80,
    }
}

/// Refuses arguments of which one, from the one at `from` on, asks for print mode.
pub fn reject_print_mode_args(args: &Vec<OsText>, from: usize) -> (res: Result<(), SessionError>)
    requires
        from <= args.len(),
    ensures
        match res {
            Ok(_) => first_print_mode(os_text::os_views(args@).skip(from as int)) is None,
            Err(e) => first_print_mode(os_text::os_views(args@).skip(from as int)) matches Some(arg)
                && refuses(e, arg),
        },
{
    let ghost views = os_text::os_views(args@);
    let mut i: usize = from;
    while i < args.len()
        invariant
            views == os_text::os_views(args@),
            from <= i <= args.len(),
            first_print_mode(views.skip(from as int)) == first_print_mode(views.skip(i as int)),
        decreases args.len() - i,
    {
        proof {
            assert(views.skip(i as int)[0] == args@[i as int]@);
            assert(views.skip(i as int).drop_first() == views.skip(i + 1));
        }
        if args[i].is("-p") || args[i].is("--print") || args[i].starts_with("--print=") {
            return Err(SessionError::PrintModeArgument(args[i].copy()));
        }
        i = i + 1;
    }
    Ok(())
}

/// Appends a flag with its value, where there is one.
pub fn push_flag(argv: &mut Vec<OsText>, name: &str, value: &Option<String>)
    ensures
        os_text::os_views(final(argv)@) == os_text::os_views(old(argv)@) + flag(
            name@,
            text::opt_view(*value),
        ),
{
    match value {
        Some(v) => {
            argv.push(OsText::from_text(name));
            argv.push(OsText::from_text(v.as_str()));
        },
        None => {},
    }
    assert(os_text::os_views(argv@) == os_text::os_views(old(argv)@) + flag(
        name@,
        text::opt_view(*value),
    ));
}

impl ClaudePtyConfig {
    /// The configuration of a session `session_id` of the program `executable` in the
    /// current directory, or in `.` where that is unknown.
    pub fn with_session_id(
        executable: OsText,
        current_dir: Option<OsText>,
        session_id: String,
    ) -> (res: Self)
        ensures
            res@ == default_config(
                executable@,
                os_text::opt_os_view(current_dir),
                session_id@,
            ),
    {
        let cwd = match current_dir {
            Some(dir) => dir,
            None => OsText::from_text("."),
        };
        let res = ClaudePtyConfig {
            executable,
            cwd,
            session_id,
            model: None,
            permission_mode: None,
            setting_sources: None,
            resume: None,
            continue_last: false,
            mcp_servers: Vec::new(),
            extra_args: Vec::new(),
            rows: DEFAULT_ROWS,
            cols: DEFAULT_COLS,
        };
        proof {
            assert(mcp::server_views(res.mcp_servers@) == Seq::<ServerModel>::empty());
            assert(os_text::os_views(res.extra_args@) == Seq::<Seq<u8>>::empty());
        }
        res
    }

    /// The configuration of a new session of the program `executable` in the current
    /// directory, or in `.` where that is unknown.
    pub fn default_in(executable: OsText, current_dir: Option<OsText>) -> (res: Self)
        ensures
            ident::uuid_text(res@.session_id),
            res@ == default_config(
                executable@,
                os_text::opt_os_view(current_dir),
                res@.session_id,
            ),
    {
        ClaudePtyConfig::with_session_id(executable, current_dir, ident::fresh_uuid())
    }

    /// The command line of the process. An argument that asks for print mode is refused:
    /// the process runs interactively.
    pub fn launch_argv(&self) -> (res: Result<Vec<OsText>, SessionError>)
        ensures
            match res {
                Ok(argv) => os_text::os_views(argv@) == command_line(self@) && first_print_mode(
                    command_line(self@).skip(1),
                ) is None,
                Err(e) => first_print_mode(command_line(self@).skip(1)) matches Some(arg)
                    && refuses(e, arg),
            },
    {
        let mut argv: Vec<OsText> = Vec::new();
        argv.push(self.executable.copy());
        assert(os_text::os_views(argv@) == seq![self@.executable]);
        push_flag(&mut argv, "--session-id", &Some(self.session_id.clone()));
        push_flag(&mut argv, "--model", &self.model);
        push_flag(&mut argv, "--permission-mode", &self.permission_mode);
        push_flag(&mut argv, "--setting-sources", &self.setting_sources);
        push_flag(&mut argv, "--resume", &self.resume);
        let ghost before = os_text::os_views(argv@);
        if self.continue_last {
            argv.push(OsText::from_text("--continue"));
        }
        assert(os_text::os_views(argv@) == before + (if self@.continue_last {
            seq![os_text::utf8("--continue"@)]
        } else {
            Seq::empty()
        }));
        let ghost before = argv@;
        let mut extra = os_text::copy_all(&self.extra_args);
        let ghost added = extra@;
        argv.append(&mut extra);
        assert(os_text::os_views(argv@) == os_text::os_views(before) + os_text::os_views(added));
        match reject_print_mode_args(&argv, 1) {
            Ok(_) => Ok(argv),
            Err(e) => Err(e),
        }
    }
}

/// None of the arguments asks for print mode if and only if no first one is found.
pub proof fn theorem_first_print_mode(args: Seq<Seq<u8>>)
    ensures
        match first_print_mode(args) {
            Some(arg) => print_mode(arg) && exists|i: int|
                0 <= i < args.len() && #[trigger] args[i] == arg && forall|j: int|
                    0 <= j < i ==> !print_mode(#[trigger] args[j]),
            None => forall|i: int| 0 <= i < args.len() ==> !print_mode(#[trigger] args[i]),
        },
    decreases args.len(),
{
    if args.len() > 0 && !print_mode(args[0]) {
        let rest = args.drop_first();
        theorem_first_print_mode(rest);
        assert(forall|j: int| 0 <= j < rest.len() ==> rest[j] == args[j + 1]);
        if first_print_mode(rest) is Some {
            let arg = first_print_mode(rest)->Some_0;
            let i = choose|i: int|
                0 <= i < rest.len() && #[trigger] rest[i] == arg && forall|j: int|
                    0 <= j < i ==> !print_mode(#[trigger] rest[j]);
            assert(args[i + 1] == arg);
            assert forall|j: int| 0 <= j < i + 1 implies !print_mode(#[trigger] args[j]) by {
                if j > 0 {
                    assert(rest[j - 1] == args[j]);
                }
            }
        } else {
            assert forall|j: int| 0 <= j < args.len() implies !print_mode(#[trigger] args[j]) by {
                if j > 0 {
                    assert(rest[j - 1] == args[j]);
                }
            }
        }
    }
}

/// The optional value does not ask for print mode.
pub open spec fn plain_value(value: Option<Seq<char>>) -> bool {
    value matches Some(v) ==> !print_mode(os_text::utf8(v))
}

/// Nothing that the configuration puts on the command line asks for print mode.
pub open spec fn interactive(c: ConfigModel) -> bool {
    &&& plain_value(Some(c.session_id))
    &&& plain_value(c.model)
    &&& plain_value(c.permission_mode)
    &&& plain_value(c.setting_sources)
    &&& plain_value(c.resume)
    &&& forall|i: int| 0 <= i < c.extra_args.len() ==> !print_mode(#[trigger] c.extra_args[i])
}

/// None of the arguments asks for print mode.
pub open spec fn none_print_mode(args: Seq<Seq<u8>>) -> bool {
    forall|i: int| 0 <= i < args.len() ==> !print_mode(#[trigger] args[i])
}

proof fn lemma_none_print_mode_concat(a: Seq<Seq<u8>>, b: Seq<Seq<u8>>)
    ensures
        none_print_mode(a + b) <==> none_print_mode(a) && none_print_mode(b),
{
    let c = a + b;
    assert(forall|i: int| 0 <= i < a.len() ==> c[i] == a[i]);
    assert(forall|i: int| 0 <= i < b.len() ==> c[a.len() + i] == b[i]);
    if none_print_mode(c) {
        assert forall|i: int| 0 <= i < a.len() implies !print_mode(#[trigger] a[i]) by {
            assert(c[i] == a[i]);
        }
        assert forall|i: int| 0 <= i < b.len() implies !print_mode(#[trigger] b[i]) by {
            assert(c[a.len() + i] == b[i]);
        }
    }
    if none_print_mode(a) && none_print_mode(b) {
        assert forall|i: int| 0 <= i < c.len() implies !print_mode(#[trigger] c[i]) by {
            if i >= a.len() {
                assert(c[i] == b[i - a.len()]);
            }
        }
    }
}

/// A flag that is none of the ones for print mode.
proof fn lemma_plain_flag(name: Seq<char>)
    requires
        vstd::utf8::is_ascii_chars(name),
        name.len() > 3,
        name[2] != 'p' || name[3] != 'r',
    ensures
        !print_mode(os_text::utf8(name)),
{
    reveal_strlit("-p");
    reveal_strlit("--print");
    reveal_strlit("--print=");
    vstd::utf8::is_ascii_chars_encode_utf8(name);
    vstd::utf8::is_ascii_chars_encode_utf8("-p"@);
    vstd::utf8::is_ascii_chars_encode_utf8("--print"@);
    vstd::utf8::is_ascii_chars_encode_utf8("--print="@);
    let bytes = os_text::utf8(name);
    let wanted = os_text::utf8("--print="@);
    assert(bytes[2] == name[2] as u8 && bytes[3] == name[3] as u8);
    assert(os_text::utf8("--print"@)[2] == 'p' as u8 && os_text::utf8("--print"@)[3] == 'r' as u8);
    assert(wanted[2] == 'p' as u8 && wanted[3] == 'r' as u8);
    if os_text::begins_with(bytes, wanted) {
        assert(bytes.take(wanted.len() as int)[2] == bytes[2]);
        assert(bytes.take(wanted.len() as int)[3] == bytes[3]);
    }
}

proof fn lemma_flag_print_mode(name: Seq<char>, value: Option<Seq<char>>)
    requires
        !print_mode(os_text::utf8(name)),
    ensures
        none_print_mode(flag(name, value)) <==> plain_value(value),
{
    if value is Some {
        let args = flag(name, value);
        assert(args[0] == os_text::utf8(name));
        assert(args[1] == os_text::utf8(value->Some_0));
    }
}

/// A configuration is refused if and only if a value or an argument of it asks for print
/// mode: the flags themselves never do.
pub proof fn theorem_launch_refusal(c: ConfigModel)
    ensures
        first_print_mode(command_line(c).skip(1)) is None <==> interactive(c),
{
    reveal_strlit("--session-id");
    reveal_strlit("--model");
    reveal_strlit("--permission-mode");
    reveal_strlit("--setting-sources");
    reveal_strlit("--resume");
    reveal_strlit("--continue");
    lemma_plain_flag("--session-id"@);
    lemma_plain_flag("--model"@);
    lemma_plain_flag("--permission-mode"@);
    lemma_plain_flag("--setting-sources"@);
    lemma_plain_flag("--resume"@);
    lemma_plain_flag("--continue"@);
    lemma_flag_print_mode("--session-id"@, Some(c.session_id));
    lemma_flag_print_mode("--model"@, c.model);
    lemma_flag_print_mode("--permission-mode"@, c.permission_mode);
    lemma_flag_print_mode("--setting-sources"@, c.setting_sources);
    lemma_flag_print_mode("--resume"@, c.resume);
    let a1 = flag("--session-id"@, Some(c.session_id));
    let a2 = a1 + flag("--model"@, c.model);
    let a3 = a2 + flag("--permission-mode"@, c.permission_mode);
    let a4 = a3 + flag("--setting-sources"@, c.setting_sources);
    let a5 = a4 + flag("--resume"@, c.resume);
    let cont: Seq<Seq<u8>> = if c.continue_last {
        seq![os_text::utf8("--continue"@)]
    } else {
        Seq::empty()
    };
    let a6 = a5 + cont;
    let a7 = a6 + c.extra_args;
    lemma_none_print_mode_concat(a1, flag("--model"@, c.model));
    lemma_none_print_mode_concat(a2, flag("--permission-mode"@, c.permission_mode));
    lemma_none_print_mode_concat(a3, flag("--setting-sources"@, c.setting_sources));
    lemma_none_print_mode_concat(a4, flag("--resume"@, c.resume));
    lemma_none_print_mode_concat(a5, cont);
    lemma_none_print_mode_concat(a6, c.extra_args);
    assert(command_line(c).skip(1) == a7);
    theorem_first_print_mode(a7);
    if first_print_mode(a7) is Some {
        assert(!none_print_mode(a7));
    }
}

/// A flag without a value is left out; one with a value is two arguments, its name and the
/// value.
pub proof fn theorem_flag(name: Seq<char>, value: Seq<char>)
    ensures
        flag(name, None) == Seq::<Seq<u8>>::empty(),
        flag(name, Some(value)) == seq![os_text::utf8(name), os_text::utf8(value)],
{
}

/// `args` with `more` put in at position `at`.
pub open spec fn inserted(args: Seq<Seq<u8>>, at: int, more: Seq<Seq<u8>>) -> Seq<Seq<u8>> {
    args.take(at) + more + args.skip(at)
}

/// How many arguments an optional value adds.
pub open spec fn flag_length(value: Option<Seq<char>>) -> int {
    if value is Some {
        2
    } else {
        0
    }
}

/// The command line begins with the program and the session, and ends in the extra
/// arguments; a configuration with nothing more has nothing more on it.
pub proof fn theorem_command_line(c: ConfigModel)
    ensures
        command_line(c).len() >= 3 + c.extra_args.len(),
        command_line(c).take(3) == seq![
            c.executable,
            os_text::utf8("--session-id"@),
            os_text::utf8(c.session_id),
        ],
        command_line(c).skip(command_line(c).len() - c.extra_args.len()) == c.extra_args,
        command_line(c).len() == 3 + flag_length(c.model) + flag_length(c.permission_mode)
            + flag_length(c.setting_sources) + flag_length(c.resume) + (if c.continue_last {
            1int
        } else {
            0int
        }) + c.extra_args.len(),
{
    let line = command_line(c);
    assert(line.take(3) == seq![
        c.executable,
        os_text::utf8("--session-id"@),
        os_text::utf8(c.session_id),
    ]);
    assert(line.skip(line.len() - c.extra_args.len()) == c.extra_args);
}

/// Asking to continue the last session puts `--continue` right before the extra arguments,
/// and does nothing else, whatever the other fields hold.
pub proof fn theorem_continue(c: ConfigModel)
    requires
        !c.continue_last,
    ensures
        command_line(ConfigModel { continue_last: true, ..c }) == inserted(
            command_line(c),
            command_line(c).len() - c.extra_args.len(),
            seq![os_text::utf8("--continue"@)],
        ),
{
    let with = ConfigModel { continue_last: true, ..c };
    let line = command_line(c);
    let n = line.len() - c.extra_args.len();
    let head = seq![c.executable] + flag("--session-id"@, Some(c.session_id)) + flag(
        "--model"@,
        c.model,
    ) + flag("--permission-mode"@, c.permission_mode) + flag(
        "--setting-sources"@,
        c.setting_sources,
    ) + flag("--resume"@, c.resume);
    let none: Seq<Seq<u8>> = Seq::empty();
    assert(line == head + none + c.extra_args);
    assert(line.take(n) == head);
    assert(line.skip(n) == c.extra_args);
    assert(command_line(with) == head + seq![os_text::utf8("--continue"@)] + c.extra_args);
}

/// A model puts its flag and itself on the command line, right behind the session, and does
/// nothing else, whatever the other fields hold.
pub proof fn theorem_model_argument(c: ConfigModel, value: Seq<char>)
    ensures
        command_line(ConfigModel { model: Some(value), ..c }) == inserted(
            command_line(ConfigModel { model: None, ..c }),
            3,
            seq![os_text::utf8("--model"@), os_text::utf8(value)],
        ),
{
    let a1 = seq![c.executable] + flag("--session-id"@, Some(c.session_id));
    let p = flag("--permission-mode"@, c.permission_mode);
    let s = flag("--setting-sources"@, c.setting_sources);
    let r = flag("--resume"@, c.resume);
    let cont: Seq<Seq<u8>> = if !c.continue_last {
        Seq::empty()
    } else {
        seq![os_text::utf8("--continue"@)]
    };
    let x = c.extra_args;
    let more = seq![os_text::utf8("--model"@), os_text::utf8(value)];
    let head = a1;
    let tail = p + s + r + cont + x;
    lemma_inserted(head, tail, more);
    assert(command_line(ConfigModel { model: None, ..c }) == head + tail);
    assert(command_line(ConfigModel { model: Some(value), ..c }) == head + more + tail);
}

/// A permission mode puts its flag and itself on the command line, behind the model, and does
/// nothing else, whatever the other fields hold.
pub proof fn theorem_permission_mode_argument(c: ConfigModel, value: Seq<char>)
    ensures
        command_line(ConfigModel { permission_mode: Some(value), ..c }) == inserted(
            command_line(ConfigModel { permission_mode: None, ..c }),
            3 + flag_length(c.model),
            seq![os_text::utf8("--permission-mode"@), os_text::utf8(value)],
        ),
{
    let a1 = seq![c.executable] + flag("--session-id"@, Some(c.session_id));
    let m = flag("--model"@, c.model);
    let s = flag("--setting-sources"@, c.setting_sources);
    let r = flag("--resume"@, c.resume);
    let cont: Seq<Seq<u8>> = if !c.continue_last {
        Seq::empty()
    } else {
        seq![os_text::utf8("--continue"@)]
    };
    let x = c.extra_args;
    let more = seq![os_text::utf8("--permission-mode"@), os_text::utf8(value)];
    let head = a1 + m;
    let tail = s + r + cont + x;
    lemma_inserted(head, tail, more);
    assert(command_line(ConfigModel { permission_mode: None, ..c }) == head + tail);
    assert(command_line(ConfigModel { permission_mode: Some(value), ..c }) == head + more + tail);
}

/// Setting sources put their flag and themselves on the command line, behind the permission mode, and do
/// nothing else, whatever the other fields hold.
pub proof fn theorem_setting_sources_argument(c: ConfigModel, value: Seq<char>)
    ensures
        command_line(ConfigModel { setting_sources: Some(value), ..c }) == inserted(
            command_line(ConfigModel { setting_sources: None, ..c }),
            3 + flag_length(c.model) + flag_length(c.permission_mode),
            seq![os_text::utf8("--setting-sources"@), os_text::utf8(value)],
        ),
{
    let a1 = seq![c.executable] + flag("--session-id"@, Some(c.session_id));
    let m = flag("--model"@, c.model);
    let p = flag("--permission-mode"@, c.permission_mode);
    let r = flag("--resume"@, c.resume);
    let cont: Seq<Seq<u8>> = if !c.continue_last {
        Seq::empty()
    } else {
        seq![os_text::utf8("--continue"@)]
    };
    let x = c.extra_args;
    let more = seq![os_text::utf8("--setting-sources"@), os_text::utf8(value)];
    let head = a1 + m + p;
    let tail = r + cont + x;
    lemma_inserted(head, tail, more);
    assert(command_line(ConfigModel { setting_sources: None, ..c }) == head + tail);
    assert(command_line(ConfigModel { setting_sources: Some(value), ..c }) == head + more + tail);
}

/// A session to resume puts its flag and itself on the command line, behind the setting sources, and does
/// nothing else, whatever the other fields hold.
pub proof fn theorem_resume_argument(c: ConfigModel, value: Seq<char>)
    ensures
        command_line(ConfigModel { resume: Some(value), ..c }) == inserted(
            command_line(ConfigModel { resume: None, ..c }),
            3 + flag_length(c.model) + flag_length(c.permission_mode) + flag_length(
                c.setting_sources,
            ),
            seq![os_text::utf8("--resume"@), os_text::utf8(value)],
        ),
{
    let a1 = seq![c.executable] + flag("--session-id"@, Some(c.session_id));
    let m = flag("--model"@, c.model);
    let p = flag("--permission-mode"@, c.permission_mode);
    let s = flag("--setting-sources"@, c.setting_sources);
    let cont: Seq<Seq<u8>> = if !c.continue_last {
        Seq::empty()
    } else {
        seq![os_text::utf8("--continue"@)]
    };
    let x = c.extra_args;
    let more = seq![os_text::utf8("--resume"@), os_text::utf8(value)];
    let head = a1 + m + p + s;
    let tail = cont + x;
    lemma_inserted(head, tail, more);
    assert(command_line(ConfigModel { resume: None, ..c }) == head + tail);
    assert(command_line(ConfigModel { resume: Some(value), ..c }) == head + more + tail);
}

proof fn lemma_inserted(before: Seq<Seq<u8>>, behind: Seq<Seq<u8>>, more: Seq<Seq<u8>>)
    ensures
        inserted(before + behind, before.len() as int, more) == before + more + behind,
{
    let all = before + behind;
    assert(all.take(before.len() as int) == before);
    assert(all.skip(before.len() as int) == behind);
}

/// What has no place on the command line has no say in it.
pub proof fn theorem_not_on_command_line(c: ConfigModel, d: ConfigModel)
    requires
        d == (ConfigModel {
            cwd: d.cwd,
            mcp_servers: d.mcp_servers,
            rows: d.rows,
            cols: d.cols,
            ..c
        }),
    ensures
        command_line(c) == command_line(d),
{
}

/// The arguments that ask for print mode are `-p`, `--print`, and `--print=` with whatever
/// follows it.
pub proof fn theorem_print_mode(arg: Seq<u8>)
    ensures
        print_mode(arg) <==> {
            ||| arg == os_text::utf8("-p"@)
            ||| arg == os_text::utf8("--print"@)
            ||| exists|rest: Seq<u8>| arg == #[trigger] (os_text::utf8("--print="@) + rest)
        },
{
    os_text::theorem_begins_with(arg, os_text::utf8("--print="@));
}

/// The configuration of a new session has nothing set but its program, its directory, its
/// session and the size of its terminal, and so launches the program with the session alone.
pub proof fn theorem_default_config(
    executable: Seq<u8>,
    cwd: Option<Seq<u8>>,
    session_id: Seq<char>,
)
    ensures
        ({
            let c = default_config(executable, cwd, session_id);
            &&& command_line(c) == seq![
                executable,
                os_text::utf8("--session-id"@),
                os_text::utf8(session_id),
            ]
            &&& cwd is Some ==> c.cwd == cwd->Some_0
            &&& cwd is None ==> c.cwd == os_text::utf8("."@)
            &&& c.executable == executable
            &&& c.session_id == session_id
            &&& c.model is None && c.permission_mode is None && c.setting_sources is None
                && c.resume is None
            &&& !c.continue_last
            &&& c.mcp_servers.len() == 0 && c.extra_args.len() == 0
            &&& c.rows == 24 && c.cols == 80
        }),
{
    let c = default_config(executable, cwd, session_id);
    assert(command_line(c) == seq![
        executable,
        os_text::utf8("--session-id"@),
        os_text::utf8(session_id),
    ]);
}

/// A configuration is seen as it is, field by field.
pub proof fn theorem_config_view(c: ClaudePtyConfig)
    ensures
        c@.executable == c.executable.bytes@,
        c@.cwd == c.cwd.bytes@,
        c@.session_id == c.session_id@,
        c.model is Some ==> c@.model == Some(c.model->Some_0@),
        c.model is None ==> c@.model is None,
        c.permission_mode is Some ==> c@.permission_mode == Some(c.permission_mode->Some_0@),
        c.permission_mode is None ==> c@.permission_mode is None,
        c.setting_sources is Some ==> c@.setting_sources == Some(c.setting_sources->Some_0@),
        c.setting_sources is None ==> c@.setting_sources is None,
        c.resume is Some ==> c@.resume == Some(c.resume->Some_0@),
        c.resume is None ==> c@.resume is None,
        c@.continue_last == c.continue_last,
        c@.mcp_servers.len() == c.mcp_servers@.len(),
        forall|i: int|
            0 <= i < c.mcp_servers@.len() ==> #[trigger] c@.mcp_servers[i] == c.mcp_servers@[i]@,
        c@.extra_args.len() == c.extra_args@.len(),
        forall|i: int|
            0 <= i < c.extra_args@.len() ==> #[trigger] c@.extra_args[i] == c.extra_args@[i].bytes@,
        c@.rows == c.rows && c@.cols == c.cols,
{
}

/// A refusal names the argument that it is about, byte by byte.
pub proof fn theorem_refusal(e: SessionError, arg: Seq<u8>)
    ensures
        refuses(e, arg) <==> (e matches SessionError::PrintModeArgument(named) && named.bytes@
            == arg),
{
}

} // verus!

//! How a process is launched, ended and handed over.

use claude_session::error::SessionError;
use claude_session::os_text::OsText;
use claude_session::pty::config::reject_print_mode_args;
use claude_session::pty::config::ClaudePtyConfig;
use claude_session::pty::mcp::mcp_config_body;
use claude_session::pty::mcp::McpServer;
use claude_session::pty::mcp::NamedValue;
use claude_session::pty::session::reader_step;
use claude_session::pty::session::ClaudePtySession;
use claude_session::pty::session::ReaderAction;
use claude_session::pty::session::TerminateAction;
use claude_session::pty::session::TerminateEvent;
use claude_session::terminal::PermissionDialog;

fn os(s: &str) -> OsText {
    OsText::from_text(s)
}

fn all_os(args: &[&str]) -> Vec<OsText> {
    args.iter().map(|a| os(a)).collect()
}

fn config() -> ClaudePtyConfig {
    ClaudePtyConfig::with_session_id(os("agent"), Some(os("/work")), "sid".to_string())
}

fn full_config() -> ClaudePtyConfig {
    ClaudePtyConfig {
        model: Some("opus".to_string()),
        permission_mode: Some("plan".to_string()),
        setting_sources: Some("user".to_string()),
        resume: Some("old".to_string()),
        continue_last: true,
        extra_args: all_os(&["hello", "there"]),
        ..config()
    }
}

#[test]
fn default_configuration() {
    let c = config();
    assert_eq!(c.executable, os("agent"));
    assert_eq!(c.cwd, os("/work"));
    assert_eq!(c.session_id, "sid");
    assert_eq!((c.rows, c.cols), (24, 80));
    assert_eq!(c.model, None);
    assert!(c.mcp_servers.is_empty() && c.extra_args.is_empty() && !c.continue_last);
    let here = ClaudePtyConfig::with_session_id(os("agent"), None, "sid".to_string());
    assert_eq!(here.cwd, os("."));
}

#[test]
fn default_session_id_is_a_fresh_uuid() {
    let a = ClaudePtyConfig::default_in(os("agent"), None);
    let b = ClaudePtyConfig::default_in(os("agent"), None);
    assert_ne!(a.session_id, b.session_id);
    let parsed = uuid::Uuid::parse_str(&a.session_id).unwrap();
    assert_eq!(parsed.get_version_num(), 4);
    assert_eq!(parsed.hyphenated().to_string(), a.session_id);
}

#[test]
fn command_line_of_a_plain_configuration() {
    assert_eq!(
        config().launch_argv().unwrap(),
        all_os(&["agent", "--session-id", "sid"])
    );
}

#[test]
fn command_line_of_a_full_configuration() {
    assert_eq!(
        full_config().launch_argv().unwrap(),
        all_os(&[
            "agent",
            "--session-id",
            "sid",
            "--model",
            "opus",
            "--permission-mode",
            "plan",
            "--setting-sources",
            "user",
            "--resume",
            "old",
            "--continue",
            "hello",
            "there",
        ])
    );
}

#[test]
fn print_mode_is_refused() {
    for arg in ["-p", "--print", "--print=x", "--print="] {
        let refused = ClaudePtyConfig {
            extra_args: all_os(&["fine", arg]),
            ..config()
        };
        let e = refused.launch_argv().unwrap_err();
        assert_eq!(e, SessionError::PrintModeArgument(os(arg)));
        assert_eq!(
            e.message("Agent"),
            format!(
                "Agent PTY sessions must use interactive mode and cannot launch with {}",
                arg
            )
        );
        assert_eq!(ClaudePtySession::spawn(refused, None).unwrap_err(), e);
    }
}

#[test]
fn print_mode_is_refused_in_values_too() {
    let refused = ClaudePtyConfig {
        model: Some("-p".to_string()),
        ..config()
    };
    assert!(refused.launch_argv().is_err());
}

#[test]
fn executable_is_not_checked_for_print_mode() {
    let odd = ClaudePtyConfig {
        executable: os("-p"),
        ..config()
    };
    assert!(odd.launch_argv().is_ok());
}

#[test]
fn similar_arguments_are_let_through() {
    let args = all_os(&["-P", "--printed", "--prin", "p", "-pp", ""]);
    assert_eq!(reject_print_mode_args(&args, 0), Ok(()));
    assert_eq!(reject_print_mode_args(&args, 6), Ok(()));
    let both = all_os(&["-p", "x", "--print"]);
    assert_eq!(
        reject_print_mode_args(&both, 1),
        Err(SessionError::PrintModeArgument(os("--print")))
    );
}

#[test]
fn refused_argument_is_shown_with_replacements() {
    let mut bytes = b"--print=".to_vec();
    bytes.push(0xff);
    let refused = ClaudePtyConfig {
        extra_args: vec![OsText::from_bytes(bytes)],
        ..config()
    };
    let message = refused.launch_argv().unwrap_err().message("Agent");
    assert!(message.ends_with("with --print=\u{fffd}"));
    assert_eq!(
        SessionError::McpEncoding.message("Agent"),
        "encode Agent MCP config"
    );
}

#[test]
fn bytes_are_text_where_they_are_utf8() {
    assert_eq!(os("héé").to_text().as_deref(), Some("héé"));
    assert_eq!(OsText::from_bytes(vec![0xc3]).to_text(), None);
    assert_eq!(OsText::from_bytes(vec![b'a', 0xc3]).lossy(), "a\u{fffd}");
    assert_eq!(os("abc").copy(), os("abc"));
    assert!(os("--print=x").starts_with("--print="));
    assert!(!os("--print").starts_with("--print="));
    assert!(os("-p").is("-p"));
    assert!(!os("-pq").is("-p"));
}

#[test]
fn spawned_process_gets_its_servers_and_environment() {
    let (process, plan) = ClaudePtySession::spawn(full_config(), Some(os("/tmp/m.json"))).unwrap();
    let mut argv = full_config().launch_argv().unwrap();
    argv.extend(all_os(&[
        "--mcp-config",
        "/tmp/m.json",
        "--strict-mcp-config",
    ]));
    assert_eq!(plan.argv, argv);
    assert_eq!(plan.cwd, os("/work"));
    assert_eq!((plan.rows, plan.cols), (24, 80));
    let env: Vec<(&str, &str)> = plan
        .env
        .iter()
        .map(|NamedValue { name, value }| (name.as_str(), value.as_str()))
        .collect();
    assert_eq!(
        env,
        vec![
            ("CLAUDE_CODE_NO_FLICKER", "1"),
            ("CLAUDE_CODE_DISABLE_MOUSE", "1"),
            ("CLAUDE_CODE_ENABLE_PROMPT_SUGGESTION", "false"),
        ]
    );
    assert_eq!(process.generated_mcp_config, Some(os("/tmp/m.json")));
    let (_, bare) = ClaudePtySession::spawn(config(), None).unwrap();
    assert_eq!(bare.argv, config().launch_argv().unwrap());
}

#[test]
fn takeover_resumes_the_session() {
    let (process, _) = ClaudePtySession::spawn(full_config(), None).unwrap();
    assert_eq!(
        process.takeover_argv(),
        all_os(&[
            "agent",
            "--resume",
            "sid",
            "--model",
            "opus",
            "--permission-mode",
            "plan",
        ])
    );
    let (plain, _) = ClaudePtySession::spawn(config(), None).unwrap();
    assert_eq!(
        plain.takeover_argv(),
        all_os(&["agent", "--resume", "sid"])
    );
}

#[test]
fn takeover_fails_with_the_status() {
    assert_eq!(
        ClaudePtySession::detach_for_user("Agent", true, "exit status: 0"),
        Ok(())
    );
    assert_eq!(
        ClaudePtySession::detach_for_user("Agent", false, "exit status: 3"),
        Err("attached Agent session exited with status exit status: 3".to_string())
    );
}

#[test]
fn running_process_is_killed_and_its_file_removed_once() {
    let (mut process, _) = ClaudePtySession::spawn(config(), Some(os("f"))).unwrap();
    assert_eq!(
        process.terminate(TerminateEvent::Requested),
        TerminateAction::Poll
    );
    assert_eq!(
        process.terminate(TerminateEvent::Polled { running: true }),
        TerminateAction::Kill
    );
    assert_eq!(
        process.terminate(TerminateEvent::Killed),
        TerminateAction::Remove(os("f"))
    );
    assert_eq!(
        process.terminate(TerminateEvent::Removed),
        TerminateAction::Finish
    );
    assert_eq!(
        process.terminate(TerminateEvent::Polled { running: false }),
        TerminateAction::Finish
    );
}

#[test]
fn exited_process_is_not_killed() {
    let (mut process, _) = ClaudePtySession::spawn(config(), Some(os("f"))).unwrap();
    assert_eq!(
        process.terminate(TerminateEvent::Polled { running: false }),
        TerminateAction::Remove(os("f"))
    );
    assert_eq!(process.generated_mcp_config, None);
}

#[test]
fn reader_stops_at_the_end() {
    assert_eq!(reader_step(Some(5), true), ReaderAction::Show(5));
    assert_eq!(reader_step(Some(0), true), ReaderAction::Stop);
    assert_eq!(reader_step(Some(5), false), ReaderAction::Stop);
    assert_eq!(reader_step(None, true), ReaderAction::Stop);
}

#[test]
fn screen_that_cannot_be_had_is_empty() {
    assert_eq!(ClaudePtySession::screen_snapshot(None), "");
    assert_eq!(ClaudePtySession::screen_snapshot(Some("x".to_string())), "x");
}

#[test]
fn keys_are_pressed_for_a_shown_request_alone() {
    let dialog = Some(PermissionDialog {
        title: "t".to_string(),
        options: vec![],
    });
    assert_eq!(
        ClaudePtySession::select_permission(&dialog, Some(b"1".to_vec())),
        Some(b"1".to_vec())
    );
    assert_eq!(ClaudePtySession::select_permission(&dialog, None), None);
    assert_eq!(
        ClaudePtySession::select_permission(&None, Some(b"1".to_vec())),
        None
    );
}

fn servers() -> Vec<McpServer> {
    vec![McpServer::Sse {
        name: "feed".to_string(),
        url: "u".to_string(),
        headers: vec![],
    }]
}

#[test]
fn servers_are_handed_over_in_a_file() {
    let with_servers = ClaudePtyConfig {
        mcp_servers: servers(),
        ..config()
    };
    let (file, launch) =
        ClaudePtySession::plan_launch("host", os("/tmp"), with_servers.clone());
    let file = file.unwrap();
    let (process, plan) = launch.unwrap();
    let path = os(&format!("/tmp/{}", file.name));
    assert!(file.name.starts_with("host-mcp-sid-"));
    assert_eq!(file.body, mcp_config_body(&servers()).unwrap());
    assert_eq!(process.generated_mcp_config, Some(path.copy()));
    let mut argv = with_servers.launch_argv().unwrap();
    argv.extend(vec![os("--mcp-config"), path, os("--strict-mcp-config")]);
    assert_eq!(plan.argv, argv);
}

#[test]
fn session_without_servers_is_launched_without_a_file() {
    let (file, launch) = ClaudePtySession::plan_launch("host", os("/tmp"), config());
    assert_eq!(file, None);
    let (process, plan) = launch.unwrap();
    assert_eq!(process.generated_mcp_config, None);
    assert_eq!(plan.argv, config().launch_argv().unwrap());
}

#[test]
fn refused_launch_still_has_its_file() {
    let refused = ClaudePtyConfig {
        mcp_servers: servers(),
        extra_args: all_os(&["-p"]),
        ..config()
    };
    let (file, launch) = ClaudePtySession::plan_launch("host", os("/tmp"), refused);
    assert!(file.is_some());
    assert_eq!(
        launch.unwrap_err(),
        SessionError::PrintModeArgument(os("-p"))
    );
}

#[test]
fn paths_are_joined_as_paths_of_files() {
    for (directory, name) in [
        ("/tmp", "a"),
        ("/tmp/", "a"),
        ("", "a"),
        ("d", "/a"),
        ("/tmp", ""),
        ("d", "a/b"),
        ("/", "é"),
    ] {
        let wanted = std::path::Path::new(directory).join(name);
        assert_eq!(os(directory).join(name), os(wanted.to_str().unwrap()));
    }
}

//! Sessions, and what they remember between turns.

use agent_client_protocol::schema::PromptRequest;

use claude_session::os_text::OsText;
use claude_session::pty::config::ClaudePtyConfig;
use claude_session::pty::mcp::McpServer;
use claude_session::session::manager::ClaudeCli;
use claude_session::session::manager::ConfigChange;
use claude_session::session::manager::ManagedSession;
use claude_session::session::manager::PtySource;
use claude_session::session::manager::SessionManager;
use claude_session::session::manager::ShutdownAction;
use claude_session::session::manager::ShutdownEvent;
use claude_session::session::options::TurnOptions;
use claude_session::session::turn::TurnAction;

fn os(s: &str) -> OsText {
    OsText::from_text(s)
}

fn manager() -> SessionManager {
    SessionManager::new(ClaudeCli {
        executable: os("/usr/bin/agent"),
        name: "Agent".to_string(),
    })
}

fn session() -> ManagedSession<u32> {
    manager()
        .create_session("sid".to_string(), os("/work"), vec![McpServer::Other])
        .unwrap()
}

fn options() -> TurnOptions {
    TurnOptions::from_prompt_request(&PromptRequest::new("sid", vec![]))
}

fn launched(source: PtySource<u32>) -> ClaudePtyConfig {
    match source {
        PtySource::Launch(config) => config,
        PtySource::Reused(_) => panic!("no process was launched"),
    }
}

#[test]
fn options_of_a_prompt_request() {
    let o = options();
    assert_eq!(o.timeout, 120_000_000_000);
    assert_eq!((o.model, o.permission_mode, o.resume), (None, None, None));
    assert!(!o.continue_last && !o.initial_prompt_argument);
    assert!(!o.attach_on_timeout && !o.attach_on_permission);
}

#[test]
fn new_sessions() {
    let s = session();
    assert_eq!(s.session_id(), "sid");
    assert_eq!(s.cwd(), &os("/work"));
    assert_eq!(s.executable, os("/usr/bin/agent"));
    assert_eq!(s.agent, "Agent");
    assert_eq!((s.model, s.permission_mode, s.pty), (None, None, None));
    let loaded: ManagedSession<u32> = manager()
        .load_session("sid".to_string(), os("/work"), vec![])
        .unwrap();
    assert_eq!(loaded.session_id(), "sid");
    let printed: ManagedSession<u32> = manager()
        .create_print_session("p".to_string(), os("/"), Some("opus".to_string()))
        .unwrap();
    assert_eq!(printed.model.as_deref(), Some("opus"));
    assert!(printed.mcp_servers.is_empty());
}

#[test]
fn models_are_set_and_refused() {
    let mut s = session();
    assert_eq!(s.set_model::<u8>(Some(Ok("opus".to_string()))), Ok(()));
    assert_eq!(s.model.as_deref(), Some("opus"));
    assert_eq!(s.set_model(Some(Err(7u8))), Err(7));
    assert_eq!(s.model.as_deref(), Some("opus"));
    assert_eq!(s.set_model::<u8>(None), Ok(()));
    assert_eq!(s.model, None);
}

#[test]
fn permission_modes_are_set_and_refused() {
    let mut s = session();
    assert_eq!(
        s.set_permission_mode::<u8>(Some(Ok("plan".to_string()))),
        Ok(())
    );
    assert_eq!(s.permission_mode.as_deref(), Some("plan"));
    assert_eq!(s.set_permission_mode(Some(Err(7u8))), Err(7));
    assert_eq!(s.permission_mode.as_deref(), Some("plan"));
    assert_eq!(s.set_permission_mode::<u8>(None), Ok(()));
    assert_eq!(s.permission_mode, None);
}

fn change() -> Result<ConfigChange<u16>, u8> {
    Ok(ConfigChange {
        mode: "plan".to_string(),
        model: "opus".to_string(),
        update: Some(9),
    })
}

#[test]
fn configuration_options_are_followed() {
    let mut s = session();
    assert_eq!(s.set_config_option("theme", change()), Ok(Some(9)));
    assert_eq!((&s.model, &s.permission_mode), (&None, &None));
    assert_eq!(s.set_config_option("mode", change()), Ok(Some(9)));
    assert_eq!(s.permission_mode.as_deref(), Some("plan"));
    assert_eq!(s.model, None);
    assert_eq!(s.set_config_option("model", change()), Ok(Some(9)));
    assert_eq!(s.model.as_deref(), Some("opus"));
    let refused: Result<ConfigChange<u16>, u8> = Err(3);
    assert_eq!(s.set_config_option("model", refused), Err(3));
    assert_eq!(s.model.as_deref(), Some("opus"));
}

#[test]
fn process_is_launched_with_the_configured_model() {
    let mut s = session();
    let c = launched(s.ensure_pty(&options(), "hi", "sonnet", Some(" user ".to_string())));
    assert_eq!(c.executable, os("/usr/bin/agent"));
    assert_eq!(c.cwd, os("/work"));
    assert_eq!(c.session_id, "sid");
    assert_eq!(c.model.as_deref(), Some("sonnet"));
    assert_eq!(c.permission_mode, None);
    assert_eq!(c.setting_sources.as_deref(), Some(" user "));
    assert_eq!(c.mcp_servers, vec![McpServer::Other]);
    assert!(c.extra_args.is_empty());
    assert_eq!((c.rows, c.cols), (24, 80));
}

#[test]
fn default_model_is_left_out() {
    let mut s = session();
    assert_eq!(
        launched(s.ensure_pty(&options(), "hi", "default", Some(" \n".to_string()))).model,
        None
    );
    s.model = Some("default".to_string());
    let c = launched(s.ensure_pty(&options(), "hi", "sonnet", Some(" \n".to_string())));
    assert_eq!(c.model, None);
    assert_eq!(c.setting_sources, None);
    let asked = TurnOptions {
        model: Some("default".to_string()),
        ..options()
    };
    assert_eq!(
        launched(s.ensure_pty(&asked, "hi", "sonnet", None))
            .model
            .as_deref(),
        Some("default")
    );
}

#[test]
fn turn_goes_before_session() {
    let mut s = session();
    s.model = Some("opus".to_string());
    s.permission_mode = Some("plan".to_string());
    let c = launched(s.ensure_pty(&options(), "hi", "sonnet", None));
    assert_eq!(c.model.as_deref(), Some("opus"));
    assert_eq!(c.permission_mode.as_deref(), Some("plan"));
    let asked = TurnOptions {
        model: Some("haiku".to_string()),
        permission_mode: Some("ask".to_string()),
        resume: Some("old".to_string()),
        continue_last: true,
        initial_prompt_argument: true,
        ..options()
    };
    let c = launched(s.ensure_pty(&asked, "hé", "sonnet", None));
    assert_eq!(c.model.as_deref(), Some("haiku"));
    assert_eq!(c.permission_mode.as_deref(), Some("ask"));
    assert_eq!(c.resume.as_deref(), Some("old"));
    assert!(c.continue_last);
    assert_eq!(c.extra_args, vec![os("hé")]);
}

#[test]
fn process_is_kept_and_reused() {
    let mut s = session();
    assert!(s.cancel().is_none());
    assert_eq!(s.end_turn(41, true), None);
    if let Some(pty) = s.cancel() {
        *pty += 1;
    }
    match s.ensure_pty(&options(), "hi", "sonnet", None) {
        PtySource::Reused(pty) => assert_eq!(pty, 42),
        PtySource::Launch(_) => panic!("the process was not reused"),
    }
    launched(s.ensure_pty(&options(), "hi", "sonnet", None));
}

#[test]
fn process_of_a_failed_turn_is_given_up() {
    let mut s = session();
    s.end_turn(1, true);
    assert!(matches!(
        s.ensure_pty(&options(), "hi", "sonnet", None),
        PtySource::Reused(1)
    ));
    assert_eq!(s.end_turn(1, false), Some(1));
    assert_eq!(s.pty, None);
    launched(s.ensure_pty(&options(), "hi", "sonnet", None));
}

#[test]
fn clones_make_sessions_of_the_same_program() {
    let copy = manager().clone();
    assert_eq!(copy, manager());
    let mut s: ManagedSession<u32> = copy
        .load_session("sid".to_string(), os("/work"), vec![])
        .unwrap();
    s.model = Some("opus".to_string());
    let c = launched(s.ensure_pty(&options(), "hi", "sonnet", None));
    assert_eq!(c.executable, os("/usr/bin/agent"));
    assert_eq!(c.launch_argv().unwrap()[0], os("/usr/bin/agent"));
}

#[test]
fn shut_down_session_launches_anew() {
    let mut s = session();
    s.end_turn(1, true);
    match s.shutdown(ShutdownEvent::Requested) {
        ShutdownAction::SendCommand { process, command } => {
            assert_eq!((process, command.as_str()), (1, "exit"));
        }
        _ => panic!("the process was not told to exit"),
    }
    assert_eq!(s.pty, None);
    assert!(matches!(
        s.shutdown(ShutdownEvent::CommandSent(1)),
        ShutdownAction::Terminate(1)
    ));
    assert!(matches!(
        s.shutdown(ShutdownEvent::Terminated),
        ShutdownAction::Finish
    ));
    assert!(matches!(
        s.shutdown(ShutdownEvent::Requested),
        ShutdownAction::Finish
    ));
    launched(s.ensure_pty(&options(), "hi", "sonnet", None));
}

#[test]
fn turns_type_the_prompt_unless_it_was_launched_with() {
    let s = session();
    let (_, first) = s.prompt_with_permission_handler(&options(), false, false);
    assert_eq!(first, TurnAction::AwaitEditor);
    let argument = TurnOptions {
        initial_prompt_argument: true,
        ..options()
    };
    let (_, first) = s.prompt_with_permission_handler(&argument, false, false);
    assert_eq!(first, TurnAction::ReadClock);
    let (_, first) = s.prompt_with_permission_handler(&argument, true, false);
    assert_eq!(first, TurnAction::AwaitEditor);
}

//! How a turn is run.

use vstd::prelude::*;

use agent_client_protocol::schema::PromptRequest;

use crate::text;

verus! {

/// Declares `agent_client_protocol::schema::PromptRequest`, of which nothing is seen.
#[verifier::external_type_specification]
#[verifier::external_body]
pub struct ExPromptRequest(agent_client_protocol::schema::PromptRequest);

/// How long a turn may take, unless said otherwise, in nanoseconds.
pub const TURN_TIMEOUT: u128 = 120_000_000_000;

/// How a turn is run.
#[derive(Clone, Debug, PartialEq, Eq)]
pub struct TurnOptions {
    /// How long the turn may take, in nanoseconds.
    pub timeout: u128,
    /// The model to launch with, in place of the one of the session.
    pub model: Option<String>,
    /// The permission mode to launch with, in place of the one of the session.
    pub permission_mode: Option<String>,
    /// The session to resume.
    pub resume: Option<String>,
    /// Whether the last session is continued.
    pub continue_last: bool,
    /// Whether the prompt is handed over on the command line.
    pub initial_prompt_argument: bool,
    /// Whether the user takes over when the time is up.
    pub attach_on_timeout: bool,
    /// Whether the user takes over when a permission is asked for.
    pub attach_on_permission: bool,
}

/// How a turn is run, in contracts.
pub struct OptionsModel {
    pub timeout: u128,
    pub model: Option<Seq<char>>,
    pub permission_mode: Option<Seq<char>>,
    pub resume: Option<Seq<char>>,
    pub continue_last: bool,
    pub initial_prompt_argument: bool,
    pub attach_on_timeout: bool,
    pub attach_on_permission: bool,
}

impl View for TurnOptions {
    type V = OptionsModel;

    open spec fn view(&self) -> OptionsModel {
        OptionsModel {
            timeout: self.timeout,
            model: text::opt_view(self.model),
            permission_mode: text::opt_view(self.permission_mode),
            resume: text::opt_view(self.resume),
            continue_last: self.continue_last,
            initial_prompt_argument: self.initial_prompt_argument,
            attach_on_timeout: self.attach_on_timeout,
            attach_on_permission: self.attach_on_permission,
        }
    }
}

impl TurnOptions {
    /// How the turn for a prompt request is run. The request has no say in it.
    pub fn from_prompt_request(_request: &PromptRequest) -> (res: Self)
        ensures
            res@ == (OptionsModel {
                timeout: TURN_TIMEOUT,
                model: None,
                permission_mode: None,
                resume: None,
                continue_last: false,
                initial_prompt_argument: false,
                attach_on_timeout: false,
                attach_on_permission: false,
            }),
    {
        TurnOptions {
            timeout: TURN_TIMEOUT,
            model: None,
            permission_mode: None,
            resume: None,
            continue_last: false,
            initial_prompt_argument: false,
            attach_on_timeout: false,
            attach_on_permission: false,
        }
    }
}

/// Options are seen as they are, field by field.
pub proof fn theorem_options_view(o: TurnOptions)
    ensures
        o@.timeout == o.timeout,
        o.model is Some ==> o@.model == Some(o.model->Some_0@),
        o.model is None ==> o@.model is None,
        o.permission_mode is Some ==> o@.permission_mode == Some(o.permission_mode->Some_0@),
        o.permission_mode is None ==> o@.permission_mode is None,
        o.resume is Some ==> o@.resume == Some(o.resume->Some_0@),
        o.resume is None ==> o@.resume is None,
        o@.continue_last == o.continue_last,
        o@.initial_prompt_argument == o.initial_prompt_argument,
        o@.attach_on_timeout == o.attach_on_timeout,
        o@.attach_on_permission == o.attach_on_permission,
{
}

} // verus!

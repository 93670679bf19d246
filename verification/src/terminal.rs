//! What can be recognised on the terminal screen.

use vstd::prelude::*;

verus! {

/// What the screen shows, as a whole.
#[derive(Clone, Debug, PartialEq, Eq)]
pub enum ScreenStatus {
    /// The prompt editor waits for input.
    Idle,
    /// The agent asks whether the workspace is trusted.
    WorkspaceTrust,
    /// Nothing that is known.
    Unknown,
    /// Something else, by its name.
    Other(String),
}

/// A screen status in contracts.
pub enum StatusModel {
    Idle,
    WorkspaceTrust,
    Unknown,
    Other(Seq<char>),
}

impl View for ScreenStatus {
    type V = StatusModel;

    open spec fn view(&self) -> StatusModel {
        match *self {
            ScreenStatus::Idle => StatusModel::Idle,
            ScreenStatus::WorkspaceTrust => StatusModel::WorkspaceTrust,
            ScreenStatus::Unknown => StatusModel::Unknown,
            ScreenStatus::Other(name) => StatusModel::Other(name@),
        }
    }
}

/// The name of a status.
pub open spec fn status_name(s: StatusModel) -> Seq<char> {
    match s {
        StatusModel::Idle => "Idle"@,
        StatusModel::WorkspaceTrust => "WorkspaceTrust"@,
        StatusModel::Unknown => "Unknown"@,
        StatusModel::Other(name) => name,
    }
}

impl ScreenStatus {
    /// The name of this status.
    pub fn name(&self) -> (res: String)
        ensures
            res@ == status_name(self@),
    {
        match self {
            ScreenStatus::Idle => "Idle".to_owned(),
            ScreenStatus::WorkspaceTrust => "WorkspaceTrust".to_owned(),
            ScreenStatus::Unknown => "Unknown".to_owned(),
            ScreenStatus::Other(name) => name.clone(),
        }
    }
}

/// What is decided on a permission request, by its name.
#[derive(Clone, Debug, PartialEq, Eq)]
pub struct PermissionDecision {
    pub name: String,
}

/// One of the answers that a permission request offers.
#[derive(Clone, Debug, PartialEq, Eq)]
pub struct PermissionOption {
    pub accelerator: String,
    pub label: String,
    pub decision: PermissionDecision,
}

/// An answer in contracts.
pub struct OptionModel {
    pub accelerator: Seq<char>,
    pub label: Seq<char>,
    pub decision: Seq<char>,
}

impl View for PermissionOption {
    type V = OptionModel;

    open spec fn view(&self) -> OptionModel {
        OptionModel {
            accelerator: self.accelerator@,
            label: self.label@,
            decision: self.decision.name@,
        }
    }
}

/// The views of the answers in `v`.
pub open spec fn option_views(v: Seq<PermissionOption>) -> Seq<OptionModel> {
    v.map_values(|o: PermissionOption| o@)
}

/// A permission request on the screen.
#[derive(Clone, Debug, PartialEq, Eq)]
pub struct PermissionDialog {
    pub title: String,
    pub options: Vec<PermissionOption>,
}

/// A permission request in contracts.
pub struct DialogModel {
    pub title: Seq<char>,
    pub options: Seq<OptionModel>,
}

impl View for PermissionDialog {
    type V = DialogModel;

    open spec fn view(&self) -> DialogModel {
        DialogModel { title: self.title@, options: option_views(self.options@) }
    }
}

/// A status has the name of its kind, or the name that it brings along.
pub proof fn theorem_status_name(name: Seq<char>)
    ensures
        status_name(StatusModel::Idle) == "Idle"@,
        status_name(StatusModel::WorkspaceTrust) == "WorkspaceTrust"@,
        status_name(StatusModel::Unknown) == "Unknown"@,
        status_name(StatusModel::Other(name)) == name,
{
}

} // verus!

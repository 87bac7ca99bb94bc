//! What the reconciler asks of its surroundings and what it is told in return.
//!
//! The reconciler performs no input or output of its own. It hands out one
//! [`Action`] at a time and is given one [`Event`] for it. Each executable type
//! has a view made of sequences, which the contracts speak of.

use vstd::prelude::*;
use vstd::string::*;

verus! {

/// The steps that set up a newly created account, in the order they are taken.
#[derive(Clone, Copy, Debug, PartialEq, Eq, Structural)]
pub enum ProvisionStep {
    Create,
    Group,
    Shell,
    Quota,
}

/// Why a run was abandoned.
#[derive(Debug, PartialEq, Eq)]
pub enum Failure {
    /// A download failed: that of the directory, or of the keys of `identity`.
    Network { identity: Option<String> },
    /// A download held what it should not: a malformed directory, or keys of
    /// `identity` that are not text.
    Parse { identity: Option<String> },
    /// The key file `name` could not be written, or the key files could not be
    /// listed.
    Filesystem { name: Option<String> },
    /// A step of setting up the account `user` failed.
    Provision { step: ProvisionStep, user: String },
    /// The event did not answer the action that was pending.
    Protocol,
}

/// The view of a [`Failure`].
pub enum FailureView {
    Network { identity: Option<Seq<char>> },
    Parse { identity: Option<Seq<char>> },
    Filesystem { name: Option<Seq<char>> },
    Provision { step: ProvisionStep, user: Seq<char> },
    Protocol,
}

impl View for Failure {
    type V = FailureView;

    open spec fn view(&self) -> FailureView {
        match self {
            Failure::Network { identity } => FailureView::Network {
                identity: identity.deep_view(),
            },
            Failure::Parse { identity } => FailureView::Parse { identity: identity.deep_view() },
            Failure::Filesystem { name } => FailureView::Filesystem { name: name.deep_view() },
            Failure::Provision { step, user } => FailureView::Provision {
                step: *step,
                user: user@,
            },
            Failure::Protocol => FailureView::Protocol,
        }
    }
}

/// What the sweep of the key files did.
#[derive(Debug, PartialEq, Eq)]
pub struct Report {
    /// The key files that were deleted, in the order of their deletion.
    pub removed: Vec<String>,
    /// The key files whose deletion failed, in the order of the attempts.
    pub failed: Vec<String>,
}

/// The view of a [`Report`].
pub struct ReportView {
    pub removed: Seq<Seq<char>>,
    pub failed: Seq<Seq<char>>,
}

impl View for Report {
    type V = ReportView;

    open spec fn view(&self) -> ReportView {
        ReportView { removed: self.removed.deep_view(), failed: self.failed.deep_view() }
    }
}

/// The view of the result that ends a run.
pub open spec fn outcome_view(outcome: Result<Report, Failure>) -> Result<
    ReportView,
    FailureView,
> {
    match outcome {
        Ok(report) => Ok(report@),
        Err(failure) => Err(failure@),
    }
}

/// What a failed step of setting up an account is called in a diagnostic.
pub open spec fn step_text(step: ProvisionStep) -> Seq<char> {
    match step {
        ProvisionStep::Create => "failed to create user"@,
        ProvisionStep::Group => "failed to give user ssh access"@,
        ProvisionStep::Shell => "failed to set the default shell"@,
        ProvisionStep::Quota => "failed to set a user quota"@,
    }
}

/// The diagnostic for a failure: what failed and, after a colon, for which
/// identity, account or file, where there is one.
pub open spec fn failure_text(failure: FailureView) -> Seq<char> {
    match failure {
        FailureView::Network { identity: None } => "failed to download the list of users"@,
        FailureView::Network { identity: Some(identity) } => "failed to download user's keys: "@
            + identity,
        FailureView::Parse { identity: None } => "the list of users is malformed"@,
        FailureView::Parse { identity: Some(identity) } => "the user's keys are not text: "@
            + identity,
        FailureView::Filesystem { name: None } => "failed to list the key files"@,
        FailureView::Filesystem { name: Some(name) } => "failed to create key file: "@ + name,
        FailureView::Provision { step, user } => step_text(step) + ": "@ + user,
        FailureView::Protocol => "the event does not answer the pending action"@,
    }
}

impl Failure {
    /// Writes the diagnostic for this failure.
    pub fn message(&self) -> (text: String)
        ensures
            text@ == failure_text(self@),
    {
        match self {
            Failure::Network { identity: None } => String::from_str(
                "failed to download the list of users",
            ),
            Failure::Network { identity: Some(identity) } => String::from_str(
                "failed to download user's keys: ",
            ).concat(identity.as_str()),
            Failure::Parse { identity: None } => String::from_str("the list of users is malformed"),
            Failure::Parse { identity: Some(identity) } => String::from_str(
                "the user's keys are not text: ",
            ).concat(identity.as_str()),
            Failure::Filesystem { name: None } => String::from_str("failed to list the key files"),
            Failure::Filesystem { name: Some(name) } => String::from_str(
                "failed to create key file: ",
            ).concat(name.as_str()),
            Failure::Provision { step, user } => {
                let what = match step {
                    ProvisionStep::Create => "failed to create user",
                    ProvisionStep::Group => "failed to give user ssh access",
                    ProvisionStep::Shell => "failed to set the default shell",
                    ProvisionStep::Quota => "failed to set a user quota",
                };
                String::from_str(what).concat(": ").concat(user.as_str())
            },
            Failure::Protocol => String::from_str("the event does not answer the pending action"),
        }
    }
}

/// Tells whether a download with this HTTP status brought what was asked for:
/// the status is of the 2xx class. With any other status the download counts
/// as failed, whatever it brought.
pub fn is_ok_status(status: u32) -> (ok: bool)
    ensures
        ok == (200 <= status <= 299),
{
    200 <= status && status <= 299
}

/// Whether a run did all it set out to do: it finished, and every stale key
/// file that the sweep found was deleted.
pub open spec fn is_success(outcome: Result<ReportView, FailureView>) -> bool {
    outcome matches Ok(report) && report.failed.len() == 0
}

/// Tells whether a run did all it set out to do. A run that was abandoned did
/// not, and neither did one whose sweep could not delete a stale key file: the
/// process that made the run should end with a failure status.
pub fn succeeded(outcome: &Result<Report, Failure>) -> (success: bool)
    ensures
        success == is_success(outcome_view(*outcome)),
{
    match outcome {
        Ok(report) => report.failed.len() == 0,
        Err(_) => false,
    }
}

/// One thing for the surroundings to do. Every action but `Finish` is answered
/// by an [`Event`].
#[derive(Debug, PartialEq, Eq)]
pub enum Action {
    /// Download the directory of permitted identities.
    FetchDirectory,
    /// Download the public keys of `identity`.
    FetchKeys { identity: String },
    /// Write `content` to the key file of `user`, replacing what it held.
    WriteKeyFile { user: String, content: Vec<u8> },
    /// Find out whether the account `user` exists.
    Lookup { user: String },
    /// Create the account `user` with a home directory.
    Create { user: String },
    /// Make `user` a member of `group`.
    GrantGroup { user: String, group: String },
    /// Make `shell` the login shell of `user`.
    SetShell { user: String, shell: String },
    /// Limit the disk usage of `user` on `mount`, in gigabytes.
    SetQuota { user: String, soft_gb: u64, hard_gb: u64, mount: String },
    /// List the names in the key file directory.
    ListKeyFiles,
    /// Delete the key file `name`.
    Delete { name: String },
    /// Nothing is left to do: the run ended with `outcome`.
    Finish { outcome: Result<Report, Failure> },
}

/// The view of an [`Action`].
pub enum ActionView {
    FetchDirectory,
    FetchKeys { identity: Seq<char> },
    WriteKeyFile { user: Seq<char>, content: Seq<u8> },
    Lookup { user: Seq<char> },
    Create { user: Seq<char> },
    GrantGroup { user: Seq<char>, group: Seq<char> },
    SetShell { user: Seq<char>, shell: Seq<char> },
    SetQuota { user: Seq<char>, soft_gb: nat, hard_gb: nat, mount: Seq<char> },
    ListKeyFiles,
    Delete { name: Seq<char> },
    Finish { outcome: Result<ReportView, FailureView> },
}

impl View for Action {
    type V = ActionView;

    open spec fn view(&self) -> ActionView {
        match self {
            Action::FetchDirectory => ActionView::FetchDirectory,
            Action::FetchKeys { identity } => ActionView::FetchKeys { identity: identity@ },
            Action::WriteKeyFile { user, content } => ActionView::WriteKeyFile {
                user: user@,
                content: content@,
            },
            Action::Lookup { user } => ActionView::Lookup { user: user@ },
            Action::Create { user } => ActionView::Create { user: user@ },
            Action::GrantGroup { user, group } => ActionView::GrantGroup {
                user: user@,
                group: group@,
            },
            Action::SetShell { user, shell } => ActionView::SetShell { user: user@, shell: shell@ },
            Action::SetQuota { user, soft_gb, hard_gb, mount } => ActionView::SetQuota {
                user: user@,
                soft_gb: *soft_gb as nat,
                hard_gb: *hard_gb as nat,
                mount: mount@,
            },
            Action::ListKeyFiles => ActionView::ListKeyFiles,
            Action::Delete { name } => ActionView::Delete { name: name@ },
            Action::Finish { outcome } => ActionView::Finish { outcome: outcome_view(*outcome) },
        }
    }
}

/// How an action ended.
#[derive(Debug, PartialEq, Eq)]
pub enum Event {
    /// The directory was downloaded and names these identities.
    Directory { identities: Vec<String> },
    /// The directory was downloaded and is not a well-formed list of
    /// identities.
    Malformed,
    /// The keys of the identity were downloaded.
    Keys { body: Vec<u8> },
    /// The account was looked up: it exists or it does not. That it does not
    /// is an answer and no failure.
    Exists { present: bool },
    /// The key file directory holds these names.
    Listing { names: Vec<String> },
    /// The action was carried out.
    Succeeded,
    /// The action could not be carried out.
    Failed,
}

/// The view of an [`Event`].
pub enum EventView {
    Directory { identities: Seq<Seq<char>> },
    Malformed,
    Keys { body: Seq<u8> },
    Exists { present: bool },
    Listing { names: Seq<Seq<char>> },
    Succeeded,
    Failed,
}

impl View for Event {
    type V = EventView;

    open spec fn view(&self) -> EventView {
        match self {
            Event::Directory { identities } => EventView::Directory {
                identities: identities.deep_view(),
            },
            Event::Malformed => EventView::Malformed,
            Event::Keys { body } => EventView::Keys { body: body@ },
            Event::Exists { present } => EventView::Exists { present: *present },
            Event::Listing { names } => EventView::Listing { names: names.deep_view() },
            Event::Succeeded => EventView::Succeeded,
            Event::Failed => EventView::Failed,
        }
    }
}

} // verus!

//! A model of what surrounds the reconciler, for stating what a run achieves.
//!
//! The model has two parts: the [`Remote`] servers, which publish the directory
//! and the keys, and the [`Host`], which holds the key files and the accounts.
//! A download fails where nothing is published. The host fails what cannot be
//! done (to create an account that exists, to change one that does not, to
//! delete a file that is not there) and whatever else it refuses: which
//! actions those are is left open, so that what is proved of a run holds
//! whichever of its actions fail. [`run`] lets the reconciler act on both until
//! it finishes.

use crate::naming::{LOGIN_SHELL, QUOTA_MOUNT, SSH_GROUP};
use crate::protocol::{ActionView, EventView, FailureView, ReportView};
use crate::reconciler::{initial, next, State};
use vstd::prelude::*;

verus! {

/// The limits on the disk usage of an account, in gigabytes, on one mount.
pub struct Limits {
    pub soft_gb: nat,
    pub hard_gb: nat,
    pub mount: Seq<char>,
}

/// An account of the host.
pub struct Account {
    pub groups: Set<Seq<char>>,
    pub shell: Option<Seq<char>>,
    pub quota: Option<Limits>,
}

/// The host: its key files by name, its accounts by name, the order in which
/// it lists a set of file names, and the actions that it refuses. A lookup is
/// always answered.
pub struct Host {
    pub key_files: Map<Seq<char>, Seq<u8>>,
    pub accounts: Map<Seq<char>, Account>,
    pub listing: spec_fn(Set<Seq<char>>) -> Seq<Seq<char>>,
    pub refuses: spec_fn(ActionView) -> bool,
}

impl Host {
    /// The host holds finitely many key files, and a listing names the files
    /// that are there and no others, each once, in whatever order.
    pub open spec fn wf(self) -> bool {
        &&& self.key_files.dom().finite()
        &&& forall|names: Set<Seq<char>>|
            names.finite() ==> {
                &&& (#[trigger] (self.listing)(names)).to_set() == names
                &&& (self.listing)(names).no_duplicates()
            }
    }

    /// The host refuses nothing.
    pub open spec fn is_willing(self) -> bool {
        forall|action: ActionView| !#[trigger] (self.refuses)(action)
    }
}

/// What the directory server holds.
pub enum Published {
    /// Nothing that can be reached.
    Unreachable,
    /// Something that is not a well-formed list of identities.
    Malformed,
    /// A list of identities.
    Listed { identities: Seq<Seq<char>> },
}

/// The servers: the directory, and the keys of the identities that have any.
pub struct Remote {
    pub directory: Published,
    pub keys: Map<Seq<char>, Seq<u8>>,
}

/// An account as it is right after its creation.
pub open spec fn fresh_account() -> Account {
    Account { groups: Set::empty(), shell: None, quota: None }
}

/// An account as the reconciler leaves it once it is set up: a member of the
/// SSH group, with the login shell, a soft quota of `quota_gb` gigabytes and a
/// hard quota of one gigabyte more.
pub open spec fn provisioned_account(quota_gb: nat) -> Account {
    Account {
        groups: Set::empty().insert(SSH_GROUP@),
        shell: Some(LOGIN_SHELL@),
        quota: Some(Limits { soft_gb: quota_gb, hard_gb: quota_gb + 1, mount: QUOTA_MOUNT@ }),
    }
}

/// Carries out `action` on `host` and `remote`: the host afterwards and the
/// event that answers the action.
pub open spec fn respond(remote: Remote, host: Host, action: ActionView) -> (Host, EventView) {
    match action {
        ActionView::FetchDirectory => match remote.directory {
            Published::Unreachable => (host, EventView::Failed),
            Published::Malformed => (host, EventView::Malformed),
            Published::Listed { identities } => (host, EventView::Directory { identities }),
        },
        ActionView::FetchKeys { identity } => if remote.keys.contains_key(identity) {
            (host, EventView::Keys { body: remote.keys[identity] })
        } else {
            (host, EventView::Failed)
        },
        ActionView::WriteKeyFile { user, content } => if (host.refuses)(action) {
            (host, EventView::Failed)
        } else {
            (Host { key_files: host.key_files.insert(user, content), ..host }, EventView::Succeeded)
        },
        ActionView::Lookup { user } => (
            host,
            EventView::Exists { present: host.accounts.contains_key(user) },
        ),
        ActionView::Create { user } => if (host.refuses)(action) || host.accounts.contains_key(
            user,
        ) {
            (host, EventView::Failed)
        } else {
            (
                Host { accounts: host.accounts.insert(user, fresh_account()), ..host },
                EventView::Succeeded,
            )
        },
        ActionView::GrantGroup { user, group } => if (host.refuses)(action)
            || !host.accounts.contains_key(user) {
            (host, EventView::Failed)
        } else {
            let account = host.accounts[user];
            let changed = Account { groups: account.groups.insert(group), ..account };
            (Host { accounts: host.accounts.insert(user, changed), ..host }, EventView::Succeeded)
        },
        ActionView::SetShell { user, shell } => if (host.refuses)(action)
            || !host.accounts.contains_key(user) {
            (host, EventView::Failed)
        } else {
            let changed = Account { shell: Some(shell), ..host.accounts[user] };
            (Host { accounts: host.accounts.insert(user, changed), ..host }, EventView::Succeeded)
        },
        ActionView::SetQuota { user, soft_gb, hard_gb, mount } => if (host.refuses)(action)
            || !host.accounts.contains_key(user) {
            (host, EventView::Failed)
        } else {
            let limits = Limits { soft_gb, hard_gb, mount };
            let changed = Account { quota: Some(limits), ..host.accounts[user] };
            (Host { accounts: host.accounts.insert(user, changed), ..host }, EventView::Succeeded)
        },
        ActionView::ListKeyFiles => if (host.refuses)(action) {
            (host, EventView::Failed)
        } else {
            (host, EventView::Listing { names: (host.listing)(host.key_files.dom()) })
        },
        ActionView::Delete { name } => if (host.refuses)(action) || !host.key_files.contains_key(
            name,
        ) {
            (host, EventView::Failed)
        } else {
            (Host { key_files: host.key_files.remove(name), ..host }, EventView::Succeeded)
        },
        ActionView::Finish { outcome } => (host, EventView::Succeeded),
    }
}

/// How a run went: the host it left, the actions it had carried out, in
/// order, and its outcome, if it got that far.
pub struct Run {
    pub host: Host,
    pub trace: Seq<ActionView>,
    pub outcome: Option<Result<ReportView, FailureView>>,
}

/// Lets the reconciler go on from state `s` with `action` pending, for at most
/// `fuel` actions.
pub open spec fn run(remote: Remote, host: Host, s: State, action: ActionView, fuel: nat) -> Run
    decreases fuel,
{
    match action {
        ActionView::Finish { outcome } => Run { host, trace: Seq::empty(), outcome: Some(outcome) },
        _ => if fuel == 0 {
            Run { host, trace: Seq::empty(), outcome: None }
        } else {
            let (served, event) = respond(remote, host, action);
            let (state, pending) = next(s, event);
            let rest = run(remote, served, state, pending, (fuel - 1) as nat);
            Run { host: rest.host, trace: seq![action] + rest.trace, outcome: rest.outcome }
        },
    }
}

/// A whole run, from its beginning, for at most `fuel` actions.
pub open spec fn session(remote: Remote, host: Host, quota_gb: nat, fuel: nat) -> Run {
    run(remote, host, initial(quota_gb), ActionView::FetchDirectory, fuel)
}

} // verus!

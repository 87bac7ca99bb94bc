//! What a run achieves, proved of every run of the reconciler on the model of
//! its surroundings.

use crate::model::{
    fresh_account, provisioned_account, respond, run, session, Account, Host, Published, Remote,
    Run,
};
use crate::naming::{
    is_managed_name, lemma_local_name_is_injective, lemma_local_name_is_managed, local_name,
    local_names, managed_prefix, LOGIN_SHELL, QUOTA_MOUNT, SSH_GROUP,
};
use crate::protocol::{
    is_success, ActionView, EventView, FailureView, ProvisionStep, ReportView,
};
use crate::prune::{is_stale, lemma_stale_names, stale_names};
use crate::reconciler::{initial, lemma_next_keeps_wf, next, provision_action, Phase, State};
use vstd::prelude::*;
use vstd::utf8::valid_utf8;

verus! {

/// The directory is published, and so are the keys of each of its identities,
/// as text.
pub open spec fn is_available(remote: Remote) -> bool {
    &&& remote.directory is Listed
    &&& forall|i: int|
        0 <= i < remote.directory->identities.len() ==> {
            let identity = #[trigger] remote.directory->identities[i];
            remote.keys.contains_key(identity) && valid_utf8(remote.keys[identity])
        }
}

/// Whether a run finished with success: every stale key file it found was
/// deleted.
pub open spec fn run_succeeds(r: Run) -> bool {
    r.outcome matches Some(outcome) && is_success(outcome)
}

/// Whether a run of `enough` actions or more succeeds.
pub open spec fn succeeds_within(remote: Remote, host: Host, quota_gb: nat, enough: nat) -> bool {
    forall|fuel: nat|
        fuel >= enough ==> run_succeeds(#[trigger] session(remote, host, quota_gb, fuel))
}

/// Whether an action leaves a steady host as it is: a download, a lookup, a
/// listing, or the writing of a key file.
pub open spec fn is_harmless(a: ActionView) -> bool {
    a is FetchDirectory || a is FetchKeys || a is WriteKeyFile || a is Lookup || a is ListKeyFiles
}

/// After a successful run, the key file of every identity of the directory
/// bears the identity's local account name, which is the managed prefix
/// followed by the identity, and holds the keys that are published for that
/// identity.
pub proof fn law_derivation(remote: Remote, host: Host, quota_gb: nat, fuel: nat)
    requires
        host.wf(),
        session(remote, host, quota_gb, fuel).outcome matches Some(Ok(_)),
    ensures
        remote.directory is Listed,
        forall|i: int|
            0 <= i < remote.directory->identities.len() ==> {
                let identity = #[trigger] remote.directory->identities[i];
                let after = session(remote, host, quota_gb, fuel).host;
                &&& local_name(identity) == managed_prefix() + identity
                &&& remote.keys.contains_key(identity)
                &&& after.key_files.contains_key(local_name(identity))
                &&& after.key_files[local_name(identity)] == remote.keys[identity]
            },
{
    lemma_session_keeps(remote, host, quota_gb, fuel);
    let after = session(remote, host, quota_gb, fuel).host;
    assert forall|i: int| 0 <= i < remote.directory->identities.len() implies key_settled(
        remote,
        after,
        #[trigger] remote.directory->identities[i],
    ) by {}
}

/// A run never touches a key file without the managed prefix, however it
/// ends: such a file is neither written nor removed. After a run that
/// finished, every stale key file, which is one with the managed prefix that
/// is the local account name of no identity of the directory, is gone or is
/// reported as one whose deletion failed. So after a run that succeeded no
/// stale key file is left.
pub proof fn law_pruning(remote: Remote, host: Host, quota_gb: nat, fuel: nat)
    requires
        host.wf(),
    ensures
        forall|name: Seq<char>|
            !#[trigger] is_managed_name(name) ==> {
                let after = session(remote, host, quota_gb, fuel).host;
                &&& after.key_files.contains_key(name) <==> host.key_files.contains_key(name)
                &&& host.key_files.contains_key(name) ==> after.key_files[name]
                    == host.key_files[name]
            },
        session(remote, host, quota_gb, fuel).outcome matches Some(Ok(report)) ==> {
            &&& remote.directory is Listed
            &&& forall|name: Seq<char>| #[trigger]
                session(remote, host, quota_gb, fuel).host.key_files.contains_key(name)
                    && is_stale(name, local_names(remote.directory->identities))
                    ==> report.failed.contains(name)
        },
        session(remote, host, quota_gb, fuel).outcome matches Some(outcome) && is_success(outcome)
            ==> forall|name: Seq<char>| #[trigger]
            session(remote, host, quota_gb, fuel).host.key_files.contains_key(name) ==> !is_stale(
                name,
                local_names(remote.directory->identities),
            ),
{
    lemma_session_keeps(remote, host, quota_gb, fuel);
    let r = session(remote, host, quota_gb, fuel);
    if r.outcome matches Some(Ok(_)) {
        let report = r.outcome->0->Ok_0;
        if report.failed.len() == 0 {
            assert forall|name: Seq<char>| #[trigger]
                r.host.key_files.contains_key(name) implies !is_stale(
                name,
                local_names(remote.directory->identities),
            ) by {
                if is_stale(name, local_names(remote.directory->identities)) {
                    assert(report.failed.contains(name));
                }
            }
        }
    }
}

/// After a run that succeeded, the key files with the managed prefix are
/// those of the identities of the directory, one for each local account name
/// and no other.
pub proof fn law_key_files_match(remote: Remote, host: Host, quota_gb: nat, fuel: nat)
    requires
        host.wf(),
        run_succeeds(session(remote, host, quota_gb, fuel)),
    ensures
        remote.directory is Listed,
        forall|name: Seq<char>|
            #[trigger] is_managed_name(name) ==> {
                let after = session(remote, host, quota_gb, fuel).host;
                let current = local_names(remote.directory->identities);
                after.key_files.contains_key(name) <==> current.contains(name)
            },
{
    lemma_session_keeps(remote, host, quota_gb, fuel);
    let r = session(remote, host, quota_gb, fuel);
    let identities = remote.directory->identities;
    let current = local_names(identities);
    assert forall|name: Seq<char>| #[trigger] is_managed_name(name) implies (
    r.host.key_files.contains_key(name) <==> current.contains(name)) by {
        if current.contains(name) {
            let j = choose|j: int| 0 <= j < current.len() && current[j] == name;
            assert(key_settled(remote, r.host, identities[j]));
        }
        if r.host.key_files.contains_key(name) && !current.contains(name) {
            assert(is_stale(name, current));
            assert(r.outcome->0->Ok_0.failed.contains(name));
        }
    }
}

/// A run never changes an account that existed before it, however it ends.
/// After a successful run every identity of the directory has its account,
/// and an account that did not exist before is a member of the SSH group, has
/// the login shell, a soft quota of `quota_gb` gigabytes and a hard quota of
/// one gigabyte more.
pub proof fn law_provisioning(remote: Remote, host: Host, quota_gb: nat, fuel: nat)
    requires
        host.wf(),
    ensures
        forall|name: Seq<char>| #[trigger]
            host.accounts.contains_key(name) ==> {
                let after = session(remote, host, quota_gb, fuel).host;
                &&& after.accounts.contains_key(name)
                &&& after.accounts[name] == host.accounts[name]
            },
        session(remote, host, quota_gb, fuel).outcome matches Some(Ok(_)) ==> {
            &&& remote.directory is Listed
            &&& forall|i: int|
                0 <= i < remote.directory->identities.len() ==> {
                    let user = local_name(#[trigger] remote.directory->identities[i]);
                    let after = session(remote, host, quota_gb, fuel).host;
                    &&& after.accounts.contains_key(user)
                    &&& !host.accounts.contains_key(user) ==> after.accounts[user]
                        == provisioned_account(quota_gb)
                }
        },
{
    lemma_session_keeps(remote, host, quota_gb, fuel);
    let after = session(remote, host, quota_gb, fuel).host;
    if session(remote, host, quota_gb, fuel).outcome matches Some(Ok(_)) {
        assert forall|i: int| 0 <= i < remote.directory->identities.len() implies {
            let user = local_name(#[trigger] remote.directory->identities[i]);
            &&& after.accounts.contains_key(user)
            &&& !host.accounts.contains_key(user) ==> after.accounts[user] == provisioned_account(
                quota_gb,
            )
        } by {
            let user = local_name(remote.directory->identities[i]);
            assert(after.accounts.contains_key(user));
        }
    }
}

/// A second run, on the host that a successful run left and with the
/// directory and the keys unchanged, leaves the host exactly as it found it:
/// the same key files and the same accounts. It creates no account, changes
/// none and deletes no file: all it carries out are downloads, lookups, the
/// listing, and the writing of key files with what they hold already. Given
/// three actions for each identity and two more, it finishes, with success
/// and an empty report.
pub proof fn law_idempotence(remote: Remote, host: Host, quota_gb: nat, fuel: nat, again: nat)
    requires
        host.wf(),
        session(remote, host, quota_gb, fuel).outcome matches Some(outcome) && is_success(outcome),
    ensures
        ({
            let first = session(remote, host, quota_gb, fuel);
            let second = session(remote, first.host, quota_gb, again);
            &&& second.host == first.host
            &&& forall|k: int|
                0 <= k < second.trace.len() ==> is_harmless(#[trigger] second.trace[k])
            &&& second.outcome is Some ==> second.outcome == Some(
                Ok::<ReportView, FailureView>(
                    ReportView { removed: Seq::empty(), failed: Seq::empty() },
                ),
            )
            &&& remote.directory is Listed
            &&& again >= 3 * remote.directory->identities.len() + 2 ==> second.outcome is Some
        }),
{
    lemma_session_keeps(remote, host, quota_gb, fuel);
    let first = session(remote, host, quota_gb, fuel);
    let identities = remote.directory->identities;
    assert forall|name: Seq<char>| #[trigger]
        first.host.key_files.contains_key(name) && is_stale(
            name,
            local_names(identities),
        ) implies Seq::<Seq<char>>::empty().contains(name) by {
        assert(first.outcome->0->Ok_0.failed.contains(name));
    }
    assert(steady(remote, first.host, identities));
    lemma_run_steady(
        remote,
        first.host,
        identities,
        initial(quota_gb),
        ActionView::FetchDirectory,
        again,
    );
}

/// A directory that is malformed or cannot be reached ends the run at once:
/// nothing but the download was attempted, so no key file was written and no
/// account was created or changed.
pub proof fn law_fail_fast(remote: Remote, host: Host, quota_gb: nat, fuel: nat)
    requires
        !(remote.directory is Listed),
        fuel >= 1,
    ensures
        session(remote, host, quota_gb, fuel).host == host,
        session(remote, host, quota_gb, fuel).trace == seq![ActionView::FetchDirectory],
        remote.directory is Malformed ==> session(remote, host, quota_gb, fuel).outcome == Some(
            Err::<ReportView, FailureView>(FailureView::Parse { identity: None }),
        ),
        remote.directory is Unreachable ==> session(remote, host, quota_gb, fuel).outcome == Some(
            Err::<ReportView, FailureView>(FailureView::Network { identity: None }),
        ),
{
    reveal_with_fuel(run, 2);
    let r = session(remote, host, quota_gb, fuel);
    assert(r.trace =~= seq![ActionView::FetchDirectory]);
}

/// Where the directory and the keys of all its identities are available and
/// the host refuses nothing, a run succeeds if it is given fuel enough.
pub proof fn law_completion(remote: Remote, host: Host, quota_gb: nat)
    requires
        host.wf(),
        host.is_willing(),
        is_available(remote),
    ensures
        exists|enough: nat| #[trigger] succeeds_within(remote, host, quota_gb, enough),
{
    lemma_begin(remote, host, quota_gb);
    lemma_run_goes_well(
        remote,
        host,
        quota_gb,
        host,
        initial(quota_gb),
        ActionView::FetchDirectory,
    );
    let enough = choose|enough: nat|
        run_succeeds(
            #[trigger] run(remote, host, initial(quota_gb), ActionView::FetchDirectory, enough),
        );
    assert forall|fuel: nat| fuel >= enough implies run_succeeds(
        #[trigger] session(remote, host, quota_gb, fuel),
    ) by {
        lemma_fuel_to_spare(
            remote,
            host,
            initial(quota_gb),
            ActionView::FetchDirectory,
            enough,
            fuel,
        );
    }
    assert(succeeds_within(remote, host, quota_gb, enough));
}

/// Whatever the events that a run is given, its actions stay within bounds.
/// Keys are fetched for identities of the directory only. A key file is
/// written, and an account looked up, created or changed, only under the local
/// account name of such an identity; what is written is text. The group, the
/// shell and the mount are the configured ones, the soft quota is the
/// configured size and the hard quota one gigabyte more. Only a stale key file
/// is deleted: never one without the managed prefix, never one of an identity
/// of the directory. The directory is fetched once, at the start.
pub proof fn law_actions_in_bounds(s: State, e: EventView)
    requires
        s.wf(),
    ensures
        ({
            let (state, action) = next(s, e);
            &&& state.quota_gb == s.quota_gb
            &&& s.phase != Phase::Directory ==> state.identities == s.identities
            &&& match action {
                ActionView::FetchDirectory => false,
                ActionView::FetchKeys { identity } => state.identities.contains(identity),
                ActionView::WriteKeyFile { user, content } => state.current().contains(user)
                    && valid_utf8(content),
                ActionView::Lookup { user } => state.current().contains(user),
                ActionView::Create { user } => state.current().contains(user),
                ActionView::GrantGroup { user, group } => state.current().contains(user) && group
                    == SSH_GROUP@,
                ActionView::SetShell { user, shell } => state.current().contains(user) && shell
                    == LOGIN_SHELL@,
                ActionView::SetQuota { user, soft_gb, hard_gb, mount } => {
                    &&& state.current().contains(user)
                    &&& soft_gb == s.quota_gb
                    &&& hard_gb == soft_gb + 1
                    &&& mount == QUOTA_MOUNT@
                },
                ActionView::Delete { name } => is_stale(name, state.current()),
                ActionView::ListKeyFiles => true,
                ActionView::Finish { outcome } => true,
            }
        }),
{
    let (state, action) = next(s, e);
    lemma_next_keeps_wf(s, e);
    if state.position < state.identities.len() {
        lemma_current_contains(state.identities, state.position as int);
        assert(state.identities.contains(state.identities[state.position as int]));
    }
}

/// A run that has finished is the same run with more fuel.
pub proof fn lemma_fuel_to_spare(
    remote: Remote,
    host: Host,
    s: State,
    a: ActionView,
    fuel: nat,
    more: nat,
)
    requires
        run(remote, host, s, a, fuel).outcome is Some,
        more >= fuel,
    ensures
        run(remote, host, s, a, more) == run(remote, host, s, a, fuel),
    decreases fuel,
{
    if !(a is Finish) {
        let (served, event) = respond(remote, host, a);
        let (state, action) = next(s, event);
        lemma_fuel_to_spare(
            remote,
            served,
            state,
            action,
            (fuel - 1) as nat,
            (more - 1) as nat,
        );
    }
}

// What holds at every point of a run.

/// The action that is pending in `s`, in a run on `remote`.
spec fn pending(remote: Remote, s: State) -> ActionView {
    match s.phase {
        Phase::Keys => ActionView::FetchKeys { identity: s.identity() },
        Phase::Write => ActionView::WriteKeyFile {
            user: s.user(),
            content: remote.keys[s.identity()],
        },
        Phase::Lookup => ActionView::Lookup { user: s.user() },
        Phase::Create => provision_action(ProvisionStep::Create, s.user(), s.quota_gb),
        Phase::Group => provision_action(ProvisionStep::Group, s.user(), s.quota_gb),
        Phase::Shell => provision_action(ProvisionStep::Shell, s.user(), s.quota_gb),
        Phase::Quota => provision_action(ProvisionStep::Quota, s.user(), s.quota_gb),
        Phase::Listing => ActionView::ListKeyFiles,
        Phase::Delete => ActionView::Delete { name: s.stale[s.cursor as int] },
        _ => ActionView::FetchDirectory,
    }
}

/// The keys of `identity` are published as text, and its key file was written
/// with them and holds them.
spec fn key_settled(remote: Remote, host: Host, identity: Seq<char>) -> bool {
    &&& remote.keys.contains_key(identity)
    &&& valid_utf8(remote.keys[identity])
    &&& host.key_files.contains_key(local_name(identity))
    &&& host.key_files[local_name(identity)] == remote.keys[identity]
    &&& !(host.refuses)(
        ActionView::WriteKeyFile { user: local_name(identity), content: remote.keys[identity] },
    )
}

/// The first `bound` identities have their key file and their account.
spec fn settled(remote: Remote, host: Host, identities: Seq<Seq<char>>, bound: nat) -> bool {
    forall|j: int|
        0 <= j < bound ==> key_settled(remote, host, #[trigger] identities[j])
            && host.accounts.contains_key(local_name(identities[j]))
}

/// The key files without the managed prefix are those of `before`, unchanged.
spec fn unmanaged_kept(before: Host, host: Host) -> bool {
    forall|name: Seq<char>|
        !#[trigger] is_managed_name(name) ==> {
            &&& host.key_files.contains_key(name) <==> before.key_files.contains_key(name)
            &&& before.key_files.contains_key(name) ==> host.key_files[name]
                == before.key_files[name]
        }
}

/// The accounts of `before` are there, unchanged.
spec fn accounts_kept(before: Host, host: Host) -> bool {
    forall|name: Seq<char>| #[trigger]
        before.accounts.contains_key(name) ==> host.accounts.contains_key(name)
            && host.accounts[name] == before.accounts[name]
}

/// Every account that `before` did not have is fully set up, but for the one
/// in hand.
spec fn new_accounts_set_up(
    before: Host,
    host: Host,
    quota_gb: nat,
    in_hand: Option<Seq<char>>,
) -> bool {
    forall|name: Seq<char>| #[trigger]
        host.accounts.contains_key(name) && !before.accounts.contains_key(name) && in_hand != Some(
            name,
        ) ==> host.accounts[name] == provisioned_account(quota_gb)
}

/// The account in hand as it is while `phase` is pending.
spec fn account_in_hand(phase: Phase) -> Account {
    match phase {
        Phase::Shell => Account { groups: Set::empty().insert(SSH_GROUP@), ..fresh_account() },
        Phase::Quota => Account {
            groups: Set::empty().insert(SSH_GROUP@),
            shell: Some(LOGIN_SHELL@),
            quota: None,
        },
        _ => fresh_account(),
    }
}

/// Whether the account in hand is half set up.
spec fn setting_up(phase: Phase) -> bool {
    phase == Phase::Group || phase == Phase::Shell || phase == Phase::Quota
}

/// The name of the account that is half set up, if there is one.
spec fn half_done(s: State) -> Option<Seq<char>> {
    if setting_up(s.phase) {
        Some(s.user())
    } else {
        None
    }
}

/// What holds of the identity in hand.
spec fn in_hand(remote: Remote, before: Host, host: Host, s: State) -> bool {
    match s.phase {
        Phase::Keys => true,
        Phase::Write => remote.keys.contains_key(s.identity()) && valid_utf8(
            remote.keys[s.identity()],
        ),
        Phase::Lookup => key_settled(remote, host, s.identity()),
        Phase::Create => key_settled(remote, host, s.identity()) && !host.accounts.contains_key(
            s.user(),
        ),
        _ => {
            &&& key_settled(remote, host, s.identity())
            &&& !before.accounts.contains_key(s.user())
            &&& host.accounts.contains_key(s.user())
            &&& host.accounts[s.user()] == account_in_hand(s.phase)
        },
    }
}

/// Every stale key file that is still there is yet to be deleted, or its
/// deletion has failed.
spec fn sweep_covers(host: Host, s: State) -> bool {
    forall|name: Seq<char>| #[trigger]
        host.key_files.contains_key(name) && is_stale(name, s.current()) ==> s.failed.contains(name)
            || exists|i: int| s.cursor <= i < s.stale.len() && #[trigger] s.stale[i] == name
}

/// The stale key files that are yet to be deleted are there, each once.
spec fn sweep_ahead(host: Host, s: State) -> bool {
    &&& s.stale.no_duplicates()
    &&& forall|i: int|
        s.cursor <= i < s.stale.len() ==> host.key_files.contains_key(#[trigger] s.stale[i])
}

/// Every stale key file that is still there is among `failed`.
spec fn swept(host: Host, current: Seq<Seq<char>>, failed: Seq<Seq<char>>) -> bool {
    forall|name: Seq<char>| #[trigger]
        host.key_files.contains_key(name) && is_stale(name, current) ==> failed.contains(name)
}

/// What holds whenever `a` is pending in state `s` on `host`, in a run that
/// began on `before`.
spec fn inv(
    remote: Remote,
    before: Host,
    quota_gb: nat,
    host: Host,
    s: State,
    a: ActionView,
) -> bool {
    &&& s.wf()
    &&& s.quota_gb == quota_gb
    &&& before.wf()
    &&& host.listing == before.listing
    &&& host.refuses == before.refuses
    &&& host.key_files.dom().finite()
    &&& unmanaged_kept(before, host)
    &&& accounts_kept(before, host)
    &&& match a {
        ActionView::Finish { outcome } => outcome matches Ok(report) ==> {
            &&& remote.directory == Published::Listed { identities: s.identities }
            &&& settled(remote, host, s.identities, s.identities.len())
            &&& new_accounts_set_up(before, host, quota_gb, None)
            &&& swept(host, s.current(), report.failed)
            &&& !(host.refuses)(ActionView::ListKeyFiles)
        },
        _ => {
            &&& s.phase != Phase::Finished
            &&& a == pending(remote, s)
            &&& new_accounts_set_up(before, host, quota_gb, half_done(s))
            &&& s.phase != Phase::Directory ==> {
                &&& remote.directory == Published::Listed { identities: s.identities }
                &&& settled(remote, host, s.identities, s.position)
            }
            &&& s.settling() ==> in_hand(remote, before, host, s)
            &&& s.phase == Phase::Listing || s.phase == Phase::Delete ==> s.position
                == s.identities.len()
            &&& s.phase == Phase::Delete ==> {
                &&& sweep_covers(host, s)
                &&& sweep_ahead(host, s)
                &&& !(host.refuses)(ActionView::ListKeyFiles)
            }
            &&& s.phase != Phase::Delete ==> s.failed.len() == 0
        },
    }
}

/// A run may begin on any well-formed host.
proof fn lemma_begin(remote: Remote, host: Host, quota_gb: nat)
    requires
        host.wf(),
    ensures
        inv(remote, host, quota_gb, host, initial(quota_gb), ActionView::FetchDirectory),
{
}

/// A whole run on a well-formed host keeps the invariant up to its end.
proof fn lemma_session_keeps(remote: Remote, host: Host, quota_gb: nat, fuel: nat)
    requires
        host.wf(),
    ensures
        ({
            let r = session(remote, host, quota_gb, fuel);
            &&& r.host.listing == host.listing
            &&& r.host.refuses == host.refuses
            &&& r.host.key_files.dom().finite()
            &&& unmanaged_kept(host, r.host)
            &&& accounts_kept(host, r.host)
            &&& r.outcome matches Some(Ok(report)) ==> {
                &&& remote.directory is Listed
                &&& settled(
                    remote,
                    r.host,
                    remote.directory->identities,
                    remote.directory->identities.len(),
                )
                &&& new_accounts_set_up(host, r.host, quota_gb, None)
                &&& swept(r.host, local_names(remote.directory->identities), report.failed)
                &&& !(r.host.refuses)(ActionView::ListKeyFiles)
            }
        }),
{
    lemma_begin(remote, host, quota_gb);
    lemma_run_keeps(
        remote,
        host,
        quota_gb,
        host,
        initial(quota_gb),
        ActionView::FetchDirectory,
        fuel,
    );
}

/// The local account name of every identity is among the current names.
proof fn lemma_current_contains(identities: Seq<Seq<char>>, j: int)
    requires
        0 <= j < identities.len(),
    ensures
        local_names(identities).contains(local_name(identities[j])),
{
    assert(local_names(identities)[j] == local_name(identities[j]));
}

/// One action and its answer keep the invariant.
proof fn lemma_step_keeps(
    remote: Remote,
    before: Host,
    quota_gb: nat,
    host: Host,
    s: State,
    a: ActionView,
)
    requires
        inv(remote, before, quota_gb, host, s, a),
        !(a is Finish),
    ensures
        inv(
            remote,
            before,
            quota_gb,
            respond(remote, host, a).0,
            next(s, respond(remote, host, a).1).0,
            next(s, respond(remote, host, a).1).1,
        ),
{
    let (served, event) = respond(remote, host, a);
    let (state, action) = next(s, event);
    lemma_next_keeps_wf(s, event);
    match s.phase {
        Phase::Directory => {},
        Phase::Keys => {},
        Phase::Write => {
            lemma_write_keeps(remote, before, quota_gb, host, s, a);
        },
        Phase::Lookup => {},
        Phase::Create => {},
        Phase::Group => {},
        Phase::Shell => {},
        Phase::Quota => {},
        Phase::Listing => {
            lemma_listing_keeps(remote, before, quota_gb, host, s, a);
        },
        Phase::Delete => {
            lemma_delete_keeps(remote, before, quota_gb, host, s, a);
        },
        Phase::Finished => {},
    }
}

proof fn lemma_write_keeps(
    remote: Remote,
    before: Host,
    quota_gb: nat,
    host: Host,
    s: State,
    a: ActionView,
)
    requires
        inv(remote, before, quota_gb, host, s, a),
        !(a is Finish),
        s.phase == Phase::Write,
    ensures
        inv(
            remote,
            before,
            quota_gb,
            respond(remote, host, a).0,
            next(s, respond(remote, host, a).1).0,
            next(s, respond(remote, host, a).1).1,
        ),
{
    let (served, event) = respond(remote, host, a);
    let (state, action) = next(s, event);
    lemma_next_keeps_wf(s, event);
    lemma_local_name_is_managed(s.identity());
    assert forall|j: int| 0 <= j < state.position implies key_settled(
        remote,
        served,
        #[trigger] state.identities[j],
    ) && served.accounts.contains_key(local_name(state.identities[j])) by {
        if local_name(s.identities[j]) == s.user() {
            lemma_local_name_is_injective(s.identities[j], s.identity());
        }
    }
}

proof fn lemma_listing_keeps(
    remote: Remote,
    before: Host,
    quota_gb: nat,
    host: Host,
    s: State,
    a: ActionView,
)
    requires
        inv(remote, before, quota_gb, host, s, a),
        !(a is Finish),
        s.phase == Phase::Listing,
    ensures
        inv(
            remote,
            before,
            quota_gb,
            respond(remote, host, a).0,
            next(s, respond(remote, host, a).1).0,
            next(s, respond(remote, host, a).1).1,
        ),
{
    let (served, event) = respond(remote, host, a);
    let (state, action) = next(s, event);
    lemma_next_keeps_wf(s, event);
    let names = (host.listing)(host.key_files.dom());
    assert(names.to_set() == host.key_files.dom());
    assert(names.no_duplicates());
    let stale = stale_names(names, s.current());
    lemma_stale_names(names, s.current());
    assert forall|name: Seq<char>| #[trigger]
        host.key_files.contains_key(name) && is_stale(name, s.current()) implies stale.contains(
        name,
    ) by {
        assert(names.to_set().contains(name));
        assert(names.contains(name));
    }
    assert forall|i: int| 0 <= i < stale.len() implies host.key_files.contains_key(
        #[trigger] stale[i],
    ) by {
        assert(stale.contains(stale[i]));
        assert(names.contains(stale[i]));
        assert(names.to_set().contains(stale[i]));
    }
    if !(host.refuses)(a) {
        if stale.len() == 0 {
            assert(swept(host, s.current(), s.failed));
        } else {
            assert(state.stale == stale);
            assert(state.cursor == 0);
            assert(sweep_ahead(served, state));
            assert(sweep_covers(served, state));
        }
    }
}

proof fn lemma_delete_keeps(
    remote: Remote,
    before: Host,
    quota_gb: nat,
    host: Host,
    s: State,
    a: ActionView,
)
    requires
        inv(remote, before, quota_gb, host, s, a),
        !(a is Finish),
        s.phase == Phase::Delete,
    ensures
        inv(
            remote,
            before,
            quota_gb,
            respond(remote, host, a).0,
            next(s, respond(remote, host, a).1).0,
            next(s, respond(remote, host, a).1).1,
        ),
{
    let (served, event) = respond(remote, host, a);
    let (state, action) = next(s, event);
    lemma_next_keeps_wf(s, event);
    let gone = s.stale[s.cursor as int];
    assert(is_stale(gone, s.current()));
    assert(state.failed.len() > 0 ==> state.failed.last() == state.failed[state.failed.len() - 1]);
    assert forall|j: int| 0 <= j < state.identities.len() implies key_settled(
        remote,
        served,
        #[trigger] state.identities[j],
    ) && served.accounts.contains_key(local_name(state.identities[j])) by {
        lemma_current_contains(s.identities, j);
    }
    let failed = if event is Failed {
        s.failed.push(gone)
    } else {
        s.failed
    };
    assert forall|name: Seq<char>| #[trigger]
        served.key_files.contains_key(name) && is_stale(name, s.current()) implies failed.contains(
        name,
    ) || exists|i: int| s.cursor + 1 <= i < s.stale.len() && #[trigger] s.stale[i] == name by {
        assert(host.key_files.contains_key(name));
        if s.failed.contains(name) {
            let k = choose|k: int| 0 <= k < s.failed.len() && s.failed[k] == name;
            assert(failed[k] == name);
        } else if name == gone {
            assert(event is Failed);
            assert(failed[failed.len() - 1] == name);
        } else {
            let i = choose|i: int| s.cursor <= i < s.stale.len() && #[trigger] s.stale[i] == name;
            assert(i != s.cursor);
        }
    }
}

/// A run keeps the invariant up to its end.
proof fn lemma_run_keeps(
    remote: Remote,
    before: Host,
    quota_gb: nat,
    host: Host,
    s: State,
    a: ActionView,
    fuel: nat,
)
    requires
        inv(remote, before, quota_gb, host, s, a),
    ensures
        ({
            let r = run(remote, host, s, a, fuel);
            &&& r.host.listing == before.listing
            &&& r.host.refuses == before.refuses
            &&& r.host.key_files.dom().finite()
            &&& unmanaged_kept(before, r.host)
            &&& accounts_kept(before, r.host)
            &&& r.outcome matches Some(Ok(report)) ==> {
                &&& remote.directory is Listed
                &&& settled(
                    remote,
                    r.host,
                    remote.directory->identities,
                    remote.directory->identities.len(),
                )
                &&& new_accounts_set_up(before, r.host, quota_gb, None)
                &&& swept(r.host, local_names(remote.directory->identities), report.failed)
                &&& !(r.host.refuses)(ActionView::ListKeyFiles)
            }
        }),
    decreases fuel,
{
    if !(a is Finish) && fuel > 0 {
        let (served, event) = respond(remote, host, a);
        let (state, action) = next(s, event);
        lemma_step_keeps(remote, before, quota_gb, host, s, a);
        lemma_run_keeps(remote, before, quota_gb, served, state, action, (fuel - 1) as nat);
    }
}

// Runs on a host that a successful run has left.

/// What holds of a host that a successful run has left, and makes a further
/// run change nothing.
spec fn steady(remote: Remote, host: Host, identities: Seq<Seq<char>>) -> bool {
    &&& host.wf()
    &&& remote.directory == Published::Listed { identities }
    &&& settled(remote, host, identities, identities.len())
    &&& swept(host, local_names(identities), Seq::empty())
    &&& !(host.refuses)(ActionView::ListKeyFiles)
}

/// How many actions a run on a steady host still has to carry out, at most.
spec fn actions_left(s: State, identities: Seq<Seq<char>>) -> int {
    match s.phase {
        Phase::Directory => 3 * (identities.len() as int) + 2,
        Phase::Keys => 3 * (identities.len() - s.position) + 1,
        Phase::Write => 3 * (identities.len() - s.position),
        Phase::Lookup => 3 * (identities.len() - s.position) - 1,
        _ => 1,
    }
}

/// What holds whenever `a` is pending in state `s` of a run on a steady host.
spec fn inv_steady(
    remote: Remote,
    host: Host,
    identities: Seq<Seq<char>>,
    s: State,
    a: ActionView,
) -> bool {
    &&& s.wf()
    &&& steady(remote, host, identities)
    &&& s.removed =~= Seq::empty()
    &&& s.failed =~= Seq::empty()
    &&& match a {
        ActionView::Finish { outcome } => outcome == Ok::<ReportView, FailureView>(
            ReportView { removed: Seq::empty(), failed: Seq::empty() },
        ),
        _ => {
            &&& a == pending(remote, s)
            &&& s.phase == Phase::Directory || s.phase == Phase::Keys || s.phase == Phase::Write
                || s.phase == Phase::Lookup || s.phase == Phase::Listing
            &&& s.phase != Phase::Directory ==> s.identities == identities
            &&& s.phase == Phase::Listing ==> s.position == s.identities.len()
        },
    }
}

/// On a steady host an action changes nothing and keeps the invariant.
proof fn lemma_step_steady(
    remote: Remote,
    host: Host,
    identities: Seq<Seq<char>>,
    s: State,
    a: ActionView,
)
    requires
        inv_steady(remote, host, identities, s, a),
        !(a is Finish),
    ensures
        is_harmless(a),
        respond(remote, host, a).0 == host,
        inv_steady(
            remote,
            host,
            identities,
            next(s, respond(remote, host, a).1).0,
            next(s, respond(remote, host, a).1).1,
        ),
        !(next(s, respond(remote, host, a).1).1 is Finish) ==> actions_left(
            next(s, respond(remote, host, a).1).0,
            identities,
        ) < actions_left(s, identities),
{
    let (served, event) = respond(remote, host, a);
    let (state, action) = next(s, event);
    lemma_next_keeps_wf(s, event);
    match s.phase {
        Phase::Write => {
            assert(key_settled(remote, host, s.identities[s.position as int]));
            assert(served.key_files =~= host.key_files);
        },
        Phase::Keys => {
            assert(key_settled(remote, host, s.identities[s.position as int]));
        },
        Phase::Lookup => {
            assert(key_settled(remote, host, s.identities[s.position as int]));
        },
        Phase::Listing => {
            let names = (host.listing)(host.key_files.dom());
            assert(names.to_set() == host.key_files.dom());
            let stale = stale_names(names, s.current());
            lemma_stale_names(names, s.current());
            if stale.len() > 0 {
                assert(stale.contains(stale[0]));
                assert(names.contains(stale[0]));
                assert(names.to_set().contains(stale[0]));
                assert(host.key_files.contains_key(stale[0]));
            }
        },
        _ => {},
    }
}

/// A run on a steady host leaves the host as it is, carries out harmless
/// actions only, and finishes with an empty report within the bound.
proof fn lemma_run_steady(
    remote: Remote,
    host: Host,
    identities: Seq<Seq<char>>,
    s: State,
    a: ActionView,
    fuel: nat,
)
    requires
        inv_steady(remote, host, identities, s, a),
    ensures
        ({
            let r = run(remote, host, s, a, fuel);
            &&& r.host == host
            &&& forall|k: int| 0 <= k < r.trace.len() ==> is_harmless(#[trigger] r.trace[k])
            &&& r.outcome is Some ==> r.outcome == Some(
                Ok::<ReportView, FailureView>(
                    ReportView { removed: Seq::empty(), failed: Seq::empty() },
                ),
            )
            &&& !(a is Finish) && fuel >= actions_left(s, identities) ==> r.outcome is Some
        }),
    decreases fuel,
{
    if !(a is Finish) && fuel > 0 {
        let (served, event) = respond(remote, host, a);
        let (state, action) = next(s, event);
        lemma_step_steady(remote, host, identities, s, a);
        lemma_run_steady(remote, host, identities, state, action, (fuel - 1) as nat);
    }
}

// Runs in which nothing fails.

/// The part of the run that `s` is in, counted down.
spec fn stage(s: State) -> int {
    match s.phase {
        Phase::Directory => 3,
        Phase::Listing => 1,
        Phase::Delete => 0,
        Phase::Finished => 0,
        _ => 2,
    }
}

/// How many actions the part of the run that `s` is in still takes, at most.
spec fn actions_in_stage(s: State) -> int {
    let identities_left = s.identities.len() - s.position;
    match s.phase {
        Phase::Keys => 7 * identities_left,
        Phase::Write => 7 * identities_left - 1,
        Phase::Lookup => 7 * identities_left - 2,
        Phase::Create => 7 * identities_left - 3,
        Phase::Group => 7 * identities_left - 4,
        Phase::Shell => 7 * identities_left - 5,
        Phase::Quota => 7 * identities_left - 6,
        Phase::Delete => s.stale.len() - s.cursor,
        _ => 0,
    }
}

/// Whether an action is anything but the end of a run that did not succeed.
spec fn goes_well(a: ActionView) -> bool {
    a matches ActionView::Finish { outcome } ==> is_success(outcome)
}

/// Where all is available, no action fails, and each brings the run closer to
/// its end.
proof fn lemma_step_goes_well(
    remote: Remote,
    before: Host,
    quota_gb: nat,
    host: Host,
    s: State,
    a: ActionView,
)
    requires
        inv(remote, before, quota_gb, host, s, a),
        is_available(remote),
        before.is_willing(),
        s.failed.len() == 0,
        !(a is Finish),
    ensures
        ({
            let (state, action) = next(s, respond(remote, host, a).1);
            &&& goes_well(action)
            &&& state.failed.len() == 0
            &&& !(action is Finish) ==> stage(state) < stage(s) || (stage(state) == stage(s)
                && 0 <= actions_in_stage(state) < actions_in_stage(s))
        }),
{
    lemma_next_keeps_wf(s, respond(remote, host, a).1);
    if s.settling() {
        assert(remote.directory->identities[s.position as int] == s.identity());
    }
}

/// Where all is available, a run succeeds if it is given actions enough.
proof fn lemma_run_goes_well(
    remote: Remote,
    before: Host,
    quota_gb: nat,
    host: Host,
    s: State,
    a: ActionView,
)
    requires
        inv(remote, before, quota_gb, host, s, a),
        is_available(remote),
        before.is_willing(),
        s.failed.len() == 0,
        goes_well(a),
    ensures
        exists|fuel: nat| run_succeeds(#[trigger] run(remote, host, s, a, fuel)),
    decreases stage(s), actions_in_stage(s),
{
    if a is Finish {
        assert(run_succeeds(run(remote, host, s, a, 0)));
    } else {
        let (served, event) = respond(remote, host, a);
        let (state, action) = next(s, event);
        lemma_step_keeps(remote, before, quota_gb, host, s, a);
        lemma_step_goes_well(remote, before, quota_gb, host, s, a);
        if action is Finish {
            assert(run_succeeds(run(remote, served, state, action, 0)));
            assert(run_succeeds(run(remote, host, s, a, 1)));
        } else {
            lemma_run_goes_well(remote, before, quota_gb, served, state, action);
            let fuel = choose|fuel: nat|
                run_succeeds(#[trigger] run(remote, served, state, action, fuel));
            assert(run_succeeds(run(remote, host, s, a, fuel + 1)));
        }
    }
}

} // verus!

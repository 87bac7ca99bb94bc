//! The reconciler: a state machine that brings the accounts and key files of a
//! host in line with the directory of permitted identities.
//!
//! A run has three parts. First the directory is fetched. Then every identity
//! is settled, one after the other and in the order of the directory: its keys
//! are fetched and written to its key file, on every run, so that changed keys
//! reach the host; and if its account does not exist, the account is created,
//! made a member of the SSH group, given its shell and its quota. An account
//! that exists is left as it is. Last, the key files are listed and the stale
//! ones deleted.
//!
//! While identities are settled the first failure ends the run, and whatever
//! was done stays done. The sweep goes on after a failed deletion and reports
//! it at the end.

use crate::naming::{local_name, local_names, local_usernames, LOGIN_SHELL, QUOTA_MOUNT, SSH_GROUP};
use crate::protocol::{
    Action, ActionView, Event, EventView, Failure, FailureView, ProvisionStep, Report, ReportView,
};
use crate::prune::{is_stale, lemma_stale_names, stale_key_files, stale_names};
use vstd::prelude::*;
use vstd::string::*;
use vstd::utf8::valid_utf8;

verus! {

/// What the reconciler is waiting for.
#[derive(Clone, Copy, Debug, PartialEq, Eq, Structural)]
pub enum Phase {
    /// For the directory.
    Directory,
    /// For the keys of the identity in hand.
    Keys,
    /// For the key file of the identity in hand to be written.
    Write,
    /// To learn whether the account of the identity in hand exists.
    Lookup,
    /// For the account to be created.
    Create,
    /// For the account to join the SSH group.
    Group,
    /// For the account to get its shell.
    Shell,
    /// For the account to get its quota.
    Quota,
    /// For the list of key files.
    Listing,
    /// For a stale key file to be deleted.
    Delete,
    /// For nothing: the run has ended.
    Finished,
}

/// The state of a run, as the contracts see it.
pub struct State {
    /// The soft quota of a new account, in gigabytes.
    pub quota_gb: nat,
    pub phase: Phase,
    /// The identities of the directory, in its order.
    pub identities: Seq<Seq<char>>,
    /// How many identities are settled; the next one is in hand.
    pub position: nat,
    /// The stale key files that the sweep found.
    pub stale: Seq<Seq<char>>,
    /// How many stale key files the sweep has dealt with.
    pub cursor: nat,
    /// The stale key files deleted so far.
    pub removed: Seq<Seq<char>>,
    /// The stale key files whose deletion failed so far.
    pub failed: Seq<Seq<char>>,
}

impl State {
    /// The identity in hand.
    pub open spec fn identity(self) -> Seq<char> {
        self.identities[self.position as int]
    }

    /// The local account name of the identity in hand.
    pub open spec fn user(self) -> Seq<char> {
        local_name(self.identity())
    }

    /// The local account names of all identities of the directory.
    pub open spec fn current(self) -> Seq<Seq<char>> {
        local_names(self.identities)
    }

    /// Whether an identity is in hand.
    pub open spec fn settling(self) -> bool {
        match self.phase {
            Phase::Keys
            | Phase::Write
            | Phase::Lookup
            | Phase::Create
            | Phase::Group
            | Phase::Shell
            | Phase::Quota => true,
            _ => false,
        }
    }

    /// What holds of every state that a run can reach.
    pub open spec fn wf(self) -> bool {
        &&& self.position <= self.identities.len()
        &&& self.settling() ==> self.position < self.identities.len()
        &&& self.cursor <= self.stale.len()
        &&& self.phase == Phase::Delete ==> self.cursor < self.stale.len()
        &&& self.phase == Phase::Directory ==> self.position == 0 && self.stale.len() == 0
        &&& forall|i: int|
            0 <= i < self.stale.len() ==> is_stale(#[trigger] self.stale[i], self.current())
    }
}

/// The state in which a run begins. Its first action is to fetch the
/// directory.
pub open spec fn initial(quota_gb: nat) -> State {
    State {
        quota_gb,
        phase: Phase::Directory,
        identities: Seq::empty(),
        position: 0,
        stale: Seq::empty(),
        cursor: 0,
        removed: Seq::empty(),
        failed: Seq::empty(),
    }
}

/// The run is abandoned.
pub open spec fn halted(s: State, failure: FailureView) -> (State, ActionView) {
    (State { phase: Phase::Finished, ..s }, ActionView::Finish { outcome: Err(failure) })
}

/// The run goes on in `phase` with `action`.
pub open spec fn proceeds(s: State, phase: Phase, action: ActionView) -> (State, ActionView) {
    (State { phase, ..s }, action)
}

/// The identities before `position` are settled: the next one is taken in
/// hand, or the sweep begins.
pub open spec fn at_identity(s: State, position: nat) -> (State, ActionView) {
    if position < s.identities.len() {
        (
            State { phase: Phase::Keys, position, ..s },
            ActionView::FetchKeys { identity: s.identities[position as int] },
        )
    } else {
        (State { phase: Phase::Listing, position, ..s }, ActionView::ListKeyFiles)
    }
}

/// The stale key files before `cursor` are dealt with: the next one is deleted,
/// or the run ends and hands over its report.
pub open spec fn at_deletion(s: State, cursor: nat) -> (State, ActionView) {
    if cursor < s.stale.len() {
        (
            State { phase: Phase::Delete, cursor, ..s },
            ActionView::Delete { name: s.stale[cursor as int] },
        )
    } else {
        (
            State {
                phase: Phase::Finished,
                cursor,
                removed: Seq::empty(),
                failed: Seq::empty(),
                ..s
            },
            ActionView::Finish {
                outcome: Ok(ReportView { removed: s.removed, failed: s.failed }),
            },
        )
    }
}

/// What a step of setting up the account `user` asks for.
pub open spec fn provision_action(
    step: ProvisionStep,
    user: Seq<char>,
    quota_gb: nat,
) -> ActionView {
    match step {
        ProvisionStep::Create => ActionView::Create { user },
        ProvisionStep::Group => ActionView::GrantGroup { user, group: SSH_GROUP@ },
        ProvisionStep::Shell => ActionView::SetShell { user, shell: LOGIN_SHELL@ },
        ProvisionStep::Quota => ActionView::SetQuota {
            user,
            soft_gb: quota_gb,
            hard_gb: quota_gb + 1,
            mount: QUOTA_MOUNT@,
        },
    }
}

/// The state and the action that follow when `e` answers the action that was
/// pending in `s`.
pub open spec fn next(s: State, e: EventView) -> (State, ActionView) {
    match s.phase {
        Phase::Directory => match e {
            EventView::Directory { identities } => at_identity(State { identities, ..s }, 0),
            EventView::Malformed => halted(s, FailureView::Parse { identity: None }),
            EventView::Failed => halted(s, FailureView::Network { identity: None }),
            _ => halted(s, FailureView::Protocol),
        },
        Phase::Keys => match e {
            EventView::Keys { body } => if valid_utf8(body) {
                proceeds(
                    s,
                    Phase::Write,
                    ActionView::WriteKeyFile { user: s.user(), content: body },
                )
            } else {
                halted(s, FailureView::Parse { identity: Some(s.identity()) })
            },
            EventView::Failed => halted(s, FailureView::Network { identity: Some(s.identity()) }),
            _ => halted(s, FailureView::Protocol),
        },
        Phase::Write => match e {
            EventView::Succeeded => proceeds(
                s,
                Phase::Lookup,
                ActionView::Lookup { user: s.user() },
            ),
            EventView::Failed => halted(s, FailureView::Filesystem { name: Some(s.user()) }),
            _ => halted(s, FailureView::Protocol),
        },
        Phase::Lookup => match e {
            EventView::Exists { present } => if present {
                at_identity(s, s.position + 1)
            } else {
                proceeds(
                    s,
                    Phase::Create,
                    provision_action(ProvisionStep::Create, s.user(), s.quota_gb),
                )
            },
            _ => halted(s, FailureView::Protocol),
        },
        Phase::Create => match e {
            EventView::Succeeded => proceeds(
                s,
                Phase::Group,
                provision_action(ProvisionStep::Group, s.user(), s.quota_gb),
            ),
            EventView::Failed => halted(
                s,
                FailureView::Provision { step: ProvisionStep::Create, user: s.user() },
            ),
            _ => halted(s, FailureView::Protocol),
        },
        Phase::Group => match e {
            EventView::Succeeded => proceeds(
                s,
                Phase::Shell,
                provision_action(ProvisionStep::Shell, s.user(), s.quota_gb),
            ),
            EventView::Failed => halted(
                s,
                FailureView::Provision { step: ProvisionStep::Group, user: s.user() },
            ),
            _ => halted(s, FailureView::Protocol),
        },
        Phase::Shell => match e {
            EventView::Succeeded => proceeds(
                s,
                Phase::Quota,
                provision_action(ProvisionStep::Quota, s.user(), s.quota_gb),
            ),
            EventView::Failed => halted(
                s,
                FailureView::Provision { step: ProvisionStep::Shell, user: s.user() },
            ),
            _ => halted(s, FailureView::Protocol),
        },
        Phase::Quota => match e {
            EventView::Succeeded => at_identity(s, s.position + 1),
            EventView::Failed => halted(
                s,
                FailureView::Provision { step: ProvisionStep::Quota, user: s.user() },
            ),
            _ => halted(s, FailureView::Protocol),
        },
        Phase::Listing => match e {
            EventView::Listing { names } => at_deletion(
                State { stale: stale_names(names, s.current()), ..s },
                0,
            ),
            EventView::Failed => halted(s, FailureView::Filesystem { name: None }),
            _ => halted(s, FailureView::Protocol),
        },
        Phase::Delete => match e {
            EventView::Succeeded => at_deletion(
                State { removed: s.removed.push(s.stale[s.cursor as int]), ..s },
                s.cursor + 1,
            ),
            EventView::Failed => at_deletion(
                State { failed: s.failed.push(s.stale[s.cursor as int]), ..s },
                s.cursor + 1,
            ),
            _ => halted(s, FailureView::Protocol),
        },
        Phase::Finished => halted(s, FailureView::Protocol),
    }
}

/// A step keeps a state well-formed.
pub proof fn lemma_next_keeps_wf(s: State, e: EventView)
    requires
        s.wf(),
    ensures
        next(s, e).0.wf(),
{
    if s.phase == Phase::Listing {
        if let EventView::Listing { names } = e {
            lemma_stale_names(names, s.current());
        }
    }
}

/// Tells whether `bytes` are text. This calls `std::str::from_utf8`, which
/// succeeds on exactly the byte strings that are well-formed UTF-8; the
/// contract says so and is not proved here.
#[verifier::external_body]
fn is_text(bytes: &Vec<u8>) -> (text: bool)
    ensures
        text == valid_utf8(bytes@),
{
    match std::str::from_utf8(bytes.as_slice()) {
        Ok(_) => true,
        Err(_) => false,
    }
}

/// A run of the reconciler. It is made by [`Reconciler::start`] and moved on by
/// [`Reconciler::step`], once for every event.
pub struct Reconciler {
    quota_gb: u32,
    phase: Phase,
    identities: Vec<String>,
    users: Vec<String>,
    position: usize,
    stale: Vec<String>,
    cursor: usize,
    removed: Vec<String>,
    failed: Vec<String>,
}

impl View for Reconciler {
    type V = State;

    closed spec fn view(&self) -> State {
        State {
            quota_gb: self.quota_gb as nat,
            phase: self.phase,
            identities: self.identities.deep_view(),
            position: self.position as nat,
            stale: self.stale.deep_view(),
            cursor: self.cursor as nat,
            removed: self.removed.deep_view(),
            failed: self.failed.deep_view(),
        }
    }
}

impl Reconciler {
    #[verifier::type_invariant]
    closed spec fn inv(&self) -> bool {
        &&& self@.wf()
        &&& self.users.deep_view() == self@.current()
    }

    /// Begins a run that gives new accounts a soft quota of `quota_gb`
    /// gigabytes and a hard quota of one gigabyte more. The first action is to
    /// fetch the directory.
    pub fn start(quota_gb: u32) -> (started: (Reconciler, Action))
        ensures
            started.0@ == initial(quota_gb as nat),
            started.0@.wf(),
            started.1@ == ActionView::FetchDirectory,
    {
        let identities: Vec<String> = Vec::new();
        let users: Vec<String> = Vec::new();
        let stale: Vec<String> = Vec::new();
        let removed: Vec<String> = Vec::new();
        let failed: Vec<String> = Vec::new();
        proof {
            assert(identities.deep_view() =~= Seq::<Seq<char>>::empty());
            assert(users.deep_view() =~= local_names(Seq::<Seq<char>>::empty()));
            assert(stale.deep_view() =~= Seq::<Seq<char>>::empty());
            assert(removed.deep_view() =~= Seq::<Seq<char>>::empty());
            assert(failed.deep_view() =~= Seq::<Seq<char>>::empty());
        }
        let machine = Reconciler {
            quota_gb,
            phase: Phase::Directory,
            identities,
            users,
            position: 0,
            stale,
            cursor: 0,
            removed,
            failed,
        };
        (machine, Action::FetchDirectory)
    }

    /// Takes the event that answers the pending action and gives the run's new
    /// state and the next action. After `Finish` the run is over: a further
    /// event is answered with a protocol failure.
    pub fn step(self, event: Event) -> (stepped: (Reconciler, Action))
        ensures
            (stepped.0@, stepped.1@) == next(self@, event@),
            stepped.0@.wf(),
    {
        proof {
            use_type_invariant(&self);
            lemma_next_keeps_wf(self@, event@);
        }
        match self.phase {
            Phase::Directory => self.on_directory(event),
            Phase::Keys => self.on_keys(event),
            Phase::Write => self.on_write(event),
            Phase::Lookup => self.on_lookup(event),
            Phase::Create => self.on_provisioned(ProvisionStep::Create, event),
            Phase::Group => self.on_provisioned(ProvisionStep::Group, event),
            Phase::Shell => self.on_provisioned(ProvisionStep::Shell, event),
            Phase::Quota => self.on_provisioned(ProvisionStep::Quota, event),
            Phase::Listing => self.on_listing(event),
            Phase::Delete => self.on_deleted(event),
            Phase::Finished => self.halt(Failure::Protocol),
        }
    }

    /// Tells whether the run has ended.
    pub fn is_finished(&self) -> (finished: bool)
        ensures
            finished == (self@.phase == Phase::Finished),
    {
        match self.phase {
            Phase::Finished => true,
            _ => false,
        }
    }

    fn halt(self, failure: Failure) -> (stepped: (Reconciler, Action))
        ensures
            (stepped.0@, stepped.1@) == halted(self@, failure@),
    {
        proof {
            use_type_invariant(&self);
        }
        let machine = Reconciler { phase: Phase::Finished, ..self };
        (machine, Action::Finish { outcome: Err(failure) })
    }

    fn at_identity(self, position: usize) -> (stepped: (Reconciler, Action))
        requires
            position <= self.identities.len(),
        ensures
            (stepped.0@, stepped.1@) == at_identity(self@, position as nat),
    {
        proof {
            use_type_invariant(&self);
        }
        if position < self.identities.len() {
            let identity = self.identities[position].clone();
            let machine = Reconciler { phase: Phase::Keys, position, ..self };
            (machine, Action::FetchKeys { identity })
        } else {
            let machine = Reconciler { phase: Phase::Listing, position, ..self };
            (machine, Action::ListKeyFiles)
        }
    }

    fn at_deletion(self, cursor: usize) -> (stepped: (Reconciler, Action))
        requires
            cursor <= self.stale.len(),
        ensures
            (stepped.0@, stepped.1@) == at_deletion(self@, cursor as nat),
    {
        proof {
            use_type_invariant(&self);
        }
        if cursor < self.stale.len() {
            let name = self.stale[cursor].clone();
            let machine = Reconciler { phase: Phase::Delete, cursor, ..self };
            (machine, Action::Delete { name })
        } else {
            let report = Report { removed: self.removed, failed: self.failed };
            let machine = Reconciler {
                quota_gb: self.quota_gb,
                phase: Phase::Finished,
                identities: self.identities,
                users: self.users,
                position: self.position,
                stale: self.stale,
                cursor,
                removed: Vec::new(),
                failed: Vec::new(),
            };
            proof {
                assert(machine.removed.deep_view() =~= Seq::<Seq<char>>::empty());
                assert(machine.failed.deep_view() =~= Seq::<Seq<char>>::empty());
            }
            (machine, Action::Finish { outcome: Ok(report) })
        }
    }

    /// The local account name of the identity in hand.
    fn user_in_hand(&self) -> (user: String)
        requires
            self@.settling(),
        ensures
            user@ == self@.user(),
    {
        proof {
            use_type_invariant(self);
            assert(self.users.deep_view().len() == self@.current().len());
            let at = self.position as int;
            assert(self.users.deep_view()[at] == self@.current()[at]);
        }
        self.users[self.position].clone()
    }

    /// The identity in hand.
    fn identity_in_hand(&self) -> (identity: String)
        requires
            self@.settling(),
        ensures
            identity@ == self@.identity(),
    {
        proof {
            use_type_invariant(self);
        }
        self.identities[self.position].clone()
    }

    /// The action that `step` asks for on behalf of the identity in hand.
    fn provision(&self, step: ProvisionStep) -> (action: Action)
        requires
            self@.settling(),
        ensures
            action@ == provision_action(step, self@.user(), self@.quota_gb),
    {
        let user = self.user_in_hand();
        match step {
            ProvisionStep::Create => Action::Create { user },
            ProvisionStep::Group => Action::GrantGroup { user, group: String::from_str(SSH_GROUP) },
            ProvisionStep::Shell => Action::SetShell { user, shell: String::from_str(LOGIN_SHELL) },
            ProvisionStep::Quota => {
                let soft_gb: u64 = self.quota_gb as u64;
                Action::SetQuota {
                    user,
                    soft_gb,
                    hard_gb: soft_gb + 1,
                    mount: String::from_str(QUOTA_MOUNT),
                }
            },
        }
    }

    fn proceed(self, phase: Phase, action: Action) -> (stepped: (Reconciler, Action))
        requires
            self@.settling(),
            (State { phase, ..self@ }).settling(),
        ensures
            (stepped.0@, stepped.1@) == proceeds(self@, phase, action@),
    {
        proof {
            use_type_invariant(&self);
        }
        let machine = Reconciler { phase, ..self };
        (machine, action)
    }

    fn on_directory(self, event: Event) -> (stepped: (Reconciler, Action))
        requires
            self@.phase == Phase::Directory,
        ensures
            (stepped.0@, stepped.1@) == next(self@, event@),
    {
        proof {
            use_type_invariant(&self);
        }
        match event {
            Event::Directory { identities } => {
                let users = local_usernames(&identities);
                let machine = Reconciler { identities, users, ..self };
                machine.at_identity(0)
            },
            Event::Malformed => self.halt(Failure::Parse { identity: None }),
            Event::Failed => self.halt(Failure::Network { identity: None }),
            _ => self.halt(Failure::Protocol),
        }
    }

    fn on_keys(self, event: Event) -> (stepped: (Reconciler, Action))
        requires
            self@.phase == Phase::Keys,
        ensures
            (stepped.0@, stepped.1@) == next(self@, event@),
    {
        proof {
            use_type_invariant(&self);
        }
        match event {
            Event::Keys { body } => {
                if is_text(&body) {
                    let user = self.user_in_hand();
                    self.proceed(Phase::Write, Action::WriteKeyFile { user, content: body })
                } else {
                    let identity = self.identity_in_hand();
                    self.halt(Failure::Parse { identity: Some(identity) })
                }
            },
            Event::Failed => {
                let identity = self.identity_in_hand();
                self.halt(Failure::Network { identity: Some(identity) })
            },
            _ => self.halt(Failure::Protocol),
        }
    }

    fn on_write(self, event: Event) -> (stepped: (Reconciler, Action))
        requires
            self@.phase == Phase::Write,
        ensures
            (stepped.0@, stepped.1@) == next(self@, event@),
    {
        proof {
            use_type_invariant(&self);
        }
        match event {
            Event::Succeeded => {
                let user = self.user_in_hand();
                self.proceed(Phase::Lookup, Action::Lookup { user })
            },
            Event::Failed => {
                let user = self.user_in_hand();
                self.halt(Failure::Filesystem { name: Some(user) })
            },
            _ => self.halt(Failure::Protocol),
        }
    }

    fn on_lookup(self, event: Event) -> (stepped: (Reconciler, Action))
        requires
            self@.phase == Phase::Lookup,
        ensures
            (stepped.0@, stepped.1@) == next(self@, event@),
    {
        proof {
            use_type_invariant(&self);
        }
        match event {
            Event::Exists { present } => {
                if present {
                    assert(self.position < self.identities.len());
                    let position: usize = self.position + 1;
                    self.at_identity(position)
                } else {
                    let action = self.provision(ProvisionStep::Create);
                    self.proceed(Phase::Create, action)
                }
            },
            _ => self.halt(Failure::Protocol),
        }
    }

    /// Takes the answer to the step `done` of setting up the account in hand.
    fn on_provisioned(self, done: ProvisionStep, event: Event) -> (stepped: (Reconciler, Action))
        requires
            self@.phase == match done {
                ProvisionStep::Create => Phase::Create,
                ProvisionStep::Group => Phase::Group,
                ProvisionStep::Shell => Phase::Shell,
                ProvisionStep::Quota => Phase::Quota,
            },
        ensures
            (stepped.0@, stepped.1@) == next(self@, event@),
    {
        proof {
            use_type_invariant(&self);
        }
        match event {
            Event::Succeeded => match done {
                ProvisionStep::Create => {
                    let action = self.provision(ProvisionStep::Group);
                    self.proceed(Phase::Group, action)
                },
                ProvisionStep::Group => {
                    let action = self.provision(ProvisionStep::Shell);
                    self.proceed(Phase::Shell, action)
                },
                ProvisionStep::Shell => {
                    let action = self.provision(ProvisionStep::Quota);
                    self.proceed(Phase::Quota, action)
                },
                ProvisionStep::Quota => {
                    assert(self.position < self.identities.len());
                    let position: usize = self.position + 1;
                    self.at_identity(position)
                },
            },
            Event::Failed => {
                let user = self.user_in_hand();
                self.halt(Failure::Provision { step: done, user })
            },
            _ => self.halt(Failure::Protocol),
        }
    }

    fn on_listing(self, event: Event) -> (stepped: (Reconciler, Action))
        requires
            self@.phase == Phase::Listing,
        ensures
            (stepped.0@, stepped.1@) == next(self@, event@),
    {
        proof {
            use_type_invariant(&self);
        }
        match event {
            Event::Listing { names } => {
                let stale = stale_key_files(&names, &self.users);
                proof {
                    lemma_stale_names(names.deep_view(), self@.current());
                }
                let machine = Reconciler { stale, cursor: 0, ..self };
                machine.at_deletion(0)
            },
            Event::Failed => self.halt(Failure::Filesystem { name: None }),
            _ => self.halt(Failure::Protocol),
        }
    }

    fn on_deleted(self, event: Event) -> (stepped: (Reconciler, Action))
        requires
            self@.phase == Phase::Delete,
        ensures
            (stepped.0@, stepped.1@) == next(self@, event@),
    {
        proof {
            use_type_invariant(&self);
        }
        assert(self.cursor < self.stale.len());
        let cursor: usize = self.cursor + 1;
        match event {
            Event::Succeeded => {
                let name = self.stale[self.cursor].clone();
                let ghost before = self.removed.deep_view();
                let mut removed = self.removed;
                removed.push(name);
                assert(removed.deep_view() =~= before.push(name@));
                let machine = Reconciler { removed, ..self };
                machine.at_deletion(cursor)
            },
            Event::Failed => {
                let name = self.stale[self.cursor].clone();
                let ghost before = self.failed.deep_view();
                let mut failed = self.failed;
                failed.push(name);
                assert(failed.deep_view() =~= before.push(name@));
                let machine = Reconciler { failed, ..self };
                machine.at_deletion(cursor)
            },
            _ => self.halt(Failure::Protocol),
        }
    }
}

} // verus!

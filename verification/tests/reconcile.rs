use std::collections::BTreeMap;
use std::collections::BTreeSet;
use team_login::protocol::{succeeded, Action, Event, Failure, ProvisionStep, Report};
use team_login::reconciler::Reconciler;

#[derive(Clone, Debug, PartialEq, Eq, Default)]
struct Account {
    groups: BTreeSet<String>,
    shell: Option<String>,
    quota: Option<(u64, u64, String)>,
}

#[derive(Clone, Debug, PartialEq, Eq)]
enum Published {
    Unreachable,
    Malformed,
    Listed(Vec<String>),
}

/// A host and the servers, kept in memory. A name in `refuse` makes the action
/// of that kind fail.
#[derive(Clone, Debug)]
struct World {
    published: Published,
    keys: BTreeMap<String, Vec<u8>>,
    key_files: BTreeMap<String, Vec<u8>>,
    accounts: BTreeMap<String, Account>,
    refuse: BTreeSet<String>,
    log: Vec<String>,
}

fn strings(items: &[&str]) -> Vec<String> {
    items.iter().map(|item| item.to_string()).collect()
}

fn world(identities: &[&str]) -> World {
    let mut keys = BTreeMap::new();
    for identity in identities {
        keys.insert(identity.to_string(), keys_of(identity));
    }
    World {
        published: Published::Listed(strings(identities)),
        keys,
        key_files: BTreeMap::new(),
        accounts: BTreeMap::new(),
        refuse: BTreeSet::new(),
        log: Vec::new(),
    }
}

fn answer(done: bool) -> Event {
    if done {
        Event::Succeeded
    } else {
        Event::Failed
    }
}

fn perform(world: &mut World, action: &Action) -> Event {
    match action {
        Action::FetchDirectory => {
            world.log.push("fetch-directory".to_string());
            match &world.published {
                Published::Unreachable => Event::Failed,
                Published::Malformed => Event::Malformed,
                Published::Listed(identities) => {
                    Event::Directory { identities: identities.clone() }
                }
            }
        }
        Action::FetchKeys { identity } => {
            world.log.push(format!("fetch-keys {}", identity));
            match world.keys.get(identity) {
                Some(body) => Event::Keys { body: body.clone() },
                None => Event::Failed,
            }
        }
        Action::WriteKeyFile { user, content } => {
            world.log.push(format!("write {}", user));
            if world.refuse.contains("write") {
                return Event::Failed;
            }
            world.key_files.insert(user.clone(), content.clone());
            Event::Succeeded
        }
        Action::Lookup { user } => {
            world.log.push(format!("lookup {}", user));
            Event::Exists { present: world.accounts.contains_key(user) }
        }
        Action::Create { user } => {
            world.log.push(format!("create {}", user));
            if world.refuse.contains("create") || world.accounts.contains_key(user) {
                return Event::Failed;
            }
            world.accounts.insert(user.clone(), Account::default());
            Event::Succeeded
        }
        Action::GrantGroup { user, group } => {
            world.log.push(format!("group {} {}", user, group));
            if world.refuse.contains("group") {
                return Event::Failed;
            }
            let done = match world.accounts.get_mut(user) {
                Some(account) => {
                    account.groups.insert(group.clone());
                    true
                }
                None => false,
            };
            answer(done)
        }
        Action::SetShell { user, shell } => {
            world.log.push(format!("shell {} {}", user, shell));
            if world.refuse.contains("shell") {
                return Event::Failed;
            }
            let done = match world.accounts.get_mut(user) {
                Some(account) => {
                    account.shell = Some(shell.clone());
                    true
                }
                None => false,
            };
            answer(done)
        }
        Action::SetQuota { user, soft_gb, hard_gb, mount } => {
            world.log.push(format!("quota {} {} {} {}", user, soft_gb, hard_gb, mount));
            if world.refuse.contains("quota") {
                return Event::Failed;
            }
            let done = match world.accounts.get_mut(user) {
                Some(account) => {
                    account.quota = Some((*soft_gb, *hard_gb, mount.clone()));
                    true
                }
                None => false,
            };
            answer(done)
        }
        Action::ListKeyFiles => {
            world.log.push("list".to_string());
            if world.refuse.contains("list") {
                return Event::Failed;
            }
            Event::Listing { names: world.key_files.keys().cloned().collect() }
        }
        Action::Delete { name } => {
            world.log.push(format!("delete {}", name));
            if world.refuse.contains(name.as_str()) {
                return Event::Failed;
            }
            answer(world.key_files.remove(name).is_some())
        }
        Action::Finish { .. } => Event::Succeeded,
    }
}

/// Runs the reconciler on `world` to its end.
fn reconcile(world: &mut World, quota_gb: u32) -> Result<Report, Failure> {
    world.log.clear();
    let (mut machine, mut action) = Reconciler::start(quota_gb);
    let mut steps: u32 = 0;
    loop {
        if let Action::Finish { outcome } = action {
            assert!(machine.is_finished());
            return outcome;
        }
        assert!(!machine.is_finished());
        steps += 1;
        assert!(steps < 10_000);
        let event = perform(world, &action);
        let stepped = machine.step(event);
        machine = stepped.0;
        action = stepped.1;
    }
}

fn count(log: &[String], kind: &str) -> usize {
    log.iter().filter(|entry| entry.split(' ').next() == Some(kind)).count()
}

fn keys_of(identity: &str) -> Vec<u8> {
    format!("ssh-ed25519 key-of-{}\n", identity).into_bytes()
}

fn set_up(quota_gb: u64) -> Account {
    let mut groups = BTreeSet::new();
    groups.insert("dev-desktop-allow-ssh".to_string());
    Account {
        groups,
        shell: Some("/usr/bin/bash".to_string()),
        quota: Some((quota_gb, quota_gb + 1, "/".to_string())),
    }
}

#[test]
fn start_asks_for_the_directory() {
    let (machine, action) = Reconciler::start(5);
    assert_eq!(action, Action::FetchDirectory);
    assert!(!machine.is_finished());
}

#[test]
fn alice_stays_bob_arrives_carol_leaves() {
    let mut w = world(&["alice", "bob"]);
    let alice_account = Account {
        groups: BTreeSet::new(),
        shell: Some("/bin/zsh".to_string()),
        quota: None,
    };
    w.accounts.insert("gh-alice".to_string(), alice_account.clone());
    w.key_files.insert("gh-alice".to_string(), b"old key of alice\n".to_vec());
    w.key_files.insert("gh-carol".to_string(), b"key of carol\n".to_vec());

    let outcome = reconcile(&mut w, 5);

    assert_eq!(outcome, Ok(Report { removed: strings(&["gh-carol"]), failed: Vec::new() }));
    assert!(succeeded(&outcome));
    assert_eq!(w.key_files.len(), 2);
    assert_eq!(w.key_files.get("gh-alice"), Some(&keys_of("alice")));
    assert_eq!(w.key_files.get("gh-bob"), Some(&keys_of("bob")));
    assert!(!w.key_files.contains_key("gh-carol"));
    assert_eq!(w.accounts.len(), 2);
    assert_eq!(w.accounts.get("gh-alice"), Some(&alice_account));
    assert_eq!(w.accounts.get("gh-bob"), Some(&set_up(5)));
    assert_eq!(
        w.log,
        strings(&[
            "fetch-directory",
            "fetch-keys alice",
            "write gh-alice",
            "lookup gh-alice",
            "fetch-keys bob",
            "write gh-bob",
            "lookup gh-bob",
            "create gh-bob",
            "group gh-bob dev-desktop-allow-ssh",
            "shell gh-bob /usr/bin/bash",
            "quota gh-bob 5 6 /",
            "list",
            "delete gh-carol",
        ])
    );
}

#[test]
fn actions_follow_the_events_step_by_step() {
    let (machine, action) = Reconciler::start(5);
    assert_eq!(action, Action::FetchDirectory);
    let (machine, action) = machine.step(Event::Directory { identities: strings(&["bob"]) });
    assert_eq!(action, Action::FetchKeys { identity: "bob".to_string() });
    let (machine, action) = machine.step(Event::Keys { body: b"ssh-rsa AAAA\n".to_vec() });
    assert_eq!(
        action,
        Action::WriteKeyFile { user: "gh-bob".to_string(), content: b"ssh-rsa AAAA\n".to_vec() }
    );
    let (machine, action) = machine.step(Event::Succeeded);
    assert_eq!(action, Action::Lookup { user: "gh-bob".to_string() });
    let (machine, action) = machine.step(Event::Exists { present: false });
    assert_eq!(action, Action::Create { user: "gh-bob".to_string() });
    let (machine, action) = machine.step(Event::Succeeded);
    assert_eq!(
        action,
        Action::GrantGroup {
            user: "gh-bob".to_string(),
            group: "dev-desktop-allow-ssh".to_string()
        }
    );
    let (machine, action) = machine.step(Event::Succeeded);
    assert_eq!(
        action,
        Action::SetShell { user: "gh-bob".to_string(), shell: "/usr/bin/bash".to_string() }
    );
    let (machine, action) = machine.step(Event::Succeeded);
    assert_eq!(
        action,
        Action::SetQuota {
            user: "gh-bob".to_string(),
            soft_gb: 5,
            hard_gb: 6,
            mount: "/".to_string()
        }
    );
    let (machine, action) = machine.step(Event::Succeeded);
    assert_eq!(action, Action::ListKeyFiles);
    let (machine, action) =
        machine.step(Event::Listing { names: strings(&["gh-bob", "gh-eve", "root", "gh-zed"]) });
    assert_eq!(action, Action::Delete { name: "gh-eve".to_string() });
    let (machine, action) = machine.step(Event::Succeeded);
    assert_eq!(action, Action::Delete { name: "gh-zed".to_string() });
    assert!(!machine.is_finished());
    let (machine, action) = machine.step(Event::Succeeded);
    assert_eq!(
        action,
        Action::Finish {
            outcome: Ok(Report { removed: strings(&["gh-eve", "gh-zed"]), failed: Vec::new() })
        }
    );
    assert!(machine.is_finished());
}

#[test]
fn a_second_run_changes_nothing_and_creates_no_account() {
    let mut w = world(&["alice", "bob", "carol"]);
    w.accounts.insert("gh-alice".to_string(), Account::default());
    w.key_files.insert("gh-dave".to_string(), b"key of dave\n".to_vec());
    w.key_files.insert("notes".to_string(), b"by hand\n".to_vec());

    let first = reconcile(&mut w, 20);
    assert!(succeeded(&first));
    assert_eq!(count(&w.log, "create"), 2);
    let key_files = w.key_files.clone();
    let accounts = w.accounts.clone();

    let second = reconcile(&mut w, 20);
    assert_eq!(second, Ok(Report { removed: Vec::new(), failed: Vec::new() }));
    assert_eq!(w.key_files, key_files);
    assert_eq!(w.accounts, accounts);
    assert_eq!(count(&w.log, "create"), 0);
    assert_eq!(count(&w.log, "group"), 0);
    assert_eq!(count(&w.log, "shell"), 0);
    assert_eq!(count(&w.log, "quota"), 0);
    assert_eq!(count(&w.log, "delete"), 0);
    assert_eq!(count(&w.log, "write"), 3);
    assert_eq!(w.log.len(), 3 * 3 + 2);
}

#[test]
fn key_files_hold_the_latest_keys_under_the_local_name() {
    let mut w = world(&["alice", "bob"]);
    assert!(succeeded(&reconcile(&mut w, 1)));
    assert_eq!(w.key_files.get("gh-alice"), Some(&keys_of("alice")));
    w.keys.insert("alice".to_string(), b"ssh-rsa rotated\n".to_vec());
    assert!(succeeded(&reconcile(&mut w, 1)));
    assert_eq!(w.key_files.get("gh-alice"), Some(&b"ssh-rsa rotated\n".to_vec()));
    assert_eq!(w.key_files.get("gh-bob"), Some(&keys_of("bob")));
    assert_eq!(w.key_files.len(), 2);
    assert_eq!(count(&w.log, "create"), 0);
}

#[test]
fn files_without_the_prefix_are_never_removed() {
    let mut w = world(&["alice"]);
    for name in ["root", "alice", "gh", "GH-bob", "bob.keys", "", "xgh-bob"] {
        w.key_files.insert(name.to_string(), name.as_bytes().to_vec());
    }
    w.key_files.insert("gh-bob".to_string(), b"stale\n".to_vec());
    w.key_files.insert("gh-bob.keys".to_string(), b"stale too\n".to_vec());

    let outcome = reconcile(&mut w, 5);

    assert_eq!(
        outcome,
        Ok(Report { removed: strings(&["gh-bob", "gh-bob.keys"]), failed: Vec::new() })
    );
    for name in ["root", "alice", "gh", "GH-bob", "bob.keys", "", "xgh-bob"] {
        assert_eq!(w.key_files.get(name), Some(&name.as_bytes().to_vec()));
    }
    assert_eq!(w.key_files.len(), 8);
}

#[test]
fn an_empty_directory_revokes_everyone() {
    let mut w = world(&[]);
    w.accounts.insert("gh-alice".to_string(), set_up(5));
    w.key_files.insert("gh-alice".to_string(), keys_of("alice"));
    w.key_files.insert("gh-bob".to_string(), keys_of("bob"));
    w.key_files.insert("root".to_string(), b"root key\n".to_vec());

    let outcome = reconcile(&mut w, 5);

    assert_eq!(
        outcome,
        Ok(Report { removed: strings(&["gh-alice", "gh-bob"]), failed: Vec::new() })
    );
    assert_eq!(w.key_files.len(), 1);
    assert!(w.key_files.contains_key("root"));
    assert_eq!(w.accounts.get("gh-alice"), Some(&set_up(5)));
    assert_eq!(w.log, strings(&["fetch-directory", "list", "delete gh-alice", "delete gh-bob"]));
}

#[test]
fn a_new_account_gets_group_shell_and_quota() {
    let mut w = world(&["bob"]);
    assert!(succeeded(&reconcile(&mut w, 50)));
    assert_eq!(w.accounts.get("gh-bob"), Some(&set_up(50)));
    assert_eq!(
        w.accounts.get("gh-bob").unwrap().quota,
        Some((50, 51, "/".to_string()))
    );
}

#[test]
fn the_hard_quota_is_one_more_even_at_the_largest_size() {
    let mut w = world(&["bob"]);
    assert!(succeeded(&reconcile(&mut w, u32::MAX)));
    assert_eq!(
        w.accounts.get("gh-bob").unwrap().quota,
        Some((4294967295, 4294967296, "/".to_string()))
    );
    let mut z = world(&["bob"]);
    assert!(succeeded(&reconcile(&mut z, 0)));
    assert_eq!(z.accounts.get("gh-bob").unwrap().quota, Some((0, 1, "/".to_string())));
}

#[test]
fn an_existing_account_is_not_corrected() {
    let mut w = world(&["alice"]);
    let drifted = Account {
        groups: BTreeSet::new(),
        shell: Some("/bin/false".to_string()),
        quota: Some((1, 2, "/home".to_string())),
    };
    w.accounts.insert("gh-alice".to_string(), drifted.clone());
    assert!(succeeded(&reconcile(&mut w, 5)));
    assert_eq!(w.accounts.get("gh-alice"), Some(&drifted));
    assert_eq!(
        w.log,
        strings(&["fetch-directory", "fetch-keys alice", "write gh-alice", "lookup gh-alice", "list"])
    );
}

#[test]
fn an_identity_named_twice_is_set_up_once() {
    let mut w = world(&["bob", "bob"]);
    let outcome = reconcile(&mut w, 5);
    assert_eq!(outcome, Ok(Report { removed: Vec::new(), failed: Vec::new() }));
    assert_eq!(count(&w.log, "create"), 1);
    assert_eq!(count(&w.log, "write"), 2);
    assert_eq!(w.accounts.get("gh-bob"), Some(&set_up(5)));
    assert_eq!(w.key_files.len(), 1);
}

#[test]
fn a_malformed_directory_ends_the_run_before_anything_is_done() {
    let mut w = world(&["alice"]);
    w.published = Published::Malformed;
    w.key_files.insert("gh-carol".to_string(), keys_of("carol"));
    let before = w.clone();

    let outcome = reconcile(&mut w, 5);

    assert_eq!(outcome, Err(Failure::Parse { identity: None }));
    assert!(!succeeded(&outcome));
    assert_eq!(w.key_files, before.key_files);
    assert_eq!(w.accounts, before.accounts);
    assert_eq!(w.log, strings(&["fetch-directory"]));
}

#[test]
fn an_unreachable_directory_is_a_network_failure() {
    let mut w = world(&["alice"]);
    w.published = Published::Unreachable;
    w.key_files.insert("gh-carol".to_string(), keys_of("carol"));
    let outcome = reconcile(&mut w, 5);
    assert_eq!(outcome, Err(Failure::Network { identity: None }));
    assert_eq!(w.key_files.len(), 1);
    assert_eq!(w.log, strings(&["fetch-directory"]));
}

#[test]
fn missing_keys_end_the_run_at_that_identity() {
    let mut w = world(&["alice", "bob", "carol"]);
    w.keys.remove("bob");
    w.key_files.insert("gh-dave".to_string(), keys_of("dave"));

    let outcome = reconcile(&mut w, 5);

    assert_eq!(outcome, Err(Failure::Network { identity: Some("bob".to_string()) }));
    assert_eq!(w.accounts.get("gh-alice"), Some(&set_up(5)));
    assert!(!w.accounts.contains_key("gh-bob"));
    assert!(!w.accounts.contains_key("gh-carol"));
    assert!(!w.key_files.contains_key("gh-bob"));
    assert!(!w.key_files.contains_key("gh-carol"));
    assert!(w.key_files.contains_key("gh-dave"));
    assert_eq!(count(&w.log, "list"), 0);
    assert_eq!(count(&w.log, "delete"), 0);
    assert_eq!(w.log.last(), Some(&"fetch-keys bob".to_string()));
}

#[test]
fn keys_that_are_not_text_end_the_run() {
    let mut w = world(&["alice", "bob"]);
    w.keys.insert("alice".to_string(), vec![0x73, 0x73, 0x68, 0xff, 0xfe]);

    let outcome = reconcile(&mut w, 5);

    assert_eq!(outcome, Err(Failure::Parse { identity: Some("alice".to_string()) }));
    assert!(w.key_files.is_empty());
    assert!(w.accounts.is_empty());
    assert_eq!(w.log, strings(&["fetch-directory", "fetch-keys alice"]));
}

#[test]
fn keys_are_taken_as_text_by_their_encoding() {
    let well_formed: Vec<Vec<u8>> = vec![
        Vec::new(),
        b"ssh-ed25519 AAAA user@host\n".to_vec(),
        "clé de zoë ✓ 🔑\n".as_bytes().to_vec(),
        vec![0xf4, 0x8f, 0xbf, 0xbf],
        vec![0xed, 0x9f, 0xbf],
    ];
    for body in well_formed {
        let (machine, _) = Reconciler::start(5);
        let (machine, _) = machine.step(Event::Directory { identities: strings(&["zoe"]) });
        let (_, action) = machine.step(Event::Keys { body: body.clone() });
        assert_eq!(action, Action::WriteKeyFile { user: "gh-zoe".to_string(), content: body });
    }
    let ill_formed: Vec<Vec<u8>> = vec![
        vec![0x80],
        vec![0xc3],
        vec![0xc0, 0xaf],
        vec![0xe0, 0x80, 0xaf],
        vec![0xed, 0xa0, 0x80],
        vec![0xf4, 0x90, 0x80, 0x80],
        vec![0xf8, 0x88, 0x80, 0x80, 0x80],
        vec![0x61, 0xff, 0x62],
    ];
    for body in ill_formed {
        let (machine, _) = Reconciler::start(5);
        let (machine, _) = machine.step(Event::Directory { identities: strings(&["zoe"]) });
        let (machine, action) = machine.step(Event::Keys { body });
        assert_eq!(
            action,
            Action::Finish { outcome: Err(Failure::Parse { identity: Some("zoe".to_string()) }) }
        );
        assert!(machine.is_finished());
    }
}

#[test]
fn a_key_file_that_cannot_be_written_ends_the_run() {
    let mut w = world(&["alice", "bob"]);
    w.refuse.insert("write".to_string());
    let outcome = reconcile(&mut w, 5);
    assert_eq!(outcome, Err(Failure::Filesystem { name: Some("gh-alice".to_string()) }));
    assert!(w.accounts.is_empty());
    assert_eq!(w.log, strings(&["fetch-directory", "fetch-keys alice", "write gh-alice"]));
}

#[test]
fn a_failed_creation_ends_the_run() {
    let mut w = world(&["alice", "bob"]);
    w.refuse.insert("create".to_string());
    let outcome = reconcile(&mut w, 5);
    assert_eq!(
        outcome,
        Err(Failure::Provision { step: ProvisionStep::Create, user: "gh-alice".to_string() })
    );
    assert!(w.accounts.is_empty());
    assert_eq!(w.key_files.len(), 1);
    assert_eq!(count(&w.log, "fetch-keys"), 1);
}

#[test]
fn a_failed_group_grant_leaves_the_account_half_done() {
    let mut w = world(&["alice", "bob"]);
    w.refuse.insert("group".to_string());
    let outcome = reconcile(&mut w, 5);
    assert_eq!(
        outcome,
        Err(Failure::Provision { step: ProvisionStep::Group, user: "gh-alice".to_string() })
    );
    assert_eq!(w.accounts.get("gh-alice"), Some(&Account::default()));
    assert_eq!(count(&w.log, "shell"), 0);
    assert_eq!(count(&w.log, "fetch-keys"), 1);
}

#[test]
fn a_failed_shell_change_ends_the_run() {
    let mut w = world(&["alice", "bob"]);
    w.refuse.insert("shell".to_string());
    let outcome = reconcile(&mut w, 5);
    assert_eq!(
        outcome,
        Err(Failure::Provision { step: ProvisionStep::Shell, user: "gh-alice".to_string() })
    );
    let account = w.accounts.get("gh-alice").unwrap();
    assert!(account.groups.contains("dev-desktop-allow-ssh"));
    assert_eq!(account.shell, None);
    assert_eq!(account.quota, None);
    assert_eq!(count(&w.log, "quota"), 0);
}

#[test]
fn a_failed_quota_leaves_the_account_without_quota() {
    let mut w = world(&["alice", "bob"]);
    w.refuse.insert("quota".to_string());
    w.key_files.insert("gh-carol".to_string(), keys_of("carol"));
    let outcome = reconcile(&mut w, 5);
    assert_eq!(
        outcome,
        Err(Failure::Provision { step: ProvisionStep::Quota, user: "gh-alice".to_string() })
    );
    let account = w.accounts.get("gh-alice").unwrap();
    assert_eq!(account.shell, Some("/usr/bin/bash".to_string()));
    assert_eq!(account.quota, None);
    assert!(!w.accounts.contains_key("gh-bob"));
    assert!(w.key_files.contains_key("gh-carol"));
    assert_eq!(count(&w.log, "list"), 0);
}

#[test]
fn a_listing_that_fails_ends_the_run() {
    let mut w = world(&["alice"]);
    w.refuse.insert("list".to_string());
    w.key_files.insert("gh-carol".to_string(), keys_of("carol"));
    let outcome = reconcile(&mut w, 5);
    assert_eq!(outcome, Err(Failure::Filesystem { name: None }));
    assert!(w.key_files.contains_key("gh-carol"));
    assert_eq!(w.accounts.get("gh-alice"), Some(&set_up(5)));
}

#[test]
fn a_failed_deletion_does_not_stop_the_sweep() {
    let mut w = world(&["alice"]);
    for name in ["gh-bob", "gh-carol", "gh-dave"] {
        w.key_files.insert(name.to_string(), b"stale\n".to_vec());
    }
    w.refuse.insert("gh-carol".to_string());

    let outcome = reconcile(&mut w, 5);

    assert_eq!(
        outcome,
        Ok(Report { removed: strings(&["gh-bob", "gh-dave"]), failed: strings(&["gh-carol"]) })
    );
    assert!(!succeeded(&outcome));
    assert_eq!(count(&w.log, "delete"), 3);
    assert!(w.key_files.contains_key("gh-carol"));
    assert!(!w.key_files.contains_key("gh-bob"));
    assert!(!w.key_files.contains_key("gh-dave"));
    assert!(w.key_files.contains_key("gh-alice"));
}

#[test]
fn an_event_that_does_not_fit_is_a_protocol_failure() {
    let protocol = Action::Finish { outcome: Err(Failure::Protocol) };

    let (machine, _) = Reconciler::start(5);
    let (machine, action) = machine.step(Event::Succeeded);
    assert_eq!(action, protocol);
    assert!(machine.is_finished());

    let (machine, _) = Reconciler::start(5);
    let (machine, _) = machine.step(Event::Directory { identities: strings(&["bob"]) });
    let (_, action) = machine.step(Event::Malformed);
    assert_eq!(action, protocol);

    let (machine, _) = Reconciler::start(5);
    let (machine, _) = machine.step(Event::Directory { identities: strings(&["bob"]) });
    let (machine, _) = machine.step(Event::Keys { body: Vec::new() });
    let (_, action) = machine.step(Event::Exists { present: true });
    assert_eq!(action, protocol);

    let (machine, _) = Reconciler::start(5);
    let (machine, _) = machine.step(Event::Directory { identities: strings(&["bob"]) });
    let (machine, _) = machine.step(Event::Keys { body: Vec::new() });
    let (machine, _) = machine.step(Event::Succeeded);
    let (_, action) = machine.step(Event::Failed);
    assert_eq!(action, protocol);

    let (machine, _) = Reconciler::start(5);
    let (machine, action) = machine.step(Event::Directory { identities: Vec::new() });
    assert_eq!(action, Action::ListKeyFiles);
    let (_, action) = machine.step(Event::Succeeded);
    assert_eq!(action, protocol);

    let (machine, _) = Reconciler::start(5);
    let (machine, _) = machine.step(Event::Directory { identities: Vec::new() });
    let (machine, _) = machine.step(Event::Listing { names: strings(&["gh-x"]) });
    let (_, action) = machine.step(Event::Listing { names: Vec::new() });
    assert_eq!(action, protocol);
}

#[test]
fn a_finished_run_takes_no_further_event() {
    let (machine, _) = Reconciler::start(5);
    let (machine, _) = machine.step(Event::Directory { identities: Vec::new() });
    let (machine, action) = machine.step(Event::Listing { names: Vec::new() });
    assert_eq!(
        action,
        Action::Finish { outcome: Ok(Report { removed: Vec::new(), failed: Vec::new() }) }
    );
    assert!(machine.is_finished());
    let (machine, action) = machine.step(Event::Succeeded);
    assert_eq!(action, Action::Finish { outcome: Err(Failure::Protocol) });
    assert!(machine.is_finished());
}

#[test]
fn identities_are_settled_in_the_order_of_the_directory() {
    let mut w = world(&["carol", "alice", "bob"]);
    assert!(succeeded(&reconcile(&mut w, 5)));
    let fetched: Vec<String> = w
        .log
        .iter()
        .filter(|entry| entry.starts_with("fetch-keys "))
        .cloned()
        .collect();
    assert_eq!(fetched, strings(&["fetch-keys carol", "fetch-keys alice", "fetch-keys bob"]));
}

//! How identities map to local account names, key files and key URLs.

use vstd::prelude::*;
use vstd::string::*;

verus! {

/// Where the list of permitted identities is published.
pub const DIRECTORY_URL: &'static str =
    "https://team-api.infra.rust-lang.org/v1/permissions/dev_desktop.json";

/// How this program names itself to the servers it asks.
pub const USER_AGENT: &'static str = "rust-lang/simpleinfra (infra@rust-lang.org)";

/// The directory that holds one key file per managed account.
pub const KEY_DIR: &'static str = "/etc/ssh/authorized_keys/";

/// The group whose members may log in over SSH.
pub const SSH_GROUP: &'static str = "dev-desktop-allow-ssh";

/// The login shell of a newly created account.
pub const LOGIN_SHELL: &'static str = "/usr/bin/bash";

/// The mount point on which quotas are set.
pub const QUOTA_MOUNT: &'static str = "/";

/// The prefix that every managed account name and key file name carries. It
/// keeps managed accounts apart from the accounts the system came with.
pub open spec fn managed_prefix() -> Seq<char> {
    seq!['g', 'h', '-']
}

/// The local account name of an identity: the managed prefix followed by the
/// identity.
pub open spec fn local_name(identity: Seq<char>) -> Seq<char> {
    managed_prefix() + identity
}

/// Whether a name carries the managed prefix.
pub open spec fn is_managed_name(name: Seq<char>) -> bool {
    managed_prefix().is_prefix_of(name)
}

/// The local account names of a list of identities, in the same order.
pub open spec fn local_names(identities: Seq<Seq<char>>) -> Seq<Seq<char>> {
    identities.map_values(|identity: Seq<char>| local_name(identity))
}

/// The address that serves the public keys of an identity.
pub open spec fn keys_location(identity: Seq<char>) -> Seq<char> {
    "https://github.com/"@ + identity + ".keys"@
}

/// The path of the key file with the given name.
pub open spec fn key_file_location(name: Seq<char>) -> Seq<char> {
    KEY_DIR@ + name
}

/// Derives the local account name of `identity`.
pub fn local_username(identity: &str) -> (user: String)
    ensures
        user@ == local_name(identity@),
{
    proof {
        reveal_strlit("gh-");
        assert("gh-"@ =~= managed_prefix());
    }
    String::from_str("gh-").concat(identity)
}

/// Derives the local account names of `identities`, in the same order.
pub fn local_usernames(identities: &Vec<String>) -> (users: Vec<String>)
    ensures
        users.deep_view() == local_names(identities.deep_view()),
{
    let mut users: Vec<String> = Vec::new();
    let mut i: usize = 0;
    while i < identities.len()
        invariant
            i <= identities.len(),
            users.len() == i,
            forall|j: int| 0 <= j < i ==> users[j]@ == local_name(#[trigger] identities[j]@),
        decreases identities.len() - i,
    {
        users.push(local_username(identities[i].as_str()));
        i = i + 1;
    }
    assert(users.deep_view() =~= local_names(identities.deep_view()));
    users
}

/// Tells whether `name` carries the managed prefix.
pub fn is_managed(name: &str) -> (managed: bool)
    ensures
        managed == is_managed_name(name@),
{
    let length: usize = name.unicode_len();
    if length < 3 {
        return false;
    }
    let managed = name.get_char(0) == 'g' && name.get_char(1) == 'h' && name.get_char(2) == '-';
    proof {
        let head = name@.subrange(0, 3);
        if managed {
            assert(head =~= managed_prefix());
        } else {
            assert(head[0] == name@[0] && head[1] == name@[1] && head[2] == name@[2]);
        }
    }
    managed
}

/// Builds the address that serves the public keys of `identity`.
pub fn keys_url(identity: &str) -> (url: String)
    ensures
        url@ == keys_location(identity@),
{
    String::from_str("https://github.com/").concat(identity).concat(".keys")
}

/// Builds the path of the key file named `name`.
pub fn key_file_path(name: &str) -> (path: String)
    ensures
        path@ == key_file_location(name@),
{
    String::from_str(KEY_DIR).concat(name)
}

/// A local account name is managed, and the identity can be read back from it.
pub proof fn lemma_local_name_is_managed(identity: Seq<char>)
    ensures
        is_managed_name(local_name(identity)),
        local_name(identity).skip(3) == identity,
        local_name(identity).len() == identity.len() + 3,
{
    let name = local_name(identity);
    assert(name.subrange(0, 3) =~= managed_prefix());
    assert(name.skip(3) =~= identity);
}

/// Different identities never share a local account name.
pub proof fn lemma_local_name_is_injective(first: Seq<char>, second: Seq<char>)
    requires
        local_name(first) == local_name(second),
    ensures
        first == second,
{
    lemma_local_name_is_managed(first);
    lemma_local_name_is_managed(second);
}

} // verus!

//! Which key files are left over from identities that are no longer permitted.
//!
//! Key files are written under the bare local account name, without an
//! extension. The sweep therefore goes by the managed prefix alone and asks for
//! no extension: a test for one would spare every key file that is ever
//! written. A name with the prefix that no current account bears is stale,
//! `gh-bob.keys` as much as `gh-bob`. A name without the prefix is never
//! stale, whatever else lies in the directory.

use crate::naming::{is_managed, is_managed_name};
use vstd::prelude::*;
use vstd::string::*;

verus! {

/// Whether the key file `name` is left over: it carries the managed prefix and
/// is the local account name of no current identity.
pub open spec fn is_stale(name: Seq<char>, current: Seq<Seq<char>>) -> bool {
    is_managed_name(name) && !current.contains(name)
}

/// The names among `names` that are stale, in the order of `names`.
pub open spec fn stale_names(names: Seq<Seq<char>>, current: Seq<Seq<char>>) -> Seq<Seq<char>> {
    names.filter(|name: Seq<char>| is_stale(name, current))
}

/// Tells whether `name` is one of `list`.
pub fn contains_name(list: &Vec<String>, name: &String) -> (found: bool)
    ensures
        found == list.deep_view().contains(name@),
{
    let mut i: usize = 0;
    while i < list.len()
        invariant
            i <= list.len(),
            forall|j: int| 0 <= j < i ==> list.deep_view()[j] != name@,
        decreases list.len() - i,
    {
        if list[i] == *name {
            assert(list.deep_view()[i as int] == name@);
            return true;
        }
        i = i + 1;
    }
    false
}

/// Picks the stale names out of a listing of the key file directory, given the
/// local account names of the current identities.
pub fn stale_key_files(names: &Vec<String>, current: &Vec<String>) -> (stale: Vec<String>)
    ensures
        stale.deep_view() == stale_names(names.deep_view(), current.deep_view()),
{
    let ghost is_left_over = |name: Seq<char>| is_stale(name, current.deep_view());
    let mut stale: Vec<String> = Vec::new();
    let mut i: usize = 0;
    proof {
        reveal(Seq::filter);
        assert(names.deep_view().take(0) =~= Seq::<Seq<char>>::empty());
        assert(stale.deep_view() =~= Seq::<Seq<char>>::empty());
    }
    while i < names.len()
        invariant
            i <= names.len(),
            is_left_over == (|name: Seq<char>| is_stale(name, current.deep_view())),
            stale.deep_view() == names.deep_view().take(i as int).filter(is_left_over),
        decreases names.len() - i,
    {
        let ghost before = stale.deep_view();
        let ghost seen = names.deep_view().take(i as int);
        let ghost seen_next = names.deep_view().take(i + 1);
        proof {
            reveal(Seq::filter);
            assert(seen_next.drop_last() =~= seen);
            assert(seen_next.last() == names[i as int]@);
        }
        if is_managed(names[i].as_str()) && !contains_name(current, &names[i]) {
            stale.push(names[i].clone());
            assert(stale.deep_view() =~= before.push(names[i as int]@));
        }
        i = i + 1;
    }
    assert(names.deep_view().take(names.len() as int) =~= names.deep_view());
    stale
}

/// Every name the sweep picks is stale, every stale name of the listing is
/// picked, and a name is picked no more often than the listing holds it.
pub proof fn lemma_stale_names(names: Seq<Seq<char>>, current: Seq<Seq<char>>)
    ensures
        forall|i: int|
            0 <= i < stale_names(names, current).len() ==> is_stale(
                #[trigger] stale_names(names, current)[i],
                current,
            ),
        forall|name: Seq<char>|
            names.contains(name) && is_stale(name, current) ==> #[trigger] stale_names(
                names,
                current,
            ).contains(name),
        forall|name: Seq<char>| #[trigger]
            stale_names(names, current).contains(name) ==> names.contains(name),
        names.no_duplicates() ==> stale_names(names, current).no_duplicates(),
    decreases names.len(),
{
    let is_left_over = |name: Seq<char>| is_stale(name, current);
    let picked = stale_names(names, current);
    reveal(Seq::filter);
    if names.len() > 0 {
        let front = names.drop_last();
        lemma_stale_names(front, current);
        let picked_front = stale_names(front, current);
        assert forall|name: Seq<char>| names.contains(name) && is_stale(
            name,
            current,
        ) implies picked.contains(name) by {
            let k = choose|k: int| 0 <= k < names.len() && names[k] == name;
            if k == names.len() - 1 {
                assert(picked[picked.len() - 1] == name);
            } else {
                assert(front[k] == name);
                assert(picked_front.contains(name));
                let j = choose|j: int| 0 <= j < picked_front.len() && picked_front[j] == name;
                assert(picked[j] == name);
            }
        }
        assert forall|name: Seq<char>| picked.contains(name) implies names.contains(name) by {
            let j = choose|j: int| 0 <= j < picked.len() && picked[j] == name;
            if j < picked_front.len() {
                assert(picked_front[j] == name);
                assert(picked_front.contains(name));
                let k = choose|k: int| 0 <= k < front.len() && front[k] == name;
                assert(names[k] == name);
            } else {
                assert(names[names.len() - 1] == name);
            }
        }
        if names.no_duplicates() {
            assert(front.no_duplicates());
            if picked.len() > picked_front.len() {
                assert forall|j: int| 0 <= j < picked_front.len() implies picked_front[j]
                    != names.last() by {
                    assert(picked_front.contains(picked_front[j]));
                    let k = choose|k: int| 0 <= k < front.len() && front[k] == picked_front[j];
                    assert(names[k] == picked_front[j]);
                }
            }
        }
    }
}

} // verus!

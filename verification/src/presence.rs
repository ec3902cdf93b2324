//! Presence of the watched processes among those that are running.

use crate::text::{chars_of, contains_text, find_in};
use vstd::prelude::*;

verus! {

/// `name` holds one of the targets as a part of it, letter case counting.
pub open spec fn matches_target(name: Seq<char>, targets: Seq<String>) -> bool {
    exists|j: int| 0 <= j < targets.len() && contains_text(name, (#[trigger] targets[j])@)
}

/// One of the running processes has a name that holds one of the targets.
/// Without processes, or without targets, none has.
pub open spec fn is_present(snapshot: Seq<String>, targets: Seq<String>) -> bool {
    exists|i: int| 0 <= i < snapshot.len() && matches_target((#[trigger] snapshot[i])@, targets)
}

/// What a presence check has seen: the names of the running processes, or
/// nothing where they could not be listed. Then no process counts as
/// present.
pub open spec fn is_observed(snapshot: Option<Vec<String>>, targets: Seq<String>) -> bool {
    match snapshot {
        Some(names) => is_present(names@, targets),
        None => false,
    }
}

/// Whether `name` holds `target` as a part of it.
pub fn name_contains(name: &Vec<char>, target: &str) -> (found: bool)
    ensures
        found == contains_text(name@, target@),
{
    let needle = chars_of(target);
    assert(name@.subrange(0, name@.len() as int) =~= name@);
    find_in(name, 0, name.len(), &needle).is_some()
}

/// Whether the name of a process holds one of the targets.
pub fn name_matches(name: &str, targets: &Vec<String>) -> (found: bool)
    ensures
        found == matches_target(name@, targets@),
{
    let chars = chars_of(name);
    let mut j: usize = 0;
    while j < targets.len()
        invariant
            j <= targets.len(),
            chars@ == name@,
            forall|k: int| 0 <= k < j ==> !contains_text(name@, (#[trigger] targets@[k])@),
        decreases targets.len() - j,
    {
        if name_contains(&chars, targets[j].as_str()) {
            return true;
        }
        j = j + 1;
    }
    false
}

/// Whether a watched process is running: whether the name of one of the
/// processes in `snapshot` holds one of `targets`.
pub fn present(snapshot: &Vec<String>, targets: &Vec<String>) -> (found: bool)
    ensures
        found == is_present(snapshot@, targets@),
{
    let mut i: usize = 0;
    while i < snapshot.len()
        invariant
            i <= snapshot.len(),
            forall|k: int| 0 <= k < i ==> !matches_target((#[trigger] snapshot@[k])@, targets@),
        decreases snapshot.len() - i,
    {
        if name_matches(snapshot[i].as_str(), targets) {
            return true;
        }
        i = i + 1;
    }
    false
}

/// Whether a watched process is running, as far as this presence check
/// could tell.
pub fn observe(snapshot: &Option<Vec<String>>, targets: &Vec<String>) -> (found: bool)
    ensures
        found == is_observed(*snapshot, targets@),
{
    match snapshot {
        Some(names) => present(names, targets),
        None => false,
    }
}

/// Without targets no process is present.
pub proof fn lemma_no_targets(snapshot: Seq<String>)
    ensures
        !is_present(snapshot, Seq::<String>::empty()),
{
}

/// Without processes nothing is present.
pub proof fn lemma_no_processes(targets: Seq<String>)
    ensures
        !is_present(Seq::<String>::empty(), targets),
{
}

} // verus!

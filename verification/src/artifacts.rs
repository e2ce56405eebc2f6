//! The local artifact store's naming and pruning rules.
//!
//! The caller enumerates the updates directory and deletes files; this
//! module decides, from names alone, what the installer for a version is
//! called and which entries are stale.

use vstd::prelude::*;
use vstd::string::StringExecFns;

use crate::text::contains_seq;
use crate::text::contains_substring;
use crate::text::ends_with_seq;
use crate::text::ends_with_str;

verus! {

/// The deterministic file name of the installer for a version.
pub open spec fn spec_artifact_name(version: Seq<char>) -> Seq<char> {
    "WorkHelper_"@ + version + "_x64-setup.exe"@
}

/// Build the installer file name for a version.
pub fn artifact_file_name(version: &str) -> (r: String)
    ensures
        r@ == spec_artifact_name(version@),
{
    let mut s = String::from_str("WorkHelper_");
    s.append(version);
    s.append("_x64-setup.exe");
    s
}

/// A directory entry is stale when it is an installer file that does not
/// belong to the current version.
pub open spec fn is_stale_artifact(name: Seq<char>, current_version: Seq<char>) -> bool {
    !contains_seq(name, current_version) && ends_with_seq(name, ".exe"@)
}

/// Decide whether a directory entry is a stale installer.
pub fn should_remove_artifact(name: &str, current_version: &str) -> (b: bool)
    ensures
        b == is_stale_artifact(name@, current_version@),
{
    if contains_substring(name, current_version) {
        return false;
    }
    ends_with_str(name, ".exe")
}

/// The names cleanup deletes: the stale installers, in directory order.
pub open spec fn spec_cleanup_plan(names: Seq<String>, current_version: Seq<char>) -> Seq<String> {
    names.filter(|n: String| is_stale_artifact(n@, current_version))
}

/// From the names in the updates directory, the ones cleanup deletes, in
/// directory order.
pub fn cleanup_plan(names: &Vec<String>, current_version: &str) -> (r: Vec<String>)
    ensures
        r@ == spec_cleanup_plan(names@, current_version@),
{
    let ghost pred = |n: String| is_stale_artifact(n@, current_version@);
    let mut out: Vec<String> = Vec::new();
    let mut i: usize = 0;
    proof {
        assert(names@.subrange(0, 0) =~= Seq::<String>::empty());
        reveal(Seq::filter);
    }
    while i < names.len()
        invariant
            0 <= i <= names.len(),
            pred == (|n: String| is_stale_artifact(n@, current_version@)),
            out@ == names@.subrange(0, i as int).filter(pred),
        decreases names.len() - i,
    {
        let ghost prefix = names@.subrange(0, i as int);
        let ghost prefix1 = names@.subrange(0, i + 1);
        proof {
            assert(prefix1.drop_last() =~= prefix);
            assert(prefix1.last() == names@[i as int]);
            reveal(Seq::filter);
        }
        if should_remove_artifact(names[i].as_str(), current_version) {
            let entry = names[i].clone();
            assert(entry == names@[i as int]);
            out.push(entry);
        }
        i += 1;
    }
    proof {
        assert(names@.subrange(0, names@.len() as int) =~= names@);
    }
    out
}

/// Cleanup never touches a file whose name holds the current version, and
/// lists every installer file that does not.
pub proof fn lemma_cleanup_safety(names: Seq<String>, current_version: Seq<char>)
    ensures
        forall|k: int|
            0 <= k < spec_cleanup_plan(names, current_version).len() ==> !contains_seq(
                (#[trigger] spec_cleanup_plan(names, current_version)[k])@,
                current_version,
            ) && ends_with_seq(spec_cleanup_plan(names, current_version)[k]@, ".exe"@),
        forall|k: int|
            0 <= k < names.len() && is_stale_artifact(#[trigger] names[k]@, current_version)
                ==> spec_cleanup_plan(names, current_version).contains(names[k]),
{
    let pred = |n: String| is_stale_artifact(n@, current_version);
    assert forall|k: int| 0 <= k < spec_cleanup_plan(names, current_version).len() implies
        !contains_seq(
        (#[trigger] spec_cleanup_plan(names, current_version)[k])@,
        current_version,
    ) && ends_with_seq(spec_cleanup_plan(names, current_version)[k]@, ".exe"@) by {
        names.lemma_filter_pred(pred, k);
    }
    assert forall|k: int|
        0 <= k < names.len() && is_stale_artifact(
        #[trigger] names[k]@,
        current_version,
    ) implies spec_cleanup_plan(names, current_version).contains(names[k]) by {
        names.lemma_filter_contains(pred, k);
    }
}

} // verus!

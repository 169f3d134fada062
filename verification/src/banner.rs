//! The start-up banner line. The build is described by its version and
//! build date and time; the commit label is the short commit hash for a
//! clean build and "SNAPSHOT" for a dirty one.

use vstd::prelude::*;
use vstd::string::StringExecFns;
use crate::text::str_eq;

verus! {

/// The banner line for a build.
pub open spec fn banner_text(
    version: Seq<char>,
    build_date: Seq<char>,
    build_time: Seq<char>,
    git_dirty: Seq<char>,
    git_commit_short: Seq<char>,
) -> Seq<char> {
    let commit = if git_dirty == "false"@ {
        git_commit_short
    } else {
        "SNAPSHOT"@
    };
    "Samply.Spot v"@ + version + " (built "@ + build_date + " "@ + build_time + ", "@ + commit
        + ") ready to take requests."@
}

/// The banner line, ready to be logged by the caller.
pub fn print_banner(
    version: &str,
    build_date: &str,
    build_time: &str,
    git_dirty: &str,
    git_commit_short: &str,
) -> (r: String)
    ensures
        r@ == banner_text(version@, build_date@, build_time@, git_dirty@, git_commit_short@),
{
    let commit: &str = if str_eq(git_dirty, "false") {
        git_commit_short
    } else {
        "SNAPSHOT"
    };
    let mut s: String = "Samply.Spot v".to_owned();
    s.append(version);
    s.append(" (built ");
    s.append(build_date);
    s.append(" ");
    s.append(build_time);
    s.append(", ");
    s.append(commit);
    s.append(") ready to take requests.");
    s
}

} // verus!

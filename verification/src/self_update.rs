//! Where the application updates itself from: its repository on GitHub and
//! the command that reinstalls it.
use crate::strings::append_str;
use vstd::prelude::*;

verus! {

/// The GitHub account that publishes the application.
pub const REPO_OWNER: &'static str = "cat2151";

/// The application's repository.
pub const REPO_NAME: &'static str = "own-repos-curator";

/// The branch that updates are checked against.
pub const MAIN_BRANCH: &'static str = "main";

/// The binaries that the updater starts again after reinstalling.
pub const BIN_NAMES: [&'static str; 1] = ["repocurator"];

/// The commit reported when the build recorded none.
pub const BUILD_COMMIT_HASH: &'static str = "unknown";

/// The commit reported when the build recorded none.
pub fn build_commit_hash() -> (r: &'static str)
    ensures
        r@ == BUILD_COMMIT_HASH@,
{
    BUILD_COMMIT_HASH
}

/// `owner/repo` of the application's repository.
pub open spec fn owner_repo_spec() -> Seq<char> {
    REPO_OWNER@ + "/"@ + REPO_NAME@
}

/// `owner/repo` of the application's repository.
pub fn owner_repo() -> (r: String)
    ensures
        r@ == owner_repo_spec(),
{
    let mut s = REPO_OWNER.to_owned();
    append_str(&mut s, "/");
    append_str(&mut s, REPO_NAME);
    s
}

/// The URL of the application's repository.
pub open spec fn git_url_spec() -> Seq<char> {
    "https://github.com/"@ + owner_repo_spec()
}

/// The URL of the application's repository.
pub fn git_url() -> (r: String)
    ensures
        r@ == git_url_spec(),
{
    let mut s = "https://github.com/".to_owned();
    append_str(&mut s, owner_repo().as_str());
    s
}

/// The command that reinstalls the application from its repository.
pub fn install_cmd() -> (r: String)
    ensures
        r@ == "cargo install --force --git "@ + git_url_spec(),
{
    let mut s = "cargo install --force --git ".to_owned();
    append_str(&mut s, git_url().as_str());
    s
}

} // verus!

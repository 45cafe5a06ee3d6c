//! The version-control bridge: clone, pull and hash-of-latest-commit over a
//! repository working copy, backed by the libgit2 bindings. The fetch and
//! ref plumbing stands behind trusted wrappers; the merge-strategy decision
//! procedure is verified.

use vstd::prelude::*;
use crate::errors::GixorError;
use crate::errors::Result;
use crate::repos::Boilerplate;
use crate::strutil::concat2;
use crate::strutil::concat3;
use crate::strutil::starts_with;
use crate::strutil::str_starts_with;
use vstd::string::StrSliceExecFns;
use git2::Repository as GitWorkingCopy;

verus! {

#[verifier::external_type_specification]
#[verifier::external_body]
pub struct ExGitRepository(GitWorkingCopy);

/// Relies on git2::Repository::open: opens the repository at the path, or
/// reports the failure's message. What is on disk decides the outcome.
#[verifier::external_body]
fn git_open(path: &String) -> core::result::Result<git2::Repository, String> {
    git2::Repository::open(path.as_str()).map_err(|e| e.message().to_string())
}

/// Relies on git2::Repository::find_remote and git2::Remote::fetch: fetches
/// from the named remote with its configured refspecs, which advances the
/// remote-tracking refs. The network decides the outcome.
#[verifier::external_body]
fn do_fetch(repo: &git2::Repository, remote: &str) -> core::result::Result<(), String> {
    let no_refspecs: [&str; 0] = [];
    match repo.find_remote(remote) {
        Err(e) => Err(e.message().to_string()),
        Ok(mut r) => r.fetch(&no_refspecs, None, None).map_err(|e| e.message().to_string()),
    }
}

/// Relies on git2::Repository::refname_to_id and git2::Oid::as_bytes: the
/// commit id a reference points to, as its 20 raw bytes.
#[verifier::external_body]
fn git_ref_id(repo: &git2::Repository, refname: &str) -> (r: core::result::Result<
    Vec<u8>,
    String,
>)
    ensures
        r matches Ok(v) ==> v@.len() == 20,
{
    repo.refname_to_id(refname).map(|o| o.as_bytes().to_vec()).map_err(
        |e| e.message().to_string(),
    )
}

/// Relies on git2::Repository::merge_base and git2::Oid::from_bytes: the
/// most recent common ancestor of the two commits, as its 20 raw bytes.
#[verifier::external_body]
fn git_merge_base(repo: &git2::Repository, a: &Vec<u8>, b: &Vec<u8>) -> (r: core::result::Result<
    Vec<u8>,
    String,
>)
    ensures
        r matches Ok(v) ==> v@.len() == 20,
{
    let one = git2::Oid::from_bytes(a.as_slice()).map_err(|e| e.message().to_string())?;
    let two = git2::Oid::from_bytes(b.as_slice()).map_err(|e| e.message().to_string())?;
    repo.merge_base(one, two).map(|o| o.as_bytes().to_vec()).map_err(
        |e| e.message().to_string(),
    )
}

/// Relies on git2::Repository::find_reference, git2::Reference::set_target,
/// git2::Repository::set_head and git2::Repository::checkout_head: moves the
/// named reference to the given commit and force-checks-out the working
/// tree.
#[verifier::external_body]
fn git_set_ref(
    repo: &git2::Repository,
    refname: &str,
    target: &Vec<u8>,
    logmsg: &str,
) -> core::result::Result<(), String> {
    let oid = git2::Oid::from_bytes(target.as_slice()).map_err(|e| e.message().to_string())?;
    let mut r = repo.find_reference(refname).map_err(|e| e.message().to_string())?;
    r.set_target(oid, logmsg).map_err(|e| e.message().to_string())?;
    repo.set_head(refname).map_err(|e| e.message().to_string())?;
    repo.checkout_head(Some(git2::build::CheckoutBuilder::default().force())).map_err(
        |e| e.message().to_string(),
    )
}

/// Relies on git2::Repository::clone: clones over HTTPS (or any transport
/// the URL selects) into the destination.
#[verifier::external_body]
fn git_clone_plain(url: &str, path: &String) -> core::result::Result<(), String> {
    match git2::Repository::clone(url, path.as_str()) {
        Ok(_) => Ok(()),
        Err(e) => Err(e.message().to_string()),
    }
}

/// Relies on git2::build::RepoBuilder, git2::RemoteCallbacks::credentials
/// and git2::Cred::ssh_key: clones over SSH, presenting the private key at
/// the given path.
#[verifier::external_body]
fn git_clone_ssh(url: &str, path: &String, key_path: &String) -> core::result::Result<(), String> {
    let key = std::path::PathBuf::from(key_path.as_str());
    let mut callbacks = git2::RemoteCallbacks::new();
    callbacks.credentials(move |_url, username_from_url, _allowed| {
        git2::Cred::ssh_key(username_from_url.unwrap_or("git"), None, key.as_path(), None)
    });
    let mut fo = git2::FetchOptions::new();
    fo.remote_callbacks(callbacks);
    let mut builder = git2::build::RepoBuilder::new();
    builder.fetch_options(fo);
    match builder.clone(url, std::path::Path::new(path.as_str())) {
        Ok(_) => Ok(()),
        Err(e) => Err(e.message().to_string()),
    }
}

/// Relies on git2::Repository::head, git2::Reference::peel_to_commit and
/// git2::Commit::id: the 20 raw bytes of the commit at HEAD.
#[verifier::external_body]
fn git_head_commit_id(repo: &git2::Repository) -> (r: core::result::Result<Vec<u8>, String>)
    ensures
        r matches Ok(v) ==> v@.len() == 20,
{
    let head = repo.head().map_err(|e| e.message().to_string())?;
    let commit = head.peel_to_commit().map_err(|e| e.message().to_string())?;
    Ok(commit.id().as_bytes().to_vec())
}

/// How a local branch is brought up to date with its remote-tracking
/// branch.
#[derive(Debug, Clone, Copy, PartialEq, Eq, Structural)]
pub enum Strategy {
    /// The local and remote commits agree: nothing to do.
    NoNeed,
    /// The local commit is an ancestor of the remote one: move the ref.
    FastForward,
    /// The histories diverge: a true merge, which is not supported.
    Merge,
}

/// The view of an optional byte vector.
pub open spec fn opt_bytes_view(o: Option<Vec<u8>>) -> Option<Seq<u8>> {
    match o {
        Some(v) => Some(v@),
        None => None,
    }
}

/// The synchronization decision: nothing when local and remote agree, a
/// fast-forward when the merge base is the local commit, and a true merge
/// otherwise.
pub open spec fn strategy_of(local: Seq<u8>, remote: Seq<u8>, mb: Option<Seq<u8>>) -> Strategy {
    if local == remote {
        Strategy::NoNeed
    } else if mb == Some(local) {
        Strategy::FastForward
    } else {
        Strategy::Merge
    }
}

/// Byte-wise equality of two byte vectors.
fn bytes_eq(a: &Vec<u8>, b: &Vec<u8>) -> (r: bool)
    ensures
        r == (a@ == b@),
{
    if a.len() != b.len() {
        proof {
            assert(a@ != b@) by {
                if a@ == b@ {
                    assert(a@.len() == b@.len());
                }
            }
        }
        return false;
    }
    let n = a.len();
    let mut i: usize = 0;
    while i < n
        invariant
            n == a@.len(),
            n == b@.len(),
            i <= n,
            forall|j: int| 0 <= j < i ==> a@[j] == b@[j],
        decreases n - i,
    {
        if a[i] != b[i] {
            return false;
        }
        i = i + 1;
    }
    proof {
        assert(a@ =~= b@);
    }
    true
}

/// Whether the local commit can be fast-forwarded to the remote one: the
/// merge base, where one was found, is the local commit itself.
pub fn can_fast_forward(merge_base: &Option<Vec<u8>>, local: &Vec<u8>) -> (r: bool)
    ensures
        r == (match merge_base {
            Some(mb) => mb@ == local@,
            None => false,
        }),
{
    match merge_base {
        Some(mb) => bytes_eq(mb, local),
        None => false,
    }
}

/// Decides how to synchronize, from the local and remote-tracking commit
/// ids and their merge base.
pub fn find_merge_strategy(local: &Vec<u8>, remote: &Vec<u8>, merge_base: &Option<Vec<u8>>) -> (r:
    Strategy)
    ensures
        r == strategy_of(local@, remote@, opt_bytes_view(*merge_base)),
{
    if bytes_eq(local, remote) {
        Strategy::NoNeed
    } else if can_fast_forward(merge_base, local) {
        Strategy::FastForward
    } else {
        Strategy::Merge
    }
}

/// The value the local branch ref is to take, decided from the local and
/// remote-tracking commit ids and their merge base: the local id stands
/// when the two agree, the remote id when the local commit is an ancestor
/// of it, and diverging histories are a reported error — never an attempted
/// merge — leaving the ref as it stands.
pub fn resolve_local_ref(local: &Vec<u8>, remote: &Vec<u8>, merge_base: &Option<Vec<u8>>) -> (r:
    Result<Vec<u8>>)
    ensures
        local@ == remote@ ==> (r matches Ok(v) && v@ == local@),
        local@ != remote@ && opt_bytes_view(*merge_base) == Some(local@) ==> (r matches Ok(v)
            && v@ == remote@),
        local@ != remote@ && opt_bytes_view(*merge_base) != Some(local@) ==> (r matches Err(e)
            && e matches GixorError::Git(m) && m@ == "Merge commit is not supported yet"@),
{
    let strategy = find_merge_strategy(local, remote, merge_base);
    match strategy {
        Strategy::NoNeed => {
            let mut v: Vec<u8> = Vec::new();
            v.extend_from_slice(local.as_slice());
            proof {
                assert(v@ =~= local@);
            }
            Ok(v)
        },
        Strategy::FastForward => {
            let mut v: Vec<u8> = Vec::new();
            v.extend_from_slice(remote.as_slice());
            proof {
                assert(v@ =~= remote@);
            }
            Ok(v)
        },
        Strategy::Merge => Err(GixorError::Git("Merge commit is not supported yet".to_owned())),
    }
}

/// The text with every copy of the prefix removed from its front.
pub open spec fn trim_all_prefix(s: Seq<char>, p: Seq<char>) -> Seq<char>
    decreases s.len(),
{
    if p.len() > 0 && starts_with(s, p) && s.len() >= p.len() {
        trim_all_prefix(s.skip(p.len() as int), p)
    } else {
        s
    }
}

/// Removes every leading copy of `prefix` from `s`.
fn strip_all_prefix(s: &str, prefix: &str) -> (r: String)
    requires
        prefix@.len() > 0,
    ensures
        r@ == trim_all_prefix(s@, prefix@),
    decreases s@.len(),
{
    let n = s.unicode_len();
    let pn = prefix.unicode_len();
    if str_starts_with(s, prefix) {
        let rest = s.substring_char(pn, n);
        proof {
            assert(rest@ =~= s@.skip(prefix@.len() as int));
        }
        strip_all_prefix(rest, prefix)
    } else {
        s.to_owned()
    }
}

/// The local branch ref name of a branch: `refs/heads/` put before the bare
/// branch name.
fn local_ref_name(branch: &str) -> (r: String)
    ensures
        r@ == "refs/heads/"@ + trim_all_prefix(branch@, "refs/heads/"@),
{
    proof {
        reveal_strlit("refs/heads/");
    }
    let bare = strip_all_prefix(branch, "refs/heads/");
    concat2("refs/heads/", bare.as_str())
}

/// Moves the local branch ref to the given commit and force-checks-out the
/// working tree.
fn fast_forward(repo: &git2::Repository, branch: &str, target: &Vec<u8>) -> (r: Result<()>)
    ensures
        r matches Err(e) ==> e is Git,
{
    let refname = local_ref_name(branch);
    match git_set_ref(repo, refname.as_str(), target, "Fast-forward") {
        Ok(_) => Ok(()),
        Err(m) => Err(GixorError::Git(crate::errors::prefixed(
            "Failed to fast-forward local branch: ",
            &m,
        ))),
    }
}

/// Brings the local branch up to date with its remote-tracking branch,
/// following the merge-strategy decision: nothing when the commits agree, a
/// fast-forward when the local commit is their merge base, and a reported
/// `Git` error — the ref untouched — when the histories diverge.
fn do_merge(repo: &git2::Repository, remote: &str, branch: &str) -> (r: Result<()>)
    ensures
        r matches Err(e) ==> e is Git,
{
    let tracking = concat_tracking_name(remote, branch);
    let local_name = local_ref_name(branch);
    let local_id = match git_ref_id(repo, local_name.as_str()) {
        Ok(v) => v,
        Err(m) => {
            return Err(GixorError::Git(crate::errors::prefixed(
                "Failed to find local branch: ",
                &m,
            )));
        },
    };
    let remote_id = match git_ref_id(repo, tracking.as_str()) {
        Ok(v) => v,
        Err(m) => {
            return Err(GixorError::Git(crate::errors::prefixed(
                "Failed to find remote tracking branch: ",
                &m,
            )));
        },
    };
    let merge_base = match git_merge_base(repo, &local_id, &remote_id) {
        Ok(v) => Some(v),
        Err(_) => None,
    };
    match find_merge_strategy(&local_id, &remote_id, &merge_base) {
        Strategy::NoNeed => Ok(()),
        Strategy::FastForward => fast_forward(repo, branch, &remote_id),
        Strategy::Merge => Err(GixorError::Git("Merge commit is not supported yet".to_owned())),
    }
}

/// The remote-tracking ref name of a branch under a remote.
fn concat_tracking_name(remote: &str, branch: &str) -> (r: String)
    ensures
        r@ == "refs/remotes/"@ + remote@ + seq!['/'] + branch@,
{
    proof {
        reveal_strlit("/");
        assert("/"@ =~= seq!['/']);
    }
    let a = concat3("refs/remotes/", remote, "/");
    let r = concat2(a.as_str(), branch);
    proof {
        assert(r@ =~= "refs/remotes/"@ + remote@ + seq!['/'] + branch@);
    }
    r
}

/// Fetches the branch from the remote and brings the local branch up to
/// date, fast-forward only: diverging histories are a reported error.
pub fn pull(repository_path: &String, remote_name: &str, branch_name: &str) -> (r: Result<()>)
    ensures
        r matches Err(e) ==> e is Git,
{
    let repo = match git_open(repository_path) {
        Ok(repo) => repo,
        Err(m) => {
            return Err(GixorError::Git(crate::errors::prefixed(
                "Failed to open repository: ",
                &m,
            )));
        },
    };
    match do_fetch(&repo, remote_name) {
        Ok(_) => do_merge(&repo, remote_name, branch_name),
        Err(m) => Err(GixorError::Git(m)),
    }
}

/// Clones the repository at the URL into the destination. HTTPS URLs clone
/// directly; SSH URLs present the private key found for them, and are
/// refused when none was; any other protocol is refused. On a supported
/// protocol with what it needs, only the backend can refuse, with a `Git`
/// error.
pub fn clone(url: &str, dest_path: &String, ssh_key: Option<&String>) -> (r: Result<()>)
    ensures
        !starts_with(url@, "https://"@) && !starts_with(url@, "ssh://"@) && !starts_with(
            url@,
            "git@"@,
        ) ==> (r matches Err(e) && e matches GixorError::Fatal(m) && m@ == url@
            + ": Unsupported protocol"@),
        (starts_with(url@, "ssh://"@) || starts_with(url@, "git@"@)) && ssh_key is None ==> (
        r matches Err(e) && e matches GixorError::Fatal(m) && m@ == "No private key found"@),
        starts_with(url@, "https://"@) ==> (r is Ok || (r matches Err(e) && e is Git)),
        (starts_with(url@, "ssh://"@) || starts_with(url@, "git@"@)) && ssh_key is Some ==> (
        r is Ok || (r matches Err(e) && e is Git)),
        r matches Err(e) ==> (e is Git || e is Fatal),
{
    proof {
        reveal_strlit("https://");
        reveal_strlit("ssh://");
        reveal_strlit("git@");
        assert(starts_with(url@, "https://"@) ==> !starts_with(url@, "ssh://"@)
            && !starts_with(url@, "git@"@)) by {
            if starts_with(url@, "https://"@) {
                assert(url@.subrange(0, "https://"@.len() as int)[0] == url@[0]);
                assert(url@[0] == 'h');
                if starts_with(url@, "ssh://"@) {
                    assert(url@.subrange(0, "ssh://"@.len() as int)[0] == url@[0]);
                }
                if starts_with(url@, "git@"@) {
                    assert(url@.subrange(0, "git@"@.len() as int)[0] == url@[0]);
                }
            }
        }
    }
    if str_starts_with(url, "https://") {
        match git_clone_plain(url, dest_path) {
            Ok(_) => Ok(()),
            Err(m) => Err(GixorError::Git(m)),
        }
    } else if str_starts_with(url, "ssh://") || str_starts_with(url, "git@") {
        match ssh_key {
            Some(key) => match git_clone_ssh(url, dest_path, key) {
                Ok(_) => Ok(()),
                Err(m) => Err(GixorError::Git(m)),
            },
            None => Err(GixorError::Fatal("No private key found".to_owned())),
        }
    } else {
        let m = crate::errors::suffixed_str(url, ": Unsupported protocol");
        Err(GixorError::Fatal(m))
    }
}

/// The hash of the latest commit of the repository holding the given
/// boilerplate: the 20 raw bytes of the commit at HEAD of its clone.
pub fn hash(boilerplate: &Boilerplate, base_path: &String) -> (r: Result<Vec<u8>>)
    ensures
        r matches Ok(v) ==> v@.len() == 20,
        r matches Err(e) ==> e is Git,
{
    let path = boilerplate.repo.path(base_path.as_str());
    let repo = match git_open(&path) {
        Ok(repo) => repo,
        Err(_) => {
            let m = crate::errors::suffixed_str(
                path.as_str(),
                ": Failed to open the repository",
            );
            return Err(GixorError::Git(m));
        },
    };
    match git_head_commit_id(&repo) {
        Ok(v) => Ok(v),
        Err(_) => Err(GixorError::Git("Failed to get the HEAD".to_owned())),
    }
}

/// The decision procedure of the merge-strategy resolver, stated whole:
/// equal commits call for no action and the ref keeps the local id; a local
/// commit that is the merge base calls for a fast-forward that moves the
/// ref to the remote id; anything else is a diverging history, reported as
/// unsupported with the ref unchanged.
pub proof fn lemma_merge_strategy(local: Seq<u8>, remote: Seq<u8>, mb: Option<Seq<u8>>)
    ensures
        local == remote ==> strategy_of(local, remote, mb) == Strategy::NoNeed,
        local != remote && mb == Some(local) ==> strategy_of(local, remote, mb)
            == Strategy::FastForward,
        local != remote && mb != Some(local) ==> strategy_of(local, remote, mb)
            == Strategy::Merge,
{
}

} // verus!

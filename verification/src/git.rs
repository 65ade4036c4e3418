//! Git operations: how a project's working copy is brought up to date, as
//! the git commands to run in turn, and what their results mean.

use vstd::prelude::*;
use vstd::string::*;
use crate::error::{is_git_error, AppError, AppResult};
use crate::installer::ProcessOutput;
use crate::text::{chars_of, string_from_chars, strings_view, trim_bounds, trim_ws};

verus! {

/// An entry name that the emptiness check passes over: a hidden file,
/// `.deploy.yaml` among them.
pub open spec fn is_hidden_name(name: Seq<char>) -> bool {
    name.len() > 0 && name[0] == '.'
}

/// A directory counts as empty when it does not exist or holds nothing but
/// hidden entries.
pub open spec fn directory_empty_spec(present: bool, names: Seq<Seq<char>>) -> bool {
    !present || forall|i: int| 0 <= i < names.len() ==> is_hidden_name(#[trigger] names[i])
}

/// Check if a directory is empty (contains no files except .deploy.yaml),
/// given whether it exists and the names of its entries.
pub fn is_directory_empty(present: bool, entry_names: &Vec<String>) -> (r: bool)
    ensures
        r == directory_empty_spec(present, strings_view(entry_names@)),
{
    if !present {
        return true;
    }
    let ghost names = strings_view(entry_names@);
    let mut i: usize = 0;
    while i < entry_names.len()
        invariant
            present,
            i <= entry_names@.len(),
            names == strings_view(entry_names@),
            forall|j: int| 0 <= j < i ==> is_hidden_name(#[trigger] names[j]),
        decreases entry_names@.len() - i,
    {
        let cs = chars_of(entry_names[i].as_str());
        if cs.len() == 0 || cs[0] != '.' {
            assert(names[i as int] == cs@);
            assert(!is_hidden_name(names[i as int]));
            return false;
        }
        i = i + 1;
    }
    true
}

/// How a working copy is brought up to date.
#[derive(Debug, Clone, Copy, PartialEq, Eq, Structural)]
pub enum PullAction {
    /// The directory does not exist: clone into a new directory.
    CloneNew,
    /// The directory exists but is empty: clone into it, keeping
    /// `.deploy.yaml` aside meanwhile.
    CloneIntoEmpty,
    /// The directory holds a working copy: fetch, check out, pull.
    Update,
}

/// The action for a target directory.
pub open spec fn pull_action_spec(present: bool, empty: bool) -> PullAction {
    if !present {
        PullAction::CloneNew
    } else if empty {
        PullAction::CloneIntoEmpty
    } else {
        PullAction::Update
    }
}

/// Decides how the working copy is brought up to date.
pub fn pull_action(present: bool, empty: bool) -> (a: PullAction)
    ensures
        a == pull_action_spec(present, empty),
{
    if !present {
        PullAction::CloneNew
    } else if empty {
        PullAction::CloneIntoEmpty
    } else {
        PullAction::Update
    }
}

/// One git run: the subcommand that names it in messages, its arguments,
/// and whether it runs inside the target directory.
#[derive(Debug, Clone)]
pub struct GitCommand {
    pub verb: String,
    pub args: Vec<String>,
    pub in_target: bool,
}

/// A git run, with its texts as character sequences.
pub struct GitCommandView {
    pub verb: Seq<char>,
    pub args: Seq<Seq<char>>,
    pub in_target: bool,
}

impl GitCommand {
    pub open spec fn view(self) -> GitCommandView {
        GitCommandView { verb: self.verb@, args: strings_view(self.args@), in_target: self.in_target }
    }
}

/// The git runs of an action, in order; the first that fails ends it.
pub open spec fn pull_commands_spec(
    action: PullAction,
    repo_url: Seq<char>,
    branch: Seq<char>,
    target: Seq<char>,
) -> Seq<GitCommandView> {
    match action {
        PullAction::CloneNew => seq![
            GitCommandView {
                verb: "clone"@,
                args: seq!["clone"@, "--branch"@, branch, "--depth"@, "1"@, repo_url, target],
                in_target: false,
            },
        ],
        PullAction::CloneIntoEmpty => seq![
            GitCommandView {
                verb: "clone"@,
                args: seq!["clone"@, "--branch"@, branch, "--depth"@, "1"@, "--"@, repo_url, "."@],
                in_target: true,
            },
        ],
        PullAction::Update => seq![
            GitCommandView { verb: "fetch"@, args: seq!["fetch"@, "origin"@, branch], in_target: true },
            GitCommandView {
                verb: "checkout"@,
                args: seq!["checkout"@, "-f"@, "origin/"@ + branch],
                in_target: true,
            },
            GitCommandView { verb: "pull"@, args: seq!["pull"@, "origin"@], in_target: true },
        ],
    }
}

fn strings(items: &[&str]) -> (v: Vec<String>)
    ensures
        v@.len() == items@.len(),
        forall|i: int| 0 <= i < items@.len() ==> (#[trigger] v@[i])@ == items@[i]@,
{
    let mut v: Vec<String> = Vec::new();
    let mut i: usize = 0;
    while i < items.len()
        invariant
            i <= items@.len(),
            v@.len() == i,
            forall|j: int| 0 <= j < i ==> (#[trigger] v@[j])@ == items@[j]@,
        decreases items@.len() - i,
    {
        v.push(String::from_str(items[i]));
        i = i + 1;
    }
    v
}

fn git_command(verb: &str, items: &[&str], in_target: bool) -> (c: GitCommand)
    ensures
        c.verb@ == verb@,
        c.in_target == in_target,
        c.args@.len() == items@.len(),
        forall|i: int| 0 <= i < items@.len() ==> (#[trigger] c.args@[i])@ == items@[i]@,
{
    GitCommand { verb: String::from_str(verb), args: strings(items), in_target }
}

/// The git runs that bring the working copy at `target` up to date.
pub fn pull_commands(action: PullAction, repo_url: &str, branch: &str, target: &str) -> (r: Vec<
    GitCommand,
>)
    ensures
        r@.map_values(|c: GitCommand| c.view()) == pull_commands_spec(
            action,
            repo_url@,
            branch@,
            target@,
        ),
{
    let mut r: Vec<GitCommand> = Vec::new();
    match action {
        PullAction::CloneNew => {
            let c = git_command(
                "clone",
                &["clone", "--branch", branch, "--depth", "1", repo_url, target],
                false,
            );
            assert(c.view().args =~= seq!["clone"@, "--branch"@, branch@, "--depth"@, "1"@, repo_url@, target@]);
            r.push(c);
        },
        PullAction::CloneIntoEmpty => {
            let c = git_command(
                "clone",
                &["clone", "--branch", branch, "--depth", "1", "--", repo_url, "."],
                true,
            );
            assert(c.view().args =~= seq!["clone"@, "--branch"@, branch@, "--depth"@, "1"@, "--"@, repo_url@, "."@]);
            r.push(c);
        },
        PullAction::Update => {
            let c1 = git_command("fetch", &["fetch", "origin", branch], true);
            assert(c1.view().args =~= seq!["fetch"@, "origin"@, branch@]);
            let mut remote = String::from_str("origin/");
            remote.append(branch);
            let c2 = git_command("checkout", &["checkout", "-f", remote.as_str()], true);
            assert(c2.view().args =~= seq!["checkout"@, "-f"@, "origin/"@ + branch@]);
            let c3 = git_command("pull", &["pull", "origin"], true);
            assert(c3.view().args =~= seq!["pull"@, "origin"@]);
            r.push(c1);
            r.push(c2);
            r.push(c3);
        },
    }
    assert(r@.map_values(|c: GitCommand| c.view()) =~= pull_commands_spec(
        action,
        repo_url@,
        branch@,
        target@,
    ));
    r
}

/// The run that checks out a branch, tag or commit.
pub fn checkout_ref_command(ref_name: &str) -> (c: GitCommand)
    ensures
        c.view() == (GitCommandView {
            verb: "checkout"@,
            args: seq!["checkout"@, "-f"@, ref_name@],
            in_target: true,
        }),
{
    let c = git_command("checkout", &["checkout", "-f", ref_name], true);
    assert(c.view().args =~= seq!["checkout"@, "-f"@, ref_name@]);
    c
}

/// The run that reads the hash of the checked-out commit.
pub fn latest_commit_command() -> (c: GitCommand)
    ensures
        c.view() == (GitCommandView {
            verb: "rev-parse"@,
            args: seq!["rev-parse"@, "HEAD"@],
            in_target: true,
        }),
{
    let c = git_command("rev-parse", &["rev-parse", "HEAD"], true);
    assert(c.view().args =~= seq!["rev-parse"@, "HEAD"@]);
    c
}

/// What a finished git run means: success, or a git error that names the
/// subcommand and carries its standard error.
pub fn git_step_result(verb: &str, output: &ProcessOutput) -> (r: AppResult<()>)
    ensures
        output.success <==> r is Ok,
        !output.success ==> is_git_error(r, "Git "@ + verb@ + " failed: "@ + output.stderr@),
{
    if output.success {
        Ok(())
    } else {
        let mut m = String::from_str("Git ");
        m.append(verb);
        m.append(" failed: ");
        m.append(output.stderr.as_str());
        Err(AppError::Git(m))
    }
}

/// The error of a git run that could not be started.
pub fn git_spawn_error(verb: &str, detail: &str) -> (e: AppError)
    ensures
        match e {
            AppError::Git(m) => m@ == "Failed to run git "@ + verb@ + ": "@ + detail@,
            _ => false,
        },
{
    let mut m = String::from_str("Failed to run git ");
    m.append(verb);
    m.append(": ");
    m.append(detail);
    AppError::Git(m)
}

/// The hash a finished `rev-parse` gives: its output without surrounding
/// white space.
pub fn commit_hash(output: &ProcessOutput) -> (r: AppResult<String>)
    ensures
        output.success <==> r is Ok,
        output.success ==> (match r {
            Ok(h) => h@ == trim_ws(output.stdout@),
            Err(_) => false,
        }),
        !output.success ==> is_git_error(r, "Git rev-parse failed: "@ + output.stderr@),
{
    match git_step_result("rev-parse", output) {
        Ok(()) => {},
        Err(e) => {
            proof {
                reveal_strlit("Git ");
                reveal_strlit("rev-parse");
                reveal_strlit(" failed: ");
                reveal_strlit("Git rev-parse failed: ");
                assert("Git "@ + "rev-parse"@ + " failed: "@ =~= "Git rev-parse failed: "@);
            }
            return Err(e);
        },
    }
    let cs = chars_of(output.stdout.as_str());
    let (a, b) = trim_bounds(cs.as_slice());
    Ok(string_from_chars(&cs.as_slice()[a..b]))
}

/// The `GIT_SSH_COMMAND` that makes git use a given key.
pub fn ssh_command(key_path: &str) -> (s: String)
    ensures
        s@ == "ssh -i "@ + key_path@ + " -o StrictHostKeyChecking=no"@,
{
    let mut s = String::from_str("ssh -i ");
    s.append(key_path);
    s.append(" -o StrictHostKeyChecking=no");
    s
}

} // verus!

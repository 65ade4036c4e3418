use deploy_bot::git::{
    checkout_ref_command, commit_hash, git_spawn_error, git_step_result, is_directory_empty,
    latest_commit_command, pull_action, pull_commands, ssh_command, PullAction,
};
use deploy_bot::installer::ProcessOutput;

fn out(success: bool, stdout: &str, stderr: &str) -> ProcessOutput {
    ProcessOutput { success, stdout: stdout.to_string(), stderr: stderr.to_string() }
}

#[test]
fn test_is_directory_empty_nonexistent_dir() {
    let result = is_directory_empty(false, &vec![]);
    assert!(result);
}

#[test]
fn test_is_directory_empty_with_deploy_yaml() {
    let result = is_directory_empty(true, &vec![".deploy.yaml".to_string()]);
    assert!(result);
}

#[test]
fn test_is_directory_empty_with_other_files() {
    let result = is_directory_empty(true, &vec!["test.txt".to_string()]);
    assert!(!result);
}

#[test]
fn test_is_directory_empty_with_hidden_files() {
    let result = is_directory_empty(true, &vec![".gitignore".to_string()]);
    assert!(result);
}

#[test]
fn directory_with_mixed_entries_is_not_empty() {
    assert!(!is_directory_empty(true, &vec![".git".to_string(), "src".to_string()]));
    assert!(is_directory_empty(true, &vec![]));
}

#[test]
fn pull_actions() {
    assert_eq!(pull_action(false, true), PullAction::CloneNew);
    assert_eq!(pull_action(true, true), PullAction::CloneIntoEmpty);
    assert_eq!(pull_action(true, false), PullAction::Update);
}

#[test]
fn pull_command_lists() {
    let url = "https://github.com/o/r.git";
    let c = pull_commands(PullAction::CloneNew, url, "main", "/ws/p");
    assert_eq!(c.len(), 1);
    assert_eq!(c[0].args, vec!["clone", "--branch", "main", "--depth", "1", url, "/ws/p"]);
    assert!(!c[0].in_target);
    let c = pull_commands(PullAction::CloneIntoEmpty, url, "dev", "/ws/p");
    assert_eq!(c[0].args, vec!["clone", "--branch", "dev", "--depth", "1", "--", url, "."]);
    assert!(c[0].in_target);
    let c = pull_commands(PullAction::Update, url, "main", "/ws/p");
    let verbs: Vec<&str> = c.iter().map(|x| x.verb.as_str()).collect();
    assert_eq!(verbs, vec!["fetch", "checkout", "pull"]);
    assert_eq!(c[0].args, vec!["fetch", "origin", "main"]);
    assert_eq!(c[1].args, vec!["checkout", "-f", "origin/main"]);
    assert_eq!(c[2].args, vec!["pull", "origin"]);
}

#[test]
fn other_git_commands() {
    assert_eq!(checkout_ref_command("v1.0").args, vec!["checkout", "-f", "v1.0"]);
    assert_eq!(latest_commit_command().args, vec!["rev-parse", "HEAD"]);
    assert_eq!(ssh_command("/k/id"), "ssh -i /k/id -o StrictHostKeyChecking=no");
}

#[test]
fn git_results() {
    assert!(git_step_result("clone", &out(true, "", "")).is_ok());
    assert_eq!(
        git_step_result("fetch", &out(false, "", "fatal: no remote")).unwrap_err().to_string(),
        "Git error: Git fetch failed: fatal: no remote"
    );
    assert_eq!(
        git_spawn_error("clone", "No such file").to_string(),
        "Git error: Failed to run git clone: No such file"
    );
    assert_eq!(commit_hash(&out(true, "  abc123\n", "")).unwrap(), "abc123");
    assert_eq!(
        commit_hash(&out(false, "", "not a repo")).unwrap_err().to_string(),
        "Git error: Git rev-parse failed: not a repo"
    );
}

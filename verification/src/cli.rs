//! Command-line interface: the commands, the database location, and the
//! decisions and reports of the maintenance commands.

use vstd::prelude::*;
use vstd::string::*;
use crate::self_update::{is_newer_version, parse_version_spec, version_gt, Version};
use crate::text::{join_path, path_join, strings_view};

verus! {

/// CLI arguments for deploy-bot
#[derive(Debug, Clone)]
pub struct Cli {
    pub command: Option<Command>,
}

/// Available commands
#[derive(Debug, Clone, Copy, PartialEq, Eq, Structural)]
pub enum Command {
    /// Run database migrations
    Migrate,
    /// Show database migration status
    MigrateStatus,
    /// Start the HTTP server (default)
    Server,
    /// Replay the last self-update; `force` skips the version check
    ReplayUpdate { force: bool },
}

impl Cli {
    /// Get the database path
    pub fn get_db_path() -> (p: String)
        ensures
            p@ == path_join("db"@, "deployments.db"@),
    {
        join_path("db", "deployments.db")
    }

    /// Whether the arguments start the server: they do when they name no
    /// command or name `server`.
    pub fn runs_server(&self) -> (r: bool)
        ensures
            r == (self.command is None || self.command == Some(Command::Server)),
    {
        match self.command {
            None => true,
            Some(Command::Server) => true,
            Some(_) => false,
        }
    }
}

/// The report of the applied migrations: a heading, then one line per
/// migration, or a line that says there is none.
pub open spec fn migration_report(names: Seq<Seq<char>>) -> Seq<Seq<char>> {
    if names.len() == 0 {
        seq!["Applied migrations:"@, "  (none)"@]
    } else {
        seq!["Applied migrations:"@] + names.map_values(|n: Seq<char>| "  - "@ + n)
    }
}

/// The lines that report the applied migrations.
pub fn migration_status_lines(names: &Vec<String>) -> (r: Vec<String>)
    ensures
        strings_view(r@) == migration_report(strings_view(names@)),
{
    let mut r: Vec<String> = Vec::new();
    r.push(String::from_str("Applied migrations:"));
    if names.len() == 0 {
        r.push(String::from_str("  (none)"));
        assert(strings_view(r@) =~= migration_report(strings_view(names@)));
        return r;
    }
    let ghost ns = strings_view(names@);
    let mut i: usize = 0;
    while i < names.len()
        invariant
            i <= names@.len(),
            ns == strings_view(names@),
            ns.len() > 0,
            strings_view(r@) == seq!["Applied migrations:"@] + ns.take(i as int).map_values(
                |n: Seq<char>| "  - "@ + n,
            ),
        decreases names@.len() - i,
    {
        let mut line = String::from_str("  - ");
        line.append(names[i].as_str());
        let ghost before = r@;
        r.push(line);
        assert(strings_view(r@) =~= strings_view(before).push("  - "@ + ns[i as int]));
        assert(ns.take(i + 1).map_values(|n: Seq<char>| "  - "@ + n) =~= ns.take(i as int).map_values(
            |n: Seq<char>| "  - "@ + n,
        ).push("  - "@ + ns[i as int]));
        i = i + 1;
    }
    assert(ns.take(names@.len() as int) =~= ns);
    r
}

/// What a replay of an update does about the version of the release: with
/// `force` it goes on without looking; otherwise it goes on only for a
/// newer version. The message to print, or the error that stops it.
pub open spec fn replay_check_spec(force: bool, tag: Seq<char>, current: Version) -> Result<
    Seq<char>,
    Seq<char>,
> {
    if force {
        Ok("Force mode: skipping version check"@)
    } else {
        match parse_version_spec(tag) {
            None => Err(
                "Failed to check version: Configuration error: Invalid new version format: "@ + tag,
            ),
            Some(new) => if version_gt(new, current) {
                Ok("Version "@ + tag + " is newer, proceeding with update"@)
            } else {
                Err(
                    "Current version is already up to date or newer than "@ + tag
                        + ". Use --force to replay anyway."@,
                )
            },
        }
    }
}

/// Checks the version of a replayed update against the running one.
pub fn replay_version_check(force: bool, tag: &str, current: &Version) -> (r: Result<String, String>)
    ensures
        match (r, replay_check_spec(force, tag@, *current)) {
            (Ok(a), Ok(b)) => a@ == b,
            (Err(a), Err(b)) => a@ == b,
            _ => false,
        },
{
    if force {
        return Ok(String::from_str("Force mode: skipping version check"));
    }
    match is_newer_version(tag, current) {
        Ok(true) => {
            let mut m = String::from_str("Version ");
            m.append(tag);
            m.append(" is newer, proceeding with update");
            Ok(m)
        },
        Ok(false) => {
            let mut m = String::from_str("Current version is already up to date or newer than ");
            m.append(tag);
            m.append(". Use --force to replay anyway.");
            Err(m)
        },
        Err(e) => {
            let t = e.to_string();
            let mut m = String::from_str("Failed to check version: ");
            m.append(t.as_str());
            proof {
                reveal_strlit("Failed to check version: ");
                reveal_strlit("Configuration error: ");
                reveal_strlit("Invalid new version format: ");
                reveal_strlit(
                    "Failed to check version: Configuration error: Invalid new version format: ",
                );
                assert("Failed to check version: "@ + "Configuration error: "@
                    + "Invalid new version format: "@
                    =~= "Failed to check version: Configuration error: Invalid new version format: "@);
            }
            Err(m)
        },
    }
}

} // verus!

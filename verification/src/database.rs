//! The stored form of deployments and their logs: the values written to a
//! deployment's row and how a row is read back.

use vstd::prelude::*;
use vstd::string::*;
use crate::config::{project_type_from_name, project_type_name, DockerComposePaths, ProjectType};
use crate::deploy::manager::{status_db_name, status_from_db_name, Deployment, DeploymentStatus};
use crate::project_config::{ProjectConfig, RestartService};

verus! {

/// The instant an RFC 3339 text names, in nanoseconds since the epoch;
/// `None` when the text is no RFC 3339 date-time or the instant does not
/// fit in `i64` nanoseconds.
pub uninterp spec fn rfc3339_nanos(text: Seq<char>) -> Option<i64>;

/// Reads an RFC 3339 date-time.
///
/// Trusted: `chrono::DateTime::parse_from_rfc3339` then
/// `timestamp_nanos_opt`. The result is named by `rfc3339_nanos`; which
/// texts parse to which instants is not stated.
#[verifier::external_body]
fn parse_rfc3339(text: &str) -> (r: Option<i64>)
    ensures
        r == rfc3339_nanos(text@),
{
    match chrono::DateTime::parse_from_rfc3339(text) {
        Ok(d) => d.timestamp_nanos_opt(),
        Err(_) => None,
    }
}

/// The RFC 3339 text of an instant given in nanoseconds since the epoch.
pub uninterp spec fn rfc3339_text(nanos: int) -> Seq<char>;

/// Writes an instant as RFC 3339.
///
/// Trusted: `chrono::DateTime::from_timestamp_nanos` then `to_rfc3339`.
/// The text is named by `rfc3339_text`; its characters are not stated.
#[verifier::external_body]
fn format_rfc3339(nanos: i64) -> (s: String)
    ensures
        s@ == rfc3339_text(nanos as int),
{
    chrono::DateTime::from_timestamp_nanos(nanos).to_rfc3339()
}

/// The columns of a deployment's row, as stored.
#[derive(Debug, Clone)]
pub struct DeploymentRecord {
    pub id: String,
    pub project_name: String,
    pub repo_url: String,
    pub branch: String,
    pub project_type: String,
    pub status: String,
    pub install_command: Option<String>,
    pub build_command: Option<String>,
    pub extra_command: Option<String>,
    pub docker_service: Option<String>,
    pub working_dir: Option<String>,
    pub created_at: String,
    pub started_at: Option<String>,
    pub finished_at: Option<String>,
}

/// An optional instant as its optional RFC 3339 text.
pub open spec fn opt_time_text(t: Option<i64>) -> Option<Seq<char>> {
    match t {
        Some(n) => Some(rfc3339_text(n as int)),
        None => None,
    }
}

/// An optional string, as a plain value.
pub open spec fn opt_text(s: Option<String>) -> Option<Seq<char>> {
    match s {
        Some(x) => Some(x@),
        None => None,
    }
}

fn time_text(t: Option<i64>) -> (r: Option<String>)
    ensures
        opt_text(r) == opt_time_text(t),
{
    match t {
        Some(n) => Some(format_rfc3339(n)),
        None => None,
    }
}

/// The row written for a deployment: its texts, the lowercase names of its
/// project type and status, and its times as RFC 3339.
pub fn to_record(d: &Deployment) -> (r: DeploymentRecord)
    ensures
        r.id@ == d.id@,
        r.project_name@ == d.project_name@,
        r.repo_url@ == d.project.repo_url@,
        r.branch@ == d.project.branch@,
        r.project_type@ == project_type_name(d.project.project_type),
        r.status@ == status_db_name(d.status),
        r.install_command == d.project.install_command,
        r.build_command == d.project.build_command,
        r.extra_command == d.project.extra_command,
        r.docker_service == d.project.docker_service,
        r.working_dir == d.project.working_dir,
        r.created_at@ == rfc3339_text(d.created_at as int),
        opt_text(r.started_at) == opt_time_text(d.started_at),
        opt_text(r.finished_at) == opt_time_text(d.finished_at),
{
    DeploymentRecord {
        id: d.id.clone(),
        project_name: d.project_name.clone(),
        repo_url: d.project.repo_url.clone(),
        branch: d.project.branch.clone(),
        project_type: d.project.project_type.to_string(),
        status: d.status.db_name(),
        install_command: d.project.install_command.clone(),
        build_command: d.project.build_command.clone(),
        extra_command: d.project.extra_command.clone(),
        docker_service: d.project.docker_service.clone(),
        working_dir: d.project.working_dir.clone(),
        created_at: format_rfc3339(d.created_at),
        started_at: time_text(d.started_at),
        finished_at: time_text(d.finished_at),
    }
}

/// The stored values of a status change: the status's lowercase name and
/// the times as RFC 3339.
pub fn status_columns(status: DeploymentStatus, started_at: Option<i64>, finished_at: Option<i64>) -> (r: (
    String,
    Option<String>,
    Option<String>,
))
    ensures
        r.0@ == status_db_name(status),
        opt_text(r.1) == opt_time_text(started_at),
        opt_text(r.2) == opt_time_text(finished_at),
{
    (status.db_name(), time_text(started_at), time_text(finished_at))
}

/// An optional stored time, read back: `None` when absent or unreadable.
pub open spec fn read_time(t: Option<String>) -> Option<i64> {
    match t {
        Some(s) => rfc3339_nanos(s@),
        None => None,
    }
}

fn read_time_exec(t: &Option<String>) -> (r: Option<i64>)
    ensures
        r == read_time(*t),
{
    match t {
        Some(s) => parse_rfc3339(s.as_str()),
        None => None,
    }
}

/// The deployment a stored row describes. An unknown project type reads as
/// custom and an unknown status as pending; an unreadable creation time is
/// replaced by `now`, unreadable start and finish times are dropped. The
/// row keeps no user, environment, restart services or compose files.
pub fn from_record(r: &DeploymentRecord, now: i64) -> (d: Deployment)
    ensures
        d.id@ == r.id@,
        d.project_name@ == r.project_name@,
        d.project.repo_url@ == r.repo_url@,
        d.project.branch@ == r.branch@,
        d.project.project_type == project_type_from_name(r.project_type@),
        d.status == status_from_db_name(r.status@),
        d.project.install_command == r.install_command,
        d.project.build_command == r.build_command,
        d.project.extra_command == r.extra_command,
        d.project.docker_service == r.docker_service,
        d.project.working_dir == r.working_dir,
        d.project.run_user is None,
        d.project.env@.len() == 0,
        d.project.restart_service is NotSet,
        d.project.docker_compose_path is NotSet,
        d.created_at == match rfc3339_nanos(r.created_at@) {
            Some(n) => n,
            None => now,
        },
        d.started_at == read_time(r.started_at),
        d.finished_at == read_time(r.finished_at),
{
    let project = ProjectConfig {
        repo_url: r.repo_url.clone(),
        branch: r.branch.clone(),
        project_type: ProjectType::from_name(r.project_type.as_str()),
        docker_service: r.docker_service.clone(),
        working_dir: r.working_dir.clone(),
        install_command: r.install_command.clone(),
        build_command: r.build_command.clone(),
        extra_command: r.extra_command.clone(),
        run_user: None,
        env: Vec::new(),
        restart_service: RestartService::NotSet,
        docker_compose_path: DockerComposePaths::NotSet,
    };
    let created_at = match parse_rfc3339(r.created_at.as_str()) {
        Some(n) => n,
        None => now,
    };
    Deployment {
        id: r.id.clone(),
        project_name: r.project_name.clone(),
        project,
        status: DeploymentStatus::from_db_name(r.status.as_str()),
        created_at,
        started_at: read_time_exec(&r.started_at),
        finished_at: read_time_exec(&r.finished_at),
    }
}

/// Deployment log entry; the timestamp is in nanoseconds since the epoch.
#[derive(Debug, Clone)]
pub struct DeploymentLog {
    pub id: i64,
    pub deployment_id: String,
    pub timestamp: i64,
    pub level: String,
    pub message: String,
}

/// A stored log row read back; an unreadable timestamp is replaced by
/// `now`.
pub fn log_from_row(
    id: i64,
    deployment_id: String,
    timestamp: &str,
    level: String,
    message: String,
    now: i64,
) -> (l: DeploymentLog)
    ensures
        l.id == id,
        l.deployment_id == deployment_id,
        l.level == level,
        l.message == message,
        l.timestamp == match rfc3339_nanos(timestamp@) {
            Some(n) => n,
            None => now,
        },
{
    let ts = match parse_rfc3339(timestamp) {
        Some(n) => n,
        None => now,
    };
    DeploymentLog { id, deployment_id, timestamp: ts, level, message }
}

/// The RFC 3339 text under which a log line is stored.
pub fn log_time_text(now: i64) -> (s: String)
    ensures
        s@ == rfc3339_text(now as int),
{
    format_rfc3339(now)
}

} // verus!

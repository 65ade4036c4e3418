//! Per-project configuration, read from the project's `.deploy.yaml`.

use vstd::prelude::*;
use crate::config::{clone_strings, DockerComposePaths, ProjectType};

verus! {

/// Docker services restarted after a deployment: none, one, or several
/// restarted one after another.
#[derive(Debug, Clone)]
pub enum RestartService {
    NotSet,
    Single(String),
    Multiple(Vec<String>),
}

impl RestartService {
    /// The services to restart, in order.
    pub open spec fn service_list(self) -> Seq<String> {
        match self {
            RestartService::NotSet => Seq::empty(),
            RestartService::Single(s) => seq![s],
            RestartService::Multiple(v) => v@,
        }
    }

    /// The list of services to restart.
    pub fn to_services(&self) -> (r: Vec<String>)
        ensures
            r@ == self.service_list(),
    {
        match self {
            RestartService::NotSet => Vec::new(),
            RestartService::Single(s) => {
                let mut r = Vec::new();
                r.push(s.clone());
                assert(r@ =~= seq![*s]);
                r
            },
            RestartService::Multiple(v) => clone_strings(v),
        }
    }
}

impl Default for RestartService {
    fn default() -> (r: Self)
        ensures
            r is NotSet,
    {
        RestartService::NotSet
    }
}

/// Project-level configuration loaded from .deploy.yaml
#[derive(Debug, Clone)]
pub struct ProjectConfig {
    pub repo_url: String,
    pub branch: String,
    pub project_type: ProjectType,
    pub docker_service: Option<String>,
    pub working_dir: Option<String>,
    pub install_command: Option<String>,
    pub build_command: Option<String>,
    pub extra_command: Option<String>,
    /// Run commands as this user (e.g., "www-data", "nginx")
    pub run_user: Option<String>,
    /// Environment variables for the project's commands, as name and value;
    /// where a name occurs twice the later value counts.
    pub env: Vec<(String, String)>,
    /// Docker services restarted, one after another, once the deployment is done
    pub restart_service: RestartService,
    /// Docker Compose files of this project; they override the global ones
    pub docker_compose_path: DockerComposePaths,
}

} // verus!

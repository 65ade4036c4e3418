//! Service configuration: server settings, project kinds and Docker Compose
//! file selection.

use vstd::prelude::*;
use vstd::string::*;
use crate::error::concat_str;
use crate::text::{contains_seq, str_contains};

verus! {

/// The kind of project a repository holds; it selects the default install
/// and build commands.
#[derive(Debug, Clone, Copy, PartialEq, Eq, Structural)]
pub enum ProjectType {
    Nodejs,
    Rust,
    Python,
    Php,
    Custom,
}

/// The lowercase name of a project type.
pub open spec fn project_type_name(t: ProjectType) -> Seq<char> {
    match t {
        ProjectType::Nodejs => "nodejs"@,
        ProjectType::Rust => "rust"@,
        ProjectType::Python => "python"@,
        ProjectType::Php => "php"@,
        ProjectType::Custom => "custom"@,
    }
}

/// The project type a stored name denotes: one of the known names, and
/// `Custom` for any other text.
pub open spec fn project_type_from_name(s: Seq<char>) -> ProjectType {
    if s == "nodejs"@ {
        ProjectType::Nodejs
    } else if s == "rust"@ {
        ProjectType::Rust
    } else if s == "python"@ {
        ProjectType::Python
    } else if s == "php"@ {
        ProjectType::Php
    } else {
        ProjectType::Custom
    }
}

impl ProjectType {
    /// The lowercase name, as shown to users and stored in the database.
    pub fn to_string(&self) -> (s: String)
        ensures
            s@ == project_type_name(*self),
    {
        match self {
            ProjectType::Nodejs => String::from_str("nodejs"),
            ProjectType::Rust => String::from_str("rust"),
            ProjectType::Python => String::from_str("python"),
            ProjectType::Php => String::from_str("php"),
            ProjectType::Custom => String::from_str("custom"),
        }
    }

    /// The project type of a stored name; unknown names read as `Custom`.
    pub fn from_name(s: &str) -> (t: ProjectType)
        ensures
            t == project_type_from_name(s@),
    {
        if crate::text::str_equal(s, "nodejs") {
            ProjectType::Nodejs
        } else if crate::text::str_equal(s, "rust") {
            ProjectType::Rust
        } else if crate::text::str_equal(s, "python") {
            ProjectType::Python
        } else if crate::text::str_equal(s, "php") {
            ProjectType::Php
        } else {
            ProjectType::Custom
        }
    }
}

/// Reading back the name of a project type gives the same type.
pub proof fn lemma_project_type_name_roundtrip(t: ProjectType)
    ensures
        project_type_from_name(project_type_name(t)) == t,
{
    reveal_strlit("nodejs");
    reveal_strlit("rust");
    reveal_strlit("python");
    reveal_strlit("php");
    reveal_strlit("custom");
    assert("rust"@ != "nodejs"@) by { assert("rust"@.len() != "nodejs"@.len()); }
    assert("python"@ != "nodejs"@) by { assert("python"@[0] != "nodejs"@[0]); }
    assert("python"@ != "rust"@) by { assert("python"@.len() != "rust"@.len()); }
    assert("php"@ != "nodejs"@) by { assert("php"@.len() != "nodejs"@.len()); }
    assert("php"@ != "rust"@) by { assert("php"@.len() != "rust"@.len()); }
    assert("php"@ != "python"@) by { assert("php"@.len() != "python"@.len()); }
    assert("custom"@ != "nodejs"@) by { assert("custom"@[0] != "nodejs"@[0]); }
    assert("custom"@ != "rust"@) by { assert("custom"@.len() != "rust"@.len()); }
    assert("custom"@ != "python"@) by { assert("custom"@[0] != "python"@[0]); }
    assert("custom"@ != "php"@) by { assert("custom"@.len() != "php"@.len()); }
}

/// Docker Compose file paths: none, one, or several applied in order.
#[derive(Debug, Clone, PartialEq)]
pub enum DockerComposePaths {
    NotSet,
    Single(String),
    Multiple(Vec<String>),
}

impl DockerComposePaths {
    /// The configured paths, in order.
    pub open spec fn path_list(self) -> Seq<String> {
        match self {
            DockerComposePaths::NotSet => Seq::empty(),
            DockerComposePaths::Single(s) => seq![s],
            DockerComposePaths::Multiple(v) => v@,
        }
    }

    /// No path is configured.
    pub open spec fn spec_is_empty(self) -> bool {
        match self {
            DockerComposePaths::NotSet => true,
            DockerComposePaths::Single(_) => false,
            DockerComposePaths::Multiple(v) => v@.len() == 0,
        }
    }

    /// Checks whether a path is configured.
    pub fn is_empty(&self) -> (r: bool)
        ensures
            r == self.spec_is_empty(),
    {
        match self {
            DockerComposePaths::NotSet => true,
            DockerComposePaths::Single(_) => false,
            DockerComposePaths::Multiple(v) => v.len() == 0,
        }
    }

    /// All paths as a vector.
    pub fn to_vec(&self) -> (r: Vec<String>)
        ensures
            r@ == self.path_list(),
    {
        match self {
            DockerComposePaths::NotSet => Vec::new(),
            DockerComposePaths::Single(s) => {
                let mut r = Vec::new();
                r.push(s.clone());
                assert(r@ =~= seq![*s]);
                r
            },
            DockerComposePaths::Multiple(v) => clone_strings(v),
        }
    }

    /// The paths a project uses: its own when it names any, otherwise the
    /// global ones when there are any, otherwise none.
    pub open spec fn spec_merge(
        project_paths: DockerComposePaths,
        global_paths: DockerComposePaths,
    ) -> Option<Seq<String>> {
        if project_paths.path_list().len() > 0 {
            Some(project_paths.path_list())
        } else if !global_paths.spec_is_empty() {
            Some(global_paths.path_list())
        } else {
            None
        }
    }

    /// Merges a project's paths with the global ones; the project's take
    /// precedence.
    pub fn merge(project_paths: &DockerComposePaths, global_paths: &DockerComposePaths) -> (r:
        Option<Vec<String>>)
        ensures
            match (r, Self::spec_merge(*project_paths, *global_paths)) {
                (Some(v), Some(s)) => v@ == s,
                (None, None) => true,
                _ => false,
            },
    {
        let project_vec = project_paths.to_vec();
        if project_vec.len() > 0 {
            Some(project_vec)
        } else if !global_paths.is_empty() {
            Some(global_paths.to_vec())
        } else {
            None
        }
    }
}

impl Default for DockerComposePaths {
    fn default() -> (r: Self)
        ensures
            r == DockerComposePaths::NotSet,
    {
        DockerComposePaths::NotSet
    }
}

/// A copy of a vector of strings.
pub fn clone_strings(v: &Vec<String>) -> (r: Vec<String>)
    ensures
        r@ == v@,
{
    let mut r: Vec<String> = Vec::new();
    let mut i: usize = 0;
    while i < v.len()
        invariant
            i <= v@.len(),
            r@ == v@.subrange(0, i as int),
        decreases v@.len() - i,
    {
        r.push(v[i].clone());
        i = i + 1;
        assert(r@ =~= v@.subrange(0, i as int));
    }
    assert(v@.subrange(0, v@.len() as int) =~= v@);
    r
}

/// "Empty" and "no paths" coincide.
pub proof fn lemma_is_empty_iff_no_paths(p: DockerComposePaths)
    ensures
        p.spec_is_empty() <==> p.path_list().len() == 0,
{
}

/// The merge yields nothing exactly when neither side names a path, and
/// otherwise the paths of the first side that names any.
pub proof fn lemma_merge_prefers_project(p: DockerComposePaths, g: DockerComposePaths)
    ensures
        DockerComposePaths::spec_merge(p, g) is None <==> (p.spec_is_empty() && g.spec_is_empty()),
        !p.spec_is_empty() ==> DockerComposePaths::spec_merge(p, g) == Some(p.path_list()),
        p.spec_is_empty() && !g.spec_is_empty() ==> DockerComposePaths::spec_merge(p, g) == Some(
            g.path_list(),
        ),
{
}

/// Docker Compose command flavour.
#[derive(Debug, Clone, Copy, PartialEq, Eq, Structural)]
pub enum DockerComposeCommand {
    /// `docker compose`, the plugin of Docker 19.03 and later.
    DockerCompose,
    /// `docker-compose`, the older standalone program.
    DockerComposeLegacy,
}

/// The pattern of a version number such as `v2.1.0` in probe output.
pub const VERSION_PATTERN: &'static str = "v\\d+\\.\\d+\\.\\d+";

/// What a regular-expression search gives: `None` when the pattern does not
/// compile, otherwise whether the text holds a match.
pub uninterp spec fn regex_search(pattern: Seq<char>, text: Seq<char>) -> Option<bool>;

/// Searches `text` for `pattern`.
///
/// Trusted: `regex::Regex::new(pattern)` then `is_match(text)`. The result
/// is named by `regex_search`: the same pattern and text give the same
/// answer; what the answer is for given values is not stated.
#[verifier::external_body]
fn regex_is_match(pattern: &str, text: &str) -> (r: Option<bool>)
    ensures
        r == regex_search(pattern@, text@),
{
    match regex::Regex::new(pattern) {
        Ok(re) => Some(re.is_match(text)),
        Err(_) => None,
    }
}

/// The output of `docker compose version` shows a working plugin: it holds
/// a version mark and no usage text.
pub open spec fn compose_probe_ok(combined: Seq<char>) -> bool {
    &&& !contains_seq(combined, "Usage:"@)
    &&& !contains_seq(combined, "docker --help"@)
    &&& (contains_seq(combined, "Compose"@) || contains_seq(combined, "v2"@) || contains_seq(
        combined,
        "v1"@,
    ))
}

/// The `docker-compose --version` run succeeded and names Compose or a
/// version number.
pub open spec fn legacy_probe_ok(stdout: Seq<char>, success: bool) -> bool {
    let has_version = match regex_search(VERSION_PATTERN@, stdout) {
        Some(b) => b,
        None => false,
    };
    success && (contains_seq(stdout, "Compose"@) || has_version)
}

/// Checks the output of `docker compose version` (standard output, then
/// standard error).
pub fn compose_probe_accepts(stdout: &str, stderr: &str) -> (r: bool)
    ensures
        r == compose_probe_ok(stdout@ + stderr@),
{
    let combined = concat_str(stdout, stderr);
    let c = combined.as_str();
    !str_contains(c, "Usage:") && !str_contains(c, "docker --help") && (str_contains(c, "Compose")
        || str_contains(c, "v2") || str_contains(c, "v1"))
}

/// Checks the result of `docker-compose --version`.
pub fn legacy_probe_accepts(stdout: &str, success: bool) -> (r: bool)
    ensures
        r == legacy_probe_ok(stdout@, success),
{
    let has_version = match regex_is_match(VERSION_PATTERN, stdout) {
        Some(b) => b,
        None => false,
    };
    success && (str_contains(stdout, "Compose") || has_version)
}

/// Output of one probe run: standard output, standard error, and whether
/// the program exited successfully.
#[derive(Debug, Clone)]
pub struct ProbeOutput {
    pub stdout: String,
    pub stderr: String,
    pub success: bool,
}

impl DockerComposeCommand {
    /// The command chosen from the probe results: nothing when no compose
    /// file is configured; the plugin when its probe ran and looks right;
    /// else the standalone program when its probe ran and looks right.
    pub open spec fn spec_detect(
        paths: DockerComposePaths,
        compose: Option<ProbeOutput>,
        legacy: Option<ProbeOutput>,
    ) -> Option<DockerComposeCommand> {
        if paths.spec_is_empty() {
            None
        } else if compose is Some && compose_probe_ok(
            compose->0.stdout@ + compose->0.stderr@,
        ) {
            Some(DockerComposeCommand::DockerCompose)
        } else if legacy is Some && legacy_probe_ok(legacy->0.stdout@, legacy->0.success) {
            Some(DockerComposeCommand::DockerComposeLegacy)
        } else {
            None
        }
    }

    /// Detects the available docker compose command from the outputs of
    /// `docker compose version` and `docker-compose --version` (`None` for a
    /// probe that could not be started).
    pub fn detect_from(
        paths: &DockerComposePaths,
        compose: &Option<ProbeOutput>,
        legacy: &Option<ProbeOutput>,
    ) -> (r: Option<DockerComposeCommand>)
        ensures
            r == Self::spec_detect(*paths, *compose, *legacy),
    {
        if paths.is_empty() {
            return None;
        }
        if let Some(out) = compose {
            if compose_probe_accepts(out.stdout.as_str(), out.stderr.as_str()) {
                return Some(DockerComposeCommand::DockerCompose);
            }
        }
        if let Some(out) = legacy {
            if legacy_probe_accepts(out.stdout.as_str(), out.success) {
                return Some(DockerComposeCommand::DockerComposeLegacy);
            }
        }
        None
    }
}

/// Server section of the configuration file.
#[derive(Debug, Clone)]
pub struct ServerConfig {
    pub host: String,
    pub port: u16,
    pub github_secret: Option<String>,
    pub gitlab_token: Option<String>,
    pub codeup_token: Option<String>,
    /// Shared token checked against the `X-Webhook-Token` header.
    pub webhook_token: Option<String>,
    pub workspace_dir: String,
    pub docker_compose_path: DockerComposePaths,
    /// Detected docker compose command (None if docker_compose_path is not set)
    pub docker_compose_command: Option<DockerComposeCommand>,
    /// Path to the update script for self-update functionality
    pub update_script: Option<String>,
    /// Secret for self-update webhook verification
    pub update_webhook_secret: Option<String>,
    /// Comma-separated webhook URLs to notify on self-update (can be multiple)
    pub update_webhook_urls: Option<String>,
    /// GitHub mirror URL prefixed to GitHub download URLs during self-update
    pub github_mirror: Option<String>,
}

impl ServerConfig {
    /// Check if self-update is configured
    pub fn is_update_script_configured(&self) -> (r: bool)
        ensures
            r == self.update_script is Some,
    {
        self.update_script.is_some()
    }

    /// Check if webhook secret is configured for self-update
    pub fn is_update_webhook_secret_configured(&self) -> (r: bool)
        ensures
            r == self.update_webhook_secret is Some,
    {
        self.update_webhook_secret.is_some()
    }

    /// Check if GitHub mirror is configured for self-update
    pub fn is_github_mirror_configured(&self) -> (r: bool)
        ensures
            r == self.github_mirror is Some,
    {
        self.github_mirror.is_some()
    }
}

/// The whole configuration file.
#[derive(Debug, Clone)]
pub struct Config {
    pub server: ServerConfig,
}

/// The plugin probe is accepted exactly when its output shows no usage
/// text and carries any one of the marks "Compose", "v2" or "v1", whatever
/// else the version text says; usage text always rejects it.
pub proof fn lemma_compose_probe_marks(combined: Seq<char>)
    ensures
        !contains_seq(combined, "Usage:"@) && !contains_seq(combined, "docker --help"@)
            ==> (contains_seq(combined, "Compose"@) ==> compose_probe_ok(combined)),
        !contains_seq(combined, "Usage:"@) && !contains_seq(combined, "docker --help"@)
            ==> (contains_seq(combined, "v2"@) ==> compose_probe_ok(combined)),
        !contains_seq(combined, "Usage:"@) && !contains_seq(combined, "docker --help"@)
            ==> (contains_seq(combined, "v1"@) ==> compose_probe_ok(combined)),
        contains_seq(combined, "Usage:"@) ==> !compose_probe_ok(combined),
        contains_seq(combined, "docker --help"@) ==> !compose_probe_ok(combined),
        compose_probe_ok(combined) ==> (contains_seq(combined, "Compose"@) || contains_seq(
            combined,
            "v2"@,
        ) || contains_seq(combined, "v1"@)),
{
}

/// With a compose file configured, an accepted plugin probe always selects
/// the plugin, whatever the standalone program's probe gave.
pub proof fn lemma_accepted_plugin_probe_selects_plugin(
    paths: DockerComposePaths,
    compose: ProbeOutput,
    legacy: Option<ProbeOutput>,
)
    requires
        !paths.spec_is_empty(),
        !contains_seq(compose.stdout@ + compose.stderr@, "Usage:"@),
        !contains_seq(compose.stdout@ + compose.stderr@, "docker --help"@),
        contains_seq(compose.stdout@ + compose.stderr@, "Compose"@),
    ensures
        DockerComposeCommand::spec_detect(paths, Some(compose), legacy) == Some(
            DockerComposeCommand::DockerCompose,
        ),
{
    lemma_compose_probe_marks(compose.stdout@ + compose.stderr@);
}

} // verus!

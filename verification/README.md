# deploy_bot

A webhook-driven deployment service. A push to a repository reaches
`POST /webhook/<project>`; the request is authenticated (GitHub signature,
GitLab, Codeup or a generic token), the project's `.deploy.yaml` is read, and
a deployment is queued. A worker takes queued deployments one at a time and
runs them: pull the repository, install dependencies, build, run the extra
command, restart the configured compose services. Each step runs on the host
(optionally as another user through `sudo -u`) or inside a Docker Compose
service. A small web UI lists deployments and their logs, and a self-update
endpoint installs new releases.

## Layout

- `src/` — the verified library (Verus). Every decision of the service lives
  here with its contract:
  - `webhook.rs`: request authentication and where a webhook's project is
    looked for;
  - `deploy/manager.rs`: deployment records, local times, the in-memory
    queue (deduplication, pop, status changes, delete, retry) and the merged,
    newest-first listing;
  - `deploy/executor.rs`: the run of one deployment as a state machine from
    step outcomes to log lines, status changes and the next step;
  - `installer.rs`: the commands of the install and build steps, how a
    command is started, and what its exit status and output mean;
  - `git.rs`: the git commands that bring a working copy up to date;
  - `config.rs`, `project_config.rs`: configuration values, compose file
    precedence, Docker Compose detection from probe output;
  - `self_update.rs`, `cli.rs`: version parsing and comparison, update
    authorization and answers, command-line decisions;
  - `database.rs`, `web_ui.rs`: the stored form of deployments and the HTML
    rows and paging of the list;
  - `websocket.rs`: the live log stream of a deployment, as a step from
    stream events (client messages, broadcasts, closes and errors) to what
    the stream does next;
  - `text.rs`, `error.rs`: string helpers with exact specifications and the
    error type.
- `tests/` — tests of the library on concrete values.
- `app/` — the program around the library: configuration files, SQLite,
  processes, HTTP and WebSocket handlers, logging and the worker loop. The
  loops there perform what the library decides and hand back what happened.

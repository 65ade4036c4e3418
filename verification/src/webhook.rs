//! Webhook checks: which source a request comes from, whether its
//! signature or token matches the configured secret, and where the
//! project it names lives.

use vstd::prelude::*;
use vstd::string::*;
use hmac::{Hmac, Mac};
use sha2::Sha256;
use crate::config::ServerConfig;
use crate::error::{is_webhook_rejection, AppError, AppResult};
use crate::text::{chars_of, path_join, join_path, str_equal};

verus! {

/// The lowercase hexadecimal digit for a value below sixteen.
pub open spec fn hex_digit(n: int) -> char {
    if n < 10 {
        (n + 48) as char
    } else {
        (n + 87) as char
    }
}

/// Each byte as two lowercase hexadecimal digits, high half first.
pub open spec fn hex_text(b: Seq<u8>) -> Seq<char>
    decreases b.len(),
{
    if b.len() == 0 {
        Seq::empty()
    } else {
        hex_text(b.drop_last()) + seq![hex_digit(b.last() as int / 16), hex_digit(b.last() as int % 16)]
    }
}

/// The lowercase hexadecimal digit of a value below sixteen.
fn hex_digit_char(n: u8) -> (c: char)
    requires
        n < 16,
    ensures
        c == hex_digit(n as int),
{
    if n < 10 {
        (n + 48) as char
    } else {
        (n + 87) as char
    }
}

/// Hex-encodes bytes, as `hex::encode` does: each byte as two lowercase
/// digits, the high half first.
fn hex_encode(bytes: &[u8]) -> (s: String)
    ensures
        s@ == hex_text(bytes@),
{
    let mut s = String::new();
    let mut i: usize = 0;
    assert(bytes@.take(0) =~= Seq::<u8>::empty());
    while i < bytes.len()
        invariant
            i <= bytes@.len(),
            s@ == hex_text(bytes@.take(i as int)),
        decreases bytes@.len() - i,
    {
        let b = bytes[i];
        s.push(hex_digit_char(b / 16));
        s.push(hex_digit_char(b % 16));
        assert(bytes@.take(i + 1).drop_last() =~= bytes@.take(i as int));
        assert(bytes@.take(i + 1).last() == b);
        i = i + 1;
    }
    assert(bytes@.take(bytes@.len() as int) =~= bytes@);
    s
}

/// The HMAC-SHA256 tag of `message` under `key`.
pub uninterp spec fn hmac_sha256(key: Seq<u8>, message: Seq<u8>) -> Seq<u8>;

/// Computes an HMAC-SHA256 tag.
///
/// Trusted: `Hmac::<Sha256>::new_from_slice`, `update` and `finalize` of the
/// `hmac` and `sha2` crates. The tag is a function of the key and message
/// alone, named `hmac_sha256`; HMAC accepts keys of any length, so a tag is
/// always produced.
#[verifier::external_body]
fn hmac_sha256_tag(key: &[u8], message: &[u8]) -> (tag: Option<Vec<u8>>)
    ensures
        tag is Some,
        tag.unwrap()@ == hmac_sha256(key@, message@),
{
    match Hmac::<Sha256>::new_from_slice(key) {
        Ok(mut mac) => {
            mac.update(message);
            Some(mac.finalize().into_bytes().to_vec())
        },
        Err(_) => None,
    }
}

/// The signature GitHub sends for a payload signed with `secret`:
/// `sha256=` and the hex digits of the HMAC-SHA256 tag of the payload,
/// keyed with the secret's UTF-8 bytes.
pub open spec fn github_signature(payload: Seq<u8>, secret: Seq<char>) -> Seq<char> {
    "sha256="@ + hex_text(hmac_sha256(vstd::utf8::encode_utf8(secret), payload))
}

/// Validate GitHub webhook signature
pub fn validate_github_signature(payload: &[u8], signature: &str, secret: &str) -> (r: AppResult<
    (),
>)
    ensures
        r is Ok <==> signature@ == github_signature(payload@, secret@),
        r is Err ==> is_webhook_rejection(r, "Invalid signature"@),
{
    let tag = match hmac_sha256_tag(secret.as_bytes(), payload) {
        Some(t) => t,
        None => return Err(AppError::WebhookValidation(String::from_str("Invalid secret"))),
    };
    let hex = hex_encode(tag.as_slice());
    let mut expected = String::from_str("sha256=");
    expected.append(hex.as_str());
    if !str_equal(signature, expected.as_str()) {
        return Err(AppError::WebhookValidation(String::from_str("Invalid signature")));
    }
    Ok(())
}

/// Validate GitLab webhook token
pub fn validate_gitlab_token(token: &str, secret: &str) -> (r: AppResult<()>)
    ensures
        r is Ok <==> token@ == secret@,
        r is Err ==> is_webhook_rejection(r, "Invalid token"@),
{
    if !str_equal(token, secret) {
        return Err(AppError::WebhookValidation(String::from_str("Invalid token")));
    }
    Ok(())
}

/// Validate Codeup webhook token
pub fn validate_codeup_token(token: &str, secret: &str) -> (r: AppResult<()>)
    ensures
        r is Ok <==> token@ == secret@,
        r is Err ==> is_webhook_rejection(r, "Invalid token"@),
{
    if !str_equal(token, secret) {
        return Err(AppError::WebhookValidation(String::from_str("Invalid token")));
    }
    Ok(())
}

} // verus!

verus! {

/// A character with ASCII capitals made small.
pub open spec fn ascii_lower(c: char) -> char {
    if 'A' <= c && c <= 'Z' {
        (c as int + 32) as char
    } else {
        c
    }
}

/// Two header names are the same name: equal but for ASCII case.
pub open spec fn same_header_name(a: Seq<char>, b: Seq<char>) -> bool {
    a.len() == b.len() && forall|i: int| 0 <= i < a.len() ==> ascii_lower(a[i]) == ascii_lower(b[i])
}

/// The raw value of the first header called `name`, if there is one.
pub open spec fn header_lookup(hs: Seq<(String, Vec<u8>)>, name: Seq<char>) -> Option<Seq<u8>>
    decreases hs.len(),
{
    if hs.len() == 0 {
        None
    } else if same_header_name(hs[0].0@, name) {
        Some(hs[0].1@)
    } else {
        header_lookup(hs.drop_first(), name)
    }
}

/// A header value byte that may stand in text: a tab or visible ASCII.
pub open spec fn visible_byte(b: u8) -> bool {
    b == 9 || (32 <= b && b < 127)
}

/// A header value as text: its bytes as characters when all of them are
/// visible ASCII, else nothing.
pub open spec fn header_text(v: Seq<u8>) -> Option<Seq<char>> {
    if forall|i: int| 0 <= i < v.len() ==> visible_byte(#[trigger] v[i]) {
        Some(v.map_values(|b: u8| b as char))
    } else {
        None
    }
}

fn lower_char(c: char) -> (r: char)
    ensures
        r == ascii_lower(c),
{
    if 'A' <= c && c <= 'Z' {
        let b = c as u8;
        (b + 32) as char
    } else {
        c
    }
}

/// Whether two header names are the same, ASCII case aside.
pub fn same_name(a: &str, b: &str) -> (r: bool)
    ensures
        r == same_header_name(a@, b@),
{
    let va = chars_of(a);
    let vb = chars_of(b);
    if va.len() != vb.len() {
        return false;
    }
    let mut i: usize = 0;
    while i < va.len()
        invariant
            va@ == a@,
            vb@ == b@,
            va@.len() == vb@.len(),
            i <= va@.len(),
            forall|j: int| 0 <= j < i ==> ascii_lower(a@[j]) == ascii_lower(b@[j]),
        decreases va@.len() - i,
    {
        if lower_char(va[i]) != lower_char(vb[i]) {
            return false;
        }
        i = i + 1;
    }
    true
}

/// The position of the first header called `name`.
pub fn find_header(hs: &Vec<(String, Vec<u8>)>, name: &str) -> (r: Option<usize>)
    ensures
        match r {
            Some(i) => i < hs@.len() && header_lookup(hs@, name@) == Some(hs@[i as int].1@),
            None => header_lookup(hs@, name@) is None,
        },
{
    let mut i: usize = 0;
    assert(hs@.subrange(0, hs@.len() as int) =~= hs@);
    while i < hs.len()
        invariant
            i <= hs@.len(),
            header_lookup(hs@, name@) == header_lookup(hs@.subrange(i as int, hs@.len() as int), name@),
        decreases hs@.len() - i,
    {
        let ghost rest = hs@.subrange(i as int, hs@.len() as int);
        assert(rest[0] == hs@[i as int]);
        if same_name(hs[i].0.as_str(), name) {
            return Some(i);
        }
        assert(rest.drop_first() =~= hs@.subrange(i + 1, hs@.len() as int));
        i = i + 1;
    }
    None
}

/// A header value as text, when it is one.
pub fn header_value_text(v: &Vec<u8>) -> (r: Option<String>)
    ensures
        match r {
            Some(s) => header_text(v@) == Some(s@),
            None => header_text(v@) is None,
        },
{
    let mut s = String::new();
    let mut i: usize = 0;
    while i < v.len()
        invariant
            i <= v@.len(),
            forall|j: int| 0 <= j < i ==> visible_byte(#[trigger] v@[j]),
            s@ == v@.subrange(0, i as int).map_values(|b: u8| b as char),
        decreases v@.len() - i,
    {
        let b = v[i];
        if !(b == 9 || (32 <= b && b < 127)) {
            return None;
        }
        s.push(b as char);
        assert(s@ =~= v@.subrange(0, i + 1).map_values(|b: u8| b as char));
        i = i + 1;
    }
    assert(v@.subrange(0, v@.len() as int) =~= v@);
    Some(s)
}

} // verus!

verus! {

/// The message of a request that no configured check could accept.
pub open spec fn no_auth_message() -> Seq<char> {
    "Webhook validation required but no valid token/secret found. Please configure at least one of: github_secret, gitlab_token, codeup_token, webhook_token"@
}

/// The answer to a token header: the header must be text, and the text
/// must equal the secret.
pub open spec fn token_verdict(value: Seq<u8>, secret: Seq<char>, mismatch: Seq<char>) -> Option<
    Seq<char>,
> {
    match header_text(value) {
        None => Some("Invalid token header"@),
        Some(t) => if t == secret {
            None
        } else {
            Some(mismatch)
        },
    }
}

/// Whether a webhook request is accepted (`None`) or the message it is
/// refused with. The sources are tried in turn — GitHub signature, GitLab
/// token, Codeup token, generic token — and the first whose header is
/// present and whose secret is configured decides.
pub open spec fn webhook_verdict(hs: Seq<(String, Vec<u8>)>, body: Seq<u8>, cfg: ServerConfig) -> Option<
    Seq<char>,
> {
    let sig = header_lookup(hs, "X-Hub-Signature-256"@);
    let gitlab = header_lookup(hs, "X-Gitlab-Token"@);
    let codeup = header_lookup(hs, "X-Codeup-Token"@);
    let generic = header_lookup(hs, "X-Webhook-Token"@);
    if sig is Some && cfg.github_secret is Some {
        match header_text(sig->0) {
            None => Some("Invalid signature header"@),
            Some(t) => if t == github_signature(body, cfg.github_secret->0@) {
                None
            } else {
                Some("Invalid signature"@)
            },
        }
    } else if gitlab is Some && cfg.gitlab_token is Some {
        token_verdict(gitlab->0, cfg.gitlab_token->0@, "Invalid token"@)
    } else if codeup is Some && cfg.codeup_token is Some {
        token_verdict(codeup->0, cfg.codeup_token->0@, "Invalid token"@)
    } else if generic is Some && cfg.webhook_token is Some {
        token_verdict(generic->0, cfg.webhook_token->0@, "Invalid webhook token"@)
    } else {
        Some(no_auth_message())
    }
}

/// The result that answers a verdict.
pub open spec fn answers_verdict<T>(r: AppResult<T>, verdict: Option<Seq<char>>) -> bool {
    match verdict {
        None => r is Ok,
        Some(m) => is_webhook_rejection(r, m),
    }
}

/// Checks a token header against a secret.
fn check_token(value: &Vec<u8>, secret: &str, mismatch: &str) -> (r: AppResult<()>)
    ensures
        answers_verdict(r, token_verdict(value@, secret@, mismatch@)),
{
    match header_value_text(value) {
        None => Err(AppError::WebhookValidation(String::from_str("Invalid token header"))),
        Some(t) => {
            if str_equal(t.as_str(), secret) {
                Ok(())
            } else {
                Err(AppError::WebhookValidation(String::from_str(mismatch)))
            }
        },
    }
}

/// Validate webhook request based on platform-specific headers
pub fn validate_webhook_request(
    headers: &Vec<(String, Vec<u8>)>,
    body: &[u8],
    server_config: &ServerConfig,
) -> (r: AppResult<()>)
    ensures
        answers_verdict(r, webhook_verdict(headers@, body@, *server_config)),
{
    if let Some(i) = find_header(headers, "X-Hub-Signature-256") {
        if let Some(secret) = &server_config.github_secret {
            let text = match header_value_text(&headers[i].1) {
                Some(t) => t,
                None => {
                    return Err(
                        AppError::WebhookValidation(String::from_str("Invalid signature header")),
                    );
                },
            };
            return validate_github_signature(body, text.as_str(), secret.as_str());
        }
    }
    if let Some(i) = find_header(headers, "X-Gitlab-Token") {
        if let Some(secret) = &server_config.gitlab_token {
            return check_token(&headers[i].1, secret.as_str(), "Invalid token");
        }
    }
    if let Some(i) = find_header(headers, "X-Codeup-Token") {
        if let Some(secret) = &server_config.codeup_token {
            return check_token(&headers[i].1, secret.as_str(), "Invalid token");
        }
    }
    if let Some(i) = find_header(headers, "X-Webhook-Token") {
        if let Some(secret) = &server_config.webhook_token {
            return check_token(&headers[i].1, secret.as_str(), "Invalid webhook token");
        }
    }
    Err(
        AppError::WebhookValidation(
            String::from_str(
                "Webhook validation required but no valid token/secret found. Please configure at least one of: github_secret, gitlab_token, codeup_token, webhook_token",
            ),
        ),
    )
}

} // verus!

verus! {

/// A webhook request as the checks read it: its headers, each a name and
/// the value's raw bytes in the order they came, and its body.
#[derive(Debug, Clone)]
pub struct WebhookRequest {
    pub headers: Vec<(String, Vec<u8>)>,
    pub body: Vec<u8>,
}

/// Where the project a webhook names is looked for: its directory under the
/// workspace, and its `.deploy.yaml` in that directory.
#[derive(Debug, Clone)]
pub struct WebhookTarget {
    pub project_dir: String,
    pub config_file: String,
}

/// The directory of a project under the workspace.
pub open spec fn project_dir_of(workspace: Seq<char>, project: Seq<char>) -> Seq<char> {
    path_join(workspace, project)
}

/// The configuration file of a project under the workspace.
pub open spec fn config_file_of(workspace: Seq<char>, project: Seq<char>) -> Seq<char> {
    path_join(project_dir_of(workspace, project), ".deploy.yaml"@)
}

/// Checks a webhook for a project and says where the project is looked
/// for. A refused request is answered with the verdict's message; an
/// accepted one with the project's directory and configuration file.
pub fn handle_webhook(
    project_name: &str,
    request: &WebhookRequest,
    server_config: &ServerConfig,
) -> (r: AppResult<WebhookTarget>)
    ensures
        webhook_verdict(request.headers@, request.body@, *server_config) is Some ==> answers_verdict(
            r,
            webhook_verdict(request.headers@, request.body@, *server_config),
        ),
        webhook_verdict(request.headers@, request.body@, *server_config) is None ==> (
        match r {
            Ok(t) => t.project_dir@ == project_dir_of(server_config.workspace_dir@, project_name@)
                && t.config_file@ == config_file_of(server_config.workspace_dir@, project_name@),
            Err(_) => false,
        }),
{
    match validate_webhook_request(&request.headers, request.body.as_slice(), server_config) {
        Ok(()) => {},
        Err(e) => return Err(e),
    }
    let project_dir = join_path(server_config.workspace_dir.as_str(), project_name);
    let config_file = join_path(project_dir.as_str(), ".deploy.yaml");
    Ok(WebhookTarget { project_dir, config_file })
}

/// Whether the project a webhook names is there: its directory must exist,
/// and so must its configuration file.
pub fn check_project_files(target: &WebhookTarget, dir_exists: bool, file_exists: bool) -> (r:
    AppResult<()>)
    ensures
        dir_exists && file_exists <==> r is Ok,
        !dir_exists ==> (match r {
            Err(AppError::ProjectNotFound(m)) => m@ == "Project directory not found: "@
                + target.project_dir@,
            _ => false,
        }),
        dir_exists && !file_exists ==> (match r {
            Err(AppError::ProjectNotFound(m)) => m@ == "Project not configured: "@
                + target.config_file@ + " not found"@,
            _ => false,
        }),
{
    if !dir_exists {
        let mut m = String::from_str("Project directory not found: ");
        m.append(target.project_dir.as_str());
        return Err(AppError::ProjectNotFound(m));
    }
    if !file_exists {
        let mut m = String::from_str("Project not configured: ");
        m.append(target.config_file.as_str());
        m.append(" not found");
        return Err(AppError::ProjectNotFound(m));
    }
    Ok(())
}

/// The error of a project configuration that could not be read.
pub fn config_load_error(detail: &str) -> (e: AppError)
    ensures
        match e {
            AppError::Config(m) => m@ == "Failed to load project config: "@ + detail@,
            _ => false,
        },
{
    let mut m = String::from_str("Failed to load project config: ");
    m.append(detail);
    AppError::Config(m)
}

/// The answer to an accepted webhook.
#[derive(Debug, Clone)]
pub struct WebhookReply {
    pub message: String,
    pub deployment_id: Option<String>,
}

/// The answer to an accepted webhook: the new deployment's id, or word that
/// an equal deployment is already waiting or running.
pub fn webhook_reply(queued: Option<String>) -> (r: WebhookReply)
    ensures
        match queued {
            Some(id) => r.message@ == "Deployment queued"@ && r.deployment_id == Some(id),
            None => r.message@ == "Deployment skipped - duplicate task exists"@
                && r.deployment_id is None,
        },
{
    match queued {
        Some(id) => WebhookReply { message: String::from_str("Deployment queued"), deployment_id: Some(id) },
        None => WebhookReply {
            message: String::from_str("Deployment skipped - duplicate task exists"),
            deployment_id: None,
        },
    }
}

} // verus!

verus! {

/// With no secret or token configured, every webhook request is refused,
/// whatever headers it carries, with the message that asks for one.
pub proof fn lemma_unconfigured_refuses_all(hs: Seq<(String, Vec<u8>)>, body: Seq<u8>, cfg: ServerConfig)
    requires
        cfg.github_secret is None,
        cfg.gitlab_token is None,
        cfg.codeup_token is None,
        cfg.webhook_token is None,
    ensures
        webhook_verdict(hs, body, cfg) == Some(no_auth_message()),
{
}

/// Header names are looked up without regard to ASCII case: two names that
/// differ only in case find the same header.
pub proof fn lemma_header_lookup_ignores_case(hs: Seq<(String, Vec<u8>)>, a: Seq<char>, b: Seq<char>)
    requires
        same_header_name(a, b),
    ensures
        header_lookup(hs, a) == header_lookup(hs, b),
    decreases hs.len(),
{
    if hs.len() > 0 {
        let n = hs[0].0@;
        assert(same_header_name(n, a) == same_header_name(n, b));
        lemma_header_lookup_ignores_case(hs.drop_first(), a, b);
    }
}

} // verus!

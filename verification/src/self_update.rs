//! Self-update: release versions, the update webhook's checks, and the
//! download location of a new binary.

use vstd::prelude::*;
use vstd::string::*;
use crate::config::ServerConfig;
use crate::error::{concat_str, AppError, AppResult};
use crate::text::{
    chars_of, chars_prefix, decimal, lemma_decimal_digits, lemma_decimal_no_char, lemma_parse_decimal,
    lemma_split_char_append, lemma_split_char_free, line_ranges, lines_spec, parse_u32_chars,
    contains_seq, push_decimal, str_contains, str_equal,
    parse_u32_spec, skip_leading, skip_leading_index, split_char, split_ranges, string_from_chars,
};

verus! {

/// Payload from GitHub release webhook
#[derive(Debug, Clone)]
pub struct ReleasePayload {
    pub tag_name: String,
    pub download_url: String,
}

/// Response for self-update endpoint
#[derive(Debug, Clone)]
pub struct UpdateResponse {
    pub message: String,
    pub updated: bool,
    pub version: Option<String>,
}

/// Current version info
#[derive(Debug, Clone, Copy, PartialEq, Eq, Structural)]
pub struct Version {
    pub major: u32,
    pub minor: u32,
    pub patch: u32,
}

/// `a` is a later version than `b`: compared by major, then minor, then
/// patch number.
pub open spec fn version_gt(a: Version, b: Version) -> bool {
    if a.major != b.major {
        a.major > b.major
    } else if a.minor != b.minor {
        a.minor > b.minor
    } else {
        a.patch > b.patch
    }
}

/// The version a text denotes: any leading `v` characters removed, the rest
/// split at `.` into exactly three decimal numbers.
pub open spec fn parse_version_spec(s: Seq<char>) -> Option<Version> {
    let parts = split_char(skip_leading(s, 'v'), '.');
    if parts.len() != 3 {
        None
    } else {
        match (parse_u32_spec(parts[0]), parse_u32_spec(parts[1]), parse_u32_spec(parts[2])) {
            (Ok(major), Ok(minor), Ok(patch)) => Some(Version { major, minor, patch }),
            _ => None,
        }
    }
}

/// The dotted form of a version, such as `0.2.0`.
pub open spec fn version_text(v: Version) -> Seq<char> {
    decimal(v.major as nat).push('.') + decimal(v.minor as nat).push('.') + decimal(
        v.patch as nat,
    )
}

impl Version {
    /// Parse version from string like "v0.2.0"
    pub fn parse(version_str: &str) -> (r: Option<Version>)
        ensures
            r == parse_version_spec(version_str@),
    {
        let cs = chars_of(version_str);
        Self::parse_chars(cs.as_slice())
    }

    /// The version a sequence of characters denotes.
    pub fn parse_chars(s: &[char]) -> (r: Option<Version>)
        ensures
            r == parse_version_spec(s@),
    {
        let k = skip_leading_index(s, 0, 'v');
        let parts = split_ranges(s, k, '.');
        proof {
            assert(s@.subrange(0, s@.len() as int) =~= s@);
        }
        if parts.len() != 3 {
            return None;
        }
        let (a0, a1) = parts[0];
        let (b0, b1) = parts[1];
        let (c0, c1) = parts[2];
        let major = match parse_u32_chars(s, a0, a1) {
            Ok(n) => n,
            Err(_) => return None,
        };
        let minor = match parse_u32_chars(s, b0, b1) {
            Ok(n) => n,
            Err(_) => return None,
        };
        let patch = match parse_u32_chars(s, c0, c1) {
            Ok(n) => n,
            Err(_) => return None,
        };
        Some(Version { major, minor, patch })
    }

    /// Compare two versions: returns true if self > other
    pub fn gt(&self, other: &Version) -> (r: bool)
        ensures
            r == version_gt(*self, *other),
    {
        if self.major != other.major {
            return self.major > other.major;
        }
        if self.minor != other.minor {
            return self.minor > other.minor;
        }
        self.patch > other.patch
    }
}

/// No version is later than itself.
pub proof fn lemma_version_gt_irreflexive(a: Version)
    ensures
        !version_gt(a, a),
{
}

/// "Later than" is transitive.
pub proof fn lemma_version_gt_transitive(a: Version, b: Version, c: Version)
    requires
        version_gt(a, b),
        version_gt(b, c),
    ensures
        version_gt(a, c),
{
}

/// Of two different versions exactly one is the later.
pub proof fn lemma_version_gt_total(a: Version, b: Version)
    ensures
        a != b ==> (version_gt(a, b) || version_gt(b, a)),
        !(version_gt(a, b) && version_gt(b, a)),
{
}

/// Reading the dotted form of a version, with or without a leading `v`,
/// gives the version back.
pub proof fn lemma_version_parse_text(v: Version)
    ensures
        parse_version_spec(version_text(v)) == Some(v),
        parse_version_spec(seq!['v'] + version_text(v)) == Some(v),
{
    let da = decimal(v.major as nat);
    let db = decimal(v.minor as nat);
    let dc = decimal(v.patch as nat);
    lemma_decimal_no_char(v.major as nat, '.');
    lemma_decimal_no_char(v.minor as nat, '.');
    lemma_decimal_no_char(v.patch as nat, '.');
    lemma_decimal_digits(v.major as nat);
    lemma_split_char_free(da, '.');
    lemma_split_char_append(da, '.', db);
    assert(da.push('.') + db =~= da.push('.') + db);
    lemma_split_char_append(da.push('.') + db, '.', dc);
    let t = version_text(v);
    assert(t =~= (da.push('.') + db).push('.') + dc);
    assert(split_char(t, '.') =~= seq![da, db, dc]);
    lemma_parse_decimal(v.major);
    lemma_parse_decimal(v.minor);
    lemma_parse_decimal(v.patch);
    assert(t[0] == da[0]);
    assert(skip_leading(t, 'v') == t);
    let tv = seq!['v'] + t;
    assert(tv.drop_first() =~= t);
    assert(skip_leading(tv, 'v') == skip_leading(t, 'v'));
}

/// Whether a release is newer than the running version: `Ok(true)` when
/// the tag names a later version, `Ok(false)` when it names the same or an
/// earlier one, and an error when the tag is no version.
pub fn is_newer_version(new_version: &str, current: &Version) -> (r: AppResult<bool>)
    ensures
        match parse_version_spec(new_version@) {
            Some(new) => r matches Ok(b) && b == version_gt(new, *current),
            None => r matches Err(AppError::Config(m)) && m@ == "Invalid new version format: "@
                + new_version@,
        },
{
    match Version::parse(new_version) {
        Some(new) => Ok(new.gt(current)),
        None => Err(AppError::Config(concat_str("Invalid new version format: ", new_version))),
    }
}

/// The first line of `ls` that begins with `p`.
pub open spec fn first_with_prefix(ls: Seq<Seq<char>>, p: Seq<char>) -> Option<Seq<char>>
    decreases ls.len(),
{
    if ls.len() == 0 {
        None
    } else if p.is_prefix_of(ls[0]) {
        Some(ls[0])
    } else {
        first_with_prefix(ls.drop_first(), p)
    }
}

/// The version recorded in a package manifest: the first line that begins
/// with `version = `, the text between its first and second `"`, read as a
/// version.
pub open spec fn manifest_version_spec(content: Seq<char>) -> Result<Version, Seq<char>> {
    match first_with_prefix(lines_spec(content), "version = "@) {
        None => Err("Version not found in Cargo.toml"@),
        Some(line) => {
            let parts = split_char(line, '"');
            if parts.len() < 2 {
                Err("Invalid version format"@)
            } else {
                match parse_version_spec(parts[1]) {
                    Some(v) => Ok(v),
                    None => Err("Failed to parse version: "@ + parts[1]),
                }
            }
        },
    }
}

/// The version in the text of a package manifest (Cargo.toml).
pub fn version_from_manifest(content: &str) -> (r: AppResult<Version>)
    ensures
        match manifest_version_spec(content@) {
            Ok(v) => r == Ok::<Version, AppError>(v),
            Err(msg) => r matches Err(AppError::Config(m)) && m@ == msg,
        },
{
    let cs = chars_of(content);
    let s = cs.as_slice();
    let lines = line_ranges(s);
    let prefix_v = chars_of("version = ");
    let prefix = prefix_v.as_slice();
    let mut i: usize = 0;
    let ghost ls = lines_spec(content@);
    assert(ls.subrange(0, ls.len() as int) =~= ls);
    while i < lines.len()
        invariant
            s@ == content@,
            prefix@ == "version = "@,
            ls == lines_spec(content@),
            i <= lines@.len(),
            lines@.len() == ls.len(),
            forall|t: int|
                0 <= t < lines@.len() ==> (#[trigger] lines@[t]).0 <= lines@[t].1 <= s@.len()
                    && s@.subrange(lines@[t].0 as int, lines@[t].1 as int) == ls[t],
            first_with_prefix(ls, "version = "@) == first_with_prefix(
                ls.subrange(i as int, ls.len() as int),
                "version = "@,
            ),
        decreases lines@.len() - i,
    {
        let (a, b) = lines[i];
        let ghost rest = ls.subrange(i as int, ls.len() as int);
        assert(rest[0] == ls[i as int]);
        assert(rest.drop_first() =~= ls.subrange(i + 1, ls.len() as int));
        let line = &s[a..b];
        assert(line@ == ls[i as int]);
        let is_match = chars_prefix(line, prefix);
        if is_match {
            return version_from_manifest_line(line);
        }
        i = i + 1;
    }
    Err(AppError::Config(String::from_str("Version not found in Cargo.toml")))
}

/// The version in a manifest line that begins with `version = `.
fn version_from_manifest_line(line: &[char]) -> (r: AppResult<Version>)
    ensures
        ({
            let parts = split_char(line@, '"');
            if parts.len() < 2 {
                r matches Err(AppError::Config(m)) && m@ == "Invalid version format"@
            } else {
                match parse_version_spec(parts[1]) {
                    Some(v) => r == Ok::<Version, AppError>(v),
                    None => r matches Err(AppError::Config(m)) && m@ == "Failed to parse version: "@
                        + parts[1],
                }
            }
        }),
{
    let parts = split_ranges(line, 0, '"');
    proof {
        assert(line@.subrange(0, line@.len() as int) =~= line@);
    }
    if parts.len() < 2 {
        return Err(AppError::Config(String::from_str("Invalid version format")));
    }
    let (p0, p1) = parts[1];
    let piece = &line[p0..p1];
    match Version::parse_chars(piece) {
        Some(v) => Ok(v),
        None => {
            let text = string_from_chars(piece);
            Err(AppError::Config(concat_str("Failed to parse version: ", text.as_str())))
        },
    }
}

/// Checks the secret of a self-update request against the configured one:
/// with no secret configured every request passes; otherwise the header
/// must be present and equal.
pub fn check_update_secret(configured: &Option<String>, provided: &Option<String>) -> (r:
    AppResult<()>)
    ensures
        match (*configured, *provided) {
            (None, _) => r is Ok,
            (Some(c), Some(p)) => if p@ == c@ {
                r is Ok
            } else {
                r matches Err(AppError::WebhookValidation(m)) && m@ == "Invalid webhook secret"@
            },
            (Some(_), None) => r matches Err(AppError::WebhookValidation(m)) && m@
                == "Webhook secret required but not provided"@,
        },
{
    match configured {
        None => Ok(()),
        Some(secret) => match provided {
            Some(p) => {
                if str_equal(p.as_str(), secret.as_str()) {
                    Ok(())
                } else {
                    Err(AppError::WebhookValidation(String::from_str("Invalid webhook secret")))
                }
            },
            None => Err(
                AppError::WebhookValidation(
                    String::from_str("Webhook secret required but not provided"),
                ),
            ),
        },
    }
}

/// The checks a self-update request passes before any version is looked
/// at: the secret (when one is configured), then the presence of an update
/// script.
pub fn authorize_self_update(config: &ServerConfig, header_secret: &Option<String>) -> (r:
    AppResult<()>)
    ensures
        match (config.update_webhook_secret, *header_secret) {
            (Some(c), Some(p)) if p@ != c@ => r matches Err(AppError::WebhookValidation(m)) && m@
                == "Invalid webhook secret"@,
            (Some(_), None) => r matches Err(AppError::WebhookValidation(m)) && m@
                == "Webhook secret required but not provided"@,
            _ => if config.update_script is Some {
                r is Ok
            } else {
                r matches Err(AppError::Config(m)) && m@ == "Update script not configured"@
            },
        },
{
    check_update_secret(&config.update_webhook_secret, header_secret)?;
    if !config.is_update_script_configured() {
        return Err(AppError::Config(String::from_str("Update script not configured")));
    }
    Ok(())
}

/// The answer to an update request for a version that is not newer than
/// the running one.
pub fn up_to_date_response(current: &Version, new_version: &str) -> (r: UpdateResponse)
    ensures
        r.message@ == "Current version ("@ + version_text(*current) + ") is already up to date or newer than "@
            + new_version@,
        !r.updated,
        r.version matches Some(v) && v@ == new_version@,
{
    let mut message = String::from_str("Current version (");
    push_decimal(&mut message, current.major as u64);
    message.push('.');
    push_decimal(&mut message, current.minor as u64);
    message.push('.');
    push_decimal(&mut message, current.patch as u64);
    message.append(") is already up to date or newer than ");
    message.append(new_version);
    assert(message@ =~= "Current version ("@ + version_text(*current)
        + ") is already up to date or newer than "@ + new_version@);
    UpdateResponse { message, updated: false, version: Some(String::from_str(new_version)) }
}

/// The answer to an update request once the new binary is in place and the
/// update script started.
pub fn update_started_response(new_version: &str) -> (r: UpdateResponse)
    ensures
        r.message@ == "Update to "@ + new_version@ + " initiated"@,
        r.updated,
        r.version matches Some(v) && v@ == new_version@,
{
    let mut message = String::from_str("Update to ");
    message.append(new_version);
    message.append(" initiated");
    UpdateResponse { message, updated: true, version: Some(String::from_str(new_version)) }
}

/// `s` with every `c` removed.
pub open spec fn remove_char(s: Seq<char>, c: char) -> Seq<char>
    decreases s.len(),
{
    if s.len() == 0 {
        s
    } else if s.last() == c {
        remove_char(s.drop_last(), c)
    } else {
        remove_char(s.drop_last(), c).push(s.last())
    }
}

/// The file name under which a release binary is downloaded:
/// `deploy-bot-` followed by the version with every `v` removed.
pub fn binary_file_name(version: &str) -> (r: String)
    ensures
        r@ == "deploy-bot-"@ + remove_char(version@, 'v'),
{
    let cs = chars_of(version);
    let mut r = String::from_str("deploy-bot-");
    let mut i: usize = 0;
    while i < cs.len()
        invariant
            i <= cs@.len(),
            cs@ == version@,
            r@ == "deploy-bot-"@ + remove_char(cs@.subrange(0, i as int), 'v'),
        decreases cs@.len() - i,
    {
        let ghost prev = cs@.subrange(0, i as int);
        let c = cs[i];
        if c != 'v' {
            r.push(c);
        }
        i = i + 1;
        assert(cs@.subrange(0, i as int).drop_last() =~= prev);
        assert(r@ =~= "deploy-bot-"@ + remove_char(cs@.subrange(0, i as int), 'v'));
    }
    assert(cs@.subrange(0, cs@.len() as int) =~= cs@);
    r
}

/// The download URL after the GitHub mirror is applied: the mirror's prefix
/// is put before URLs that mention `github.com`; other URLs are unchanged.
pub open spec fn mirrored_url(url: Seq<char>, mirror: Option<Seq<char>>) -> Seq<char> {
    match mirror {
        Some(m) => if contains_seq(url, "github.com"@) {
            m + url
        } else {
            url
        },
        None => url,
    }
}

/// Applies the configured GitHub mirror to a download URL.
pub fn apply_github_mirror(url: &str, mirror: &Option<String>) -> (r: String)
    ensures
        r@ == mirrored_url(
            url@,
            match *mirror {
                Some(m) => Some(m@),
                None => None,
            },
        ),
{
    match mirror {
        Some(m) => {
            if str_contains(url, "github.com") {
                concat_str(m.as_str(), url)
            } else {
                String::from_str(url)
            }
        },
        None => String::from_str(url),
    }
}

} // verus!

verus! {

/// What a finished update script means: success, or a configuration error
/// that carries its standard error.
pub fn update_script_result(output: &crate::installer::ProcessOutput) -> (r: AppResult<()>)
    ensures
        output.success <==> r is Ok,
        !output.success ==> (match r {
            Err(AppError::Config(m)) => m@ == "Update script failed: "@ + output.stderr@,
            _ => false,
        }),
{
    if output.success {
        Ok(())
    } else {
        Err(AppError::Config(concat_str("Update script failed: ", output.stderr.as_str())))
    }
}

} // verus!

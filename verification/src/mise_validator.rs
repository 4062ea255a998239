//! Syntax rules for tool names, plugin names and plugin URLs.
//!
//! A name may carry a backend prefix (`npm:`, `aqua:`, `go:` ...). The prefix
//! decides which characters the rest of the name may hold. The character
//! classes are regular expressions, matched by the `regex` crate.

use vstd::prelude::*;
use vstd::string::*;
use crate::error::{join3, ErrorView, RazdError};
use crate::text::{
    after_prefix, find_char, first_index_of, is_prefix, is_suffix, strip_prefix,
};

verus! {

/// The class of installer that a tool name's prefix selects.
#[derive(Debug, Clone, Copy, PartialEq, Eq, Structural)]
pub enum BackendType {
    /// `npm:`, `pipx:`, `cargo:`, `gem:`, `dotnet:`.
    PackageManager,
    /// `aqua:`, `github:`, `gitlab:`, `ubi:`, `asdf:`, `vfox:`, `vfox-backend:`,
    /// `spm:`, and every prefix that is not known.
    Repository,
    /// `go:`.
    Go,
    /// `http:`; such a name is not checked.
    Http,
    /// `core:`, and names without a prefix.
    Strict,
}

pub const PACKAGE_NAME_PATTERN: &'static str = r"^[@a-zA-Z0-9/_.\-\[\],]+$";

pub const REPOSITORY_NAME_PATTERN: &'static str = r"^[a-zA-Z0-9/_.\-]+$";

pub const GO_MODULE_PATTERN: &'static str = r"^[a-zA-Z0-9/_.\-]+$";

pub const STRICT_NAME_PATTERN: &'static str = r"^[a-zA-Z0-9_-]+$";

pub const PLUGIN_URL_PATTERN: &'static str = r"^(https://|git://|git@)[\w\-\.]+[:/][\w\-\./#]+$";

/// Whether the regular expression `pattern` has a match in `text`; `None` where
/// `pattern` is not a regular expression that the `regex` crate compiles.
pub uninterp spec fn regex_match(pattern: Seq<char>, text: Seq<char>) -> Option<bool>;

/// Compiles `pattern` with `regex::Regex::new` and asks `Regex::is_match` for
/// `text`. Both are functions of their arguments alone, so the answer is the
/// named value [`regex_match`]; a pattern that does not compile gives `None`.
#[verifier::external_body]
fn regex_is_match(pattern: &str, text: &str) -> (r: Option<bool>)
    ensures
        r == regex_match(pattern@, text@),
{
    match regex::Regex::new(pattern) {
        Ok(re) => Some(re.is_match(text)),
        Err(_) => None,
    }
}

/// The backend of `name` and the part of `name` that its rules apply to.
///
/// Known prefixes are tried in a fixed order; any other text before a first
/// `:` counts as a repository prefix; a name without `:` is strict.
pub open spec fn backend_of(name: Seq<char>) -> (BackendType, Seq<char>) {
    if let Some(rest) = after_prefix("npm:"@, name) {
        (BackendType::PackageManager, rest)
    } else if let Some(rest) = after_prefix("pipx:"@, name) {
        (BackendType::PackageManager, rest)
    } else if let Some(rest) = after_prefix("cargo:"@, name) {
        (BackendType::PackageManager, rest)
    } else if let Some(rest) = after_prefix("gem:"@, name) {
        (BackendType::PackageManager, rest)
    } else if let Some(rest) = after_prefix("dotnet:"@, name) {
        (BackendType::PackageManager, rest)
    } else if let Some(rest) = after_prefix("aqua:"@, name) {
        (BackendType::Repository, rest)
    } else if let Some(rest) = after_prefix("github:"@, name) {
        (BackendType::Repository, rest)
    } else if let Some(rest) = after_prefix("gitlab:"@, name) {
        (BackendType::Repository, rest)
    } else if let Some(rest) = after_prefix("ubi:"@, name) {
        (BackendType::Repository, rest)
    } else if let Some(rest) = after_prefix("asdf:"@, name) {
        (BackendType::Repository, rest)
    } else if let Some(rest) = after_prefix("vfox:"@, name) {
        (BackendType::Repository, rest)
    } else if let Some(rest) = after_prefix("vfox-backend:"@, name) {
        (BackendType::Repository, rest)
    } else if let Some(rest) = after_prefix("spm:"@, name) {
        (BackendType::Repository, rest)
    } else if let Some(rest) = after_prefix("go:"@, name) {
        (BackendType::Go, rest)
    } else if let Some(rest) = after_prefix("http:"@, name) {
        (BackendType::Http, rest)
    } else if let Some(rest) = after_prefix("core:"@, name) {
        (BackendType::Strict, rest)
    } else if first_index_of(name, ':') < name.len() {
        (BackendType::Repository, name.subrange(first_index_of(name, ':') + 1, name.len() as int))
    } else {
        (BackendType::Strict, name)
    }
}

/// Splits `name` into its backend and the part that the backend's rules check.
pub fn determine_backend_type(name: &str) -> (r: (BackendType, &str))
    ensures
        r.0 == backend_of(name@).0,
        r.1@ == backend_of(name@).1,
{
    if let Some(rest) = strip_prefix(name, "npm:") {
        return (BackendType::PackageManager, rest);
    }
    if let Some(rest) = strip_prefix(name, "pipx:") {
        return (BackendType::PackageManager, rest);
    }
    if let Some(rest) = strip_prefix(name, "cargo:") {
        return (BackendType::PackageManager, rest);
    }
    if let Some(rest) = strip_prefix(name, "gem:") {
        return (BackendType::PackageManager, rest);
    }
    if let Some(rest) = strip_prefix(name, "dotnet:") {
        return (BackendType::PackageManager, rest);
    }
    if let Some(rest) = strip_prefix(name, "aqua:") {
        return (BackendType::Repository, rest);
    }
    if let Some(rest) = strip_prefix(name, "github:") {
        return (BackendType::Repository, rest);
    }
    if let Some(rest) = strip_prefix(name, "gitlab:") {
        return (BackendType::Repository, rest);
    }
    if let Some(rest) = strip_prefix(name, "ubi:") {
        return (BackendType::Repository, rest);
    }
    if let Some(rest) = strip_prefix(name, "asdf:") {
        return (BackendType::Repository, rest);
    }
    if let Some(rest) = strip_prefix(name, "vfox:") {
        return (BackendType::Repository, rest);
    }
    if let Some(rest) = strip_prefix(name, "vfox-backend:") {
        return (BackendType::Repository, rest);
    }
    if let Some(rest) = strip_prefix(name, "spm:") {
        return (BackendType::Repository, rest);
    }
    if let Some(rest) = strip_prefix(name, "go:") {
        return (BackendType::Go, rest);
    }
    if let Some(rest) = strip_prefix(name, "http:") {
        return (BackendType::Http, rest);
    }
    if let Some(rest) = strip_prefix(name, "core:") {
        return (BackendType::Strict, rest);
    }
    let len = name.unicode_len();
    match find_char(name, ':') {
        Some(idx) => (BackendType::Repository, name.substring_char(idx + 1, len)),
        None => (BackendType::Strict, name),
    }
}

/// The regular expression that the checked part of a name must match.
pub open spec fn pattern_of(backend: BackendType) -> Seq<char> {
    match backend {
        BackendType::PackageManager => PACKAGE_NAME_PATTERN@,
        BackendType::Repository => REPOSITORY_NAME_PATTERN@,
        BackendType::Go => GO_MODULE_PATTERN@,
        BackendType::Http => Seq::empty(),
        BackendType::Strict => STRICT_NAME_PATTERN@,
    }
}

/// Examples of valid names of a backend, with which every refusal of a name
/// ends.
pub open spec fn examples_of(backend: BackendType) -> Seq<char> {
    match backend {
        BackendType::PackageManager =>
            "Examples: 'npm:cowsay', 'npm:@scope/package', 'pipx:package[extra]'"@,
        BackendType::Repository => "Examples: 'aqua:cli/cli', 'github:owner/repo'"@,
        BackendType::Go => "Examples: 'go:github.com/owner/repo/cmd/tool'"@,
        BackendType::Http => "Examples: 'http:https://example.com/tool'"@,
        BackendType::Strict =>
            "Examples: 'node', 'python-3', 'my_tool'. For backend-prefixed tools, use formats like 'npm:@scope/package' or 'aqua:owner/repo'."@,
    }
}

/// Why a name is refused when nothing follows its prefix.
pub open spec fn empty_part_text(backend: BackendType) -> Seq<char> {
    match backend {
        BackendType::PackageManager => "Package name after prefix cannot be empty. "@,
        BackendType::Repository => "Repository path after prefix cannot be empty. "@,
        BackendType::Go => "Go module path after prefix cannot be empty. "@,
        BackendType::Http => Seq::empty(),
        BackendType::Strict => "Tool name cannot be empty. "@,
    }
}

/// Why a name is refused when it holds a character outside its class.
pub open spec fn charset_text(backend: BackendType) -> Seq<char> {
    match backend {
        BackendType::PackageManager =>
            "Package manager tool names can contain alphanumeric characters, @, /, -, _, ., [, ], ,. "@,
        BackendType::Repository =>
            "Repository tool names can contain alphanumeric characters, /, -, _, .. "@,
        BackendType::Go => "Go module paths can contain alphanumeric characters, /, -, _, .. "@,
        BackendType::Http => Seq::empty(),
        BackendType::Strict =>
            "Standalone tool names must contain only alphanumeric characters, hyphens, and underscores. "@,
    }
}

/// The text of a refusal: what kind of entry it is (`lead`), the entry
/// itself between quotes, why it is refused, and examples of valid entries.
pub open spec fn refusal_text(
    lead: Seq<char>,
    entry: Seq<char>,
    reason: Seq<char>,
    examples: Seq<char>,
) -> Seq<char> {
    lead + entry + "'. "@ + reason + examples
}

/// The verdict on a name of backend `backend`, whose checked part is `part`,
/// given the answer `matched` of the match of `part` against the backend's
/// pattern. The name passes only where the part is not empty and matched.
/// Every refusal names the whole name and ends with examples of valid names.
pub open spec fn name_verdict_of(
    backend: BackendType,
    full_name: Seq<char>,
    part: Seq<char>,
    matched: Option<bool>,
) -> Result<(), ErrorView> {
    if backend == BackendType::Http {
        Ok(())
    } else if part.len() == 0 {
        Err(
            ErrorView::Config(
                refusal_text(
                    "Invalid tool name '"@,
                    full_name,
                    empty_part_text(backend),
                    examples_of(backend),
                ),
            ),
        )
    } else if matched == Some(true) {
        Ok(())
    } else {
        Err(
            ErrorView::Config(
                refusal_text(
                    "Invalid tool name '"@,
                    full_name,
                    charset_text(backend),
                    examples_of(backend),
                ),
            ),
        )
    }
}

/// The view of a result that carries nothing on success.
pub open spec fn verdict_view(r: Result<(), RazdError>) -> Result<(), ErrorView> {
    match r {
        Ok(_) => Ok(()),
        Err(e) => Err(e@),
    }
}

/// The examples of valid names of `backend`.
pub fn examples(backend: BackendType) -> (r: &'static str)
    ensures
        r@ == examples_of(backend),
{
    match backend {
        BackendType::PackageManager =>
            "Examples: 'npm:cowsay', 'npm:@scope/package', 'pipx:package[extra]'",
        BackendType::Repository => "Examples: 'aqua:cli/cli', 'github:owner/repo'",
        BackendType::Go => "Examples: 'go:github.com/owner/repo/cmd/tool'",
        BackendType::Http => "Examples: 'http:https://example.com/tool'",
        BackendType::Strict =>
            "Examples: 'node', 'python-3', 'my_tool'. For backend-prefixed tools, use formats like 'npm:@scope/package' or 'aqua:owner/repo'.",
    }
}

/// The error that refuses `entry`.
pub fn refusal(lead: &str, entry: &str, reason: &str, examples: &str) -> (e: RazdError)
    ensures
        e@ == ErrorView::Config(refusal_text(lead@, entry@, reason@, examples@)),
{
    let mut msg = join3(lead, entry, "'. ");
    msg.append(reason);
    msg.append(examples);
    RazdError::config(msg.as_str())
}

/// Decides on a name from its backend, its checked part and the outcome of the
/// pattern match.
pub fn name_verdict(backend: BackendType, full_name: &str, part: &str, matched: Option<bool>) -> (r:
    Result<(), RazdError>)
    ensures
        verdict_view(r) == name_verdict_of(backend, full_name@, part@, matched),
{
    if backend == BackendType::Http {
        return Ok(());
    }
    if part.unicode_len() == 0 {
        let reason = match backend {
            BackendType::PackageManager => "Package name after prefix cannot be empty. ",
            BackendType::Repository => "Repository path after prefix cannot be empty. ",
            BackendType::Go => "Go module path after prefix cannot be empty. ",
            BackendType::Http => "",
            BackendType::Strict => "Tool name cannot be empty. ",
        };
        return Err(refusal("Invalid tool name '", full_name, reason, examples(backend)));
    }
    match matched {
        Some(true) => Ok(()),
        _ => {
            let reason = match backend {
                BackendType::PackageManager =>
                    "Package manager tool names can contain alphanumeric characters, @, /, -, _, ., [, ], ,. ",
                BackendType::Repository =>
                    "Repository tool names can contain alphanumeric characters, /, -, _, .. ",
                BackendType::Go =>
                    "Go module paths can contain alphanumeric characters, /, -, _, .. ",
                BackendType::Http => "",
                BackendType::Strict =>
                    "Standalone tool names must contain only alphanumeric characters, hyphens, and underscores. ",
            };
            Err(refusal("Invalid tool name '", full_name, reason, examples(backend)))
        },
    }
}

/// Checks the part `name` of the package-manager tool `full_name`.
pub fn validate_package_manager_name(full_name: &str, name: &str) -> (r: Result<(), RazdError>)
    ensures
        verdict_view(r) == name_verdict_of(
            BackendType::PackageManager,
            full_name@,
            name@,
            regex_match(PACKAGE_NAME_PATTERN@, name@),
        ),
{
    let matched = regex_is_match(PACKAGE_NAME_PATTERN, name);
    name_verdict(BackendType::PackageManager, full_name, name, matched)
}

/// Checks the part `name` of the repository tool `full_name`.
pub fn validate_repository_name(full_name: &str, name: &str) -> (r: Result<(), RazdError>)
    ensures
        verdict_view(r) == name_verdict_of(
            BackendType::Repository,
            full_name@,
            name@,
            regex_match(REPOSITORY_NAME_PATTERN@, name@),
        ),
{
    let matched = regex_is_match(REPOSITORY_NAME_PATTERN, name);
    name_verdict(BackendType::Repository, full_name, name, matched)
}

/// Checks the module path `name` of the Go tool `full_name`.
pub fn validate_go_module_path(full_name: &str, name: &str) -> (r: Result<(), RazdError>)
    ensures
        verdict_view(r) == name_verdict_of(
            BackendType::Go,
            full_name@,
            name@,
            regex_match(GO_MODULE_PATTERN@, name@),
        ),
{
    let matched = regex_is_match(GO_MODULE_PATTERN, name);
    name_verdict(BackendType::Go, full_name, name, matched)
}

/// Checks the part `name` of the core or unprefixed tool `full_name`.
pub fn validate_strict_name(full_name: &str, name: &str) -> (r: Result<(), RazdError>)
    ensures
        verdict_view(r) == name_verdict_of(
            BackendType::Strict,
            full_name@,
            name@,
            regex_match(STRICT_NAME_PATTERN@, name@),
        ),
{
    let matched = regex_is_match(STRICT_NAME_PATTERN, name);
    name_verdict(BackendType::Strict, full_name, name, matched)
}

/// The verdict on a tool or plugin name.
pub open spec fn tool_name_outcome(name: Seq<char>) -> Result<(), ErrorView> {
    let (backend, part) = backend_of(name);
    name_verdict_of(backend, name, part, regex_match(pattern_of(backend), part))
}

/// Whether `name` is an acceptable tool or plugin name.
///
/// The backend of the name decides: an `http:` name always passes; any
/// other passes exactly when something follows the prefix and all of it
/// matches the backend's pattern. An empty name has nothing to match and is
/// refused.
pub fn validate_tool_name(name: &str) -> (r: Result<(), RazdError>)
    ensures
        verdict_view(r) == tool_name_outcome(name@),
{
    let (backend, part) = determine_backend_type(name);
    match backend {
        BackendType::Http => Ok(()),
        BackendType::PackageManager => validate_package_manager_name(name, part),
        BackendType::Repository => validate_repository_name(name, part),
        BackendType::Go => validate_go_module_path(name, part),
        BackendType::Strict => validate_strict_name(name, part),
    }
}

/// Every refusal of a name is a configuration error whose text names the
/// whole name, prefix included, and ends with examples of valid names.
pub proof fn law_refusal_names_entry_and_example(name: Seq<char>)
    ensures
        match tool_name_outcome(name) {
            Ok(_) => true,
            Err(ErrorView::Config(text)) => is_prefix("Invalid tool name '"@ + name + "'"@, text)
                && is_suffix(examples_of(backend_of(name).0), text),
            Err(_) => false,
        },
{
    let backend = backend_of(name).0;
    match tool_name_outcome(name) {
        Err(ErrorView::Config(text)) => {
            let lead = "Invalid tool name '"@ + name + "'"@;
            let examples = examples_of(backend);
            reveal_strlit("'. ");
            reveal_strlit("'");
            assert(text.subrange(0, lead.len() as int) =~= lead);
            assert(text.subrange(text.len() - examples.len(), text.len() as int) =~= examples);
        },
        _ => {},
    }
}

/// Examples of valid plugin URLs, with which every refusal of a URL ends.
pub const PLUGIN_URL_EXAMPLES: &'static str =
    "Examples: 'https://github.com/org/repo.git', 'https://github.com/org/repo.git#ref'";

/// The verdict on a plugin URL, given the answer `matched` of its match
/// against [`PLUGIN_URL_PATTERN`]. Every refusal names the URL and ends
/// with examples of valid URLs.
pub open spec fn plugin_url_verdict_of(url: Seq<char>, matched: Option<bool>) -> Result<
    (),
    ErrorView,
> {
    if url.len() == 0 {
        Err(
            ErrorView::Config(
                refusal_text(
                    "Invalid plugin URL '"@,
                    url,
                    "Plugin URL cannot be empty. "@,
                    PLUGIN_URL_EXAMPLES@,
                ),
            ),
        )
    } else if matched == Some(true) {
        Ok(())
    } else {
        Err(
            ErrorView::Config(
                refusal_text(
                    "Invalid plugin URL '"@,
                    url,
                    "Plugin URLs must be valid git repository URLs. "@,
                    PLUGIN_URL_EXAMPLES@,
                ),
            ),
        )
    }
}

/// Decides on a plugin URL from the outcome of the pattern match.
pub fn plugin_url_verdict(url: &str, matched: Option<bool>) -> (r: Result<(), RazdError>)
    ensures
        verdict_view(r) == plugin_url_verdict_of(url@, matched),
{
    if url.unicode_len() == 0 {
        return Err(
            refusal("Invalid plugin URL '", url, "Plugin URL cannot be empty. ", PLUGIN_URL_EXAMPLES),
        );
    }
    match matched {
        Some(true) => Ok(()),
        _ => Err(
            refusal(
                "Invalid plugin URL '",
                url,
                "Plugin URLs must be valid git repository URLs. ",
                PLUGIN_URL_EXAMPLES,
            ),
        ),
    }
}

/// Whether `url` has the shape of a git URL: `https://`, `git://` or
/// `git@`, a host, `:` or `/`, and a path that may end in `#ref`.
pub fn validate_plugin_url(url: &str) -> (r: Result<(), RazdError>)
    ensures
        verdict_view(r) == plugin_url_verdict_of(url@, regex_match(PLUGIN_URL_PATTERN@, url@)),
{
    let matched = regex_is_match(PLUGIN_URL_PATTERN, url);
    plugin_url_verdict(url, matched)
}

/// Every refusal of a plugin URL is a configuration error whose text names
/// the URL and ends with examples of valid URLs.
pub proof fn law_url_refusal_names_entry_and_example(url: Seq<char>, matched: Option<bool>)
    ensures
        match plugin_url_verdict_of(url, matched) {
            Ok(_) => true,
            Err(ErrorView::Config(text)) => is_prefix("Invalid plugin URL '"@ + url + "'"@, text)
                && is_suffix(PLUGIN_URL_EXAMPLES@, text),
            Err(_) => false,
        },
{
    match plugin_url_verdict_of(url, matched) {
        Err(ErrorView::Config(text)) => {
            let lead = "Invalid plugin URL '"@ + url + "'"@;
            reveal_strlit("'. ");
            reveal_strlit("'");
            assert(text.subrange(0, lead.len() as int) =~= lead);
            assert(text.subrange(text.len() - PLUGIN_URL_EXAMPLES@.len(), text.len() as int)
                =~= PLUGIN_URL_EXAMPLES@);
        },
        _ => {},
    }
}

} // verus!

//! Where the proxy keeps its files, given the directories the operating
//! system reports (read by the caller): configuration, metrics database
//! and the OpenCode configuration.

use vstd::prelude::*;
use crate::text::{chars_of, string_from_chars, append_str};

verus! {

/// A relative path pushed onto a path, as `PathBuf::push` joins them: a
/// separator goes between unless the base is empty or already ends in one.
pub open spec fn join(base: Seq<char>, rel: Seq<char>) -> Seq<char> {
    if base.len() == 0 {
        rel
    } else if base.last() == '/' {
        base + rel
    } else {
        base + "/"@ + rel
    }
}

fn join_exec(base: &str, rel: &str) -> (r: String)
    ensures
        r@ == join(base@, rel@),
{
    let cs = chars_of(base);
    let mut out: Vec<char> = Vec::new();
    append_str(&mut out, base);
    if cs.len() > 0 && cs[cs.len() - 1] != '/' {
        append_str(&mut out, "/");
    }
    append_str(&mut out, rel);
    proof {
        reveal_strlit("/");
        if base@.len() == 0 {
            assert(out@ =~= rel@);
        }
    }
    string_from_chars(&out)
}

/// The configuration directory: `coderouter` under the system's
/// configuration directory, or under `.` when there is none.
pub open spec fn config_dir_of(system_config: Option<Seq<char>>) -> Seq<char> {
    join(
        match system_config {
            Some(d) => d,
            None => "."@,
        },
        "coderouter"@,
    )
}

pub open spec fn opt_view(o: Option<&str>) -> Option<Seq<char>> {
    match o {
        Some(s) => Some(s@),
        None => None,
    }
}

/// The configuration directory; see [`config_dir_of`].
pub fn config_dir(system_config: Option<&str>) -> (r: String)
    ensures
        r@ == config_dir_of(opt_view(system_config)),
{
    let base = match system_config {
        Some(d) => d,
        None => ".",
    };
    join_exec(base, "coderouter")
}

/// The path of `providers.json` in the configuration directory.
pub fn providers_path(system_config: Option<&str>) -> (r: String)
    ensures
        r@ == join(config_dir_of(opt_view(system_config)), "providers.json"@),
{
    let d = config_dir(system_config);
    join_exec(d.as_str(), "providers.json")
}

/// The path of `groups.json` in the configuration directory.
pub fn groups_path(system_config: Option<&str>) -> (r: String)
    ensures
        r@ == join(config_dir_of(opt_view(system_config)), "groups.json"@),
{
    let d = config_dir(system_config);
    join_exec(d.as_str(), "groups.json")
}

/// The path of `config.json` in the configuration directory.
pub fn app_config_path(system_config: Option<&str>) -> (r: String)
    ensures
        r@ == join(config_dir_of(opt_view(system_config)), "config.json"@),
{
    let d = config_dir(system_config);
    join_exec(d.as_str(), "config.json")
}

/// The path of the metrics database: `coderouter/metrics.db` under the
/// system's local data directory, or under `/tmp` when there is none.
pub fn db_path(system_data_local: Option<&str>) -> (r: String)
    ensures
        r@ == join(
            join(
                match opt_view(system_data_local) {
                    Some(d) => d,
                    None => "/tmp"@,
                },
                "coderouter"@,
            ),
            "metrics.db"@,
        ),
{
    let base = match system_data_local {
        Some(d) => d,
        None => "/tmp",
    };
    let d = join_exec(base, "coderouter");
    join_exec(d.as_str(), "metrics.db")
}

/// The default OpenCode configuration: `.config/opencode/opencode.json`
/// under the home directory, when there is one.
pub fn detect_opencode_config(home: Option<&str>) -> (r: Option<String>)
    ensures
        match opt_view(home) {
            Some(h) => r matches Some(p) && p@ == join(h, ".config/opencode/opencode.json"@),
            None => r is None,
        },
{
    match home {
        Some(h) => Some(join_exec(h, ".config/opencode/opencode.json")),
        None => None,
    }
}

/// Where a copy of the OpenCode configuration is kept:
/// `coderouter/opencode.json` under the system's configuration directory,
/// when there is one.
pub fn opencode_cache_path(system_config: Option<&str>) -> (r: Option<String>)
    ensures
        match opt_view(system_config) {
            Some(d) => r matches Some(p) && p@ == join(d, "coderouter/opencode.json"@),
            None => r is None,
        },
{
    match system_config {
        Some(d) => Some(join_exec(d, "coderouter/opencode.json")),
        None => None,
    }
}

/// The OpenCode configuration to use: a stored, non-empty path that can be
/// used (it exists, or its parent directory does), else the default one.
pub fn resolve_opencode_config_path(stored_path: Option<&str>, stored_usable: bool, home: Option<&str>) -> (r: Option<String>)
    ensures
        match stored_path {
            Some(s) if s@.len() > 0 && stored_usable => r matches Some(p) && p@ == s@,
            _ => match opt_view(home) {
                Some(h) => r matches Some(p) && p@ == join(h, ".config/opencode/opencode.json"@),
                None => r is None,
            },
        },
{
    match stored_path {
        Some(s) => {
            if s.unicode_len() > 0 && stored_usable {
                return Some(String::from_str(s));
            }
        },
        None => {},
    }
    detect_opencode_config(home)
}

} // verus!

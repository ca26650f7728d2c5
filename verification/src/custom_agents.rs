//! Custom OpenCode agents kept as markdown files with YAML frontmatter:
//! their permission and mode types, the splitting of a file into
//! frontmatter and prompt, file names, and the checks made before an agent
//! is written.

use vstd::prelude::*;
use crate::text::{
    chars_of, string_from_chars, trim_chars, trim_ws, trim_start_ws, has_prefix, find_seq, find_chars,
    replace_crlf, crlf_to_lf, leading_ws, chars_slice, append_str, str_starts_with, decimal,
    append_decimal, cat, cat3,
};
use crate::ssrf::{lowercase, str_to_lowercase};

verus! {

/// Permission level for a tool or command pattern.
#[derive(Clone, Copy, Debug, PartialEq, Eq, Structural)]
pub enum PermissionLevel {
    Allow,
    Deny,
    Ask,
}

/// The lower-case name of a permission level.
pub open spec fn permission_name(p: PermissionLevel) -> Seq<char> {
    match p {
        PermissionLevel::Allow => "allow"@,
        PermissionLevel::Deny => "deny"@,
        PermissionLevel::Ask => "ask"@,
    }
}

impl PermissionLevel {
    /// The lower-case name of the level.
    pub fn as_str(&self) -> (r: &'static str)
        ensures
            r@ == permission_name(*self),
    {
        match self {
            PermissionLevel::Allow => "allow",
            PermissionLevel::Deny => "deny",
            PermissionLevel::Ask => "ask",
        }
    }
}

/// Bash permission: one level, or levels by command pattern (in order).
#[derive(Clone, Debug)]
pub enum BashPermission {
    Simple(PermissionLevel),
    Commands(Vec<(String, PermissionLevel)>),
}

/// Tool access permissions of an agent; absent fields are not set.
#[derive(Clone, Debug)]
pub struct AgentPermissions {
    pub edit: Option<PermissionLevel>,
    pub bash: Option<BashPermission>,
    pub webfetch: Option<PermissionLevel>,
    pub task: Option<Vec<(String, PermissionLevel)>>,
}

impl Default for AgentPermissions {
    fn default() -> (r: Self)
        ensures
            r.edit is None && r.bash is None && r.webfetch is None && r.task is None,
    {
        AgentPermissions { edit: None, bash: None, webfetch: None, task: None }
    }
}

/// How an agent can be invoked.
#[derive(Clone, Copy, Debug, PartialEq, Eq, Structural)]
pub enum AgentMode {
    Primary,
    Subagent,
    All,
}

impl Default for AgentMode {
    /// Agents are subagents unless set otherwise.
    fn default() -> (r: Self)
        ensures
            r == AgentMode::Subagent,
    {
        AgentMode::Subagent
    }
}

/// The lower-case name of a mode.
pub open spec fn mode_name(m: AgentMode) -> Seq<char> {
    match m {
        AgentMode::Primary => "primary"@,
        AgentMode::Subagent => "subagent"@,
        AgentMode::All => "all"@,
    }
}

impl AgentMode {
    /// The lower-case name of the mode.
    pub fn to_string(&self) -> (r: String)
        ensures
            r@ == mode_name(*self),
    {
        match self {
            AgentMode::Primary => String::from_str("primary"),
            AgentMode::Subagent => String::from_str("subagent"),
            AgentMode::All => String::from_str("all"),
        }
    }
}

// ---------------------------------------------------------------------------
// Frontmatter
// ---------------------------------------------------------------------------

/// How a file splits into frontmatter and prompt: with CRLF read as LF and
/// leading white space skipped, the text opens with `---`; the frontmatter
/// runs to the first `\n---\n`, or to a final `\n---` when that is the first
/// `\n---`; both parts are trimmed.
pub open spec fn frontmatter_split(contents: Seq<char>) -> Result<(Seq<char>, Seq<char>), Seq<char>> {
    let trimmed = trim_start_ws(replace_crlf(contents));
    if !has_prefix(trimmed, "---"@) {
        Err("Missing frontmatter opening delimiter"@)
    } else {
        let rest = trimmed.skip(3);
        let end = match find_seq(rest, "\n---\n"@) {
            Some(p) => Some(p),
            None => match find_seq(rest, "\n---"@) {
                Some(p) => if p + 4 == rest.len() {
                    Some(p)
                } else {
                    None
                },
                None => None,
            },
        };
        match end {
            Some(e) => Ok((trim_ws(rest.take(e)), trim_ws(rest.skip(e + 4)))),
            None => Err("Missing frontmatter closing delimiter"@),
        }
    }
}

proof fn lemma_find_bounds(s: Seq<char>, p: Seq<char>, i: int)
    requires
        0 <= i,
    ensures
        find_from_bounds(s, p, i),
    decreases s.len() - i,
{
    if i + p.len() > s.len() {
    } else if s.subrange(i, i + p.len()) == p {
    } else if i >= s.len() {
    } else {
        lemma_find_bounds(s, p, i + 1);
    }
}

pub open spec fn find_from_bounds(s: Seq<char>, p: Seq<char>, i: int) -> bool {
    match crate::text::find_from(s, p, i) {
        Some(k) => i <= k && k + p.len() <= s.len() && s.subrange(k, k + p.len()) == p,
        None => true,
    }
}

/// Splits a markdown file into its YAML frontmatter and its prompt; see
/// [`frontmatter_split`].
pub fn split_frontmatter(contents: &str) -> (r: Result<(String, String), String>)
    ensures
        match r {
            Ok((yaml, body)) => frontmatter_split(contents@) == Ok::<(Seq<char>, Seq<char>), Seq<char>>((yaml@, body@)),
            Err(e) => frontmatter_split(contents@) == Err::<(Seq<char>, Seq<char>), Seq<char>>(e@),
        },
{
    let normalized = crlf_to_lf(&chars_of(contents));
    let a = leading_ws(&normalized);
    let trimmed = chars_slice(&normalized, a, normalized.len());
    assert(trimmed@ =~= trim_start_ws(replace_crlf(contents@)));
    let open = chars_of("---");
    proof {
        reveal_strlit("---");
    }
    if !crate::text::chars_starts_with(&trimmed, &open) {
        return Err(String::from_str("Missing frontmatter opening delimiter"));
    }
    let rest = chars_slice(&trimmed, 3, trimmed.len());
    assert(rest@ =~= trimmed@.skip(3));
    let close_nl = chars_of("\n---\n");
    let close_end = chars_of("\n---");
    proof {
        reveal_strlit("\n---\n");
        reveal_strlit("\n---");
        lemma_find_bounds(rest@, close_nl@, 0);
        lemma_find_bounds(rest@, close_end@, 0);
    }
    let end: usize = match find_chars(&rest, &close_nl) {
        Some(p) => p,
        None => match find_chars(&rest, &close_end) {
            Some(p) => {
                if p + 4 == rest.len() {
                    p
                } else {
                    return Err(String::from_str("Missing frontmatter closing delimiter"));
                }
            },
            None => {
                return Err(String::from_str("Missing frontmatter closing delimiter"));
            },
        },
    };
    let head = chars_slice(&rest, 0, end);
    let tail = chars_slice(&rest, end + 4, rest.len());
    assert(head@ =~= rest@.take(end as int));
    assert(tail@ =~= rest@.skip(end + 4));
    let yaml = trim_chars(&head);
    let body = trim_chars(&tail);
    Ok((string_from_chars(&yaml), string_from_chars(&body)))
}

// ---------------------------------------------------------------------------
// File names
// ---------------------------------------------------------------------------

/// Whether a character is alphanumeric, as `char::is_alphanumeric` decides.
pub uninterp spec fn alphanumeric(c: char) -> bool;

/// `char::is_alphanumeric`; the result is named [`alphanumeric`] (the
/// Unicode tables it reads are not stated here).
#[verifier::external_body]
fn char_is_alphanumeric(c: char) -> (r: bool)
    ensures
        r == alphanumeric(c),
{
    c.is_alphanumeric()
}

/// Spaces and underscores become hyphens.
pub open spec fn hyphenate(c: char) -> char {
    if c == ' ' || c == '_' {
        '-'
    } else {
        c
    }
}

/// The characters a file name keeps.
pub open spec fn keeps(c: char) -> bool {
    alphanumeric(c) || c == '-'
}

/// The kept characters of a text, hyphenated, in order.
pub open spec fn filename_chars(s: Seq<char>) -> Seq<char>
    decreases s.len(),
{
    if s.len() == 0 {
        Seq::empty()
    } else {
        let prefix = filename_chars(s.drop_last());
        let c = hyphenate(s.last());
        if keeps(c) {
            prefix.push(c)
        } else {
            prefix
        }
    }
}

/// The file name of an agent: its name lower-cased and trimmed, spaces and
/// underscores as hyphens, and only alphanumeric characters and hyphens.
pub open spec fn sanitized(name: Seq<char>) -> Seq<char> {
    filename_chars(trim_ws(lowercase(name)))
}

/// Makes an agent name into a safe file name; see [`sanitized`].
pub fn sanitize_filename(name: &str) -> (r: String)
    ensures
        r@ == sanitized(name@),
{
    let lower = str_to_lowercase(name);
    let t = trim_chars(&chars_of(lower.as_str()));
    let mut out: Vec<char> = Vec::new();
    let mut i: usize = 0;
    while i < t.len()
        invariant
            i <= t@.len(),
            out@ == filename_chars(t@.take(i as int)),
        decreases t.len() - i,
    {
        let c0 = t[i];
        let c = if c0 == ' ' || c0 == '_' {
            '-'
        } else {
            c0
        };
        if char_is_alphanumeric(c) || c == '-' {
            out.push(c);
        }
        proof {
            assert(t@.take(i + 1).drop_last() =~= t@.take(i as int));
        }
        i = i + 1;
    }
    assert(t@.take(i as int) =~= t@);
    string_from_chars(&out)
}

/// The file name to try on the given attempt: `<base>.md` first, then
/// `<base>-1.md`, `<base>-2.md` and so on.
pub open spec fn candidate_name(base: Seq<char>, attempt: u32) -> Seq<char> {
    if attempt == 0 {
        base + ".md"@
    } else {
        base + "-"@ + decimal(attempt as nat) + ".md"@
    }
}

/// Formats the file name to try on an attempt; see [`candidate_name`].
pub fn candidate_file_name(base: &str, attempt: u32) -> (r: String)
    ensures
        r@ == candidate_name(base@, attempt),
{
    let mut out: Vec<char> = Vec::new();
    append_str(&mut out, base);
    if attempt > 0 {
        append_str(&mut out, "-");
        append_decimal(&mut out, attempt as u64);
    }
    append_str(&mut out, ".md");
    string_from_chars(&out)
}

// ---------------------------------------------------------------------------
// Names compared without ASCII case
// ---------------------------------------------------------------------------

pub open spec fn ascii_lower(c: char) -> char {
    if 'A' <= c && c <= 'Z' {
        ((c as u32) + 32) as char
    } else {
        c
    }
}

/// Equal up to ASCII case, as `str::eq_ignore_ascii_case` decides.
pub open spec fn eq_ignore_ascii_case(a: Seq<char>, b: Seq<char>) -> bool {
    a.len() == b.len() && forall|i: int| 0 <= i < a.len() ==> ascii_lower(#[trigger] a[i]) == ascii_lower(b[i])
}

fn lower_ascii(c: char) -> (r: char)
    ensures
        r == ascii_lower(c),
{
    if 'A' <= c && c <= 'Z' {
        let u = (c as u32) + 32;
        let b = u as u8;
        b as char
    } else {
        c
    }
}

/// Compares two names without ASCII case.
pub fn names_match(a: &str, b: &str) -> (r: bool)
    ensures
        r == eq_ignore_ascii_case(a@, b@),
{
    let ca = chars_of(a);
    let cb = chars_of(b);
    if ca.len() != cb.len() {
        return false;
    }
    let mut i: usize = 0;
    while i < ca.len()
        invariant
            i <= ca@.len(),
            ca@ == a@,
            cb@ == b@,
            ca@.len() == cb@.len(),
            forall|k: int| 0 <= k < i ==> ascii_lower(#[trigger] ca@[k]) == ascii_lower(cb@[k]),
        decreases ca.len() - i,
    {
        if lower_ascii(ca[i]) != lower_ascii(cb[i]) {
            return false;
        }
        i = i + 1;
    }
    true
}

/// The index of the first name that matches without ASCII case.
pub open spec fn first_match_index(names: Seq<String>, name: Seq<char>) -> Option<int> {
    crate::seqs::first_index(names, |n: String| eq_ignore_ascii_case(n@, name))
}

/// The stored name of the agent a name refers to: the first listed agent
/// whose name matches without ASCII case, or the not-found error.
pub fn find_agent_name(name: &str, existing: &Vec<String>) -> (r: Result<String, String>)
    ensures
        match first_match_index(existing@, name@) {
            Some(i) => r matches Ok(s) && s@ == existing@[i]@,
            None => r matches Err(e) && e@ == "Agent '"@ + name@ + "' not found"@,
        },
{
    let mut i: usize = 0;
    while i < existing.len()
        invariant
            i <= existing@.len(),
            forall|k: int| 0 <= k < i ==> !eq_ignore_ascii_case((#[trigger] existing@[k])@, name@),
        decreases existing.len() - i,
    {
        if names_match(existing[i].as_str(), name) {
            proof {
                crate::seqs::lemma_first_index_unique(existing@, |n: String| eq_ignore_ascii_case(n@, name@), i as int);
            }
            return Ok(String::from_str(existing[i].as_str()));
        }
        i = i + 1;
    }
    proof {
        crate::seqs::lemma_first_index_none(existing@, |n: String| eq_ignore_ascii_case(n@, name@));
    }
    Err(cat3("Agent '", name, "' not found"))
}

// ---------------------------------------------------------------------------
// Checks before writing an agent
// ---------------------------------------------------------------------------

/// Why an agent cannot be written, if it cannot: an empty file name, a
/// blank description or prompt, or a file name taken by another agent (one
/// whose name does not match `skip` without ASCII case).
pub open spec fn agent_write_error(
    name: Seq<char>,
    description: Seq<char>,
    prompt: Seq<char>,
    existing: Seq<String>,
    skip: Option<Seq<char>>,
) -> Option<Seq<char>> {
    if sanitized(name).len() == 0 {
        Some("Agent name is empty after sanitization"@)
    } else if trim_ws(description).len() == 0 {
        Some("Agent description must not be empty"@)
    } else if trim_ws(prompt).len() == 0 {
        Some("Agent prompt must not be empty"@)
    } else if exists|i: int|
        0 <= i < existing.len() && !(match skip {
            Some(s) => eq_ignore_ascii_case(existing[i]@, s),
            None => false,
        }) && #[trigger] sanitized(existing[i]@) == sanitized(name) {
        Some("Agent '"@ + name + "' already exists"@)
    } else {
        None
    }
}

/// Checks an agent before it is written under a new file name: the error,
/// or the sanitized file name. For an update, `skip` names the agent being
/// replaced, whose own file name does not count as taken.
pub fn check_agent_write(
    name: &str,
    description: &str,
    prompt: &str,
    existing: &Vec<String>,
    skip: Option<&str>,
) -> (r: Result<String, String>)
    ensures
        match agent_write_error(
            name@,
            description@,
            prompt@,
            existing@,
            match skip {
                Some(s) => Some(s@),
                None => None,
            },
        ) {
            Some(e) => r matches Err(x) && x@ == e,
            None => r matches Ok(s) && s@ == sanitized(name@),
        },
{
    let s = sanitize_filename(name);
    if s.unicode_len() == 0 {
        return Err(String::from_str("Agent name is empty after sanitization"));
    }
    if trim_chars(&chars_of(description)).len() == 0 {
        return Err(String::from_str("Agent description must not be empty"));
    }
    if trim_chars(&chars_of(prompt)).len() == 0 {
        return Err(String::from_str("Agent prompt must not be empty"));
    }
    let ghost sk = match skip {
        Some(x) => Some(x@),
        None => None::<Seq<char>>,
    };
    let mut i: usize = 0;
    while i < existing.len()
        invariant
            i <= existing@.len(),
            s@ == sanitized(name@),
            sanitized(name@).len() > 0,
            trim_ws(description@).len() > 0,
            trim_ws(prompt@).len() > 0,
            sk == match skip {
                Some(x) => Some(x@),
                None => None::<Seq<char>>,
            },
            forall|k: int|
                0 <= k < i ==> (match sk {
                    Some(x) => eq_ignore_ascii_case(existing@[k]@, x),
                    None => false,
                }) || #[trigger] sanitized(existing@[k]@) != sanitized(name@),
        decreases existing.len() - i,
    {
        let skipped = match skip {
            Some(x) => names_match(existing[i].as_str(), x),
            None => false,
        };
        if !skipped {
            let other = sanitize_filename(existing[i].as_str());
            if crate::text::str_eq(other.as_str(), s.as_str()) {
                assert(sanitized(existing@[i as int]@) == sanitized(name@));
                assert(!(match sk {
                    Some(x) => eq_ignore_ascii_case(existing@[i as int]@, x),
                    None => false,
                }));
                assert(0 <= i < existing@.len() && !(match sk {
                    Some(x) => eq_ignore_ascii_case(existing@[i as int]@, x),
                    None => false,
                }) && sanitized(existing@[i as int]@) == sanitized(name@));
                return Err(cat3("Agent '", name, "' already exists"));
            }
        }
        i = i + 1;
    }
    Ok(s)
}

/// The frontmatter check of an agent file: the text must not be blank.
pub fn require_description(text: &str) -> (r: Result<(), String>)
    ensures
        trim_ws(text@).len() == 0 <==> r is Err,
        r matches Err(e) ==> e@ == "Frontmatter must contain at least a 'description' field"@,
{
    if trim_chars(&chars_of(text)).len() == 0 {
        Err(String::from_str("Frontmatter must contain at least a 'description' field"))
    } else {
        Ok(())
    }
}

// ---------------------------------------------------------------------------
// Values written to and read from the frontmatter
// ---------------------------------------------------------------------------

/// A model as written to a file: under the `coderouter/` provider.
pub open spec fn model_for_file(m: Seq<char>) -> Seq<char> {
    if has_prefix(m, "coderouter/"@) {
        m
    } else {
        "coderouter/"@ + m
    }
}

/// A model as read from a file: without the `coderouter/` provider.
pub open spec fn model_from_file(m: Seq<char>) -> Seq<char> {
    if has_prefix(m, "coderouter/"@) {
        m.skip(11)
    } else {
        m
    }
}

/// Writes a model under the `coderouter/` provider.
pub fn file_model(m: &str) -> (r: String)
    ensures
        r@ == model_for_file(m@),
{
    if str_starts_with(m, "coderouter/") {
        String::from_str(m)
    } else {
        cat("coderouter/", m)
    }
}

/// Reads a model without the `coderouter/` provider.
pub fn agent_model(m: &str) -> (r: String)
    ensures
        r@ == model_from_file(m@),
{
    proof {
        reveal_strlit("coderouter/");
    }
    let cs = chars_of(m);
    if str_starts_with(m, "coderouter/") {
        let rest = chars_slice(&cs, 11, cs.len());
        assert(rest@ =~= m@.skip(11));
        string_from_chars(&rest)
    } else {
        String::from_str(m)
    }
}

/// The mode written to a file: none for the default mode.
pub fn file_mode(mode: AgentMode) -> (r: Option<AgentMode>)
    ensures
        r == (if mode == AgentMode::Subagent {
            None
        } else {
            Some(mode)
        }),
{
    match mode {
        AgentMode::Subagent => None,
        _ => Some(mode),
    }
}

/// A flag written to a file: only when set.
pub fn file_flag(flag: Option<bool>) -> (r: Option<bool>)
    ensures
        r == (if flag == Some(true) {
            Some(true)
        } else {
            None::<bool>
        }),
{
    match flag {
        Some(true) => Some(true),
        _ => None,
    }
}


} // verus!

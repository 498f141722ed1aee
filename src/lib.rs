use vstd::prelude::*;

pub mod glob;
pub mod ignore;
pub mod order;
pub mod policy;
pub mod record;
pub mod text;
pub mod walk;

use crate::text::{chars_of, keep_trimmed, pattern_list, split_chars, string_seqs};

verus! {

/// std's `PathBuf`, which the configuration carries and the library never reads.
#[verifier::external_type_specification]
#[verifier::external_body]
pub struct ExPathBuf(std::path::PathBuf);

/// The settings of one prompt generation.
#[derive(Debug)]
pub struct Code2PromptConfig {
    pub path: std::path::PathBuf,
    pub include_patterns: Option<String>,
    pub exclude: Option<String>,
    pub include_priority: bool,
    pub exclude_from_tree: bool,
    pub tokens: bool,
    pub encoding: Option<String>,
    pub output: Option<String>,
    pub diff: bool,
    pub git_diff_branch: Option<String>,
    pub git_log_branch: Option<String>,
    pub line_number: bool,
    pub no_codeblock: bool,
    pub relative_paths: bool,
    pub no_clipboard: bool,
    pub template: Option<std::path::PathBuf>,
    pub json: bool,
}

/// A branch argument that does not name exactly two branches.
#[derive(Debug, Clone, Copy, PartialEq, Eq, Structural)]
pub enum ConfigError {
    NotTwoBranches,
}

impl ConfigError {
    /// The text shown for the error.
    pub fn message(&self) -> (r: String)
        ensures
            r@ == branch_count_message(),
    {
        String::from_str("Please provide exactly two branches separated by a comma.")
    }
}

pub open spec fn branch_count_message() -> Seq<char> {
    "Please provide exactly two branches separated by a comma."@
}

/// The two branches of a comma-separated pair, parsed as a pattern list is.
pub fn parse_branches(spec: &String) -> (r: Result<(String, String), ConfigError>)
    ensures
        pattern_list(spec@).len() == 2 <==> r is Ok,
        r matches Ok(p) ==> p.0@ == pattern_list(spec@)[0] && p.1@ == pattern_list(spec@)[1],
        r matches Err(e) ==> e == ConfigError::NotTwoBranches,
{
    let cs = chars_of(spec.as_str());
    let segs = split_chars(&cs, ',');
    let mut parts = keep_trimmed(&segs);
    if parts.len() != 2 {
        return Err(ConfigError::NotTwoBranches);
    }
    let second = parts.pop().unwrap();
    let first = parts.pop().unwrap();
    Ok((first, second))
}

/// The patterns of an optional comma-separated list: each piece trimmed,
/// empty pieces dropped; none at all for an absent or empty list.
pub fn parse_patterns(patterns: &Option<String>) -> (r: Vec<String>)
    ensures
        match patterns {
            Some(s) => string_seqs(r@) == pattern_list(s@),
            None => r@.len() == 0,
        },
{
    match patterns {
        Some(s) => {
            let cs = chars_of(s.as_str());
            let segs = split_chars(&cs, ',');
            keep_trimmed(&segs)
        },
        None => Vec::new(),
    }
}

} // verus!

//! Choosing, from the entries a directory traversal produced, the paths of
//! the regular files whose base names match a pattern, optionally thinned
//! out by age.

use crate::age::{accepts_age, age_accepts, age_in_years, age_years, DRAW_RANGE};
use crate::pattern::{ci_pattern_diagnostic, ci_pattern_compiles, ci_pattern_matches, NameMatcher};
use rand::Rng;
use vstd::prelude::*;
use vstd::string::*;

verus! {

/// One entry met during a traversal, as the filter sees it.
pub struct FileCandidate {
    /// The base name, when there is one and it is valid text.
    pub name: Option<String>,
    /// The full path, when it is valid text.
    pub path: Option<String>,
    /// Whether the entry is a regular file.
    pub is_file: bool,
    /// Levels below the root: 0 for the root itself, 1 for its direct
    /// children.
    pub depth: usize,
    /// Last modification in seconds since the Unix epoch, when it could be
    /// read and is not before the epoch.
    pub modified_secs: Option<u64>,
}

/// Why a scan produced no result.
pub enum ScanError {
    /// The pattern is not a valid regular expression; holds the diagnostic.
    InvalidPattern(String),
    /// The root could not be listed.
    DirectoryUnreadable { root: String, reason: String },
}

impl ScanError {
    /// The error as a sentence for the user.
    pub fn message(&self) -> (r: String)
        ensures
            r@ == match self {
                ScanError::InvalidPattern(d) => "Invalid regex pattern: "@ + d@,
                ScanError::DirectoryUnreadable { root, reason } => "Error reading directory "@
                    + root@ + ": "@ + reason@,
            },
    {
        match self {
            ScanError::InvalidPattern(d) => {
                let mut m = String::from_str("Invalid regex pattern: ");
                m.append(d.as_str());
                m
            },
            ScanError::DirectoryUnreadable { root, reason } => {
                let mut m = String::from_str("Error reading directory ");
                m.append(root.as_str());
                m.append(": ");
                m.append(reason.as_str());
                m
            },
        }
    }
}

/// The candidate has a base name that the pattern matches.
pub open spec fn name_passes(pattern: Seq<char>, c: FileCandidate) -> bool {
    c.name matches Some(n) && ci_pattern_matches(pattern, n@)
}

/// The age bias lets the candidate through. Without a modification time it
/// is not applied; without a clock reading the candidate is dropped.
pub open spec fn age_passes(c: FileCandidate, time_filter: bool, now: Option<u64>, draw: u64) -> bool {
    time_filter ==> match c.modified_secs {
        None => true,
        Some(m) => now matches Some(n) && age_accepts(age_years(n as int, m as int), draw as int),
    }
}

/// What the filter makes of one candidate: its path, or nothing.
pub open spec fn filter_outcome(
    pattern: Seq<char>,
    c: FileCandidate,
    time_filter: bool,
    now: Option<u64>,
    draw: u64,
) -> Option<String> {
    if name_passes(pattern, c) && age_passes(c, time_filter, now, draw) {
        c.path
    } else {
        None
    }
}

/// The traversal takes the candidate into account: a regular file, and in a
/// flat scan one that is not inside a subdirectory.
pub open spec fn in_scope(c: FileCandidate, recursive: bool) -> bool {
    c.is_file && (recursive || c.depth <= 1)
}

/// The candidate's path is selected, `draw` being the draw for it.
pub open spec fn selected(
    pattern: Seq<char>,
    c: FileCandidate,
    recursive: bool,
    time_filter: bool,
    now: Option<u64>,
    draw: u64,
) -> bool {
    in_scope(c, recursive) && filter_outcome(pattern, c, time_filter, now, draw) is Some
}

/// The selected paths, in the order of the candidates; `draws[i]` is the
/// draw for `cands[i]`.
pub open spec fn selection(
    pattern: Seq<char>,
    cands: Seq<FileCandidate>,
    recursive: bool,
    time_filter: bool,
    now: Option<u64>,
    draws: Seq<u64>,
) -> Seq<String>
    decreases cands.len(),
{
    if cands.len() == 0 {
        Seq::empty()
    } else {
        let k = cands.len() - 1;
        let before = selection(pattern, cands.drop_last(), recursive, time_filter, now, draws.take(k));
        if selected(pattern, cands[k], recursive, time_filter, now, draws[k]) {
            before.push(cands[k].path->Some_0)
        } else {
            before
        }
    }
}

/// Relies on rand::thread_rng and Rng::gen_range: a value in `0..bound`,
/// drawn uniformly.
#[verifier::external_body]
fn random_below(bound: u64) -> (r: u64)
    requires
        bound > 0,
    ensures
        r < bound,
{
    rand::thread_rng().gen_range(0..bound)
}

/// Decides one candidate by its name and, with `time_filter`, its age:
/// returns its full path when it is kept.
pub fn matches_filter(
    c: &FileCandidate,
    matcher: &NameMatcher,
    time_filter: bool,
    now: Option<u64>,
    draw: u64,
) -> (r: Option<String>)
    ensures
        r == filter_outcome(matcher.source(), *c, time_filter, now, draw),
{
    let name = match &c.name {
        Some(n) => n,
        None => return None,
    };
    if !matcher.is_match(name.as_str()) {
        return None;
    }
    if time_filter {
        if let Some(modified) = c.modified_secs {
            match now {
                None => return None,
                Some(n) => {
                    let age = age_in_years(n, modified);
                    if !accepts_age(age, draw) {
                        return None;
                    }
                },
            }
        }
    }
    match &c.path {
        Some(p) => Some(p.clone()),
        None => None,
    }
}

/// Selects from `cands` with the given draws, one for each candidate.
pub fn select_with_draws(
    matcher: &NameMatcher,
    cands: &Vec<FileCandidate>,
    recursive: bool,
    time_filter: bool,
    now: Option<u64>,
    draws: &Vec<u64>,
) -> (r: Vec<String>)
    requires
        draws.len() == cands.len(),
    ensures
        r@ == selection(matcher.source(), cands@, recursive, time_filter, now, draws@),
{
    let mut out: Vec<String> = Vec::new();
    let mut i: usize = 0;
    while i < cands.len()
        invariant
            i <= cands.len(),
            draws.len() == cands.len(),
            out@ == selection(
                matcher.source(),
                cands@.take(i as int),
                recursive,
                time_filter,
                now,
                draws@.take(i as int),
            ),
        decreases cands.len() - i,
    {
        let c = &cands[i];
        proof {
            assert(cands@.take(i + 1).drop_last() =~= cands@.take(i as int));
            assert(draws@.take(i + 1).take(i as int) =~= draws@.take(i as int));
        }
        if c.is_file && (recursive || c.depth <= 1) {
            if let Some(p) = matches_filter(c, matcher, time_filter, now, draws[i]) {
                out.push(p);
            }
        }
        i = i + 1;
    }
    proof {
        assert(cands@.take(cands.len() as int) =~= cands@);
        assert(draws@.take(cands.len() as int) =~= draws@);
    }
    out
}

/// Selects from `cands`, drawing at random for the age bias.
pub fn select_files(
    matcher: &NameMatcher,
    cands: &Vec<FileCandidate>,
    recursive: bool,
    time_filter: bool,
    now: Option<u64>,
) -> (r: Vec<String>)
    ensures
        exists|draws: Seq<u64>|
            draws.len() == cands.len()
            && (forall|i: int| 0 <= i < draws.len() ==> draws[i] < DRAW_RANGE)
            && r@ == #[trigger] selection(matcher.source(), cands@, recursive, time_filter, now, draws),
{
    let mut draws: Vec<u64> = Vec::new();
    let mut i: usize = 0;
    while i < cands.len()
        invariant
            i <= cands.len(),
            draws.len() == i,
            forall|j: int| 0 <= j < draws.len() ==> draws[j] < DRAW_RANGE,
        decreases cands.len() - i,
    {
        let draw = if time_filter && cands[i].modified_secs.is_some() {
            random_below(DRAW_RANGE)
        } else {
            0
        };
        draws.push(draw);
        i = i + 1;
    }
    let r = select_with_draws(matcher, cands, recursive, time_filter, now, &draws);
    assert(r@ == selection(matcher.source(), cands@, recursive, time_filter, now, draws@));
    r
}

/// Compiles the name pattern of a scan, case-insensitively.
pub fn compile_pattern(pattern: &str) -> (r: Result<NameMatcher, ScanError>)
    ensures
        r is Ok <==> ci_pattern_compiles(pattern@),
        r matches Ok(m) ==> m.source() == pattern@,
        r matches Err(e) ==> e matches ScanError::InvalidPattern(d) && d@ == ci_pattern_diagnostic(
            pattern@,
        ),
{
    match NameMatcher::new(pattern) {
        Ok(m) => Ok(m),
        Err(d) => Err(ScanError::InvalidPattern(d)),
    }
}

/// Finishes a scan of `root` from what its traversal produced: the entries,
/// or why the root could not be listed. A flat scan reports an unreadable
/// root; a recursive one finds nothing in it.
pub fn scan_listing(
    matcher: &NameMatcher,
    root: &str,
    listing: Result<Vec<FileCandidate>, String>,
    recursive: bool,
    time_filter: bool,
    now: Option<u64>,
) -> (r: Result<Vec<String>, ScanError>)
    ensures
        match listing {
            Ok(cands) => r matches Ok(paths) && exists|draws: Seq<u64>|
                draws.len() == cands.len()
                && (forall|i: int| 0 <= i < draws.len() ==> draws[i] < DRAW_RANGE)
                && paths@ == #[trigger] selection(matcher.source(), cands@, recursive, time_filter, now, draws),
            Err(reason) => if recursive {
                r matches Ok(paths) && paths@.len() == 0
            } else {
                r matches Err(ScanError::DirectoryUnreadable { root: ro, reason: re })
                    && ro@ == root@ && re == reason
            },
        },
{
    match listing {
        Ok(cands) => Ok(select_files(matcher, &cands, recursive, time_filter, now)),
        Err(reason) => if recursive {
            Ok(Vec::new())
        } else {
            Err(ScanError::DirectoryUnreadable { root: String::from_str(root), reason })
        },
    }
}

} // verus!

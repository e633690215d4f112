//! Locating the compute-engine directory and its interpreter.
//!
//! The file system is probed outside this crate; each candidate location
//! arrives here as a plain record of what the probe saw, and the selection
//! rules below are verified: the first candidate that is available, exists
//! and holds the entry-point file wins.

use vstd::prelude::*;

use crate::text::{spec_dec, u64_to_dec};

verus! {

/// One candidate directory for the compute engine, together with what a
/// file-system probe reported about it. A candidate computed from a missing
/// parent directory is `available == false` and is skipped, not an error.
pub struct PathCandidate {
    /// The directory's path, as text.
    pub path: String,
    /// Whether the candidate could be computed at all.
    pub available: bool,
    /// Whether the directory exists.
    pub exists: bool,
    /// Whether the directory contains the entry-point file (`main.py`).
    pub has_entry: bool,
}

/// A candidate is usable when it could be computed, exists, and holds the
/// entry-point file.
pub open spec fn candidate_matches(c: PathCandidate) -> bool {
    c.available && c.exists && c.has_entry
}

/// Returns the index of the first usable candidate, earlier candidates
/// winning, or `None` when no candidate is usable.
pub fn resolve_engine_dir(cands: &Vec<PathCandidate>) -> (r: Option<usize>)
    ensures
        match r {
            Some(i) => i < cands@.len() && candidate_matches(cands@[i as int])
                && (forall|j: int| 0 <= j < i ==> !candidate_matches(cands@[j])),
            None => forall|j: int| 0 <= j < cands@.len() ==> !candidate_matches(cands@[j]),
        },
{
    let n = cands.len();
    let mut i: usize = 0;
    while i < n
        invariant
            n == cands@.len(),
            i <= n,
            forall|j: int| 0 <= j < i ==> !candidate_matches(cands@[j]),
        decreases n - i,
    {
        let c = &cands[i];
        if c.available && c.exists && c.has_entry {
            return Some(i);
        }
        i = i + 1;
    }
    None
}

/// The interpreter locations probed inside an engine directory, in
/// preference order: a project-local virtual environment first, in its
/// Windows and Unix layouts, then the alternative environment name.
pub fn venv_candidates(dir: &str) -> (r: Vec<String>)
    ensures
        r@.len() == 4,
        r@[0]@ == dir@ + "/.venv/Scripts/python.exe"@,
        r@[1]@ == dir@ + "/.venv/bin/python"@,
        r@[2]@ == dir@ + "/venv/Scripts/python.exe"@,
        r@[3]@ == dir@ + "/venv/bin/python"@,
{
    let mut r: Vec<String> = Vec::new();
    r.push(String::from_str(dir).concat("/.venv/Scripts/python.exe"));
    r.push(String::from_str(dir).concat("/.venv/bin/python"));
    r.push(String::from_str(dir).concat("/venv/Scripts/python.exe"));
    r.push(String::from_str(dir).concat("/venv/bin/python"));
    r
}

/// Given which interpreter candidates exist on disk, returns the index of
/// the first existing one, or `None` when none exists and the system-wide
/// interpreter must serve instead.
pub fn select_first_available(exists: &Vec<bool>) -> (r: Option<usize>)
    ensures
        match r {
            Some(i) => i < exists@.len() && exists@[i as int]
                && (forall|j: int| 0 <= j < i ==> !exists@[j]),
            None => forall|j: int| 0 <= j < exists@.len() ==> !exists@[j],
        },
{
    let n = exists.len();
    let mut i: usize = 0;
    while i < n
        invariant
            n == exists@.len(),
            i <= n,
            forall|j: int| 0 <= j < i ==> !exists@[j],
        decreases n - i,
    {
        if exists[i] {
            return Some(i);
        }
        i = i + 1;
    }
    None
}

/// The system-wide interpreter used when no virtual environment is found:
/// `python` on Windows, `python3` elsewhere.
pub fn fallback_python(windows: bool) -> (r: &'static str)
    ensures
        windows ==> r@ == "python"@,
        !windows ==> r@ == "python3"@,
{
    if windows {
        "python"
    } else {
        "python3"
    }
}

pub open spec fn spec_bool_str(b: bool) -> Seq<char> {
    if b {
        "true"@
    } else {
        "false"@
    }
}

fn bool_str(b: bool) -> (s: &'static str)
    ensures
        s@ == spec_bool_str(b),
{
    if b {
        "true"
    } else {
        "false"
    }
}

/// The report line for one candidate: its number in the search order, its
/// path, and what the probe saw.
pub open spec fn spec_candidate_line(c: PathCandidate, num: int) -> Seq<char> {
    spec_dec(num) + ". "@ + c.path@ + "\n   Exists: "@ + spec_bool_str(c.exists)
        + " | Has main.py: "@ + spec_bool_str(c.has_entry) + "\n"@
}

/// The report lines for the first `i` candidates, unavailable ones
/// skipped but keeping their number.
pub open spec fn spec_report_lines(cands: Seq<PathCandidate>, i: int) -> Seq<char>
    decreases i,
{
    if i <= 0 {
        Seq::empty()
    } else {
        spec_report_lines(cands, i - 1) + (if cands[i - 1].available {
            spec_candidate_line(cands[i - 1], i)
        } else {
            Seq::<char>::empty()
        })
    }
}

/// The whole search report: a heading, the working directory when known,
/// then one line per available candidate.
pub open spec fn spec_path_report(cwd: Option<&str>, cands: Seq<PathCandidate>) -> Seq<char> {
    "Compute Engine Path Search:\n"@ + (match cwd {
        Some(c) => "Current Dir: "@ + c@ + "\n\n"@,
        None => Seq::<char>::empty(),
    }) + spec_report_lines(cands, cands.len() as int)
}

/// Renders the human-readable account of a path search, for diagnosing a
/// failed resolution.
pub fn path_search_report(cwd: Option<&str>, cands: &Vec<PathCandidate>) -> (r: String)
    ensures
        r@ == spec_path_report(cwd, cands@),
{
    let mut report = String::from_str("Compute Engine Path Search:\n");
    match cwd {
        Some(c) => {
            report = report.concat("Current Dir: ").concat(c).concat("\n\n");
        },
        None => {},
    }
    let ghost pre = report@;
    let n = cands.len();
    let mut i: usize = 0;
    while i < n
        invariant
            n == cands@.len(),
            i <= n,
            report@ == pre + spec_report_lines(cands@, i as int),
        decreases n - i,
    {
        let c = &cands[i];
        if c.available {
            report = report.concat(u64_to_dec((i + 1) as u64).as_str()).concat(". ").concat(
                c.path.as_str(),
            ).concat("\n   Exists: ").concat(bool_str(c.exists)).concat(
                " | Has main.py: ",
            ).concat(bool_str(c.has_entry)).concat("\n");
        }
        i = i + 1;
    }
    report
}

} // verus!

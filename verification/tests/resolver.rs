use novem_core::resolver::{
    fallback_python, path_search_report, resolve_engine_dir, select_first_available,
    venv_candidates, PathCandidate,
};

fn cand(path: &str, available: bool, exists: bool, has_entry: bool) -> PathCandidate {
    PathCandidate { path: path.to_string(), available, exists, has_entry }
}

#[test]
fn resolver_returns_first_match_in_order() {
    // A is missing, B and C both exist and hold the entry point: B wins.
    let cands = vec![
        cand("A", true, false, false),
        cand("B", true, true, true),
        cand("C", true, true, true),
    ];
    let r = resolve_engine_dir(&cands);
    assert_eq!(r, Some(1));
    assert_eq!(cands[r.unwrap()].path, "B");
}

#[test]
fn resolver_none_when_nothing_matches() {
    let cands = vec![cand("A", true, true, false), cand("B", false, true, true)];
    assert_eq!(resolve_engine_dir(&cands), None);
    assert_eq!(resolve_engine_dir(&Vec::new()), None);
}

#[test]
fn resolver_skips_unavailable_candidates() {
    let cands = vec![cand("A", false, true, true), cand("B", true, true, true)];
    assert_eq!(resolve_engine_dir(&cands), Some(1));
}

#[test]
fn resolver_needs_both_directory_and_entry() {
    let cands = vec![cand("dir-only", true, true, false), cand("ok", true, true, true)];
    assert_eq!(resolve_engine_dir(&cands), Some(1));
}

#[test]
fn venv_candidates_are_exact_and_ordered() {
    let c = venv_candidates("/eng");
    assert_eq!(c.len(), 4);
    assert_eq!(c[0], "/eng/.venv/Scripts/python.exe");
    assert_eq!(c[1], "/eng/.venv/bin/python");
    assert_eq!(c[2], "/eng/venv/Scripts/python.exe");
    assert_eq!(c[3], "/eng/venv/bin/python");
}

#[test]
fn first_available_interpreter_wins() {
    assert_eq!(select_first_available(&vec![false, true, true, false]), Some(1));
    assert_eq!(select_first_available(&vec![false, false, false, false]), None);
}

#[test]
fn system_interpreter_fallback_by_platform() {
    assert_eq!(fallback_python(true), "python");
    assert_eq!(fallback_python(false), "python3");
}

#[test]
fn path_search_report_lists_available_candidates() {
    let cands = vec![
        cand("/a", true, false, false),
        cand("/b", false, true, true),
        cand("/c", true, true, true),
    ];
    let report = path_search_report(Some("/work"), &cands);
    let expected = "Compute Engine Path Search:\n\
                    Current Dir: /work\n\n\
                    1. /a\n   Exists: false | Has main.py: false\n\
                    3. /c\n   Exists: true | Has main.py: true\n";
    assert_eq!(report, expected);
}

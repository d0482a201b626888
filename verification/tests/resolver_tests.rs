use rscript_runner::resolver::{first_match, normalized_path, resolve, EntryKind, PathKind, Probe};

fn probe(path: &str, found: EntryKind) -> Probe {
    Probe::new(path.to_string(), found)
}

#[test]
fn first_existing_candidate_of_the_required_kind_wins() {
    let probes = vec![
        probe("/a", EntryKind::Missing),
        probe("/b", EntryKind::Directory),
        probe("/c", EntryKind::Directory),
    ];
    assert_eq!(first_match(&probes, PathKind::Directory), Some(1));
    assert_eq!(resolve(&probes, PathKind::Directory), Some("/b".to_string()));
}

#[test]
fn earlier_candidate_beats_later_one() {
    let probes = vec![probe("/first", EntryKind::File), probe("/second", EntryKind::File)];
    assert_eq!(resolve(&probes, PathKind::File), Some("/first".to_string()));
}

#[test]
fn candidates_of_the_wrong_kind_are_passed_over() {
    let probes = vec![
        probe("/file", EntryKind::File),
        probe("/socket", EntryKind::Other),
        probe("/dir", EntryKind::Directory),
    ];
    assert_eq!(resolve(&probes, PathKind::Directory), Some("/dir".to_string()));
    assert_eq!(resolve(&probes, PathKind::File), Some("/file".to_string()));
    assert_eq!(first_match(&probes, PathKind::Directory), Some(2));
    assert_eq!(first_match(&probes, PathKind::File), Some(0));
}

#[test]
fn many_absent_candidates_do_not_hide_a_late_match() {
    let mut probes = Vec::new();
    for i in 0..50 {
        probes.push(probe(&format!("/missing/{}", i), EntryKind::Missing));
    }
    probes.push(probe("/found", EntryKind::File));
    probes.push(probe("/also", EntryKind::File));
    assert_eq!(first_match(&probes, PathKind::File), Some(50));
    assert_eq!(resolve(&probes, PathKind::File), Some("/found".to_string()));
}

#[test]
fn exhausted_list_yields_nothing() {
    let probes = vec![probe("/a", EntryKind::Missing), probe("/b", EntryKind::Other)];
    assert_eq!(resolve(&probes, PathKind::File), None);
    assert_eq!(resolve(&probes, PathKind::Directory), None);
    assert_eq!(first_match(&probes, PathKind::File), None);
}

#[test]
fn empty_list_yields_nothing() {
    let probes: Vec<Probe> = Vec::new();
    assert_eq!(resolve(&probes, PathKind::File), None);
    assert_eq!(first_match(&probes, PathKind::Directory), None);
}

#[test]
fn canonical_path_is_preferred() {
    let path = normalized_path("./scripts/../scripts".to_string(), Some("/app/scripts".to_string()));
    assert_eq!(path, "/app/scripts");
}

#[test]
fn path_is_used_as_given_without_canonical_form() {
    let path = normalized_path("./scripts".to_string(), None);
    assert_eq!(path, "./scripts");
}

#[test]
fn only_missing_entries_are_absent() {
    assert!(!EntryKind::Missing.is_present());
    assert!(EntryKind::File.is_present());
    assert!(EntryKind::Directory.is_present());
    assert!(EntryKind::Other.is_present());
}

#[test]
fn kinds_admit_only_their_own_entries() {
    assert!(PathKind::File.admits(EntryKind::File));
    assert!(!PathKind::File.admits(EntryKind::Directory));
    assert!(!PathKind::File.admits(EntryKind::Other));
    assert!(!PathKind::File.admits(EntryKind::Missing));
    assert!(PathKind::Directory.admits(EntryKind::Directory));
    assert!(!PathKind::Directory.admits(EntryKind::File));
    assert!(!PathKind::Directory.admits(EntryKind::Other));
    assert!(!PathKind::Directory.admits(EntryKind::Missing));
}

use rscript_runner::diagnostics::{debug_r_paths, home_interpreter_candidate, Survey};
use rscript_runner::locations::{Candidate, Platform};
use rscript_runner::resolver::{EntryKind, Probe};

fn probe(path: &str, found: EntryKind) -> Probe {
    Probe::new(path.to_string(), found)
}

fn nothing() -> Survey {
    Survey {
        home: vec![probe("/dev/r-portable", EntryKind::Missing)],
        home_interpreter: None,
        interpreter: vec![probe("/dev/r-portable/bin/Rscript", EntryKind::Missing)],
        current_dir: None,
        executable: None,
        manifest_dir: "/dev".to_string(),
        scripts: vec![probe("/dev/scripts", EntryKind::Missing)],
        script_entries: None,
    }
}

fn everything() -> Survey {
    Survey {
        home: vec![probe("/app/r-portable", EntryKind::Directory)],
        home_interpreter: Some(probe("/app/r-portable/bin/Rscript", EntryKind::File)),
        interpreter: vec![probe("/app/r-portable/bin/Rscript", EntryKind::File)],
        current_dir: Some("/cwd".to_string()),
        executable: Some("/app/bin/app".to_string()),
        manifest_dir: "/dev".to_string(),
        scripts: vec![
            probe("/cwd/src-tauri/scripts", EntryKind::Missing),
            probe("/app/scripts", EntryKind::Directory),
        ],
        script_entries: Some(vec!["fit.R".to_string(), "health_check.R".to_string()]),
    }
}

#[test]
fn report_is_written_when_nothing_is_found() {
    let report = debug_r_paths(&nothing());
    assert_eq!(
        report,
        Ok("=== Bundled R Portable ===\n\
            Bundled R NOT found\n\
            \n=== R Resolution ===\n\
            Rscript NOT found anywhere (will fallback to PATH)\n\
            \n=== Scripts Directory ===\n\
            Current dir: unavailable\n\
            Exe path: unavailable\n\
            CARGO_MANIFEST_DIR: /dev\n\
            Scripts dir NOT found\n"
            .to_string())
    );
}

#[test]
fn report_is_written_without_any_candidates() {
    let survey = Survey {
        home: Vec::new(),
        interpreter: Vec::new(),
        scripts: Vec::new(),
        manifest_dir: String::new(),
        ..nothing()
    };
    let report = debug_r_paths(&survey);
    assert!(report.is_ok());
    assert!(report.unwrap().contains("Scripts dir NOT found\n"));
}

#[test]
fn report_names_everything_that_was_found() {
    let report = debug_r_paths(&everything());
    assert_eq!(
        report,
        Ok("=== Bundled R Portable ===\n\
            R_HOME found: /app/r-portable\n\
            Rscript exists: true\n\
            \n=== R Resolution ===\n\
            Rscript resolved to: /app/r-portable/bin/Rscript\n\
            \n=== Scripts Directory ===\n\
            Current dir: /cwd\n\
            Exe path: /app/bin/app\n\
            CARGO_MANIFEST_DIR: /dev\n\
            Scripts dir found: /app/scripts\n\
            Contents:\n  - fit.R\n  - health_check.R\n"
            .to_string())
    );
}

#[test]
fn home_without_interpreter_is_reported() {
    let survey = Survey {
        home_interpreter: Some(probe("/app/r-portable/bin/Rscript", EntryKind::Missing)),
        interpreter: vec![probe("/app/r-portable/bin/Rscript", EntryKind::Missing)],
        ..everything()
    };
    let report = debug_r_paths(&survey).unwrap();
    assert!(report.starts_with(
        "=== Bundled R Portable ===\nR_HOME found: /app/r-portable\nRscript exists: false\n\n=== R Resolution ===\nRscript NOT found anywhere (will fallback to PATH)\n"
    ));
    let unchecked = Survey { home_interpreter: None, ..everything() };
    assert!(debug_r_paths(&unchecked).unwrap().contains("Rscript exists: false\n"));
}

#[test]
fn unlisted_scripts_directory_has_no_contents() {
    let survey = Survey { script_entries: None, ..everything() };
    let report = debug_r_paths(&survey).unwrap();
    assert!(report.ends_with("CARGO_MANIFEST_DIR: /dev\nScripts dir found: /app/scripts\n"));
}

#[test]
fn empty_scripts_directory_has_an_empty_listing() {
    let survey = Survey { script_entries: Some(Vec::new()), ..everything() };
    let report = debug_r_paths(&survey).unwrap();
    assert!(report.ends_with("Scripts dir found: /app/scripts\nContents:\n"));
}

#[test]
fn entries_are_ignored_without_a_scripts_directory() {
    let survey = Survey { script_entries: Some(vec!["fit.R".to_string()]), ..nothing() };
    let report = debug_r_paths(&survey).unwrap();
    assert!(report.ends_with("Scripts dir NOT found\n"));
    assert!(!report.contains("fit.R"));
}

#[test]
fn interpreter_of_a_home_is_expected_in_bin() {
    assert_eq!(
        home_interpreter_candidate("/app/r-portable", Platform::Other),
        Candidate {
            base: "/app/r-portable".to_string(),
            segments: vec!["bin".to_string(), "Rscript".to_string()],
        }
    );
    assert_eq!(
        home_interpreter_candidate("C:\\app\\r-portable", Platform::Windows).segments,
        vec!["bin".to_string(), "Rscript.exe".to_string()]
    );
}

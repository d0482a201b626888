use rscript_runner::invocation::{
    command_arguments, final_environment, interpreter_program, library_candidate,
    merge_environment, missing_directory_text, missing_script_text, plan_invocation,
    runtime_environment, script_candidate, EnvVar, Findings, Invocation, ScriptRequest,
};
use rscript_runner::locations::Candidate;
use rscript_runner::resolver::{EntryKind, Probe};

fn names(items: &[&str]) -> Vec<String> {
    items.iter().map(|s| s.to_string()).collect()
}

fn probe(path: &str, found: EntryKind) -> Probe {
    Probe::new(path.to_string(), found)
}

fn var(name: &str, value: &str) -> EnvVar {
    EnvVar { name: name.to_string(), value: value.to_string() }
}

fn request() -> ScriptRequest {
    ScriptRequest { script_name: "health_check.R".to_string(), args: names(&["--json", "a b"]) }
}

fn bundled() -> Findings {
    Findings {
        scripts: vec![
            probe("/cwd/src-tauri/scripts", EntryKind::Missing),
            probe("/app/scripts", EntryKind::Directory),
        ],
        script: Some(probe("/app/scripts/health_check.R", EntryKind::File)),
        interpreter: vec![probe("/app/r-portable/bin/Rscript", EntryKind::File)],
        home: vec![probe("/app/r-portable", EntryKind::Directory)],
        library: Some(probe("/app/r-portable/library", EntryKind::Directory)),
    }
}

#[test]
fn bundled_runtime_is_used_with_its_home_and_library() {
    let plan = plan_invocation(&request(), &bundled());
    assert_eq!(
        plan,
        Ok(Invocation {
            program: "/app/r-portable/bin/Rscript".to_string(),
            arguments: names(&["--vanilla", "/app/scripts/health_check.R", "--json", "a b"]),
            environment: vec![
                var("R_HOME", "/app/r-portable"),
                var("R_LIBS", "/app/r-portable/library"),
                var("R_LIBS_USER", "/app/r-portable/library"),
            ],
        })
    );
}

#[test]
fn missing_scripts_directory_stops_the_run() {
    let findings = Findings {
        scripts: vec![
            probe("/cwd/src-tauri/scripts", EntryKind::Missing),
            probe("/dev/scripts", EntryKind::File),
            probe("/res/scripts", EntryKind::Missing),
        ],
        ..bundled()
    };
    let message = plan_invocation(&request(), &findings).unwrap_err();
    assert_eq!(
        message,
        "Could not find scripts directory (searched in: /cwd/src-tauri/scripts, /dev/scripts, /res/scripts)"
    );
    assert!(message.contains("directory"));
    for p in &findings.scripts {
        assert!(message.contains(p.path.as_str()));
    }
}

#[test]
fn missing_scripts_directory_with_nothing_attempted() {
    assert_eq!(
        missing_directory_text(&Vec::new()),
        "Could not find scripts directory (searched in: )"
    );
}

#[test]
fn missing_script_stops_the_run() {
    let findings = Findings {
        script: Some(probe("/app/scripts/health_check.R", EntryKind::Missing)),
        ..bundled()
    };
    let message = plan_invocation(&request(), &findings).unwrap_err();
    assert_eq!(message, "Script not found: health_check.R (searched in: /app/scripts)");
    assert!(message.contains("health_check.R"));
    assert!(message.contains("/app/scripts"));
}

#[test]
fn uninspected_script_counts_as_missing() {
    let findings = Findings { script: None, ..bundled() };
    assert_eq!(
        plan_invocation(&request(), &findings),
        Err("Script not found: health_check.R (searched in: /app/scripts)".to_string())
    );
}

#[test]
fn missing_directory_is_reported_before_missing_script() {
    let findings = Findings { scripts: vec![probe("/x", EntryKind::Missing)], script: None, ..bundled() };
    assert_eq!(
        plan_invocation(&request(), &findings),
        Err("Could not find scripts directory (searched in: /x)".to_string())
    );
}

#[test]
fn script_name_is_taken_as_given() {
    assert_eq!(
        missing_script_text("../odd name.R", "/s"),
        "Script not found: ../odd name.R (searched in: /s)"
    );
}

#[test]
fn script_only_has_to_exist() {
    let findings =
        Findings { script: Some(probe("/app/scripts/health_check.R", EntryKind::Other)), ..bundled() };
    assert!(plan_invocation(&request(), &findings).is_ok());
}

#[test]
fn without_interpreter_the_bare_name_is_used() {
    let findings = Findings {
        interpreter: vec![probe("/app/r-portable/bin/Rscript", EntryKind::Missing)],
        home: Vec::new(),
        library: None,
        ..bundled()
    };
    assert_eq!(
        plan_invocation(&request(), &findings),
        Ok(Invocation {
            program: "Rscript".to_string(),
            arguments: names(&["--vanilla", "/app/scripts/health_check.R", "--json", "a b"]),
            environment: Vec::new(),
        })
    );
}

#[test]
fn interpreter_without_home_sets_no_variables() {
    let findings = Findings {
        interpreter: vec![probe("C:\\R\\R-4.3.1\\bin\\Rscript.exe", EntryKind::File)],
        home: vec![probe("/app/r-portable", EntryKind::Missing)],
        library: Some(probe("/app/r-portable/library", EntryKind::Directory)),
        ..bundled()
    };
    let plan = plan_invocation(&request(), &findings).unwrap();
    assert_eq!(plan.program, "C:\\R\\R-4.3.1\\bin\\Rscript.exe");
    assert_eq!(plan.environment, Vec::new());
}

#[test]
fn home_without_library_sets_only_the_home() {
    let findings =
        Findings { library: Some(probe("/app/r-portable/library", EntryKind::Missing)), ..bundled() };
    let plan = plan_invocation(&request(), &findings).unwrap();
    assert_eq!(plan.environment, vec![var("R_HOME", "/app/r-portable")]);
    assert!(plan.environment.iter().all(|v| v.name != "R_LIBS" && v.name != "R_LIBS_USER"));
}

#[test]
fn environment_follows_home_and_library() {
    let home = Some("/r".to_string());
    assert_eq!(runtime_environment(&None, &None), Vec::new());
    assert_eq!(runtime_environment(&None, &Some(probe("/r/library", EntryKind::Directory))), Vec::new());
    assert_eq!(runtime_environment(&home, &None), vec![var("R_HOME", "/r")]);
    assert_eq!(
        runtime_environment(&home, &Some(probe("/r/library", EntryKind::Missing))),
        vec![var("R_HOME", "/r")]
    );
    assert_eq!(
        runtime_environment(&home, &Some(probe("/r/library", EntryKind::Directory))),
        vec![var("R_HOME", "/r"), var("R_LIBS", "/r/library"), var("R_LIBS_USER", "/r/library")]
    );
}

#[test]
fn arguments_start_with_the_flag_and_the_script() {
    assert_eq!(command_arguments("/s/a.R", &Vec::new()), names(&["--vanilla", "/s/a.R"]));
    assert_eq!(
        command_arguments("/s/a.R", &names(&["3", "", "x y", "2"])),
        names(&["--vanilla", "/s/a.R", "3", "", "x y", "2"])
    );
}

#[test]
fn program_is_the_interpreter_or_its_bare_name() {
    assert_eq!(interpreter_program(Some("/r/bin/Rscript".to_string())), "/r/bin/Rscript");
    assert_eq!(interpreter_program(None), "Rscript");
}

#[test]
fn script_is_expected_below_the_scripts_directory() {
    assert_eq!(
        script_candidate("/app/scripts", "fit.R"),
        Candidate { base: "/app/scripts".to_string(), segments: names(&["fit.R"]) }
    );
}

#[test]
fn library_is_expected_below_the_home() {
    assert_eq!(
        library_candidate("/app/r-portable"),
        Candidate { base: "/app/r-portable".to_string(), segments: names(&["library"]) }
    );
}

#[test]
fn derived_variables_replace_inherited_ones_of_the_same_name() {
    let inherited = vec![var("PATH", "/usr/bin"), var("R_HOME", "/old"), var("LANG", "C")];
    let derived = vec![var("R_HOME", "/new"), var("R_LIBS", "/new/library")];
    assert_eq!(
        merge_environment(&inherited, &derived),
        vec![
            var("PATH", "/usr/bin"),
            var("LANG", "C"),
            var("R_HOME", "/new"),
            var("R_LIBS", "/new/library"),
        ]
    );
}

#[test]
fn names_are_matched_exactly_when_merging() {
    let inherited = vec![var("r_home", "/lower"), var("R_HOME ", "/spaced")];
    let derived = vec![var("R_HOME", "/new")];
    assert_eq!(
        merge_environment(&inherited, &derived),
        vec![var("r_home", "/lower"), var("R_HOME ", "/spaced"), var("R_HOME", "/new")]
    );
}

#[test]
fn merging_nothing_keeps_the_inherited_environment() {
    let inherited = vec![var("A", "1"), var("B", "2")];
    assert_eq!(merge_environment(&inherited, &Vec::new()), inherited);
    assert_eq!(merge_environment(&Vec::new(), &inherited), inherited);
    assert_eq!(merge_environment(&Vec::new(), &Vec::new()), Vec::new());
}

#[test]
fn every_inherited_variable_of_a_replaced_name_is_dropped() {
    let inherited = vec![var("R_LIBS", "a"), var("X", "x"), var("R_LIBS", "b")];
    let derived = vec![var("R_LIBS", "c")];
    assert_eq!(merge_environment(&inherited, &derived), vec![var("X", "x"), var("R_LIBS", "c")]);
}

#[test]
fn without_home_the_final_environment_is_the_inherited_one() {
    let inherited = vec![var("PATH", "/usr/bin"), var("R_HOME", "/system")];
    let library = Some(probe("/r/library", EntryKind::Directory));
    assert_eq!(final_environment(&None, &library, &inherited), inherited);
}

#[test]
fn home_without_library_leaves_inherited_library_variables_alone() {
    let inherited = vec![var("R_LIBS", "/site"), var("R_HOME", "/system")];
    let home = Some("/r".to_string());
    let library = Some(probe("/r/library", EntryKind::Missing));
    assert_eq!(
        final_environment(&home, &library, &inherited),
        vec![var("R_LIBS", "/site"), var("R_HOME", "/r")]
    );
}

#[test]
fn home_with_library_sets_all_three_variables() {
    let inherited = vec![var("R_LIBS", "/site"), var("PATH", "/bin"), var("R_LIBS_USER", "/me")];
    let home = Some("/r".to_string());
    let library = Some(probe("/r/library", EntryKind::Directory));
    assert_eq!(
        final_environment(&home, &library, &inherited),
        vec![
            var("PATH", "/bin"),
            var("R_HOME", "/r"),
            var("R_LIBS", "/r/library"),
            var("R_LIBS_USER", "/r/library"),
        ]
    );
}

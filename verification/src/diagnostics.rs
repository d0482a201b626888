//! A plain-text account of where the runtime and the scripts were looked for
//! and what came of it, for support and debugging.
//!
//! The report never fails: whatever could not be found or determined is
//! reported as such, each part on its own.

use crate::locations::{locate_runtime, Candidate, CandidateModel, Platform};
use crate::resolver::{resolution, resolve, PathKind, Probe};
use crate::text::{optional_text, texts};
use vstd::prelude::*;

verus! {

/// Everything the report is written from.
#[derive(Clone, Debug, PartialEq, Eq)]
pub struct Survey {
    /// The runtime-home candidates, inspected in order.
    pub home: Vec<Probe>,
    /// The interpreter below the runtime home, when a home was found.
    pub home_interpreter: Option<Probe>,
    /// The interpreter candidates, inspected in order.
    pub interpreter: Vec<Probe>,
    /// The current working directory, when it could be determined.
    pub current_dir: Option<String>,
    /// The path of the running executable, when it could be determined.
    pub executable: Option<String>,
    /// The root of the development tree.
    pub manifest_dir: String,
    /// The scripts-directory candidates, inspected in order.
    pub scripts: Vec<Probe>,
    /// The names of the entries of the scripts directory, when one was found
    /// and could be listed.
    pub script_entries: Option<Vec<String>>,
}

/// Where the interpreter of a runtime is expected: in `bin` below its home.
pub fn home_interpreter_candidate(home: &str, platform: Platform) -> (c: Candidate)
    ensures
        c@ == CandidateModel::at(home@).child("bin"@).child(platform.executable()),
{
    Candidate::at(home).child("bin").child(platform.executable_name())
}

/// A path, or a note that it could not be determined.
pub open spec fn or_unavailable(path: Option<String>) -> Seq<char> {
    match path {
        Some(p) => p@,
        None => "unavailable"@,
    }
}

/// The part of the report on the bundled runtime.
pub open spec fn bundled_section(home: Option<Seq<char>>, interpreter: Option<Probe>) -> Seq<
    char,
> {
    "=== Bundled R Portable ===\n"@ + (match home {
        Some(h) => "R_HOME found: "@ + h + "\nRscript exists: "@ + (if interpreter is Some
            && interpreter->0.found.present() {
            "true"@
        } else {
            "false"@
        }) + "\n"@,
        None => "Bundled R NOT found\n"@,
    })
}

/// The part of the report on the interpreter that will be started.
pub open spec fn interpreter_section(interpreter: Option<Seq<char>>) -> Seq<char> {
    "\n=== R Resolution ===\n"@ + (match interpreter {
        Some(p) => "Rscript resolved to: "@ + p + "\n"@,
        None => "Rscript NOT found anywhere (will fallback to PATH)\n"@,
    })
}

/// One line per entry of the scripts directory.
pub open spec fn listing(entries: Seq<Seq<char>>) -> Seq<char>
    decreases entries.len(),
{
    if entries.len() == 0 {
        Seq::empty()
    } else {
        listing(entries.drop_last()) + "  - "@ + entries.last() + "\n"@
    }
}

/// The part of the report on the places the scripts search starts from.
pub open spec fn origins_section(
    current_dir: Option<String>,
    executable: Option<String>,
    manifest_dir: Seq<char>,
) -> Seq<char> {
    "\n=== Scripts Directory ===\n"@ + "Current dir: "@ + or_unavailable(current_dir) + "\n"@
        + "Exe path: "@ + or_unavailable(executable) + "\n"@ + "CARGO_MANIFEST_DIR: "@
        + manifest_dir + "\n"@
}

/// The part of the report on the scripts directory and what it holds.
pub open spec fn scripts_section(dir: Option<Seq<char>>, entries: Option<Vec<String>>) -> Seq<
    char,
> {
    match dir {
        Some(d) => "Scripts dir found: "@ + d + "\n"@ + (match entries {
            Some(names) => "Contents:\n"@ + listing(texts(names@)),
            None => Seq::empty(),
        }),
        None => "Scripts dir NOT found\n"@,
    }
}

/// The whole report.
pub open spec fn report(survey: Survey) -> Seq<char> {
    bundled_section(resolution(survey.home@, PathKind::Directory), survey.home_interpreter)
        + interpreter_section(resolution(survey.interpreter@, PathKind::File)) + origins_section(
        survey.current_dir,
        survey.executable,
        survey.manifest_dir@,
    ) + scripts_section(resolution(survey.scripts@, PathKind::Directory), survey.script_entries)
}

fn write_bundled(home: &Option<String>, interpreter: &Option<Probe>) -> (section: String)
    ensures
        section@ == bundled_section(
            optional_text(*home),
            *interpreter,
        ),
{
    let mut section = String::from_str("=== Bundled R Portable ===\n");
    match home {
        Some(h) => {
            let exists = match interpreter {
                Some(probe) => probe.found.is_present(),
                None => false,
            };
            let mut found = String::from_str("R_HOME found: ");
            found.append(h.as_str());
            found.append("\nRscript exists: ");
            found.append(if exists { "true" } else { "false" });
            found.append("\n");
            section.append(found.as_str());
        },
        None => {
            section.append("Bundled R NOT found\n");
        },
    }
    section
}

fn write_interpreter(interpreter: &Option<String>) -> (section: String)
    ensures
        section@ == interpreter_section(
            optional_text(*interpreter),
        ),
{
    let mut section = String::from_str("\n=== R Resolution ===\n");
    match interpreter {
        Some(p) => {
            let mut found = String::from_str("Rscript resolved to: ");
            found.append(p.as_str());
            found.append("\n");
            section.append(found.as_str());
        },
        None => {
            section.append("Rscript NOT found anywhere (will fallback to PATH)\n");
        },
    }
    section
}

fn path_or_unavailable(path: &Option<String>) -> (text: &str)
    ensures
        text@ == or_unavailable(*path),
{
    match path {
        Some(p) => p.as_str(),
        None => "unavailable",
    }
}

fn write_origins(current_dir: &Option<String>, executable: &Option<String>, manifest_dir: &str) -> (section:
    String)
    ensures
        section@ == origins_section(*current_dir, *executable, manifest_dir@),
{
    let mut section = String::from_str("\n=== Scripts Directory ===\n");
    section.append("Current dir: ");
    section.append(path_or_unavailable(current_dir));
    section.append("\n");
    section.append("Exe path: ");
    section.append(path_or_unavailable(executable));
    section.append("\n");
    section.append("CARGO_MANIFEST_DIR: ");
    section.append(manifest_dir);
    section.append("\n");
    section
}

fn write_listing(entries: &Vec<String>) -> (lines: String)
    ensures
        lines@ == listing(texts(entries@)),
{
    let mut lines = String::new();
    let mut i: usize = 0;
    assert(texts(entries@).take(0) =~= Seq::<Seq<char>>::empty());
    while i < entries.len()
        invariant
            i <= entries.len(),
            lines@ == listing(texts(entries@).take(i as int)),
        decreases entries.len() - i,
    {
        let ghost shown = texts(entries@).take(i + 1);
        assert(shown.drop_last() =~= texts(entries@).take(i as int));
        assert(shown.last() == entries@[i as int]@);
        lines.append("  - ");
        lines.append(entries[i].as_str());
        lines.append("\n");
        i += 1;
    }
    assert(texts(entries@).take(entries.len() as int) =~= texts(entries@));
    lines
}

fn write_scripts(dir: &Option<String>, entries: &Option<Vec<String>>) -> (section: String)
    ensures
        section@ == scripts_section(
            optional_text(*dir),
            *entries,
        ),
{
    match dir {
        Some(d) => {
            let mut section = String::from_str("Scripts dir found: ");
            section.append(d.as_str());
            section.append("\n");
            match entries {
                Some(names) => {
                    let mut contents = String::from_str("Contents:\n");
                    contents.append(write_listing(names).as_str());
                    section.append(contents.as_str());
                },
                None => {
                    assert(section@ + Seq::<char>::empty() =~= section@);
                },
            }
            section
        },
        None => String::from_str("Scripts dir NOT found\n"),
    }
}

/// Writes the report. Every part stands on its own: a runtime, an interpreter
/// or a scripts directory that was not found, a directory that could not be
/// determined or listed, each is stated in its place and the rest of the
/// report is written all the same. The answer is never an error.
pub fn debug_r_paths(survey: &Survey) -> (answer: Result<String, String>)
    ensures
        answer is Ok,
        answer->Ok_0@ == report(*survey),
{
    let runtime = locate_runtime(&survey.home, &survey.interpreter);
    let scripts = resolve(&survey.scripts, PathKind::Directory);
    let mut info = write_bundled(&runtime.home, &survey.home_interpreter);
    info.append(write_interpreter(&runtime.interpreter).as_str());
    info.append(
        write_origins(&survey.current_dir, &survey.executable, survey.manifest_dir.as_str()).as_str(),
    );
    info.append(write_scripts(&scripts, &survey.script_entries).as_str());
    Ok(info)
}

} // verus!

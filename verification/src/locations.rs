//! Where the runtime and the scripts are looked for.
//!
//! Each lookup has a fixed, prioritised list of candidate locations. A
//! candidate is a base directory and the names to descend through from it;
//! turning it into a path and inspecting it is left to the caller, who reports
//! back with one [`Probe`] per candidate, in the same order.

use crate::resolver::{resolution, resolve, PathKind, Probe};
use crate::text::{optional_text, texts};
use crate::versions::{installed_versions, versions_descending};
use vstd::prelude::*;

verus! {

/// The platform differences that matter to the search.
#[derive(Clone, Copy, Debug, PartialEq, Eq, Structural)]
pub enum Platform {
    Windows,
    Other,
}

impl Platform {
    /// File name of the interpreter executable.
    pub open spec fn executable(self) -> Seq<char> {
        match self {
            Platform::Windows => "Rscript.exe"@,
            Platform::Other => "Rscript"@,
        }
    }

    /// Whether system-wide installations are searched on this platform.
    pub open spec fn scans_system(self) -> bool {
        self == Platform::Windows
    }

    /// File name of the interpreter executable.
    pub fn executable_name(self) -> (name: &'static str)
        ensures
            name@ == self.executable(),
    {
        match self {
            Platform::Windows => "Rscript.exe",
            Platform::Other => "Rscript",
        }
    }

    /// Whether system-wide installations are searched on this platform.
    pub fn scans_system_installs(self) -> (b: bool)
        ensures
            b == self.scans_system(),
    {
        self == Platform::Windows
    }
}

/// The directories that candidate locations are built from. Those that depend
/// on the environment may be unknown; a candidate below an unknown directory
/// is simply not produced.
#[derive(Clone, Debug, PartialEq, Eq)]
pub struct Locations {
    /// The application's resource directory.
    pub resource_dir: Option<String>,
    /// The root of the development tree, fixed when the application is built.
    pub manifest_dir: String,
    /// The current working directory.
    pub current_dir: Option<String>,
    /// The directory that holds the running executable.
    pub executable_dir: Option<String>,
}

/// A location to inspect: `base`, then each of `segments` in turn below it.
#[derive(Clone, Debug, PartialEq, Eq)]
pub struct Candidate {
    pub base: String,
    pub segments: Vec<String>,
}

/// The mathematical content of a [`Candidate`].
pub ghost struct CandidateModel {
    pub base: Seq<char>,
    pub segments: Seq<Seq<char>>,
}

impl CandidateModel {
    /// The directory `base` itself.
    pub open spec fn at(base: Seq<char>) -> CandidateModel {
        CandidateModel { base, segments: Seq::empty() }
    }

    /// The entry called `name` below this location.
    pub open spec fn child(self, name: Seq<char>) -> CandidateModel {
        CandidateModel { base: self.base, segments: self.segments.push(name) }
    }
}

impl View for Candidate {
    type V = CandidateModel;

    open spec fn view(&self) -> CandidateModel {
        CandidateModel { base: self.base@, segments: texts(self.segments@) }
    }
}

impl Candidate {
    /// The directory `base` itself.
    pub fn at(base: &str) -> (c: Candidate)
        ensures
            c@ == CandidateModel::at(base@),
    {
        let c = Candidate { base: base.to_owned(), segments: Vec::new() };
        assert(c@.segments =~= Seq::empty());
        c
    }

    /// The entry called `name` below this location.
    pub fn child(self, name: &str) -> (c: Candidate)
        ensures
            c@ == self@.child(name@),
    {
        let Candidate { base, mut segments } = self;
        segments.push(name.to_owned());
        let c = Candidate { base, segments };
        assert(c@.segments =~= self@.segments.push(name@));
        c
    }
}

/// The models of a list of candidates, in order.
pub open spec fn models(candidates: Seq<Candidate>) -> Seq<CandidateModel> {
    Seq::new(candidates.len(), |i: int| candidates[i]@)
}

/// What a system-wide installation directory holds: its path and the names of
/// its entries, in no particular order.
#[derive(Clone, Debug, PartialEq, Eq)]
pub struct InstallRoot {
    pub base: String,
    pub entries: Vec<String>,
}

/// A bundled runtime below `base`.
pub open spec fn bundled_home(base: Seq<char>) -> CandidateModel {
    CandidateModel::at(base).child("r-portable"@)
}

/// The interpreter of a bundled runtime below `base`.
pub open spec fn bundled_interpreter(base: Seq<char>, platform: Platform) -> CandidateModel {
    bundled_home(base).child("bin"@).child(platform.executable())
}

/// The interpreter of the installed version `version` below `base`.
pub open spec fn installed_interpreter(
    base: Seq<char>,
    version: Seq<char>,
    platform: Platform,
) -> CandidateModel {
    CandidateModel::at(base).child(version).child("bin"@).child(platform.executable())
}

/// Candidates for the runtime home, best first: the bundled runtime among the
/// application's resources, then the one in the development tree.
pub open spec fn home_candidates(locations: Locations) -> Seq<CandidateModel> {
    (match locations.resource_dir {
        Some(dir) => seq![bundled_home(dir@)],
        None => seq![],
    }) + seq![bundled_home(locations.manifest_dir@)]
}

/// Candidates below one installation directory: the interpreter of each
/// installed version, highest version name first.
pub open spec fn root_candidates(root: InstallRoot, platform: Platform) -> Seq<CandidateModel> {
    let versions = versions_descending(texts(root.entries@));
    Seq::new(versions.len(), |i: int| installed_interpreter(root.base@, versions[i], platform))
}

/// Candidates below all installation directories, directory by directory.
pub open spec fn system_candidates(installs: Seq<InstallRoot>, platform: Platform) -> Seq<
    CandidateModel,
>
    decreases installs.len(),
{
    if installs.len() == 0 {
        seq![]
    } else {
        system_candidates(installs.drop_last(), platform) + root_candidates(
            installs.last(),
            platform,
        )
    }
}

/// Candidates for the interpreter, best first: the bundled runtime among the
/// application's resources, the one in the development tree, and, where the
/// platform has system-wide installations, each installed version.
pub open spec fn interpreter_candidates(
    locations: Locations,
    platform: Platform,
    installs: Seq<InstallRoot>,
) -> Seq<CandidateModel> {
    (match locations.resource_dir {
        Some(dir) => seq![bundled_interpreter(dir@, platform)],
        None => seq![],
    }) + seq![bundled_interpreter(locations.manifest_dir@, platform)] + (if platform.scans_system() {
        system_candidates(installs, platform)
    } else {
        seq![]
    })
}

/// Candidates for the scripts directory, best first: below the working
/// directory, three levels above the executable's directory, in the
/// development tree, and among the application's resources.
pub open spec fn scripts_candidates(locations: Locations) -> Seq<CandidateModel> {
    (match locations.current_dir {
        Some(dir) => seq![CandidateModel::at(dir@).child("src-tauri"@).child("scripts"@)],
        None => seq![],
    }) + (match locations.executable_dir {
        Some(dir) => seq![
            CandidateModel::at(dir@).child(".."@).child(".."@).child(".."@).child("scripts"@),
        ],
        None => seq![],
    }) + seq![CandidateModel::at(locations.manifest_dir@).child("scripts"@)] + (
    match locations.resource_dir {
        Some(dir) => seq![CandidateModel::at(dir@).child("scripts"@)],
        None => seq![],
    })
}

/// The system-wide directories below which installed versions are looked for.
pub fn system_install_roots() -> (roots: Vec<String>)
    ensures
        texts(roots@) == seq!["C:\\Program Files\\R"@, "C:\\Program Files (x86)\\R"@],
{
    let mut roots: Vec<String> = Vec::new();
    roots.push("C:\\Program Files\\R".to_owned());
    roots.push("C:\\Program Files (x86)\\R".to_owned());
    assert(texts(roots@) =~= seq!["C:\\Program Files\\R"@, "C:\\Program Files (x86)\\R"@]);
    roots
}

fn bundled_home_candidate(base: &str) -> (c: Candidate)
    ensures
        c@ == bundled_home(base@),
{
    Candidate::at(base).child("r-portable")
}

fn bundled_interpreter_candidate(base: &str, platform: Platform) -> (c: Candidate)
    ensures
        c@ == bundled_interpreter(base@, platform),
{
    bundled_home_candidate(base).child("bin").child(platform.executable_name())
}

/// Lists where the runtime home is looked for, best first.
pub fn r_home_candidates(locations: &Locations) -> (candidates: Vec<Candidate>)
    ensures
        models(candidates@) == home_candidates(*locations),
{
    let mut candidates: Vec<Candidate> = Vec::new();
    match &locations.resource_dir {
        Some(dir) => candidates.push(bundled_home_candidate(dir.as_str())),
        None => {},
    }
    candidates.push(bundled_home_candidate(locations.manifest_dir.as_str()));
    assert(models(candidates@) =~= home_candidates(*locations));
    candidates
}

/// Lists the interpreters of the versions installed below one directory,
/// highest version name first.
pub fn version_candidates(root: &InstallRoot, platform: Platform) -> (candidates: Vec<Candidate>)
    ensures
        models(candidates@) == root_candidates(*root, platform),
{
    let versions = installed_versions(&root.entries);
    let mut candidates: Vec<Candidate> = Vec::new();
    let mut i: usize = 0;
    while i < versions.len()
        invariant
            i <= versions.len(),
            texts(versions@) == versions_descending(texts(root.entries@)),
            candidates@.len() == i,
            forall|k: int|
                0 <= k < i ==> (#[trigger] candidates@[k])@ == installed_interpreter(
                    root.base@,
                    versions@[k]@,
                    platform,
                ),
        decreases versions.len() - i,
    {
        let candidate = Candidate::at(root.base.as_str()).child(versions[i].as_str()).child(
            "bin",
        ).child(platform.executable_name());
        candidates.push(candidate);
        i += 1;
    }
    assert(models(candidates@) =~= root_candidates(*root, platform)) by {
        let sorted = versions_descending(texts(root.entries@));
        assert(sorted.len() == versions@.len());
        assert forall|k: int| 0 <= k < candidates@.len() implies models(candidates@)[k]
            == root_candidates(*root, platform)[k] by {
            assert(texts(versions@)[k] == versions@[k]@);
        }
    }
    candidates
}

/// Lists where the interpreter is looked for, best first. `installs` holds the
/// contents of the system-wide installation directories, in the order of
/// [`system_install_roots`]; it is only consulted on a platform that has such
/// installations.
pub fn rscript_candidates(
    locations: &Locations,
    platform: Platform,
    installs: &Vec<InstallRoot>,
) -> (candidates: Vec<Candidate>)
    ensures
        models(candidates@) == interpreter_candidates(*locations, platform, installs@),
{
    let mut candidates: Vec<Candidate> = Vec::new();
    match &locations.resource_dir {
        Some(dir) => candidates.push(bundled_interpreter_candidate(dir.as_str(), platform)),
        None => {},
    }
    candidates.push(bundled_interpreter_candidate(locations.manifest_dir.as_str(), platform));
    let ghost bundled = models(candidates@);
    if platform.scans_system_installs() {
        let mut i: usize = 0;
        assert(installs@.take(0) =~= Seq::<InstallRoot>::empty());
        assert(models(candidates@) =~= bundled + system_candidates(installs@.take(0), platform));
        while i < installs.len()
            invariant
                i <= installs.len(),
                models(candidates@) == bundled + system_candidates(
                    installs@.take(i as int),
                    platform,
                ),
            decreases installs.len() - i,
        {
            let ghost before = models(candidates@);
            let mut found = version_candidates(&installs[i], platform);
            let ghost added = models(found@);
            candidates.append(&mut found);
            proof {
                assert(installs@.take(i + 1).drop_last() =~= installs@.take(i as int));
                assert(installs@.take(i + 1).last() == installs@[i as int]);
                assert(models(candidates@) =~= before + added);
                assert(before + added =~= bundled + (system_candidates(
                    installs@.take(i as int),
                    platform,
                ) + added));
            }
            i += 1;
        }
        assert(installs@.take(installs.len() as int) =~= installs@);
    }
    assert(models(candidates@) =~= interpreter_candidates(*locations, platform, installs@));
    candidates
}

/// Lists where the scripts directory is looked for, best first.
pub fn scripts_dir_candidates(locations: &Locations) -> (candidates: Vec<Candidate>)
    ensures
        models(candidates@) == scripts_candidates(*locations),
{
    let mut candidates: Vec<Candidate> = Vec::new();
    match &locations.current_dir {
        Some(dir) => candidates.push(
            Candidate::at(dir.as_str()).child("src-tauri").child("scripts"),
        ),
        None => {},
    }
    match &locations.executable_dir {
        Some(dir) => candidates.push(
            Candidate::at(dir.as_str()).child("..").child("..").child("..").child("scripts"),
        ),
        None => {},
    }
    candidates.push(Candidate::at(locations.manifest_dir.as_str()).child("scripts"));
    match &locations.resource_dir {
        Some(dir) => candidates.push(Candidate::at(dir.as_str()).child("scripts")),
        None => {},
    }
    assert(models(candidates@) =~= scripts_candidates(*locations));
    candidates
}

/// Picks the runtime home from the inspected home candidates: the first that
/// is a directory. A runtime without a home of its own is not an error.
pub fn find_r_home(probes: &Vec<Probe>) -> (home: Option<String>)
    ensures
        optional_text(home) == resolution(probes@, PathKind::Directory),
{
    resolve(probes, PathKind::Directory)
}

/// Picks the interpreter from the inspected interpreter candidates: the first
/// that is a file. When there is none the caller falls back to the bare
/// program name.
pub fn find_rscript(probes: &Vec<Probe>) -> (interpreter: Option<String>)
    ensures
        optional_text(interpreter) == resolution(probes@, PathKind::File),
{
    resolve(probes, PathKind::File)
}

/// Where the runtime was found. The home and the interpreter are looked for
/// independently: an interpreter may be found without a home, as with a
/// system-wide installation, and is then run without variables of its own.
#[derive(Clone, Debug, PartialEq, Eq)]
pub struct RuntimeLocation {
    pub home: Option<String>,
    pub interpreter: Option<String>,
}

/// Picks the runtime home and the interpreter, each from its own inspected
/// candidates.
pub fn locate_runtime(home: &Vec<Probe>, interpreter: &Vec<Probe>) -> (runtime: RuntimeLocation)
    ensures
        optional_text(runtime.home) == resolution(home@, PathKind::Directory),
        optional_text(runtime.interpreter) == resolution(interpreter@, PathKind::File),
{
    RuntimeLocation { home: find_r_home(home), interpreter: find_rscript(interpreter) }
}

/// Picks the scripts directory from the inspected candidates: the first that
/// is a directory.
pub fn find_scripts_dir(probes: &Vec<Probe>) -> (dir: Option<String>)
    ensures
        optional_text(dir) == resolution(probes@, PathKind::Directory),
{
    resolve(probes, PathKind::Directory)
}

} // verus!

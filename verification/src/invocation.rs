//! Planning a run of a script.
//!
//! From what the caller found on disk the planner either names what is missing
//! or lays out the process to start: the program, its arguments and the
//! variables to add to its environment. Only a missing scripts directory and a
//! missing script stop a run; a runtime that was not found is replaced by the
//! bare program name and the interpreter's own defaults.

use crate::locations::{locate_runtime, Candidate, CandidateModel};
use crate::resolver::{resolution, resolve, PathKind, Probe};
use crate::text::{
    contains_text, join, joined, lemma_contains_middle, lemma_contains_within,
    lemma_joined_contains_each, occurs_at, optional_text, texts,
};
use vstd::prelude::*;

verus! {

/// A request to run one script. The name is taken as it is and looked up
/// below the scripts directory; callers supply trusted names.
#[derive(Clone, Debug, PartialEq, Eq)]
pub struct ScriptRequest {
    pub script_name: String,
    pub args: Vec<String>,
}

/// A variable to set in the environment of the interpreter.
#[derive(Clone, Debug, PartialEq, Eq)]
pub struct EnvVar {
    pub name: String,
    pub value: String,
}

impl View for EnvVar {
    type V = (Seq<char>, Seq<char>);

    open spec fn view(&self) -> (Seq<char>, Seq<char>) {
        (self.name@, self.value@)
    }
}

/// The variables held by a list, as pairs of name and value.
pub open spec fn variables(environment: Seq<EnvVar>) -> Seq<(Seq<char>, Seq<char>)> {
    Seq::new(environment.len(), |i: int| environment[i]@)
}

/// The process to start for a run.
#[derive(Clone, Debug, PartialEq, Eq)]
pub struct Invocation {
    pub program: String,
    pub arguments: Vec<String>,
    /// Variables to set on top of the inherited environment.
    pub environment: Vec<EnvVar>,
}

/// The mathematical content of an [`Invocation`].
pub ghost struct InvocationModel {
    pub program: Seq<char>,
    pub arguments: Seq<Seq<char>>,
    pub environment: Seq<(Seq<char>, Seq<char>)>,
}

impl View for Invocation {
    type V = InvocationModel;

    open spec fn view(&self) -> InvocationModel {
        InvocationModel {
            program: self.program@,
            arguments: texts(self.arguments@),
            environment: variables(self.environment@),
        }
    }
}

/// What the caller found on disk for one run.
#[derive(Clone, Debug, PartialEq, Eq)]
pub struct Findings {
    /// The scripts-directory candidates, inspected in order.
    pub scripts: Vec<Probe>,
    /// The script below the scripts directory, when a directory was found.
    pub script: Option<Probe>,
    /// The interpreter candidates, inspected in order.
    pub interpreter: Vec<Probe>,
    /// The runtime-home candidates, inspected in order.
    pub home: Vec<Probe>,
    /// The package library below the runtime home, when a home was found.
    pub library: Option<Probe>,
}

/// The paths that were inspected, in order.
pub open spec fn inspected(probes: Seq<Probe>) -> Seq<Seq<char>> {
    Seq::new(probes.len(), |i: int| probes[i].path@)
}

/// The error for a scripts directory that is nowhere to be found.
pub open spec fn missing_directory(attempted: Seq<Seq<char>>) -> Seq<char> {
    "Could not find scripts directory (searched in: "@ + joined(attempted, ", "@) + ")"@
}

/// The error for a script that is not in the scripts directory.
pub open spec fn missing_script(script_name: Seq<char>, dir: Seq<char>) -> Seq<char> {
    "Script not found: "@ + script_name + " (searched in: "@ + dir + ")"@
}

/// The error for a missing scripts directory says "directory" and names
/// every location that was tried.
pub proof fn lemma_missing_directory_names_attempts(attempted: Seq<Seq<char>>)
    ensures
        contains_text(missing_directory(attempted), "directory"@),
        forall|i: int|
            0 <= i < attempted.len() ==> contains_text(
                missing_directory(attempted),
                #[trigger] attempted[i],
            ),
{
    let head = "Could not find scripts directory (searched in: "@;
    let list = joined(attempted, ", "@);
    let tail = ")"@;
    let empty = Seq::<char>::empty();
    assert(contains_text(head, "directory"@)) by {
        reveal_strlit("Could not find scripts directory (searched in: ");
        reveal_strlit("directory");
        assert(head.subrange(23, 32) =~= "directory"@);
        assert(occurs_at(head, "directory"@, 23));
    }
    lemma_contains_within(empty, head, list + tail, "directory"@);
    assert(empty + head + (list + tail) =~= missing_directory(attempted));
    assert forall|i: int| 0 <= i < attempted.len() implies contains_text(
        missing_directory(attempted),
        #[trigger] attempted[i],
    ) by {
        lemma_joined_contains_each(attempted, ", "@, i);
        lemma_contains_within(head, list, tail, attempted[i]);
    }
}

/// The error for a missing script names the script and the directory that
/// was searched.
pub proof fn lemma_missing_script_names_script_and_directory(
    script_name: Seq<char>,
    dir: Seq<char>,
)
    ensures
        contains_text(missing_script(script_name, dir), script_name),
        contains_text(missing_script(script_name, dir), dir),
{
    let head = "Script not found: "@;
    let mid = " (searched in: "@;
    let tail = ")"@;
    lemma_contains_middle(head, script_name, mid + dir + tail);
    assert(head + script_name + (mid + dir + tail) =~= missing_script(script_name, dir));
    lemma_contains_middle(head + script_name + mid, dir, tail);
    assert((head + script_name + mid) + dir + tail =~= missing_script(script_name, dir));
}

/// Builds the error for a scripts directory that is nowhere to be found.
pub fn missing_directory_text(attempted: &Vec<Probe>) -> (message: String)
    ensures
        message@ == missing_directory(inspected(attempted@)),
{
    let mut paths: Vec<String> = Vec::new();
    let mut i: usize = 0;
    while i < attempted.len()
        invariant
            i <= attempted.len(),
            texts(paths@) == inspected(attempted@).take(i as int),
        decreases attempted.len() - i,
    {
        let ghost before = texts(paths@);
        paths.push(attempted[i].path.clone());
        assert(texts(paths@) =~= before.push(attempted@[i as int].path@));
        assert(texts(paths@) =~= inspected(attempted@).take(i + 1));
        i += 1;
    }
    assert(inspected(attempted@).take(attempted.len() as int) =~= inspected(attempted@));
    let list = join(&paths, ", ");
    let mut message = String::from_str("Could not find scripts directory (searched in: ");
    message.append(list.as_str());
    message.append(")");
    message
}

/// Builds the error for a script that is not in the scripts directory.
pub fn missing_script_text(script_name: &str, dir: &str) -> (message: String)
    ensures
        message@ == missing_script(script_name@, dir@),
{
    let mut message = String::from_str("Script not found: ");
    message.append(script_name);
    message.append(" (searched in: ");
    message.append(dir);
    message.append(")");
    message
}

/// Where a script is expected: below the scripts directory, under its name.
pub fn script_candidate(dir: &str, script_name: &str) -> (c: Candidate)
    ensures
        c@ == CandidateModel::at(dir@).child(script_name@),
{
    Candidate::at(dir).child(script_name)
}

/// Where the package library of a runtime is expected: below its home.
pub fn library_candidate(home: &str) -> (c: Candidate)
    ensures
        c@ == CandidateModel::at(home@).child("library"@),
{
    Candidate::at(home).child("library")
}

/// The program to start: the interpreter that was found, or the bare program
/// name for the operating system to look up.
pub open spec fn program(interpreter: Option<Seq<char>>) -> Seq<char> {
    match interpreter {
        Some(path) => path,
        None => "Rscript"@,
    }
}

/// The arguments of the interpreter: the flag that turns startup files off,
/// the script, then the caller's arguments in their order.
pub open spec fn arguments(script: Seq<char>, args: Seq<Seq<char>>) -> Seq<Seq<char>> {
    seq!["--vanilla"@, script] + args
}

/// The variables that point the interpreter at a runtime: its home whenever
/// one was found, and the package library twice over when the home has one.
pub open spec fn runtime_variables(home: Option<Seq<char>>, library: Option<Probe>) -> Seq<
    (Seq<char>, Seq<char>),
> {
    match home {
        None => seq![],
        Some(h) => if library is Some && library->0.found.present() {
            seq![("R_HOME"@, h), ("R_LIBS"@, library->0.path@), ("R_LIBS_USER"@, library->0.path@)]
        } else {
            seq![("R_HOME"@, h)]
        },
    }
}

/// Chooses the program to start.
pub fn interpreter_program(interpreter: Option<String>) -> (name: String)
    ensures
        name@ == program(
            optional_text(interpreter),
        ),
{
    match interpreter {
        Some(path) => path,
        None => "Rscript".to_owned(),
    }
}

/// Lays out the interpreter's arguments.
pub fn command_arguments(script: &str, args: &Vec<String>) -> (all: Vec<String>)
    ensures
        texts(all@) == arguments(script@, texts(args@)),
{
    let mut all: Vec<String> = Vec::new();
    all.push("--vanilla".to_owned());
    all.push(script.to_owned());
    let mut i: usize = 0;
    assert(texts(all@) =~= arguments(script@, texts(args@).take(0)));
    while i < args.len()
        invariant
            i <= args.len(),
            texts(all@) == arguments(script@, texts(args@).take(i as int)),
        decreases args.len() - i,
    {
        let ghost before = texts(all@);
        all.push(args[i].clone());
        assert(texts(all@) =~= before.push(args@[i as int]@));
        assert(texts(all@) =~= arguments(script@, texts(args@).take(i + 1)));
        i += 1;
    }
    assert(texts(args@).take(args.len() as int) =~= texts(args@));
    all
}

fn variable(name: &str, value: &str) -> (v: EnvVar)
    ensures
        v@ == (name@, value@),
{
    EnvVar { name: name.to_owned(), value: value.to_owned() }
}

/// Derives the variables to set for the interpreter from the runtime home and
/// from what was found where its package library should be.
///
/// Without a home nothing is set. With a home whose library is missing only
/// the home is set.
pub fn runtime_environment(home: &Option<String>, library: &Option<Probe>) -> (environment: Vec<
    EnvVar,
>)
    ensures
        variables(environment@) == runtime_variables(
            optional_text(*home),
            *library,
        ),
        *home is None ==> environment@.len() == 0,
        *home is Some && !(*library is Some && library->0.found.present()) ==> variables(
            environment@,
        ) == seq![("R_HOME"@, home->0@)],
{
    let mut environment: Vec<EnvVar> = Vec::new();
    match home {
        None => {},
        Some(h) => {
            environment.push(variable("R_HOME", h.as_str()));
            match library {
                Some(found) => {
                    if found.found.is_present() {
                        environment.push(variable("R_LIBS", found.path.as_str()));
                        environment.push(variable("R_LIBS_USER", found.path.as_str()));
                    }
                },
                None => {},
            }
        },
    }
    assert(variables(environment@) =~= runtime_variables(
        optional_text(*home),
        *library,
    ));
    environment
}

/// What a request comes to, given the findings: the process to start, or the
/// error that stops the run.
pub open spec fn planned(request: ScriptRequest, findings: Findings) -> Result<
    InvocationModel,
    Seq<char>,
> {
    match resolution(findings.scripts@, PathKind::Directory) {
        None => Err(missing_directory(inspected(findings.scripts@))),
        Some(dir) => if findings.script is Some && findings.script->0.found.present() {
            Ok(
                InvocationModel {
                    program: program(resolution(findings.interpreter@, PathKind::File)),
                    arguments: arguments(findings.script->0.path@, texts(request.args@)),
                    environment: runtime_variables(
                        resolution(findings.home@, PathKind::Directory),
                        findings.library,
                    ),
                },
            )
        } else {
            Err(missing_script(request.script_name@, dir))
        },
    }
}

/// Without a scripts directory the run is stopped by an error that says
/// "directory" and names every location that was tried.
pub proof fn lemma_missing_directory_stops_run(request: ScriptRequest, findings: Findings)
    requires
        resolution(findings.scripts@, PathKind::Directory) is None,
    ensures
        planned(request, findings) is Err,
        contains_text(planned(request, findings)->Err_0, "directory"@),
        forall|i: int|
            0 <= i < findings.scripts@.len() ==> contains_text(
                planned(request, findings)->Err_0,
                (#[trigger] findings.scripts@[i]).path@,
            ),
{
    let attempted = inspected(findings.scripts@);
    lemma_missing_directory_names_attempts(attempted);
    assert forall|i: int| 0 <= i < findings.scripts@.len() implies contains_text(
        planned(request, findings)->Err_0,
        (#[trigger] findings.scripts@[i]).path@,
    ) by {
        assert(attempted[i] == findings.scripts@[i].path@);
    }
}

/// A script that is not in the scripts directory stops the run with an error
/// that names that script and the directory that was found.
pub proof fn lemma_missing_script_stops_run(request: ScriptRequest, findings: Findings)
    requires
        resolution(findings.scripts@, PathKind::Directory) is Some,
        !(findings.script is Some && findings.script->0.found.present()),
    ensures
        planned(request, findings) is Err,
        contains_text(planned(request, findings)->Err_0, request.script_name@),
        contains_text(
            planned(request, findings)->Err_0,
            resolution(findings.scripts@, PathKind::Directory)->0,
        ),
{
    lemma_missing_script_names_script_and_directory(
        request.script_name@,
        resolution(findings.scripts@, PathKind::Directory)->0,
    );
}

/// Plans a run from a request and the findings.
///
/// The run is stopped, in this order, by a scripts directory that none of the
/// candidates provides and by a script that does not exist below it. Nothing
/// else stops it: without an interpreter the bare program name is used, and
/// without a runtime home no variables are set.
pub fn plan_invocation(request: &ScriptRequest, findings: &Findings) -> (plan: Result<
    Invocation,
    String,
>)
    ensures
        plan is Ok <==> resolution(findings.scripts@, PathKind::Directory) is Some
            && findings.script is Some && findings.script->0.found.present(),
        match plan {
            Ok(invocation) => planned(*request, *findings) == Ok::<InvocationModel, Seq<char>>(
                invocation@,
            ),
            Err(message) => planned(*request, *findings) == Err::<InvocationModel, Seq<char>>(
                message@,
            ),
        },
{
    let dir = match resolve(&findings.scripts, PathKind::Directory) {
        Some(dir) => dir,
        None => {
            return Err(missing_directory_text(&findings.scripts));
        },
    };
    let script = match &findings.script {
        Some(probe) => {
            if probe.found.is_present() {
                probe.path.as_str()
            } else {
                return Err(missing_script_text(request.script_name.as_str(), dir.as_str()));
            }
        },
        None => {
            return Err(missing_script_text(request.script_name.as_str(), dir.as_str()));
        },
    };
    let runtime = locate_runtime(&findings.home, &findings.interpreter);
    let program = interpreter_program(runtime.interpreter);
    let arguments = command_arguments(script, &request.args);
    let environment = runtime_environment(&runtime.home, &findings.library);
    Ok(Invocation { program, arguments, environment })
}

/// Whether one of the variables has the given name.
pub open spec fn sets(environment: Seq<(Seq<char>, Seq<char>)>, name: Seq<char>) -> bool {
    exists|i: int| 0 <= i < environment.len() && (#[trigger] environment[i]).0 == name
}

/// Picks the variables whose name `derived` leaves alone.
pub open spec fn not_set_by(derived: Seq<(Seq<char>, Seq<char>)>) -> spec_fn(
    (Seq<char>, Seq<char>),
) -> bool {
    |v: (Seq<char>, Seq<char>)| !sets(derived, v.0)
}

/// The environment of the interpreter: the inherited variables that the
/// derived ones do not replace, then the derived ones. Names are compared
/// exactly.
pub open spec fn merged(
    inherited: Seq<(Seq<char>, Seq<char>)>,
    derived: Seq<(Seq<char>, Seq<char>)>,
) -> Seq<(Seq<char>, Seq<char>)> {
    inherited.filter(not_set_by(derived)) + derived
}

/// A variable is in the merged environment exactly when it is derived, or
/// inherited under a name that no derived variable has.
pub proof fn lemma_merged_members(
    inherited: Seq<(Seq<char>, Seq<char>)>,
    derived: Seq<(Seq<char>, Seq<char>)>,
    v: (Seq<char>, Seq<char>),
)
    ensures
        merged(inherited, derived).contains(v) <==> derived.contains(v) || (inherited.contains(v)
            && !sets(derived, v.0)),
{
    let keep = not_set_by(derived);
    let kept = inherited.filter(keep);
    let all = merged(inherited, derived);
    if all.contains(v) {
        let i = choose|i: int| 0 <= i < all.len() && all[i] == v;
        if i < kept.len() {
            assert(kept[i] == v);
            inherited.lemma_filter_pred(keep, i);
            assert(kept.contains(v));
            inherited.lemma_filter_contains_rev(keep, v);
        } else {
            assert(derived[i - kept.len()] == v);
        }
    }
    if derived.contains(v) {
        let i = choose|i: int| 0 <= i < derived.len() && derived[i] == v;
        assert(all[kept.len() + i] == v);
    }
    if inherited.contains(v) && !sets(derived, v.0) {
        let i = choose|i: int| 0 <= i < inherited.len() && inherited[i] == v;
        inherited.lemma_filter_contains(keep, i);
        let k = choose|k: int| 0 <= k < kept.len() && kept[k] == v;
        assert(all[k] == v);
    }
}

fn is_set(environment: &Vec<EnvVar>, name: &String) -> (b: bool)
    ensures
        b == sets(variables(environment@), name@),
{
    let mut i: usize = 0;
    while i < environment.len()
        invariant
            i <= environment.len(),
            forall|k: int| 0 <= k < i ==> (#[trigger] variables(environment@)[k]).0 != name@,
        decreases environment.len() - i,
    {
        if environment[i].name == *name {
            assert(variables(environment@)[i as int].0 == name@);
            return true;
        }
        i += 1;
    }
    false
}

/// Merges the derived variables onto an inherited environment: an inherited
/// variable is dropped when a derived one has its name, and the derived
/// variables follow the rest.
pub fn merge_environment(inherited: &Vec<EnvVar>, derived: &Vec<EnvVar>) -> (all: Vec<EnvVar>)
    ensures
        variables(all@) == merged(variables(inherited@), variables(derived@)),
{
    let ghost keep = not_set_by(variables(derived@));
    let mut all: Vec<EnvVar> = Vec::new();
    let mut i: usize = 0;
    proof {
        assert(variables(inherited@).take(0) =~= Seq::empty());
        reveal(Seq::filter);
        assert(variables(all@) =~= variables(inherited@).take(0).filter(keep));
    }
    while i < inherited.len()
        invariant
            i <= inherited.len(),
            keep == not_set_by(variables(derived@)),
            variables(all@) == variables(inherited@).take(i as int).filter(keep),
        decreases inherited.len() - i,
    {
        let ghost seen = variables(inherited@).take(i as int);
        let ghost before = variables(all@);
        proof {
            assert(variables(inherited@).take(i + 1) =~= seen.push(inherited@[i as int]@));
            seen.lemma_filter_push(inherited@[i as int]@, keep);
        }
        if !is_set(derived, &inherited[i].name) {
            all.push(variable(inherited[i].name.as_str(), inherited[i].value.as_str()));
            assert(variables(all@) =~= before.push(inherited@[i as int]@));
        }
        i += 1;
    }
    assert(variables(inherited@).take(inherited.len() as int) =~= variables(inherited@));
    let ghost kept = variables(all@);
    let mut j: usize = 0;
    while j < derived.len()
        invariant
            j <= derived.len(),
            variables(all@) == kept + variables(derived@).take(j as int),
        decreases derived.len() - j,
    {
        let ghost before = variables(all@);
        all.push(variable(derived[j].name.as_str(), derived[j].value.as_str()));
        assert(variables(all@) =~= before.push(derived@[j as int]@));
        assert(variables(all@) =~= kept + variables(derived@).take(j + 1));
        j += 1;
    }
    assert(variables(derived@).take(derived.len() as int) =~= variables(derived@));
    all
}

/// The whole environment of the interpreter, from the runtime home, what was
/// found where its package library should be, and the inherited environment.
pub fn final_environment(
    home: &Option<String>,
    library: &Option<Probe>,
    inherited: &Vec<EnvVar>,
) -> (all: Vec<EnvVar>)
    ensures
        variables(all@) == merged(
            variables(inherited@),
            runtime_variables(
                optional_text(*home),
                *library,
            ),
        ),
        *home is None ==> variables(all@) == variables(inherited@),
{
    let derived = runtime_environment(home, library);
    proof {
        if *home is None {
            assert(variables(derived@) =~= Seq::empty());
            lemma_keeps_all(variables(inherited@), variables(derived@));
        }
    }
    merge_environment(inherited, &derived)
}

/// With nothing derived the inherited environment is kept as it is.
proof fn lemma_keeps_all(
    inherited: Seq<(Seq<char>, Seq<char>)>,
    derived: Seq<(Seq<char>, Seq<char>)>,
)
    requires
        derived.len() == 0,
    ensures
        merged(inherited, derived) == inherited,
    decreases inherited.len(),
{
    let keep = not_set_by(derived);
    if inherited.len() == 0 {
        reveal(Seq::filter);
        assert(merged(inherited, derived) =~= inherited);
    } else {
        let front = inherited.drop_last();
        assert(front.push(inherited.last()) =~= inherited);
        lemma_keeps_all(front, derived);
        front.lemma_filter_push(inherited.last(), keep);
        assert(merged(inherited, derived) =~= inherited);
    }
}

} // verus!

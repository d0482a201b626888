//! Reporting a finished run.
//!
//! A script that ran is always reported as a result, whether it succeeded or
//! not; only an interpreter that could not be started at all is an error.

use crate::text::{
    contains_text, decimal, decimal_text, decode_lossy, lemma_contains_middle, lossy_text, trim,
    trimmed,
};
use vstd::prelude::*;
use vstd::utf8::{decode_utf8_encode_utf8, encode_utf8, valid_utf8};

verus! {

/// The report handed back for a script that ran.
///
/// On success `output` is the script's standard output with surrounding white
/// space removed; on failure it is the standard output as written. Callers
/// must not assume one format for both.
#[derive(Clone, Debug, PartialEq, Eq)]
pub struct RScriptResult {
    pub success: bool,
    pub output: String,
    pub error: Option<String>,
}

/// The mathematical content of an [`RScriptResult`].
pub ghost struct ResultModel {
    pub success: bool,
    pub output: Seq<char>,
    pub error: Option<Seq<char>>,
}

impl View for RScriptResult {
    type V = ResultModel;

    open spec fn view(&self) -> ResultModel {
        ResultModel {
            success: self.success,
            output: self.output@,
            error: match self.error {
                Some(e) => Some(e@),
                None => None,
            },
        }
    }
}

/// What an interpreter process left behind when it ended.
#[derive(Clone, Debug, PartialEq, Eq)]
pub struct ProcessOutput {
    /// Whether the exit status signals success.
    pub success: bool,
    /// The exit code, absent when the process was ended by a signal.
    pub code: Option<i32>,
    pub stdout: Vec<u8>,
    pub stderr: Vec<u8>,
}

/// How an exit code is written in a message.
pub open spec fn exit_code_text(code: Option<i32>) -> Seq<char> {
    match code {
        Some(c) => "Some("@ + decimal(c as int) + ")"@,
        None => "None"@,
    }
}

/// The message that stands in for an empty error stream of a failed run.
pub open spec fn exit_message(code: Option<i32>) -> Seq<char> {
    "R script exited with code: "@ + exit_code_text(code)
}

/// The report for a run that ended with the given status and decoded streams.
pub open spec fn classified(
    success: bool,
    code: Option<i32>,
    stdout: Seq<char>,
    stderr: Seq<char>,
) -> ResultModel {
    if success {
        ResultModel {
            success: true,
            output: trimmed(stdout),
            error: if stderr.len() == 0 {
                None
            } else {
                Some(stderr)
            },
        }
    } else {
        ResultModel {
            success: false,
            output: stdout,
            error: Some(
                if stderr.len() == 0 {
                    exit_message(code)
                } else {
                    stderr
                },
            ),
        }
    }
}

/// A failed run that wrote nothing to its error stream is reported with an
/// error text that names the exit code.
pub proof fn lemma_silent_failure_names_code(code: i32, stdout: Seq<char>)
    ensures
        classified(false, Some(code), stdout, Seq::empty()).error == Some(
            exit_message(Some(code)),
        ),
        contains_text(exit_message(Some(code)), decimal(code as int)),
{
    lemma_contains_middle(
        "R script exited with code: "@ + "Some("@,
        decimal(code as int),
        ")"@,
    );
    assert(("R script exited with code: "@ + "Some("@) + decimal(code as int) + ")"@
        =~= exit_message(Some(code)));
}

/// Builds the message for a failed run with an empty error stream.
pub fn exit_message_text(code: Option<i32>) -> (message: String)
    ensures
        message@ == exit_message(code),
{
    let mut message = String::from_str("R script exited with code: ");
    match code {
        Some(c) => {
            let number = decimal_text(c);
            message.append("Some(");
            message.append(number.as_str());
            message.append(")");
            assert(message@ =~= exit_message(code));
        },
        None => {
            message.append("None");
        },
    }
    message
}

/// Reports a run from its exit status and its decoded output streams.
///
/// Text on the error stream of a successful run is passed on as an advisory
/// and does not turn the run into a failure. A failed run keeps its output
/// untouched and always carries an error text.
pub fn classify(success: bool, code: Option<i32>, stdout: String, stderr: String) -> (result:
    RScriptResult)
    ensures
        result@ == classified(success, code, stdout@, stderr@),
        result.success == success,
        success ==> result@.output == trimmed(stdout@),
        !success ==> result@.output == stdout@,
        stderr@.len() > 0 ==> result@.error == Some(stderr@),
        success && stderr@.len() == 0 ==> result@.error is None,
        !success && stderr@.len() == 0 ==> result@.error == Some(exit_message(code)),
        !success ==> result@.error is Some,
{
    if success {
        let output = trim(stdout.as_str());
        let error = if stderr.as_str().is_empty() {
            None
        } else {
            Some(stderr)
        };
        RScriptResult { success: true, output, error }
    } else {
        let error = if stderr.as_str().is_empty() {
            exit_message_text(code)
        } else {
            stderr
        };
        RScriptResult { success: false, output: stdout, error: Some(error) }
    }
}

/// Reports a run from what the process left behind. Both streams are decoded as
/// text, with the replacement character standing in for invalid bytes, so
/// decoding never fails. The output of a failed run that wrote valid UTF-8 is,
/// byte for byte, what the process wrote.
pub fn classify_output(process: ProcessOutput) -> (result: RScriptResult)
    ensures
        result@ == classified(
            process.success,
            process.code,
            lossy_text(process.stdout@),
            lossy_text(process.stderr@),
        ),
        !process.success && valid_utf8(process.stdout@) ==> encode_utf8(result@.output)
            == process.stdout@,
{
    let stdout = decode_lossy(&process.stdout);
    let stderr = decode_lossy(&process.stderr);
    proof {
        if valid_utf8(process.stdout@) {
            decode_utf8_encode_utf8(process.stdout@);
        }
    }
    classify(process.success, process.code, stdout, stderr)
}

/// The error for an interpreter that could not be started.
pub open spec fn spawn_failure(program: Seq<char>, cause: Seq<char>) -> Seq<char> {
    "Failed to execute Rscript at '"@ + program + "': "@ + cause + ". Is R installed?"@
}

/// The error for an interpreter that could not be started names the program
/// that was tried and the cause.
pub proof fn lemma_spawn_failure_names_program_and_cause(program: Seq<char>, cause: Seq<char>)
    ensures
        contains_text(spawn_failure(program, cause), program),
        contains_text(spawn_failure(program, cause), cause),
{
    let head = "Failed to execute Rscript at '"@;
    let mid = "': "@;
    let tail = ". Is R installed?"@;
    lemma_contains_middle(head, program, mid + cause + tail);
    assert(head + program + (mid + cause + tail) =~= spawn_failure(program, cause));
    lemma_contains_middle(head + program + mid, cause, tail);
    assert((head + program + mid) + cause + tail =~= spawn_failure(program, cause));
}

/// Builds the error for an interpreter that could not be started.
pub fn spawn_failure_text(program: &str, cause: &str) -> (message: String)
    ensures
        message@ == spawn_failure(program@, cause@),
{
    let mut message = String::from_str("Failed to execute Rscript at '");
    message.append(program);
    message.append("': ");
    message.append(cause);
    message.append(". Is R installed?");
    message
}

/// What starting `program` came to, as a report or as an error.
pub open spec fn concluded(program: Seq<char>, started: Result<ProcessOutput, String>) -> Result<
    ResultModel,
    Seq<char>,
> {
    match started {
        Ok(process) => Ok(
            classified(
                process.success,
                process.code,
                lossy_text(process.stdout@),
                lossy_text(process.stderr@),
            ),
        ),
        Err(cause) => Err(spawn_failure(program, cause@)),
    }
}

/// Turns the outcome of starting the interpreter into the caller's answer.
///
/// `started` is the process output when the interpreter ran to its end, or the
/// cause when it could not be started. Only the latter is an error; a script
/// that ran and failed is a report with `success` unset.
pub fn conclude(program: &str, started: Result<ProcessOutput, String>) -> (answer: Result<
    RScriptResult,
    String,
>)
    ensures
        answer is Ok <==> started is Ok,
        match answer {
            Ok(result) => concluded(program@, started) == Ok::<ResultModel, Seq<char>>(result@),
            Err(message) => concluded(program@, started) == Err::<ResultModel, Seq<char>>(
                message@,
            ),
        },
{
    match started {
        Ok(process) => Ok(classify_output(process)),
        Err(cause) => Err(spawn_failure_text(program, cause.as_str())),
    }
}

} // verus!

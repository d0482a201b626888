use rscript_runner::outcome::{
    classify, classify_output, conclude, exit_message_text, spawn_failure_text, ProcessOutput,
    RScriptResult,
};

fn process(success: bool, code: Option<i32>, stdout: &[u8], stderr: &[u8]) -> ProcessOutput {
    ProcessOutput { success, code, stdout: stdout.to_vec(), stderr: stderr.to_vec() }
}

#[test]
fn successful_run_has_trimmed_output() {
    let result = classify(true, Some(0), "{\"ok\":true}\n".to_string(), String::new());
    assert_eq!(
        result,
        RScriptResult { success: true, output: "{\"ok\":true}".to_string(), error: None }
    );
}

#[test]
fn successful_run_loses_leading_and_trailing_white_space_only() {
    let result = classify(true, Some(0), "\n  line one\n  line two \r\n\n".to_string(), String::new());
    assert_eq!(result.output, "line one\n  line two");
}

#[test]
fn failing_run_keeps_output_as_written() {
    let result = classify(false, Some(1), "  partial\n".to_string(), "boom\n".to_string());
    assert_eq!(
        result,
        RScriptResult {
            success: false,
            output: "  partial\n".to_string(),
            error: Some("boom\n".to_string()),
        }
    );
}

#[test]
fn warning_on_error_stream_does_not_fail_a_successful_run() {
    let result = classify(true, Some(0), "42\n".to_string(), "Warning message:\nNAs introduced\n".to_string());
    assert!(result.success);
    assert_eq!(result.output, "42");
    assert_eq!(result.error, Some("Warning message:\nNAs introduced\n".to_string()));
}

#[test]
fn white_space_on_error_stream_still_counts_as_text() {
    let result = classify(true, Some(0), "x".to_string(), "\n".to_string());
    assert_eq!(result.error, Some("\n".to_string()));
}

#[test]
fn failing_run_without_error_text_names_the_exit_code() {
    let result = classify(false, Some(3), String::new(), String::new());
    assert!(!result.success);
    assert_eq!(result.output, "");
    assert_eq!(result.error, Some("R script exited with code: Some(3)".to_string()));
    assert!(result.error.unwrap().contains("3"));
}

#[test]
fn exit_codes_are_written_in_decimal() {
    assert_eq!(exit_message_text(Some(0)), "R script exited with code: Some(0)");
    assert_eq!(exit_message_text(Some(127)), "R script exited with code: Some(127)");
    assert_eq!(exit_message_text(Some(-1073741819)), "R script exited with code: Some(-1073741819)");
}

#[test]
fn missing_exit_code_is_said_so() {
    assert_eq!(exit_message_text(None), "R script exited with code: None");
    let result = classify(false, None, "out".to_string(), String::new());
    assert_eq!(result.error, Some("R script exited with code: None".to_string()));
}

#[test]
fn exit_message_agrees_with_debug_formatting() {
    for code in [Some(0), Some(1), Some(255), Some(-2), None] {
        assert_eq!(exit_message_text(code), format!("R script exited with code: {:?}", code));
    }
}

#[test]
fn streams_are_decoded_as_text() {
    let result = classify_output(process(true, Some(0), "h\u{e9}llo\n".as_bytes(), b""));
    assert_eq!(
        result,
        RScriptResult { success: true, output: "h\u{e9}llo".to_string(), error: None }
    );
}

#[test]
fn invalid_bytes_become_replacement_characters() {
    let result = classify_output(process(false, Some(1), &[0x66, 0x6f, 0xff, 0x6f], &[0xc3, 0x28]));
    assert_eq!(result.output, "fo\u{fffd}o");
    assert_eq!(result.error, Some("\u{fffd}(".to_string()));
}

#[test]
fn failing_process_with_empty_streams_names_its_code() {
    let result = classify_output(process(false, Some(2), b"", b""));
    assert_eq!(
        result,
        RScriptResult {
            success: false,
            output: String::new(),
            error: Some("R script exited with code: Some(2)".to_string()),
        }
    );
}

#[test]
fn interpreter_that_cannot_start_is_an_error() {
    let answer = conclude("Rscript", Err("No such file or directory (os error 2)".to_string()));
    assert_eq!(
        answer,
        Err("Failed to execute Rscript at 'Rscript': No such file or directory (os error 2). Is R installed?"
            .to_string())
    );
}

#[test]
fn spawn_failure_names_program_and_cause() {
    let message = spawn_failure_text("/opt/R/bin/Rscript", "Permission denied (os error 13)");
    assert_eq!(
        message,
        "Failed to execute Rscript at '/opt/R/bin/Rscript': Permission denied (os error 13). Is R installed?"
    );
    assert!(message.contains("/opt/R/bin/Rscript"));
    assert!(message.contains("Permission denied (os error 13)"));
}

#[test]
fn script_that_ran_and_failed_is_a_report() {
    let answer = conclude("Rscript", Ok(process(false, Some(1), b"out\n", b"Error in f(): bad\n")));
    assert_eq!(
        answer,
        Ok(RScriptResult {
            success: false,
            output: "out\n".to_string(),
            error: Some("Error in f(): bad\n".to_string()),
        })
    );
}

#[test]
fn script_that_ran_and_succeeded_is_a_report() {
    let answer = conclude("Rscript", Ok(process(true, Some(0), b" [1] 1 2 3 \n", b"")));
    assert_eq!(
        answer,
        Ok(RScriptResult { success: true, output: "[1] 1 2 3".to_string(), error: None })
    );
}

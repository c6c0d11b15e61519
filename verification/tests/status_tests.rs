use sshpoll::{format_output, format_status, ExecutionAttempt, Stage};

const TS: &str = "2024-01-01T10:00:00Z";

#[test]
fn single_line_uptime_scenario() {
    let attempt = ExecutionAttempt::Output(String::from(" 10:00:01 up 3 days"));
    let line = format_status(TS, &attempt);
    assert_eq!(line, "2024-01-01T10:00:00Z -  10:00:01 up 3 days");
}

#[test]
fn unreachable_host_scenario() {
    let attempt =
        ExecutionAttempt::Failure(Stage::Connect, String::from("connection timed out"));
    let line = format_status(TS, &attempt);
    assert_eq!(line, "2024-01-01T10:00:00Z - Failed to connect: connection timed out");
}

#[test]
fn every_output_line_gets_the_same_prefix() {
    let attempt = ExecutionAttempt::Output(String::from("a\nbb\nccc"));
    let line = format_status(TS, &attempt);
    let expected = "2024-01-01T10:00:00Z - a\n2024-01-01T10:00:00Z - bb\n2024-01-01T10:00:00Z - ccc";
    assert_eq!(line, expected);
    assert_eq!(line.lines().count(), 3);
}

#[test]
fn trailing_newline_adds_no_extra_line() {
    let line = format_output(TS, "one\ntwo\n");
    assert_eq!(line, "2024-01-01T10:00:00Z - one\n2024-01-01T10:00:00Z - two");
}

#[test]
fn carriage_return_line_endings_are_stripped() {
    let line = format_output(TS, "one\r\ntwo\r\n");
    assert_eq!(line, "2024-01-01T10:00:00Z - one\n2024-01-01T10:00:00Z - two");
}

#[test]
fn empty_output_yields_empty_body() {
    let attempt = ExecutionAttempt::Output(String::new());
    assert_eq!(format_status(TS, &attempt), "");
}

#[test]
fn blank_lines_are_kept_and_prefixed() {
    let line = format_output(TS, "a\n\nb");
    assert_eq!(
        line,
        "2024-01-01T10:00:00Z - a\n2024-01-01T10:00:00Z - \n2024-01-01T10:00:00Z - b"
    );
}

#[test]
fn failure_bodies_are_single_stage_specific_lines() {
    let cases = [
        (Stage::Connect, "Failed to connect"),
        (Stage::Handshake, "Failed to handshake"),
        (Stage::Authenticate, "Failed to authenticate"),
        (Stage::OpenChannel, "Failed to create channel"),
        (Stage::Run, "Failed to execute command"),
        (Stage::ReadOutput, "Failed to read command output"),
    ];
    for (stage, phrase) in cases {
        let attempt = ExecutionAttempt::Failure(stage, String::from("boom"));
        let line = format_status(TS, &attempt);
        assert_eq!(line.lines().count(), 1);
        assert_eq!(line, format!("{TS} - {phrase}: boom"));
    }
}

#[test]
fn formatting_is_idempotent() {
    let success = ExecutionAttempt::Output(String::from("load 0.1\nload 0.2"));
    let first = format_status(TS, &success);
    let second = format_status(TS, &success);
    assert_eq!(first, second);

    let failure = ExecutionAttempt::Failure(Stage::Handshake, String::from("eof"));
    let first = format_status(TS, &failure);
    let second = format_status(TS, &failure);
    assert_eq!(first, second);
}

#[test]
fn stage_descriptions() {
    assert_eq!(Stage::Connect.description(), "connect");
    assert_eq!(Stage::Handshake.description(), "handshake");
    assert_eq!(Stage::Authenticate.description(), "authenticate");
    assert_eq!(Stage::OpenChannel.description(), "create channel");
    assert_eq!(Stage::Run.description(), "execute command");
    assert_eq!(Stage::ReadOutput.description(), "read command output");
}

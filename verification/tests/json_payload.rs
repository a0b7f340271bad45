use codex_ios_platform::json::{push_json_string_content, string_payload};
use codex_ios_platform::payloads::{
    doctor_report_payload, git_apply_payload, git_run_payload, git_stage_payload,
    mcp_stdio_payload, shell_snapshot_payload,
};

#[test]
fn escapes_quotes_backslashes_and_named_controls() {
    let mut out = String::from("x");
    push_json_string_content(&mut out, "a\"b\\c\nd\re\tf\u{08}g\u{0c}h");
    assert_eq!(out, "xa\\\"b\\\\c\\nd\\re\\tf\\bg\\fh");
}

#[test]
fn escapes_other_controls_as_four_hex_digits() {
    let mut out = String::new();
    push_json_string_content(&mut out, "\u{01}\u{1f}\u{7f}\u{9f}\u{a0}");
    assert_eq!(out, "\\u0001\\u001f\\u007f\\u009f\u{a0}");
}

#[test]
fn leaves_other_text_alone() {
    let mut out = String::new();
    push_json_string_content(&mut out, "héllo wörld / ✓");
    assert_eq!(out, "héllo wörld / ✓");
}

#[test]
fn empty_payload_is_empty_object() {
    assert_eq!(string_payload(&[]), "{}");
}

#[test]
fn payload_members_in_order() {
    let payload = string_payload(&[("b", "2".to_string()), ("a", "1".to_string())]);
    assert_eq!(payload, "{\"b\":\"2\",\"a\":\"1\"}");
}

#[test]
fn payload_escapes_keys_and_values() {
    let payload = string_payload(&[("k\"", "line\nnext".to_string())]);
    assert_eq!(payload, "{\"k\\\"\":\"line\\nnext\"}");
}

#[test]
fn payload_round_trips_through_serde_json() {
    let payload = string_payload(&[
        ("cwd", "/tmp/\"quoted\"".to_string()),
        ("ctl", "\u{01}\u{7f}\t".to_string()),
    ]);
    let value: serde_json::Value = serde_json::from_str(&payload).expect("valid JSON");
    assert_eq!(value["cwd"], "/tmp/\"quoted\"");
    assert_eq!(value["ctl"], "\u{01}\u{7f}\t");
}

#[test]
fn shell_snapshot_payload_fields() {
    assert_eq!(
        shell_snapshot_payload("zsh", "echo ok", "/tmp"),
        "{\"shell\":\"zsh\",\"script\":\"echo ok\",\"cwd\":\"/tmp\"}"
    );
}

#[test]
fn git_run_payload_joins_command() {
    let args = vec!["status".to_string(), "--short".to_string()];
    assert_eq!(
        git_run_payload("/repo", "git", &args),
        "{\"command\":\"git status --short\",\"cwd\":\"/repo\"}"
    );
}

#[test]
fn git_run_payload_without_args_keeps_trailing_space() {
    assert_eq!(git_run_payload("/r", "git", &[]), "{\"command\":\"git \",\"cwd\":\"/r\"}");
}

#[test]
fn git_apply_payload_prefixes_git() {
    let args = vec!["apply".to_string(), "--check".to_string()];
    assert_eq!(
        git_apply_payload("/repo", &args),
        "{\"command\":\"git apply --check\",\"cwd\":\"/repo\"}"
    );
}

#[test]
fn git_stage_payload_counts_diff_bytes() {
    assert_eq!(
        git_stage_payload("/repo", "diff é"),
        "{\"gitRoot\":\"/repo\",\"diffBytes\":\"7\"}"
    );
    assert_eq!(git_stage_payload("/r", ""), "{\"gitRoot\":\"/r\",\"diffBytes\":\"0\"}");
}

#[test]
fn mcp_stdio_payload_fields() {
    let args = vec!["--port".to_string(), "1234".to_string()];
    assert_eq!(
        mcp_stdio_payload("server", &args, "/w"),
        "{\"program\":\"server\",\"args\":\"--port 1234\",\"cwd\":\"/w\"}"
    );
}

#[test]
fn doctor_report_payload_fields() {
    assert_eq!(doctor_report_payload("/home/.codex"), "{\"codexHome\":\"/home/.codex\"}");
}

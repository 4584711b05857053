//! Tests for the environment sanitizer, the launcher, and the session
//! registry, run against the real native PTY layer.

use ptykit::env::sanitize_env;
use ptykit::manager::configure_shell_command;
use ptykit::manager::launch_shell;
use ptykit::manager::PtyManager;
use ptykit::strutil::dec_string;
use ptykit::strutil::str_has_prefix;

fn get(cmd: &portable_pty::CommandBuilder, k: &str) -> Option<String> {
    cmd.get_env(k).and_then(|v| v.to_str()).map(|v| v.to_string())
}

#[test]
fn sanitize_removes_ci_and_keeps_credentials() {
    let mut cmd = portable_pty::CommandBuilder::new("sh");
    cmd.env("CI", "true");
    cmd.env("GITHUB_ACTIONS", "1");
    cmd.env("MY_API_TOKEN", "s3cr3t");
    cmd.env("GIT_ASKPASS", "/usr/bin/askpass");
    sanitize_env(&mut cmd, &vec![]);
    assert_eq!(get(&cmd, "CI"), None);
    assert_eq!(get(&cmd, "GITHUB_ACTIONS"), None);
    assert_eq!(get(&cmd, "GIT_ASKPASS"), None);
    assert_eq!(get(&cmd, "MY_API_TOKEN"), Some("s3cr3t".to_string()));
}

#[test]
fn sanitize_removes_ide_prefixed_names_seen_in_ambient() {
    let mut cmd = portable_pty::CommandBuilder::new("sh");
    cmd.env("VSCODE_GIT_IPC_HANDLE", "/tmp/ipc");
    cmd.env("ELECTRON_RUN_AS_NODE", "1");
    cmd.env("VSCODE_UNLISTED", "kept");
    let ambient = vec![
        "VSCODE_GIT_IPC_HANDLE".to_string(),
        "ELECTRON_RUN_AS_NODE".to_string(),
        "PATH".to_string(),
    ];
    sanitize_env(&mut cmd, &ambient);
    assert_eq!(get(&cmd, "VSCODE_GIT_IPC_HANDLE"), None);
    assert_eq!(get(&cmd, "ELECTRON_RUN_AS_NODE"), None);
    // Prefixed names are removed only when the ambient environment lists
    // them; the sanitizer walks the ambient names, not the builder's.
    assert_eq!(get(&cmd, "VSCODE_UNLISTED"), Some("kept".to_string()));
}

#[test]
fn configure_sets_canonical_terminal_environment() {
    let mut cmd = portable_pty::CommandBuilder::new("/bin/sh");
    let shell = "/bin/sh".to_string();
    configure_shell_command(&mut cmd, &shell, 120, 40, None, &vec![]);
    assert_eq!(get(&cmd, "SHELL"), Some("/bin/sh".to_string()));
    assert_eq!(get(&cmd, "TERM"), Some("xterm-256color".to_string()));
    assert_eq!(get(&cmd, "COLORTERM"), Some("truecolor".to_string()));
    assert_eq!(get(&cmd, "TERM_PROGRAM"), Some("zynthetix-autoagent".to_string()));
    assert_eq!(get(&cmd, "COLUMNS"), Some("120".to_string()));
    assert_eq!(get(&cmd, "LINES"), Some("40".to_string()));
    assert_eq!(get(&cmd, "FORCE_COLOR"), Some("3".to_string()));
    assert_eq!(get(&cmd, "CLICOLOR_FORCE"), Some("1".to_string()));
    assert_eq!(get(&cmd, "PROMPT_EOL_MARK"), Some("".to_string()));
    let argv = cmd.get_argv();
    assert_eq!(argv.len(), 2);
    assert_eq!(argv[1], "-l");
}

#[test]
fn dec_string_renders_dimensions() {
    assert_eq!(dec_string(0), "0");
    assert_eq!(dec_string(7), "7");
    assert_eq!(dec_string(80), "80");
    assert_eq!(dec_string(65535), "65535");
}

#[test]
fn prefix_test_matches_rust_semantics() {
    assert!(str_has_prefix("VSCODE_IPC", "VSCODE_"));
    assert!(!str_has_prefix("VSCODE", "VSCODE_"));
    assert!(str_has_prefix("anything", ""));
    assert!(!str_has_prefix("ELECTRO", "ELECTRON_"));
}

#[test]
fn zero_dimensions_fail_validation() {
    let err = launch_shell(0, 24, None, Some("/bin/sh".to_string()), &vec![]).err().unwrap();
    assert_eq!(err, "Invalid PTY dimensions: 0x24");
    let err = launch_shell(80, 0, None, Some("/bin/sh".to_string()), &vec![]).err().unwrap();
    assert_eq!(err, "Invalid PTY dimensions: 80x0");
}

#[test]
fn close_of_unknown_id_is_silent_no_op() {
    let mut mgr = PtyManager::new();
    assert_eq!(mgr.close_pty(&"never-created".to_string()), Ok(()));
}

#[test]
fn write_to_unknown_id_is_not_found() {
    let mut mgr = PtyManager::new();
    assert_eq!(mgr.write_pty(&"ghost".to_string(), "ls\n"), Err("Session not found".to_string()));
    assert_eq!(mgr.resize_pty(&"ghost".to_string(), 80, 24), Err("Session not found".to_string()));
}

#[test]
fn session_lifecycle_against_real_pty() {
    let id = "term-1".to_string();
    let mut mgr = PtyManager::new();
    let pair = launch_shell(80, 24, None, Some("/bin/sh".to_string()), &vec![]).unwrap();
    assert_eq!(mgr.register_session(id.clone(), pair, 80, 24), Ok(()));
    // Redundant resize: a no-op success.
    assert_eq!(mgr.resize_pty(&id, 80, 24), Ok(()));
    // A real resize.
    assert_eq!(mgr.resize_pty(&id, 100, 40), Ok(()));
    // And again with the same size: no-op success.
    assert_eq!(mgr.resize_pty(&id, 100, 40), Ok(()));
    assert_eq!(mgr.write_pty(&id, "true\n"), Ok(()));
    assert_eq!(mgr.close_pty(&id), Ok(()));
    // Idempotent close; the id is gone afterwards.
    assert_eq!(mgr.close_pty(&id), Ok(()));
    assert_eq!(mgr.write_pty(&id, "echo x\n"), Err("Session not found".to_string()));
}

#[test]
fn register_overwrites_a_duplicate_id() {
    let id = "dup".to_string();
    let mut mgr = PtyManager::new();
    let pair1 = launch_shell(80, 24, None, Some("/bin/sh".to_string()), &vec![]).unwrap();
    assert_eq!(mgr.register_session(id.clone(), pair1, 80, 24), Ok(()));
    let pair2 = launch_shell(90, 30, None, Some("/bin/sh".to_string()), &vec![]).unwrap();
    assert_eq!(mgr.register_session(id.clone(), pair2, 90, 30), Ok(()));
    // The surviving session has the new dimensions: resizing to them is a
    // no-op success, and one close removes everything under the id.
    assert_eq!(mgr.resize_pty(&id, 90, 30), Ok(()));
    assert_eq!(mgr.close_pty(&id), Ok(()));
    assert_eq!(mgr.write_pty(&id, "x"), Err("Session not found".to_string()));
}

use libretto::permissions::{
    is_root_uid, set_hidden, set_system, FileAttributes, FilePermissions, PlatformPermissions, Rwx,
};
use libretto::platform::Os;
use libretto::process::{
    is_executable, status_result, wait_step, which_candidates, ProcessBuilder, StdioConfig, WaitStep,
};
use libretto::error::PlatformError;
use libretto::shell::{
    escape_shell_arg, join_args, parse_shebang_line, shell_status_message, Shell, ShellType,
};
use libretto::signal::{CtrlCGuard, SignalHandler, SignalKind};

#[test]
fn permission_from_mode() {
    let perm = FilePermissions::from_mode(0o755);
    assert!(perm.owner_read());
    assert!(perm.owner_write());
    assert!(perm.owner_execute());
    assert!(perm.group_read());
    assert!(!perm.group_write());
    assert!(perm.group_execute());
    assert!(perm.other_read());
    assert!(!perm.other_write());
    assert!(perm.other_execute());
}

#[test]
fn permission_from_rwx() {
    let perm = FilePermissions::from_rwx(Rwx::rwx(), Rwx::rx(), Rwx::rx());
    assert_eq!(perm.mode(), 0o755);
}

#[test]
fn permission_symbolic() {
    let perm = FilePermissions::from_mode(0o755);
    assert_eq!(perm.to_symbolic(), "rwxr-xr-x");

    let perm = FilePermissions::from_mode(0o644);
    assert_eq!(perm.to_symbolic(), "rw-r--r--");

    let perm = FilePermissions::from_mode(0o4755);
    assert_eq!(perm.to_symbolic(), "rwsr-xr-x");
}

#[test]
fn permission_display() {
    let perm = FilePermissions::from_mode(0o755);
    assert_eq!(perm.to_string(), "0755");
}

#[test]
fn rwx_bits() {
    assert_eq!(Rwx::none().bits(), 0);
    assert_eq!(Rwx::r().bits(), 4);
    assert_eq!(Rwx::w().bits(), 2);
    assert_eq!(Rwx::x().bits(), 1);
    assert_eq!(Rwx::rwx().bits(), 7);
}

#[test]
fn permission_constants() {
    assert_eq!(FilePermissions::file_default().mode(), 0o644);
    assert_eq!(FilePermissions::executable().mode(), 0o755);
    assert_eq!(FilePermissions::private().mode(), 0o600);
}

#[test]
fn permission_special_bits_and_masks() {
    assert_eq!(FilePermissions::from_mode(0o1777).to_symbolic(), "rwxrwxrwt");
    assert_eq!(FilePermissions::from_mode(0o2644).to_symbolic(), "rw-r-Sr--");
    assert_eq!(FilePermissions::from_mode(0o170755).mode(), 0o755);
    assert_eq!(FilePermissions::from_mode(0o7).to_string(), "0007");
    assert_eq!(FilePermissions::from_mode(0o4755).to_string(), "4755");
    assert_eq!(Rwx::new(true, false, true).bits(), 5);
    assert_eq!(FilePermissions::default().mode(), 0o644);
}

#[test]
fn permission_mode_changes() {
    let exec = PlatformPermissions::executable_mode(FilePermissions::from_mode(0o644));
    assert_eq!(exec.mode(), 0o755);
    let exec = PlatformPermissions::executable_mode(FilePermissions::from_mode(0o600));
    assert_eq!(exec.mode(), 0o700);
    let ro = PlatformPermissions::readonly_mode(FilePermissions::from_mode(0o766));
    assert_eq!(ro.mode(), 0o544);
    assert_eq!(PlatformPermissions::mode_from_readonly(true).mode(), 0o444);
    assert!(is_root_uid(0));
    assert!(!is_root_uid(1000));
}

#[test]
fn file_attribute_flags() {
    let mut attrs = FileAttributes::from_raw(FileAttributes::READONLY | FileAttributes::ARCHIVE);
    assert!(attrs.is_readonly() && attrs.is_archive() && !attrs.is_hidden());
    set_hidden(&mut attrs, true);
    assert!(attrs.is_hidden());
    set_system(&mut attrs, true);
    assert!(attrs.is_system());
    set_hidden(&mut attrs, false);
    assert!(!attrs.is_hidden() && attrs.is_system() && attrs.is_readonly());
    assert_eq!(attrs.raw(), 0x1 | 0x20 | 0x4);
}

#[test]
fn process_builder_basic() {
    let builder = ProcessBuilder::new("echo").arg("hello").arg("world");
    assert_eq!(builder.arguments(), &vec!["hello".to_string(), "world".to_string()]);
}

#[test]
fn process_builder_env() {
    let builder = ProcessBuilder::new("env").env("FOO", "bar").env("BAZ", "qux");
    assert_eq!(builder.env_value("FOO"), Some("bar".to_string()));
    assert_eq!(builder.env_value("BAZ"), Some("qux".to_string()));
}

#[test]
fn process_env_overwrite() {
    let builder = ProcessBuilder::new("env").env("FOO", "bar").env("FOO", "baz");
    assert_eq!(builder.env_value("FOO"), Some("baz".to_string()));
    assert_eq!(builder.env_overrides().len(), 1);
    assert_eq!(builder.env_value("MISSING"), None);
}

#[test]
fn run_false_fails() {
    let result = status_result(false, Some(1), "");
    assert!(result.is_err());
    assert!(status_result(true, Some(0), "").is_ok());
}

#[test]
fn is_executable_check() {
    assert!(is_executable("/bin/sh", true, 0o755, &Os::Linux) || is_executable("/usr/bin/sh", true, 0o755, &Os::Linux));
    assert!(!is_executable("/bin/sh", false, 0o755, &Os::Linux));
    assert!(!is_executable("/etc/passwd", true, 0o644, &Os::Linux));
    assert!(is_executable("C:\\tools\\run.EXE", true, 0, &Os::Windows));
    assert!(!is_executable("C:\\tools\\notes.txt", true, 0o777, &Os::Windows));
}

#[test]
fn which_search_plan() {
    let dirs = vec!["/usr/bin".to_string(), "/bin/".to_string()];
    assert_eq!(which_candidates("sh", &dirs, &Os::Linux), vec!["/usr/bin/sh".to_string(), "/bin/sh".to_string()]);
    assert_eq!(which_candidates("/opt/x", &dirs, &Os::Linux), vec!["/opt/x".to_string()]);
    let win = which_candidates("tool", &["C:\\bin".to_string()], &Os::Windows);
    assert_eq!(
        win,
        vec![
            "C:\\bin\\tool".to_string(),
            "C:\\bin\\tool.exe".to_string(),
            "C:\\bin\\tool.cmd".to_string(),
            "C:\\bin\\tool.bat".to_string(),
            "C:\\bin\\tool.com".to_string(),
        ]
    );
}

#[test]
fn stdio_config() {
    let builder = ProcessBuilder::new("cat")
        .stdin(StdioConfig::Pipe)
        .stdout(StdioConfig::Pipe)
        .stderr(StdioConfig::Null);
    let (stdin, stdout, stderr) = builder.stdio();
    assert!(matches!(stdin, StdioConfig::Pipe));
    assert!(matches!(stdout, StdioConfig::Pipe));
    assert!(matches!(stderr, StdioConfig::Null));
}

#[test]
fn shell_type_detection() {
    let shell = ShellType::detect(&Os::Linux, Some("/bin/zsh"));
    assert_eq!(shell, ShellType::Zsh);
    assert_eq!(ShellType::detect(&Os::Windows, None), ShellType::Cmd);
    assert_eq!(ShellType::detect(&Os::Linux, None), ShellType::Bash);
}

#[test]
fn shell_type_executable() {
    assert_eq!(ShellType::Bash.executable(), "bash");
    assert_eq!(ShellType::Cmd.executable(), "cmd.exe");
    assert_eq!(ShellType::PowerShell.executable(), "powershell.exe");
}

#[test]
fn shell_type_command_flag() {
    assert_eq!(ShellType::Bash.command_flag(), "-c");
    assert_eq!(ShellType::Cmd.command_flag(), "/C");
    assert_eq!(ShellType::PowerShell.command_flag(), "-Command");
}

#[test]
fn shell_env_syntax() {
    assert_eq!(ShellType::Bash.env_syntax("HOME"), "$HOME");
    assert_eq!(ShellType::Cmd.env_syntax("HOME"), "%HOME%");
    assert_eq!(ShellType::PowerShell.env_syntax("HOME"), "$env:HOME");
}

#[test]
fn shebang_parsing() {
    assert_eq!(parse_shebang_line("#!/bin/bash"), Some(("/bin/bash".to_string(), vec![])));
    assert_eq!(parse_shebang_line("#!/usr/bin/env python3"), Some(("python3".to_string(), vec![])));
    assert_eq!(
        parse_shebang_line("#!/bin/bash -e -x"),
        Some(("/bin/bash".to_string(), vec!["-e".to_string(), "-x".to_string()]))
    );
    assert_eq!(parse_shebang_line("# not a shebang"), None);
}

#[test]
fn shell_escape_posix() {
    assert_eq!(escape_shell_arg("simple", ShellType::Bash), "simple");
    assert_eq!(escape_shell_arg("with space", ShellType::Bash), "'with space'");
    assert_eq!(escape_shell_arg("it's", ShellType::Bash), "'it'\\''s'");
}

#[test]
fn shell_escape_cmd() {
    assert_eq!(escape_shell_arg("simple", ShellType::Cmd), "simple");
    assert_eq!(escape_shell_arg("with space", ShellType::Cmd), "\"with space\"");
}

#[test]
fn join_args_test() {
    let args = vec!["arg1", "arg with space", "arg3"];
    let joined = join_args(&args, ShellType::Bash);
    assert_eq!(joined, "arg1 'arg with space' arg3");
}

#[test]
fn shell_is_unix() {
    assert!(ShellType::Bash.is_unix());
    assert!(ShellType::Zsh.is_unix());
    assert!(!ShellType::Cmd.is_unix());
    assert!(!ShellType::PowerShell.is_unix());
}

#[test]
fn shell_is_windows() {
    assert!(!ShellType::Bash.is_windows());
    assert!(ShellType::Cmd.is_windows());
    assert!(ShellType::PowerShell.is_windows());
}

#[test]
fn signal_kind_available() {
    assert!(SignalKind::Interrupt.is_available(&Os::Linux));
    assert!(SignalKind::Terminate.is_available(&Os::Windows));
    assert!(SignalKind::Hangup.is_available(&Os::Linux));
    assert!(!SignalKind::Hangup.is_available(&Os::Windows));
}

#[test]
fn signal_kind_str() {
    assert_eq!(SignalKind::Interrupt.as_str(), "SIGINT");
    assert_eq!(SignalKind::Terminate.as_str(), "SIGTERM");
}

#[test]
fn signal_flags() {
    let mut handler = SignalHandler::new();
    handler.reset_all();

    assert!(!handler.was_interrupted());
    assert!(!handler.was_terminated());
    assert!(!handler.should_shutdown());
}

#[test]
fn signal_delivery() {
    let mut handler = SignalHandler::new();
    assert!(handler.deliver(SignalKind::Hangup));
    assert!(!handler.should_shutdown());
    assert!(!handler.deliver(SignalKind::Pipe));
    assert!(handler.deliver(SignalKind::Terminate));
    assert!(handler.was_terminated() && handler.should_shutdown());
    handler.reset_terminate();
    assert!(!handler.should_shutdown());
}

#[test]
fn ctrl_c_guard() {
    let mut guard = CtrlCGuard::new();
    assert!(!guard.was_pressed());
    guard.notify(SignalKind::Terminate);
    assert!(!guard.was_pressed());
    guard.notify(SignalKind::Interrupt);
    assert!(guard.was_pressed());
    guard.reset();
    assert!(!guard.was_pressed());
}

#[test]
fn shell_failure_message_names_code_and_stderr() {
    match shell_status_message(Some(2), "boom") {
        PlatformError::ShellCommand(m) => assert_eq!(m, "Command failed with exit code 2: boom"),
        _ => panic!("wrong variant"),
    }
    match shell_status_message(None, "") {
        PlatformError::ShellCommand(m) => assert_eq!(m, "Command failed with exit code -1: "),
        _ => panic!("wrong variant"),
    }
}

#[test]
fn waiting_with_a_timeout() {
    assert_eq!(wait_step(true, 5000, 10), WaitStep::Collect);
    assert_eq!(wait_step(false, 10, 10), WaitStep::Kill);
    assert_eq!(wait_step(false, 9, 10), WaitStep::Sleep);
}

#[test]
fn shell_scripts_and_lookup() {
    let bash = Shell::from_lookup(ShellType::Bash, Some("/bin/bash".to_string())).unwrap();
    assert_eq!(bash.path(), "/bin/bash");
    assert_eq!(bash.shell_type(), ShellType::Bash);
    assert_eq!(bash.source_command("env.sh"), ". env.sh");
    assert_eq!(bash.echo_env_command("HOME"), "echo \"$HOME\"");
    assert_eq!(bash.export_syntax("A", "b"), "export A=\"b\"");
    match Shell::from_lookup(ShellType::Fish, None) {
        Err(PlatformError::ShellNotFound { shell }) => assert_eq!(shell, "fish"),
        _ => panic!("expected shell-not-found"),
    }
    let fish = Shell::from_lookup(ShellType::Fish, Some("/usr/bin/fish".to_string())).unwrap();
    assert_eq!(fish.source_command("conf.fish"), "source conf.fish");
    let cmd = Shell::from_lookup(ShellType::Cmd, Some("C:\\cmd.exe".to_string())).unwrap();
    assert_eq!(cmd.source_command("setup.bat"), "call setup.bat");
    assert_eq!(cmd.echo_env_command("PATH"), "echo %PATH%");
    let ps = Shell::powershell_from(None, Some("powershell.exe".to_string())).unwrap();
    assert_eq!(ps.shell_type(), ShellType::PowerShell);
    assert_eq!(ps.source_command("p.ps1"), ". p.ps1");
    assert_eq!(Shell::env_value_from_output("X", "  value\n"), Some("value".to_string()));
    assert_eq!(Shell::env_value_from_output("X", "%X%"), None);
    assert_eq!(Shell::env_value_from_output("X", "$X"), None);
    assert_eq!(Shell::env_value_from_output("X", "   "), None);
}

#[test]
fn sendable_signals() {
    assert!(SignalKind::Terminate.check_sendable().is_ok());
    assert!(SignalKind::User1.check_sendable().is_ok());
    match SignalKind::Child.check_sendable() {
        Err(PlatformError::Signal(m)) => assert_eq!(m, "Unsupported signal: SIGCHLD"),
        _ => panic!("child signals cannot be sent"),
    }
    assert!(SignalKind::WindowChange.check_sendable().is_err());
}

fn read_posix_word(t: &str) -> String {
    let chars: Vec<char> = t.chars().collect();
    let mut out = String::new();
    let mut quoted = false;
    let mut i = 0;
    while i < chars.len() {
        let c = chars[i];
        if quoted {
            if c == '\'' {
                quoted = false;
            } else {
                out.push(c);
            }
            i += 1;
        } else if c == '\'' {
            quoted = true;
            i += 1;
        } else if c == '\\' && i + 1 < chars.len() {
            out.push(chars[i + 1]);
            i += 2;
        } else {
            out.push(c);
            i += 1;
        }
    }
    out
}

fn read_powershell_word(t: &str) -> String {
    let chars: Vec<char> = t.chars().collect();
    let mut out = String::new();
    let mut quoted = false;
    let mut i = 0;
    while i < chars.len() {
        let c = chars[i];
        if quoted && c == '\'' && i + 1 < chars.len() && chars[i + 1] == '\'' {
            out.push('\'');
            i += 2;
        } else if c == '\'' {
            quoted = !quoted;
            i += 1;
        } else {
            out.push(c);
            i += 1;
        }
    }
    out
}

#[test]
fn escaped_arguments_read_back() {
    for arg in ["plain", "with space", "it's", "'''", "a'b c'd", "$HOME; rm -rf /", ""] {
        assert_eq!(read_posix_word(&escape_shell_arg(arg, ShellType::Bash)), arg);
        assert_eq!(read_powershell_word(&escape_shell_arg(arg, ShellType::PowerShell)), arg);
    }
}

use notmux::shell::{bash_script, fish_quote, fish_script, shell_launch, zsh_script, ShellKind};

#[test]
fn detects_supported_shells() {
    assert_eq!(ShellKind::from_path("/bin/bash"), Some(ShellKind::Bash));
    assert_eq!(ShellKind::from_path("/usr/bin/zsh"), Some(ShellKind::Zsh));
    assert_eq!(ShellKind::from_path("/opt/homebrew/bin/fish"), Some(ShellKind::Fish));
    assert_eq!(ShellKind::from_path("/bin/sh"), None);
}

#[test]
fn zsh_script_does_not_assign_readonly_status_variable() {
    assert!(!zsh_script().contains("local status="));
    assert!(zsh_script().contains("local exit_code="));
}

#[test]
fn login_shell_dash_is_ignored() {
    assert_eq!(ShellKind::from_path("-zsh"), Some(ShellKind::Zsh));
    assert_eq!(ShellKind::from_file_name("-bash"), Some(ShellKind::Bash));
    assert_eq!(ShellKind::from_file_name("--bash"), None);
    assert_eq!(ShellKind::from_path("/usr/bin/"), None);
    assert_eq!(ShellKind::from_path("/bin/fish/"), Some(ShellKind::Fish));
}

#[test]
fn fish_quote_escapes_backslashes_and_quotes() {
    assert_eq!(fish_quote("/tmp/a b"), "'/tmp/a b'");
    assert_eq!(fish_quote("it's"), "'it\\'s'");
    assert_eq!(fish_quote("a\\b"), "'a\\\\b'");
}

#[test]
fn scripts_report_through_osc_777() {
    for s in [zsh_script(), bash_script(), fish_script()] {
        assert!(s.contains("777;vryn;"));
    }
}

#[test]
fn builds_bash_command_with_rcfile() {
    let plan = shell_launch("/tmp", "/bin/bash", "/tmp/vryn-terminal-integration/u", None, Some("/home/u"))
        .expect("bash command");
    assert_eq!(plan.program, "/bin/bash");
    assert!(plan.args.iter().any(|arg| arg == "--rcfile"));
    assert!(plan.args.iter().any(|arg| arg == "-i"));
    assert_eq!(plan.cwd, "/tmp");
    assert_eq!(plan.args, vec!["--rcfile", "/tmp/vryn-terminal-integration/u/bashrc", "-i"]);
    assert_eq!(plan.script_path, "/tmp/vryn-terminal-integration/u/bashrc");
    assert_eq!(plan.env, vec![("VRYN_ORIGINAL_BASHRC".to_string(), "/home/u/.bashrc".to_string())]);
}

#[test]
fn zsh_reads_its_rc_through_zdotdir() {
    let plan = shell_launch("/w", "/usr/bin/zsh", "/i", None, Some("/home/u")).expect("zsh command");
    assert_eq!(plan.kind, ShellKind::Zsh);
    assert_eq!(plan.dirs, vec!["/i", "/i/zsh"]);
    assert_eq!(plan.script_path, "/i/zsh/.zshrc");
    assert!(plan.args.is_empty());
    assert_eq!(
        plan.env,
        vec![
            ("ZDOTDIR".to_string(), "/i/zsh".to_string()),
            ("VRYN_ORIGINAL_ZDOTDIR".to_string(), "/home/u".to_string())
        ]
    );
    let own = shell_launch("/w", "zsh", "/i", Some("/cfg"), Some("/home/u")).unwrap();
    assert_eq!(own.env[1].1, "/cfg");
}

#[test]
fn fish_sources_its_init_script() {
    let plan = shell_launch("/w", "/usr/bin/fish", "/i", None, None).expect("fish command");
    assert_eq!(plan.args, vec!["--init-command", "source '/i/fish-init.fish'"]);
    assert!(plan.env.is_empty());
}

#[test]
fn shells_without_a_script_get_no_plan() {
    assert!(shell_launch("/w", "/bin/sh", "/i", None, None).is_none());
    assert!(shell_launch("/w", "", "/i", None, None).is_none());
}

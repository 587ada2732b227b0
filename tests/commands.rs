use fragile::commands::{
    build_command, enter_command, kill_command, remove_tree_command, shell_line, start_command,
    status_command, stop_command, unmount_command, CommandSpec,
};

fn words(c: &CommandSpec) -> Vec<&str> {
    c.args.iter().map(|s| s.as_str()).collect()
}

#[test]
fn shell_line_quotes_each_word() {
    let w = vec!["echo".to_string(), "it's".to_string(), "a b".to_string()];
    assert_eq!(shell_line(&w), "exec 'echo' 'it'\\''s' 'a b'");
    assert_eq!(shell_line(&vec![]), "exec ");
    assert_eq!(shell_line(&vec!["''".to_string()]), "exec ''\\'''\\'''");
}

#[test]
fn unit_commands() {
    let c = start_command("frx");
    assert_eq!(c.program, "systemctl");
    assert_eq!(words(&c), vec!["start", "container@frx"]);
    assert_eq!(words(&stop_command("frx")), vec!["stop", "container@frx"]);
    assert_eq!(words(&kill_command("frx")), vec!["kill", "container@frx"]);
}

#[test]
fn status_query() {
    let c = status_command("frx");
    assert_eq!(c.program, "machinectl");
    assert_eq!(words(&c), vec!["show", "frx", "-p", "Leader"]);
}

#[test]
fn builder_invocation() {
    let c = build_command("frx");
    assert_eq!(c.program, "nix-env");
    assert_eq!(
        words(&c),
        vec![
            "-p",
            "/nix/var/nix/profiles/per-container/frx/system",
            "-I",
            "nixos-config=/var/lib/containers/frx/etc/nixos/configuration.nix",
            "-f",
            "<nixpkgs/nixos>",
            "--set",
            "-A",
            "system",
            "--show-trace",
        ]
    );
}

#[test]
fn namespace_entry() {
    let w = vec!["true".to_string()];
    let c = enter_command("42", None, &w);
    assert_eq!(c.program, "nsenter");
    assert_eq!(
        words(&c),
        vec!["-t", "42", "-m", "-u", "-i", "-n", "-p", "--", "su", "root", "-l", "-c", "exec 'true'"]
    );
    let c = enter_command("42", Some("/run/wrappers/bin/su".to_string()), &w);
    assert_eq!(c.args[8], "/run/wrappers/bin/su");
}

#[test]
fn tree_cleanup_commands() {
    let c = unmount_command("/var/lib/containers/frx");
    assert_eq!(c.program, "find");
    assert_eq!(
        words(&c),
        vec![
            "/var/lib/containers/frx", "-mindepth", "1", "-xdev", "(", "-type", "d", "-exec",
            "mountpoint", "-q", "{}", ";", ")", "-exec", "umount", "-fR", "{}", "+",
        ]
    );
    let c = remove_tree_command("/var/lib/containers/frx");
    assert_eq!(c.program, "rm");
    assert_eq!(words(&c), vec!["--one-file-system", "-rf", "/var/lib/containers/frx"]);
}

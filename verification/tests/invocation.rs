use opencode_ssh::command::parse_ssh_command;
use opencode_ssh::control::{control_args, control_supported, ControlMode, Host};
use opencode_ssh::invocation::{
    forward_invocation, forward_text, install_invocation, master_check_invocation,
    master_invocation, needs_install, output_result, server_invocation, ssh_command, ssh_output,
    ssh_spawn_bg, version_invocation, Askpass, Wiring,
};
use opencode_ssh::quote::sh_quote;

fn words(items: &[&str]) -> Vec<String> {
    items.iter().map(|s| s.to_string()).collect()
}

fn unix() -> Host {
    Host { unix: true, windows: false, display: true }
}

fn windows() -> Host {
    Host { unix: false, windows: true, display: false }
}

fn askpass() -> Askpass {
    Askpass { socket: "/tmp/opencode-ssh-k/askpass.sock".to_string(), exe: "/opt/app/opencode".to_string() }
}

fn pairs(items: &[(&str, &str)]) -> Vec<(String, String)> {
    items.iter().map(|(a, b)| (a.to_string(), b.to_string())).collect()
}

#[test]
fn quote_plain_text() {
    assert_eq!(sh_quote("abc"), "'abc'");
    assert_eq!(sh_quote(""), "''");
    assert_eq!(sh_quote("a b|c"), "'a b|c'");
}

#[test]
fn quote_escapes_single_quotes() {
    assert_eq!(sh_quote("it's"), "'it'\\''s'");
    assert_eq!(sh_quote("'"), "''\\'''");
    assert_eq!(sh_quote("''"), "''\\'''\\'''");
}

#[test]
fn quoted_word_reads_back_in_a_shell() {
    for text in ["plain", "it's", "a 'b' c", "", "x\\y", "$(rm -rf /)", "\"q\"", "né"] {
        assert_eq!(shell_words::split(&sh_quote(text)).unwrap(), vec![text.to_string()]);
    }
}

#[test]
fn control_is_supported_on_unix_only() {
    assert!(control_supported(&unix()));
    assert!(!control_supported(&windows()));
}

#[test]
fn control_args_of_master() {
    assert_eq!(
        control_args(&unix(), Some("/tmp/s/ssh.sock"), ControlMode::Master),
        words(&[
            "-o",
            "ControlMaster=yes",
            "-o",
            "ControlPersist=no",
            "-o",
            "ControlPath=/tmp/s/ssh.sock"
        ])
    );
}

#[test]
fn control_args_of_client() {
    assert_eq!(
        control_args(&unix(), Some("/tmp/s/ssh.sock"), ControlMode::Client),
        words(&["-o", "ControlMaster=no", "-o", "ControlPath=/tmp/s/ssh.sock"])
    );
}

#[test]
fn control_args_are_empty_without_socket_or_support() {
    assert!(control_args(&unix(), None, ControlMode::Master).is_empty());
    assert!(control_args(&unix(), None, ControlMode::Client).is_empty());
    assert!(control_args(&windows(), Some("x"), ControlMode::Master).is_empty());
    assert!(control_args(&windows(), Some("x"), ControlMode::Client).is_empty());
    assert!(control_args(&windows(), None, ControlMode::Client).is_empty());
}

#[test]
fn foreground_process() {
    let inv = ssh_command(&askpass(), &unix(), words(&["-V"]));
    assert_eq!(inv.program, "ssh");
    assert_eq!(inv.args, words(&["-V"]));
    assert_eq!(inv.stdin, Wiring::Null);
    assert_eq!(inv.stdout, Wiring::Piped);
    assert_eq!(inv.stderr, Wiring::Piped);
    assert_eq!(
        inv.env,
        pairs(&[
            ("SSH_ASKPASS_REQUIRE", "force"),
            ("SSH_ASKPASS", "/opt/app/opencode"),
            ("OPENCODE_SSH_ASKPASS_SOCKET", "/tmp/opencode-ssh-k/askpass.sock"),
            ("TERM", "dumb"),
        ])
    );
}

#[test]
fn background_process() {
    let inv = ssh_spawn_bg(&askpass(), &windows(), words(&["-N", "h"]));
    assert_eq!(inv.program, "ssh");
    assert_eq!(inv.args, words(&["-N", "h"]));
    assert_eq!(inv.stdin, Wiring::Null);
    assert_eq!(inv.stdout, Wiring::Null);
    assert_eq!(inv.stderr, Wiring::Piped);
    assert_eq!(
        inv.env,
        pairs(&[
            ("SSH_ASKPASS_REQUIRE", "force"),
            ("SSH_ASKPASS", "/opt/app/opencode"),
            ("OPENCODE_SSH_ASKPASS_SOCKET", "/tmp/opencode-ssh-k/askpass.sock"),
            ("DISPLAY", "1"),
            ("TERM", "dumb"),
        ])
    );
}

#[test]
fn master_process() {
    let spec = parse_ssh_command("ssh -p 2222 user@host").unwrap();
    let inv = master_invocation(&askpass(), &unix(), &spec, "/tmp/d/ssh.sock");
    assert_eq!(
        inv.args,
        words(&[
            "-p",
            "2222",
            "-N",
            "-o",
            "ControlMaster=yes",
            "-o",
            "ControlPersist=no",
            "-o",
            "ControlPath=/tmp/d/ssh.sock",
            "user@host"
        ])
    );
    assert_eq!(inv.stdout, Wiring::Null);
    assert_eq!(inv.stderr, Wiring::Piped);
}

#[test]
fn master_check_process() {
    let spec = parse_ssh_command("ssh -p 2222 user@host").unwrap();
    let inv = master_check_invocation(&askpass(), &unix(), &spec, "/tmp/d/ssh.sock");
    assert_eq!(
        inv.args,
        words(&[
            "-o",
            "ControlMaster=no",
            "-o",
            "ControlPath=/tmp/d/ssh.sock",
            "-O",
            "check",
            "user@host"
        ])
    );
    assert_eq!(inv.stdout, Wiring::Piped);
}

#[test]
fn version_query_process() {
    let spec = parse_ssh_command("ssh -4 user@host").unwrap();
    let inv = version_invocation(&askpass(), &unix(), &spec, Some("/s"));
    assert_eq!(
        inv.args,
        words(&[
            "-4",
            "-o",
            "ControlMaster=no",
            "-o",
            "ControlPath=/s",
            "user@host",
            "cd; ~/.opencode/bin/opencode --version"
        ])
    );
    let inv = version_invocation(&askpass(), &windows(), &spec, None);
    assert_eq!(
        inv.args,
        words(&["-4", "user@host", "cd; ~/.opencode/bin/opencode --version"])
    );
}

#[test]
fn install_process() {
    let spec = parse_ssh_command("user@host").unwrap();
    let inv = install_invocation(&askpass(), &windows(), &spec, None, "1.2.3");
    assert_eq!(
        inv.args,
        words(&[
            "user@host",
            "cd; bash -lc 'curl -fsSL https://opencode.ai/install | bash -s -- --version 1.2.3 --no-modify-path'"
        ])
    );
    let inv = install_invocation(&askpass(), &windows(), &spec, None, "1'2");
    assert_eq!(
        inv.args[1],
        "cd; bash -lc 'curl -fsSL https://opencode.ai/install | bash -s -- --version 1'\\''2 --no-modify-path'"
    );
    assert_eq!(inv.stdout, Wiring::Piped);
}

#[test]
fn server_process() {
    let spec = parse_ssh_command("ssh -p 22 user@host").unwrap();
    let inv = server_invocation(&askpass(), &unix(), &spec, Some("/s"), "secret");
    assert_eq!(
        inv.args,
        words(&[
            "-p",
            "22",
            "-o",
            "ControlMaster=no",
            "-o",
            "ControlPath=/s",
            "user@host",
            "cd; env OPENCODE_SERVER_USERNAME=opencode OPENCODE_SERVER_PASSWORD=secret OPENCODE_CLIENT=desktop ~/.opencode/bin/opencode serve --hostname 127.0.0.1 --port 0"
        ])
    );
    assert_eq!(inv.stdout, Wiring::Piped);
    assert_eq!(inv.stderr, Wiring::Piped);
    assert_eq!(inv.stdin, Wiring::Null);
}

#[test]
fn forward_process() {
    let spec = parse_ssh_command("ssh -p 22 user@host").unwrap();
    let inv = forward_invocation(&askpass(), &unix(), &spec, Some("/s"), 50123, 43117);
    assert_eq!(
        inv.args,
        words(&[
            "-p",
            "22",
            "-N",
            "-L",
            "127.0.0.1:50123:127.0.0.1:43117",
            "-o",
            "ExitOnForwardFailure=yes",
            "-o",
            "ControlMaster=no",
            "-o",
            "ControlPath=/s",
            "user@host"
        ])
    );
    assert_eq!(inv.stdout, Wiring::Null);
    let inv = forward_invocation(&askpass(), &windows(), &spec, None, 1, 2);
    assert_eq!(
        inv.args,
        words(&[
            "-p",
            "22",
            "-N",
            "-L",
            "127.0.0.1:1:127.0.0.1:2",
            "-o",
            "ExitOnForwardFailure=yes",
            "user@host"
        ])
    );
}

#[test]
fn forward_rule_text() {
    assert_eq!(forward_text(0, 65535), "127.0.0.1:0:127.0.0.1:65535");
    assert_eq!(forward_text(8080, 80), "127.0.0.1:8080:127.0.0.1:80");
}

#[test]
fn install_is_needed_unless_version_matches() {
    assert!(!needs_install(&Ok("1.2.3\n".to_string()), "1.2.3"));
    assert!(!needs_install(&Ok("  1.2.3  ".to_string()), "1.2.3"));
    assert!(needs_install(&Ok("1.2.4".to_string()), "1.2.3"));
    assert!(needs_install(&Ok("".to_string()), "1.2.3"));
    assert!(needs_install(&Ok("v1.2.3".to_string()), "1.2.3"));
    assert!(needs_install(&Err("1.2.3".to_string()), "1.2.3"));
    assert!(needs_install(&Err("command not found".to_string()), "1.2.3"));
}

#[test]
fn output_of_a_process_that_succeeded() {
    assert_eq!(output_result(true, "out\n".to_string(), "warn"), Ok("out\n".to_string()));
    assert_eq!(ssh_output(true, b" 1.0.0\n", b"noise"), Ok(" 1.0.0\n".to_string()));
}

#[test]
fn output_of_a_process_that_failed() {
    assert_eq!(
        output_result(false, "out".to_string(), "  Permission denied\n"),
        Err("Permission denied".to_string())
    );
    assert_eq!(
        output_result(false, "out".to_string(), " \n\t"),
        Err("SSH command failed".to_string())
    );
    assert_eq!(output_result(false, "out".to_string(), ""), Err("SSH command failed".to_string()));
    assert_eq!(ssh_output(false, b"x", b"\nbad host\n"), Err("bad host".to_string()));
    assert_eq!(ssh_output(false, b"x", b""), Err("SSH command failed".to_string()));
}

#[test]
fn output_that_is_not_utf8_is_read_with_replacements() {
    assert_eq!(ssh_output(true, &[b'a', 0xff, b'b'], b""), Ok("a\u{fffd}b".to_string()));
    assert_eq!(ssh_output(false, b"", &[0xc3, 0x28]), Err("\u{fffd}(".to_string()));
    assert_eq!(ssh_output(true, "né".as_bytes(), b""), Ok("né".to_string()));
}

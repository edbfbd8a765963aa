use opencode_ssh::command::{parse_ssh_command, parse_tokens, Spec};

fn words(items: &[&str]) -> Vec<String> {
    items.iter().map(|s| s.to_string()).collect()
}

fn parsed(input: &str) -> Spec {
    match parse_ssh_command(input) {
        Ok(spec) => spec,
        Err(e) => panic!("refused: {e}"),
    }
}

fn refused(input: &str) -> String {
    match parse_ssh_command(input) {
        Ok(spec) => panic!("accepted: {:?}", spec),
        Err(e) => e,
    }
}

#[test]
fn destination_alone() {
    let spec = parsed("ssh user@host");
    assert_eq!(spec.destination, "user@host");
    assert_eq!(spec.args, Vec::<String>::new());
}

#[test]
fn identity_and_port() {
    let spec = parsed("ssh -i ~/.ssh/id_ed25519 -p 2222 user@host");
    assert_eq!(spec.args, words(&["-i", "~/.ssh/id_ed25519", "-p", "2222"]));
    assert_eq!(spec.destination, "user@host");
}

#[test]
fn local_forward_is_refused() {
    let e = refused("ssh -L 8080:localhost:80 user@host");
    assert_eq!(e, "SSH port forwarding flags (-L/-R) are not supported yet");
    assert!(e.contains("port forwarding flags"));
    assert!(e.contains("not supported"));
}

#[test]
fn remote_forward_is_refused() {
    assert_eq!(
        refused("ssh -R 9000:localhost:9000 user@host"),
        "SSH port forwarding flags (-L/-R) are not supported yet"
    );
    assert_eq!(
        refused("ssh -R9000:localhost:9000 user@host"),
        "SSH port forwarding flags (-L/-R) are not supported yet"
    );
    assert_eq!(
        refused("-L8080:localhost:80 user@host"),
        "SSH port forwarding flags (-L/-R) are not supported yet"
    );
}

#[test]
fn remote_command_is_refused() {
    let e = refused("ssh user@host uname -a");
    assert_eq!(
        e,
        "SSH command cannot include a remote command; only destination + options are supported"
    );
    assert!(e.contains("cannot include a remote command"));
}

#[test]
fn empty_command_is_refused() {
    assert_eq!(refused(""), "SSH command is empty");
    assert_eq!(refused("   \t\n"), "SSH command is empty");
    assert_eq!(refused("\u{3000}\u{a0}"), "SSH command is empty");
}

#[test]
fn command_of_comment_only_is_empty() {
    assert_eq!(refused("ssh #user@host"), "SSH command is empty");
}

#[test]
fn unmatched_quote_is_refused() {
    assert_eq!(refused("ssh 'user@host"), "Invalid SSH command: missing closing quote");
    assert_eq!(refused("ssh -o \"a b user@host"), "Invalid SSH command: missing closing quote");
}

#[test]
fn missing_destination_is_refused() {
    assert_eq!(refused("ssh -4"), "Missing ssh destination (e.g. user@host)");
    assert_eq!(refused("ssh -p 22"), "Missing ssh destination (e.g. user@host)");
    assert_eq!(refused("ssh -p"), "Missing ssh destination (e.g. user@host)");
}

#[test]
fn unknown_option_is_refused() {
    assert_eq!(refused("ssh -v user@host"), "Unsupported ssh argument: -v");
    assert_eq!(refused("ssh -N user@host"), "Unsupported ssh argument: -N");
    assert_eq!(refused("ssh --help user@host"), "Unsupported ssh argument: --help");
    assert_eq!(refused("ssh - user@host"), "Unsupported ssh argument: -");
}

#[test]
fn switch_with_more_behind_it_is_refused() {
    assert_eq!(refused("ssh -46 user@host"), "Unsupported ssh argument: -46");
    assert_eq!(refused("ssh -Afoo user@host"), "Unsupported ssh argument: -Afoo");
}

#[test]
fn every_switch_is_kept() {
    let spec = parsed("ssh -4 -6 -A -a -C -K -k -X -x -Y -y host");
    assert_eq!(
        spec.args,
        words(&["-4", "-6", "-A", "-a", "-C", "-K", "-k", "-X", "-x", "-Y", "-y"])
    );
    assert_eq!(spec.destination, "host");
}

#[test]
fn every_value_option_is_kept_with_its_value() {
    for letter in ["B", "b", "c", "D", "F", "I", "i", "J", "l", "m", "o", "P", "p", "w"] {
        let flag = format!("-{letter}");
        let spec = parsed(&format!("ssh {flag} value host"));
        assert_eq!(spec.args, vec![flag.clone(), "value".to_string()]);
        assert_eq!(spec.destination, "host");
        let attached = format!("{flag}value");
        let spec = parsed(&format!("ssh {attached} host"));
        assert_eq!(spec.args, vec![attached]);
        assert_eq!(spec.destination, "host");
    }
}

#[test]
fn attached_and_separated_values() {
    let spec = parsed("ssh -oFOO=BAR -o BAZ=QUX user@host");
    assert_eq!(spec.args, words(&["-oFOO=BAR", "-o", "BAZ=QUX"]));
    assert_eq!(spec.destination, "user@host");
}

#[test]
fn separated_value_is_taken_whatever_it_is() {
    let spec = parsed("ssh -p -L host");
    assert_eq!(spec.args, words(&["-p", "-L"]));
    assert_eq!(spec.destination, "host");
    let spec = parsed("ssh -i -v host");
    assert_eq!(spec.args, words(&["-i", "-v"]));
}

#[test]
fn prefix_is_optional() {
    let spec = parsed("  -p 2222 user@host  ");
    assert_eq!(spec.args, words(&["-p", "2222"]));
    assert_eq!(spec.destination, "user@host");
    let spec = parsed("ssh");
    assert_eq!(spec.destination, "ssh");
    assert!(spec.args.is_empty());
}

#[test]
fn prefix_is_dropped_once() {
    assert_eq!(
        refused("ssh ssh host"),
        "SSH command cannot include a remote command; only destination + options are supported"
    );
}

#[test]
fn quoted_words_are_split_as_a_shell_does() {
    let spec = parsed("ssh -o 'ProxyCommand=nc %h %p' -i \"my key\" user@host");
    assert_eq!(spec.args, words(&["-o", "ProxyCommand=nc %h %p", "-i", "my key"]));
    assert_eq!(spec.destination, "user@host");
    let spec = parsed("ssh user\\@host");
    assert_eq!(spec.destination, "user@host");
}

#[test]
fn empty_word_is_a_destination() {
    let spec = parsed("ssh ''");
    assert_eq!(spec.destination, "");
}

#[test]
fn tokens_are_parsed_without_splitting() {
    let spec = parse_tokens(&words(&["-o", "a b", "user@host"])).unwrap();
    assert_eq!(spec.args, words(&["-o", "a b"]));
    assert_eq!(spec.destination, "user@host");
    assert_eq!(
        parse_tokens(&Vec::new()).unwrap_err(),
        "Missing ssh destination (e.g. user@host)"
    );
    assert_eq!(
        parse_tokens(&words(&["host", "ls"])).unwrap_err(),
        "SSH command cannot include a remote command; only destination + options are supported"
    );
}

#[test]
fn accepted_words_are_kept_in_order() {
    let tokens = words(&["-4", "-p", "22", "-oA=B", "-l", "me", "example.org"]);
    let spec = parse_tokens(&tokens).unwrap();
    let mut back = spec.args.clone();
    back.push(spec.destination.clone());
    assert_eq!(back, tokens);
}

#[test]
fn parser_is_total_on_odd_input() {
    let switches = ["-4", "-6", "-A", "-a", "-C", "-K", "-k", "-X", "-x", "-Y", "-y"];
    let values = "BbcDFIiJlmoPpw";
    for input in [
        "\\", "ssh \\", "ssh -", "ssh --", "ssh -o", "-", "'", "\"", "ssh \u{2026}",
        "ssh -\u{e9} host", "ssh -p\u{0}", "ssh \t -4 \n host", "ssh -p -L host", "ssh -oX host",
        "ssh -i 'a b' -4 me@host", "ssh -4 -6", "ssh host -4", "ssh -Lx", "ssh -p 1 -p 2 h",
    ] {
        match parse_ssh_command(input) {
            Ok(spec) => {
                assert!(!spec.destination.starts_with('-'), "{input:?}");
                let mut i = 0;
                while i < spec.args.len() {
                    let arg = &spec.args[i];
                    if switches.contains(&arg.as_str()) {
                        i += 1;
                        continue;
                    }
                    let mut letters = arg.chars();
                    assert_eq!(letters.next(), Some('-'), "{input:?}");
                    let letter = letters.next().unwrap();
                    assert!(values.contains(letter), "{input:?}");
                    if arg.chars().count() == 2 {
                        assert!(i + 1 < spec.args.len(), "{input:?}");
                        i += 2;
                    } else {
                        i += 1;
                    }
                }
            }
            Err(e) => assert!(!e.is_empty(), "{input:?}"),
        }
    }
}

#[test]
fn spec_clone_is_equal() {
    let spec = parsed("ssh -p 22 host");
    let copy = spec.clone();
    assert_eq!(copy.args, spec.args);
    assert_eq!(copy.destination, spec.destination);
}

//! The `ssh` processes of a session as plain values: what each is started
//! with, and what is made of what it printed.

use crate::command::{Spec, SpecView};
use crate::control::{control_args, control_options, path_view, ControlMode, Host};
use crate::quote::{quoted, sh_quote};
use crate::text::{
    chars_of, decimal, decimal_chars, push_all, push_text, same_text, string_of, text_of_two,
    trim, trimmed,
};
use vstd::prelude::*;
use vstd::utf8::{decode_utf8, valid_utf8};

verus! {

/// What every `ssh` process of a session is told of the prompt bridge: where
/// the listener is, and which program `ssh` runs to ask.
#[derive(Debug, PartialEq, Eq)]
pub struct Askpass {
    /// Where the listener is: a path, or `tcp:HOST:PORT`.
    pub socket: String,
    /// The path of the program that `ssh` runs as its helper.
    pub exe: String,
}

/// What an [`Askpass`] holds, as sequences of characters.
pub struct AskpassView {
    pub socket: Seq<char>,
    pub exe: Seq<char>,
}

impl View for Askpass {
    type V = AskpassView;

    open spec fn view(&self) -> AskpassView {
        AskpassView { socket: self.socket@, exe: self.exe@ }
    }
}

/// How one of the three standard streams of a process is wired.
#[derive(Clone, Copy, Debug, PartialEq, Eq)]
pub enum Wiring {
    /// The stream is closed to the process.
    Null,
    /// The stream is a pipe that the session reads.
    Piped,
}

/// One `ssh` process to start.
#[derive(Debug, PartialEq, Eq)]
pub struct SshInvocation {
    /// The program to run.
    pub program: String,
    /// Its arguments, in order.
    pub args: Vec<String>,
    /// The variables to set in its environment, in order.
    pub env: Vec<(String, String)>,
    pub stdin: Wiring,
    pub stdout: Wiring,
    pub stderr: Wiring,
}

/// What an [`SshInvocation`] holds, as sequences of characters.
pub struct InvocationView {
    pub program: Seq<char>,
    pub args: Seq<Seq<char>>,
    pub env: Seq<(Seq<char>, Seq<char>)>,
    pub stdin: Wiring,
    pub stdout: Wiring,
    pub stderr: Wiring,
}

/// The views of a list of pairs of strings.
pub open spec fn pairs_view(v: Seq<(String, String)>) -> Seq<(Seq<char>, Seq<char>)> {
    Seq::new(v.len(), |i: int| (v[i].0@, v[i].1@))
}

impl View for SshInvocation {
    type V = InvocationView;

    open spec fn view(&self) -> InvocationView {
        InvocationView {
            program: self.program@,
            args: self.args.deep_view(),
            env: pairs_view(self.env@),
            stdin: self.stdin,
            stdout: self.stdout,
            stderr: self.stderr,
        }
    }
}

/// The environment of every `ssh` process: `ssh` must ask through the
/// helper, the helper must find the listener, a display is named where the
/// process has none, and the terminal is a dumb one.
pub open spec fn askpass_env(askpass: AskpassView, display: bool) -> Seq<(Seq<char>, Seq<char>)> {
    seq![
        ("SSH_ASKPASS_REQUIRE"@, "force"@),
        ("SSH_ASKPASS"@, askpass.exe),
        ("OPENCODE_SSH_ASKPASS_SOCKET"@, askpass.socket),
    ] + (if display {
        Seq::empty()
    } else {
        seq![("DISPLAY"@, "1"@)]
    }) + seq![("TERM"@, "dumb"@)]
}

/// An `ssh` process whose output the session captures.
pub open spec fn foreground(askpass: AskpassView, display: bool, args: Seq<Seq<char>>)
    -> InvocationView {
    InvocationView {
        program: "ssh"@,
        args,
        env: askpass_env(askpass, display),
        stdin: Wiring::Null,
        stdout: Wiring::Piped,
        stderr: Wiring::Piped,
    }
}

/// An `ssh` process that runs in the background.
pub open spec fn background(askpass: AskpassView, display: bool, args: Seq<Seq<char>>)
    -> InvocationView {
    InvocationView {
        program: "ssh"@,
        args,
        env: askpass_env(askpass, display),
        stdin: Wiring::Null,
        stdout: Wiring::Null,
        stderr: Wiring::Piped,
    }
}

fn push_pair(env: &mut Vec<(String, String)>, name: &str, value: &str)
    ensures
        pairs_view(final(env)@) == pairs_view(old(env)@).push((name@, value@)),
{
    let ghost before = pairs_view(env@);
    env.push((name.to_owned(), value.to_owned()));
    assert(pairs_view(env@) =~= before.push((name@, value@)));
}

fn environment(askpass: &Askpass, host: &Host) -> (env: Vec<(String, String)>)
    ensures
        pairs_view(env@) == askpass_env(askpass@, host.display),
{
    let mut env: Vec<(String, String)> = Vec::new();
    assert(pairs_view(env@) =~= Seq::empty());
    push_pair(&mut env, "SSH_ASKPASS_REQUIRE", "force");
    push_pair(&mut env, "SSH_ASKPASS", askpass.exe.as_str());
    push_pair(&mut env, "OPENCODE_SSH_ASKPASS_SOCKET", askpass.socket.as_str());
    if !host.display {
        push_pair(&mut env, "DISPLAY", "1");
    }
    push_pair(&mut env, "TERM", "dumb");
    assert(pairs_view(env@) =~= askpass_env(askpass@, host.display));
    env
}

/// An `ssh` process with the arguments `args` whose output the session
/// captures: no input, both outputs piped.
pub fn ssh_command(askpass: &Askpass, host: &Host, args: Vec<String>) -> (r: SshInvocation)
    ensures
        r@ == foreground(askpass@, host.display, args.deep_view()),
{
    SshInvocation {
        program: "ssh".to_owned(),
        args,
        env: environment(askpass, host),
        stdin: Wiring::Null,
        stdout: Wiring::Piped,
        stderr: Wiring::Piped,
    }
}

/// An `ssh` process with the arguments `args` that runs in the background:
/// no input, no output, its errors piped for the log.
pub fn ssh_spawn_bg(askpass: &Askpass, host: &Host, args: Vec<String>) -> (r: SshInvocation)
    ensures
        r@ == background(askpass@, host.display, args.deep_view()),
{
    SshInvocation {
        program: "ssh".to_owned(),
        args,
        env: environment(askpass, host),
        stdin: Wiring::Null,
        stdout: Wiring::Null,
        stderr: Wiring::Piped,
    }
}

/// The arguments of the master: the user's options, no command, the master's
/// control options, the destination.
pub open spec fn master_words(spec: SpecView, unix: bool, path: Seq<char>) -> Seq<Seq<char>> {
    spec.args + seq!["-N"@] + control_options(unix, Some(path), ControlMode::Master) + seq![
        spec.destination,
    ]
}

/// The arguments that ask the master whether it is ready.
pub open spec fn check_words(spec: SpecView, unix: bool, path: Seq<char>) -> Seq<Seq<char>> {
    control_options(unix, Some(path), ControlMode::Client) + seq![
        "-O"@,
        "check"@,
        spec.destination,
    ]
}

/// The arguments that run `command` on the remote host: the user's options,
/// a client's control options, the destination, the command.
pub open spec fn remote_words(
    spec: SpecView,
    unix: bool,
    path: Option<Seq<char>>,
    command: Seq<char>,
) -> Seq<Seq<char>> {
    spec.args + control_options(unix, path, ControlMode::Client) + seq![
        spec.destination,
        command,
    ]
}

/// The remote command that prints the version of the installed agent.
pub open spec fn version_command() -> Seq<char> {
    "cd; ~/.opencode/bin/opencode --version"@
}

/// The pipeline that installs version `version` of the agent.
pub open spec fn installer(version: Seq<char>) -> Seq<char> {
    "curl -fsSL https://opencode.ai/install | bash -s -- --version "@ + version
        + " --no-modify-path"@
}

/// The remote command that installs version `version` of the agent: the
/// installer, as one quoted word for a login shell.
pub open spec fn install_command(version: Seq<char>) -> Seq<char> {
    "cd; bash -lc "@ + quoted(installer(version))
}

/// The remote command that starts the agent as a server on an ephemeral
/// port of the remote loopback, with `password` as its password.
pub open spec fn server_command(password: Seq<char>) -> Seq<char> {
    "cd; env OPENCODE_SERVER_USERNAME=opencode OPENCODE_SERVER_PASSWORD="@ + password
        + " OPENCODE_CLIENT=desktop ~/.opencode/bin/opencode serve --hostname 127.0.0.1 --port 0"@
}

/// The forward from the local port to the remote one, both on the loopback.
pub open spec fn forward_rule(local_port: u16, remote_port: u16) -> Seq<char> {
    "127.0.0.1:"@ + decimal(local_port as nat) + ":127.0.0.1:"@ + decimal(remote_port as nat)
}

/// The arguments of the forward: the user's options, no command, the
/// forward, failure if it cannot be set up, a client's control options, the
/// destination.
pub open spec fn forward_words(
    spec: SpecView,
    unix: bool,
    path: Option<Seq<char>>,
    local_port: u16,
    remote_port: u16,
) -> Seq<Seq<char>> {
    spec.args + seq![
        "-N"@,
        "-L"@,
        forward_rule(local_port, remote_port),
        "-o"@,
        "ExitOnForwardFailure=yes"@,
    ] + control_options(unix, path, ControlMode::Client) + seq![spec.destination]
}

/// The process that holds the shared connection.
pub fn master_invocation(askpass: &Askpass, host: &Host, spec: &Spec, socket_path: &str) -> (r:
    SshInvocation)
    ensures
        r@ == background(askpass@, host.display, master_words(spec@, host.unix, socket_path@)),
{
    let mut args: Vec<String> = Vec::new();
    assert(args.deep_view() =~= Seq::<Seq<char>>::empty());
    push_all(&mut args, &spec.args);
    push_text(&mut args, "-N");
    let control = control_args(host, Some(socket_path), ControlMode::Master);
    push_all(&mut args, &control);
    push_text(&mut args, spec.destination.as_str());
    assert(args.deep_view() =~= master_words(spec@, host.unix, socket_path@));
    ssh_spawn_bg(askpass, host, args)
}

/// The process that asks the master whether it is ready; the master is
/// ready when this process succeeds.
pub fn master_check_invocation(
    askpass: &Askpass,
    host: &Host,
    spec: &Spec,
    socket_path: &str,
) -> (r: SshInvocation)
    ensures
        r@ == foreground(askpass@, host.display, check_words(spec@, host.unix, socket_path@)),
{
    let mut args = control_args(host, Some(socket_path), ControlMode::Client);
    push_text(&mut args, "-O");
    push_text(&mut args, "check");
    push_text(&mut args, spec.destination.as_str());
    assert(args.deep_view() =~= check_words(spec@, host.unix, socket_path@));
    ssh_command(askpass, host, args)
}

fn remote_args(host: &Host, spec: &Spec, socket_path: Option<&str>, command: &str) -> (args: Vec<
    String,
>)
    ensures
        args.deep_view() == remote_words(spec@, host.unix, path_view(socket_path), command@),
{
    let mut args: Vec<String> = Vec::new();
    assert(args.deep_view() =~= Seq::<Seq<char>>::empty());
    push_all(&mut args, &spec.args);
    let control = control_args(host, socket_path, ControlMode::Client);
    push_all(&mut args, &control);
    push_text(&mut args, spec.destination.as_str());
    push_text(&mut args, command);
    assert(args.deep_view() =~= remote_words(
        spec@,
        host.unix,
        path_view(socket_path),
        command@,
    ));
    args
}

/// The process that prints the version of the agent that is installed on
/// the remote host.
pub fn version_invocation(
    askpass: &Askpass,
    host: &Host,
    spec: &Spec,
    socket_path: Option<&str>,
) -> (r: SshInvocation)
    ensures
        r@ == foreground(
            askpass@,
            host.display,
            remote_words(spec@, host.unix, path_view(socket_path), version_command()),
        ),
{
    let args = remote_args(host, spec, socket_path, "cd; ~/.opencode/bin/opencode --version");
    ssh_command(askpass, host, args)
}

/// Whether the agent has to be installed: it has, unless the version query
/// succeeded and printed, white space aside, exactly `version`.
pub open spec fn install_needed(query: Result<Seq<char>, Seq<char>>, version: Seq<char>) -> bool {
    !(query matches Ok(printed) && trim(printed) == version)
}

/// The views of the two sides of a result of strings.
pub open spec fn result_view(r: Result<String, String>) -> Result<Seq<char>, Seq<char>> {
    match r {
        Ok(s) => Ok(s@),
        Err(e) => Err(e@),
    }
}

/// Decides from the result of the version query whether the agent has to be
/// installed.
pub fn needs_install(query: &Result<String, String>, version: &str) -> (r: bool)
    ensures
        r == install_needed(result_view(*query), version@),
{
    match query {
        Ok(printed) => {
            let installed = trimmed(chars_of(printed.as_str()).as_slice());
            let wanted = chars_of(version);
            !same_text(installed.as_slice(), wanted.as_slice())
        },
        Err(_) => true,
    }
}

/// The process that installs version `version` of the agent on the remote
/// host.
pub fn install_invocation(
    askpass: &Askpass,
    host: &Host,
    spec: &Spec,
    socket_path: Option<&str>,
    version: &str,
) -> (r: SshInvocation)
    ensures
        r@ == foreground(
            askpass@,
            host.display,
            remote_words(spec@, host.unix, path_view(socket_path), install_command(version@)),
        ),
{
    let pipeline = text_of_two(
        "curl -fsSL https://opencode.ai/install | bash -s -- --version ",
        version,
    ).concat(" --no-modify-path");
    let word = sh_quote(pipeline.as_str());
    let command = text_of_two("cd; bash -lc ", word.as_str());
    let args = remote_args(host, spec, socket_path, command.as_str());
    ssh_command(askpass, host, args)
}

/// The process that runs the agent as a server on the remote host. It
/// prints where it listens on its standard output.
pub fn server_invocation(
    askpass: &Askpass,
    host: &Host,
    spec: &Spec,
    socket_path: Option<&str>,
    password: &str,
) -> (r: SshInvocation)
    ensures
        r@ == foreground(
            askpass@,
            host.display,
            remote_words(spec@, host.unix, path_view(socket_path), server_command(password@)),
        ),
{
    let command = text_of_two(
        "cd; env OPENCODE_SERVER_USERNAME=opencode OPENCODE_SERVER_PASSWORD=",
        password,
    ).concat(
        " OPENCODE_CLIENT=desktop ~/.opencode/bin/opencode serve --hostname 127.0.0.1 --port 0",
    );
    let args = remote_args(host, spec, socket_path, command.as_str());
    ssh_command(askpass, host, args)
}

/// The text of the forward from `local_port` to `remote_port`.
pub fn forward_text(local_port: u16, remote_port: u16) -> (r: String)
    ensures
        r@ == forward_rule(local_port, remote_port),
{
    let local = string_of(decimal_chars(local_port as u64).as_slice());
    let remote = string_of(decimal_chars(remote_port as u64).as_slice());
    text_of_two("127.0.0.1:", local.as_str()).concat(":127.0.0.1:").concat(remote.as_str())
}

/// The process that forwards the local port to the port of the agent on the
/// remote loopback.
pub fn forward_invocation(
    askpass: &Askpass,
    host: &Host,
    spec: &Spec,
    socket_path: Option<&str>,
    local_port: u16,
    remote_port: u16,
) -> (r: SshInvocation)
    ensures
        r@ == background(
            askpass@,
            host.display,
            forward_words(spec@, host.unix, path_view(socket_path), local_port, remote_port),
        ),
{
    let mut args: Vec<String> = Vec::new();
    assert(args.deep_view() =~= Seq::<Seq<char>>::empty());
    push_all(&mut args, &spec.args);
    push_text(&mut args, "-N");
    push_text(&mut args, "-L");
    let rule = forward_text(local_port, remote_port);
    push_text(&mut args, rule.as_str());
    push_text(&mut args, "-o");
    push_text(&mut args, "ExitOnForwardFailure=yes");
    let control = control_args(host, socket_path, ControlMode::Client);
    push_all(&mut args, &control);
    push_text(&mut args, spec.destination.as_str());
    assert(args.deep_view() =~= forward_words(
        spec@,
        host.unix,
        path_view(socket_path),
        local_port,
        remote_port,
    ));
    ssh_spawn_bg(askpass, host, args)
}

/// What is made of a finished `ssh` process: its output where it
/// succeeded; otherwise its errors without the white space around them, or
/// a fixed message where it printed none.
pub open spec fn output_of(success: bool, stdout: Seq<char>, stderr: Seq<char>) -> Result<
    Seq<char>,
    Seq<char>,
> {
    if success {
        Ok(stdout)
    } else if trim(stderr).len() == 0 {
        Err("SSH command failed"@)
    } else {
        Err(trim(stderr))
    }
}

/// Makes the result of a finished `ssh` process from its exit status and the
/// text of its two outputs.
pub fn output_result(success: bool, stdout: String, stderr: &str) -> (r: Result<String, String>)
    ensures
        result_view(r) == output_of(success, stdout@, stderr@),
{
    if success {
        return Ok(stdout);
    }
    let message = trimmed(chars_of(stderr).as_slice());
    if message.len() == 0 {
        return Err("SSH command failed".to_owned());
    }
    Err(string_of(message.as_slice()))
}

/// The text that `String::from_utf8_lossy` makes of bytes.
pub uninterp spec fn lossy_text(bytes: Seq<u8>) -> Seq<char>;

/// `String::from_utf8_lossy`: the text of the bytes, with a replacement
/// character for each part that is not UTF-8. Bytes that are UTF-8 give the
/// text that they encode.
#[verifier::external_body]
fn decode_lossy(bytes: &[u8]) -> (r: String)
    ensures
        r@ == lossy_text(bytes@),
        valid_utf8(bytes@) ==> r@ == decode_utf8(bytes@),
{
    String::from_utf8_lossy(bytes).into_owned()
}

/// Makes the result of a finished `ssh` process from its exit status and the
/// bytes of its two outputs.
pub fn ssh_output(success: bool, stdout: &[u8], stderr: &[u8]) -> (r: Result<String, String>)
    ensures
        result_view(r) == output_of(success, lossy_text(stdout@), lossy_text(stderr@)),
{
    let out = decode_lossy(stdout);
    let err = decode_lossy(stderr);
    output_result(success, out, err.as_str())
}

} // verus!

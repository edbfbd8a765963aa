//! Connection sharing: the options that let several `ssh` processes share
//! one authenticated connection through a control socket.

use crate::text::{push_text, text_of_two};
use vstd::prelude::*;

verus! {

/// What the library has to know of the machine it runs on.
#[derive(Clone, Copy, Debug)]
pub struct Host {
    /// The machine has Unix sockets, and with them connection sharing.
    pub unix: bool,
    /// The machine runs Windows.
    pub windows: bool,
    /// The process has a `DISPLAY`.
    pub display: bool,
}

/// The side of a shared connection that an `ssh` process takes.
#[derive(Clone, Copy, Debug)]
pub enum ControlMode {
    /// The process that holds the connection.
    Master,
    /// A process that uses the connection of the master.
    Client,
}

/// The view of a path that may be absent.
pub open spec fn path_view(path: Option<&str>) -> Option<Seq<char>> {
    match path {
        Some(p) => Some(p@),
        None => None,
    }
}

/// The option that names the control socket.
pub open spec fn control_path(path: Seq<char>) -> Seq<char> {
    "ControlPath="@ + path
}

/// The control options for an `ssh` process: none where the machine has no
/// connection sharing or no socket is known; otherwise the options of the
/// mode, then the socket.
pub open spec fn control_options(unix: bool, path: Option<Seq<char>>, mode: ControlMode) -> Seq<
    Seq<char>,
> {
    if !unix {
        Seq::empty()
    } else {
        match path {
            None => Seq::empty(),
            Some(p) => match mode {
                ControlMode::Master => seq![
                    "-o"@,
                    "ControlMaster=yes"@,
                    "-o"@,
                    "ControlPersist=no"@,
                    "-o"@,
                    control_path(p),
                ],
                ControlMode::Client => seq!["-o"@, "ControlMaster=no"@, "-o"@, control_path(p)],
            },
        }
    }
}

/// Whether the machine can share one connection among `ssh` processes.
pub fn control_supported(host: &Host) -> (r: bool)
    ensures
        r == host.unix,
{
    host.unix
}

/// The control options for an `ssh` process in mode `mode` that shares the
/// connection behind `socket_path`.
pub fn control_args(host: &Host, socket_path: Option<&str>, mode: ControlMode) -> (r: Vec<String>)
    ensures
        r.deep_view() == control_options(host.unix, path_view(socket_path), mode),
{
    let mut args: Vec<String> = Vec::new();
    assert(args.deep_view() =~= Seq::<Seq<char>>::empty());
    if !control_supported(host) {
        return args;
    }
    let path = match socket_path {
        Some(p) => p,
        None => {
            return args;
        },
    };
    match mode {
        ControlMode::Master => {
            push_text(&mut args, "-o");
            push_text(&mut args, "ControlMaster=yes");
            push_text(&mut args, "-o");
            push_text(&mut args, "ControlPersist=no");
        },
        ControlMode::Client => {
            push_text(&mut args, "-o");
            push_text(&mut args, "ControlMaster=no");
        },
    }
    push_text(&mut args, "-o");
    let option = text_of_two("ControlPath=", path);
    push_text(&mut args, option.as_str());
    assert(args.deep_view() =~= control_options(host.unix, path_view(socket_path), mode));
    args
}

} // verus!

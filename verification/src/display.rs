//! The display backend on Linux: under Wayland the application is moved to
//! X11 where that is possible, unless the user asks to stay.

use crate::text::{chars_of, eq_ignore_case, same_ignoring_case};
use vstd::prelude::*;

verus! {

/// What the environment says of the display.
#[derive(Debug)]
pub struct DisplayEnv {
    /// `WAYLAND_DISPLAY` is set.
    pub wayland_display: bool,
    /// The value of `XDG_SESSION_TYPE`.
    pub session_type: Option<String>,
    /// The value of `OC_ALLOW_WAYLAND`.
    pub allow_wayland: Option<String>,
    /// `DISPLAY` is set.
    pub display: bool,
}

/// What is done about the display backend.
#[derive(Clone, Copy, Debug, PartialEq, Eq)]
pub enum Backend {
    /// The user asked to stay on Wayland: nothing is changed.
    KeepWayland,
    /// X11 is there: the toolkits are pointed to it.
    ForceX11,
    /// X11 is not there: Wayland stays, without the DMA-BUF renderer.
    WaylandOnly,
}

/// The session runs under Wayland.
pub open spec fn on_wayland(wayland_display: bool, session_type: Option<String>) -> bool {
    wayland_display || (session_type matches Some(t) && eq_ignore_case(t@, "wayland"@))
}

/// The user asked to stay on Wayland: the value is `1`, `true` or `yes`,
/// the case of letters aside.
pub open spec fn allows_wayland(allow: Option<String>) -> bool {
    allow matches Some(v) && (eq_ignore_case(v@, "1"@) || eq_ignore_case(v@, "true"@)
        || eq_ignore_case(v@, "yes"@))
}

/// What is done about the display backend: nothing outside Wayland.
pub open spec fn backend_of(
    wayland_display: bool,
    session_type: Option<String>,
    allow: Option<String>,
    display: bool,
) -> Option<Backend> {
    if !on_wayland(wayland_display, session_type) {
        None
    } else if allows_wayland(allow) {
        Some(Backend::KeepWayland)
    } else if display {
        Some(Backend::ForceX11)
    } else {
        Some(Backend::WaylandOnly)
    }
}

fn is_word(value: &str, word: &str) -> (r: bool)
    ensures
        r == eq_ignore_case(value@, word@),
{
    let a = chars_of(value);
    let b = chars_of(word);
    same_ignoring_case(a.as_slice(), b.as_slice())
}

/// Decides what is done about the display backend.
pub fn configure_display_backend(env: &DisplayEnv) -> (r: Option<Backend>)
    ensures
        r == backend_of(env.wayland_display, env.session_type, env.allow_wayland, env.display),
{
    let wayland = env.wayland_display || match &env.session_type {
        Some(t) => is_word(t.as_str(), "wayland"),
        None => false,
    };
    if !wayland {
        return None;
    }
    let allowed = match &env.allow_wayland {
        Some(v) => is_word(v.as_str(), "1") || is_word(v.as_str(), "true") || is_word(
            v.as_str(),
            "yes",
        ),
        None => false,
    };
    if allowed {
        return Some(Backend::KeepWayland);
    }
    if env.display {
        Some(Backend::ForceX11)
    } else {
        Some(Backend::WaylandOnly)
    }
}

/// The variables that a choice sets where they are not set yet, in order.
pub open spec fn variables_of(backend: Backend) -> Seq<(Seq<char>, Seq<char>)> {
    match backend {
        Backend::KeepWayland => Seq::empty(),
        Backend::ForceX11 => seq![
            ("WINIT_UNIX_BACKEND"@, "x11"@),
            ("GDK_BACKEND"@, "x11"@),
            ("WEBKIT_DISABLE_DMABUF_RENDERER"@, "1"@),
        ],
        Backend::WaylandOnly => seq![("WEBKIT_DISABLE_DMABUF_RENDERER"@, "1"@)],
    }
}

/// The views of a list of pairs of strings.
pub open spec fn variables_view(v: Seq<(String, String)>) -> Seq<(Seq<char>, Seq<char>)> {
    Seq::new(v.len(), |i: int| (v[i].0@, v[i].1@))
}

/// Lists the variables that a choice sets where they are not set yet.
pub fn backend_variables(backend: Backend) -> (r: Vec<(String, String)>)
    ensures
        variables_view(r@) == variables_of(backend),
{
    let mut r: Vec<(String, String)> = Vec::new();
    match backend {
        Backend::KeepWayland => {},
        Backend::ForceX11 => {
            r.push(("WINIT_UNIX_BACKEND".to_owned(), "x11".to_owned()));
            r.push(("GDK_BACKEND".to_owned(), "x11".to_owned()));
            r.push(("WEBKIT_DISABLE_DMABUF_RENDERER".to_owned(), "1".to_owned()));
        },
        Backend::WaylandOnly => {
            r.push(("WEBKIT_DISABLE_DMABUF_RENDERER".to_owned(), "1".to_owned()));
        },
    }
    assert(variables_view(r@) =~= variables_of(backend));
    r
}

/// The note that tells what was done.
pub open spec fn note_of(backend: Backend) -> Seq<char> {
    match backend {
        Backend::KeepWayland => "Wayland session detected; respecting OC_ALLOW_WAYLAND=1"@,
        Backend::ForceX11 => "Wayland session detected; forcing X11 backend to avoid compositor protocol errors. Set OC_ALLOW_WAYLAND=1 to keep native Wayland."@,
        Backend::WaylandOnly => "Wayland session detected without X11; leaving Wayland enabled (set WINIT_UNIX_BACKEND/GDK_BACKEND manually if needed)."@,
    }
}

/// Writes the note that tells what was done.
pub fn backend_note(backend: Backend) -> (r: String)
    ensures
        r@ == note_of(backend),
{
    match backend {
        Backend::KeepWayland => "Wayland session detected; respecting OC_ALLOW_WAYLAND=1".to_owned(),
        Backend::ForceX11 => "Wayland session detected; forcing X11 backend to avoid compositor protocol errors. Set OC_ALLOW_WAYLAND=1 to keep native Wayland.".to_owned(),
        Backend::WaylandOnly => "Wayland session detected without X11; leaving Wayland enabled (set WINIT_UNIX_BACKEND/GDK_BACKEND manually if needed).".to_owned(),
    }
}

} // verus!

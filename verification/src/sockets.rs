//! Names of the sockets the proxy connects to and listens on.
use vstd::prelude::*;
use vstd::string::StringExecFns;
use crate::text::{decimal, push_decimal};

verus! {

/// The highest index `n` of a `wayland-n` socket the proxy tries to listen on.
pub const MAX_SOCKET_INDEX: u32 = 100;

/// The compositor's socket: `wayland_socket` where it is set, otherwise the
/// display `wayland_display` (by default "wayland-0") in `runtime_dir`.
pub open spec fn compositor_socket_text(
    wayland_socket: Option<Seq<char>>,
    wayland_display: Option<Seq<char>>,
    runtime_dir: Seq<char>,
) -> Seq<char> {
    match wayland_socket {
        Some(socket) => socket,
        None => runtime_dir + "/"@ + match wayland_display {
            Some(display) => display,
            None => "wayland-0"@,
        },
    }
}

/// The path of the compositor's socket; see [`compositor_socket_text`].
pub fn compositor_socket_path(
    wayland_socket: Option<String>,
    wayland_display: Option<String>,
    runtime_dir: &str,
) -> (path: String)
    ensures
        path@ == compositor_socket_text(
            match wayland_socket {
                Some(s) => Some(s@),
                None => None,
            },
            match wayland_display {
                Some(d) => Some(d@),
                None => None,
            },
            runtime_dir@,
        ),
{
    match wayland_socket {
        Some(socket) => socket,
        None => {
            let display = match wayland_display {
                Some(display) => display,
                None => String::from_str("wayland-0"),
            };
            let mut path = String::from_str(runtime_dir);
            path.append("/");
            path.append(display.as_str());
            path
        },
    }
}

/// The display name of the proxy's `index`-th socket: "wayland-" and the index.
pub fn proxy_display_name(index: u32) -> (name: String)
    ensures
        name@ == "wayland-"@ + decimal(index as nat),
{
    let mut name = String::from_str("wayland-");
    push_decimal(&mut name, index as u64);
    name
}

/// The path of the proxy's `index`-th socket in `runtime_dir`.
pub fn proxy_socket_path(runtime_dir: &str, index: u32) -> (path: String)
    ensures
        path@ == runtime_dir@ + "/wayland-"@ + decimal(index as nat),
{
    let mut path = String::from_str(runtime_dir);
    path.append("/wayland-");
    push_decimal(&mut path, index as u64);
    path
}

/// The index to try after the socket at `tried` could not be bound, or
/// `None` once every index up to [`MAX_SOCKET_INDEX`] has been tried.
pub fn next_socket_index(tried: u32) -> (next: Option<u32>)
    ensures
        next == (if tried < MAX_SOCKET_INDEX { Some((tried + 1) as u32) } else { None::<u32> }),
{
    if tried < MAX_SOCKET_INDEX {
        Some(tried + 1)
    } else {
        None
    }
}

} // verus!

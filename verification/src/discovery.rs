//! How the Herdr socket is found from the settings and the environment.

use vstd::prelude::*;
use crate::config::{opt_view, HerdrConfig};
use crate::transport::{wsl_display, Endpoint, EndpointTarget};

verus! {

/// What `Path::join` from std gives for `base` joined with `part`, as text.
pub uninterp spec fn path_joined(base: Seq<char>, part: Seq<char>) -> Seq<char>;

/// `Path::join` from std on two UTF-8 paths, shown as text.
#[verifier::external_body]
pub(crate) fn join_path(base: &str, part: &str) -> (r: String)
    ensures
        r@ == path_joined(base@, part@),
{
    std::path::Path::new(base).join(part).to_string_lossy().into_owned()
}

/// The directory that holds Herdr's sockets: `$XDG_CONFIG_HOME/herdr` when
/// set, else `%APPDATA%/herdr` (Windows only), else `<home>/.config/herdr`.
pub open spec fn herdr_dir(xdg_config_home: Option<Seq<char>>, app_data: Option<Seq<char>>, home: Seq<char>) -> Seq<char> {
    match xdg_config_home {
        Some(x) => path_joined(x, "herdr"@),
        None => match app_data {
            Some(a) => path_joined(a, "herdr"@),
            None => path_joined(path_joined(home, ".config"@), "herdr"@),
        },
    }
}

pub fn herdr_config_dir_from(xdg_config_home: Option<String>, app_data: Option<String>, home: &str) -> (r: String)
    ensures
        r@ == herdr_dir(opt_view(xdg_config_home), opt_view(app_data), home@),
{
    match xdg_config_home {
        Some(x) => join_path(x.as_str(), "herdr"),
        None => match app_data {
            Some(a) => join_path(a.as_str(), "herdr"),
            None => {
                let config = join_path(home, ".config");
                join_path(config.as_str(), "herdr")
            },
        },
    }
}

/// The socket path found without explicit settings: the session's socket
/// when a session is named, else the default socket.
pub open spec fn default_socket(base: Seq<char>, session: Option<Seq<char>>) -> Seq<char> {
    match session {
        Some(name) => path_joined(path_joined(path_joined(base, "sessions"@), name), "herdr.sock"@),
        None => path_joined(base, "herdr.sock"@),
    }
}

/// Finds Herdr from the settings, the `HERDR_SOCKET_PATH` and
/// `HERDR_SESSION` variables, and the Herdr directory, in this order: WSL
/// mode, an explicit socket, the socket variable, then the session's or the
/// default socket in the Herdr directory.
pub fn discover_with(
    config: &HerdrConfig,
    env_socket_path: Option<String>,
    env_session: Option<String>,
    herdr_dir: &str,
) -> (r: Endpoint)
    ensures
        config.wsl.enabled ==> r.target_spec() == (EndpointTarget::Wsl {
            distribution: config.wsl.distribution,
            socket_path: config.socket_path,
            session: config.session,
        }) && r.display_spec() == wsl_display(opt_view(config.wsl.distribution), opt_view(config.socket_path), opt_view(config.session))
            && r.session_spec() == match config.session {
                Some(s) => s@,
                None => "default"@,
            },
        !config.wsl.enabled && config.socket_path is Some ==> r.display_spec() == config.socket_path->0@
            && r.session_spec() == match config.session {
                Some(s) => s@,
                None => "custom"@,
            },
        !config.wsl.enabled && config.socket_path is None && env_socket_path is Some ==> r.display_spec()
            == env_socket_path->0@ && r.session_spec() == match config.session {
                Some(s) => s@,
                None => "env"@,
            },
        !config.wsl.enabled && config.socket_path is None && env_socket_path is None ==> ({
            let session = match config.session {
                Some(s) => Some(s@),
                None => opt_view(env_session),
            };
            &&& r.display_spec() == default_socket(herdr_dir@, session)
            &&& r.session_spec() == match session {
                Some(s) => s,
                None => "default"@,
            }
        }),
        !config.wsl.enabled ==> r.target_spec() is Local && r.display_spec() == r.target_spec()->Local_0@,
{
    if config.wsl.enabled {
        return Endpoint::wsl(config.wsl.distribution.clone(), config.socket_path.clone(), config.session.clone());
    }
    if let Some(path) = &config.socket_path {
        let session: &str = match &config.session {
            Some(s) => s.as_str(),
            None => "custom",
        };
        return Endpoint::local(path.clone(), session);
    }
    if let Some(path) = env_socket_path {
        let session: &str = match &config.session {
            Some(s) => s.as_str(),
            None => "env",
        };
        return Endpoint::local(path, session);
    }
    let session: Option<String> = match &config.session {
        Some(s) => Some(s.clone()),
        None => env_session,
    };
    let path = match &session {
        Some(name) => {
            let sessions = join_path(herdr_dir, "sessions");
            let named = join_path(sessions.as_str(), name.as_str());
            join_path(named.as_str(), "herdr.sock")
        },
        None => join_path(herdr_dir, "herdr.sock"),
    };
    let session_id: &str = match &session {
        Some(s) => s.as_str(),
        None => "default",
    };
    Endpoint::local(path, session_id)
}

} // verus!

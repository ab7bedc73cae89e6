//! Where the Herdr socket is: a local socket path, or a socket inside a WSL
//! distribution.

use vstd::prelude::*;
use crate::config::opt_view;
use crate::text::concat_str;

verus! {

/// What to connect to.
#[derive(Debug, Clone)]
pub enum EndpointTarget {
    Local(String),
    Wsl { distribution: Option<String>, socket_path: Option<String>, session: Option<String> },
}

/// A Herdr endpoint with the text shown for it and the session it serves.
#[derive(Debug, Clone)]
pub struct Endpoint {
    target: EndpointTarget,
    display: String,
    session_id: String,
}

/// The text shown for a WSL endpoint.
pub open spec fn wsl_display(distribution: Option<Seq<char>>, socket_path: Option<Seq<char>>, session: Option<Seq<char>>) -> Seq<char> {
    let distribution_label = match distribution {
        Some(d) => d,
        None => "default"@,
    };
    let socket_label = match socket_path {
        Some(p) => p,
        None => match session {
            Some(s) => "~/.config/herdr/sessions/"@ + s + "/herdr.sock"@,
            None => "~/.config/herdr/herdr.sock"@,
        },
    };
    "wsl://"@ + distribution_label + "/"@ + socket_label
}

impl Endpoint {
    pub closed spec fn target_spec(&self) -> EndpointTarget {
        self.target
    }

    pub closed spec fn display_spec(&self) -> Seq<char> {
        self.display@
    }

    pub closed spec fn session_spec(&self) -> Seq<char> {
        self.session_id@
    }

    /// A local socket at `path`.
    pub fn local(path: String, session_id: &str) -> (r: Endpoint)
        ensures
            r.target_spec() == EndpointTarget::Local(path),
            r.display_spec() == path@,
            r.session_spec() == session_id@,
    {
        Endpoint { display: path.clone(), target: EndpointTarget::Local(path), session_id: session_id.to_owned() }
    }

    /// A socket inside a WSL distribution (the default one when absent).
    pub fn wsl(distribution: Option<String>, socket_path: Option<String>, session: Option<String>) -> (r: Endpoint)
        ensures
            r.target_spec() == (EndpointTarget::Wsl { distribution, socket_path, session }),
            r.display_spec() == wsl_display(opt_view(distribution), opt_view(socket_path), opt_view(session)),
            r.session_spec() == match session {
                Some(s) => s@,
                None => "default"@,
            },
    {
        let distribution_label: &str = match &distribution {
            Some(d) => d.as_str(),
            None => "default",
        };
        let socket_label: String = match &socket_path {
            Some(p) => p.clone(),
            None => match &session {
                Some(s) => {
                    let head = concat_str("~/.config/herdr/sessions/", s.as_str());
                    concat_str(head.as_str(), "/herdr.sock")
                },
                None => "~/.config/herdr/herdr.sock".to_owned(),
            },
        };
        let session_id: String = match &session {
            Some(s) => s.clone(),
            None => "default".to_owned(),
        };
        let display = concat_str("wsl://", distribution_label);
        let display = concat_str(display.as_str(), "/");
        let display = concat_str(display.as_str(), socket_label.as_str());
        Endpoint { display, target: EndpointTarget::Wsl { distribution, socket_path, session }, session_id }
    }

    /// The path of a local endpoint, or the shown text of a WSL one.
    pub fn path(&self) -> (r: String)
        ensures
            r@ == match self.target_spec() {
                EndpointTarget::Local(p) => p@,
                EndpointTarget::Wsl { .. } => self.display_spec(),
            },
    {
        match &self.target {
            EndpointTarget::Local(path) => path.clone(),
            EndpointTarget::Wsl { .. } => self.display.clone(),
        }
    }

    pub fn display(&self) -> (r: &str)
        ensures
            r@ == self.display_spec(),
    {
        self.display.as_str()
    }

    pub fn session_id(&self) -> (r: &str)
        ensures
            r@ == self.session_spec(),
    {
        self.session_id.as_str()
    }

    pub fn target(&self) -> (r: &EndpointTarget)
        ensures
            *r == self.target_spec(),
    {
        &self.target
    }
}

} // verus!

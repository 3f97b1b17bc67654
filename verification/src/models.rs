//! Request and response models of the cloud API.

use vstd::prelude::*;

verus! {

/// Turnstile captcha settings.
pub struct CloudBootstrapCaptchaTurnstile {
    pub site_key: String,
}

/// Captcha settings of the cloud bootstrap response.
pub struct CloudBootstrapCaptcha {
    pub turnstile: Option<Box<CloudBootstrapCaptchaTurnstile>>,
}

impl CloudBootstrapCaptcha {
    /// Captcha settings with no captcha configured.
    pub fn new() -> (c: CloudBootstrapCaptcha)
        ensures
            c.turnstile is None,
    {
        CloudBootstrapCaptcha { turnstile: None }
    }
}

impl Default for CloudBootstrapCaptcha {
    fn default() -> (c: CloudBootstrapCaptcha)
        ensures
            c.turnstile is None,
    {
        CloudBootstrapCaptcha { turnstile: None }
    }
}

/// Which output stream of a lobby.
#[derive(Clone, Copy, Debug, PartialEq, Eq, Structural)]
pub enum CloudGamesLogStream {
    StdOut,
    StdErr,
}

impl Default for CloudGamesLogStream {
    fn default() -> (s: CloudGamesLogStream)
        ensures
            s == CloudGamesLogStream::StdOut,
    {
        CloudGamesLogStream::StdOut
    }
}

/// A request to export a lobby's logs of one stream.
#[derive(Clone, Copy, Debug, PartialEq, Eq, Structural)]
pub struct CloudGamesExportLobbyLogsRequest {
    pub stream: CloudGamesLogStream,
}

impl CloudGamesExportLobbyLogsRequest {
    /// The request for the given stream.
    pub fn new(stream: CloudGamesLogStream) -> (r: CloudGamesExportLobbyLogsRequest)
        ensures
            r.stream == stream,
    {
        CloudGamesExportLobbyLogsRequest { stream }
    }
}

impl Default for CloudGamesExportLobbyLogsRequest {
    fn default() -> (r: CloudGamesExportLobbyLogsRequest)
        ensures
            r.stream == CloudGamesLogStream::StdOut,
    {
        CloudGamesExportLobbyLogsRequest { stream: CloudGamesLogStream::StdOut }
    }
}

} // verus!

//! The server's runtime configuration and the serial auto-connect decision.

use vstd::prelude::*;

use crate::text::str_eq;

verus! {

/// The baud rate used when none is configured.
pub const DEFAULT_BAUD_RATE: u32 = 115200;

/// The WebSocket port used when none is configured.
pub const DEFAULT_WS_PORT: u16 = 9001;

/// The dashboard HTTP port used when none is configured.
pub const DEFAULT_HTTP_PORT: u16 = 8080;

/// The runtime configuration, read from `server_config.json`.
pub struct ServerConfig {
    /// The WebSocket port to listen on.
    pub port: u16,
    /// Whether to connect to a serial port on startup and whenever the
    /// connection is lost.
    pub auto_connect: bool,
    /// The serial port to use instead of the first one found.
    pub default_serial_port: Option<String>,
    /// The serial baud rate.
    pub default_baud_rate: Option<u32>,
    /// The port of the dashboard's HTTP server.
    pub http_port: Option<u16>,
    /// The directory that holds the dashboard's files.
    pub web_root: Option<String>,
}

impl Default for ServerConfig {
    fn default() -> (c: Self)
        ensures
            c.port == DEFAULT_WS_PORT,
            c.auto_connect,
            c.default_serial_port is None,
            c.default_baud_rate == Some(DEFAULT_BAUD_RATE),
            c.http_port == Some(DEFAULT_HTTP_PORT),
            c.web_root matches Some(w) && w@ == "./public"@,
    {
        ServerConfig {
            port: DEFAULT_WS_PORT,
            auto_connect: true,
            default_serial_port: None,
            default_baud_rate: Some(DEFAULT_BAUD_RATE),
            http_port: Some(DEFAULT_HTTP_PORT),
            web_root: Some("./public".to_owned()),
        }
    }
}

/// The configured baud rate, or 115200.
pub open spec fn configured_baud(c: ServerConfig) -> u32 {
    match c.default_baud_rate {
        Some(b) => b,
        None => DEFAULT_BAUD_RATE,
    }
}

impl ServerConfig {
    /// The configured baud rate, or 115200.
    pub fn baud_rate(&self) -> (b: u32)
        ensures
            b == configured_baud(*self),
    {
        match self.default_baud_rate {
            Some(b) => b,
            None => DEFAULT_BAUD_RATE,
        }
    }

    /// The configured dashboard port, or 8080.
    pub fn dashboard_port(&self) -> (p: u16)
        ensures
            p == match self.http_port {
                Some(p) => p,
                None => DEFAULT_HTTP_PORT,
            },
    {
        match self.http_port {
            Some(p) => p,
            None => DEFAULT_HTTP_PORT,
        }
    }

    /// The configured dashboard directory, or `./public`.
    pub fn dashboard_root(&self) -> (r: String)
        ensures
            r@ == match self.web_root {
                Some(w) => w@,
                None => "./public"@,
            },
    {
        match &self.web_root {
            Some(w) => w.clone(),
            None => "./public".to_owned(),
        }
    }
}

/// The connection status the driver reports when it has no connection.
pub open spec fn disconnected_text() -> Seq<char> {
    "Disconnected"@
}

/// Whether an auto-connect attempt is due: the driver is disconnected and
/// the user has not suspended auto-connect.
pub fn should_auto_connect(status: &str, suspended: bool) -> (due: bool)
    ensures
        due == (status@ == disconnected_text() && !suspended),
{
    str_eq(status, "Disconnected") && !suspended
}

/// The port to connect to: the configured one, else the first port found.
pub open spec fn chosen_port(default_port: Option<Seq<char>>, available: Option<Seq<Seq<char>>>) -> Option<
    Seq<char>,
> {
    match default_port {
        Some(p) => Some(p),
        None => match available {
            Some(ports) => if ports.len() > 0 {
                Some(ports[0])
            } else {
                None
            },
            None => None,
        },
    }
}

/// The view of an optional string.
pub open spec fn opt_view(s: Option<String>) -> Option<Seq<char>> {
    match s {
        Some(v) => Some(v@),
        None => None,
    }
}

/// The view of an optional list of strings.
pub open spec fn opt_list_view(s: Option<Vec<String>>) -> Option<Seq<Seq<char>>> {
    match s {
        Some(v) => Some(v@.map_values(|x: String| x@)),
        None => None,
    }
}

/// The port to connect to, given the configured port and the ports found
/// (`None` when the search failed or was not made).
pub fn select_port(default_port: &Option<String>, available: &Option<Vec<String>>) -> (port: Option<
    String,
>)
    ensures
        opt_view(port) == chosen_port(opt_view(*default_port), opt_list_view(*available)),
{
    match default_port {
        Some(p) => Some(p.clone()),
        None => match available {
            Some(ports) => if ports.len() > 0 {
                Some(ports[0].clone())
            } else {
                None
            },
            None => None,
        },
    }
}

/// The serial connection an auto-connect attempt makes, if any: the chosen
/// port at the configured baud rate, when the driver is disconnected and
/// auto-connect is not suspended.  `available` holds the ports found, when a
/// search was made.
pub fn auto_connect_target(
    status: &str,
    suspended: bool,
    config: &ServerConfig,
    available: &Option<Vec<String>>,
) -> (target: Option<(String, u32)>)
    ensures
        !(status@ == disconnected_text() && !suspended) ==> target is None,
        (status@ == disconnected_text() && !suspended) ==> match target {
            Some((p, b)) => chosen_port(opt_view(config.default_serial_port), opt_list_view(
                *available,
            )) == Some(p@) && b == configured_baud(*config),
            None => chosen_port(opt_view(config.default_serial_port), opt_list_view(*available))
                is None,
        },
{
    if !should_auto_connect(status, suspended) {
        return None;
    }
    match select_port(&config.default_serial_port, available) {
        Some(p) => Some((p, config.baud_rate())),
        None => None,
    }
}

} // verus!

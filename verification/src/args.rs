use vstd::prelude::*;
use vstd::string::StringExecFns;
use crate::text::{decimal, push_decimal};

verus! {

/// Port of the listener where none is given.
pub const DEFAULT_NNG_PORT: u16 = 62000;

/// Port of the alternate listener where none is given.
pub const DEFAULT_HTTP_PORT: u16 = 62001;

/// The address `tcp://` + `address` + `:` + `port` in decimal.
pub open spec fn tcp_address(address: Seq<char>, port: u16) -> Seq<char> {
    "tcp://"@ + address + ":"@ + decimal(port as nat)
}

/// The transport address of `port` on the host `address`.
pub fn tcp_bind(address: &str, port: u16) -> (bind: String)
    ensures
        bind@ == tcp_address(address@, port),
{
    let mut bind = String::from_str("tcp://");
    bind.append(address);
    bind.append(":");
    push_decimal(&mut bind, port as u64);
    bind
}

/// What the collector was started with.
#[derive(Clone, Debug, PartialEq, Eq)]
pub struct ServerArgs {
    /// Host address on which the listeners bind.
    pub address: String,
    /// Whether the dashboard runs.
    pub tui: bool,
    /// The listener: absent, enabled on the default port, or on a given one.
    pub nng: Option<Option<u16>>,
    /// The alternate listener, in the same way.
    pub http: Option<Option<u16>>,
    /// The persistent store: absent, at the default path, or at a given one.
    pub sqlite: Option<Option<String>>,
}

/// What the pipe tool was started with.
#[derive(Clone, Debug, PartialEq, Eq)]
pub struct PipeArgs {
    pub address: String,
    pub port: u16,
    pub json: bool,
}

/// The two commands of the program.
#[derive(Clone, Debug, PartialEq, Eq)]
pub enum Cmd {
    Server(ServerArgs),
    Pipe(PipeArgs),
}

/// The parsed command line.
#[derive(Clone, Debug, PartialEq, Eq)]
pub struct Args {
    pub cmd: Cmd,
}

impl ServerArgs {
    /// The port of the listener, if it is enabled.
    pub fn nng_port(&self) -> (port: Option<u16>)
        ensures
            port == match self.nng {
                None => None,
                Some(None) => Some(DEFAULT_NNG_PORT),
                Some(Some(p)) => Some(p),
            },
    {
        match self.nng {
            None => None,
            Some(None) => Some(DEFAULT_NNG_PORT),
            Some(Some(p)) => Some(p),
        }
    }

    /// The port of the alternate listener, if it is enabled.
    pub fn http_port(&self) -> (port: Option<u16>)
        ensures
            port == match self.http {
                None => None,
                Some(None) => Some(DEFAULT_HTTP_PORT),
                Some(Some(p)) => Some(p),
            },
    {
        match self.http {
            None => None,
            Some(None) => Some(DEFAULT_HTTP_PORT),
            Some(Some(p)) => Some(p),
        }
    }

    /// The path of the persistent store, if one is asked for; `None` means
    /// the volatile store.
    pub fn sqlite_path(&self) -> (path: Option<String>)
        ensures
            match self.sqlite {
                None => path is None,
                Some(None) => path is Some && path->0@ == "logs.sqlite"@,
                Some(Some(p)) => path is Some && path->0@ == p@,
            },
    {
        match &self.sqlite {
            None => None,
            Some(None) => Some(String::from_str("logs.sqlite")),
            Some(Some(p)) => Some(p.clone()),
        }
    }

    /// The transport address on which a listener on `port` binds.
    pub fn bind(&self, port: u16) -> (bind: String)
        ensures
            bind@ == tcp_address(self.address@, port),
    {
        tcp_bind(self.address.as_str(), port)
    }
}

impl PipeArgs {
    /// The transport address of the collector that the tool sends to.
    pub fn bind(&self) -> (bind: String)
        ensures
            bind@ == tcp_address(self.address@, self.port),
    {
        tcp_bind(self.address.as_str(), self.port)
    }
}

} // verus!

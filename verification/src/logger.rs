use vstd::prelude::*;
use vstd::string::StringExecFns;
use crate::args::{tcp_address, tcp_bind};
use crate::codec::{encodable, encode};
use crate::log::{ContextView, LogView, RsContext, RsLog, VarView};
use crate::timestamp::{chrono_local_now, Timestamp};

verus! {

/// Why no logger could be built.
#[derive(Clone, Copy, Debug, PartialEq, Eq, Structural)]
pub enum BuildError {
    /// No address of a collector was given.
    MissingBind,
}

impl BuildError {
    /// The error in words.
    pub fn message(&self) -> (text: String)
        ensures
            text@ == "Bind address must be specified"@,
    {
        String::from_str("Bind address must be specified")
    }
}

/// Why a message could not be logged.
#[derive(Clone, Copy, Debug, PartialEq, Eq, Structural)]
pub enum LogError {
    /// No logger was built yet.
    NotInitialized,
}

impl LogError {
    /// The error in words.
    pub fn message(&self) -> (text: String)
        ensures
            text@ == "Global logger is not initialized"@,
    {
        String::from_str("Global logger is not initialized")
    }
}

/// Mathematical value of a [`LoggerBuilder`].
pub struct BuilderView {
    pub bind: Option<Seq<char>>,
    pub app_name: Seq<char>,
    pub version: Seq<char>,
}

/// Collects what a logger is built from.
pub struct LoggerBuilder {
    bind: Option<String>,
    app_name: String,
    version: String,
}

impl View for LoggerBuilder {
    type V = BuilderView;

    closed spec fn view(&self) -> BuilderView {
        BuilderView {
            bind: match self.bind {
                None => None,
                Some(bind) => Some(bind@),
            },
            app_name: self.app_name@,
            version: self.version@,
        }
    }
}

impl Default for LoggerBuilder {
    /// No address, the application `default` and the version `0.0.0`.
    fn default() -> (b: Self)
        ensures
            b@ == (BuilderView { bind: None, app_name: "default"@, version: "0.0.0"@ }),
    {
        Self {
            bind: None,
            app_name: String::from_str("default"),
            version: String::from_str("0.0.0"),
        }
    }
}

/// sys_info: `os_type`, which reads the kind of the operating system from
/// the machine; `None` where it fails. Nothing is known of the text.
#[verifier::external_body]
fn sys_os_type() -> (kind: Option<String>) {
    sys_info::os_type().ok()
}

/// sys_info: `os_release`, which reads the release of the operating system
/// from the machine; `None` where it fails. Nothing is known of the text.
#[verifier::external_body]
fn sys_os_release() -> (release: Option<String>) {
    sys_info::os_release().ok()
}

/// The text `kind` + space + `release`, with `Unknown` in place of a part
/// that is not known.
pub open spec fn os_description(kind: Option<Seq<char>>, release: Option<Seq<char>>) -> Seq<char> {
    (match kind {
        Some(k) => k,
        None => "Unknown"@,
    }) + " "@ + (match release {
        Some(r) => r,
        None => "Unknown"@,
    })
}

/// Describes an operating system by its kind and release.
pub fn describe_os(kind: Option<String>, release: Option<String>) -> (os: String)
    ensures
        os@ == os_description(
            match kind {
                Some(k) => Some(k@),
                None => None,
            },
            match release {
                Some(r) => Some(r@),
                None => None,
            },
        ),
{
    let mut os = match kind {
        Some(k) => k,
        None => String::from_str("Unknown"),
    };
    os.append(" ");
    match release {
        Some(r) => os.append(r.as_str()),
        None => os.append("Unknown"),
    }
    os
}

impl LoggerBuilder {
    /// Sets the address of the collector.
    pub fn with_bind(self, bind: String) -> (b: Self)
        ensures
            b@ == (BuilderView { bind: Some(bind@), ..self@ }),
    {
        let mut b = self;
        b.bind = Some(bind);
        b
    }

    /// Sets the address of the collector to `tcp://address:port`.
    pub fn with_address_port(self, address: &str, port: u16) -> (b: Self)
        ensures
            b@ == (BuilderView { bind: Some(tcp_address(address@, port)), ..self@ }),
    {
        let mut b = self;
        b.bind = Some(tcp_bind(address, port));
        b
    }

    /// Sets the name of the application.
    pub fn with_app_name(self, app_name: &str) -> (b: Self)
        ensures
            b@ == (BuilderView { app_name: app_name@, ..self@ }),
    {
        let mut b = self;
        b.app_name = String::from_str(app_name);
        b
    }

    /// Sets the version of the application.
    pub fn with_version(self, version: &str) -> (b: Self)
        ensures
            b@ == (BuilderView { version: version@, ..self@ }),
    {
        let mut b = self;
        b.version = String::from_str(version);
        b
    }

    /// The logger of the process `pid` on the operating system `os`. Fails
    /// exactly where no address was set.
    pub fn build_for(self, pid: u32, os: String) -> (r: Result<Logger, BuildError>)
        ensures
            match self@.bind {
                None => r == Err::<Logger, BuildError>(BuildError::MissingBind),
                Some(bind) => r is Ok && r->Ok_0.bind@ == bind && r->Ok_0.context@ == (ContextView {
                    app: self@.app_name,
                    pid,
                    os: os@,
                    version: self@.version,
                }),
            },
    {
        match self.bind {
            None => Err(BuildError::MissingBind),
            Some(bind) => Ok(
                Logger {
                    bind,
                    context: RsContext { app: self.app_name, pid, os, version: self.version },
                },
            ),
        }
    }

    /// The logger of the process `pid` on this machine, whose operating
    /// system is read from the machine and described by its kind and
    /// release. Fails exactly where no address was set.
    pub fn build(self, pid: u32) -> (r: Result<Logger, BuildError>)
        ensures
            match self@.bind {
                None => r == Err::<Logger, BuildError>(BuildError::MissingBind),
                Some(bind) => {
                    &&& r is Ok
                    &&& r->Ok_0.bind@ == bind
                    &&& r->Ok_0.context@.app == self@.app_name
                    &&& r->Ok_0.context@.pid == pid
                    &&& r->Ok_0.context@.version == self@.version
                    &&& exists|kind: Option<Seq<char>>, release: Option<Seq<char>>|
                        r->Ok_0.context@.os == #[trigger] os_description(kind, release)
                },
            },
    {
        let os = Self::get_os();
        self.build_for(pid, os)
    }

    /// The description of this machine's operating system: that of the
    /// kind and the release that the machine gave, each of which may be
    /// unknown.
    fn get_os() -> (os: String)
        ensures
            exists|kind: Option<Seq<char>>, release: Option<Seq<char>>|
                os@ == #[trigger] os_description(kind, release),
    {
        let kind = sys_os_type();
        let release = sys_os_release();
        describe_os(kind, release)
    }
}

/// The client's handle: where its records go and what they say of the
/// process.
pub struct Logger {
    pub bind: String,
    pub context: RsContext,
}

impl Logger {
    /// A builder with the default application name and version.
    pub fn builder() -> (b: LoggerBuilder)
        ensures
            b@ == (BuilderView { bind: None, app_name: "default"@, version: "0.0.0"@ }),
    {
        LoggerBuilder::default()
    }

    /// The record that this logger makes of a message at `ts`.
    pub open spec fn record(&self, ts: Timestamp, msg: Seq<char>, vars: Seq<(String, String)>) -> LogView {
        LogView {
            ts,
            msg,
            ip: Seq::empty(),
            context: self.context@,
            vars: Seq::new(vars.len(), |i: int| VarView { key: vars[i].0@, val: vars[i].1@ }),
        }
    }

    /// The buffer to send for a message logged at `ts`: the encoded record
    /// of the message, the logger's context and the variables.
    pub fn log_at(&self, ts: Timestamp, msg: String, vars: Vec<(String, String)>) -> (buf: Vec<u8>)
        ensures
            buf@ == encode(self.record(ts, msg@, vars@)),
            encodable(self.record(ts, msg@, vars@)),
    {
        let log = RsLog::new(ts, msg, self.context.clone(), vars);
        assert(log@ == self.record(ts, msg@, vars@));
        log.build()
    }

    /// The buffer to send for a message logged now: that of
    /// [`Logger::log_at`] for the time of the call.
    pub fn log(&self, msg: String, vars: Vec<(String, String)>) -> (buf: Vec<u8>)
        ensures
            exists|ts: Timestamp| buf@ == encode(#[trigger] self.record(ts, msg@, vars@)),
    {
        let ts = chrono_local_now();
        self.log_at(ts, msg, vars)
    }
}

/// Logs through the process-wide logger, if one was built: the buffer to
/// send, or the error that none was.
pub fn global_log(logger: Option<&Logger>, ts: Timestamp, msg: String, vars: Vec<(String, String)>) -> (r:
    Result<Vec<u8>, LogError>)
    ensures
        match logger {
            None => r == Err::<Vec<u8>, LogError>(LogError::NotInitialized),
            Some(l) => r is Ok && r->Ok_0@ == encode(l.record(ts, msg@, vars@)),
        },
{
    match logger {
        None => Err(LogError::NotInitialized),
        Some(l) => Ok(l.log_at(ts, msg, vars)),
    }
}

} // verus!

//! Cross-platform system proxy configuration: the decisions and text handling
//! behind reading and writing the system HTTP/SOCKS proxy and the PAC
//! auto-proxy on Windows (WinINet) and macOS (`networksetup`).
use vstd::prelude::*;

pub mod text;
pub mod cli;
pub mod macos;
pub mod networksetup;
pub mod session;
pub mod utils;
pub mod windows;

verus! {

/// Represents a system HTTP/SOCKS proxy configuration.
#[derive(Debug, Default, Clone, PartialEq, Eq)]
pub struct Sysproxy {
    pub enable: bool,
    pub host: String,
    pub port: u16,
    pub bypass: String,
}

/// Represents a system auto-proxy (PAC) configuration.
#[derive(Debug, Default, Clone, PartialEq, Eq)]
pub struct Autoproxy {
    pub enable: bool,
    pub url: String,
}

/// What can go wrong while reading or writing proxy settings.
#[derive(Debug, Clone, PartialEq, Eq)]
pub enum Error {
    /// A string could not be parsed; it holds the string (or a description).
    ParseStr(String),
    /// An I/O failure, with its message.
    Io(String),
    /// The default network interface could not be determined.
    NetworkInterface,
    /// Setting a proxy is not supported in this environment.
    NotSupport,
    /// An external command failed; it holds the diagnostic.
    Command(String),
    /// A system call failed, with its message.
    SystemCall(String),
}

pub type Result<T> = std::result::Result<T, Error>;

/// Represents a UWP app container that can be exempted from proxy loopback restrictions.
///
/// Windows UWP apps are sandboxed and cannot reach loopback addresses by default.
/// Loopback exemption allows them to connect through a local proxy.
#[derive(Debug, Default, Clone, PartialEq, Eq)]
pub struct AppContainer {
    /// AppContainer SID string (e.g. `S-1-15-2-…`).
    pub sid: String,
    /// Internal package name (e.g. `microsoft.windowscommunicationsapps_8wekyb3d8bbwe`).
    pub name: String,
    /// Human-readable display name.
    pub display_name: String,
    /// Whether this container is currently in the loopback proxy exemption list.
    pub exempted: bool,
}

/// The content of an `AppContainer`.
pub struct AppContainerView {
    pub sid: Seq<char>,
    pub name: Seq<char>,
    pub display_name: Seq<char>,
    pub exempted: bool,
}

impl View for AppContainer {
    type V = AppContainerView;

    open spec fn view(&self) -> AppContainerView {
        AppContainerView {
            sid: self.sid@,
            name: self.name@,
            display_name: self.display_name@,
            exempted: self.exempted,
        }
    }
}

impl Sysproxy {
    /// Returns `true`: the proxy logic of every supported platform is part of the library.
    pub fn is_support() -> (r: bool)
        ensures
            r,
    {
        true
    }
}

impl Autoproxy {
    /// Returns `true`: the proxy logic of every supported platform is part of the library.
    pub fn is_support() -> (r: bool)
        ensures
            r,
    {
        true
    }
}

/// The content of a `Sysproxy`.
pub struct SysproxyView {
    pub enable: bool,
    pub host: Seq<char>,
    pub port: u16,
    pub bypass: Seq<char>,
}

impl View for Sysproxy {
    type V = SysproxyView;

    open spec fn view(&self) -> SysproxyView {
        SysproxyView { enable: self.enable, host: self.host@, port: self.port, bypass: self.bypass@ }
    }
}

/// The content of an `Autoproxy`.
pub struct AutoproxyView {
    pub enable: bool,
    pub url: Seq<char>,
}

impl View for Autoproxy {
    type V = AutoproxyView;

    open spec fn view(&self) -> AutoproxyView {
        AutoproxyView { enable: self.enable, url: self.url@ }
    }
}

/// The content of an `Error`.
pub enum ErrorView {
    ParseStr(Seq<char>),
    Io(Seq<char>),
    NetworkInterface,
    NotSupport,
    Command(Seq<char>),
    SystemCall(Seq<char>),
}

impl View for Error {
    type V = ErrorView;

    open spec fn view(&self) -> ErrorView {
        match self {
            Error::ParseStr(s) => ErrorView::ParseStr(s@),
            Error::Io(s) => ErrorView::Io(s@),
            Error::NetworkInterface => ErrorView::NetworkInterface,
            Error::NotSupport => ErrorView::NotSupport,
            Error::Command(s) => ErrorView::Command(s@),
            Error::SystemCall(s) => ErrorView::SystemCall(s@),
        }
    }
}

/// The content of a result.
pub open spec fn result_view<T: View>(r: Result<T>) -> std::result::Result<T::V, ErrorView> {
    match r {
        Ok(t) => Ok(t@),
        Err(e) => Err(e@),
    }
}

/// `r` is `Err(Error::ParseStr(m))` with `m` holding the text `s`.
pub open spec fn is_parse_error<T>(r: Result<T>, s: Seq<char>) -> bool {
    r matches Err(Error::ParseStr(m)) && m@ == s
}

} // verus!

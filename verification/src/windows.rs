//! Windows: proxy settings through WinINet per-connection options.
//!
//! The caller reads and writes the options with the system calls; this file
//! decides what is written and what the read options mean.
use crate::text::{
    chars_of, dec_repr, find_char, has_prefix, parse_unsigned, parse_unsigned_exec, push_chars,
    push_dec, rfind, rfind_char, slice_range, split_exec, split_on, starts_with, string_of, trim,
    trim_exec,
};
use crate::{Autoproxy, AutoproxyView, Error, ErrorView, Result, Sysproxy, SysproxyView};
use vstd::prelude::*;
use vstd::string::StringExecFns;

verus! {

/// `PROXY_TYPE_DIRECT`: direct connections are allowed.
pub const PROXY_TYPE_DIRECT: u32 = 1;

/// `PROXY_TYPE_PROXY`: the proxy server is used.
pub const PROXY_TYPE_PROXY: u32 = 2;

/// `PROXY_TYPE_AUTO_PROXY_URL`: the auto-config (PAC) URL is used.
pub const PROXY_TYPE_AUTO_PROXY_URL: u32 = 4;

/// `PROXY_TYPE_AUTO_DETECT`: WPAD auto-detection is used.
pub const PROXY_TYPE_AUTO_DETECT: u32 = 8;

// ---------------------------------------------------------------------------
// Wide strings
// ---------------------------------------------------------------------------

/// The UTF-16 code units of one character.
pub open spec fn utf16_units(c: char) -> Seq<u16> {
    let u = c as u32;
    if u < 0x10000 {
        seq![u as u16]
    } else {
        let v = (u - 0x10000) as u32;
        seq![(0xd800 + v / 0x400) as u16, (0xdc00 + v % 0x400) as u16]
    }
}

/// The UTF-16 encoding of a character sequence.
pub open spec fn utf16(s: Seq<char>) -> Seq<u16>
    decreases s.len(),
{
    if s.len() == 0 {
        Seq::empty()
    } else {
        utf16(s.drop_last()) + utf16_units(s.last())
    }
}

/// Encodes a string as a null-terminated UTF-16 sequence.
pub fn to_wide(s: &str) -> (r: Vec<u16>)
    ensures
        r@ == utf16(s@).push(0),
{
    let cs = chars_of(s);
    let mut r: Vec<u16> = Vec::new();
    let mut i: usize = 0;
    while i < cs.len()
        invariant
            cs@ == s@,
            i <= cs@.len(),
            r@ == utf16(cs@.take(i as int)),
        decreases cs@.len() - i,
    {
        assert(cs@.take(i + 1).drop_last() =~= cs@.take(i as int));
        let u = cs[i] as u32;
        if u < 0x10000 {
            r.push(u as u16);
        } else {
            let v = u - 0x10000;
            r.push((0xd800 + v / 0x400) as u16);
            r.push((0xdc00 + v % 0x400) as u16);
        }
        assert(r@ =~= utf16(cs@.take(i + 1)));
        i = i + 1;
    }
    assert(cs@.take(cs@.len() as int) =~= cs@);
    r.push(0);
    r
}

/// The name held in a fixed-size wide-character buffer (such as a RAS entry
/// name), null-terminated: the units before the first 0, or all of them when
/// there is none, followed by 0.
pub fn connection_name(units: &[u16]) -> (r: Vec<u16>)
    ensures
        r@.len() >= 1,
        r@ == units@.take(r@.len() - 1).push(0),
        r@.len() - 1 <= units@.len(),
        forall|j: int| 0 <= j < r@.len() - 1 ==> units@[j] != 0,
        r@.len() - 1 == units@.len() || units@[r@.len() - 1] == 0,
{
    let mut r: Vec<u16> = Vec::new();
    let mut i: usize = 0;
    while i < units.len() && units[i] != 0
        invariant
            i <= units@.len(),
            r@ == units@.take(i as int),
            forall|j: int| 0 <= j < i ==> units@[j] != 0,
        decreases units@.len() - i,
    {
        r.push(units[i]);
        assert(units@.take(i + 1) =~= units@.take(i as int).push(units@[i as int]));
        i = i + 1;
    }
    r.push(0);
    r
}

// ---------------------------------------------------------------------------
// Reading the proxy server option
// ---------------------------------------------------------------------------

/// What `url::Url::parse` makes of `text`: `None` when it does not parse, else the
/// URL's host text (`host_str`) and explicit non-default port (`port`).
pub uninterp spec fn url_host_port(text: Seq<char>) -> Option<(Option<Seq<char>>, Option<u16>)>;

pub open spec fn url_parts_view(r: Option<(Option<String>, Option<u16>)>) -> Option<(Option<Seq<char>>, Option<u16>)> {
    match r {
        Some((Some(h), p)) => Some((Some(h@), p)),
        Some((None, p)) => Some((None, p)),
        None => None,
    }
}

/// `url::Url::parse(text)`, read back through `Url::host_str` and `Url::port`.
/// Stated: the result is `url_host_port` of the text; nothing is claimed about
/// which texts parse or what host and port they have.
#[verifier::external_body]
fn parse_url_host_port(text: &str) -> (r: Option<(Option<String>, Option<u16>)>)
    ensures
        url_parts_view(r) == url_host_port(text@),
{
    match url::Url::parse(text) {
        Ok(u) => {
            let host = match u.host_str() {
                Some(h) => Some(h.to_owned()),
                None => None,
            };
            Some((host, u.port()))
        },
        Err(_) => None,
    }
}

/// The port written after the last `:` of `address`, when that text parses as a
/// `u16`.
pub open spec fn text_port(address: Seq<char>) -> Option<u16> {
    match rfind(address, seq![':']) {
        Some(k) => match parse_unsigned(address.skip(k + 1), 65535) {
            Some(p) => Some(p as u16),
            None => None,
        },
        None => None,
    }
}

/// Host and port of `address` given what URL parsing of `http://` + `address`
/// gave. When the URL has a non-empty host: that host, with the URL's port, or,
/// when the URL reports none (it reports none for the http default, 80), the
/// port written after the last `:` of the address, else 0. Otherwise: the text
/// before the last `:` and the `u16` after it when that parses, else the whole
/// address and port 0.
pub open spec fn host_port_from(
    address: Seq<char>,
    parsed: Option<(Option<Seq<char>>, Option<u16>)>,
) -> (Seq<char>, u16) {
    let url_host = match parsed {
        Some((Some(h), _)) => h,
        _ => Seq::empty(),
    };
    let url_port: u16 = match parsed {
        Some((_, Some(p))) => p,
        _ => match text_port(address) {
            Some(p) => p,
            None => 0,
        },
    };
    if parsed is Some && url_host.len() > 0 {
        (url_host, url_port)
    } else {
        match rfind(address, seq![':']) {
            Some(k) => match parse_unsigned(address.skip(k + 1), 65535) {
                Some(p) => (address.take(k), p as u16),
                None => (address, 0),
            },
            None => (address, 0),
        }
    }
}

fn text_port_exec(address: &str) -> (r: Option<u16>)
    ensures
        r == text_port(address@),
{
    let cs = chars_of(address);
    match rfind_char(&cs, ':') {
        Some(k) => {
            let port_text = slice_range(&cs, k + 1, cs.len());
            assert(port_text@ =~= address@.skip(k + 1));
            match parse_unsigned_exec(&port_text, 65535) {
                Some(p) => Some(p as u16),
                None => None,
            }
        },
        None => None,
    }
}

/// Splits `host:port` into host and port, given the URL parse of `http://` + `address`.
pub fn host_port_from_parsed(address: &str, parsed: Option<(Option<String>, Option<u16>)>) -> (r: (
    String,
    u16,
))
    ensures
        (r.0@, r.1) == host_port_from(address@, url_parts_view(parsed)),
{
    match parsed {
        Some((Some(host), port)) => {
            if !host.as_str().is_empty() {
                let p: u16 = match port {
                    Some(p) => p,
                    None => match text_port_exec(address) {
                        Some(p) => p,
                        None => 0,
                    },
                };
                return (host, p);
            }
        },
        _ => {},
    }
    let cs = chars_of(address);
    match rfind_char(&cs, ':') {
        Some(k) => {
            let port_text = slice_range(&cs, k + 1, cs.len());
            assert(port_text@ =~= address@.skip(k + 1));
            match parse_unsigned_exec(&port_text, 65535) {
                Some(p) => {
                    let h = slice_range(&cs, 0, k);
                    assert(h@ =~= address@.take(k as int));
                    (string_of(&h), p as u16)
                },
                None => (address.to_owned(), 0),
            }
        },
        None => (address.to_owned(), 0),
    }
}

/// The URL text parsed for `address`.
pub open spec fn http_url_text(address: Seq<char>) -> Seq<char> {
    "http://"@ + address
}

/// Parses `host:port` into host and port.
pub fn parse_host_port(address: &str) -> (r: (String, u16))
    ensures
        (r.0@, r.1) == host_port_from(address@, url_host_port(http_url_text(address@))),
{
    let mut text = "http://".to_owned();
    text.append(address);
    let parsed = parse_url_host_port(text.as_str());
    host_port_from_parsed(address, parsed)
}

/// Lower-case text as `str::to_lowercase` gives it.
pub uninterp spec fn lowercase(s: Seq<char>) -> Seq<char>;

/// `str::to_lowercase`: the Unicode lower-case mapping of the text. Stated: the
/// result is `lowercase` of the text.
#[verifier::external_body]
fn to_lowercase(s: &str) -> (r: String)
    ensures
        r@ == lowercase(s@),
{
    s.to_lowercase()
}

/// Whether a `proto=host:port` entry is the HTTP one.
pub open spec fn is_http_entry(p: Seq<char>) -> bool {
    has_prefix(lowercase(trim(p)), "http="@)
}

/// The first entry that is the HTTP one, else the first entry.
pub open spec fn preferred_entry(parts: Seq<Seq<char>>) -> Seq<char>
    decreases parts.len(),
{
    if parts.len() <= 1 {
        parts[0]
    } else if is_http_entry(parts[0]) {
        parts[0]
    } else {
        let rest = preferred_entry(parts.drop_first());
        if is_http_entry(rest) {
            rest
        } else {
            parts[0]
        }
    }
}

/// The value part of an entry: the text between its first and second `=`.
pub open spec fn entry_value(p: Seq<char>) -> Seq<char> {
    let pieces = split_on(p, '=');
    if pieces.len() > 1 {
        pieces[1]
    } else {
        Seq::empty()
    }
}

/// The address that a WinINet proxy server option names: the whole option, or,
/// in the per-protocol form `http=host:port;https=host:port`, the value of the
/// HTTP entry (else of the first entry).
pub open spec fn server_address(server: Seq<char>) -> Seq<char> {
    if exists|i: int| 0 <= i < server.len() && server[i] == '=' {
        entry_value(preferred_entry(split_on(server, ';')))
    } else {
        server
    }
}

/// Host and port of a WinINet proxy server option (empty and 0 for an empty option).
pub open spec fn proxy_server_host_port(server: Seq<char>) -> (Seq<char>, u16) {
    if server.len() == 0 {
        (Seq::empty(), 0)
    } else {
        let a = server_address(server);
        host_port_from(a, url_host_port(http_url_text(a)))
    }
}

proof fn lemma_preferred_found(parts: Seq<Seq<char>>, i: int)
    requires
        0 <= i < parts.len(),
        is_http_entry(parts[i]),
        forall|j: int| 0 <= j < i ==> !is_http_entry(#[trigger] parts[j]),
    ensures
        preferred_entry(parts) == parts[i],
    decreases i,
{
    if i > 0 {
        lemma_preferred_found(parts.drop_first(), i - 1);
    }
}

proof fn lemma_preferred_none(parts: Seq<Seq<char>>)
    requires
        parts.len() >= 1,
        forall|j: int| 0 <= j < parts.len() ==> !is_http_entry(#[trigger] parts[j]),
    ensures
        preferred_entry(parts) == parts[0],
    decreases parts.len(),
{
    if parts.len() > 1 {
        lemma_preferred_none(parts.drop_first());
    }
}

/// The index of the first entry that names the HTTP proxy, given each entry
/// trimmed and lower-cased: the first that starts with `http=`.
pub fn first_http_entry(lowered: &Vec<String>) -> (r: Option<usize>)
    ensures
        match r {
            Some(i) => i < lowered@.len() && has_prefix(lowered@[i as int]@, "http="@) && forall|j: int|
                0 <= j < i ==> !has_prefix(#[trigger] lowered@[j]@, "http="@),
            None => forall|j: int| 0 <= j < lowered@.len() ==> !has_prefix(#[trigger] lowered@[j]@, "http="@),
        },
{
    let prefix = chars_of("http=");
    let mut i: usize = 0;
    while i < lowered.len()
        invariant
            i <= lowered@.len(),
            prefix@ == "http="@,
            forall|j: int| 0 <= j < i ==> !has_prefix(#[trigger] lowered@[j]@, "http="@),
        decreases lowered@.len() - i,
    {
        if starts_with(&chars_of(lowered[i].as_str()), &prefix) {
            return Some(i);
        }
        i = i + 1;
    }
    None
}

/// Parses a proxy server option like `host:port` or `http=host:port;https=host:port`.
pub fn parse_proxy_server(server: &str) -> (r: (String, u16))
    ensures
        (r.0@, r.1) == proxy_server_host_port(server@),
{
    if server.is_empty() {
        return (String::new(), 0);
    }
    let cs = chars_of(server);
    match find_char(&cs, '=') {
        Some(eq) => {
            assert(server@[eq as int] == '=');
            let parts = split_exec(&cs, ';');
            let ghost sp = split_on(server@, ';');
            proof {
                crate::text::lemma_split_on_nonempty(server@, ';');
            }
            let mut lowered: Vec<String> = Vec::new();
            let mut i: usize = 0;
            while i < parts.len()
                invariant
                    parts@.len() == sp.len(),
                    forall|k: int| 0 <= k < parts@.len() ==> #[trigger] parts@[k]@ == sp[k],
                    i <= parts@.len(),
                    lowered@.len() == i,
                    forall|k: int| 0 <= k < i ==> #[trigger] lowered@[k]@ == lowercase(trim(sp[k])),
                decreases parts@.len() - i,
            {
                let t = trim_exec(&parts[i]);
                lowered.push(to_lowercase(string_of(&t).as_str()));
                i = i + 1;
            }
            let chosen: usize = match first_http_entry(&lowered) {
                Some(k) => {
                    proof {
                        assert forall|j: int| 0 <= j < k implies !is_http_entry(#[trigger] sp[j]) by {
                            assert(lowered@[j]@ == lowercase(trim(sp[j])));
                        }
                        assert(lowered@[k as int]@ == lowercase(trim(sp[k as int])));
                        lemma_preferred_found(sp, k as int);
                    }
                    k
                },
                None => {
                    proof {
                        assert forall|j: int| 0 <= j < sp.len() implies !is_http_entry(#[trigger] sp[j]) by {
                            assert(lowered@[j]@ == lowercase(trim(sp[j])));
                        }
                        lemma_preferred_none(sp);
                    }
                    0
                },
            };
            let pieces = split_exec(&parts[chosen], '=');
            let value = if pieces.len() > 1 {
                string_of(&pieces[1])
            } else {
                String::new()
            };
            assert(value@ == server_address(server@));
            parse_host_port(value.as_str())
        },
        None => {
            assert(server_address(server@) == server@);
            parse_host_port(server)
        },
    }
}

// ---------------------------------------------------------------------------
// What the options mean, and what is written
// ---------------------------------------------------------------------------

/// The per-connection options that WinINet reports.
#[derive(Debug, Clone, PartialEq, Eq)]
pub struct InternetSettings {
    /// `INTERNET_PER_CONN_FLAGS_UI` (or `INTERNET_PER_CONN_FLAGS`).
    pub flags: u32,
    /// `INTERNET_PER_CONN_PROXY_SERVER`.
    pub server: String,
    /// `INTERNET_PER_CONN_PROXY_BYPASS`.
    pub bypass: String,
    /// `INTERNET_PER_CONN_AUTOCONFIG_URL`.
    pub pac_url: String,
}

/// The content of `InternetSettings`.
pub struct InternetSettingsView {
    pub flags: u32,
    pub server: Seq<char>,
    pub bypass: Seq<char>,
    pub pac_url: Seq<char>,
}

impl View for InternetSettings {
    type V = InternetSettingsView;

    open spec fn view(&self) -> InternetSettingsView {
        InternetSettingsView {
            flags: self.flags,
            server: self.server@,
            bypass: self.bypass@,
            pac_url: self.pac_url@,
        }
    }
}

/// The per-connection options that are written to the LAN connection and to
/// every RAS (dial-up/VPN) connection: the flags always, and each text option
/// that is present.
#[derive(Debug, Clone, PartialEq, Eq)]
pub struct InternetOptions {
    /// `INTERNET_PER_CONN_FLAGS`.
    pub flags: u32,
    /// `INTERNET_PER_CONN_PROXY_SERVER`, when written.
    pub server: Option<String>,
    /// `INTERNET_PER_CONN_PROXY_BYPASS`, when written.
    pub bypass: Option<String>,
    /// `INTERNET_PER_CONN_AUTOCONFIG_URL`, when written.
    pub pac_url: Option<String>,
}

pub struct InternetOptionsView {
    pub flags: u32,
    pub server: Option<Seq<char>>,
    pub bypass: Option<Seq<char>>,
    pub pac_url: Option<Seq<char>>,
}

pub open spec fn opt_text(o: Option<String>) -> Option<Seq<char>> {
    match o {
        Some(t) => Some(t@),
        None => None,
    }
}

impl View for InternetOptions {
    type V = InternetOptionsView;

    open spec fn view(&self) -> InternetOptionsView {
        InternetOptionsView {
            flags: self.flags,
            server: opt_text(self.server),
            bypass: opt_text(self.bypass),
            pac_url: opt_text(self.pac_url),
        }
    }
}

/// The system proxy that the read options describe: enabled when the flags have
/// `PROXY_TYPE_PROXY`, with the host and port of the server option and its bypass list.
pub open spec fn proxy_from_settings(flags: u32, server: Seq<char>, bypass: Seq<char>) -> SysproxyView {
    let hp = proxy_server_host_port(server);
    SysproxyView { enable: flags & 2 != 0, host: hp.0, port: hp.1, bypass }
}

/// The `host:port` text of a proxy server option.
pub open spec fn server_text(host: Seq<char>, port: u16) -> Seq<char> {
    host + seq![':'] + dec_repr(port as nat)
}

/// Options that write only the flags.
pub open spec fn flags_only(flags: u32) -> InternetOptionsView {
    InternetOptionsView { flags, server: None, bypass: None, pac_url: None }
}

/// What is written for a system proxy: flags `PROXY_TYPE_PROXY | PROXY_TYPE_DIRECT`
/// with the server `host:port` and the bypass list when it is enabled, else flags
/// `PROXY_TYPE_DIRECT` alone.
pub open spec fn options_for_proxy(p: SysproxyView) -> InternetOptionsView {
    if p.enable {
        InternetOptionsView {
            flags: 3,
            server: Some(server_text(p.host, p.port)),
            bypass: Some(p.bypass),
            pac_url: None,
        }
    } else {
        flags_only(1)
    }
}

/// What is written for an auto-proxy: flags `PROXY_TYPE_AUTO_DETECT |
/// PROXY_TYPE_AUTO_PROXY_URL | PROXY_TYPE_DIRECT` with the auto-config URL when it
/// is enabled, else flags `PROXY_TYPE_DIRECT` alone.
pub open spec fn options_for_auto(a: AutoproxyView) -> InternetOptionsView {
    if a.enable {
        InternetOptionsView { flags: 13, server: None, bypass: None, pac_url: Some(a.url) }
    } else {
        flags_only(1)
    }
}

/// What is written for low-level flags: exactly those flags, the server `host:port`
/// and bypass list of `proxy` when there is one, and the auto-config URL when
/// there is one.
pub open spec fn options_for_flags(
    flags: u32,
    proxy: Option<SysproxyView>,
    pac_url: Option<Seq<char>>,
) -> InternetOptionsView {
    InternetOptionsView {
        flags,
        server: match proxy {
            Some(p) => Some(server_text(p.host, p.port)),
            None => None,
        },
        bypass: match proxy {
            Some(p) => Some(p.bypass),
            None => None,
        },
        pac_url,
    }
}

fn server_text_exec(host: &str, port: u16) -> (r: String)
    ensures
        r@ == server_text(host@, port),
{
    let mut server = String::new();
    push_chars(&mut server, &chars_of(host));
    crate::text::push_char(&mut server, ':');
    push_dec(&mut server, port as u32);
    assert(server@ =~= server_text(host@, port));
    server
}

/// The options that set exactly `flags`, with the server and bypass list of
/// `proxy` and the auto-config URL `pac_url` where given.
pub fn flag_options(flags: u32, proxy: Option<&Sysproxy>, pac_url: Option<&str>) -> (r: InternetOptions)
    ensures
        r@ == options_for_flags(
            flags,
            match proxy {
                Some(p) => Some(p@),
                None => None,
            },
            match pac_url {
                Some(u) => Some(u@),
                None => None,
            },
        ),
{
    let (server, bypass) = match proxy {
        Some(p) => (Some(server_text_exec(p.host.as_str(), p.port)), Some(p.bypass.clone())),
        None => (None, None),
    };
    let pac = match pac_url {
        Some(u) => Some(u.to_owned()),
        None => None,
    };
    InternetOptions { flags, server, bypass, pac_url: pac }
}

impl Sysproxy {
    /// The system proxy that the current WinINet options describe.
    pub fn from_internet_settings(s: &InternetSettings) -> (r: Sysproxy)
        ensures
            r@ == proxy_from_settings(s.flags, s.server@, s.bypass@),
    {
        let (host, port) = parse_proxy_server(s.server.as_str());
        Sysproxy { enable: (s.flags & PROXY_TYPE_PROXY) != 0, host, port, bypass: s.bypass.clone() }
    }

    /// The WinINet options that set this system proxy.
    pub fn internet_options(&self) -> (r: InternetOptions)
        ensures
            r@ == options_for_proxy(self@),
    {
        if self.enable {
            assert(2u32 | 1u32 == 3u32) by (bit_vector);
            InternetOptions {
                flags: PROXY_TYPE_PROXY | PROXY_TYPE_DIRECT,
                server: Some(server_text_exec(self.host.as_str(), self.port)),
                bypass: Some(self.bypass.clone()),
                pac_url: None,
            }
        } else {
            InternetOptions { flags: PROXY_TYPE_DIRECT, server: None, bypass: None, pac_url: None }
        }
    }
}

impl Autoproxy {
    /// The auto-proxy that the current WinINet options describe: enabled when the
    /// flags have `PROXY_TYPE_AUTO_PROXY_URL`, with the auto-config URL.
    pub fn from_internet_settings(s: &InternetSettings) -> (r: Autoproxy)
        ensures
            r@ == (AutoproxyView { enable: s.flags & 4 != 0, url: s.pac_url@ }),
    {
        Autoproxy { enable: (s.flags & PROXY_TYPE_AUTO_PROXY_URL) != 0, url: s.pac_url.clone() }
    }

    /// The WinINet options that set this auto-proxy.
    pub fn internet_options(&self) -> (r: InternetOptions)
        ensures
            r@ == options_for_auto(self@),
    {
        if self.enable {
            assert(8u32 | 4u32 | 1u32 == 13u32) by (bit_vector);
            InternetOptions {
                flags: PROXY_TYPE_AUTO_DETECT | PROXY_TYPE_AUTO_PROXY_URL | PROXY_TYPE_DIRECT,
                server: None,
                bypass: None,
                pac_url: Some(self.url.clone()),
            }
        } else {
            InternetOptions { flags: PROXY_TYPE_DIRECT, server: None, bypass: None, pac_url: None }
        }
    }
}

// ---------------------------------------------------------------------------
// Reading the options: which flags option to ask for
// ---------------------------------------------------------------------------

/// `INTERNET_PER_CONN_FLAGS`: the flags option of every Windows version.
pub const INTERNET_PER_CONN_FLAGS: u32 = 1;

/// `INTERNET_PER_CONN_FLAGS_UI`: the flags option as Windows 7 and later show it.
pub const INTERNET_PER_CONN_FLAGS_UI: u32 = 10;

/// The flags option to query next, given the one queried last (none before the
/// first query) and whether that query succeeded: `INTERNET_PER_CONN_FLAGS_UI`
/// first; after it failed, `INTERNET_PER_CONN_FLAGS`; after a success, or after
/// both failed, no further query.
pub open spec fn flags_query_next(previous: Option<u32>, succeeded: bool) -> Option<u32> {
    match previous {
        None => Some(10),
        Some(f) => if !succeeded && f == 10 {
            Some(1)
        } else {
            None
        },
    }
}

/// Chooses the flags option to query next (see `flags_query_next`).
pub fn next_flags_query(previous: Option<u32>, succeeded: bool) -> (r: Option<u32>)
    ensures
        r == flags_query_next(previous, succeeded),
{
    match previous {
        None => Some(INTERNET_PER_CONN_FLAGS_UI),
        Some(f) => if !succeeded && f == INTERNET_PER_CONN_FLAGS_UI {
            Some(INTERNET_PER_CONN_FLAGS)
        } else {
            None
        },
    }
}

// ---------------------------------------------------------------------------
// Writing the options: the LAN connection, then every RAS connection
// ---------------------------------------------------------------------------

/// A WinINet call that writing the options asks for.
#[derive(Debug, Clone, PartialEq, Eq)]
pub enum WinInetAction {
    /// Write the options to a connection: `None` for the LAN connection, else the
    /// null-terminated name of a RAS connection.
    SetOptions { connection: Option<Vec<u16>> },
    /// Tell the system that the proxy settings changed.
    NotifyChanged,
    /// Make the system reload the settings.
    Refresh,
    /// List the RAS (dial-up/VPN) connections.
    ListRasEntries,
}

pub enum WinInetActionView {
    SetOptions { connection: Option<Seq<u16>> },
    NotifyChanged,
    Refresh,
    ListRasEntries,
}

pub open spec fn opt_units(o: Option<Vec<u16>>) -> Option<Seq<u16>> {
    match o {
        Some(v) => Some(v@),
        None => None,
    }
}

impl View for WinInetAction {
    type V = WinInetActionView;

    open spec fn view(&self) -> WinInetActionView {
        match self {
            WinInetAction::SetOptions { connection } => WinInetActionView::SetOptions {
                connection: opt_units(*connection),
            },
            WinInetAction::NotifyChanged => WinInetActionView::NotifyChanged,
            WinInetAction::Refresh => WinInetActionView::Refresh,
            WinInetAction::ListRasEntries => WinInetActionView::ListRasEntries,
        }
    }
}

/// What a WinINet call came to.
#[derive(Debug, Clone, PartialEq, Eq)]
pub enum WinInetEvent {
    /// The call succeeded.
    Succeeded,
    /// The call failed, with the error to report.
    Failed(Error),
    /// The RAS connections were listed: their null-terminated names, in order.
    RasEntries(Vec<Vec<u16>>),
    /// Listing the RAS connections failed.
    RasListFailed,
}

pub enum WinInetEventView {
    Succeeded,
    Failed(ErrorView),
    RasEntries(Seq<Seq<u16>>),
    RasListFailed,
}

impl View for WinInetEvent {
    type V = WinInetEventView;

    open spec fn view(&self) -> WinInetEventView {
        match self {
            WinInetEvent::Succeeded => WinInetEventView::Succeeded,
            WinInetEvent::Failed(e) => WinInetEventView::Failed(e@),
            WinInetEvent::RasEntries(v) => WinInetEventView::RasEntries(v.deep_view()),
            WinInetEvent::RasListFailed => WinInetEventView::RasListFailed,
        }
    }
}

/// The call on one connection that is waiting for its outcome.
#[derive(Debug, Clone, Copy, PartialEq, Eq)]
pub enum ConnectionCall {
    SetOptions,
    Notify,
    Refresh,
}

/// Where writing the options stands.
#[derive(Debug)]
pub enum OptionsWrite {
    /// A call on `connection` (`None` for the LAN) is waiting for its outcome;
    /// `rest` holds the RAS connections still to write (`None` while on the LAN,
    /// before they were listed).
    Connection { connection: Option<Vec<u16>>, call: ConnectionCall, rest: Option<Vec<Vec<u16>>> },
    /// The RAS connections are being listed.
    Listing,
}

pub enum OptionsWriteView {
    Connection { connection: Option<Seq<u16>>, call: ConnectionCall, rest: Option<Seq<Seq<u16>>> },
    Listing,
}

pub open spec fn opt_names(o: Option<Vec<Vec<u16>>>) -> Option<Seq<Seq<u16>>> {
    match o {
        Some(v) => Some(v.deep_view()),
        None => None,
    }
}

impl View for OptionsWrite {
    type V = OptionsWriteView;

    open spec fn view(&self) -> OptionsWriteView {
        match self {
            OptionsWrite::Connection { connection, call, rest } => OptionsWriteView::Connection {
                connection: opt_units(*connection),
                call: *call,
                rest: opt_names(*rest),
            },
            OptionsWrite::Listing => OptionsWriteView::Listing,
        }
    }
}

/// A step of writing the options: the next call to make, or the end.
pub enum WinInetStep {
    Run(OptionsWrite, WinInetAction),
    Done(Result<()>),
}

pub enum WinInetStepView {
    Run(OptionsWriteView, WinInetActionView),
    Done(std::result::Result<(), ErrorView>),
}

impl View for WinInetStep {
    type V = WinInetStepView;

    open spec fn view(&self) -> WinInetStepView {
        match self {
            WinInetStep::Run(s, a) => WinInetStepView::Run(s@, a@),
            WinInetStep::Done(r) => WinInetStepView::Done(
                match r {
                    Ok(()) => Ok(()),
                    Err(e) => Err(e@),
                },
            ),
        }
    }
}

/// The error for an outcome that does not answer the call that was made.
pub open spec fn unexpected_event() -> ErrorView {
    ErrorView::SystemCall("unexpected answer to a WinINet call"@)
}

/// Writing the next RAS connection of `rest`, or the end when none is left.
pub open spec fn next_connection(rest: Seq<Seq<u16>>) -> WinInetStepView {
    if rest.len() == 0 {
        WinInetStepView::Done(Ok(()))
    } else {
        WinInetStepView::Run(
            OptionsWriteView::Connection { connection: Some(rest[0]), call: ConnectionCall::SetOptions, rest: Some(rest.drop_first()) },
            WinInetActionView::SetOptions { connection: Some(rest[0]) },
        )
    }
}

/// The next step of writing the options. On each connection the options are
/// set, then the change is notified, then the settings are refreshed; the first
/// failed call ends the write with its error. After the LAN connection the RAS
/// connections are listed and written in order; when listing them fails, the
/// write ends successfully (the LAN connection is written).
pub open spec fn write_next(s: OptionsWriteView, e: WinInetEventView) -> WinInetStepView {
    match s {
        OptionsWriteView::Listing => match e {
            WinInetEventView::RasEntries(names) => next_connection(names),
            WinInetEventView::RasListFailed => WinInetStepView::Done(Ok(())),
            WinInetEventView::Failed(err) => WinInetStepView::Done(Err(err)),
            WinInetEventView::Succeeded => WinInetStepView::Done(Err(unexpected_event())),
        },
        OptionsWriteView::Connection { connection, call, rest } => match e {
            WinInetEventView::Failed(err) => WinInetStepView::Done(Err(err)),
            WinInetEventView::Succeeded => match call {
                ConnectionCall::SetOptions => WinInetStepView::Run(
                    OptionsWriteView::Connection { connection, call: ConnectionCall::Notify, rest },
                    WinInetActionView::NotifyChanged,
                ),
                ConnectionCall::Notify => WinInetStepView::Run(
                    OptionsWriteView::Connection { connection, call: ConnectionCall::Refresh, rest },
                    WinInetActionView::Refresh,
                ),
                ConnectionCall::Refresh => match rest {
                    None => WinInetStepView::Run(OptionsWriteView::Listing, WinInetActionView::ListRasEntries),
                    Some(names) => next_connection(names),
                },
            },
            _ => WinInetStepView::Done(Err(unexpected_event())),
        },
    }
}

fn next_connection_exec(rest: Vec<Vec<u16>>) -> (r: WinInetStep)
    ensures
        r@ == next_connection(rest.deep_view()),
{
    if rest.len() == 0 {
        WinInetStep::Done(Ok(()))
    } else {
        let mut rest = rest;
        let ghost before = rest.deep_view();
        let first = rest.remove(0);
        assert(rest.deep_view() =~= before.drop_first());
        assert(first@ == before[0]);
        let name = first.clone();
        assert(name@ =~= first@);
        WinInetStep::Run(
            OptionsWrite::Connection { connection: Some(first), call: ConnectionCall::SetOptions, rest: Some(rest) },
            WinInetAction::SetOptions { connection: Some(name) },
        )
    }
}

impl OptionsWrite {
    /// The first call of writing the options: set them on the LAN connection.
    pub fn start() -> (r: (OptionsWrite, WinInetAction))
        ensures
            r.0@ == (OptionsWriteView::Connection { connection: None, call: ConnectionCall::SetOptions, rest: None }),
            r.1@ == (WinInetActionView::SetOptions { connection: None }),
    {
        (
            OptionsWrite::Connection { connection: None, call: ConnectionCall::SetOptions, rest: None },
            WinInetAction::SetOptions { connection: None },
        )
    }

    /// Continues with the outcome of the call that was asked for.
    pub fn resume(self, e: WinInetEvent) -> (r: WinInetStep)
        ensures
            r@ == write_next(self@, e@),
    {
        match self {
            OptionsWrite::Listing => match e {
                WinInetEvent::RasEntries(names) => next_connection_exec(names),
                WinInetEvent::RasListFailed => WinInetStep::Done(Ok(())),
                WinInetEvent::Failed(err) => WinInetStep::Done(Err(err)),
                WinInetEvent::Succeeded => WinInetStep::Done(Err(unexpected_event_exec())),
            },
            OptionsWrite::Connection { connection, call, rest } => match e {
                WinInetEvent::Failed(err) => WinInetStep::Done(Err(err)),
                WinInetEvent::Succeeded => match call {
                    ConnectionCall::SetOptions => WinInetStep::Run(
                        OptionsWrite::Connection { connection, call: ConnectionCall::Notify, rest },
                        WinInetAction::NotifyChanged,
                    ),
                    ConnectionCall::Notify => WinInetStep::Run(
                        OptionsWrite::Connection { connection, call: ConnectionCall::Refresh, rest },
                        WinInetAction::Refresh,
                    ),
                    ConnectionCall::Refresh => match rest {
                        None => WinInetStep::Run(OptionsWrite::Listing, WinInetAction::ListRasEntries),
                        Some(names) => next_connection_exec(names),
                    },
                },
                _ => WinInetStep::Done(Err(unexpected_event_exec())),
            },
        }
    }
}

fn unexpected_event_exec() -> (r: Error)
    ensures
        r@ == unexpected_event(),
{
    Error::SystemCall("unexpected answer to a WinINet call".to_owned())
}

// ---------------------------------------------------------------------------
// Laws
// ---------------------------------------------------------------------------

/// What WinINet holds after options are written on top of `before`: the flags,
/// and each text option that is written; the others keep their values.
pub open spec fn settings_after(o: InternetOptionsView, before: InternetSettingsView) -> InternetSettingsView {
    InternetSettingsView {
        flags: o.flags,
        server: match o.server {
            Some(t) => t,
            None => before.server,
        },
        bypass: match o.bypass {
            Some(t) => t,
            None => before.bypass,
        },
        pac_url: match o.pac_url {
            Some(t) => t,
            None => before.pac_url,
        },
    }
}

/// The auto-proxy that read options describe.
pub open spec fn auto_from_settings(s: InternetSettingsView) -> AutoproxyView {
    AutoproxyView { enable: s.flags & 4 != 0, url: s.pac_url }
}

proof fn lemma_flag_bits()
    ensures
        3u32 & 2 != 0,
        1u32 & 2 == 0,
        13u32 & 2 == 0,
        3u32 & 4 == 0,
        1u32 & 4 == 0,
        13u32 & 4 != 0,
{
    assert(3u32 & 2 != 0) by (bit_vector);
    assert(1u32 & 2 == 0) by (bit_vector);
    assert(13u32 & 2 == 0) by (bit_vector);
    assert(3u32 & 4 == 0) by (bit_vector);
    assert(1u32 & 4 == 0) by (bit_vector);
    assert(13u32 & 4 != 0) by (bit_vector);
}

/// The host and port that a server option `host:port` reads back as: the host
/// that URL parsing of `http://host:port` yields, with the URL's port or, when
/// the URL reports none (as for the http default, 80), the written port; when
/// URL parsing yields no host, the written host and port.
pub open spec fn server_read_back(host: Seq<char>, port: u16) -> (Seq<char>, u16) {
    let st = server_text(host, port);
    match url_host_port(http_url_text(st)) {
        Some((Some(h), pt)) => if h.len() > 0 {
            (
                h,
                match pt {
                    Some(x) => x,
                    None => port,
                },
            )
        } else {
            (host, port)
        },
        _ => (host, port),
    }
}

/// The server option `host:port` of a host without `=` reads back as
/// `server_read_back(host, port)`.
pub proof fn law_server_text_reads_back(host: Seq<char>, port: u16)
    requires
        forall|i: int| 0 <= i < host.len() ==> host[i] != '=',
    ensures
        proxy_server_host_port(server_text(host, port)) == server_read_back(host, port),
{
    let server = server_text(host, port);
    let d = dec_repr(port as nat);
    crate::text::lemma_dec_repr(port as nat);
    assert forall|j: int| 0 <= j < d.len() implies d[j] != ':' && d[j] != '=' by {
        assert(crate::text::is_digit(d[j]));
    }
    assert(!(exists|i: int| 0 <= i < server.len() && server[i] == '=')) by {
        assert forall|i: int| 0 <= i < server.len() implies server[i] != '=' by {
            if i < host.len() {
                assert(server[i] == host[i]);
            } else if i > host.len() {
                assert(server[i] == d[i - host.len() - 1]);
            }
        }
    }
    assert(server_address(server) == server);
    crate::text::lemma_rfind_char_join(host, ':', d);
    crate::text::lemma_parse_dec_repr(port as nat, 65535);
}

/// Writing a system proxy and reading it back: it reads as enabled or disabled as
/// written, and the auto-proxy reads as disabled (WinINet keeps one set of flags).
/// An enabled proxy reads back with its bypass list and, for a host without `=`,
/// with the host and port of `server_read_back`: the written ones unless URL
/// parsing of `http://host:port` gives a host of its own.
pub proof fn law_proxy_reads_back(p: SysproxyView, before: InternetSettingsView)
    ensures
        ({
            let s = settings_after(options_for_proxy(p), before);
            let r = proxy_from_settings(s.flags, s.server, s.bypass);
            &&& r.enable == p.enable
            &&& !auto_from_settings(s).enable
            &&& p.enable ==> r.bypass == p.bypass
            &&& p.enable && (forall|i: int| 0 <= i < p.host.len() ==> p.host[i] != '=') ==> (r.host, r.port)
                == server_read_back(p.host, p.port)
        }),
{
    lemma_flag_bits();
    if p.enable && (forall|i: int| 0 <= i < p.host.len() ==> p.host[i] != '=') {
        law_server_text_reads_back(p.host, p.port);
    }
}

/// Writing an auto-proxy and reading it back: it reads as enabled or disabled as
/// written, an enabled one with its URL, and the system proxy reads as disabled.
pub proof fn law_auto_proxy_reads_back(a: AutoproxyView, before: InternetSettingsView)
    ensures
        ({
            let s = settings_after(options_for_auto(a), before);
            let r = auto_from_settings(s);
            &&& r.enable == a.enable
            &&& a.enable ==> r.url == a.url
            &&& !proxy_from_settings(s.flags, s.server, s.bypass).enable
        }),
{
    lemma_flag_bits();
}

/// Writing options for low-level flags and reading them back: the stored flags
/// are exactly the requested ones, the system proxy reads as enabled exactly when
/// `PROXY_TYPE_PROXY` is among them (with the written bypass list), and the
/// auto-proxy reads as enabled exactly when `PROXY_TYPE_AUTO_PROXY_URL` is (with
/// the written URL).
pub proof fn law_flags_read_back(
    flags: u32,
    proxy: Option<SysproxyView>,
    pac_url: Option<Seq<char>>,
    before: InternetSettingsView,
)
    ensures
        ({
            let s = settings_after(options_for_flags(flags, proxy, pac_url), before);
            &&& s.flags == flags
            &&& proxy_from_settings(s.flags, s.server, s.bypass).enable == (flags & 2 != 0)
            &&& auto_from_settings(s).enable == (flags & 4 != 0)
            &&& proxy matches Some(p) ==> proxy_from_settings(s.flags, s.server, s.bypass).bypass == p.bypass
            &&& proxy matches Some(p) ==> ((forall|i: int| 0 <= i < p.host.len() ==> p.host[i] != '=') ==> {
                let r = proxy_from_settings(s.flags, s.server, s.bypass);
                (r.host, r.port) == server_read_back(p.host, p.port)
            })
            &&& pac_url matches Some(u) ==> auto_from_settings(s).url == u
        }),
{
    if let Some(p) = proxy {
        if forall|i: int| 0 <= i < p.host.len() ==> p.host[i] != '=' {
            law_server_text_reads_back(p.host, p.port);
        }
    }
}

} // verus!

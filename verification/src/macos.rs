//! macOS: proxy settings through the `networksetup` command.
//!
//! This file holds what the library reads from `networksetup` and `route`
//! output and the argument lists it passes to `networksetup`.
use crate::text::{
    chars_eq, chars_of, dec_repr, find, is_whitespace, find_char, find_exec, has_prefix, lines, lines_exec, occurs_at,
    parse_unsigned, parse_unsigned_exec, push_chars, rfind, rfind_exec, slice_range, split_on, starts_with,
    string_of, strip_cr, trim, trim_exec,
};
use crate::{Autoproxy, AutoproxyView, Sysproxy, SysproxyView};
use vstd::prelude::*;

verus! {

// ---------------------------------------------------------------------------
// Service order: `networksetup -listnetworkserviceorder`
// ---------------------------------------------------------------------------

/// `s` without trailing occurrences of `c` (`str::trim_end_matches` with a character).
pub open spec fn trim_end_char(s: Seq<char>, c: char) -> Seq<char>
    decreases s.len(),
{
    if s.len() > 0 && s.last() == c {
        trim_end_char(s.drop_last(), c)
    } else {
        s
    }
}

/// The device named in the detail of a `(Hardware Port: …, Device: dev)` line: the
/// text after the last `Device:`, without trailing `)` and surrounding whitespace.
pub open spec fn device_of(detail: Seq<char>) -> Seq<char> {
    let tail = match rfind(detail, "Device:"@) {
        Some(k) => detail.skip(k + "Device:"@.len()),
        None => detail,
    };
    trim(trim_end_char(tail, ')'))
}

/// The service named by a header line `(N) Name`: everything after the first `)`, trimmed.
pub open spec fn header_service(line: Seq<char>) -> Option<Seq<char>> {
    match find(line, seq![')']) {
        Some(c) => Some(trim(line.skip(c + 1))),
        None => None,
    }
}

/// Scans service-order lines: a header line names a pending service, and the
/// hardware-port line that follows it maps that service to its device. A
/// hardware-port line clears the pending service; other lines leave it.
pub open spec fn scan_services(ls: Seq<Seq<char>>, device: Seq<char>, pending: Option<Seq<char>>) -> Option<
    Seq<char>,
>
    decreases ls.len(),
{
    if ls.len() == 0 {
        None
    } else {
        let line = trim(ls[0]);
        if has_prefix(line, "(Hardware Port:"@) {
            let dev = device_of(line.skip("(Hardware Port:"@.len() as int));
            if dev.len() > 0 && dev == device && pending is Some {
                pending
            } else {
                scan_services(ls.drop_first(), device, None)
            }
        } else if line.len() > 0 && line[0] == '(' {
            scan_services(ls.drop_first(), device, header_service(line))
        } else {
            scan_services(ls.drop_first(), device, pending)
        }
    }
}

/// The service that `networksetup -listnetworkserviceorder` output maps `device` to.
pub open spec fn service_for(serviceorder: Seq<char>, device: Seq<char>) -> Option<Seq<char>> {
    scan_services(lines(serviceorder), device, None)
}

pub open spec fn opt_chars(o: Option<Vec<char>>) -> Option<Seq<char>> {
    match o {
        Some(v) => Some(v@),
        None => None,
    }
}

pub open spec fn opt_string(o: Option<String>) -> Option<Seq<char>> {
    match o {
        Some(v) => Some(v@),
        None => None,
    }
}

fn trim_end_char_exec(s: &[char], c: char) -> (r: Vec<char>)
    ensures
        r@ == trim_end_char(s@, c),
{
    let mut hi: usize = s.len();
    assert(s@.take(hi as int) =~= s@);
    while hi > 0 && s[hi - 1] == c
        invariant
            hi <= s.len(),
            trim_end_char(s@, c) == trim_end_char(s@.take(hi as int), c),
        decreases hi,
    {
        assert(s@.take(hi as int).drop_last() =~= s@.take(hi - 1));
        hi = hi - 1;
    }
    let r = slice_range(s, 0, hi);
    assert(r@ =~= s@.take(hi as int));
    r
}

fn device_of_exec(detail: &[char]) -> (r: Vec<char>)
    ensures
        r@ == device_of(detail@),
{
    let key = chars_of("Device:");
    let tail = match rfind_exec(detail, &key) {
        Some(k) => {
            assert(k + key.len() <= detail.len());
            slice_range(detail, k + key.len(), detail.len())
        },
        None => slice_range(detail, 0, detail.len()),
    };
    assert(tail@ =~= match rfind(detail@, "Device:"@) {
        Some(k) => detail@.skip(k + "Device:"@.len()),
        None => detail@,
    });
    trim_exec(&trim_end_char_exec(&tail, ')'))
}

/// Maps a BSD device (`en0`) to its network service name by parsing
/// `networksetup -listnetworkserviceorder`. The format is paired lines:
///
/// ```text
/// (3) Wi-Fi
/// (Hardware Port: Wi-Fi, Device: en0)
/// ```
///
/// A disabled service uses `(*)` in place of the index; the device cell can be
/// empty (e.g. Tailscale), which never matches a device.
pub fn service_for_device(serviceorder: &str, device: &str) -> (r: Option<String>)
    ensures
        opt_string(r) == service_for(serviceorder@, device@),
{
    let ls = lines_exec(&chars_of(serviceorder));
    let dev_chars = chars_of(device);
    let hw = chars_of("(Hardware Port:");
    let mut pending: Option<Vec<char>> = None;
    let mut i: usize = 0;
    assert(lines(serviceorder@).skip(0) =~= lines(serviceorder@));
    while i < ls.len()
        invariant
            i <= ls@.len(),
            ls@.len() == lines(serviceorder@).len(),
            forall|k: int| 0 <= k < ls@.len() ==> #[trigger] ls@[k]@ == lines(serviceorder@)[k],
            dev_chars@ == device@,
            hw@ == "(Hardware Port:"@,
            service_for(serviceorder@, device@) == scan_services(
                lines(serviceorder@).skip(i as int),
                device@,
                opt_chars(pending),
            ),
        decreases ls@.len() - i,
    {
        let ghost rest = lines(serviceorder@).skip(i as int);
        assert(rest[0] == ls@[i as int]@);
        assert(rest.drop_first() =~= lines(serviceorder@).skip(i + 1));
        let line = trim_exec(&ls[i]);
        if starts_with(&line, &hw) {
            let detail = slice_range(&line, hw.len(), line.len());
            let dev = device_of_exec(&detail);
            assert(detail@ =~= line@.skip("(Hardware Port:"@.len() as int));
            if dev.len() > 0 && chars_eq(&dev, &dev_chars) {
                match pending {
                    Some(p) => {
                        return Some(string_of(&p));
                    },
                    None => {},
                }
            }
            pending = None;
        } else if line.len() > 0 && line[0] == '(' {
            pending = match find_char(&line, ')') {
                Some(c) => Some(trim_exec(&slice_range(&line, c + 1, line.len()))),
                None => None,
            };
            proof {
                if let Some(c) = find(line@, seq![')']) {
                    assert(line@.subrange(c + 1, line@.len() as int) =~= line@.skip(c + 1));
                }
            }
        }
        i = i + 1;
    }
    None
}

// ---------------------------------------------------------------------------
// `Key: value` output
// ---------------------------------------------------------------------------

/// The text of `s` up to its first `'\n'` (`s.split('\n').next()`).
pub open spec fn first_line_of(s: Seq<char>) -> Seq<char> {
    match find(s, seq!['\n']) {
        Some(k) => s.take(k),
        None => s,
    }
}

/// The trimmed value that follows the first occurrence of `key`, up to the end of
/// that line; empty when `key` does not occur.
pub open spec fn value_after(text: Seq<char>, key: Seq<char>) -> Seq<char> {
    match find(text, key) {
        Some(i) => trim(first_line_of(text.skip(i + key.len()))),
        None => Seq::empty(),
    }
}

/// Returns the trimmed value following `key` on its line (empty if absent).
pub fn value_after_exec(text: &[char], key: &str) -> (r: Vec<char>)
    ensures
        r@ == value_after(text@, key@),
{
    let k = chars_of(key);
    match find_exec(text, &k) {
        Some(i) => {
            assert(occurs_at(text@, k@, i as int));
            let klen = k.len();
            let tlen = text.len();
            assert(i + klen <= tlen);
            let rest = slice_range(text, i + klen, text.len());
            assert(rest@ =~= text@.skip(i + key@.len()));
            let first = match find_char(&rest, '\n') {
                Some(j) => slice_range(&rest, 0, j),
                None => rest,
            };
            assert(first@ =~= first_line_of(text@.skip(i + key@.len())));
            trim_exec(&first)
        },
        None => Vec::new(),
    }
}

/// `s` without one pair of enclosing double quotes, if it has them.
pub open spec fn strip_quotes(s: Seq<char>) -> Seq<char> {
    if s.len() >= 2 && s[0] == '"' && s.last() == '"' {
        s.subrange(1, s.len() - 1)
    } else {
        s
    }
}

fn strip_quotes_exec(s: &[char]) -> (r: Vec<char>)
    ensures
        r@ == strip_quotes(s@),
{
    if s.len() >= 2 && s[0] == '"' && s[s.len() - 1] == '"' {
        slice_range(s, 1, s.len() - 1)
    } else {
        let r = slice_range(s, 0, s.len());
        assert(r@ =~= s@);
        r
    }
}

/// The port text as a `u16`, or 0 when it does not parse.
pub open spec fn port_or_zero(s: Seq<char>) -> u16 {
    match parse_unsigned(s, 65535) {
        Some(p) => p as u16,
        None => 0,
    }
}

/// The proxy that `networksetup -get<kind>proxy` output describes: enabled when
/// `Enabled:` says `Yes`, the `Server:` host and the `Port:` number; no bypass list.
pub open spec fn proxy_from(out: Seq<char>) -> SysproxyView {
    SysproxyView {
        enable: value_after(out, "Enabled:"@) == "Yes"@,
        host: value_after(out, "Server:"@),
        port: port_or_zero(value_after(out, "Port:"@)),
        bypass: Seq::empty(),
    }
}

/// Reads a proxy from `networksetup -get<kind>proxy` output.
pub fn proxy_from_output(out: &str) -> (r: Sysproxy)
    ensures
        r@ == proxy_from(out@),
{
    let text = chars_of(out);
    let enabled = value_after_exec(&text, "Enabled:");
    let yes = chars_of("Yes");
    let host = value_after_exec(&text, "Server:");
    let port_text = value_after_exec(&text, "Port:");
    let port: u16 = match parse_unsigned_exec(&port_text, 65535) {
        Some(p) => p as u16,
        None => 0,
    };
    Sysproxy { enable: chars_eq(&enabled, &yes), host: string_of(&host), port, bypass: String::new() }
}

/// The auto-proxy that `networksetup -getautoproxyurl` output describes: enabled
/// when `Enabled:` says `Yes`; the `URL:` value without enclosing quotes, where
/// `(null)` (no URL configured) becomes the empty URL.
pub open spec fn auto_proxy_from(out: Seq<char>) -> AutoproxyView {
    let u = strip_quotes(value_after(out, "URL:"@));
    AutoproxyView {
        enable: value_after(out, "Enabled:"@) == "Yes"@,
        url: if u == "(null)"@ {
            Seq::empty()
        } else {
            u
        },
    }
}

/// Reads the auto-proxy from `networksetup -getautoproxyurl` output.
pub fn auto_proxy_from_output(out: &str) -> (r: Autoproxy)
    ensures
        r@ == auto_proxy_from(out@),
{
    let text = chars_of(out);
    let enabled = value_after_exec(&text, "Enabled:");
    let yes = chars_of("Yes");
    let u = strip_quotes_exec(&value_after_exec(&text, "URL:"));
    let null = chars_of("(null)");
    let url = if chars_eq(&u, &null) {
        String::new()
    } else {
        string_of(&u)
    };
    Autoproxy { enable: chars_eq(&enabled, &yes), url }
}

// ---------------------------------------------------------------------------
// Line lists
// ---------------------------------------------------------------------------

/// The trimmed lines that are not empty, in order.
pub open spec fn nonempty_trimmed(ls: Seq<Seq<char>>) -> Seq<Seq<char>>
    decreases ls.len(),
{
    if ls.len() == 0 {
        Seq::empty()
    } else {
        let r = nonempty_trimmed(ls.drop_last());
        let t = trim(ls.last());
        if t.len() > 0 {
            r.push(t)
        } else {
            r
        }
    }
}

/// The items joined by `sep`.
pub open spec fn join(items: Seq<Seq<char>>, sep: Seq<char>) -> Seq<char>
    decreases items.len(),
{
    if items.len() == 0 {
        Seq::empty()
    } else if items.len() == 1 {
        items[0]
    } else {
        join(items.drop_last(), sep) + sep + items.last()
    }
}

/// The bypass list that `networksetup -getproxybypassdomains` output holds: its
/// non-empty trimmed lines joined by `,`.
pub open spec fn bypass_from(out: Seq<char>) -> Seq<char> {
    join(nonempty_trimmed(lines(out)), ","@)
}

/// Reads the bypass list from `networksetup -getproxybypassdomains` output.
pub fn bypass_from_output(out: &str) -> (r: String)
    ensures
        r@ == bypass_from(out@),
{
    let ls = lines_exec(&chars_of(out));
    let ghost l = lines(out@);
    let mut r = String::new();
    let ghost mut items: Seq<Seq<char>> = Seq::empty();
    let mut any = false;
    let mut i: usize = 0;
    while i < ls.len()
        invariant
            any == (items.len() > 0),
            i <= ls@.len(),
            ls@.len() == l.len(),
            forall|k: int| 0 <= k < ls@.len() ==> #[trigger] ls@[k]@ == l[k],
            items == nonempty_trimmed(l.take(i as int)),
            r@ == join(items, ","@),
        decreases ls@.len() - i,
    {
        assert(l.take(i + 1).drop_last() =~= l.take(i as int));
        let t = trim_exec(&ls[i]);
        if t.len() > 0 {
            if any {
                push_chars(&mut r, &chars_of(","));
            }
            push_chars(&mut r, &t);
            any = true;
            proof {
                let old_items = items;
                items = items.push(t@);
                assert(items.drop_last() =~= old_items);
                assert(r@ =~= join(items, ","@));
            }
        }
        i = i + 1;
    }
    assert(l.take(ls@.len() as int) =~= l);
    r
}

/// The enabled services among `lines[1..]`: trimmed, non-empty, not starting with `*`.
pub open spec fn enabled_services(ls: Seq<Seq<char>>) -> Seq<Seq<char>>
    decreases ls.len(),
{
    if ls.len() == 0 {
        Seq::empty()
    } else {
        let r = enabled_services(ls.drop_last());
        let t = trim(ls.last());
        if t.len() > 0 && t[0] != '*' {
            r.push(t)
        } else {
            r
        }
    }
}

/// The enabled network services that `networksetup -listallnetworkservices`
/// output lists, skipping its first (explanatory) line.
pub open spec fn services_from(out: Seq<char>) -> Seq<Seq<char>> {
    let l = lines(out);
    if l.len() == 0 {
        Seq::empty()
    } else {
        enabled_services(l.skip(1))
    }
}

/// Lists the enabled network services from `networksetup -listallnetworkservices` output.
pub fn services_from_output(out: &str) -> (r: Vec<String>)
    ensures
        r.deep_view() == services_from(out@),
{
    let ls = lines_exec(&chars_of(out));
    let ghost l = lines(out@);
    let ghost tail = if l.len() == 0 {
        Seq::<Seq<char>>::empty()
    } else {
        l.skip(1)
    };
    let mut r: Vec<String> = Vec::new();
    if ls.len() == 0 {
        assert(r.deep_view() =~= services_from(out@));
        return r;
    }
    let mut i: usize = 1;
    while i < ls.len()
        invariant
            1 <= i <= ls@.len(),
            ls@.len() == l.len(),
            l.len() > 0,
            tail == l.skip(1),
            forall|k: int| 0 <= k < ls@.len() ==> #[trigger] ls@[k]@ == l[k],
            r.deep_view() == enabled_services(tail.take(i - 1)),
        decreases ls@.len() - i,
    {
        assert(tail.take(i as int).drop_last() =~= tail.take(i - 1));
        assert(tail[i - 1] == l[i as int]);
        let t = trim_exec(&ls[i]);
        if t.len() > 0 && t[0] != '*' {
            let ghost before = r.deep_view();
            r.push(string_of(&t));
            assert(r.deep_view() =~= before.push(t@));
        }
        i = i + 1;
    }
    assert(tail.take(ls@.len() - 1) =~= tail);
    r
}

/// The first service that `networksetup -listallnetworkservices` output lists:
/// its second line, trimmed, when that is not empty.
pub open spec fn first_service_from(out: Seq<char>) -> Option<Seq<char>> {
    let l = lines(out);
    if l.len() > 1 && trim(l[1]).len() > 0 {
        Some(trim(l[1]))
    } else {
        None
    }
}

/// Reads the first listed service from `networksetup -listallnetworkservices` output.
pub fn first_service_from_output(out: &str) -> (r: Option<String>)
    ensures
        opt_string(r) == first_service_from(out@),
{
    let ls = lines_exec(&chars_of(out));
    if ls.len() > 1 {
        let t = trim_exec(&ls[1]);
        if t.len() > 0 {
            return Some(string_of(&t));
        }
    }
    None
}

/// The interface that `route -n get default` output names: the trimmed text after
/// `interface:` on the first trimmed line that starts with it.
pub open spec fn route_interface(ls: Seq<Seq<char>>) -> Option<Seq<char>>
    decreases ls.len(),
{
    if ls.len() == 0 {
        None
    } else {
        let t = trim(ls[0]);
        if has_prefix(t, "interface:"@) {
            Some(trim(t.skip("interface:"@.len() as int)))
        } else {
            route_interface(ls.drop_first())
        }
    }
}

/// Reads the default-route interface from `route -n get default` output.
pub fn interface_from_route_output(out: &str) -> (r: Option<String>)
    ensures
        opt_string(r) == route_interface(lines(out@)),
{
    let ls = lines_exec(&chars_of(out));
    let key = chars_of("interface:");
    let mut i: usize = 0;
    assert(lines(out@).skip(0) =~= lines(out@));
    while i < ls.len()
        invariant
            i <= ls@.len(),
            ls@.len() == lines(out@).len(),
            forall|k: int| 0 <= k < ls@.len() ==> #[trigger] ls@[k]@ == lines(out@)[k],
            key@ == "interface:"@,
            route_interface(lines(out@)) == route_interface(lines(out@).skip(i as int)),
        decreases ls@.len() - i,
    {
        let ghost rest = lines(out@).skip(i as int);
        assert(rest[0] == ls@[i as int]@);
        assert(rest.drop_first() =~= lines(out@).skip(i + 1));
        let t = trim_exec(&ls[i]);
        if starts_with(&t, &key) {
            let v = trim_exec(&slice_range(&t, key.len(), t.len()));
            assert(t@.subrange(key@.len() as int, t@.len() as int) =~= t@.skip(key@.len() as int));
            return Some(string_of(&v));
        }
        i = i + 1;
    }
    None
}

/// Merges the three per-kind proxies of a service the way the system proxy is
/// reported: the SOCKS proxy when it is enabled, else the HTTP proxy's server when
/// that is enabled, else the HTTPS proxy's; the bypass list is `bypass`.
pub open spec fn merged_proxy(
    socks: SysproxyView,
    http: SysproxyView,
    https: SysproxyView,
    bypass: Seq<char>,
) -> SysproxyView {
    if !socks.enable && http.enable {
        SysproxyView { enable: true, host: http.host, port: http.port, bypass }
    } else if !socks.enable && https.enable {
        SysproxyView { enable: true, host: https.host, port: https.port, bypass }
    } else {
        SysproxyView { enable: socks.enable, host: socks.host, port: socks.port, bypass }
    }
}

/// Merges the SOCKS, HTTP and HTTPS proxies of a service and its bypass list.
pub fn merge_proxies(socks: Sysproxy, http: Sysproxy, https: Sysproxy, bypass: String) -> (r: Sysproxy)
    ensures
        r@ == merged_proxy(socks@, http@, https@, bypass@),
{
    let mut socks = socks;
    socks.bypass = bypass;
    if !socks.enable {
        if http.enable {
            socks.enable = true;
            socks.host = http.host;
            socks.port = http.port;
        } else if https.enable {
            socks.enable = true;
            socks.host = https.host;
            socks.port = https.port;
        }
    }
    socks
}

// ---------------------------------------------------------------------------
// Laws
// ---------------------------------------------------------------------------

proof fn lemma_scan_empty_device(ls: Seq<Seq<char>>, pending: Option<Seq<char>>)
    ensures
        scan_services(ls, Seq::empty(), pending) is None,
    decreases ls.len(),
{
    if ls.len() > 0 {
        let line = trim(ls[0]);
        if has_prefix(line, "(Hardware Port:"@) {
            lemma_scan_empty_device(ls.drop_first(), None);
        } else if line.len() > 0 && line[0] == '(' {
            lemma_scan_empty_device(ls.drop_first(), header_service(line));
        } else {
            lemma_scan_empty_device(ls.drop_first(), pending);
        }
    }
}

/// An empty device never maps to a service: a hardware-port line with an empty
/// device cell (e.g. Tailscale) never matches an interface.
pub proof fn law_empty_device_never_matches(serviceorder: Seq<char>)
    ensures
        service_for(serviceorder, Seq::empty()) is None,
{
    lemma_scan_empty_device(lines(serviceorder), None);
}

/// The auto-proxy URL read from `networksetup` is never the `(null)` placeholder
/// that macOS prints when no URL is configured.
pub proof fn law_auto_proxy_url_never_null(out: Seq<char>)
    ensures
        auto_proxy_from(out).url != "(null)"@,
{
    let u = strip_quotes(value_after(out, "URL:"@));
    if u != "(null)"@ {
    } else {
        assert(Seq::<char>::empty().len() == 0);
        reveal_strlit("(null)");
    }
}

/// What `networksetup -get<kind>proxy` prints for a proxy that is switched on or
/// off and has server `host` and port `port`.
pub open spec fn proxy_report(enable: bool, host: Seq<char>, port: u16) -> Seq<char> {
    "Enabled: "@ + (if enable {
        "Yes"@
    } else {
        "No"@
    }) + "\nServer: "@ + host + "\nPort: "@ + dec_repr(port as nat) + "\nAuthenticated Proxy Enabled: 0\n"@
}

/// A host that a report gives back unchanged: no surrounding whitespace, no line
/// break, and no `Port:` inside it.
pub open spec fn plain_host(host: Seq<char>) -> bool {
    &&& host.len() == 0 || (!is_whitespace(host[0]) && !is_whitespace(host.last()))
    &&& forall|i: int| 0 <= i < host.len() ==> host[i] != '\n'
    &&& forall|j: int| !occurs_at(host, "Port:"@, j)
}

/// The value after `key` when `key` first occurs at `k` and is followed by a space,
/// the value and a line break.
proof fn lemma_value_at(text: Seq<char>, key: Seq<char>, k: int, v: Seq<char>, r: Seq<char>)
    requires
        find(text, key) == Some(k),
        0 <= k,
        k + key.len() <= text.len(),
        text.skip(k + key.len()) == seq![' '] + v + seq!['\n'] + r,
        forall|i: int| 0 <= i < v.len() ==> v[i] != '\n',
        v.len() == 0 || (!is_whitespace(v[0]) && !is_whitespace(v.last())),
    ensures
        value_after(text, key) == v,
{
    let s = text.skip(k + key.len());
    assert forall|j: int| 0 <= j < 1 + v.len() implies s[j] != '\n' by {
        if j > 0 {
            assert(s[j] == v[j - 1]);
        }
    }
    crate::text::lemma_find_char_at(s, '\n', 0, 1 + v.len() as int);
    assert(s.take(1 + v.len() as int) =~= seq![' '] + v);
    crate::text::lemma_trim_space_before(v);
}

/// A proxy that `networksetup` reports reads back as it was set: switched on or
/// off, with its host and port, for hosts that the report gives back unchanged.
pub proof fn law_proxy_report_reads_back(enable: bool, host: Seq<char>, port: u16)
    requires
        plain_host(host),
    ensures
        proxy_from(proxy_report(enable, host, port)) == (SysproxyView {
            enable,
            host,
            port,
            bypass: Seq::empty(),
        }),
{
    reveal_strlit("Enabled: ");
    reveal_strlit("Yes");
    reveal_strlit("No");
    reveal_strlit("\nServer: ");
    reveal_strlit("\nPort: ");
    reveal_strlit("\nAuthenticated Proxy Enabled: 0\n");
    reveal_strlit("Enabled:");
    reveal_strlit("Server:");
    reveal_strlit("Port:");
    reveal_strlit("Server: ");
    reveal_strlit("Port: ");
    let yn: Seq<char> = if enable {
        "Yes"@
    } else {
        "No"@
    };
    let d = dec_repr(port as nat);
    let t = "\nAuthenticated Proxy Enabled: 0\n"@;
    let report = proxy_report(enable, host, port);
    crate::text::lemma_dec_repr(port as nat);
    let a = "Enabled: "@ + yn + "\nServer: "@;
    let h_end: int = (a.len() + host.len()) as int;
    assert(report =~= a + host + "\nPort: "@ + d + t);

    // Enabled: at the start.
    assert(report.subrange(0, 8) =~= "Enabled:"@);
    crate::text::lemma_find_at(report, "Enabled:"@, 0, 0);
    assert(report.skip(8) =~= seq![' '] + yn + seq!['\n'] + ("Server: "@ + host + "\nPort: "@ + d + t));
    lemma_value_at(report, "Enabled:"@, 0, yn, "Server: "@ + host + "\nPort: "@ + d + t);

    // Server: after the first line.
    let k1: int = (9 + yn.len() + 1) as int;
    assert(report.subrange(k1, k1 + 7) =~= "Server:"@);
    assert forall|j: int| 0 <= j < k1 implies !occurs_at(report, "Server:"@, j) by {
        assert(report[j] != 'S');
        if occurs_at(report, "Server:"@, j) {
            assert(report.subrange(j, j + 7)[0] == report[j]);
        }
    }
    crate::text::lemma_find_at(report, "Server:"@, 0, k1);
    assert(report.skip(k1 + 7) =~= seq![' '] + host + seq!['\n'] + ("Port: "@ + d + t));
    lemma_value_at(report, "Server:"@, k1, host, "Port: "@ + d + t);

    // Port: after the server line.
    let k2: int = h_end + 1;
    assert(report[h_end] == '\n');
    assert(report.subrange(k2, k2 + 5) =~= "Port:"@);
    assert forall|j: int| 0 <= j < k2 implies !occurs_at(report, "Port:"@, j) by {
        if occurs_at(report, "Port:"@, j) {
            let w = report.subrange(j, j + 5);
            if j < a.len() {
                assert(report[j] == a[j]);
                assert(w[0] == report[j]);
            } else if j + 5 <= h_end {
                assert(host.subrange(j - a.len(), j - a.len() + 5) =~= w);
                assert(occurs_at(host, "Port:"@, j - a.len()));
            } else {
                assert(w[h_end - j] == report[h_end]);
            }
        }
    }
    crate::text::lemma_find_at(report, "Port:"@, 0, k2);
    assert forall|i: int| 0 <= i < d.len() implies d[i] != '\n' && !is_whitespace(d[i]) by {
        assert(crate::text::is_digit(d[i]));
    }
    assert(report.skip(k2 + 5) =~= seq![' '] + d + seq!['\n'] + t.drop_first());
    lemma_value_at(report, "Port:"@, k2, d, t.drop_first());
    crate::text::lemma_parse_dec_repr(port as nat, 65535);
}

/// What `networksetup -getproxybypassdomains` prints for a list of domains: each
/// domain on a line of its own.
pub open spec fn bypass_report(items: Seq<Seq<char>>) -> Seq<char>
    decreases items.len(),
{
    if items.len() == 0 {
        Seq::empty()
    } else {
        bypass_report(items.drop_last()) + items.last() + seq!['\n']
    }
}

/// A bypass domain that a report gives back unchanged and a comma-separated list
/// keeps whole: not empty, no surrounding whitespace, no comma and no line break.
pub open spec fn plain_item(item: Seq<char>) -> bool {
    &&& item.len() > 0
    &&& !is_whitespace(item[0]) && !is_whitespace(item.last())
    &&& forall|i: int| 0 <= i < item.len() ==> item[i] != '\n' && item[i] != ','
}

proof fn lemma_split_bypass_report(items: Seq<Seq<char>>)
    requires
        forall|k: int| 0 <= k < items.len() ==> plain_item(#[trigger] items[k]),
    ensures
        split_on(bypass_report(items), '\n') == items.push(Seq::<char>::empty()),
    decreases items.len(),
{
    if items.len() > 0 {
        let init = items.drop_last();
        let r = bypass_report(init);
        let it = items.last();
        lemma_split_bypass_report(init);
        assert(plain_item(items[items.len() - 1]));
        crate::text::lemma_split_on_append(r, it, '\n');
        crate::text::lemma_split_on_sep(r + it, '\n');
        let p = split_on(r, '\n');
        assert(p.drop_last() =~= init);
        assert(p.last() + it =~= it);
        assert(init.push(it) =~= items);
    }
}

proof fn lemma_lines_bypass_report(items: Seq<Seq<char>>)
    requires
        forall|k: int| 0 <= k < items.len() ==> plain_item(#[trigger] items[k]),
    ensures
        lines(bypass_report(items)) == items,
{
    let s = bypass_report(items);
    lemma_split_bypass_report(items);
    let p = split_on(s, '\n');
    if items.len() > 0 {
        assert(s.last() == '\n');
    }
    assert forall|k: int| 0 <= k < items.len() implies #[trigger] lines(s)[k] == items[k] by {
        assert(plain_item(items[k]));
        assert(p[k] == items[k]);
        assert(is_whitespace('\r'));
        assert(strip_cr(items[k]) == items[k]);
    }
    assert(lines(s) =~= items);
}

proof fn lemma_nonempty_trimmed_plain(items: Seq<Seq<char>>)
    requires
        forall|k: int| 0 <= k < items.len() ==> plain_item(#[trigger] items[k]),
    ensures
        nonempty_trimmed(items) == items,
    decreases items.len(),
{
    if items.len() > 0 {
        let it = items.last();
        assert(plain_item(items[items.len() - 1]));
        lemma_nonempty_trimmed_plain(items.drop_last());
        crate::text::lemma_trim_start_at(it, 0);
        assert(it.skip(0) =~= it);
        crate::text::lemma_trim_end_at(it, it.len() as int);
        assert(it.take(it.len() as int) =~= it);
        assert(items.drop_last().push(it) =~= items);
    }
}

/// Splitting a comma-joined list of comma-free items on `,` gives the items back
/// (one empty piece for the empty list).
pub proof fn lemma_split_join(items: Seq<Seq<char>>)
    requires
        forall|k: int| 0 <= k < items.len() ==> plain_item(#[trigger] items[k]),
    ensures
        items.len() > 0 ==> split_on(join(items, ","@), ',') == items,
        items.len() == 0 ==> split_on(join(items, ","@), ',') == seq![Seq::<char>::empty()],
    decreases items.len(),
{
    reveal_strlit(",");
    if items.len() == 1 {
        assert(plain_item(items[0]));
        crate::text::lemma_split_on_append(Seq::empty(), items[0], ',');
        assert(Seq::<char>::empty() + items[0] =~= items[0]);
        assert(seq![Seq::<char>::empty()].drop_last().push(Seq::<char>::empty() + items[0]) =~= items);
    } else if items.len() > 1 {
        let init = items.drop_last();
        let it = items.last();
        let j = join(init, ","@);
        assert(plain_item(items[items.len() - 1]));
        lemma_split_join(init);
        crate::text::lemma_split_on_sep(j, ',');
        assert(j + ","@ =~= j + seq![',']);
        crate::text::lemma_split_on_append(j + seq![','], it, ',');
        assert(split_on(j, ',').push(Seq::<char>::empty()).drop_last() =~= init);
        assert(Seq::<char>::empty() + it =~= it);
        assert(init.push(it) =~= items);
    }
}

/// A bypass list that `networksetup` reports one domain per line reads back as
/// those domains joined by commas.
pub proof fn law_bypass_report_reads_back(items: Seq<Seq<char>>)
    requires
        forall|k: int| 0 <= k < items.len() ==> plain_item(#[trigger] items[k]),
    ensures
        bypass_from(bypass_report(items)) == join(items, ","@),
{
    lemma_lines_bypass_report(items);
    lemma_nonempty_trimmed_plain(items);
}


/// What `networksetup -getautoproxyurl` prints for an auto-proxy that is switched
/// on or off with URL `url`: `(null)` in place of an empty URL.
pub open spec fn auto_proxy_report(enable: bool, url: Seq<char>) -> Seq<char> {
    "URL: "@ + (if url.len() == 0 {
        "(null)"@
    } else {
        url
    }) + "\nEnabled: "@ + (if enable {
        "Yes"@
    } else {
        "No"@
    }) + "\n"@
}

/// A URL that a report gives back unchanged: no surrounding whitespace, no line
/// break, no `Enabled:` inside it, not enclosed in double quotes, and not the
/// `(null)` placeholder.
pub open spec fn plain_url(url: Seq<char>) -> bool {
    &&& url.len() == 0 || (!is_whitespace(url[0]) && !is_whitespace(url.last()))
    &&& forall|i: int| 0 <= i < url.len() ==> url[i] != '\n'
    &&& forall|j: int| !occurs_at(url, "Enabled:"@, j)
    &&& !(url.len() >= 2 && url[0] == '"' && url.last() == '"')
    &&& url != "(null)"@
}

/// An auto-proxy that `networksetup` reports reads back as it was set: switched
/// on or off, with its URL, for URLs that the report gives back unchanged.
pub proof fn law_auto_proxy_report_reads_back(enable: bool, url: Seq<char>)
    requires
        plain_url(url),
    ensures
        auto_proxy_from(auto_proxy_report(enable, url)) == (AutoproxyView { enable, url }),
{
    reveal_strlit("URL: ");
    reveal_strlit("(null)");
    reveal_strlit("\nEnabled: ");
    reveal_strlit("Yes");
    reveal_strlit("No");
    reveal_strlit("\n");
    reveal_strlit("URL:");
    reveal_strlit("Enabled:");
    reveal_strlit("Enabled: ");
    let shown: Seq<char> = if url.len() == 0 {
        "(null)"@
    } else {
        url
    };
    let yn: Seq<char> = if enable {
        "Yes"@
    } else {
        "No"@
    };
    let report = auto_proxy_report(enable, url);
    let n = shown.len() as int;
    assert(report =~= "URL: "@ + shown + "\nEnabled: "@ + yn + "\n"@);
    assert forall|j: int| !occurs_at(shown, "Enabled:"@, j) by {
        if url.len() == 0 && occurs_at(shown, "Enabled:"@, j) {
            assert(j + 8 <= 6);
        }
    }

    // URL: at the start.
    assert(report.subrange(0, 4) =~= "URL:"@);
    crate::text::lemma_find_at(report, "URL:"@, 0, 0);
    assert(report.skip(4) =~= seq![' '] + shown + seq!['\n'] + ("Enabled: "@ + yn + "\n"@));
    lemma_value_at(report, "URL:"@, 0, shown, "Enabled: "@ + yn + "\n"@);
    assert(strip_quotes(shown) == shown);

    // Enabled: after the URL line.
    let k: int = 5 + n + 1;
    assert(report[5 + n] == '\n');
    assert(report.subrange(k, k + 8) =~= "Enabled:"@);
    assert forall|j: int| 0 <= j < k implies !occurs_at(report, "Enabled:"@, j) by {
        if occurs_at(report, "Enabled:"@, j) {
            let w = report.subrange(j, j + 8);
            if j < 5 {
                assert(w[0] == report[j]);
            } else if j + 8 <= 5 + n {
                assert(shown.subrange(j - 5, j - 5 + 8) =~= w);
                assert(occurs_at(shown, "Enabled:"@, j - 5));
            } else {
                assert(w[5 + n - j] == report[5 + n]);
            }
        }
    }
    crate::text::lemma_find_at(report, "Enabled:"@, 0, k);
    assert(report.skip(k + 8) =~= seq![' '] + yn + seq!['\n'] + Seq::<char>::empty());
    lemma_value_at(report, "Enabled:"@, k, yn, Seq::empty());
    assert(("Yes"@ == yn) == enable);
    assert(value_after(report, "URL:"@) == shown);
    if url.len() == 0 {
        assert(url =~= Seq::<char>::empty());
    }
}

} // verus!

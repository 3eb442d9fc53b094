//! The decisions of the `sysproxy` command: what each command changes.
use crate::text::{chars_of, dec_repr, parse_unsigned, parse_unsigned_exec, push_char, push_chars, push_dec, rfind, rfind_char, slice_range, string_of};
use crate::macos::{
    auto_proxy_from, auto_proxy_report, law_auto_proxy_report_reads_back, law_proxy_report_reads_back, proxy_from,
    proxy_report,
};
use crate::windows::{
    auto_from_settings, flag_options, law_auto_proxy_reads_back, law_flags_read_back, options_for_auto,
    options_for_flags, options_for_proxy, proxy_from_settings, server_read_back, settings_after, InternetOptions,
    InternetOptionsView, InternetSettingsView,
};
use crate::{AppContainer, AppContainerView, Autoproxy, AutoproxyView, Error, ErrorView, Result, Sysproxy, SysproxyView};
use vstd::prelude::*;
use vstd::string::StringExecFns;

verus! {

/// What `parse_server` gives for `host:port` text: the text before the last `:`
/// and the `u16` after it; a parse error holding the text when the port does not
/// parse, or describing the expected form when there is no `:`.
pub open spec fn server_parts(server: Seq<char>) -> std::result::Result<(Seq<char>, u16), ErrorView> {
    match rfind(server, seq![':']) {
        Some(k) => match parse_unsigned(server.skip(k + 1), 65535) {
            Some(p) => Ok((server.take(k), p as u16)),
            None => Err(ErrorView::ParseStr(server)),
        },
        None => Err(ErrorView::ParseStr("expected host:port, got '"@ + server + "'"@)),
    }
}

pub open spec fn host_port_view(r: Result<(String, u16)>) -> std::result::Result<(Seq<char>, u16), ErrorView> {
    match r {
        Ok((h, p)) => Ok((h@, p)),
        Err(e) => Err(e@),
    }
}

/// Parses `host:port` text into host and port.
pub fn parse_server(server: &str) -> (r: Result<(String, u16)>)
    ensures
        host_port_view(r) == server_parts(server@),
{
    let cs = chars_of(server);
    match rfind_char(&cs, ':') {
        Some(k) => {
            let port_text = slice_range(&cs, k + 1, cs.len());
            assert(port_text@ =~= server@.skip(k + 1));
            match parse_unsigned_exec(&port_text, 65535) {
                Some(p) => {
                    let h = slice_range(&cs, 0, k);
                    assert(h@ =~= server@.take(k as int));
                    Ok((string_of(&h), p as u16))
                },
                None => Err(Error::ParseStr(server.to_owned())),
            }
        },
        None => {
            let mut msg = "expected host:port, got '".to_owned();
            msg.append(server);
            msg.append("'");
            Err(Error::ParseStr(msg))
        },
    }
}

/// Checks that low-level proxy flags are within 1–15.
pub fn check_flags(flags: u32) -> (r: Result<()>)
    ensures
        1 <= flags <= 15 ==> r is Ok,
        !(1 <= flags <= 15) ==> (r matches Err(Error::ParseStr(m)) && m@ == "flags must be 1-15, got "@
            + dec_repr(flags as nat)),
{
    if 1 <= flags && flags <= 15 {
        Ok(())
    } else {
        let mut msg = "flags must be 1-15, got ".to_owned();
        push_dec(&mut msg, flags);
        Err(Error::ParseStr(msg))
    }
}

/// A setting that a command writes.
#[derive(Debug, Clone, PartialEq, Eq)]
pub enum Change {
    /// Set the system proxy.
    Proxy(Sysproxy),
    /// Set the auto-proxy (PAC).
    Auto(Autoproxy),
}

pub enum ChangeView {
    Proxy(SysproxyView),
    Auto(AutoproxyView),
}

impl View for Change {
    type V = ChangeView;

    open spec fn view(&self) -> ChangeView {
        match self {
            Change::Proxy(p) => ChangeView::Proxy(p@),
            Change::Auto(a) => ChangeView::Auto(a@),
        }
    }
}

pub open spec fn changes_view(r: Result<Vec<Change>>) -> std::result::Result<Seq<ChangeView>, ErrorView> {
    match r {
        Ok(v) => Ok(v.deep_view()),
        Err(e) => Err(e@),
    }
}

impl DeepView for Change {
    type V = ChangeView;

    open spec fn deep_view(&self) -> ChangeView {
        self@
    }
}

/// The disabled system proxy: no server, no bypass list.
pub open spec fn proxy_off() -> SysproxyView {
    SysproxyView { enable: false, host: Seq::empty(), port: 0, bypass: Seq::empty() }
}

/// The disabled auto-proxy: no URL.
pub open spec fn auto_off() -> AutoproxyView {
    AutoproxyView { enable: false, url: Seq::empty() }
}

/// `global <server> [bypass]`: the proxy `server` with the bypass list, enabled.
pub open spec fn global_plan(server: Seq<char>, bypass: Seq<char>) -> std::result::Result<Seq<ChangeView>, ErrorView> {
    match server_parts(server) {
        Ok((host, port)) => Ok(seq![ChangeView::Proxy(SysproxyView { enable: true, host, port, bypass })]),
        Err(e) => Err(e),
    }
}

/// What `global <server> [bypass]` writes.
pub fn global_changes(server: &str, bypass: &str) -> (r: Result<Vec<Change>>)
    ensures
        changes_view(r) == global_plan(server@, bypass@),
{
    let (host, port) = parse_server(server)?;
    let mut v: Vec<Change> = Vec::new();
    v.push(Change::Proxy(Sysproxy { enable: true, host, port, bypass: bypass.to_owned() }));
    assert(v.deep_view() =~= seq![ChangeView::Proxy(SysproxyView { enable: true, host: v@[0]->Proxy_0.host@, port, bypass: bypass@ })]);
    Ok(v)
}

/// What `pac <url>` writes: the auto-proxy `url`, enabled.
pub fn pac_changes(url: &str) -> (r: Vec<Change>)
    ensures
        r.deep_view() == seq![ChangeView::Auto(AutoproxyView { enable: true, url: url@ })],
{
    let mut v: Vec<Change> = Vec::new();
    v.push(Change::Auto(Autoproxy { enable: true, url: url.to_owned() }));
    assert(v.deep_view() =~= seq![ChangeView::Auto(AutoproxyView { enable: true, url: url@ })]);
    v
}

fn proxy_off_exec() -> (r: Sysproxy)
    ensures
        r@ == proxy_off(),
{
    Sysproxy { enable: false, host: String::new(), port: 0, bypass: String::new() }
}

/// What `off` writes: the system proxy and the auto-proxy, both disabled.
pub fn off_changes() -> (r: Vec<Change>)
    ensures
        r.deep_view() == seq![ChangeView::Proxy(proxy_off()), ChangeView::Auto(auto_off())],
{
    let mut v: Vec<Change> = Vec::new();
    v.push(Change::Proxy(proxy_off_exec()));
    v.push(Change::Auto(Autoproxy { enable: false, url: String::new() }));
    assert(v.deep_view() =~= seq![ChangeView::Proxy(proxy_off()), ChangeView::Auto(auto_off())]);
    v
}

/// `-` stands for "keep the current value".
pub open spec fn keep_or(arg: Seq<char>, current: Seq<char>) -> Seq<char> {
    if arg == "-"@ {
        current
    } else {
        arg
    }
}

/// What `set <flags>` writes: the settings that are set one by one where each
/// setting is separate (`networksetup`), and the WinINet options that set the
/// flags at once.
#[derive(Debug, Clone, PartialEq, Eq)]
pub struct SetPlan {
    pub changes: Vec<Change>,
    pub options: InternetOptions,
}

pub struct SetPlanView {
    pub changes: Seq<ChangeView>,
    pub options: InternetOptionsView,
}

impl View for SetPlan {
    type V = SetPlanView;

    open spec fn view(&self) -> SetPlanView {
        SetPlanView { changes: self.changes.deep_view(), options: self.options@ }
    }
}

pub open spec fn set_plan_view(r: Result<SetPlan>) -> std::result::Result<SetPlanView, ErrorView> {
    match r {
        Ok(p) => Ok(p@),
        Err(e) => Err(e@),
    }
}

/// `set <flags> [server] [bypass] [pac_url]`. With `PROXY_TYPE_PROXY` (2) the
/// proxy is the given (or current) server with the given (or current) bypass
/// list, enabled; with `PROXY_TYPE_AUTO_PROXY_URL` (4) the auto-proxy is the given
/// (or current) PAC URL, enabled. One by one, the proxy is set and then the
/// auto-proxy, each when its flag is given; with neither flag every proxy is
/// turned off: the system proxy and the auto-proxy are both disabled. WinINet is
/// given exactly the requested flags (`PROXY_TYPE_DIRECT` and
/// `PROXY_TYPE_AUTO_DETECT` included), with the server and bypass list when the
/// proxy flag is given and the PAC URL when the PAC flag is.
pub open spec fn set_plan(
    flags: u32,
    server: Seq<char>,
    bypass: Seq<char>,
    pac_url: Seq<char>,
    current_proxy: SysproxyView,
    current_auto: AutoproxyView,
) -> std::result::Result<SetPlanView, ErrorView> {
    let url = keep_or(pac_url, current_auto.url);
    let auto = ChangeView::Auto(AutoproxyView { enable: true, url });
    let pac: Option<Seq<char>> = if flags & 4 != 0 {
        Some(url)
    } else {
        None
    };
    if flags & 2 != 0 {
        let hp: std::result::Result<(Seq<char>, u16), ErrorView> = if server == "-"@ {
            Ok((current_proxy.host, current_proxy.port))
        } else {
            server_parts(server)
        };
        match hp {
            Err(e) => Err(e),
            Ok((host, port)) => {
                let p = SysproxyView { enable: true, host, port, bypass: keep_or(bypass, current_proxy.bypass) };
                Ok(
                    SetPlanView {
                        changes: if flags & 4 != 0 {
                            seq![ChangeView::Proxy(p), auto]
                        } else {
                            seq![ChangeView::Proxy(p)]
                        },
                        options: options_for_flags(flags, Some(p), pac),
                    },
                )
            },
        }
    } else {
        Ok(
            SetPlanView {
                changes: if flags & 4 != 0 {
                    seq![auto]
                } else {
                    seq![ChangeView::Proxy(proxy_off()), ChangeView::Auto(auto_off())]
                },
                options: options_for_flags(flags, None, pac),
            },
        )
    }
}

fn is_dash(s: &str) -> (r: bool)
    ensures
        r == (s@ == "-"@),
{
    crate::text::chars_eq(&chars_of(s), &chars_of("-"))
}

fn keep_or_exec(arg: &str, current: &String) -> (r: String)
    ensures
        r@ == keep_or(arg@, current@),
{
    if is_dash(arg) {
        current.clone()
    } else {
        arg.to_owned()
    }
}

/// What `set <flags> [server] [bypass] [pac_url]` writes, given the current settings.
pub fn set_changes(
    flags: u32,
    server: &str,
    bypass: &str,
    pac_url: &str,
    current_proxy: &Sysproxy,
    current_auto: &Autoproxy,
) -> (r: Result<SetPlan>)
    ensures
        set_plan_view(r) == set_plan(flags, server@, bypass@, pac_url@, current_proxy@, current_auto@),
{
    let has_proxy = flags & 2 != 0;
    let has_pac = flags & 4 != 0;
    let url = keep_or_exec(pac_url, &current_auto.url);
    let mut v: Vec<Change> = Vec::new();
    let options = if has_proxy {
        let (host, port) = if is_dash(server) {
            (current_proxy.host.clone(), current_proxy.port)
        } else {
            parse_server(server)?
        };
        let b = keep_or_exec(bypass, &current_proxy.bypass);
        let p = Sysproxy { enable: true, host, port, bypass: b };
        let options = flag_options(flags, Some(&p), if has_pac { Some(url.as_str()) } else { None });
        v.push(Change::Proxy(p));
        if has_pac {
            v.push(Change::Auto(Autoproxy { enable: true, url }));
        }
        options
    } else {
        let options = flag_options(flags, None, if has_pac { Some(url.as_str()) } else { None });
        if has_pac {
            v.push(Change::Auto(Autoproxy { enable: true, url }));
        } else {
            v.push(Change::Proxy(proxy_off_exec()));
            v.push(Change::Auto(Autoproxy { enable: false, url: String::new() }));
        }
        options
    };
    let plan = SetPlan { changes: v, options };
    assert(plan@.changes =~= set_plan(flags, server@, bypass@, pac_url@, current_proxy@, current_auto@)->Ok_0.changes);
    Ok(plan)
}

/// What `set` writes for low-level flags is stored exactly: after its WinINet
/// options are written, the flags read back are the requested ones, the system
/// proxy reads as enabled exactly when `PROXY_TYPE_PROXY` was requested and the
/// auto-proxy exactly when `PROXY_TYPE_AUTO_PROXY_URL` was, with the written URL,
/// and a requested proxy reads back with its bypass list and, for a host without
/// `=`, the host and port of `server_read_back` (for `-`, the current ones).
/// Set one by one, a request without either flag turns both off.
pub proof fn law_set_stores_requested_flags(
    flags: u32,
    server: Seq<char>,
    bypass: Seq<char>,
    pac_url: Seq<char>,
    current_proxy: SysproxyView,
    current_auto: AutoproxyView,
    before: InternetSettingsView,
)
    requires
        set_plan(flags, server, bypass, pac_url, current_proxy, current_auto) is Ok,
    ensures
        ({
            let plan = set_plan(flags, server, bypass, pac_url, current_proxy, current_auto)->Ok_0;
            let s = settings_after(plan.options, before);
            &&& s.flags == flags
            &&& proxy_from_settings(s.flags, s.server, s.bypass).enable == (flags & 2 != 0)
            &&& auto_from_settings(s).enable == (flags & 4 != 0)
            &&& flags & 4 != 0 ==> auto_from_settings(s).url == keep_or(pac_url, current_auto.url)
            &&& flags & 2 != 0 ==> (plan.changes[0] matches ChangeView::Proxy(p) && {
                let r = proxy_from_settings(s.flags, s.server, s.bypass);
                &&& r.bypass == p.bypass
                &&& server == "-"@ ==> p.host == current_proxy.host && p.port == current_proxy.port
                &&& bypass == "-"@ ==> p.bypass == current_proxy.bypass
                &&& (forall|i: int| 0 <= i < p.host.len() ==> p.host[i] != '=') ==> (r.host, r.port)
                    == server_read_back(p.host, p.port)
            })
            &&& flags & 2 == 0 && flags & 4 == 0 ==> plan.changes == seq![
                ChangeView::Proxy(proxy_off()),
                ChangeView::Auto(auto_off()),
            ]
        }),
{
    let plan = set_plan(flags, server, bypass, pac_url, current_proxy, current_auto)->Ok_0;
    let url = keep_or(pac_url, current_auto.url);
    let pac: Option<Seq<char>> = if flags & 4 != 0 {
        Some(url)
    } else {
        None
    };
    if flags & 2 != 0 {
        let hp: std::result::Result<(Seq<char>, u16), ErrorView> = if server == "-"@ {
            Ok((current_proxy.host, current_proxy.port))
        } else {
            server_parts(server)
        };
        let (host, port) = hp->Ok_0;
        let p = SysproxyView { enable: true, host, port, bypass: keep_or(bypass, current_proxy.bypass) };
        law_flags_read_back(flags, Some(p), pac, before);
    } else {
        law_flags_read_back(flags, None, pac, before);
    }
}

/// `off` turns every proxy off. Through WinINet, after the disabled system proxy
/// and the disabled auto-proxy are written, both read as disabled. Through
/// `networksetup`, the reports of what is written read back as a disabled
/// system proxy and a disabled auto-proxy.
pub proof fn law_off_turns_everything_off(before: InternetSettingsView)
    ensures
        ({
            let s1 = settings_after(options_for_proxy(proxy_off()), before);
            let s2 = settings_after(options_for_auto(auto_off()), s1);
            &&& !proxy_from_settings(s2.flags, s2.server, s2.bypass).enable
            &&& !auto_from_settings(s2).enable
        }),
        !proxy_from(proxy_report(proxy_off().enable, proxy_off().host, proxy_off().port)).enable,
        !auto_proxy_from(auto_proxy_report(auto_off().enable, auto_off().url)).enable,
{
    law_auto_proxy_reads_back(auto_off(), settings_after(options_for_proxy(proxy_off()), before));
    reveal_strlit("Port:");
    assert(crate::macos::plain_host(Seq::empty()));
    law_proxy_report_reads_back(false, Seq::empty(), 0);
    reveal_strlit("(null)");
    reveal_strlit("Enabled:");
    law_auto_proxy_report_reads_back(false, Seq::empty());
}

/// The `host:port` shown for a proxy, or nothing when it has no host.
pub open spec fn server_display_text(p: SysproxyView) -> Seq<char> {
    if p.host.len() == 0 {
        Seq::empty()
    } else {
        p.host + seq![':'] + dec_repr(p.port as nat)
    }
}

/// The server as the `query` command shows it.
pub fn server_display(p: &Sysproxy) -> (r: String)
    ensures
        r@ == server_display_text(p@),
{
    let mut r = String::new();
    if !p.host.as_str().is_empty() {
        push_chars(&mut r, &chars_of(p.host.as_str()));
        push_char(&mut r, ':');
        push_dec(&mut r, p.port as u32);
    }
    assert(r@ =~= server_display_text(p@));
    r
}

/// The SIDs of the exempted containers, in order.
pub open spec fn exempted_sids_of(list: Seq<AppContainerView>) -> Seq<Seq<char>>
    decreases list.len(),
{
    if list.len() == 0 {
        Seq::empty()
    } else {
        let r = exempted_sids_of(list.drop_last());
        if list.last().exempted {
            r.push(list.last().sid)
        } else {
            r
        }
    }
}

/// The SIDs of the containers marked as exempted, in order.
pub fn exempted_sids(list: &Vec<AppContainer>) -> (r: Vec<String>)
    ensures
        r.deep_view() == exempted_sids_of(list@.map_values(|c: AppContainer| c@)),
{
    let ghost lv = list@.map_values(|c: AppContainer| c@);
    let mut r: Vec<String> = Vec::new();
    let mut i: usize = 0;
    while i < list.len()
        invariant
            lv == list@.map_values(|c: AppContainer| c@),
            i <= list@.len(),
            r.deep_view() == exempted_sids_of(lv.take(i as int)),
        decreases list@.len() - i,
    {
        assert(lv.take(i + 1).drop_last() =~= lv.take(i as int));
        if list[i].exempted {
            let ghost before = r.deep_view();
            r.push(list[i].sid.clone());
            assert(r.deep_view() =~= before.push(lv[i as int].sid));
        }
        i = i + 1;
    }
    assert(lv.take(list@.len() as int) =~= lv);
    r
}

/// A server shown as `host:port` (as `query` shows it) parses back to the same
/// host and port, whatever the host holds.
pub proof fn law_server_text_parses_back(host: Seq<char>, port: u16)
    ensures
        server_parts(host + seq![':'] + dec_repr(port as nat)) == Ok::<(Seq<char>, u16), ErrorView>(
            (host, port),
        ),
{
    let d = dec_repr(port as nat);
    crate::text::lemma_dec_repr(port as nat);
    assert forall|j: int| 0 <= j < d.len() implies d[j] != ':' by {
        assert(crate::text::is_digit(d[j]));
    }
    crate::text::lemma_rfind_char_join(host, ':', d);
    crate::text::lemma_parse_dec_repr(port as nat, 65535);
}

/// Whether `sid` is one of `sids`.
pub open spec fn listed(sids: Seq<Seq<char>>, sid: Seq<char>) -> bool {
    exists|i: int| 0 <= i < sids.len() && sids[i] == sid
}

fn is_listed(sids: &Vec<String>, sid: &String) -> (r: bool)
    ensures
        r == listed(sids.deep_view(), sid@),
{
    let mut i: usize = 0;
    while i < sids.len()
        invariant
            i <= sids@.len(),
            forall|j: int| 0 <= j < i ==> sids.deep_view()[j] != sid@,
        decreases sids@.len() - i,
    {
        if sids[i].eq(sid) {
            assert(sids.deep_view()[i as int] == sid@);
            return true;
        }
        i = i + 1;
    }
    false
}

/// The containers with `exempted` set exactly for those whose SID is listed.
pub fn with_exemptions(containers: Vec<AppContainer>, exempted: &Vec<String>) -> (r: Vec<AppContainer>)
    ensures
        r@.len() == containers@.len(),
        forall|i: int|
            0 <= i < r@.len() ==> #[trigger] r@[i]@ == (AppContainerView {
                exempted: listed(exempted.deep_view(), containers@[i].sid@),
                ..containers@[i]@
            }),
{
    let ghost old_list = containers@;
    let mut r: Vec<AppContainer> = Vec::new();
    let mut rest = containers;
    let mut i: usize = 0;
    let n = rest.len();
    while i < n
        invariant
            n == old_list.len(),
            rest@ == old_list,
            i <= n,
            r@.len() == i,
            forall|j: int|
                0 <= j < i ==> #[trigger] r@[j]@ == (AppContainerView {
                    exempted: listed(exempted.deep_view(), old_list[j].sid@),
                    ..old_list[j]@
                }),
        decreases n - i,
    {
        let c = &rest[i];
        let flag = is_listed(exempted, &c.sid);
        r.push(AppContainer {
            sid: c.sid.clone(),
            name: c.name.clone(),
            display_name: c.display_name.clone(),
            exempted: flag,
        });
        i = i + 1;
    }
    r
}

/// The number of containers marked as exempted.
pub open spec fn exempted_count(list: Seq<AppContainerView>) -> nat
    decreases list.len(),
{
    if list.len() == 0 {
        0
    } else {
        exempted_count(list.drop_last()) + if list.last().exempted {
            1nat
        } else {
            0nat
        }
    }
}

/// Counts the containers marked as exempted.
pub fn count_exempted(list: &Vec<AppContainer>) -> (r: usize)
    ensures
        r == exempted_count(list@.map_values(|c: AppContainer| c@)),
{
    let ghost lv = list@.map_values(|c: AppContainer| c@);
    let mut count: usize = 0;
    let mut i: usize = 0;
    while i < list.len()
        invariant
            lv == list@.map_values(|c: AppContainer| c@),
            i <= list@.len(),
            count == exempted_count(lv.take(i as int)),
            count <= i,
        decreases list@.len() - i,
    {
        assert(lv.take(i + 1).drop_last() =~= lv.take(i as int));
        if list[i].exempted {
            count = count + 1;
        }
        i = i + 1;
    }
    assert(lv.take(list@.len() as int) =~= lv);
    count
}


/// `global <server> [bypass]` writes one setting: the proxy at the host and port
/// of `server` (the text before its last `:` and the number after it), enabled,
/// carrying exactly the given bypass list; it fails exactly when `server` does
/// not parse.
pub proof fn law_global_writes_given_proxy(server: Seq<char>, bypass: Seq<char>)
    ensures
        global_plan(server, bypass) is Ok <==> server_parts(server) is Ok,
        global_plan(server, bypass) matches Ok(v) ==> {
            &&& v.len() == 1
            &&& v[0] matches ChangeView::Proxy(p)
            &&& p.enable
            &&& p.bypass == bypass
            &&& server == p.host + seq![':'] + server.skip(p.host.len() as int + 1)
            &&& parse_unsigned(server.skip(p.host.len() as int + 1), 65535) == Some(p.port as nat)
        },
{
    if let Ok((host, port)) = server_parts(server) {
        let k = rfind(server, seq![':'])->0;
        crate::text::lemma_rfind_from_bounds(server, seq![':'], server.len() - 1);
        assert(server.subrange(k, k + 1)[0] == server[k]);
        assert(server[k] == ':');
        assert(server =~= server.take(k) + seq![':'] + server.skip(k + 1));
    }
}

/// `set` never writes the `-` placeholder: with the PAC flag every auto-proxy it
/// sets is enabled with the given URL, or the current URL for `-`, and WinINet
/// is given that URL; with the proxy flag every proxy it sets is enabled with
/// the given bypass list, or the current one for `-`, and for server `-` the
/// current host and port.
pub proof fn law_set_keeps_current_for_dash(
    flags: u32,
    server: Seq<char>,
    bypass: Seq<char>,
    pac_url: Seq<char>,
    current_proxy: SysproxyView,
    current_auto: AutoproxyView,
)
    ensures
        set_plan(flags, server, bypass, pac_url, current_proxy, current_auto) matches Ok(plan) ==> {
            let url = if pac_url == "-"@ {
                current_auto.url
            } else {
                pac_url
            };
            &&& flags & 4 != 0 ==> plan.options.pac_url == Some(url)
            &&& forall|i: int|
                0 <= i < plan.changes.len() && flags & 4 != 0 ==> (#[trigger] plan.changes[i] matches ChangeView::Auto(a)
                    ==> a.enable && a.url == url)
            &&& flags & 4 != 0 ==> exists|i: int| 0 <= i < plan.changes.len() && #[trigger] plan.changes[i] == ChangeView::Auto(
                AutoproxyView { enable: true, url },
            )
            &&& forall|i: int|
                0 <= i < plan.changes.len() && flags & 2 != 0 ==> (#[trigger] plan.changes[i] matches ChangeView::Proxy(p)
                    ==> p.enable && p.bypass == (if bypass == "-"@ {
                    current_proxy.bypass
                } else {
                    bypass
                }) && (server == "-"@ ==> p.host == current_proxy.host && p.port == current_proxy.port))
        },
{
    if let Ok(plan) = set_plan(flags, server, bypass, pac_url, current_proxy, current_auto) {
        let url = if pac_url == "-"@ {
            current_auto.url
        } else {
            pac_url
        };
        if flags & 4 != 0 {
            let i: int = if flags & 2 != 0 {
                1
            } else {
                0
            };
            assert(plan.changes[i] == ChangeView::Auto(AutoproxyView { enable: true, url }));
        }
    }
}

} // verus!

use onebox_sysproxy_rs::windows::{
    connection_name, first_http_entry, flag_options, host_port_from_parsed, next_flags_query, parse_host_port,
    parse_proxy_server, to_wide, InternetOptions, OptionsWrite, WinInetAction, WinInetEvent, WinInetStep,
    InternetSettings,
};
use onebox_sysproxy_rs::{Autoproxy, Error, Sysproxy};

fn settings(flags: u32, server: &str, bypass: &str, pac: &str) -> InternetSettings {
    InternetSettings { flags, server: server.into(), bypass: bypass.into(), pac_url: pac.into() }
}

#[test]
fn wide_strings_are_null_terminated_utf16() {
    assert_eq!(to_wide("ab"), vec![0x61, 0x62, 0]);
    assert_eq!(to_wide(""), vec![0]);
    assert_eq!(to_wide("é😀"), vec![0xe9, 0xd83d, 0xde00, 0]);
}

#[test]
fn host_port_forms() {
    assert_eq!(parse_host_port("127.0.0.1:7890"), ("127.0.0.1".to_string(), 7890));
    assert_eq!(parse_host_port("example.com"), ("example.com".to_string(), 0));
    // The URL does not report its default port; the written one is kept.
    assert_eq!(parse_host_port("example.com:80"), ("example.com".to_string(), 80));
    assert_eq!(parse_host_port("127.0.0.1:80"), ("127.0.0.1".to_string(), 80));
    assert_eq!(parse_proxy_server("http=10.0.0.1:80;https=10.0.0.1:443"), ("10.0.0.1".to_string(), 80));
}

#[test]
fn host_port_after_url_parsing() {
    assert_eq!(
        host_port_from_parsed("x:1", Some((Some("h".into()), Some(5)))),
        ("h".to_string(), 5)
    );
    assert_eq!(host_port_from_parsed("x:1", Some((Some(String::new()), None))), ("x".to_string(), 1));
    assert_eq!(host_port_from_parsed("h:80", Some((Some("h".into()), None))), ("h".to_string(), 80));
    assert_eq!(host_port_from_parsed("[::1]", Some((Some("[::1]".into()), None))), ("[::1]".to_string(), 0));
    assert_eq!(host_port_from_parsed("x:y", None), ("x:y".to_string(), 0));
    assert_eq!(host_port_from_parsed("a:b:65535", None), ("a:b".to_string(), 65535));
    assert_eq!(host_port_from_parsed("a:65536", None), ("a:65536".to_string(), 0));
}

#[test]
fn proxy_server_forms() {
    assert_eq!(parse_proxy_server(""), (String::new(), 0));
    assert_eq!(parse_proxy_server("10.0.0.1:3128"), ("10.0.0.1".to_string(), 3128));
    assert_eq!(
        parse_proxy_server("https=1.1.1.1:443;HTTP=2.2.2.2:8080"),
        ("2.2.2.2".to_string(), 8080)
    );
    assert_eq!(parse_proxy_server("socks=3.3.3.3:1080;ftp=4.4.4.4:21"), ("3.3.3.3".to_string(), 1080));
}

#[test]
fn reading_settings() {
    let s = settings(3, "127.0.0.1:9999", "localhost;127.*", "");
    assert_eq!(
        Sysproxy::from_internet_settings(&s),
        Sysproxy { enable: true, host: "127.0.0.1".into(), port: 9999, bypass: "localhost;127.*".into() }
    );
    let s = settings(13, "", "", "http://10.0.0.1:3128/wpad.dat");
    assert!(!Sysproxy::from_internet_settings(&s).enable);
    assert_eq!(
        Autoproxy::from_internet_settings(&s),
        Autoproxy { enable: true, url: "http://10.0.0.1:3128/wpad.dat".into() }
    );
    assert!(!Autoproxy::from_internet_settings(&settings(1, "", "", "x")).enable);
}

fn opts(flags: u32, server: Option<&str>, bypass: Option<&str>, pac: Option<&str>) -> InternetOptions {
    InternetOptions {
        flags,
        server: server.map(String::from),
        bypass: bypass.map(String::from),
        pac_url: pac.map(String::from),
    }
}

#[test]
fn writing_options() {
    let p = Sysproxy { enable: true, host: "10.0.0.1".into(), port: 3128, bypass: "localhost".into() };
    assert_eq!(p.internet_options(), opts(3, Some("10.0.0.1:3128"), Some("localhost"), None));
    let off = Sysproxy { enable: false, ..p.clone() };
    assert_eq!(off.internet_options(), opts(1, None, None, None));
    let a = Autoproxy { enable: true, url: "http://x/p.pac".into() };
    assert_eq!(a.internet_options(), opts(13, None, None, Some("http://x/p.pac")));
    assert_eq!(Autoproxy { enable: false, url: "u".into() }.internet_options(), opts(1, None, None, None));
    assert_eq!(flag_options(9, None, None), opts(9, None, None, None));
    assert_eq!(flag_options(5, None, Some("http://x/p.pac")), opts(5, None, None, Some("http://x/p.pac")));
    assert_eq!(
        flag_options(7, Some(&p), Some("u")),
        opts(7, Some("10.0.0.1:3128"), Some("localhost"), Some("u"))
    );
}

#[test]
fn written_proxy_reads_back() {
    let p = Sysproxy { enable: true, host: "10.0.0.1".into(), port: 3128, bypass: "localhost,*.local".into() };
    let o = p.internet_options();
    let got = Sysproxy::from_internet_settings(&settings(o.flags, &o.server.unwrap(), &o.bypass.unwrap(), ""));
    assert_eq!(got, p);
}

#[test]
fn flags_are_queried_with_fallback() {
    assert_eq!(next_flags_query(None, false), Some(10));
    assert_eq!(next_flags_query(Some(10), false), Some(1));
    assert_eq!(next_flags_query(Some(10), true), None);
    assert_eq!(next_flags_query(Some(1), false), None);
    assert_eq!(next_flags_query(Some(1), true), None);
}

fn run_write(events: Vec<WinInetEvent>) -> (Vec<WinInetAction>, Option<Result<(), Error>>) {
    let (mut w, first) = OptionsWrite::start();
    let mut actions = vec![first];
    for e in events {
        match w.resume(e) {
            WinInetStep::Run(next, a) => {
                w = next;
                actions.push(a);
            }
            WinInetStep::Done(r) => return (actions, Some(r)),
        }
    }
    (actions, None)
}

#[test]
fn writing_visits_lan_then_each_ras_connection() {
    let succeeded = || WinInetEvent::Succeeded;
    let vpn = vec![0x56u16, 0];
    let dial = vec![0x44u16, 0];
    let (actions, r) = run_write(vec![
        succeeded(),
        succeeded(),
        succeeded(),
        WinInetEvent::RasEntries(vec![vpn.clone(), dial.clone()]),
        succeeded(),
        succeeded(),
        succeeded(),
        succeeded(),
        succeeded(),
        succeeded(),
    ]);
    assert_eq!(
        actions,
        vec![
            WinInetAction::SetOptions { connection: None },
            WinInetAction::NotifyChanged,
            WinInetAction::Refresh,
            WinInetAction::ListRasEntries,
            WinInetAction::SetOptions { connection: Some(vpn) },
            WinInetAction::NotifyChanged,
            WinInetAction::Refresh,
            WinInetAction::SetOptions { connection: Some(dial) },
            WinInetAction::NotifyChanged,
            WinInetAction::Refresh,
        ]
    );
    assert_eq!(r, Some(Ok(())));
}

#[test]
fn writing_stops_at_the_first_failure_but_not_at_a_failed_listing() {
    let err = Error::SystemCall("denied".into());
    let (actions, r) = run_write(vec![WinInetEvent::Succeeded, WinInetEvent::Failed(err.clone())]);
    assert_eq!(actions.len(), 2);
    assert_eq!(r, Some(Err(err)));
    let (_, r) = run_write(vec![
        WinInetEvent::Succeeded,
        WinInetEvent::Succeeded,
        WinInetEvent::Succeeded,
        WinInetEvent::RasListFailed,
    ]);
    assert_eq!(r, Some(Ok(())));
    let (_, r) = run_write(vec![
        WinInetEvent::Succeeded,
        WinInetEvent::Succeeded,
        WinInetEvent::Succeeded,
        WinInetEvent::RasEntries(vec![]),
    ]);
    assert_eq!(r, Some(Ok(())));
    let (_, r) = run_write(vec![WinInetEvent::RasListFailed]);
    assert_eq!(r, Some(Err(Error::SystemCall("unexpected answer to a WinINet call".into()))));
}

#[test]
fn first_http_entry_among_lowered_entries() {
    let v = |xs: &[&str]| xs.iter().map(|s| s.to_string()).collect::<Vec<String>>();
    assert_eq!(first_http_entry(&v(&["https=a:1", "http=b:2", "http=c:3"])), Some(1));
    assert_eq!(first_http_entry(&v(&["socks=a:1", "ftp=b:2"])), None);
    assert_eq!(first_http_entry(&v(&[])), None);
    // Entries are compared as given: upper case does not match.
    assert_eq!(first_http_entry(&v(&["HTTP=a:1"])), None);
}

#[test]
fn connection_names_end_at_the_first_nul() {
    assert_eq!(connection_name(&[0x56, 0x50, 0x4e, 0, 0x41, 0]), vec![0x56, 0x50, 0x4e, 0]);
    assert_eq!(connection_name(&[0x41, 0x42]), vec![0x41, 0x42, 0]);
    assert_eq!(connection_name(&[0, 0x41]), vec![0]);
    assert_eq!(connection_name(&[]), vec![0]);
}

#[test]
fn proxy_on_port_80_reads_back() {
    let p = Sysproxy { enable: true, host: "192.168.1.1".into(), port: 80, bypass: "localhost".into() };
    let o = p.internet_options();
    let got = Sysproxy::from_internet_settings(&settings(o.flags, &o.server.unwrap(), &o.bypass.unwrap(), ""));
    assert_eq!(got, p);
}

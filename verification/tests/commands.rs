use onebox_sysproxy_rs::cli::{
    check_flags, count_exempted, exempted_sids, global_changes, off_changes, pac_changes,
    parse_server, server_display, set_changes, with_exemptions, Change,
};
use onebox_sysproxy_rs::windows::InternetOptions;
use onebox_sysproxy_rs::{AppContainer, Autoproxy, Error, Sysproxy};

fn current() -> (Sysproxy, Autoproxy) {
    (
        Sysproxy { enable: true, host: "127.0.0.1".into(), port: 4444, bypass: "mybypass".into() },
        Autoproxy { enable: false, url: "http://old/p.pac".into() },
    )
}

#[test]
fn server_parsing() {
    assert_eq!(parse_server("127.0.0.1:7890"), Ok(("127.0.0.1".to_string(), 7890)));
    assert_eq!(parse_server("[::1]:80"), Ok(("[::1]".to_string(), 80)));
    assert_eq!(parse_server("h:99999"), Err(Error::ParseStr("h:99999".into())));
    assert_eq!(
        parse_server("badserver"),
        Err(Error::ParseStr("expected host:port, got 'badserver'".into()))
    );
}

#[test]
fn flag_range() {
    assert_eq!(check_flags(1), Ok(()));
    assert_eq!(check_flags(15), Ok(()));
    assert_eq!(check_flags(0), Err(Error::ParseStr("flags must be 1-15, got 0".into())));
    assert_eq!(check_flags(16), Err(Error::ParseStr("flags must be 1-15, got 16".into())));
}

#[test]
fn global_pac_and_off() {
    assert_eq!(
        global_changes("127.0.0.1:9876", ""),
        Ok(vec![Change::Proxy(Sysproxy { enable: true, host: "127.0.0.1".into(), port: 9876, bypass: String::new() })])
    );
    assert!(global_changes("badserver", "").is_err());
    assert_eq!(
        pac_changes("http://127.0.0.1:1080/proxy.pac"),
        vec![Change::Auto(Autoproxy { enable: true, url: "http://127.0.0.1:1080/proxy.pac".into() })]
    );
    assert_eq!(
        off_changes(),
        vec![Change::Proxy(Sysproxy::default()), Change::Auto(Autoproxy::default())]
    );
}

fn opts(flags: u32, server: Option<&str>, bypass: Option<&str>, pac: Option<&str>) -> InternetOptions {
    InternetOptions {
        flags,
        server: server.map(String::from),
        bypass: bypass.map(String::from),
        pac_url: pac.map(String::from),
    }
}

#[test]
fn set_flags() {
    let (p, a) = current();
    // 3: proxy + direct with the given server and bypass list.
    let plan = set_changes(3, "127.0.0.1:6666", "localhost", "-", &p, &a).unwrap();
    assert_eq!(
        plan.changes,
        vec![Change::Proxy(Sysproxy { enable: true, host: "127.0.0.1".into(), port: 6666, bypass: "localhost".into() })]
    );
    assert_eq!(plan.options, opts(3, Some("127.0.0.1:6666"), Some("localhost"), None));
    // 2 with placeholders keeps the current server and bypass list.
    let plan = set_changes(2, "-", "-", "-", &p, &a).unwrap();
    assert_eq!(plan.changes, vec![Change::Proxy(p.clone())]);
    assert_eq!(plan.options, opts(2, Some("127.0.0.1:4444"), Some("mybypass"), None));
    // 1: everything off, the auto-proxy too.
    let plan = set_changes(1, "-", "-", "-", &p, &a).unwrap();
    assert_eq!(plan.changes, vec![Change::Proxy(Sysproxy::default()), Change::Auto(Autoproxy::default())]);
    assert_eq!(plan.options, opts(1, None, None, None));
    // 5: PAC + direct, stored as exactly 5.
    let plan = set_changes(5, "-", "-", "http://example.com/proxy.pac", &p, &a).unwrap();
    assert_eq!(plan.changes, vec![Change::Auto(Autoproxy { enable: true, url: "http://example.com/proxy.pac".into() })]);
    assert_eq!(plan.options, opts(5, None, None, Some("http://example.com/proxy.pac")));
    // 9: auto-detect + direct keeps the auto-detect flag.
    let plan = set_changes(9, "-", "-", "-", &p, &a).unwrap();
    assert_eq!(plan.options, opts(9, None, None, None));
    assert_eq!(plan.changes, vec![Change::Proxy(Sysproxy::default()), Change::Auto(Autoproxy::default())]);
    // 7: proxy, then PAC with the current URL; WinINet gets both at once.
    let plan = set_changes(7, "-", "-", "-", &p, &a).unwrap();
    assert_eq!(
        plan.changes,
        vec![Change::Proxy(p.clone()), Change::Auto(Autoproxy { enable: true, url: "http://old/p.pac".into() })]
    );
    assert_eq!(plan.options, opts(7, Some("127.0.0.1:4444"), Some("mybypass"), Some("http://old/p.pac")));
    // 13: PAC + auto-detect + direct.
    assert_eq!(set_changes(13, "-", "-", "u", &p, &a).unwrap().options, opts(13, None, None, Some("u")));
    assert_eq!(set_changes(2, "nope", "-", "-", &p, &a), Err(Error::ParseStr("expected host:port, got 'nope'".into())));
}

#[test]
fn display_of_servers() {
    let (p, _) = current();
    assert_eq!(server_display(&p), "127.0.0.1:4444");
    assert_eq!(server_display(&Sysproxy::default()), "");
}

#[test]
fn exemption_lists() {
    let c = |sid: &str, exempted: bool| AppContainer {
        sid: sid.into(),
        name: format!("n{sid}"),
        display_name: format!("d{sid}"),
        exempted,
    };
    let list = vec![c("a", true), c("b", false), c("c", true)];
    assert_eq!(exempted_sids(&list), vec!["a", "c"]);
    assert_eq!(count_exempted(&list), 2);
    let marked = with_exemptions(list, &vec!["b".to_string()]);
    assert_eq!(marked, vec![c("a", false), c("b", true), c("c", false)]);
}

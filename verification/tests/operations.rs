use onebox_sysproxy_rs::networksetup::{active_network_service, clear_proxy, ProxyType};
use onebox_sysproxy_rs::session::{check_networksetup, failure_message_of, Invocation, Outcome, Step};
use onebox_sysproxy_rs::{Autoproxy, Error, Sysproxy};

fn ok(stdout: &str) -> Outcome {
    Outcome::Exited { success: true, code: Some(0), stdout: stdout.as_bytes().to_vec(), stderr: vec![] }
}

fn ns(args: &[&str]) -> Invocation {
    Invocation::Networksetup(args.iter().map(|s| s.to_string()).collect())
}

const ORDER: &str = "x\n(1) Wi-Fi\n(Hardware Port: Wi-Fi, Device: en0)\n";
const ROUTE: &str = "interface: en0\n";

#[test]
fn proxy_type_targets() {
    assert_eq!(ProxyType::Http.target(), "webproxy");
    assert_eq!(ProxyType::Https.target(), "securewebproxy");
    assert_eq!(ProxyType::Socks.target(), "socksfirewallproxy");
}

#[test]
fn failed_networksetup_reports_args_code_and_output() {
    let args = vec!["-getwebproxy".to_string(), "Nope".to_string()];
    let out = Outcome::Exited {
        success: false,
        code: Some(4),
        stdout: b"** Error: The parameters were not valid.\n".to_vec(),
        stderr: vec![],
    };
    assert_eq!(
        check_networksetup(&args, &out),
        Err(Error::Command(
            "networksetup [\"-getwebproxy\", \"Nope\"] exited Some(4): ** Error: The parameters were not valid."
                .to_string()
        ))
    );
    let out = Outcome::Exited { success: false, code: None, stdout: b" a ".to_vec(), stderr: b"b\n".to_vec() };
    assert_eq!(
        check_networksetup(&args, &out),
        Err(Error::Command("networksetup [\"-getwebproxy\", \"Nope\"] exited None: a | b".to_string()))
    );
    assert_eq!(
        check_networksetup(&args, &Outcome::SpawnFailed("missing".into())),
        Err(Error::Io("missing".into()))
    );
}

#[test]
fn active_service_from_route_and_order() {
    let step = active_network_service();
    let Step::Run(lookup, inv) = step else { panic!() };
    assert_eq!(inv, Invocation::DefaultRoute);
    let Step::Run(lookup, inv) = lookup.resume(&ok(ROUTE)) else { panic!() };
    assert_eq!(inv, ns(&["-listnetworkserviceorder"]));
    let Step::Done(r) = lookup.resume(&ok(ORDER)) else { panic!() };
    assert_eq!(r, Ok("Wi-Fi".to_string()));
}

#[test]
fn active_service_without_fallback_fails() {
    let Step::Run(lookup, _) = active_network_service() else { panic!() };
    let Step::Done(r) = lookup.resume(&ok("nothing\n")) else { panic!() };
    assert_eq!(r, Err(Error::NetworkInterface));
    let Step::Run(lookup, _) = active_network_service() else { panic!() };
    let bad = Outcome::Exited { success: true, code: Some(0), stdout: vec![0xff], stderr: vec![] };
    let Step::Done(r) = lookup.resume(&bad) else { panic!() };
    assert_eq!(r, Err(Error::ParseStr("route".into())));
    let Step::Run(lookup, _) = active_network_service() else { panic!() };
    let Step::Run(lookup, _) = lookup.resume(&ok("interface: en7\n")) else { panic!() };
    let Step::Done(r) = lookup.resume(&ok(ORDER)) else { panic!() };
    assert_eq!(r, Err(Error::Command("no network service maps to interface en7".into())));
}

#[test]
fn system_proxy_query_reads_and_merges() {
    let Step::Run(q, inv) = Sysproxy::get_system_proxy() else { panic!() };
    assert_eq!(inv, Invocation::DefaultRoute);
    // No default route: falls back to the first listed service.
    let Step::Run(q, inv) = q.resume(ok("no interface here\n")) else { panic!() };
    assert_eq!(inv, ns(&["-listallnetworkservices"]));
    let Step::Run(q, inv) = q.resume(ok("header\nEthernet\nWi-Fi\n")) else { panic!() };
    assert_eq!(inv, ns(&["-getsocksfirewallproxy", "Ethernet"]));
    let Step::Run(q, inv) = q.resume(ok("Enabled: No\nServer: \nPort: 0\n")) else { panic!() };
    assert_eq!(inv, ns(&["-getwebproxy", "Ethernet"]));
    let Step::Run(q, inv) = q.resume(ok("Enabled: Yes\nServer: 10.0.0.1\nPort: 3128\n")) else { panic!() };
    assert_eq!(inv, ns(&["-getsecurewebproxy", "Ethernet"]));
    let Step::Run(q, inv) = q.resume(ok("Enabled: No\n")) else { panic!() };
    assert_eq!(inv, ns(&["-getproxybypassdomains", "Ethernet"]));
    let Step::Done(r) = q.resume(ok("localhost\n*.local\n")) else { panic!() };
    assert_eq!(
        r,
        Ok(Sysproxy { enable: true, host: "10.0.0.1".into(), port: 3128, bypass: "localhost,*.local".into() })
    );
}

#[test]
fn system_proxy_update_writes_each_kind_then_bypass() {
    let p = Sysproxy { enable: true, host: "127.0.0.1".into(), port: 9999, bypass: "localhost,,127.0.0.1".into() };
    let Step::Run(u, _) = p.set_system_proxy() else { panic!() };
    let Step::Run(u, _) = u.resume(ok(ROUTE)) else { panic!() };
    let Step::Run(mut u, mut inv) = u.resume(ok(ORDER)) else { panic!() };
    let expected = [
        ns(&["-setsocksfirewallproxy", "Wi-Fi", "127.0.0.1", "9999"]),
        ns(&["-setsocksfirewallproxystate", "Wi-Fi", "on"]),
        ns(&["-setwebproxy", "Wi-Fi", "127.0.0.1", "9999"]),
        ns(&["-setwebproxystate", "Wi-Fi", "on"]),
        ns(&["-setsecurewebproxy", "Wi-Fi", "127.0.0.1", "9999"]),
        ns(&["-setsecurewebproxystate", "Wi-Fi", "on"]),
        ns(&["-setproxybypassdomains", "Wi-Fi", "localhost", "127.0.0.1"]),
    ];
    for (i, want) in expected.iter().enumerate() {
        assert_eq!(&inv, want);
        match u.resume(ok("")) {
            Step::Run(next, next_inv) => {
                u = next;
                inv = next_inv;
            }
            Step::Done(r) => {
                assert_eq!(i, expected.len() - 1);
                assert_eq!(r, Ok(()));
                return;
            }
        }
    }
    panic!("did not finish");
}

#[test]
fn system_proxy_update_stops_at_first_failure() {
    let p = Sysproxy { enable: false, host: String::new(), port: 0, bypass: String::new() };
    let Step::Run(u, _) = p.set_system_proxy() else { panic!() };
    let Step::Run(u, _) = u.resume(ok(ROUTE)) else { panic!() };
    let Step::Run(u, inv) = u.resume(ok(ORDER)) else { panic!() };
    assert_eq!(inv, ns(&["-setsocksfirewallproxy", "Wi-Fi", "", "0"]));
    let Step::Done(r) = u.resume(Outcome::SpawnFailed("gone".into())) else { panic!() };
    assert_eq!(r, Err(Error::Io("gone".into())));
}

#[test]
fn auto_proxy_query_and_update() {
    let Step::Run(q, _) = Autoproxy::get_auto_proxy() else { panic!() };
    let Step::Run(q, _) = q.resume(ok(ROUTE)) else { panic!() };
    let Step::Run(q, inv) = q.resume(ok(ORDER)) else { panic!() };
    assert_eq!(inv, ns(&["-getautoproxyurl", "Wi-Fi"]));
    let Step::Done(r) = q.resume(ok("URL: (null)\nEnabled: No\n")) else { panic!() };
    assert_eq!(r, Ok(Autoproxy { enable: false, url: String::new() }));

    let a = Autoproxy { enable: false, url: String::new() };
    let Step::Run(u, _) = a.set_auto_proxy() else { panic!() };
    let Step::Run(u, _) = u.resume(ok(ROUTE)) else { panic!() };
    let Step::Run(u, inv) = u.resume(ok(ORDER)) else { panic!() };
    assert_eq!(inv, ns(&["-setautoproxyurl", "Wi-Fi", "\"\""]));
    let Step::Run(u, inv) = u.resume(ok("")) else { panic!() };
    assert_eq!(inv, ns(&["-setautoproxystate", "Wi-Fi", "off"]));
    let Step::Done(r) = u.resume(ok("")) else { panic!() };
    assert_eq!(r, Ok(()));
}

#[test]
fn named_service_reads_and_writes() {
    let Step::Run(r, inv) = Sysproxy::get_https("Wi-Fi") else { panic!() };
    assert_eq!(inv, ns(&["-getsecurewebproxy", "Wi-Fi"]));
    let Step::Done(got) = r.resume(ok("Enabled: Yes\nServer: h\nPort: 1\n")) else { panic!() };
    assert_eq!(got, Ok(Sysproxy { enable: true, host: "h".into(), port: 1, bypass: String::new() }));

    let Step::Run(_, inv) = Sysproxy::get_http("Wi-Fi") else { panic!() };
    assert_eq!(inv, ns(&["-getwebproxy", "Wi-Fi"]));
    let Step::Run(_, inv) = Sysproxy::get_socks("Wi-Fi") else { panic!() };
    assert_eq!(inv, ns(&["-getsocksfirewallproxy", "Wi-Fi"]));

    let Step::Run(b, inv) = Sysproxy::get_bypass("Wi-Fi") else { panic!() };
    assert_eq!(inv, ns(&["-getproxybypassdomains", "Wi-Fi"]));
    let Step::Done(got) = b.resume(ok("a\nb\n")) else { panic!() };
    assert_eq!(got, Ok("a,b".to_string()));

    let p = Sysproxy { enable: false, host: "h".into(), port: 8080, bypass: ",x,".into() };
    let Step::Run(u, inv) = p.set_http("Wi-Fi") else { panic!() };
    assert_eq!(inv, ns(&["-setwebproxy", "Wi-Fi", "h", "8080"]));
    let Step::Run(u, inv) = u.resume(ok("")) else { panic!() };
    assert_eq!(inv, ns(&["-setwebproxystate", "Wi-Fi", "off"]));
    let Step::Done(got) = u.resume(ok("")) else { panic!() };
    assert_eq!(got, Ok(()));
    let Step::Run(_, inv) = p.set_https("Wi-Fi") else { panic!() };
    assert_eq!(inv, ns(&["-setsecurewebproxy", "Wi-Fi", "h", "8080"]));
    let Step::Run(_, inv) = p.set_socks("Wi-Fi") else { panic!() };
    assert_eq!(inv, ns(&["-setsocksfirewallproxy", "Wi-Fi", "h", "8080"]));
    let Step::Run(_, inv) = p.set_bypass("Wi-Fi") else { panic!() };
    assert_eq!(inv, ns(&["-setproxybypassdomains", "Wi-Fi", "x"]));
}

#[test]
fn clearing_disables_only_matching_enabled_proxies() {
    let Step::Run(c, inv) = clear_proxy("127.0.0.1") else { panic!() };
    assert_eq!(inv, ns(&["-listallnetworkservices"]));
    let Step::Run(c, inv) = c.resume(ok("header\nWi-Fi\n*Off\n")) else { panic!() };
    assert_eq!(inv, ns(&["-getwebproxy", "Wi-Fi"]));
    let Step::Run(c, inv) = c.resume(ok("Enabled: Yes\nServer: 127.0.0.1\nPort: 1\n")) else { panic!() };
    assert_eq!(inv, ns(&["-setwebproxystate", "Wi-Fi", "off"]));
    let Step::Run(c, inv) = c.resume(ok("")) else { panic!() };
    assert_eq!(inv, ns(&["-getsecurewebproxy", "Wi-Fi"]));
    let Step::Run(c, inv) = c.resume(ok("Enabled: Yes\nServer: 10.0.0.1\nPort: 1\n")) else { panic!() };
    assert_eq!(inv, ns(&["-getsocksfirewallproxy", "Wi-Fi"]));
    let Step::Done(r) = c.resume(ok("Enabled: No\nServer: 127.0.0.1\nPort: 1\n")) else { panic!() };
    assert_eq!(r, Ok(()));
}

#[test]
fn clearing_with_no_services_is_done() {
    let Step::Run(c, _) = clear_proxy("h") else { panic!() };
    let Step::Done(r) = c.resume(ok("header only\n")) else { panic!() };
    assert_eq!(r, Ok(()));
}

#[test]
fn system_proxy_set_then_read_back() {
    let p = Sysproxy { enable: true, host: "127.0.0.1".into(), port: 7890, bypass: "localhost,*.local".into() };
    let Step::Run(u, _) = p.set_system_proxy() else { panic!() };
    let Step::Run(u, _) = u.resume(ok(ROUTE)) else { panic!() };
    let Step::Run(mut u, mut inv) = u.resume(ok(ORDER)) else { panic!() };
    let mut writes = vec![inv.clone()];
    loop {
        match u.resume(ok("")) {
            Step::Run(next, next_inv) => {
                u = next;
                inv = next_inv;
                writes.push(inv.clone());
            }
            Step::Done(r) => {
                assert_eq!(r, Ok(()));
                break;
            }
        }
    }
    assert_eq!(writes.last(), Some(&ns(&["-setproxybypassdomains", "Wi-Fi", "localhost", "*.local"])));
    let report = "Enabled: Yes\nServer: 127.0.0.1\nPort: 7890\nAuthenticated Proxy Enabled: 0\n";
    let Step::Run(q, _) = Sysproxy::get_system_proxy() else { panic!() };
    let Step::Run(q, _) = q.resume(ok(ROUTE)) else { panic!() };
    let Step::Run(q, _) = q.resume(ok(ORDER)) else { panic!() };
    let Step::Run(q, _) = q.resume(ok(report)) else { panic!() };
    let Step::Run(q, _) = q.resume(ok(report)) else { panic!() };
    let Step::Run(q, _) = q.resume(ok(report)) else { panic!() };
    let Step::Done(r) = q.resume(ok("localhost\n*.local\n")) else { panic!() };
    assert_eq!(r, Ok(p));
}

#[test]
fn failure_message_joins_what_was_printed() {
    assert_eq!(failure_message_of("[\"-x\"]", Some(-2), " out \n", "\terr"), "networksetup [\"-x\"] exited Some(-2): out | err");
    assert_eq!(failure_message_of("[]", None, "", "  "), "networksetup [] exited None: ");
    assert_eq!(failure_message_of("[]", Some(8), "", "e"), "networksetup [] exited Some(8): e");
}

#[test]
fn output_is_decoded_lossily() {
    let args = vec!["-getwebproxy".to_string()];
    let out = Outcome::Exited { success: true, code: Some(0), stdout: vec![b'a', 0xff, b'b'], stderr: vec![] };
    assert_eq!(check_networksetup(&args, &out), Ok("a\u{fffd}b".to_string()));
}

#[test]
fn auto_proxy_set_then_read_back() {
    let a = Autoproxy { enable: true, url: "http://127.0.0.1:1080/proxy.pac".into() };
    let Step::Run(u, _) = a.set_auto_proxy() else { panic!() };
    let Step::Run(u, _) = u.resume(ok(ROUTE)) else { panic!() };
    let Step::Run(u, inv) = u.resume(ok(ORDER)) else { panic!() };
    assert_eq!(inv, ns(&["-setautoproxyurl", "Wi-Fi", "http://127.0.0.1:1080/proxy.pac"]));
    let Step::Run(u, inv) = u.resume(ok("")) else { panic!() };
    assert_eq!(inv, ns(&["-setautoproxystate", "Wi-Fi", "on"]));
    let Step::Done(r) = u.resume(ok("")) else { panic!() };
    assert_eq!(r, Ok(()));
    let Step::Run(q, _) = Autoproxy::get_auto_proxy() else { panic!() };
    let Step::Run(q, _) = q.resume(ok(ROUTE)) else { panic!() };
    let Step::Run(q, _) = q.resume(ok(ORDER)) else { panic!() };
    let Step::Done(r) = q.resume(ok("URL: http://127.0.0.1:1080/proxy.pac\nEnabled: Yes\n")) else { panic!() };
    assert_eq!(r, Ok(a));
}

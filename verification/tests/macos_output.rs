use onebox_sysproxy_rs::macos::{
    auto_proxy_from_output, bypass_from_output, first_service_from_output,
    interface_from_route_output, merge_proxies, proxy_from_output, services_from_output,
};
use onebox_sysproxy_rs::{Autoproxy, Sysproxy};

fn proxy(enable: bool, host: &str, port: u16) -> Sysproxy {
    Sysproxy { enable, host: host.into(), port, bypass: String::new() }
}

#[test]
fn reads_web_proxy_output() {
    let out = "Enabled: Yes\nServer: 127.0.0.1\nPort: 7890\nAuthenticated Proxy Enabled: 0\n";
    assert_eq!(proxy_from_output(out), proxy(true, "127.0.0.1", 7890));
}

#[test]
fn reads_disabled_proxy_and_bad_port() {
    let out = "Enabled: No\nServer: \nPort: x\n";
    assert_eq!(proxy_from_output(out), proxy(false, "", 0));
    assert_eq!(proxy_from_output(""), proxy(false, "", 0));
}

#[test]
fn reads_bypass_domains() {
    let out = "localhost\n  127.0.0.1 \n\n*.local\n";
    assert_eq!(bypass_from_output(out), "localhost,127.0.0.1,*.local");
    assert_eq!(bypass_from_output("There aren't any bypass domains set on Wi-Fi.\n"),
        "There aren't any bypass domains set on Wi-Fi.");
}

#[test]
fn reads_auto_proxy_output() {
    let out = "URL: \"http://127.0.0.1:1080/proxy.pac\"\nEnabled: Yes\n";
    assert_eq!(
        auto_proxy_from_output(out),
        Autoproxy { enable: true, url: "http://127.0.0.1:1080/proxy.pac".into() }
    );
    assert_eq!(
        auto_proxy_from_output("URL: (null)\nEnabled: No\n"),
        Autoproxy { enable: false, url: String::new() }
    );
}

#[test]
fn reads_service_lists() {
    let out = "An asterisk (*) denotes that a network service is disabled.\nWi-Fi\n*Old\n\n  Ethernet \n";
    assert_eq!(services_from_output(out), vec!["Wi-Fi", "Ethernet"]);
    assert_eq!(first_service_from_output(out).as_deref(), Some("Wi-Fi"));
    assert_eq!(first_service_from_output("only a header\n"), None);
    assert_eq!(first_service_from_output("header\n   \n"), None);
}

#[test]
fn reads_route_interface() {
    let out = "   route to: default\ndestination: default\n  interface: en0\n      flags: <UP>\n";
    assert_eq!(interface_from_route_output(out).as_deref(), Some("en0"));
    assert_eq!(interface_from_route_output("no route\n"), None);
}

#[test]
fn merge_prefers_socks_then_http_then_https() {
    let socks = proxy(false, "s", 1);
    let http = proxy(true, "h", 2);
    let https = proxy(true, "t", 3);
    let merged = merge_proxies(socks.clone(), http.clone(), https.clone(), "b".into());
    assert_eq!(merged, Sysproxy { enable: true, host: "h".into(), port: 2, bypass: "b".into() });
    let merged = merge_proxies(socks.clone(), proxy(false, "h", 2), https, "b".into());
    assert_eq!(merged, Sysproxy { enable: true, host: "t".into(), port: 3, bypass: "b".into() });
    let merged = merge_proxies(proxy(true, "s", 1), http, proxy(false, "", 0), String::new());
    assert_eq!(merged, proxy(true, "s", 1));
    let merged = merge_proxies(socks, proxy(false, "h", 2), proxy(false, "t", 3), String::new());
    assert_eq!(merged, proxy(false, "s", 1));
}

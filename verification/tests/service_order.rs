use onebox_sysproxy_rs::macos::service_for_device;

// A `-listnetworkserviceorder` dump: a USB ethernet whose service name
// ("AX88179A") differs from its hardware-port label, the built-in Wi-Fi, and a
// Tailscale service with an empty device cell.
const ORDER: &str = "An asterisk (*) denotes that a network service is disabled.\n\
(1) AX88179A\n\
(Hardware Port: AX88179A, Device: en6)\n\
\n\
(2) Thunderbolt Bridge\n\
(Hardware Port: Thunderbolt Bridge, Device: bridge0)\n\
\n\
(3) Wi-Fi\n\
(Hardware Port: Wi-Fi, Device: en0)\n\
\n\
(4) Tailscale\n\
(Hardware Port: io.tailscale.ipn.macsys, Device: )\n";

#[test]
fn maps_builtin_wifi_device_to_service() {
    assert_eq!(service_for_device(ORDER, "en0").as_deref(), Some("Wi-Fi"));
}

#[test]
fn maps_usb_adapter_to_service_name_not_hardware_port() {
    assert_eq!(service_for_device(ORDER, "en6").as_deref(), Some("AX88179A"));
}

#[test]
fn maps_renamed_wifi_service() {
    let order = "An asterisk (*) denotes that a network service is disabled.\n\
(1) 我的无线\n\
(Hardware Port: Wi-Fi, Device: en0)\n";
    assert_eq!(service_for_device(order, "en0").as_deref(), Some("我的无线"));
}

#[test]
fn empty_device_cell_never_matches() {
    assert_eq!(service_for_device(ORDER, ""), None);
}

#[test]
fn unknown_device_returns_none() {
    assert_eq!(service_for_device(ORDER, "en9"), None);
}

#[test]
fn service_name_with_parentheses_preserved() {
    let order = "header\n(2) Home (5GHz)\n(Hardware Port: Wi-Fi, Device: en0)\n";
    assert_eq!(
        service_for_device(order, "en0").as_deref(),
        Some("Home (5GHz)")
    );
}

#[test]
fn disabled_service_maps_too() {
    let order = "x\n(*) Old VPN\n(Hardware Port: VPN, Device: utun3)\n";
    assert_eq!(service_for_device(order, "utun3").as_deref(), Some("Old VPN"));
}

#[test]
fn hardware_line_without_header_does_not_match() {
    let order = "x\n(Hardware Port: Wi-Fi, Device: en0)\n";
    assert_eq!(service_for_device(order, "en0"), None);
}

#[test]
fn device_text_after_last_device_key_is_used() {
    let order = "(1) Odd\r\n(Hardware Port: Device: x, Device: en1))\r\n";
    assert_eq!(service_for_device(order, "en1").as_deref(), Some("Odd"));
}

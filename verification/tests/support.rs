use onebox_sysproxy_rs::{Autoproxy, Sysproxy};

#[test]
fn test_is_support() {
    assert!(Sysproxy::is_support());
    assert!(Autoproxy::is_support());
}

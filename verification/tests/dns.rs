use ssl_core::dns::{derive_root_domain, dns_rr_name, rr_from_txt_name};

#[test]
fn rr_name_for_wildcard_root() {
    assert_eq!(dns_rr_name("_acme-challenge.h5por.com", "*.h5por.com"), "_acme-challenge");
}

#[test]
fn rr_name_for_wildcard_subdomain() {
    assert_eq!(
        dns_rr_name("_acme-challenge.api.h5por.com", "*.api.h5por.com"),
        "_acme-challenge.api"
    );
}

#[test]
fn root_domain_keeps_last_two_labels() {
    assert_eq!(derive_root_domain("*.a.b.h5por.com."), "h5por.com");
    assert_eq!(derive_root_domain("localhost"), "localhost");
}

#[test]
fn rr_of_zone_itself_is_at() {
    assert_eq!(rr_from_txt_name("h5por.com", "h5por.com").ok().unwrap(), "@");
}

#[test]
fn rr_outside_zone_is_refused() {
    let e = rr_from_txt_name("_acme-challenge.evil.com", "h5por.com").err().unwrap();
    assert_eq!(e.message(), "TXT 名称 _acme-challenge.evil.com 不属于根域名 h5por.com");
    assert_eq!(dns_rr_name("_acme-challenge.evil.com.", "h5por.com"), "_acme-challenge.evil.com");
}

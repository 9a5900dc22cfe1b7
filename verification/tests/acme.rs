use ssl_core::acme::{challenge_for_identifier, clean_dns_identifier, normalize_session_challenges, OrderSession};
use ssl_core::dns::DnsChallengeInfo;

#[test]
fn wildcard_identifier_uses_root_txt_name() {
    assert_eq!(clean_dns_identifier("*.h5por.com"), "h5por.com");
}

#[test]
fn normalizes_old_wildcard_order_session() {
    let mut session = OrderSession {
        order_url: "https://example.com/order".to_string(),
        challenges: vec![DnsChallengeInfo {
            domain: "*.h5por.com".to_string(),
            txt_name: "_acme-challenge.*.h5por.com".to_string(),
            rr_name: "_acme-challenge.*".to_string(),
            txt_value: "value".to_string(),
        }],
    };
    normalize_session_challenges(&mut session);
    assert_eq!(session.challenges[0].domain, "h5por.com");
    assert_eq!(session.challenges[0].txt_name, "_acme-challenge.h5por.com");
    assert_eq!(session.challenges[0].rr_name, "_acme-challenge");
}

#[test]
fn identifier_without_wildcard_is_trimmed() {
    assert_eq!(clean_dns_identifier("  api.h5por.com.  "), "api.h5por.com");
}

#[test]
fn challenge_for_subdomain_identifier() {
    let c = challenge_for_identifier("*.api.h5por.com", "digest".to_string());
    assert_eq!(c.domain, "api.h5por.com");
    assert_eq!(c.txt_name, "_acme-challenge.api.h5por.com");
    assert_eq!(c.rr_name, "_acme-challenge.api");
    assert_eq!(c.txt_value, "digest");
}

#[test]
fn normalizing_rebuilds_plain_txt_names() {
    let mut session = OrderSession {
        order_url: "u".to_string(),
        challenges: vec![DnsChallengeInfo {
            domain: "www.h5por.com".to_string(),
            txt_name: "stale".to_string(),
            rr_name: "stale".to_string(),
            txt_value: "v".to_string(),
        }],
    };
    normalize_session_challenges(&mut session);
    assert_eq!(session.challenges[0].txt_name, "_acme-challenge.www.h5por.com");
    assert_eq!(session.challenges[0].rr_name, "_acme-challenge.www");
    assert_eq!(session.order_url, "u");
}

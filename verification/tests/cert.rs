use ssl_core::cert::{cert_status_from_pem, missing_cert_status};

const PEM: &str = "-----BEGIN CERTIFICATE-----
MIIB8TCCAVqgAwIBAgIBATANBgkqhkiG9w0BAQsFADAUMRIwEAYDVQQDDAloNXBv
ci5jb20wHhcNMjYxMTE4MDAyOTU2WhcNMzYxMTE1MDAyOTU2WjAUMRIwEAYDVQQD
DAloNXBvci5jb20wgZ8wDQYJKoZIhvcNAQEBBQADgY0AMIGJAoGBALypUJf2P1Na
Kd90CuLpIqyHH1S7WYnee+6Cyn7dnDqoO9Wp2VXPR3Y4Mk9aRkQm20hvA/0Iz8At
KwWS0mzSVzgrfblr2uqaWsRxFmgg3n2HDEIYPUrSU2MIYAZeH+Z1ko24/bKJ0Ney
Uz/kLSYhzsabZuM+s6xXIPrdF/JjOOp5AgMBAAGjUzBRMB0GA1UdDgQWBBSWkjM1
iy9sZCDANNFOLLBbGtGH+jAfBgNVHSMEGDAWgBSWkjM1iy9sZCDANNFOLLBbGtGH
+jAPBgNVHRMBAf8EBTADAQH/MA0GCSqGSIb3DQEBCwUAA4GBACX2yEOEuiYja60E
kupdlsQig9yzm9kH5Ta8m6NSa1EbHDRdqi610aG9u4ZHs3M0Ucy+Fo+lr6rb1T6c
dWJnt8p88ZVMioprUytUDtnrTkn/+J8YH3gsjkUQ1GA+62k04zqunmv8Oz2xUXzO
8OdQz6YeSIHvB+KnA+//TAJ3lwwx
-----END CERTIFICATE-----
";

/// 2026-11-18T00:00:00Z.
const NOW: i64 = 1_794_960_000;

#[test]
fn missing_certificate_needs_renewal() {
    let s = missing_cert_status("D:/cert/a.pem".to_string(), 30, false);
    assert!(!s.exists && s.should_renew);
    assert_eq!(s.message, "当前证书文件不存在，需要申请");
    let forced = missing_cert_status("D:/cert/a.pem".to_string(), 30, true);
    assert_eq!(forced.message, "当前证书文件不存在，需要申请；同时已勾选强制申请");
}

#[test]
fn certificate_far_from_expiry_is_kept() {
    let s = cert_status_from_pem("c.pem".to_string(), PEM.as_bytes(), NOW, 0, 30, false).ok().unwrap();
    assert_eq!(s.expires_at.as_deref(), Some("2036-11-15T00:29:56+00:00"));
    assert_eq!(s.days_remaining, Some(3650));
    assert!(!s.should_renew);
    assert_eq!(
        s.message,
        "当前证书到期时间：2036-11-15T00:29:56+00:00，剩余 3650 天；大于提前续期阈值 30 天，暂不需要续期"
    );
}

#[test]
fn threshold_and_force_decide_renewal() {
    let due = cert_status_from_pem("c.pem".to_string(), PEM.as_bytes(), NOW, 0, 3650, false).ok().unwrap();
    assert!(due.should_renew);
    assert_eq!(
        due.message,
        "当前证书到期时间：2036-11-15T00:29:56+00:00，剩余 3650 天；小于等于提前续期阈值 3650 天，需要续期"
    );
    let forced = cert_status_from_pem("c.pem".to_string(), PEM.as_bytes(), NOW, 0, 1, true).ok().unwrap();
    assert!(forced.should_renew);
    assert!(forced.message.ends_with("；已勾选强制申请，所以将继续申请"));
}

#[test]
fn days_round_toward_zero() {
    let expiry: i64 = 2_110_321_796;
    let late = cert_status_from_pem("c.pem".to_string(), PEM.as_bytes(), expiry + 86_399, 500, 30, false)
        .ok()
        .unwrap();
    assert_eq!(late.days_remaining, Some(0));
    let later = cert_status_from_pem("c.pem".to_string(), PEM.as_bytes(), expiry + 2 * 86_400, 1, 30, false)
        .ok()
        .unwrap();
    assert_eq!(later.days_remaining, Some(-2));
    assert!(later.message.contains("剩余 -2 天"));
}

#[test]
fn unreadable_certificate_is_reported() {
    let err = cert_status_from_pem("c.pem".to_string(), b"not a pem", NOW, 0, 30, false).err().unwrap();
    assert!(err.message().starts_with("解析 PEM 证书失败："));
}

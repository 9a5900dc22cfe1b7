use ssl_core::config::default_signer_pipe;
use ssl_core::signer::{
    authorization_proof, encrypt_secure_credentials, finish_init_config, init_config,
    is_allowed_client_process, knock_key, metadata_to_json, normalize_provider, required,
    validate_request, validate_txt_value, verify_authorization_knock, FlowGuard,
    PlainCloudflareCredentials, PlainCredentials, SealedForm, SignerInitRequest,
    SignerPresentRequest, SignerSecretsFile, PROTECTION_DPAPI_V1,
};
use ssl_core::agent::open_secure_credentials;
use ssl_core::signer::{derive_passphrase_key, SecureMetadata, SecureSignerSecrets};

fn test_config() -> SignerSecretsFile {
    SignerSecretsFile {
        version: 1,
        protection_mode: PROTECTION_DPAPI_V1.to_string(),
        provider: "aliyun".to_string(),
        root_domain: "h5por.com".to_string(),
        allowed_domains: vec!["h5por.com".to_string()],
        ttl: 600,
        pipe_name: default_signer_pipe(),
        pipe_sddl: None,
        aliyun: None,
        cloudflare: None,
        secure: None,
    }
}

fn request(domain: &str, txt_name: &str, rr_name: &str) -> SignerPresentRequest {
    SignerPresentRequest {
        domain: domain.to_string(),
        txt_name: txt_name.to_string(),
        rr_name: rr_name.to_string(),
        txt_value: "GDl4YTJXT3_xUwYpdPSrDyzj4BazOMC9vulEyapX2cY".to_string(),
    }
}

#[test]
fn signer_allows_only_acme_txt_for_allowed_domain() {
    assert!(validate_request(
        &test_config(),
        &request("*.h5por.com", "_acme-challenge.h5por.com", "_acme-challenge"),
    )
    .is_ok());
}

#[test]
fn signer_rejects_non_acme_name() {
    let err = validate_request(&test_config(), &request("*.h5por.com", "www.h5por.com", "www"))
        .err()
        .unwrap();
    assert!(err.message().contains("_acme-challenge"));
}

#[test]
fn signer_rejects_other_domain() {
    let err = validate_request(
        &test_config(),
        &request("*.evil.com", "_acme-challenge.evil.com", "_acme-challenge"),
    )
    .err()
    .unwrap();
    assert!(err.message().contains("允许域名"));
}

#[test]
fn signer_rejects_mismatched_rr_name() {
    let err = validate_request(
        &test_config(),
        &request("*.h5por.com", "_acme-challenge.h5por.com", "_acme-challenge.other"),
    )
    .err()
    .unwrap();
    assert!(err.message().contains("不匹配"));
}

#[test]
fn flow_guard_accepts_complete_path() {
    let mut flow = FlowGuard::new();
    for value in [1, 2, 3, 4, 5, 6] {
        flow.mark(value);
    }
    assert!(flow.ensure_complete().is_ok());
}

#[test]
fn flow_guard_rejects_missing_path() {
    let mut flow = FlowGuard::new();
    for value in [1, 2, 4, 5, 6] {
        flow.mark(value);
    }
    assert!(flow.ensure_complete().is_err());
}

#[test]
fn flow_guard_rejects_reordered_path() {
    let mut flow = FlowGuard::new();
    for value in [2, 1, 3, 4, 5, 6] {
        flow.mark(value);
    }
    let err = flow.ensure_complete().err().unwrap();
    assert_eq!(err.message(), "签发程序安全校验未通过");
}

#[test]
fn signer_accepts_trailing_dot_and_case() {
    assert!(validate_request(
        &test_config(),
        &request("*.h5por.com", " _ACME-Challenge.H5POR.com. ", " _ACME-challenge "),
    )
    .is_ok());
}

#[test]
fn signer_reports_name_outside_root() {
    let mut config = test_config();
    config.allowed_domains = vec!["evil.com".to_string()];
    let err = validate_request(&config, &request("*.evil.com", "_acme-challenge.evil.com", "_acme-challenge"))
        .err()
        .unwrap();
    assert_eq!(err.message(), "TXT 名称不属于 signer 根域名：h5por.com");
}

#[test]
fn txt_values_are_checked() {
    assert_eq!(validate_txt_value("short").err().unwrap().message(), "TXT 值长度不符合 ACME DNS-01 常见范围");
    assert_eq!(
        validate_txt_value("GDl4YTJXT3+xUwYpdPSrDyzj4BazOMC9vulEyapX2cY").err().unwrap().message(),
        "TXT 值包含非法字符"
    );
    assert!(validate_txt_value("  GDl4YTJXT3_xUwYpdPSrDyzj4BazOMC9vulEyapX2cY ").is_ok());
}

#[test]
fn knock_proof_is_hmac_sha256_base64() {
    assert_eq!(knock_key().len(), 24);
    let proof = authorization_proof("0123456789abcdef0123", "ssl-renew-cli.exe");
    assert_eq!(proof, "1I/wPsxCs0xhabcN/C0oRIoWSKMSRiw0YYAKNHthqOw=");
    assert!(verify_authorization_knock("0123456789abcdef0123", "ssl-renew-cli.exe", &proof, true).is_ok());
    assert!(verify_authorization_knock("0123456789abcdef0123", "ssl-renew-cli.exe", &proof, false).is_err());
    assert!(verify_authorization_knock("short", "ssl-renew-cli.exe", &proof, true).is_err());
    assert!(verify_authorization_knock("0123456789abcdef0123", "other.exe", &proof, true).is_err());
}

#[test]
fn allowed_clients_ignore_case_and_spaces() {
    assert!(is_allowed_client_process(" SSL-Renew-GUI.exe "));
    assert!(is_allowed_client_process("ssl证书自动续期.exe"));
    assert!(!is_allowed_client_process("powershell.exe"));
}

#[test]
fn provider_aliases_and_required_values() {
    assert_eq!(normalize_provider(" 阿里云 "), "aliyun");
    assert_eq!(normalize_provider("CF"), "cloudflare");
    assert_eq!(normalize_provider(" Other "), "other");
    assert_eq!(required(Some("  v ".to_string()), "x").ok().unwrap(), "v");
    assert_eq!(required(Some("   ".to_string()), "标签").err().unwrap().message(), "标签 不能为空");
}

fn init_request(mode: &str) -> SignerInitRequest {
    SignerInitRequest {
        provider: "cf".to_string(),
        root_domain: " *.h5por.com. ".to_string(),
        allowed_domains: vec![],
        ttl: None,
        pipe_name: None,
        pipe_sddl: Some("  ".to_string()),
        protection_mode: Some(mode.to_string()),
        unlock_passphrase: Some(" secret pass ".to_string()),
        aliyun_access_key_id: None,
        aliyun_access_key_secret: None,
        aliyun_endpoint: None,
        cloudflare_token: Some(" token ".to_string()),
        cloudflare_endpoint: None,
    }
}

#[test]
fn init_without_passphrase_protects_the_token() {
    let plan = init_config(init_request("dpapi_v1")).ok().unwrap();
    assert_eq!(plan.config.provider, "cloudflare");
    assert_eq!(plan.config.root_domain, "h5por.com");
    assert_eq!(plan.config.allowed_domains, vec!["h5por.com".to_string()]);
    assert_eq!(plan.config.ttl, 120);
    assert!(plan.config.pipe_sddl.is_none());
    assert_eq!(plan.to_protect, vec![b"token".to_vec()]);
    match &plan.form {
        SealedForm::Cloudflare { endpoint } => assert_eq!(endpoint, "https://api.cloudflare.com/client/v4"),
        _ => panic!("wrong form"),
    }
    let config = finish_init_config(plan, vec!["PROTECTED".to_string()]);
    assert_eq!(config.cloudflare.unwrap().token_dpapi, "PROTECTED");
    assert!(config.secure.is_none());
}

#[test]
fn init_refusals_come_in_order() {
    let mut r = init_request("dpapi_v1");
    r.root_domain = " . ".to_string();
    assert_eq!(init_config(r).err().unwrap().message(), "根域名不能为空");
    let mut r = init_request("dpapi_v1");
    r.cloudflare_token = None;
    assert_eq!(init_config(r).err().unwrap().message(), "Cloudflare API Token 不能为空");
    let mut r = init_request("dpapi_v1");
    r.provider = "route53".to_string();
    assert_eq!(init_config(r).err().unwrap().message(), "signer 暂不支持厂商：route53");
    assert_eq!(init_config(init_request("other")).err().unwrap().message(), "未知 signer 保护模式：other");
    let mut r = init_request("passphrase_dpapi_v1");
    r.unlock_passphrase = None;
    assert_eq!(init_config(r).err().unwrap().message(), "signer 解锁口令 不能为空");
}

#[test]
fn sealed_credentials_open_with_the_same_passphrase() {
    let plan = init_config(init_request("passphrase_dpapi_v1")).ok().unwrap();
    assert_eq!(plan.to_protect.len(), 1);
    let metadata_text = String::from_utf8(plan.to_protect[0].clone()).unwrap();
    assert!(metadata_text.starts_with("{\"salt\":\""));
    assert!(metadata_text.ends_with(",\"memory_cost\":19456,\"time_cost\":2,\"parallelism\":1}"));
    match plan.form {
        SealedForm::Secure { nonce, ciphertext } => {
            assert_ne!(ciphertext, "");
            let _ = (nonce, ciphertext);
        }
        _ => panic!("wrong form"),
    }
}

#[test]
fn encrypted_credentials_round_trip() {
    let plain = PlainCredentials {
        provider: "cloudflare".to_string(),
        aliyun: None,
        cloudflare: Some(PlainCloudflareCredentials {
            token: "tok\"en".to_string(),
            endpoint: "https://api.cloudflare.com/client/v4".to_string(),
        }),
    };
    let (metadata, nonce, ciphertext) = encrypt_secure_credentials(&plain, "pass").ok().unwrap();
    let json = metadata_to_json(&metadata);
    assert!(json.contains("\"memory_cost\":19456"));
    let secure = SecureSignerSecrets { metadata_dpapi: String::new(), nonce, ciphertext };
    let opened = open_secure_credentials(&secure, &metadata, "pass").ok().unwrap();
    assert_eq!(
        String::from_utf8(opened).unwrap(),
        "{\"provider\":\"cloudflare\",\"aliyun\":null,\"cloudflare\":{\"token\":\"tok\\\"en\",\"endpoint\":\"https://api.cloudflare.com/client/v4\"}}"
    );
    let wrong = open_secure_credentials(&secure, &metadata, "other").err().unwrap();
    assert_eq!(wrong.message(), "signer 解锁失败");
}

#[test]
fn key_derivation_follows_the_argon2_limits() {
    let m = SecureMetadata {
        salt: "MDEyMzQ1Njc4OWFiY2RlZg==".to_string(),
        memory_cost: 19456,
        time_cost: 2,
        parallelism: 1,
    };
    assert_eq!(derive_passphrase_key("pass", &m).ok().unwrap().len(), 32);
    let many_lanes = SecureMetadata { parallelism: 0x2000_0000, memory_cost: m.memory_cost, time_cost: m.time_cost, salt: m.salt.clone() };
    assert_eq!(derive_passphrase_key("pass", &many_lanes).err().unwrap().message(), "signer 口令派生失败");
    let short_salt = SecureMetadata { salt: "YWJj".to_string(), memory_cost: m.memory_cost, time_cost: m.time_cost, parallelism: 1 };
    assert_eq!(derive_passphrase_key("pass", &short_salt).err().unwrap().message(), "signer 口令派生失败");
    let bad_salt = SecureMetadata { salt: "not base64!".to_string(), memory_cost: m.memory_cost, time_cost: m.time_cost, parallelism: 1 };
    assert_eq!(derive_passphrase_key("pass", &bad_salt).err().unwrap().message(), "signer salt 不是合法 base64");
}

use ssl_core::agent::{
    authorization_request, authorize_session, check_frame_length, check_start_environment,
    continue_present, error_response, finish_present, finish_sealed_unlock, finish_unlock, frame,
    legacy_credentials, legacy_protected_texts, lock_session, open_for_unlock,
    present_after_authorization, runtime_status, signer_status, signer_status_text, start_present,
    status_response, unlock_source, PresentStart, SignerRuntime, UnlockSource,
};
use ssl_core::config::default_signer_pipe;
use ssl_core::signer::{
    authorization_proof, AliyunSignerSecrets, PlainAliyunCredentials, PlainCredentials,
    RuntimeCredentials, SignerPipeRequest, SignerPresentRequest, SignerResponse,
    SignerSecretsFile,
};

fn config(mode: &str) -> SignerSecretsFile {
    SignerSecretsFile {
        version: 1,
        protection_mode: mode.to_string(),
        provider: "aliyun".to_string(),
        root_domain: "h5por.com".to_string(),
        allowed_domains: vec!["h5por.com".to_string(), "api.h5por.com".to_string()],
        ttl: 600,
        pipe_name: default_signer_pipe(),
        pipe_sddl: None,
        aliyun: Some(AliyunSignerSecrets {
            access_key_id_dpapi: "ID".to_string(),
            access_key_secret_dpapi: "SECRET".to_string(),
            endpoint: "https://alidns.aliyuncs.com/".to_string(),
        }),
        cloudflare: None,
        secure: None,
    }
}

fn write() -> SignerPresentRequest {
    SignerPresentRequest {
        domain: "*.api.h5por.com".to_string(),
        txt_name: "_acme-challenge.api.h5por.com".to_string(),
        rr_name: "_acme-challenge.api".to_string(),
        txt_value: "GDl4YTJXT3_xUwYpdPSrDyzj4BazOMC9vulEyapX2cY".to_string(),
    }
}

fn creds() -> RuntimeCredentials {
    RuntimeCredentials::Aliyun {
        access_key_id: "id".to_string(),
        access_key_secret: "secret".to_string(),
        endpoint: "e".to_string(),
    }
}

const NOW: i64 = 1_800_000_000_000;

fn authorize(rt: &mut SignerRuntime, now: i64) {
    let nonce = "0123456789abcdef0123";
    let proof = authorization_proof(nonce, "ssl-renew-cli.exe");
    let resp = authorize_session(rt, nonce, "ssl-renew-cli.exe", &proof, true, now).ok().unwrap();
    assert!(resp.ok);
    assert_eq!(resp.message, "signer 授权会话已建立");
}

#[test]
fn authorization_lasts_three_hundred_seconds() {
    let mut rt = SignerRuntime::new(config("passphrase_dpapi_v1"));
    assert!(!runtime_status(&rt, NOW).authorized);
    authorize(&mut rt, NOW);
    assert_eq!(rt.authorized_until, Some(NOW + 300_000));
    assert!(runtime_status(&rt, NOW + 299_999).authorized);
    assert!(!runtime_status(&rt, NOW + 300_000).authorized);
}

#[test]
fn failed_knock_changes_nothing() {
    let mut rt = SignerRuntime::new(config("passphrase_dpapi_v1"));
    let err = authorize_session(&mut rt, "0123456789abcdef0123", "ssl-renew-cli.exe", "bad", true, NOW)
        .err()
        .unwrap();
    assert_eq!(err.message(), "签发程序安全校验未通过");
    assert!(rt.authorized_until.is_none());
    let resp = error_response(&err);
    assert!(!resp.ok && resp.status.is_none());
}

#[test]
fn lock_forgets_credentials_and_authorization() {
    let mut rt = SignerRuntime::new(config("passphrase_dpapi_v1"));
    authorize(&mut rt, NOW);
    finish_unlock(&mut rt, creds(), NOW);
    assert!(runtime_status(&rt, NOW).unlocked);
    let resp = lock_session(&mut rt, NOW);
    assert_eq!(resp.message, "signer 已锁定");
    let status = resp.status.unwrap();
    assert!(!status.unlocked && !status.authorized);
    let legacy = SignerRuntime::new(config("dpapi_v1"));
    assert!(runtime_status(&legacy, NOW).unlocked);
}

#[test]
fn status_message_names_both_states() {
    let mut rt = SignerRuntime::new(config("passphrase_dpapi_v1"));
    assert_eq!(status_response(&rt, NOW).message, "signer 状态：未解锁，授权：无效");
    authorize(&mut rt, NOW);
    finish_unlock(&mut rt, creds(), NOW);
    assert_eq!(status_response(&rt, NOW).message, "signer 状态：已解锁，授权：有效");
}

#[test]
fn present_needs_time_zone_hour_authorization_and_unlock() {
    let mut rt = SignerRuntime::new(config("passphrase_dpapi_v1"));
    assert_eq!(check_start_environment(0, 10).err().unwrap().message(), "signer 仅允许在东八区启动");
    assert_eq!(
        check_start_environment(28800, 5).err().unwrap().message(),
        "signer 仅允许在 06:00 到 24:00 之间启动"
    );
    assert_eq!(start_present(&rt, &write(), 0, 10, NOW).err().unwrap().message(), "签发程序安全校验未通过");
    assert_eq!(
        start_present(&rt, &write(), 28800, 10, NOW).err().unwrap().message(),
        "signer 未授权，请先由主程序建立授权会话"
    );
    authorize(&mut rt, NOW);
    assert_eq!(
        start_present(&rt, &write(), 28800, 10, NOW).err().unwrap().message(),
        "signer 未解锁，请先输入口令解锁"
    );
    finish_unlock(&mut rt, creds(), NOW);
    let plan = match start_present(&rt, &write(), 28800, 10, NOW).ok().unwrap() {
        PresentStart::Ready(plan) => plan,
        _ => panic!("expected a ready plan"),
    };
    let resp = finish_present(&rt, plan, &write(), "2026-06-24 10:00:00", NOW).ok().unwrap();
    assert_eq!(resp.message, "2026-06-24 10:00:00 signer 已写入 TXT：_acme-challenge.api.h5por.com");
    assert!(resp.status.unwrap().unlocked);
}

#[test]
fn protected_secrets_are_opened_before_the_write() {
    let mut rt = SignerRuntime::new(config("dpapi_v1"));
    authorize(&mut rt, NOW);
    let (texts, cfg, flow) = match start_present(&rt, &write(), 28800, 23, NOW).ok().unwrap() {
        PresentStart::NeedsProtected { texts, config, flow } => (texts, config, flow),
        _ => panic!("expected protected secrets"),
    };
    assert_eq!(texts, vec!["ID".to_string(), "SECRET".to_string()]);
    let plan = continue_present(cfg, &write(), flow, vec!["id".to_string(), "secret".to_string()])
        .ok()
        .unwrap();
    match &plan.credentials {
        RuntimeCredentials::Aliyun { access_key_id, access_key_secret, endpoint } => {
            assert_eq!(access_key_id, "id");
            assert_eq!(access_key_secret, "secret");
            assert_eq!(endpoint, "https://alidns.aliyuncs.com/");
        }
        _ => panic!("wrong credentials"),
    }
    assert!(finish_present(&rt, plan, &write(), "t", NOW).is_ok());
}

#[test]
fn refused_write_is_reported() {
    let mut rt = SignerRuntime::new(config("passphrase_dpapi_v1"));
    authorize(&mut rt, NOW);
    finish_unlock(&mut rt, creds(), NOW);
    let mut bad = write();
    bad.rr_name = "www".to_string();
    let err = start_present(&rt, &bad, 28800, 10, NOW).err().unwrap();
    assert_eq!(err.message(), "RR 主机记录与 TXT 名称不匹配，期望：_acme-challenge.api");
}

#[test]
fn unlock_sources_follow_the_protection_mode() {
    match unlock_source(&config("dpapi_v1")).ok().unwrap() {
        UnlockSource::Protected { texts } => assert_eq!(texts.len(), 2),
        _ => panic!("expected protected texts"),
    }
    assert_eq!(unlock_source(&config("passphrase_dpapi_v1")).err().unwrap().message(), "signer 解锁失败");
    assert_eq!(unlock_source(&config("x")).err().unwrap().message(), "签发程序安全校验未通过");
    let mut c = config("dpapi_v1");
    c.provider = "cloudflare".to_string();
    assert_eq!(legacy_protected_texts(&c).err().unwrap().message(), "缺少 Cloudflare signer 配置");
    c.provider = "route53".to_string();
    assert_eq!(legacy_protected_texts(&c).err().unwrap().message(), "signer 不支持厂商：route53");
    let creds = legacy_credentials(&config("dpapi_v1"), vec!["a".to_string(), "b".to_string()]);
    match creds {
        RuntimeCredentials::Aliyun { access_key_id, access_key_secret, .. } => {
            assert_eq!(access_key_id, "a");
            assert_eq!(access_key_secret, "b");
        }
        _ => panic!("wrong credentials"),
    }
    assert_eq!(open_for_unlock(&config("passphrase_dpapi_v1"), None, "p").err().unwrap().message(), "signer 解锁失败");
}

#[test]
fn sealed_unlock_checks_the_plaintext() {
    let mut rt = SignerRuntime::new(config("passphrase_dpapi_v1"));
    assert!(finish_sealed_unlock(&mut rt, None, NOW).is_err());
    let missing = PlainCredentials { provider: "aliyun".to_string(), aliyun: None, cloudflare: None };
    assert_eq!(finish_sealed_unlock(&mut rt, Some(missing), NOW).err().unwrap().message(), "signer 解锁失败");
    assert!(rt.unlocked_credentials.is_none());
    let good = PlainCredentials {
        provider: "aliyun".to_string(),
        aliyun: Some(PlainAliyunCredentials {
            access_key_id: "i".to_string(),
            access_key_secret: "s".to_string(),
            endpoint: "e".to_string(),
        }),
        cloudflare: None,
    };
    let resp = finish_sealed_unlock(&mut rt, Some(good), NOW).ok().unwrap();
    assert_eq!(resp.message, "signer 已解锁");
    assert!(rt.unlocked_credentials.is_some());
}

#[test]
fn frames_carry_a_little_endian_length() {
    assert_eq!(frame(b"abc"), vec![3, 0, 0, 0, b'a', b'b', b'c']);
    assert_eq!(check_frame_length(65536).ok().unwrap(), 65536);
    assert_eq!(check_frame_length(65537).err().unwrap().message(), "signer 请求过大");
}

#[test]
fn status_text_lists_the_configuration() {
    assert_eq!(
        signer_status_text(&config("dpapi_v1")),
        "signer 已初始化：provider=aliyun, protection_mode=dpapi_v1, root_domain=h5por.com, allowed_domains=h5por.com,api.h5por.com, pipe=\\\\.\\pipe\\ssl-renew-signer"
    );
}

#[test]
fn status_names_a_missing_configuration() {
    assert_eq!(
        signer_status("signer-state/signer-secrets.yaml", None),
        "未初始化 signer：signer-state/signer-secrets.yaml"
    );
    let c = config("passphrase_dpapi_v1");
    assert_eq!(signer_status("x", Some(&c)), signer_status_text(&c));
}

#[test]
fn client_sends_the_write_only_after_authorization() {
    let req = authorization_request("0123456789abcdef0123".to_string(), "ssl-renew-cli.exe".to_string());
    match req {
        SignerPipeRequest::Authorize { proof, .. } => {
            assert_eq!(proof, "1I/wPsxCs0xhabcN/C0oRIoWSKMSRiw0YYAKNHthqOw=")
        }
        _ => panic!("wrong request"),
    }
    let refused = SignerResponse { ok: false, message: "no".to_string(), status: None };
    assert!(present_after_authorization(refused, write()).is_err());
    let accepted = SignerResponse { ok: true, message: "ok".to_string(), status: None };
    assert!(matches!(
        present_after_authorization(accepted, write()),
        Ok(SignerPipeRequest::Present { .. })
    ));
}

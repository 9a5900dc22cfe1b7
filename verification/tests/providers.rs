use ssl_core::config::{default_profile, EnvSnapshot};
use ssl_core::dns::DnsChallengeInfo;
use ssl_core::providers::{
    aliyun_api_error, aliyun_describe_params, aliyun_request_query, aliyun_signed_query, aliyun_write, build_provider,
    cf_api_error, cf_record_body, cf_record_from, cf_url, cf_write, cf_zone_id, cf_zone_path,
    percent_encode, pick_aliyun_record, signature, txt_visible, wait_step, AliRecord,
    AliRecordFields, AliyunDnsProvider, AliyunWrite, CfWrite, DnsProviderChoice, WaitStep,
};

fn env(pairs: &[(&str, &str)]) -> EnvSnapshot {
    EnvSnapshot { vars: pairs.iter().map(|(k, v)| (k.to_string(), v.to_string())).collect() }
}

fn provider() -> AliyunDnsProvider {
    AliyunDnsProvider::new(
        "testid".to_string(),
        "testsecret".to_string(),
        "h5por.com".to_string(),
        "https://alidns.aliyuncs.com/".to_string(),
    )
}

fn challenge(value: &str) -> DnsChallengeInfo {
    DnsChallengeInfo {
        domain: "h5por.com".to_string(),
        txt_name: "_acme-challenge.h5por.com".to_string(),
        rr_name: "_acme-challenge".to_string(),
        txt_value: value.to_string(),
    }
}

#[test]
fn provider_choice_reads_nonempty_variables() {
    let mut p = default_profile("*.api.h5por.com");
    p.dns.provider = "aliyun".to_string();
    match build_provider(&p, &env(&[("Ali_Key", "k"), ("Ali_Secret", "s")])).ok().unwrap() {
        DnsProviderChoice::Aliyun(a) => {
            assert_eq!(a.access_key_id, "k");
            assert_eq!(a.root_domain, "h5por.com");
        }
        _ => panic!("expected aliyun"),
    }
    let err = build_provider(&p, &env(&[("Ali_Key", "k"), ("Ali_Secret", "")])).err().unwrap();
    assert_eq!(err.message(), "未检测到阿里云环境变量：Ali_Secret");
    p.dns.provider = "cloudflare".to_string();
    p.dns.cloudflare.root_domain = Some("zone.com".to_string());
    match build_provider(&p, &env(&[("CF_Token", "t")])).ok().unwrap() {
        DnsProviderChoice::Cloudflare(c) => assert_eq!(c.root_domain, "zone.com"),
        _ => panic!("expected cloudflare"),
    }
    assert_eq!(build_provider(&p, &env(&[])).err().unwrap().message(), "未检测到 Cloudflare 环境变量：CF_Token");
    p.dns.provider = "agent".to_string();
    assert!(matches!(build_provider(&p, &env(&[])), Ok(DnsProviderChoice::Signer(_))));
    p.dns.provider = "whatever".to_string();
    assert!(matches!(build_provider(&p, &env(&[])), Ok(DnsProviderChoice::Manual(_))));
}

#[test]
fn percent_encoding_keeps_unreserved_bytes() {
    assert_eq!(percent_encode("a b/中"), "a%20b%2F%E4%B8%AD");
    assert_eq!(percent_encode("A-z_0.9~"), "A-z_0.9~");
}

#[test]
fn aliyun_signature_matches_reference() {
    let params = aliyun_describe_params(&provider(), "_acme-challenge");
    let signed = aliyun_signed_query(&provider(), &params, "2026-06-24T02:00:00Z".to_string(), "nonce-1".to_string());
    assert_eq!(signed.get("Signature").unwrap(), "UUG+H4hNp6y1khUSML77gPTKDic=");
    assert_eq!(signed.get("Action").unwrap(), "DescribeDomainRecords");
    assert_eq!(signed.get("Format").unwrap(), "JSON");
    assert_eq!(signed.len(), 12);
    let mut without = aliyun_signed_query(&provider(), &params, "2026-06-24T02:00:00Z".to_string(), "nonce-1".to_string());
    without.remove("Signature");
    assert_eq!(signature("testsecret", &without), "UUG+H4hNp6y1khUSML77gPTKDic=");
}

#[test]
fn aliyun_writes_add_update_or_nothing() {
    let p = provider();
    assert!(matches!(
        aliyun_write(&p, &challenge("v"), "_acme-challenge", Some(AliRecord { record_id: "1".to_string(), value: "v".to_string() })),
        AliyunWrite::AlreadyCurrent
    ));
    match aliyun_write(&p, &challenge("new"), "_acme-challenge", Some(AliRecord { record_id: "1".to_string(), value: "old".to_string() })) {
        AliyunWrite::Update(m) => {
            assert_eq!(m.get("Action").unwrap(), "UpdateDomainRecord");
            assert_eq!(m.get("RecordId").unwrap(), "1");
            assert_eq!(m.get("TTL").unwrap(), "600");
        }
        _ => panic!("expected an update"),
    }
    match aliyun_write(&p, &challenge("new"), "_acme-challenge", None) {
        AliyunWrite::Add(m) => {
            assert_eq!(m.get("Action").unwrap(), "AddDomainRecord");
            assert_eq!(m.get("DomainName").unwrap(), "h5por.com");
            assert_eq!(m.get("Value").unwrap(), "new");
        }
        _ => panic!("expected an add"),
    }
}

#[test]
fn aliyun_record_lookup_takes_the_first_match() {
    let records = vec![
        AliRecordFields { rr: Some("www".to_string()), record_id: Some("0".to_string()), value: None },
        AliRecordFields { rr: Some("_acme-challenge".to_string()), record_id: None, value: Some("v".to_string()) },
        AliRecordFields { rr: Some("_acme-challenge".to_string()), record_id: Some("2".to_string()), value: None },
    ];
    let r = pick_aliyun_record(&records, "_acme-challenge").unwrap();
    assert_eq!(r.record_id, "");
    assert_eq!(r.value, "v");
    assert!(pick_aliyun_record(&records, "api").is_none());
    assert_eq!(aliyun_api_error(true, true, "{}").unwrap(), "阿里云 API 错误：{}");
    assert!(aliyun_api_error(true, false, "{}").is_none());
}

#[test]
fn cloudflare_paths_and_bodies() {
    assert_eq!(cf_zone_path("h5por.com"), "/zones?name=h5por.com&status=active");
    assert_eq!(cf_zone_id(None, "h5por.com").err().unwrap(), "Cloudflare 未找到 Zone：h5por.com");
    assert_eq!(cf_url("https://api.cloudflare.com/client/v4//", "/zones"), "https://api.cloudflare.com/client/v4/zones");
    assert_eq!(
        cf_record_body("_acme-challenge.h5por.com", "v\"1"),
        "{\"content\":\"v\\\"1\",\"name\":\"_acme-challenge.h5por.com\",\"ttl\":120,\"type\":\"TXT\"}"
    );
    let found = cf_record_from(Some((Some("rid".to_string()), None))).unwrap();
    assert_eq!(found.content, "");
    match cf_write("z", &challenge("v"), Some(found)) {
        CfWrite::Update { path, .. } => assert_eq!(path, "/zones/z/dns_records/rid"),
        _ => panic!("expected an update"),
    }
    match cf_write("z", &challenge("v"), None) {
        CfWrite::Create { path, .. } => assert_eq!(path, "/zones/z/dns_records"),
        _ => panic!("expected a create"),
    }
    assert_eq!(cf_api_error(true, true, "b").unwrap(), "Cloudflare API 错误：b");
}

#[test]
fn waiting_reports_pending_records() {
    let cs = vec![challenge("a"), DnsChallengeInfo { txt_name: "_acme-challenge.api.h5por.com".to_string(), ..challenge("b") }];
    assert!(matches!(wait_step(&cs, &vec![true, true], false), WaitStep::Done));
    match wait_step(&cs, &vec![false, false], false) {
        WaitStep::Wait(m) => assert_eq!(m, "等待 DNS TXT 生效：_acme-challenge.h5por.com, _acme-challenge.api.h5por.com"),
        _ => panic!("expected to wait"),
    }
    match wait_step(&cs, &vec![true, false], true) {
        WaitStep::TimedOut(m) => assert_eq!(m, "DNS TXT 记录超时未生效：_acme-challenge.api.h5por.com"),
        _ => panic!("expected a timeout"),
    }
    assert!(txt_visible(&vec!["x".to_string(), "v".to_string()], "v"));
    assert!(!txt_visible(&vec![], "v"));
}

#[test]
fn each_request_is_signed_with_a_fresh_uuid_nonce() {
    let p = provider();
    let params = aliyun_describe_params(&p, "_acme-challenge");
    let a = aliyun_request_query(&p, &params);
    let b = aliyun_request_query(&p, &params);
    let nonce = a.get("SignatureNonce").unwrap().clone();
    assert_eq!(nonce.len(), 36);
    assert!(nonce.chars().enumerate().all(|(i, c)| if [8, 13, 18, 23].contains(&i) {
        c == '-'
    } else {
        c.is_ascii_digit() || ('a'..='f').contains(&c)
    }));
    assert_ne!(&nonce, b.get("SignatureNonce").unwrap());
    assert!(a.get("Timestamp").unwrap().ends_with('Z'));
    assert_eq!(a.get("Action").unwrap(), "DescribeDomainRecords");
    assert!(a.contains_key("Signature"));
}

use ssl_core::config::{
    default_app_settings, default_env_groups, default_monitor_config, default_profile,
    environment_group_status, normalize_store, resolve_profile_environment_group,
    safe_domain_filename, validate_store, DnsProviderKind, EnvGroupEntry, EnvSnapshot,
    EnvironmentGroup, Profile, Store, VendorEnvEntry,
};
use ssl_core::smap::StrMap;

fn store_with(profiles: Vec<Profile>, groups: Vec<(&str, EnvironmentGroup)>, default_groups: bool) -> Store {
    let mut map = StrMap::new();
    let current = profiles[0].domain.clone();
    for p in profiles {
        let key = p.domain.clone();
        map.insert(key, p);
    }
    let mut env_groups = if default_groups { default_env_groups() } else { StrMap::new() };
    for (id, g) in groups {
        env_groups.insert(id.to_string(), g);
    }
    Store {
        current_domain: current,
        env_groups,
        vendor_configs: StrMap::new(),
        profiles: map,
        monitor: default_monitor_config(),
        app_settings: default_app_settings(),
    }
}

fn entry(alias: &str, env_name: &str) -> EnvGroupEntry {
    EnvGroupEntry { alias: alias.to_string(), env_name: env_name.to_string() }
}

fn env(pairs: &[(&str, &str)]) -> EnvSnapshot {
    EnvSnapshot { vars: pairs.iter().map(|(k, v)| (k.to_string(), v.to_string())).collect() }
}

#[test]
fn safe_domain_matches_python_style() {
    assert_eq!(safe_domain_filename("*.h5por.com"), "wildcard.h5por.com");
}

#[test]
fn safe_file_names_are_stable() {
    let name = safe_domain_filename("  *.a/b\\c*d  ");
    assert_eq!(name, "wildcard.a_b_cwildcardd");
    assert!(!name.contains('*') && !name.contains('/') && !name.contains('\\'));
    assert_eq!(safe_domain_filename(&name), name);
    assert_eq!(safe_domain_filename(" api.h5por.com "), "api.h5por.com");
}

/// The store a profiles file with a legacy `vendor_configs` list reads as:
/// only the domain, email, expiry threshold, file paths and provider are
/// set, every other setting takes its default.
#[test]
fn profiles_yaml_is_compatible() {
    let mut profile = default_profile("*.h5por.com");
    profile.email = "admin@h5por.com".to_string();
    profile.renew.days_before_expiry = 8;
    profile.paths.cert_file = "D:/cert/h5por.com.pem".to_string();
    profile.paths.key_file = "D:/cert/h5por.com.key".to_string();
    profile.dns.provider = "aliyun".to_string();
    let mut store = store_with(vec![profile], vec![], true);
    store.vendor_configs.insert(
        "aliyun".to_string(),
        vec![
            VendorEnvEntry { alias: "AccessKeyId".to_string(), key: "LEGACY_ALI_KEY".to_string() },
            VendorEnvEntry { alias: "AccessKeySecret".to_string(), key: "LEGACY_ALI_SECRET".to_string() },
        ],
    );
    store.monitor.enabled = false;
    normalize_store(&mut store);
    let p = store.profiles.get("*.h5por.com").unwrap();
    assert_eq!(p.dns.provider, "aliyun");
    assert_eq!(f64::from_bits(p.paths.max_log_size_mb_bits), 10.0);
    assert_eq!(p.nginx.restart_mode, "kill_start");
    assert!(store.env_groups.contains_key("aliyun"));
    assert!(store.env_groups.contains_key("cloudflare"));
    assert_eq!(store.env_groups.get("aliyun").unwrap().entries[0].env_name, "LEGACY_ALI_KEY");
    let legacy_profile = resolve_profile_environment_group(&store, p, &env(&[])).ok().unwrap();
    assert_eq!(legacy_profile.dns.aliyun.access_key_id_env, "Ali_Key");
}

#[test]
fn store_rejects_deleting_a_referenced_environment_group() {
    let mut profile = default_profile("*.example.com");
    profile.dns.env_group_id = Some("aliyun".to_string());
    let mut store = store_with(vec![profile], vec![], true);
    store.env_groups.remove("aliyun");
    let message = validate_store(&store).err().unwrap().message();
    assert!(message.contains("不存在的环境变量组"));
}

#[test]
fn missing_profiles_file_uses_example_domain() {
    let profile = default_profile("*.example.com");
    assert_eq!(profile.domain, "*.example.com");
    assert_eq!(profile.email, "admin@example.com");
    assert!(profile.paths.cert_file.contains("wildcard.example.com"));
}

#[test]
fn selected_group_maps_aliyun_aliases_and_checks_all_entries() {
    let mut profile = default_profile("*.example.com");
    profile.dns.provider = "aliyun".to_string();
    profile.dns.env_group_id = Some("aliyun-a".to_string());
    let store = store_with(
        vec![profile.copy()],
        vec![(
            "aliyun-a",
            EnvironmentGroup {
                name: "阿里云A".to_string(),
                entries: vec![
                    entry("AccessKeyId", "SSL_RENEW_TEST_ALI_A_ID"),
                    entry("AccessKeySecret", "SSL_RENEW_TEST_ALI_A_SECRET"),
                    entry("任意附加变量", "SSL_RENEW_TEST_ALI_A_EXTRA"),
                ],
            },
        )],
        true,
    );
    let vars = env(&[
        ("SSL_RENEW_TEST_ALI_A_ID", "id-value"),
        ("SSL_RENEW_TEST_ALI_A_SECRET", "secret-value"),
        ("SSL_RENEW_TEST_ALI_A_EXTRA", "extra-value"),
    ]);
    let resolved = resolve_profile_environment_group(&store, &profile, &vars).ok().unwrap();
    assert_eq!(resolved.dns.aliyun.access_key_id_env, "SSL_RENEW_TEST_ALI_A_ID");
    assert_eq!(resolved.dns.aliyun.access_key_secret_env, "SSL_RENEW_TEST_ALI_A_SECRET");
    let status = environment_group_status(&store, &profile, &vars).ok().unwrap().unwrap();
    assert!(status.variables.iter().all(|item| item.is_set));
    for item in &status.variables {
        assert!(!item.env_name.contains("value"));
        assert!(!item.alias.contains("value"));
    }
}

#[test]
fn selected_group_reports_missing_alias_or_environment_variable() {
    let mut profile = default_profile("*.example.com");
    profile.dns.provider = "aliyun".to_string();
    profile.dns.env_group_id = Some("incomplete".to_string());
    let store = store_with(
        vec![profile.copy()],
        vec![(
            "incomplete",
            EnvironmentGroup {
                name: "不完整组".to_string(),
                entries: vec![entry("AccessKeyId", "SSL_RENEW_TEST_MISSING_ID")],
            },
        )],
        false,
    );
    let error = resolve_profile_environment_group(&store, &profile, &env(&[])).err().unwrap().message();
    assert!(error.contains("SSL_RENEW_TEST_MISSING_ID"));
    let error = resolve_profile_environment_group(
        &store,
        &profile,
        &env(&[("SSL_RENEW_TEST_MISSING_ID", "id-value")]),
    )
    .err()
    .unwrap()
    .message();
    assert!(error.contains("AccessKeySecret"));
}

#[test]
fn selected_group_maps_cloudflare_alias_and_prechecks_manual_dns() {
    let mut cloudflare = default_profile("*.cloudflare.example.com");
    cloudflare.dns.provider = "cloudflare".to_string();
    cloudflare.dns.env_group_id = Some("cloudflare-a".to_string());
    let mut manual = default_profile("*.manual.example.com");
    manual.dns.provider = "manual".to_string();
    manual.dns.env_group_id = Some("cloudflare-a".to_string());
    let store = store_with(
        vec![cloudflare.copy(), manual.copy()],
        vec![(
            "cloudflare-a",
            EnvironmentGroup {
                name: "Cloudflare A".to_string(),
                entries: vec![entry("API Token", "SSL_RENEW_TEST_CF_A_TOKEN")],
            },
        )],
        false,
    );
    let vars = env(&[("SSL_RENEW_TEST_CF_A_TOKEN", "token-value")]);
    let resolved = resolve_profile_environment_group(&store, &cloudflare, &vars).ok().unwrap();
    assert_eq!(resolved.dns.cloudflare.api_token_env, "SSL_RENEW_TEST_CF_A_TOKEN");
    let resolved_manual = resolve_profile_environment_group(&store, &manual, &vars).ok().unwrap();
    assert_eq!(resolved_manual.dns.provider, "manual");
}

#[test]
fn status_depends_only_on_whether_variables_are_set() {
    let mut profile = default_profile("*.example.com");
    profile.dns.env_group_id = Some("aliyun".to_string());
    let store = store_with(vec![profile.copy()], vec![], true);
    let a = environment_group_status(&store, &profile, &env(&[("Ali_Key", "one"), ("Ali_Secret", "two")]))
        .ok()
        .unwrap()
        .unwrap();
    let b = environment_group_status(&store, &profile, &env(&[("Ali_Key", "three"), ("Ali_Secret", "four")]))
        .ok()
        .unwrap()
        .unwrap();
    assert_eq!(a.group_id, "aliyun");
    assert_eq!(a.variables.len(), b.variables.len());
    for (x, y) in a.variables.iter().zip(b.variables.iter()) {
        assert_eq!(x.is_set, y.is_set);
        assert_eq!(x.env_name, y.env_name);
        assert!(x.is_set);
    }
    let blank = environment_group_status(&store, &profile, &env(&[("Ali_Key", "  ")])).ok().unwrap().unwrap();
    assert!(blank.variables.iter().all(|v| !v.is_set));
}

#[test]
fn profile_without_group_keeps_its_variable_names() {
    let profile = default_profile("*.example.com");
    let store = store_with(vec![profile.copy()], vec![], true);
    let resolved = resolve_profile_environment_group(&store, &profile, &env(&[])).ok().unwrap();
    assert_eq!(resolved.dns.aliyun.access_key_id_env, profile.dns.aliyun.access_key_id_env);
    assert!(environment_group_status(&store, &profile, &env(&[])).ok().unwrap().is_none());
}

#[test]
fn normalize_fills_paths_and_current_domain() {
    let mut profile = default_profile("*.h5por.com");
    profile.paths.cert_file = String::new();
    let mut store = store_with(vec![profile], vec![], true);
    store.current_domain = "missing".to_string();
    normalize_store(&mut store);
    assert_eq!(store.current_domain, "*.h5por.com");
    let p = store.profiles.get("*.h5por.com").unwrap();
    assert_eq!(p.paths.cert_file, "D:/cert/wildcard.h5por.com.pem");
    assert!(validate_store(&store).is_ok());
}

#[test]
fn provider_names_are_normalized() {
    assert!(DnsProviderKind::from_value(" ALI ") == DnsProviderKind::Aliyun);
    assert!(DnsProviderKind::from_value("cf") == DnsProviderKind::Cloudflare);
    assert!(DnsProviderKind::from_value("签发程序") == DnsProviderKind::Signer);
    assert!(DnsProviderKind::from_value("other") == DnsProviderKind::Manual);
    assert_eq!(DnsProviderKind::Signer.as_str(), "signer");
}

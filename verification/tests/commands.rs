use ssl_core::commands::{
    apply_profile_set, env_group_add, env_group_add_entry, env_group_delete, env_group_remove_entry,
    env_group_rename, find_profile, initial_store, profile_add, profile_delete, profile_set,
    ProfileSetArgs,
};
use ssl_core::config::{default_profile, validate_store};

fn set_args(domain: &str) -> ProfileSetArgs {
    ProfileSetArgs {
        domain: domain.to_string(),
        new_domain: None,
        email: None,
        cert_file: None,
        key_file: None,
        days_before_expiry: None,
        dns_provider: None,
        env_group: None,
        nginx_enabled: None,
        nginx_restart_mode: None,
        nginx_exe: None,
        nginx_workdir: None,
        signer_pipe: None,
        log_file: None,
        max_log_size_mb_bits: None,
    }
}

#[test]
fn initial_store_holds_the_example_profile() {
    let store = initial_store();
    assert_eq!(store.current_domain, "*.example.com");
    assert_eq!(store.profiles.len(), 1);
    assert_eq!(store.profiles.get("*.example.com").unwrap().email, "admin@example.com");
    assert!(store.env_groups.contains_key("aliyun"));
    assert!(validate_store(&store).is_ok());
}

#[test]
fn profiles_are_added_and_deleted() {
    let mut store = initial_store();
    profile_add(&mut store, "*.h5por.com".to_string());
    assert_eq!(store.current_domain, "*.h5por.com");
    assert_eq!(store.profiles.len(), 2);
    profile_delete(&mut store, "*.h5por.com");
    assert_eq!(store.current_domain, "*.example.com");
    profile_delete(&mut store, "*.example.com");
    assert_eq!(store.current_domain, "");
    assert!(find_profile(&store, None).is_err());
}

#[test]
fn profile_set_renames_and_normalizes() {
    let mut store = initial_store();
    let mut args = set_args("*.example.com");
    args.new_domain = Some("*.h5por.com".to_string());
    args.dns_provider = Some(" CF ".to_string());
    args.env_group = Some("  ".to_string());
    args.nginx_restart_mode = Some(" Reload ".to_string());
    args.days_before_expiry = Some(10);
    args.max_log_size_mb_bits = Some(5.5f64.to_bits());
    assert!(profile_set(&mut store, args).is_ok());
    assert_eq!(store.current_domain, "*.h5por.com");
    let p = find_profile(&store, None).ok().unwrap();
    assert_eq!(p.dns.provider, "cloudflare");
    assert!(p.dns.env_group_id.is_none());
    assert_eq!(p.nginx.restart_mode, "reload");
    assert_eq!(p.renew.days_before_expiry, 10);
    assert_eq!(f64::from_bits(p.paths.max_log_size_mb_bits), 5.5);
    assert!(!store.profiles.contains_key("*.example.com"));
    let err = profile_set(&mut store, set_args("*.none.com")).err().unwrap();
    assert_eq!(err.message(), "找不到配置：*.none.com");
}

#[test]
fn unknown_restart_mode_means_kill_start() {
    let mut p = default_profile("*.h5por.com");
    let mut args = set_args("*.h5por.com");
    args.nginx_restart_mode = Some("stop".to_string());
    args.env_group = Some("aliyun".to_string());
    apply_profile_set(&mut p, args);
    assert_eq!(p.nginx.restart_mode, "kill_start");
    assert_eq!(p.dns.env_group_id.as_deref(), Some("aliyun"));
}

#[test]
fn groups_are_added_renamed_and_edited() {
    let mut store = initial_store();
    assert!(env_group_add(&mut store, "阿里云A".to_string(), Some("aliyun-a".to_string()), 0).is_ok());
    assert_eq!(
        env_group_add(&mut store, "again".to_string(), Some("aliyun-a".to_string()), 0).err().unwrap().message(),
        "环境变量组 ID 已存在：aliyun-a"
    );
    assert!(env_group_add(&mut store, "auto".to_string(), None, -42).is_ok());
    assert!(store.env_groups.contains_key("env-group--42"));
    assert!(env_group_rename(&mut store, "aliyun-a", "阿里云B".to_string()).is_ok());
    assert_eq!(store.env_groups.get("aliyun-a").unwrap().name, "阿里云B");
    assert!(env_group_add_entry(&mut store, "aliyun-a", "AccessKeyId".to_string(), "A_ID".to_string()).is_ok());
    assert!(env_group_add_entry(&mut store, "aliyun-a", "Other".to_string(), "A_OTHER".to_string()).is_ok());
    assert!(env_group_remove_entry(&mut store, "aliyun-a", "AccessKeyId").is_ok());
    let g = store.env_groups.get("aliyun-a").unwrap();
    assert_eq!(g.entries.len(), 1);
    assert_eq!(g.entries[0].alias, "Other");
    assert_eq!(
        env_group_add_entry(&mut store, "nope", "a".to_string(), "b".to_string()).err().unwrap().message(),
        "找不到环境变量组：nope"
    );
}

#[test]
fn referenced_group_cannot_be_deleted() {
    let mut store = initial_store();
    let mut args = set_args("*.example.com");
    args.env_group = Some("aliyun".to_string());
    assert!(profile_set(&mut store, args).is_ok());
    assert_eq!(
        env_group_delete(&mut store, "aliyun").err().unwrap().message(),
        "环境变量组 aliyun 正被域名配置 *.example.com 引用，不能删除"
    );
    assert!(store.env_groups.contains_key("aliyun"));
    assert!(env_group_delete(&mut store, "cloudflare").is_ok());
    assert!(!store.env_groups.contains_key("cloudflare"));
    assert_eq!(env_group_delete(&mut store, "cloudflare").err().unwrap().message(), "找不到环境变量组：cloudflare");
    assert!(validate_store(&store).is_ok());
}

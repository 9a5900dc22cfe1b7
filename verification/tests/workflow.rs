use ssl_core::cert::missing_cert_status;
use ssl_core::config::default_profile;
use ssl_core::nginx::{reload_failure_message, restart_plan, NginxPlan};
use ssl_core::workflow::{
    backup_file_name, monitor_action, order_refusal, renew_start, renewed_outcome,
    temp_extension, MonitorAction, RenewStart,
};

#[test]
fn renewal_runs_only_when_due_and_unattended() {
    let mut status = missing_cert_status("c.pem".to_string(), 30, false);
    let mut profile = default_profile("*.h5por.com");
    profile.dns.provider = "aliyun".to_string();
    assert!(matches!(renew_start(&status, &profile), RenewStart::Proceed));
    profile.dns.provider = "manual".to_string();
    assert!(matches!(renew_start(&status, &profile), RenewStart::ManualDns));
    status.should_renew = false;
    match renew_start(&status, &profile) {
        RenewStart::NotDue(o) => {
            assert!(!o.renewed);
            assert_eq!(o.message, "当前证书未达到续期阈值，本轮不申请");
        }
        _ => panic!("expected not due"),
    }
    assert_eq!(order_refusal(&status, false).unwrap(), "当前证书暂不需要续期；仍要创建订单请加 --force");
    assert!(order_refusal(&status, true).is_none());
    assert!(renewed_outcome(vec![]).renewed);
}

#[test]
fn monitor_skips_manual_profiles() {
    let mut profile = default_profile("*.h5por.com");
    profile.dns.provider = "manual".to_string();
    match monitor_action("*.h5por.com", &profile) {
        MonitorAction::SkipManual(m) => assert_eq!(m, "手动DNS 无法无人值守续期，已跳过：*.h5por.com"),
        _ => panic!("expected a skip"),
    }
    profile.dns.provider = "cloudflare".to_string();
    assert!(matches!(monitor_action("*.h5por.com", &profile), MonitorAction::Renew));
}

#[test]
fn backup_and_temporary_names() {
    assert_eq!(backup_file_name(Some("a.pem"), "20260624-100000"), "a.pem.20260624-100000.bak");
    assert_eq!(backup_file_name(None, "s"), "cert.s.bak");
    assert_eq!(temp_extension(Some("pem")), "pem.tmp");
    assert_eq!(temp_extension(None), "new.tmp");
}

#[test]
fn nginx_restart_plans() {
    let mut profile = default_profile("*.h5por.com");
    profile.nginx.enabled = false;
    assert!(matches!(restart_plan(&profile.nginx), NginxPlan::Skip));
    profile.nginx.enabled = true;
    profile.nginx.restart_mode = " RELOAD ".to_string();
    assert!(matches!(restart_plan(&profile.nginx), NginxPlan::Reload { .. }));
    profile.nginx.restart_mode = "kill_start".to_string();
    profile.nginx.kill_image_name = "  ".to_string();
    match restart_plan(&profile.nginx) {
        NginxPlan::KillStart { image, .. } => assert_eq!(image, "nginx.exe"),
        _ => panic!("expected kill and start"),
    }
    assert_eq!(reload_failure_message(" boom \n"), "nginx -s reload 执行失败：boom");
}

//! The renewal run's decisions: whether a renewal is due, what a run
//! reports, and how certificate files are backed up and replaced.
use crate::cert::CertificateStatus;
use crate::config::{provider_kind_of, DnsProviderKind, Profile};
use crate::dns::DnsChallengeInfo;
use crate::text::{cat, owned};
use vstd::prelude::*;

verus! {

/// What one renewal run did.
pub struct RenewOutcome {
    pub renewed: bool,
    pub message: String,
    pub challenges: Vec<DnsChallengeInfo>,
}

/// How a renewal run goes on once the certificate has been checked.
pub enum RenewStart {
    /// Not due: the run ends with this outcome.
    NotDue(RenewOutcome),
    /// Due, but records cannot be written unattended.
    ManualDns,
    /// Due: order, write the records, wait, issue, save, restart.
    Proceed,
}

/// The text of a run that found nothing due.
pub open spec fn not_due_message() -> Seq<char> {
    "当前证书未达到续期阈值，本轮不申请"@
}

/// Decides whether a run renews: only when the certificate is due, and
/// only with a DNS provider that writes records unattended.
pub fn renew_start(status: &CertificateStatus, profile: &Profile) -> (r: RenewStart)
    ensures
        !status.should_renew ==> (r matches RenewStart::NotDue(o) && !o.renewed && o.message@
            == not_due_message() && o.challenges@.len() == 0),
        status.should_renew && provider_kind_of(profile.dns.provider@) == DnsProviderKind::Manual
            ==> r is ManualDns,
        status.should_renew && provider_kind_of(profile.dns.provider@) != DnsProviderKind::Manual
            ==> r is Proceed,
{
    if !status.should_renew {
        return RenewStart::NotDue(
            RenewOutcome {
                renewed: false,
                message: String::from_str("当前证书未达到续期阈值，本轮不申请"),
                challenges: Vec::new(),
            },
        );
    }
    match DnsProviderKind::from_value(profile.dns.provider.as_str()) {
        DnsProviderKind::Manual => RenewStart::ManualDns,
        _ => RenewStart::Proceed,
    }
}

/// Why an unattended renewal cannot run with manual DNS.
pub fn manual_dns_message() -> (r: String)
    ensures
        r@ == "当前配置是手动DNS，无法无人值守执行完整 renew"@,
{
    String::from_str("当前配置是手动DNS，无法无人值守执行完整 renew")
}

/// The outcome of a completed renewal with the challenges it answered.
pub fn renewed_outcome(challenges: Vec<DnsChallengeInfo>) -> (r: RenewOutcome)
    ensures
        r.renewed,
        r.message@ == "证书续期、保存和 Nginx 重启完成"@,
        r.challenges == challenges,
{
    RenewOutcome {
        renewed: true,
        message: String::from_str("证书续期、保存和 Nginx 重启完成"),
        challenges,
    }
}

/// Whether `order` goes on: always when forced, else only when a renewal
/// is due; otherwise it reports why not.
pub fn order_refusal(status: &CertificateStatus, force: bool) -> (r: Option<String>)
    ensures
        match r {
            Some(m) => !force && !status.should_renew && m@
                == "当前证书暂不需要续期；仍要创建订单请加 --force"@,
            None => force || status.should_renew,
        },
{
    if !force && !status.should_renew {
        Some(String::from_str("当前证书暂不需要续期；仍要创建订单请加 --force"))
    } else {
        None
    }
}

/// The name a replaced file is backed up under: its file name (`cert`
/// when it has none), the time stamp, `.bak`.
pub fn backup_file_name(file_name: Option<&str>, stamp: &str) -> (r: String)
    ensures
        r@ == (match file_name {
            Some(n) => n@,
            None => "cert"@,
        }) + "."@ + stamp@ + ".bak"@,
{
    let mut r = match file_name {
        Some(n) => owned(n),
        None => String::from_str("cert"),
    };
    r.append(".");
    r.append(stamp);
    r.append(".bak");
    r
}

/// The extension of the temporary file a file is first written to: its
/// extension (`new` when it has none) and `.tmp`.
pub fn temp_extension(extension: Option<&str>) -> (r: String)
    ensures
        r@ == (match extension {
            Some(e) => e@,
            None => "new"@,
        }) + ".tmp"@,
{
    let mut r = match extension {
        Some(e) => owned(e),
        None => String::from_str("new"),
    };
    r.append(".tmp");
    r
}

/// What the monitor does with one selected profile.
pub enum MonitorAction {
    /// Manual DNS cannot renew unattended: report and skip.
    SkipManual(String),
    /// Resolve the profile's credentials and renew.
    Renew,
}

pub fn monitor_action(domain: &str, profile: &Profile) -> (r: MonitorAction)
    ensures
        provider_kind_of(profile.dns.provider@) == DnsProviderKind::Manual ==> (r matches MonitorAction::SkipManual(m) && m@ == "手动DNS 无法无人值守续期，已跳过："@ + domain@),
        provider_kind_of(profile.dns.provider@) != DnsProviderKind::Manual ==> r is Renew,
{
    match DnsProviderKind::from_value(profile.dns.provider.as_str()) {
        DnsProviderKind::Manual => MonitorAction::SkipManual(
            cat("手动DNS 无法无人值守续期，已跳过：", domain),
        ),
        _ => MonitorAction::Renew,
    }
}

} // verus!

//! Certificate profiles and the store that holds them: defaults, the
//! normalization applied after loading, validation before saving, and the
//! environment-variable groups that name DNS credentials.
use crate::dns::root_domain_of;
use crate::smap::{key_copy, str_lt, StrMap};
use crate::text::{
    blank, cat, is_blank, lower, owned, replace, replace_slashes, replace_str,
    slashes_to_underscore, str_eq, strip_prefix, strip_prefix_str, to_ascii_lowercase,
    to_lowercase, trim, trim_end_ws, trim_start_ws, trim_ws, unicode_lower, is_ws, lower_char,
};
use vstd::prelude::*;

verus! {

/// The file the store is kept in.
pub const PROFILES_PATH: &'static str = "profiles.yaml";

/// The bits of the `f64` value 10.0, the default log size limit in megabytes.
pub const DEFAULT_MAX_LOG_SIZE_MB_BITS: u64 = 0x4024_0000_0000_0000u64;

/// A legacy (alias, environment variable) pair of a DNS vendor.
pub struct VendorEnvEntry {
    pub alias: String,
    pub key: String,
}

/// A named group of environment variable names; the values themselves are
/// never stored.
pub struct EnvironmentGroup {
    pub name: String,
    pub entries: Vec<EnvGroupEntry>,
}

/// One alias of a group and the environment variable that it names.
pub struct EnvGroupEntry {
    pub alias: String,
    pub env_name: String,
}

/// Which variables of a group are set (never their values).
pub struct EnvironmentGroupStatus {
    pub group_id: String,
    pub group_name: String,
    pub variables: Vec<EnvironmentVariableStatus>,
}

pub struct EnvironmentVariableStatus {
    pub alias: String,
    pub env_name: String,
    pub is_set: bool,
}

/// The certificate settings of one domain.
pub struct Profile {
    pub domain: String,
    pub email: String,
    pub renew: RenewConfig,
    pub paths: PathsConfig,
    pub dns: DnsConfig,
    pub nginx: NginxConfig,
}

pub struct RenewConfig {
    pub days_before_expiry: i64,
    pub force: bool,
}

/// File locations. The log size limit is a number of megabytes with a
/// fraction; it is carried as the bits of that `f64` and never computed on.
pub struct PathsConfig {
    pub state_dir: String,
    pub work_dir: String,
    pub log_file: String,
    pub cert_file: String,
    pub key_file: String,
    pub backup_dir: String,
    pub max_log_size_mb_bits: u64,
}

pub struct DnsConfig {
    pub provider: String,
    pub env_group_id: Option<String>,
    pub propagation_timeout_seconds: u64,
    pub propagation_interval_seconds: u64,
    pub resolvers: Vec<String>,
    pub aliyun: AliyunConfig,
    pub cloudflare: CloudflareConfig,
    pub signer: SignerConfig,
}

pub struct AliyunConfig {
    pub access_key_id_env: String,
    pub access_key_secret_env: String,
    pub root_domain: Option<String>,
    pub endpoint: String,
}

pub struct CloudflareConfig {
    pub api_token_env: String,
    pub root_domain: Option<String>,
    pub endpoint: String,
}

pub struct SignerConfig {
    pub pipe_name: String,
}

pub struct NginxConfig {
    pub enabled: bool,
    pub restart_mode: String,
    pub exe_path: String,
    pub working_dir: String,
    pub kill_image_name: String,
}

pub struct MonitorConfig {
    pub enabled: bool,
    pub profiles: Vec<String>,
    pub mode: String,
    pub daily_time: String,
    pub interval_minutes: u64,
    pub cron_expression: String,
}

pub struct AppSettings {
    pub theme: String,
    pub language: String,
    pub toast: ToastSettings,
    pub notification: NotificationSettings,
}

pub struct ToastSettings {
    pub enabled: bool,
    pub position: String,
    pub duration_ms: u64,
}

pub struct NotificationSettings {
    pub enabled: bool,
    pub channel: String,
    pub scope: NotificationScope,
    pub dingtalk: DingtalkNotification,
    pub telegram: TelegramNotification,
    pub feishu: FeishuNotification,
}

pub struct NotificationScope {
    pub step_check_success: bool,
    pub step_check_failure: bool,
    pub step_order_success: bool,
    pub step_order_failure: bool,
    pub step_dns_check_success: bool,
    pub step_dns_check_failure: bool,
    pub step_issue_success: bool,
    pub step_issue_failure: bool,
    pub step_restart_success: bool,
    pub step_restart_failure: bool,
    pub monitor_start: bool,
    pub monitor_stop: bool,
    pub monitor_profile_start: bool,
    pub monitor_no_renew_needed: bool,
    pub monitor_renew_needed: bool,
    pub monitor_manual_dns_skipped: bool,
    pub monitor_full_success: bool,
    pub monitor_full_failure: bool,
}

pub struct DingtalkNotification {
    pub access_token: String,
    pub secret: String,
}

pub struct TelegramNotification {
    pub bot_token: String,
    pub chat_id: String,
}

pub struct FeishuNotification {
    pub webhook_url: String,
    pub secret: String,
}

/// All profiles, the environment groups and the application settings.
pub struct Store {
    pub current_domain: String,
    pub env_groups: StrMap<EnvironmentGroup>,
    pub vendor_configs: StrMap<Vec<VendorEnvEntry>>,
    pub profiles: StrMap<Profile>,
    pub monitor: MonitorConfig,
    pub app_settings: AppSettings,
}

impl Store {
    /// The maps keep their keys in order.
    pub open spec fn wf(self) -> bool {
        &&& self.env_groups.wf()
        &&& self.vendor_configs.wf()
        &&& self.profiles.wf()
    }
}

#[derive(PartialEq, Eq, Structural)]
pub enum DnsProviderKind {
    Manual,
    Aliyun,
    Cloudflare,
    Signer,
}

/// The provider kind that a configured provider name selects.
pub open spec fn provider_kind_of(value: Seq<char>) -> DnsProviderKind {
    let v = lower(trim_ws(value));
    if v == "aliyun"@ || v == "ali"@ || v == "阿里云"@ {
        DnsProviderKind::Aliyun
    } else if v == "cloudflare"@ || v == "cf"@ {
        DnsProviderKind::Cloudflare
    } else if v == "signer"@ || v == "agent"@ || v == "签发程序"@ {
        DnsProviderKind::Signer
    } else {
        DnsProviderKind::Manual
    }
}

pub open spec fn provider_kind_name(kind: DnsProviderKind) -> Seq<char> {
    match kind {
        DnsProviderKind::Manual => "manual"@,
        DnsProviderKind::Aliyun => "aliyun"@,
        DnsProviderKind::Cloudflare => "cloudflare"@,
        DnsProviderKind::Signer => "signer"@,
    }
}

impl DnsProviderKind {
    /// Reads a provider name; anything unknown means manual DNS.
    pub fn from_value(value: &str) -> (r: Self)
        ensures
            r == provider_kind_of(value@),
    {
        let v = to_ascii_lowercase(trim(value));
        let v = v.as_str();
        if str_eq(v, "aliyun") || str_eq(v, "ali") || str_eq(v, "阿里云") {
            DnsProviderKind::Aliyun
        } else if str_eq(v, "cloudflare") || str_eq(v, "cf") {
            DnsProviderKind::Cloudflare
        } else if str_eq(v, "signer") || str_eq(v, "agent") || str_eq(v, "签发程序") {
            DnsProviderKind::Signer
        } else {
            DnsProviderKind::Manual
        }
    }

    pub fn as_str(&self) -> (r: &'static str)
        ensures
            r@ == provider_kind_name(*self),
    {
        match self {
            DnsProviderKind::Manual => "manual",
            DnsProviderKind::Aliyun => "aliyun",
            DnsProviderKind::Cloudflare => "cloudflare",
            DnsProviderKind::Signer => "signer",
        }
    }
}

/// A provider name is read without regard to surrounding whitespace or
/// ASCII case.
pub proof fn lemma_provider_name_case_blind(value: Seq<char>)
    ensures
        provider_kind_of(value) == provider_kind_of(lower(trim_ws(value))),
{
    let t = trim_ws(value);
    let l = lower(t);
    lemma_trim_edges(value);
    assert forall|i: int| 0 <= i < t.len() implies is_ws(#[trigger] l[i]) == is_ws(t[i]) by {
        if 'A' <= t[i] <= 'Z' {
            assert(!is_ws(t[i]));
            assert(!is_ws(l[i]));
        }
    }
    if l.len() > 0 {
        assert(l[0] == lower_char(t[0]));
        assert(l.last() == l[l.len() - 1]);
    }
    assert(edges_not_ws(l));
    lemma_trim_of_edges(l);
    assert(lower(l) =~= l);
}

/// A provider kind's stored name (`as_str`) reads back (`from_value`) as
/// the same kind.
pub proof fn lemma_provider_name_reads_back(k: DnsProviderKind)
    ensures
        provider_kind_of(provider_kind_name(k)) == k,
{
    reveal_strlit("manual");
    reveal_strlit("aliyun");
    reveal_strlit("cloudflare");
    reveal_strlit("signer");
    reveal_strlit("ali");
    reveal_strlit("阿里云");
    reveal_strlit("cf");
    reveal_strlit("agent");
    reveal_strlit("签发程序");
    let n = provider_kind_name(k);
    assert(edges_not_ws(n));
    lemma_trim_of_edges(n);
    assert(lower(n) =~= n);
}

/// The file name used for a domain: `*.` becomes `wildcard.`, any other `*`
/// becomes `wildcard`, and slashes become `_`.
pub open spec fn safe_name(domain: Seq<char>) -> Seq<char> {
    slashes_to_underscore(
        replace(replace(trim_ws(domain), "*."@, "wildcard."@), "*"@, "wildcard"@),
    )
}

pub fn safe_domain_filename(domain: &str) -> (r: String)
    ensures
        r@ == safe_name(domain@),
{
    proof {
        reveal_strlit("*.");
        reveal_strlit("*");
    }
    let a = replace_str(trim(domain), "*.", "wildcard.");
    let b = replace_str(a.as_str(), "*", "wildcard");
    replace_slashes(b.as_str())
}

/// A character a file name made by `safe_domain_filename` never holds.
pub open spec fn unsafe_file_char(c: char) -> bool {
    c == '*' || c == '/' || c == '\\'
}

/// Neither end of the text is whitespace.
pub open spec fn edges_not_ws(s: Seq<char>) -> bool {
    s.len() == 0 || (!is_ws(s[0]) && !is_ws(s.last()))
}

proof fn lemma_trim_start_edge(s: Seq<char>)
    ensures
        trim_start_ws(s).len() == 0 || !is_ws(trim_start_ws(s)[0]),
    decreases s.len(),
{
    if s.len() > 0 && is_ws(s[0]) {
        lemma_trim_start_edge(s.drop_first());
    }
}

proof fn lemma_trim_end_prefix(s: Seq<char>)
    ensures
        trim_end_ws(s).len() <= s.len(),
        trim_end_ws(s) == s.take(trim_end_ws(s).len() as int),
        trim_end_ws(s).len() == 0 || !is_ws(trim_end_ws(s).last()),
    decreases s.len(),
{
    if s.len() > 0 && is_ws(s.last()) {
        lemma_trim_end_prefix(s.drop_last());
        let r = trim_end_ws(s.drop_last());
        assert(s.drop_last().take(r.len() as int) =~= s.take(r.len() as int));
    } else {
        assert(s.take(s.len() as int) =~= s);
    }
}

proof fn lemma_trim_edges(s: Seq<char>)
    ensures
        edges_not_ws(trim_ws(s)),
{
    lemma_trim_start_edge(s);
    lemma_trim_end_prefix(trim_start_ws(s));
}

proof fn lemma_trim_of_edges(s: Seq<char>)
    requires
        edges_not_ws(s),
    ensures
        trim_ws(s) == s,
{
}

/// The ends of a replacement come from the ends of the text or of `to`.
proof fn lemma_replace_ends(s: Seq<char>, from: Seq<char>, to: Seq<char>)
    requires
        from.len() > 0,
        to.len() > 0,
        s.len() > 0,
    ensures
        replace(s, from, to).len() > 0,
        replace(s, from, to)[0] == s[0] || replace(s, from, to)[0] == to[0],
        replace(s, from, to).last() == s.last() || replace(s, from, to).last() == to.last(),
    decreases s.len(),
{
    if from.is_prefix_of(s) {
        let rest = s.skip(from.len() as int);
        if rest.len() > 0 {
            lemma_replace_ends(rest, from, to);
            assert(rest.last() == s.last());
        } else {
            assert(replace(rest, from, to) =~= rest);
        }
    } else {
        let rest = s.drop_first();
        if rest.len() > 0 {
            lemma_replace_ends(rest, from, to);
        } else {
            assert(replace(rest, from, to) =~= rest);
        }
    }
}

proof fn lemma_replace_keeps_edges(s: Seq<char>, from: Seq<char>, to: Seq<char>)
    requires
        from.len() > 0,
        to.len() > 0,
        !is_ws(to[0]),
        !is_ws(to.last()),
        edges_not_ws(s),
    ensures
        edges_not_ws(replace(s, from, to)),
{
    if s.len() > 0 {
        lemma_replace_ends(s, from, to);
    }
}

/// Replacing the one-character pattern `c` leaves no `c`, when `to` holds
/// none.
proof fn lemma_replace_removes(s: Seq<char>, c: char, to: Seq<char>)
    requires
        !to.contains(c),
    ensures
        !replace(s, seq![c], to).contains(c),
    decreases s.len(),
{
    if s.len() > 0 {
        if seq![c].is_prefix_of(s) {
            lemma_replace_removes(s.skip(1), c, to);
        } else {
            assert(s[0] != c) by {
                if s[0] == c {
                    assert(seq![c] =~= s.take(1));
                }
            }
            lemma_replace_removes(s.drop_first(), c, to);
        }
    }
}

/// A text with none of `c`, replacing a pattern that starts with `c`,
/// is unchanged.
proof fn lemma_replace_absent(s: Seq<char>, from: Seq<char>, to: Seq<char>)
    requires
        from.len() > 0,
        !s.contains(from[0]),
    ensures
        replace(s, from, to) == s,
    decreases s.len(),
{
    if s.len() > 0 {
        assert(!from.is_prefix_of(s)) by {
            if from.is_prefix_of(s) {
                assert(s[0] == from[0]);
            }
        }
        assert(!s.drop_first().contains(from[0])) by {
            if s.drop_first().contains(from[0]) {
                let i = choose|i: int| 0 <= i < s.drop_first().len() && s.drop_first()[i] == from[0];
                assert(s[i + 1] == from[0]);
            }
        }
        lemma_replace_absent(s.drop_first(), from, to);
        assert(seq![s[0]] + s.drop_first() =~= s);
    }
}

/// `safe_domain_filename` makes a file name: it holds no `*`, `/` or `\`,
/// has no whitespace at either end, is its own file name, and a trimmed
/// domain with none of those characters is its own file name.
pub proof fn lemma_safe_name_is_a_file_name(d: Seq<char>)
    ensures
        forall|i: int| 0 <= i < safe_name(d).len() ==> !unsafe_file_char(#[trigger] safe_name(d)[i]),
        trim_ws(safe_name(d)) == safe_name(d),
        safe_name(safe_name(d)) == safe_name(d),
        (forall|i: int| 0 <= i < trim_ws(d).len() ==> !unsafe_file_char(#[trigger] trim_ws(d)[i]))
            ==> safe_name(d) == trim_ws(d),
{
    reveal_strlit("*.");
    reveal_strlit("*");
    reveal_strlit("wildcard.");
    reveal_strlit("wildcard");
    assert("*"@ =~= seq!['*']);
    let t = trim_ws(d);
    let a = replace(t, "*."@, "wildcard."@);
    let b = replace(a, "*"@, "wildcard"@);
    let r = safe_name(d);
    assert(r == slashes_to_underscore(b));
    // No unsafe character is left.
    assert(!"wildcard"@.contains('*')) by {
        if "wildcard"@.contains('*') {
            let i = choose|i: int| 0 <= i < "wildcard"@.len() && "wildcard"@[i] == '*';
            assert(0 <= i < 8);
        }
    }
    lemma_replace_removes(a, '*', "wildcard"@);
    assert forall|i: int| 0 <= i < r.len() implies !unsafe_file_char(#[trigger] r[i]) by {
        if b[i] == '*' {
            assert(b.contains('*'));
        }
    }
    // The ends are not whitespace.
    lemma_trim_edges(d);
    lemma_replace_keeps_edges(t, "*."@, "wildcard."@);
    lemma_replace_keeps_edges(a, "*"@, "wildcard"@);
    assert(edges_not_ws(r));
    lemma_trim_of_edges(r);
    // Without unsafe characters nothing is replaced.
    assert forall|s: Seq<char>|
        edges_not_ws(s) && (forall|i: int| 0 <= i < s.len() ==> !unsafe_file_char(#[trigger] s[i]))
            implies safe_name(s) == s by {
        lemma_trim_of_edges(s);
        assert(!s.contains('*')) by {
            if s.contains('*') {
                let i = choose|i: int| 0 <= i < s.len() && s[i] == '*';
                assert(unsafe_file_char(s[i]));
            }
        }
        lemma_replace_absent(s, "*."@, "wildcard."@);
        lemma_replace_absent(s, "*"@, "wildcard"@);
        assert(slashes_to_underscore(s) =~= s) by {
            assert forall|i: int| 0 <= i < s.len() implies slashes_to_underscore(s)[i] == s[i] by {
                assert(!unsafe_file_char(s[i]));
            }
        }
    }
    if forall|i: int| 0 <= i < t.len() ==> !unsafe_file_char(#[trigger] t[i]) {
        assert(safe_name(t) == t);
        lemma_trim_of_edges(t);
    }
}

pub fn default_days_before_expiry() -> (r: i64)
    ensures
        r == 30,
{
    30
}

pub fn default_state_dir() -> (r: String)
    ensures
        r@ == "./state"@,
{
    String::from_str("./state")
}

pub fn default_work_dir() -> (r: String)
    ensures
        r@ == "./work"@,
{
    String::from_str("./work")
}

pub fn default_log_file() -> (r: String)
    ensures
        r@ == "./logs/ssl-renew.log"@,
{
    String::from_str("./logs/ssl-renew.log")
}

pub fn default_backup_dir() -> (r: String)
    ensures
        r@ == "D:/cert/backup"@,
{
    String::from_str("D:/cert/backup")
}

pub fn default_dns_provider() -> (r: String)
    ensures
        r@ == "manual"@,
{
    String::from_str("manual")
}

pub fn default_propagation_timeout() -> (r: u64)
    ensures
        r == 600,
{
    600
}

pub fn default_propagation_interval() -> (r: u64)
    ensures
        r == 15,
{
    15
}

pub fn default_resolvers() -> (r: Vec<String>)
    ensures
        r@.len() == 2,
        r@[0]@ == "223.5.5.5"@,
        r@[1]@ == "8.8.8.8"@,
{
    vec![String::from_str("223.5.5.5"), String::from_str("8.8.8.8")]
}

pub fn default_aliyun_key_env() -> (r: String)
    ensures
        r@ == "Ali_Key"@,
{
    String::from_str("Ali_Key")
}

pub fn default_aliyun_secret_env() -> (r: String)
    ensures
        r@ == "Ali_Secret"@,
{
    String::from_str("Ali_Secret")
}

pub fn default_aliyun_endpoint() -> (r: String)
    ensures
        r@ == "https://alidns.aliyuncs.com/"@,
{
    String::from_str("https://alidns.aliyuncs.com/")
}

pub fn default_cf_token_env() -> (r: String)
    ensures
        r@ == "CF_Token"@,
{
    String::from_str("CF_Token")
}

pub fn default_cf_endpoint() -> (r: String)
    ensures
        r@ == "https://api.cloudflare.com/client/v4"@,
{
    String::from_str("https://api.cloudflare.com/client/v4")
}

/// The named pipe the signer agent listens on.
pub fn default_signer_pipe() -> (r: String)
    ensures
        r@ == "\\\\.\\pipe\\ssl-renew-signer"@,
{
    String::from_str("\\\\.\\pipe\\ssl-renew-signer")
}

pub fn default_true() -> (r: bool)
    ensures
        r,
{
    true
}

pub fn default_nginx_exe() -> (r: String)
    ensures
        r@ == "D:/nginx/nginx.exe"@,
{
    String::from_str("D:/nginx/nginx.exe")
}

pub fn default_nginx_restart_mode() -> (r: String)
    ensures
        r@ == "kill_start"@,
{
    String::from_str("kill_start")
}

pub fn default_nginx_dir() -> (r: String)
    ensures
        r@ == "D:/nginx"@,
{
    String::from_str("D:/nginx")
}

pub fn default_nginx_image() -> (r: String)
    ensures
        r@ == "nginx.exe"@,
{
    String::from_str("nginx.exe")
}

pub fn default_monitor_mode() -> (r: String)
    ensures
        r@ == "daily"@,
{
    String::from_str("daily")
}

pub fn default_daily_time() -> (r: String)
    ensures
        r@ == "10:00"@,
{
    String::from_str("10:00")
}

pub fn default_interval_minutes() -> (r: u64)
    ensures
        r == 1440,
{
    1440
}

pub fn default_cron_expression() -> (r: String)
    ensures
        r@ == "0 10 * * *"@,
{
    String::from_str("0 10 * * *")
}

pub fn default_theme() -> (r: String)
    ensures
        r@ == "light"@,
{
    String::from_str("light")
}

pub fn default_language() -> (r: String)
    ensures
        r@ == "zh"@,
{
    String::from_str("zh")
}

pub fn default_toast_position() -> (r: String)
    ensures
        r@ == "top-right"@,
{
    String::from_str("top-right")
}

pub fn default_toast_duration_ms() -> (r: u64)
    ensures
        r == 3200,
{
    3200
}

pub fn default_notification_channel() -> (r: String)
    ensures
        r@ == "dingtalk"@,
{
    String::from_str("dingtalk")
}

pub fn default_renew() -> (r: RenewConfig)
    ensures
        r.days_before_expiry == 30,
        !r.force,
{
    RenewConfig { days_before_expiry: default_days_before_expiry(), force: false }
}

/// Whether `p` holds the default paths, cert and key files aside.
pub open spec fn default_paths_except_files(p: PathsConfig) -> bool {
    &&& p.state_dir@ == "./state"@
    &&& p.work_dir@ == "./work"@
    &&& p.log_file@ == "./logs/ssl-renew.log"@
    &&& p.backup_dir@ == "D:/cert/backup"@
    &&& p.max_log_size_mb_bits == DEFAULT_MAX_LOG_SIZE_MB_BITS
}

impl Default for PathsConfig {
    fn default() -> (r: Self)
        ensures
            default_paths_except_files(r),
            r.cert_file@ == Seq::<char>::empty(),
            r.key_file@ == Seq::<char>::empty(),
    {
        PathsConfig {
            state_dir: default_state_dir(),
            work_dir: default_work_dir(),
            log_file: default_log_file(),
            cert_file: String::new(),
            key_file: String::new(),
            backup_dir: default_backup_dir(),
            max_log_size_mb_bits: DEFAULT_MAX_LOG_SIZE_MB_BITS,
        }
    }
}

impl Default for AliyunConfig {
    fn default() -> (r: Self)
        ensures
            r.access_key_id_env@ == "Ali_Key"@,
            r.access_key_secret_env@ == "Ali_Secret"@,
            r.root_domain is None,
            r.endpoint@ == "https://alidns.aliyuncs.com/"@,
    {
        AliyunConfig {
            access_key_id_env: default_aliyun_key_env(),
            access_key_secret_env: default_aliyun_secret_env(),
            root_domain: None,
            endpoint: default_aliyun_endpoint(),
        }
    }
}

impl Default for CloudflareConfig {
    fn default() -> (r: Self)
        ensures
            r.api_token_env@ == "CF_Token"@,
            r.root_domain is None,
            r.endpoint@ == "https://api.cloudflare.com/client/v4"@,
    {
        CloudflareConfig {
            api_token_env: default_cf_token_env(),
            root_domain: None,
            endpoint: default_cf_endpoint(),
        }
    }
}

impl Default for SignerConfig {
    fn default() -> (r: Self)
        ensures
            r.pipe_name@ == "\\\\.\\pipe\\ssl-renew-signer"@,
    {
        SignerConfig { pipe_name: default_signer_pipe() }
    }
}

/// Whether `d` holds the default DNS settings.
pub open spec fn default_dns(d: DnsConfig) -> bool {
    &&& d.provider@ == "manual"@
    &&& d.env_group_id is None
    &&& d.propagation_timeout_seconds == 600
    &&& d.propagation_interval_seconds == 15
    &&& d.resolvers@.len() == 2
    &&& d.resolvers@[0]@ == "223.5.5.5"@
    &&& d.resolvers@[1]@ == "8.8.8.8"@
    &&& d.aliyun.access_key_id_env@ == "Ali_Key"@
    &&& d.aliyun.access_key_secret_env@ == "Ali_Secret"@
    &&& d.aliyun.root_domain is None
    &&& d.aliyun.endpoint@ == "https://alidns.aliyuncs.com/"@
    &&& d.cloudflare.api_token_env@ == "CF_Token"@
    &&& d.cloudflare.root_domain is None
    &&& d.cloudflare.endpoint@ == "https://api.cloudflare.com/client/v4"@
    &&& d.signer.pipe_name@ == "\\\\.\\pipe\\ssl-renew-signer"@
}

impl Default for DnsConfig {
    fn default() -> (r: Self)
        ensures
            default_dns(r),
    {
        DnsConfig {
            provider: default_dns_provider(),
            env_group_id: None,
            propagation_timeout_seconds: default_propagation_timeout(),
            propagation_interval_seconds: default_propagation_interval(),
            resolvers: default_resolvers(),
            aliyun: AliyunConfig::default(),
            cloudflare: CloudflareConfig::default(),
            signer: SignerConfig::default(),
        }
    }
}

/// Whether `n` holds the default Nginx settings.
pub open spec fn default_nginx(n: NginxConfig) -> bool {
    &&& n.enabled
    &&& n.restart_mode@ == "kill_start"@
    &&& n.exe_path@ == "D:/nginx/nginx.exe"@
    &&& n.working_dir@ == "D:/nginx"@
    &&& n.kill_image_name@ == "nginx.exe"@
}

impl Default for NginxConfig {
    fn default() -> (r: Self)
        ensures
            default_nginx(r),
    {
        NginxConfig {
            enabled: true,
            restart_mode: default_nginx_restart_mode(),
            exe_path: default_nginx_exe(),
            working_dir: default_nginx_dir(),
            kill_image_name: default_nginx_image(),
        }
    }
}

/// Whether `m` holds the default monitor settings.
pub open spec fn default_monitor(m: MonitorConfig) -> bool {
    &&& !m.enabled
    &&& m.profiles@.len() == 0
    &&& m.mode@ == "daily"@
    &&& m.daily_time@ == "10:00"@
    &&& m.interval_minutes == 1440
    &&& m.cron_expression@ == "0 10 * * *"@
}

pub fn default_monitor_config() -> (r: MonitorConfig)
    ensures
        default_monitor(r),
{
    MonitorConfig {
        enabled: false,
        profiles: Vec::new(),
        mode: default_monitor_mode(),
        daily_time: default_daily_time(),
        interval_minutes: default_interval_minutes(),
        cron_expression: default_cron_expression(),
    }
}

impl Default for MonitorConfig {
    fn default() -> (r: Self)
        ensures
            default_monitor(r),
    {
        default_monitor_config()
    }
}

/// Whether every flag of `s` is off.
pub open spec fn scope_all_off(s: NotificationScope) -> bool {
    &&& !s.step_check_success && !s.step_check_failure
    &&& !s.step_order_success && !s.step_order_failure
    &&& !s.step_dns_check_success && !s.step_dns_check_failure
    &&& !s.step_issue_success && !s.step_issue_failure
    &&& !s.step_restart_success && !s.step_restart_failure
    &&& !s.monitor_start && !s.monitor_stop && !s.monitor_profile_start
    &&& !s.monitor_no_renew_needed && !s.monitor_renew_needed
    &&& !s.monitor_manual_dns_skipped && !s.monitor_full_success && !s.monitor_full_failure
}

impl Default for NotificationScope {
    fn default() -> (r: Self)
        ensures
            scope_all_off(r),
    {
        NotificationScope {
            step_check_success: false,
            step_check_failure: false,
            step_order_success: false,
            step_order_failure: false,
            step_dns_check_success: false,
            step_dns_check_failure: false,
            step_issue_success: false,
            step_issue_failure: false,
            step_restart_success: false,
            step_restart_failure: false,
            monitor_start: false,
            monitor_stop: false,
            monitor_profile_start: false,
            monitor_no_renew_needed: false,
            monitor_renew_needed: false,
            monitor_manual_dns_skipped: false,
            monitor_full_success: false,
            monitor_full_failure: false,
        }
    }
}

impl Default for DingtalkNotification {
    fn default() -> (r: Self)
        ensures
            r.access_token@.len() == 0,
            r.secret@.len() == 0,
    {
        DingtalkNotification { access_token: String::new(), secret: String::new() }
    }
}

impl Default for TelegramNotification {
    fn default() -> (r: Self)
        ensures
            r.bot_token@.len() == 0,
            r.chat_id@.len() == 0,
    {
        TelegramNotification { bot_token: String::new(), chat_id: String::new() }
    }
}

impl Default for FeishuNotification {
    fn default() -> (r: Self)
        ensures
            r.webhook_url@.len() == 0,
            r.secret@.len() == 0,
    {
        FeishuNotification { webhook_url: String::new(), secret: String::new() }
    }
}

pub fn default_toast_settings() -> (r: ToastSettings)
    ensures
        r.enabled,
        r.position@ == "top-right"@,
        r.duration_ms == 3200,
{
    ToastSettings {
        enabled: true,
        position: default_toast_position(),
        duration_ms: default_toast_duration_ms(),
    }
}

impl Default for ToastSettings {
    fn default() -> (r: Self)
        ensures
            r.enabled,
            r.position@ == "top-right"@,
            r.duration_ms == 3200,
    {
        default_toast_settings()
    }
}

/// Whether `n` holds the default notification settings.
pub open spec fn default_notification(n: NotificationSettings) -> bool {
    &&& !n.enabled
    &&& n.channel@ == "dingtalk"@
    &&& scope_all_off(n.scope)
    &&& n.dingtalk.access_token@.len() == 0 && n.dingtalk.secret@.len() == 0
    &&& n.telegram.bot_token@.len() == 0 && n.telegram.chat_id@.len() == 0
    &&& n.feishu.webhook_url@.len() == 0 && n.feishu.secret@.len() == 0
}

pub fn default_notification_settings() -> (r: NotificationSettings)
    ensures
        default_notification(r),
{
    NotificationSettings {
        enabled: false,
        channel: default_notification_channel(),
        scope: NotificationScope::default(),
        dingtalk: DingtalkNotification::default(),
        telegram: TelegramNotification::default(),
        feishu: FeishuNotification::default(),
    }
}

impl Default for NotificationSettings {
    fn default() -> (r: Self)
        ensures
            default_notification(r),
    {
        default_notification_settings()
    }
}

/// Whether `a` holds the default application settings.
pub open spec fn default_settings(a: AppSettings) -> bool {
    &&& a.theme@ == "light"@
    &&& a.language@ == "zh"@
    &&& a.toast.enabled
    &&& a.toast.position@ == "top-right"@
    &&& a.toast.duration_ms == 3200
    &&& default_notification(a.notification)
}

pub fn default_app_settings() -> (r: AppSettings)
    ensures
        default_settings(r),
{
    AppSettings {
        theme: default_theme(),
        language: default_language(),
        toast: default_toast_settings(),
        notification: default_notification_settings(),
    }
}

impl Default for AppSettings {
    fn default() -> (r: Self)
        ensures
            default_settings(r),
    {
        default_app_settings()
    }
}

/// The domain without a leading `*.`.
pub open spec fn without_wildcard(domain: Seq<char>) -> Seq<char> {
    match strip_prefix(domain, "*."@) {
        Some(rest) => rest,
        None => domain,
    }
}

/// What a new profile for `domain` holds.
pub open spec fn is_default_profile(p: Profile, domain: Seq<char>) -> bool {
    &&& p.domain@ == domain
    &&& p.email@ == "admin@"@ + without_wildcard(domain)
    &&& p.renew.days_before_expiry == 30 && !p.renew.force
    &&& default_paths_except_files(p.paths)
    &&& p.paths.cert_file@ == "D:/cert/"@ + safe_name(domain) + ".pem"@
    &&& p.paths.key_file@ == "D:/cert/"@ + safe_name(domain) + ".key"@
    &&& default_dns(p.dns)
    &&& default_nginx(p.nginx)
}

/// A profile for `domain` with every default: certificate and key under
/// `D:/cert/`, contact `admin@` the domain.
pub fn default_profile(domain: &str) -> (r: Profile)
    ensures
        is_default_profile(r, domain@),
{
    let safe = safe_domain_filename(domain);
    let root = match strip_prefix_str(domain, "*.") {
        Some(rest) => rest,
        None => domain,
    };
    let cert_file = cat(cat("D:/cert/", safe.as_str()).as_str(), ".pem");
    let key_file = cat(cat("D:/cert/", safe.as_str()).as_str(), ".key");
    let defaults = PathsConfig::default();
    Profile {
        domain: owned(domain),
        email: cat("admin@", root),
        renew: default_renew(),
        paths: PathsConfig { cert_file, key_file, ..defaults },
        dns: DnsConfig::default(),
        nginx: NginxConfig::default(),
    }
}

fn entry(alias: &str, env_name: &str) -> (r: EnvGroupEntry)
    ensures
        r.alias@ == alias@,
        r.env_name@ == env_name@,
{
    EnvGroupEntry { alias: owned(alias), env_name: owned(env_name) }
}

fn vendor_entry(alias: &str, key: &str) -> (r: VendorEnvEntry)
    ensures
        r.alias@ == alias@,
        r.key@ == key@,
{
    VendorEnvEntry { alias: owned(alias), key: owned(key) }
}

/// The groups every store starts with: `aliyun` (AccessKeyId -> Ali_Key,
/// AccessKeySecret -> Ali_Secret) and `cloudflare` (API Token -> CF_Token).
pub open spec fn is_default_env_groups(m: StrMap<EnvironmentGroup>) -> bool {
    &&& m.wf()
    &&& m.keys() == seq!["aliyun"@, "cloudflare"@]
    &&& m.vals()[0].name@ == "阿里云"@
    &&& m.vals()[0].entries@.len() == 2
    &&& m.vals()[0].entries@[0].alias@ == "AccessKeyId"@
    &&& m.vals()[0].entries@[0].env_name@ == "Ali_Key"@
    &&& m.vals()[0].entries@[1].alias@ == "AccessKeySecret"@
    &&& m.vals()[0].entries@[1].env_name@ == "Ali_Secret"@
    &&& m.vals()[1].name@ == "Cloudflare"@
    &&& m.vals()[1].entries@.len() == 1
    &&& m.vals()[1].entries@[0].alias@ == "API Token"@
    &&& m.vals()[1].entries@[0].env_name@ == "CF_Token"@
}

pub fn default_env_groups() -> (r: StrMap<EnvironmentGroup>)
    ensures
        is_default_env_groups(r),
{
    let mut m = StrMap::new();
    let aliyun = EnvironmentGroup {
        name: String::from_str("阿里云"),
        entries: vec![entry("AccessKeyId", "Ali_Key"), entry("AccessKeySecret", "Ali_Secret")],
    };
    let cloudflare = EnvironmentGroup {
        name: String::from_str("Cloudflare"),
        entries: vec![entry("API Token", "CF_Token")],
    };
    proof {
        reveal_strlit("aliyun");
        reveal_strlit("cloudflare");
        assert(str_lt("aliyun"@, "cloudflare"@));
    }
    m.push_last(String::from_str("aliyun"), aliyun);
    m.push_last(String::from_str("cloudflare"), cloudflare);
    assert(m.keys() =~= seq!["aliyun"@, "cloudflare"@]);
    m
}


/// The legacy vendor lists: `aliyun`, `cloudflare`, and an empty `manual`.
pub open spec fn is_default_vendor_configs(m: StrMap<Vec<VendorEnvEntry>>) -> bool {
    &&& m.wf()
    &&& m.keys() == seq!["aliyun"@, "cloudflare"@, "manual"@]
    &&& m.vals()[0]@.len() == 2
    &&& m.vals()[0]@[0].alias@ == "AccessKeyId"@
    &&& m.vals()[0]@[0].key@ == "Ali_Key"@
    &&& m.vals()[0]@[1].alias@ == "AccessKeySecret"@
    &&& m.vals()[0]@[1].key@ == "Ali_Secret"@
    &&& m.vals()[1]@.len() == 1
    &&& m.vals()[1]@[0].alias@ == "API Token"@
    &&& m.vals()[1]@[0].key@ == "CF_Token"@
    &&& m.vals()[2]@.len() == 0
}

pub fn default_vendor_configs() -> (r: StrMap<Vec<VendorEnvEntry>>)
    ensures
        is_default_vendor_configs(r),
{
    let mut m = StrMap::new();
    proof {
        reveal_strlit("aliyun");
        reveal_strlit("cloudflare");
        reveal_strlit("manual");
        assert(str_lt("aliyun"@, "cloudflare"@));
        assert(str_lt("cloudflare"@, "manual"@));
    }
    m.push_last(
        String::from_str("aliyun"),
        vec![vendor_entry("AccessKeyId", "Ali_Key"), vendor_entry("AccessKeySecret", "Ali_Secret")],
    );
    m.push_last(String::from_str("cloudflare"), vec![vendor_entry("API Token", "CF_Token")]);
    m.push_last(String::from_str("manual"), Vec::new());
    assert(m.keys() =~= seq!["aliyun"@, "cloudflare"@, "manual"@]);
    m
}

/// The profile with any empty certificate or key path filled in from the
/// domain; nothing else changes.
pub open spec fn paths_filled(old: Profile, new: Profile) -> bool {
    let safe = safe_name(old.domain@);
    &&& new.paths.cert_file@ == (if old.paths.cert_file@.len() == 0 {
        "D:/cert/"@ + safe + ".pem"@
    } else {
        old.paths.cert_file@
    })
    &&& new.paths.key_file@ == (if old.paths.key_file@.len() == 0 {
        "D:/cert/"@ + safe + ".key"@
    } else {
        old.paths.key_file@
    })
    &&& new.domain == old.domain
    &&& new.email == old.email
    &&& new.renew == old.renew
    &&& new.dns == old.dns
    &&& new.nginx == old.nginx
    &&& new.paths.state_dir == old.paths.state_dir
    &&& new.paths.work_dir == old.paths.work_dir
    &&& new.paths.log_file == old.paths.log_file
    &&& new.paths.backup_dir == old.paths.backup_dir
    &&& new.paths.max_log_size_mb_bits == old.paths.max_log_size_mb_bits
}

/// The group after the legacy vendor list of the same id (if any, and not
/// empty) replaced its entries.
pub open spec fn group_after_legacy(
    vendor: StrMap<Vec<VendorEnvEntry>>,
    id: Seq<char>,
    old: EnvironmentGroup,
    new: EnvironmentGroup,
) -> bool {
    &&& new.name == old.name
    &&& if vendor.keys().contains(id) && vendor.vals()[vendor.index_of_key(id)]@.len() > 0 {
        let legacy = vendor.vals()[vendor.index_of_key(id)]@;
        &&& new.entries@.len() == legacy.len()
        &&& forall|k: int|
            0 <= k < legacy.len() ==> (#[trigger] new.entries@[k]).alias@ == legacy[k].alias@
                && new.entries@[k].env_name@ == legacy[k].key@
    } else {
        new.entries@ == old.entries@
    }
}

fn fill_profile_paths(p: Profile) -> (r: Profile)
    ensures
        paths_filled(p, r),
{
    let mut p = p;
    let ghost old_p = p;
    if p.paths.cert_file.as_str().unicode_len() == 0 || p.paths.key_file.as_str().unicode_len()
        == 0 {
        let safe = safe_domain_filename(p.domain.as_str());
        if p.paths.cert_file.as_str().unicode_len() == 0 {
            p.paths.cert_file = cat(cat("D:/cert/", safe.as_str()).as_str(), ".pem");
        }
        if p.paths.key_file.as_str().unicode_len() == 0 {
            p.paths.key_file = cat(cat("D:/cert/", safe.as_str()).as_str(), ".key");
        }
    }
    p
}

fn legacy_entries(legacy: &Vec<VendorEnvEntry>) -> (r: Vec<EnvGroupEntry>)
    ensures
        r@.len() == legacy@.len(),
        forall|k: int|
            0 <= k < legacy@.len() ==> (#[trigger] r@[k]).alias@ == legacy@[k].alias@
                && r@[k].env_name@ == legacy@[k].key@,
{
    let mut out: Vec<EnvGroupEntry> = Vec::new();
    let mut i: usize = 0;
    while i < legacy.len()
        invariant
            i <= legacy@.len(),
            out@.len() == i,
            forall|k: int|
                0 <= k < i ==> (#[trigger] out@[k]).alias@ == legacy@[k].alias@
                    && out@[k].env_name@ == legacy@[k].key@,
        decreases legacy@.len() - i,
    {
        out.push(entry(legacy[i].alias.as_str(), legacy[i].key.as_str()));
        i = i + 1;
    }
    out
}

/// The store as loading leaves it: an example profile when there is none,
/// a current domain that exists, filled-in file paths, and legacy vendor
/// lists moved into the groups of the same id.
pub open spec fn normalized_store(old: Store, new: Store) -> bool {
    let example = "*.example.com"@;
    &&& new.wf()
    &&& if old.profiles.keys().len() == 0 {
        &&& new.profiles.keys() == seq![example]
        &&& is_default_profile(new.profiles.vals()[0], example)
        &&& new.current_domain@ == example
    } else {
        &&& new.profiles.keys() == old.profiles.keys()
        &&& forall|i: int|
            0 <= i < old.profiles.vals().len() ==> paths_filled(
                #[trigger] old.profiles.vals()[i],
                new.profiles.vals()[i],
            )
        &&& new.current_domain@ == (if old.profiles.keys().contains(old.current_domain@) {
            old.current_domain@
        } else {
            old.profiles.keys()[0]
        })
    }
    &&& new.env_groups.keys() == old.env_groups.keys()
    &&& forall|i: int|
        0 <= i < old.env_groups.vals().len() ==> group_after_legacy(
            old.vendor_configs,
            old.env_groups.keys()[i],
            #[trigger] old.env_groups.vals()[i],
            new.env_groups.vals()[i],
        )
    &&& new.vendor_configs == old.vendor_configs
    &&& new.monitor == old.monitor
    &&& new.app_settings == old.app_settings
}

/// Brings a loaded store into the shape the rest of the program expects.
pub fn normalize_store(store: &mut Store)
    requires
        old(store).wf(),
    ensures
        normalized_store(*old(store), *final(store)),
{
    let was_empty = store.profiles.is_empty();
    if was_empty {
        let profile = default_profile("*.example.com");
        store.current_domain = profile.domain.clone();
        let key = profile.domain.clone();
        store.profiles.push_last(key, profile);
    }
    if !store.profiles.contains_key(store.current_domain.as_str()) {
        store.current_domain = key_copy(store.profiles.key_at(0));
    }
    let ghost mid = store.profiles;
    let ghost cur = store.current_domain;
    proof {
        reveal_strlit("D:/cert/");
        if was_empty {
            assert(mid.keys() =~= seq!["*.example.com"@]);
        }
    }
    let n = store.profiles.len();
    let mut i: usize = 0;
    while i < n
        invariant
            store.profiles.wf(),
            mid.wf(),
            n == mid.vals().len(),
            i <= n,
            store.profiles.keys() == mid.keys(),
            store.profiles.vals().len() == n,
            forall|k: int| 0 <= k < i ==> paths_filled(#[trigger] mid.vals()[k], store.profiles.vals()[k]),
            forall|k: int| i <= k < n ==> #[trigger] store.profiles.vals()[k] == mid.vals()[k],
            store.env_groups == old(store).env_groups,
            store.vendor_configs == old(store).vendor_configs,
            store.monitor == old(store).monitor,
            store.app_settings == old(store).app_settings,
            store.current_domain == cur,
        decreases n - i,
    {
        let placeholder = default_profile("");
        let p = store.profiles.replace_value_at(i, placeholder);
        let p = fill_profile_paths(p);
        store.profiles.set_value_at(i, p);
        i = i + 1;
    }
    let ghost groups0 = store.env_groups;
    let ghost after_paths = store.profiles;
    let g = store.env_groups.len();
    let mut j: usize = 0;
    while j < g
        invariant
            store.env_groups.wf(),
            store.vendor_configs.wf(),
            store.vendor_configs == old(store).vendor_configs,
            groups0 == old(store).env_groups,
            g == groups0.vals().len(),
            j <= g,
            store.env_groups.keys() == groups0.keys(),
            store.env_groups.vals().len() == g,
            forall|k: int| 0 <= k < j ==> group_after_legacy(
                store.vendor_configs,
                groups0.keys()[k],
                #[trigger] groups0.vals()[k],
                store.env_groups.vals()[k],
            ),
            forall|k: int| j <= k < g ==> #[trigger] store.env_groups.vals()[k] == groups0.vals()[k],
            store.profiles == after_paths,
            store.monitor == old(store).monitor,
            store.app_settings == old(store).app_settings,
            store.current_domain == cur,
        decreases g - j,
    {
        proof {
            groups0.lemma_lens();
            store.vendor_configs.lemma_lens();
        }
        let found = store.vendor_configs.find(store.env_groups.key_at(j).as_str());
        match found {
            Some(v) => {
                if store.vendor_configs.value_at(v).len() > 0 {
                    let entries = legacy_entries(store.vendor_configs.value_at(v));
                    let name = store.env_groups.value_at(j).name.clone();
                    store.env_groups.set_value_at(j, EnvironmentGroup { name, entries });
                }
            },
            None => {},
        }
        assert(group_after_legacy(
            store.vendor_configs,
            groups0.keys()[j as int],
            groups0.vals()[j as int],
            store.env_groups.vals()[j as int],
        ));
        j = j + 1;
    }
    proof {
        let o = *old(store);
        let f = *store;
        if o.profiles.keys().len() == 0 {
            assert(f.profiles.keys() == seq!["*.example.com"@]);
            assert(paths_filled(mid.vals()[0], f.profiles.vals()[0]));
            assert(is_default_profile(mid.vals()[0], "*.example.com"@));
            assert(is_default_profile(f.profiles.vals()[0], "*.example.com"@));
            assert(f.current_domain@ == "*.example.com"@);
        } else {
            assert(f.profiles.keys() == o.profiles.keys());
            assert(mid == o.profiles);
        }
        assert(f.env_groups.keys() == o.env_groups.keys());
    }
}


/// A problem found in a store or a profile, as the error that reports it
/// carries it.
pub enum Problem {
    EmptyGroupId,
    EmptyGroupName,
    DuplicateGroupName { name: Seq<char>, existing_id: Seq<char>, group_id: Seq<char> },
    EmptyEntryField { group_name: Seq<char> },
    DuplicateAlias { group_name: Seq<char>, alias: Seq<char> },
    MissingEnvGroup { domain: Seq<char>, group_id: Seq<char> },
    MissingVariable { group_name: Seq<char>, env_name: Seq<char>, alias: Seq<char> },
    MissingAlias { group_name: Seq<char>, alias: Seq<char> },
    GroupIdExists { id: Seq<char> },
    GroupNotFound { id: Seq<char> },
    GroupReferenced { id: Seq<char>, domain: Seq<char> },
    ProfileNotFound { domain: Seq<char> },
}

/// Why a store, a profile or an edit of them was refused.
pub enum ConfigError {
    EmptyGroupId,
    EmptyGroupName,
    DuplicateGroupName { name: String, existing_id: String, group_id: String },
    EmptyEntryField { group_name: String },
    DuplicateAlias { group_name: String, alias: String },
    MissingEnvGroup { domain: String, group_id: String },
    MissingVariable { group_name: String, env_name: String, alias: String },
    MissingAlias { group_name: String, alias: String },
    GroupIdExists { id: String },
    GroupNotFound { id: String },
    GroupReferenced { id: String, domain: String },
    ProfileNotFound { domain: String },
}

impl View for ConfigError {
    type V = Problem;

    open spec fn view(&self) -> Problem {
        match self {
            ConfigError::EmptyGroupId => Problem::EmptyGroupId,
            ConfigError::EmptyGroupName => Problem::EmptyGroupName,
            ConfigError::DuplicateGroupName { name, existing_id, group_id } =>
                Problem::DuplicateGroupName {
                name: name@,
                existing_id: existing_id@,
                group_id: group_id@,
            },
            ConfigError::EmptyEntryField { group_name } => Problem::EmptyEntryField {
                group_name: group_name@,
            },
            ConfigError::DuplicateAlias { group_name, alias } => Problem::DuplicateAlias {
                group_name: group_name@,
                alias: alias@,
            },
            ConfigError::MissingEnvGroup { domain, group_id } => Problem::MissingEnvGroup {
                domain: domain@,
                group_id: group_id@,
            },
            ConfigError::MissingVariable { group_name, env_name, alias } =>
                Problem::MissingVariable {
                group_name: group_name@,
                env_name: env_name@,
                alias: alias@,
            },
            ConfigError::MissingAlias { group_name, alias } => Problem::MissingAlias {
                group_name: group_name@,
                alias: alias@,
            },
            ConfigError::GroupIdExists { id } => Problem::GroupIdExists { id: id@ },
            ConfigError::GroupNotFound { id } => Problem::GroupNotFound { id: id@ },
            ConfigError::GroupReferenced { id, domain } => Problem::GroupReferenced {
                id: id@,
                domain: domain@,
            },
            ConfigError::ProfileNotFound { domain } => Problem::ProfileNotFound { domain: domain@ },
        }
    }
}

/// The text a problem is reported with.
pub open spec fn problem_message(p: Problem) -> Seq<char> {
    match p {
        Problem::EmptyGroupId => "环境变量组 ID 不能为空"@,
        Problem::EmptyGroupName => "环境变量组名称不能为空"@,
        Problem::DuplicateGroupName { name, existing_id, group_id } => "环境变量组名称重复："@
            + name + "（"@ + existing_id + " 与 "@ + group_id + "）"@,
        Problem::EmptyEntryField { group_name } => "环境变量组“"@ + group_name
            + "”中的别名和环境变量名称都不能为空"@,
        Problem::DuplicateAlias { group_name, alias } => "环境变量组“"@ + group_name
            + "”中存在重复别名："@ + alias,
        Problem::MissingEnvGroup { domain, group_id } => "域名 "@ + domain
            + " 引用了不存在的环境变量组："@ + group_id,
        Problem::MissingVariable { group_name, env_name, alias } => "环境变量组“"@
            + group_name + "”缺少环境变量 "@ + env_name + "（别名："@ + alias + "）"@,
        Problem::MissingAlias { group_name, alias } => "环境变量组“"@ + group_name
            + "”缺少 DNS 驱动必需别名："@ + alias,
        Problem::GroupIdExists { id } => "环境变量组 ID 已存在："@ + id,
        Problem::GroupNotFound { id } => "找不到环境变量组："@ + id,
        Problem::GroupReferenced { id, domain } => "环境变量组 "@ + id + " 正被域名配置 "@
            + domain + " 引用，不能删除"@,
        Problem::ProfileNotFound { domain } => "找不到配置："@ + domain,
    }
}

fn cat3(a: &str, b: &str, c: &str) -> (r: String)
    ensures
        r@ == a@ + b@ + c@,
{
    let mut r = owned(a);
    r.append(b);
    r.append(c);
    r
}

impl ConfigError {
    /// The text the error is reported with.
    pub fn message(&self) -> (r: String)
        ensures
            r@ == problem_message(self@),
    {
        match self {
            ConfigError::EmptyGroupId => String::from_str("环境变量组 ID 不能为空"),
            ConfigError::EmptyGroupName => String::from_str("环境变量组名称不能为空"),
            ConfigError::DuplicateGroupName { name, existing_id, group_id } => {
                let mut r = cat3("环境变量组名称重复：", name.as_str(), "（");
                r.append(existing_id.as_str());
                r.append(" 与 ");
                r.append(group_id.as_str());
                r.append("）");
                r
            },
            ConfigError::EmptyEntryField { group_name } => cat3(
                "环境变量组“",
                group_name.as_str(),
                "”中的别名和环境变量名称都不能为空",
            ),
            ConfigError::DuplicateAlias { group_name, alias } => {
                let mut r = cat3("环境变量组“", group_name.as_str(), "”中存在重复别名：");
                r.append(alias.as_str());
                r
            },
            ConfigError::MissingEnvGroup { domain, group_id } => {
                let mut r = cat3("域名 ", domain.as_str(), " 引用了不存在的环境变量组：");
                r.append(group_id.as_str());
                r
            },
            ConfigError::MissingVariable { group_name, env_name, alias } => {
                let mut r = cat3("环境变量组“", group_name.as_str(), "”缺少环境变量 ");
                r.append(env_name.as_str());
                r.append("（别名：");
                r.append(alias.as_str());
                r.append("）");
                r
            },
            ConfigError::MissingAlias { group_name, alias } => {
                let mut r = cat3("环境变量组“", group_name.as_str(), "”缺少 DNS 驱动必需别名：");
                r.append(alias.as_str());
                r
            },
            ConfigError::GroupIdExists { id } => cat("环境变量组 ID 已存在：", id.as_str()),
            ConfigError::GroupNotFound { id } => cat("找不到环境变量组：", id.as_str()),
            ConfigError::GroupReferenced { id, domain } => {
                let mut r = cat3("环境变量组 ", id.as_str(), " 正被域名配置 ");
                r.append(domain.as_str());
                r.append(" 引用，不能删除");
                r
            },
            ConfigError::ProfileNotFound { domain } => cat("找不到配置：", domain.as_str()),
        }
    }
}

/// The key under which group names are compared: trimmed, Unicode lowercase.
pub open spec fn name_key(s: Seq<char>) -> Seq<char> {
    unicode_lower(trim_ws(s))
}

/// The first entry problem of a group from entry `k` on: an entry whose
/// trimmed alias or variable name is empty, or whose alias repeats an
/// earlier one (compared as `name_key`).
pub open spec fn entries_problem_from(
    entries: Seq<EnvGroupEntry>,
    group_name: Seq<char>,
    k: int,
) -> Option<Problem>
    decreases entries.len() - k,
{
    if k < 0 || k >= entries.len() {
        None
    } else if blank(entries[k].alias@) || blank(entries[k].env_name@) {
        Some(Problem::EmptyEntryField { group_name })
    } else if exists|j: int|
        0 <= j < k && #[trigger] name_key(entries[j].alias@) == name_key(entries[k].alias@) {
        Some(Problem::DuplicateAlias { group_name, alias: trim_ws(entries[k].alias@) })
    } else {
        entries_problem_from(entries, group_name, k + 1)
    }
}

proof fn lemma_groups_none_at(groups: StrMap<EnvironmentGroup>, j: int, i: int)
    requires
        0 <= j <= i < groups.keys().len(),
        groups_problem_from(groups, j) is None,
    ensures
        group_problem_at(groups, i) is None,
    decreases i - j,
{
    if j < i {
        lemma_groups_none_at(groups, j + 1, i);
    }
}

proof fn lemma_first_same_none(groups: StrMap<EnvironmentGroup>, b: int, j: int, a: int)
    requires
        0 <= j <= a < b,
        first_same_name(groups, b, j) >= b,
    ensures
        name_key(groups.vals()[a].name@) != name_key(groups.vals()[b].name@),
    decreases a - j,
{
    if j < a {
        lemma_first_same_none(groups, b, j + 1, a);
    }
}

proof fn lemma_entries_none_at(entries: Seq<EnvGroupEntry>, n: Seq<char>, j: int, k: int)
    requires
        0 <= j <= k < entries.len(),
        entries_problem_from(entries, n, j) is None,
    ensures
        !blank(entries[k].alias@),
        !blank(entries[k].env_name@),
        forall|q: int| 0 <= q < k ==> name_key(#[trigger] entries[q].alias@) != name_key(entries[k].alias@),
    decreases k - j,
{
    if j < k {
        lemma_entries_none_at(entries, n, j + 1, k);
    }
}

proof fn lemma_profiles_none_at(store: Store, j: int, i: int)
    requires
        0 <= j <= i < store.profiles.vals().len(),
        profiles_problem_from(store, j) is None,
    ensures
        referenced_group(store.profiles.vals()[i]) matches Some(id) ==> store.env_groups.keys().contains(
            id,
        ),
    decreases i - j,
{
    if j < i {
        lemma_profiles_none_at(store, j + 1, i);
    }
}

/// In a store that validates every group has an id and a name, every entry
/// an alias and a variable name, no two aliases of a group agree once
/// trimmed and lowercased, and every group a profile selects exists.
pub proof fn lemma_valid_store_entries(store: Store)
    requires
        store_problem(store) is None,
    ensures
        forall|i: int|
            0 <= i < store.env_groups.keys().len() ==> !blank(#[trigger] store.env_groups.keys()[i]),
        forall|i: int|
            0 <= i < store.env_groups.vals().len() ==> !blank(
                (#[trigger] store.env_groups.vals()[i]).name@,
            ),
        forall|i: int, a: int, b: int|
            0 <= i < store.env_groups.vals().len() && 0 <= a < b
                < store.env_groups.vals()[i].entries@.len() ==> unicode_lower(
                trim_ws((#[trigger] store.env_groups.vals()[i].entries@[a]).alias@),
            ) != unicode_lower(trim_ws((#[trigger] store.env_groups.vals()[i].entries@[b]).alias@)),
        forall|i: int, a: int|
            0 <= i < store.env_groups.vals().len() && 0 <= a
                < store.env_groups.vals()[i].entries@.len() ==> !blank(
                (#[trigger] store.env_groups.vals()[i].entries@[a]).alias@,
            ) && !blank(store.env_groups.vals()[i].entries@[a].env_name@),
        forall|i: int|
            0 <= i < store.profiles.vals().len() ==> (referenced_group(
                #[trigger] store.profiles.vals()[i],
            ) matches Some(id) ==> store.env_groups.keys().contains(id)),
{
    let g = store.env_groups;
    g.lemma_lens();
    assert(groups_problem_from(g, 0) is None);
    assert(profiles_problem_from(store, 0) is None);
    assert forall|i: int| 0 <= i < store.env_groups.keys().len() implies !blank(
        #[trigger] store.env_groups.keys()[i],
    ) by {
        lemma_groups_none_at(g, 0, i);
        assert(group_problem_at(g, i) is None);
    }
    assert forall|i: int| 0 <= i < store.env_groups.vals().len() implies !blank(
        (#[trigger] store.env_groups.vals()[i]).name@,
    ) by {
        lemma_groups_none_at(g, 0, i);
        assert(group_problem_at(g, i) is None);
    }
    assert forall|i: int, a: int, b: int|
        0 <= i < g.vals().len() && 0 <= a < b < g.vals()[i].entries@.len() implies unicode_lower(
        trim_ws((#[trigger] g.vals()[i].entries@[a]).alias@),
    ) != unicode_lower(trim_ws((#[trigger] g.vals()[i].entries@[b]).alias@)) by {
        lemma_groups_none_at(g, 0, i);
        assert(entries_problem_from(g.vals()[i].entries@, trim_ws(g.vals()[i].name@), 0) is None);
        lemma_entries_none_at(g.vals()[i].entries@, trim_ws(g.vals()[i].name@), 0, b);
        assert(name_key(g.vals()[i].entries@[a].alias@) != name_key(g.vals()[i].entries@[b].alias@));
    }
    assert forall|i: int, a: int|
        0 <= i < g.vals().len() && 0 <= a < g.vals()[i].entries@.len() implies !blank(
        (#[trigger] g.vals()[i].entries@[a]).alias@,
    ) && !blank(g.vals()[i].entries@[a].env_name@) by {
        lemma_groups_none_at(g, 0, i);
        assert(entries_problem_from(g.vals()[i].entries@, trim_ws(g.vals()[i].name@), 0) is None);
        lemma_entries_none_at(g.vals()[i].entries@, trim_ws(g.vals()[i].name@), 0, a);
    }
    assert forall|i: int| 0 <= i < store.profiles.vals().len() implies (referenced_group(
        #[trigger] store.profiles.vals()[i],
    ) matches Some(id) ==> store.env_groups.keys().contains(id)) by {
        lemma_profiles_none_at(store, 0, i);
    }
}

/// A store that validates has no two environment groups whose names agree
/// once trimmed and lowercased.
pub proof fn lemma_valid_store_group_names_distinct(store: Store)
    requires
        store_problem(store) is None,
    ensures
        forall|a: int, b: int|
            0 <= a < b < store.env_groups.vals().len() ==> unicode_lower(
                trim_ws(#[trigger] store.env_groups.vals()[a].name@),
            ) != unicode_lower(trim_ws(#[trigger] store.env_groups.vals()[b].name@)),
{
    let g = store.env_groups;
    g.lemma_lens();
    assert forall|a: int, b: int| 0 <= a < b < g.vals().len() implies unicode_lower(
        trim_ws(#[trigger] g.vals()[a].name@),
    ) != unicode_lower(trim_ws(#[trigger] g.vals()[b].name@)) by {
        assert(groups_problem_from(g, 0) is None);
        lemma_groups_none_at(g, 0, b);
        assert(group_problem_at(g, b) is None);
        assert(first_same_name(g, b, 0) >= b);
        lemma_first_same_none(g, b, 0, a);
    }
}

/// The first group at or after `j` (and before `i`) whose name has the
/// same key as group `i`'s, or `i`.
pub open spec fn first_same_name(groups: StrMap<EnvironmentGroup>, i: int, j: int) -> int
    decreases i - j,
{
    if j < 0 || j >= i {
        i
    } else if name_key(groups.vals()[j].name@) == name_key(groups.vals()[i].name@) {
        j
    } else {
        first_same_name(groups, i, j + 1)
    }
}

/// The problem of group `i`, judged after the groups before it.
pub open spec fn group_problem_at(groups: StrMap<EnvironmentGroup>, i: int) -> Option<Problem> {
    let id = groups.keys()[i];
    let g = groups.vals()[i];
    let j = first_same_name(groups, i, 0);
    if blank(id) {
        Some(Problem::EmptyGroupId)
    } else if blank(g.name@) {
        Some(Problem::EmptyGroupName)
    } else if j < i {
        Some(
            Problem::DuplicateGroupName {
                name: trim_ws(g.name@),
                existing_id: groups.keys()[j],
                group_id: id,
            },
        )
    } else {
        entries_problem_from(g.entries@, trim_ws(g.name@), 0)
    }
}

/// The first problem among the groups from `i` on, in key order.
pub open spec fn groups_problem_from(groups: StrMap<EnvironmentGroup>, i: int) -> Option<Problem>
    decreases groups.keys().len() - i,
{
    if i < 0 || i >= groups.keys().len() {
        None
    } else {
        match group_problem_at(groups, i) {
            Some(p) => Some(p),
            None => groups_problem_from(groups, i + 1),
        }
    }
}

/// The group a profile refers to, when it names one that is not blank.
pub open spec fn referenced_group(p: Profile) -> Option<Seq<char>> {
    match p.dns.env_group_id {
        Some(id) => if blank(id@) {
            None
        } else {
            Some(id@)
        },
        None => None,
    }
}

/// The first profile from `i` on, in key order, that refers to a group the
/// store does not have.
pub open spec fn profiles_problem_from(store: Store, i: int) -> Option<Problem>
    decreases store.profiles.vals().len() - i,
{
    if i < 0 || i >= store.profiles.vals().len() {
        None
    } else {
        let p = store.profiles.vals()[i];
        match referenced_group(p) {
            Some(id) => if !store.env_groups.keys().contains(id) {
                Some(Problem::MissingEnvGroup { domain: p.domain@, group_id: id })
            } else {
                profiles_problem_from(store, i + 1)
            },
            None => profiles_problem_from(store, i + 1),
        }
    }
}

/// The problem that refuses a store: the first group problem, else the
/// first dangling group reference; none when the store is valid.
pub open spec fn store_problem(store: Store) -> Option<Problem> {
    match groups_problem_from(store.env_groups, 0) {
        Some(p) => Some(p),
        None => profiles_problem_from(store, 0),
    }
}

proof fn lemma_entries_duplicate(
    entries: Seq<EnvGroupEntry>,
    group_name: Seq<char>,
    k: int,
    j: int,
)
    requires
        0 <= j < k < entries.len(),
        !blank(entries[k].alias@),
        !blank(entries[k].env_name@),
        name_key(entries[j].alias@) == name_key(entries[k].alias@),
    ensures
        entries_problem_from(entries, group_name, k) == Some(
            Problem::DuplicateAlias { group_name, alias: trim_ws(entries[k].alias@) },
        ),
{
}

proof fn lemma_group_step(groups: StrMap<EnvironmentGroup>, i: int)
    requires
        0 <= i < groups.keys().len(),
    ensures
        groups_problem_from(groups, i) == (match group_problem_at(groups, i) {
            Some(p) => Some(p),
            None => groups_problem_from(groups, i + 1),
        }),
{
}

#[verifier::rlimit(50)]
fn entries_check(entries: &Vec<EnvGroupEntry>, group_name: &str) -> (r: Result<(), ConfigError>)
    ensures
        match r {
            Ok(()) => entries_problem_from(entries@, group_name@, 0) is None,
            Err(e) => entries_problem_from(entries@, group_name@, 0) == Some(e@),
        },
{
    let mut keys: Vec<String> = Vec::new();
    let mut k: usize = 0;
    while k < entries.len()
        invariant
            k <= entries@.len(),
            keys@.len() == k,
            forall|j: int| 0 <= j < k ==> (#[trigger] keys@[j])@ == name_key(entries@[j].alias@),
            entries_problem_from(entries@, group_name@, 0) == entries_problem_from(
                entries@,
                group_name@,
                k as int,
            ),
        decreases entries@.len() - k,
    {
        let e = &entries[k];
        if is_blank(e.alias.as_str()) || is_blank(e.env_name.as_str()) {
            assert(entries_problem_from(entries@, group_name@, k as int) == Some(
                Problem::EmptyEntryField { group_name: group_name@ },
            ));
            return Err(ConfigError::EmptyEntryField { group_name: owned(group_name) });
        }
        let alias = trim(e.alias.as_str());
        let key = to_lowercase(alias);
        let mut j: usize = 0;
        while j < keys.len()
            invariant
                j <= keys@.len(),
                keys@.len() == k,
                k < entries@.len(),
                key@ == name_key(entries@[k as int].alias@),
                alias@ == trim_ws(entries@[k as int].alias@),
                entries_problem_from(entries@, group_name@, 0) == entries_problem_from(
                    entries@,
                    group_name@,
                    k as int,
                ),
                !blank(entries@[k as int].alias@),
                !blank(entries@[k as int].env_name@),
                forall|q: int| 0 <= q < k ==> (#[trigger] keys@[q])@ == name_key(entries@[q].alias@),
                forall|q: int| 0 <= q < j ==> name_key(#[trigger] entries@[q].alias@) != key@,
            decreases keys@.len() - j,
        {
            if str_eq(keys[j].as_str(), key.as_str()) {
                proof {
                    lemma_entries_duplicate(entries@, group_name@, k as int, j as int);
                }
                return Err(ConfigError::DuplicateAlias {
                    group_name: owned(group_name),
                    alias: owned(alias),
                });
            }
            j = j + 1;
        }
        assert(entries_problem_from(entries@, group_name@, k as int) == entries_problem_from(
            entries@,
            group_name@,
            k + 1,
        ));
        keys.push(key);
        k = k + 1;
    }
    Ok(())
}

/// Checks a store before it is saved: every group has a non-blank id and
/// name, names differ (ignoring case and outer whitespace), each entry has
/// a non-blank alias and variable name with aliases distinct, and every
/// group a profile names exists. The first problem, in key order, is
/// reported.
#[verifier::rlimit(50)]
pub fn validate_store(store: &Store) -> (r: Result<(), ConfigError>)
    requires
        store.wf(),
    ensures
        match r {
            Ok(()) => store_problem(*store) is None,
            Err(e) => store_problem(*store) == Some(e@),
        },
{
    let groups = &store.env_groups;
    let n = groups.len();
    let mut names: Vec<String> = Vec::new();
    let mut i: usize = 0;
    while i < n
        invariant
            *groups == store.env_groups,
            groups.wf(),
            n == groups.vals().len(),
            n == groups.keys().len(),
            i <= n,
            names@.len() == i,
            forall|j: int| 0 <= j < i ==> (#[trigger] names@[j])@ == name_key(groups.vals()[j].name@),
            forall|a: int, b: int| 0 <= a < b < i ==> name_key(#[trigger] groups.vals()[a].name@)
                != name_key(#[trigger] groups.vals()[b].name@),
            groups_problem_from(*groups, 0) == groups_problem_from(*groups, i as int),
        decreases n - i,
    {
        proof {
            groups.lemma_lens();
        }
        let id = groups.key_at(i);
        let g = groups.value_at(i);
        if is_blank(id.as_str()) {
            proof {
                assert(group_problem_at(*groups, i as int) == Some(Problem::EmptyGroupId));
                lemma_group_step(*groups, i as int);
                assert(groups_problem_from(store.env_groups, 0) == Some(Problem::EmptyGroupId));
                assert(store_problem(*store) == Some(Problem::EmptyGroupId));
            }
            return Err(ConfigError::EmptyGroupId);
        }
        if is_blank(g.name.as_str()) {
            proof {
                assert(group_problem_at(*groups, i as int) == Some(Problem::EmptyGroupName));
                lemma_group_step(*groups, i as int);
                assert(groups_problem_from(store.env_groups, 0) == Some(Problem::EmptyGroupName));
                assert(store_problem(*store) == Some(Problem::EmptyGroupName));
            }
            return Err(ConfigError::EmptyGroupName);
        }
        let name = trim(g.name.as_str());
        let key = to_lowercase(name);
        let mut j: usize = 0;
        while j < names.len()
            invariant
                j <= names@.len(),
                names@.len() == i,
                i < n,
                n == groups.vals().len(),
                n == groups.keys().len(),
                *groups == store.env_groups,
                groups_problem_from(*groups, 0) == groups_problem_from(*groups, i as int),
                !blank(groups.keys()[i as int]),
                !blank(groups.vals()[i as int].name@),
                name@ == trim_ws(groups.vals()[i as int].name@),
                id@ == groups.keys()[i as int],
                key@ == name_key(groups.vals()[i as int].name@),
                forall|q: int| 0 <= q < i ==> (#[trigger] names@[q])@ == name_key(
                    groups.vals()[q].name@,
                ),
                forall|q: int| 0 <= q < j ==> name_key(#[trigger] groups.vals()[q].name@)
                    != key@,
                first_same_name(*groups, i as int, 0) == first_same_name(
                    *groups,
                    i as int,
                    j as int,
                ),
            decreases names@.len() - j,
        {
            if str_eq(names[j].as_str(), key.as_str()) {
                proof {
                    let pr = Problem::DuplicateGroupName {
                        name: name@,
                        existing_id: groups.keys()[j as int],
                        group_id: id@,
                    };
                    assert(first_same_name(*groups, i as int, j as int) == j);
                    assert(group_problem_at(*groups, i as int) == Some(pr));
                    lemma_group_step(*groups, i as int);
                    assert(groups_problem_from(store.env_groups, 0) == Some(pr));
                    assert(store_problem(*store) == Some(pr));
                }
                return Err(ConfigError::DuplicateGroupName {
                    name: owned(name),
                    existing_id: key_copy(groups.key_at(j)),
                    group_id: key_copy(id),
                });
            }
            j = j + 1;
        }
        assert(first_same_name(*groups, i as int, j as int) == i);
        match entries_check(&g.entries, name) {
            Ok(()) => {},
            Err(e) => {
                assert(group_problem_at(*groups, i as int) == Some(e@));
                proof {
                    lemma_group_step(*groups, i as int);
                    assert(groups_problem_from(store.env_groups, 0) == Some(e@));
                    assert(store_problem(*store) == Some(e@));
                }
                return Err(e);
            },
        }
        assert(group_problem_at(*groups, i as int) is None);
        proof {
            lemma_group_step(*groups, i as int);
        }
        names.push(key);
        i = i + 1;
    }
    let profiles = &store.profiles;
    let m = profiles.len();
    let mut k: usize = 0;
    while k < m
        invariant
            store.wf(),
            profiles == store.profiles,
            m == profiles.vals().len(),
            k <= m,
            groups_problem_from(store.env_groups, 0) is None,
            profiles_problem_from(*store, 0) == profiles_problem_from(*store, k as int),
        decreases m - k,
    {
        let p = profiles.value_at(k);
        match &p.dns.env_group_id {
            Some(id) => {
                if !is_blank(id.as_str()) && !store.env_groups.contains_key(id.as_str()) {
                    return Err(ConfigError::MissingEnvGroup {
                        domain: p.domain.clone(),
                        group_id: id.clone(),
                    });
                }
            },
            None => {},
        }
        k = k + 1;
    }
    Ok(())
}


pub(crate) fn copy_opt(s: &Option<String>) -> (r: Option<String>)
    ensures
        r == *s,
{
    match s {
        Some(v) => Some(v.clone()),
        None => None,
    }
}

pub(crate) fn copy_strings(v: &Vec<String>) -> (r: Vec<String>)
    ensures
        r@ == v@,
{
    let mut out: Vec<String> = Vec::new();
    let mut i: usize = 0;
    while i < v.len()
        invariant
            i <= v@.len(),
            out@ == v@.take(i as int),
        decreases v@.len() - i,
    {
        out.push(v[i].clone());
        assert(v@.take(i + 1) =~= v@.take(i as int).push(v@[i as int]));
        i = i + 1;
    }
    assert(v@.take(v@.len() as int) =~= v@);
    out
}

/// `a` and `b` hold the same settings apart from the three environment
/// variable names of the DNS credentials.
pub open spec fn same_but_env_names(a: Profile, b: Profile) -> bool {
    &&& a.domain == b.domain
    &&& a.email == b.email
    &&& a.renew == b.renew
    &&& a.paths == b.paths
    &&& a.nginx == b.nginx
    &&& a.dns.provider == b.dns.provider
    &&& a.dns.env_group_id == b.dns.env_group_id
    &&& a.dns.propagation_timeout_seconds == b.dns.propagation_timeout_seconds
    &&& a.dns.propagation_interval_seconds == b.dns.propagation_interval_seconds
    &&& a.dns.resolvers@ == b.dns.resolvers@
    &&& a.dns.aliyun.root_domain == b.dns.aliyun.root_domain
    &&& a.dns.aliyun.endpoint == b.dns.aliyun.endpoint
    &&& a.dns.cloudflare.root_domain == b.dns.cloudflare.root_domain
    &&& a.dns.cloudflare.endpoint == b.dns.cloudflare.endpoint
    &&& a.dns.signer == b.dns.signer
}

/// `a` and `b` hold the same settings.
pub open spec fn same_profile(a: Profile, b: Profile) -> bool {
    &&& same_but_env_names(a, b)
    &&& a.dns.aliyun.access_key_id_env == b.dns.aliyun.access_key_id_env
    &&& a.dns.aliyun.access_key_secret_env == b.dns.aliyun.access_key_secret_env
    &&& a.dns.cloudflare.api_token_env == b.dns.cloudflare.api_token_env
}

impl Profile {
    /// A copy of the profile.
    pub fn copy(&self) -> (r: Profile)
        ensures
            same_profile(*self, r),
    {
        Profile {
            domain: self.domain.clone(),
            email: self.email.clone(),
            renew: RenewConfig {
                days_before_expiry: self.renew.days_before_expiry,
                force: self.renew.force,
            },
            paths: PathsConfig {
                state_dir: self.paths.state_dir.clone(),
                work_dir: self.paths.work_dir.clone(),
                log_file: self.paths.log_file.clone(),
                cert_file: self.paths.cert_file.clone(),
                key_file: self.paths.key_file.clone(),
                backup_dir: self.paths.backup_dir.clone(),
                max_log_size_mb_bits: self.paths.max_log_size_mb_bits,
            },
            dns: DnsConfig {
                provider: self.dns.provider.clone(),
                env_group_id: copy_opt(&self.dns.env_group_id),
                propagation_timeout_seconds: self.dns.propagation_timeout_seconds,
                propagation_interval_seconds: self.dns.propagation_interval_seconds,
                resolvers: copy_strings(&self.dns.resolvers),
                aliyun: AliyunConfig {
                    access_key_id_env: self.dns.aliyun.access_key_id_env.clone(),
                    access_key_secret_env: self.dns.aliyun.access_key_secret_env.clone(),
                    root_domain: copy_opt(&self.dns.aliyun.root_domain),
                    endpoint: self.dns.aliyun.endpoint.clone(),
                },
                cloudflare: CloudflareConfig {
                    api_token_env: self.dns.cloudflare.api_token_env.clone(),
                    root_domain: copy_opt(&self.dns.cloudflare.root_domain),
                    endpoint: self.dns.cloudflare.endpoint.clone(),
                },
                signer: SignerConfig { pipe_name: self.dns.signer.pipe_name.clone() },
            },
            nginx: NginxConfig {
                enabled: self.nginx.enabled,
                restart_mode: self.nginx.restart_mode.clone(),
                exe_path: self.nginx.exe_path.clone(),
                working_dir: self.nginx.working_dir.clone(),
                kill_image_name: self.nginx.kill_image_name.clone(),
            },
        }
    }
}

/// Environment variables as the caller read them: (name, value) pairs, the
/// first pair of a name counting. A variable that is not set has no pair.
pub struct EnvSnapshot {
    pub vars: Vec<(String, String)>,
}

pub open spec fn env_value_from(vars: Seq<(String, String)>, name: Seq<char>, i: int) -> Option<
    Seq<char>,
>
    decreases vars.len() - i,
{
    if i < 0 || i >= vars.len() {
        None
    } else if vars[i].0@ == name {
        Some(vars[i].1@)
    } else {
        env_value_from(vars, name, i + 1)
    }
}

/// The value of a variable in the snapshot.
pub open spec fn env_value(env: EnvSnapshot, name: Seq<char>) -> Option<Seq<char>> {
    env_value_from(env.vars@, name, 0)
}

/// A variable counts as set when its value is not blank.
pub open spec fn env_is_set(env: EnvSnapshot, name: Seq<char>) -> bool {
    match env_value(env, name) {
        Some(v) => !blank(v),
        None => false,
    }
}

impl EnvSnapshot {
    /// The value of variable `name`, if it is in the snapshot.
    pub fn value(&self, name: &str) -> (r: Option<&String>)
        ensures
            match r {
                Some(v) => env_value(*self, name@) == Some(v@),
                None => env_value(*self, name@) is None,
            },
    {
        let mut i: usize = 0;
        while i < self.vars.len()
            invariant
                i <= self.vars@.len(),
                env_value(*self, name@) == env_value_from(self.vars@, name@, i as int),
            decreases self.vars@.len() - i,
        {
            if str_eq(self.vars[i].0.as_str(), name) {
                return Some(&self.vars[i].1);
            }
            i = i + 1;
        }
        None
    }

    /// Whether variable `name` is set to a value that is not blank.
    pub fn is_set(&self, name: &str) -> (r: bool)
        ensures
            r == env_is_set(*self, name@),
    {
        match self.value(name) {
            Some(v) => !is_blank(v.as_str()),
            None => false,
        }
    }
}

/// The group a profile refers to, by position in the store.
pub open spec fn group_of(store: Store, id: Seq<char>) -> EnvironmentGroup {
    store.env_groups.vals()[store.env_groups.index_of_key(id)]
}

/// What the status of the group of `profile` reports.
pub open spec fn status_of(
    store: Store,
    profile: Profile,
    env: EnvSnapshot,
    st: EnvironmentGroupStatus,
) -> bool {
    let id = referenced_group(profile)->0;
    let g = group_of(store, id);
    &&& st.group_id@ == id
    &&& st.group_name == g.name
    &&& st.variables@.len() == g.entries@.len()
    &&& forall|k: int|
        0 <= k < g.entries@.len() ==> {
            &&& (#[trigger] st.variables@[k]).alias == g.entries@[k].alias
            &&& st.variables@[k].env_name == g.entries@[k].env_name
            &&& st.variables@[k].is_set == env_is_set(env, g.entries@[k].env_name@)
        }
}

/// Reports which variables of the group a profile selected are set. No
/// group selected: `None`. A group that does not exist: an error.
pub fn environment_group_status(store: &Store, profile: &Profile, env: &EnvSnapshot) -> (r: Result<
    Option<EnvironmentGroupStatus>,
    ConfigError,
>)
    requires
        store.wf(),
    ensures
        match r {
            Ok(None) => referenced_group(*profile) is None,
            Ok(Some(st)) => referenced_group(*profile) is Some && store.env_groups.keys().contains(
                referenced_group(*profile)->0,
            ) && status_of(*store, *profile, *env, st),
            Err(e) => referenced_group(*profile) is Some && !store.env_groups.keys().contains(
                referenced_group(*profile)->0,
            ) && e@ == (Problem::MissingEnvGroup {
                domain: profile.domain@,
                group_id: referenced_group(*profile)->0,
            }),
        },
{
    let id = match &profile.dns.env_group_id {
        Some(id) => {
            if is_blank(id.as_str()) {
                return Ok(None);
            }
            id
        },
        None => {
            return Ok(None);
        },
    };
    let group = match store.env_groups.get(id.as_str()) {
        Some(g) => g,
        None => {
            return Err(
                ConfigError::MissingEnvGroup { domain: profile.domain.clone(), group_id: id.clone() },
            );
        },
    };
    let mut variables: Vec<EnvironmentVariableStatus> = Vec::new();
    let mut k: usize = 0;
    while k < group.entries.len()
        invariant
            k <= group.entries@.len(),
            variables@.len() == k,
            forall|q: int|
                0 <= q < k ==> {
                    &&& (#[trigger] variables@[q]).alias == group.entries@[q].alias
                    &&& variables@[q].env_name == group.entries@[q].env_name
                    &&& variables@[q].is_set == env_is_set(*env, group.entries@[q].env_name@)
                },
        decreases group.entries@.len() - k,
    {
        let e = &group.entries[k];
        variables.push(
            EnvironmentVariableStatus {
                alias: e.alias.clone(),
                env_name: e.env_name.clone(),
                is_set: env.is_set(e.env_name.as_str()),
            },
        );
        k = k + 1;
    }
    Ok(Some(EnvironmentGroupStatus { group_id: id.clone(), group_name: group.name.clone(), variables }))
}

/// Position of the first entry whose alias equals `alias` ignoring ASCII
/// case, from entry `k` on; the number of entries when there is none.
pub open spec fn first_alias_from(entries: Seq<EnvGroupEntry>, alias: Seq<char>, k: int) -> int
    decreases entries.len() - k,
{
    if k < 0 || k >= entries.len() {
        entries.len() as int
    } else if lower(entries[k].alias@) == lower(alias) {
        k
    } else {
        first_alias_from(entries, alias, k + 1)
    }
}

/// The variable name a group gives for `alias`: that of the first entry
/// with the alias (ASCII case ignored), if it is not blank.
pub open spec fn alias_target(g: EnvironmentGroup, alias: Seq<char>) -> Option<Seq<char>> {
    let k = first_alias_from(g.entries@, alias, 0);
    if k < g.entries@.len() && !blank(g.entries@[k].env_name@) {
        Some(g.entries@[k].env_name@)
    } else {
        None
    }
}

/// The variable name a group gives for an alias the DNS driver needs.
pub fn required_alias(group: &EnvironmentGroup, alias: &str) -> (r: Result<String, ConfigError>)
    ensures
        match r {
            Ok(v) => alias_target(*group, alias@) == Some(v@),
            Err(e) => alias_target(*group, alias@) is None && e@ == (Problem::MissingAlias {
                group_name: group.name@,
                alias: alias@,
            }),
        },
{
    let want = to_ascii_lowercase(alias);
    let mut k: usize = 0;
    while k < group.entries.len()
        invariant
            k <= group.entries@.len(),
            want@ == lower(alias@),
            first_alias_from(group.entries@, alias@, 0) == first_alias_from(
                group.entries@,
                alias@,
                k as int,
            ),
        decreases group.entries@.len() - k,
    {
        let a = to_ascii_lowercase(group.entries[k].alias.as_str());
        if str_eq(a.as_str(), want.as_str()) {
            let env_name = &group.entries[k].env_name;
            if is_blank(env_name.as_str()) {
                return Err(ConfigError::MissingAlias { group_name: group.name.clone(), alias: owned(alias) });
            }
            return Ok(env_name.clone());
        }
        k = k + 1;
    }
    Err(ConfigError::MissingAlias { group_name: group.name.clone(), alias: owned(alias) })
}

/// Position of the first entry of a group whose variable is not set, from
/// entry `k` on; the number of entries when all are set.
pub open spec fn first_unset_from(entries: Seq<EnvGroupEntry>, env: EnvSnapshot, k: int) -> int
    decreases entries.len() - k,
{
    if k < 0 || k >= entries.len() {
        entries.len() as int
    } else if !env_is_set(env, entries[k].env_name@) {
        k
    } else {
        first_unset_from(entries, env, k + 1)
    }
}

/// Why a profile's selected group cannot be used with the current
/// environment, if it cannot: the group is missing, a variable of it is not
/// set, or an alias the DNS driver needs is missing.
pub open spec fn resolve_problem(store: Store, profile: Profile, env: EnvSnapshot) -> Option<Problem> {
    match referenced_group(profile) {
        None => None,
        Some(id) => if !store.env_groups.keys().contains(id) {
            Some(Problem::MissingEnvGroup { domain: profile.domain@, group_id: id })
        } else {
            let g = group_of(store, id);
            let k = first_unset_from(g.entries@, env, 0);
            if k < g.entries@.len() {
                Some(
                    Problem::MissingVariable {
                        group_name: g.name@,
                        env_name: g.entries@[k].env_name@,
                        alias: g.entries@[k].alias@,
                    },
                )
            } else {
                match provider_kind_of(profile.dns.provider@) {
                    DnsProviderKind::Aliyun => if alias_target(g, "AccessKeyId"@) is None {
                        Some(Problem::MissingAlias { group_name: g.name@, alias: "AccessKeyId"@ })
                    } else if alias_target(g, "AccessKeySecret"@) is None {
                        Some(
                            Problem::MissingAlias {
                                group_name: g.name@,
                                alias: "AccessKeySecret"@,
                            },
                        )
                    } else {
                        None
                    },
                    DnsProviderKind::Cloudflare => if alias_target(g, "API Token"@) is None {
                        Some(Problem::MissingAlias { group_name: g.name@, alias: "API Token"@ })
                    } else {
                        None
                    },
                    _ => None,
                }
            }
        },
    }
}

/// The profile with the selected group's variable names in place of the
/// profile's own ones.
pub open spec fn resolved_profile(store: Store, profile: Profile, r: Profile) -> bool {
    &&& same_but_env_names(profile, r)
    &&& match referenced_group(profile) {
        None => same_profile(profile, r),
        Some(id) => {
            let g = group_of(store, id);
            match provider_kind_of(profile.dns.provider@) {
                DnsProviderKind::Aliyun => {
                    &&& Some(r.dns.aliyun.access_key_id_env@) == alias_target(g, "AccessKeyId"@)
                    &&& Some(r.dns.aliyun.access_key_secret_env@) == alias_target(
                        g,
                        "AccessKeySecret"@,
                    )
                    &&& r.dns.cloudflare.api_token_env == profile.dns.cloudflare.api_token_env
                },
                DnsProviderKind::Cloudflare => {
                    &&& Some(r.dns.cloudflare.api_token_env@) == alias_target(g, "API Token"@)
                    &&& r.dns.aliyun.access_key_id_env == profile.dns.aliyun.access_key_id_env
                    &&& r.dns.aliyun.access_key_secret_env
                        == profile.dns.aliyun.access_key_secret_env
                },
                _ => same_profile(profile, r),
            }
        },
    }
}

/// The profile a DNS driver runs with: when it selects an environment
/// group, every variable of the group must be set, and the group supplies
/// the variable names of the credentials the provider needs.
pub fn resolve_profile_environment_group(
    store: &Store,
    profile: &Profile,
    env: &EnvSnapshot,
) -> (r: Result<Profile, ConfigError>)
    requires
        store.wf(),
    ensures
        match r {
            Ok(p) => resolve_problem(*store, *profile, *env) is None && resolved_profile(
                *store,
                *profile,
                p,
            ),
            Err(e) => resolve_problem(*store, *profile, *env) == Some(e@),
        },
{
    let status = match environment_group_status(store, profile, env) {
        Ok(Some(st)) => st,
        Ok(None) => {
            return Ok(profile.copy());
        },
        Err(e) => {
            return Err(e);
        },
    };
    let ghost id = referenced_group(*profile)->0;
    let ghost g = group_of(*store, id);
    let group = match store.env_groups.get(status.group_id.as_str()) {
        Some(gr) => gr,
        None => {
            return Err(ConfigError::GroupNotFound { id: status.group_id.clone() });
        },
    };
    assert(*group == g);
    let mut k: usize = 0;
    while k < status.variables.len()
        invariant
            status_of(*store, *profile, *env, status),
            g == group_of(*store, id),
            id == referenced_group(*profile)->0,
            referenced_group(*profile) is Some,
            store.env_groups.keys().contains(id),
            k <= status.variables@.len(),
            first_unset_from(g.entries@, *env, 0) == first_unset_from(g.entries@, *env, k as int),
        decreases status.variables@.len() - k,
    {
        let v = &status.variables[k];
        if !v.is_set {
            assert(status.variables@[k as int].is_set == env_is_set(*env, g.entries@[k as int].env_name@));
            assert(first_unset_from(g.entries@, *env, k as int) == k);
            return Err(
                ConfigError::MissingVariable {
                    group_name: status.group_name.clone(),
                    env_name: v.env_name.clone(),
                    alias: v.alias.clone(),
                },
            );
        }
        k = k + 1;
    }
    let mut resolved = profile.copy();
    match DnsProviderKind::from_value(profile.dns.provider.as_str()) {
        DnsProviderKind::Aliyun => {
            resolved.dns.aliyun.access_key_id_env = match required_alias(group, "AccessKeyId") {
                Ok(v) => v,
                Err(e) => {
                    return Err(e);
                },
            };
            resolved.dns.aliyun.access_key_secret_env = match required_alias(
                group,
                "AccessKeySecret",
            ) {
                Ok(v) => v,
                Err(e) => {
                    return Err(e);
                },
            };
        },
        DnsProviderKind::Cloudflare => {
            resolved.dns.cloudflare.api_token_env = match required_alias(group, "API Token") {
                Ok(v) => v,
                Err(e) => {
                    return Err(e);
                },
            };
        },
        _ => {},
    }
    Ok(resolved)
}

/// After normalization the current domain names an existing profile.
pub proof fn lemma_normalized_current_exists(old_store: Store, new_store: Store)
    requires
        normalized_store(old_store, new_store),
    ensures
        new_store.profiles.keys().contains(new_store.current_domain@),
{
    if old_store.profiles.keys().len() == 0 {
        assert(new_store.profiles.keys()[0] == "*.example.com"@);
    } else if old_store.profiles.keys().contains(old_store.current_domain@) {
    } else {
        assert(new_store.profiles.keys()[0] == old_store.profiles.keys()[0]);
    }
}

/// A group's status tells only whether its variables are set: two
/// environments that agree on that give the same status.
pub proof fn lemma_status_reveals_only_presence(
    store: Store,
    profile: Profile,
    env1: EnvSnapshot,
    env2: EnvSnapshot,
    st: EnvironmentGroupStatus,
)
    requires
        referenced_group(profile) is Some,
        status_of(store, profile, env1, st),
        forall|name: Seq<char>| env_is_set(env1, name) == env_is_set(env2, name),
    ensures
        status_of(store, profile, env2, st),
{
}

proof fn lemma_first_unset_at_most(entries: Seq<EnvGroupEntry>, env: EnvSnapshot, j: int, k: int)
    requires
        0 <= j <= k < entries.len(),
        !env_is_set(env, entries[k].env_name@),
    ensures
        j <= first_unset_from(entries, env, j) <= k,
    decreases k - j,
{
    if j < k && env_is_set(env, entries[j].env_name@) {
        lemma_first_unset_at_most(entries, env, j + 1, k);
    }
}

/// Every variable of a selected group is checked before a run: when any
/// one of them is not set, the profile cannot be resolved.
pub proof fn lemma_unset_variable_blocks_run(
    store: Store,
    profile: Profile,
    env: EnvSnapshot,
    k: int,
)
    requires
        referenced_group(profile) is Some,
        store.env_groups.keys().contains(referenced_group(profile)->0),
        0 <= k < group_of(store, referenced_group(profile)->0).entries@.len(),
        !env_is_set(env, group_of(store, referenced_group(profile)->0).entries@[k].env_name@),
    ensures
        resolve_problem(store, profile, env) matches Some(Problem::MissingVariable { .. }),
{
    let g = group_of(store, referenced_group(profile)->0);
    lemma_first_unset_at_most(g.entries@, env, 0, k);
}

/// Without a selected group a profile runs with its own variable names.
pub proof fn lemma_no_group_keeps_profile(store: Store, profile: Profile, r: Profile)
    requires
        referenced_group(profile) is None,
        resolved_profile(store, profile, r),
    ensures
        same_profile(profile, r),
{
}

} // verus!

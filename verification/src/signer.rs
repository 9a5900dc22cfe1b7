//! The restricted signer: what it stores, which TXT writes it accepts, how a
//! client proves it may ask, and the order of checks a write must pass.
use crate::config::default_signer_pipe;
use crate::config::{default_aliyun_endpoint, default_cf_endpoint};
use crate::crypto::{
    aes_gcm_max_plaintext, aes_gcm_seal, argon2_accepts, argon2id_key, base64_decode, base64_encode,
    hmac_sha256, random_bytes, spec_aes_gcm_open, spec_aes_gcm_seal, spec_argon2id, spec_base64, spec_base64_decode, spec_hmac_sha256,
};
use crate::json::{decimal, json_string, push_decimal, push_json_string, push_str};
use crate::text::{
    blank, cat, contains_pat, is_blank, join, join_strings, lower, owned, str_eq, strip_suffix,
    strip_suffix_str, to_ascii_lowercase, trim, trim_end_char, trim_end_matches_char,
    trim_start_matches_str, trim_start_pat, trim_ws,
};
use vstd::prelude::*;
use vstd::utf8::encode_utf8;
use vstd::wrapping::u64_specs::wrapping_mul;

verus! {

pub const SIGNER_STATE_DIR: &'static str = "signer-state";

pub const SIGNER_SECRETS_FILE: &'static str = "signer-secrets.yaml";

pub const PROTECTION_DPAPI_V1: &'static str = "dpapi_v1";

pub const PROTECTION_PASSPHRASE_DPAPI_V1: &'static str = "passphrase_dpapi_v1";

/// How long an authorization lasts, in seconds.
pub const AUTH_WINDOW_SECONDS: i64 = 300;

pub const ARGON2_M_COST: u32 = 19456;

pub const ARGON2_T_COST: u32 = 2;

pub const ARGON2_P_COST: u32 = 1;

/// The signer's configuration file.
pub struct SignerSecretsFile {
    pub version: u32,
    pub protection_mode: String,
    pub provider: String,
    pub root_domain: String,
    pub allowed_domains: Vec<String>,
    pub ttl: u32,
    pub pipe_name: String,
    pub pipe_sddl: Option<String>,
    pub aliyun: Option<AliyunSignerSecrets>,
    pub cloudflare: Option<CloudflareSignerSecrets>,
    pub secure: Option<SecureSignerSecrets>,
}

pub struct AliyunSignerSecrets {
    pub access_key_id_dpapi: String,
    pub access_key_secret_dpapi: String,
    pub endpoint: String,
}

pub struct CloudflareSignerSecrets {
    pub token_dpapi: String,
    pub endpoint: String,
}

pub struct SecureSignerSecrets {
    pub metadata_dpapi: String,
    pub nonce: String,
    pub ciphertext: String,
}

/// A request to initialize the signer.
pub struct SignerInitRequest {
    pub provider: String,
    pub root_domain: String,
    pub allowed_domains: Vec<String>,
    pub ttl: Option<u32>,
    pub pipe_name: Option<String>,
    pub pipe_sddl: Option<String>,
    pub protection_mode: Option<String>,
    pub unlock_passphrase: Option<String>,
    pub aliyun_access_key_id: Option<String>,
    pub aliyun_access_key_secret: Option<String>,
    pub aliyun_endpoint: Option<String>,
    pub cloudflare_token: Option<String>,
    pub cloudflare_endpoint: Option<String>,
}

/// A TXT record the signer is asked to write.
pub struct SignerPresentRequest {
    pub domain: String,
    pub txt_name: String,
    pub rr_name: String,
    pub txt_value: String,
}

pub struct SignerRuntimeStatus {
    pub protection_mode: String,
    pub provider: String,
    pub unlocked: bool,
    pub authorized: bool,
    pub root_domain: String,
    pub allowed_domains: Vec<String>,
    pub pipe_name: String,
}

pub struct SignerResponse {
    pub ok: bool,
    pub message: String,
    pub status: Option<SignerRuntimeStatus>,
}

/// A request sent to the signer over its pipe.
pub enum SignerPipeRequest {
    Authorize { nonce: String, process_name: String, proof: String },
    Unlock { passphrase: String },
    Lock,
    Status,
    Present { request: SignerPresentRequest },
}

/// A DNS provider that asks the signer agent to write the records.
pub struct SignerDnsProvider {
    pub pipe_name: String,
}

impl SignerDnsProvider {
    pub fn new(pipe_name: String) -> (r: Self)
        ensures
            r.pipe_name == pipe_name,
    {
        SignerDnsProvider { pipe_name }
    }
}

/// Why the signer refused.
pub enum SignerReason {
    Security,
    OnlyAcmeTxt,
    NotAllowedDomain { txt_name: Seq<char> },
    NotUnderRoot { root_domain: Seq<char> },
    RrMismatch { expected: Seq<char> },
    TxtLength,
    TxtChars,
    EmptyRootDomain,
    Required { label: Seq<char> },
    UnsupportedProvider { provider: Seq<char> },
    UnknownProtection { mode: Seq<char> },
    NotAuthorized,
    NotUnlocked,
    UnlockFailed,
    MissingAliyunSecrets,
    MissingCloudflareSecrets,
    ProviderNotSupported { provider: Seq<char> },
    MissingSecureSecrets,
    Protect { detail: Seq<char> },
    Encrypt,
    Invalid { detail: Seq<char> },
    MissingSealedAliyun,
    MissingSealedCloudflare,
    OutsideTimezone,
    OutsideHours,
    RequestTooLarge,
}

pub enum SignerError {
    Security,
    OnlyAcmeTxt,
    NotAllowedDomain { txt_name: String },
    NotUnderRoot { root_domain: String },
    RrMismatch { expected: String },
    TxtLength,
    TxtChars,
    EmptyRootDomain,
    Required { label: String },
    UnsupportedProvider { provider: String },
    UnknownProtection { mode: String },
    NotAuthorized,
    NotUnlocked,
    UnlockFailed,
    MissingAliyunSecrets,
    MissingCloudflareSecrets,
    ProviderNotSupported { provider: String },
    MissingSecureSecrets,
    Protect { detail: String },
    Encrypt,
    Invalid { detail: String },
    MissingSealedAliyun,
    MissingSealedCloudflare,
    OutsideTimezone,
    OutsideHours,
    RequestTooLarge,
}

impl View for SignerError {
    type V = SignerReason;

    open spec fn view(&self) -> SignerReason {
        match self {
            SignerError::Security => SignerReason::Security,
            SignerError::OnlyAcmeTxt => SignerReason::OnlyAcmeTxt,
            SignerError::NotAllowedDomain { txt_name } => SignerReason::NotAllowedDomain {
                txt_name: txt_name@,
            },
            SignerError::NotUnderRoot { root_domain } => SignerReason::NotUnderRoot {
                root_domain: root_domain@,
            },
            SignerError::RrMismatch { expected } => SignerReason::RrMismatch {
                expected: expected@,
            },
            SignerError::TxtLength => SignerReason::TxtLength,
            SignerError::TxtChars => SignerReason::TxtChars,
            SignerError::EmptyRootDomain => SignerReason::EmptyRootDomain,
            SignerError::Required { label } => SignerReason::Required { label: label@ },
            SignerError::UnsupportedProvider { provider } => SignerReason::UnsupportedProvider {
                provider: provider@,
            },
            SignerError::UnknownProtection { mode } => SignerReason::UnknownProtection {
                mode: mode@,
            },
            SignerError::NotAuthorized => SignerReason::NotAuthorized,
            SignerError::NotUnlocked => SignerReason::NotUnlocked,
            SignerError::UnlockFailed => SignerReason::UnlockFailed,
            SignerError::MissingAliyunSecrets => SignerReason::MissingAliyunSecrets,
            SignerError::MissingCloudflareSecrets => SignerReason::MissingCloudflareSecrets,
            SignerError::ProviderNotSupported { provider } => SignerReason::ProviderNotSupported {
                provider: provider@,
            },
            SignerError::MissingSecureSecrets => SignerReason::MissingSecureSecrets,
            SignerError::Protect { detail } => SignerReason::Protect { detail: detail@ },
            SignerError::Encrypt => SignerReason::Encrypt,
            SignerError::Invalid { detail } => SignerReason::Invalid { detail: detail@ },
            SignerError::MissingSealedAliyun => SignerReason::MissingSealedAliyun,
            SignerError::MissingSealedCloudflare => SignerReason::MissingSealedCloudflare,
            SignerError::OutsideTimezone => SignerReason::OutsideTimezone,
            SignerError::OutsideHours => SignerReason::OutsideHours,
            SignerError::RequestTooLarge => SignerReason::RequestTooLarge,
        }
    }
}

/// The text a refusal is reported with.
pub open spec fn reason_message(r: SignerReason) -> Seq<char> {
    match r {
        SignerReason::Security => "签发程序安全校验未通过"@,
        SignerReason::OnlyAcmeTxt => "signer 只允许写 _acme-challenge TXT 记录"@,
        SignerReason::NotAllowedDomain { txt_name } => "TXT 名称不在 signer 允许域名内："@ + txt_name,
        SignerReason::NotUnderRoot { root_domain } => "TXT 名称不属于 signer 根域名："@
            + root_domain,
        SignerReason::RrMismatch { expected } => "RR 主机记录与 TXT 名称不匹配，期望："@ + expected,
        SignerReason::TxtLength => "TXT 值长度不符合 ACME DNS-01 常见范围"@,
        SignerReason::TxtChars => "TXT 值包含非法字符"@,
        SignerReason::EmptyRootDomain => "根域名不能为空"@,
        SignerReason::Required { label } => label + " 不能为空"@,
        SignerReason::UnsupportedProvider { provider } => "signer 暂不支持厂商："@ + provider,
        SignerReason::UnknownProtection { mode } => "未知 signer 保护模式："@ + mode,
        SignerReason::NotAuthorized => "signer 未授权，请先由主程序建立授权会话"@,
        SignerReason::NotUnlocked => "signer 未解锁，请先输入口令解锁"@,
        SignerReason::UnlockFailed => "signer 解锁失败"@,
        SignerReason::MissingAliyunSecrets => "缺少阿里云 signer 配置"@,
        SignerReason::MissingCloudflareSecrets => "缺少 Cloudflare signer 配置"@,
        SignerReason::ProviderNotSupported { provider } => "signer 不支持厂商："@ + provider,
        SignerReason::MissingSecureSecrets => "缺少高安全 signer 密文配置"@,
        SignerReason::Protect { detail } => detail,
        SignerReason::Encrypt => "signer 加密失败"@,
        SignerReason::Invalid { detail } => detail,
        SignerReason::MissingSealedAliyun => "缺少阿里云高安全凭据"@,
        SignerReason::MissingSealedCloudflare => "缺少 Cloudflare 高安全凭据"@,
        SignerReason::OutsideTimezone => "signer 仅允许在东八区启动"@,
        SignerReason::OutsideHours => "signer 仅允许在 06:00 到 24:00 之间启动"@,
        SignerReason::RequestTooLarge => "signer 请求过大"@,
    }
}

impl SignerError {
    pub fn message(&self) -> (r: String)
        ensures
            r@ == reason_message(self@),
    {
        match self {
            SignerError::Security => String::from_str("签发程序安全校验未通过"),
            SignerError::OnlyAcmeTxt => String::from_str("signer 只允许写 _acme-challenge TXT 记录"),
            SignerError::NotAllowedDomain { txt_name } => cat(
                "TXT 名称不在 signer 允许域名内：",
                txt_name.as_str(),
            ),
            SignerError::NotUnderRoot { root_domain } => cat(
                "TXT 名称不属于 signer 根域名：",
                root_domain.as_str(),
            ),
            SignerError::RrMismatch { expected } => cat(
                "RR 主机记录与 TXT 名称不匹配，期望：",
                expected.as_str(),
            ),
            SignerError::TxtLength => String::from_str("TXT 值长度不符合 ACME DNS-01 常见范围"),
            SignerError::TxtChars => String::from_str("TXT 值包含非法字符"),
            SignerError::EmptyRootDomain => String::from_str("根域名不能为空"),
            SignerError::Required { label } => cat(label.as_str(), " 不能为空"),
            SignerError::UnsupportedProvider { provider } => cat(
                "signer 暂不支持厂商：",
                provider.as_str(),
            ),
            SignerError::UnknownProtection { mode } => cat("未知 signer 保护模式：", mode.as_str()),
            SignerError::NotAuthorized => String::from_str("signer 未授权，请先由主程序建立授权会话"),
            SignerError::NotUnlocked => String::from_str("signer 未解锁，请先输入口令解锁"),
            SignerError::UnlockFailed => String::from_str("signer 解锁失败"),
            SignerError::MissingAliyunSecrets => String::from_str("缺少阿里云 signer 配置"),
            SignerError::MissingCloudflareSecrets => String::from_str("缺少 Cloudflare signer 配置"),
            SignerError::ProviderNotSupported { provider } => cat(
                "signer 不支持厂商：",
                provider.as_str(),
            ),
            SignerError::MissingSecureSecrets => String::from_str("缺少高安全 signer 密文配置"),
            SignerError::Protect { detail } => detail.clone(),
            SignerError::Encrypt => String::from_str("signer 加密失败"),
            SignerError::Invalid { detail } => detail.clone(),
            SignerError::MissingSealedAliyun => String::from_str("缺少阿里云高安全凭据"),
            SignerError::MissingSealedCloudflare => String::from_str("缺少 Cloudflare 高安全凭据"),
            SignerError::OutsideTimezone => String::from_str("signer 仅允许在东八区启动"),
            SignerError::OutsideHours => String::from_str("signer 仅允许在 06:00 到 24:00 之间启动"),
            SignerError::RequestTooLarge => String::from_str("signer 请求过大"),
        }
    }
}

/// A domain as the signer compares it: trimmed, without trailing dots, and
/// without any leading `*.`.
pub open spec fn clean_domain_of(value: Seq<char>) -> Seq<char> {
    trim_start_pat(trim_end_char(trim_ws(value), '.'), "*."@)
}

pub fn clean_domain(value: &str) -> (r: String)
    ensures
        r@ == clean_domain_of(value@),
{
    owned(trim_start_matches_str(trim_end_matches_char(trim(value), '.'), "*."))
}

/// The provider name the signer stores: aliases of the two supported
/// vendors become their names; anything else is kept, lowercased.
pub open spec fn normalized_provider(value: Seq<char>) -> Seq<char> {
    let v = lower(trim_ws(value));
    if v == "aliyun"@ || v == "ali"@ || v == "阿里云"@ {
        "aliyun"@
    } else if v == "cloudflare"@ || v == "cf"@ {
        "cloudflare"@
    } else {
        v
    }
}

pub fn normalize_provider(value: &str) -> (r: String)
    ensures
        r@ == normalized_provider(value@),
{
    let v = to_ascii_lowercase(trim(value));
    if str_eq(v.as_str(), "aliyun") || str_eq(v.as_str(), "ali") || str_eq(v.as_str(), "阿里云") {
        String::from_str("aliyun")
    } else if str_eq(v.as_str(), "cloudflare") || str_eq(v.as_str(), "cf") {
        String::from_str("cloudflare")
    } else {
        v
    }
}

/// A value that must be given: its trimmed text, unless that is empty.
pub fn required(value: Option<String>, label: &str) -> (r: Result<String, SignerError>)
    ensures
        match r {
            Ok(v) => value is Some && !blank(value->0@) && v@ == trim_ws(value->0@),
            Err(e) => (value is None || blank(value->0@)) && e@ == (SignerReason::Required {
                label: label@,
            }),
        },
{
    match value {
        Some(v) => {
            let t = trim(v.as_str());
            if t.unicode_len() == 0 {
                Err(SignerError::Required { label: owned(label) })
            } else {
                Ok(owned(t))
            }
        },
        None => Err(SignerError::Required { label: owned(label) }),
    }
}

/// Bytes a TXT value may hold: ASCII letters, digits, `-` and `_`.
pub open spec fn txt_byte_ok(b: u8) -> bool {
    ||| 0x30 <= b <= 0x39
    ||| 0x41 <= b <= 0x5a
    ||| 0x61 <= b <= 0x7a
    ||| b == 0x2d
    ||| b == 0x5f
}

/// Why a TXT value is refused: its trimmed UTF-8 form must be 20 to 128
/// bytes long and hold only the bytes above.
pub open spec fn txt_value_problem(value: Seq<char>) -> Option<SignerReason> {
    let b = encode_utf8(trim_ws(value));
    if b.len() < 20 || b.len() > 128 {
        Some(SignerReason::TxtLength)
    } else if exists|i: int| 0 <= i < b.len() && !txt_byte_ok(#[trigger] b[i]) {
        Some(SignerReason::TxtChars)
    } else {
        None
    }
}

/// A TXT value is accepted exactly when, trimmed, it is 20 to 128 bytes of
/// ASCII digits, letters, `-` and `_` (the base64url alphabet of DNS-01
/// digests).
pub proof fn lemma_txt_value_alphabet(value: Seq<char>)
    ensures
        txt_value_problem(value) is None <==> {
            let b = encode_utf8(trim_ws(value));
            &&& 20 <= b.len() <= 128
            &&& forall|i: int|
                0 <= i < b.len() ==> {
                    ||| 0x30 <= #[trigger] b[i] <= 0x39
                    ||| 0x41 <= b[i] <= 0x5a
                    ||| 0x61 <= b[i] <= 0x7a
                    ||| b[i] == 0x2d
                    ||| b[i] == 0x5f
                }
        },
{
}

pub fn validate_txt_value(value: &str) -> (r: Result<(), SignerError>)
    ensures
        match r {
            Ok(()) => txt_value_problem(value@) is None,
            Err(e) => txt_value_problem(value@) == Some(e@),
        },
{
    let trimmed = trim(value);
    let bytes = trimmed.as_bytes();
    let n = bytes.len();
    if n < 20 || n > 128 {
        return Err(SignerError::TxtLength);
    }
    let mut i: usize = 0;
    while i < n
        invariant
            n == bytes@.len(),
            20 <= n <= 128,
            i <= n,
            bytes@ == encode_utf8(trimmed@),
            trimmed@ == trim_ws(value@),
            forall|k: int| 0 <= k < i ==> txt_byte_ok(#[trigger] bytes@[k]),
        decreases n - i,
    {
        let b = bytes[i];
        let ok = (0x30 <= b && b <= 0x39) || (0x41 <= b && b <= 0x5a) || (0x61 <= b && b <= 0x7a)
            || b == 0x2d || b == 0x5f;
        if !ok {
            assert(!txt_byte_ok(bytes@[i as int]));
            return Err(SignerError::TxtChars);
        }
        i = i + 1;
    }
    Ok(())
}

/// The host record the signer expects for a (lowercased) TXT name: the
/// name without `.<root>`, the root cleaned and lowercased.
pub open spec fn expected_rr(root_domain: Seq<char>, txt_name: Seq<char>) -> Option<Seq<char>> {
    strip_suffix(txt_name, "."@ + lower(clean_domain_of(root_domain)))
}

pub fn expected_rr_name(config: &SignerSecretsFile, txt_name: &str) -> (r: Result<String, SignerError>)
    ensures
        match r {
            Ok(rr) => expected_rr(config.root_domain@, txt_name@) == Some(rr@),
            Err(e) => expected_rr(config.root_domain@, txt_name@) is None && e@ == (
            SignerReason::NotUnderRoot { root_domain: config.root_domain@ }),
        },
{
    let root = to_ascii_lowercase(clean_domain(config.root_domain.as_str()).as_str());
    let suffix = cat(".", root.as_str());
    match strip_suffix_str(txt_name, suffix.as_str()) {
        Some(rest) => Ok(owned(rest)),
        None => Err(SignerError::NotUnderRoot { root_domain: config.root_domain.clone() }),
    }
}

/// The TXT name as the signer compares it.
pub open spec fn normalized_txt_name(txt_name: Seq<char>) -> Seq<char> {
    lower(trim_end_char(trim_ws(txt_name), '.'))
}

/// Whether some allowed domain, cleaned and lowercased, is `owner`.
pub open spec fn owner_allowed(allowed: Seq<String>, owner: Seq<char>) -> bool {
    exists|i: int| 0 <= i < allowed.len() && lower(clean_domain_of(#[trigger] allowed[i]@)) == owner
}

/// Why the signer refuses to write a TXT record, checked in order: the
/// name must be an `_acme-challenge.` name, the domain under it must be
/// allowed, the name must lie under the root domain, the host record must
/// be the one the name implies, and the value must look like a DNS-01
/// digest.
pub open spec fn request_problem(config: SignerSecretsFile, request: SignerPresentRequest) -> Option<
    SignerReason,
> {
    let txt = normalized_txt_name(request.txt_name@);
    let owner = trim_start_pat(txt, "_acme-challenge."@);
    if !"_acme-challenge."@.is_prefix_of(txt) {
        Some(SignerReason::OnlyAcmeTxt)
    } else if !owner_allowed(config.allowed_domains@, owner) {
        Some(SignerReason::NotAllowedDomain { txt_name: request.txt_name@ })
    } else {
        match expected_rr(config.root_domain@, txt) {
            None => Some(SignerReason::NotUnderRoot { root_domain: config.root_domain@ }),
            Some(rr) => if lower(trim_ws(request.rr_name@)) != rr {
                Some(SignerReason::RrMismatch { expected: rr })
            } else {
                txt_value_problem(request.txt_value@)
            },
        }
    }
}

pub const FLOW_START: u64 = 0x4d53_5352_4752_4431u64;

pub const FLOW_MULTIPLIER: u64 = 0x9e37_79b9_7f4a_7c15u64;

pub const FLOW_MASK: u64 = 0xa5a5_5a5a_c3c3_3c3cu64;

/// One step of the flow check: the value rotated left by 7 bits, mixed
/// with the step number.
pub open spec fn flow_mark(value: u64, step: u64) -> u64 {
    ((value << 7u64) | (value >> 57u64)) ^ wrapping_mul(step, FLOW_MULTIPLIER) ^ FLOW_MASK
}

/// The flow value after the given steps, from the start value.
pub open spec fn flow_after(steps: Seq<u64>) -> u64
    decreases steps.len(),
{
    if steps.len() == 0 {
        FLOW_START
    } else {
        flow_mark(flow_after(steps.drop_last()), steps.last())
    }
}

/// The steps a TXT write passes through, in order.
pub open spec fn complete_flow() -> Seq<u64> {
    seq![1u64, 2u64, 3u64, 4u64, 5u64, 6u64]
}

/// A running record of the checks a TXT write has passed.
pub struct FlowGuard {
    pub value: u64,
}

impl FlowGuard {
    pub fn new() -> (r: Self)
        ensures
            r.value == flow_after(Seq::empty()),
    {
        FlowGuard { value: FLOW_START }
    }

    pub fn mark(&mut self, step: u64)
        ensures
            final(self).value == flow_mark(old(self).value, step),
    {
        self.value = ((self.value << 7u64) | (self.value >> 57u64)) ^ step.wrapping_mul(
            FLOW_MULTIPLIER,
        ) ^ FLOW_MASK;
    }

    /// Succeeds exactly when the value is the one that steps 1 to 6, in
    /// order, produce.
    pub fn ensure_complete(&self) -> (r: Result<(), SignerError>)
        ensures
            r is Ok <==> self.value == flow_after(complete_flow()),
            r matches Err(e) ==> e@ == SignerReason::Security,
    {
        let mut expected = FlowGuard::new();
        let mut step: u64 = 1;
        while step <= 6
            invariant
                1 <= step <= 7,
                expected.value == flow_after(complete_flow().take(step - 1)),
            decreases 7 - step,
        {
            proof {
                let s = complete_flow().take(step as int);
                assert(s.drop_last() =~= complete_flow().take(step - 1));
                assert(s.last() == step);
            }
            expected.mark(step);
            step = step + 1;
        }
        assert(complete_flow().take(6) =~= complete_flow());
        if self.value != expected.value {
            return Err(SignerError::Security);
        }
        Ok(())
    }
}

fn any_allowed(allowed: &Vec<String>, owner: &str) -> (r: bool)
    ensures
        r == owner_allowed(allowed@, owner@),
{
    let mut i: usize = 0;
    while i < allowed.len()
        invariant
            i <= allowed@.len(),
            forall|k: int| 0 <= k < i ==> lower(clean_domain_of(#[trigger] allowed@[k]@)) != owner@,
        decreases allowed@.len() - i,
    {
        let d = to_ascii_lowercase(clean_domain(allowed[i].as_str()).as_str());
        if str_eq(d.as_str(), owner) {
            return true;
        }
        i = i + 1;
    }
    false
}

/// Checks a TXT write against the signer's configuration; when it passes,
/// the flow is marked with step 4.
pub fn validate_request_with_flow(
    config: &SignerSecretsFile,
    request: &SignerPresentRequest,
    flow: &mut FlowGuard,
) -> (r: Result<(), SignerError>)
    ensures
        match r {
            Ok(()) => request_problem(*config, *request) is None && final(flow).value == flow_mark(
                old(flow).value,
                4,
            ),
            Err(e) => request_problem(*config, *request) == Some(e@) && final(flow).value == old(
                flow,
            ).value,
        },
{
    let txt_name = to_ascii_lowercase(trim_end_matches_char(trim(request.txt_name.as_str()), '.'));
    let prefix_ok = crate::text::starts_with(txt_name.as_str(), "_acme-challenge.");
    if !prefix_ok {
        return Err(SignerError::OnlyAcmeTxt);
    }
    let owner = trim_start_matches_str(txt_name.as_str(), "_acme-challenge.");
    if !any_allowed(&config.allowed_domains, owner) {
        return Err(SignerError::NotAllowedDomain { txt_name: request.txt_name.clone() });
    }
    let expected = match expected_rr_name(config, txt_name.as_str()) {
        Ok(rr) => rr,
        Err(e) => {
            return Err(e);
        },
    };
    let rr = to_ascii_lowercase(trim(request.rr_name.as_str()));
    if !str_eq(rr.as_str(), expected.as_str()) {
        return Err(SignerError::RrMismatch { expected });
    }
    match validate_txt_value(request.txt_value.as_str()) {
        Ok(()) => {},
        Err(e) => {
            return Err(e);
        },
    }
    flow.mark(4);
    Ok(())
}

/// Checks a TXT write against the signer's configuration.
pub fn validate_request(config: &SignerSecretsFile, request: &SignerPresentRequest) -> (r: Result<
    (),
    SignerError,
>)
    ensures
        match r {
            Ok(()) => request_problem(*config, *request) is None,
            Err(e) => request_problem(*config, *request) == Some(e@),
        },
{
    let mut flow = FlowGuard::new();
    validate_request_with_flow(config, request, &mut flow)
}

/// The key of the authorization MAC: each byte of the stored mask XOR 0x39.
pub open spec fn knock_key_bytes() -> Seq<u8> {
    seq![
        0x2bu8, 0x18u8, 0x57u8, 0x7cu8, 0x01u8, 0x0cu8, 0x55u8, 0x60u8, 0x2eu8, 0x18u8, 0x45u8,
        0x68u8, 0x38u8, 0x0du8, 0x45u8, 0x68u8, 0x2bu8, 0x12u8, 0x5bu8, 0x60u8, 0x35u8, 0x18u8,
        0x58u8, 0x7cu8,
    ].map_values(|b: u8| b ^ 0x39u8)
}

pub fn knock_key() -> (r: Vec<u8>)
    ensures
        r@ == knock_key_bytes(),
{
    let masked: Vec<u8> = vec![
        0x2bu8, 0x18u8, 0x57u8, 0x7cu8, 0x01u8, 0x0cu8, 0x55u8, 0x60u8, 0x2eu8, 0x18u8, 0x45u8,
        0x68u8, 0x38u8, 0x0du8, 0x45u8, 0x68u8, 0x2bu8, 0x12u8, 0x5bu8, 0x60u8, 0x35u8, 0x18u8,
        0x58u8, 0x7cu8,
    ];
    let ghost m = seq![
        0x2bu8, 0x18u8, 0x57u8, 0x7cu8, 0x01u8, 0x0cu8, 0x55u8, 0x60u8, 0x2eu8, 0x18u8, 0x45u8,
        0x68u8, 0x38u8, 0x0du8, 0x45u8, 0x68u8, 0x2bu8, 0x12u8, 0x5bu8, 0x60u8, 0x35u8, 0x18u8,
        0x58u8, 0x7cu8,
    ];
    assert(masked@ =~= m);
    let mut out: Vec<u8> = Vec::new();
    let mut i: usize = 0;
    while i < masked.len()
        invariant
            masked@ == m,
            i <= masked@.len(),
            out@ =~= m.take(i as int).map_values(|b: u8| b ^ 0x39u8),
        decreases masked@.len() - i,
    {
        out.push(masked[i] ^ 0x39u8);
        assert(m.take(i + 1) =~= m.take(i as int).push(m[i as int]));
        i = i + 1;
    }
    assert(m.take(m.len() as int) =~= m);
    out
}

/// The bytes the authorization MAC covers: nonce, `|`, process name.
pub open spec fn knock_message(nonce: Seq<char>, process_name: Seq<char>) -> Seq<u8> {
    encode_utf8(nonce) + seq![0x7cu8] + encode_utf8(process_name)
}

/// The proof a client sends with an authorization: base64 of the MAC of
/// nonce and process name under the knock key.
pub open spec fn knock_proof(nonce: Seq<char>, process_name: Seq<char>) -> Seq<char> {
    spec_base64(spec_hmac_sha256(knock_key_bytes(), knock_message(nonce, process_name)))
}

pub fn authorization_proof(nonce: &str, process_name: &str) -> (r: String)
    ensures
        r@ == knock_proof(nonce@, process_name@),
{
    let key = knock_key();
    let mut msg: Vec<u8> = Vec::new();
    let nb = nonce.as_bytes();
    let pb = process_name.as_bytes();
    let mut i: usize = 0;
    while i < nb.len()
        invariant
            i <= nb@.len(),
            msg@ =~= nb@.take(i as int),
        decreases nb@.len() - i,
    {
        msg.push(nb[i]);
        assert(nb@.take(i + 1) =~= nb@.take(i as int).push(nb@[i as int]));
        i = i + 1;
    }
    assert(nb@.take(nb@.len() as int) =~= nb@);
    msg.push(0x7cu8);
    let ghost head = msg@;
    let mut j: usize = 0;
    while j < pb.len()
        invariant
            j <= pb@.len(),
            msg@ =~= head + pb@.take(j as int),
        decreases pb@.len() - j,
    {
        msg.push(pb[j]);
        assert(pb@.take(j + 1) =~= pb@.take(j as int).push(pb@[j as int]));
        j = j + 1;
    }
    assert(pb@.take(pb@.len() as int) =~= pb@);
    assert(nb@ == encode_utf8(nonce@));
    assert(pb@ == encode_utf8(process_name@));
    assert(msg@ =~= knock_message(nonce@, process_name@));
    let mac = hmac_sha256(key.as_slice(), msg.as_slice());
    base64_encode(mac.as_slice())
}

/// The client programs that may ask the signer for anything.
pub open spec fn allowed_client(process_name: Seq<char>) -> bool {
    let n = lower(trim_ws(process_name));
    n == "ssl证书自动续期.exe"@ || n == "ssl-renew-cli.exe"@ || n == "ssl-renew-gui.exe"@
}

pub fn is_allowed_client_process(process_name: &str) -> (r: bool)
    ensures
        r == allowed_client(process_name@),
{
    let n = to_ascii_lowercase(trim(process_name));
    str_eq(n.as_str(), "ssl证书自动续期.exe") || str_eq(n.as_str(), "ssl-renew-cli.exe") || str_eq(
        n.as_str(),
        "ssl-renew-gui.exe",
    )
}

/// Whether an authorization knock is accepted: a nonce of 16 to 128 bytes,
/// an allowed client program that is running, and the matching proof.
pub open spec fn knock_accepted(
    nonce: Seq<char>,
    process_name: Seq<char>,
    proof: Seq<char>,
    client_running: bool,
) -> bool {
    &&& 16 <= encode_utf8(nonce).len() <= 128
    &&& allowed_client(process_name)
    &&& client_running
    &&& proof == knock_proof(nonce, process_name)
}

/// Checks an authorization knock. Whether the client program is running
/// is found by the caller.
pub fn verify_authorization_knock(
    nonce: &str,
    process_name: &str,
    proof: &str,
    client_running: bool,
) -> (r: Result<(), SignerError>)
    ensures
        r is Ok <==> knock_accepted(nonce@, process_name@, proof@, client_running),
        r matches Err(e) ==> e@ == SignerReason::Security,
{
    let nb = nonce.as_bytes();
    let n = nb.len();
    assert(nb@ == encode_utf8(nonce@));
    if n < 16 || n > 128 {
        return Err(SignerError::Security);
    }
    if !is_allowed_client_process(process_name) || !client_running {
        return Err(SignerError::Security);
    }
    let expected = authorization_proof(nonce, process_name);
    if !str_eq(expected.as_str(), proof) {
        return Err(SignerError::Security);
    }
    Ok(())
}


/// Key-derivation parameters of the sealed credentials.
pub struct SecureMetadata {
    pub salt: String,
    pub memory_cost: u32,
    pub time_cost: u32,
    pub parallelism: u32,
}

pub struct PlainAliyunCredentials {
    pub access_key_id: String,
    pub access_key_secret: String,
    pub endpoint: String,
}

pub struct PlainCloudflareCredentials {
    pub token: String,
    pub endpoint: String,
}

/// The DNS credentials as they are sealed with the passphrase.
pub struct PlainCredentials {
    pub provider: String,
    pub aliyun: Option<PlainAliyunCredentials>,
    pub cloudflare: Option<PlainCloudflareCredentials>,
}

/// DNS credentials held while the signer runs.
pub enum RuntimeCredentials {
    Aliyun { access_key_id: String, access_key_secret: String, endpoint: String },
    Cloudflare { token: String, endpoint: String },
}

impl RuntimeCredentials {
    pub fn copy(&self) -> (r: Self)
        ensures
            r == *self,
    {
        match self {
            RuntimeCredentials::Aliyun { access_key_id, access_key_secret, endpoint } =>
                RuntimeCredentials::Aliyun {
                access_key_id: access_key_id.clone(),
                access_key_secret: access_key_secret.clone(),
                endpoint: endpoint.clone(),
            },
            RuntimeCredentials::Cloudflare { token, endpoint } => RuntimeCredentials::Cloudflare {
                token: token.clone(),
                endpoint: endpoint.clone(),
            },
        }
    }
}

/// The JSON text of the key-derivation parameters.
pub open spec fn metadata_json(m: SecureMetadata) -> Seq<char> {
    "{\"salt\":"@ + json_string(m.salt@) + ",\"memory_cost\":"@ + decimal(m.memory_cost as nat)
        + ",\"time_cost\":"@ + decimal(m.time_cost as nat) + ",\"parallelism\":"@ + decimal(
        m.parallelism as nat,
    ) + "}"@
}

/// The JSON text of sealed credentials (absent vendors are `null`).
pub open spec fn plain_json(p: PlainCredentials) -> Seq<char> {
    "{\"provider\":"@ + json_string(p.provider@) + ",\"aliyun\":"@ + (match p.aliyun {
        Some(a) => "{\"access_key_id\":"@ + json_string(a.access_key_id@)
            + ",\"access_key_secret\":"@ + json_string(a.access_key_secret@) + ",\"endpoint\":"@
            + json_string(a.endpoint@) + "}"@,
        None => "null"@,
    }) + ",\"cloudflare\":"@ + (match p.cloudflare {
        Some(c) => "{\"token\":"@ + json_string(c.token@) + ",\"endpoint\":"@ + json_string(
            c.endpoint@,
        ) + "}"@,
        None => "null"@,
    }) + "}"@
}

pub fn metadata_to_json(m: &SecureMetadata) -> (r: String)
    ensures
        r@ == metadata_json(*m),
{
    let mut out = String::new();
    push_str(&mut out, "{\"salt\":");
    push_json_string(&mut out, m.salt.as_str());
    push_str(&mut out, ",\"memory_cost\":");
    push_decimal(&mut out, m.memory_cost);
    push_str(&mut out, ",\"time_cost\":");
    push_decimal(&mut out, m.time_cost);
    push_str(&mut out, ",\"parallelism\":");
    push_decimal(&mut out, m.parallelism);
    push_str(&mut out, "}");
    assert(out@ =~= metadata_json(*m));
    out
}

pub fn plain_to_json(p: &PlainCredentials) -> (r: String)
    ensures
        r@ == plain_json(*p),
{
    let mut out = String::new();
    push_str(&mut out, "{\"provider\":");
    push_json_string(&mut out, p.provider.as_str());
    push_str(&mut out, ",\"aliyun\":");
    let ghost a0 = out@;
    match &p.aliyun {
        Some(a) => {
            push_str(&mut out, "{\"access_key_id\":");
            push_json_string(&mut out, a.access_key_id.as_str());
            push_str(&mut out, ",\"access_key_secret\":");
            push_json_string(&mut out, a.access_key_secret.as_str());
            push_str(&mut out, ",\"endpoint\":");
            push_json_string(&mut out, a.endpoint.as_str());
            push_str(&mut out, "}");
        },
        None => {
            push_str(&mut out, "null");
        },
    }
    let ghost a1 = out@;
    push_str(&mut out, ",\"cloudflare\":");
    let ghost c0 = out@;
    match &p.cloudflare {
        Some(c) => {
            push_str(&mut out, "{\"token\":");
            push_json_string(&mut out, c.token.as_str());
            push_str(&mut out, ",\"endpoint\":");
            push_json_string(&mut out, c.endpoint.as_str());
            push_str(&mut out, "}");
        },
        None => {
            push_str(&mut out, "null");
        },
    }
    push_str(&mut out, "}");
    proof {
        let ghost pv = *p;
        let aj = match pv.aliyun {
            Some(a) => "{\"access_key_id\":"@ + json_string(a.access_key_id@)
                + ",\"access_key_secret\":"@ + json_string(a.access_key_secret@)
                + ",\"endpoint\":"@ + json_string(a.endpoint@) + "}"@,
            None => "null"@,
        };
        assert(a1 =~= a0 + aj);
    }
    assert(out@ =~= plain_json(*p));
    out
}

/// The secrets of a new configuration, before they are protected.
pub enum CredentialsInput {
    Aliyun { access_key_id: String, access_key_secret: String, endpoint: String },
    Cloudflare { token: String, endpoint: String },
}

/// How the secrets of a new configuration are stored once protected.
pub enum SealedForm {
    /// `dpapi_v1`: each secret protected on its own.
    Aliyun { endpoint: String },
    Cloudflare { endpoint: String },
    /// `passphrase_dpapi_v1`: credentials encrypted with a key derived from
    /// the passphrase; only the key-derivation metadata is protected.
    Secure { nonce: String, ciphertext: String },
}

/// A configuration whose secrets still have to be protected by the
/// platform's data protection: `to_protect` are the bytes to protect, in
/// order; `finish_init_config` puts the protected texts in place.
pub struct InitPlan {
    pub config: SignerSecretsFile,
    pub to_protect: Vec<Vec<u8>>,
    pub form: SealedForm,
}

/// The UTF-8 bytes of a text.
pub fn utf8_bytes(s: &str) -> (r: Vec<u8>)
    ensures
        r@ == encode_utf8(s@),
{
    let b = s.as_bytes();
    let mut out: Vec<u8> = Vec::new();
    let mut i: usize = 0;
    while i < b.len()
        invariant
            i <= b@.len(),
            out@ =~= b@.take(i as int),
        decreases b@.len() - i,
    {
        out.push(b[i]);
        assert(b@.take(i + 1) =~= b@.take(i as int).push(b@[i as int]));
        i = i + 1;
    }
    assert(b@.take(b@.len() as int) =~= b@);
    out
}

/// `zeroize::Zeroize::zeroize` on a string: its bytes are overwritten with
/// zeros and it is left empty.
#[verifier::external_body]
fn zeroize_string(s: &mut String)
    ensures
        final(s)@.len() == 0,
{
    zeroize::Zeroize::zeroize(s);
}

/// `zeroize::Zeroize::zeroize` on a byte vector: the bytes are overwritten
/// with zeros and it is left empty.
#[verifier::external_body]
fn zeroize_bytes(v: &mut Vec<u8>)
    ensures
        final(v)@.len() == 0,
{
    zeroize::Zeroize::zeroize(v);
}

/// The key derived from a passphrase and the metadata's base64 salt.
/// A lane count above 2^24 - 1 is refused like any other parameter argon2
/// does not accept.
pub open spec fn derived_key(passphrase: Seq<char>, m: SecureMetadata) -> Option<Seq<u8>> {
    match spec_base64_decode(m.salt@) {
        Some(salt) => if m.parallelism > 0xFF_FFFF {
            None
        } else {
            spec_argon2id(
            encode_utf8(passphrase),
            salt,
            m.memory_cost,
            m.time_cost,
            m.parallelism,
        )
        },
        None => None,
    }
}

/// The passphrase and metadata argon2 accepts: a base64 salt and
/// parameters within the crate's limits.
pub open spec fn derivable(passphrase: Seq<char>, m: SecureMetadata) -> bool {
    match spec_base64_decode(m.salt@) {
        Some(salt) => argon2_accepts(
            encode_utf8(passphrase).len() as int,
            salt.len() as int,
            m.memory_cost,
            m.time_cost,
            m.parallelism,
        ),
        None => false,
    }
}

/// Derives the credentials key from a passphrase and the metadata.
pub fn derive_passphrase_key(passphrase: &str, m: &SecureMetadata) -> (r: Result<
    Vec<u8>,
    SignerError,
>)
    ensures
        match r {
            Ok(k) => derived_key(passphrase@, *m) == Some(k@) && k@.len() == 32,
            Err(e) => derived_key(passphrase@, *m) is None && e@ == (if spec_base64_decode(
                m.salt@,
            ) is None {
                SignerReason::Invalid { detail: "signer salt 不是合法 base64"@ }
            } else {
                SignerReason::Invalid { detail: "signer 口令派生失败"@ }
            }),
        },
        derivable(passphrase@, *m) ==> r is Ok,
{
    let salt = match base64_decode(m.salt.as_str()) {
        Some(s) => s,
        None => {
            return Err(SignerError::Invalid { detail: String::from_str("signer salt 不是合法 base64") });
        },
    };
    if m.parallelism > 0xFF_FFFF {
        return Err(SignerError::Invalid { detail: String::from_str("signer 口令派生失败") });
    }
    let pass = utf8_bytes(passphrase);
    match argon2id_key(pass.as_slice(), salt.as_slice(), m.memory_cost, m.time_cost, m.parallelism) {
        Some(k) => Ok(k),
        None => Err(SignerError::Invalid { detail: String::from_str("signer 口令派生失败") }),
    }
}

/// What sealing with a passphrase produced: the metadata with the base64
/// of a 16-byte salt, the base64 of a 12-byte nonce, and the base64 of the
/// credentials' JSON encrypted under the derived key.
pub open spec fn sealed_with(
    plain: PlainCredentials,
    passphrase: Seq<char>,
    m: SecureMetadata,
    nonce: Seq<char>,
    ciphertext: Seq<char>,
) -> bool {
    exists|salt: Seq<u8>, n: Seq<u8>, key: Seq<u8>, ct: Seq<u8>|
        {
            &&& salt.len() == 16
            &&& n.len() == 12
            &&& m.salt@ == spec_base64(salt)
            &&& m.memory_cost == ARGON2_M_COST
            &&& m.time_cost == ARGON2_T_COST
            &&& m.parallelism == ARGON2_P_COST
            &&& derived_key(passphrase, m) == Some(key)
            &&& spec_aes_gcm_seal(key, n, encode_utf8(plain_json(plain))) == Some(ct)
            &&& spec_aes_gcm_open(key, n, ct) == Some(encode_utf8(plain_json(plain)))
            &&& nonce == spec_base64(n)
            &&& ciphertext == spec_base64(ct)
            &&& spec_base64_decode(nonce) == Some(n)
            &&& spec_base64_decode(ciphertext) == Some(ct)
        }
}

/// Sealing works when the passphrase is at most 2^32 - 1 bytes (argon2's
/// limit; the salt and costs are fixed and within its limits) and the
/// credentials' JSON at most 2^36 bytes (AES-GCM's limit).
pub open spec fn seal_limits_hold(passphrase: Seq<char>, json: Seq<char>) -> bool {
    &&& encode_utf8(passphrase).len() <= 0xFFFF_FFFF
    &&& encode_utf8(json).len() <= aes_gcm_max_plaintext()
}

/// Why sealing failed: the key derivation refused a passphrase over
/// argon2's limit, or the encryption a plaintext over AES-GCM's.
pub open spec fn seal_refusal(passphrase: Seq<char>, json: Seq<char>, e: SignerReason) -> bool {
    ||| (e == (SignerReason::Invalid { detail: "signer 口令派生失败"@ })
        && encode_utf8(passphrase).len() > 0xFFFF_FFFF)
    ||| (e == SignerReason::Encrypt && encode_utf8(json).len() > aes_gcm_max_plaintext())
}

/// Encrypts the credentials under a key derived from the passphrase with a
/// fresh salt and nonce. Returns the metadata, the nonce and the ciphertext.
pub fn encrypt_secure_credentials(plain: &PlainCredentials, passphrase: &str) -> (r: Result<
    (SecureMetadata, String, String),
    SignerError,
>)
    ensures
        match r {
            Ok((m, nonce, ct)) => sealed_with(*plain, passphrase@, m, nonce@, ct@),
            Err(e) => seal_refusal(passphrase@, plain_json(*plain), e@),
        },
        seal_limits_hold(passphrase@, plain_json(*plain)) ==> r is Ok,
{
    let salt = random_bytes(16);
    let nonce_bytes = random_bytes(12);
    let m = SecureMetadata {
        salt: base64_encode(salt.as_slice()),
        memory_cost: ARGON2_M_COST,
        time_cost: ARGON2_T_COST,
        parallelism: ARGON2_P_COST,
    };
    proof {
        assert(spec_base64_decode(m.salt@) == Some(salt@));
        assert(derivable(passphrase@, m) <==> encode_utf8(passphrase@).len() <= 0xFFFF_FFFF);
    }
    let mut key = match derive_passphrase_key(passphrase, &m) {
        Ok(k) => k,
        Err(e) => {
            return Err(e);
        },
    };
    let text = plain_to_json(plain);
    let plaintext = utf8_bytes(text.as_str());
    let sealed = aes_gcm_seal(key.as_slice(), nonce_bytes.as_slice(), plaintext.as_slice());
    let ghost key_view = key@;
    zeroize_bytes(&mut key);
    let ct = match sealed {
        Some(c) => c,
        None => {
            return Err(SignerError::Encrypt);
        },
    };
    let nonce = base64_encode(nonce_bytes.as_slice());
    let ciphertext = base64_encode(ct.as_slice());
    assert(sealed_with(*plain, passphrase@, m, nonce@, ciphertext@)) by {
        assert(salt@.len() == 16);
    }
    Ok((m, nonce, ciphertext))
}

/// The provider name a request stands for, if the signer supports it.
pub open spec fn supported_provider(p: Seq<char>) -> bool {
    p == "aliyun"@ || p == "cloudflare"@
}

/// The allowed domains a new configuration gets: the root domain when none
/// is given, else the given ones cleaned, empty ones dropped.
pub open spec fn allowed_domains_of(given: Seq<String>, root: Seq<char>) -> Seq<Seq<char>> {
    if given.len() == 0 {
        seq![root]
    } else {
        given.map_values(|d: String| clean_domain_of(d@)).filter(|d: Seq<char>| d.len() > 0)
    }
}

/// An optional text when it is not blank.
pub open spec fn non_blank(v: Option<String>) -> Option<Seq<char>> {
    match v {
        Some(s) => if blank(s@) {
            None
        } else {
            Some(s@)
        },
        None => None,
    }
}

/// Why a request to initialize the signer is refused, checked in order:
/// the root domain, the provider, its credentials, then the protection
/// mode and, with a passphrase, the passphrase.
pub open spec fn init_problem(req: SignerInitRequest) -> Option<SignerReason> {
    let provider = normalized_provider(req.provider@);
    let mode = match req.protection_mode {
        Some(m) => m@,
        None => "passphrase_dpapi_v1"@,
    };
    if clean_domain_of(req.root_domain@).len() == 0 {
        Some(SignerReason::EmptyRootDomain)
    } else if provider == "aliyun"@ && non_blank(req.aliyun_access_key_id) is None {
        Some(SignerReason::Required { label: "阿里云 AccessKeyId"@ })
    } else if provider == "aliyun"@ && non_blank(req.aliyun_access_key_secret) is None {
        Some(SignerReason::Required { label: "阿里云 AccessKeySecret"@ })
    } else if provider == "cloudflare"@ && non_blank(req.cloudflare_token) is None {
        Some(SignerReason::Required { label: "Cloudflare API Token"@ })
    } else if !supported_provider(provider) {
        Some(SignerReason::UnsupportedProvider { provider: req.provider@ })
    } else if mode == "dpapi_v1"@ {
        None
    } else if mode == "passphrase_dpapi_v1"@ {
        if non_blank(req.unlock_passphrase) is None {
            Some(SignerReason::Required { label: "signer 解锁口令"@ })
        } else {
            None
        }
    } else {
        Some(SignerReason::UnknownProtection { mode })
    }
}

/// The settings of a new configuration that do not depend on its secrets.
pub open spec fn init_settings(req: SignerInitRequest, c: SignerSecretsFile) -> bool {
    let provider = normalized_provider(req.provider@);
    let root = clean_domain_of(req.root_domain@);
    &&& c.version == 1
    &&& c.provider@ == provider
    &&& c.root_domain@ == root
    &&& c.allowed_domains@.map_values(|d: String| d@) == allowed_domains_of(
        req.allowed_domains@,
        root,
    )
    &&& c.ttl == (match req.ttl {
        Some(t) => t,
        None => if provider == "cloudflare"@ {
            120u32
        } else {
            600u32
        },
    })
    &&& c.pipe_name@ == (match req.pipe_name {
        Some(p) => p@,
        None => "\\\\.\\pipe\\ssl-renew-signer"@,
    })
    &&& c.protection_mode@ == (match req.protection_mode {
        Some(m) => m@,
        None => "passphrase_dpapi_v1"@,
    })
    &&& (match c.pipe_sddl {
        Some(sd) => Some(sd@),
        None => None,
    }) == non_blank(req.pipe_sddl)
    &&& c.aliyun is None
    &&& c.cloudflare is None
    &&& c.secure is None
}

fn non_blank_string(v: Option<String>) -> (r: Option<String>)
    ensures
        match r {
            Some(s) => non_blank(v) == Some(s@),
            None => non_blank(v) is None,
        },
{
    match v {
        Some(s) => if is_blank(s.as_str()) {
            None
        } else {
            Some(s)
        },
        None => None,
    }
}

fn clean_allowed(given: &Vec<String>) -> (r: Vec<String>)
    ensures
        r@.map_values(|d: String| d@) == given@.map_values(|d: String| clean_domain_of(d@)).filter(
            |d: Seq<char>| d.len() > 0,
        ),
{
    let ghost f = |d: Seq<char>| d.len() > 0;
    let ghost cleaned = given@.map_values(|d: String| clean_domain_of(d@));
    let mut out: Vec<String> = Vec::new();
    let mut i: usize = 0;
    while i < given.len()
        invariant
            i <= given@.len(),
            cleaned == given@.map_values(|d: String| clean_domain_of(d@)),
            f == (|d: Seq<char>| d.len() > 0),
            out@.map_values(|d: String| d@) == cleaned.take(i as int).filter(f),
        decreases given@.len() - i,
    {
        let c = clean_domain(given[i].as_str());
        proof {
            assert(cleaned.take(i + 1) =~= cleaned.take(i as int).push(cleaned[i as int]));
            cleaned.take(i as int).lemma_filter_push(cleaned[i as int], f);
        }
        assert(c@ == cleaned[i as int]);
        if c.as_str().unicode_len() > 0 {
            assert(f(cleaned[i as int]));
            out.push(c);
            assert(out@.map_values(|d: String| d@) =~= cleaned.take(i as int).filter(f).push(
                cleaned[i as int],
            ));
        } else {
            assert(out@.map_values(|d: String| d@) =~= cleaned.take(i as int).filter(f));
        }
        i = i + 1;
    }
    assert(cleaned.take(given@.len() as int) =~= cleaned);
    out
}

/// The secrets a configuration protects, and how: without a passphrase
/// each secret on its own (the Alibaba Cloud key id, then its secret, or
/// the Cloudflare token), with one the credentials sealed under it and
/// only the key-derivation metadata protected.
pub open spec fn secrets_for(
    aliyun: bool,
    id: Seq<char>,
    secret: Seq<char>,
    token: Seq<char>,
    endpoint: Seq<char>,
    mode: Seq<char>,
    passphrase: Seq<char>,
    plan: InitPlan,
) -> bool {
    if mode == "dpapi_v1"@ {
        if aliyun {
            &&& plan.form == (SealedForm::Aliyun { endpoint: plan.form->Aliyun_endpoint })
            &&& plan.form->Aliyun_endpoint@ == endpoint
            &&& plan.to_protect@.len() == 2
            &&& plan.to_protect@[0]@ == encode_utf8(id)
            &&& plan.to_protect@[1]@ == encode_utf8(secret)
        } else {
            &&& plan.form == (SealedForm::Cloudflare { endpoint: plan.form->Cloudflare_endpoint })
            &&& plan.form->Cloudflare_endpoint@ == endpoint
            &&& plan.to_protect@.len() == 1
            &&& plan.to_protect@[0]@ == encode_utf8(token)
        }
    } else {
        exists|m: SecureMetadata, plain: PlainCredentials|
            {
                &&& plan.form is Secure
                &&& plan.to_protect@.len() == 1
                &&& plan.to_protect@[0]@ == encode_utf8(metadata_json(m))
                &&& sealed_with(
                    plain,
                    passphrase,
                    m,
                    plan.form->Secure_nonce@,
                    plan.form->Secure_ciphertext@,
                )
                &&& if aliyun {
                    &&& plain.provider@ == "aliyun"@
                    &&& plain.cloudflare is None
                    &&& plain.aliyun matches Some(a) && a.access_key_id@ == id
                        && a.access_key_secret@ == secret && a.endpoint@ == endpoint
                } else {
                    &&& plain.provider@ == "cloudflare"@
                    &&& plain.aliyun is None
                    &&& plain.cloudflare matches Some(c) && c.token@ == token && c.endpoint@
                        == endpoint
                }
            }
    }
}

proof fn lemma_filter_all<A>(s: Seq<A>, pred: spec_fn(A) -> bool)
    requires
        forall|i: int| 0 <= i < s.len() ==> pred(#[trigger] s[i]),
    ensures
        s.filter(pred) == s,
    decreases s.len(),
{
    reveal(Seq::filter);
    if s.len() > 0 {
        lemma_filter_all(s.drop_last(), pred);
        assert(s.drop_last().push(s.last()) =~= s);
    }
}

/// A new configuration allows the domains the request lists, cleaned, in
/// order and none other; only when none is listed does it allow the root
/// domain.
pub proof fn lemma_init_keeps_allowed_domains(req: SignerInitRequest, c: SignerSecretsFile)
    requires
        init_settings(req, c),
    ensures
        req.allowed_domains@.len() == 0 ==> c.allowed_domains@.len() == 1
            && c.allowed_domains@[0]@ == clean_domain_of(req.root_domain@),
        forall|i: int|
            0 <= i < req.allowed_domains@.len() && clean_domain_of(
                (#[trigger] req.allowed_domains@[i])@,
            ).len() > 0 ==> exists|k: int|
                0 <= k < c.allowed_domains@.len() && (#[trigger] c.allowed_domains@[k])@
                    == clean_domain_of(req.allowed_domains@[i]@),
        req.allowed_domains@.len() > 0 ==> forall|k: int|
            0 <= k < c.allowed_domains@.len() ==> (#[trigger] c.allowed_domains@[k])@.len() > 0
                && exists|i: int|
                0 <= i < req.allowed_domains@.len() && c.allowed_domains@[k]@ == clean_domain_of(
                    (#[trigger] req.allowed_domains@[i])@,
                ),
        (req.allowed_domains@.len() > 0 && forall|i: int|
            0 <= i < req.allowed_domains@.len() ==> clean_domain_of(
                (#[trigger] req.allowed_domains@[i])@,
            ).len() > 0) ==> c.allowed_domains@.len() == req.allowed_domains@.len() && forall|i: int|
            0 <= i < req.allowed_domains@.len() ==> (#[trigger] c.allowed_domains@[i])@
                == clean_domain_of(req.allowed_domains@[i]@),
{
    let given = req.allowed_domains@;
    let root = clean_domain_of(req.root_domain@);
    let cv = c.allowed_domains@.map_values(|d: String| d@);
    assert(cv == allowed_domains_of(given, root));
    assert forall|k: int| 0 <= k < cv.len() implies cv[k] == (#[trigger] c.allowed_domains@[k])@ by {}
    if given.len() > 0 {
        let m = given.map_values(|d: String| clean_domain_of(d@));
        let f = |d: Seq<char>| d.len() > 0;
        assert(cv == m.filter(f));
        assert forall|i: int|
            0 <= i < given.len() && clean_domain_of((#[trigger] given[i])@).len() > 0 implies exists|
                k: int,
            | 0 <= k < c.allowed_domains@.len() && (#[trigger] c.allowed_domains@[k])@
                == clean_domain_of(given[i]@) by {
            assert(m[i] == clean_domain_of(given[i]@));
            m.lemma_filter_contains(f, i);
            let k = choose|k: int| 0 <= k < cv.len() && cv[k] == m[i];
            assert(c.allowed_domains@[k]@ == cv[k]);
        }
        assert forall|k: int| 0 <= k < c.allowed_domains@.len() implies (#[trigger] c.allowed_domains@[k])@.len() > 0
            && exists|i: int|
            0 <= i < given.len() && c.allowed_domains@[k]@ == clean_domain_of(
                (#[trigger] given[i])@,
            ) by {
            assert(cv[k] == c.allowed_domains@[k]@);
            m.lemma_filter_pred(f, k);
            assert(m.filter(f).contains(cv[k]));
            m.lemma_filter_contains_rev(f, cv[k]);
            let i = choose|i: int| 0 <= i < m.len() && m[i] == cv[k];
            assert(m[i] == clean_domain_of(given[i]@));
        }
        if forall|i: int| 0 <= i < given.len() ==> clean_domain_of((#[trigger] given[i])@).len() > 0 {
            assert forall|i: int| 0 <= i < m.len() implies f(#[trigger] m[i]) by {
                assert(m[i] == clean_domain_of(given[i]@));
            }
            lemma_filter_all(m, f);
            assert(cv == m);
            assert forall|i: int| 0 <= i < given.len() implies (#[trigger] c.allowed_domains@[i])@
                == clean_domain_of(given[i]@) by {
                assert(cv[i] == m[i]);
            }
        }
    } else {
        assert(cv == seq![root]);
        assert(cv[0] == c.allowed_domains@[0]@);
    }
}

/// The JSON text sealing encrypts for these credentials (the form
/// `plain_json` gives).
pub open spec fn credentials_json(
    aliyun: bool,
    id: Seq<char>,
    secret: Seq<char>,
    token: Seq<char>,
    endpoint: Seq<char>,
) -> Seq<char> {
    if aliyun {
        "{\"provider\":"@ + json_string("aliyun"@) + ",\"aliyun\":"@ + ("{\"access_key_id\":"@
            + json_string(id) + ",\"access_key_secret\":"@ + json_string(secret) + ",\"endpoint\":"@
            + json_string(endpoint) + "}"@) + ",\"cloudflare\":"@ + "null"@ + "}"@
    } else {
        "{\"provider\":"@ + json_string("cloudflare"@) + ",\"aliyun\":"@ + "null"@
            + ",\"cloudflare\":"@ + ("{\"token\":"@ + json_string(token) + ",\"endpoint\":"@
            + json_string(endpoint) + "}"@) + "}"@
    }
}

/// The JSON text sealing encrypts for credentials given to `build_config`.
pub open spec fn input_json(cred: CredentialsInput) -> Seq<char> {
    match cred {
        CredentialsInput::Aliyun { access_key_id, access_key_secret, endpoint } => credentials_json(
            true,
            access_key_id@,
            access_key_secret@,
            Seq::empty(),
            endpoint@,
        ),
        CredentialsInput::Cloudflare { token, endpoint } => credentials_json(
            false,
            Seq::empty(),
            Seq::empty(),
            token@,
            endpoint@,
        ),
    }
}

/// The protection mode an initialization request asks for.
pub open spec fn init_mode(req: SignerInitRequest) -> Seq<char> {
    match req.protection_mode {
        Some(m) => m@,
        None => "passphrase_dpapi_v1"@,
    }
}

/// The API endpoint a new configuration gets.
pub open spec fn init_endpoint(req: SignerInitRequest) -> Seq<char> {
    if normalized_provider(req.provider@) == "aliyun"@ {
        match non_blank(req.aliyun_endpoint) {
            Some(e) => e,
            None => "https://alidns.aliyuncs.com/"@,
        }
    } else {
        match non_blank(req.cloudflare_endpoint) {
            Some(e) => e,
            None => "https://api.cloudflare.com/client/v4"@,
        }
    }
}

/// The JSON text a passphrase-protected initialization seals.
pub open spec fn init_json(req: SignerInitRequest) -> Seq<char> {
    credentials_json(
        normalized_provider(req.provider@) == "aliyun"@,
        trim_ws(req.aliyun_access_key_id->0@),
        trim_ws(req.aliyun_access_key_secret->0@),
        trim_ws(req.cloudflare_token->0@),
        init_endpoint(req),
    )
}

/// The secrets a new configuration has to protect, and how.
pub open spec fn init_secrets(req: SignerInitRequest, plan: InitPlan) -> bool {
    let aliyun = normalized_provider(req.provider@) == "aliyun"@;
    let endpoint = init_endpoint(req);
    secrets_for(
        aliyun,
        trim_ws(req.aliyun_access_key_id->0@),
        trim_ws(req.aliyun_access_key_secret->0@),
        trim_ws(req.cloudflare_token->0@),
        endpoint,
        plan.config.protection_mode@,
        trim_ws(req.unlock_passphrase->0@),
        plan,
    )
}

/// The secrets a configuration built from `cred` protects.
pub open spec fn built_secrets(cred: CredentialsInput, mode: Seq<char>, passphrase: Seq<char>, plan: InitPlan) -> bool {
    match cred {
        CredentialsInput::Aliyun { access_key_id, access_key_secret, endpoint } => secrets_for(
            true,
            access_key_id@,
            access_key_secret@,
            Seq::empty(),
            endpoint@,
            mode,
            passphrase,
            plan,
        ),
        CredentialsInput::Cloudflare { token, endpoint } => secrets_for(
            false,
            Seq::empty(),
            Seq::empty(),
            token@,
            endpoint@,
            mode,
            passphrase,
            plan,
        ),
    }
}

/// The settings of a configuration built from these values.
pub open spec fn built_settings(
    provider: Seq<char>,
    root_domain: String,
    allowed_domains: Seq<String>,
    ttl: u32,
    pipe_name: String,
    pipe_sddl: Option<String>,
    mode: Seq<char>,
    c: SignerSecretsFile,
) -> bool {
    &&& c.version == 1
    &&& c.protection_mode@ == mode
    &&& c.provider@ == provider
    &&& c.root_domain == root_domain
    &&& c.allowed_domains@ == allowed_domains
    &&& c.ttl == ttl
    &&& c.pipe_name == pipe_name
    &&& (match c.pipe_sddl {
        Some(sd) => Some(sd@),
        None => None,
    }) == non_blank(pipe_sddl)
    &&& c.aliyun is None
    &&& c.cloudflare is None
    &&& c.secure is None
}

/// Builds a configuration with the given settings and protects its secrets
/// as the protection mode says: `dpapi_v1` protects each secret on its own,
/// `passphrase_dpapi_v1` seals them under the (required) passphrase. Any
/// other mode is refused.
pub fn build_config(
    provider: &str,
    root_domain: String,
    allowed_domains: Vec<String>,
    ttl: u32,
    pipe_name: String,
    pipe_sddl: Option<String>,
    credentials: CredentialsInput,
    protection_mode: &str,
    unlock_passphrase: Option<String>,
) -> (r: Result<InitPlan, SignerError>)
    ensures
        match r {
            Ok(plan) => {
                &&& built_settings(
                    provider@,
                    root_domain,
                    allowed_domains@,
                    ttl,
                    pipe_name,
                    pipe_sddl,
                    protection_mode@,
                    plan.config,
                )
                &&& (protection_mode@ == "dpapi_v1"@ || (protection_mode@ == "passphrase_dpapi_v1"@
                    && non_blank(unlock_passphrase) is Some))
                &&& built_secrets(
                    credentials,
                    protection_mode@,
                    trim_ws(unlock_passphrase->0@),
                    plan,
                )
            },
            Err(e) => if protection_mode@ == "dpapi_v1"@ {
                false
            } else if protection_mode@ == "passphrase_dpapi_v1"@ {
                if non_blank(unlock_passphrase) is None {
                    e@ == (SignerReason::Required { label: "signer 解锁口令"@ })
                } else {
                    seal_refusal(trim_ws(unlock_passphrase->0@), input_json(credentials), e@)
                }
            } else {
                e@ == (SignerReason::UnknownProtection { mode: protection_mode@ })
            },
        },
        protection_mode@ == "dpapi_v1"@ ==> r is Ok,
        protection_mode@ == "passphrase_dpapi_v1"@ && non_blank(unlock_passphrase) is Some
            && seal_limits_hold(trim_ws(unlock_passphrase->0@), input_json(credentials)) ==> r is Ok,
{
    proof {
        reveal_strlit("aliyun");
        reveal_strlit("cloudflare");
        reveal_strlit("dpapi_v1");
        reveal_strlit("passphrase_dpapi_v1");
    }
    let ghost cred0 = credentials;
    let config = SignerSecretsFile {
        version: 1,
        protection_mode: owned(protection_mode),
        provider: owned(provider),
        root_domain,
        allowed_domains,
        ttl,
        pipe_name,
        pipe_sddl: non_blank_string(pipe_sddl),
        aliyun: None,
        cloudflare: None,
        secure: None,
    };
    if str_eq(protection_mode, PROTECTION_DPAPI_V1) {
        match credentials {
            CredentialsInput::Aliyun { access_key_id, access_key_secret, endpoint } => {
                let to_protect = vec![
                    utf8_bytes(access_key_id.as_str()),
                    utf8_bytes(access_key_secret.as_str()),
                ];
                Ok(InitPlan { config, to_protect, form: SealedForm::Aliyun { endpoint } })
            },
            CredentialsInput::Cloudflare { token, endpoint } => {
                let to_protect = vec![utf8_bytes(token.as_str())];
                Ok(InitPlan { config, to_protect, form: SealedForm::Cloudflare { endpoint } })
            },
        }
    } else if str_eq(protection_mode, PROTECTION_PASSPHRASE_DPAPI_V1) {
        let mut passphrase = match required(unlock_passphrase, "signer 解锁口令") {
            Ok(v) => v,
            Err(e) => {
                return Err(e);
            },
        };
        let plain = match credentials {
            CredentialsInput::Aliyun { access_key_id, access_key_secret, endpoint } =>
                PlainCredentials {
                provider: String::from_str("aliyun"),
                aliyun: Some(PlainAliyunCredentials { access_key_id, access_key_secret, endpoint }),
                cloudflare: None,
            },
            CredentialsInput::Cloudflare { token, endpoint } => PlainCredentials {
                provider: String::from_str("cloudflare"),
                aliyun: None,
                cloudflare: Some(PlainCloudflareCredentials { token, endpoint }),
            },
        };
        let ghost pw = passphrase@;
        assert(plain_json(plain) =~= input_json(cred0));
        let sealed = encrypt_secure_credentials(&plain, passphrase.as_str());
        zeroize_string(&mut passphrase);
        let (m, nonce, ciphertext) = match sealed {
            Ok(v) => v,
            Err(e) => {
                return Err(e);
            },
        };
        let metadata = metadata_to_json(&m);
        let to_protect = vec![utf8_bytes(metadata.as_str())];
        let plan = InitPlan { config, to_protect, form: SealedForm::Secure { nonce, ciphertext } };
        proof {
            let pv = plain;
            assert(plan.to_protect@[0]@ == encode_utf8(metadata_json(m)));
            assert(pw == trim_ws(unlock_passphrase->0@));
            assert(sealed_with(pv, pw, m, plan.form->Secure_nonce@, plan.form->Secure_ciphertext@));
            match cred0 {
                CredentialsInput::Aliyun { access_key_id, access_key_secret, endpoint } => {
                    assert(pv.aliyun->0.access_key_id@ == access_key_id@);
                    assert(secrets_for(true, access_key_id@, access_key_secret@, Seq::empty(), endpoint@, protection_mode@, pw, plan));
                },
                CredentialsInput::Cloudflare { token, endpoint } => {
                    assert(pv.cloudflare->0.token@ == token@);
                    assert(secrets_for(false, Seq::empty(), Seq::empty(), token@, endpoint@, protection_mode@, pw, plan));
                },
            }
        }
        Ok(plan)
    } else {
        Err(SignerError::UnknownProtection { mode: owned(protection_mode) })
    }
}

/// Prepares a new signer configuration from an initialization request.
/// The secrets are encrypted here when a passphrase protects them; the
/// bytes in `to_protect` still have to go through the platform's data
/// protection, and `finish_init_config` stores what comes back.
pub fn init_config(request: SignerInitRequest) -> (r: Result<InitPlan, SignerError>)
    ensures
        match r {
            Ok(plan) => init_problem(request) is None && init_settings(request, plan.config)
                && init_secrets(request, plan),
            Err(e) => init_problem(request) == Some(e@) || (init_problem(request) is None
                && init_mode(request) == "passphrase_dpapi_v1"@ && seal_refusal(
                trim_ws(request.unlock_passphrase->0@),
                init_json(request),
                e@,
            )),
        },
        init_problem(request) is None && init_mode(request) == "dpapi_v1"@ ==> r is Ok,
        init_problem(request) is None && seal_limits_hold(
            trim_ws(request.unlock_passphrase->0@),
            init_json(request),
        ) ==> r is Ok,
{
    let mut request = request;
    let ghost req0 = request;
    proof {
        reveal_strlit("aliyun");
        reveal_strlit("cloudflare");
        reveal_strlit("dpapi_v1");
        reveal_strlit("passphrase_dpapi_v1");
        assert("aliyun"@.len() == 6);
        assert("cloudflare"@.len() == 10);
        assert("aliyun"@ != "cloudflare"@);
    }
    let provider = normalize_provider(request.provider.as_str());
    let root_domain = clean_domain(request.root_domain.as_str());
    if root_domain.as_str().unicode_len() == 0 {
        return Err(SignerError::EmptyRootDomain);
    }
    let allowed_domains = if request.allowed_domains.len() == 0 {
        let v = vec![root_domain.clone()];
        assert(v@.map_values(|d: String| d@) =~= seq![root_domain@]);
        v
    } else {
        clean_allowed(&request.allowed_domains)
    };
    let is_cloudflare = str_eq(provider.as_str(), "cloudflare");
    let is_aliyun = str_eq(provider.as_str(), "aliyun");
    let ttl = match request.ttl {
        Some(t) => t,
        None => if is_cloudflare {
            120
        } else {
            600
        },
    };
    let pipe_name = match request.pipe_name.take() {
        Some(p) => p,
        None => default_signer_pipe(),
    };
    let protection_mode = match &request.protection_mode {
        Some(m) => m.clone(),
        None => String::from_str(PROTECTION_PASSPHRASE_DPAPI_V1),
    };
    let credentials = if is_aliyun {
        let access_key_id = match required(request.aliyun_access_key_id.take(), "阿里云 AccessKeyId") {
            Ok(v) => v,
            Err(e) => {
                return Err(e);
            },
        };
        let access_key_secret = match required(
            request.aliyun_access_key_secret.take(),
            "阿里云 AccessKeySecret",
        ) {
            Ok(v) => v,
            Err(e) => {
                return Err(e);
            },
        };
        let endpoint = match non_blank_string(request.aliyun_endpoint.take()) {
            Some(e) => e,
            None => default_aliyun_endpoint(),
        };
        CredentialsInput::Aliyun { access_key_id, access_key_secret, endpoint }
    } else if is_cloudflare {
        let token = match required(request.cloudflare_token.take(), "Cloudflare API Token") {
            Ok(v) => v,
            Err(e) => {
                return Err(e);
            },
        };
        let endpoint = match non_blank_string(request.cloudflare_endpoint.take()) {
            Some(e) => e,
            None => default_cf_endpoint(),
        };
        CredentialsInput::Cloudflare { token, endpoint }
    } else {
        return Err(SignerError::UnsupportedProvider { provider: request.provider.clone() });
    };
    let ghost cred = credentials;
    let ghost sddl = request.pipe_sddl;
    let ghost pass = request.unlock_passphrase;
    let r = build_config(
        provider.as_str(),
        root_domain,
        allowed_domains,
        ttl,
        pipe_name,
        request.pipe_sddl.take(),
        credentials,
        protection_mode.as_str(),
        request.unlock_passphrase.take(),
    );
    proof {
        assert(input_json(cred) == init_json(req0));
        if r is Ok {
            assert(built_secrets(cred, protection_mode@, trim_ws(pass->0@), r->Ok_0));
        }
    }
    r
}

/// The configuration once the protected texts are in place.
pub open spec fn finished_config(plan: InitPlan, protected: Seq<String>, c: SignerSecretsFile) -> bool {
    &&& c.version == plan.config.version
    &&& c.protection_mode == plan.config.protection_mode
    &&& c.provider == plan.config.provider
    &&& c.root_domain == plan.config.root_domain
    &&& c.allowed_domains@ == plan.config.allowed_domains@
    &&& c.ttl == plan.config.ttl
    &&& c.pipe_name == plan.config.pipe_name
    &&& c.pipe_sddl == plan.config.pipe_sddl
    &&& match plan.form {
        SealedForm::Aliyun { endpoint } => c.aliyun == Some(
            AliyunSignerSecrets {
                access_key_id_dpapi: protected[0],
                access_key_secret_dpapi: protected[1],
                endpoint,
            },
        ) && c.cloudflare is None && c.secure is None,
        SealedForm::Cloudflare { endpoint } => c.cloudflare == Some(
            CloudflareSignerSecrets { token_dpapi: protected[0], endpoint },
        ) && c.aliyun is None && c.secure is None,
        SealedForm::Secure { nonce, ciphertext } => c.secure == Some(
            SecureSignerSecrets { metadata_dpapi: protected[0], nonce, ciphertext },
        ) && c.aliyun is None && c.cloudflare is None,
    }
}

/// Puts the protected texts (one per entry of `to_protect`, in order) into
/// the configuration.
pub fn finish_init_config(plan: InitPlan, protected: Vec<String>) -> (r: SignerSecretsFile)
    requires
        protected@.len() == plan.to_protect@.len(),
        plan.form is Aliyun ==> plan.to_protect@.len() == 2,
        !(plan.form is Aliyun) ==> plan.to_protect@.len() == 1,
    ensures
        finished_config(plan, protected@, r),
{
    let ghost p0 = plan;
    let ghost pr = protected@;
    let mut config = plan.config;
    let mut protected = protected;
    match plan.form {
        SealedForm::Aliyun { endpoint } => {
            let secret = protected.remove(1);
            let id = protected.remove(0);
            config.aliyun = Some(
                AliyunSignerSecrets { access_key_id_dpapi: id, access_key_secret_dpapi: secret, endpoint },
            );
            config.cloudflare = None;
            config.secure = None;
        },
        SealedForm::Cloudflare { endpoint } => {
            let token = protected.remove(0);
            config.aliyun = None;
            config.cloudflare = Some(CloudflareSignerSecrets { token_dpapi: token, endpoint });
            config.secure = None;
        },
        SealedForm::Secure { nonce, ciphertext } => {
            let metadata = protected.remove(0);
            config.aliyun = None;
            config.cloudflare = None;
            config.secure = Some(
                SecureSignerSecrets { metadata_dpapi: metadata, nonce, ciphertext },
            );
        },
    }
    config
}

/// A TXT write the signer accepts names an `_acme-challenge.` record, and
/// its value, trimmed, is 20 to 128 bytes of ASCII letters, digits, `-`
/// and `_`.
pub proof fn lemma_accepted_write(config: SignerSecretsFile, request: SignerPresentRequest)
    requires
        request_problem(config, request) is None,
    ensures
        "_acme-challenge."@.is_prefix_of(normalized_txt_name(request.txt_name@)),
        owner_allowed(
            config.allowed_domains@,
            trim_start_pat(normalized_txt_name(request.txt_name@), "_acme-challenge."@),
        ),
        expected_rr(config.root_domain@, normalized_txt_name(request.txt_name@)) == Some(
            lower(trim_ws(request.rr_name@)),
        ),
        ({
            let b = encode_utf8(trim_ws(request.txt_value@));
            &&& 20 <= b.len() <= 128
            &&& forall|i: int| 0 <= i < b.len() ==> txt_byte_ok(#[trigger] b[i])
        }),
{
}

} // verus!

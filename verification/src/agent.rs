//! The signer agent's session: which credentials it holds, until when a
//! client is authorized, and how it answers each request on its pipe.
//! Times are milliseconds since the Unix epoch, given by the caller.
use crate::config::copy_strings;
use crate::crypto::{
    aes_gcm_open, base64_decode, spec_aes_gcm_open, spec_aes_gcm_seal, spec_base64,
    spec_base64_decode,
};
use crate::signer::{
    derive_passphrase_key, derived_key, flow_after, flow_mark, knock_accepted, reason_message,
    request_problem, validate_request_with_flow, verify_authorization_knock, FlowGuard,
    PlainCredentials, RuntimeCredentials, SecureMetadata, SecureSignerSecrets, SignerError,
    SignerPresentRequest, SignerReason, SignerResponse, SignerRuntimeStatus, SignerSecretsFile,
    PROTECTION_DPAPI_V1, PROTECTION_PASSPHRASE_DPAPI_V1,
};
use crate::text::{cat, str_eq};
use vstd::prelude::*;

verus! {

/// How long an authorization lasts, in milliseconds.
pub const AUTH_WINDOW_MILLIS: i64 = 300_000;

/// The agent's state between requests.
pub struct SignerRuntime {
    pub config: SignerSecretsFile,
    pub unlocked_credentials: Option<RuntimeCredentials>,
    /// The instant until which the last authorization holds.
    pub authorized_until: Option<i64>,
}

impl SignerRuntime {
    /// A freshly started agent: nothing unlocked, nobody authorized.
    pub fn new(config: SignerSecretsFile) -> (r: Self)
        ensures
            r.config == config,
            r.unlocked_credentials is None,
            r.authorized_until is None,
    {
        SignerRuntime { config, unlocked_credentials: None, authorized_until: None }
    }
}

/// The agent can write records: its secrets need no passphrase, or the
/// passphrase has unlocked them.
pub open spec fn is_unlocked(rt: SignerRuntime) -> bool {
    rt.config.protection_mode@ == "dpapi_v1"@ || rt.unlocked_credentials is Some
}

/// An authorization holds at `now`: it ends strictly after `now`.
pub open spec fn is_authorized(rt: SignerRuntime, now: i64) -> bool {
    match rt.authorized_until {
        Some(until) => until > now,
        None => false,
    }
}

/// `s` reports the state of `rt` at `now`.
pub open spec fn status_of(s: SignerRuntimeStatus, rt: SignerRuntime, now: i64) -> bool {
    &&& s.protection_mode == rt.config.protection_mode
    &&& s.provider == rt.config.provider
    &&& s.unlocked == is_unlocked(rt)
    &&& s.authorized == is_authorized(rt, now)
    &&& s.root_domain == rt.config.root_domain
    &&& s.allowed_domains@ == rt.config.allowed_domains@
    &&& s.pipe_name == rt.config.pipe_name
}

/// The state of the agent at `now`, as it is reported to clients.
pub fn runtime_status(rt: &SignerRuntime, now: i64) -> (s: SignerRuntimeStatus)
    ensures
        status_of(s, *rt, now),
{
    proof {
        reveal_strlit("dpapi_v1");
    }
    let unlocked = str_eq(rt.config.protection_mode.as_str(), PROTECTION_DPAPI_V1)
        || rt.unlocked_credentials.is_some();
    let authorized = match rt.authorized_until {
        Some(until) => until > now,
        None => false,
    };
    SignerRuntimeStatus {
        protection_mode: rt.config.protection_mode.clone(),
        provider: rt.config.provider.clone(),
        unlocked,
        authorized,
        root_domain: rt.config.root_domain.clone(),
        allowed_domains: copy_strings(&rt.config.allowed_domains),
        pipe_name: rt.config.pipe_name.clone(),
    }
}

/// `r` is a successful answer with `message` and the state of `rt` at `now`.
pub open spec fn answered(r: SignerResponse, message: Seq<char>, rt: SignerRuntime, now: i64) -> bool {
    &&& r.ok
    &&& r.message@ == message
    &&& r.status matches Some(s) && status_of(s, rt, now)
}

/// The answer to a request that failed: the refusal's text, no state.
pub fn error_response(e: &SignerError) -> (r: SignerResponse)
    ensures
        !r.ok,
        r.message@ == reason_message(e@),
        r.status is None,
{
    SignerResponse { ok: false, message: e.message(), status: None }
}

/// The instant an authorization granted at `now` ends.
pub open spec fn authorization_end(now: i64) -> int {
    now + AUTH_WINDOW_MILLIS
}

/// Handles an authorization knock. On success the client is authorized
/// for the next 300 seconds; otherwise nothing changes.
pub fn authorize_session(
    rt: &mut SignerRuntime,
    nonce: &str,
    process_name: &str,
    proof: &str,
    client_running: bool,
    now: i64,
) -> (r: Result<SignerResponse, SignerError>)
    requires
        now <= i64::MAX - AUTH_WINDOW_MILLIS,
    ensures
        r is Ok <==> knock_accepted(nonce@, process_name@, proof@, client_running),
        match r {
            Ok(resp) => {
                &&& final(rt).config == old(rt).config
                &&& final(rt).unlocked_credentials == old(rt).unlocked_credentials
                &&& final(rt).authorized_until == Some((now + AUTH_WINDOW_MILLIS) as i64)
                &&& answered(resp, "signer 授权会话已建立"@, *final(rt), now)
            },
            Err(e) => *final(rt) == *old(rt) && e@ == SignerReason::Security,
        },
{
    match verify_authorization_knock(nonce, process_name, proof, client_running) {
        Ok(()) => {},
        Err(e) => {
            return Err(e);
        },
    }
    rt.authorized_until = Some(now + AUTH_WINDOW_MILLIS);
    let status = runtime_status(rt, now);
    Ok(
        SignerResponse {
            ok: true,
            message: String::from_str("signer 授权会话已建立"),
            status: Some(status),
        },
    )
}

/// Forgets the unlocked credentials and the authorization.
pub fn lock_session(rt: &mut SignerRuntime, now: i64) -> (r: SignerResponse)
    ensures
        final(rt).config == old(rt).config,
        final(rt).unlocked_credentials is None,
        final(rt).authorized_until is None,
        answered(r, "signer 已锁定"@, *final(rt), now),
{
    rt.unlocked_credentials = None;
    rt.authorized_until = None;
    let status = runtime_status(rt, now);
    SignerResponse { ok: true, message: String::from_str("signer 已锁定"), status: Some(status) }
}

/// The text of a status answer.
pub open spec fn status_message(unlocked: bool, authorized: bool) -> Seq<char> {
    "signer 状态："@ + (if unlocked {
        "已解锁"@
    } else {
        "未解锁"@
    }) + "，授权："@ + (if authorized {
        "有效"@
    } else {
        "无效"@
    })
}

/// Answers a status request; the state is unchanged.
pub fn status_response(rt: &SignerRuntime, now: i64) -> (r: SignerResponse)
    ensures
        answered(r, status_message(is_unlocked(*rt), is_authorized(*rt, now)), *rt, now),
{
    let status = runtime_status(rt, now);
    let mut message = String::from_str("signer 状态：");
    if status.unlocked {
        message.append("已解锁");
    } else {
        message.append("未解锁");
    }
    message.append("，授权：");
    if status.authorized {
        message.append("有效");
    } else {
        message.append("无效");
    }
    SignerResponse { ok: true, message, status: Some(status) }
}

/// What the platform's data protection has to open before the agent can
/// unlock: the sealed key-derivation metadata, or the protected secrets.
pub enum UnlockSource {
    Sealed { metadata_dpapi: String },
    Protected { texts: Vec<String> },
}

/// The protected texts of a configuration without passphrase, in the
/// order `legacy_credentials` takes them back, or why there are none.
pub open spec fn legacy_texts(c: SignerSecretsFile) -> Result<Seq<String>, SignerReason> {
    if c.provider@ == "aliyun"@ {
        match c.aliyun {
            Some(a) => Ok(seq![a.access_key_id_dpapi, a.access_key_secret_dpapi]),
            None => Err(SignerReason::MissingAliyunSecrets),
        }
    } else if c.provider@ == "cloudflare"@ {
        match c.cloudflare {
            Some(cf) => Ok(seq![cf.token_dpapi]),
            None => Err(SignerReason::MissingCloudflareSecrets),
        }
    } else {
        Err(SignerReason::ProviderNotSupported { provider: c.provider@ })
    }
}

pub fn legacy_protected_texts(config: &SignerSecretsFile) -> (r: Result<Vec<String>, SignerError>)
    ensures
        match r {
            Ok(t) => legacy_texts(*config) == Ok::<Seq<String>, SignerReason>(t@),
            Err(e) => legacy_texts(*config) == Err::<Seq<String>, SignerReason>(e@),
        },
{
    proof {
        reveal_strlit("aliyun");
        reveal_strlit("cloudflare");
    }
    if str_eq(config.provider.as_str(), "aliyun") {
        match &config.aliyun {
            Some(a) => {
                let v = vec![a.access_key_id_dpapi.clone(), a.access_key_secret_dpapi.clone()];
                assert(v@ =~= seq![a.access_key_id_dpapi, a.access_key_secret_dpapi]);
                Ok(v)
            },
            None => Err(SignerError::MissingAliyunSecrets),
        }
    } else if str_eq(config.provider.as_str(), "cloudflare") {
        match &config.cloudflare {
            Some(cf) => {
                let v = vec![cf.token_dpapi.clone()];
                assert(v@ =~= seq![cf.token_dpapi]);
                Ok(v)
            },
            None => Err(SignerError::MissingCloudflareSecrets),
        }
    } else {
        Err(SignerError::ProviderNotSupported { provider: config.provider.clone() })
    }
}

/// The credentials of a configuration without passphrase, from its
/// protected texts once opened (`plain`, in the order of `legacy_texts`).
pub open spec fn legacy_runtime(c: SignerSecretsFile, plain: Seq<String>) -> RuntimeCredentials {
    if c.provider@ == "aliyun"@ {
        RuntimeCredentials::Aliyun {
            access_key_id: plain[0],
            access_key_secret: plain[1],
            endpoint: c.aliyun->0.endpoint,
        }
    } else {
        RuntimeCredentials::Cloudflare { token: plain[0], endpoint: c.cloudflare->0.endpoint }
    }
}

pub fn legacy_credentials(config: &SignerSecretsFile, plain: Vec<String>) -> (r: RuntimeCredentials)
    requires
        legacy_texts(*config) matches Ok(t) && plain@.len() == t.len(),
    ensures
        r == legacy_runtime(*config, plain@),
{
    proof {
        reveal_strlit("aliyun");
        reveal_strlit("cloudflare");
    }
    let ghost p0 = plain@;
    let mut plain = plain;
    if str_eq(config.provider.as_str(), "aliyun") {
        let secret = plain.remove(1);
        let id = plain.remove(0);
        let endpoint = match &config.aliyun {
            Some(a) => a.endpoint.clone(),
            None => String::new(),
        };
        RuntimeCredentials::Aliyun { access_key_id: id, access_key_secret: secret, endpoint }
    } else {
        let token = plain.remove(0);
        let endpoint = match &config.cloudflare {
            Some(cf) => cf.endpoint.clone(),
            None => String::new(),
        };
        RuntimeCredentials::Cloudflare { token, endpoint }
    }
}

/// What an unlock has to open first, by protection mode.
pub open spec fn unlock_source_of(c: SignerSecretsFile) -> Result<Seq<Seq<char>>, SignerReason> {
    if c.protection_mode@ == "passphrase_dpapi_v1"@ {
        match c.secure {
            Some(sec) => Ok(seq![sec.metadata_dpapi@]),
            None => Err(SignerReason::UnlockFailed),
        }
    } else if c.protection_mode@ == "dpapi_v1"@ {
        match legacy_texts(c) {
            Ok(t) => Ok(t.map_values(|s: String| s@)),
            Err(e) => Err(e),
        }
    } else {
        Err(SignerReason::Security)
    }
}

/// The first step of an unlock: which protected texts to open.
pub fn unlock_source(config: &SignerSecretsFile) -> (r: Result<UnlockSource, SignerError>)
    ensures
        match r {
            Ok(UnlockSource::Sealed { metadata_dpapi }) => config.protection_mode@
                == "passphrase_dpapi_v1"@ && unlock_source_of(*config) == Ok::<
                Seq<Seq<char>>,
                SignerReason,
            >(seq![metadata_dpapi@]),
            Ok(UnlockSource::Protected { texts }) => config.protection_mode@ == "dpapi_v1"@
                && legacy_texts(*config) == Ok::<Seq<String>, SignerReason>(texts@),
            Err(e) => unlock_source_of(*config) == Err::<Seq<Seq<char>>, SignerReason>(e@),
        },
{
    proof {
        reveal_strlit("dpapi_v1");
        reveal_strlit("passphrase_dpapi_v1");
    }
    if str_eq(config.protection_mode.as_str(), PROTECTION_PASSPHRASE_DPAPI_V1) {
        match &config.secure {
            Some(sec) => Ok(UnlockSource::Sealed { metadata_dpapi: sec.metadata_dpapi.clone() }),
            None => Err(SignerError::UnlockFailed),
        }
    } else if str_eq(config.protection_mode.as_str(), PROTECTION_DPAPI_V1) {
        match legacy_protected_texts(config) {
            Ok(texts) => Ok(UnlockSource::Protected { texts }),
            Err(e) => Err(e),
        }
    } else {
        Err(SignerError::Security)
    }
}

/// The plaintext that sealed credentials open to under a passphrase and
/// key-derivation metadata, when they open.
pub open spec fn opened(secure: SecureSignerSecrets, m: SecureMetadata, passphrase: Seq<char>) -> Option<
    Seq<u8>,
> {
    match (
        spec_base64_decode(secure.nonce@),
        spec_base64_decode(secure.ciphertext@),
        derived_key(passphrase, m),
    ) {
        (Some(n), Some(ct), Some(k)) => if n.len() == 12 {
            spec_aes_gcm_open(k, n, ct)
        } else {
            None
        },
        _ => None,
    }
}

/// Why sealed credentials do not open, checked in order.
pub open spec fn open_problem(secure: SecureSignerSecrets, m: SecureMetadata, passphrase: Seq<char>) -> SignerReason {
    if spec_base64_decode(secure.nonce@) is None {
        SignerReason::Invalid { detail: "signer nonce 不是合法 base64"@ }
    } else if spec_base64_decode(secure.ciphertext@) is None {
        SignerReason::Invalid { detail: "signer 密文不是合法 base64"@ }
    } else if spec_base64_decode(m.salt@) is None {
        SignerReason::Invalid { detail: "signer salt 不是合法 base64"@ }
    } else if derived_key(passphrase, m) is None {
        SignerReason::Invalid { detail: "signer 口令派生失败"@ }
    } else {
        SignerReason::UnlockFailed
    }
}

/// Opens sealed credentials with the passphrase: decodes nonce and
/// ciphertext, derives the key and decrypts. A nonce that is not 12 bytes
/// long does not open.
pub fn open_secure_credentials(
    secure: &SecureSignerSecrets,
    metadata: &SecureMetadata,
    passphrase: &str,
) -> (r: Result<Vec<u8>, SignerError>)
    ensures
        match r {
            Ok(p) => opened(*secure, *metadata, passphrase@) == Some(p@),
            Err(e) => opened(*secure, *metadata, passphrase@) is None && e@ == open_problem(
                *secure,
                *metadata,
                passphrase@,
            ),
        },
{
    let nonce = match base64_decode(secure.nonce.as_str()) {
        Some(n) => n,
        None => {
            return Err(
                SignerError::Invalid { detail: String::from_str("signer nonce 不是合法 base64") },
            );
        },
    };
    let ciphertext = match base64_decode(secure.ciphertext.as_str()) {
        Some(c) => c,
        None => {
            return Err(
                SignerError::Invalid { detail: String::from_str("signer 密文不是合法 base64") },
            );
        },
    };
    let key = match derive_passphrase_key(passphrase, metadata) {
        Ok(k) => k,
        Err(e) => {
            return Err(e);
        },
    };
    if nonce.len() != 12 {
        return Err(SignerError::UnlockFailed);
    }
    match aes_gcm_open(key.as_slice(), nonce.as_slice(), ciphertext.as_slice()) {
        Some(p) => Ok(p),
        None => Err(SignerError::UnlockFailed),
    }
}

/// The credentials sealed credentials stand for, or why they are unusable.
pub open spec fn plain_runtime(p: PlainCredentials) -> Result<RuntimeCredentials, SignerReason> {
    if p.provider@ == "aliyun"@ {
        match p.aliyun {
            Some(a) => Ok(
                RuntimeCredentials::Aliyun {
                    access_key_id: a.access_key_id,
                    access_key_secret: a.access_key_secret,
                    endpoint: a.endpoint,
                },
            ),
            None => Err(SignerReason::MissingSealedAliyun),
        }
    } else if p.provider@ == "cloudflare"@ {
        match p.cloudflare {
            Some(c) => Ok(RuntimeCredentials::Cloudflare { token: c.token, endpoint: c.endpoint }),
            None => Err(SignerReason::MissingSealedCloudflare),
        }
    } else {
        Err(SignerReason::Security)
    }
}

pub fn credentials_from_plain(plain: PlainCredentials) -> (r: Result<RuntimeCredentials, SignerError>)
    ensures
        match r {
            Ok(c) => plain_runtime(plain) == Ok::<RuntimeCredentials, SignerReason>(c),
            Err(e) => plain_runtime(plain) == Err::<RuntimeCredentials, SignerReason>(e@),
        },
{
    proof {
        reveal_strlit("aliyun");
        reveal_strlit("cloudflare");
    }
    if str_eq(plain.provider.as_str(), "aliyun") {
        match plain.aliyun {
            Some(a) => Ok(
                RuntimeCredentials::Aliyun {
                    access_key_id: a.access_key_id,
                    access_key_secret: a.access_key_secret,
                    endpoint: a.endpoint,
                },
            ),
            None => Err(SignerError::MissingSealedAliyun),
        }
    } else if str_eq(plain.provider.as_str(), "cloudflare") {
        match plain.cloudflare {
            Some(c) => Ok(RuntimeCredentials::Cloudflare { token: c.token, endpoint: c.endpoint }),
            None => Err(SignerError::MissingSealedCloudflare),
        }
    } else {
        Err(SignerError::Security)
    }
}

/// Opens the sealed credentials of the configuration for an unlock. The
/// metadata is what the protected metadata text held, `None` when it could
/// not be opened or read. Every failure is reported as a failed unlock.
pub fn open_for_unlock(
    config: &SignerSecretsFile,
    metadata: Option<SecureMetadata>,
    passphrase: &str,
) -> (r: Result<Vec<u8>, SignerError>)
    ensures
        match r {
            Ok(p) => config.secure matches Some(sec) && metadata matches Some(m) && opened(
                sec,
                m,
                passphrase@,
            ) == Some(p@),
            Err(e) => e@ == SignerReason::UnlockFailed && (config.secure is None || metadata is None
                || opened(config.secure->0, metadata->0, passphrase@) is None),
        },
{
    match (&config.secure, &metadata) {
        (Some(sec), Some(m)) => match open_secure_credentials(sec, m, passphrase) {
            Ok(p) => Ok(p),
            Err(_) => Err(SignerError::UnlockFailed),
        },
        _ => Err(SignerError::UnlockFailed),
    }
}

/// Stores unlocked credentials and answers the unlock.
pub fn finish_unlock(rt: &mut SignerRuntime, credentials: RuntimeCredentials, now: i64) -> (r:
    SignerResponse)
    ensures
        final(rt).config == old(rt).config,
        final(rt).authorized_until == old(rt).authorized_until,
        final(rt).unlocked_credentials == Some(credentials),
        answered(r, "signer 已解锁"@, *final(rt), now),
{
    rt.unlocked_credentials = Some(credentials);
    let status = runtime_status(rt, now);
    SignerResponse { ok: true, message: String::from_str("signer 已解锁"), status: Some(status) }
}

/// The last step of an unlock with a passphrase: the credentials the
/// opened plaintext held (`None` when it could not be read). Any failure
/// is reported as a failed unlock and leaves the state as it was.
pub fn finish_sealed_unlock(rt: &mut SignerRuntime, plain: Option<PlainCredentials>, now: i64) -> (r:
    Result<SignerResponse, SignerError>)
    ensures
        match r {
            Ok(resp) => plain matches Some(p) && plain_runtime(p) matches Ok(c)
                && final(rt).unlocked_credentials == Some(c) && final(rt).config == old(rt).config
                && final(rt).authorized_until == old(rt).authorized_until && answered(
                resp,
                "signer 已解锁"@,
                *final(rt),
                now,
            ),
            Err(e) => e@ == SignerReason::UnlockFailed && *final(rt) == *old(rt) && (plain is None
                || plain_runtime(plain->0) is Err),
        },
{
    let p = match plain {
        Some(p) => p,
        None => {
            return Err(SignerError::UnlockFailed);
        },
    };
    match credentials_from_plain(p) {
        Ok(c) => Ok(finish_unlock(rt, c, now)),
        Err(_) => Err(SignerError::UnlockFailed),
    }
}

/// What the agent can read back of what `init_config` sealed: the
/// credentials' JSON text, under the same passphrase.
pub proof fn lemma_sealed_credentials_open(
    plain: PlainCredentials,
    passphrase: Seq<char>,
    m: SecureMetadata,
    secure: SecureSignerSecrets,
)
    requires
        crate::signer::sealed_with(plain, passphrase, m, secure.nonce@, secure.ciphertext@),
    ensures
        opened(secure, m, passphrase) == Some(
            vstd::utf8::encode_utf8(crate::signer::plain_json(plain)),
        ),
{
}

/// Two configurations that hold the same values.
pub open spec fn same_config(a: SignerSecretsFile, b: SignerSecretsFile) -> bool {
    &&& a.version == b.version
    &&& a.protection_mode == b.protection_mode
    &&& a.provider == b.provider
    &&& a.root_domain == b.root_domain
    &&& a.allowed_domains@ == b.allowed_domains@
    &&& a.ttl == b.ttl
    &&& a.pipe_name == b.pipe_name
    &&& a.pipe_sddl == b.pipe_sddl
    &&& a.aliyun == b.aliyun
    &&& a.cloudflare == b.cloudflare
    &&& a.secure == b.secure
}

fn copy_config(c: &SignerSecretsFile) -> (r: SignerSecretsFile)
    ensures
        same_config(r, *c),
{
    SignerSecretsFile {
        version: c.version,
        protection_mode: c.protection_mode.clone(),
        provider: c.provider.clone(),
        root_domain: c.root_domain.clone(),
        allowed_domains: copy_strings(&c.allowed_domains),
        ttl: c.ttl,
        pipe_name: c.pipe_name.clone(),
        pipe_sddl: crate::config::copy_opt(&c.pipe_sddl),
        aliyun: match &c.aliyun {
            Some(a) => Some(
                crate::signer::AliyunSignerSecrets {
                    access_key_id_dpapi: a.access_key_id_dpapi.clone(),
                    access_key_secret_dpapi: a.access_key_secret_dpapi.clone(),
                    endpoint: a.endpoint.clone(),
                },
            ),
            None => None,
        },
        cloudflare: match &c.cloudflare {
            Some(cf) => Some(
                crate::signer::CloudflareSignerSecrets {
                    token_dpapi: cf.token_dpapi.clone(),
                    endpoint: cf.endpoint.clone(),
                },
            ),
            None => None,
        },
        secure: match &c.secure {
            Some(sec) => Some(
                SecureSignerSecrets {
                    metadata_dpapi: sec.metadata_dpapi.clone(),
                    nonce: sec.nonce.clone(),
                    ciphertext: sec.ciphertext.clone(),
                },
            ),
            None => None,
        },
    }
}

/// The agent only starts, and only writes, in UTC+8 between 06:00 and
/// 24:00 local time.
pub open spec fn start_problem(offset_seconds: i32, hour: u32) -> Option<SignerReason> {
    if offset_seconds != 8 * 3600 {
        Some(SignerReason::OutsideTimezone)
    } else if hour < 6 {
        Some(SignerReason::OutsideHours)
    } else {
        None
    }
}

/// Checks the local time zone's offset from UTC (in seconds) and the local
/// hour.
pub fn check_start_environment(offset_seconds: i32, hour: u32) -> (r: Result<(), SignerError>)
    ensures
        match r {
            Ok(()) => start_problem(offset_seconds, hour) is None,
            Err(e) => start_problem(offset_seconds, hour) == Some(e@),
        },
{
    if offset_seconds != 8 * 3600 {
        return Err(SignerError::OutsideTimezone);
    }
    if hour < 6 {
        return Err(SignerError::OutsideHours);
    }
    Ok(())
}

/// The steps a write has passed before the records are written.
pub open spec fn checked_flow() -> Seq<u64> {
    seq![1u64, 2u64, 3u64, 4u64, 5u64]
}

/// A TXT write that passed every check: the configuration and credentials
/// to write with, and the record of the steps passed.
pub struct PresentPlan {
    pub config: SignerSecretsFile,
    pub credentials: RuntimeCredentials,
    pub flow: FlowGuard,
}

/// Where a write stands after the agent's own checks.
pub enum PresentStart {
    /// Ready to write.
    Ready(PresentPlan),
    /// The secrets are protected without passphrase: these texts have to be
    /// opened, then `continue_present` finishes the checks.
    NeedsProtected { texts: Vec<String>, config: SignerSecretsFile, flow: FlowGuard },
}

/// Why the agent refuses a write before it looks at its credentials.
pub open spec fn gate_problem(rt: SignerRuntime, offset_seconds: i32, hour: u32, now: i64) -> Option<
    SignerReason,
> {
    if start_problem(offset_seconds, hour) is Some {
        Some(SignerReason::Security)
    } else if !is_authorized(rt, now) {
        Some(SignerReason::NotAuthorized)
    } else if rt.config.protection_mode@ == "passphrase_dpapi_v1"@ {
        if rt.unlocked_credentials is None {
            Some(SignerReason::NotUnlocked)
        } else {
            None
        }
    } else if rt.config.protection_mode@ == "dpapi_v1"@ {
        match legacy_texts(rt.config) {
            Ok(_) => None,
            Err(e) => Some(e),
        }
    } else {
        Some(SignerReason::Security)
    }
}

/// The first part of a TXT write: the environment, the authorization and
/// the credentials (steps 1 to 3), then the request itself (steps 4, 5).
/// With secrets protected without passphrase it stops after step 2 and
/// names the texts to open.
pub fn start_present(
    rt: &SignerRuntime,
    request: &SignerPresentRequest,
    offset_seconds: i32,
    hour: u32,
    now: i64,
) -> (r: Result<PresentStart, SignerError>)
    ensures
        match r {
            Ok(PresentStart::Ready(plan)) => {
                &&& gate_problem(*rt, offset_seconds, hour, now) is None
                &&& rt.config.protection_mode@ == "passphrase_dpapi_v1"@
                &&& request_problem(rt.config, *request) is None
                &&& same_config(plan.config, rt.config)
                &&& rt.unlocked_credentials == Some(plan.credentials)
                &&& plan.flow.value == flow_after(checked_flow())
            },
            Ok(PresentStart::NeedsProtected { texts, config, flow }) => {
                &&& gate_problem(*rt, offset_seconds, hour, now) is None
                &&& rt.config.protection_mode@ == "dpapi_v1"@
                &&& same_config(config, rt.config)
                &&& legacy_texts(rt.config) == Ok::<Seq<String>, SignerReason>(texts@)
                &&& flow.value == flow_after(seq![1u64, 2u64])
            },
            Err(e) => match gate_problem(*rt, offset_seconds, hour, now) {
                Some(g) => e@ == g,
                None => rt.config.protection_mode@ == "passphrase_dpapi_v1"@ && request_problem(
                    rt.config,
                    *request,
                ) == Some(e@),
            },
        },
{
    proof {
        reveal_strlit("dpapi_v1");
        reveal_strlit("passphrase_dpapi_v1");
    }
    let mut flow = FlowGuard::new();
    match check_start_environment(offset_seconds, hour) {
        Ok(()) => {},
        Err(_) => {
            return Err(SignerError::Security);
        },
    }
    flow.mark(1);
    let authorized = match rt.authorized_until {
        Some(until) => until > now,
        None => false,
    };
    if !authorized {
        return Err(SignerError::NotAuthorized);
    }
    flow.mark(2);
    if str_eq(rt.config.protection_mode.as_str(), PROTECTION_PASSPHRASE_DPAPI_V1) {
        let credentials = match &rt.unlocked_credentials {
            Some(c) => c.copy(),
            None => {
                return Err(SignerError::NotUnlocked);
            },
        };
        flow.mark(3);
        let config = copy_config(&rt.config);
        match validate_request_with_flow(&config, request, &mut flow) {
            Ok(()) => {},
            Err(e) => {
                return Err(e);
            },
        }
        flow.mark(5);
        proof {
            reveal_with_fuel(flow_after, 6);
        }
        Ok(PresentStart::Ready(PresentPlan { config, credentials, flow }))
    } else if str_eq(rt.config.protection_mode.as_str(), PROTECTION_DPAPI_V1) {
        let texts = match legacy_protected_texts(&rt.config) {
            Ok(t) => t,
            Err(e) => {
                return Err(e);
            },
        };
        proof {
            reveal_with_fuel(flow_after, 3);
            assert(seq![1u64, 2u64].drop_last() =~= seq![1u64]);
            assert(seq![1u64].drop_last() =~= Seq::<u64>::empty());
        }
        Ok(PresentStart::NeedsProtected { texts, config: copy_config(&rt.config), flow })
    } else {
        Err(SignerError::Security)
    }
}

/// The rest of the checks of a write whose secrets were protected without
/// passphrase, once their texts are open (`plain`, in the order named):
/// step 3, then the request itself (steps 4, 5).
pub fn continue_present(
    config: SignerSecretsFile,
    request: &SignerPresentRequest,
    flow: FlowGuard,
    plain: Vec<String>,
) -> (r: Result<PresentPlan, SignerError>)
    requires
        legacy_texts(config) matches Ok(t) && plain@.len() == t.len(),
    ensures
        match r {
            Ok(plan) => {
                &&& request_problem(config, *request) is None
                &&& plan.config == config
                &&& plan.credentials == legacy_runtime(config, plain@)
                &&& plan.flow.value == flow_mark(flow_mark(flow_mark(flow.value, 3), 4), 5)
            },
            Err(e) => request_problem(config, *request) == Some(e@),
        },
{
    let credentials = legacy_credentials(&config, plain);
    let mut flow = flow;
    flow.mark(3);
    match validate_request_with_flow(&config, request, &mut flow) {
        Ok(()) => {},
        Err(e) => {
            return Err(e);
        },
    }
    flow.mark(5);
    Ok(PresentPlan { config, credentials, flow })
}

/// The answer once the records are written: the flow must show every
/// step, 1 to 5 before the write and 6 after it; the message starts with
/// the local time of the write.
pub fn finish_present(
    rt: &SignerRuntime,
    plan: PresentPlan,
    request: &SignerPresentRequest,
    written_at: &str,
    now: i64,
) -> (r: Result<SignerResponse, SignerError>)
    ensures
        r is Ok <==> plan.flow.value == flow_after(checked_flow()),
        match r {
            Ok(resp) => answered(
                resp,
                written_at@ + " signer 已写入 TXT："@ + request.txt_name@,
                *rt,
                now,
            ),
            Err(e) => e@ == SignerReason::Security,
        },
{
    let mut flow = plan.flow;
    let ghost before = flow.value;
    flow.mark(6);
    proof {
        reveal_with_fuel(flow_after, 2);
        let full = crate::signer::complete_flow();
        assert(full.drop_last() =~= checked_flow());
        lemma_flow_mark_injective(before, flow_after(checked_flow()), 6);
    }
    match flow.ensure_complete() {
        Ok(()) => {},
        Err(e) => {
            return Err(e);
        },
    }
    let message = cat(written_at, " signer 已写入 TXT：");
    let message = cat(message.as_str(), request.txt_name.as_str());
    let status = runtime_status(rt, now);
    Ok(SignerResponse { ok: true, message, status: Some(status) })
}

/// A flow step can be told apart from its input: two values marked with
/// the same step agree only if they were equal.
pub proof fn lemma_flow_mark_injective(a: u64, b: u64, step: u64)
    ensures
        flow_mark(a, step) == flow_mark(b, step) <==> a == b,
{
    let m = vstd::wrapping::u64_specs::wrapping_mul(step, crate::signer::FLOW_MULTIPLIER);
    let k = crate::signer::FLOW_MASK;
    assert(((a << 7u64) | (a >> 57u64)) ^ m ^ k == ((b << 7u64) | (b >> 57u64)) ^ m ^ k <==> a
        == b) by (bit_vector);
}

/// The largest request body the agent reads, in bytes.
pub const MAX_FRAME_LEN: u32 = 65536;

/// Checks the length a request frame announces.
pub fn check_frame_length(len: u32) -> (r: Result<usize, SignerError>)
    ensures
        match r {
            Ok(n) => len <= MAX_FRAME_LEN && n == len,
            Err(e) => len > MAX_FRAME_LEN && e@ == SignerReason::RequestTooLarge,
        },
{
    if len > MAX_FRAME_LEN {
        return Err(SignerError::RequestTooLarge);
    }
    Ok(len as usize)
}

/// The four little-endian bytes of a 32-bit length.
pub open spec fn le_bytes(n: u32) -> Seq<u8> {
    seq![(n % 256) as u8, ((n / 256) % 256) as u8, ((n / 65536) % 256) as u8, (n / 16777216) as u8]
}

/// A frame on the pipe: the payload's length (truncated to 32 bits) in
/// little-endian order, then the payload.
pub fn frame(payload: &[u8]) -> (r: Vec<u8>)
    ensures
        r@ == le_bytes(payload@.len() as u32) + payload@,
{
    let n: u32 = payload.len() as u32;
    let mut out: Vec<u8> = Vec::new();
    out.push((n & 0xff) as u8);
    out.push(((n >> 8u32) & 0xff) as u8);
    out.push(((n >> 16u32) & 0xff) as u8);
    out.push((n >> 24u32) as u8);
    assert((n & 0xff) == n % 256) by (bit_vector);
    assert(((n >> 8u32) & 0xff) == (n / 256) % 256) by (bit_vector);
    assert(((n >> 16u32) & 0xff) == (n / 65536) % 256) by (bit_vector);
    assert((n >> 24u32) == n / 16777216) by (bit_vector);
    let ghost head = out@;
    let mut i: usize = 0;
    while i < payload.len()
        invariant
            i <= payload@.len(),
            out@ =~= head + payload@.take(i as int),
        decreases payload@.len() - i,
    {
        out.push(payload[i]);
        assert(payload@.take(i + 1) =~= payload@.take(i as int).push(payload@[i as int]));
        i = i + 1;
    }
    assert(payload@.take(payload@.len() as int) =~= payload@);
    assert(head =~= le_bytes(n));
    out
}

/// The text `signer status` prints for an initialized agent.
pub open spec fn status_text_of(c: SignerSecretsFile) -> Seq<char> {
    "signer 已初始化：provider="@ + c.provider@ + ", protection_mode="@ + c.protection_mode@
        + ", root_domain="@ + c.root_domain@ + ", allowed_domains="@ + crate::text::join(
        c.allowed_domains@.map_values(|d: String| d@),
        ","@,
    ) + ", pipe="@ + c.pipe_name@
}

pub fn signer_status_text(config: &SignerSecretsFile) -> (r: String)
    ensures
        r@ == status_text_of(*config),
{
    let mut out = String::from_str("signer 已初始化：provider=");
    out.append(config.provider.as_str());
    out.append(", protection_mode=");
    out.append(config.protection_mode.as_str());
    out.append(", root_domain=");
    out.append(config.root_domain.as_str());
    out.append(", allowed_domains=");
    let joined = crate::text::join_strings(&config.allowed_domains, ",");
    out.append(joined.as_str());
    out.append(", pipe=");
    out.append(config.pipe_name.as_str());
    out
}

/// The text `signer status` prints when there is no configuration at
/// `path`.
pub fn uninitialized_status_text(path: &str) -> (r: String)
    ensures
        r@ == "未初始化 signer："@ + path@,
{
    cat("未初始化 signer：", path)
}

/// What `signer status` prints for the configuration file at `path`: the
/// configuration read from it, or `None` when there is no such file.
pub fn signer_status(path: &str, config: Option<&SignerSecretsFile>) -> (r: String)
    ensures
        r@ == match config {
            Some(c) => status_text_of(*c),
            None => "未初始化 signer："@ + path@,
        },
{
    match config {
        Some(c) => signer_status_text(c),
        None => uninitialized_status_text(path),
    }
}

/// What a direct write reports once the record is written.
pub fn written_message(txt_name: &str) -> (r: String)
    ensures
        r@ == "signer 已写入 TXT："@ + txt_name@,
{
    cat("signer 已写入 TXT：", txt_name)
}

/// `std::path::MAIN_SEPARATOR`, the platform's path separator.
#[verifier::external_body]
fn main_separator() -> (r: char)
    ensures
        r == '/' || r == '\\',
{
    std::path::MAIN_SEPARATOR
}

/// Where the agent keeps its configuration: `signer-state`, the
/// platform's separator, `signer-secrets.yaml`.
pub fn default_secrets_path() -> (r: String)
    ensures
        exists|sep: char|
            (sep == '/' || sep == '\\') && r@ == crate::signer::SIGNER_STATE_DIR@ + seq![sep]
                + crate::signer::SIGNER_SECRETS_FILE@,
{
    let sep = main_separator();
    let mut out = String::from_str(crate::signer::SIGNER_STATE_DIR);
    crate::text::push_char(&mut out, sep);
    out.append(crate::signer::SIGNER_SECRETS_FILE);
    assert(out@ =~= crate::signer::SIGNER_STATE_DIR@ + seq![sep] + crate::signer::SIGNER_SECRETS_FILE@);
    out
}

/// The authorization a client sends: its nonce and program name, and the
/// proof that it knows the key.
pub fn authorization_request(nonce: String, process_name: String) -> (r:
    crate::signer::SignerPipeRequest)
    ensures
        r matches crate::signer::SignerPipeRequest::Authorize { nonce: n, process_name: p, proof }
            && n == nonce && p == process_name && proof@ == crate::signer::knock_proof(
            nonce@,
            process_name@,
        ),
{
    let proof = crate::signer::authorization_proof(nonce.as_str(), process_name.as_str());
    crate::signer::SignerPipeRequest::Authorize { nonce, process_name, proof }
}

/// After authorizing, a client sends the write only when the agent
/// accepted; otherwise it reports the agent's answer.
pub fn present_after_authorization(
    auth: SignerResponse,
    request: SignerPresentRequest,
) -> (r: Result<crate::signer::SignerPipeRequest, SignerResponse>)
    ensures
        auth.ok ==> r == Ok::<crate::signer::SignerPipeRequest, SignerResponse>(
            crate::signer::SignerPipeRequest::Present { request },
        ),
        !auth.ok ==> r == Err::<crate::signer::SignerPipeRequest, SignerResponse>(auth),
{
    if !auth.ok {
        return Err(auth);
    }
    Ok(crate::signer::SignerPipeRequest::Present { request })
}

/// An authorization granted at `now` holds at every instant before
/// `now` plus 300 seconds and at none from then on.
pub proof fn lemma_authorization_window(rt: SignerRuntime, now: i64, t: i64)
    requires
        now <= i64::MAX - AUTH_WINDOW_MILLIS,
        rt.authorized_until == Some((now + AUTH_WINDOW_MILLIS) as i64),
    ensures
        is_authorized(rt, t) <==> t < now + AUTH_WINDOW_MILLIS,
{
}

/// Once locked, nobody is authorized at any time, and the agent counts
/// as unlocked only when its secrets need no passphrase.
pub proof fn lemma_locked_state(rt: SignerRuntime, t: i64)
    requires
        rt.unlocked_credentials is None,
        rt.authorized_until is None,
    ensures
        !is_authorized(rt, t),
        is_unlocked(rt) <==> rt.config.protection_mode@ == "dpapi_v1"@,
{
}

/// A step that grants no authorization: it keeps the authorization as it
/// was or drops it. Locking, unlocking, a refused knock and every request
/// that only reads the state are such steps (see their `ensures`); only a
/// knock that `authorize_session` accepts is not.
pub open spec fn grants_nothing(before: SignerRuntime, after: SignerRuntime) -> bool {
    after.authorized_until == before.authorized_until || after.authorized_until is None
}

/// After a lock, and until an authorization succeeds, every write is
/// refused as not authorized once the start checks pass, at any time.
pub proof fn lemma_locked_until_authorized(
    states: Seq<SignerRuntime>,
    offset_seconds: i32,
    hour: u32,
)
    requires
        states.len() > 0,
        states[0].authorized_until is None,
        forall|i: int| 0 <= i < states.len() - 1 ==> grants_nothing(#[trigger] states[i], states[i + 1]),
        start_problem(offset_seconds, hour) is None,
    ensures
        forall|i: int, t: i64|
            0 <= i < states.len() ==> #[trigger] gate_problem(states[i], offset_seconds, hour, t)
                == Some(SignerReason::NotAuthorized),
{
    assert forall|i: int| 0 <= i < states.len() implies (#[trigger] states[i]).authorized_until is None by {
        lemma_locked_prefix(states, i);
    }
}

proof fn lemma_locked_prefix(states: Seq<SignerRuntime>, i: int)
    requires
        0 <= i < states.len(),
        states[0].authorized_until is None,
        forall|j: int| 0 <= j < states.len() - 1 ==> grants_nothing(#[trigger] states[j], states[j + 1]),
    ensures
        states[i].authorized_until is None,
    decreases i,
{
    if i > 0 {
        lemma_locked_prefix(states, i - 1);
        assert(grants_nothing(states[i - 1], states[i]));
    }
}

/// A write whose secrets were opened in between passes the same steps as
/// one with unlocked credentials: steps 1 and 2, then 3, 4 and 5.
pub proof fn lemma_continued_flow_complete(v: u64)
    requires
        v == flow_after(seq![1u64, 2u64]),
    ensures
        flow_mark(flow_mark(flow_mark(v, 3), 4), 5) == flow_after(checked_flow()),
{
    reveal_with_fuel(flow_after, 6);
    assert(checked_flow().drop_last() =~= seq![1u64, 2u64, 3u64, 4u64]);
    assert(seq![1u64, 2u64, 3u64, 4u64].drop_last() =~= seq![1u64, 2u64, 3u64]);
    assert(seq![1u64, 2u64, 3u64].drop_last() =~= seq![1u64, 2u64]);
}

} // verus!

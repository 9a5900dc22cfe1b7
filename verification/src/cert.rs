//! Whether the current certificate has to be renewed, from its expiry and
//! the renewal threshold.
use crate::json::{push_signed, signed_decimal};
use crate::text::cat;
use vstd::prelude::*;

verus! {

/// `x509_parser::pem::parse_x509_pem`: the DER contents of the first PEM
/// block, or the text of the crate's error.
pub uninterp spec fn spec_pem_der(pem: Seq<u8>) -> Result<Seq<u8>, Seq<char>>;

/// `x509_parser::parse_x509_certificate` and the certificate's
/// `validity().not_after.timestamp()`: the expiry in seconds since the Unix
/// epoch, or the text of the crate's error.
pub uninterp spec fn spec_der_not_after(der: Seq<u8>) -> Result<i64, Seq<char>>;

/// `chrono::Utc.timestamp_opt(seconds, 0).single()` and `to_rfc3339`: the
/// instant as RFC 3339 text, or `None` when chrono cannot represent it.
pub uninterp spec fn spec_rfc3339(seconds: i64) -> Option<Seq<char>>;

/// `x509_parser::pem::parse_x509_pem`: the DER contents of the first PEM
/// block, or the text of the crate's error; claimed only to be the named
/// result `spec_pem_der` of the bytes.
#[verifier::external_body]
fn pem_der(pem: &[u8]) -> (r: Result<Vec<u8>, String>)
    ensures
        match r {
            Ok(d) => spec_pem_der(pem@) == Ok::<Seq<u8>, Seq<char>>(d@),
            Err(e) => spec_pem_der(pem@) == Err::<Seq<u8>, Seq<char>>(e@),
        },
{
    match x509_parser::pem::parse_x509_pem(pem) {
        Ok((_, p)) => Ok(p.contents),
        Err(e) => Err(e.to_string()),
    }
}

/// `x509_parser::parse_x509_certificate` and the validity's `not_after`
/// as seconds since the epoch, or the text of the crate's error; claimed
/// only to be the named result `spec_der_not_after` of the bytes.
#[verifier::external_body]
fn der_not_after(der: &[u8]) -> (r: Result<i64, String>)
    ensures
        match r {
            Ok(t) => spec_der_not_after(der@) == Ok::<i64, Seq<char>>(t),
            Err(e) => spec_der_not_after(der@) == Err::<i64, Seq<char>>(e@),
        },
{
    match x509_parser::parse_x509_certificate(der) {
        Ok((_, cert)) => Ok(cert.validity().not_after.timestamp()),
        Err(e) => Err(e.to_string()),
    }
}

/// `chrono::Utc.timestamp_opt(seconds, 0).single()` and `to_rfc3339`;
/// claimed only to be the named result `spec_rfc3339` of the seconds.
#[verifier::external_body]
fn rfc3339_utc(seconds: i64) -> (r: Option<String>)
    ensures
        match r {
            Some(t) => spec_rfc3339(seconds) == Some(t@),
            None => spec_rfc3339(seconds) is None,
        },
{
    chrono::TimeZone::timestamp_opt(&chrono::Utc, seconds, 0).single().map(|t| t.to_rfc3339())
}

/// What is known of the current certificate.
pub struct CertificateStatus {
    pub cert_file: String,
    pub exists: bool,
    pub expires_at: Option<String>,
    pub days_remaining: Option<i64>,
    pub days_before_expiry: i64,
    pub force: bool,
    pub should_renew: bool,
    pub message: String,
}

/// Why a certificate's expiry could not be read.
pub enum CertReason {
    Pem { detail: Seq<char> },
    X509 { detail: Seq<char> },
    BadExpiry,
}

pub enum CertError {
    Pem { detail: String },
    X509 { detail: String },
    BadExpiry,
}

impl View for CertError {
    type V = CertReason;

    open spec fn view(&self) -> CertReason {
        match self {
            CertError::Pem { detail } => CertReason::Pem { detail: detail@ },
            CertError::X509 { detail } => CertReason::X509 { detail: detail@ },
            CertError::BadExpiry => CertReason::BadExpiry,
        }
    }
}

pub open spec fn cert_message(r: CertReason) -> Seq<char> {
    match r {
        CertReason::Pem { detail } => "解析 PEM 证书失败："@ + detail,
        CertReason::X509 { detail } => "解析 X509 证书失败："@ + detail,
        CertReason::BadExpiry => "证书到期时间无效"@,
    }
}

impl CertError {
    pub fn message(&self) -> (r: String)
        ensures
            r@ == cert_message(self@),
    {
        match self {
            CertError::Pem { detail } => cat("解析 PEM 证书失败：", detail.as_str()),
            CertError::X509 { detail } => cat("解析 X509 证书失败：", detail.as_str()),
            CertError::BadExpiry => String::from_str("证书到期时间无效"),
        }
    }
}

/// The status when there is no certificate file: renew.
pub fn missing_cert_status(cert_file: String, days_before_expiry: i64, force: bool) -> (r:
    CertificateStatus)
    ensures
        r.cert_file == cert_file,
        !r.exists,
        r.expires_at is None,
        r.days_remaining is None,
        r.days_before_expiry == days_before_expiry,
        r.force == force,
        r.should_renew,
        r.message@ == (if force {
            "当前证书文件不存在，需要申请；同时已勾选强制申请"@
        } else {
            "当前证书文件不存在，需要申请"@
        }),
{
    let message = if force {
        String::from_str("当前证书文件不存在，需要申请；同时已勾选强制申请")
    } else {
        String::from_str("当前证书文件不存在，需要申请")
    };
    CertificateStatus {
        cert_file,
        exists: false,
        expires_at: None,
        days_remaining: None,
        days_before_expiry,
        force,
        should_renew: true,
        message,
    }
}

/// Division that rounds toward zero.
pub open spec fn trunc_div(a: int, b: int) -> int {
    if a >= 0 {
        a / b
    } else {
        -((-a) / b)
    }
}

/// Whole days from `now` (seconds and nanoseconds since the epoch) until
/// `expiry` (seconds), rounded toward zero as chrono counts them.
pub open spec fn days_until(expiry: int, now_secs: int, now_nanos: int) -> int {
    trunc_div(trunc_div(expiry * 1_000_000_000 - (now_secs * 1_000_000_000 + now_nanos), 1_000_000_000), 86400)
}

proof fn lemma_trunc_div_bound(a: int, b: int, m: int)
    requires
        b > 0,
        -m <= a <= m,
    ensures
        -(m / b) <= trunc_div(a, b) <= m / b,
{
    if a >= 0 {
        vstd::arithmetic::div_mod::lemma_div_is_ordered(a, m, b);
        vstd::arithmetic::div_mod::lemma_div_pos_is_pos(a, b);
    } else {
        vstd::arithmetic::div_mod::lemma_div_is_ordered(-a, m, b);
        vstd::arithmetic::div_mod::lemma_div_pos_is_pos(-a, b);
    }
}

fn trunc_div_i128(a: i128, b: i128) -> (r: i128)
    requires
        b > 0,
        a > i128::MIN,
    ensures
        r == trunc_div(a as int, b as int),
{
    if a >= 0 {
        a / b
    } else {
        -((-a) / b)
    }
}

/// The message that explains a renewal decision.
pub open spec fn decision_message(expires_at: Seq<char>, days: int, threshold: int, force: bool) -> Seq<
    char,
> {
    "当前证书到期时间："@ + expires_at + "，剩余 "@ + signed_decimal(days) + " 天"@ + if force {
        "；已勾选强制申请，所以将继续申请"@
    } else if days <= threshold {
        "；小于等于提前续期阈值 "@ + signed_decimal(threshold) + " 天，需要续期"@
    } else {
        "；大于提前续期阈值 "@ + signed_decimal(threshold) + " 天，暂不需要续期"@
    }
}

/// The status of an existing certificate file whose bytes are `pem`, at
/// `now`: renew when forced or when no more days remain than the threshold.
pub fn cert_status_from_pem(
    cert_file: String,
    pem: &[u8],
    now_secs: i64,
    now_nanos: u32,
    days_before_expiry: i64,
    force: bool,
) -> (r: Result<CertificateStatus, CertError>)
    requires
        now_nanos < 1_000_000_000,
    ensures
        match spec_pem_der(pem@) {
            Err(d) => r is Err && r->Err_0@ == CertReason::Pem { detail: d },
            Ok(der) => match spec_der_not_after(der) {
                Err(d) => r is Err && r->Err_0@ == CertReason::X509 { detail: d },
                Ok(expiry) => match spec_rfc3339(expiry) {
                    None => r is Err && r->Err_0@ == CertReason::BadExpiry,
                    Some(text) => r matches Ok(st) && {
                        let days = days_until(expiry as int, now_secs as int, now_nanos as int);
                        &&& st.cert_file == cert_file
                        &&& st.exists
                        &&& st.expires_at matches Some(e) && e@ == text
                        &&& st.days_remaining == Some(days as i64)
                        &&& st.days_before_expiry == days_before_expiry
                        &&& st.force == force
                        &&& st.should_renew == (force || days <= days_before_expiry)
                        &&& st.message@ == decision_message(text, days, days_before_expiry as int, force)
                    },
                },
            },
        },
{
    let der = match pem_der(pem) {
        Ok(d) => d,
        Err(e) => {
            return Err(CertError::Pem { detail: e });
        },
    };
    let expiry = match der_not_after(der.as_slice()) {
        Ok(t) => t,
        Err(e) => {
            return Err(CertError::X509 { detail: e });
        },
    };
    let expires_at = match rfc3339_utc(expiry) {
        Some(t) => t,
        None => {
            return Err(CertError::BadExpiry);
        },
    };
    let total: i128 = (expiry as i128) * 1_000_000_000 - ((now_secs as i128) * 1_000_000_000 + (
    now_nanos as i128));
    let secs = trunc_div_i128(total, 1_000_000_000);
    let days128 = trunc_div_i128(secs, 86400);
    proof {
        lemma_trunc_div_bound(total as int, 1_000_000_000, 20_000_000_000_000_000_000_000_000_000);
        lemma_trunc_div_bound(secs as int, 86400, 20_000_000_000_000_000_000);
    }
    let days = days128 as i64;
    let should_renew = force || days <= days_before_expiry;
    let mut message = String::from_str("当前证书到期时间：");
    message.append(expires_at.as_str());
    message.append("，剩余 ");
    push_signed(&mut message, days);
    message.append(" 天");
    if force {
        message.append("；已勾选强制申请，所以将继续申请");
    } else if should_renew {
        message.append("；小于等于提前续期阈值 ");
        push_signed(&mut message, days_before_expiry);
        message.append(" 天，需要续期");
    } else {
        message.append("；大于提前续期阈值 ");
        push_signed(&mut message, days_before_expiry);
        message.append(" 天，暂不需要续期");
    }
    Ok(
        CertificateStatus {
            cert_file,
            exists: true,
            expires_at: Some(expires_at),
            days_remaining: Some(days),
            days_before_expiry,
            force,
            should_renew,
            message,
        },
    )
}

} // verus!

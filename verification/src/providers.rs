//! The DNS providers that write challenge records: which one a profile
//! selects, and what each sends to its vendor's API and makes of the reply.
//! The HTTP exchanges themselves are made by the caller.
use crate::config::{env_value, provider_kind_of, DnsProviderKind, EnvSnapshot, Profile};
use crate::crypto::{base64_encode, hmac_sha1, spec_base64, spec_hmac_sha1};
use crate::dns::{derive_root_domain, root_domain_of, DnsChallengeInfo};
use crate::signer::SignerDnsProvider;
use crate::smap::StrMap;
use crate::text::{cat, join, owned, push_char, str_eq};
use vstd::prelude::*;
use vstd::utf8::encode_utf8;

verus! {

/// Writes records through Alibaba Cloud DNS.
pub struct AliyunDnsProvider {
    pub access_key_id: String,
    pub access_key_secret: String,
    pub root_domain: String,
    pub endpoint: String,
}

impl AliyunDnsProvider {
    pub fn new(
        access_key_id: String,
        access_key_secret: String,
        root_domain: String,
        endpoint: String,
    ) -> (r: Self)
        ensures
            r.access_key_id == access_key_id,
            r.access_key_secret == access_key_secret,
            r.root_domain == root_domain,
            r.endpoint == endpoint,
    {
        AliyunDnsProvider { access_key_id, access_key_secret, root_domain, endpoint }
    }
}

/// Writes records through the Cloudflare API.
pub struct CloudflareDnsProvider {
    pub token: String,
    pub root_domain: String,
    pub endpoint: String,
}

impl CloudflareDnsProvider {
    pub fn new(token: String, root_domain: String, endpoint: String) -> (r: Self)
        ensures
            r.token == token,
            r.root_domain == root_domain,
            r.endpoint == endpoint,
    {
        CloudflareDnsProvider { token, root_domain, endpoint }
    }
}

/// Prints the records for someone to add by hand.
pub struct ManualDnsProvider;

/// The provider a profile selects.
pub enum DnsProviderChoice {
    Manual(ManualDnsProvider),
    Aliyun(AliyunDnsProvider),
    Cloudflare(CloudflareDnsProvider),
    Signer(SignerDnsProvider),
}

/// A credential variable that is not set.
pub enum ProviderError {
    MissingAliyunEnv { name: String },
    MissingCloudflareEnv { name: String },
}

impl ProviderError {
    pub fn message(&self) -> (r: String)
        ensures
            match self {
                ProviderError::MissingAliyunEnv { name } => r@ == "未检测到阿里云环境变量："@
                    + name@,
                ProviderError::MissingCloudflareEnv { name } => r@
                    == "未检测到 Cloudflare 环境变量："@ + name@,
            },
    {
        match self {
            ProviderError::MissingAliyunEnv { name } => cat("未检测到阿里云环境变量：", name.as_str()),
            ProviderError::MissingCloudflareEnv { name } => cat(
                "未检测到 Cloudflare 环境变量：",
                name.as_str(),
            ),
        }
    }
}

/// A variable's value when it is set and not empty.
pub open spec fn env_nonempty(env: EnvSnapshot, name: Seq<char>) -> Option<Seq<char>> {
    match env_value(env, name) {
        Some(v) => if v.len() > 0 {
            Some(v)
        } else {
            None
        },
        None => None,
    }
}

/// `read_env_value`: a variable's value when it is set and not empty.
pub fn read_env_value(env: &EnvSnapshot, name: &str) -> (r: Option<String>)
    ensures
        match r {
            Some(v) => env_nonempty(*env, name@) == Some(v@),
            None => env_nonempty(*env, name@) is None,
        },
{
    match env.value(name) {
        Some(v) => if v.as_str().unicode_len() > 0 {
            Some(v.clone())
        } else {
            None
        },
        None => None,
    }
}

/// The zone a vendor writes to: the configured one, else the one derived
/// from the profile's domain.
pub open spec fn zone_of(configured: Option<String>, domain: Seq<char>) -> Seq<char> {
    match configured {
        Some(z) => z@,
        None => root_domain_of(domain),
    }
}

fn zone_for(configured: &Option<String>, domain: &str) -> (r: String)
    ensures
        r@ == zone_of(*configured, domain@),
{
    match configured {
        Some(z) => z.clone(),
        None => derive_root_domain(domain),
    }
}

/// The provider a profile selects, with its credentials read from the
/// environment.
pub fn build_provider(profile: &Profile, env: &EnvSnapshot) -> (r: Result<
    DnsProviderChoice,
    ProviderError,
>)
    ensures
        match provider_kind_of(profile.dns.provider@) {
            DnsProviderKind::Manual => r matches Ok(DnsProviderChoice::Manual(_)),
            DnsProviderKind::Signer => r matches Ok(DnsProviderChoice::Signer(s))
                && s.pipe_name == profile.dns.signer.pipe_name,
            DnsProviderKind::Aliyun => {
                let a = profile.dns.aliyun;
                match (env_nonempty(*env, a.access_key_id_env@), env_nonempty(
                    *env,
                    a.access_key_secret_env@,
                )) {
                    (Some(id), Some(secret)) => r matches Ok(DnsProviderChoice::Aliyun(p))
                        && p.access_key_id@ == id && p.access_key_secret@ == secret
                        && p.root_domain@ == zone_of(a.root_domain, profile.domain@) && p.endpoint
                        == a.endpoint,
                    (None, _) => r matches Err(ProviderError::MissingAliyunEnv { name })
                        && name@ == a.access_key_id_env@,
                    (Some(_), None) => r matches Err(ProviderError::MissingAliyunEnv { name })
                        && name@ == a.access_key_secret_env@,
                }
            },
            DnsProviderKind::Cloudflare => {
                let c = profile.dns.cloudflare;
                match env_nonempty(*env, c.api_token_env@) {
                    Some(token) => r matches Ok(DnsProviderChoice::Cloudflare(p)) && p.token@
                        == token && p.root_domain@ == zone_of(c.root_domain, profile.domain@)
                        && p.endpoint == c.endpoint,
                    None => r matches Err(ProviderError::MissingCloudflareEnv { name }) && name@
                        == c.api_token_env@,
                }
            },
        },
{
    match DnsProviderKind::from_value(profile.dns.provider.as_str()) {
        DnsProviderKind::Manual => Ok(DnsProviderChoice::Manual(ManualDnsProvider)),
        DnsProviderKind::Aliyun => {
            let a = &profile.dns.aliyun;
            let key_id = match read_env_value(env, a.access_key_id_env.as_str()) {
                Some(v) => v,
                None => {
                    return Err(
                        ProviderError::MissingAliyunEnv { name: a.access_key_id_env.clone() },
                    );
                },
            };
            let key_secret = match read_env_value(env, a.access_key_secret_env.as_str()) {
                Some(v) => v,
                None => {
                    return Err(
                        ProviderError::MissingAliyunEnv { name: a.access_key_secret_env.clone() },
                    );
                },
            };
            let root = zone_for(&a.root_domain, profile.domain.as_str());
            Ok(
                DnsProviderChoice::Aliyun(
                    AliyunDnsProvider::new(key_id, key_secret, root, a.endpoint.clone()),
                ),
            )
        },
        DnsProviderKind::Cloudflare => {
            let c = &profile.dns.cloudflare;
            let token = match read_env_value(env, c.api_token_env.as_str()) {
                Some(v) => v,
                None => {
                    return Err(
                        ProviderError::MissingCloudflareEnv { name: c.api_token_env.clone() },
                    );
                },
            };
            let root = zone_for(&c.root_domain, profile.domain.as_str());
            Ok(
                DnsProviderChoice::Cloudflare(
                    CloudflareDnsProvider::new(token, root, c.endpoint.clone()),
                ),
            )
        },
        DnsProviderKind::Signer => Ok(
            DnsProviderChoice::Signer(SignerDnsProvider::new(profile.dns.signer.pipe_name.clone())),
        ),
    }
}

/// An uppercase hex digit.
pub open spec fn hex_upper(d: int) -> char {
    if d < 10 {
        (('0' as int) + d) as char
    } else {
        (('A' as int) + d - 10) as char
    }
}

/// `%` and the two uppercase hex digits of a byte.
pub open spec fn percent_byte(b: u8) -> Seq<char> {
    seq!['%', hex_upper(b as int / 16), hex_upper(b as int % 16)]
}

/// `percent_encoding::percent_encode_byte`: the byte as `%XX` with
/// uppercase hex digits.
#[verifier::external_body]
fn percent_encode_byte(b: u8) -> (r: &'static str)
    ensures
        r@ == percent_byte(b),
{
    percent_encoding::percent_encode_byte(b)
}

/// The bytes Alibaba Cloud leaves unencoded: ASCII letters and digits and
/// `-`, `_`, `.`, `~`.
pub open spec fn ali_safe(b: u8) -> bool {
    ||| 0x30 <= b <= 0x39
    ||| 0x41 <= b <= 0x5a
    ||| 0x61 <= b <= 0x7a
    ||| b == 0x2d
    ||| b == 0x5f
    ||| b == 0x2e
    ||| b == 0x7e
}

/// The encoding of each byte: itself when safe, else `%XX`.
pub open spec fn percent_bytes(bytes: Seq<u8>) -> Seq<char>
    decreases bytes.len(),
{
    if bytes.len() == 0 {
        seq![]
    } else {
        percent_bytes(bytes.drop_last()) + if ali_safe(bytes.last()) {
            seq![bytes.last() as char]
        } else {
            percent_byte(bytes.last())
        }
    }
}

/// A text percent-encoded byte by byte of its UTF-8 form.
pub open spec fn percent(s: Seq<char>) -> Seq<char> {
    percent_bytes(encode_utf8(s))
}

/// Percent-encodes a text the way Alibaba Cloud signs it.
pub fn percent_encode(s: &str) -> (r: String)
    ensures
        r@ == percent(s@),
{
    let bytes = s.as_bytes();
    let mut out = String::new();
    let mut i: usize = 0;
    while i < bytes.len()
        invariant
            i <= bytes@.len(),
            bytes@ == encode_utf8(s@),
            out@ == percent_bytes(bytes@.take(i as int)),
        decreases bytes@.len() - i,
    {
        let b = bytes[i];
        proof {
            assert(bytes@.take(i + 1).drop_last() =~= bytes@.take(i as int));
            assert(bytes@.take(i + 1).last() == b);
        }
        if (0x30 <= b && b <= 0x39) || (0x41 <= b && b <= 0x5a) || (0x61 <= b && b <= 0x7a) || b
            == 0x2d || b == 0x5f || b == 0x2e || b == 0x7e {
            push_char(&mut out, b as char);
            assert(out@ =~= percent_bytes(bytes@.take(i + 1)));
        } else {
            let e = percent_encode_byte(b);
            out.append(e);
            assert(out@ =~= percent_bytes(bytes@.take(i + 1)));
        }
        i = i + 1;
    }
    assert(bytes@.take(bytes@.len() as int) =~= bytes@);
    out
}

/// The `key=value` pairs of a query, percent-encoded, in key order.
pub open spec fn canonical_pairs(keys: Seq<Seq<char>>, vals: Seq<Seq<char>>) -> Seq<Seq<char>> {
    Seq::new(keys.len(), |i: int| percent(keys[i]) + "="@ + percent(vals[i]))
}

/// The canonical query of signed parameters: encoded pairs joined by `&`.
pub open spec fn canonical_query(m: StrMap<String>) -> Seq<char> {
    join(canonical_pairs(m.keys(), m.vals().map_values(|v: String| v@)), "&"@)
}

/// The signature of a canonical query under an access key secret:
/// base64 of HMAC-SHA1 keyed by `secret&` over `GET&%2F&` and the encoded
/// query.
pub open spec fn signature_of(secret: Seq<char>, canonical: Seq<char>) -> Seq<char> {
    spec_base64(
        spec_hmac_sha1(
            encode_utf8(secret + "&"@),
            encode_utf8("GET&%2F&"@ + percent(canonical)),
        ),
    )
}

fn utf8_of(s: &str) -> (r: Vec<u8>)
    ensures
        r@ == encode_utf8(s@),
{
    crate::signer::utf8_bytes(s)
}

/// The signature of a parameter set.
pub fn signature(access_key_secret: &str, params: &StrMap<String>) -> (r: String)
    requires
        params.wf(),
    ensures
        r@ == signature_of(access_key_secret@, canonical_query(*params)),
{
    let ghost vals = params.vals().map_values(|v: String| v@);
    let ghost pairs = canonical_pairs(params.keys(), vals);
    proof {
        params.lemma_lens();
    }
    let mut parts: Vec<String> = Vec::new();
    let mut i: usize = 0;
    while i < params.len()
        invariant
            params.wf(),
            i <= params.keys().len(),
            params.keys().len() == params.vals().len(),
            vals == params.vals().map_values(|v: String| v@),
            pairs == canonical_pairs(params.keys(), vals),
            parts@.map_values(|p: String| p@) == pairs.take(i as int),
        decreases params.keys().len() - i,
    {
        let kt = params.key_at(i);
        let vt = params.value_at(i);
        let k = percent_encode(kt.as_str());
        let v = percent_encode(vt.as_str());
        assert(vals[i as int] == vt@);
        let mut pair = k;
        pair.append("=");
        pair.append(v.as_str());
        let ghost before = parts@.map_values(|p: String| p@);
        parts.push(pair);
        assert(pair@ == pairs[i as int]);
        assert(parts@.map_values(|p: String| p@) =~= before.push(pair@));
        assert(pairs.take(i + 1) =~= pairs.take(i as int).push(pairs[i as int]));
        i = i + 1;
    }
    assert(pairs.take(params.keys().len() as int) =~= pairs);
    let canonical = crate::text::join_strings(&parts, "&");
    let mut key_text = owned(access_key_secret);
    key_text.append("&");
    let mut msg = String::from_str("GET&%2F&");
    let enc = percent_encode(canonical.as_str());
    msg.append(enc.as_str());
    let key = utf8_of(key_text.as_str());
    let data = utf8_of(msg.as_str());
    let mac = hmac_sha1(key.as_slice(), data.as_slice());
    base64_encode(mac.as_slice())
}

/// The values of a parameter map as texts.
pub open spec fn texts(m: Map<Seq<char>, String>) -> Map<Seq<char>, Seq<char>> {
    m.map_values(|v: String| v@)
}

fn put(m: &mut StrMap<String>, k: &str, v: String)
    requires
        old(m).wf(),
    ensures
        final(m).wf(),
        texts(final(m).as_map()) == texts(old(m).as_map()).insert(k@, v@),
{
    let ghost vv = v;
    m.insert(owned(k), v);
    assert(texts(m.as_map()) =~= texts(old(m).as_map()).insert(k@, vv@));
}

/// The common parameters of every Alibaba Cloud DNS call, before the call's
/// own parameters (which win) and the signature.
pub open spec fn aliyun_base(access_key_id: Seq<char>, timestamp: Seq<char>, nonce: Seq<char>) -> Map<
    Seq<char>,
    Seq<char>,
> {
    Map::empty().insert("Format"@, "JSON"@).insert("Version"@, "2015-01-09"@).insert(
        "AccessKeyId"@,
        access_key_id,
    ).insert("SignatureMethod"@, "HMAC-SHA1"@).insert("Timestamp"@, timestamp).insert(
        "SignatureVersion"@,
        "1.0"@,
    ).insert("SignatureNonce"@, nonce)
}

/// The query of a signed call: the common parameters and the call's own,
/// and `Signature`, the signature of those in key order.
pub open spec fn aliyun_signed(
    access_key_id: Seq<char>,
    access_key_secret: Seq<char>,
    params: Map<Seq<char>, Seq<char>>,
    timestamp: Seq<char>,
    nonce: Seq<char>,
    r: StrMap<String>,
) -> bool {
    exists|pre: StrMap<String>|
        {
            &&& pre.wf()
            &&& texts(pre.as_map()) == aliyun_base(access_key_id, timestamp, nonce).union_prefer_right(
                params,
            )
            &&& texts(r.as_map()) == texts(pre.as_map()).insert(
                "Signature"@,
                signature_of(access_key_secret, canonical_query(pre)),
            )
        }
}

/// Signs a call's parameters with the provider's key at `timestamp`
/// (`%Y-%m-%dT%H:%M:%SZ`, UTC) with a fresh `nonce`.
pub fn aliyun_signed_query(
    p: &AliyunDnsProvider,
    params: &StrMap<String>,
    timestamp: String,
    nonce: String,
) -> (r: StrMap<String>)
    requires
        params.wf(),
    ensures
        r.wf(),
        aliyun_signed(
            p.access_key_id@,
            p.access_key_secret@,
            texts(params.as_map()),
            timestamp@,
            nonce@,
            r,
        ),
{
    let ghost ts = timestamp@;
    let ghost nv = nonce@;
    let mut m: StrMap<String> = StrMap::new();
    proof {
        assert(texts(m.as_map()) =~= Map::empty());
    }
    put(&mut m, "Format", String::from_str("JSON"));
    put(&mut m, "Version", String::from_str("2015-01-09"));
    put(&mut m, "AccessKeyId", p.access_key_id.clone());
    put(&mut m, "SignatureMethod", String::from_str("HMAC-SHA1"));
    put(&mut m, "Timestamp", timestamp);
    put(&mut m, "SignatureVersion", String::from_str("1.0"));
    put(&mut m, "SignatureNonce", nonce);
    let ghost base = texts(m.as_map());
    assert(base == aliyun_base(p.access_key_id@, ts, nv));
    let mut i: usize = 0;
    proof {
        params.lemma_lens();
    }
    while i < params.len()
        invariant
            m.wf(),
            params.wf(),
            i <= params.keys().len(),
            params.keys().len() == params.vals().len(),
            texts(m.as_map()) == base.union_prefer_right(
                texts(params.as_map()).restrict(params.keys().take(i as int).to_set()),
            ),
        decreases params.keys().len() - i,
    {
        let k = params.key_at(i);
        let v = params.value_at(i);
        let ghost before = texts(m.as_map());
        put(&mut m, k.as_str(), v.clone());
        proof {
            params.lemma_keys_sorted();
            params.lemma_index_of_key(k@, i as int);
            let pm = texts(params.as_map());
            assert(pm.dom().contains(k@));
            assert(pm[k@] == v@);
            assert(params.keys().take(i + 1).to_set() =~= params.keys().take(i as int).to_set().insert(
                k@,
            )) by {
                assert(params.keys().take(i + 1) =~= params.keys().take(i as int).push(k@));
                params.keys().take(i as int).lemma_push_to_set_commute(k@);
            }
            assert(texts(m.as_map()) =~= base.union_prefer_right(
                pm.restrict(params.keys().take(i + 1).to_set()),
            ));
        }
        i = i + 1;
    }
    proof {
        let pm = texts(params.as_map());
        assert(params.keys().take(params.keys().len() as int) =~= params.keys());
        assert(pm.restrict(params.keys().to_set()) =~= pm);
    }
    let ghost pre = m;
    let sig = signature(p.access_key_secret.as_str(), &m);
    put(&mut m, "Signature", sig);
    m
}

/// `chrono::Utc::now().format("%Y-%m-%dT%H:%M:%SZ")`: the current UTC time.
/// Nothing is stated of it: it is the time.
#[verifier::external_body]
fn utc_timestamp() -> (r: String) {
    chrono::Utc::now().format("%Y-%m-%dT%H:%M:%SZ").to_string()
}

/// The hyphenated lowercase form of a UUID: 36 characters, `-` at
/// positions 8, 13, 18 and 23, lowercase hexadecimal digits elsewhere.
pub open spec fn uuid_text(s: Seq<char>) -> bool {
    &&& s.len() == 36
    &&& forall|i: int|
        0 <= i < 36 ==> if i == 8 || i == 13 || i == 18 || i == 23 {
            #[trigger] s[i] == '-'
        } else {
            ('0' <= s[i] <= '9') || ('a' <= s[i] <= 'f')
        }
}

/// `uuid::Uuid::new_v4().to_string()`: a random UUID in its hyphenated
/// lowercase form (`Display` writes `as_hyphenated`). Of its digits nothing
/// is stated: they are random.
#[verifier::external_body]
fn new_nonce() -> (r: String)
    ensures
        uuid_text(r@),
{
    uuid::Uuid::new_v4().to_string()
}

/// The query of one Alibaba Cloud DNS call with `params`, signed now with a
/// fresh nonce.
pub fn aliyun_request_query(p: &AliyunDnsProvider, params: &StrMap<String>) -> (r: StrMap<String>)
    requires
        params.wf(),
    ensures
        r.wf(),
        exists|timestamp: Seq<char>, nonce: Seq<char>|
            uuid_text(nonce) && #[trigger] aliyun_signed(
                p.access_key_id@,
                p.access_key_secret@,
                texts(params.as_map()),
                timestamp,
                nonce,
                r,
            ),
{
    let timestamp = utc_timestamp();
    let nonce = new_nonce();
    let ghost ts = timestamp@;
    let ghost nv = nonce@;
    let r = aliyun_signed_query(p, params, timestamp, nonce);
    assert(aliyun_signed(p.access_key_id@, p.access_key_secret@, texts(params.as_map()), ts, nv, r));
    r
}

/// The error an Alibaba Cloud reply stands for: a failed HTTP status or a
/// `Code` in the body.
pub fn aliyun_api_error(status_success: bool, has_code: bool, body: &str) -> (r: Option<String>)
    ensures
        match r {
            Some(m) => (!status_success || has_code) && m@ == "阿里云 API 错误："@ + body@,
            None => status_success && !has_code,
        },
{
    if !status_success || has_code {
        Some(cat("阿里云 API 错误：", body))
    } else {
        None
    }
}

/// The parameters that look up the TXT records under a host record.
pub fn aliyun_describe_params(p: &AliyunDnsProvider, rr: &str) -> (r: StrMap<String>)
    ensures
        r.wf(),
        texts(r.as_map()) == Map::<Seq<char>, Seq<char>>::empty().insert(
            "Action"@,
            "DescribeDomainRecords"@,
        ).insert("DomainName"@, p.root_domain@).insert("RRKeyWord"@, rr@).insert("Type"@, "TXT"@),
{
    let mut m: StrMap<String> = StrMap::new();
    proof {
        assert(texts(m.as_map()) =~= Map::empty());
    }
    put(&mut m, "Action", String::from_str("DescribeDomainRecords"));
    put(&mut m, "DomainName", p.root_domain.clone());
    put(&mut m, "RRKeyWord", owned(rr));
    put(&mut m, "Type", String::from_str("TXT"));
    m
}

/// A TXT record as Alibaba Cloud lists it.
pub struct AliRecord {
    pub record_id: String,
    pub value: String,
}

/// The fields of one listed record, each `None` when it is missing or not
/// a string.
pub struct AliRecordFields {
    pub rr: Option<String>,
    pub record_id: Option<String>,
    pub value: Option<String>,
}

pub open spec fn text_or_empty(v: Option<String>) -> Seq<char> {
    match v {
        Some(s) => s@,
        None => Seq::empty(),
    }
}

/// Index of the first listed record under host record `rr`, or -1.
pub open spec fn first_record_with_rr(records: Seq<AliRecordFields>, rr: Seq<char>, i: int) -> int
    decreases records.len() - i,
{
    if i < 0 || i >= records.len() {
        -1
    } else if records[i].rr matches Some(x) && x@ == rr {
        i
    } else {
        first_record_with_rr(records, rr, i + 1)
    }
}

fn text_or_default(v: &Option<String>) -> (r: String)
    ensures
        r@ == text_or_empty(*v),
{
    match v {
        Some(s) => s.clone(),
        None => String::new(),
    }
}

/// The first listed record whose host record is `rr` (missing fields read
/// as empty).
pub fn pick_aliyun_record(records: &Vec<AliRecordFields>, rr: &str) -> (r: Option<AliRecord>)
    ensures
        match r {
            Some(rec) => {
                let i = first_record_with_rr(records@, rr@, 0);
                &&& 0 <= i < records@.len()
                &&& rec.record_id@ == text_or_empty(records@[i].record_id)
                &&& rec.value@ == text_or_empty(records@[i].value)
            },
            None => first_record_with_rr(records@, rr@, 0) == -1,
        },
{
    let mut i: usize = 0;
    while i < records.len()
        invariant
            i <= records@.len(),
            first_record_with_rr(records@, rr@, 0) == first_record_with_rr(records@, rr@, i as int),
        decreases records@.len() - i,
    {
        let hit = match &records[i].rr {
            Some(x) => str_eq(x.as_str(), rr),
            None => false,
        };
        if hit {
            return Some(
                AliRecord {
                    record_id: text_or_default(&records[i].record_id),
                    value: text_or_default(&records[i].value),
                },
            );
        }
        i = i + 1;
    }
    None
}

/// What writing a challenge record through Alibaba Cloud takes.
pub enum AliyunWrite {
    /// The record already holds the value.
    AlreadyCurrent,
    /// Update the record found.
    Update(StrMap<String>),
    /// Add a record.
    Add(StrMap<String>),
}

/// The write for a challenge whose host record is `rr`, given the record
/// found under it (if any). Records are written with a TTL of 600 seconds.
pub fn aliyun_write(
    p: &AliyunDnsProvider,
    challenge: &DnsChallengeInfo,
    rr: &str,
    found: Option<AliRecord>,
) -> (r: AliyunWrite)
    ensures
        match found {
            Some(rec) => if rec.value@ == challenge.txt_value@ {
                r is AlreadyCurrent
            } else {
                r matches AliyunWrite::Update(m) && m.wf() && texts(m.as_map()) == Map::<
                    Seq<char>,
                    Seq<char>,
                >::empty().insert("Action"@, "UpdateDomainRecord"@).insert(
                    "RecordId"@,
                    rec.record_id@,
                ).insert("RR"@, rr@).insert("Type"@, "TXT"@).insert(
                    "Value"@,
                    challenge.txt_value@,
                ).insert("TTL"@, "600"@)
            },
            None => r matches AliyunWrite::Add(m) && m.wf() && texts(m.as_map()) == Map::<
                Seq<char>,
                Seq<char>,
            >::empty().insert("Action"@, "AddDomainRecord"@).insert(
                "DomainName"@,
                p.root_domain@,
            ).insert("RR"@, rr@).insert("Type"@, "TXT"@).insert("Value"@, challenge.txt_value@).insert(
                "TTL"@,
                "600"@,
            ),
        },
{
    let mut m: StrMap<String> = StrMap::new();
    proof {
        assert(texts(m.as_map()) =~= Map::empty());
    }
    match found {
        Some(rec) => {
            if str_eq(rec.value.as_str(), challenge.txt_value.as_str()) {
                return AliyunWrite::AlreadyCurrent;
            }
            put(&mut m, "Action", String::from_str("UpdateDomainRecord"));
            put(&mut m, "RecordId", rec.record_id);
            put(&mut m, "RR", owned(rr));
            put(&mut m, "Type", String::from_str("TXT"));
            put(&mut m, "Value", challenge.txt_value.clone());
            put(&mut m, "TTL", String::from_str("600"));
            AliyunWrite::Update(m)
        },
        None => {
            put(&mut m, "Action", String::from_str("AddDomainRecord"));
            put(&mut m, "DomainName", p.root_domain.clone());
            put(&mut m, "RR", owned(rr));
            put(&mut m, "Type", String::from_str("TXT"));
            put(&mut m, "Value", challenge.txt_value.clone());
            put(&mut m, "TTL", String::from_str("600"));
            AliyunWrite::Add(m)
        },
    }
}

/// The API path that looks up the active zone named `root_domain`.
pub fn cf_zone_path(root_domain: &str) -> (r: String)
    ensures
        r@ == "/zones?name="@ + root_domain@ + "&status=active"@,
{
    let mut r = String::from_str("/zones?name=");
    r.append(root_domain);
    r.append("&status=active");
    r
}

/// The zone's id: the id of the first zone listed, or an error naming the
/// zone.
pub fn cf_zone_id(first_id: Option<String>, root_domain: &str) -> (r: Result<String, String>)
    ensures
        match first_id {
            Some(id) => r == Ok::<String, String>(id),
            None => r matches Err(m) && m@ == "Cloudflare 未找到 Zone："@ + root_domain@,
        },
{
    match first_id {
        Some(id) => Ok(id),
        None => Err(cat("Cloudflare 未找到 Zone：", root_domain)),
    }
}

/// The API path that lists the TXT records named `txt_name` in a zone.
pub fn cf_records_path(zone_id: &str, txt_name: &str) -> (r: String)
    ensures
        r@ == "/zones/"@ + zone_id@ + "/dns_records?type=TXT&name="@ + txt_name@,
{
    let mut r = String::from_str("/zones/");
    r.append(zone_id);
    r.append("/dns_records?type=TXT&name=");
    r.append(txt_name);
    r
}

/// A TXT record as Cloudflare lists it.
pub struct CfRecord {
    pub id: String,
    pub content: String,
}

/// The first listed record, from its `id` and `content` (each `None` when
/// missing or not a string, and then read as empty).
pub fn cf_record_from(first: Option<(Option<String>, Option<String>)>) -> (r: Option<CfRecord>)
    ensures
        match first {
            Some((id, content)) => r matches Some(rec) && rec.id@ == text_or_empty(id)
                && rec.content@ == text_or_empty(content),
            None => r is None,
        },
{
    match first {
        Some((id, content)) => Some(
            CfRecord { id: text_or_default(&id), content: text_or_default(&content) },
        ),
        None => None,
    }
}

/// The JSON body that writes a TXT record with a TTL of 120 seconds; the
/// keys in the order `serde_json` writes an object's keys.
pub open spec fn cf_body(txt_name: Seq<char>, txt_value: Seq<char>) -> Seq<char> {
    "{\"content\":"@ + crate::json::json_string(txt_value) + ",\"name\":"@
        + crate::json::json_string(txt_name) + ",\"ttl\":120,\"type\":\"TXT\"}"@
}

pub fn cf_record_body(txt_name: &str, txt_value: &str) -> (r: String)
    ensures
        r@ == cf_body(txt_name@, txt_value@),
{
    let mut out = String::from_str("{\"content\":");
    crate::json::push_json_string(&mut out, txt_value);
    out.append(",\"name\":");
    crate::json::push_json_string(&mut out, txt_name);
    out.append(",\"ttl\":120,\"type\":\"TXT\"}");
    out
}

/// What writing a challenge record through Cloudflare takes.
pub enum CfWrite {
    /// The record already holds the value.
    AlreadyCurrent,
    /// `PUT` this body to this path.
    Update { path: String, body: String },
    /// `POST` this body to this path.
    Create { path: String, body: String },
}

/// The write for a challenge in zone `zone_id`, given the first record
/// found under its name (if any).
pub fn cf_write(zone_id: &str, challenge: &DnsChallengeInfo, found: Option<CfRecord>) -> (r: CfWrite)
    ensures
        match found {
            Some(rec) => if rec.content@ == challenge.txt_value@ {
                r is AlreadyCurrent
            } else {
                r matches CfWrite::Update { path, body } && path@ == "/zones/"@ + zone_id@
                    + "/dns_records/"@ + rec.id@ && body@ == cf_body(
                    challenge.txt_name@,
                    challenge.txt_value@,
                )
            },
            None => r matches CfWrite::Create { path, body } && path@ == "/zones/"@ + zone_id@
                + "/dns_records"@ && body@ == cf_body(challenge.txt_name@, challenge.txt_value@),
        },
{
    let body = cf_record_body(challenge.txt_name.as_str(), challenge.txt_value.as_str());
    match found {
        Some(rec) => {
            if str_eq(rec.content.as_str(), challenge.txt_value.as_str()) {
                return CfWrite::AlreadyCurrent;
            }
            let mut path = String::from_str("/zones/");
            path.append(zone_id);
            path.append("/dns_records/");
            path.append(rec.id.as_str());
            CfWrite::Update { path, body }
        },
        None => {
            let mut path = String::from_str("/zones/");
            path.append(zone_id);
            path.append("/dns_records");
            CfWrite::Create { path, body }
        },
    }
}

/// The URL of an API path: the endpoint without trailing slashes, then
/// the path.
pub fn cf_url(endpoint: &str, path: &str) -> (r: String)
    ensures
        r@ == crate::text::trim_end_char(endpoint@, '/') + path@,
{
    cat(crate::text::trim_end_matches_char(endpoint, '/'), path)
}

/// The error a Cloudflare reply stands for: a failed HTTP status or
/// `"success": false` in the body.
pub fn cf_api_error(status_success: bool, success_false: bool, body: &str) -> (r: Option<String>)
    ensures
        match r {
            Some(m) => (!status_success || success_false) && m@ == "Cloudflare API 错误："@
                + body@,
            None => status_success && !success_false,
        },
{
    if !status_success || success_false {
        Some(cat("Cloudflare API 错误：", body))
    } else {
        None
    }
}

/// Whether a TXT value is among the values a lookup returned (each value
/// the concatenation of its character strings).
pub fn txt_visible(values: &Vec<String>, txt_value: &str) -> (r: bool)
    ensures
        r == exists|i: int| 0 <= i < values@.len() && (#[trigger] values@[i])@ == txt_value@,
{
    let mut i: usize = 0;
    while i < values.len()
        invariant
            i <= values@.len(),
            forall|k: int| 0 <= k < i ==> (#[trigger] values@[k])@ != txt_value@,
        decreases values@.len() - i,
    {
        if str_eq(values[i].as_str(), txt_value) {
            return true;
        }
        i = i + 1;
    }
    false
}

/// What waiting for the records does next.
pub enum WaitStep {
    /// Every record is visible.
    Done,
    /// The deadline passed: fail with this message.
    TimedOut(String),
    /// Report this message, sleep, and look again.
    Wait(String),
}

/// The TXT names of the challenges not yet visible, in order.
pub open spec fn pending_names(challenges: Seq<DnsChallengeInfo>, visible: Seq<bool>) -> Seq<Seq<char>>
    decreases challenges.len(),
{
    if challenges.len() == 0 {
        seq![]
    } else {
        let rest = pending_names(challenges.drop_last(), visible);
        if visible[challenges.len() - 1] {
            rest
        } else {
            rest.push(challenges.last().txt_name@)
        }
    }
}

/// One round of waiting for records: `visible[i]` tells whether challenge
/// `i` is visible now, `deadline_passed` whether the time is up.
pub fn wait_step(challenges: &Vec<DnsChallengeInfo>, visible: &Vec<bool>, deadline_passed: bool) -> (r:
    WaitStep)
    requires
        visible@.len() == challenges@.len(),
    ensures
        ({
            let pending = pending_names(challenges@, visible@);
            match r {
                WaitStep::Done => pending.len() == 0,
                WaitStep::TimedOut(m) => pending.len() > 0 && deadline_passed && m@
                    == "DNS TXT 记录超时未生效："@ + join(pending, ", "@),
                WaitStep::Wait(m) => pending.len() > 0 && !deadline_passed && m@
                    == "等待 DNS TXT 生效："@ + join(pending, ", "@),
            }
        }),
{
    let mut pending: Vec<String> = Vec::new();
    let mut i: usize = 0;
    while i < challenges.len()
        invariant
            i <= challenges@.len(),
            visible@.len() == challenges@.len(),
            pending@.map_values(|p: String| p@) == pending_names(
                challenges@.take(i as int),
                visible@,
            ),
        decreases challenges@.len() - i,
    {
        proof {
            assert(challenges@.take(i + 1).drop_last() =~= challenges@.take(i as int));
        }
        if !visible[i] {
            let ghost before = pending@.map_values(|p: String| p@);
            pending.push(challenges[i].txt_name.clone());
            assert(pending@.map_values(|p: String| p@) =~= before.push(challenges@[i as int].txt_name@));
        }
        i = i + 1;
    }
    assert(challenges@.take(challenges@.len() as int) =~= challenges@);
    if pending.len() == 0 {
        return WaitStep::Done;
    }
    let joined = crate::text::join_strings(&pending, ", ");
    if deadline_passed {
        WaitStep::TimedOut(cat("DNS TXT 记录超时未生效：", joined.as_str()))
    } else {
        WaitStep::Wait(cat("等待 DNS TXT 生效：", joined.as_str()))
    }
}

} // verus!

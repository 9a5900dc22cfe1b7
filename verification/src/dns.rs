//! DNS-01 challenge records: which zone a name belongs to and which host
//! record (RR) it is written under.
use crate::text::{
    cat, ends_with, lemma_rfind_range, owned, rfind, rfind_char, str_eq, strip_prefix, strip_prefix_str, trim,
    trim_end_char, trim_end_matches_char, trim_end_matches_str, trim_end_pat, trim_ws,
};
use vstd::prelude::*;

verus! {

/// One DNS-01 challenge: the TXT record `txt_name` (host record `rr_name`
/// within the zone) must hold `txt_value`.
pub struct DnsChallengeInfo {
    pub domain: String,
    pub txt_name: String,
    pub rr_name: String,
    pub txt_value: String,
}

impl DnsChallengeInfo {
    pub fn clone_info(&self) -> (r: Self)
        ensures
            r.domain@ == self.domain@,
            r.txt_name@ == self.txt_name@,
            r.rr_name@ == self.rr_name@,
            r.txt_value@ == self.txt_value@,
    {
        DnsChallengeInfo {
            domain: self.domain.clone(),
            txt_name: self.txt_name.clone(),
            rr_name: self.rr_name.clone(),
            txt_value: self.txt_value.clone(),
        }
    }
}

/// The name whose zone is derived: trimmed, and without a leading `*.`
/// (trailing dots are dropped only when the `*.` was there).
pub open spec fn root_source(domain: Seq<char>) -> Seq<char> {
    match strip_prefix(trim_end_char(trim_ws(domain), '.'), "*."@) {
        Some(rest) => rest,
        None => trim_ws(domain),
    }
}

/// The last two dot-separated labels of `s` (all of `s` when it has no dot).
pub open spec fn last_two_labels(s: Seq<char>) -> Seq<char> {
    let i = rfind(s, '.');
    if i < 0 {
        s
    } else {
        s.skip(rfind(s.take(i), '.') + 1)
    }
}

/// The zone that a certificate domain is assumed to live in.
pub open spec fn root_domain_of(domain: Seq<char>) -> Seq<char> {
    last_two_labels(root_source(domain))
}

/// The host record of `txt_name` within the zone `root_domain`: `@` for the
/// zone itself, else the name with every trailing `.<root>` removed; `None`
/// when the name does not end in `.<root>`.
pub open spec fn rr_of(txt_name: Seq<char>, root_domain: Seq<char>) -> Option<Seq<char>> {
    let name = trim_end_char(txt_name, '.');
    let suffix = "."@ + trim_end_char(root_domain, '.');
    if name == root_domain {
        Some("@"@)
    } else if !suffix.is_suffix_of(name) {
        None
    } else {
        Some(trim_end_pat(name, suffix))
    }
}

/// The host record used for a challenge of `domain`: as `rr_of` within the
/// derived zone, else the whole name without trailing dots.
pub open spec fn dns_rr_of(txt_name: Seq<char>, domain: Seq<char>) -> Seq<char> {
    match rr_of(txt_name, root_domain_of(domain)) {
        Some(rr) => rr,
        None => trim_end_char(txt_name, '.'),
    }
}

/// A TXT name that lies outside the zone it is written to.
pub enum DnsError {
    NotUnderRoot { txt_name: String, root_domain: String },
}

impl DnsError {
    pub fn message(&self) -> (r: String)
        ensures
            match self {
                DnsError::NotUnderRoot { txt_name, root_domain } => r@ == "TXT 名称 "@
                    + txt_name@ + " 不属于根域名 "@ + root_domain@,
            },
    {
        match self {
            DnsError::NotUnderRoot { txt_name, root_domain } => {
                let mut r = String::from_str("TXT 名称 ");
                r.append(txt_name.as_str());
                r.append(" 不属于根域名 ");
                r.append(root_domain.as_str());
                r
            },
        }
    }
}

/// The zone of a certificate domain: the last two labels of the domain
/// without its `*.` prefix.
pub fn derive_root_domain(domain: &str) -> (r: String)
    ensures
        r@ == root_domain_of(domain@),
{
    let trimmed = trim(domain);
    let no_dots = trim_end_matches_char(trimmed, '.');
    let clean = match strip_prefix_str(no_dots, "*.") {
        Some(rest) => rest,
        None => trimmed,
    };
    let n = clean.unicode_len();
    match rfind_char(clean, '.', n) {
        None => {
            assert(clean@.take(n as int) =~= clean@);
            owned(clean)
        },
        Some(i) => {
            assert(clean@.take(n as int) =~= clean@);
            proof {
                lemma_rfind_range(clean@, '.');
            }
            let start = match rfind_char(clean, '.', i) {
                None => 0,
                Some(j) => {
                    proof {
                        lemma_rfind_range(clean@.take(i as int), '.');
                    }
                    j + 1
                },
            };
            owned(clean.substring_char(start, n))
        },
    }
}

/// The host record of `txt_name` within the zone `root_domain`.
pub fn rr_from_txt_name(txt_name: &str, root_domain: &str) -> (r: Result<String, DnsError>)
    ensures
        match r {
            Ok(rr) => rr_of(txt_name@, root_domain@) == Some(rr@),
            Err(DnsError::NotUnderRoot { txt_name: t, root_domain: d }) => {
                &&& rr_of(txt_name@, root_domain@) is None
                &&& t@ == txt_name@
                &&& d@ == root_domain@
            },
        },
{
    let name = trim_end_matches_char(txt_name, '.');
    let suffix = cat(".", trim_end_matches_char(root_domain, '.'));
    if str_eq(name, root_domain) {
        return Ok(String::from_str("@"));
    }
    if !ends_with(name, suffix.as_str()) {
        return Err(
            DnsError::NotUnderRoot { txt_name: owned(txt_name), root_domain: owned(root_domain) },
        );
    }
    Ok(owned(trim_end_matches_str(name, suffix.as_str())))
}

/// The host record for a challenge of `domain`, falling back to the whole
/// name when it is outside the derived zone.
pub fn dns_rr_name(txt_name: &str, domain: &str) -> (r: String)
    ensures
        r@ == dns_rr_of(txt_name@, domain@),
{
    let root = derive_root_domain(domain);
    match rr_from_txt_name(txt_name, root.as_str()) {
        Ok(rr) => rr,
        Err(_) => owned(trim_end_matches_char(txt_name, '.')),
    }
}

} // verus!

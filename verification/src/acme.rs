//! ACME order sessions: the DNS-01 challenges of an order and how an
//! authorization's identifier becomes a challenge record.
use crate::dns::{dns_rr_name, dns_rr_of, DnsChallengeInfo};
use crate::text::{
    cat, contains_pat, contains_str, owned, replace, replace_str, strip_prefix, strip_prefix_str,
    trim, trim_end_char, trim_end_matches_char, trim_ws,
};
use vstd::prelude::*;

verus! {

/// A pending ACME order and the challenges that it asked for.
pub struct OrderSession {
    pub order_url: String,
    pub challenges: Vec<DnsChallengeInfo>,
}

/// The domain an identifier names: trimmed, without trailing dots, and
/// without a leading `*.`.
pub open spec fn clean_identifier(value: Seq<char>) -> Seq<char> {
    let base = trim_end_char(trim_ws(value), '.');
    match strip_prefix(base, "*."@) {
        Some(rest) => rest,
        None => base,
    }
}

/// What a stored challenge becomes once its names are normalized: the
/// domain loses its `*.`, a TXT name written for the wildcard label loses
/// that label, any other TXT name is rebuilt from the domain, and the host
/// record is derived again.
pub open spec fn normalized(c: DnsChallengeInfo, r: DnsChallengeInfo) -> bool {
    let domain = clean_identifier(c.domain@);
    let txt = if contains_pat(c.txt_name@, ".*."@) {
        replace(c.txt_name@, ".*."@, "."@)
    } else {
        "_acme-challenge."@ + domain
    };
    &&& r.domain@ == domain
    &&& r.txt_name@ == trim_end_char(txt, '.')
    &&& r.rr_name@ == dns_rr_of(trim_end_char(txt, '.'), domain)
    &&& r.txt_value@ == c.txt_value@
}

/// The domain an ACME identifier names, without its wildcard prefix.
pub fn clean_dns_identifier(value: &str) -> (r: String)
    ensures
        r@ == clean_identifier(value@),
{
    let base = trim_end_matches_char(trim(value), '.');
    match strip_prefix_str(base, "*.") {
        Some(rest) => owned(rest),
        None => owned(base),
    }
}

/// The challenge record for an authorization of `identifier` whose
/// key authorization digest is `txt_value`.
pub fn challenge_for_identifier(identifier: &str, txt_value: String) -> (r: DnsChallengeInfo)
    ensures
        r.domain@ == clean_identifier(identifier@),
        r.txt_name@ == "_acme-challenge."@ + clean_identifier(identifier@),
        r.rr_name@ == dns_rr_of(r.txt_name@, clean_identifier(identifier@)),
        r.txt_value@ == txt_value@,
{
    let base_domain = clean_dns_identifier(identifier);
    let txt_name = cat("_acme-challenge.", base_domain.as_str());
    let rr_name = dns_rr_name(txt_name.as_str(), base_domain.as_str());
    DnsChallengeInfo { domain: base_domain, txt_name, rr_name, txt_value }
}

/// One stored challenge with its names normalized.
pub fn normalize_challenge(c: &DnsChallengeInfo) -> (r: DnsChallengeInfo)
    ensures
        normalized(*c, r),
{
    let clean_domain = clean_dns_identifier(c.domain.as_str());
    let txt_name = if contains_str(c.txt_name.as_str(), ".*.") {
        proof {
            reveal_strlit(".*.");
        }
        replace_str(c.txt_name.as_str(), ".*.", ".")
    } else {
        cat("_acme-challenge.", clean_domain.as_str())
    };
    let txt_name = owned(trim_end_matches_char(txt_name.as_str(), '.'));
    let rr_name = dns_rr_name(txt_name.as_str(), clean_domain.as_str());
    DnsChallengeInfo {
        domain: clean_domain,
        txt_name,
        rr_name,
        txt_value: c.txt_value.clone(),
    }
}

/// Normalizes every challenge of a session that was saved by an older
/// version, which kept the wildcard label in its names.
pub fn normalize_session_challenges(session: &mut OrderSession)
    ensures
        final(session).order_url@ == old(session).order_url@,
        final(session).challenges@.len() == old(session).challenges@.len(),
        forall|i: int|
            0 <= i < old(session).challenges@.len() ==> normalized(
                #[trigger] old(session).challenges@[i],
                final(session).challenges@[i],
            ),
{
    let mut out: Vec<DnsChallengeInfo> = Vec::new();
    let mut i: usize = 0;
    while i < session.challenges.len()
        invariant
            i <= session.challenges@.len(),
            out@.len() == i,
            forall|k: int|
                0 <= k < i ==> normalized(#[trigger] session.challenges@[k], out@[k]),
        decreases session.challenges@.len() - i,
    {
        let c = normalize_challenge(&session.challenges[i]);
        out.push(c);
        i = i + 1;
    }
    session.challenges = out;
}

/// How an authorization of an order is treated when its challenges are
/// collected.
pub enum AuthorizationState {
    Pending,
    Valid,
    Other,
}

/// What collecting does with one authorization.
pub enum AuthorizationAction {
    /// Already valid: nothing to do.
    Skip,
    /// Pending: its DNS-01 challenge is wanted.
    UseDns01,
    /// Any other state stops the collection.
    Fail,
}

pub fn authorization_action(state: &AuthorizationState) -> (r: AuthorizationAction)
    ensures
        (*state is Valid) <==> (r is Skip),
        (*state is Pending) <==> (r is UseDns01),
        (*state is Other) <==> (r is Fail),
{
    match state {
        AuthorizationState::Valid => AuthorizationAction::Skip,
        AuthorizationState::Pending => AuthorizationAction::UseDns01,
        AuthorizationState::Other => AuthorizationAction::Fail,
    }
}

} // verus!

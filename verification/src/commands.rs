//! The edits the command line makes to the profile store, and the store a
//! missing profiles file starts from.
use crate::config::{
    default_app_settings, default_env_groups, default_monitor_config, default_profile,
    is_default_env_groups, is_default_profile, provider_kind_name, provider_kind_of,
    same_profile, ConfigError, DnsProviderKind, EnvGroupEntry, EnvironmentGroup, PathsConfig, Profile, Store,
};
use crate::json::{push_signed, signed_decimal};
use crate::smap::StrMap;
use crate::text::{blank, cat, is_blank, lower, owned, str_eq, to_ascii_lowercase, trim, trim_ws};
use vstd::prelude::*;

verus! {

/// The domain of the profile a missing profiles file starts with.
pub const EXAMPLE_DOMAIN: &'static str = "*.example.com";

/// The store written when there is no profiles file: one default profile
/// for `*.example.com`, which is current, the default groups, no legacy
/// vendor entries, and the default monitor and settings.
pub fn initial_store() -> (r: Store)
    ensures
        r.wf(),
        r.current_domain@ == "*.example.com"@,
        r.profiles.as_map().dom() == set!["*.example.com"@],
        is_default_profile(r.profiles.as_map()["*.example.com"@], "*.example.com"@),
        is_default_env_groups(r.env_groups),
        r.vendor_configs.as_map() == Map::<Seq<char>, Vec<crate::config::VendorEnvEntry>>::empty(),
        crate::config::default_monitor(r.monitor),
        crate::config::default_settings(r.app_settings),
{
    let profile = default_profile(EXAMPLE_DOMAIN);
    let current = profile.domain.clone();
    let mut profiles: StrMap<Profile> = StrMap::new();
    let ghost p = profile;
    profiles.insert(profile.domain.clone(), profile);
    let vendor_configs = StrMap::new();
    assert(profiles.as_map().dom() =~= set!["*.example.com"@]);
    assert(vendor_configs.as_map() =~= Map::<Seq<char>, Vec<crate::config::VendorEnvEntry>>::empty());
    Store {
        current_domain: current,
        env_groups: default_env_groups(),
        vendor_configs,
        profiles,
        monitor: default_monitor_config(),
        app_settings: default_app_settings(),
    }
}

/// Everything but the profiles and the current domain is as it was.
pub open spec fn same_but_profiles(a: Store, b: Store) -> bool {
    &&& a.env_groups == b.env_groups
    &&& a.vendor_configs == b.vendor_configs
    &&& a.monitor == b.monitor
    &&& a.app_settings == b.app_settings
}

/// Everything but the groups is as it was.
pub open spec fn same_but_groups(a: Store, b: Store) -> bool {
    &&& a.current_domain == b.current_domain
    &&& a.vendor_configs == b.vendor_configs
    &&& a.profiles == b.profiles
    &&& a.monitor == b.monitor
    &&& a.app_settings == b.app_settings
}

/// Adds a default profile for `domain` (replacing one already there) and
/// makes it current.
pub fn profile_add(store: &mut Store, domain: String)
    requires
        old(store).wf(),
    ensures
        final(store).wf(),
        same_but_profiles(*old(store), *final(store)),
        final(store).current_domain@ == domain@,
        final(store).profiles.as_map().dom() == old(store).profiles.as_map().dom().insert(domain@),
        is_default_profile(final(store).profiles.as_map()[domain@], domain@),
        forall|k: Seq<char>|
            k != domain@ && #[trigger] old(store).profiles.as_map().contains_key(k)
                ==> final(store).profiles.as_map()[k] == old(store).profiles.as_map()[k],
{
    let profile = default_profile(domain.as_str());
    store.current_domain = domain.clone();
    store.profiles.insert(domain, profile);
}

/// The first domain in key order, or the empty text.
pub open spec fn first_domain(m: StrMap<Profile>) -> Seq<char> {
    if m.keys().len() > 0 {
        m.keys()[0]
    } else {
        Seq::empty()
    }
}

fn first_domain_of(m: &StrMap<Profile>) -> (r: String)
    ensures
        r@ == first_domain(*m),
{
    if m.len() > 0 {
        crate::smap::key_copy(m.key_at(0))
    } else {
        String::new()
    }
}

/// Deletes the profile of `domain`, if any; when it was current, the first
/// remaining domain (or none) becomes current.
pub fn profile_delete(store: &mut Store, domain: &str)
    requires
        old(store).wf(),
    ensures
        final(store).wf(),
        same_but_profiles(*old(store), *final(store)),
        final(store).profiles.as_map() == old(store).profiles.as_map().remove(domain@),
        final(store).current_domain@ == (if old(store).current_domain@ == domain@ {
            first_domain(final(store).profiles)
        } else {
            old(store).current_domain@
        }),
{
    store.profiles.remove(domain);
    if str_eq(store.current_domain.as_str(), domain) {
        store.current_domain = first_domain_of(&store.profiles);
    }
}

/// The profile of `domain`, or of the current domain when none is named.
pub fn find_profile(store: &Store, domain: Option<String>) -> (r: Result<Profile, ConfigError>)
    requires
        store.wf(),
    ensures
        ({
            let key = match domain {
                Some(d) => d@,
                None => store.current_domain@,
            };
            match r {
                Ok(p) => store.profiles.as_map().contains_key(key) && same_profile(
                    store.profiles.as_map()[key],
                    p,
                ),
                Err(e) => {
                    &&& !store.profiles.as_map().contains_key(key)
                    &&& e matches ConfigError::ProfileNotFound { domain: d }
                    &&& d@ == key
                },
            }
        }),
{
    let key = match domain {
        Some(d) => d,
        None => store.current_domain.clone(),
    };
    match store.profiles.get(key.as_str()) {
        Some(p) => Ok(p.copy()),
        None => Err(ConfigError::ProfileNotFound { domain: key }),
    }
}

/// The changes `profile set` makes; `None` leaves a setting as it is. The
/// log size limit is the bits of an `f64`.
pub struct ProfileSetArgs {
    pub domain: String,
    pub new_domain: Option<String>,
    pub email: Option<String>,
    pub cert_file: Option<String>,
    pub key_file: Option<String>,
    pub days_before_expiry: Option<i64>,
    pub dns_provider: Option<String>,
    pub env_group: Option<String>,
    pub nginx_enabled: Option<bool>,
    pub nginx_restart_mode: Option<String>,
    pub nginx_exe: Option<String>,
    pub nginx_workdir: Option<String>,
    pub signer_pipe: Option<String>,
    pub log_file: Option<String>,
    pub max_log_size_mb_bits: Option<u64>,
}

pub open spec fn or_keep<T>(v: Option<T>, keep: T) -> T {
    match v {
        Some(x) => x,
        None => keep,
    }
}

/// The restart mode a given text selects: `reload`, or else `kill_start`.
pub open spec fn restart_mode_of(v: Seq<char>) -> Seq<char> {
    if lower(trim_ws(v)) == "reload"@ {
        "reload"@
    } else {
        "kill_start"@
    }
}

/// `r` is `p` with the changes of `a`: each given setting replaced; a
/// provider name is normalized, a blank group clears the group, and a
/// restart mode other than `reload` means `kill_start`.
pub open spec fn profile_after_set(p: Profile, a: ProfileSetArgs, r: Profile) -> bool {
    &&& r.domain == or_keep(a.new_domain, p.domain)
    &&& r.email == or_keep(a.email, p.email)
    &&& r.renew.days_before_expiry == or_keep(a.days_before_expiry, p.renew.days_before_expiry)
    &&& r.renew.force == p.renew.force
    &&& r.paths == PathsConfig {
        cert_file: or_keep(a.cert_file, p.paths.cert_file),
        key_file: or_keep(a.key_file, p.paths.key_file),
        log_file: or_keep(a.log_file, p.paths.log_file),
        max_log_size_mb_bits: or_keep(a.max_log_size_mb_bits, p.paths.max_log_size_mb_bits),
        ..p.paths
    }
    &&& match a.dns_provider {
        Some(v) => r.dns.provider@ == provider_kind_name(provider_kind_of(v@)),
        None => r.dns.provider == p.dns.provider,
    }
    &&& r.dns.env_group_id == (match a.env_group {
        Some(v) => if blank(v@) {
            None
        } else {
            Some(v)
        },
        None => p.dns.env_group_id,
    })
    &&& r.dns.propagation_timeout_seconds == p.dns.propagation_timeout_seconds
    &&& r.dns.propagation_interval_seconds == p.dns.propagation_interval_seconds
    &&& r.dns.resolvers == p.dns.resolvers
    &&& r.dns.aliyun == p.dns.aliyun
    &&& r.dns.cloudflare == p.dns.cloudflare
    &&& r.dns.signer.pipe_name == or_keep(a.signer_pipe, p.dns.signer.pipe_name)
    &&& r.nginx.enabled == or_keep(a.nginx_enabled, p.nginx.enabled)
    &&& match a.nginx_restart_mode {
        Some(v) => r.nginx.restart_mode@ == restart_mode_of(v@),
        None => r.nginx.restart_mode == p.nginx.restart_mode,
    }
    &&& r.nginx.exe_path == or_keep(a.nginx_exe, p.nginx.exe_path)
    &&& r.nginx.working_dir == or_keep(a.nginx_workdir, p.nginx.working_dir)
    &&& r.nginx.kill_image_name == p.nginx.kill_image_name
}

fn set_paths(
    paths: &mut PathsConfig,
    cert_file: Option<String>,
    key_file: Option<String>,
    log_file: Option<String>,
    max_bits: Option<u64>,
)
    ensures
        *final(paths) == (PathsConfig {
            cert_file: or_keep(cert_file, old(paths).cert_file),
            key_file: or_keep(key_file, old(paths).key_file),
            log_file: or_keep(log_file, old(paths).log_file),
            max_log_size_mb_bits: or_keep(max_bits, old(paths).max_log_size_mb_bits),
            ..*old(paths)
        }),
{
    if let Some(value) = cert_file {
        paths.cert_file = value;
    }
    if let Some(value) = key_file {
        paths.key_file = value;
    }
    if let Some(value) = log_file {
        paths.log_file = value;
    }
    if let Some(value) = max_bits {
        paths.max_log_size_mb_bits = value;
    }
}

fn set_nginx(
    nginx: &mut crate::config::NginxConfig,
    enabled: Option<bool>,
    restart_mode: Option<String>,
    exe: Option<String>,
    workdir: Option<String>,
)
    ensures
        final(nginx).enabled == or_keep(enabled, old(nginx).enabled),
        match restart_mode {
            Some(v) => final(nginx).restart_mode@ == restart_mode_of(v@),
            None => final(nginx).restart_mode == old(nginx).restart_mode,
        },
        final(nginx).exe_path == or_keep(exe, old(nginx).exe_path),
        final(nginx).working_dir == or_keep(workdir, old(nginx).working_dir),
        final(nginx).kill_image_name == old(nginx).kill_image_name,
{
    proof {
        reveal_strlit("reload");
    }
    if let Some(value) = enabled {
        nginx.enabled = value;
    }
    if let Some(value) = restart_mode {
        let v = to_ascii_lowercase(trim(value.as_str()));
        nginx.restart_mode = if str_eq(v.as_str(), "reload") {
            String::from_str("reload")
        } else {
            String::from_str("kill_start")
        };
    }
    if let Some(value) = exe {
        nginx.exe_path = value;
    }
    if let Some(value) = workdir {
        nginx.working_dir = value;
    }
}

fn set_dns(
    dns: &mut crate::config::DnsConfig,
    provider: Option<String>,
    env_group: Option<String>,
    signer_pipe: Option<String>,
)
    ensures
        match provider {
            Some(v) => final(dns).provider@ == provider_kind_name(provider_kind_of(v@)),
            None => final(dns).provider == old(dns).provider,
        },
        final(dns).env_group_id == (match env_group {
            Some(v) => if blank(v@) {
                None
            } else {
                Some(v)
            },
            None => old(dns).env_group_id,
        }),
        final(dns).propagation_timeout_seconds == old(dns).propagation_timeout_seconds,
        final(dns).propagation_interval_seconds == old(dns).propagation_interval_seconds,
        final(dns).resolvers == old(dns).resolvers,
        final(dns).aliyun == old(dns).aliyun,
        final(dns).cloudflare == old(dns).cloudflare,
        final(dns).signer.pipe_name == or_keep(signer_pipe, old(dns).signer.pipe_name),
{
    if let Some(value) = provider {
        dns.provider = owned(DnsProviderKind::from_value(value.as_str()).as_str());
    }
    if let Some(value) = env_group {
        dns.env_group_id = if is_blank(value.as_str()) {
            None
        } else {
            Some(value)
        };
    }
    if let Some(value) = signer_pipe {
        dns.signer.pipe_name = value;
    }
}

/// Applies the changes of `profile set` to a profile.
pub fn apply_profile_set(profile: &mut Profile, args: ProfileSetArgs)
    ensures
        profile_after_set(*old(profile), args, *final(profile)),
{
    let ghost a = args;
    let ProfileSetArgs {
        domain: _,
        new_domain,
        email,
        cert_file,
        key_file,
        days_before_expiry,
        dns_provider,
        env_group,
        nginx_enabled,
        nginx_restart_mode,
        nginx_exe,
        nginx_workdir,
        signer_pipe,
        log_file,
        max_log_size_mb_bits,
    } = args;
    if let Some(value) = new_domain {
        profile.domain = value;
    }
    if let Some(value) = email {
        profile.email = value;
    }
    if let Some(value) = days_before_expiry {
        profile.renew.days_before_expiry = value;
    }
    set_paths(&mut profile.paths, cert_file, key_file, log_file, max_log_size_mb_bits);
    set_dns(&mut profile.dns, dns_provider, env_group, signer_pipe);
    set_nginx(&mut profile.nginx, nginx_enabled, nginx_restart_mode, nginx_exe, nginx_workdir);
}

/// `profile set`: the profile of `args.domain` is taken out, changed and
/// put back under its (possibly new) domain, which stays current if the
/// old one was.
pub fn profile_set(store: &mut Store, args: ProfileSetArgs) -> (r: Result<(), ConfigError>)
    requires
        old(store).wf(),
    ensures
        final(store).wf(),
        same_but_profiles(*old(store), *final(store)),
        match r {
            Ok(()) => {
                let d = args.domain@;
                &&& old(store).profiles.as_map().contains_key(d)
                &&& exists|p: Profile|
                    #![trigger profile_after_set(old(store).profiles.as_map()[d], args, p)]
                    profile_after_set(old(store).profiles.as_map()[d], args, p)
                        && final(store).profiles.as_map() == old(store).profiles.as_map().remove(
                        d,
                    ).insert(p.domain@, p) && final(store).current_domain@ == (if old(store).current_domain@ == d {
                        p.domain@
                    } else {
                        old(store).current_domain@
                    })
            },
            Err(e) => {
                &&& !old(store).profiles.as_map().contains_key(args.domain@)
                &&& e matches ConfigError::ProfileNotFound { domain } && domain@ == args.domain@
                &&& *final(store) == *old(store)
            },
        },
{
    let ghost a = args;
    let old_domain = args.domain.clone();
    if !store.profiles.contains_key(old_domain.as_str()) {
        return Err(ConfigError::ProfileNotFound { domain: old_domain });
    }
    let mut profile = match store.profiles.remove(old_domain.as_str()) {
        Some(p) => p,
        None => {
            return Err(ConfigError::ProfileNotFound { domain: old_domain });
        },
    };
    let ghost before = profile;
    apply_profile_set(&mut profile, args);
    let ghost after = profile;
    let new_domain = profile.domain.clone();
    if str_eq(store.current_domain.as_str(), old_domain.as_str()) {
        store.current_domain = new_domain.clone();
    }
    store.profiles.insert(new_domain, profile);
    assert(profile_after_set(old(store).profiles.as_map()[a.domain@], a, after));
    Ok(())
}

/// Adds an empty group named `name` under `id`, or under
/// `env-group-<now_nanos>` when no id is given; an id in use is refused.
pub fn env_group_add(store: &mut Store, name: String, id: Option<String>, now_nanos: i64) -> (r: Result<
    (),
    ConfigError,
>)
    requires
        old(store).wf(),
    ensures
        final(store).wf(),
        same_but_groups(*old(store), *final(store)),
        ({
            let key = match id {
                Some(i) => i@,
                None => "env-group-"@ + signed_decimal(now_nanos as int),
            };
            match r {
                Ok(()) => !old(store).env_groups.as_map().contains_key(key)
                    && final(store).env_groups.as_map().dom() == old(store).env_groups.as_map().dom().insert(key) && final(store).env_groups.as_map()[key].name
                    == name && final(store).env_groups.as_map()[key].entries@.len() == 0 && forall|
                    k: Seq<char>,
                |
                    k != key && #[trigger] old(store).env_groups.as_map().contains_key(k)
                        ==> final(store).env_groups.as_map()[k] == old(store).env_groups.as_map()[k],
                Err(e) => {
                    &&& old(store).env_groups.as_map().contains_key(key)
                    &&& e matches ConfigError::GroupIdExists { id: i }
                    &&& i@ == key
                    &&& *final(store) == *old(store)
                },
            }
        }),
{
    let id = match id {
        Some(i) => i,
        None => {
            let mut s = String::from_str("env-group-");
            push_signed(&mut s, now_nanos);
            s
        },
    };
    if store.env_groups.contains_key(id.as_str()) {
        return Err(ConfigError::GroupIdExists { id });
    }
    store.env_groups.insert(id, EnvironmentGroup { name, entries: Vec::new() });
    Ok(())
}

/// The index of the first profile (in key order) that refers to group
/// `id`, or -1.
pub open spec fn first_referencing(m: StrMap<Profile>, id: Seq<char>, i: int) -> int
    decreases m.vals().len() - i,
{
    if i < 0 || i >= m.vals().len() {
        -1
    } else if m.vals()[i].dns.env_group_id matches Some(g) && g@ == id {
        i
    } else {
        first_referencing(m, id, i + 1)
    }
}

/// Renames group `id`.
pub fn env_group_rename(store: &mut Store, id: &str, name: String) -> (r: Result<(), ConfigError>)
    requires
        old(store).wf(),
    ensures
        final(store).wf(),
        same_but_groups(*old(store), *final(store)),
        match r {
            Ok(()) => old(store).env_groups.as_map().contains_key(id@) && final(store).env_groups.as_map() == old(store).env_groups.as_map().insert(
                id@,
                EnvironmentGroup {
                    name,
                    entries: old(store).env_groups.as_map()[id@].entries,
                },
            ),
            Err(e) => {
                &&& !old(store).env_groups.as_map().contains_key(id@)
                &&& e matches ConfigError::GroupNotFound { id: i }
                &&& i@ == id@
                &&& *final(store) == *old(store)
            },
        },
{
    match store.env_groups.find(id) {
        None => Err(ConfigError::GroupNotFound { id: owned(id) }),
        Some(i) => {
            proof {
                store.env_groups.lemma_lens();
            }
            let ghost g0 = store.env_groups;
            let placeholder = EnvironmentGroup { name: String::new(), entries: Vec::new() };
            let group = store.env_groups.replace_value_at(i, placeholder);
            let renamed = EnvironmentGroup { name, entries: group.entries };
            let ghost r = renamed;
            store.env_groups.set_value_at(i, renamed);
            proof {
                assert(store.env_groups.vals() =~= g0.vals().update(i as int, r));
                g0.lemma_update_value(store.env_groups, i as int, r);
                g0.lemma_index_of_key(id@, i as int);
            }
            Ok(())
        },
    }
}

/// Deletes group `id`, unless a profile refers to it (the first such
/// profile, in key order, is named) or it does not exist.
pub fn env_group_delete(store: &mut Store, id: &str) -> (r: Result<(), ConfigError>)
    requires
        old(store).wf(),
    ensures
        final(store).wf(),
        same_but_groups(*old(store), *final(store)),
        match r {
            Ok(()) => first_referencing(old(store).profiles, id@, 0) == -1
                && old(store).env_groups.as_map().contains_key(id@) && final(store).env_groups.as_map() == old(store).env_groups.as_map().remove(id@),
            Err(ConfigError::GroupReferenced { id: i, domain }) => {
                let k = first_referencing(old(store).profiles, id@, 0);
                &&& 0 <= k < old(store).profiles.vals().len()
                &&& i@ == id@
                &&& domain == old(store).profiles.vals()[k].domain
                &&& *final(store) == *old(store)
            },
            Err(ConfigError::GroupNotFound { id: i }) => first_referencing(
                old(store).profiles,
                id@,
                0,
            ) == -1 && !old(store).env_groups.as_map().contains_key(id@) && i@ == id@ && *final(store) == *old(store),
            Err(_) => false,
        },
{
    let mut i: usize = 0;
    proof {
        store.profiles.lemma_lens();
    }
    while i < store.profiles.len()
        invariant
            store.wf(),
            *store == *old(store),
            i <= store.profiles.vals().len(),
            store.profiles.keys().len() == store.profiles.vals().len(),
            first_referencing(store.profiles, id@, 0) == first_referencing(
                store.profiles,
                id@,
                i as int,
            ),
        decreases store.profiles.vals().len() - i,
    {
        let p = store.profiles.value_at(i);
        let hit = match &p.dns.env_group_id {
            Some(g) => str_eq(g.as_str(), id),
            None => false,
        };
        if hit {
            return Err(ConfigError::GroupReferenced { id: owned(id), domain: p.domain.clone() });
        }
        i = i + 1;
    }
    assert(first_referencing(store.profiles, id@, i as int) == -1);
    assert(first_referencing(old(store).profiles, id@, 0) == -1);
    match store.env_groups.remove(id) {
        Some(_) => Ok(()),
        None => Err(ConfigError::GroupNotFound { id: owned(id) }),
    }
}

/// Adds an (alias, variable name) entry at the end of group `group_id`.
pub fn env_group_add_entry(store: &mut Store, group_id: &str, alias: String, env_name: String) -> (r:
    Result<(), ConfigError>)
    requires
        old(store).wf(),
    ensures
        final(store).wf(),
        same_but_groups(*old(store), *final(store)),
        match r {
            Ok(()) => old(store).env_groups.as_map().contains_key(group_id@) && final(store).env_groups.as_map().dom() == old(store).env_groups.as_map().dom() && ({
                let g0 = old(store).env_groups.as_map()[group_id@];
                let g1 = final(store).env_groups.as_map()[group_id@];
                g1.name == g0.name && g1.entries@ == g0.entries@.push(
                    EnvGroupEntry { alias, env_name },
                )
            }) && forall|k: Seq<char>|
                k != group_id@ && #[trigger] old(store).env_groups.as_map().contains_key(k)
                    ==> final(store).env_groups.as_map()[k] == old(store).env_groups.as_map()[k],
            Err(e) => {
                &&& !old(store).env_groups.as_map().contains_key(group_id@)
                &&& e matches ConfigError::GroupNotFound { id: i }
                &&& i@ == group_id@
                &&& *final(store) == *old(store)
            },
        },
{
    match store.env_groups.find(group_id) {
        None => Err(ConfigError::GroupNotFound { id: owned(group_id) }),
        Some(i) => {
            proof {
                store.env_groups.lemma_lens();
            }
            let ghost g0 = store.env_groups;
            let placeholder = EnvironmentGroup { name: String::new(), entries: Vec::new() };
            let mut group = store.env_groups.replace_value_at(i, placeholder);
            group.entries.push(EnvGroupEntry { alias, env_name });
            let ghost r = group;
            store.env_groups.set_value_at(i, group);
            proof {
                assert(store.env_groups.vals() =~= g0.vals().update(i as int, r));
                g0.lemma_update_value(store.env_groups, i as int, r);
                g0.lemma_index_of_key(group_id@, i as int);
            }
            Ok(())
        },
    }
}

/// Removes every entry with `alias` from group `group_id`.
pub fn env_group_remove_entry(store: &mut Store, group_id: &str, alias: &str) -> (r: Result<
    (),
    ConfigError,
>)
    requires
        old(store).wf(),
    ensures
        final(store).wf(),
        same_but_groups(*old(store), *final(store)),
        match r {
            Ok(()) => old(store).env_groups.as_map().contains_key(group_id@) && final(store).env_groups.as_map().dom() == old(store).env_groups.as_map().dom() && ({
                let g0 = old(store).env_groups.as_map()[group_id@];
                let g1 = final(store).env_groups.as_map()[group_id@];
                g1.name == g0.name && g1.entries@ == g0.entries@.filter(
                    |e: EnvGroupEntry| e.alias@ != alias@,
                )
            }) && forall|k: Seq<char>|
                k != group_id@ && #[trigger] old(store).env_groups.as_map().contains_key(k)
                    ==> final(store).env_groups.as_map()[k] == old(store).env_groups.as_map()[k],
            Err(e) => {
                &&& !old(store).env_groups.as_map().contains_key(group_id@)
                &&& e matches ConfigError::GroupNotFound { id: i }
                &&& i@ == group_id@
                &&& *final(store) == *old(store)
            },
        },
{
    match store.env_groups.find(group_id) {
        None => Err(ConfigError::GroupNotFound { id: owned(group_id) }),
        Some(i) => {
            proof {
                store.env_groups.lemma_lens();
            }
            let ghost g0 = store.env_groups;
            let placeholder = EnvironmentGroup { name: String::new(), entries: Vec::new() };
            let group = store.env_groups.replace_value_at(i, placeholder);
            let ghost f = |e: EnvGroupEntry| e.alias@ != alias@;
            let ghost old_entries = group.entries@;
            let mut kept: Vec<EnvGroupEntry> = Vec::new();
            let mut entries = group.entries;
            let mut j: usize = 0;
            while j < entries.len()
                invariant
                    j <= entries@.len(),
                    entries@ == old_entries,
                    f == (|e: EnvGroupEntry| e.alias@ != alias@),
                    kept@ == old_entries.take(j as int).filter(f),
                decreases entries@.len() - j,
            {
                proof {
                    assert(old_entries.take(j + 1) =~= old_entries.take(j as int).push(
                        old_entries[j as int],
                    ));
                    old_entries.take(j as int).lemma_filter_push(old_entries[j as int], f);
                }
                if !str_eq(entries[j].alias.as_str(), alias) {
                    let e = EnvGroupEntry {
                        alias: entries[j].alias.clone(),
                        env_name: entries[j].env_name.clone(),
                    };
                    kept.push(e);
                }
                j = j + 1;
            }
            assert(old_entries.take(old_entries.len() as int) =~= old_entries);
            let r = EnvironmentGroup { name: group.name, entries: kept };
            let ghost rv = r;
            store.env_groups.set_value_at(i, r);
            proof {
                assert(store.env_groups.vals() =~= g0.vals().update(i as int, rv));
                g0.lemma_update_value(store.env_groups, i as int, rv);
                g0.lemma_index_of_key(group_id@, i as int);
            }
            Ok(())
        },
    }
}

/// When no profile from position `i` on refers to group `id`, none of
/// them does: so a group is deleted only while no profile refers to it.
pub proof fn lemma_no_reference(m: StrMap<Profile>, id: Seq<char>, i: int)
    requires
        0 <= i,
        first_referencing(m, id, i) == -1,
    ensures
        forall|j: int|
            i <= j < m.vals().len() ==> !(#[trigger] m.vals()[j].dns.env_group_id matches Some(g)
                && g@ == id),
    decreases m.vals().len() - i,
{
    if i < m.vals().len() {
        lemma_no_reference(m, id, i + 1);
    }
}

} // verus!

//! Provider registry: an immutable, deduplicated collection of provider
//! configurations, validated once at startup and read-only thereafter.

use vstd::prelude::*;

use crate::models::AuthProvider;
use crate::models::CodeChallengeMethod;
use crate::models::Endpoints;
use crate::trusted::uri_parses;
use crate::trusted::uri_well_formed;
use crate::util::str_eq;
use crate::ConfigError;

verus! {

/// No two providers share an id.
pub open spec fn distinct_ids(ps: Seq<AuthProvider>) -> bool {
    forall|i: int, j: int| 0 <= i < j < ps.len() ==> ps[i].id@ != ps[j].id@
}

/// Every URI the provider configures parses.
pub open spec fn provider_uris_ok(p: AuthProvider) -> bool {
    &&& uri_well_formed(p.issuer@)
    &&& match p.icon {
        Some(ic) => uri_well_formed(ic@),
        None => true,
    }
    &&& match p.endpoints {
        Endpoints::Manual { authorization, token, userinfo } => uri_well_formed(authorization@)
            && uri_well_formed(token@) && uri_well_formed(userinfo@),
        Endpoints::Discoverable => true,
    }
}

/// Discoverable endpoints need a resolver.
pub open spec fn provider_discovery_ok(p: AuthProvider, discovery_available: bool) -> bool {
    p.endpoints is Manual || discovery_available
}

/// A provider announcing `Plain` must also announce `S256`: this crate only
/// generates S256 challenges and refuses to downgrade to unhashed ones.
pub open spec fn provider_challenge_ok(p: AuthProvider) -> bool {
    p.code_challenge_methods@.contains(CodeChallengeMethod::Plain)
        ==> p.code_challenge_methods@.contains(CodeChallengeMethod::S256)
}

/// Everything `load` checks, over the whole configuration.
pub open spec fn config_ok(ps: Seq<AuthProvider>, discovery_available: bool) -> bool {
    &&& distinct_ids(ps)
    &&& forall|i: int| 0 <= i < ps.len() ==> provider_uris_ok(#[trigger] ps[i])
    &&& forall|i: int|
        0 <= i < ps.len() ==> provider_discovery_ok(#[trigger] ps[i], discovery_available)
    &&& forall|i: int| 0 <= i < ps.len() ==> provider_challenge_ok(#[trigger] ps[i])
}

fn provider_uris_ok_exec(p: &AuthProvider) -> (r: bool)
    ensures
        r == provider_uris_ok(*p),
{
    if !uri_parses(p.issuer.as_str()) {
        return false;
    }
    match &p.icon {
        Some(ic) => {
            if !uri_parses(ic.as_str()) {
                return false;
            }
        },
        None => {},
    }
    match &p.endpoints {
        Endpoints::Manual { authorization, token, userinfo } => {
            uri_parses(authorization.as_str()) && uri_parses(token.as_str()) && uri_parses(
                userinfo.as_str(),
            )
        },
        Endpoints::Discoverable => true,
    }
}

fn contains_method(v: &Vec<CodeChallengeMethod>, m: CodeChallengeMethod) -> (r: bool)
    ensures
        r == v@.contains(m),
{
    let mut i: usize = 0;
    while i < v.len()
        invariant
            i <= v@.len(),
            forall|j: int| 0 <= j < i ==> v@[j] != m,
        decreases v@.len() - i,
    {
        if v[i] == m {
            return true;
        }
        i = i + 1;
    }
    false
}

/// The loaded, validated provider collection.
pub struct Registry {
    providers: Vec<AuthProvider>,
}

impl View for Registry {
    type V = Seq<AuthProvider>;

    closed spec fn view(&self) -> Seq<AuthProvider> {
        self.providers@
    }
}

impl Registry {
    /// A loaded registry always satisfies everything `load` checked.
    pub open spec fn wf(&self) -> bool {
        distinct_ids(self@)
    }

    /// Validate a configuration and freeze it into a registry.
    ///
    /// Fails with `DuplicateId` on a repeated provider id (never a silent
    /// overwrite), `Malformed` on an unparsable URI, `UnsupportedDiscovery`
    /// on a `Discoverable` provider without a resolver, and
    /// `UnsupportedChallengeMethod` on a provider that offers `Plain`
    /// without `S256`. Succeeds exactly when none of these hold.
    pub fn load(configs: Vec<AuthProvider>, discovery_available: bool) -> (r: Result<
        Registry,
        ConfigError,
    >)
        ensures
            r is Ok <==> config_ok(configs@, discovery_available),
            match r {
                Ok(reg) => reg@ == configs@ && reg.wf(),
                Err(e) => match e {
                    ConfigError::DuplicateId => !distinct_ids(configs@),
                    ConfigError::Malformed => exists|i: int|
                        0 <= i < configs@.len() && !provider_uris_ok(#[trigger] configs@[i]),
                    ConfigError::UnsupportedDiscovery => exists|i: int|
                        0 <= i < configs@.len() && !provider_discovery_ok(
                            #[trigger] configs@[i],
                            discovery_available,
                        ),
                    ConfigError::UnsupportedChallengeMethod => exists|i: int|
                        0 <= i < configs@.len() && !provider_challenge_ok(#[trigger] configs@[i]),
                },
            },
    {
        let n = configs.len();
        let mut i: usize = 0;
        while i < n
            invariant
                n == configs@.len(),
                i <= n,
                forall|k: int| 0 <= k < i ==> provider_uris_ok(#[trigger] configs@[k]),
                forall|k: int|
                    0 <= k < i ==> provider_discovery_ok(#[trigger] configs@[k], discovery_available),
                forall|k: int| 0 <= k < i ==> provider_challenge_ok(#[trigger] configs@[k]),
                forall|k: int, l: int| 0 <= k < l < i ==> configs@[k].id@ != configs@[l].id@,
            decreases n - i,
        {
            let p = &configs[i];
            if !provider_uris_ok_exec(p) {
                return Err(ConfigError::Malformed);
            }
            match &p.endpoints {
                Endpoints::Discoverable => {
                    if !discovery_available {
                        return Err(ConfigError::UnsupportedDiscovery);
                    }
                },
                Endpoints::Manual { .. } => {},
            }
            if contains_method(&p.code_challenge_methods, CodeChallengeMethod::Plain)
                && !contains_method(&p.code_challenge_methods, CodeChallengeMethod::S256) {
                return Err(ConfigError::UnsupportedChallengeMethod);
            }
            let mut j: usize = 0;
            while j < i
                invariant
                    n == configs@.len(),
                    i < n,
                    j <= i,
                    forall|k: int| 0 <= k < j ==> configs@[k].id@ != configs@[i as int].id@,
                decreases i - j,
            {
                if str_eq(configs[j].id.as_str(), configs[i].id.as_str()) {
                    return Err(ConfigError::DuplicateId);
                }
                j = j + 1;
            }
            i = i + 1;
        }
        Ok(Registry { providers: configs })
    }

    /// Find the provider with the given id, if any is configured.
    ///
    /// Never allocates and never blocks; the registry is read-only.
    pub fn lookup(&self, id: &str) -> (r: Option<&AuthProvider>)
        ensures
            match r {
                Some(p) => p.id@ == id@ && exists|i: int|
                    0 <= i < self@.len() && self@[i] == *p,
                None => forall|i: int| 0 <= i < self@.len() ==> self@[i].id@ != id@,
            },
    {
        let mut i: usize = 0;
        while i < self.providers.len()
            invariant
                i <= self@.len(),
                forall|k: int| 0 <= k < i ==> self@[k].id@ != id@,
            decreases self@.len() - i,
        {
            if str_eq(self.providers[i].id.as_str(), id) {
                return Some(&self.providers[i]);
            }
            i = i + 1;
        }
        None
    }

    /// The providers, in configuration order.
    pub fn providers(&self) -> (r: &Vec<AuthProvider>)
        ensures
            r@ == self@,
    {
        &self.providers
    }
}

} // verus!

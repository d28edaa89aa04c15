use vstd::prelude::*;
use crate::assoc::{distinct_keys, find_pair_index, has_key, lemma_key_index_unique, lookup};
use crate::errors::PolicyError;

verus! {

/// Per-host transport overrides: whether plain or self-signed connections
/// are tolerated, and a custom certificate authority to trust.
#[derive(Debug)]
pub struct HostOptions {
    pub insecure: bool,
    pub custom_ca: Option<Vec<u8>>,
}

/// Mathematical shape of a `HostOptions`.
#[verifier::ext_equal]
pub struct HostOptionsModel {
    pub insecure: bool,
    pub custom_ca: Option<Seq<u8>>,
}

impl View for HostOptions {
    type V = HostOptionsModel;

    open spec fn view(&self) -> HostOptionsModel {
        HostOptionsModel {
            insecure: self.insecure,
            custom_ca: match self.custom_ca {
                Some(ref ca) => Some(ca@),
                None => None,
            },
        }
    }
}

/// A registry credential for one host.
#[derive(Debug)]
pub struct RegistryCredential {
    pub username: String,
    pub password: String,
}

/// Mathematical shape of a `RegistryCredential`.
#[verifier::ext_equal]
pub struct CredentialModel {
    pub username: Seq<char>,
    pub password: Seq<char>,
}

impl View for RegistryCredential {
    type V = CredentialModel;

    open spec fn view(&self) -> CredentialModel {
        CredentialModel { username: self.username@, password: self.password@ }
    }
}

/// Mathematical shape of a `SourceConfig`.
#[verifier::ext_equal]
pub struct SourceConfigModel {
    pub hosts: Seq<(Seq<char>, HostOptionsModel)>,
    pub credentials: Seq<(Seq<char>, CredentialModel)>,
}

/// Each host appears at most once in either table.
pub open spec fn source_config_wf(c: SourceConfigModel) -> bool {
    distinct_keys(c.hosts) && distinct_keys(c.credentials)
}

/// Per-host trust and authentication overrides, loaded once per invocation
/// and read-only afterwards.
pub struct SourceConfig {
    hosts: Vec<(String, HostOptions)>,
    credentials: Vec<(String, RegistryCredential)>,
}

pub open spec fn hosts_view(v: Seq<(String, HostOptions)>) -> Seq<(Seq<char>, HostOptionsModel)> {
    v.map_values(|p: (String, HostOptions)| (p.0@, p.1@))
}

pub open spec fn credentials_view(v: Seq<(String, RegistryCredential)>) -> Seq<
    (Seq<char>, CredentialModel),
> {
    v.map_values(|p: (String, RegistryCredential)| (p.0@, p.1@))
}

impl View for SourceConfig {
    type V = SourceConfigModel;

    closed spec fn view(&self) -> SourceConfigModel {
        SourceConfigModel {
            hosts: hosts_view(self.hosts@),
            credentials: credentials_view(self.credentials@),
        }
    }
}

impl SourceConfig {
    /// A configuration with no overrides at all.
    pub fn empty() -> (c: SourceConfig)
        ensures
            c@.hosts.len() == 0,
            c@.credentials.len() == 0,
            source_config_wf(c@),
    {
        let c = SourceConfig { hosts: Vec::new(), credentials: Vec::new() };
        proof {
            assert(c@.hosts =~= Seq::<(Seq<char>, HostOptionsModel)>::empty());
            assert(c@.credentials =~= Seq::<(Seq<char>, CredentialModel)>::empty());
        }
        c
    }

    /// Builds the configuration from the parsed sources and credentials
    /// files, checking that no host is configured twice; a repeated host is
    /// a malformed file, reported as an input failure.
    pub fn from_entries(
        hosts: Vec<(String, HostOptions)>,
        credentials: Vec<(String, RegistryCredential)>,
    ) -> (r: Result<SourceConfig, PolicyError>)
        ensures
            match r {
                Ok(c) => c@ == (SourceConfigModel {
                    hosts: hosts_view(hosts@),
                    credentials: credentials_view(credentials@),
                }) && source_config_wf(c@),
                Err(e) => !source_config_wf(
                    SourceConfigModel {
                        hosts: hosts_view(hosts@),
                        credentials: credentials_view(credentials@),
                    },
                ) && e matches PolicyError::IoError,
            },
    {
        let ghost hv = hosts_view(hosts@);
        let ghost cv = credentials_view(credentials@);
        let n = hosts.len();
        let mut i: usize = 0;
        while i < n
            invariant
                i <= n,
                n == hosts@.len(),
                hv == hosts_view(hosts@),
                forall|a: int, b: int| 0 <= a < b < i ==> hv[a].0 != hv[b].0,
            decreases n - i,
        {
            let mut j: usize = 0;
            while j < i
                invariant
                    j <= i < n,
                    n == hosts@.len(),
                    hv == hosts_view(hosts@),
                    forall|a: int| 0 <= a < j ==> hv[a].0 != hv[i as int].0,
                decreases i - j,
            {
                proof {
                    assert(hv[j as int].0 == hosts@[j as int].0@);
                    assert(hv[i as int].0 == hosts@[i as int].0@);
                }
                if hosts[j].0 == hosts[i].0 {
                    proof {
                        assert(!distinct_keys(hv));
                    }
                    return Err(PolicyError::IoError);
                }
                j += 1;
            }
            i += 1;
        }
        let m = credentials.len();
        let mut a: usize = 0;
        while a < m
            invariant
                a <= m,
                m == credentials@.len(),
                cv == credentials_view(credentials@),
                forall|x: int, y: int| 0 <= x < y < a ==> cv[x].0 != cv[y].0,
            decreases m - a,
        {
            let mut b: usize = 0;
            while b < a
                invariant
                    b <= a < m,
                    m == credentials@.len(),
                    cv == credentials_view(credentials@),
                    forall|x: int| 0 <= x < b ==> cv[x].0 != cv[a as int].0,
                decreases a - b,
            {
                proof {
                    assert(cv[b as int].0 == credentials@[b as int].0@);
                    assert(cv[a as int].0 == credentials@[a as int].0@);
                }
                if credentials[b].0 == credentials[a].0 {
                    proof {
                        assert(!distinct_keys(cv));
                    }
                    return Err(PolicyError::IoError);
                }
                b += 1;
            }
            a += 1;
        }
        let c = SourceConfig { hosts, credentials };
        proof {
            assert(c@ =~~= SourceConfigModel { hosts: hv, credentials: cv });
        }
        Ok(c)
    }

    /// Whether connections to `host` may skip transport security.  A host
    /// with no entry is secure.
    pub fn is_insecure(&self, host: &String) -> (r: bool)
        requires
            source_config_wf(self@),
        ensures
            r == if has_key(self@.hosts, host@) {
                lookup(self@.hosts, host@).insecure
            } else {
                false
            },
    {
        match find_pair_index(&self.hosts, host) {
            Some(i) => {
                proof {
                    lemma_key_index_unique(self@.hosts, host@, i as int);
                }
                self.hosts[i].1.insecure
            },
            None => {
                proof {
                    assert forall|j: int| 0 <= j < self@.hosts.len() implies self@.hosts[j].0
                        != host@ by {
                        assert(self@.hosts[j].0 == self.hosts@[j].0@);
                    }
                }
                false
            },
        }
    }

    /// The custom certificate authority configured for `host`, if any.
    pub fn custom_ca_for(&self, host: &String) -> (r: Option<&Vec<u8>>)
        requires
            source_config_wf(self@),
        ensures
            match r {
                Some(ca) => has_key(self@.hosts, host@) && lookup(self@.hosts, host@).custom_ca
                    == Some(ca@),
                None => !has_key(self@.hosts, host@) || lookup(
                    self@.hosts,
                    host@,
                ).custom_ca is None,
            },
    {
        match find_pair_index(&self.hosts, host) {
            Some(i) => {
                proof {
                    lemma_key_index_unique(self@.hosts, host@, i as int);
                }
                match &self.hosts[i].1.custom_ca {
                    Some(ca) => Some(ca),
                    None => None,
                }
            },
            None => {
                proof {
                    assert forall|j: int| 0 <= j < self@.hosts.len() implies self@.hosts[j].0
                        != host@ by {
                        assert(self@.hosts[j].0 == self.hosts@[j].0@);
                    }
                }
                None
            },
        }
    }

    /// The registry credential configured for `host`, if any.
    pub fn credentials_for(&self, host: &String) -> (r: Option<&RegistryCredential>)
        requires
            source_config_wf(self@),
        ensures
            match r {
                Some(c) => has_key(self@.credentials, host@) && c@ == lookup(
                    self@.credentials,
                    host@,
                ),
                None => !has_key(self@.credentials, host@),
            },
    {
        match find_pair_index(&self.credentials, host) {
            Some(i) => {
                proof {
                    lemma_key_index_unique(self@.credentials, host@, i as int);
                }
                Some(&self.credentials[i].1)
            },
            None => {
                proof {
                    assert forall|j: int|
                        0 <= j < self@.credentials.len() implies self@.credentials[j].0 != host@ by {
                        assert(self@.credentials[j].0 == self.credentials@[j].0@);
                    }
                }
                None
            },
        }
    }
}

} // verus!

use vstd::prelude::*;
use crate::assoc::str_views;
use crate::errors::PolicyError;
use crate::policy::{opt_view, pair_views, KeylessModel, PolicyModel, VerificationPolicy};

verus! {

/// What the cryptographic collaborator established about one certificate
/// carried by the artifact: which trusted root issued it, the identity
/// claims it binds, and whether the signing event was found in the
/// transparency log under the supplied log key.
#[derive(Debug)]
pub struct CertificateClaim {
    pub issuer_root: String,
    pub email: Option<String>,
    pub oidc_issuer: Option<String>,
    pub github_owner: Option<String>,
    pub github_repo: Option<String>,
    pub logged: bool,
}

/// Mathematical shape of a `CertificateClaim`.
#[verifier::ext_equal]
pub struct CertificateModel {
    pub issuer_root: Seq<char>,
    pub email: Option<Seq<char>>,
    pub oidc_issuer: Option<Seq<char>>,
    pub github_owner: Option<Seq<char>>,
    pub github_repo: Option<Seq<char>>,
    pub logged: bool,
}

impl View for CertificateClaim {
    type V = CertificateModel;

    open spec fn view(&self) -> CertificateModel {
        CertificateModel {
            issuer_root: self.issuer_root@,
            email: opt_view(self.email),
            oidc_issuer: opt_view(self.oidc_issuer),
            github_owner: opt_view(self.github_owner),
            github_repo: opt_view(self.github_repo),
            logged: self.logged,
        }
    }
}

/// What the cryptographic collaborator established about the artifact: the
/// keys whose signatures checked out, the certificates it carries, and the
/// annotations signed with it.
#[derive(Debug)]
pub struct ArtifactEvidence {
    pub signer_keys: Vec<String>,
    pub certificates: Vec<CertificateClaim>,
    pub annotations: Vec<(String, String)>,
}

/// Mathematical shape of an `ArtifactEvidence`.
#[verifier::ext_equal]
pub struct EvidenceModel {
    pub signer_keys: Seq<Seq<char>>,
    pub certificates: Seq<CertificateModel>,
    pub annotations: Seq<(Seq<char>, Seq<char>)>,
}

impl View for ArtifactEvidence {
    type V = EvidenceModel;

    open spec fn view(&self) -> EvidenceModel {
        EvidenceModel {
            signer_keys: str_views(self.signer_keys@),
            certificates: self.certificates@.map_values(|c: CertificateClaim| c@),
            annotations: pair_views(self.annotations@),
        }
    }
}

/// An expected claim matches when it is unconstrained or the artifact binds
/// exactly that value.
pub open spec fn claim_matches(expected: Option<Seq<char>>, actual: Option<Seq<char>>) -> bool {
    match expected {
        None => true,
        Some(v) => actual == Some(v),
    }
}

/// One certificate satisfies the keyless predicate: issued by one of the
/// trusted roots, binding every expected claim, and corroborated by the
/// transparency log when a log key was supplied.
pub open spec fn cert_matches(k: KeylessModel, c: CertificateModel) -> bool {
    &&& k.fulcio_roots.contains(c.issuer_root)
    &&& claim_matches(k.expected_email, c.email)
    &&& claim_matches(k.expected_oidc_issuer, c.oidc_issuer)
    &&& claim_matches(k.expected_github_owner, c.github_owner)
    &&& claim_matches(k.expected_github_repo, c.github_repo)
    &&& (k.rekor_key is Some ==> c.logged)
}

/// The key group: no key predicate, or at least one of the alternative keys
/// signed the artifact.
pub open spec fn key_group_ok(p: PolicyModel, e: EvidenceModel) -> bool {
    p.keys.len() == 0 || exists|i: int|
        0 <= i < p.keys.len() && e.signer_keys.contains(#[trigger] p.keys[i])
}

/// The keyless group: no keyless predicate, or at least one carried
/// certificate matches it.
pub open spec fn keyless_group_ok(p: PolicyModel, e: EvidenceModel) -> bool {
    match p.keyless {
        None => true,
        Some(k) => exists|i: int|
            0 <= i < e.certificates.len() && cert_matches(k, #[trigger] e.certificates[i]),
    }
}

/// The annotation group: every required annotation is carried, key and
/// value.
pub open spec fn annotations_ok(p: PolicyModel, e: EvidenceModel) -> bool {
    forall|i: int|
        0 <= i < p.annotations.len() ==> e.annotations.contains(#[trigger] p.annotations[i])
}

/// The whole policy: every declared predicate kind independently satisfied,
/// alternatives within a kind counting as one.
pub open spec fn policy_satisfied(p: PolicyModel, e: EvidenceModel) -> bool {
    key_group_ok(p, e) && keyless_group_ok(p, e) && annotations_ok(p, e)
}

/// With at least one key predicate and no signature matching any of the
/// alternative keys, verification fails, whatever the other groups say.
pub proof fn lemma_unmatched_keys_fail(p: PolicyModel, e: EvidenceModel)
    requires
        p.keys.len() > 0,
        forall|i: int| 0 <= i < p.keys.len() ==> !e.signer_keys.contains(#[trigger] p.keys[i]),
    ensures
        !policy_satisfied(p, e),
{
}

/// One matching signature among the key alternatives suffices for the key
/// group; with the other groups independently satisfied, the policy holds.
pub proof fn lemma_one_key_suffices(p: PolicyModel, e: EvidenceModel, i: int)
    requires
        0 <= i < p.keys.len(),
        e.signer_keys.contains(p.keys[i]),
        keyless_group_ok(p, e),
        annotations_ok(p, e),
    ensures
        policy_satisfied(p, e),
{
}

/// True when `v` holds a string whose view is `s@`.
fn contains_string(v: &Vec<String>, s: &String) -> (r: bool)
    ensures
        r == str_views(v@).contains(s@),
{
    let n = v.len();
    let mut i: usize = 0;
    while i < n
        invariant
            i <= n,
            n == v@.len(),
            forall|j: int| 0 <= j < i ==> str_views(v@)[j] != s@,
        decreases n - i,
    {
        proof {
            assert(str_views(v@)[i as int] == v@[i as int]@);
        }
        if v[i] == *s {
            proof {
                assert(str_views(v@).contains(s@));
            }
            return true;
        }
        i += 1;
    }
    proof {
        assert(!str_views(v@).contains(s@));
    }
    false
}

/// True when the expected claim is unconstrained or bound to exactly the
/// actual value.
fn claim_check(expected: &Option<String>, actual: &Option<String>) -> (r: bool)
    ensures
        r == claim_matches(opt_view(*expected), opt_view(*actual)),
{
    match expected {
        None => {
            proof {
                assert(opt_view(*expected) is None);
            }
            true
        },
        Some(v) => {
            proof {
                assert(opt_view(*expected) == Some(v@));
            }
            match actual {
                Some(w) => {
                    proof {
                        assert(opt_view(*actual) == Some(w@));
                    }
                    *v == *w
                },
                None => {
                    proof {
                        assert(opt_view(*actual) is None);
                    }
                    false
                },
            }
        },
    }
}

/// Evaluates a trust policy against the collaborator-established evidence,
/// by the and-of-ors rule: at least one key of the key group, at least one
/// matching certificate for the keyless group, every annotation present.
pub fn verify(policy: &VerificationPolicy, evidence: &ArtifactEvidence) -> (r: Result<
    (),
    PolicyError,
>)
    ensures
        r is Ok <==> policy_satisfied(policy@, evidence@),
        r is Err ==> r matches Err(PolicyError::VerificationFailed),
{
    // key group
    let kn = policy.keys.len();
    let mut key_ok = kn == 0;
    let mut i: usize = 0;
    while i < kn
        invariant
            i <= kn,
            kn == policy.keys@.len(),
            key_ok == (kn == 0 || exists|j: int|
                0 <= j < i && evidence@.signer_keys.contains(#[trigger] policy@.keys[j])),
        decreases kn - i,
    {
        proof {
            assert(policy@.keys[i as int] == policy.keys@[i as int]@);
        }
        if contains_string(&evidence.signer_keys, &policy.keys[i]) {
            key_ok = true;
            proof {
                assert(evidence@.signer_keys.contains(policy@.keys[i as int]));
            }
        }
        i += 1;
    }
    if !key_ok {
        proof {
            assert(!key_group_ok(policy@, evidence@));
        }
        return Err(PolicyError::VerificationFailed);
    }
    proof {
        assert(key_group_ok(policy@, evidence@));
    }
    // keyless group
    match &policy.keyless {
        None => {
            proof {
                assert(keyless_group_ok(policy@, evidence@));
            }
        },
        Some(k) => {
            let ghost km = k@;
            let cn = evidence.certificates.len();
            let mut cert_ok = false;
            let mut c: usize = 0;
            while c < cn
                invariant
                    c <= cn,
                    cn == evidence.certificates@.len(),
                    km == k@,
                    policy@.keyless == Some(km),
                    cert_ok == exists|j: int|
                        0 <= j < c && cert_matches(km, #[trigger] evidence@.certificates[j]),
                decreases cn - c,
            {
                let cert: &CertificateClaim = &evidence.certificates[c];
                proof {
                    assert(evidence@.certificates[c as int] == cert@);
                }
                let m = contains_string(&k.fulcio_roots, &cert.issuer_root) && claim_check(
                    &k.expected_email,
                    &cert.email,
                ) && claim_check(&k.expected_oidc_issuer, &cert.oidc_issuer) && claim_check(
                    &k.expected_github_owner,
                    &cert.github_owner,
                ) && claim_check(&k.expected_github_repo, &cert.github_repo) && (
                k.rekor_key.is_none() || cert.logged);
                proof {
                    assert(m == cert_matches(km, evidence@.certificates[c as int]));
                }
                if m {
                    cert_ok = true;
                }
                c += 1;
            }
            if !cert_ok {
                proof {
                    assert(!keyless_group_ok(policy@, evidence@));
                }
                return Err(PolicyError::VerificationFailed);
            }
        },
    }
    proof {
        assert(keyless_group_ok(policy@, evidence@));
    }
    // annotation group
    let an = policy.annotations.len();
    let mut a: usize = 0;
    while a < an
        invariant
            a <= an,
            an == policy.annotations@.len(),
            key_group_ok(policy@, evidence@),
            keyless_group_ok(policy@, evidence@),
            forall|j: int|
                0 <= j < a ==> evidence@.annotations.contains(#[trigger] policy@.annotations[j]),
        decreases an - a,
    {
        let want: &(String, String) = &policy.annotations[a];
        let en = evidence.annotations.len();
        let mut found = false;
        let mut e: usize = 0;
        while e < en
            invariant
                e <= en,
                en == evidence.annotations@.len(),
                a < an,
                an == policy.annotations@.len(),
                want == &policy.annotations@[a as int],
                found == exists|j: int|
                    0 <= j < e && evidence@.annotations[j] == policy@.annotations[a as int],
            decreases en - e,
        {
            let have: &(String, String) = &evidence.annotations[e];
            proof {
                assert(evidence@.annotations[e as int] == (have.0@, have.1@));
                assert(policy@.annotations[a as int] == (want.0@, want.1@));
            }
            if have.0 == want.0 && have.1 == want.1 {
                found = true;
            }
            e += 1;
        }
        if !found {
            proof {
                assert forall|j: int|
                    0 <= j < evidence@.annotations.len() implies evidence@.annotations[j]
                    != policy@.annotations[a as int] by {}
                assert(!evidence@.annotations.contains(policy@.annotations[a as int]));
                assert(!annotations_ok(policy@, evidence@));
            }
            return Err(PolicyError::VerificationFailed);
        }
        proof {
            assert(evidence@.annotations.contains(policy@.annotations[a as int]));
        }
        a += 1;
    }
    proof {
        assert(annotations_ok(policy@, evidence@));
    }
    Ok(())
}

} // verus!

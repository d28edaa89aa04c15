use vstd::prelude::*;
use crate::assoc::str_views;
use crate::errors::PolicyError;

verus! {

/// The keyless-identity predicate: the artifact must carry a short-lived
/// certificate issued by one of the trusted roots, binding the expected
/// identity claims; with a transparency-log key supplied, the signing event
/// must also appear in the log.
#[derive(Debug)]
pub struct KeylessIdentity {
    pub fulcio_roots: Vec<String>,
    pub rekor_key: Option<String>,
    pub expected_email: Option<String>,
    pub expected_oidc_issuer: Option<String>,
    pub expected_github_owner: Option<String>,
    pub expected_github_repo: Option<String>,
}

/// Mathematical shape of a `KeylessIdentity`.
#[verifier::ext_equal]
pub struct KeylessModel {
    pub fulcio_roots: Seq<Seq<char>>,
    pub rekor_key: Option<Seq<char>>,
    pub expected_email: Option<Seq<char>>,
    pub expected_oidc_issuer: Option<Seq<char>>,
    pub expected_github_owner: Option<Seq<char>>,
    pub expected_github_repo: Option<Seq<char>>,
}

/// The view of an optional string.
pub open spec fn opt_view(o: Option<String>) -> Option<Seq<char>> {
    match o {
        Some(s) => Some(s@),
        None => None,
    }
}

impl View for KeylessIdentity {
    type V = KeylessModel;

    open spec fn view(&self) -> KeylessModel {
        KeylessModel {
            fulcio_roots: str_views(self.fulcio_roots@),
            rekor_key: opt_view(self.rekor_key),
            expected_email: opt_view(self.expected_email),
            expected_oidc_issuer: opt_view(self.expected_oidc_issuer),
            expected_github_owner: opt_view(self.expected_github_owner),
            expected_github_repo: opt_view(self.expected_github_repo),
        }
    }
}

/// A normalized trust policy: the artifact must be signed by at least one of
/// `keys`, and match the keyless predicate when one is present, and carry
/// every annotation.  The two-level and-of-ors nesting is deliberate and
/// must stay explicit in the type.
#[derive(Debug)]
pub struct VerificationPolicy {
    pub keys: Vec<String>,
    pub keyless: Option<KeylessIdentity>,
    pub annotations: Vec<(String, String)>,
}

/// Mathematical shape of a `VerificationPolicy`.
#[verifier::ext_equal]
pub struct PolicyModel {
    pub keys: Seq<Seq<char>>,
    pub keyless: Option<KeylessModel>,
    pub annotations: Seq<(Seq<char>, Seq<char>)>,
}

/// The views of a sequence of string pairs.
pub open spec fn pair_views(s: Seq<(String, String)>) -> Seq<(Seq<char>, Seq<char>)> {
    s.map_values(|p: (String, String)| (p.0@, p.1@))
}

impl View for VerificationPolicy {
    type V = PolicyModel;

    open spec fn view(&self) -> PolicyModel {
        PolicyModel {
            keys: str_views(self.keys@),
            keyless: match self.keyless {
                Some(k) => Some(k@),
                None => None,
            },
            annotations: pair_views(self.annotations@),
        }
    }
}

/// A policy with no predicate at all.
pub open spec fn policy_is_empty(p: PolicyModel) -> bool {
    p.keys.len() == 0 && p.keyless is None && p.annotations.len() == 0
}

/// The raw verification flags of one invocation, or a structured
/// configuration already parsed from its file (the two are mutually
/// exclusive).
#[derive(Debug)]
pub struct VerificationInputs {
    pub config: Option<VerificationPolicy>,
    pub key_paths: Vec<String>,
    pub fulcio_cert_paths: Vec<String>,
    pub rekor_key_path: Option<String>,
    pub cert_email: Option<String>,
    pub cert_oidc_issuer: Option<String>,
    pub github_owner: Option<String>,
    pub github_repo: Option<String>,
    pub annotations: Vec<String>,
}

/// True when any discrete verification flag was supplied.
pub open spec fn has_discrete_inputs(inp: VerificationInputs) -> bool {
    ||| inp.key_paths@.len() > 0
    ||| inp.fulcio_cert_paths@.len() > 0
    ||| inp.rekor_key_path is Some
    ||| inp.cert_email is Some
    ||| inp.cert_oidc_issuer is Some
    ||| inp.github_owner is Some
    ||| inp.github_repo is Some
    ||| inp.annotations@.len() > 0
}

/// True when the discrete flags ask for a keyless predicate: a certificate
/// root or any identity claim was given.
pub open spec fn wants_keyless(inp: VerificationInputs) -> bool {
    ||| inp.fulcio_cert_paths@.len() > 0
    ||| inp.cert_email is Some
    ||| inp.cert_oidc_issuer is Some
    ||| inp.github_owner is Some
    ||| inp.github_repo is Some
}

/// True when a raw annotation has a `=` separator.
pub open spec fn ann_has_eq(s: Seq<char>) -> bool {
    exists|i: int| 0 <= i < s.len() && s[i] == '='
}

/// The position of the first `=` of a well-formed raw annotation.
pub open spec fn ann_eq_at(s: Seq<char>) -> int {
    choose|i: int|
        0 <= i < s.len() && s[i] == '=' && (forall|j: int| 0 <= j < i ==> s[j] != '=')
}

/// The key of a well-formed raw annotation: everything before the first `=`.
pub open spec fn ann_key(s: Seq<char>) -> Seq<char> {
    s.take(ann_eq_at(s))
}

/// The value of a well-formed raw annotation: everything after the first
/// `=`.
pub open spec fn ann_value(s: Seq<char>) -> Seq<char> {
    s.skip(ann_eq_at(s) + 1)
}

/// A raw annotation list's entry is bad when it has no `=`, or when its key
/// repeats an earlier entry's key.
pub open spec fn ann_bad_at(raws: Seq<Seq<char>>, i: int) -> bool {
    ||| !ann_has_eq(raws[i])
    ||| exists|j: int| 0 <= j < i && ann_has_eq(#[trigger] raws[j]) && ann_key(raws[j]) == ann_key(raws[i])
}

/// The first bad entry, if any.
pub open spec fn ann_first_bad(raws: Seq<Seq<char>>, i: int) -> bool {
    0 <= i < raws.len() && ann_bad_at(raws, i) && (forall|j: int| 0 <= j < i ==> !ann_bad_at(raws, j))
}

/// The policy the discrete flags fold into.
pub open spec fn discrete_policy(inp: VerificationInputs) -> PolicyModel {
    PolicyModel {
        keys: str_views(inp.key_paths@),
        keyless: if wants_keyless(inp) {
            Some(
                KeylessModel {
                    fulcio_roots: str_views(inp.fulcio_cert_paths@),
                    rekor_key: opt_view(inp.rekor_key_path),
                    expected_email: opt_view(inp.cert_email),
                    expected_oidc_issuer: opt_view(inp.cert_oidc_issuer),
                    expected_github_owner: opt_view(inp.github_owner),
                    expected_github_repo: opt_view(inp.github_repo),
                },
            )
        } else {
            None
        },
        annotations: str_views(inp.annotations@).map_values(
            |s: Seq<char>| (ann_key(s), ann_value(s)),
        ),
    }
}

/// Distinct annotation keys.
pub open spec fn ann_keys_distinct(a: Seq<(Seq<char>, Seq<char>)>) -> bool {
    forall|i: int, j: int| 0 <= i < j < a.len() ==> (#[trigger] a[i]).0 != (#[trigger] a[j]).0
}

/// Finds the first `=` of a raw annotation and splits around it.
fn split_annotation(s: &str) -> (r: Option<(String, String)>)
    ensures
        match r {
            Some(kv) => {
                let i = kv.0@.len() as int;
                &&& ann_has_eq(s@)
                &&& 0 <= i < s@.len()
                &&& s@[i] == '='
                &&& forall|j: int| 0 <= j < i ==> s@[j] != '='
                &&& kv.0@ == s@.take(i)
                &&& kv.1@ == s@.skip(i + 1)
                &&& kv.0@ == ann_key(s@)
                &&& kv.1@ == ann_value(s@)
            },
            None => !ann_has_eq(s@),
        },
{
    let n = s.unicode_len();
    let mut i: usize = 0;
    while i < n
        invariant
            i <= n,
            n == s@.len(),
            forall|j: int| 0 <= j < i ==> s@[j] != '=',
        decreases n - i,
    {
        if s.get_char(i) == '=' {
            let k = s.substring_char(0, i).to_owned();
            let v = s.substring_char(i + 1, n).to_owned();
            proof {
                assert(k@ =~= s@.take(i as int));
                assert(v@ =~= s@.skip(i as int + 1));
                assert(ann_eq_at(s@) == i as int) by {
                    let w = ann_eq_at(s@);
                    assert(0 <= w < s@.len() && s@[w] == '=' && (forall|j: int|
                        0 <= j < w ==> s@[j] != '='));
                    if w < i {
                        assert(s@[w] != '=');
                    }
                    if i < w {
                        assert(s@[i as int] != '=');
                    }
                }
            }
            return Some((k, v));
        }
        i += 1;
    }
    None
}

/// Copies a vector of strings.
fn copy_strings(v: &Vec<String>) -> (r: Vec<String>)
    ensures
        str_views(r@) == str_views(v@),
{
    let n = v.len();
    let mut r: Vec<String> = Vec::new();
    let mut i: usize = 0;
    while i < n
        invariant
            i <= n,
            n == v@.len(),
            r@.len() == i,
            str_views(r@) =~= str_views(v@).take(i as int),
        decreases n - i,
    {
        let c = v[i].clone();
        proof {
            assert(c == v@[i as int]);
        }
        r.push(c);
        proof {
            assert(r@[i as int] == v@[i as int]);
            assert(str_views(r@)[i as int] == str_views(v@)[i as int]);
            assert(str_views(r@) =~= str_views(v@).take(i as int + 1));
        }
        i += 1;
    }
    proof {
        assert(str_views(v@).take(n as int) =~= str_views(v@));
    }
    r
}

/// Copies an optional string.
fn copy_opt_string(o: &Option<String>) -> (r: Option<String>)
    ensures
        opt_view(r) == opt_view(*o),
{
    match o {
        Some(s) => Some(s.clone()),
        None => None,
    }
}

impl KeylessIdentity {
    /// A fresh predicate with the same model.
    pub fn duplicate(&self) -> (r: KeylessIdentity)
        ensures
            r@ == self@,
    {
        let r = KeylessIdentity {
            fulcio_roots: copy_strings(&self.fulcio_roots),
            rekor_key: copy_opt_string(&self.rekor_key),
            expected_email: copy_opt_string(&self.expected_email),
            expected_oidc_issuer: copy_opt_string(&self.expected_oidc_issuer),
            expected_github_owner: copy_opt_string(&self.expected_github_owner),
            expected_github_repo: copy_opt_string(&self.expected_github_repo),
        };
        proof {
            assert(r@ =~= self@);
        }
        r
    }
}

/// Copies a vector of string pairs.
fn copy_pairs(v: &Vec<(String, String)>) -> (r: Vec<(String, String)>)
    ensures
        pair_views(r@) == pair_views(v@),
{
    let n = v.len();
    let mut r: Vec<(String, String)> = Vec::new();
    let mut i: usize = 0;
    while i < n
        invariant
            i <= n,
            n == v@.len(),
            r@.len() == i,
            pair_views(r@) =~= pair_views(v@).take(i as int),
        decreases n - i,
    {
        let p: &(String, String) = &v[i];
        let c0 = p.0.clone();
        let c1 = p.1.clone();
        proof {
            assert(c0 == v@[i as int].0);
            assert(c1 == v@[i as int].1);
        }
        r.push((c0, c1));
        proof {
            assert(r@[i as int].0 == v@[i as int].0);
            assert(r@[i as int].1 == v@[i as int].1);
            assert(pair_views(r@)[i as int] == pair_views(v@)[i as int]);
            assert(pair_views(r@) =~= pair_views(v@).take(i as int + 1));
        }
        i += 1;
    }
    proof {
        assert(pair_views(v@).take(n as int) =~= pair_views(v@));
    }
    r
}

impl VerificationPolicy {
    /// A fresh policy with the same model.
    pub fn duplicate(&self) -> (r: VerificationPolicy)
        ensures
            r@ == self@,
    {
        let r = VerificationPolicy {
            keys: copy_strings(&self.keys),
            keyless: match &self.keyless {
                Some(k) => Some(k.duplicate()),
                None => None,
            },
            annotations: copy_pairs(&self.annotations),
        };
        proof {
            assert(r@ =~= self@);
        }
        r
    }
}

/// Assembles a trust policy.  A structured configuration and discrete flags
/// are mutually exclusive; a configuration is taken as given once its
/// annotation keys prove unique; discrete flags fold into one predicate per
/// kind, repeated keys and certificates becoming alternatives within their
/// kind.  A policy with no predicate at all is refused: a verified flow must
/// never succeed against zero constraints.
/// What `build` guarantees of a policy it returns.
pub open spec fn build_ok(inputs: VerificationInputs, p: PolicyModel) -> bool {
    &&& !(inputs.config is Some && has_discrete_inputs(inputs))
    &&& match inputs.config {
        Some(c) => p == c@ && ann_keys_distinct(c@.annotations) && !policy_is_empty(c@),
        None => {
            &&& forall|i: int|
                0 <= i < inputs.annotations@.len() ==> ann_has_eq(
                    #[trigger] str_views(inputs.annotations@)[i],
                )
            &&& forall|i: int|
                0 <= i < inputs.annotations@.len() ==> !ann_bad_at(
                    str_views(inputs.annotations@),
                    i,
                )
            &&& p == discrete_policy(inputs)
            &&& !policy_is_empty(p)
        },
    }
}

/// When `build` returns each error, exactly.
pub open spec fn build_err(inputs: VerificationInputs, e: PolicyError) -> bool {
    match e {
        PolicyError::ConflictingVerificationInputs => inputs.config is Some
            && has_discrete_inputs(inputs),
        PolicyError::InvalidVerificationConfig => !(inputs.config is Some
            && has_discrete_inputs(inputs)) && match inputs.config {
            Some(c) => !ann_keys_distinct(c@.annotations),
            None => exists|i: int|
                ann_first_bad(str_views(inputs.annotations@), i) && !ann_has_eq(
                    str_views(inputs.annotations@)[i],
                ),
        },
        PolicyError::DuplicateAnnotationKey(k) => !(inputs.config is Some
            && has_discrete_inputs(inputs)) && inputs.config is None && exists|i: int|
            ann_first_bad(str_views(inputs.annotations@), i) && ann_has_eq(
                str_views(inputs.annotations@)[i],
            ) && k@ == ann_key(str_views(inputs.annotations@)[i]),
        PolicyError::EmptyVerificationPolicy => !(inputs.config is Some
            && has_discrete_inputs(inputs)) && match inputs.config {
            Some(c) => ann_keys_distinct(c@.annotations) && policy_is_empty(c@),
            None => (forall|i: int|
                0 <= i < inputs.annotations@.len() ==> !ann_bad_at(
                    str_views(inputs.annotations@),
                    i,
                )) && policy_is_empty(discrete_policy(inputs)),
        },
        _ => false,
    }
}

pub fn build(inputs: &VerificationInputs) -> (r: Result<VerificationPolicy, PolicyError>)
    ensures
        match r {
            Ok(p) => build_ok(*inputs, p@),
            Err(e) => build_err(*inputs, e),
        },
{
    let has_discrete = inputs.key_paths.len() > 0 || inputs.fulcio_cert_paths.len() > 0
        || inputs.rekor_key_path.is_some() || inputs.cert_email.is_some()
        || inputs.cert_oidc_issuer.is_some() || inputs.github_owner.is_some()
        || inputs.github_repo.is_some() || inputs.annotations.len() > 0;
    match &inputs.config {
        Some(c) => {
            if has_discrete {
                return Err(PolicyError::ConflictingVerificationInputs);
            }
            // a structured configuration: its annotation keys must be unique
            let ghost ca = c@.annotations;
            let n = c.annotations.len();
            let mut i: usize = 0;
            while i < n
                invariant
                    i <= n,
                    n == c.annotations@.len(),
                    ca == c@.annotations,
                    !has_discrete_inputs(*inputs),
                    match inputs.config {
                        Some(cc) => cc@.annotations == ca,
                        None => false,
                    },
                    forall|x: int, y: int| 0 <= x < y < i ==> (#[trigger] ca[x]).0 != (
                    #[trigger] ca[y]).0,
                decreases n - i,
            {
                let mut j: usize = 0;
                while j < i
                    invariant
                        j <= i < n,
                        n == c.annotations@.len(),
                        ca == c@.annotations,
                        !has_discrete_inputs(*inputs),
                        match inputs.config {
                            Some(cc) => cc@.annotations == ca,
                            None => false,
                        },
                        forall|x: int| 0 <= x < j ==> (#[trigger] ca[x]).0 != ca[i as int].0,
                    decreases i - j,
                {
                    proof {
                        assert(ca[j as int].0 == c.annotations@[j as int].0@);
                        assert(ca[i as int].0 == c.annotations@[i as int].0@);
                    }
                    if c.annotations[j].0 == c.annotations[i].0 {
                        proof {
                            assert(!ann_keys_distinct(ca));
                        }
                        return Err(PolicyError::InvalidVerificationConfig);
                    }
                    j += 1;
                }
                i += 1;
            }
            let empty = c.keys.len() == 0 && c.keyless.is_none() && c.annotations.len() == 0;
            if empty {
                proof {
                    assert(c@.keys.len() == 0 && c@.annotations.len() == 0);
                }
                return Err(PolicyError::EmptyVerificationPolicy);
            }
            proof {
                assert(!policy_is_empty(c@));
            }
            Ok(c.duplicate())
        },
        None => {
            let ghost raws = str_views(inputs.annotations@);
            // fold the raw annotations, rejecting repeats and bad shapes
            let n = inputs.annotations.len();
            let mut parsed: Vec<(String, String)> = Vec::new();
            let mut i: usize = 0;
            while i < n
                invariant
                    i <= n,
                    n == inputs.annotations@.len(),
                    raws == str_views(inputs.annotations@),
                    inputs.config is None,
                    parsed@.len() == i,
                    forall|x: int| 0 <= x < i ==> ann_has_eq(#[trigger] raws[x]),
                    forall|x: int| 0 <= x < i ==> !ann_bad_at(raws, x),
                    forall|x: int|
                        0 <= x < i ==> (#[trigger] parsed@[x]).0@ == ann_key(raws[x])
                            && parsed@[x].1@ == ann_value(raws[x]),
                decreases n - i,
            {
                let raw: &String = &inputs.annotations[i];
                proof {
                    assert(raw@ == raws[i as int]);
                }
                match split_annotation(raw.as_str()) {
                    None => {
                        proof {
                            assert(ann_bad_at(raws, i as int));
                            assert(ann_first_bad(raws, i as int));
                        }
                        return Err(PolicyError::InvalidVerificationConfig);
                    },
                    Some((k, v)) => {
                        let mut j: usize = 0;
                        let ghost kk = k@;
                        while j < i
                            invariant
                                j <= i < n,
                                n == inputs.annotations@.len(),
                                raws == str_views(inputs.annotations@),
                                inputs.config is None,
                                parsed@.len() == i,
                                forall|x: int| 0 <= x < i ==> !ann_bad_at(raws, x),
                                ann_has_eq(raws[i as int]),
                                kk == ann_key(raws[i as int]),
                                kk == k@,
                                forall|x: int| 0 <= x < i ==> ann_has_eq(#[trigger] raws[x]),
                                forall|x: int|
                                    0 <= x < i ==> (#[trigger] parsed@[x]).0@ == ann_key(raws[x]),
                                forall|x: int| 0 <= x < j ==> ann_key(#[trigger] raws[x]) != kk,
                            decreases i - j,
                        {
                            if parsed[j].0 == k {
                                proof {
                                    assert(ann_key(raws[j as int]) == kk);
                                    assert(ann_bad_at(raws, i as int));
                                    assert(ann_first_bad(raws, i as int) && ann_has_eq(
                                        raws[i as int],
                                    ) && k@ == ann_key(raws[i as int]));
                                }
                                return Err(PolicyError::DuplicateAnnotationKey(k));
                            }
                            proof {
                                assert(parsed@[j as int].0@ == ann_key(raws[j as int]));
                            }
                            j += 1;
                        }
                        proof {
                            assert(!ann_bad_at(raws, i as int)) by {
                                assert forall|x: int|
                                    0 <= x < i implies !(ann_has_eq(#[trigger] raws[x]) && ann_key(
                                    raws[x],
                                ) == ann_key(raws[i as int])) by {
                                    assert(ann_key(raws[x]) != kk);
                                }
                            }
                        }
                        parsed.push((k, v));
                    },
                }
                i += 1;
            }
            // assemble the predicate groups
            let keyless_wanted = inputs.fulcio_cert_paths.len() > 0 || inputs.cert_email.is_some()
                || inputs.cert_oidc_issuer.is_some() || inputs.github_owner.is_some()
                || inputs.github_repo.is_some();
            let keyless = if keyless_wanted {
                Some(
                    KeylessIdentity {
                        fulcio_roots: copy_strings(&inputs.fulcio_cert_paths),
                        rekor_key: copy_opt_string(&inputs.rekor_key_path),
                        expected_email: copy_opt_string(&inputs.cert_email),
                        expected_oidc_issuer: copy_opt_string(&inputs.cert_oidc_issuer),
                        expected_github_owner: copy_opt_string(&inputs.github_owner),
                        expected_github_repo: copy_opt_string(&inputs.github_repo),
                    },
                )
            } else {
                None
            };
            let p = VerificationPolicy {
                keys: copy_strings(&inputs.key_paths),
                keyless,
                annotations: parsed,
            };
            proof {
                assert(p@ =~~= discrete_policy(*inputs)) by {
                    assert(p@.annotations.len() == discrete_policy(*inputs).annotations.len());
                    assert forall|x: int| 0 <= x < p@.annotations.len() implies p@.annotations[x]
                        == discrete_policy(*inputs).annotations[x] by {
                        assert(p@.annotations[x].0 == ann_key(raws[x]));
                        assert(p@.annotations[x].1 == ann_value(raws[x]));
                    }
                }
            }
            if p.keys.len() == 0 && p.keyless.is_none() && p.annotations.len() == 0 {
                proof {
                    assert(policy_is_empty(discrete_policy(*inputs)));
                }
                return Err(PolicyError::EmptyVerificationPolicy);
            }
            proof {
                assert(!policy_is_empty(p@));
            }
            Ok(p)
        },
    }
}

} // verus!

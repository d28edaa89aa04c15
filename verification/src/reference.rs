use vstd::prelude::*;
use crate::errors::PolicyError;

verus! {

/// Transport a policy locator asks for.
#[derive(Clone, Copy, PartialEq, Eq, Structural, Debug)]
pub enum Scheme {
    Registry,
    Https,
    File,
}

/// A parsed policy locator: the transport scheme plus the location with the
/// scheme prefix stripped.  Immutable once constructed.
#[derive(Debug)]
pub struct PolicyReference {
    pub scheme: Scheme,
    pub location: String,
    pub digest: Option<String>,
}

/// Mathematical shape of a `PolicyReference`.
#[verifier::ext_equal]
pub struct ReferenceModel {
    pub scheme: Scheme,
    pub location: Seq<char>,
    pub digest: Option<Seq<char>>,
}

impl View for PolicyReference {
    type V = ReferenceModel;

    open spec fn view(&self) -> ReferenceModel {
        ReferenceModel {
            scheme: self.scheme,
            location: self.location@,
            digest: match self.digest {
                Some(d) => Some(d@),
                None => None,
            },
        }
    }
}

impl PolicyReference {
    /// A fresh reference with the same model.
    pub fn duplicate(&self) -> (r: PolicyReference)
        ensures
            r@ == self@,
    {
        PolicyReference {
            scheme: self.scheme,
            location: self.location.clone(),
            digest: match &self.digest {
                Some(d) => Some(d.clone()),
                None => None,
            },
        }
    }
}

/// True when `p` occurs at the start of `s`.
pub open spec fn is_prefix_of(p: Seq<char>, s: Seq<char>) -> bool {
    p.len() <= s.len() && s.subrange(0, p.len() as int) == p
}

pub open spec fn registry_prefix() -> Seq<char> {
    "registry://"@
}

pub open spec fn https_prefix() -> Seq<char> {
    "https://"@
}

pub open spec fn file_prefix() -> Seq<char> {
    "file://"@
}

/// The prefix a scheme contributes to the stable policy name.
pub open spec fn scheme_prefix(s: Scheme) -> Seq<char> {
    match s {
        Scheme::Registry => registry_prefix(),
        Scheme::Https => https_prefix(),
        Scheme::File => file_prefix(),
    }
}

/// What `resolve` makes of a locator: the recognized prefix decides the
/// scheme and is stripped; a locator with no recognized prefix is a
/// filesystem path taken whole.  `None` stands for an empty remainder, which
/// `resolve` rejects.
pub open spec fn parse_locator(s: Seq<char>) -> Option<ReferenceModel> {
    let (scheme, rest) = if is_prefix_of(registry_prefix(), s) {
        (Scheme::Registry, s.skip(registry_prefix().len() as int))
    } else if is_prefix_of(https_prefix(), s) {
        (Scheme::Https, s.skip(https_prefix().len() as int))
    } else if is_prefix_of(file_prefix(), s) {
        (Scheme::File, s.skip(file_prefix().len() as int))
    } else {
        (Scheme::File, s)
    };
    if rest.len() == 0 {
        None
    } else {
        Some(ReferenceModel { scheme: scheme, location: rest, digest: None })
    }
}

/// A recognized scheme prefix is stripped exactly, and the remainder is kept
/// unchanged as the location.
pub proof fn lemma_resolve_strips_prefix(s: Seq<char>, scheme: Scheme)
    requires
        is_prefix_of(scheme_prefix(scheme), s),
        scheme == Scheme::Registry || !is_prefix_of(registry_prefix(), s),
        scheme == Scheme::Registry || scheme == Scheme::Https || !is_prefix_of(
            https_prefix(),
            s,
        ),
        s.len() > scheme_prefix(scheme).len(),
    ensures
        parse_locator(s) matches Some(r) && r.scheme == scheme && r.location == s.skip(
            scheme_prefix(scheme).len() as int,
        ),
{
}

/// A locator with no recognized scheme prefix resolves to a `File` reference
/// whose location is the locator itself.
pub proof fn lemma_resolve_bare_path(s: Seq<char>)
    requires
        !is_prefix_of(registry_prefix(), s),
        !is_prefix_of(https_prefix(), s),
        !is_prefix_of(file_prefix(), s),
        s.len() > 0,
    ensures
        parse_locator(s) matches Some(r) && r.scheme == Scheme::File && r.location == s,
{
}

/// True exactly when `prefix` occurs at the start of `s`.
fn starts_with(s: &str, prefix: &str) -> (r: bool)
    ensures
        r == is_prefix_of(prefix@, s@),
{
    let n = prefix.unicode_len();
    let m = s.unicode_len();
    if m < n {
        return false;
    }
    let mut i: usize = 0;
    while i < n
        invariant
            i <= n,
            n == prefix@.len(),
            n <= s@.len(),
            forall|j: int| 0 <= j < i ==> s@[j] == prefix@[j],
        decreases n - i,
    {
        if s.get_char(i) != prefix.get_char(i) {
            assert(s@.subrange(0, n as int)[i as int] == s@[i as int]);
            return false;
        }
        i += 1;
    }
    assert(s@.subrange(0, n as int) =~= prefix@);
    true
}

/// Copy of the characters of `s` from position `from` to the end.
fn tail_from(s: &str, from: usize) -> (r: String)
    requires
        from <= s@.len(),
    ensures
        r@ == s@.skip(from as int),
{
    let n = s.unicode_len();
    let t = s.substring_char(from, n);
    assert(t@ =~= s@.skip(from as int));
    t.to_owned()
}

/// Parses a policy locator.  A locator starting with `registry://`,
/// `https://` or `file://` has that prefix stripped and the scheme set
/// accordingly; any other locator is a filesystem path relative to the
/// current directory.  A locator whose remaining location is empty is
/// rejected.  No filesystem or network access happens here.
pub fn resolve(locator: &str) -> (r: Result<PolicyReference, PolicyError>)
    ensures
        match r {
            Ok(p) => parse_locator(locator@) == Some(p@),
            Err(e) => parse_locator(locator@) is None && e matches PolicyError::InvalidReference,
        },
{
    proof {
        reveal_strlit("registry://");
        reveal_strlit("https://");
        reveal_strlit("file://");
    }
    let (scheme, location) = if starts_with(locator, "registry://") {
        (Scheme::Registry, tail_from(locator, 11))
    } else if starts_with(locator, "https://") {
        (Scheme::Https, tail_from(locator, 8))
    } else if starts_with(locator, "file://") {
        (Scheme::File, tail_from(locator, 7))
    } else {
        (Scheme::File, locator.to_owned())
    };
    if location.as_str().unicode_len() == 0 {
        Err(PolicyError::InvalidReference)
    } else {
        Ok(PolicyReference { scheme, location, digest: None })
    }
}

/// The stable name a reference stores under: the scheme's own prefix followed
/// by the location, so that two references name the same entry exactly when
/// scheme and location agree.
pub open spec fn name_of(r: ReferenceModel) -> Seq<char> {
    scheme_prefix(r.scheme) + r.location
}

/// Renders the stable policy name of a reference.
pub fn policy_name(r: &PolicyReference) -> (n: String)
    ensures
        n@ == name_of(r@),
{
    let prefix = match r.scheme {
        Scheme::Registry => "registry://",
        Scheme::Https => "https://",
        Scheme::File => "file://",
    };
    let n = String::from_str(prefix).concat(r.location.as_str());
    n
}

} // verus!

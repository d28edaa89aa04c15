use vstd::prelude::*;
use crate::assoc::{
    distinct_keys, find_pair_index, has_key, key_index, lemma_distinct_remove,
    lemma_has_key_remove_other, lemma_key_index_unique, lookup,
};
use crate::digest::{compute_digest, digest_of};
use crate::errors::PolicyError;
use crate::reference::{PolicyReference, ReferenceModel};

verus! {

/// One cached policy: where its bytes sit, how they are addressed, and where
/// they came from.
#[derive(Debug)]
pub struct StoreEntry {
    pub digest: String,
    pub local_path: String,
    pub source_reference: PolicyReference,
    pub verified: bool,
    pub pushed_tag: Option<String>,
}

/// Mathematical shape of a `StoreEntry`.
#[verifier::ext_equal]
pub struct EntryModel {
    pub digest: Seq<char>,
    pub local_path: Seq<char>,
    pub source_reference: ReferenceModel,
    pub verified: bool,
    pub pushed_tag: Option<Seq<char>>,
}

impl View for StoreEntry {
    type V = EntryModel;

    open spec fn view(&self) -> EntryModel {
        EntryModel {
            digest: self.digest@,
            local_path: self.local_path@,
            source_reference: self.source_reference@,
            verified: self.verified,
            pushed_tag: match self.pushed_tag {
                Some(t) => Some(t@),
                None => None,
            },
        }
    }
}

impl StoreEntry {
    /// A fresh entry with the same model.
    pub fn duplicate(&self) -> (r: StoreEntry)
        ensures
            r@ == self@,
    {
        StoreEntry {
            digest: self.digest.clone(),
            local_path: self.local_path.clone(),
            source_reference: self.source_reference.duplicate(),
            verified: self.verified,
            pushed_tag: match &self.pushed_tag {
                Some(t) => Some(t.clone()),
                None => None,
            },
        }
    }
}

/// Mathematical shape of a `Store`: the manifest in insertion order and the
/// content files keyed by digest.
#[verifier::ext_equal]
pub struct StoreModel {
    pub root: Seq<char>,
    pub manifest: Seq<(Seq<char>, EntryModel)>,
    pub contents: Seq<(Seq<char>, Seq<u8>)>,
}

/// Where the content file for `digest` sits under `root`.
pub open spec fn path_of(root: Seq<char>, digest: Seq<char>) -> Seq<char> {
    root + seq!['/'] + digest
}

/// True when some manifest entry points at the digest `d`.
pub open spec fn digest_referenced(m: Seq<(Seq<char>, EntryModel)>, d: Seq<char>) -> bool {
    exists|i: int| 0 <= i < m.len() && m[i].1.digest == d
}

/// Structural soundness of a store: names and content digests are unique,
/// every entry's digest has a content file, and every entry's path is the
/// digest-derived one.
pub open spec fn store_wf(s: StoreModel) -> bool {
    &&& distinct_keys(s.manifest)
    &&& distinct_keys(s.contents)
    &&& forall|i: int|
        0 <= i < s.manifest.len() ==> has_key(s.contents, (#[trigger] s.manifest[i]).1.digest)
    &&& forall|i: int|
        0 <= i < s.manifest.len() ==> (#[trigger] s.manifest[i]).1.local_path == path_of(
            s.root,
            s.manifest[i].1.digest,
        )
}

/// Content-addressing of one entry: the stored bytes still hash to the
/// recorded digest.
pub open spec fn entry_ok(s: StoreModel, name: Seq<char>) -> bool
    recommends
        store_wf(s),
        has_key(s.manifest, name),
{
    let e = lookup(s.manifest, name);
    digest_of(lookup(s.contents, e.digest)) == e.digest
}

/// The entry a `put` of these arguments records.
pub open spec fn put_entry(
    root: Seq<char>,
    bytes: Seq<u8>,
    src: ReferenceModel,
    verified: bool,
) -> EntryModel {
    EntryModel {
        digest: digest_of(bytes),
        local_path: path_of(root, digest_of(bytes)),
        source_reference: src,
        verified: verified,
        pushed_tag: None,
    }
}

/// Contents with the pair for `d` added, unless `d` is already stored.
pub open spec fn contents_add(
    c: Seq<(Seq<char>, Seq<u8>)>,
    d: Seq<char>,
    bytes: Seq<u8>,
) -> Seq<(Seq<char>, Seq<u8>)> {
    if has_key(c, d) {
        c
    } else {
        c.push((d, bytes))
    }
}

/// Contents with the pair for `d` removed, if it is stored.
pub open spec fn contents_drop(c: Seq<(Seq<char>, Seq<u8>)>, d: Seq<char>) -> Seq<
    (Seq<char>, Seq<u8>),
> {
    if has_key(c, d) {
        c.remove(key_index(c, d))
    } else {
        c
    }
}

/// What `put` does to a store: record the entry under `name` (in place for a
/// known name, appended for a new one), add the content file, and drop the
/// overwritten entry's content file when no name references it any more.
pub open spec fn store_put(
    s: StoreModel,
    name: Seq<char>,
    bytes: Seq<u8>,
    src: ReferenceModel,
    verified: bool,
) -> StoreModel {
    let e = put_entry(s.root, bytes, src, verified);
    let d = e.digest;
    if has_key(s.manifest, name) {
        let i = key_index(s.manifest, name);
        let od = s.manifest[i].1.digest;
        let m1 = s.manifest.update(i, (name, e));
        let c1 = contents_add(s.contents, d, bytes);
        let c2 = if digest_referenced(m1, od) {
            c1
        } else {
            contents_drop(c1, od)
        };
        StoreModel { root: s.root, manifest: m1, contents: c2 }
    } else {
        StoreModel {
            root: s.root,
            manifest: s.manifest.push((name, e)),
            contents: contents_add(s.contents, d, bytes),
        }
    }
}

/// `put` keeps a store structurally sound.
pub proof fn lemma_store_put_wf(
    s: StoreModel,
    name: Seq<char>,
    bytes: Seq<u8>,
    src: ReferenceModel,
    verified: bool,
)
    requires
        store_wf(s),
    ensures
        store_wf(store_put(s, name, bytes, src, verified)),
{
    let e = put_entry(s.root, bytes, src, verified);
    let d = e.digest;
    let c1 = contents_add(s.contents, d, bytes);
    assert(distinct_keys(c1));
    assert(has_key(c1, d)) by {
        if !has_key(s.contents, d) {
            assert(c1[c1.len() - 1].0 == d);
        }
    }
    assert forall|k: Seq<char>| has_key(s.contents, k) implies has_key(c1, k) by {
        let i = choose|i: int| 0 <= i < s.contents.len() && s.contents[i].0 == k;
        assert(c1[i].0 == k);
    }
    if has_key(s.manifest, name) {
        let i = key_index(s.manifest, name);
        let od = s.manifest[i].1.digest;
        let m1 = s.manifest.update(i, (name, e));
        assert(s.manifest[i].0 == name);
        assert(distinct_keys(m1));
        let c2 = if digest_referenced(m1, od) {
            c1
        } else {
            contents_drop(c1, od)
        };
        let r = store_put(s, name, bytes, src, verified);
        assert(r.manifest == m1 && r.contents == c2 && r.root == s.root);
        if !digest_referenced(m1, od) {
            // the new entry's digest is still referenced, so it is not `od`
            assert(m1[i].1.digest == d);
            assert(d != od);
            assert(has_key(c1, od)) by {
                assert(has_key(s.contents, od));
            }
            let j = key_index(c1, od);
            assert(c1[j].0 == od);
            lemma_distinct_remove(c1, j);
            assert(distinct_keys(c2));
            assert forall|k: int| 0 <= k < m1.len() implies has_key(
                c2,
                (#[trigger] m1[k]).1.digest,
            ) by {
                let x = m1[k].1.digest;
                assert(x != od);
                assert(has_key(c1, x)) by {
                    if k == i {
                        assert(m1[k].1.digest == d);
                    } else {
                        assert(m1[k] == s.manifest[k]);
                        assert(has_key(s.contents, x));
                    }
                }
                lemma_has_key_remove_other(c1, j, x);
            }
        } else {
            assert forall|k: int| 0 <= k < m1.len() implies has_key(
                c2,
                (#[trigger] m1[k]).1.digest,
            ) by {
                if k == i {
                    assert(m1[k].1.digest == d);
                } else {
                    assert(m1[k] == s.manifest[k]);
                    assert(has_key(s.contents, m1[k].1.digest));
                }
            }
        }
        assert forall|k: int| 0 <= k < m1.len() implies (#[trigger] m1[k]).1.local_path == path_of(
            s.root,
            m1[k].1.digest,
        ) by {
            if k != i {
                assert(m1[k] == s.manifest[k]);
            }
        }
    } else {
        let m1 = s.manifest.push((name, e));
        assert forall|i1: int, i2: int| 0 <= i1 < i2 < m1.len() implies m1[i1].0 != m1[i2].0 by {
            if i2 == m1.len() - 1 {
                assert(m1[i1] == s.manifest[i1]);
            } else {
                assert(m1[i1] == s.manifest[i1]);
                assert(m1[i2] == s.manifest[i2]);
            }
        }
        assert forall|k: int| 0 <= k < m1.len() implies has_key(
            c1,
            (#[trigger] m1[k]).1.digest,
        ) && m1[k].1.local_path == path_of(s.root, m1[k].1.digest) by {
            if k == m1.len() - 1 {
                assert(m1[k].1 == e);
            } else {
                assert(m1[k] == s.manifest[k]);
                assert(has_key(s.contents, m1[k].1.digest));
            }
        }
    }
}

/// After `put`, `name` holds exactly the recorded entry and every other
/// name is untouched.
pub proof fn lemma_store_put_lookup(
    s: StoreModel,
    name: Seq<char>,
    bytes: Seq<u8>,
    src: ReferenceModel,
    verified: bool,
)
    requires
        store_wf(s),
    ensures
        ({
            let r = store_put(s, name, bytes, src, verified);
            &&& has_key(r.manifest, name)
            &&& lookup(r.manifest, name) == put_entry(s.root, bytes, src, verified)
            &&& forall|x: Seq<char>|
                x != name ==> (#[trigger] has_key(r.manifest, x) <==> has_key(s.manifest, x))
            &&& forall|x: Seq<char>|
                x != name && has_key(s.manifest, x) ==> #[trigger] lookup(r.manifest, x) == lookup(
                    s.manifest,
                    x,
                )
        }),
{
    let e = put_entry(s.root, bytes, src, verified);
    let r = store_put(s, name, bytes, src, verified);
    if has_key(s.manifest, name) {
        let i = key_index(s.manifest, name);
        let m1 = s.manifest.update(i, (name, e));
        assert(s.manifest[i].0 == name);
        assert(distinct_keys(m1));
        lemma_key_index_unique(m1, name, i);
        assert forall|x: Seq<char>| x != name implies (#[trigger] has_key(m1, x) <==> has_key(
            s.manifest,
            x,
        )) by {
            if has_key(s.manifest, x) {
                let w = key_index(s.manifest, x);
                assert(s.manifest[w].0 == x);
                assert(m1[w].0 == x);
            }
            if has_key(m1, x) {
                let w = choose|w: int| 0 <= w < m1.len() && m1[w].0 == x;
                assert(s.manifest[w].0 == x);
            }
        }
        assert forall|x: Seq<char>| x != name && has_key(s.manifest, x) implies #[trigger] lookup(
            m1,
            x,
        ) == lookup(s.manifest, x) by {
            let w = key_index(s.manifest, x);
            assert(s.manifest[w].0 == x);
            assert(w != i);
            assert(m1[w] == s.manifest[w]);
            lemma_key_index_unique(m1, x, w);
        }
    } else {
        let m1 = s.manifest.push((name, e));
        assert(m1[m1.len() - 1] == (name, e));
        assert(distinct_keys(m1)) by {
            assert forall|i1: int, i2: int|
                0 <= i1 < i2 < m1.len() implies m1[i1].0 != m1[i2].0 by {
                assert(m1[i1] == s.manifest[i1]);
                if i2 < m1.len() - 1 {
                    assert(m1[i2] == s.manifest[i2]);
                }
            }
        }
        lemma_key_index_unique(m1, name, m1.len() - 1);
        assert forall|x: Seq<char>| x != name implies (#[trigger] has_key(m1, x) <==> has_key(
            s.manifest,
            x,
        )) by {
            if has_key(s.manifest, x) {
                let w = key_index(s.manifest, x);
                assert(s.manifest[w].0 == x);
                assert(m1[w].0 == x);
            }
            if has_key(m1, x) {
                let w = choose|w: int| 0 <= w < m1.len() && m1[w].0 == x;
                assert(w < m1.len() - 1);
                assert(s.manifest[w].0 == x);
            }
        }
        assert forall|x: Seq<char>| x != name && has_key(s.manifest, x) implies #[trigger] lookup(
            m1,
            x,
        ) == lookup(s.manifest, x) by {
            let w = key_index(s.manifest, x);
            assert(s.manifest[w].0 == x);
            assert(m1[w] == s.manifest[w]);
            lemma_key_index_unique(m1, x, w);
        }
    }
}

/// What `remove` does to a store: take the entry for `name` out of the
/// manifest and drop its content file when no other name references the
/// digest; a store without the name is left as it is.
pub open spec fn store_remove(s: StoreModel, name: Seq<char>) -> StoreModel {
    if has_key(s.manifest, name) {
        let i = key_index(s.manifest, name);
        let od = s.manifest[i].1.digest;
        let m1 = s.manifest.remove(i);
        let c1 = if digest_referenced(m1, od) {
            s.contents
        } else {
            contents_drop(s.contents, od)
        };
        StoreModel { root: s.root, manifest: m1, contents: c1 }
    } else {
        s
    }
}

/// `remove` keeps a store structurally sound.
pub proof fn lemma_store_remove_wf(s: StoreModel, name: Seq<char>)
    requires
        store_wf(s),
    ensures
        store_wf(store_remove(s, name)),
{
    if has_key(s.manifest, name) {
        let i = key_index(s.manifest, name);
        let od = s.manifest[i].1.digest;
        let m1 = s.manifest.remove(i);
        lemma_distinct_remove(s.manifest, i);
        let c1 = if digest_referenced(m1, od) {
            s.contents
        } else {
            contents_drop(s.contents, od)
        };
        if !digest_referenced(m1, od) {
            assert(has_key(s.contents, od));
            let j = key_index(s.contents, od);
            assert(s.contents[j].0 == od);
            lemma_distinct_remove(s.contents, j);
        }
        assert forall|k: int| 0 <= k < m1.len() implies has_key(c1, (#[trigger] m1[k]).1.digest)
            && m1[k].1.local_path == path_of(s.root, m1[k].1.digest) by {
            let o = if k < i {
                k
            } else {
                k + 1
            };
            assert(m1[k] == s.manifest[o]);
            let x = m1[k].1.digest;
            assert(has_key(s.contents, x));
            if !digest_referenced(m1, od) {
                assert(x != od);
                lemma_has_key_remove_other(s.contents, key_index(s.contents, od), x);
            }
        }
    }
}

/// What `record_push` does to a store: note the tag the entry for `name` was
/// last pushed under.
pub open spec fn store_record_push(s: StoreModel, name: Seq<char>, tag: Seq<char>) -> StoreModel {
    if has_key(s.manifest, name) {
        let i = key_index(s.manifest, name);
        let e = s.manifest[i].1;
        let e2 = EntryModel { pushed_tag: Some(tag), ..e };
        StoreModel { manifest: s.manifest.update(i, (name, e2)), ..s }
    } else {
        s
    }
}

/// Putting the same bytes under the same name a second time changes nothing:
/// the manifest and the stored contents stay as the first `put` left them.
pub proof fn lemma_put_idempotent(
    s: StoreModel,
    name: Seq<char>,
    bytes: Seq<u8>,
    src: ReferenceModel,
    verified: bool,
)
    requires
        store_wf(s),
    ensures
        store_put(store_put(s, name, bytes, src, verified), name, bytes, src, verified)
            == store_put(s, name, bytes, src, verified),
{
    let e = put_entry(s.root, bytes, src, verified);
    let d = e.digest;
    let s1 = store_put(s, name, bytes, src, verified);
    lemma_store_put_wf(s, name, bytes, src, verified);
    let c1 = contents_add(s.contents, d, bytes);
    assert(has_key(c1, d)) by {
        if !has_key(s.contents, d) {
            assert(c1[c1.len() - 1].0 == d);
        }
    }
    // the first put leaves (name, e) in the manifest and `d` stored
    if has_key(s.manifest, name) {
        let i = key_index(s.manifest, name);
        let od = s.manifest[i].1.digest;
        let m1 = s.manifest.update(i, (name, e));
        lemma_key_index_unique(m1, name, i);
        assert(digest_referenced(m1, d)) by {
            assert(m1[i].1.digest == d);
        }
        if !digest_referenced(m1, od) {
            assert(od != d);
            assert(has_key(s.contents, od));
            assert(has_key(c1, od)) by {
                let w = key_index(s.contents, od);
                assert(s.contents[w].0 == od);
                assert(c1[w].0 == od);
            }
            let j = key_index(c1, od);
            assert(c1[j].0 == od);
            lemma_has_key_remove_other(c1, j, d);
        }
        assert(has_key(s1.contents, d));
    } else {
        let m1 = s.manifest.push((name, e));
        assert(m1[m1.len() - 1] == (name, e));
        lemma_key_index_unique(m1, name, m1.len() - 1);
        assert(has_key(s1.contents, d));
    }
    // so the second put rewrites the same entry and drops nothing
    let i1 = key_index(s1.manifest, name);
    assert(s1.manifest[i1].1 == e);
    let m2 = s1.manifest.update(i1, (name, e));
    assert(m2 =~= s1.manifest);
    assert(contents_add(s1.contents, d, bytes) == s1.contents);
    assert(digest_referenced(m2, s1.manifest[i1].1.digest)) by {
        assert(m2[i1].1.digest == d);
    }
    assert(store_put(s1, name, bytes, src, verified) =~~= s1);
}

/// The content-addressed cache: a manifest from policy name to entry, and
/// one stored byte string per digest.
pub struct Store {
    root: String,
    manifest: Vec<(String, StoreEntry)>,
    contents: Vec<(String, Vec<u8>)>,
}

pub open spec fn manifest_view(m: Seq<(String, StoreEntry)>) -> Seq<(Seq<char>, EntryModel)> {
    m.map_values(|p: (String, StoreEntry)| (p.0@, p.1@))
}

pub open spec fn contents_view(c: Seq<(String, Vec<u8>)>) -> Seq<(Seq<char>, Seq<u8>)> {
    c.map_values(|p: (String, Vec<u8>)| (p.0@, p.1@))
}

impl View for Store {
    type V = StoreModel;

    closed spec fn view(&self) -> StoreModel {
        StoreModel {
            root: self.root@,
            manifest: manifest_view(self.manifest@),
            contents: contents_view(self.contents@),
        }
    }
}

/// Joins the store root and a digest into the content path.
pub fn render_path(root: &String, digest: &String) -> (p: String)
    ensures
        p@ == path_of(root@, digest@),
{
    proof {
        reveal_strlit("/");
    }
    let p = root.clone().concat("/").concat(digest.as_str());
    assert(p@ =~= path_of(root@, digest@));
    p
}

impl Store {
    /// An empty store rooted at `root`.
    pub fn new(root: String) -> (s: Store)
        ensures
            s@.root == root@,
            s@.manifest =~= Seq::<(Seq<char>, EntryModel)>::empty(),
            s@.contents =~= Seq::<(Seq<char>, Seq<u8>)>::empty(),
            store_wf(s@),
    {
        let s = Store { root, manifest: Vec::new(), contents: Vec::new() };
        proof {
            assert(s@.manifest =~= Seq::<(Seq<char>, EntryModel)>::empty());
            assert(s@.contents =~= Seq::<(Seq<char>, Seq<u8>)>::empty());
        }
        s
    }

    /// The directory the store is rooted at.
    pub fn root_dir(&self) -> (r: &String)
        ensures
            r@ == self@.root,
    {
        &self.root
    }

    /// Computes the digest of `bytes`, records the content under the
    /// digest-derived path, and points `name` at it, overwriting any earlier
    /// entry for `name`; a content file no name references any more is
    /// dropped.  Returns the recorded entry.
    pub fn put(&mut self, name: &String, bytes: Vec<u8>, source: &PolicyReference, verified: bool) -> (e: StoreEntry)
        requires
            store_wf(old(self)@),
        ensures
            store_wf(final(self)@),
            final(self)@ == store_put(old(self)@, name@, bytes@, source@, verified),
            e@ == put_entry(old(self)@.root, bytes@, source@, verified),
    {
        let ghost s0 = self@;
        let ghost dd = digest_of(bytes@);
        let d = compute_digest(&bytes);
        let path = render_path(&self.root, &d);
        let entry = StoreEntry {
            digest: d.clone(),
            local_path: path,
            source_reference: source.duplicate(),
            verified,
            pushed_tag: None,
        };
        proof {
            assert(entry@ =~= put_entry(s0.root, bytes@, source@, verified));
        }
        // make sure the content file for `d` is stored
        match find_pair_index(&self.contents, &d) {
            Some(ci) => {
                proof {
                    assert(s0.contents[ci as int].0 == self.contents@[ci as int].0@);
                    assert(has_key(s0.contents, dd));
                    assert(self@.contents =~= contents_add(s0.contents, dd, bytes@));
                }
            },
            None => {
                proof {
                    assert forall|j: int| 0 <= j < s0.contents.len() implies s0.contents[j].0
                        != dd by {
                        assert(s0.contents[j].0 == self.contents@[j].0@);
                    }
                    assert(!has_key(s0.contents, dd));
                }
                self.contents.push((d.clone(), bytes));
                proof {
                    assert(self@.contents =~= contents_add(s0.contents, dd, bytes@));
                }
            },
        }
        let ghost c1 = self@.contents;
        // record the manifest entry
        match find_pair_index(&self.manifest, name) {
            Some(i) => {
                proof {
                    lemma_key_index_unique(s0.manifest, name@, i as int);
                }
                let od: String = self.manifest[i].1.digest.clone();
                let ghost odd = od@;
                let _ = self.manifest.remove(i);
                self.manifest.insert(i, (name.clone(), entry.duplicate()));
                proof {
                    let m1 = s0.manifest.update(i as int, (name@, entry@));
                    assert(self@.manifest =~= m1);
                    assert(odd == s0.manifest[i as int].1.digest);
                }
                // drop the old content file when nothing references it
                let still = Self::digest_in_manifest(&self.manifest, &od);
                proof {
                    assert(still == digest_referenced(self@.manifest, odd));
                }
                if !still {
                    match find_pair_index(&self.contents, &od) {
                        Some(j) => {
                            proof {
                                lemma_store_put_wf(s0, name@, bytes@, source@, verified);
                                assert(distinct_keys(c1));
                                lemma_key_index_unique(c1, odd, j as int);
                            }
                            let _ = self.contents.remove(j);
                            proof {
                                assert(self@.contents =~= c1.remove(j as int));
                                assert(self@.contents =~= contents_drop(c1, odd));
                            }
                        },
                        None => {
                            proof {
                                // `od` is stored: the old entry's digest had a
                                // content file, and nothing was dropped yet
                                assert(has_key(s0.contents, odd));
                                let w = key_index(s0.contents, odd);
                                assert(c1[w].0 == odd);
                                assert(c1[w].0 == self.contents@[w].0@);
                                assert(false);
                            }
                        },
                    }
                }
            },
            None => {
                proof {
                    assert forall|j: int| 0 <= j < s0.manifest.len() implies s0.manifest[j].0
                        != name@ by {
                        assert(s0.manifest[j].0 == self.manifest@[j].0@);
                    }
                    assert(!has_key(s0.manifest, name@));
                }
                self.manifest.push((name.clone(), entry.duplicate()));
                proof {
                    assert(self@.manifest =~= s0.manifest.push((name@, entry@)));
                }
            },
        }
        proof {
            lemma_store_put_wf(s0, name@, bytes@, source@, verified);
            assert(self@ =~~= store_put(s0, name@, bytes@, source@, verified));
        }
        entry
    }

    /// Manifest lookup in the order entries were recorded.  Trusts the prior
    /// `put`'s atomicity: the content hash is not recomputed here.
    pub fn get(&self, name: &String) -> (r: Option<&StoreEntry>)
        requires
            store_wf(self@),
        ensures
            match r {
                Some(e) => has_key(self@.manifest, name@) && e@ == lookup(self@.manifest, name@),
                None => !has_key(self@.manifest, name@),
            },
    {
        match find_pair_index(&self.manifest, name) {
            Some(i) => {
                proof {
                    lemma_key_index_unique(self@.manifest, name@, i as int);
                }
                Some(&self.manifest[i].1)
            },
            None => {
                proof {
                    assert forall|j: int| 0 <= j < self@.manifest.len() implies self@.manifest[j].0
                        != name@ by {
                        assert(self@.manifest[j].0 == self.manifest@[j].0@);
                    }
                }
                None
            },
        }
    }

    /// Manifest lookup that additionally recomputes the content hash:
    /// an entry whose bytes no longer match its digest is reported corrupt.
    pub fn get_verified(&self, name: &String) -> (r: Result<Option<&StoreEntry>, PolicyError>)
        requires
            store_wf(self@),
        ensures
            match r {
                Ok(Some(e)) => has_key(self@.manifest, name@) && e@ == lookup(
                    self@.manifest,
                    name@,
                ) && entry_ok(self@, name@),
                Ok(None) => !has_key(self@.manifest, name@),
                Err(err) => has_key(self@.manifest, name@) && !entry_ok(self@, name@) && (
                err matches PolicyError::CorruptEntry(n) && n@ == name@),
            },
    {
        match find_pair_index(&self.manifest, name) {
            Some(i) => {
                proof {
                    lemma_key_index_unique(self@.manifest, name@, i as int);
                }
                let e: &StoreEntry = &self.manifest[i].1;
                match find_pair_index(&self.contents, &e.digest) {
                    Some(j) => {
                        proof {
                            lemma_key_index_unique(self@.contents, e.digest@, j as int);
                        }
                        let recomputed = compute_digest(&self.contents[j].1);
                        if recomputed == e.digest {
                            Ok(Some(e))
                        } else {
                            Err(PolicyError::CorruptEntry(name.clone()))
                        }
                    },
                    None => {
                        proof {
                            assert(has_key(self@.contents, e.digest@));
                            let w = key_index(self@.contents, e.digest@);
                            assert(self@.contents[w].0 == self.contents@[w].0@);
                            assert(false);
                        }
                        Err(PolicyError::CorruptEntry(name.clone()))
                    },
                }
            },
            None => {
                proof {
                    assert forall|j: int| 0 <= j < self@.manifest.len() implies self@.manifest[j].0
                        != name@ by {
                        assert(self@.manifest[j].0 == self.manifest@[j].0@);
                    }
                }
                Ok(None)
            },
        }
    }

    /// The entries in manifest order, as fresh copies.
    pub fn list(&self) -> (r: Vec<StoreEntry>)
        ensures
            r@.len() == self@.manifest.len(),
            forall|i: int| 0 <= i < r@.len() ==> (#[trigger] r@[i])@ == self@.manifest[i].1,
    {
        let n = self.manifest.len();
        let mut out: Vec<StoreEntry> = Vec::new();
        let mut i: usize = 0;
        while i < n
            invariant
                i <= n,
                n == self.manifest@.len(),
                out@.len() == i,
                forall|j: int| 0 <= j < i ==> (#[trigger] out@[j])@ == self@.manifest[j].1,
            decreases n - i,
        {
            out.push(self.manifest[i].1.duplicate());
            i += 1;
        }
        out
    }

    /// The manifest's names, in the same order as `list`.
    pub fn names(&self) -> (r: Vec<String>)
        ensures
            r@.len() == self@.manifest.len(),
            forall|i: int| 0 <= i < r@.len() ==> (#[trigger] r@[i])@ == self@.manifest[i].0,
    {
        let n = self.manifest.len();
        let mut out: Vec<String> = Vec::new();
        let mut i: usize = 0;
        while i < n
            invariant
                i <= n,
                n == self.manifest@.len(),
                out@.len() == i,
                forall|j: int| 0 <= j < i ==> (#[trigger] out@[j])@ == self@.manifest[j].0,
            decreases n - i,
        {
            out.push(self.manifest[i].0.clone());
            i += 1;
        }
        out
    }

    /// The stored bytes for a digest.
    pub fn content_of(&self, digest: &String) -> (r: Option<&Vec<u8>>)
        requires
            store_wf(self@),
        ensures
            match r {
                Some(b) => has_key(self@.contents, digest@) && b@ == lookup(
                    self@.contents,
                    digest@,
                ),
                None => !has_key(self@.contents, digest@),
            },
    {
        match find_pair_index(&self.contents, digest) {
            Some(j) => {
                proof {
                    lemma_key_index_unique(self@.contents, digest@, j as int);
                }
                Some(&self.contents[j].1)
            },
            None => {
                proof {
                    assert forall|j: int| 0 <= j < self@.contents.len() implies self@.contents[j].0
                        != digest@ by {
                        assert(self@.contents[j].0 == self.contents@[j].0@);
                    }
                }
                None
            },
        }
    }

    /// Deletes the manifest entry for `name` and, when no other name
    /// references the same digest, the underlying content file.  Reports
    /// whether the name was held.
    pub fn remove(&mut self, name: &String) -> (r: bool)
        requires
            store_wf(old(self)@),
        ensures
            store_wf(final(self)@),
            r == has_key(old(self)@.manifest, name@),
            final(self)@ == store_remove(old(self)@, name@),
    {
        let ghost s0 = self@;
        match find_pair_index(&self.manifest, name) {
            Some(i) => {
                proof {
                    lemma_key_index_unique(s0.manifest, name@, i as int);
                }
                let od: String = self.manifest[i].1.digest.clone();
                let ghost odd = od@;
                let _ = self.manifest.remove(i);
                proof {
                    assert(self@.manifest =~= s0.manifest.remove(i as int));
                    assert(odd == s0.manifest[i as int].1.digest);
                }
                let still = Self::digest_in_manifest(&self.manifest, &od);
                if !still {
                    match find_pair_index(&self.contents, &od) {
                        Some(j) => {
                            proof {
                                lemma_key_index_unique(s0.contents, odd, j as int);
                            }
                            let _ = self.contents.remove(j);
                            proof {
                                assert(self@.contents =~= contents_drop(s0.contents, odd));
                            }
                        },
                        None => {
                            proof {
                                assert(has_key(s0.contents, odd));
                                let w = key_index(s0.contents, odd);
                                assert(s0.contents[w].0 == self.contents@[w].0@);
                                assert(false);
                            }
                        },
                    }
                }
                proof {
                    lemma_store_remove_wf(s0, name@);
                    assert(self@ =~~= store_remove(s0, name@));
                }
                true
            },
            None => {
                proof {
                    assert forall|j: int| 0 <= j < s0.manifest.len() implies s0.manifest[j].0
                        != name@ by {
                        assert(s0.manifest[j].0 == self.manifest@[j].0@);
                    }
                    assert(!has_key(s0.manifest, name@));
                }
                false
            },
        }
    }

    /// Notes the tag the entry for `name` was last pushed under.  Reports
    /// whether the name was held.
    pub fn record_push(&mut self, name: &String, tag: String) -> (r: bool)
        requires
            store_wf(old(self)@),
        ensures
            store_wf(final(self)@),
            r == has_key(old(self)@.manifest, name@),
            final(self)@ == store_record_push(old(self)@, name@, tag@),
    {
        let ghost s0 = self@;
        match find_pair_index(&self.manifest, name) {
            Some(i) => {
                proof {
                    lemma_key_index_unique(s0.manifest, name@, i as int);
                }
                let e2: StoreEntry = {
                    let e: &StoreEntry = &self.manifest[i].1;
                    StoreEntry {
                        digest: e.digest.clone(),
                        local_path: e.local_path.clone(),
                        source_reference: e.source_reference.duplicate(),
                        verified: e.verified,
                        pushed_tag: Some(tag),
                    }
                };
                proof {
                    assert(e2@ =~= EntryModel {
                        pushed_tag: e2@.pushed_tag,
                        ..s0.manifest[i as int].1
                    });
                }
                let _ = self.manifest.remove(i);
                self.manifest.insert(i, (name.clone(), e2));
                proof {
                    let m1 = store_record_push(s0, name@, tag@).manifest;
                    assert(self@.manifest =~= m1);
                    assert(self@ =~~= store_record_push(s0, name@, tag@));
                    assert forall|k: int| 0 <= k < m1.len() implies has_key(
                        s0.contents,
                        (#[trigger] m1[k]).1.digest,
                    ) && m1[k].1.local_path == path_of(s0.root, m1[k].1.digest) by {
                        if k != i {
                            assert(m1[k] == s0.manifest[k]);
                        } else {
                            assert(m1[k].1.digest == s0.manifest[k].1.digest);
                            assert(m1[k].1.local_path == s0.manifest[k].1.local_path);
                        }
                    }
                    assert(distinct_keys(m1)) by {
                        assert forall|i1: int, i2: int|
                            0 <= i1 < i2 < m1.len() implies m1[i1].0 != m1[i2].0 by {
                            assert(m1[i1].0 == s0.manifest[i1].0);
                            assert(m1[i2].0 == s0.manifest[i2].0);
                        }
                    }
                }
                true
            },
            None => {
                proof {
                    assert forall|j: int| 0 <= j < s0.manifest.len() implies s0.manifest[j].0
                        != name@ by {
                        assert(s0.manifest[j].0 == self.manifest@[j].0@);
                    }
                    assert(!has_key(s0.manifest, name@));
                }
                false
            },
        }
    }

    /// Rebuilds a store from persisted parts, checking their structure:
    /// names unique, content digests unique, every entry's digest stored,
    /// every entry's path the digest-derived one.  Content hashes are not
    /// recomputed here; `get_verified` does that per entry.  The error names
    /// the first offending manifest name or content digest.
    pub fn restore(
        root: String,
        manifest: Vec<(String, StoreEntry)>,
        contents: Vec<(String, Vec<u8>)>,
    ) -> (r: Result<Store, PolicyError>)
        ensures
            match r {
                Ok(s) => s@ == (StoreModel {
                    root: root@,
                    manifest: manifest_view(manifest@),
                    contents: contents_view(contents@),
                }) && store_wf(s@),
                Err(e) => !store_wf(
                    StoreModel {
                        root: root@,
                        manifest: manifest_view(manifest@),
                        contents: contents_view(contents@),
                    },
                ) && e matches PolicyError::CorruptEntry(_),
            },
    {
        let ghost mv = manifest_view(manifest@);
        let ghost cv = contents_view(contents@);
        let n = manifest.len();
        let mut i: usize = 0;
        while i < n
            invariant
                i <= n,
                n == manifest@.len(),
                mv == manifest_view(manifest@),
                cv == contents_view(contents@),
                mv.len() == n,
                forall|a: int, b: int| 0 <= a < b < i ==> mv[a].0 != mv[b].0,
                forall|a: int| 0 <= a < i ==> has_key(cv, (#[trigger] mv[a]).1.digest),
                forall|a: int|
                    0 <= a < i ==> (#[trigger] mv[a]).1.local_path == path_of(
                        root@,
                        mv[a].1.digest,
                    ),
            decreases n - i,
        {
            let pair: &(String, StoreEntry) = &manifest[i];
            let mut j: usize = 0;
            while j < i
                invariant
                    j <= i < n,
                    n == manifest@.len(),
                    mv == manifest_view(manifest@),
                    mv.len() == n,
                    pair.0@ == mv[i as int].0,
                    forall|a: int| 0 <= a < j ==> mv[a].0 != mv[i as int].0,
                decreases i - j,
            {
                let earlier: &(String, StoreEntry) = &manifest[j];
                proof {
                    assert(mv[j as int].0 == manifest@[j as int].0@);
                    assert(mv[i as int].0 == manifest@[i as int].0@);
                }
                if earlier.0 == pair.0 {
                    proof {
                        assert(mv[j as int].0 == mv[i as int].0);
                        assert(!distinct_keys(mv));
                    }
                    return Err(PolicyError::CorruptEntry(manifest[i].0.clone()));
                }
                j += 1;
            }
            match find_pair_index(&contents, &pair.1.digest) {
                Some(ci) => {
                    proof {
                        assert(cv[ci as int].0 == contents@[ci as int].0@);
                        assert(has_key(cv, mv[i as int].1.digest));
                    }
                },
                None => {
                    proof {
                        assert forall|a: int| 0 <= a < cv.len() implies cv[a].0 != mv[
                            i as int
                        ].1.digest by {
                            assert(cv[a].0 == contents@[a].0@);
                        }
                        assert(!has_key(cv, mv[i as int].1.digest));
                    }
                    return Err(PolicyError::CorruptEntry(manifest[i].0.clone()));
                },
            }
            let expected = render_path(&root, &pair.1.digest);
            if !(expected == pair.1.local_path) {
                proof {
                    assert(mv[i as int].1.local_path != path_of(root@, mv[i as int].1.digest));
                }
                return Err(PolicyError::CorruptEntry(manifest[i].0.clone()));
            }
            proof {
                assert(mv[i as int].1.local_path == path_of(root@, mv[i as int].1.digest));
            }
            i += 1;
        }
        let cn = contents.len();
        let mut a: usize = 0;
        while a < cn
            invariant
                a <= cn,
                cn == contents@.len(),
                cv == contents_view(contents@),
                cv.len() == cn,
                forall|x: int, y: int| 0 <= x < y < a ==> cv[x].0 != cv[y].0,
            decreases cn - a,
        {
            let mut b: usize = 0;
            while b < a
                invariant
                    b <= a < cn,
                    cn == contents@.len(),
                    cv == contents_view(contents@),
                    cv.len() == cn,
                    forall|x: int| 0 <= x < b ==> cv[x].0 != cv[a as int].0,
                decreases a - b,
            {
                if contents[b].0 == contents[a].0 {
                    proof {
                        assert(cv[b as int].0 == cv[a as int].0);
                        assert(!distinct_keys(cv));
                    }
                    return Err(PolicyError::CorruptEntry(contents[a].0.clone()));
                }
                proof {
                    assert(cv[b as int].0 == contents@[b as int].0@);
                    assert(cv[a as int].0 == contents@[a as int].0@);
                }
                b += 1;
            }
            a += 1;
        }
        let s = Store { root, manifest, contents };
        proof {
            assert(s@ =~~= StoreModel { root: s.root@, manifest: mv, contents: cv });
        }
        Ok(s)
    }

    /// True when some manifest entry records the digest `d`.
    fn digest_in_manifest(m: &Vec<(String, StoreEntry)>, d: &String) -> (r: bool)
        ensures
            r == digest_referenced(manifest_view(m@), d@),
    {
        let n = m.len();
        let mut i: usize = 0;
        while i < n
            invariant
                i <= n,
                n == m@.len(),
                forall|j: int| 0 <= j < i ==> manifest_view(m@)[j].1.digest != d@,
            decreases n - i,
        {
            if m[i].1.digest == *d {
                proof {
                    assert(manifest_view(m@)[i as int].1.digest == d@);
                }
                return true;
            }
            proof {
                assert(manifest_view(m@)[i as int].1.digest == m@[i as int].1.digest@);
            }
            i += 1;
        }
        false
    }
}

} // verus!

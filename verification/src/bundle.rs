use vstd::prelude::*;
use crate::assoc::{
    distinct_keys, find_pair_index, has_key, key_index, lemma_key_index_unique, lookup, str_views,
};
use crate::digest::{compute_digest, digest_of};
use crate::errors::PolicyError;
use crate::reference::{PolicyReference, ReferenceModel, Scheme};
use crate::store::{
    contents_view, entry_ok, lemma_store_put_lookup, lemma_store_put_wf, path_of, put_entry,
    render_path, store_put, store_wf, EntryModel, Store, StoreEntry, StoreModel,
};

verus! {

/// One line of a bundle's manifest: which policy name the archived file at
/// `relative_path` restores, and the digest its content must hash to.
#[derive(Debug)]
pub struct BundleEntry {
    pub name: String,
    pub digest: String,
    pub relative_path: String,
}

/// Mathematical shape of a `BundleEntry`.
#[verifier::ext_equal]
pub struct BundleEntryModel {
    pub name: Seq<char>,
    pub digest: Seq<char>,
    pub relative_path: Seq<char>,
}

impl View for BundleEntry {
    type V = BundleEntryModel;

    open spec fn view(&self) -> BundleEntryModel {
        BundleEntryModel {
            name: self.name@,
            digest: self.digest@,
            relative_path: self.relative_path@,
        }
    }
}

/// A portable archive: the manifest in order, and one file per referenced
/// digest.  Compression and on-disk framing are the caller's concern; this
/// codec fixes the content.
#[derive(Debug)]
pub struct Bundle {
    pub entries: Vec<BundleEntry>,
    pub files: Vec<(String, Vec<u8>)>,
}

/// Mathematical shape of a `Bundle`.
#[verifier::ext_equal]
pub struct BundleModel {
    pub entries: Seq<BundleEntryModel>,
    pub files: Seq<(Seq<char>, Seq<u8>)>,
}

/// The views of a sequence of bundle entries.
pub open spec fn entries_view(v: Seq<BundleEntry>) -> Seq<BundleEntryModel> {
    v.map_values(|e: BundleEntry| e@)
}

impl View for Bundle {
    type V = BundleModel;

    open spec fn view(&self) -> BundleModel {
        BundleModel {
            entries: entries_view(self.entries@),
            files: contents_view(self.files@),
        }
    }
}

/// The manifest lines `export` writes for `names`: each name with its
/// entry's digest, the archived file named by that digest.
pub open spec fn export_entries(
    m: Seq<(Seq<char>, EntryModel)>,
    names: Seq<Seq<char>>,
) -> Seq<BundleEntryModel> {
    names.map_values(
        |n: Seq<char>|
            BundleEntryModel {
                name: n,
                digest: lookup(m, n).digest,
                relative_path: lookup(m, n).digest,
            },
    )
}

/// The files `export` writes for `names`: one per distinct digest, in first
/// use order, carrying the stored bytes.
pub open spec fn export_files(
    c: Seq<(Seq<char>, Seq<u8>)>,
    m: Seq<(Seq<char>, EntryModel)>,
    names: Seq<Seq<char>>,
) -> Seq<(Seq<char>, Seq<u8>)>
    decreases names.len(),
{
    if names.len() == 0 {
        Seq::empty()
    } else {
        let prev = export_files(c, m, names.drop_last());
        let d = lookup(m, names.last()).digest;
        if has_key(prev, d) {
            prev
        } else {
            prev.push((d, lookup(c, d)))
        }
    }
}

/// Every file `export` writes is keyed by a fresh digest and carries exactly
/// the stored bytes for it.
pub proof fn lemma_export_files_ok(
    c: Seq<(Seq<char>, Seq<u8>)>,
    m: Seq<(Seq<char>, EntryModel)>,
    names: Seq<Seq<char>>,
)
    ensures
        distinct_keys(export_files(c, m, names)),
        forall|i: int|
            0 <= i < export_files(c, m, names).len() ==> (#[trigger] export_files(c, m, names)[i]).1
                == lookup(c, export_files(c, m, names)[i].0),
        forall|k: int|
            0 <= k < names.len() ==> has_key(
                export_files(c, m, names),
                lookup(m, #[trigger] names[k]).digest,
            ),
    decreases names.len(),
{
    if names.len() > 0 {
        lemma_export_files_ok(c, m, names.drop_last());
        let prev = export_files(c, m, names.drop_last());
        let d = lookup(m, names.last()).digest;
        let f = export_files(c, m, names);
        if !has_key(prev, d) {
            assert(f == prev.push((d, lookup(c, d))));
            assert forall|i1: int, i2: int| 0 <= i1 < i2 < f.len() implies f[i1].0 != f[i2].0 by {
                if i2 < f.len() - 1 {
                    assert(f[i1] == prev[i1] && f[i2] == prev[i2]);
                } else {
                    assert(f[i1] == prev[i1]);
                }
            }
        }
        assert forall|k: int| 0 <= k < names.len() implies has_key(
            f,
            lookup(m, #[trigger] names[k]).digest,
        ) by {
            if k < names.len() - 1 {
                assert(names.drop_last()[k] == names[k]);
                let dk = lookup(m, names[k]).digest;
                let w = choose|w: int| 0 <= w < prev.len() && prev[w].0 == dk;
                assert(f[w].0 == dk);
            } else {
                if has_key(prev, d) {
                    let w = choose|w: int| 0 <= w < prev.len() && prev[w].0 == d;
                    assert(f[w].0 == d);
                } else {
                    assert(f[f.len() - 1].0 == d);
                }
            }
        }
    }
}

/// A fresh copy of a byte vector.
fn copy_bytes(v: &Vec<u8>) -> (r: Vec<u8>)
    ensures
        r@ == v@,
{
    let n = v.len();
    let mut r: Vec<u8> = Vec::new();
    let mut i: usize = 0;
    while i < n
        invariant
            i <= n,
            n == v@.len(),
            r@ =~= v@.take(i as int),
        decreases n - i,
    {
        r.push(v[i]);
        i += 1;
    }
    assert(r@ =~= v@);
    r
}

/// Serializes the store entries for `names` into a bundle: one manifest line
/// per name, one archived file per distinct digest.  A name the store does
/// not hold fails the whole export.
pub fn export(store: &Store, names: &Vec<String>) -> (r: Result<Bundle, PolicyError>)
    requires
        store_wf(store@),
    ensures
        match r {
            Ok(b) => {
                let ns = str_views(names@);
                &&& forall|i: int|
                    0 <= i < ns.len() ==> has_key(store@.manifest, #[trigger] ns[i])
                &&& b@.entries == export_entries(store@.manifest, ns)
                &&& b@.files == export_files(store@.contents, store@.manifest, ns)
            },
            Err(e) => e matches PolicyError::UnknownPolicyName(n) && names@.contains(n)
                && !has_key(store@.manifest, n@),
        },
{
    let ghost ns = str_views(names@);
    let n = names.len();
    let mut entries: Vec<BundleEntry> = Vec::new();
    let mut files: Vec<(String, Vec<u8>)> = Vec::new();
    let mut i: usize = 0;
    while i < n
        invariant
            i <= n,
            n == names@.len(),
            ns == str_views(names@),
            store_wf(store@),
            forall|k: int| 0 <= k < i ==> has_key(store@.manifest, #[trigger] ns[k]),
            entries_view(entries@) =~= export_entries(store@.manifest, ns.take(i as int)),
            contents_view(files@) =~= export_files(
                store@.contents,
                store@.manifest,
                ns.take(i as int),
            ),
        decreases n - i,
    {
        let name: &String = &names[i];
        match store.get(name) {
            None => {
                proof {
                    assert(names@.contains(names@[i as int]));
                }
                return Err(PolicyError::UnknownPolicyName(name.clone()));
            },
            Some(entry) => {
                let ghost e0 = entries@;
                entries.push(
                    BundleEntry {
                        name: name.clone(),
                        digest: entry.digest.clone(),
                        relative_path: entry.digest.clone(),
                    },
                );
                let ghost prev = export_files(store@.contents, store@.manifest, ns.take(i as int));
                let ghost d = lookup(store@.manifest, ns[i as int]).digest;
                match find_pair_index(&files, &entry.digest) {
                    Some(fi) => {
                        proof {
                            assert(prev[fi as int].0 == files@[fi as int].0@);
                            assert(has_key(prev, d));
                        }
                    },
                    None => {
                        proof {
                            assert forall|j: int| 0 <= j < prev.len() implies prev[j].0 != d by {
                                assert(prev[j].0 == files@[j].0@);
                            }
                            assert(!has_key(prev, d));
                        }
                        match store.content_of(&entry.digest) {
                            Some(bytes) => {
                                files.push((entry.digest.clone(), copy_bytes(bytes)));
                            },
                            None => {
                                proof {
                                    let w = key_index(store@.manifest, ns[i as int]);
                                    assert(has_key(
                                        store@.contents,
                                        store@.manifest[w].1.digest,
                                    ));
                                    assert(false);
                                }
                            },
                        }
                    },
                }
                proof {
                    assert(ns.take(i as int + 1).drop_last() =~= ns.take(i as int));
                    assert(ns.take(i as int + 1).last() == ns[i as int]);
                    let tgt = export_entries(store@.manifest, ns.take(i as int + 1));
                    assert(entries_view(e0).len() == i as int);
                    assert(e0.len() == i as int);
                    assert(entries@.len() == i as int + 1);
                    assert forall|j: int| 0 <= j < i + 1 implies entries_view(entries@)[j] == tgt[
                        j
                    ] by {
                        if j < i {
                            assert(entries@[j] == e0[j]);
                            assert(ns.take(i as int + 1)[j] == ns.take(i as int)[j]);
                            assert(entries_view(e0)[j] == export_entries(
                                store@.manifest,
                                ns.take(i as int),
                            )[j]);
                        } else {
                            assert(ns.take(i as int + 1)[j] == ns[i as int]);
                            assert(name@ == ns[i as int]);
                            assert(entries@[j]@.name == ns[i as int]);
                            assert(entries@[j]@.digest == lookup(
                                store@.manifest,
                                ns[i as int],
                            ).digest);
                            assert(entries_view(entries@)[j] =~= tgt[j]);
                        }
                    }
                    assert(entries_view(entries@) =~= tgt);
                    assert(contents_view(files@) =~= export_files(
                        store@.contents,
                        store@.manifest,
                        ns.take(i as int + 1),
                    ));
                }
            },
        }
        i += 1;
    }
    proof {
        assert(ns.take(n as int) =~= ns);
    }
    let b = Bundle { entries, files };
    proof {
        assert(b@.entries =~= export_entries(store@.manifest, ns));
        assert(b@.files =~= export_files(store@.contents, store@.manifest, ns));
    }
    Ok(b)
}

/// Validity of a bundle: entry names unique, archived files unique, and
/// every manifest line's file present with content hashing to the recorded
/// digest.
pub open spec fn bundle_valid(b: BundleModel) -> bool {
    &&& forall|i: int, j: int|
        0 <= i < j < b.entries.len() ==> (#[trigger] b.entries[i]).name != (
        #[trigger] b.entries[j]).name
    &&& distinct_keys(b.files)
    &&& forall|i: int|
        0 <= i < b.entries.len() ==> has_key(b.files, (#[trigger] b.entries[i]).relative_path)
            && digest_of(lookup(b.files, b.entries[i].relative_path)) == b.entries[i].digest
}

/// The source recorded for an entry restored from a bundle: the content
/// file's own path under the store root.
pub open spec fn import_source(root: Seq<char>, digest: Seq<char>) -> ReferenceModel {
    ReferenceModel { scheme: Scheme::File, location: path_of(root, digest), digest: None }
}

/// The bundle cut down to its first `k` manifest lines.
pub open spec fn bundle_prefix(b: BundleModel, k: int) -> BundleModel {
    BundleModel { entries: b.entries.take(k), files: b.files }
}

/// The store `import` commits: each manifest line put in order, unverified.
pub open spec fn store_import(s: StoreModel, b: BundleModel) -> StoreModel
    decreases b.entries.len(),
{
    if b.entries.len() == 0 {
        s
    } else {
        let prev = store_import(
            s,
            BundleModel { entries: b.entries.drop_last(), files: b.files },
        );
        let e = b.entries.last();
        store_put(
            prev,
            e.name,
            lookup(b.files, e.relative_path),
            import_source(s.root, e.digest),
            false,
        )
    }
}

proof fn lemma_store_import_prefix_step(s: StoreModel, b: BundleModel, k: int)
    requires
        0 <= k < b.entries.len(),
    ensures
        store_import(s, bundle_prefix(b, k + 1)) == store_put(
            store_import(s, bundle_prefix(b, k)),
            b.entries[k].name,
            lookup(b.files, b.entries[k].relative_path),
            import_source(s.root, b.entries[k].digest),
            false,
        ),
{
    let bp = bundle_prefix(b, k + 1);
    assert(bp.entries.drop_last() =~= b.entries.take(k));
    assert(BundleModel { entries: bp.entries.drop_last(), files: b.files } =~~= bundle_prefix(
        b,
        k,
    ));
    assert(bp.entries.last() == b.entries[k]);
}

/// Restores every manifest line of the bundle into the store, after first
/// checking each line against its archived content: a single mismatch fails
/// the whole import and leaves the store exactly as it was.
pub fn import(store: &mut Store, bundle: &Bundle) -> (r: Result<Vec<StoreEntry>, PolicyError>)
    requires
        store_wf(old(store)@),
    ensures
        store_wf(final(store)@),
        match r {
            Ok(es) => {
                &&& bundle_valid(bundle@)
                &&& final(store)@ == store_import(old(store)@, bundle@)
                &&& es@.len() == bundle@.entries.len()
                &&& forall|j: int|
                    0 <= j < es@.len() ==> (#[trigger] es@[j])@ == put_entry(
                        old(store)@.root,
                        lookup(bundle@.files, bundle@.entries[j].relative_path),
                        import_source(old(store)@.root, bundle@.entries[j].digest),
                        false,
                    )
            },
            Err(e) => !bundle_valid(bundle@) && final(store)@ == old(store)@ && (
            e matches PolicyError::CorruptBundle(_)),
        },
{
    let ghost s0 = store@;
    let ghost bm = bundle@;
    // check that the archived files are uniquely keyed
    let fn_ = bundle.files.len();
    let mut a: usize = 0;
    while a < fn_
        invariant
            a <= fn_,
            fn_ == bundle.files@.len(),
            bm == bundle@,
            s0 == old(store)@,
            store@ == s0,
            store_wf(s0),
            forall|x: int, y: int| 0 <= x < y < a ==> bm.files[x].0 != bm.files[y].0,
        decreases fn_ - a,
    {
        let mut b: usize = 0;
        while b < a
            invariant
                b <= a < fn_,
                fn_ == bundle.files@.len(),
                bm == bundle@,
                s0 == old(store)@,
                store@ == s0,
                store_wf(s0),
                forall|x: int| 0 <= x < b ==> bm.files[x].0 != bm.files[a as int].0,
            decreases a - b,
        {
            proof {
                assert(bm.files[b as int].0 == bundle.files@[b as int].0@);
                assert(bm.files[a as int].0 == bundle.files@[a as int].0@);
            }
            if bundle.files[b].0 == bundle.files[a].0 {
                proof {
                    assert(!distinct_keys(bm.files));
                }
                return Err(PolicyError::CorruptBundle(bundle.files[a].0.clone()));
            }
            b += 1;
        }
        a += 1;
    }
    // check every manifest line before touching the store
    let n = bundle.entries.len();
    let mut i: usize = 0;
    while i < n
        invariant
            i <= n,
            n == bundle.entries@.len(),
            bm == bundle@,
            s0 == old(store)@,
            store@ == s0,
            store_wf(s0),
            distinct_keys(bm.files),
            forall|x: int, y: int|
                0 <= x < y < i ==> (#[trigger] bm.entries[x]).name != (
                #[trigger] bm.entries[y]).name,
            forall|x: int|
                0 <= x < i ==> has_key(bm.files, (#[trigger] bm.entries[x]).relative_path)
                    && digest_of(lookup(bm.files, bm.entries[x].relative_path))
                    == bm.entries[x].digest,
        decreases n - i,
    {
        let entry: &BundleEntry = &bundle.entries[i];
        proof {
            assert(entry@ == bm.entries[i as int]);
        }
        let mut j: usize = 0;
        while j < i
            invariant
                j <= i < n,
                n == bundle.entries@.len(),
                bm == bundle@,
                s0 == old(store)@,
                store@ == s0,
                store_wf(s0),
                entry@ == bm.entries[i as int],
                forall|x: int| 0 <= x < j ==> (#[trigger] bm.entries[x]).name != bm.entries[
                    i as int
                ].name,
            decreases i - j,
        {
            proof {
                assert(bm.entries[j as int] == bundle.entries@[j as int]@);
            }
            if bundle.entries[j].name == entry.name {
                proof {
                    assert(!bundle_valid(bm));
                }
                return Err(PolicyError::CorruptBundle(entry.name.clone()));
            }
            j += 1;
        }
        match find_pair_index(&bundle.files, &entry.relative_path) {
            None => {
                proof {
                    assert forall|x: int| 0 <= x < bm.files.len() implies bm.files[x].0 != bm.entries[
                        i as int
                    ].relative_path by {
                        assert(bm.files[x].0 == bundle.files@[x].0@);
                    }
                    assert(!has_key(bm.files, bm.entries[i as int].relative_path));
                    assert(!bundle_valid(bm));
                }
                return Err(PolicyError::CorruptBundle(entry.name.clone()));
            },
            Some(fi) => {
                proof {
                    assert(bm.files[fi as int].0 == bundle.files@[fi as int].0@);
                    lemma_key_index_unique(bm.files, bm.entries[i as int].relative_path, fi as int);
                }
                let recorded = compute_digest(&bundle.files[fi].1);
                if !(recorded == entry.digest) {
                    proof {
                        assert(lookup(bm.files, bm.entries[i as int].relative_path)
                            == bundle.files@[fi as int].1@);
                        assert(!bundle_valid(bm));
                    }
                    return Err(PolicyError::CorruptBundle(entry.name.clone()));
                }
                proof {
                    assert(digest_of(lookup(bm.files, bm.entries[i as int].relative_path))
                        == bm.entries[i as int].digest);
                }
            },
        }
        i += 1;
    }
    proof {
        assert(bundle_valid(bm));
    }
    // commit every line
    let root_copy = store.root_dir().clone();
    let mut out: Vec<StoreEntry> = Vec::new();
    let mut k: usize = 0;
    proof {
        assert(bundle_prefix(bm, 0).entries =~= Seq::<BundleEntryModel>::empty());
        assert(store@ == store_import(s0, bundle_prefix(bm, 0)));
    }
    while k < n
        invariant
            k <= n,
            n == bundle.entries@.len(),
            bm == bundle@,
            bundle_valid(bm),
            s0 == old(store)@,
            root_copy@ == s0.root,
            store_wf(store@),
            store@ == store_import(s0, bundle_prefix(bm, k as int)),
            store@.root == s0.root,
            out@.len() == k,
            forall|j: int|
                0 <= j < k ==> (#[trigger] out@[j])@ == put_entry(
                    s0.root,
                    lookup(bm.files, bm.entries[j].relative_path),
                    import_source(s0.root, bm.entries[j].digest),
                    false,
                ),
        decreases n - k,
    {
        let entry: &BundleEntry = &bundle.entries[k];
        proof {
            assert(entry@ == bm.entries[k as int]);
        }
        match find_pair_index(&bundle.files, &entry.relative_path) {
            None => {
                proof {
                    assert forall|x: int| 0 <= x < bm.files.len() implies bm.files[x].0 != bm.entries[
                        k as int
                    ].relative_path by {
                        assert(bm.files[x].0 == bundle.files@[x].0@);
                    }
                    assert(!has_key(bm.files, bm.entries[k as int].relative_path));
                    assert(false);
                }
                return Err(PolicyError::CorruptBundle(entry.name.clone()));
            },
            Some(fi) => {
                proof {
                    assert(bm.files[fi as int].0 == bundle.files@[fi as int].0@);
                    lemma_key_index_unique(bm.files, bm.entries[k as int].relative_path, fi as int);
                }
                let bytes = copy_bytes(&bundle.files[fi].1);
                let src = PolicyReference {
                    scheme: Scheme::File,
                    location: render_path(&root_copy, &entry.digest),
                    digest: None,
                };
                proof {
                    assert(src@ =~= import_source(s0.root, bm.entries[k as int].digest));
                    assert(bytes@ == lookup(bm.files, bm.entries[k as int].relative_path));
                }
                let e = store.put(&entry.name, bytes, &src, false);
                proof {
                    assert(e@ =~= put_entry(
                        s0.root,
                        lookup(bm.files, bm.entries[k as int].relative_path),
                        import_source(s0.root, bm.entries[k as int].digest),
                        false,
                    ));
                }
                out.push(e);
                proof {
                    lemma_store_import_prefix_step(s0, bm, k as int);
                    assert(store@ == store_import(s0, bundle_prefix(bm, k as int + 1)));
                }
            },
        }
        k += 1;
    }
    proof {
        assert(bundle_prefix(bm, n as int) =~~= bm);
        assert(store@ == store_import(s0, bm));
    }
    Ok(out)
}

/// Exporting names and importing the bundle into an empty store reproduces
/// the digest of every exported name.
pub proof fn lemma_export_import_round_trip(s: StoreModel, names: Seq<Seq<char>>, t0: StoreModel)
    requires
        store_wf(s),
        store_wf(t0),
        t0.manifest.len() == 0,
        forall|i: int| 0 <= i < names.len() ==> has_key(s.manifest, #[trigger] names[i]),
        forall|i: int| 0 <= i < names.len() ==> entry_ok(s, #[trigger] names[i]),
        forall|i: int, j: int| 0 <= i < j < names.len() ==> names[i] != names[j],
    ensures
        ({
            let b = BundleModel {
                entries: export_entries(s.manifest, names),
                files: export_files(s.contents, s.manifest, names),
            };
            let t = store_import(t0, b);
            &&& bundle_valid(b)
            &&& forall|i: int|
                0 <= i < names.len() ==> has_key(t.manifest, #[trigger] names[i]) && lookup(
                    t.manifest,
                    names[i],
                ).digest == lookup(s.manifest, names[i]).digest
        }),
{
    let b = BundleModel {
        entries: export_entries(s.manifest, names),
        files: export_files(s.contents, s.manifest, names),
    };
    lemma_export_files_ok(s.contents, s.manifest, names);
    assert(bundle_valid(b)) by {
        assert forall|i: int| 0 <= i < b.entries.len() implies has_key(
            b.files,
            (#[trigger] b.entries[i]).relative_path,
        ) && digest_of(lookup(b.files, b.entries[i].relative_path)) == b.entries[i].digest by {
            let d = lookup(s.manifest, names[i]).digest;
            assert(b.entries[i].relative_path == d);
            let w = key_index(b.files, d);
            assert(b.files[w].1 == lookup(s.contents, b.files[w].0));
            assert(lookup(b.files, d) == lookup(s.contents, d));
            assert(digest_of(lookup(s.contents, d)) == d);
        }
    }
    lemma_round_trip_aux(s, names, t0, b, names.len() as int);
    assert(bundle_prefix(b, names.len() as int) =~~= b);
}

proof fn lemma_round_trip_aux(
    s: StoreModel,
    names: Seq<Seq<char>>,
    t0: StoreModel,
    b: BundleModel,
    k: int,
)
    requires
        store_wf(s),
        store_wf(t0),
        t0.manifest.len() == 0,
        0 <= k <= names.len(),
        forall|i: int| 0 <= i < names.len() ==> has_key(s.manifest, #[trigger] names[i]),
        forall|i: int| 0 <= i < names.len() ==> entry_ok(s, #[trigger] names[i]),
        forall|i: int, j: int| 0 <= i < j < names.len() ==> names[i] != names[j],
        b == (BundleModel {
            entries: export_entries(s.manifest, names),
            files: export_files(s.contents, s.manifest, names),
        }),
    ensures
        store_wf(store_import(t0, bundle_prefix(b, k))),
        forall|i: int|
            0 <= i < k ==> has_key(
                store_import(t0, bundle_prefix(b, k)).manifest,
                #[trigger] names[i],
            ) && lookup(store_import(t0, bundle_prefix(b, k)).manifest, names[i]).digest == lookup(
                s.manifest,
                names[i],
            ).digest,
    decreases k,
{
    lemma_export_files_ok(s.contents, s.manifest, names);
    if k == 0 {
        assert(bundle_prefix(b, 0).entries =~= Seq::<BundleEntryModel>::empty());
    } else {
        lemma_round_trip_aux(s, names, t0, b, k - 1);
        let prev = store_import(t0, bundle_prefix(b, k - 1));
        lemma_store_import_prefix_step(t0, b, k - 1);
        let e = b.entries[k - 1];
        assert(e.name == names[k - 1]);
        let d = lookup(s.manifest, names[k - 1]).digest;
        assert(e.digest == d && e.relative_path == d);
        let bytes = lookup(b.files, d);
        assert(bytes == lookup(s.contents, d)) by {
            let w = key_index(b.files, d);
            assert(b.files[w].1 == lookup(s.contents, b.files[w].0));
        }
        assert(digest_of(bytes) == d);
        lemma_store_put_wf(prev, e.name, bytes, import_source(t0.root, e.digest), false);
        lemma_store_put_lookup(prev, e.name, bytes, import_source(t0.root, e.digest), false);
        let t = store_import(t0, bundle_prefix(b, k));
        assert(lookup(t.manifest, names[k - 1]).digest == d);
        assert forall|i: int| 0 <= i < k - 1 implies has_key(t.manifest, #[trigger] names[i])
            && lookup(t.manifest, names[i]).digest == lookup(s.manifest, names[i]).digest by {
            assert(names[i] != names[k - 1]);
            assert(has_key(prev.manifest, names[i]));
        }
    }
}

} // verus!

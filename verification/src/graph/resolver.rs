//! The dependency resolver of one package. It files the requirements that the
//! package declares in two tables, one for the renamed ones and one for the
//! others, and then finds for each resolved dependency the requirements behind
//! it.

use crate::errors::{Error, ErrorView};
use crate::graph::model::{
    bucket, display_name, is_renamed, resolve_spec, table_key, PackageDataView, Resolution,
};
use crate::metadata::{views, Dependency, DependencyView, PackageId};
use crate::strings::replace_dashes;
use semver::Version;
use vstd::hash_map::StringHashMap;
use vstd::prelude::*;

verus! {

/// What the builder remembers of a package.
pub struct PackageData {
    pub node_idx: usize,
    pub name: String,
    pub version: Version,
}

impl View for PackageData {
    type V = PackageDataView;

    open spec fn view(&self) -> PackageDataView {
        PackageDataView { node_idx: self.node_idx as int, name: self.name@, version: self.version }
    }
}

/// The views of the entries of a package index.
pub open spec fn data_views(data: Map<Seq<char>, PackageData>) -> Map<Seq<char>, PackageDataView> {
    Map::new(|id: Seq<char>| data.contains_key(id), |id: Seq<char>| data[id]@)
}

/// The requirements filed under one key, with the name an edge shows for them.
pub struct Bucket<'a> {
    name: &'a str,
    deps: Vec<&'a Dependency>,
}

/// One of the two tables of a resolver.
pub struct DependencyTable<'a> {
    index: StringHashMap<usize>,
    buckets: Vec<Bucket<'a>>,
}

/// A requirement that belongs to the other table leaves every bucket as it is.
pub proof fn lemma_bucket_skip(seen: Seq<DependencyView>, d: DependencyView, renamed: bool)
    requires
        table_key(d, renamed) is None,
    ensures
        forall|key: Seq<char>| #[trigger]
            bucket(seen.push(d), renamed, key) == bucket(seen, renamed, key),
{
    assert(seen.push(d).drop_last() =~= seen);
}

/// A requirement filed under `key` goes to the end of that bucket and leaves
/// the others as they are.
pub proof fn lemma_bucket_add(
    seen: Seq<DependencyView>,
    d: DependencyView,
    renamed: bool,
    key: Seq<char>,
)
    requires
        table_key(d, renamed) == Some(key),
    ensures
        bucket(seen.push(d), renamed, key) == bucket(seen, renamed, key).push(d),
        forall|other: Seq<char>|
            other != key ==> #[trigger] bucket(seen.push(d), renamed, other) == bucket(
                seen,
                renamed,
                other,
            ),
{
    assert(seen.push(d).drop_last() =~= seen);
}

/// Every requirement of a bucket is filed under the bucket's key, and is one
/// of the requirements declared.
pub proof fn lemma_bucket_members(deps: Seq<DependencyView>, renamed: bool, key: Seq<char>)
    ensures
        forall|i: int|
            0 <= i < bucket(deps, renamed, key).len() ==> {
                &&& table_key(#[trigger] bucket(deps, renamed, key)[i], renamed) == Some(key)
                &&& deps.contains(bucket(deps, renamed, key)[i])
            },
    decreases deps.len(),
{
    if deps.len() > 0 {
        let rest = deps.drop_last();
        lemma_bucket_members(rest, renamed, key);
        assert forall|i: int| 0 <= i < bucket(deps, renamed, key).len() implies {
            &&& table_key(#[trigger] bucket(deps, renamed, key)[i], renamed) == Some(key)
            &&& deps.contains(bucket(deps, renamed, key)[i])
        } by {
            let b = bucket(deps, renamed, key);
            if i < bucket(rest, renamed, key).len() {
                assert(b[i] == bucket(rest, renamed, key)[i]);
                let p = choose|p: int| 0 <= p < rest.len() && rest[p] == b[i];
                assert(deps[p] == b[i]);
            } else {
                assert(b[i] == deps[deps.len() - 1]);
            }
        }
    }
}

impl<'a> DependencyTable<'a> {
    /// Whether the table holds exactly the requirements `seen`, each filed
    /// under its key.
    pub closed spec fn holds(&self, seen: Seq<DependencyView>, renamed: bool) -> bool {
        &&& forall|key: Seq<char>| #[trigger]
            self.index@.contains_key(key) <==> bucket(seen, renamed, key).len() > 0
        &&& forall|key: Seq<char>| #[trigger]
            self.index@.contains_key(key) ==> {
                let b = self.buckets[self.index@[key] as int];
                &&& self.index@[key] < self.buckets.len()
                &&& views(b.deps@) == bucket(seen, renamed, key)
                &&& b.name@ == display_name(bucket(seen, renamed, key)[0], renamed)
            }
        &&& forall|k1: Seq<char>, k2: Seq<char>|
            #![trigger self.index@.contains_key(k1), self.index@.contains_key(k2)]
            self.index@.contains_key(k1) && self.index@.contains_key(k2) && k1 != k2
                ==> self.index@[k1] != self.index@[k2]
    }

    fn new(Ghost(renamed): Ghost<bool>) -> (r: Self)
        ensures
            r.holds(Seq::empty(), renamed),
    {
        DependencyTable { index: StringHashMap::new(), buckets: Vec::new() }
    }

    /// Takes note of a requirement that belongs to the other table.
    proof fn skip(&self, seen: Seq<DependencyView>, d: DependencyView, renamed: bool)
        requires
            self.holds(seen, renamed),
            table_key(d, renamed) is None,
        ensures
            self.holds(seen.push(d), renamed),
    {
        lemma_bucket_skip(seen, d, renamed);
        assert forall|key: Seq<char>| #[trigger] self.index@.contains_key(key) implies {
            let b = self.buckets[self.index@[key] as int];
            &&& self.index@[key] < self.buckets.len()
            &&& views(b.deps@) == bucket(seen.push(d), renamed, key)
            &&& b.name@ == display_name(bucket(seen.push(d), renamed, key)[0], renamed)
        } by {
            assert(bucket(seen.push(d), renamed, key) == bucket(seen, renamed, key));
        }
        assert forall|key: Seq<char>| #[trigger]
            self.index@.contains_key(key) <==> bucket(seen.push(d), renamed, key).len() > 0 by {
            assert(bucket(seen.push(d), renamed, key) == bucket(seen, renamed, key));
        }
    }

    /// Files the requirement `dep` under `key`.
    fn add(
        &mut self,
        key: String,
        name: &'a str,
        dep: &'a Dependency,
        Ghost(seen): Ghost<Seq<DependencyView>>,
        Ghost(renamed): Ghost<bool>,
    )
        requires
            old(self).holds(seen, renamed),
            table_key(dep@, renamed) == Some(key@),
            name@ == display_name(dep@, renamed),
        ensures
            final(self).holds(seen.push(dep@), renamed),
    {
        let ghost before = *self;
        let ghost after = seen.push(dep@);
        proof {
            lemma_bucket_add(seen, dep@, renamed, key@);
        }
        match self.index.get(key.as_str()) {
            Some(idx) => {
                let idx = *idx;
                self.buckets[idx].deps.push(dep);
                proof {
                    assert(views(self.buckets[idx as int].deps@) =~= views(
                        before.buckets[idx as int].deps@,
                    ).push(dep@));
                    assert forall|other: Seq<char>| #[trigger]
                        self.index@.contains_key(other) implies {
                        let b = self.buckets[self.index@[other] as int];
                        &&& self.index@[other] < self.buckets.len()
                        &&& views(b.deps@) == bucket(after, renamed, other)
                        &&& b.name@ == display_name(bucket(after, renamed, other)[0], renamed)
                    } by {
                        assert(before.index@.contains_key(other));
                        if other != key@ {
                            assert(bucket(after, renamed, other) == bucket(seen, renamed, other));
                            assert(self.index@[other] != idx);
                        }
                    }
                    assert forall|other: Seq<char>| #[trigger]
                        self.index@.contains_key(other) <==> bucket(after, renamed, other).len()
                            > 0 by {
                        assert(before.index@.contains_key(other) <==> bucket(
                            seen,
                            renamed,
                            other,
                        ).len() > 0);
                        if other != key@ {
                            assert(bucket(after, renamed, other) == bucket(seen, renamed, other));
                        }
                    }
                }
            },
            None => {
                let idx = self.buckets.len();
                let mut deps: Vec<&'a Dependency> = Vec::new();
                deps.push(dep);
                self.buckets.push(Bucket { name, deps });
                let ghost key_view = key@;
                self.index.insert(key, idx);
                proof {
                    assert(bucket(seen, renamed, key_view).len() == 0);
                    assert(bucket(after, renamed, key_view) =~= seq![dep@]);
                    assert(views(self.buckets[idx as int].deps@) =~= seq![dep@]);
                    assert forall|other: Seq<char>| #[trigger]
                        self.index@.contains_key(other) implies {
                        let b = self.buckets[self.index@[other] as int];
                        &&& self.index@[other] < self.buckets.len()
                        &&& views(b.deps@) == bucket(after, renamed, other)
                        &&& b.name@ == display_name(bucket(after, renamed, other)[0], renamed)
                    } by {
                        if other != key_view {
                            assert(before.index@.contains_key(other));
                            assert(bucket(after, renamed, other) == bucket(seen, renamed, other));
                        }
                    }
                    assert forall|other: Seq<char>| #[trigger]
                        self.index@.contains_key(other) <==> bucket(after, renamed, other).len()
                            > 0 by {
                        assert(before.index@.contains_key(other) <==> bucket(
                            seen,
                            renamed,
                            other,
                        ).len() > 0);
                        if other != key_view {
                            assert(bucket(after, renamed, other) == bucket(seen, renamed, other));
                        }
                    }
                    assert forall|k1: Seq<char>, k2: Seq<char>|
                        #![trigger self.index@.contains_key(k1), self.index@.contains_key(k2)]
                        self.index@.contains_key(k1) && self.index@.contains_key(k2) && k1
                            != k2 implies self.index@[k1] != self.index@[k2] by {
                        if k1 != key_view {
                            assert(before.index@.contains_key(k1));
                        }
                        if k2 != key_view {
                            assert(before.index@.contains_key(k2));
                        }
                    }
                }
            },
        }
    }

    /// The bucket filed under `key`, if there is one.
    fn get(
        &self,
        key: &str,
        Ghost(seen): Ghost<Seq<DependencyView>>,
        Ghost(renamed): Ghost<bool>,
    ) -> (r: Option<&Bucket<'a>>)
        requires
            self.holds(seen, renamed),
        ensures
            match r {
                Some(b) => {
                    &&& bucket(seen, renamed, key@).len() > 0
                    &&& views(b.deps@) == bucket(seen, renamed, key@)
                    &&& b.name@ == display_name(bucket(seen, renamed, key@)[0], renamed)
                },
                None => bucket(seen, renamed, key@).len() == 0,
            },
    {
        match self.index.get(key) {
            Some(idx) => {
                assert(self.index@.contains_key(key@));
                Some(&self.buckets[*idx])
            },
            None => {
                assert(!self.index@.contains_key(key@));
                None
            },
        }
    }
}

/// The resolver of one package.
pub struct DependencyResolver<'a> {
    from_id: &'a PackageId,
    /// The package index, inherited from the builder.
    package_data: &'a StringHashMap<PackageData>,
    /// The renamed requirements by resolved name. A match here always wins.
    renamed: DependencyTable<'a>,
    /// The other requirements by the name of the crate, dashes kept.
    original: DependencyTable<'a>,
    declared: Ghost<Seq<DependencyView>>,
}

impl<'a> DependencyResolver<'a> {
    /// The identifier of the package whose requirements the resolver holds.
    pub closed spec fn from(&self) -> Seq<char> {
        self.from_id@
    }

    /// The requirements the resolver holds.
    pub closed spec fn declared(&self) -> Seq<DependencyView> {
        self.declared@
    }

    /// The package index the resolver consults.
    pub closed spec fn table(&self) -> Map<Seq<char>, PackageDataView> {
        data_views(self.package_data@)
    }

    /// Both tables hold exactly the requirements declared.
    #[verifier::type_invariant]
    spec fn inv(self) -> bool {
        &&& self.renamed.holds(self.declared@, true)
        &&& self.original.holds(self.declared@, false)
    }

    /// Builds the resolver of the package `from_id` from the requirements it
    /// declares.
    pub fn new(
        from_id: &'a PackageId,
        package_data: &'a StringHashMap<PackageData>,
        package_deps: &'a Vec<Dependency>,
    ) -> (r: Self)
        ensures
            r.from() == from_id@,
            r.declared() == views(package_deps@),
            r.table() == data_views(package_data@),
    {
        let mut renamed = DependencyTable::new(Ghost(true));
        let mut original = DependencyTable::new(Ghost(false));
        let ghost all = views(package_deps@);
        let mut i: usize = 0;
        while i < package_deps.len()
            invariant
                i <= package_deps.len(),
                all == views(package_deps@),
                renamed.holds(all.take(i as int), true),
                original.holds(all.take(i as int), false),
            decreases package_deps.len() - i,
        {
            let dep = &package_deps[i];
            let ghost seen = all.take(i as int);
            proof {
                assert(all.take(i + 1) =~= seen.push(dep@));
            }
            // A rename that repeats the name of the crate is no rename.
            let rename = match &dep.rename {
                Some(rename) => if *rename == dep.name {
                    None
                } else {
                    Some(rename)
                },
                None => None,
            };
            match rename {
                Some(rename) => {
                    assert(is_renamed(dep@));
                    let resolved_name = replace_dashes(rename.as_str());
                    renamed.add(resolved_name, rename.as_str(), dep, Ghost(seen), Ghost(true));
                    proof {
                        original.skip(seen, dep@, false);
                    }
                },
                None => {
                    assert(!is_renamed(dep@));
                    original.add(
                        dep.name.clone(),
                        dep.name.as_str(),
                        dep,
                        Ghost(seen),
                        Ghost(false),
                    );
                    proof {
                        renamed.skip(seen, dep@, true);
                    }
                },
            }
            i += 1;
        }
        proof {
            assert(all.take(i as int) =~= all);
        }
        DependencyResolver { from_id, package_data, renamed, original, declared: Ghost(all) }
    }

    /// Finds the declared requirements behind the resolved dependency with the
    /// given resolved name and package identifier, and the name an edge shows
    /// for it.
    pub fn resolve(&self, resolved_name: &str, package_id: &PackageId) -> (r: Result<
        (&'a str, &[&'a Dependency]),
        Error,
    >)
        ensures
            match r {
                Ok((name, deps)) => resolve_spec(
                    self.from(),
                    self.declared(),
                    self.table(),
                    resolved_name@,
                    package_id@,
                ) == Ok::<Resolution, ErrorView>(Resolution { name: name@, deps: views(deps@) }),
                Err(e) => resolve_spec(
                    self.from(),
                    self.declared(),
                    self.table(),
                    resolved_name@,
                    package_id@,
                ) == Err::<Resolution, ErrorView>(e@),
            },
    {
        proof {
            use_type_invariant(self);
        }
        // A hit among the renamed requirements settles it.
        match self.renamed.get(resolved_name, Ghost(self.declared@), Ghost(true)) {
            Some(found) => {
                return Ok((found.name, found.deps.as_slice()));
            },
            None => {},
        }
        // Otherwise the name of the package resolved to decides.
        let data = match self.package_data.get(package_id.repr.as_str()) {
            Some(data) => data,
            None => {
                return Err(
                    Error::MissingDependencyData {
                        from: self.from_id.clone(),
                        dependency: package_id.clone(),
                    },
                );
            },
        };
        match self.original.get(data.name.as_str(), Ghost(self.declared@), Ghost(false)) {
            Some(found) => {
                proof {
                    lemma_bucket_members(self.declared@, false, data.name@);
                    assert(table_key(bucket(self.declared@, false, data.name@)[0], false) == Some(
                        data.name@,
                    ));
                }
                Ok((found.name, found.deps.as_slice()))
            },
            None => Err(
                Error::MissingDependencyInfo {
                    from: self.from_id.clone(),
                    name: data.name.clone(),
                    dependency: package_id.clone(),
                },
            ),
        }
    }
}

} // verus!

//! Dependency edges. One edge stands for everything a package declares about
//! one of its resolved dependencies: up to one requirement for each of the
//! kinds normal, build and development.

use crate::errors::{Error, ErrorView};
use crate::metadata::{
    clone_option_string, clone_strings, option_view, views, Dependency, DependencyKind,
    DependencyView, PackageId,
};
use semver::VersionReq;
use vstd::prelude::*;

verus! {

/// What an edge records of one declared requirement.
#[derive(Clone, Debug)]
pub struct DependencyMetadata {
    req: VersionReq,
    optional: bool,
    uses_default_features: bool,
    features: Vec<String>,
    target: Option<String>,
}

pub struct DependencyMetadataView {
    pub req: VersionReq,
    pub optional: bool,
    pub uses_default_features: bool,
    pub features: Seq<Seq<char>>,
    pub target: Option<Seq<char>>,
}

impl View for DependencyMetadata {
    type V = DependencyMetadataView;

    closed spec fn view(&self) -> DependencyMetadataView {
        DependencyMetadataView {
            req: self.req,
            optional: self.optional,
            uses_default_features: self.uses_default_features,
            features: views(self.features@),
            target: option_view(self.target),
        }
    }
}

/// The view of an optional requirement.
pub open spec fn slot_view(slot: Option<DependencyMetadata>) -> Option<DependencyMetadataView> {
    match slot {
        Some(m) => Some(m@),
        None => None,
    }
}

/// What an edge records of the declared requirement `d`.
pub open spec fn slot_of(d: DependencyView) -> DependencyMetadataView {
    DependencyMetadataView {
        req: d.req,
        optional: d.optional,
        uses_default_features: d.uses_default_features,
        features: d.features,
        target: d.target,
    }
}

impl DependencyMetadata {
    fn from_dependency(dep: &Dependency) -> (r: Self)
        ensures
            r@ == slot_of(dep@),
    {
        DependencyMetadata {
            req: dep.req.clone(),
            optional: dep.optional,
            uses_default_features: dep.uses_default_features,
            features: clone_strings(&dep.features),
            target: clone_option_string(&dep.target),
        }
    }

    /// The versions accepted.
    pub fn req(&self) -> (r: &VersionReq)
        ensures
            *r == self@.req,
    {
        &self.req
    }

    pub fn optional(&self) -> (r: bool)
        ensures
            r == self@.optional,
    {
        self.optional
    }

    pub fn uses_default_features(&self) -> (r: bool)
        ensures
            r == self@.uses_default_features,
    {
        self.uses_default_features
    }

    pub fn features(&self) -> (r: &[String])
        ensures
            views(r@) == self@.features,
    {
        self.features.as_slice()
    }

    /// The expression that gates the requirement, if any.
    pub fn target(&self) -> (r: Option<&str>)
        ensures
            match r {
                Some(t) => self@.target == Some(t@),
                None => self@.target is None,
            },
    {
        match &self.target {
            Some(t) => Some(t.as_str()),
            None => None,
        }
    }
}

/// Whether `d` is a candidate for the slot of `kind`; with `unconditional`,
/// only a requirement without a target gate is.
pub open spec fn fills(d: DependencyView, kind: DependencyKind, unconditional: bool) -> bool {
    d.kind == kind && (unconditional ==> d.target is None)
}

/// The first candidate among `deps` for the slot of `kind`.
pub open spec fn first_candidate(
    deps: Seq<DependencyView>,
    kind: DependencyKind,
    unconditional: bool,
) -> Option<DependencyView>
    decreases deps.len(),
{
    if deps.len() == 0 {
        None
    } else if fills(deps[0], kind, unconditional) {
        Some(deps[0])
    } else {
        first_candidate(deps.drop_first(), kind, unconditional)
    }
}

/// The requirement that the slot of `kind` keeps: the first unconditional one
/// of that kind, or else the first one of that kind.
pub open spec fn slot_spec(deps: Seq<DependencyView>, kind: DependencyKind) -> Option<
    DependencyMetadataView,
> {
    match first_candidate(deps, kind, true) {
        Some(d) => Some(slot_of(d)),
        None => match first_candidate(deps, kind, false) {
            Some(d) => Some(slot_of(d)),
            None => None,
        },
    }
}

/// Whether the requirement at `p` is unconditional, of a known kind, and
/// follows another unconditional requirement of the same kind.
pub open spec fn duplicate_at(deps: Seq<DependencyView>, p: int) -> bool {
    &&& 0 <= p < deps.len()
    &&& deps[p].kind != DependencyKind::Unknown
    &&& deps[p].target is None
    &&& exists|q: int| 0 <= q < p && #[trigger] fills(deps[q], deps[p].kind, true)
}

/// The kind of the first requirement that duplicates an earlier one.
pub open spec fn first_duplicate(deps: Seq<DependencyView>) -> Option<DependencyKind>
    decreases deps.len(),
{
    if deps.len() == 0 {
        None
    } else {
        match first_duplicate(deps.drop_last()) {
            Some(kind) => Some(kind),
            None => if duplicate_at(deps, deps.len() - 1) {
                Some(deps.last().kind)
            } else {
                None
            },
        }
    }
}

pub struct DependencyEdgeView {
    pub dep_name: Seq<char>,
    pub resolved_name: Seq<char>,
    pub normal: Option<DependencyMetadataView>,
    pub build: Option<DependencyMetadataView>,
    pub dev: Option<DependencyMetadataView>,
}

/// The edge that the requirements `deps`, all declared by `from` for one
/// resolved dependency, merge into.
pub open spec fn assemble_spec(
    from: Seq<char>,
    name: Seq<char>,
    resolved_name: Seq<char>,
    deps: Seq<DependencyView>,
) -> Result<DependencyEdgeView, ErrorView> {
    match first_duplicate(deps) {
        Some(kind) => Err(ErrorView::DuplicateDependency { from, name, kind }),
        None => Ok(
            DependencyEdgeView {
                dep_name: name,
                resolved_name,
                normal: slot_spec(deps, DependencyKind::Normal),
                build: slot_spec(deps, DependencyKind::Build),
                dev: slot_spec(deps, DependencyKind::Development),
            },
        ),
    }
}

/// Appending a requirement changes the first candidate only where there was
/// none.
pub proof fn lemma_first_candidate_push(
    deps: Seq<DependencyView>,
    d: DependencyView,
    kind: DependencyKind,
    unconditional: bool,
)
    ensures
        first_candidate(deps.push(d), kind, unconditional) == match first_candidate(
            deps,
            kind,
            unconditional,
        ) {
            Some(x) => Some(x),
            None => if fills(d, kind, unconditional) {
                Some(d)
            } else {
                None
            },
        },
    decreases deps.len(),
{
    if deps.len() == 0 {
        assert(deps.push(d).drop_first() =~= deps);
    } else {
        assert(deps.push(d).drop_first() =~= deps.drop_first().push(d));
        lemma_first_candidate_push(deps.drop_first(), d, kind, unconditional);
    }
}

/// The first candidate is a candidate and an item of the sequence; there is
/// none exactly where no item is a candidate.
pub proof fn lemma_first_candidate(
    deps: Seq<DependencyView>,
    kind: DependencyKind,
    unconditional: bool,
)
    ensures
        match first_candidate(deps, kind, unconditional) {
            Some(d) => fills(d, kind, unconditional) && deps.contains(d),
            None => forall|p: int| 0 <= p < deps.len() ==> !fills(#[trigger] deps[p], kind, unconditional),
        },
    decreases deps.len(),
{
    if deps.len() > 0 && !fills(deps[0], kind, unconditional) {
        let rest = deps.drop_first();
        lemma_first_candidate(rest, kind, unconditional);
        match first_candidate(rest, kind, unconditional) {
            Some(d) => {
                let p = choose|p: int| 0 <= p < rest.len() && rest[p] == d;
                assert(deps[p + 1] == d);
            },
            None => {
                assert forall|p: int| 0 <= p < deps.len() implies !fills(
                    #[trigger] deps[p],
                    kind,
                    unconditional,
                ) by {
                    if p > 0 {
                        assert(rest[p - 1] == deps[p]);
                    }
                }
            },
        }
    }
}

/// An edge of the package graph.
#[derive(Clone, Debug)]
pub struct DependencyEdge {
    dep_name: String,
    resolved_name: String,
    normal: Option<DependencyMetadata>,
    build: Option<DependencyMetadata>,
    dev: Option<DependencyMetadata>,
}

impl View for DependencyEdge {
    type V = DependencyEdgeView;

    closed spec fn view(&self) -> DependencyEdgeView {
        DependencyEdgeView {
            dep_name: self.dep_name@,
            resolved_name: self.resolved_name@,
            normal: slot_view(self.normal),
            build: slot_view(self.build),
            dev: slot_view(self.dev),
        }
    }
}

/// What is to happen to a slot that holds `old` when a requirement gated by
/// `target` arrives for it.
enum Merge {
    /// The new requirement takes the slot.
    Replace,
    /// The slot keeps what it holds.
    Keep,
    /// Both are unconditional.
    Conflict,
}

fn merge_policy(old: &Option<DependencyMetadata>, target: &Option<String>) -> (r: Merge)
    ensures
        match r {
            Merge::Replace => old is None || (old->0@.target is Some && *target is None),
            Merge::Keep => old is Some && *target is Some,
            Merge::Conflict => old is Some && old->0@.target is None && *target is None,
        },
{
    match old {
        None => Merge::Replace,
        Some(held) => match (&held.target, target) {
            (Some(_), None) => Merge::Replace,
            (None, Some(_)) => Merge::Keep,
            (Some(_), Some(_)) => Merge::Keep,
            (None, None) => Merge::Conflict,
        },
    }
}

/// Merges a requirement into the slot of its kind. Where the slot holds an
/// unconditional requirement and the new one is unconditional too, the slot
/// stays as it is and the answer is `true`: the two collide.
fn merge_into(slot: &mut Option<DependencyMetadata>, metadata: DependencyMetadata) -> (conflict:
    bool)
    ensures
        conflict == (*old(slot) is Some && (*old(slot))->0@.target is None
            && metadata@.target is None),
        slot_view(*final(slot)) == if *old(slot) is None || ((*old(slot))->0@.target is Some
            && metadata@.target is None) {
            Some(metadata@)
        } else {
            slot_view(*old(slot))
        },
{
    match merge_policy(slot, &metadata.target) {
        Merge::Replace => {
            *slot = Some(metadata);
            false
        },
        Merge::Keep => false,
        Merge::Conflict => true,
    }
}

/// One step of the merge, for the slot of `kind`: what the slot holds after
/// the requirement `d` of that kind has been seen.
proof fn lemma_slot_step(
    seen: Seq<DependencyView>,
    d: DependencyView,
    kind: DependencyKind,
)
    requires
        kind != DependencyKind::Unknown,
    ensures
        d.kind != kind ==> slot_spec(seen.push(d), kind) == slot_spec(seen, kind),
        d.kind == kind ==> {
            let old = slot_spec(seen, kind);
            &&& duplicate_at(seen.push(d), seen.len() as int) <==> (old is Some
                && old->0.target is None && d.target is None)
            &&& slot_spec(seen.push(d), kind) == if old is None || (old->0.target is Some
                && d.target is None) {
                Some(slot_of(d))
            } else {
                old
            }
        },
{
    let all = seen.push(d);
    lemma_first_candidate_push(seen, d, kind, true);
    lemma_first_candidate_push(seen, d, kind, false);
    lemma_first_candidate(seen, kind, true);
    lemma_first_candidate(seen, kind, false);
    if d.kind == kind {
        let old = slot_spec(seen, kind);
        if old is Some && old->0.target is None && d.target is None {
            let x = first_candidate(seen, kind, true)->0;
            let q = choose|q: int| 0 <= q < seen.len() && seen[q] == x;
            assert(fills(all[q], all[seen.len() as int].kind, true));
        }
        if duplicate_at(all, seen.len() as int) {
            let q = choose|q: int|
                0 <= q < seen.len() && #[trigger] fills(all[q], all[seen.len() as int].kind, true);
            assert(fills(seen[q], kind, true));
        }
    }
}

impl DependencyEdge {
    /// Merges the requirements `deps`, which the package `from_id` declares for
    /// one resolved dependency, into an edge. A requirement of an unknown kind
    /// is passed over. Of two requirements of one kind the unconditional one
    /// wins, and of two gated ones the first; two unconditional ones are an
    /// error.
    pub fn new(from_id: &PackageId, name: &str, resolved_name: &str, deps: &[&Dependency]) -> (r:
        Result<Self, Error>)
        ensures
            match r {
                Ok(edge) => assemble_spec(from_id@, name@, resolved_name@, views(deps@)) == Ok::<
                    DependencyEdgeView,
                    ErrorView,
                >(edge@),
                Err(e) => assemble_spec(from_id@, name@, resolved_name@, views(deps@)) == Err::<
                    DependencyEdgeView,
                    ErrorView,
                >(e@),
            },
    {
        let mut normal: Option<DependencyMetadata> = None;
        let mut build: Option<DependencyMetadata> = None;
        let mut dev: Option<DependencyMetadata> = None;
        let ghost all = views(deps@);
        let mut i: usize = 0;
        while i < deps.len()
            invariant
                i <= deps.len(),
                all == views(deps@),
                first_duplicate(all.take(i as int)) is None,
                slot_view(normal) == slot_spec(all.take(i as int), DependencyKind::Normal),
                slot_view(build) == slot_spec(all.take(i as int), DependencyKind::Build),
                slot_view(dev) == slot_spec(all.take(i as int), DependencyKind::Development),
            decreases deps.len() - i,
        {
            let dep = deps[i];
            let ghost seen = all.take(i as int);
            proof {
                assert(all.take(i + 1) =~= seen.push(dep@));
                assert(all.take(i + 1).drop_last() =~= seen);
                lemma_slot_step(seen, dep@, DependencyKind::Normal);
                lemma_slot_step(seen, dep@, DependencyKind::Build);
                lemma_slot_step(seen, dep@, DependencyKind::Development);
            }
            let metadata = DependencyMetadata::from_dependency(dep);
            let conflict = match dep.kind {
                DependencyKind::Normal => merge_into(&mut normal, metadata),
                DependencyKind::Build => merge_into(&mut build, metadata),
                DependencyKind::Development => merge_into(&mut dev, metadata),
                // A requirement of a kind that is not known is passed over.
                DependencyKind::Unknown => false,
            };
            if conflict {
                proof {
                    lemma_first_duplicate_prefix(all, i as int + 1);
                }
                return Err(
                    Error::DuplicateDependency {
                        from: from_id.clone(),
                        name: name.to_owned(),
                        kind: dep.kind,
                    },
                );
            }
            i += 1;
        }
        proof {
            assert(all.take(i as int) =~= all);
        }
        Ok(
            DependencyEdge {
                dep_name: name.to_owned(),
                resolved_name: resolved_name.to_owned(),
                normal,
                build,
                dev,
            },
        )
    }

    /// The name of the dependency as the depending package uses it: the rename
    /// where the manifest gives one.
    pub fn dep_name(&self) -> (r: &str)
        ensures
            r@ == self@.dep_name,
    {
        self.dep_name.as_str()
    }

    /// The name under which the resolved data lists the dependency: the rename
    /// with `-` replaced by `_`.
    pub fn resolved_name(&self) -> (r: &str)
        ensures
            r@ == self@.resolved_name,
    {
        self.resolved_name.as_str()
    }

    pub fn normal(&self) -> (r: Option<&DependencyMetadata>)
        ensures
            match r {
                Some(m) => self@.normal == Some(m@),
                None => self@.normal is None,
            },
    {
        self.normal.as_ref()
    }

    pub fn build(&self) -> (r: Option<&DependencyMetadata>)
        ensures
            match r {
                Some(m) => self@.build == Some(m@),
                None => self@.build is None,
            },
    {
        self.build.as_ref()
    }

    pub fn dev(&self) -> (r: Option<&DependencyMetadata>)
        ensures
            match r {
                Some(m) => self@.dev == Some(m@),
                None => self@.dev is None,
            },
    {
        self.dev.as_ref()
    }
}

/// A duplicate found in a prefix is the first duplicate of the whole sequence.
pub proof fn lemma_first_duplicate_prefix(deps: Seq<DependencyView>, n: int)
    requires
        0 <= n <= deps.len(),
        first_duplicate(deps.take(n)) is Some,
    ensures
        first_duplicate(deps) == first_duplicate(deps.take(n)),
    decreases deps.len() - n,
{
    if n < deps.len() {
        let longer = deps.take(n + 1);
        assert(longer.drop_last() =~= deps.take(n));
        lemma_first_duplicate_prefix(deps, n + 1);
    } else {
        assert(deps.take(n) =~= deps);
    }
}

/// The name of a dependency kind in messages.
pub open spec fn kind_text(kind: DependencyKind) -> Seq<char> {
    match kind {
        DependencyKind::Normal => "normal"@,
        DependencyKind::Build => "build"@,
        DependencyKind::Development => "dev"@,
        DependencyKind::Unknown => "unknown"@,
    }
}

/// The name of a dependency kind in messages.
pub fn kind_str(kind: DependencyKind) -> (r: &'static str)
    ensures
        r@ == kind_text(kind),
{
    match kind {
        DependencyKind::Normal => "normal",
        DependencyKind::Build => "build",
        DependencyKind::Development => "dev",
        DependencyKind::Unknown => "unknown",
    }
}

} // verus!

//! Platforms to evaluate target specifications against: a target triple that
//! `cfg-expr` knows, the target features taken to be enabled, and the flags
//! taken to be set.

use crate::metadata::views;
use cfg_expr::targets::TargetInfo;
use vstd::hash_set::StringHashSet;
use vstd::prelude::*;

verus! {

/// What `cfg-expr` knows of a target. Carried as it is.
#[verifier::external_type_specification]
#[verifier::external_body]
pub struct ExTargetInfo(cfg_expr::targets::TargetInfo);

/// The built-in target that `cfg-expr` knows under a triple, if any.
pub uninterp spec fn builtin_target(triple: Seq<char>) -> Option<TargetInfo>;

/// The triple of a target.
pub uninterp spec fn target_triple(info: TargetInfo) -> Seq<char>;

/// Calls `cfg_expr::targets::get_builtin_target_by_triple`. Trusted: the
/// answer depends on the triple alone, and a target that is found carries the
/// triple asked for.
#[verifier::external_body]
fn lookup_target(triple: &str) -> (r: Option<&'static TargetInfo>)
    ensures
        match r {
            Some(info) => builtin_target(triple@) == Some(*info) && target_triple(*info)
                == triple@,
            None => builtin_target(triple@) is None,
        },
{
    cfg_expr::targets::get_builtin_target_by_triple(triple)
}

/// Calls `Triple::as_str` on the triple of a target. Trusted: it is the text
/// of the triple.
#[verifier::external_body]
fn triple_text(info: &'static TargetInfo) -> (r: &'static str)
    ensures
        r@ == target_triple(*info),
{
    info.triple.as_str()
}

/// A set of target features to match.
#[non_exhaustive]
pub enum TargetFeatures {
    /// The target features are unknown.
    Unknown,
    /// Only match the specified features.
    Features(StringHashSet),
}

impl View for TargetFeatures {
    type V = Option<Set<Seq<char>>>;

    open spec fn view(&self) -> Option<Set<Seq<char>>> {
        match *self {
            TargetFeatures::Unknown => None,
            TargetFeatures::Features(set) => Some(set@),
        }
    }
}

/// Adds the given names to a set.
fn extend_set(set: &mut StringHashSet, names: &[&str])
    ensures
        final(set)@ == old(set)@.union(views(names@).to_set()),
{
    let ghost before = set@;
    let ghost all = views(names@);
    let mut i: usize = 0;
    proof {
        assert(set@ =~= before.union(all.take(0).to_set()));
    }
    while i < names.len()
        invariant
            i <= names.len(),
            all == views(names@),
            set@ == before.union(all.take(i as int).to_set()),
        decreases names.len() - i,
    {
        let name = names[i];
        proof {
            let seen = all.take(i as int);
            let longer = all.take(i + 1);
            assert(longer =~= seen.push(name@));
            assert forall|a: Seq<char>| #[trigger]
                longer.to_set().contains(a) <==> seen.to_set().insert(name@).contains(a) by {
                vstd::seq_lib::lemma_seq_contains_after_push(seen, name@, a);
                assert(longer.contains(a) <==> (seen.contains(a) || a == name@));
            }
            assert(longer.to_set() =~= seen.to_set().insert(name@));
            assert(before.union(seen.to_set().insert(name@)) =~= before.union(
                seen.to_set(),
            ).insert(name@));
        }
        set.insert(name.to_owned());
        i += 1;
    }
    proof {
        assert(all.take(i as int) =~= all);
    }
}

impl TargetFeatures {
    /// Creates a new `TargetFeatures` which matches some features.
    pub fn features(features: &[&str]) -> (r: Self)
        ensures
            r@ == Some(views(features@).to_set()),
    {
        let mut set = StringHashSet::new();
        extend_set(&mut set, features);
        proof {
            assert(set@ =~= views(features@).to_set());
        }
        TargetFeatures::Features(set)
    }

    /// Creates a new `TargetFeatures` which doesn't match any features.
    pub fn none() -> (r: Self)
        ensures
            r@ == Some(Set::<Seq<char>>::empty()),
    {
        TargetFeatures::Features(StringHashSet::new())
    }

    /// Returns `Some(true)` if this feature is a match, `Some(false)` if it
    /// isn't, and `None` if the set of target features is unknown.
    pub fn matches(&self, feature: &str) -> (r: Option<bool>)
        ensures
            r == match self@ {
                Some(set) => Some(set.contains(feature@)),
                None => None,
            },
    {
        match self {
            TargetFeatures::Unknown => None,
            TargetFeatures::Features(features) => Some(features.contains(feature)),
        }
    }
}

/// A platform to evaluate target specs against.
pub struct Platform {
    target_info: &'static TargetInfo,
    target_features: TargetFeatures,
    flags: StringHashSet,
}

/// What a platform is made of: its triple, its target features and the flags
/// set on it.
pub struct PlatformView {
    pub triple: Seq<char>,
    pub target_features: Option<Set<Seq<char>>>,
    pub flags: Set<Seq<char>>,
}

impl View for Platform {
    type V = PlatformView;

    closed spec fn view(&self) -> PlatformView {
        PlatformView {
            triple: target_triple(*self.target_info),
            target_features: self.target_features@,
            flags: self.flags@,
        }
    }
}

impl Platform {
    /// Creates a new `Platform` from the given triple and target features.
    ///
    /// Returns `None` if the triple is not one of the built-in targets.
    pub fn new(triple: &str, target_features: TargetFeatures) -> (r: Option<Self>)
        ensures
            match r {
                Some(platform) => builtin_target(triple@) is Some && platform@ == (PlatformView {
                    triple: triple@,
                    target_features: target_features@,
                    flags: Set::empty(),
                }),
                None => builtin_target(triple@) is None,
            },
    {
        Self::of_target(lookup_target(triple), target_features)
    }

    /// The platform of a target that was looked up, with the given target
    /// features and no flags; none where the lookup found no target.
    pub fn of_target(target_info: Option<&'static TargetInfo>, target_features: TargetFeatures) -> (r:
        Option<Self>)
        ensures
            match r {
                Some(platform) => target_info is Some && platform@ == (PlatformView {
                    triple: target_triple(*target_info->0),
                    target_features: target_features@,
                    flags: Set::empty(),
                }),
                None => target_info is None,
            },
    {
        match target_info {
            Some(target_info) => Some(
                Platform { target_info, target_features, flags: StringHashSet::new() },
            ),
            None => None,
        }
    }

    /// Adds a set of flags to accept.
    ///
    /// A flag is a single token like the `foo` in `cfg(not(foo))`.
    pub fn add_flags(&mut self, flags: &[&str])
        ensures
            final(self)@ == (PlatformView {
                flags: old(self)@.flags.union(views(flags@).to_set()),
                ..old(self)@
            }),
    {
        extend_set(&mut self.flags, flags);
    }

    /// Returns the target triple for this platform.
    pub fn triple(&self) -> (r: &'static str)
        ensures
            r@ == self@.triple,
    {
        triple_text(self.target_info)
    }

    /// Returns true if this flag was set with `add_flags`.
    pub fn has_flag(&self, flag: &str) -> (r: bool)
        ensures
            r == self@.flags.contains(flag@),
    {
        self.flags.contains(flag)
    }

    /// Returns the underlying `TargetInfo`.
    pub(crate) fn target_info(&self) -> (r: &'static TargetInfo)
        ensures
            target_triple(*r) == self@.triple,
    {
        self.target_info
    }

    /// Returns the set of target features for this platform.
    pub fn target_features(&self) -> (r: &TargetFeatures)
        ensures
            r@ == self@.target_features,
    {
        &self.target_features
    }
}

} // verus!

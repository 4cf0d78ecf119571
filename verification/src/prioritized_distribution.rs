//! The per-(package, version) accumulator of candidate artifacts, and the
//! projection that turns it into an actionable choice.
//!
//! Candidates stream in from one or more indexes. For each (package,
//! version) pair a [`PrioritizedDist`] keeps at most one artifact per slot:
//! the highest-priority compatible wheel, an arbitrary compatible source
//! distribution (first observed wins), and the most informative incompatible
//! wheel and source distribution for diagnostics. Observed content hashes
//! accumulate alongside.
//!
//! Every operation is specified against [`BucketModel`], a mathematical
//! image of the accumulator, so that the exact slot contents after any
//! insertion sequence are pinned down.

use vstd::prelude::*;

use crate::compatibility::IncompatibleSource;
use crate::compatibility::IncompatibleWheel;
use crate::compatibility::SourceDistCompatibility;
use crate::compatibility::TagPriority;
use crate::compatibility::WheelCompatibility;

verus! {

/// An opaque handle identifying one downloadable distribution. The
/// accumulator never inspects it; it only stores and returns it.
#[derive(Debug, PartialEq, Eq)]
pub struct Dist {
    /// A display name for the artifact, typically its filename.
    pub name: String,
}

impl Clone for Dist {
    fn clone(&self) -> (r: Self)
        ensures
            r == *self,
    {
        Dist { name: self.name.clone() }
    }
}

/// An opaque content-digest record for one artifact.
#[derive(Debug, PartialEq, Eq)]
pub struct Hashes {
    /// The digest text, e.g. a hex-encoded checksum.
    pub digest: String,
}

impl Clone for Hashes {
    fn clone(&self) -> (r: Self)
        ensures
            r == *self,
    {
        Hashes { digest: self.digest.clone() }
    }
}

/// The mathematical image of a [`PrioritizedDist`]: the four slots and the
/// sequence of observed hashes.
pub struct BucketModel {
    pub compatible_source: Option<Dist>,
    pub compatible_wheel: Option<(Dist, TagPriority)>,
    pub incompatible_wheel: Option<(Dist, IncompatibleWheel)>,
    pub incompatible_source: Option<(Dist, IncompatibleSource)>,
    pub hashes: Seq<Hashes>,
}

/// The model of a freshly created, empty accumulator.
pub open spec fn empty_bucket() -> BucketModel {
    BucketModel {
        compatible_source: None,
        compatible_wheel: None,
        incompatible_wheel: None,
        incompatible_source: None,
        hashes: Seq::empty(),
    }
}

/// The hashes contributed by a single insertion: one entry when a hash was
/// supplied, none otherwise.
pub open spec fn hash_contribution(hash: Option<Hashes>) -> Seq<Hashes> {
    match hash {
        Some(h) => seq![h],
        None => Seq::empty(),
    }
}

/// Whether a compatible wheel with priority `priority` displaces the current
/// occupant of the compatible-wheel slot: it does iff the slot is empty or
/// the new priority is strictly higher, so ties keep the first observed
/// candidate.
pub open spec fn wheel_slot_accepts(
    slot: Option<(Dist, TagPriority)>,
    priority: TagPriority,
) -> bool {
    match slot {
        Some((_, existing)) => priority.value > existing.value,
        None => true,
    }
}

/// Whether an incompatible wheel with reason `reason` displaces the current
/// occupant of the diagnostic slot: it does iff the slot is empty or the new
/// reason is strictly more informative.
pub open spec fn incompatible_wheel_slot_accepts(
    slot: Option<(Dist, IncompatibleWheel)>,
    reason: IncompatibleWheel,
) -> bool {
    match slot {
        Some((_, existing)) => reason.more_informative_than(existing),
        None => true,
    }
}

/// Whether an incompatible source distribution with reason `reason`
/// displaces the current occupant of the diagnostic slot.
pub open spec fn incompatible_source_slot_accepts(
    slot: Option<(Dist, IncompatibleSource)>,
    reason: IncompatibleSource,
) -> bool {
    match slot {
        Some((_, existing)) => reason.more_informative_than(existing),
        None => true,
    }
}

/// The model of inserting a wheel verdict into a bucket.
pub open spec fn insert_built_model(
    m: BucketModel,
    dist: Dist,
    hash: Option<Hashes>,
    compatibility: WheelCompatibility,
) -> BucketModel {
    let updated = match compatibility {
        WheelCompatibility::Compatible(priority) => {
            if wheel_slot_accepts(m.compatible_wheel, priority) {
                BucketModel { compatible_wheel: Some((dist, priority)), ..m }
            } else {
                m
            }
        },
        WheelCompatibility::Incompatible(reason) => {
            if incompatible_wheel_slot_accepts(m.incompatible_wheel, reason) {
                BucketModel { incompatible_wheel: Some((dist, reason)), ..m }
            } else {
                m
            }
        },
    };
    BucketModel { hashes: m.hashes + hash_contribution(hash), ..updated }
}

/// The model of inserting a source-distribution verdict into a bucket.
pub open spec fn insert_source_model(
    m: BucketModel,
    dist: Dist,
    hash: Option<Hashes>,
    compatibility: SourceDistCompatibility,
) -> BucketModel {
    let updated = match compatibility {
        SourceDistCompatibility::Compatible => {
            if m.compatible_source is None {
                BucketModel { compatible_source: Some(dist), ..m }
            } else {
                m
            }
        },
        SourceDistCompatibility::Incompatible(reason) => {
            if incompatible_source_slot_accepts(m.incompatible_source, reason) {
                BucketModel { incompatible_source: Some((dist, reason)), ..m }
            } else {
                m
            }
        },
    };
    BucketModel { hashes: m.hashes + hash_contribution(hash), ..updated }
}

/// True iff no artifact occupies any slot; the hash list is irrelevant.
pub open spec fn bucket_is_empty(m: BucketModel) -> bool {
    &&& m.compatible_source is None
    &&& m.incompatible_source is None
    &&& m.compatible_wheel is None
    &&& m.incompatible_wheel is None
}

/// A distribution choice usable for both resolution and installation.
#[derive(Debug, Clone, PartialEq, Eq)]
pub enum CompatibleDist {
    /// Resolve and install from a source distribution.
    SourceDist(Dist),
    /// Resolve and install from an installable wheel.
    CompatibleWheel(Dist, TagPriority),
    /// Resolve from an incompatible wheel's metadata, but build and install
    /// the source distribution.
    IncompatibleWheel { source_dist: Dist, wheel: Dist },
}

/// The most informative reason a version has no usable distribution.
#[derive(Debug, Clone)]
pub enum IncompatibleDist {
    /// Only an incompatible wheel is available.
    Wheel(IncompatibleWheel),
    /// Only an incompatible source distribution is available.
    Source(IncompatibleSource),
    /// No distributions are available at all.
    Unavailable,
}

/// The selection projection: the choice a finalized bucket yields.
///
/// An installable wheel always wins. Otherwise a compatible source
/// distribution is selected, paired with an incompatible wheel when one was
/// seen, because the wheel's metadata is still the fastest to read while the
/// source must be built for installation.
pub open spec fn selection_of(m: BucketModel) -> Option<CompatibleDist> {
    match m.compatible_wheel {
        Some((wheel, priority)) => Some(CompatibleDist::CompatibleWheel(wheel, priority)),
        None => match (m.compatible_source, m.incompatible_wheel) {
            (Some(source_dist), Some((wheel, _))) => Some(
                CompatibleDist::IncompatibleWheel { source_dist, wheel },
            ),
            (Some(source_dist), None) => Some(CompatibleDist::SourceDist(source_dist)),
            (None, _) => None,
        },
    }
}

/// A collection of distributions for one (package, version) pair, filtered
/// down to the single most relevant artifact per slot.
#[derive(Debug)]
pub struct PrioritizedDist(Box<PrioritizedDistInner>);

/// The accumulator is boxed because artifact handles may be large when the
/// accumulator is embedded in collections keyed by (package, version).
#[derive(Debug)]
struct PrioritizedDistInner {
    /// An arbitrary, compatible source distribution for the package version.
    compatible_source: Option<Dist>,
    /// The highest-priority, installable wheel for the package version.
    compatible_wheel: Option<(Dist, TagPriority)>,
    /// The most informative incompatible wheel for the package version.
    incompatible_wheel: Option<(Dist, IncompatibleWheel)>,
    /// The most informative incompatible source distribution.
    incompatible_source: Option<(Dist, IncompatibleSource)>,
    /// The hashes of every candidate that supplied one, in insertion order.
    hashes: Vec<Hashes>,
}

impl View for PrioritizedDist {
    type V = BucketModel;

    closed spec fn view(&self) -> BucketModel {
        BucketModel {
            compatible_source: self.0.compatible_source,
            compatible_wheel: self.0.compatible_wheel,
            incompatible_wheel: self.0.incompatible_wheel,
            incompatible_source: self.0.incompatible_source,
            hashes: self.0.hashes@,
        }
    }
}

impl Default for PrioritizedDist {
    /// An accumulator with every slot empty and no hashes.
    fn default() -> (r: Self)
        ensures
            r@ == empty_bucket(),
    {
        let r = PrioritizedDist(
            Box::new(
                PrioritizedDistInner {
                    compatible_source: None,
                    compatible_wheel: None,
                    incompatible_wheel: None,
                    incompatible_source: None,
                    hashes: Vec::new(),
                },
            ),
        );
        proof {
            assert(r@.hashes =~= empty_bucket().hashes);
        }
        r
    }
}

fn clone_hashes(v: &Vec<Hashes>) -> (r: Vec<Hashes>)
    ensures
        r@ == v@,
{
    let mut out: Vec<Hashes> = Vec::new();
    let mut i: usize = 0;
    while i < v.len()
        invariant
            i <= v@.len(),
            out@ == v@.subrange(0, i as int),
        decreases v@.len() - i,
    {
        out.push(v[i].clone());
        proof {
            assert(v@.subrange(0, i + 1 as int) =~= v@.subrange(0, i as int).push(v@[i as int]));
        }
        i = i + 1;
    }
    proof {
        assert(v@.subrange(0, v@.len() as int) =~= v@);
    }
    out
}

impl Clone for PrioritizedDist {
    fn clone(&self) -> (r: Self)
        ensures
            r@ == self@,
    {
        PrioritizedDist(
            Box::new(
                PrioritizedDistInner {
                    compatible_source: match &self.0.compatible_source {
                        Some(d) => Some(d.clone()),
                        None => None,
                    },
                    compatible_wheel: match &self.0.compatible_wheel {
                        Some((d, p)) => Some((d.clone(), *p)),
                        None => None,
                    },
                    incompatible_wheel: match &self.0.incompatible_wheel {
                        Some((d, w)) => Some((d.clone(), w.clone())),
                        None => None,
                    },
                    incompatible_source: match &self.0.incompatible_source {
                        Some((d, s)) => Some((d.clone(), s.clone())),
                        None => None,
                    },
                    hashes: clone_hashes(&self.0.hashes),
                },
            ),
        )
    }
}

impl PrioritizedDist {
    /// Create a new accumulator seeded with one wheel verdict.
    pub fn from_built(dist: Dist, hash: Option<Hashes>, compatibility: WheelCompatibility) -> (r:
        Self)
        ensures
            r@ == insert_built_model(empty_bucket(), dist, hash, compatibility),
    {
        let mut r = PrioritizedDist::default();
        r.insert_built(dist, hash, compatibility);
        r
    }

    /// Create a new accumulator seeded with one source-distribution verdict.
    pub fn from_source(
        dist: Dist,
        hash: Option<Hashes>,
        compatibility: SourceDistCompatibility,
    ) -> (r: Self)
        ensures
            r@ == insert_source_model(empty_bucket(), dist, hash, compatibility),
    {
        let mut r = PrioritizedDist::default();
        r.insert_source(dist, hash, compatibility);
        r
    }

    /// Insert a classified wheel: a compatible wheel displaces the slot only
    /// with a strictly higher priority, an incompatible one only with a
    /// strictly more informative reason, and a supplied hash is appended.
    pub fn insert_built(
        &mut self,
        dist: Dist,
        hash: Option<Hashes>,
        compatibility: WheelCompatibility,
    )
        ensures
            final(self)@ == insert_built_model(old(self)@, dist, hash, compatibility),
    {
        match compatibility {
            WheelCompatibility::Compatible(priority) => {
                let accepts: bool = match &self.0.compatible_wheel {
                    Some((_, existing_priority)) => priority.value > existing_priority.value,
                    None => true,
                };
                if accepts {
                    self.0.compatible_wheel = Some((dist, priority));
                }
            },
            WheelCompatibility::Incompatible(incompatibility) => {
                let accepts: bool = match &self.0.incompatible_wheel {
                    Some((_, existing)) => incompatibility.is_more_informative(existing),
                    None => true,
                };
                if accepts {
                    self.0.incompatible_wheel = Some((dist, incompatibility));
                }
            },
        }
        if let Some(hash) = hash {
            self.0.hashes.push(hash);
        }
        proof {
            assert(final(self)@.hashes =~= insert_built_model(
                old(self)@,
                dist,
                hash,
                compatibility,
            ).hashes);
        }
    }

    /// Insert a classified source distribution: a compatible source
    /// distribution occupies the slot only when it is still empty, an
    /// incompatible one only with a strictly more informative reason, and a
    /// supplied hash is appended.
    pub fn insert_source(
        &mut self,
        dist: Dist,
        hash: Option<Hashes>,
        compatibility: SourceDistCompatibility,
    )
        ensures
            final(self)@ == insert_source_model(old(self)@, dist, hash, compatibility),
    {
        match compatibility {
            SourceDistCompatibility::Compatible => {
                if self.0.compatible_source.is_none() {
                    self.0.compatible_source = Some(dist);
                }
            },
            SourceDistCompatibility::Incompatible(incompatibility) => {
                let accepts: bool = match &self.0.incompatible_source {
                    Some((_, existing)) => incompatibility.is_more_informative(existing),
                    None => true,
                };
                if accepts {
                    self.0.incompatible_source = Some((dist, incompatibility));
                }
            },
        }
        if let Some(hash) = hash {
            self.0.hashes.push(hash);
        }
        proof {
            assert(final(self)@.hashes =~= insert_source_model(
                old(self)@,
                dist,
                hash,
                compatibility,
            ).hashes);
        }
    }

    /// Return the selection the bucket currently yields, if any. An
    /// installable wheel always wins, regardless of the other slots.
    pub fn get(&self) -> (r: Option<CompatibleDist>)
        ensures
            r == selection_of(self@),
            self@.compatible_wheel matches Some((w, p)) ==> r == Some(
                CompatibleDist::CompatibleWheel(w, p),
            ),
    {
        match (&self.0.compatible_wheel, &self.0.compatible_source, &self.0.incompatible_wheel) {
            (Some((wheel, tag_priority)), _, _) => Some(
                CompatibleDist::CompatibleWheel(wheel.clone(), *tag_priority),
            ),
            (None, Some(source_dist), Some((wheel, _))) => Some(
                CompatibleDist::IncompatibleWheel {
                    source_dist: source_dist.clone(),
                    wheel: wheel.clone(),
                },
            ),
            (None, Some(source_dist), None) => Some(
                CompatibleDist::SourceDist(source_dist.clone()),
            ),
            (None, None, _) => None,
        }
    }

    /// Return the compatible source distribution, if any.
    pub fn compatible_source(&self) -> (r: Option<&Dist>)
        ensures
            match r {
                Some(d) => self@.compatible_source == Some(*d),
                None => self@.compatible_source is None,
            },
    {
        self.0.compatible_source.as_ref()
    }

    /// Return the most informative incompatible source distribution, if any.
    pub fn incompatible_source(&self) -> (r: Option<&(Dist, IncompatibleSource)>)
        ensures
            match r {
                Some(p) => self@.incompatible_source == Some(*p),
                None => self@.incompatible_source is None,
            },
    {
        self.0.incompatible_source.as_ref()
    }

    /// Return the highest-priority compatible wheel, if any.
    pub fn compatible_wheel(&self) -> (r: Option<&(Dist, TagPriority)>)
        ensures
            match r {
                Some(p) => self@.compatible_wheel == Some(*p),
                None => self@.compatible_wheel is None,
            },
    {
        self.0.compatible_wheel.as_ref()
    }

    /// Return the most informative incompatible wheel, if any.
    pub fn incompatible_wheel(&self) -> (r: Option<&(Dist, IncompatibleWheel)>)
        ensures
            match r {
                Some(p) => self@.incompatible_wheel == Some(*p),
                None => self@.incompatible_wheel is None,
            },
    {
        self.0.incompatible_wheel.as_ref()
    }

    /// Return the hashes of every candidate that supplied one, in insertion
    /// order.
    pub fn hashes(&self) -> (r: &[Hashes])
        ensures
            r@ == self@.hashes,
    {
        self.0.hashes.as_slice()
    }

    /// True iff the bucket holds no artifact in any slot.
    pub fn is_empty(&self) -> (r: bool)
        ensures
            r == bucket_is_empty(self@),
    {
        self.0.compatible_source.is_none() && self.0.incompatible_source.is_none()
            && self.0.compatible_wheel.is_none() && self.0.incompatible_wheel.is_none()
    }
}

/// The artifact consulted during resolution: the wheel whenever one was
/// retained, else the source distribution.
pub open spec fn resolution_choice(c: CompatibleDist) -> Dist {
    match c {
        CompatibleDist::SourceDist(sdist) => sdist,
        CompatibleDist::CompatibleWheel(wheel, _) => wheel,
        CompatibleDist::IncompatibleWheel { source_dist: _, wheel } => wheel,
    }
}

/// The artifact materialized during installation: the wheel only when it is
/// itself installable, else the source distribution.
pub open spec fn installation_choice(c: CompatibleDist) -> Dist {
    match c {
        CompatibleDist::SourceDist(sdist) => sdist,
        CompatibleDist::CompatibleWheel(wheel, _) => wheel,
        CompatibleDist::IncompatibleWheel { source_dist, wheel: _ } => source_dist,
    }
}

impl CompatibleDist {
    /// Return the distribution to use during resolution.
    pub fn for_resolution(&self) -> (r: &Dist)
        ensures
            *r == resolution_choice(*self),
    {
        match self {
            CompatibleDist::SourceDist(sdist) => sdist,
            CompatibleDist::CompatibleWheel(wheel, _) => wheel,
            CompatibleDist::IncompatibleWheel { source_dist: _, wheel } => wheel,
        }
    }

    /// Return the distribution to use during installation.
    pub fn for_installation(&self) -> (r: &Dist)
        ensures
            *r == installation_choice(*self),
    {
        match self {
            CompatibleDist::SourceDist(sdist) => sdist,
            CompatibleDist::CompatibleWheel(wheel, _) => wheel,
            CompatibleDist::IncompatibleWheel { source_dist, wheel: _ } => source_dist,
        }
    }
}

} // verus!

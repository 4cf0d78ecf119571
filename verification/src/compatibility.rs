//! Compatibility verdicts for candidate artifacts, and the informativeness
//! preorder over incompatibility reasons.
//!
//! Every candidate artifact is either compatible with the active environment
//! or incompatible for exactly one reason. Reasons are ordered by how
//! informative they are to report: a user-pinned upload-time cutoff is the
//! most informative reason, a global "no binaries"/"no builds" policy the
//! least. The preorder decides which single incompatible candidate is worth
//! retaining for diagnostics.

use vstd::prelude::*;

verus! {

/// A totally ordered, dense value expressing how preferred a wheel's tag
/// triple is on the current platform. Higher is better.
#[derive(Clone, Copy, PartialEq, Eq, Structural, Debug)]
pub struct TagPriority {
    pub value: u32,
}

/// A totally ordered value expressing how close an incompatible wheel's tags
/// came to matching the current platform. Higher is closer, and therefore
/// more informative to surface to the user.
#[derive(Clone, Copy, PartialEq, Eq, Structural, Debug)]
pub struct IncompatibleTag {
    pub rank: u32,
}

/// An index-level marker that an artifact should not normally be used.
/// A yank that carries a textual reason is strictly more informative than a
/// bare yank.
#[derive(Debug, PartialEq, Eq)]
pub enum Yanked {
    Reason(String),
    NoReason,
}

impl Clone for Yanked {
    fn clone(&self) -> (r: Self)
        ensures
            r == *self,
    {
        match self {
            Yanked::Reason(reason) => Yanked::Reason(reason.clone()),
            Yanked::NoReason => Yanked::NoReason,
        }
    }
}

/// A declared constraint on the interpreter version. The core treats it as
/// an opaque predicate: two specifiers are never compared for
/// informativeness.
#[derive(Debug, PartialEq, Eq)]
pub struct VersionSpecifiers {
    pub text: String,
}

impl Clone for VersionSpecifiers {
    fn clone(&self) -> (r: Self)
        ensures
            r == *self,
    {
        VersionSpecifiers { text: self.text.clone() }
    }
}

/// The outcome of matching a wheel's tag triples against the current
/// platform, as computed upstream: either the highest priority among the
/// matching tags, or the closest non-matching tag.
#[derive(Debug, PartialEq, Eq)]
pub enum TagCompatibility {
    Compatible(TagPriority),
    Incompatible(IncompatibleTag),
}

/// The verdict on a wheel: installable with a tag priority, or incompatible
/// for one reason.
#[derive(Debug, PartialEq, Eq)]
pub enum WheelCompatibility {
    Incompatible(IncompatibleWheel),
    Compatible(TagPriority),
}

/// The reason a wheel cannot be used on the target.
#[derive(Debug, PartialEq, Eq)]
pub enum IncompatibleWheel {
    /// The wheel's upload time lies beyond the user's cutoff; `None` when the
    /// index reported no upload time at all while a cutoff was active.
    ExcludeNewer(Option<i64>),
    /// No tag triple matched the platform; carries the closest miss.
    Tag(IncompatibleTag),
    /// The active interpreter does not satisfy the wheel's `Requires-Python`.
    RequiresPython(VersionSpecifiers),
    /// The wheel was yanked from the index.
    Yanked(Yanked),
    /// A "no binaries" policy covers this package.
    NoBinary,
}

/// The verdict on a source distribution: buildable, or incompatible for one
/// reason.
#[derive(Debug, PartialEq, Eq)]
pub enum SourceDistCompatibility {
    Incompatible(IncompatibleSource),
    Compatible,
}

/// The reason a source distribution cannot be used on the target.
#[derive(Debug, PartialEq, Eq)]
pub enum IncompatibleSource {
    ExcludeNewer(Option<i64>),
    RequiresPython(VersionSpecifiers),
    Yanked(Yanked),
    NoBuild,
}

impl Clone for IncompatibleWheel {
    fn clone(&self) -> (r: Self)
        ensures
            r == *self,
    {
        match self {
            IncompatibleWheel::ExcludeNewer(ts) => IncompatibleWheel::ExcludeNewer(*ts),
            IncompatibleWheel::Tag(tag) => IncompatibleWheel::Tag(*tag),
            IncompatibleWheel::RequiresPython(v) => IncompatibleWheel::RequiresPython(v.clone()),
            IncompatibleWheel::Yanked(y) => IncompatibleWheel::Yanked(y.clone()),
            IncompatibleWheel::NoBinary => IncompatibleWheel::NoBinary,
        }
    }
}

impl Clone for IncompatibleSource {
    fn clone(&self) -> (r: Self)
        ensures
            r == *self,
    {
        match self {
            IncompatibleSource::ExcludeNewer(ts) => IncompatibleSource::ExcludeNewer(*ts),
            IncompatibleSource::RequiresPython(v) => IncompatibleSource::RequiresPython(v.clone()),
            IncompatibleSource::Yanked(y) => IncompatibleSource::Yanked(y.clone()),
            IncompatibleSource::NoBuild => IncompatibleSource::NoBuild,
        }
    }
}

/// True iff a cutoff miss at `a` is strictly more informative than one at
/// `b`: a smaller timestamp lies closer to the cutoff, and an unknown upload
/// time (`None`) counts as later than any known one, hence least informative.
pub open spec fn exclude_newer_more_informative(a: Option<i64>, b: Option<i64>) -> bool {
    match (a, b) {
        (Some(ta), Some(tb)) => ta < tb,
        (Some(_), None) => true,
        (None, _) => false,
    }
}

/// True iff the yank marker `a` is strictly more informative than `b`: only
/// a reason-bearing yank improves on a bare one.
pub open spec fn yanked_more_informative(a: Yanked, b: Yanked) -> bool {
    a is Reason && b is NoReason
}

impl IncompatibleWheel {
    /// The strict "more informative" preorder over wheel incompatibilities.
    ///
    /// Across kinds the order is `ExcludeNewer > Tag > RequiresPython >
    /// Yanked > NoBinary`. Within a kind: a smaller timestamp beats a larger
    /// one and any known timestamp beats an unknown one; a closer tag miss
    /// beats a more distant one; a reason-bearing yank beats a bare one; two
    /// `RequiresPython` reasons are never comparable, so the first observed
    /// one is retained.
    pub open spec fn more_informative_than(self, other: Self) -> bool {
        match self {
            IncompatibleWheel::ExcludeNewer(ts) => match other {
                IncompatibleWheel::ExcludeNewer(to) => exclude_newer_more_informative(ts, to),
                _ => true,
            },
            IncompatibleWheel::Tag(tag) => match other {
                IncompatibleWheel::ExcludeNewer(_) => false,
                IncompatibleWheel::Tag(tag_other) => tag.rank > tag_other.rank,
                _ => true,
            },
            IncompatibleWheel::RequiresPython(_) => match other {
                IncompatibleWheel::Yanked(_) | IncompatibleWheel::NoBinary => true,
                _ => false,
            },
            IncompatibleWheel::Yanked(y) => match other {
                IncompatibleWheel::Yanked(y_other) => yanked_more_informative(y, y_other),
                IncompatibleWheel::NoBinary => true,
                _ => false,
            },
            IncompatibleWheel::NoBinary => false,
        }
    }

    /// Decides whether `self` should displace `other` in the retained
    /// diagnostic slot.
    pub fn is_more_informative(&self, other: &Self) -> (r: bool)
        ensures
            r == self.more_informative_than(*other),
    {
        match self {
            IncompatibleWheel::ExcludeNewer(ts) => match other {
                IncompatibleWheel::ExcludeNewer(to) => match (ts, to) {
                    (Some(a), Some(b)) => *a < *b,
                    (Some(_), None) => true,
                    (None, _) => false,
                },
                _ => true,
            },
            IncompatibleWheel::Tag(tag) => match other {
                IncompatibleWheel::ExcludeNewer(_) => false,
                IncompatibleWheel::Tag(tag_other) => tag.rank > tag_other.rank,
                _ => true,
            },
            IncompatibleWheel::RequiresPython(_) => match other {
                IncompatibleWheel::Yanked(_) | IncompatibleWheel::NoBinary => true,
                _ => false,
            },
            IncompatibleWheel::Yanked(y) => match other {
                IncompatibleWheel::Yanked(y_other) => {
                    matches!(y, Yanked::Reason(_)) && matches!(y_other, Yanked::NoReason)
                },
                IncompatibleWheel::NoBinary => true,
                _ => false,
            },
            IncompatibleWheel::NoBinary => false,
        }
    }
}

impl IncompatibleSource {
    /// The strict "more informative" preorder over source incompatibilities;
    /// the same shape as for wheels, with `Tag` absent and `NoBuild` in
    /// place of `NoBinary`.
    pub open spec fn more_informative_than(self, other: Self) -> bool {
        match self {
            IncompatibleSource::ExcludeNewer(ts) => match other {
                IncompatibleSource::ExcludeNewer(to) => exclude_newer_more_informative(ts, to),
                _ => true,
            },
            IncompatibleSource::RequiresPython(_) => match other {
                IncompatibleSource::Yanked(_) | IncompatibleSource::NoBuild => true,
                _ => false,
            },
            IncompatibleSource::Yanked(y) => match other {
                IncompatibleSource::Yanked(y_other) => yanked_more_informative(y, y_other),
                IncompatibleSource::NoBuild => true,
                _ => false,
            },
            IncompatibleSource::NoBuild => false,
        }
    }

    /// Decides whether `self` should displace `other` in the retained
    /// diagnostic slot.
    pub fn is_more_informative(&self, other: &Self) -> (r: bool)
        ensures
            r == self.more_informative_than(*other),
    {
        match self {
            IncompatibleSource::ExcludeNewer(ts) => match other {
                IncompatibleSource::ExcludeNewer(to) => match (ts, to) {
                    (Some(a), Some(b)) => *a < *b,
                    (Some(_), None) => true,
                    (None, _) => false,
                },
                _ => true,
            },
            IncompatibleSource::RequiresPython(_) => match other {
                IncompatibleSource::Yanked(_) | IncompatibleSource::NoBuild => true,
                _ => false,
            },
            IncompatibleSource::Yanked(y) => match other {
                IncompatibleSource::Yanked(y_other) => {
                    matches!(y, Yanked::Reason(_)) && matches!(y_other, Yanked::NoReason)
                },
                IncompatibleSource::NoBuild => true,
                _ => false,
            },
            IncompatibleSource::NoBuild => false,
        }
    }
}

impl WheelCompatibility {
    /// True iff the wheel is installable on the target.
    pub fn is_compatible(&self) -> (r: bool)
        ensures
            r == (self is Compatible),
    {
        matches!(self, WheelCompatibility::Compatible(_))
    }
}

impl From<TagCompatibility> for WheelCompatibility {
    /// A tag-match outcome already decides a wheel's compatibility: a
    /// priority where a tag matched, a tag incompatibility where none did.
    fn from(value: TagCompatibility) -> (r: Self) {
        match value {
            TagCompatibility::Compatible(priority) => WheelCompatibility::Compatible(priority),
            TagCompatibility::Incompatible(tag) => {
                WheelCompatibility::Incompatible(IncompatibleWheel::Tag(tag))
            },
        }
    }
}

/// The active environment and request policy that candidates are
/// classified against. Tag enumeration and specifier evaluation happen
/// upstream; their outcomes arrive with each candidate.
#[derive(Clone, Copy, PartialEq, Eq, Structural, Debug)]
pub struct Environment {
    /// Whether the active request asked for yanked artifacts to be kept.
    pub allow_yanked: bool,
    /// The user-supplied upper bound on acceptable upload timestamps.
    pub exclude_newer: Option<i64>,
    /// Whether a "no binaries" policy covers the package under
    /// consideration.
    pub no_binary: bool,
    /// Whether a "no builds" policy covers the package.
    pub no_build: bool,
}

/// The facts about one wheel that classification reads.
#[derive(Debug, PartialEq, Eq)]
pub struct WheelCandidate {
    /// The index's yank marker, if the wheel was yanked.
    pub yanked: Option<Yanked>,
    /// The upload timestamp, when the index reported one.
    pub upload_time: Option<i64>,
    /// The wheel's declared interpreter constraint, if any.
    pub requires_python: Option<VersionSpecifiers>,
    /// Whether the active interpreter satisfies `requires_python`, as
    /// evaluated upstream; read only when a constraint is declared.
    pub python_satisfied: bool,
    /// The outcome of matching the wheel's tags against the platform.
    pub tags: TagCompatibility,
}

/// The facts about one source distribution that classification reads.
#[derive(Debug, PartialEq, Eq)]
pub struct SourceCandidate {
    pub yanked: Option<Yanked>,
    pub upload_time: Option<i64>,
    pub requires_python: Option<VersionSpecifiers>,
    pub python_satisfied: bool,
}

/// The verdict on a wheel, evaluated as a first-match cascade: a yank the
/// request did not ask for, then the upload-time cutoff (an unknown upload
/// time counts as beyond any cutoff), then an unsatisfied interpreter
/// constraint, then the binary ban, then the tag match; a wheel that clears
/// every rule is compatible at its matched tag priority.
pub open spec fn wheel_verdict(c: WheelCandidate, env: Environment) -> WheelCompatibility {
    if c.yanked is Some && !env.allow_yanked {
        WheelCompatibility::Incompatible(IncompatibleWheel::Yanked(c.yanked->0))
    } else if env.exclude_newer is Some && c.upload_time is None {
        WheelCompatibility::Incompatible(IncompatibleWheel::ExcludeNewer(None))
    } else if env.exclude_newer is Some && c.upload_time->0 > env.exclude_newer->0 {
        WheelCompatibility::Incompatible(IncompatibleWheel::ExcludeNewer(Some(c.upload_time->0)))
    } else if c.requires_python is Some && !c.python_satisfied {
        WheelCompatibility::Incompatible(IncompatibleWheel::RequiresPython(c.requires_python->0))
    } else if env.no_binary {
        WheelCompatibility::Incompatible(IncompatibleWheel::NoBinary)
    } else {
        match c.tags {
            TagCompatibility::Compatible(priority) => WheelCompatibility::Compatible(priority),
            TagCompatibility::Incompatible(tag) => WheelCompatibility::Incompatible(
                IncompatibleWheel::Tag(tag),
            ),
        }
    }
}

/// The verdict on a source distribution: the same cascade with the tag
/// rules absent and the build ban in place of the binary ban; a source
/// distribution that clears every rule is compatible.
pub open spec fn source_verdict(c: SourceCandidate, env: Environment) -> SourceDistCompatibility {
    if c.yanked is Some && !env.allow_yanked {
        SourceDistCompatibility::Incompatible(IncompatibleSource::Yanked(c.yanked->0))
    } else if env.exclude_newer is Some && c.upload_time is None {
        SourceDistCompatibility::Incompatible(IncompatibleSource::ExcludeNewer(None))
    } else if env.exclude_newer is Some && c.upload_time->0 > env.exclude_newer->0 {
        SourceDistCompatibility::Incompatible(
            IncompatibleSource::ExcludeNewer(Some(c.upload_time->0)),
        )
    } else if c.requires_python is Some && !c.python_satisfied {
        SourceDistCompatibility::Incompatible(
            IncompatibleSource::RequiresPython(c.requires_python->0),
        )
    } else if env.no_build {
        SourceDistCompatibility::Incompatible(IncompatibleSource::NoBuild)
    } else {
        SourceDistCompatibility::Compatible
    }
}

/// Classify one wheel against the active environment.
pub fn classify_wheel(c: WheelCandidate, env: &Environment) -> (r: WheelCompatibility)
    ensures
        r == wheel_verdict(c, *env),
{
    if c.yanked.is_some() && !env.allow_yanked {
        let y = c.yanked.unwrap();
        return WheelCompatibility::Incompatible(IncompatibleWheel::Yanked(y));
    }
    if let Some(cutoff) = env.exclude_newer {
        match c.upload_time {
            None => {
                return WheelCompatibility::Incompatible(IncompatibleWheel::ExcludeNewer(None));
            },
            Some(ts) => {
                if ts > cutoff {
                    return WheelCompatibility::Incompatible(
                        IncompatibleWheel::ExcludeNewer(Some(ts)),
                    );
                }
            },
        }
    }
    if c.requires_python.is_some() && !c.python_satisfied {
        let v = c.requires_python.unwrap();
        return WheelCompatibility::Incompatible(IncompatibleWheel::RequiresPython(v));
    }
    if env.no_binary {
        return WheelCompatibility::Incompatible(IncompatibleWheel::NoBinary);
    }
    match c.tags {
        TagCompatibility::Compatible(priority) => WheelCompatibility::Compatible(priority),
        TagCompatibility::Incompatible(tag) => WheelCompatibility::Incompatible(
            IncompatibleWheel::Tag(tag),
        ),
    }
}

/// Classify one source distribution against the active environment.
pub fn classify_source(c: SourceCandidate, env: &Environment) -> (r: SourceDistCompatibility)
    ensures
        r == source_verdict(c, *env),
{
    if c.yanked.is_some() && !env.allow_yanked {
        let y = c.yanked.unwrap();
        return SourceDistCompatibility::Incompatible(IncompatibleSource::Yanked(y));
    }
    if let Some(cutoff) = env.exclude_newer {
        match c.upload_time {
            None => {
                return SourceDistCompatibility::Incompatible(
                    IncompatibleSource::ExcludeNewer(None),
                );
            },
            Some(ts) => {
                if ts > cutoff {
                    return SourceDistCompatibility::Incompatible(
                        IncompatibleSource::ExcludeNewer(Some(ts)),
                    );
                }
            },
        }
    }
    if c.requires_python.is_some() && !c.python_satisfied {
        let v = c.requires_python.unwrap();
        return SourceDistCompatibility::Incompatible(IncompatibleSource::RequiresPython(v));
    }
    if env.no_build {
        return SourceDistCompatibility::Incompatible(IncompatibleSource::NoBuild);
    }
    SourceDistCompatibility::Compatible
}

impl vstd::std_specs::convert::FromSpecImpl<TagCompatibility> for WheelCompatibility {
    open spec fn obeys_from_spec() -> bool {
        true
    }

    open spec fn from_spec(value: TagCompatibility) -> Self {
        match value {
            TagCompatibility::Compatible(priority) => WheelCompatibility::Compatible(priority),
            TagCompatibility::Incompatible(tag) => {
                WheelCompatibility::Incompatible(IncompatibleWheel::Tag(tag))
            },
        }
    }
}

} // verus!

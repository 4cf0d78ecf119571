//! The global guarantees of the accumulator, stated over whole insertion
//! sequences and proved from the per-operation models.

use vstd::prelude::*;

use crate::compatibility::IncompatibleSource;
use crate::compatibility::IncompatibleWheel;
use crate::compatibility::SourceDistCompatibility;
use crate::compatibility::TagPriority;
use crate::compatibility::WheelCompatibility;
use crate::prioritized_distribution::BucketModel;
use crate::prioritized_distribution::CompatibleDist;
use crate::prioritized_distribution::Dist;
use crate::prioritized_distribution::Hashes;
use crate::prioritized_distribution::empty_bucket;
use crate::prioritized_distribution::insert_built_model;
use crate::prioritized_distribution::insert_source_model;
use crate::prioritized_distribution::installation_choice;
use crate::prioritized_distribution::selection_of;

verus! {

/// One insertion event: a wheel verdict or a source-distribution verdict
/// for one artifact, with an optional content hash.
pub enum Insertion {
    Built(Dist, Option<Hashes>, WheelCompatibility),
    Sourced(Dist, Option<Hashes>, SourceDistCompatibility),
}

/// The bucket that results from one insertion event.
pub open spec fn apply_insertion(m: BucketModel, ins: Insertion) -> BucketModel {
    match ins {
        Insertion::Built(dist, hash, compatibility) => insert_built_model(
            m,
            dist,
            hash,
            compatibility,
        ),
        Insertion::Sourced(dist, hash, compatibility) => insert_source_model(
            m,
            dist,
            hash,
            compatibility,
        ),
    }
}

/// The bucket that results from a whole insertion sequence, applied in
/// order.
pub open spec fn run_insertions(m: BucketModel, s: Seq<Insertion>) -> BucketModel
    decreases s.len(),
{
    if s.len() == 0 {
        m
    } else {
        run_insertions(apply_insertion(m, s[0]), s.drop_first())
    }
}

/// One insertion never lowers the priority held by the compatible-wheel
/// slot, and never empties it.
pub proof fn lemma_wheel_priority_monotone_step(
    m: BucketModel,
    ins: Insertion,
    d: Dist,
    p: TagPriority,
)
    requires
        m.compatible_wheel == Some((d, p)),
    ensures
        apply_insertion(m, ins).compatible_wheel matches Some((d2, p2)) && p2.value >= p.value,
{
}

/// Monotone compatibility: once the compatible-wheel slot holds priority
/// `p`, the slot stays occupied through any further insertion sequence, and
/// the priority it holds never drops below `p`.
pub proof fn lemma_wheel_priority_monotone(
    m: BucketModel,
    s: Seq<Insertion>,
    d: Dist,
    p: TagPriority,
)
    requires
        m.compatible_wheel == Some((d, p)),
    ensures
        run_insertions(m, s).compatible_wheel matches Some((d2, p2)) && p2.value >= p.value,
    decreases s.len(),
{
    if s.len() > 0 {
        let m1 = apply_insertion(m, s[0]);
        lemma_wheel_priority_monotone_step(m, s[0], d, p);
        match m1.compatible_wheel {
            Some((d1, p1)) => {
                lemma_wheel_priority_monotone(m1, s.drop_first(), d1, p1);
            },
            None => {
                assert(false);
            },
        }
    }
}

/// The number of insertions in `s` that supplied a hash.
pub open spec fn hash_count(s: Seq<Insertion>) -> nat
    decreases s.len(),
{
    if s.len() == 0 {
        0
    } else {
        insertion_hash_count(s[0]) + hash_count(s.drop_first())
    }
}

/// One for an insertion that supplied a hash, zero otherwise.
pub open spec fn insertion_hash_count(ins: Insertion) -> nat {
    match ins {
        Insertion::Built(_, hash, _) => if hash is Some {
            1nat
        } else {
            0nat
        },
        Insertion::Sourced(_, hash, _) => if hash is Some {
            1nat
        } else {
            0nat
        },
    }
}

/// Hash preservation: the length of the hash list grows by exactly the
/// number of insertions that supplied a hash.
pub proof fn lemma_hash_preservation(m: BucketModel, s: Seq<Insertion>)
    ensures
        run_insertions(m, s).hashes.len() == m.hashes.len() + hash_count(s),
    decreases s.len(),
{
    if s.len() > 0 {
        lemma_hash_preservation(apply_insertion(m, s[0]), s.drop_first());
    }
}

/// The informativeness rank of a wheel incompatibility's kind: upload-time
/// cutoffs outrank tag misses, which outrank interpreter mismatches, which
/// outrank yanks, which outrank the global binary ban.
pub open spec fn wheel_reason_rank(r: IncompatibleWheel) -> int {
    match r {
        IncompatibleWheel::ExcludeNewer(_) => 4,
        IncompatibleWheel::Tag(_) => 3,
        IncompatibleWheel::RequiresPython(_) => 2,
        IncompatibleWheel::Yanked(_) => 1,
        IncompatibleWheel::NoBinary => 0,
    }
}

/// The preorder respects kind rank: a strictly more informative reason is
/// never of a lower kind, and of a strictly higher kind whenever the kinds
/// differ.
pub proof fn lemma_wheel_preorder_respects_rank(a: IncompatibleWheel, b: IncompatibleWheel)
    ensures
        a.more_informative_than(b) ==> wheel_reason_rank(a) >= wheel_reason_rank(b),
        a.more_informative_than(b) && wheel_reason_rank(a) != wheel_reason_rank(b)
            ==> wheel_reason_rank(a) > wheel_reason_rank(b),
{
}

/// One insertion never lowers the kind rank held by the incompatible-wheel
/// slot, and never empties it.
pub proof fn lemma_diagnostic_rank_monotone_step(
    m: BucketModel,
    ins: Insertion,
    d: Dist,
    r: IncompatibleWheel,
)
    requires
        m.incompatible_wheel == Some((d, r)),
    ensures
        apply_insertion(m, ins).incompatible_wheel matches Some((d2, r2)) && wheel_reason_rank(r2)
            >= wheel_reason_rank(r),
{
    match ins {
        Insertion::Built(d2, _, WheelCompatibility::Incompatible(r2)) => {
            lemma_wheel_preorder_respects_rank(r2, r);
        },
        _ => {},
    }
}

/// Once the incompatible-wheel slot holds a reason, the kind rank of the
/// retained reason never drops through any further insertion sequence.
pub proof fn lemma_diagnostic_rank_monotone(
    m: BucketModel,
    s: Seq<Insertion>,
    d: Dist,
    r: IncompatibleWheel,
)
    requires
        m.incompatible_wheel == Some((d, r)),
    ensures
        run_insertions(m, s).incompatible_wheel matches Some((d2, r2)) && wheel_reason_rank(r2)
            >= wheel_reason_rank(r),
    decreases s.len(),
{
    if s.len() > 0 {
        let m1 = apply_insertion(m, s[0]);
        lemma_diagnostic_rank_monotone_step(m, s[0], d, r);
        match m1.incompatible_wheel {
            Some((d1, r1)) => {
                lemma_diagnostic_rank_monotone(m1, s.drop_first(), d1, r1);
            },
            None => {
                assert(false);
            },
        }
    }
}

/// A step of strict improvement between reasons of different kinds.
pub open spec fn improving_kind_step(prev: IncompatibleWheel, next: IncompatibleWheel) -> bool {
    next.more_informative_than(prev) && wheel_reason_rank(next) != wheel_reason_rank(prev)
}

proof fn lemma_chain_rank_lower_bound(c: Seq<IncompatibleWheel>, i: int)
    requires
        forall|j: int| 0 <= j < c.len() - 1 ==> #[trigger] improving_kind_step(c[j], c[j + 1]),
        0 <= i < c.len(),
    ensures
        wheel_reason_rank(c[i]) >= wheel_reason_rank(c[0]) + i,
    decreases i,
{
    if i > 0 {
        lemma_chain_rank_lower_bound(c, i - 1);
        let j = i - 1;
        assert(improving_kind_step(c[j], c[j + 1]));
        assert(c[j + 1] == c[i]);
        lemma_wheel_preorder_respects_rank(c[i], c[i - 1]);
    }
}

/// Convergence of the diagnostic slot: along a chain of reasons in which
/// each element strictly improves on its predecessor and changes kind, the
/// kind rank strictly increases, so the chain holds at most one element per
/// kind: five for wheels. (Within one kind, a chain of ever-smaller
/// timestamps can be arbitrarily long; the bound speaks of kinds.)
pub proof fn lemma_wheel_informativeness_chain_bounded(c: Seq<IncompatibleWheel>)
    requires
        forall|j: int| 0 <= j < c.len() - 1 ==> #[trigger] improving_kind_step(c[j], c[j + 1]),
    ensures
        c.len() <= 5,
{
    if c.len() > 5 {
        lemma_chain_rank_lower_bound(c, 5);
        assert(wheel_reason_rank(c[0]) >= 0);
        assert(wheel_reason_rank(c[5]) <= 4);
        assert(false);
    }
}

/// The informativeness rank of a source incompatibility's kind.
pub open spec fn source_reason_rank(r: IncompatibleSource) -> int {
    match r {
        IncompatibleSource::ExcludeNewer(_) => 3,
        IncompatibleSource::RequiresPython(_) => 2,
        IncompatibleSource::Yanked(_) => 1,
        IncompatibleSource::NoBuild => 0,
    }
}

/// The source preorder respects kind rank in the same way as the wheel
/// preorder.
pub proof fn lemma_source_preorder_respects_rank(a: IncompatibleSource, b: IncompatibleSource)
    ensures
        a.more_informative_than(b) ==> source_reason_rank(a) >= source_reason_rank(b),
        a.more_informative_than(b) && source_reason_rank(a) != source_reason_rank(b)
            ==> source_reason_rank(a) > source_reason_rank(b),
{
}

/// A step of strict improvement between source reasons of different kinds.
pub open spec fn improving_source_kind_step(
    prev: IncompatibleSource,
    next: IncompatibleSource,
) -> bool {
    next.more_informative_than(prev) && source_reason_rank(next) != source_reason_rank(prev)
}

proof fn lemma_source_chain_rank_lower_bound(c: Seq<IncompatibleSource>, i: int)
    requires
        forall|j: int| 0 <= j < c.len() - 1 ==> #[trigger] improving_source_kind_step(c[j], c[j + 1]),
        0 <= i < c.len(),
    ensures
        source_reason_rank(c[i]) >= source_reason_rank(c[0]) + i,
    decreases i,
{
    if i > 0 {
        lemma_source_chain_rank_lower_bound(c, i - 1);
        let j = i - 1;
        assert(improving_source_kind_step(c[j], c[j + 1]));
        assert(c[j + 1] == c[i]);
        lemma_source_preorder_respects_rank(c[i], c[i - 1]);
    }
}

/// Convergence of the source diagnostic slot: a chain of strict,
/// kind-changing improvements holds at most one element per kind, four for
/// source distributions.
pub proof fn lemma_source_informativeness_chain_bounded(c: Seq<IncompatibleSource>)
    requires
        forall|j: int| 0 <= j < c.len() - 1 ==> #[trigger] improving_source_kind_step(c[j], c[j + 1]),
    ensures
        c.len() <= 4,
{
    if c.len() > 4 {
        lemma_source_chain_rank_lower_bound(c, 4);
        assert(source_reason_rank(c[0]) >= 0);
        assert(source_reason_rank(c[4]) <= 3);
        assert(false);
    }
}

/// True iff `ins` inserts the artifact `d` with a `Compatible` verdict.
pub open spec fn offers_compatible(ins: Insertion, d: Dist) -> bool {
    match ins {
        Insertion::Built(d2, _, c) => d2 == d && c is Compatible,
        Insertion::Sourced(d2, _, c) => d2 == d && c is Compatible,
    }
}

/// True iff `ins` inserts the wheel `d` as compatible with priority `p`.
pub open spec fn offers_compatible_wheel(ins: Insertion, d: Dist, p: TagPriority) -> bool {
    match ins {
        Insertion::Built(d2, _, c) => d2 == d && c == WheelCompatibility::Compatible(p),
        Insertion::Sourced(_, _, _) => false,
    }
}

/// True iff `ins` inserts the source distribution `d` as compatible.
pub open spec fn offers_compatible_source(ins: Insertion, d: Dist) -> bool {
    match ins {
        Insertion::Built(_, _, _) => false,
        Insertion::Sourced(d2, _, c) => d2 == d && c is Compatible,
    }
}

/// Whatever occupies a compatible slot after a run was either there before
/// the run or was inserted, with that same verdict, by the run itself.
proof fn lemma_compatible_slots_come_from_insertions(m: BucketModel, s: Seq<Insertion>)
    ensures
        run_insertions(m, s).compatible_wheel matches Some((d, p)) ==> m.compatible_wheel == Some(
            (d, p),
        ) || exists|i: int| 0 <= i < s.len() && offers_compatible_wheel(#[trigger] s[i], d, p),
        run_insertions(m, s).compatible_source matches Some(d) ==> m.compatible_source == Some(d)
            || exists|i: int| 0 <= i < s.len() && offers_compatible_source(#[trigger] s[i], d),
    decreases s.len(),
{
    if s.len() > 0 {
        let m1 = apply_insertion(m, s[0]);
        lemma_compatible_slots_come_from_insertions(m1, s.drop_first());
        let r = run_insertions(m, s);
        match r.compatible_wheel {
            Some((d, p)) => {
                if m1.compatible_wheel == Some((d, p)) {
                    if m.compatible_wheel != Some((d, p)) {
                        assert(offers_compatible_wheel(s[0], d, p));
                    }
                } else {
                    let i = choose|i: int|
                        0 <= i < s.drop_first().len() && offers_compatible_wheel(
                            #[trigger] s.drop_first()[i],
                            d,
                            p,
                        );
                    assert(s.drop_first()[i] == s[i + 1]);
                    assert(offers_compatible_wheel(s[i + 1], d, p));
                }
            },
            None => {},
        }
        match r.compatible_source {
            Some(d) => {
                if m1.compatible_source == Some(d) {
                    if m.compatible_source != Some(d) {
                        assert(offers_compatible_source(s[0], d));
                    }
                } else {
                    let i = choose|i: int|
                        0 <= i < s.drop_first().len() && offers_compatible_source(
                            #[trigger] s.drop_first()[i],
                            d,
                        );
                    assert(s.drop_first()[i] == s[i + 1]);
                    assert(offers_compatible_source(s[i + 1], d));
                }
            },
            None => {},
        }
    }
}

/// Installation safety: whenever a bucket built from scratch selects a
/// distribution, the artifact handed to the installer was inserted with a
/// `Compatible` verdict. No artifact classified as incompatible for the
/// active environment is ever materialized.
pub proof fn lemma_installation_safety(s: Seq<Insertion>, c: CompatibleDist)
    requires
        selection_of(run_insertions(empty_bucket(), s)) == Some(c),
    ensures
        exists|i: int| 0 <= i < s.len() && offers_compatible(#[trigger] s[i], installation_choice(c)),
{
    lemma_compatible_slots_come_from_insertions(empty_bucket(), s);
    let r = run_insertions(empty_bucket(), s);
    match c {
        CompatibleDist::CompatibleWheel(w, p) => {
            assert(r.compatible_wheel == Some((w, p)));
            let i = choose|i: int|
                0 <= i < s.len() && offers_compatible_wheel(#[trigger] s[i], w, p);
            assert(offers_compatible(s[i], w));
        },
        CompatibleDist::IncompatibleWheel { source_dist, wheel } => {
            assert(r.compatible_source == Some(source_dist));
            let i = choose|i: int|
                0 <= i < s.len() && offers_compatible_source(#[trigger] s[i], source_dist);
            assert(offers_compatible(s[i], source_dist));
        },
        CompatibleDist::SourceDist(source_dist) => {
            assert(r.compatible_source == Some(source_dist));
            let i = choose|i: int|
                0 <= i < s.len() && offers_compatible_source(#[trigger] s[i], source_dist);
            assert(offers_compatible(s[i], source_dist));
        },
    }
}

/// The priority of a compatible-wheel insertion, when `ins` is one.
pub open spec fn compatible_built_priority(ins: Insertion) -> Option<TagPriority> {
    match ins {
        Insertion::Built(_, _, WheelCompatibility::Compatible(p)) => Some(p),
        _ => None,
    }
}

/// The reason of an incompatible-wheel insertion, when `ins` is one.
pub open spec fn incompatible_built_reason(ins: Insertion) -> Option<IncompatibleWheel> {
    match ins {
        Insertion::Built(_, _, WheelCompatibility::Incompatible(r)) => Some(r),
        _ => None,
    }
}

/// The artifact of a compatible-source insertion, when `ins` is one.
pub open spec fn compatible_source_dist(ins: Insertion) -> Option<Dist> {
    match ins {
        Insertion::Sourced(d, _, SourceDistCompatibility::Compatible) => Some(d),
        _ => None,
    }
}

/// True iff `ins` inserts the wheel `d` as incompatible with reason `r`.
pub open spec fn offers_incompatible_wheel(ins: Insertion, d: Dist, r: IncompatibleWheel) -> bool {
    match ins {
        Insertion::Built(d2, _, WheelCompatibility::Incompatible(r2)) => d2 == d && r2 == r,
        _ => false,
    }
}

/// No two compatible-wheel insertions in `s` share a priority.
pub open spec fn no_priority_ties(s: Seq<Insertion>) -> bool {
    forall|i: int, j: int|
        #![trigger s[i], s[j]]
        0 <= i < s.len() && 0 <= j < s.len() && i != j ==> match (
            compatible_built_priority(s[i]),
            compatible_built_priority(s[j]),
        ) {
            (Some(p1), Some(p2)) => p1 != p2,
            _ => true,
        }
}

/// All compatible-source insertions in `s` carry the same artifact.
pub open spec fn agreeing_sources(s: Seq<Insertion>) -> bool {
    forall|i: int, j: int|
        #![trigger s[i], s[j]]
        0 <= i < s.len() && 0 <= j < s.len() ==> match (
            compatible_source_dist(s[i]),
            compatible_source_dist(s[j]),
        ) {
            (Some(d1), Some(d2)) => d1 == d2,
            _ => true,
        }
}

/// Any two incompatible-wheel insertions in `s` carry reasons that the
/// preorder orders strictly, one way or the other. In particular no reason
/// occurs twice, and no two `RequiresPython` reasons occur.
pub open spec fn comparable_reasons(s: Seq<Insertion>) -> bool {
    forall|i: int, j: int|
        #![trigger s[i], s[j]]
        0 <= i < s.len() && 0 <= j < s.len() && i != j ==> match (
            incompatible_built_reason(s[i]),
            incompatible_built_reason(s[j]),
        ) {
            (Some(r1), Some(r2)) => r1.more_informative_than(r2) || r2.more_informative_than(r1),
            _ => true,
        }
}

/// The preorder is antisymmetric on every pair it relates.
pub proof fn lemma_wheel_preorder_antisymmetric(a: IncompatibleWheel, b: IncompatibleWheel)
    ensures
        a.more_informative_than(b) ==> !b.more_informative_than(a),
{
}

/// The preorder is transitive along comparable endpoints: transitivity is
/// never needed, and never claimed, across a pair of `RequiresPython`
/// reasons, which are incomparable.
pub proof fn lemma_wheel_preorder_transitive(
    a: IncompatibleWheel,
    b: IncompatibleWheel,
    c: IncompatibleWheel,
)
    requires
        a.more_informative_than(b),
        b.more_informative_than(c),
        a.more_informative_than(c) || c.more_informative_than(a),
    ensures
        a.more_informative_than(c),
{
    lemma_wheel_preorder_respects_rank(a, b);
    lemma_wheel_preorder_respects_rank(b, c);
    lemma_wheel_preorder_respects_rank(c, a);
}

/// `d` with priority `p` is in contention for the compatible-wheel slot:
/// it already occupies it in `m`, or `s` inserts it as compatible.
pub open spec fn wheel_candidate(
    m: BucketModel,
    s: Seq<Insertion>,
    d: Dist,
    p: TagPriority,
) -> bool {
    m.compatible_wheel == Some((d, p)) || exists|i: int|
        0 <= i < s.len() && offers_compatible_wheel(#[trigger] s[i], d, p)
}

/// `d` is in contention for the compatible-source slot.
pub open spec fn source_candidate(m: BucketModel, s: Seq<Insertion>, d: Dist) -> bool {
    m.compatible_source == Some(d) || exists|i: int|
        0 <= i < s.len() && offers_compatible_source(#[trigger] s[i], d)
}

/// `d` with reason `r` is in contention for the incompatible-wheel slot.
pub open spec fn diagnostic_candidate(
    m: BucketModel,
    s: Seq<Insertion>,
    d: Dist,
    r: IncompatibleWheel,
) -> bool {
    m.incompatible_wheel == Some((d, r)) || exists|i: int|
        0 <= i < s.len() && offers_incompatible_wheel(#[trigger] s[i], d, r)
}

/// No insertion in `s` is a compatible wheel.
pub open spec fn no_wheel_offers(s: Seq<Insertion>) -> bool {
    forall|i: int| 0 <= i < s.len() ==> compatible_built_priority(#[trigger] s[i]) is None
}

/// No insertion in `s` is a compatible source distribution.
pub open spec fn no_source_offers(s: Seq<Insertion>) -> bool {
    forall|i: int| 0 <= i < s.len() ==> compatible_source_dist(#[trigger] s[i]) is None
}

/// No insertion in `s` is an incompatible wheel.
pub open spec fn no_diagnostic_offers(s: Seq<Insertion>) -> bool {
    forall|i: int| 0 <= i < s.len() ==> incompatible_built_reason(#[trigger] s[i]) is None
}

/// The priority held by `m`'s compatible-wheel slot occurs nowhere in `s`.
pub open spec fn slot_priority_fresh(m: BucketModel, s: Seq<Insertion>) -> bool {
    forall|i: int|
        0 <= i < s.len() ==> match (
            m.compatible_wheel,
            compatible_built_priority(#[trigger] s[i]),
        ) {
            (Some((_, pm)), Some(pi)) => pm != pi,
            _ => true,
        }
}

/// The reason held by `m`'s incompatible-wheel slot is strictly comparable
/// with every reason inserted by `s`.
pub open spec fn slot_reason_comparable(m: BucketModel, s: Seq<Insertion>) -> bool {
    forall|i: int|
        0 <= i < s.len() ==> match (
            m.incompatible_wheel,
            incompatible_built_reason(#[trigger] s[i]),
        ) {
            (Some((_, rm)), Some(ri)) => rm.more_informative_than(ri)
                || ri.more_informative_than(rm),
            _ => true,
        }
}

proof fn lemma_conditions_drop_first(s: Seq<Insertion>)
    requires
        s.len() > 0,
    ensures
        no_priority_ties(s) ==> no_priority_ties(s.drop_first()),
        agreeing_sources(s) ==> agreeing_sources(s.drop_first()),
        comparable_reasons(s) ==> comparable_reasons(s.drop_first()),
{
    let t = s.drop_first();
    assert(forall|i: int| 0 <= i < t.len() ==> #[trigger] t[i] == s[i + 1]);
}

/// After any run, the compatible-wheel slot holds exactly the candidate of
/// strictly greatest priority, and is empty exactly when there is none.
proof fn lemma_wheel_slot_resolved(m: BucketModel, s: Seq<Insertion>)
    requires
        no_priority_ties(s),
        slot_priority_fresh(m, s),
    ensures
        run_insertions(m, s).compatible_wheel is None <==> (m.compatible_wheel is None
            && no_wheel_offers(s)),
        run_insertions(m, s).compatible_wheel matches Some((d, p)) ==> wheel_candidate(m, s, d, p)
            && (forall|d2: Dist, p2: TagPriority|
            #![trigger wheel_candidate(m, s, d2, p2)]
            wheel_candidate(m, s, d2, p2) && (d2, p2) != (d, p) ==> p2.value < p.value),
    decreases s.len(),
{
    if s.len() == 0 {
        match m.compatible_wheel {
            Some((d, p)) => {
                assert(wheel_candidate(m, s, d, p));
            },
            None => {},
        }
    } else {
        let m1 = apply_insertion(m, s[0]);
        let t = s.drop_first();
        assert(forall|i: int| 0 <= i < t.len() ==> #[trigger] t[i] == s[i + 1]);
        lemma_conditions_drop_first(s);
        assert(slot_priority_fresh(m1, t)) by {
            assert forall|i: int| 0 <= i < t.len() implies match (
                m1.compatible_wheel,
                compatible_built_priority(#[trigger] t[i]),
            ) {
                (Some((_, pm)), Some(pi)) => pm != pi,
                _ => true,
            } by {
                assert(t[i] == s[i + 1]);
                match (m1.compatible_wheel, compatible_built_priority(s[i + 1])) {
                    (Some((dm, pm)), Some(pi)) => {
                        if m1.compatible_wheel == m.compatible_wheel {
                        } else {
                            assert(compatible_built_priority(s[0]) == Some(pm));
                        }
                    },
                    _ => {},
                }
            }
        }
        lemma_wheel_slot_resolved(m1, t);
        let r = run_insertions(m, s).compatible_wheel;
        // Emptiness in both directions.
        assert(r is None <==> (m.compatible_wheel is None && no_wheel_offers(s))) by {
            if r is None {
                assert(m1.compatible_wheel is None && no_wheel_offers(t));
                assert(compatible_built_priority(s[0]) is None);
                assert(forall|i: int| 0 <= i < s.len() ==> compatible_built_priority(
                    #[trigger] s[i],
                ) is None) by {
                    assert forall|i: int| 0 <= i < s.len() implies compatible_built_priority(
                        #[trigger] s[i],
                    ) is None by {
                        if i > 0 {
                            assert(s[i] == t[i - 1]);
                        }
                    }
                }
            } else {
                if m.compatible_wheel is None && no_wheel_offers(s) {
                    assert(compatible_built_priority(s[0]) is None);
                    assert(m1.compatible_wheel is None);
                    assert(no_wheel_offers(t));
                    assert(false);
                }
            }
        }
        // Maximality.
        match r {
            Some((d, p)) => {
                assert(wheel_candidate(m1, t, d, p));
                // A candidate downstream is a candidate here.
                if m1.compatible_wheel == Some((d, p)) && m.compatible_wheel != Some((d, p)) {
                    assert(offers_compatible_wheel(s[0], d, p));
                    assert(wheel_candidate(m, s, d, p));
                } else if m1.compatible_wheel == Some((d, p)) {
                    assert(wheel_candidate(m, s, d, p));
                } else {
                    let i = choose|i: int|
                        0 <= i < t.len() && offers_compatible_wheel(#[trigger] t[i], d, p);
                    assert(s[i + 1] == t[i]);
                    assert(wheel_candidate(m, s, d, p));
                }
                assert forall|d2: Dist, p2: TagPriority|
                    wheel_candidate(m, s, d2, p2) && (d2, p2) != (d, p) implies p2.value
                    < p.value by {
                    if wheel_candidate(m1, t, d2, p2) {
                    } else {
                        // The candidate was displaced or consumed at step 0.
                        if m.compatible_wheel == Some((d2, p2)) {
                            // Displaced by an accepted, strictly higher insertion.
                            match compatible_built_priority(s[0]) {
                                Some(p0) => {
                                    assert(m1.compatible_wheel matches Some((x0, q0)) && q0 == p0);
                                    assert(p2.value < p0.value);
                                    match m1.compatible_wheel {
                                        Some((x0, q0)) => {
                                            if (x0, q0) == (d, p) {
                                            } else {
                                                assert(wheel_candidate(m1, t, x0, q0));
                                                assert(q0.value < p.value);
                                            }
                                        },
                                        None => {
                                            assert(false);
                                        },
                                    }
                                },
                                None => {
                                    assert(false);
                                },
                            }
                        } else {
                            let i = choose|i: int|
                                0 <= i < s.len() && offers_compatible_wheel(
                                    #[trigger] s[i],
                                    d2,
                                    p2,
                                );
                            if i == 0 {
                                // Step 0 offered (d2, p2); it was either accepted,
                                // becoming a downstream candidate, or lost to a
                                // strictly higher occupant.
                                if m1.compatible_wheel == Some((d2, p2)) {
                                    assert(wheel_candidate(m1, t, d2, p2));
                                    assert(false);
                                } else {
                                    match m.compatible_wheel {
                                        Some((dm, pm)) => {
                                            assert(p2.value < pm.value);
                                            assert(m1.compatible_wheel == Some((dm, pm)));
                                            assert(wheel_candidate(m1, t, dm, pm));
                                            if (dm, pm) == (d, p) {
                                            } else {
                                                assert(pm.value < p.value);
                                            }
                                        },
                                        None => {
                                            assert(false);
                                        },
                                    }
                                }
                            } else {
                                assert(t[i - 1] == s[i]);
                                assert(wheel_candidate(m1, t, d2, p2));
                                assert(false);
                            }
                        }
                    }
                }
            },
            None => {},
        }
    }
}

/// After any run, the compatible-source slot keeps its prior occupant, or
/// the first compatible source the run inserted; it is empty exactly when
/// there is no candidate.
proof fn lemma_source_slot_resolved(m: BucketModel, s: Seq<Insertion>)
    ensures
        run_insertions(m, s).compatible_source is None <==> (m.compatible_source is None
            && no_source_offers(s)),
        run_insertions(m, s).compatible_source matches Some(d) ==> source_candidate(m, s, d),
    decreases s.len(),
{
    if s.len() > 0 {
        let m1 = apply_insertion(m, s[0]);
        let t = s.drop_first();
        assert(forall|i: int| 0 <= i < t.len() ==> #[trigger] t[i] == s[i + 1]);
        lemma_source_slot_resolved(m1, t);
        let r = run_insertions(m, s).compatible_source;
        assert(r is None <==> (m.compatible_source is None && no_source_offers(s))) by {
            if r is None {
                assert forall|i: int| 0 <= i < s.len() implies compatible_source_dist(
                    #[trigger] s[i],
                ) is None by {
                    if i > 0 {
                        assert(s[i] == t[i - 1]);
                    }
                }
            } else {
                if m.compatible_source is None && no_source_offers(s) {
                    assert(compatible_source_dist(s[0]) is None);
                    assert(no_source_offers(t));
                    assert(false);
                }
            }
        }
        match r {
            Some(d) => {
                assert(source_candidate(m1, t, d));
                if m1.compatible_source == Some(d) && m.compatible_source != Some(d) {
                    assert(offers_compatible_source(s[0], d));
                } else if m1.compatible_source == Some(d) {
                } else {
                    let i = choose|i: int|
                        0 <= i < t.len() && offers_compatible_source(#[trigger] t[i], d);
                    assert(s[i + 1] == t[i]);
                }
                assert(source_candidate(m, s, d));
            },
            None => {},
        }
    } else {
        match m.compatible_source {
            Some(d) => {
                assert(source_candidate(m, s, d));
            },
            None => {},
        }
    }
}

/// After any run over pairwise-comparable reasons, the incompatible-wheel
/// slot holds exactly the candidate whose reason strictly beats every other
/// candidate's, and is empty exactly when there is none.
proof fn lemma_diagnostic_slot_resolved(m: BucketModel, s: Seq<Insertion>)
    requires
        comparable_reasons(s),
        slot_reason_comparable(m, s),
    ensures
        run_insertions(m, s).incompatible_wheel is None <==> (m.incompatible_wheel is None
            && no_diagnostic_offers(s)),
        run_insertions(m, s).incompatible_wheel matches Some((d, r)) ==> diagnostic_candidate(
            m,
            s,
            d,
            r,
        ) && (forall|d2: Dist, r2: IncompatibleWheel|
            #![trigger diagnostic_candidate(m, s, d2, r2)]
            diagnostic_candidate(m, s, d2, r2) && (d2, r2) != (d, r)
                ==> r.more_informative_than(r2)),
    decreases s.len(),
{
    if s.len() == 0 {
        match m.incompatible_wheel {
            Some((d, r)) => {
                assert(diagnostic_candidate(m, s, d, r));
            },
            None => {},
        }
    } else {
        let m1 = apply_insertion(m, s[0]);
        let t = s.drop_first();
        assert(forall|i: int| 0 <= i < t.len() ==> #[trigger] t[i] == s[i + 1]);
        lemma_conditions_drop_first(s);
        assert(slot_reason_comparable(m1, t)) by {
            assert forall|i: int| 0 <= i < t.len() implies match (
                m1.incompatible_wheel,
                incompatible_built_reason(#[trigger] t[i]),
            ) {
                (Some((_, rm)), Some(ri)) => rm.more_informative_than(ri)
                    || ri.more_informative_than(rm),
                _ => true,
            } by {
                assert(t[i] == s[i + 1]);
                match (m1.incompatible_wheel, incompatible_built_reason(s[i + 1])) {
                    (Some((dm, rm)), Some(ri)) => {
                        if m1.incompatible_wheel == m.incompatible_wheel {
                        } else {
                            assert(incompatible_built_reason(s[0]) == Some(rm));
                        }
                    },
                    _ => {},
                }
            }
        }
        lemma_diagnostic_slot_resolved(m1, t);
        let r = run_insertions(m, s).incompatible_wheel;
        assert(r is None <==> (m.incompatible_wheel is None && no_diagnostic_offers(s))) by {
            if r is None {
                assert forall|i: int| 0 <= i < s.len() implies incompatible_built_reason(
                    #[trigger] s[i],
                ) is None by {
                    if i > 0 {
                        assert(s[i] == t[i - 1]);
                    }
                }
            } else {
                if m.incompatible_wheel is None && no_diagnostic_offers(s) {
                    assert(incompatible_built_reason(s[0]) is None);
                    assert(no_diagnostic_offers(t));
                    assert(false);
                }
            }
        }
        match r {
            Some((d, rr)) => {
                assert(diagnostic_candidate(m1, t, d, rr));
                if m1.incompatible_wheel == Some((d, rr)) && m.incompatible_wheel != Some(
                    (d, rr),
                ) {
                    assert(offers_incompatible_wheel(s[0], d, rr));
                    assert(diagnostic_candidate(m, s, d, rr));
                } else if m1.incompatible_wheel == Some((d, rr)) {
                    assert(diagnostic_candidate(m, s, d, rr));
                } else {
                    let i = choose|i: int|
                        0 <= i < t.len() && offers_incompatible_wheel(#[trigger] t[i], d, rr);
                    assert(s[i + 1] == t[i]);
                    assert(diagnostic_candidate(m, s, d, rr));
                }
                assert forall|d2: Dist, r2: IncompatibleWheel|
                    diagnostic_candidate(m, s, d2, r2) && (d2, r2) != (d, rr) implies
                    rr.more_informative_than(r2) by {
                    if diagnostic_candidate(m1, t, d2, r2) {
                    } else {
                        if m.incompatible_wheel == Some((d2, r2)) {
                            // Displaced at step 0 by a strictly better reason.
                            match incompatible_built_reason(s[0]) {
                                Some(r0) => {
                                    assert(r0.more_informative_than(r2));
                                    match m1.incompatible_wheel {
                                        Some((x0, q0)) => {
                                            assert(q0 == r0);
                                            if (x0, q0) == (d, rr) {
                                            } else {
                                                assert(diagnostic_candidate(m1, t, x0, q0));
                                                assert(rr.more_informative_than(r0));
                                                assert(rr.more_informative_than(r2)
                                                    || r2.more_informative_than(rr));
                                                lemma_wheel_preorder_transitive(rr, r0, r2);
                                            }
                                        },
                                        None => {
                                            assert(false);
                                        },
                                    }
                                },
                                None => {
                                    assert(false);
                                },
                            }
                        } else {
                            let i = choose|i: int|
                                0 <= i < s.len() && offers_incompatible_wheel(
                                    #[trigger] s[i],
                                    d2,
                                    r2,
                                );
                            if i == 0 {
                                if m1.incompatible_wheel == Some((d2, r2)) {
                                    assert(diagnostic_candidate(m1, t, d2, r2));
                                    assert(false);
                                } else {
                                    match m.incompatible_wheel {
                                        Some((dm, rm)) => {
                                            assert(rm.more_informative_than(r2)
                                                || r2.more_informative_than(rm));
                                            assert(!r2.more_informative_than(rm));
                                            assert(m1.incompatible_wheel == Some((dm, rm)));
                                            assert(diagnostic_candidate(m1, t, dm, rm));
                                            if (dm, rm) == (d, rr) {
                                            } else {
                                                assert(rr.more_informative_than(rm));
                                                assert(rr.more_informative_than(r2)
                                                    || r2.more_informative_than(rr));
                                                lemma_wheel_preorder_transitive(rr, rm, r2);
                                            }
                                        },
                                        None => {
                                            assert(false);
                                        },
                                    }
                                }
                            } else {
                                assert(t[i - 1] == s[i]);
                                assert(diagnostic_candidate(m1, t, d2, r2));
                                assert(false);
                            }
                        }
                    }
                }
            },
            None => {},
        }
    }
}

proof fn lemma_multiset_index_transfer(s1: Seq<Insertion>, s2: Seq<Insertion>, i: int)
    requires
        s1.to_multiset() == s2.to_multiset(),
        0 <= i < s1.len(),
    ensures
        exists|j: int| 0 <= j < s2.len() && #[trigger] s2[j] == s1[i],
{
    broadcast use vstd::seq_lib::group_to_multiset_ensures;

    assert(s1.contains(s1[i]));
    assert(s1.to_multiset().count(s1[i]) > 0);
    assert(s2.contains(s1[i]));
}

/// Commutativity modulo ties: two insertion sequences that are permutations
/// of each other drive a fresh bucket to the same selection, provided that
/// no two compatible wheels tie on priority, that every compatible source
/// carries the same artifact, and that the incompatibility reasons observed
/// are pairwise strictly comparable. (Without these provisos the first
/// arrival wins and order can matter: two distinct compatible sources, two
/// equal wheel priorities with distinct artifacts, or two `RequiresPython`
/// reasons each make a counterexample.)
pub proof fn lemma_insertion_order_irrelevant(s1: Seq<Insertion>, s2: Seq<Insertion>)
    requires
        s1.to_multiset() == s2.to_multiset(),
        no_priority_ties(s1),
        no_priority_ties(s2),
        agreeing_sources(s1),
        agreeing_sources(s2),
        comparable_reasons(s1),
        comparable_reasons(s2),
    ensures
        selection_of(run_insertions(empty_bucket(), s1)) == selection_of(
            run_insertions(empty_bucket(), s2),
        ),
{
    let e = empty_bucket();
    let r1 = run_insertions(e, s1);
    let r2 = run_insertions(e, s2);
    lemma_wheel_slot_resolved(e, s1);
    lemma_wheel_slot_resolved(e, s2);
    lemma_source_slot_resolved(e, s1);
    lemma_source_slot_resolved(e, s2);
    lemma_diagnostic_slot_resolved(e, s1);
    lemma_diagnostic_slot_resolved(e, s2);
    // The compatible-wheel slots agree.
    assert(r1.compatible_wheel == r2.compatible_wheel) by {
        if r1.compatible_wheel is None {
            match r2.compatible_wheel {
                Some((d, p)) => {
                    let j = choose|j: int|
                        0 <= j < s2.len() && offers_compatible_wheel(#[trigger] s2[j], d, p);
                    lemma_multiset_index_transfer(s2, s1, j);
                    let i = choose|i: int| 0 <= i < s1.len() && #[trigger] s1[i] == s2[j];
                    assert(compatible_built_priority(s1[i]) is None);
                    assert(false);
                },
                None => {},
            }
        } else {
            match r1.compatible_wheel {
                Some((d, p)) => {
                    let i = choose|i: int|
                        0 <= i < s1.len() && offers_compatible_wheel(#[trigger] s1[i], d, p);
                    lemma_multiset_index_transfer(s1, s2, i);
                    let j = choose|j: int| 0 <= j < s2.len() && #[trigger] s2[j] == s1[i];
                    assert(wheel_candidate(e, s2, d, p));
                    match r2.compatible_wheel {
                        Some((d2, p2)) => {
                            if (d2, p2) != (d, p) {
                                assert(p.value < p2.value);
                                let i2 = choose|i2: int|
                                    0 <= i2 < s2.len() && offers_compatible_wheel(
                                        #[trigger] s2[i2],
                                        d2,
                                        p2,
                                    );
                                lemma_multiset_index_transfer(s2, s1, i2);
                                assert(wheel_candidate(e, s1, d2, p2));
                                assert(p2.value < p.value);
                                assert(false);
                            }
                        },
                        None => {
                            assert(false);
                        },
                    }
                },
                None => {
                    assert(false);
                },
            }
        }
    }
    // The compatible-source slots agree.
    assert(r1.compatible_source == r2.compatible_source) by {
        if r1.compatible_source is None {
            match r2.compatible_source {
                Some(d) => {
                    let j = choose|j: int|
                        0 <= j < s2.len() && offers_compatible_source(#[trigger] s2[j], d);
                    lemma_multiset_index_transfer(s2, s1, j);
                    let i = choose|i: int| 0 <= i < s1.len() && #[trigger] s1[i] == s2[j];
                    assert(compatible_source_dist(s1[i]) is None);
                    assert(false);
                },
                None => {},
            }
        } else {
            match r1.compatible_source {
                Some(d) => {
                    let i = choose|i: int|
                        0 <= i < s1.len() && offers_compatible_source(#[trigger] s1[i], d);
                    lemma_multiset_index_transfer(s1, s2, i);
                    match r2.compatible_source {
                        Some(d2) => {
                            if d2 != d {
                                let j = choose|j: int|
                                    0 <= j < s2.len() && offers_compatible_source(
                                        #[trigger] s2[j],
                                        d2,
                                    );
                                let j2 = choose|j2: int|
                                    0 <= j2 < s2.len() && #[trigger] s2[j2] == s1[i];
                                assert(compatible_source_dist(s2[j2]) == Some(d));
                                assert(false);
                            }
                        },
                        None => {
                            assert(false);
                        },
                    }
                },
                None => {
                    assert(false);
                },
            }
        }
    }
    // The incompatible-wheel slots agree.
    assert(r1.incompatible_wheel == r2.incompatible_wheel) by {
        if r1.incompatible_wheel is None {
            match r2.incompatible_wheel {
                Some((d, rr)) => {
                    let j = choose|j: int|
                        0 <= j < s2.len() && offers_incompatible_wheel(#[trigger] s2[j], d, rr);
                    lemma_multiset_index_transfer(s2, s1, j);
                    let i = choose|i: int| 0 <= i < s1.len() && #[trigger] s1[i] == s2[j];
                    assert(incompatible_built_reason(s1[i]) is None);
                    assert(false);
                },
                None => {},
            }
        } else {
            match r1.incompatible_wheel {
                Some((d, rr)) => {
                    let i = choose|i: int|
                        0 <= i < s1.len() && offers_incompatible_wheel(#[trigger] s1[i], d, rr);
                    lemma_multiset_index_transfer(s1, s2, i);
                    assert(diagnostic_candidate(e, s2, d, rr));
                    match r2.incompatible_wheel {
                        Some((d2, rr2)) => {
                            if (d2, rr2) != (d, rr) {
                                assert(rr.more_informative_than(rr2)
                                    || rr2.more_informative_than(rr)) by {
                                    assert(rr2.more_informative_than(rr));
                                }
                                let i2 = choose|i2: int|
                                    0 <= i2 < s2.len() && offers_incompatible_wheel(
                                        #[trigger] s2[i2],
                                        d2,
                                        rr2,
                                    );
                                lemma_multiset_index_transfer(s2, s1, i2);
                                assert(diagnostic_candidate(e, s1, d2, rr2));
                                assert(rr.more_informative_than(rr2));
                                lemma_wheel_preorder_antisymmetric(rr, rr2);
                                assert(false);
                            }
                        },
                        None => {
                            assert(false);
                        },
                    }
                },
                None => {
                    assert(false);
                },
            }
        }
    }
}

} // verus!

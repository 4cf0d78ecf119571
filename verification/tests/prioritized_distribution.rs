use uv_core::CompatibleDist;
use uv_core::Dist;
use uv_core::Environment;
use uv_core::Hashes;
use uv_core::IncompatibleSource;
use uv_core::IncompatibleTag;
use uv_core::IncompatibleWheel;
use uv_core::PrioritizedDist;
use uv_core::SourceDistCompatibility;
use uv_core::TagCompatibility;
use uv_core::TagPriority;
use uv_core::VersionSpecifiers;
use uv_core::WheelCandidate;
use uv_core::WheelCompatibility;
use uv_core::Yanked;
use uv_core::classify_wheel;

fn dist(name: &str) -> Dist {
    Dist { name: name.to_string() }
}

fn hash(digest: &str) -> Hashes {
    Hashes { digest: digest.to_string() }
}

fn priority(value: u32) -> TagPriority {
    TagPriority { value }
}

#[test]
fn highest_priority_wheel_wins() {
    let mut bucket = PrioritizedDist::default();
    bucket.insert_built(dist("a"), None, WheelCompatibility::Compatible(priority(3)));
    bucket.insert_built(dist("b"), None, WheelCompatibility::Compatible(priority(5)));
    bucket.insert_source(dist("s"), None, SourceDistCompatibility::Compatible);
    let got = bucket.get().expect("a wheel is selectable");
    assert_eq!(got, CompatibleDist::CompatibleWheel(dist("b"), priority(5)));
    assert_eq!(got.for_installation().name, "b");
    assert_eq!(got.for_resolution().name, "b");
}

#[test]
fn closer_tag_miss_displaces_distant_one() {
    let mut bucket = PrioritizedDist::default();
    bucket.insert_built(
        dist("a"),
        None,
        WheelCompatibility::Incompatible(IncompatibleWheel::Tag(IncompatibleTag { rank: 7 })),
    );
    bucket.insert_built(
        dist("b"),
        None,
        WheelCompatibility::Incompatible(IncompatibleWheel::Tag(IncompatibleTag { rank: 12 })),
    );
    let (wheel, reason) = bucket.incompatible_wheel().expect("an incompatible wheel is kept");
    assert_eq!(wheel.name, "b");
    assert_eq!(*reason, IncompatibleWheel::Tag(IncompatibleTag { rank: 12 }));
    assert!(bucket.get().is_none());
}

#[test]
fn incompatible_wheel_reads_metadata_source_installs() {
    let env = Environment {
        allow_yanked: false,
        exclude_newer: None,
        no_binary: false,
        no_build: false,
    };
    let wheel = WheelCandidate {
        yanked: None,
        upload_time: Some(10),
        requires_python: Some(VersionSpecifiers { text: ">=3.12".to_string() }),
        python_satisfied: false,
        tags: TagCompatibility::Compatible(priority(1)),
    };
    let verdict = classify_wheel(wheel, &env);
    assert_eq!(
        verdict,
        WheelCompatibility::Incompatible(IncompatibleWheel::RequiresPython(VersionSpecifiers {
            text: ">=3.12".to_string()
        }))
    );

    let mut bucket = PrioritizedDist::default();
    bucket.insert_source(dist("s"), None, SourceDistCompatibility::Compatible);
    bucket.insert_built(dist("w"), None, verdict);
    let got = bucket.get().expect("a hybrid selection exists");
    assert_eq!(
        got,
        CompatibleDist::IncompatibleWheel { source_dist: dist("s"), wheel: dist("w") }
    );
    assert_eq!(got.for_resolution().name, "w");
    assert_eq!(got.for_installation().name, "s");
}

#[test]
fn smaller_cutoff_miss_wins_unknown_time_loses() {
    let mut bucket = PrioritizedDist::default();
    bucket.insert_built(
        dist("w1"),
        None,
        WheelCompatibility::Incompatible(IncompatibleWheel::ExcludeNewer(Some(100))),
    );
    bucket.insert_built(
        dist("w2"),
        None,
        WheelCompatibility::Incompatible(IncompatibleWheel::ExcludeNewer(Some(50))),
    );
    let (wheel, reason) = bucket.incompatible_wheel().expect("kept");
    assert_eq!(wheel.name, "w2");
    assert_eq!(*reason, IncompatibleWheel::ExcludeNewer(Some(50)));
    bucket.insert_built(
        dist("w3"),
        None,
        WheelCompatibility::Incompatible(IncompatibleWheel::ExcludeNewer(None)),
    );
    let (wheel, reason) = bucket.incompatible_wheel().expect("kept");
    assert_eq!(wheel.name, "w2");
    assert_eq!(*reason, IncompatibleWheel::ExcludeNewer(Some(50)));
}

#[test]
fn reason_bearing_yank_wins() {
    let mut bucket = PrioritizedDist::default();
    bucket.insert_built(
        dist("a"),
        None,
        WheelCompatibility::Incompatible(IncompatibleWheel::Yanked(Yanked::NoReason)),
    );
    bucket.insert_built(
        dist("b"),
        None,
        WheelCompatibility::Incompatible(IncompatibleWheel::Yanked(Yanked::Reason(
            "broken".to_string(),
        ))),
    );
    let (wheel, reason) = bucket.incompatible_wheel().expect("kept");
    assert_eq!(wheel.name, "b");
    assert_eq!(
        *reason,
        IncompatibleWheel::Yanked(Yanked::Reason("broken".to_string()))
    );
}

#[test]
fn yank_outranks_build_ban_for_sources() {
    let mut bucket = PrioritizedDist::default();
    bucket.insert_source(
        dist("a"),
        None,
        SourceDistCompatibility::Incompatible(IncompatibleSource::NoBuild),
    );
    bucket.insert_source(
        dist("b"),
        None,
        SourceDistCompatibility::Incompatible(IncompatibleSource::Yanked(Yanked::Reason(
            "pulled".to_string(),
        ))),
    );
    let (source, reason) = bucket.incompatible_source().expect("kept");
    assert_eq!(source.name, "b");
    assert_eq!(
        *reason,
        IncompatibleSource::Yanked(Yanked::Reason("pulled".to_string()))
    );
}

#[test]
fn wheel_priority_never_drops() {
    let mut bucket = PrioritizedDist::default();
    bucket.insert_built(dist("a"), None, WheelCompatibility::Compatible(priority(5)));
    bucket.insert_built(dist("b"), None, WheelCompatibility::Compatible(priority(3)));
    let (wheel, p) = bucket.compatible_wheel().expect("kept");
    assert_eq!(wheel.name, "a");
    assert_eq!(p.value, 5);
    bucket.insert_built(dist("c"), None, WheelCompatibility::Compatible(priority(9)));
    let (wheel, p) = bucket.compatible_wheel().expect("kept");
    assert_eq!(wheel.name, "c");
    assert_eq!(p.value, 9);
}

#[test]
fn permuted_insertions_select_alike() {
    let mut first = PrioritizedDist::default();
    first.insert_built(dist("a"), None, WheelCompatibility::Compatible(priority(3)));
    first.insert_source(dist("s"), None, SourceDistCompatibility::Compatible);
    first.insert_built(dist("b"), None, WheelCompatibility::Compatible(priority(5)));

    let mut second = PrioritizedDist::default();
    second.insert_built(dist("b"), None, WheelCompatibility::Compatible(priority(5)));
    second.insert_built(dist("a"), None, WheelCompatibility::Compatible(priority(3)));
    second.insert_source(dist("s"), None, SourceDistCompatibility::Compatible);

    assert_eq!(first.get(), second.get());
}

#[test]
fn reason_kind_converges_upward() {
    let mut bucket = PrioritizedDist::default();
    bucket.insert_built(
        dist("a"),
        None,
        WheelCompatibility::Incompatible(IncompatibleWheel::NoBinary),
    );
    bucket.insert_built(
        dist("b"),
        None,
        WheelCompatibility::Incompatible(IncompatibleWheel::Yanked(Yanked::NoReason)),
    );
    bucket.insert_built(
        dist("c"),
        None,
        WheelCompatibility::Incompatible(IncompatibleWheel::RequiresPython(VersionSpecifiers {
            text: ">=3.9".to_string(),
        })),
    );
    bucket.insert_built(
        dist("d"),
        None,
        WheelCompatibility::Incompatible(IncompatibleWheel::Tag(IncompatibleTag { rank: 1 })),
    );
    bucket.insert_built(
        dist("e"),
        None,
        WheelCompatibility::Incompatible(IncompatibleWheel::ExcludeNewer(Some(7))),
    );
    let (wheel, reason) = bucket.incompatible_wheel().expect("kept");
    assert_eq!(wheel.name, "e");
    assert_eq!(*reason, IncompatibleWheel::ExcludeNewer(Some(7)));
    // Once at the top kind, a lower kind never takes the slot back.
    bucket.insert_built(
        dist("f"),
        None,
        WheelCompatibility::Incompatible(IncompatibleWheel::Tag(IncompatibleTag { rank: 99 })),
    );
    let (wheel, _) = bucket.incompatible_wheel().expect("kept");
    assert_eq!(wheel.name, "e");
}

#[test]
fn projection_prefers_compatible_wheel() {
    let mut bucket = PrioritizedDist::default();
    bucket.insert_source(dist("s"), None, SourceDistCompatibility::Compatible);
    bucket.insert_built(
        dist("w"),
        None,
        WheelCompatibility::Incompatible(IncompatibleWheel::NoBinary),
    );
    bucket.insert_built(dist("c"), None, WheelCompatibility::Compatible(priority(1)));
    let got = bucket.get().expect("selectable");
    assert_eq!(got, CompatibleDist::CompatibleWheel(dist("c"), priority(1)));
}

#[test]
fn installation_never_uses_incompatible_artifacts() {
    let mut bucket = PrioritizedDist::default();
    bucket.insert_built(
        dist("bad-wheel"),
        None,
        WheelCompatibility::Incompatible(IncompatibleWheel::Tag(IncompatibleTag { rank: 2 })),
    );
    bucket.insert_source(
        dist("bad-source"),
        None,
        SourceDistCompatibility::Incompatible(IncompatibleSource::NoBuild),
    );
    bucket.insert_source(dist("good-source"), None, SourceDistCompatibility::Compatible);
    let got = bucket.get().expect("selectable");
    assert_eq!(got.for_installation().name, "good-source");
}

#[test]
fn hash_count_matches_insertions_with_hashes() {
    let mut bucket = PrioritizedDist::default();
    bucket.insert_built(dist("a"), Some(hash("h1")), WheelCompatibility::Compatible(priority(3)));
    bucket.insert_built(dist("b"), None, WheelCompatibility::Compatible(priority(5)));
    bucket.insert_source(dist("s"), Some(hash("h2")), SourceDistCompatibility::Compatible);
    bucket.insert_source(
        dist("t"),
        Some(hash("h3")),
        SourceDistCompatibility::Incompatible(IncompatibleSource::NoBuild),
    );
    assert_eq!(bucket.hashes().len(), 3);
    assert_eq!(bucket.hashes()[0], hash("h1"));
    assert_eq!(bucket.hashes()[1], hash("h2"));
    assert_eq!(bucket.hashes()[2], hash("h3"));
}

#[test]
fn seeded_buckets_match_insertion() {
    let seeded = PrioritizedDist::from_built(
        dist("a"),
        Some(hash("h")),
        WheelCompatibility::Compatible(priority(4)),
    );
    let (wheel, p) = seeded.compatible_wheel().expect("kept");
    assert_eq!(wheel.name, "a");
    assert_eq!(p.value, 4);
    assert_eq!(seeded.hashes().len(), 1);
    assert!(!seeded.is_empty());

    let seeded = PrioritizedDist::from_source(
        dist("s"),
        None,
        SourceDistCompatibility::Incompatible(IncompatibleSource::ExcludeNewer(Some(3))),
    );
    assert!(seeded.compatible_source().is_none());
    let (source, reason) = seeded.incompatible_source().expect("kept");
    assert_eq!(source.name, "s");
    assert_eq!(*reason, IncompatibleSource::ExcludeNewer(Some(3)));
}

#[test]
fn empty_bucket_reports_empty() {
    let bucket = PrioritizedDist::default();
    assert!(bucket.is_empty());
    assert!(bucket.get().is_none());
    assert!(bucket.hashes().is_empty());
    assert!(bucket.compatible_wheel().is_none());
    assert!(bucket.compatible_source().is_none());
    assert!(bucket.incompatible_wheel().is_none());
    assert!(bucket.incompatible_source().is_none());
}

#[test]
fn first_compatible_source_is_kept() {
    let mut bucket = PrioritizedDist::default();
    bucket.insert_source(dist("first"), None, SourceDistCompatibility::Compatible);
    bucket.insert_source(dist("second"), None, SourceDistCompatibility::Compatible);
    let source = bucket.compatible_source().expect("kept");
    assert_eq!(source.name, "first");
}

#[test]
fn tie_on_priority_keeps_first_arrival() {
    let mut bucket = PrioritizedDist::default();
    bucket.insert_built(dist("a"), None, WheelCompatibility::Compatible(priority(5)));
    bucket.insert_built(dist("b"), None, WheelCompatibility::Compatible(priority(5)));
    let (wheel, _) = bucket.compatible_wheel().expect("kept");
    assert_eq!(wheel.name, "a");
}

use uv_core::Environment;
use uv_core::IncompatibleSource;
use uv_core::IncompatibleWheel;
use uv_core::Interpreter;
use uv_core::PyVenvConfiguration;
use uv_core::SourceCandidate;
use uv_core::SourceDistCompatibility;
use uv_core::TagCompatibility;
use uv_core::TagPriority;
use uv_core::Target;
use uv_core::VersionSpecifiers;
use uv_core::Virtualenv;
use uv_core::WheelCandidate;
use uv_core::WheelCompatibility;
use uv_core::Yanked;
use uv_core::classify_source;
use uv_core::classify_wheel;
use uv_core::virtual_env::VenvDesignation;
use uv_core::virtual_env::designate_virtual_env;

fn lenient() -> Environment {
    Environment { allow_yanked: false, exclude_newer: None, no_binary: false, no_build: false }
}

fn plain_wheel() -> WheelCandidate {
    WheelCandidate {
        yanked: None,
        upload_time: Some(10),
        requires_python: None,
        python_satisfied: true,
        tags: TagCompatibility::Compatible(TagPriority { value: 7 }),
    }
}

#[test]
fn clean_wheel_is_compatible_at_its_priority() {
    let verdict = classify_wheel(plain_wheel(), &lenient());
    assert_eq!(verdict, WheelCompatibility::Compatible(TagPriority { value: 7 }));
    assert!(verdict.is_compatible());
}

#[test]
fn yank_outranks_every_other_rule() {
    let candidate = WheelCandidate {
        yanked: Some(Yanked::Reason("cve".to_string())),
        upload_time: None,
        requires_python: Some(VersionSpecifiers { text: ">=4.0".to_string() }),
        python_satisfied: false,
        tags: TagCompatibility::Incompatible(uv_core::IncompatibleTag { rank: 0 }),
    };
    let env = Environment {
        allow_yanked: false,
        exclude_newer: Some(0),
        no_binary: true,
        no_build: true,
    };
    let verdict = classify_wheel(candidate, &env);
    assert_eq!(
        verdict,
        WheelCompatibility::Incompatible(IncompatibleWheel::Yanked(Yanked::Reason(
            "cve".to_string()
        )))
    );
}

#[test]
fn allowed_yank_falls_through_to_later_rules() {
    let mut candidate = plain_wheel();
    candidate.yanked = Some(Yanked::NoReason);
    let mut env = lenient();
    env.allow_yanked = true;
    let verdict = classify_wheel(candidate, &env);
    assert_eq!(verdict, WheelCompatibility::Compatible(TagPriority { value: 7 }));
}

#[test]
fn cutoff_rejects_newer_and_undated_wheels() {
    let mut env = lenient();
    env.exclude_newer = Some(100);

    let mut candidate = plain_wheel();
    candidate.upload_time = Some(150);
    assert_eq!(
        classify_wheel(candidate, &env),
        WheelCompatibility::Incompatible(IncompatibleWheel::ExcludeNewer(Some(150)))
    );

    let mut candidate = plain_wheel();
    candidate.upload_time = None;
    assert_eq!(
        classify_wheel(candidate, &env),
        WheelCompatibility::Incompatible(IncompatibleWheel::ExcludeNewer(None))
    );

    let mut candidate = plain_wheel();
    candidate.upload_time = Some(100);
    assert_eq!(
        classify_wheel(candidate, &env),
        WheelCompatibility::Compatible(TagPriority { value: 7 })
    );
}

#[test]
fn binary_ban_beats_tag_match() {
    let mut env = lenient();
    env.no_binary = true;
    assert_eq!(
        classify_wheel(plain_wheel(), &env),
        WheelCompatibility::Incompatible(IncompatibleWheel::NoBinary)
    );
}

#[test]
fn tag_mismatch_is_the_last_wheel_rule() {
    let mut candidate = plain_wheel();
    candidate.tags = TagCompatibility::Incompatible(uv_core::IncompatibleTag { rank: 3 });
    assert_eq!(
        classify_wheel(candidate, &lenient()),
        WheelCompatibility::Incompatible(IncompatibleWheel::Tag(uv_core::IncompatibleTag {
            rank: 3
        }))
    );
}

#[test]
fn source_classification_mirrors_wheel_rules() {
    let candidate = SourceCandidate {
        yanked: None,
        upload_time: Some(10),
        requires_python: None,
        python_satisfied: true,
    };
    assert_eq!(classify_source(candidate, &lenient()), SourceDistCompatibility::Compatible);

    let candidate = SourceCandidate {
        yanked: None,
        upload_time: Some(10),
        requires_python: Some(VersionSpecifiers { text: ">=3.12".to_string() }),
        python_satisfied: false,
    };
    assert_eq!(
        classify_source(candidate, &lenient()),
        SourceDistCompatibility::Incompatible(IncompatibleSource::RequiresPython(
            VersionSpecifiers { text: ">=3.12".to_string() }
        ))
    );

    let candidate = SourceCandidate {
        yanked: None,
        upload_time: Some(10),
        requires_python: None,
        python_satisfied: true,
    };
    let mut env = lenient();
    env.no_build = true;
    assert_eq!(
        classify_source(candidate, &env),
        SourceDistCompatibility::Incompatible(IncompatibleSource::NoBuild)
    );
}

fn interpreter() -> Interpreter {
    Interpreter {
        sys_executable: "/venv/bin/python".to_string(),
        purelib: "/venv/lib/python3.12/site-packages".to_string(),
        scripts: "/venv/bin".to_string(),
        base_prefix: "/usr".to_string(),
    }
}

#[test]
fn queried_interpreter_roots_at_base_prefix() {
    let venv = Virtualenv::from_python(interpreter());
    assert_eq!(venv.root().as_str(), "/usr");
    assert_eq!(venv.interpreter().base_prefix, "/usr");
    assert_eq!(venv.python_executable().as_str(), "/venv/bin/python");
}

#[test]
fn virtualenv_layout_follows_interpreter() {
    let venv = Virtualenv::from_interpreter(interpreter(), "/venv");
    assert_eq!(venv.root().as_str(), "/venv");
    assert_eq!(venv.python_executable().as_str(), "/venv/bin/python");
    assert_eq!(venv.site_packages().as_str(), "/venv/lib/python3.12/site-packages");
    assert_eq!(venv.scripts().as_str(), "/venv/bin");
    assert_eq!(venv.interpreter().base_prefix, "/venv");
}

#[test]
fn pyvenv_cfg_markers_are_detected() {
    let venv = Virtualenv::from_interpreter(interpreter(), "/venv");
    let cfg = venv.cfg(
        b"home = /usr/bin\n\
virtualenv = 20.25.0\n\
version_info = 3.12.1\n",
    );
    assert!(cfg.virtualenv);
    assert!(!cfg.uv);

    let cfg = PyVenvConfiguration::parse(b"uv = 0.1.0\nhome = /usr/bin");
    assert!(!cfg.virtualenv);
    assert!(cfg.uv);

    let cfg = PyVenvConfiguration::parse(b"uvicorn = yes\nvirtualenvs-path = x\n");
    assert!(!cfg.uv);
    assert!(!cfg.virtualenv);

    let cfg = PyVenvConfiguration::parse(b"");
    assert!(!cfg.uv);
    assert!(!cfg.virtualenv);
}

#[test]
fn environment_variables_designate_the_venv() {
    assert_eq!(
        designate_virtual_env(Some("/v".to_string()), None),
        VenvDesignation::Designated("/v".to_string())
    );
    assert_eq!(
        designate_virtual_env(None, Some("/conda".to_string())),
        VenvDesignation::Designated("/conda".to_string())
    );
    assert_eq!(
        designate_virtual_env(Some("/same".to_string()), Some("/same".to_string())),
        VenvDesignation::Designated("/same".to_string())
    );
    assert_eq!(
        designate_virtual_env(Some("/a".to_string()), Some("/b".to_string())),
        VenvDesignation::Conflict
    );
    assert_eq!(
        designate_virtual_env(Some(String::new()), Some("/conda".to_string())),
        VenvDesignation::Designated("/conda".to_string())
    );
    assert_eq!(designate_virtual_env(Some(String::new()), None), VenvDesignation::SearchFilesystem);
    assert_eq!(designate_virtual_env(None, None), VenvDesignation::SearchFilesystem);
}

#[test]
fn target_carries_its_scheme() {
    let target = Target {
        sys_executable: "/usr/bin/python3".to_string(),
        purelib: "/usr/lib/python3.12/site-packages".to_string(),
        platlib: "/usr/lib64/python3.12/site-packages".to_string(),
        headers: "/usr/include/python3.12".to_string(),
        scripts: "/usr/bin".to_string(),
        data: "/usr".to_string(),
        python_version: (3, 12),
    };
    assert_eq!(target.python_version, (3, 12));
    assert_eq!(target.scripts, "/usr/bin");
}

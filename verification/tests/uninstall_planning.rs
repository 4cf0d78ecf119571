use uv_core::uninstall::LinkDirective;
use uv_core::uninstall::PythonVersionKey;
use uv_core::uninstall::plan_minor_links;

fn key(major: u32, minor: u32, patch: u32) -> PythonVersionKey {
    PythonVersionKey { major, minor, patch }
}

#[test]
fn links_point_at_highest_remaining_patch() {
    let uninstalled = vec![key(3, 12, 4)];
    let remaining = vec![key(3, 11, 9), key(3, 12, 1), key(3, 12, 3), key(3, 12, 2)];
    let plan = plan_minor_links(&uninstalled, &remaining);
    assert_eq!(plan, vec![LinkDirective::Update(key(3, 12, 3))]);
}

#[test]
fn emptied_minor_line_loses_its_link() {
    let uninstalled = vec![key(3, 9, 7), key(3, 12, 4)];
    let remaining = vec![key(3, 12, 3)];
    let plan = plan_minor_links(&uninstalled, &remaining);
    assert_eq!(
        plan,
        vec![
            LinkDirective::Remove(3, 9),
            LinkDirective::Update(key(3, 12, 3)),
        ]
    );
}

#[test]
fn no_uninstallations_need_no_plan() {
    let plan = plan_minor_links(&Vec::new(), &vec![key(3, 12, 3)]);
    assert!(plan.is_empty());
}

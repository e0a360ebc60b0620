use vonr_injector::locate::{plan_run, xml_pattern, RunMode};

#[test]
fn pattern_appends_wildcard_and_extension() {
    assert_eq!(xml_pattern("/etc/configs/"), "/etc/configs/*.xml");
    assert_eq!(xml_pattern(""), "*.xml");
}

#[test]
fn dry_run_plans_no_rewrites() {
    let paths = vec!["a.xml".to_owned(), "b.xml".to_owned()];
    let plan = plan_run(&paths, false);
    assert_eq!(plan.steps.len(), 2);
    assert!(plan.steps.iter().all(|s| s.mode == RunMode::DryRun));
    assert!(!plan.zero_matches);
}

#[test]
fn confirmed_run_plans_rewrites_in_order() {
    let paths = vec!["a.xml".to_owned(), "b.xml".to_owned()];
    let plan = plan_run(&paths, true);
    assert_eq!(plan.steps.len(), 2);
    assert_eq!(plan.steps[0].path, "a.xml");
    assert_eq!(plan.steps[1].path, "b.xml");
    assert!(plan.steps.iter().all(|s| s.mode == RunMode::Apply));
}

#[test]
fn zero_matches_is_flagged() {
    let none: Vec<String> = Vec::new();
    let plan = plan_run(&none, true);
    assert!(plan.zero_matches);
    assert!(plan.steps.is_empty());
    let plan_dry = plan_run(&none, false);
    assert!(plan_dry.zero_matches);
}

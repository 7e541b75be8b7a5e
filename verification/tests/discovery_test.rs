//! Custom resource selection and custom object status.

use kuberift::k8s::discovery::{
    custom_watch_namespace, dynamic_status, is_builtin, is_watchable_custom_resource,
    DynamicCondition, DynamicObject,
    DynamicStatus,
};

fn cond(t: Option<&str>, s: Option<&str>, r: Option<&str>) -> DynamicCondition {
    DynamicCondition {
        type_: t.map(str::to_string),
        status: s.map(str::to_string),
        reason: r.map(str::to_string),
    }
}

fn object(conditions: Option<Vec<DynamicCondition>>, phase: Option<&str>) -> DynamicObject {
    DynamicObject {
        status: Some(DynamicStatus { conditions, phase: phase.map(str::to_string) }),
    }
}

#[test]
fn builtin_resources_are_recognised() {
    assert!(is_builtin("", "pods"));
    assert!(is_builtin("apps", "deployments"));
    assert!(is_builtin("networking.k8s.io", "ingresses"));
    assert!(!is_builtin("apps", "pods"));
    assert!(!is_builtin("cert-manager.io", "certificates"));
}

#[test]
fn custom_resources_need_list_and_watch() {
    assert!(is_watchable_custom_resource("cert-manager.io", "certificates", true, true));
    assert!(!is_watchable_custom_resource("cert-manager.io", "certificates", true, false));
    assert!(!is_watchable_custom_resource("cert-manager.io", "certificates", false, true));
    assert!(!is_watchable_custom_resource("batch", "jobs", true, true));
}

#[test]
fn dynamic_status_without_status_is_unknown() {
    assert_eq!(dynamic_status(&DynamicObject { status: None }), "Unknown");
}

#[test]
fn dynamic_status_ready_condition() {
    let obj = object(Some(vec![cond(Some("Ready"), Some("True"), Some("Done"))]), Some("Running"));
    assert_eq!(dynamic_status(&obj), "Ready");
}

#[test]
fn dynamic_status_false_condition_uses_reason() {
    let obj = object(Some(vec![cond(Some("Ready"), Some("False"), Some("Pending"))]), None);
    assert_eq!(dynamic_status(&obj), "Pending");
    let obj = object(Some(vec![cond(Some("Ready"), Some("False"), None)]), None);
    assert_eq!(dynamic_status(&obj), "NotReady");
}

#[test]
fn dynamic_status_other_condition_status() {
    let obj = object(Some(vec![cond(Some("Ready"), None, None)]), Some("Bound"));
    assert_eq!(dynamic_status(&obj), "Unknown");
    let obj = object(Some(vec![cond(Some("Ready"), Some("Unknown"), Some("Probing"))]), None);
    assert_eq!(dynamic_status(&obj), "Probing");
}

#[test]
fn dynamic_status_first_ready_condition_wins() {
    let obj = object(
        Some(vec![
            cond(None, Some("True"), None),
            cond(Some("Synced"), Some("True"), None),
            cond(Some("Ready"), Some("False"), Some("MinimumReplicasUnavailable")),
            cond(Some("Ready"), Some("True"), None),
        ]),
        None,
    );
    assert_eq!(dynamic_status(&obj), "MinimumReplicasUnavailable");
}

#[test]
fn dynamic_status_ignores_available_condition() {
    let obj = object(Some(vec![cond(Some("Available"), Some("True"), None)]), Some("Pending"));
    assert_eq!(dynamic_status(&obj), "Pending");
}

#[test]
fn dynamic_status_falls_back_to_phase() {
    let obj = object(Some(vec![cond(Some("Synced"), Some("True"), None)]), Some("Active"));
    assert_eq!(dynamic_status(&obj), "Active");
    assert_eq!(dynamic_status(&object(None, None)), "Unknown");
}

#[test]
fn custom_watch_namespace_ignores_namespace_for_cluster_scoped() {
    assert_eq!(custom_watch_namespace(true, Some("dev")), Some("dev".to_string()));
    assert_eq!(custom_watch_namespace(true, None), None);
    assert_eq!(custom_watch_namespace(false, Some("dev")), None);
}

//! Tests for kuberift::k8s::watch — the watcher's decisions and display order.

use kuberift::config::CostDisplayPeriod;
use kuberift::items::{K8sItem, ResourceKind};
use kuberift::k8s::watch::{
    sort_for_display, InitialListings, WatchAction, WatchEvent, WatchState, WatchedObject,
};

fn obj(name: &str, status: &str) -> WatchedObject {
    WatchedObject {
        namespace: "default".to_string(),
        name: name.to_string(),
        status: status.to_string(),
        age: "1m".to_string(),
    }
}

fn step(state: WatchState, event: WatchEvent) -> (WatchState, Vec<WatchAction>) {
    state.step(ResourceKind::Pod, "ctx", event)
}

fn names(items: &[K8sItem]) -> Vec<String> {
    items.iter().map(|i| i.name().to_string()).collect()
}

/// Runs a first listing of the given objects and returns the state after it.
fn first_listing(objects: &[(&str, &str)]) -> WatchState {
    let (mut s, a) = step(WatchState::new(), WatchEvent::Init);
    assert!(a.is_empty());
    for (name, status) in objects {
        let (next, a) = step(s, WatchEvent::InitApply(obj(name, status)));
        assert!(a.is_empty());
        s = next;
    }
    let (s, _) = step(s, WatchEvent::InitDone);
    s
}

#[test]
fn first_listing_is_published_once_complete() {
    let (s, a) = step(WatchState::new(), WatchEvent::Init);
    assert!(a.is_empty());
    let (s, a) = step(s, WatchEvent::InitApply(obj("a", "Running")));
    assert!(a.is_empty());
    let (s, a) = step(s, WatchEvent::InitApply(obj("b", "CrashLoopBackOff")));
    assert!(a.is_empty());
    let (_s, a) = step(s, WatchEvent::InitDone);
    assert_eq!(a.len(), 2);
    match &a[0] {
        WatchAction::MarkDeleted(keys) => assert!(keys.is_empty()),
        _ => panic!("expected MarkDeleted first"),
    }
    match &a[1] {
        WatchAction::PublishInitial(items) => {
            assert_eq!(names(items), vec!["a".to_string(), "b".to_string()]);
            assert_eq!(items[1].status(), "CrashLoopBackOff");
            assert_eq!(items[0].context(), "ctx");
            assert_eq!(items[0].kind(), ResourceKind::Pod);
        }
        _ => panic!("expected PublishInitial"),
    }
}

#[test]
fn new_object_after_listing_is_sent_at_once() {
    let s = first_listing(&[("a", "Running")]);
    let (_s, a) = step(s, WatchEvent::Apply(obj("c", "Pending")));
    assert_eq!(a.len(), 1);
    match &a[0] {
        WatchAction::Send(items) => {
            assert_eq!(names(items), vec!["c".to_string()]);
            assert_eq!(items[0].status(), "Pending");
            assert_eq!(items[0].age(), "1m");
        }
        _ => panic!("expected Send"),
    }
}

#[test]
fn known_object_update_refreshes_in_place() {
    let s = first_listing(&[("a", "Running")]);
    let (_s, a) = step(s, WatchEvent::Apply(obj("a", "Error")));
    assert_eq!(a.len(), 1);
    match &a[0] {
        WatchAction::Refresh { namespace, name, status, age } => {
            assert_eq!(namespace, "default");
            assert_eq!(name, "a");
            assert_eq!(status, "Error");
            assert_eq!(age, "1m");
        }
        _ => panic!("expected Refresh"),
    }
}

#[test]
fn delete_of_known_object_marks_it_deleted() {
    let s = first_listing(&[("a", "Running"), ("b", "Running")]);
    let (_s, a) = step(
        s,
        WatchEvent::Delete { namespace: "default".to_string(), name: "a".to_string() },
    );
    assert_eq!(a.len(), 2);
    match &a[0] {
        WatchAction::MarkDeleted(keys) => {
            assert_eq!(keys, &vec![("default".to_string(), "a".to_string())]);
        }
        _ => panic!("expected MarkDeleted"),
    }
    match &a[1] {
        WatchAction::Send(items) => {
            assert_eq!(names(items), vec!["a".to_string()]);
            assert_eq!(items[0].status(), "[DELETED]");
            assert_eq!(items[0].age(), "1m");
        }
        _ => panic!("expected Send"),
    }
}

#[test]
fn delete_during_listing_is_carried_by_the_listing() {
    let (s, _) = step(WatchState::new(), WatchEvent::Init);
    let (s, _) = step(s, WatchEvent::InitApply(obj("a", "Running")));
    let (s, a) = step(
        s,
        WatchEvent::Delete { namespace: "default".to_string(), name: "a".to_string() },
    );
    assert_eq!(a.len(), 1);
    assert!(matches!(&a[0], WatchAction::MarkDeleted(_)));
    let (_s, a) = step(s, WatchEvent::InitDone);
    match &a[1] {
        WatchAction::PublishInitial(items) => {
            assert_eq!(names(items), vec!["a".to_string()]);
            assert_eq!(items[0].status(), "[DELETED]");
        }
        _ => panic!("expected PublishInitial"),
    }
}

#[test]
fn delete_of_unknown_object_asks_nothing() {
    let s = first_listing(&[("a", "Running")]);
    let (_s, a) = step(
        s,
        WatchEvent::Delete { namespace: "default".to_string(), name: "zzz".to_string() },
    );
    assert!(a.is_empty());
}

#[test]
fn relist_marks_missing_objects_deleted_and_sends_only_new_ones() {
    let s = first_listing(&[("a", "Running"), ("b", "Running")]);
    let (s, a) = step(s, WatchEvent::Init);
    assert!(a.is_empty());
    // "a" is listed again: it is refreshed, not sent a second time.
    let (s, a) = step(s, WatchEvent::InitApply(obj("a", "Running")));
    assert_eq!(a.len(), 1);
    assert!(matches!(&a[0], WatchAction::Refresh { .. }));
    // "n1" and "n2" are new in this cycle.
    let (s, a) = step(s, WatchEvent::InitApply(obj("n1", "Running")));
    assert!(a.is_empty());
    let (s, a) = step(s, WatchEvent::InitApply(obj("n2", "OOMKilled")));
    assert!(a.is_empty());
    let (_s, a) = step(s, WatchEvent::InitDone);
    assert_eq!(a.len(), 2);
    match &a[0] {
        WatchAction::MarkDeleted(keys) => {
            assert_eq!(keys, &vec![("default".to_string(), "b".to_string())]);
        }
        _ => panic!("expected MarkDeleted"),
    }
    match &a[1] {
        WatchAction::Send(items) => {
            // Healthy first, critical last.
            assert_eq!(names(items), vec!["n1".to_string(), "n2".to_string()]);
        }
        _ => panic!("expected Send"),
    }
}

#[test]
fn relist_with_nothing_new_sends_nothing() {
    let s = first_listing(&[("a", "Running")]);
    let (s, _) = step(s, WatchEvent::Init);
    let (s, _) = step(s, WatchEvent::InitApply(obj("a", "Running")));
    let (_s, a) = step(s, WatchEvent::InitDone);
    assert_eq!(a.len(), 1);
    match &a[0] {
        WatchAction::MarkDeleted(keys) => assert!(keys.is_empty()),
        _ => panic!("expected MarkDeleted"),
    }
}

#[test]
fn sort_for_display_puts_healthy_first_and_critical_last() {
    let items = vec![
        K8sItem::new(ResourceKind::Pod, "ns", "a", "Running", "1m", ""),
        K8sItem::new(ResourceKind::Pod, "ns", "b", "CrashLoopBackOff", "1m", ""),
        K8sItem::new(ResourceKind::Pod, "ns", "c", "Pending", "1m", ""),
        K8sItem::new(ResourceKind::Pod, "ns", "d", "Running", "1m", ""),
    ];
    let sorted = sort_for_display(&items);
    assert_eq!(
        names(&sorted),
        vec!["a".to_string(), "d".to_string(), "c".to_string(), "b".to_string()]
    );
}

#[test]
fn sort_for_display_of_nothing_is_nothing() {
    let sorted = sort_for_display(&Vec::new());
    assert!(sorted.is_empty());
}

#[test]
fn cost_display_period_defaults_to_daily() {
    assert_eq!(CostDisplayPeriod::default(), CostDisplayPeriod::Daily);
}

fn pod_item(name: &str, status: &str) -> K8sItem {
    K8sItem::new(ResourceKind::Pod, "ns", name, status, "1m", "")
}

#[test]
fn initial_listings_report_when_every_watcher_is_done() {
    let mut listings = InitialListings::new(2);
    assert!(!listings.publish(vec![pod_item("a", "Error")]));
    assert!(listings.publish(vec![pod_item("b", "Running"), pod_item("c", "Pending")]));
    let sorted = listings.take_sorted();
    assert_eq!(names(&sorted), vec!["b".to_string(), "c".to_string(), "a".to_string()]);
    // What was handed over is gone; a late listing is gathered anew.
    assert!(listings.take_sorted().is_empty());
    assert!(listings.publish(vec![pod_item("d", "Running")]));
    assert_eq!(names(&listings.take_sorted()), vec!["d".to_string()]);
}

#[test]
fn initial_listings_with_no_watchers_hand_over_nothing() {
    let mut listings = InitialListings::new(0);
    assert!(listings.take_sorted().is_empty());
    assert!(listings.publish(Vec::new()));
}

//! Rendering of list rows, search text, previews, truncation and context colors.

use kuberift::items::{context_color, truncate_name, Color, K8sItem, ResourceKind};

fn row(item: &K8sItem) -> Vec<(String, Color)> {
    item.display_row()
        .into_iter()
        .map(|s| (s.text, s.color))
        .collect()
}

#[test]
fn truncate_multibyte_cuts_before_the_wide_char() {
    let name = format!("{}é{}", "a".repeat(30), "suffix");
    assert_eq!(truncate_name(&name, 31), format!("{}…", "a".repeat(30)));
}

#[test]
fn truncate_long_name_exact_result() {
    let name = "b".repeat(40);
    assert_eq!(truncate_name(&name, 31), format!("{}…", "b".repeat(31)));
}

#[test]
fn truncate_zero_budget_keeps_only_ellipsis() {
    assert_eq!(truncate_name("abc", 0), "…");
}

#[test]
fn context_color_exact_values() {
    // byte sums: "" = 0, "prod" = 437, "dev" = 319
    assert_eq!(context_color(""), Color::Cyan);
    assert_eq!(context_color("prod"), Color::LightRed);
    assert_eq!(context_color("dev"), Color::LightMagenta);
}

#[test]
fn search_text_single_cluster() {
    let item = K8sItem::new(ResourceKind::Pod, "default", "nginx", "Running", "1d", "");
    assert_eq!(item.search_text(), "pod      default/nginx Running 1d ");
}

#[test]
fn search_text_multi_cluster_with_cost() {
    let mut item = K8sItem::new(ResourceKind::Node, "", "node-1", "Ready", "7d", "prod");
    item.set_cost("$3.00/d", false);
    assert_eq!(item.search_text(), "node     prod/node-1 Ready 7d $3.00/d");
}

#[test]
fn display_row_multi_cluster_without_cost() {
    let item = K8sItem::new(
        ResourceKind::Service,
        "kube-system",
        "kube-dns",
        "ClusterIP",
        "30d",
        "prod",
    );
    let expected = vec![
        (format!("svc{}", " ".repeat(6)), Color::Blue),
        ("prod/".to_string(), Color::LightRed),
        ("kube-system/".to_string(), Color::Cyan),
        (format!("kube-dns{}", " ".repeat(25)), Color::White),
        (format!("ClusterIP{}", " ".repeat(9)), Color::Green),
        ("30d".to_string(), Color::DarkGray),
        (" ".repeat(10), Color::LightGreen),
    ];
    assert_eq!(row(&item), expected);
}

#[test]
fn display_row_single_cluster_with_highlighted_cost() {
    let mut item = K8sItem::new(ResourceKind::Pod, "", "p", "CrashLoopBackOff", "2h", "");
    item.set_cost("$1.00/d", true);
    let expected = vec![
        (format!("pod{}", " ".repeat(6)), Color::Green),
        (String::new(), Color::Cyan),
        (format!("p{}", " ".repeat(32)), Color::White),
        (format!("CrashLoopBackOff{}", " ".repeat(2)), Color::Red),
        ("2h".to_string(), Color::DarkGray),
        (format!(" {}$1.00/d", " ".repeat(3)), Color::LightRed),
    ];
    assert_eq!(row(&item), expected);
}

#[test]
fn display_row_long_name_is_truncated() {
    let item = K8sItem::new(ResourceKind::Pod, "", &"x".repeat(40), "Running", "1m", "");
    let cols = row(&item);
    assert_eq!(cols[2].0, format!("{}… ", "x".repeat(31)));
}

#[test]
fn preview_args_for_each_mode() {
    let item = K8sItem::new(ResourceKind::Pod, "default", "nginx", "Running", "1d", "prod");
    assert_eq!(
        item.preview_args(2),
        vec!["logs", "--tail=100", "-n", "default", "--context", "prod", "--", "nginx"]
    );
    assert_eq!(
        item.preview_args(1),
        vec!["get", "pod", "-o", "yaml", "-n", "default", "--context", "prod", "--", "nginx"]
    );
    assert_eq!(
        item.preview_args(0),
        vec!["describe", "pod", "-n", "default", "--context", "prod", "--", "nginx"]
    );
}

#[test]
fn preview_logs_mode_describes_non_pods() {
    let item = K8sItem::new(ResourceKind::Node, "", "node-1", "Ready", "7d", "");
    assert_eq!(item.preview_args(2), vec!["describe", "node", "--", "node-1"]);
}

#[test]
fn preview_headers() {
    let item = K8sItem::new(ResourceKind::Deployment, "default", "api", "2/2", "1d", "");
    assert_eq!(item.preview_header(1), "── YAML: deploy/api ──\n");
    assert_eq!(item.preview_header(2), "── LOGS: api (last 100) ──\n");
    assert_eq!(item.preview_header(0), "── DESCRIBE: deploy/api ──\n");
}

#[test]
fn cost_label_empty_label_reads_as_none() {
    let mut item = K8sItem::new(ResourceKind::Pod, "a", "b", "Running", "1d", "");
    item.set_cost("", true);
    assert_eq!(item.cost_label(), None);
}

#[test]
fn duplicate_keeps_every_field() {
    let mut item = K8sItem::new(ResourceKind::Job, "ns", "j", "Complete", "3d", "ctx");
    item.set_cost("$2.00/d", true);
    let copy = item.duplicate();
    assert_eq!(copy.output_str(), "ctx:job/ns/j");
    assert_eq!(copy.cost_label(), Some("$2.00/d"));
    assert_eq!(copy.search_text(), item.search_text());
}

#[test]
fn refresh_changes_only_status_and_age() {
    let mut item = K8sItem::new(ResourceKind::Pod, "ns", "p", "Pending", "1m", "ctx");
    item.set_cost("$1.00/d", true);
    item.refresh("Running", "2m");
    assert_eq!(item.status(), "Running");
    assert_eq!(item.age(), "2m");
    assert_eq!(item.name(), "p");
    assert_eq!(item.cost_label(), Some("$1.00/d"));
    assert_eq!(item.output_str(), "ctx:pod/ns/p");
}

#[test]
fn mark_deleted_keeps_age() {
    let mut item = K8sItem::new(ResourceKind::Pod, "ns", "p", "Running", "5d", "");
    item.mark_deleted();
    assert_eq!(item.status(), "[DELETED]");
    assert_eq!(item.age(), "5d");
}

//! OpenCost service discovery, pod ownership and allocation attribution.

use kuberift::cost::{
    allocation_namespace, allocation_pod_name, allocation_source, allocation_target,
    allocation_url, build_pod_owner_index, cost_key, detect_proxy_target, infer_deployment_name,
    kubectl_command_args, pick_service_port, AllocationEntry, AllocationProperties,
    AllocationSource, CostKey, JobItem, JobList, Metadata, OwnerReference, PodItem, PodList,
    ProxyTarget, ResourceRef, ServiceItem, ServiceList, ServicePort, ServiceSpec,
};
use kuberift::items::ResourceKind;

fn port(name: Option<&str>, port: i64) -> ServicePort {
    ServicePort { name: name.map(str::to_string), port }
}

fn service(name: Option<&str>, namespace: Option<&str>, ports: Option<Vec<ServicePort>>) -> ServiceItem {
    ServiceItem {
        metadata: Metadata {
            name: name.map(str::to_string),
            namespace: namespace.map(str::to_string),
            owner_references: None,
        },
        spec: Some(ServiceSpec { ports }),
    }
}

fn owner(kind: &str, name: &str, controller: Option<bool>) -> OwnerReference {
    OwnerReference { kind: kind.to_string(), name: name.to_string(), controller }
}

fn meta(name: &str, namespace: &str, owners: Vec<OwnerReference>) -> Metadata {
    Metadata {
        name: Some(name.to_string()),
        namespace: Some(namespace.to_string()),
        owner_references: Some(owners),
    }
}

fn entry(name: Option<&str>, namespace: Option<&str>, pod: Option<&str>) -> AllocationEntry {
    AllocationEntry {
        name: name.map(str::to_string),
        properties: Some(AllocationProperties {
            namespace: namespace.map(str::to_string),
            pod: pod.map(str::to_string),
            controller: None,
            controller_kind: None,
        }),
    }
}

fn target_triple(r: &ResourceRef) -> (ResourceKind, &str, &str) {
    (r.kind, r.namespace.as_str(), r.name.as_str())
}

#[test]
fn detect_proxy_target_prefers_named_http_port() {
    let services = ServiceList {
        items: vec![service(
            Some("opencost"),
            Some("opencost"),
            Some(vec![port(Some("http"), 9003), port(Some("metrics"), 9004)]),
        )],
    };

    let target = detect_proxy_target(&services).expect("expected target");
    assert_eq!(target.namespace, "opencost");
    assert_eq!(target.service, "opencost");
    assert_eq!(target.port_name.as_deref(), Some("http"));
    assert_eq!(
        target.raw_path(),
        "/api/v1/namespaces/opencost/services/opencost:http/proxy/allocation/compute?window=1d&aggregate=pod"
    );
}

#[test]
fn pick_service_port_fallbacks() {
    let ports = vec![port(Some("grpc"), 80), port(None, 9003)];
    assert_eq!(pick_service_port(&ports).map(|p| p.port), Some(9003));
    let ports = vec![port(Some("grpc"), 80), port(None, 81)];
    assert_eq!(pick_service_port(&ports).map(|p| p.port), Some(80));
    let ports = vec![port(None, 9003), port(Some("https-api"), 443)];
    assert_eq!(pick_service_port(&ports).map(|p| p.port), Some(443));
    assert!(pick_service_port(&[]).is_none());
}

#[test]
fn detect_proxy_target_candidate_order_and_skips() {
    let services = ServiceList {
        items: vec![
            service(Some("kubernetes"), Some("default"), Some(vec![port(None, 443)])),
            service(Some("kubecost-cost-analyzer"), Some("kubecost"), Some(vec![port(None, 9090)])),
            service(Some("opencost-ui"), Some("monitoring"), Some(vec![port(None, 9090)])),
        ],
    };
    let target = detect_proxy_target(&services).expect("expected target");
    assert_eq!(target.service, "opencost-ui");
    assert_eq!(target.namespace, "monitoring");
    assert_eq!(target.port_name, None);
    assert_eq!(
        target.raw_path(),
        "/api/v1/namespaces/monitoring/services/opencost-ui:9090/proxy/allocation/compute?window=1d&aggregate=pod"
    );
}

#[test]
fn detect_proxy_target_stops_at_service_without_namespace() {
    let services = ServiceList {
        items: vec![
            service(Some("other"), None, Some(vec![port(None, 80)])),
            service(Some("opencost"), Some("opencost"), Some(vec![port(None, 9003)])),
        ],
    };
    assert!(detect_proxy_target(&services).is_none());
}

#[test]
fn detect_proxy_target_match_without_ports_is_none() {
    let services = ServiceList {
        items: vec![
            service(Some("opencost"), Some("opencost"), None),
            service(Some("kubecost"), Some("kubecost"), Some(vec![port(None, 9090)])),
        ],
    };
    assert!(detect_proxy_target(&services).is_none());
    assert!(detect_proxy_target(&ServiceList { items: vec![] }).is_none());
}

#[test]
fn raw_path_with_numbered_port() {
    let t = ProxyTarget {
        namespace: "ns".to_string(),
        service: "svc".to_string(),
        port_name: None,
        port: 9003,
    };
    assert_eq!(
        t.raw_path(),
        "/api/v1/namespaces/ns/services/svc:9003/proxy/allocation/compute?window=1d&aggregate=pod"
    );
}

#[test]
fn infer_deployment_name_cases() {
    assert_eq!(infer_deployment_name("api-7d9f8b6c5").as_deref(), Some("api"));
    assert_eq!(infer_deployment_name("my-app-7d9f8b").as_deref(), Some("my-app"));
    assert_eq!(infer_deployment_name("api-abc"), None);
    assert_eq!(infer_deployment_name("api-7d9f8b6c5_"), None);
    assert_eq!(infer_deployment_name("standalone"), None);
}

#[test]
fn pod_owner_index_maps_replica_sets_and_cron_jobs() {
    let pods = PodList {
        items: vec![
            PodItem {
                metadata: meta(
                    "api-7d9f8b6c5-xk2lp",
                    "default",
                    vec![owner("ReplicaSet", "api-7d9f8b6c5", Some(true))],
                ),
            },
            PodItem {
                metadata: meta("backup-28000-abcde", "ops", vec![owner("Job", "backup-28000", Some(true))]),
            },
            PodItem {
                metadata: meta("once-xyz", "ops", vec![owner("Job", "once", Some(true))]),
            },
            PodItem {
                metadata: meta("db-0", "data", vec![owner("StatefulSet", "db", Some(false))]),
            },
        ],
    };
    let jobs = JobList {
        items: vec![JobItem {
            metadata: meta("backup-28000", "ops", vec![owner("CronJob", "backup", Some(true))]),
        }],
    };
    let index = build_pod_owner_index(Some(&pods), Some(&jobs));
    assert_eq!(
        index.controller_for("default", "api-7d9f8b6c5-xk2lp").map(target_triple),
        Some((ResourceKind::Deployment, "default", "api"))
    );
    assert_eq!(
        index.controller_for("ops", "backup-28000-abcde").map(target_triple),
        Some((ResourceKind::CronJob, "ops", "backup"))
    );
    assert_eq!(
        index.controller_for("ops", "once-xyz").map(target_triple),
        Some((ResourceKind::Job, "ops", "once"))
    );
    assert!(index.controller_for("data", "db-0").is_none());

    let without_jobs = build_pod_owner_index(Some(&pods), None);
    assert_eq!(
        without_jobs.controller_for("ops", "backup-28000-abcde").map(target_triple),
        Some((ResourceKind::Job, "ops", "backup-28000"))
    );
}

#[test]
fn allocation_entries_are_charged_to_pod_and_deployment() {
    let pods = PodList {
        items: vec![
            PodItem {
                metadata: meta(
                    "api-7d9f8b6c5-xk2lp",
                    "default",
                    vec![owner("ReplicaSet", "api-7d9f8b6c5", Some(true))],
                ),
            },
            PodItem {
                metadata: meta(
                    "api-7d9f8b6c5-jm4rn",
                    "default",
                    vec![owner("ReplicaSet", "api-7d9f8b6c5", Some(true))],
                ),
            },
        ],
    };
    let index = build_pod_owner_index(Some(&pods), None);

    let first = entry(Some("api-7d9f8b6c5-xk2lp"), Some("default"), Some("api-7d9f8b6c5-xk2lp"));
    let t = allocation_target("cluster-one/default/api-7d9f8b6c5-xk2lp", &first, &index)
        .expect("target");
    assert_eq!(t.namespace, "default");
    assert_eq!(t.pod, "api-7d9f8b6c5-xk2lp");
    assert_eq!(
        t.controller.as_ref().map(target_triple),
        Some((ResourceKind::Deployment, "default", "api"))
    );

    let idle = entry(Some("__idle__"), Some("__idle__"), None);
    assert!(allocation_target("__idle__", &idle, &index).is_none());
}

#[test]
fn allocation_names_fall_back_to_the_key() {
    let bare = AllocationEntry { name: None, properties: None };
    assert_eq!(
        allocation_namespace("cluster-one/default/web-1", &bare).as_deref(),
        Some("default")
    );
    assert_eq!(allocation_namespace("default/web-1", &bare).as_deref(), Some("default"));
    assert_eq!(allocation_namespace("web-1", &bare), None);
    assert_eq!(allocation_pod_name("cluster-one/default/web-1", &bare).as_deref(), Some("web-1"));
    assert_eq!(allocation_pod_name("web-1", &bare).as_deref(), Some("web-1"));
    assert_eq!(allocation_pod_name("x/__idle__", &bare), None);
    let named = entry(Some("from-name"), None, None);
    assert_eq!(allocation_pod_name("a/b/c", &named).as_deref(), Some("from-name"));
}

#[test]
fn allocation_properties_name_the_controller() {
    let index = build_pod_owner_index(None, None);
    let e = AllocationEntry {
        name: None,
        properties: Some(AllocationProperties {
            namespace: Some("shop".to_string()),
            pod: Some("cart-0".to_string()),
            controller: Some("cart".to_string()),
            controller_kind: Some("statefulset".to_string()),
        }),
    };
    let t = allocation_target("k", &e, &index).expect("target");
    assert_eq!(
        t.controller.as_ref().map(target_triple),
        Some((ResourceKind::StatefulSet, "shop", "cart"))
    );
    let unknown_kind = AllocationEntry {
        name: None,
        properties: Some(AllocationProperties {
            namespace: Some("shop".to_string()),
            pod: Some("cart-0".to_string()),
            controller: Some("cart".to_string()),
            controller_kind: Some("rollout".to_string()),
        }),
    };
    let t = allocation_target("k", &unknown_kind, &index).expect("target");
    assert!(t.controller.is_none());
}

#[test]
fn cost_keys_for_namespaces_and_items() {
    match cost_key(ResourceKind::Namespace, "", "default") {
        CostKey::Namespace(n) => assert_eq!(n, "default"),
        CostKey::Item(_) => panic!("namespace should be looked up by name"),
    }
    match cost_key(ResourceKind::Pod, "default", "web") {
        CostKey::Item(r) => assert_eq!(target_triple(&r), (ResourceKind::Pod, "default", "web")),
        CostKey::Namespace(_) => panic!("pod should be looked up as an item"),
    }
}

#[test]
fn allocation_urls() {
    assert_eq!(
        allocation_url("http://127.0.0.1:9003//"),
        "http://127.0.0.1:9003/allocation/compute?window=1d&aggregate=pod"
    );
    assert_eq!(
        allocation_url("http://oc/allocation/compute?window=7d"),
        "http://oc/allocation/compute?window=7d"
    );
    assert!(matches!(allocation_source(" \t"), AllocationSource::DiscoverService));
    match allocation_source("http://oc:9003/") {
        AllocationSource::Endpoint(u) => {
            assert_eq!(u, "http://oc:9003/allocation/compute?window=1d&aggregate=pod")
        }
        AllocationSource::DiscoverService => panic!("configured endpoint must be used"),
    }
}

#[test]
fn kubectl_arguments_put_flags_first() {
    let args = vec!["get".to_string(), "svc".to_string()];
    assert_eq!(
        kubectl_command_args("prod", Some("/tmp/kc"), &args),
        vec!["--kubeconfig", "/tmp/kc", "--context", "prod", "get", "svc"]
    );
    assert_eq!(kubectl_command_args("", None, &args), vec!["get", "svc"]);
}

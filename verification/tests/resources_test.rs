//! Status extraction per resource kind, ages, and watch scoping.

use kuberift::items::ResourceKind;
use kuberift::k8s::resources::{
    all_kinds, cronjob_status, daemonset_status, deploy_status, format_age, ingress_status,
    job_status, namespace_status, node_status, pod_status, pv_status, pvc_status, resource_age,
    age_of_elapsed, configmap_status, CreationTime,
    secret_status, service_status, statefulset_status, status_priority, watch_namespace,
    ContainerState, ContainerStateTerminated, ContainerStateWaiting, ContainerStatus, CronJob,
    CronJobStatus, DaemonSet, DaemonSetStatus, Deployment, DeploymentSpec, DeploymentStatus,
    Elapsed, Ingress, IngressLoadBalancerIngress, IngressLoadBalancerStatus, IngressStatus, Job,
    JobStatus, Namespace, Node, NodeCondition, NodeStatus, ObjectMeta, PersistentVolume,
    PersistentVolumeClaim, PhaseStatus, Pod, PodStatus, Secret, Service, ServiceSpec,
    StatefulSet, StatefulSetStatus,
};

fn waiting(reason: &str) -> ContainerStatus {
    ContainerStatus {
        state: Some(ContainerState {
            waiting: Some(ContainerStateWaiting { reason: Some(reason.to_string()) }),
            terminated: None,
        }),
    }
}

fn terminated(exit_code: i32, reason: Option<&str>) -> ContainerStatus {
    ContainerStatus {
        state: Some(ContainerState {
            waiting: None,
            terminated: Some(ContainerStateTerminated {
                exit_code,
                reason: reason.map(str::to_string),
            }),
        }),
    }
}

fn running() -> ContainerStatus {
    ContainerStatus { state: Some(ContainerState { waiting: None, terminated: None }) }
}

fn pod(
    containers: Option<Vec<ContainerStatus>>,
    init: Option<Vec<ContainerStatus>>,
    phase: Option<&str>,
) -> Pod {
    Pod {
        metadata: ObjectMeta { deletion_timestamp: None },
        status: Some(PodStatus {
            container_statuses: containers,
            init_container_statuses: init,
            phase: phase.map(str::to_string),
        }),
    }
}

#[test]
fn pod_being_deleted_is_terminating() {
    let mut p = pod(Some(vec![waiting("CrashLoopBackOff")]), None, Some("Running"));
    p.metadata.deletion_timestamp = Some("2024-01-01T00:00:00Z".to_string());
    assert_eq!(pod_status(&p), "Terminating");
}

#[test]
fn pod_without_status_is_unknown() {
    let p = Pod { metadata: ObjectMeta { deletion_timestamp: None }, status: None };
    assert_eq!(pod_status(&p), "Unknown");
}

#[test]
fn pod_container_waiting_reason_wins() {
    let p = pod(Some(vec![running(), waiting("CrashLoopBackOff")]), None, Some("Running"));
    assert_eq!(pod_status(&p), "CrashLoopBackOff");
}

#[test]
fn pod_container_creating_falls_through_to_phase() {
    let p = pod(Some(vec![waiting("ContainerCreating")]), None, Some("Pending"));
    assert_eq!(pod_status(&p), "Pending");
}

#[test]
fn pod_failed_termination_reports_reason_or_error() {
    let p = pod(Some(vec![terminated(137, Some("OOMKilled"))]), None, Some("Running"));
    assert_eq!(pod_status(&p), "OOMKilled");
    let p = pod(Some(vec![terminated(1, None)]), None, Some("Running"));
    assert_eq!(pod_status(&p), "Error");
    let p = pod(Some(vec![terminated(0, None)]), None, Some("Succeeded"));
    assert_eq!(pod_status(&p), "Succeeded");
}

#[test]
fn pod_init_waiting_reason_is_prefixed() {
    let p = pod(
        Some(vec![waiting("PodInitializing")]),
        Some(vec![waiting("ErrImagePull")]),
        Some("Pending"),
    );
    assert_eq!(pod_status(&p), "Init:ErrImagePull");
}

#[test]
fn pod_init_progress_counts_completed() {
    let p = pod(None, Some(vec![terminated(0, None), running(), running()]), Some("Pending"));
    assert_eq!(pod_status(&p), "Init:1/3");
}

#[test]
fn pod_init_all_done_uses_phase() {
    let p = pod(Some(vec![running()]), Some(vec![terminated(0, None)]), Some("Running"));
    assert_eq!(pod_status(&p), "Running");
    let p = pod(None, None, None);
    assert_eq!(pod_status(&p), "Unknown");
}

#[test]
fn service_status_defaults_to_cluster_ip() {
    assert_eq!(service_status(&Service { spec: None }), "ClusterIP");
    let svc = Service { spec: Some(ServiceSpec { type_: Some("NodePort".to_string()) }) };
    assert_eq!(service_status(&svc), "NodePort");
}

#[test]
fn deploy_status_ratios() {
    let d = Deployment {
        spec: Some(DeploymentSpec { replicas: Some(3) }),
        status: Some(DeploymentStatus { ready_replicas: None }),
    };
    assert_eq!(deploy_status(&d), "0/3");
    let d = Deployment { spec: None, status: Some(DeploymentStatus { ready_replicas: Some(2) }) };
    assert_eq!(deploy_status(&d), "2/1");
    let d = Deployment { spec: Some(DeploymentSpec { replicas: Some(-1) }), status: None };
    assert_eq!(deploy_status(&d), "0/-1");
}

#[test]
fn statefulset_and_daemonset_ratios() {
    assert_eq!(statefulset_status(&StatefulSet { status: None }), "0/0");
    let sts = StatefulSet {
        status: Some(StatefulSetStatus { ready_replicas: Some(1), replicas: 3 }),
    };
    assert_eq!(statefulset_status(&sts), "1/3");
    assert_eq!(daemonset_status(&DaemonSet { status: None }), "0/0");
    let ds = DaemonSet {
        status: Some(DaemonSetStatus { number_ready: 12, desired_number_scheduled: 12 }),
    };
    assert_eq!(daemonset_status(&ds), "12/12");
}

#[test]
fn secret_status_defaults_to_opaque() {
    assert_eq!(secret_status(&Secret { type_: None }), "Opaque");
    let s = Secret { type_: Some("kubernetes.io/tls".to_string()) };
    assert_eq!(secret_status(&s), "kubernetes.io/tls");
}

fn ingress(points: Option<Vec<IngressLoadBalancerIngress>>) -> Ingress {
    Ingress {
        status: Some(IngressStatus {
            load_balancer: Some(IngressLoadBalancerStatus { ingress: points }),
        }),
    }
}

#[test]
fn ingress_status_prefers_ip_then_hostname() {
    let both = IngressLoadBalancerIngress {
        ip: Some("10.0.0.1".to_string()),
        hostname: Some("lb.example.com".to_string()),
    };
    assert_eq!(ingress_status(&ingress(Some(vec![both]))), "10.0.0.1");
    let host = IngressLoadBalancerIngress {
        ip: None,
        hostname: Some("lb.example.com".to_string()),
    };
    assert_eq!(ingress_status(&ingress(Some(vec![host]))), "lb.example.com");
    assert_eq!(ingress_status(&ingress(Some(vec![]))), "<pending>");
    assert_eq!(ingress_status(&ingress(None)), "<pending>");
    assert_eq!(ingress_status(&Ingress { status: None }), "<pending>");
}

fn node(conditions: Vec<(&str, &str)>) -> Node {
    Node {
        status: Some(NodeStatus {
            conditions: Some(
                conditions
                    .into_iter()
                    .map(|(t, s)| NodeCondition { type_: t.to_string(), status: s.to_string() })
                    .collect(),
            ),
        }),
    }
}

#[test]
fn node_status_from_ready_condition() {
    assert_eq!(node_status(&node(vec![("MemoryPressure", "False"), ("Ready", "True")])), "Ready");
    assert_eq!(node_status(&node(vec![("Ready", "Unknown")])), "NotReady");
    assert_eq!(node_status(&node(vec![("DiskPressure", "False")])), "Unknown");
    assert_eq!(node_status(&Node { status: None }), "Unknown");
}

#[test]
fn phase_based_statuses() {
    assert_eq!(namespace_status(&Namespace { status: None }), "Active");
    let ns = Namespace { status: Some(PhaseStatus { phase: Some("Terminating".to_string()) }) };
    assert_eq!(namespace_status(&ns), "Terminating");
    assert_eq!(pv_status(&PersistentVolume { status: None }), "Unknown");
    let pvc = PersistentVolumeClaim { status: Some(PhaseStatus { phase: Some("Bound".to_string()) }) };
    assert_eq!(pvc_status(&pvc), "Bound");
}

fn job(completed: bool, failed: Option<i32>, active: Option<i32>) -> Job {
    Job {
        status: Some(JobStatus {
            completion_time: completed.then(|| "2024-01-01T00:00:00Z".to_string()),
            failed,
            active,
        }),
    }
}

#[test]
fn job_status_cases() {
    assert_eq!(job_status(&job(true, Some(1), Some(1))), "Complete");
    assert_eq!(job_status(&job(false, Some(2), Some(1))), "Failed(2)");
    assert_eq!(job_status(&job(false, Some(0), Some(3))), "Active(3)");
    assert_eq!(job_status(&job(false, None, None)), "Unknown");
    assert_eq!(job_status(&Job { status: None }), "Unknown");
}

#[test]
fn cronjob_status_cases() {
    let cj = CronJob {
        status: Some(CronJobStatus { active: Some(vec!["a".to_string(), "b".to_string()]) }),
    };
    assert_eq!(cronjob_status(&cj), "Active(2)");
    let idle = CronJob { status: Some(CronJobStatus { active: Some(vec![]) }) };
    assert_eq!(cronjob_status(&idle), "Scheduled");
    assert_eq!(cronjob_status(&CronJob { status: None }), "Scheduled");
}

#[test]
fn status_priority_follows_classification() {
    assert_eq!(status_priority("CrashLoopBackOff"), 0);
    assert_eq!(status_priority("Pending"), 1);
    assert_eq!(status_priority("[DELETED]"), 1);
    assert_eq!(status_priority("Running"), 2);
}

#[test]
fn all_kinds_lists_every_kind_once() {
    let kinds = all_kinds();
    assert_eq!(kinds.len(), 14);
    assert_eq!(kinds[0], ResourceKind::Pod);
    assert_eq!(kinds[13], ResourceKind::Node);
}

#[test]
fn cluster_scoped_kinds_ignore_namespace() {
    assert_eq!(watch_namespace(ResourceKind::Node, Some("prod")), None);
    assert_eq!(watch_namespace(ResourceKind::Namespace, Some("prod")), None);
    assert_eq!(watch_namespace(ResourceKind::PersistentVolume, Some("prod")), None);
    assert_eq!(
        watch_namespace(ResourceKind::PersistentVolumeClaim, Some("prod")),
        Some("prod".to_string())
    );
    assert_eq!(watch_namespace(ResourceKind::Pod, None), None);
}

#[test]
fn format_age_picks_largest_unit() {
    assert_eq!(format_age(2, 3, 4), "2d");
    assert_eq!(format_age(0, 5, 4), "5h");
    assert_eq!(format_age(0, 0, 7), "7m");
    assert_eq!(format_age(0, 0, 0), "0m");
}

#[test]
fn resource_age_rounds_elapsed_time() {
    assert_eq!(age_of_elapsed(None), "?");
    assert_eq!(age_of_elapsed(Some(Elapsed { seconds: 90_061, nanoseconds: 0 })), "1d");
    assert_eq!(age_of_elapsed(Some(Elapsed { seconds: 3_661, nanoseconds: 0 })), "1h");
    assert_eq!(age_of_elapsed(Some(Elapsed { seconds: 90, nanoseconds: 0 })), "2m");
    assert_eq!(age_of_elapsed(Some(Elapsed { seconds: 29, nanoseconds: 0 })), "0m");
}

#[test]
fn resource_age_without_creation_time_is_unknown() {
    assert_eq!(resource_age(None), "?");
}

#[test]
fn resource_age_of_an_old_resource_is_in_days() {
    let age = resource_age(Some(CreationTime { seconds: 0, nanoseconds: 0 }));
    assert!(age.ends_with('d'), "unexpected age {age}");
    assert!(age.len() > 1);
}

#[test]
fn configmap_status_is_its_kind() {
    assert_eq!(configmap_status(), "ConfigMap");
}

#[test]
fn age_of_negative_elapsed_time_rounds_away_from_zero() {
    assert_eq!(age_of_elapsed(Some(Elapsed { seconds: -90, nanoseconds: 0 })), "-2m");
    assert_eq!(age_of_elapsed(Some(Elapsed { seconds: 30, nanoseconds: 0 })), "1m");
}

//! Per-kind status extraction: the status text shown for each built-in
//! resource kind, computed from the fields of the object that it reads.
use vstd::prelude::*;

use crate::items::{classify_status, health_priority, ResourceKind, StatusHealth};
use crate::text::{
    digit_char, int_digits, int_to_decimal, nat_digits, nat_to_decimal, opt_str_eq, str_eq,
};

verus! {

// ─── Status priority ─────────────────────────────────────────────────────────

/// Status priority (lower = shown first).
pub fn status_priority(status: &str) -> (r: u8)
    ensures
        r == health_priority(classify_status(status@)),
{
    StatusHealth::classify(status).priority()
}

// ─── Object fields read by the status extractors ─────────────────────────────

/// Object metadata as far as the status of a pod depends on it.
pub struct ObjectMeta {
    /// Set once deletion of the object has been requested.
    pub deletion_timestamp: Option<String>,
}

pub struct ContainerStateWaiting {
    pub reason: Option<String>,
}

pub struct ContainerStateTerminated {
    pub exit_code: i32,
    pub reason: Option<String>,
}

pub struct ContainerState {
    pub waiting: Option<ContainerStateWaiting>,
    pub terminated: Option<ContainerStateTerminated>,
}

pub struct ContainerStatus {
    pub state: Option<ContainerState>,
}

pub struct PodStatus {
    pub container_statuses: Option<Vec<ContainerStatus>>,
    pub init_container_statuses: Option<Vec<ContainerStatus>>,
    pub phase: Option<String>,
}

pub struct Pod {
    pub metadata: ObjectMeta,
    pub status: Option<PodStatus>,
}

pub struct ServiceSpec {
    pub type_: Option<String>,
}

pub struct Service {
    pub spec: Option<ServiceSpec>,
}

pub struct DeploymentSpec {
    pub replicas: Option<i32>,
}

pub struct DeploymentStatus {
    pub ready_replicas: Option<i32>,
}

pub struct Deployment {
    pub spec: Option<DeploymentSpec>,
    pub status: Option<DeploymentStatus>,
}

pub struct StatefulSetStatus {
    pub ready_replicas: Option<i32>,
    pub replicas: i32,
}

pub struct StatefulSet {
    pub status: Option<StatefulSetStatus>,
}

pub struct DaemonSetStatus {
    pub number_ready: i32,
    pub desired_number_scheduled: i32,
}

pub struct DaemonSet {
    pub status: Option<DaemonSetStatus>,
}

pub struct Secret {
    pub type_: Option<String>,
}

pub struct IngressLoadBalancerIngress {
    pub ip: Option<String>,
    pub hostname: Option<String>,
}

pub struct IngressLoadBalancerStatus {
    pub ingress: Option<Vec<IngressLoadBalancerIngress>>,
}

pub struct IngressStatus {
    pub load_balancer: Option<IngressLoadBalancerStatus>,
}

pub struct Ingress {
    pub status: Option<IngressStatus>,
}

pub struct NodeCondition {
    pub type_: String,
    pub status: String,
}

pub struct NodeStatus {
    pub conditions: Option<Vec<NodeCondition>>,
}

pub struct Node {
    pub status: Option<NodeStatus>,
}

/// The `phase` of a namespace, persistent volume or persistent volume claim.
pub struct PhaseStatus {
    pub phase: Option<String>,
}

pub struct Namespace {
    pub status: Option<PhaseStatus>,
}

pub struct PersistentVolume {
    pub status: Option<PhaseStatus>,
}

pub struct PersistentVolumeClaim {
    pub status: Option<PhaseStatus>,
}

pub struct JobStatus {
    /// The completion time as the API reports it, when the job has completed.
    pub completion_time: Option<String>,
    pub failed: Option<i32>,
    pub active: Option<i32>,
}

pub struct Job {
    pub status: Option<JobStatus>,
}

pub struct CronJobStatus {
    /// Names of the jobs the cron job is currently running.
    pub active: Option<Vec<String>>,
}

pub struct CronJob {
    pub status: Option<CronJobStatus>,
}

// ─── Pod status ──────────────────────────────────────────────────────────────

/// What one container status says about the pod, if anything: a waiting
/// reason other than "ContainerCreating" / "PodInitializing", else a
/// termination with a nonzero exit code.
pub open spec fn container_verdict(cs: ContainerStatus) -> Option<Seq<char>> {
    match cs.state {
        None => None,
        Some(st) => {
            let waiting = match st.waiting {
                Some(w) => match w.reason {
                    Some(r) => if r@ != "ContainerCreating"@ && r@ != "PodInitializing"@ {
                        Some(r@)
                    } else {
                        None
                    },
                    None => None,
                },
                None => None,
            };
            if waiting is Some {
                waiting
            } else {
                match st.terminated {
                    Some(t) => if t.exit_code != 0 {
                        match t.reason {
                            Some(r) => Some(r@),
                            None => Some("Error"@),
                        }
                    } else {
                        None
                    },
                    None => None,
                }
            }
        },
    }
}

/// The verdict of the first container status that has one.
pub open spec fn first_container_verdict(s: Seq<ContainerStatus>) -> Option<Seq<char>>
    decreases s.len(),
{
    if s.len() == 0 {
        None
    } else if container_verdict(s[0]) is Some {
        container_verdict(s[0])
    } else {
        first_container_verdict(s.drop_first())
    }
}

/// The waiting reason of an init container, if it is waiting with a reason.
pub open spec fn init_waiting_reason(cs: ContainerStatus) -> Option<Seq<char>> {
    match cs.state {
        Some(st) => match st.waiting {
            Some(w) => match w.reason {
                Some(r) => Some(r@),
                None => None,
            },
            None => None,
        },
        None => None,
    }
}

pub open spec fn first_init_waiting_reason(s: Seq<ContainerStatus>) -> Option<Seq<char>>
    decreases s.len(),
{
    if s.len() == 0 {
        None
    } else if init_waiting_reason(s[0]) is Some {
        init_waiting_reason(s[0])
    } else {
        first_init_waiting_reason(s.drop_first())
    }
}

/// The container terminated with exit code 0.
pub open spec fn completed_ok(cs: ContainerStatus) -> bool {
    cs.state matches Some(st) && st.terminated matches Some(t) && t.exit_code == 0
}

/// How many of the containers terminated with exit code 0.
pub open spec fn count_completed(s: Seq<ContainerStatus>) -> nat
    decreases s.len(),
{
    if s.len() == 0 {
        0
    } else {
        count_completed(s.drop_last()) + if completed_ok(s.last()) {
            1nat
        } else {
            0nat
        }
    }
}

/// The status shown for a pod.
pub open spec fn pod_status_text(pod: Pod) -> Seq<char> {
    if pod.metadata.deletion_timestamp is Some {
        "Terminating"@
    } else {
        match pod.status {
            None => "Unknown"@,
            Some(st) => {
                let containers = match st.container_statuses {
                    Some(v) => first_container_verdict(v@),
                    None => None,
                };
                if containers is Some {
                    containers->0
                } else {
                    let init = match st.init_container_statuses {
                        Some(v) => if first_init_waiting_reason(v@) is Some {
                            Some("Init:"@ + first_init_waiting_reason(v@)->0)
                        } else if count_completed(v@) < v@.len() {
                            Some(
                                "Init:"@ + nat_digits(count_completed(v@)) + "/"@ + nat_digits(
                                    v@.len(),
                                ),
                            )
                        } else {
                            None
                        },
                        None => None,
                    };
                    if init is Some {
                        init->0
                    } else {
                        match st.phase {
                            Some(p) => p@,
                            None => "Unknown"@,
                        }
                    }
                }
            },
        }
    }
}

fn container_verdict_exec(cs: &ContainerStatus) -> (r: Option<String>)
    ensures
        r matches Some(s) ==> container_verdict(*cs) == Some(s@),
        r is None ==> container_verdict(*cs) is None,
{
    if let Some(st) = &cs.state {
        if let Some(w) = &st.waiting {
            if let Some(reason) = &w.reason {
                if !str_eq(reason.as_str(), "ContainerCreating") && !str_eq(
                    reason.as_str(),
                    "PodInitializing",
                ) {
                    return Some(reason.clone());
                }
            }
        }
        if let Some(t) = &st.terminated {
            if t.exit_code != 0 {
                return match &t.reason {
                    Some(reason) => Some(reason.clone()),
                    None => Some("Error".to_owned()),
                };
            }
        }
    }
    None
}

fn first_container_verdict_exec(v: &Vec<ContainerStatus>) -> (r: Option<String>)
    ensures
        r matches Some(s) ==> first_container_verdict(v@) == Some(s@),
        r is None ==> first_container_verdict(v@) is None,
{
    let n = v.len();
    let mut i: usize = 0;
    assert(v@.skip(0) =~= v@);
    while i < n
        invariant
            n == v@.len(),
            i <= n,
            first_container_verdict(v@) == first_container_verdict(v@.skip(i as int)),
        decreases n - i,
    {
        assert(v@.skip(i as int).drop_first() =~= v@.skip(i + 1));
        assert(v@.skip(i as int)[0] == v@[i as int]);
        let verdict = container_verdict_exec(&v[i]);
        if verdict.is_some() {
            return verdict;
        }
        i += 1;
    }
    None
}

fn init_waiting_reason_exec(cs: &ContainerStatus) -> (r: Option<String>)
    ensures
        r matches Some(s) ==> init_waiting_reason(*cs) == Some(s@),
        r is None ==> init_waiting_reason(*cs) is None,
{
    if let Some(st) = &cs.state {
        if let Some(w) = &st.waiting {
            if let Some(reason) = &w.reason {
                return Some(reason.clone());
            }
        }
    }
    None
}

fn first_init_waiting_reason_exec(v: &Vec<ContainerStatus>) -> (r: Option<String>)
    ensures
        r matches Some(s) ==> first_init_waiting_reason(v@) == Some(s@),
        r is None ==> first_init_waiting_reason(v@) is None,
{
    let n = v.len();
    let mut i: usize = 0;
    assert(v@.skip(0) =~= v@);
    while i < n
        invariant
            n == v@.len(),
            i <= n,
            first_init_waiting_reason(v@) == first_init_waiting_reason(v@.skip(i as int)),
        decreases n - i,
    {
        assert(v@.skip(i as int).drop_first() =~= v@.skip(i + 1));
        assert(v@.skip(i as int)[0] == v@[i as int]);
        let reason = init_waiting_reason_exec(&v[i]);
        if reason.is_some() {
            return reason;
        }
        i += 1;
    }
    None
}

fn count_completed_exec(v: &Vec<ContainerStatus>) -> (r: usize)
    ensures
        r == count_completed(v@),
        r <= v@.len(),
{
    let n = v.len();
    let mut done: usize = 0;
    let mut i: usize = 0;
    while i < n
        invariant
            n == v@.len(),
            i <= n,
            done == count_completed(v@.take(i as int)),
            done <= i,
        decreases n - i,
    {
        assert(v@.take(i + 1).drop_last() =~= v@.take(i as int));
        let ok = match &v[i].state {
            Some(st) => match &st.terminated {
                Some(t) => t.exit_code == 0,
                None => false,
            },
            None => false,
        };
        if ok {
            done += 1;
        }
        i += 1;
    }
    assert(v@.take(n as int) =~= v@);
    done
}

/// The status shown for a pod: "Terminating" while deleted, a container's
/// waiting reason (CrashLoopBackOff, ...) or failed termination, an init
/// container's waiting reason or progress ("Init:X/Y"), else the phase.
pub fn pod_status(pod: &Pod) -> (r: String)
    ensures
        r@ == pod_status_text(*pod),
{
    if pod.metadata.deletion_timestamp.is_some() {
        return "Terminating".to_owned();
    }
    let status = match &pod.status {
        Some(s) => s,
        None => {
            return "Unknown".to_owned();
        },
    };
    if let Some(css) = &status.container_statuses {
        if let Some(reason) = first_container_verdict_exec(css) {
            return reason;
        }
    }
    if let Some(ics) = &status.init_container_statuses {
        if let Some(reason) = first_init_waiting_reason_exec(ics) {
            let mut r = "Init:".to_owned();
            r.append(reason.as_str());
            return r;
        }
        let total = ics.len();
        let done = count_completed_exec(ics);
        if done < total {
            let mut r = "Init:".to_owned();
            let d = nat_to_decimal(done as u64);
            let t = nat_to_decimal(total as u64);
            r.append(d.as_str());
            r.append("/");
            r.append(t.as_str());
            return r;
        }
    }
    match &status.phase {
        Some(p) => p.clone(),
        None => "Unknown".to_owned(),
    }
}

// ─── Other kinds ─────────────────────────────────────────────────────────────

/// The service type, "ClusterIP" when unset.
pub open spec fn service_status_text(svc: Service) -> Seq<char> {
    match svc.spec {
        Some(s) => match s.type_ {
            Some(t) => t@,
            None => "ClusterIP"@,
        },
        None => "ClusterIP"@,
    }
}

pub fn service_status(svc: &Service) -> (r: String)
    ensures
        r@ == service_status_text(*svc),
{
    if let Some(s) = &svc.spec {
        if let Some(t) = &s.type_ {
            return t.clone();
        }
    }
    "ClusterIP".to_owned()
}

/// "ready/desired": ready replicas (0 when unset) over desired replicas (1 when unset).
pub open spec fn deploy_status_text(d: Deployment) -> Seq<char> {
    let ready = match d.status {
        Some(s) => match s.ready_replicas {
            Some(r) => r as int,
            None => 0,
        },
        None => 0,
    };
    let desired = match d.spec {
        Some(s) => match s.replicas {
            Some(r) => r as int,
            None => 1,
        },
        None => 1,
    };
    int_digits(ready) + "/"@ + int_digits(desired)
}

fn ratio_text(a: i32, b: i32) -> (r: String)
    ensures
        r@ == int_digits(a as int) + "/"@ + int_digits(b as int),
{
    let mut r = int_to_decimal(a as i64);
    r.append("/");
    let bs = int_to_decimal(b as i64);
    r.append(bs.as_str());
    r
}

pub fn deploy_status(d: &Deployment) -> (r: String)
    ensures
        r@ == deploy_status_text(*d),
{
    let ready = match &d.status {
        Some(s) => match s.ready_replicas {
            Some(r) => r,
            None => 0,
        },
        None => 0,
    };
    let desired = match &d.spec {
        Some(s) => match s.replicas {
            Some(r) => r,
            None => 1,
        },
        None => 1,
    };
    ratio_text(ready, desired)
}

/// "ready/total" from the stateful set status, 0 where unset.
pub open spec fn statefulset_status_text(sts: StatefulSet) -> Seq<char> {
    let ready = match sts.status {
        Some(s) => match s.ready_replicas {
            Some(r) => r as int,
            None => 0,
        },
        None => 0,
    };
    let total = match sts.status {
        Some(s) => s.replicas as int,
        None => 0,
    };
    int_digits(ready) + "/"@ + int_digits(total)
}

pub fn statefulset_status(sts: &StatefulSet) -> (r: String)
    ensures
        r@ == statefulset_status_text(*sts),
{
    let (ready, total) = match &sts.status {
        Some(s) => (
            match s.ready_replicas {
                Some(r) => r,
                None => 0,
            },
            s.replicas,
        ),
        None => (0, 0),
    };
    ratio_text(ready, total)
}

/// "ready/desired" from the daemon set status, "0/0" without status.
pub open spec fn daemonset_status_text(ds: DaemonSet) -> Seq<char> {
    match ds.status {
        Some(s) => int_digits(s.number_ready as int) + "/"@ + int_digits(
            s.desired_number_scheduled as int,
        ),
        None => int_digits(0) + "/"@ + int_digits(0),
    }
}

pub fn daemonset_status(ds: &DaemonSet) -> (r: String)
    ensures
        r@ == daemonset_status_text(*ds),
{
    match &ds.status {
        Some(s) => ratio_text(s.number_ready, s.desired_number_scheduled),
        None => ratio_text(0, 0),
    }
}

/// A config map has no status of its own; its row shows "ConfigMap".
pub fn configmap_status() -> (r: String)
    ensures
        r@ == "ConfigMap"@,
{
    "ConfigMap".to_owned()
}

/// The secret type, "Opaque" when unset.
pub open spec fn secret_status_text(s: Secret) -> Seq<char> {
    match s.type_ {
        Some(t) => t@,
        None => "Opaque"@,
    }
}

pub fn secret_status(s: &Secret) -> (r: String)
    ensures
        r@ == secret_status_text(*s),
{
    match &s.type_ {
        Some(t) => t.clone(),
        None => "Opaque".to_owned(),
    }
}

/// The first load-balancer ingress point: its IP, else its hostname, else "<pending>".
pub open spec fn ingress_status_text(ing: Ingress) -> Seq<char> {
    let first = match ing.status {
        Some(s) => match s.load_balancer {
            Some(lb) => match lb.ingress {
                Some(v) => if v@.len() > 0 {
                    Some(v@[0])
                } else {
                    None
                },
                None => None,
            },
            None => None,
        },
        None => None,
    };
    match first {
        Some(i) => match i.ip {
            Some(ip) => ip@,
            None => match i.hostname {
                Some(h) => h@,
                None => "<pending>"@,
            },
        },
        None => "<pending>"@,
    }
}

pub fn ingress_status(ing: &Ingress) -> (r: String)
    ensures
        r@ == ingress_status_text(*ing),
{
    if let Some(s) = &ing.status {
        if let Some(lb) = &s.load_balancer {
            if let Some(v) = &lb.ingress {
                if v.len() > 0 {
                    let i = &v[0];
                    if let Some(ip) = &i.ip {
                        return ip.clone();
                    }
                    if let Some(h) = &i.hostname {
                        return h.clone();
                    }
                }
            }
        }
    }
    "<pending>".to_owned()
}

/// Index of the first condition of type "Ready".
pub open spec fn first_ready_condition(s: Seq<NodeCondition>) -> Option<int>
    decreases s.len(),
{
    if s.len() == 0 {
        None
    } else if s[0].type_@ == "Ready"@ {
        Some(0)
    } else {
        match first_ready_condition(s.drop_first()) {
            Some(i) => Some(i + 1),
            None => None,
        }
    }
}

/// "Ready" / "NotReady" from the node's Ready condition, "Unknown" without one.
pub open spec fn node_status_text(node: Node) -> Seq<char> {
    let conds = match node.status {
        Some(s) => match s.conditions {
            Some(c) => c@,
            None => Seq::empty(),
        },
        None => Seq::empty(),
    };
    match first_ready_condition(conds) {
        Some(i) => if conds[i].status@ == "True"@ {
            "Ready"@
        } else {
            "NotReady"@
        },
        None => "Unknown"@,
    }
}

pub fn node_status(node: &Node) -> (r: String)
    ensures
        r@ == node_status_text(*node),
{
    let empty: Vec<NodeCondition> = Vec::new();
    let conds: &Vec<NodeCondition> = match &node.status {
        Some(s) => match &s.conditions {
            Some(c) => c,
            None => &empty,
        },
        None => &empty,
    };
    let n = conds.len();
    let mut i: usize = 0;
    assert(conds@.skip(0) =~= conds@);
    while i < n
        invariant
            n == conds@.len(),
            i <= n,
            conds@ == match node.status {
                Some(s) => match s.conditions {
                    Some(c) => c@,
                    None => Seq::empty(),
                },
                None => Seq::empty(),
            },
            forall|k: int| 0 <= k < i ==> conds@[k].type_@ != "Ready"@,
            first_ready_condition(conds@) == match first_ready_condition(conds@.skip(i as int)) {
                Some(j) => Some(j + i),
                None => None::<int>,
            },
        decreases n - i,
    {
        assert(conds@.skip(i as int).drop_first() =~= conds@.skip(i + 1));
        assert(conds@.skip(i as int)[0] == conds@[i as int]);
        if str_eq(conds[i].type_.as_str(), "Ready") {
            assert(first_ready_condition(conds@.skip(i as int)) == Some(0int));
            if str_eq(conds[i].status.as_str(), "True") {
                return "Ready".to_owned();
            } else {
                return "NotReady".to_owned();
            }
        }
        i += 1;
    }
    assert(first_ready_condition(conds@.skip(n as int)) is None);
    "Unknown".to_owned()
}

/// The phase, or `default` when unset.
pub open spec fn phase_text(status: Option<PhaseStatus>, default: Seq<char>) -> Seq<char> {
    match status {
        Some(s) => match s.phase {
            Some(p) => p@,
            None => default,
        },
        None => default,
    }
}

fn phase_or(status: &Option<PhaseStatus>, default: &str) -> (r: String)
    ensures
        r@ == phase_text(*status, default@),
{
    if let Some(s) = status {
        if let Some(p) = &s.phase {
            return p.clone();
        }
    }
    default.to_owned()
}

/// A namespace's phase, "Active" when unset.
pub open spec fn namespace_status_text(ns: Namespace) -> Seq<char> {
    phase_text(ns.status, "Active"@)
}

pub fn namespace_status(ns: &Namespace) -> (r: String)
    ensures
        r@ == namespace_status_text(*ns),
{
    phase_or(&ns.status, "Active")
}

/// A persistent volume's phase, "Unknown" when unset.
pub open spec fn pv_status_text(pv: PersistentVolume) -> Seq<char> {
    phase_text(pv.status, "Unknown"@)
}

pub fn pv_status(pv: &PersistentVolume) -> (r: String)
    ensures
        r@ == pv_status_text(*pv),
{
    phase_or(&pv.status, "Unknown")
}

/// A persistent volume claim's phase, "Unknown" when unset.
pub open spec fn pvc_status_text(pvc: PersistentVolumeClaim) -> Seq<char> {
    phase_text(pvc.status, "Unknown"@)
}

pub fn pvc_status(pvc: &PersistentVolumeClaim) -> (r: String)
    ensures
        r@ == pvc_status_text(*pvc),
{
    phase_or(&pvc.status, "Unknown")
}

/// "Complete" once completed, else "Failed(n)" with failures, else
/// "Active(n)" with active pods, else "Unknown".
pub open spec fn job_status_text(job: Job) -> Seq<char> {
    match job.status {
        None => "Unknown"@,
        Some(s) => if s.completion_time is Some {
            "Complete"@
        } else if s.failed matches Some(f) && f > 0 {
            "Failed("@ + int_digits(s.failed->0 as int) + ")"@
        } else if s.active matches Some(a) && a > 0 {
            "Active("@ + int_digits(s.active->0 as int) + ")"@
        } else {
            "Unknown"@
        },
    }
}

fn wrap_count(prefix: &str, n: i64) -> (r: String)
    ensures
        r@ == prefix@ + int_digits(n as int) + ")"@,
{
    let mut r = prefix.to_owned();
    let d = int_to_decimal(n);
    r.append(d.as_str());
    r.append(")");
    r
}

pub fn job_status(job: &Job) -> (r: String)
    ensures
        r@ == job_status_text(*job),
{
    let s = match &job.status {
        Some(s) => s,
        None => {
            return "Unknown".to_owned();
        },
    };
    if s.completion_time.is_some() {
        return "Complete".to_owned();
    }
    if let Some(failed) = s.failed {
        if failed > 0 {
            return wrap_count("Failed(", failed as i64);
        }
    }
    let active = match s.active {
        Some(a) => a,
        None => 0,
    };
    if active > 0 {
        return wrap_count("Active(", active as i64);
    }
    "Unknown".to_owned()
}

/// "Active(n)" while the cron job runs n > 0 jobs, else "Scheduled".
pub open spec fn cronjob_status_text(cj: CronJob) -> Seq<char> {
    let active = match cj.status {
        Some(s) => match s.active {
            Some(v) => v@.len(),
            None => 0,
        },
        None => 0,
    };
    if active > 0 {
        "Active("@ + nat_digits(active) + ")"@
    } else {
        "Scheduled"@
    }
}

pub fn cronjob_status(cj: &CronJob) -> (r: String)
    ensures
        r@ == cronjob_status_text(*cj),
{
    let active: usize = match &cj.status {
        Some(s) => match &s.active {
            Some(v) => v.len(),
            None => 0,
        },
        None => 0,
    };
    if active > 0 {
        let mut r = "Active(".to_owned();
        let d = nat_to_decimal(active as u64);
        r.append(d.as_str());
        r.append(")");
        r
    } else {
        "Scheduled".to_owned()
    }
}

// ─── Which resources are watched ─────────────────────────────────────────────

/// All resource kinds watched when no filter is given, in watch order.
pub open spec fn all_kinds_seq() -> Seq<ResourceKind> {
    seq![
        ResourceKind::Pod,
        ResourceKind::Deployment,
        ResourceKind::StatefulSet,
        ResourceKind::DaemonSet,
        ResourceKind::Service,
        ResourceKind::Ingress,
        ResourceKind::Job,
        ResourceKind::CronJob,
        ResourceKind::ConfigMap,
        ResourceKind::Secret,
        ResourceKind::PersistentVolume,
        ResourceKind::PersistentVolumeClaim,
        ResourceKind::Namespace,
        ResourceKind::Node,
    ]
}

pub fn all_kinds() -> (r: Vec<ResourceKind>)
    ensures
        r@ == all_kinds_seq(),
{
    let r = vec![
        ResourceKind::Pod,
        ResourceKind::Deployment,
        ResourceKind::StatefulSet,
        ResourceKind::DaemonSet,
        ResourceKind::Service,
        ResourceKind::Ingress,
        ResourceKind::Job,
        ResourceKind::CronJob,
        ResourceKind::ConfigMap,
        ResourceKind::Secret,
        ResourceKind::PersistentVolume,
        ResourceKind::PersistentVolumeClaim,
        ResourceKind::Namespace,
        ResourceKind::Node,
    ];
    assert(r@ =~= all_kinds_seq());
    r
}

/// Nodes, namespaces and persistent volumes are cluster-scoped.
pub open spec fn is_cluster_scoped(kind: ResourceKind) -> bool {
    kind == ResourceKind::Node || kind == ResourceKind::Namespace || kind
        == ResourceKind::PersistentVolume
}

/// The namespace a watcher of `kind` is restricted to: the requested one,
/// except that cluster-scoped kinds are always watched across the cluster.
pub fn watch_namespace(kind: ResourceKind, namespace: Option<&str>) -> (r: Option<String>)
    ensures
        is_cluster_scoped(kind) ==> r is None,
        !is_cluster_scoped(kind) ==> match namespace {
            Some(ns) => r matches Some(n) && n@ == ns@,
            None => r is None,
        },
{
    if kind == ResourceKind::Node || kind == ResourceKind::Namespace || kind
        == ResourceKind::PersistentVolume {
        return None;
    }
    match namespace {
        Some(ns) => Some(ns.to_owned()),
        None => None,
    }
}

// ─── Age ─────────────────────────────────────────────────────────────────────

/// How long ago a resource was created.
pub struct Elapsed {
    pub seconds: i64,
    pub nanoseconds: i32,
}

/// The (days, hours, minutes) that jiff's `Span::round` gives for a span of
/// `seconds` and `nanoseconds`, balanced up to 24-hour days and rounded to
/// the nearest minute; `None` when jiff reports an error.
pub uninterp spec fn rounded_age(seconds: i64, nanoseconds: i64) -> Option<(i32, i32, i64)>;

/// The whole minutes nearest to `seconds` and `nanoseconds` (both
/// nonnegative), a half minute rounding up.
pub open spec fn nearest_minute(seconds: int, nanoseconds: int) -> int {
    (seconds * 1_000_000_000 + nanoseconds + 30_000_000_000) / 60_000_000_000
}

/// A nonnegative number of minutes as (days, hours, minutes), with 24-hour
/// days.
pub open spec fn minutes_as_age(total: int) -> (i32, i32, i64) {
    ((total / 1440) as i32, ((total % 1440) / 60) as i32, (total % 60) as i64)
}

/// A span whose seconds and nanoseconds have one sign, with the nanoseconds
/// below one second and the seconds no longer than the time between any two
/// jiff timestamps (well inside what a jiff `Span` holds).
pub open spec fn span_in_range(seconds: int, nanoseconds: int) -> bool {
    &&& -631_107_300_000 <= seconds <= 631_107_300_000
    &&& -1_000_000_000 < nanoseconds < 1_000_000_000
    &&& (seconds >= 0 && nanoseconds >= 0) || (seconds <= 0 && nanoseconds <= 0)
}

/// A span rounded to the nearest minute, half a minute rounding away from
/// zero, as (days, hours, minutes) of 24-hour days; all three carry the
/// span's sign.
pub open spec fn rounded_span(seconds: int, nanoseconds: int) -> (i32, i32, i64) {
    if seconds >= 0 && nanoseconds >= 0 {
        minutes_as_age(nearest_minute(seconds, nanoseconds))
    } else {
        let t = minutes_as_age(nearest_minute(-seconds, -nanoseconds));
        ((-t.0) as i32, (-t.1) as i32, (-t.2) as i64)
    }
}

/// Calls jiff (through k8s_openapi's re-export): builds a `Span` of the given
/// seconds and nanoseconds, rounds it with largest unit day (24-hour days)
/// and smallest unit minute in jiff's default mode (half away from zero),
/// and reads its days, hours and minutes. The contract names the result, and
/// states it for every span of one sign within the range of differences
/// between jiff timestamps: the nearest whole minutes, split into days,
/// hours and minutes that carry the span's sign. Outside that range the
/// result is left to the name.
#[verifier::external_body]
fn round_age(seconds: i64, nanoseconds: i64) -> (r: Option<(i32, i32, i64)>)
    ensures
        r == rounded_age(seconds, nanoseconds),
        span_in_range(seconds as int, nanoseconds as int) ==> r == Some(
            rounded_span(seconds as int, nanoseconds as int),
        ),
{
    let span = k8s_openapi::jiff::Span::new().try_seconds(seconds).ok()?;
    let span = span.try_nanoseconds(nanoseconds).ok()?;
    let options = k8s_openapi::jiff::SpanRound::new()
        .largest(k8s_openapi::jiff::Unit::Day)
        .days_are_24_hours()
        .smallest(k8s_openapi::jiff::Unit::Minute);
    let rounded = span.round(options).ok()?;
    Some((rounded.get_days(), rounded.get_hours(), rounded.get_minutes()))
}

/// "<d>d" when there are days, else "<h>h" when there are hours, else "<m>m".
pub open spec fn age_text(days: int, hours: int, minutes: int) -> Seq<char> {
    if days > 0 {
        int_digits(days) + "d"@
    } else if hours > 0 {
        int_digits(hours) + "h"@
    } else {
        int_digits(minutes) + "m"@
    }
}

/// The age column for a rounded age.
pub fn format_age(days: i32, hours: i32, minutes: i64) -> (r: String)
    ensures
        r@ == age_text(days as int, hours as int, minutes as int),
{
    if days > 0 {
        let mut r = int_to_decimal(days as i64);
        r.append("d");
        r
    } else if hours > 0 {
        let mut r = int_to_decimal(hours as i64);
        r.append("h");
        r
    } else {
        let mut r = int_to_decimal(minutes);
        r.append("m");
        r
    }
}

/// The age column: "?" without a creation time or when rounding fails.
pub open spec fn resource_age_text(elapsed: Option<Elapsed>) -> Seq<char> {
    match elapsed {
        None => "?"@,
        Some(e) => match rounded_age(e.seconds, e.nanoseconds as i64) {
            None => "?"@,
            Some(t) => age_text(t.0 as int, t.1 as int, t.2 as int),
        },
    }
}

/// The age column for an elapsed time within range.
pub open spec fn elapsed_age_text(e: Elapsed) -> Seq<char> {
    let t = rounded_span(e.seconds as int, e.nanoseconds as int);
    age_text(t.0 as int, t.1 as int, t.2 as int)
}

/// The age of a resource, from the time elapsed since its creation.
pub fn age_of_elapsed(elapsed: Option<Elapsed>) -> (r: String)
    ensures
        r@ == resource_age_text(elapsed),
        match elapsed {
            Some(e) => span_in_range(e.seconds as int, e.nanoseconds as int) ==> r@
                == elapsed_age_text(e),
            None => r@ == "?"@,
        },
{
    match elapsed {
        None => "?".to_owned(),
        Some(e) => match round_age(e.seconds, e.nanoseconds as i64) {
            None => "?".to_owned(),
            Some((d, h, m)) => format_age(d, h, m),
        },
    }
}

/// When a resource was created: seconds and nanoseconds since the Unix epoch.
pub struct CreationTime {
    pub seconds: i64,
    pub nanoseconds: i32,
}

/// The seconds and nanoseconds of a jiff timestamp: within jiff's range of
/// instants, with the nanoseconds below one second.
pub open spec fn is_timestamp(seconds: int, nanoseconds: int) -> bool {
    &&& -377_705_023_201 <= seconds <= 253_402_207_200
    &&& -1_000_000_000 < nanoseconds < 1_000_000_000
}

/// Calls jiff (through k8s_openapi's re-export): `Timestamp::now()`, read as
/// `as_second()` and `subsec_nanosecond()`. Which instant comes back depends
/// on the clock, so the contract states only what holds of every jiff
/// timestamp: its range. jiff panics when the system clock itself is outside
/// that range.
#[verifier::external_body]
fn clock_now() -> (r: (i64, i32))
    ensures
        is_timestamp(r.0 as int, r.1 as int),
{
    let now = k8s_openapi::jiff::Timestamp::now();
    (now.as_second(), now.subsec_nanosecond())
}

/// The nanoseconds from `creation` to `now`.
pub open spec fn nanos_between(now: (i64, i32), creation: CreationTime) -> int {
    (now.0 - creation.seconds) * 1_000_000_000 + (now.1 - creation.nanoseconds)
}

/// The time from `creation` to `now` as whole seconds and the nanoseconds
/// beyond them, both carrying the sign of the difference.
pub open spec fn elapsed_between(now: (i64, i32), creation: CreationTime) -> Elapsed {
    let t = nanos_between(now, creation);
    if t >= 0 {
        Elapsed { seconds: (t / 1_000_000_000) as i64, nanoseconds: (t % 1_000_000_000) as i32 }
    } else {
        Elapsed {
            seconds: (-((-t) / 1_000_000_000)) as i64,
            nanoseconds: (-((-t) % 1_000_000_000)) as i32,
        }
    }
}

/// The time elapsed from `creation` to `now`.
fn elapsed_from(now: (i64, i32), creation: &CreationTime) -> (r: Elapsed)
    requires
        is_timestamp(now.0 as int, now.1 as int),
        is_timestamp(creation.seconds as int, creation.nanoseconds as int),
    ensures
        r == elapsed_between(now, *creation),
        span_in_range(r.seconds as int, r.nanoseconds as int),
{
    let ghost t = nanos_between(now, *creation);
    let total: i128 = (now.0 as i128 - creation.seconds as i128) * 1_000_000_000i128 + (now.1 as i128
        - creation.nanoseconds as i128);
    assert(total == t);
    assert(-631_107_230_403_000_000_000 < t < 631_107_230_403_000_000_000);
    if total >= 0 {
        let q = total / 1_000_000_000i128;
        let m = total % 1_000_000_000i128;
        assert(q <= 631_107_230_403) by (nonlinear_arith)
            requires
                0 <= total < 631_107_230_403_000_000_000,
                q == total / 1_000_000_000,
        ;
        Elapsed { seconds: q as i64, nanoseconds: m as i32 }
    } else {
        let a = -total;
        let q = a / 1_000_000_000i128;
        let m = a % 1_000_000_000i128;
        assert(q <= 631_107_230_403) by (nonlinear_arith)
            requires
                0 < a < 631_107_230_403_000_000_000,
                q == a / 1_000_000_000,
        ;
        Elapsed { seconds: -(q as i64), nanoseconds: -(m as i32) }
    }
}

/// The age column of a resource: "?" without a creation time; otherwise the
/// age of the time from its creation to the clock's current instant.
pub fn resource_age(creation: Option<CreationTime>) -> (r: String)
    requires
        creation matches Some(c) ==> is_timestamp(c.seconds as int, c.nanoseconds as int),
    ensures
        creation is None ==> r@ == "?"@,
        match creation {
            Some(c) => exists|now: (i64, i32)|
                is_timestamp(now.0 as int, now.1 as int) && r@ == elapsed_age_text(
                    #[trigger] elapsed_between(now, c),
                ),
            None => true,
        },
{
    match creation {
        None => "?".to_owned(),
        Some(c) => {
            let now = clock_now();
            let elapsed = elapsed_from(now, &c);
            let ghost e = elapsed;
            let r = age_of_elapsed(Some(elapsed));
            assert(r@ == elapsed_age_text(elapsed_between(now, c)));
            r
        },
    }
}


// ─── Laws ────────────────────────────────────────────────────────────────────

/// Zero is written "0".
proof fn lemma_zero_digits()
    ensures
        int_digits(0) == seq!['0'],
{
    assert(nat_digits(0) == seq![digit_char(0)]);
}

/// The replica ratios show the ready count first and the wanted count
/// second, each in decimal: a deployment shows its ready replicas (0 when
/// the status has none) over its desired replicas (1 when the spec sets
/// none); a stateful set its ready replicas (0 when unset — never the total)
/// over its replicas, "0/0" without a status; a daemon set its ready pods
/// over its desired pods, "0/0" without a status.
pub proof fn law_replica_ratios(d: Deployment, sts: StatefulSet, ds: DaemonSet)
    ensures
        deploy_status_text(d) == (if d.status matches Some(st) && st.ready_replicas is Some {
            int_digits(d.status->0.ready_replicas->0 as int)
        } else {
            seq!['0']
        }) + "/"@ + (if d.spec matches Some(sp) && sp.replicas is Some {
            int_digits(d.spec->0.replicas->0 as int)
        } else {
            seq!['1']
        }),
        sts.status is None ==> statefulset_status_text(sts) == "0/0"@,
        sts.status matches Some(st) ==> statefulset_status_text(sts) == (match st.ready_replicas {
            Some(r) => int_digits(r as int),
            None => seq!['0'],
        }) + "/"@ + int_digits(st.replicas as int),
        ds.status is None ==> daemonset_status_text(ds) == "0/0"@,
        ds.status matches Some(st) ==> daemonset_status_text(ds) == int_digits(
            st.number_ready as int,
        ) + "/"@ + int_digits(st.desired_number_scheduled as int),
{
    lemma_zero_digits();
    assert(nat_digits(1) == seq![digit_char(1)]);
    reveal_strlit("0/0");
    reveal_strlit("/");
    assert(seq!['0'] + "/"@ + seq!['0'] =~= "0/0"@);
}

/// A service shows its type, "ClusterIP" when unset; a secret its type,
/// "Opaque" when unset; an ingress the IP of its first load-balancer point,
/// else that point's hostname, else "<pending>" (also with no point); a
/// namespace its phase, "Active" when unset; a persistent volume or claim its
/// phase, "Unknown" when unset.
pub proof fn law_field_statuses(
    svc: Service,
    secret: Secret,
    ing: Ingress,
    ns: Namespace,
    pv: PersistentVolume,
    pvc: PersistentVolumeClaim,
)
    ensures
        service_status_text(svc) == (if svc.spec matches Some(sp) && sp.type_ is Some {
            svc.spec->0.type_->0@
        } else {
            "ClusterIP"@
        }),
        secret_status_text(secret) == (match secret.type_ {
            Some(t) => t@,
            None => "Opaque"@,
        }),
        ({
            let points = if ing.status matches Some(st) && st.load_balancer matches Some(lb)
                && lb.ingress is Some {
                ing.status->0.load_balancer->0.ingress->0@
            } else {
                Seq::empty()
            };
            ingress_status_text(ing) == if points.len() == 0 {
                "<pending>"@
            } else if points[0].ip is Some {
                points[0].ip->0@
            } else if points[0].hostname is Some {
                points[0].hostname->0@
            } else {
                "<pending>"@
            }
        }),
        namespace_status_text(ns) == (if ns.status matches Some(st) && st.phase is Some {
            ns.status->0.phase->0@
        } else {
            "Active"@
        }),
        pv_status_text(pv) == (if pv.status matches Some(st) && st.phase is Some {
            pv.status->0.phase->0@
        } else {
            "Unknown"@
        }),
        pvc_status_text(pvc) == (if pvc.status matches Some(st) && st.phase is Some {
            pvc.status->0.phase->0@
        } else {
            "Unknown"@
        }),
{
}

/// A job shows "Complete" once it has a completion time; otherwise
/// "Failed(n)" when n > 0 pods failed; otherwise "Active(n)" when n > 0 pods
/// run; otherwise "Unknown" (also without a status). A cron job shows
/// "Active(n)" while it runs n > 0 jobs, else "Scheduled".
pub proof fn law_job_statuses(job: Job, cj: CronJob)
    ensures
        job.status is None ==> job_status_text(job) == "Unknown"@,
        job.status matches Some(st) ==> job_status_text(job) == if st.completion_time is Some {
            "Complete"@
        } else if st.failed matches Some(f) && f > 0 {
            "Failed("@ + int_digits(st.failed->0 as int) + ")"@
        } else if st.active matches Some(a) && a > 0 {
            "Active("@ + int_digits(st.active->0 as int) + ")"@
        } else {
            "Unknown"@
        },
        ({
            let running = if cj.status matches Some(st) && st.active is Some {
                cj.status->0.active->0@.len()
            } else {
                0
            };
            cronjob_status_text(cj) == if running > 0 {
                "Active("@ + int_digits(running as int) + ")"@
            } else {
                "Scheduled"@
            }
        }),
{
}

/// The first condition of type "Ready" is the one found.
proof fn lemma_first_node_ready(conds: Seq<NodeCondition>, i: int)
    ensures
        (forall|j: int| 0 <= j < conds.len() ==> (#[trigger] conds[j]).type_@ != "Ready"@)
            ==> first_ready_condition(conds) is None,
        0 <= i < conds.len() && conds[i].type_@ == "Ready"@ && (forall|j: int|
            0 <= j < i ==> (#[trigger] conds[j]).type_@ != "Ready"@) ==> first_ready_condition(
            conds,
        ) == Some(i),
    decreases conds.len(),
{
    if conds.len() > 0 {
        let rest = conds.drop_first();
        lemma_first_node_ready(rest, i - 1);
        if forall|j: int| 0 <= j < conds.len() ==> (#[trigger] conds[j]).type_@ != "Ready"@ {
            assert(conds[0].type_@ != "Ready"@);
            assert forall|j: int| 0 <= j < rest.len() implies (#[trigger] rest[j]).type_@
                != "Ready"@ by {
                assert(rest[j] == conds[j + 1]);
            }
        }
        if 0 < i < conds.len() && conds[i].type_@ == "Ready"@ && (forall|j: int|
            0 <= j < i ==> (#[trigger] conds[j]).type_@ != "Ready"@) {
            assert(conds[0].type_@ != "Ready"@);
            assert(rest[i - 1] == conds[i]);
            assert forall|j: int| 0 <= j < i - 1 implies (#[trigger] rest[j]).type_@ != "Ready"@ by {
                assert(rest[j] == conds[j + 1]);
            }
        }
    }
}

/// The conditions a node reports, none without a status or conditions.
pub open spec fn node_conditions(node: Node) -> Seq<NodeCondition> {
    match node.status {
        Some(s) => match s.conditions {
            Some(c) => c@,
            None => Seq::empty(),
        },
        None => Seq::empty(),
    }
}

/// A node shows "Ready" when its first condition of type "Ready" has status
/// "True", "NotReady" when that condition has any other status, and
/// "Unknown" when it has no such condition.
pub proof fn law_node_status_reads_ready_condition(node: Node, i: int)
    ensures
        (forall|j: int|
            0 <= j < node_conditions(node).len() ==> (#[trigger] node_conditions(node)[j]).type_@
                != "Ready"@) ==> node_status_text(node) == "Unknown"@,
        (0 <= i < node_conditions(node).len() && node_conditions(node)[i].type_@ == "Ready"@ && (
        forall|j: int| 0 <= j < i ==> (#[trigger] node_conditions(node)[j]).type_@ != "Ready"@))
            ==> node_status_text(node) == if node_conditions(node)[i].status@ == "True"@ {
            "Ready"@
        } else {
            "NotReady"@
        },
{
    lemma_first_node_ready(node_conditions(node), i);
}


/// What one container's status says about its pod: nothing without a state;
/// its waiting reason when it waits with a reason other than
/// "ContainerCreating" or "PodInitializing"; otherwise, when it terminated
/// with a nonzero exit code, its termination reason, "Error" without one;
/// otherwise nothing.
pub proof fn law_container_verdict(cs: ContainerStatus)
    ensures
        cs.state is None ==> container_verdict(cs) is None,
        cs.state matches Some(st) ==> container_verdict(cs) == if st.waiting matches Some(w)
            && w.reason matches Some(r) && r@ != "ContainerCreating"@ && r@ != "PodInitializing"@ {
            Some(st.waiting->0.reason->0@)
        } else if st.terminated matches Some(t) && t.exit_code != 0 {
            Some(
                match st.terminated->0.reason {
                    Some(r) => r@,
                    None => "Error"@,
                },
            )
        } else {
            None
        },
{
}

/// The first container with something to say decides: when container `i`
/// has a verdict and none before it has, the answer is container `i`'s;
/// when none has, there is none.
pub proof fn law_first_container_verdict(s: Seq<ContainerStatus>, i: int)
    ensures
        (forall|j: int| 0 <= j < s.len() ==> (#[trigger] container_verdict(s[j])) is None)
            ==> first_container_verdict(s) is None,
        (0 <= i < s.len() && container_verdict(s[i]) is Some && forall|j: int|
            0 <= j < i ==> (#[trigger] container_verdict(s[j])) is None) ==> first_container_verdict(
            s,
        ) == container_verdict(s[i]),
    decreases s.len(),
{
    if s.len() > 0 {
        let rest = s.drop_first();
        law_first_container_verdict(rest, i - 1);
        assert forall|j: int| 0 <= j < rest.len() implies rest[j] == s[j + 1] by {}
        if forall|j: int| 0 <= j < s.len() ==> (#[trigger] container_verdict(s[j])) is None {
            assert(container_verdict(s[0]) is None);
            assert forall|j: int| 0 <= j < rest.len() implies (#[trigger] container_verdict(
                rest[j],
            )) is None by {
                assert(container_verdict(s[j + 1]) is None);
            }
        }
        if 0 < i < s.len() && container_verdict(s[i]) is Some && (forall|j: int|
            0 <= j < i ==> (#[trigger] container_verdict(s[j])) is None) {
            assert(container_verdict(s[0]) is None);
            assert(rest[i - 1] == s[i]);
            assert forall|j: int| 0 <= j < i - 1 implies (#[trigger] container_verdict(
                rest[j],
            )) is None by {
                assert(container_verdict(s[j + 1]) is None);
            }
        }
    }
}

/// An init container's waiting reason: the reason it waits with, if any.
pub proof fn law_init_waiting_reason(cs: ContainerStatus)
    ensures
        init_waiting_reason(cs) == if cs.state matches Some(st) && st.waiting matches Some(w)
            && w.reason is Some {
            Some(cs.state->0.waiting->0.reason->0@)
        } else {
            None
        },
{
}

/// The first waiting init container decides: when init container `i` waits
/// with a reason and none before it does, the answer is its reason; when
/// none does, there is none.
pub proof fn law_first_init_waiting_reason(s: Seq<ContainerStatus>, i: int)
    ensures
        (forall|j: int| 0 <= j < s.len() ==> (#[trigger] init_waiting_reason(s[j])) is None)
            ==> first_init_waiting_reason(s) is None,
        (0 <= i < s.len() && init_waiting_reason(s[i]) is Some && forall|j: int|
            0 <= j < i ==> (#[trigger] init_waiting_reason(s[j])) is None)
            ==> first_init_waiting_reason(s) == init_waiting_reason(s[i]),
    decreases s.len(),
{
    if s.len() > 0 {
        let rest = s.drop_first();
        law_first_init_waiting_reason(rest, i - 1);
        assert forall|j: int| 0 <= j < rest.len() implies rest[j] == s[j + 1] by {}
        if forall|j: int| 0 <= j < s.len() ==> (#[trigger] init_waiting_reason(s[j])) is None {
            assert(init_waiting_reason(s[0]) is None);
            assert forall|j: int| 0 <= j < rest.len() implies (#[trigger] init_waiting_reason(
                rest[j],
            )) is None by {
                assert(init_waiting_reason(s[j + 1]) is None);
            }
        }
        if 0 < i < s.len() && init_waiting_reason(s[i]) is Some && (forall|j: int|
            0 <= j < i ==> (#[trigger] init_waiting_reason(s[j])) is None) {
            assert(init_waiting_reason(s[0]) is None);
            assert(rest[i - 1] == s[i]);
            assert forall|j: int| 0 <= j < i - 1 implies (#[trigger] init_waiting_reason(
                rest[j],
            )) is None by {
                assert(init_waiting_reason(s[j + 1]) is None);
            }
        }
    }
}

/// The completed count counts exactly the containers that terminated with
/// exit code 0: one more for such a container, none for any other, zero for
/// none.
pub proof fn law_count_completed(s: Seq<ContainerStatus>, c: ContainerStatus)
    ensures
        count_completed(Seq::empty()) == 0,
        count_completed(s.push(c)) == count_completed(s) + if c.state matches Some(st)
            && st.terminated matches Some(t) && t.exit_code == 0 {
            1nat
        } else {
            0nat
        },
        count_completed(s) <= s.len(),
    decreases s.len(),
{
    assert(s.push(c).drop_last() =~= s);
    if s.len() > 0 {
        law_count_completed(s.drop_last(), s.last());
    }
}

/// The status of a pod: "Terminating" once its deletion is requested; else
/// "Unknown" without a status; else the first container verdict when a
/// container has one; else, with init containers, "Init:<reason>" for the
/// first waiting one, or "Init:<done>/<total>" while not all completed;
/// else its phase, "Unknown" without one.
pub proof fn law_pod_status(pod: Pod)
    ensures
        pod.metadata.deletion_timestamp is Some ==> pod_status_text(pod) == "Terminating"@,
        pod.metadata.deletion_timestamp is None && pod.status is None ==> pod_status_text(pod)
            == "Unknown"@,
        pod.metadata.deletion_timestamp is None ==> (pod.status matches Some(st) ==> {
            let verdict = match st.container_statuses {
                Some(v) => first_container_verdict(v@),
                None => None,
            };
            pod_status_text(pod) == if verdict is Some {
                verdict->0
            } else if st.init_container_statuses matches Some(v) && first_init_waiting_reason(v@) is Some {
                "Init:"@ + first_init_waiting_reason(st.init_container_statuses->0@)->0
            } else if st.init_container_statuses matches Some(v) && count_completed(v@) < v@.len() {
                "Init:"@ + nat_digits(count_completed(st.init_container_statuses->0@)) + "/"@
                    + nat_digits(st.init_container_statuses->0@.len())
            } else {
                match st.phase {
                    Some(p) => p@,
                    None => "Unknown"@,
                }
            }
        }),
{
}

} // verus!

//! Cost attribution: finding the OpenCost service, mapping pods onto the
//! controllers that own them, and deciding which resources an allocation
//! entry of the OpenCost report is charged to.
use vstd::prelude::*;

use crate::items::{lemma_ascii_utf8_len, string_views, utf8_len, ResourceKind};
use crate::name_map::{NameKey, NameMap};
use crate::text::{
    all_ascii_alphanumeric, contains_seq, contains_str, int_digits, int_to_decimal,
    is_ascii_alnum, is_blank, is_blank_seq, last_index_before, last_index_of,
    lemma_contains_index, lemma_last_index_before, rfind_char, str_eq, trim_end_char, trim_end_matches_char,
};

verus! {

// ─── Resource references ─────────────────────────────────────────────────────

/// A resource identified by kind, namespace and name.
#[derive(Debug, Clone, Hash, PartialEq, Eq)]
pub struct ResourceRef {
    pub kind: ResourceKind,
    pub namespace: String,
    pub name: String,
}

impl View for ResourceRef {
    type V = (ResourceKind, Seq<char>, Seq<char>);

    open spec fn view(&self) -> (ResourceKind, Seq<char>, Seq<char>) {
        (self.kind, self.namespace@, self.name@)
    }
}

impl ResourceRef {
    pub fn new(kind: ResourceKind, namespace: &str, name: &str) -> (r: Self)
        ensures
            r@ == (kind, namespace@, name@),
    {
        ResourceRef { kind, namespace: namespace.to_owned(), name: name.to_owned() }
    }

    /// A copy of this reference.
    pub fn duplicate(&self) -> (r: Self)
        ensures
            r@ == self@,
    {
        ResourceRef::new(self.kind, self.namespace.as_str(), self.name.as_str())
    }
}

// ─── OpenCost service discovery ──────────────────────────────────────────────

/// Where the OpenCost allocation API is reached through the API server proxy.
pub struct ProxyTarget {
    pub namespace: String,
    pub service: String,
    pub port_name: Option<String>,
    pub port: i64,
}

/// The proxied path of the 1-day, per-pod allocation query of `t`.
pub open spec fn proxy_raw_path(
    namespace: Seq<char>,
    service: Seq<char>,
    port_name: Option<Seq<char>>,
    port: int,
) -> Seq<char> {
    let port_part = match port_name {
        Some(n) => n,
        None => int_digits(port),
    };
    "/api/v1/namespaces/"@ + namespace + "/services/"@ + service + ":"@ + port_part
        + "/proxy/allocation/compute?window=1d&aggregate=pod"@
}

pub open spec fn opt_view(o: Option<String>) -> Option<Seq<char>> {
    match o {
        Some(s) => Some(s@),
        None => None,
    }
}

impl ProxyTarget {
    pub open spec fn target_path(self) -> Seq<char> {
        proxy_raw_path(self.namespace@, self.service@, opt_view(self.port_name), self.port as int)
    }

    pub fn raw_path(&self) -> (r: String)
        ensures
            r@ == self.target_path(),
    {
        let mut r = "/api/v1/namespaces/".to_owned();
        r.append(self.namespace.as_str());
        r.append("/services/");
        r.append(self.service.as_str());
        r.append(":");
        match &self.port_name {
            Some(n) => r.append(n.as_str()),
            None => {
                let p = int_to_decimal(self.port);
                r.append(p.as_str());
            },
        }
        r.append("/proxy/allocation/compute?window=1d&aggregate=pod");
        r
    }
}

pub struct OwnerReference {
    pub kind: String,
    pub name: String,
    pub controller: Option<bool>,
}

pub struct Metadata {
    pub name: Option<String>,
    pub namespace: Option<String>,
    pub owner_references: Option<Vec<OwnerReference>>,
}

pub struct ServicePort {
    pub name: Option<String>,
    pub port: i64,
}

pub struct ServiceSpec {
    pub ports: Option<Vec<ServicePort>>,
}

pub struct ServiceItem {
    pub metadata: Metadata,
    pub spec: Option<ServiceSpec>,
}

pub struct ServiceList {
    pub items: Vec<ServiceItem>,
}

/// The port's name contains "http".
pub open spec fn is_http_port(p: ServicePort) -> bool {
    p.name matches Some(n) && contains_seq(n@, "http"@)
}

/// Index of the first element of `s` satisfying `f`.
pub open spec fn first_where<A>(s: Seq<A>, f: spec_fn(A) -> bool) -> Option<int>
    decreases s.len(),
{
    if s.len() == 0 {
        None
    } else if f(s[0]) {
        Some(0)
    } else {
        match first_where(s.drop_first(), f) {
            Some(i) => Some(i + 1),
            None => None,
        }
    }
}

/// What `first_where` finds: the first element satisfying `f`, or `None` when there is none.
pub proof fn lemma_first_where<A>(s: Seq<A>, f: spec_fn(A) -> bool)
    ensures
        first_where(s, f) matches Some(i) ==> 0 <= i < s.len() && f(s[i]) && forall|j: int|
            0 <= j < i ==> !f(#[trigger] s[j]),
        first_where(s, f) is None ==> forall|j: int| 0 <= j < s.len() ==> !f(#[trigger] s[j]),
    decreases s.len(),
{
    if s.len() > 0 && !f(s[0]) {
        lemma_first_where(s.drop_first(), f);
        assert forall|j: int| 1 <= j < s.len() implies s[j] == s.drop_first()[j - 1] by {}
    }
}

/// A position that is the first satisfying `f` is what `first_where` returns.
pub proof fn lemma_first_where_at<A>(s: Seq<A>, f: spec_fn(A) -> bool, i: int)
    requires
        0 <= i < s.len(),
        f(s[i]),
        forall|j: int| 0 <= j < i ==> !f(#[trigger] s[j]),
    ensures
        first_where(s, f) == Some(i),
{
    lemma_first_where(s, f);
    if first_where(s, f) is None {
        assert(!f(s[i]));
    }
}

/// No element satisfying `f` means `first_where` returns `None`.
pub proof fn lemma_first_where_none<A>(s: Seq<A>, f: spec_fn(A) -> bool)
    requires
        forall|j: int| 0 <= j < s.len() ==> !f(#[trigger] s[j]),
    ensures
        first_where(s, f) is None,
{
    lemma_first_where(s, f);
    if first_where(s, f) is Some {
        let i = first_where(s, f)->0;
        assert(f(s[i]));
    }
}

/// The port to query: the first whose name contains "http", else the first
/// on 9003, else the first; `None` when there are no ports.
pub open spec fn chosen_port(ports: Seq<ServicePort>) -> Option<int> {
    match first_where(ports, |p: ServicePort| is_http_port(p)) {
        Some(i) => Some(i),
        None => match first_where(ports, |p: ServicePort| p.port == 9003) {
            Some(i) => Some(i),
            None => if ports.len() > 0 {
                Some(0)
            } else {
                None
            },
        },
    }
}

pub fn pick_service_port(ports: &[ServicePort]) -> (r: Option<&ServicePort>)
    ensures
        chosen_port(ports@) matches Some(i) ==> r == Some(&ports@[i]),
        chosen_port(ports@) is None ==> r is None,
{
    let n = ports.len();
    let mut i: usize = 0;
    while i < n
        invariant
            n == ports@.len(),
            i <= n,
            forall|j: int| 0 <= j < i ==> !is_http_port(#[trigger] ports@[j]),
        decreases n - i,
    {
        let is_http = match &ports[i].name {
            Some(name) => contains_str(name.as_str(), "http"),
            None => false,
        };
        if is_http {
            proof {
                lemma_first_where_at(ports@, |p: ServicePort| is_http_port(p), i as int);
            }
            return Some(&ports[i]);
        }
        i += 1;
    }
    proof {
        lemma_first_where_none(ports@, |p: ServicePort| is_http_port(p));
    }
    let mut i: usize = 0;
    while i < n
        invariant
            n == ports@.len(),
            i <= n,
            forall|j: int| 0 <= j < i ==> (#[trigger] ports@[j]).port != 9003,
            first_where(ports@, |p: ServicePort| is_http_port(p)) is None,
        decreases n - i,
    {
        if ports[i].port == 9003 {
            proof {
                lemma_first_where_at(ports@, |p: ServicePort| p.port == 9003, i as int);
            }
            return Some(&ports[i]);
        }
        i += 1;
    }
    proof {
        lemma_first_where_none(ports@, |p: ServicePort| p.port == 9003);
    }
    if n > 0 {
        Some(&ports[0])
    } else {
        None
    }
}

/// Outcome of scanning the services for one (name, namespace) candidate.
pub enum ScanOutcome {
    /// No service was decisive; try the next candidate.
    Continue,
    /// The search ends here with this result.
    Done(Option<(Seq<char>, Seq<char>, Option<Seq<char>>, int)>),
}

/// The target a matching service yields: its namespace, name and chosen
/// port; `None` when it has no ports.
pub open spec fn service_target(svc: ServiceItem) -> Option<
    (Seq<char>, Seq<char>, Option<Seq<char>>, int),
> {
    match svc.spec {
        None => None,
        Some(spec) => match spec.ports {
            None => None,
            Some(ports) => match chosen_port(ports@) {
                None => None,
                Some(i) => Some(
                    (
                        svc.metadata.namespace->0@,
                        svc.metadata.name->0@,
                        opt_view(ports@[i].name),
                        ports@[i].port as int,
                    ),
                ),
            },
        },
    }
}

/// The service matches the candidate: not "kubernetes", in the candidate's
/// namespace when it names one, with the candidate name in its own name.
pub open spec fn service_matches(
    name: Seq<char>,
    namespace: Seq<char>,
    name_match: Seq<char>,
    namespace_match: Seq<char>,
) -> bool {
    &&& name != "kubernetes"@
    &&& namespace_match.len() == 0 || namespace == namespace_match
    &&& contains_seq(name, name_match)
}

/// Scan services in order: a service without name or namespace ends the
/// search with nothing; the first matching service ends it with its target.
pub open spec fn scan_services(
    svcs: Seq<ServiceItem>,
    name_match: Seq<char>,
    namespace_match: Seq<char>,
) -> ScanOutcome
    decreases svcs.len(),
{
    if svcs.len() == 0 {
        ScanOutcome::Continue
    } else {
        let svc = svcs[0];
        if svc.metadata.name is None || svc.metadata.namespace is None {
            ScanOutcome::Done(None)
        } else if service_matches(
            svc.metadata.name->0@,
            svc.metadata.namespace->0@,
            name_match,
            namespace_match,
        ) {
            ScanOutcome::Done(service_target(svc))
        } else {
            scan_services(svcs.drop_first(), name_match, namespace_match)
        }
    }
}

/// The OpenCost target among the services: candidates ("opencost" in
/// namespace "opencost"), ("opencost" anywhere), ("kubecost" anywhere), in
/// this order.
pub open spec fn proxy_target_of(svcs: Seq<ServiceItem>) -> Option<
    (Seq<char>, Seq<char>, Option<Seq<char>>, int),
> {
    match scan_services(svcs, "opencost"@, "opencost"@) {
        ScanOutcome::Done(r) => r,
        ScanOutcome::Continue => match scan_services(svcs, "opencost"@, ""@) {
            ScanOutcome::Done(r) => r,
            ScanOutcome::Continue => match scan_services(svcs, "kubecost"@, ""@) {
                ScanOutcome::Done(r) => r,
                ScanOutcome::Continue => None,
            },
        },
    }
}

fn target_of_service(svc: &ServiceItem) -> (r: Option<ProxyTarget>)
    requires
        svc.metadata.name is Some,
        svc.metadata.namespace is Some,
    ensures
        r matches Some(t) ==> service_target(*svc) == Some(
            (t.namespace@, t.service@, opt_view(t.port_name), t.port as int),
        ),
        r is None ==> service_target(*svc) is None,
{
    let spec = match &svc.spec {
        Some(s) => s,
        None => {
            return None;
        },
    };
    let ports = match &spec.ports {
        Some(p) => p,
        None => {
            return None;
        },
    };
    match pick_service_port(ports.as_slice()) {
        Some(port) => {
            let port_name = match &port.name {
                Some(n) => Some(n.clone()),
                None => None,
            };
            let namespace = match &svc.metadata.namespace {
                Some(s) => s.clone(),
                None => String::new(),
            };
            let service = match &svc.metadata.name {
                Some(s) => s.clone(),
                None => String::new(),
            };
            Some(ProxyTarget { namespace, service, port_name, port: port.port })
        },
        None => None,
    }
}

/// Scans for one candidate: `Err(())` means "no decisive service".
fn scan_for(services: &Vec<ServiceItem>, name_match: &str, namespace_match: &str) -> (r: Result<
    Option<ProxyTarget>,
    (),
>)
    ensures
        r is Err <==> scan_services(services@, name_match@, namespace_match@) is Continue,
        r matches Ok(Some(t)) ==> scan_services(services@, name_match@, namespace_match@)
            == ScanOutcome::Done(
            Some((t.namespace@, t.service@, opt_view(t.port_name), t.port as int)),
        ),
        r matches Ok(None) ==> scan_services(services@, name_match@, namespace_match@)
            == ScanOutcome::Done(None),
{
    let n = services.len();
    let mut i: usize = 0;
    assert(services@.skip(0) =~= services@);
    while i < n
        invariant
            n == services@.len(),
            i <= n,
            scan_services(services@, name_match@, namespace_match@) == scan_services(
                services@.skip(i as int),
                name_match@,
                namespace_match@,
            ),
        decreases n - i,
    {
        assert(services@.skip(i as int).drop_first() =~= services@.skip(i + 1));
        assert(services@.skip(i as int)[0] == services@[i as int]);
        let svc = &services[i];
        let (name, namespace) = match (&svc.metadata.name, &svc.metadata.namespace) {
            (Some(a), Some(b)) => (a, b),
            _ => {
                return Ok(None);
            },
        };
        let skip = str_eq(name.as_str(), "kubernetes") || (!namespace_match.is_empty() && !str_eq(
            namespace.as_str(),
            namespace_match,
        )) || !contains_str(name.as_str(), name_match);
        if !skip {
            return Ok(target_of_service(svc));
        }
        i += 1;
    }
    Err(())
}

/// Find the OpenCost (or Kubecost) service to query through the API server proxy.
pub fn detect_proxy_target(services: &ServiceList) -> (r: Option<ProxyTarget>)
    ensures
        r matches Some(t) ==> proxy_target_of(services.items@) == Some(
            (t.namespace@, t.service@, opt_view(t.port_name), t.port as int),
        ),
        r is None ==> proxy_target_of(services.items@) is None,
{
    match scan_for(&services.items, "opencost", "opencost") {
        Ok(r) => {
            return r;
        },
        Err(()) => {},
    }
    match scan_for(&services.items, "opencost", "") {
        Ok(r) => {
            return r;
        },
        Err(()) => {},
    }
    match scan_for(&services.items, "kubecost", "") {
        Ok(r) => r,
        Err(()) => None,
    }
}

// ─── Pod ownership ───────────────────────────────────────────────────────────

pub struct PodItem {
    pub metadata: Metadata,
}

pub struct PodList {
    pub items: Vec<PodItem>,
}

pub struct JobItem {
    pub metadata: Metadata,
}

pub struct JobList {
    pub items: Vec<JobItem>,
}

pub open spec fn is_controller_ref(o: OwnerReference) -> bool {
    o.controller == Some(true)
}

/// The owner reference that controls an object: the first marked as controller.
pub open spec fn controller_of(owners: Option<Vec<OwnerReference>>) -> Option<OwnerReference> {
    match owners {
        Some(v) => match first_where(v@, |o: OwnerReference| is_controller_ref(o)) {
            Some(i) => Some(v@[i]),
            None => None,
        },
        None => None,
    }
}

pub open spec fn owner_view(o: OwnerReference) -> (Seq<char>, Seq<char>, Option<bool>) {
    (o.kind@, o.name@, o.controller)
}

impl OwnerReference {
    /// A copy of this reference.
    pub fn duplicate(&self) -> (r: Self)
        ensures
            owner_view(r) == owner_view(*self),
    {
        OwnerReference {
            kind: self.kind.clone(),
            name: self.name.clone(),
            controller: self.controller,
        }
    }
}

/// The owner reference marked as controller, if any.
pub fn controller_owner(owners: &Option<Vec<OwnerReference>>) -> (r: Option<OwnerReference>)
    ensures
        r matches Some(o) ==> controller_of(*owners) matches Some(c) && owner_view(o)
            == owner_view(c),
        r is None ==> controller_of(*owners) is None,
{
    let v = match owners {
        Some(v) => v,
        None => {
            return None;
        },
    };
    let n = v.len();
    let mut i: usize = 0;
    while i < n
        invariant
            n == v@.len(),
            i <= n,
            forall|j: int| 0 <= j < i ==> !is_controller_ref(#[trigger] v@[j]),
            owners matches Some(w) && w@ == v@,
        decreases n - i,
    {
        let is_controller = match v[i].controller {
            Some(b) => b,
            None => false,
        };
        if is_controller {
            proof {
                lemma_first_where_at(v@, |o: OwnerReference| is_controller_ref(o), i as int);
            }
            return Some(v[i].duplicate());
        }
        i += 1;
    }
    proof {
        lemma_first_where_none(v@, |o: OwnerReference| is_controller_ref(o));
    }
    None
}

/// The deployment that created a replica set named "<deployment>-<hash>":
/// the text before the last '-', when the hash after it is at least 6 bytes
/// of ASCII letters and digits.
pub open spec fn deployment_name_of(rs: Seq<char>) -> Option<Seq<char>> {
    let i = last_index_of(rs, '-');
    if i < 0 {
        None
    } else {
        let hash = rs.subrange(i + 1, rs.len() as int);
        if utf8_len(hash) >= 6 && forall|k: int| 0 <= k < hash.len() ==> is_ascii_alnum(#[trigger] hash[k]) {
            Some(rs.subrange(0, i))
        } else {
            None
        }
    }
}

pub fn infer_deployment_name(replica_set_name: &str) -> (r: Option<String>)
    ensures
        r matches Some(d) ==> deployment_name_of(replica_set_name@) == Some(d@),
        r is None ==> deployment_name_of(replica_set_name@) is None,
{
    let i = match rfind_char(replica_set_name, '-') {
        Some(i) => i,
        None => {
            return None;
        },
    };
    let n = replica_set_name.unicode_len();
    let hash = replica_set_name.substring_char(i + 1, n);
    let alnum = all_ascii_alphanumeric(hash);
    proof {
        lemma_last_index_before(replica_set_name@, '-', replica_set_name@.len() as int);
        assert(i as int == last_index_of(replica_set_name@, '-'));
        if alnum {
            assert forall|k: int| 0 <= k < hash@.len() implies (#[trigger] hash@[k] as u32) <= 0x7F by {
                assert(is_ascii_alnum(hash@[k]));
            }
            lemma_ascii_utf8_len(hash@);
        }
    }
    if alnum && hash.unicode_len() >= 6 {
        Some(replica_set_name.substring_char(0, i).to_owned())
    } else {
        None
    }
}

pub open spec fn text_or_empty(o: Option<String>) -> Seq<char> {
    match o {
        Some(s) => s@,
        None => Seq::empty(),
    }
}

fn string_or_empty(o: &Option<String>) -> (r: String)
    ensures
        r@ == text_or_empty(*o),
{
    match o {
        Some(s) => s.clone(),
        None => String::new(),
    }
}

/// Jobs owned by a cron job: (namespace, job name) to the cron job's name.
/// A later job with the same key replaces an earlier one.
pub open spec fn cron_jobs_of(jobs: Seq<JobItem>) -> Map<NameKey, Seq<char>>
    decreases jobs.len(),
{
    if jobs.len() == 0 {
        Map::empty()
    } else {
        let m = cron_jobs_of(jobs.drop_last());
        let job = jobs.last();
        match controller_of(job.metadata.owner_references) {
            Some(o) => if o.kind@ == "CronJob"@ {
                m.insert(
                    (text_or_empty(job.metadata.namespace), text_or_empty(job.metadata.name)),
                    o.name@,
                )
            } else {
                m
            },
            None => m,
        }
    }
}

/// The listed resource a pod's controlling owner stands for.
pub open spec fn owner_target(
    namespace: Seq<char>,
    owner: OwnerReference,
    cron_jobs: Map<NameKey, Seq<char>>,
) -> Option<(ResourceKind, Seq<char>, Seq<char>)> {
    let k = owner.kind@;
    let name = owner.name@;
    if k == "ReplicaSet"@ {
        match deployment_name_of(name) {
            Some(d) => Some((ResourceKind::Deployment, namespace, d)),
            None => None,
        }
    } else if k == "Deployment"@ {
        Some((ResourceKind::Deployment, namespace, name))
    } else if k == "StatefulSet"@ {
        Some((ResourceKind::StatefulSet, namespace, name))
    } else if k == "DaemonSet"@ {
        Some((ResourceKind::DaemonSet, namespace, name))
    } else if k == "Job"@ {
        if cron_jobs.contains_key((namespace, name)) {
            Some((ResourceKind::CronJob, namespace, cron_jobs[(namespace, name)]))
        } else {
            Some((ResourceKind::Job, namespace, name))
        }
    } else if k == "CronJob"@ {
        Some((ResourceKind::CronJob, namespace, name))
    } else {
        None
    }
}

pub fn resource_ref_for_owner(
    namespace: &str,
    owner: &OwnerReference,
    job_to_cronjob: &NameMap<String>,
) -> (r: Option<ResourceRef>)
    ensures
        r matches Some(t) ==> owner_target(namespace@, *owner, job_to_cronjob@) == Some(t@),
        r is None ==> owner_target(namespace@, *owner, job_to_cronjob@) is None,
{
    let kind = owner.kind.as_str();
    let name = owner.name.as_str();
    if str_eq(kind, "ReplicaSet") {
        match infer_deployment_name(name) {
            Some(d) => Some(ResourceRef::new(ResourceKind::Deployment, namespace, d.as_str())),
            None => None,
        }
    } else if str_eq(kind, "Deployment") {
        Some(ResourceRef::new(ResourceKind::Deployment, namespace, name))
    } else if str_eq(kind, "StatefulSet") {
        Some(ResourceRef::new(ResourceKind::StatefulSet, namespace, name))
    } else if str_eq(kind, "DaemonSet") {
        Some(ResourceRef::new(ResourceKind::DaemonSet, namespace, name))
    } else if str_eq(kind, "Job") {
        match job_to_cronjob.get(namespace, name) {
            Some(cronjob) => Some(ResourceRef::new(ResourceKind::CronJob, namespace, cronjob.as_str())),
            None => Some(ResourceRef::new(ResourceKind::Job, namespace, name)),
        }
    } else if str_eq(kind, "CronJob") {
        Some(ResourceRef::new(ResourceKind::CronJob, namespace, name))
    } else {
        None
    }
}

/// Pods owned by a controller: (namespace, pod name) to the controller that
/// lists them, in pod order, a later pod replacing an earlier one.
pub open spec fn pod_controllers_of(
    pods: Seq<PodItem>,
    cron_jobs: Map<NameKey, Seq<char>>,
) -> Map<NameKey, (ResourceKind, Seq<char>, Seq<char>)>
    decreases pods.len(),
{
    if pods.len() == 0 {
        Map::empty()
    } else {
        let m = pod_controllers_of(pods.drop_last(), cron_jobs);
        let pod = pods.last();
        let namespace = text_or_empty(pod.metadata.namespace);
        let name = text_or_empty(pod.metadata.name);
        match controller_of(pod.metadata.owner_references) {
            Some(o) => match owner_target(namespace, o, cron_jobs) {
                Some(t) => m.insert((namespace, name), t),
                None => m,
            },
            None => m,
        }
    }
}

/// The pod → controller index built from the pod and job listings.
pub open spec fn pod_owner_map(pods: Option<Seq<PodItem>>, jobs: Option<Seq<JobItem>>) -> Map<
    NameKey,
    (ResourceKind, Seq<char>, Seq<char>),
> {
    let cron_jobs = match jobs {
        Some(j) => cron_jobs_of(j),
        None => Map::empty(),
    };
    match pods {
        Some(p) => pod_controllers_of(p, cron_jobs),
        None => Map::empty(),
    }
}

/// Which controller-backed resource each pod belongs to.
pub struct PodOwnerIndex {
    controllers: NameMap<ResourceRef>,
}

impl View for PodOwnerIndex {
    type V = Map<NameKey, (ResourceKind, Seq<char>, Seq<char>)>;

    closed spec fn view(&self) -> Map<NameKey, (ResourceKind, Seq<char>, Seq<char>)> {
        self.controllers@
    }
}

impl PodOwnerIndex {
    pub fn controller_for(&self, namespace: &str, pod: &str) -> (r: Option<&ResourceRef>)
        ensures
            r matches Some(t) ==> self@.contains_key((namespace@, pod@)) && t@ == self@[(
            namespace@,
            pod@,
            )],
            r is None ==> !self@.contains_key((namespace@, pod@)),
    {
        self.controllers.get(namespace, pod)
    }
}

/// Build the pod → controller index: replica sets map to their deployment,
/// jobs owned by a cron job map to the cron job.
pub fn build_pod_owner_index(pods: Option<&PodList>, jobs: Option<&JobList>) -> (r: PodOwnerIndex)
    ensures
        r@ == pod_owner_map(
            match pods {
                Some(p) => Some(p.items@),
                None => None,
            },
            match jobs {
                Some(j) => Some(j.items@),
                None => None,
            },
        ),
{
    let mut job_to_cronjob: NameMap<String> = NameMap::new();
    if let Some(jobs) = jobs {
        let n = jobs.items.len();
        let mut i: usize = 0;
        while i < n
            invariant
                n == jobs.items@.len(),
                i <= n,
                job_to_cronjob@ == cron_jobs_of(jobs.items@.take(i as int)),
            decreases n - i,
        {
            let job = &jobs.items[i];
            assert(jobs.items@.take(i + 1).drop_last() =~= jobs.items@.take(i as int));
            assert(jobs.items@.take(i + 1).last() == jobs.items@[i as int]);
            let namespace = string_or_empty(&job.metadata.namespace);
            if let Some(owner) = controller_owner(&job.metadata.owner_references) {
                if str_eq(owner.kind.as_str(), "CronJob") {
                    let name = string_or_empty(&job.metadata.name);
                    job_to_cronjob.insert(namespace, name, owner.name);
                }
            }
            i += 1;
        }
        assert(jobs.items@.take(n as int) =~= jobs.items@);
    }
    let mut controllers: NameMap<ResourceRef> = NameMap::new();
    if let Some(pods) = pods {
        let n = pods.items.len();
        let mut i: usize = 0;
        while i < n
            invariant
                n == pods.items@.len(),
                i <= n,
                controllers@ == pod_controllers_of(pods.items@.take(i as int), job_to_cronjob@),
            decreases n - i,
        {
            let pod = &pods.items[i];
            assert(pods.items@.take(i + 1).drop_last() =~= pods.items@.take(i as int));
            assert(pods.items@.take(i + 1).last() == pods.items@[i as int]);
            let namespace = string_or_empty(&pod.metadata.namespace);
            let pod_name = string_or_empty(&pod.metadata.name);
            if let Some(owner) = controller_owner(&pod.metadata.owner_references) {
                if let Some(target) = resource_ref_for_owner(namespace.as_str(), &owner, &job_to_cronjob) {
                    controllers.insert(namespace, pod_name, target);
                }
            }
            i += 1;
        }
        assert(pods.items@.take(n as int) =~= pods.items@);
    }
    PodOwnerIndex { controllers }
}

// ─── Allocation entries ──────────────────────────────────────────────────────

pub struct AllocationProperties {
    pub namespace: Option<String>,
    pub pod: Option<String>,
    pub controller: Option<String>,
    pub controller_kind: Option<String>,
}

/// One entry of the OpenCost allocation report, without its cost.
pub struct AllocationEntry {
    pub name: Option<String>,
    pub properties: Option<AllocationProperties>,
}

/// The next-to-last '/'-separated segment of `key`; `None` without a '/'.
pub open spec fn second_last_segment(key: Seq<char>) -> Option<Seq<char>> {
    let j = last_index_of(key, '/');
    if j < 0 {
        None
    } else {
        Some(key.subrange(last_index_before(key, '/', j) + 1, j))
    }
}

/// The last '/'-separated segment of `key` (all of it without a '/').
pub open spec fn last_segment(key: Seq<char>) -> Seq<char> {
    key.subrange(last_index_of(key, '/') + 1, key.len() as int)
}

/// The namespace of an allocation: from its properties, else the
/// next-to-last segment of its key ("cluster/namespace/pod").
pub open spec fn allocation_namespace_of(key: Seq<char>, entry: AllocationEntry) -> Option<
    Seq<char>,
> {
    match entry.properties {
        Some(p) => match p.namespace {
            Some(ns) => Some(ns@),
            None => second_last_segment(key),
        },
        None => second_last_segment(key),
    }
}

/// The pod of an allocation: from its properties, else its name, else the
/// last segment of its key; `None` for the "__idle__" allocation.
pub open spec fn allocation_pod_name_of(key: Seq<char>, entry: AllocationEntry) -> Option<
    Seq<char>,
> {
    let from_props = match entry.properties {
        Some(p) => opt_view(p.pod),
        None => None,
    };
    let name = match from_props {
        Some(n) => n,
        None => match entry.name {
            Some(n) => n@,
            None => last_segment(key),
        },
    };
    if name == "__idle__"@ {
        None
    } else {
        Some(name)
    }
}

/// The resource kind an OpenCost controller kind names.
pub open spec fn controller_kind_of(k: Seq<char>) -> Option<ResourceKind> {
    if k == "deployment"@ || k == "Deployment"@ {
        Some(ResourceKind::Deployment)
    } else if k == "statefulset"@ || k == "StatefulSet"@ {
        Some(ResourceKind::StatefulSet)
    } else if k == "daemonset"@ || k == "DaemonSet"@ {
        Some(ResourceKind::DaemonSet)
    } else if k == "job"@ || k == "Job"@ {
        Some(ResourceKind::Job)
    } else if k == "cronjob"@ || k == "CronJob"@ {
        Some(ResourceKind::CronJob)
    } else {
        None
    }
}

/// The controller an allocation is also charged to: the one its properties
/// name when they name a controller and its kind, else the pod's owner from
/// the index.
pub open spec fn allocation_controller_of(
    namespace: Seq<char>,
    entry: AllocationEntry,
    index: Map<NameKey, (ResourceKind, Seq<char>, Seq<char>)>,
    pod: Seq<char>,
) -> Option<(ResourceKind, Seq<char>, Seq<char>)> {
    if entry.properties matches Some(p) && p.controller is Some && p.controller_kind is Some {
        match controller_kind_of(entry.properties->0.controller_kind->0@) {
            Some(k) => Some((k, namespace, entry.properties->0.controller->0@)),
            None => None,
        }
    } else if index.contains_key((namespace, pod)) {
        Some(index[(namespace, pod)])
    } else {
        None
    }
}

fn second_last_segment_exec(key: &str) -> (r: Option<String>)
    ensures
        r matches Some(s) ==> second_last_segment(key@) == Some(s@),
        r is None ==> second_last_segment(key@) is None,
{
    let j = match rfind_char(key, '/') {
        Some(j) => j,
        None => {
            return None;
        },
    };
    proof {
        lemma_last_index_before(key@, '/', key@.len() as int);
    }
    let head = key.substring_char(0, j);
    let start = match rfind_char(head, '/') {
        Some(i) => i + 1,
        None => 0,
    };
    proof {
        assert(j as int == last_index_of(key@, '/'));
        lemma_last_index_before(head@, '/', head@.len() as int);
        lemma_last_index_before(key@, '/', j as int);
        lemma_last_index_before_prefix(key@, '/', j as int, j as int);
        assert(head@ == key@.subrange(0, j as int));
        assert(start as int == last_index_before(key@, '/', j as int) + 1);
    }
    Some(key.substring_char(start, j).to_owned())
}

proof fn lemma_last_index_before_prefix(s: Seq<char>, c: char, j: int, k: int)
    requires
        0 <= k <= j <= s.len(),
    ensures
        last_index_before(s.subrange(0, j), c, k) == last_index_before(s, c, k),
    decreases k,
{
    if k > 0 && s[k - 1] != c {
        lemma_last_index_before_prefix(s, c, j, k - 1);
    }
}

fn last_segment_exec(key: &str) -> (r: String)
    ensures
        r@ == last_segment(key@),
{
    let n = key.unicode_len();
    proof {
        lemma_last_index_before(key@, '/', key@.len() as int);
    }
    let start = match rfind_char(key, '/') {
        Some(i) => i + 1,
        None => 0,
    };
    key.substring_char(start, n).to_owned()
}

pub fn allocation_namespace(key: &str, entry: &AllocationEntry) -> (r: Option<String>)
    ensures
        r matches Some(s) ==> allocation_namespace_of(key@, *entry) == Some(s@),
        r is None ==> allocation_namespace_of(key@, *entry) is None,
{
    if let Some(props) = &entry.properties {
        if let Some(ns) = &props.namespace {
            return Some(ns.clone());
        }
    }
    second_last_segment_exec(key)
}

pub fn allocation_pod_name(key: &str, entry: &AllocationEntry) -> (r: Option<String>)
    ensures
        r matches Some(s) ==> allocation_pod_name_of(key@, *entry) == Some(s@),
        r is None ==> allocation_pod_name_of(key@, *entry) is None,
{
    let from_props: Option<String> = match &entry.properties {
        Some(p) => match &p.pod {
            Some(pod) => Some(pod.clone()),
            None => None,
        },
        None => None,
    };
    let name = match from_props {
        Some(n) => n,
        None => match &entry.name {
            Some(n) => n.clone(),
            None => last_segment_exec(key),
        },
    };
    if str_eq(name.as_str(), "__idle__") {
        None
    } else {
        Some(name)
    }
}

fn controller_kind(k: &str) -> (r: Option<ResourceKind>)
    ensures
        r == controller_kind_of(k@),
{
    if str_eq(k, "deployment") || str_eq(k, "Deployment") {
        Some(ResourceKind::Deployment)
    } else if str_eq(k, "statefulset") || str_eq(k, "StatefulSet") {
        Some(ResourceKind::StatefulSet)
    } else if str_eq(k, "daemonset") || str_eq(k, "DaemonSet") {
        Some(ResourceKind::DaemonSet)
    } else if str_eq(k, "job") || str_eq(k, "Job") {
        Some(ResourceKind::Job)
    } else if str_eq(k, "cronjob") || str_eq(k, "CronJob") {
        Some(ResourceKind::CronJob)
    } else {
        None
    }
}

pub fn allocation_controller_ref(
    namespace: &str,
    entry: &AllocationEntry,
    pod_owner_index: &PodOwnerIndex,
    pod_name: &str,
) -> (r: Option<ResourceRef>)
    ensures
        r matches Some(t) ==> allocation_controller_of(
            namespace@,
            *entry,
            pod_owner_index@,
            pod_name@,
        ) == Some(t@),
        r is None ==> allocation_controller_of(
            namespace@,
            *entry,
            pod_owner_index@,
            pod_name@,
        ) is None,
{
    if let Some(props) = &entry.properties {
        if let (Some(controller), Some(kind)) = (&props.controller, &props.controller_kind) {
            return match controller_kind(kind.as_str()) {
                Some(k) => Some(ResourceRef::new(k, namespace, controller.as_str())),
                None => None,
            };
        }
    }
    match pod_owner_index.controller_for(namespace, pod_name) {
        Some(t) => Some(t.duplicate()),
        None => None,
    }
}

/// Where an allocation's cost goes: its namespace, its pod, and the
/// controller of the pod when one is known.
pub struct AllocationTarget {
    pub namespace: String,
    pub pod: String,
    pub controller: Option<ResourceRef>,
}

pub open spec fn ref_view(o: Option<ResourceRef>) -> Option<(ResourceKind, Seq<char>, Seq<char>)> {
    match o {
        Some(r) => Some(r@),
        None => None,
    }
}

/// The resources an allocation entry is charged to; `None` when it has no
/// namespace, belongs to the "__idle__" namespace, or has no pod.
pub open spec fn allocation_target_of(
    key: Seq<char>,
    entry: AllocationEntry,
    index: Map<NameKey, (ResourceKind, Seq<char>, Seq<char>)>,
) -> Option<(Seq<char>, Seq<char>, Option<(ResourceKind, Seq<char>, Seq<char>)>)> {
    match allocation_namespace_of(key, entry) {
        None => None,
        Some(ns) => if ns == "__idle__"@ {
            None
        } else {
            match allocation_pod_name_of(key, entry) {
                None => None,
                Some(pod) => Some((ns, pod, allocation_controller_of(ns, entry, index, pod))),
            }
        },
    }
}

/// Decide which resources an allocation entry is charged to: its pod, the
/// pod's namespace, and the controller that owns the pod.
pub fn allocation_target(key: &str, entry: &AllocationEntry, pod_owner_index: &PodOwnerIndex) -> (r:
    Option<AllocationTarget>)
    ensures
        r matches Some(t) ==> allocation_target_of(key@, *entry, pod_owner_index@) == Some(
            (t.namespace@, t.pod@, ref_view(t.controller)),
        ),
        r is None ==> allocation_target_of(key@, *entry, pod_owner_index@) is None,
{
    let namespace = match allocation_namespace(key, entry) {
        Some(ns) => ns,
        None => {
            return None;
        },
    };
    if str_eq(namespace.as_str(), "__idle__") {
        return None;
    }
    let pod = match allocation_pod_name(key, entry) {
        Some(p) => p,
        None => {
            return None;
        },
    };
    let controller = allocation_controller_ref(namespace.as_str(), entry, pod_owner_index, pod.as_str());
    Some(AllocationTarget { namespace, pod, controller })
}

// ─── Looking up costs ────────────────────────────────────────────────────────

/// Where the cost of a listed resource is found: namespaces by their own
/// name among the namespace totals, everything else among the item totals.
pub enum CostKey {
    Namespace(String),
    Item(ResourceRef),
}

pub fn cost_key(kind: ResourceKind, namespace: &str, name: &str) -> (r: CostKey)
    ensures
        kind == ResourceKind::Namespace ==> (r matches CostKey::Namespace(n) && n@ == name@),
        kind != ResourceKind::Namespace ==> (r matches CostKey::Item(t) && t@ == (
            kind,
            namespace@,
            name@,
        )),
{
    if kind == ResourceKind::Namespace {
        CostKey::Namespace(name.to_owned())
    } else {
        CostKey::Item(ResourceRef::new(kind, namespace, name))
    }
}

// ─── Reaching OpenCost ───────────────────────────────────────────────────────

/// How the allocation report is fetched.
pub enum AllocationSource {
    /// Find the OpenCost service in the cluster and query it through the API server.
    DiscoverService,
    /// Query this URL directly.
    Endpoint(String),
}

/// The allocation URL of a configured endpoint: the endpoint without
/// trailing '/', extended with the 1-day per-pod allocation query unless it
/// already points at "/allocation/compute".
pub open spec fn allocation_url_of(endpoint: Seq<char>) -> Seq<char> {
    let base = trim_end_char(endpoint, '/');
    if contains_seq(base, "/allocation/compute"@) {
        base
    } else {
        base + "/allocation/compute?window=1d&aggregate=pod"@
    }
}

pub fn allocation_url(endpoint: &str) -> (r: String)
    ensures
        r@ == allocation_url_of(endpoint@),
{
    let mut base = trim_end_matches_char(endpoint, '/');
    if !contains_str(base.as_str(), "/allocation/compute") {
        base.append("/allocation/compute?window=1d&aggregate=pod");
    }
    base
}

/// A blank endpoint means the service is discovered in the cluster.
pub fn allocation_source(opencost_endpoint: &str) -> (r: AllocationSource)
    ensures
        is_blank_seq(opencost_endpoint@) ==> r is DiscoverService,
        !is_blank_seq(opencost_endpoint@) ==> (r matches AllocationSource::Endpoint(u) && u@
            == allocation_url_of(opencost_endpoint@)),
{
    if is_blank(opencost_endpoint) {
        AllocationSource::DiscoverService
    } else {
        AllocationSource::Endpoint(allocation_url(opencost_endpoint))
    }
}

/// The full kubectl argument list: `--kubeconfig <path>` when given,
/// `--context <ctx>` when the context is not empty, then `args`.
pub open spec fn kubectl_arguments(
    context: Seq<char>,
    kubeconfig: Option<Seq<char>>,
    args: Seq<Seq<char>>,
) -> Seq<Seq<char>> {
    let kc = match kubeconfig {
        Some(p) => seq!["--kubeconfig"@, p],
        None => Seq::empty(),
    };
    let ctx = if context.len() == 0 {
        Seq::empty()
    } else {
        seq!["--context"@, context]
    };
    kc + ctx + args
}

pub fn kubectl_command_args(context: &str, kubeconfig: Option<&str>, args: &Vec<String>) -> (r: Vec<
    String,
>)
    ensures
        string_views(r@) == kubectl_arguments(
            context@,
            match kubeconfig {
                Some(p) => Some(p@),
                None => None,
            },
            string_views(args@),
        ),
{
    let mut r: Vec<String> = Vec::new();
    if let Some(path) = kubeconfig {
        r.push("--kubeconfig".to_owned());
        r.push(path.to_owned());
    }
    if !context.is_empty() {
        r.push("--context".to_owned());
        r.push(context.to_owned());
    }
    let ghost prefix = string_views(r@);
    let n = args.len();
    let mut i: usize = 0;
    while i < n
        invariant
            n == args@.len(),
            i <= n,
            string_views(r@) == prefix + string_views(args@).take(i as int),
        decreases n - i,
    {
        let ghost before = r@;
        r.push(args[i].clone());
        assert(string_views(r@) =~= string_views(before).push(args@[i as int]@));
        assert(string_views(args@).take(i + 1) =~= string_views(args@).take(i as int).push(
            args@[i as int]@,
        ));
        assert(string_views(r@) =~= prefix + string_views(args@).take(i + 1));
        i += 1;
    }
    assert(string_views(args@).take(n as int) =~= string_views(args@));
    assert(string_views(r@) =~= kubectl_arguments(
        context@,
        match kubeconfig {
            Some(p) => Some(p@),
            None => None,
        },
        string_views(args@),
    ));
    r
}

// ─── Laws ────────────────────────────────────────────────────────────────────

/// A replica set named "<deployment>-<hash>", with a hash of at least six
/// ASCII letters and digits, is attributed to "<deployment>".
pub proof fn law_replica_set_maps_to_deployment(deployment: Seq<char>, hash: Seq<char>)
    requires
        hash.len() >= 6,
        forall|k: int| 0 <= k < hash.len() ==> is_ascii_alnum(#[trigger] hash[k]),
    ensures
        deployment_name_of(deployment + "-"@ + hash) == Some(deployment),
{
    reveal_strlit("-");
    let s = deployment + "-"@ + hash;
    let d = deployment.len() as int;
    lemma_last_index_before(s, '-', s.len() as int);
    let r = last_index_of(s, '-');
    assert(s[d] == '-');
    assert forall|k: int| d < k < s.len() implies s[k] != '-' by {
        assert(s[k] == hash[k - d - 1]);
        assert(is_ascii_alnum(hash[k - d - 1]));
    }
    assert(r == d);
    assert(s.subrange(r + 1, s.len() as int) =~= hash);
    assert(s.subrange(0, r) =~= deployment);
    assert forall|k: int| 0 <= k < hash.len() implies (#[trigger] hash[k] as u32) <= 0x7F by {
        assert(is_ascii_alnum(hash[k]));
    }
    lemma_ascii_utf8_len(hash);
}


/// The controlling owner is the first owner reference marked as controller;
/// with none marked (or no owner references) there is none.
pub proof fn law_controller_is_first_marked_owner(owners: Option<Vec<OwnerReference>>, i: int)
    ensures
        owners is None ==> controller_of(owners) is None,
        owners matches Some(v) ==> ((forall|j: int|
            0 <= j < v@.len() ==> (#[trigger] v@[j]).controller != Some(true)) ==> controller_of(
            owners,
        ) is None),
        owners matches Some(v) ==> (0 <= i < v@.len() && v@[i].controller == Some(true) && (forall|
            j: int,
        | 0 <= j < i ==> (#[trigger] v@[j]).controller != Some(true)) ==> controller_of(owners)
            == Some(v@[i])),
{
    if let Some(v) = owners {
        if 0 <= i < v@.len() && v@[i].controller == Some(true) && (forall|j: int|
            0 <= j < i ==> (#[trigger] v@[j]).controller != Some(true)) {
            assert forall|j: int| 0 <= j < i implies !is_controller_ref(#[trigger] v@[j]) by {
                assert(v@[j].controller != Some(true));
            }
            lemma_first_where_at(v@, |o: OwnerReference| is_controller_ref(o), i);
        }
        if forall|j: int| 0 <= j < v@.len() ==> (#[trigger] v@[j]).controller != Some(true) {
            assert forall|j: int| 0 <= j < v@.len() implies !is_controller_ref(#[trigger] v@[j]) by {
                assert(v@[j].controller != Some(true));
            }
            lemma_first_where_none(v@, |o: OwnerReference| is_controller_ref(o));
        }
    }
}

/// What a pod's controlling owner stands for in the list: a Deployment,
/// StatefulSet, DaemonSet or CronJob owner stands for itself, of that kind, in
/// the pod's namespace; a Job owner stands for the cron job that created it
/// when one did, else for itself; a ReplicaSet owner stands for its
/// deployment (see `law_replica_set_maps_to_deployment`); any other kind
/// stands for nothing.
pub proof fn law_owner_kind_targets(
    namespace: Seq<char>,
    owner: OwnerReference,
    cron_jobs: Map<NameKey, Seq<char>>,
)
    ensures
        owner.kind@ == "Deployment"@ ==> owner_target(namespace, owner, cron_jobs) == Some(
            (ResourceKind::Deployment, namespace, owner.name@),
        ),
        owner.kind@ == "StatefulSet"@ ==> owner_target(namespace, owner, cron_jobs) == Some(
            (ResourceKind::StatefulSet, namespace, owner.name@),
        ),
        owner.kind@ == "DaemonSet"@ ==> owner_target(namespace, owner, cron_jobs) == Some(
            (ResourceKind::DaemonSet, namespace, owner.name@),
        ),
        owner.kind@ == "CronJob"@ ==> owner_target(namespace, owner, cron_jobs) == Some(
            (ResourceKind::CronJob, namespace, owner.name@),
        ),
        owner.kind@ == "Job"@ && cron_jobs.contains_key((namespace, owner.name@)) ==> owner_target(
            namespace,
            owner,
            cron_jobs,
        ) == Some((ResourceKind::CronJob, namespace, cron_jobs[(namespace, owner.name@)])),
        owner.kind@ == "Job"@ && !cron_jobs.contains_key((namespace, owner.name@)) ==> owner_target(
            namespace,
            owner,
            cron_jobs,
        ) == Some((ResourceKind::Job, namespace, owner.name@)),
        owner.kind@ != "Deployment"@ && owner.kind@ != "StatefulSet"@ && owner.kind@
            != "DaemonSet"@ && owner.kind@ != "CronJob"@ && owner.kind@ != "Job"@ && owner.kind@
            != "ReplicaSet"@ ==> owner_target(namespace, owner, cron_jobs) is None,
{
    reveal_strlit("Deployment");
    reveal_strlit("StatefulSet");
    reveal_strlit("DaemonSet");
    reveal_strlit("CronJob");
    reveal_strlit("Job");
    reveal_strlit("ReplicaSet");
    let k = owner.kind@;
    assert("ReplicaSet"@.len() == 10 && "Deployment"@.len() == 10 && "StatefulSet"@.len() == 11
        && "DaemonSet"@.len() == 9 && "Job"@.len() == 3 && "CronJob"@.len() == 7);
    assert("ReplicaSet"@[0] == 'R' && "Deployment"@[0] == 'D');
    if k == "Deployment"@ {
        assert(k[0] == 'D');
    }
}

/// The index records the last pod of a listing under its own namespace and
/// name, pointing at what its controlling owner stands for; pods without a
/// controlling owner that stands for anything are not recorded, and earlier
/// pods keep their entries.
pub proof fn law_pod_indexed_under_owner_target(
    pods: Seq<PodItem>,
    pod: PodItem,
    cron_jobs: Map<NameKey, Seq<char>>,
)
    ensures
        ({
            let ns = text_or_empty(pod.metadata.namespace);
            let name = text_or_empty(pod.metadata.name);
            let before = pod_controllers_of(pods, cron_jobs);
            let after = pod_controllers_of(pods.push(pod), cron_jobs);
            match controller_of(pod.metadata.owner_references) {
                Some(o) => match owner_target(ns, o, cron_jobs) {
                    Some(t) => after == before.insert((ns, name), t),
                    None => after == before,
                },
                None => after == before,
            }
        }),
{
    assert(pods.push(pod).drop_last() =~= pods);
}

/// The controller an allocation is charged to when its properties name a
/// controller `c` and a controller kind: OpenCost's kinds, in lower case or
/// capitalised ("deployment"/"Deployment", "statefulset"/"StatefulSet",
/// "daemonset"/"DaemonSet", "job"/"Job", "cronjob"/"CronJob"), give that
/// resource kind with name `c` in the allocation's namespace; any other kind
/// gives none. Without a named controller and kind, the pod's owner from the
/// index is used.
pub proof fn law_allocation_controller_kinds(
    namespace: Seq<char>,
    entry: AllocationEntry,
    index: Map<NameKey, (ResourceKind, Seq<char>, Seq<char>)>,
    pod: Seq<char>,
)
    ensures
        ({
            let r = allocation_controller_of(namespace, entry, index, pod);
            match entry.properties {
                Some(p) => match (p.controller, p.controller_kind) {
                    (Some(c), Some(k)) => {
                        &&& (k@ == "deployment"@ || k@ == "Deployment"@) ==> r == Some(
                            (ResourceKind::Deployment, namespace, c@),
                        )
                        &&& (k@ == "statefulset"@ || k@ == "StatefulSet"@) ==> r == Some(
                            (ResourceKind::StatefulSet, namespace, c@),
                        )
                        &&& (k@ == "daemonset"@ || k@ == "DaemonSet"@) ==> r == Some(
                            (ResourceKind::DaemonSet, namespace, c@),
                        )
                        &&& (k@ == "job"@ || k@ == "Job"@) ==> r == Some(
                            (ResourceKind::Job, namespace, c@),
                        )
                        &&& (k@ == "cronjob"@ || k@ == "CronJob"@) ==> r == Some(
                            (ResourceKind::CronJob, namespace, c@),
                        )
                        &&& (k@ != "deployment"@ && k@ != "Deployment"@ && k@ != "statefulset"@
                            && k@ != "StatefulSet"@ && k@ != "daemonset"@ && k@ != "DaemonSet"@
                            && k@ != "job"@ && k@ != "Job"@ && k@ != "cronjob"@ && k@
                            != "CronJob"@) ==> r is None
                    },
                    _ => r == if index.contains_key((namespace, pod)) {
                        Some(index[(namespace, pod)])
                    } else {
                        None
                    },
                },
                None => r == if index.contains_key((namespace, pod)) {
                    Some(index[(namespace, pod)])
                } else {
                    None
                },
            }
        }),
{
    reveal_strlit("deployment");
    reveal_strlit("Deployment");
    reveal_strlit("statefulset");
    reveal_strlit("StatefulSet");
    reveal_strlit("daemonset");
    reveal_strlit("DaemonSet");
    reveal_strlit("job");
    reveal_strlit("Job");
    reveal_strlit("cronjob");
    reveal_strlit("CronJob");
    if let Some(p) = entry.properties {
        if let (Some(c), Some(k)) = (p.controller, p.controller_kind) {
            if k@.len() > 0 {
                assert(k@[0] == k@[0]);
            }
        }
    }
}

/// An allocation is charged to its namespace, its pod and (when known) that
/// pod's controller: with its namespace and pod named in its properties,
/// neither "__idle__", the target is that namespace and pod, with the
/// controller the allocation's properties or the index give.
pub proof fn law_allocation_target_from_properties(
    key: Seq<char>,
    entry: AllocationEntry,
    index: Map<NameKey, (ResourceKind, Seq<char>, Seq<char>)>,
)
    requires
        entry.properties matches Some(p) && p.namespace is Some && p.pod is Some,
        entry.properties->0.namespace->0@ != "__idle__"@,
        entry.properties->0.pod->0@ != "__idle__"@,
    ensures
        ({
            let ns = entry.properties->0.namespace->0@;
            let pod = entry.properties->0.pod->0@;
            allocation_target_of(key, entry, index) == Some(
                (ns, pod, allocation_controller_of(ns, entry, index, pod)),
            )
        }),
{
}


/// The cron-job map records the last job of a listing under its namespace
/// and name when its controlling owner is a CronJob, mapping it to that cron
/// job's name; other jobs leave the map as it was.
pub proof fn law_job_indexed_under_cron_job(jobs: Seq<JobItem>, job: JobItem)
    ensures
        ({
            let before = cron_jobs_of(jobs);
            let after = cron_jobs_of(jobs.push(job));
            match controller_of(job.metadata.owner_references) {
                Some(o) => if o.kind@ == "CronJob"@ {
                    after == before.insert(
                        (text_or_empty(job.metadata.namespace), text_or_empty(job.metadata.name)),
                        o.name@,
                    )
                } else {
                    after == before
                },
                None => after == before,
            }
        }),
        cron_jobs_of(Seq::empty()) == Map::<NameKey, Seq<char>>::empty(),
{
    assert(jobs.push(job).drop_last() =~= jobs);
}

/// The pod index is built from the pods with the cron-job map of the jobs
/// (empty without a job listing), and is empty without a pod listing.
pub proof fn law_pod_owner_map_inputs(pods: Option<Seq<PodItem>>, jobs: Option<Seq<JobItem>>)
    ensures
        pods is None ==> pod_owner_map(pods, jobs) == Map::<
            NameKey,
            (ResourceKind, Seq<char>, Seq<char>),
        >::empty(),
        pods matches Some(p) ==> pod_owner_map(pods, jobs) == pod_controllers_of(
            p,
            match jobs {
                Some(j) => cron_jobs_of(j),
                None => Map::empty(),
            },
        ),
        pod_controllers_of(Seq::empty(), Map::empty()) == Map::<
            NameKey,
            (ResourceKind, Seq<char>, Seq<char>),
        >::empty(),
{
}


/// In `a + "/" + b` with no '/' in `b`, the last '/' is the one after `a`.
proof fn lemma_last_slash(a: Seq<char>, b: Seq<char>)
    requires
        !b.contains('/'),
    ensures
        last_index_of(a + "/"@ + b, '/') == a.len(),
        last_index_before(a + "/"@ + b, '/', a.len() as int) == last_index_of(a, '/'),
{
    reveal_strlit("/");
    let s = a + "/"@ + b;
    let i = a.len() as int;
    assert(s[i] == '/');
    assert forall|k: int| i < k < s.len() implies s[k] != '/' by {
        assert(s[k] == b[k - i - 1]);
        if s[k] == '/' {
            assert(b.contains('/'));
        }
    }
    lemma_last_index_before(s, '/', s.len() as int);
    lemma_last_index_before(s, '/', i);
    lemma_last_index_before(a, '/', i);
    assert forall|k: int| 0 <= k < i implies s[k] == a[k] by {}
    let r1 = last_index_before(s, '/', i);
    let r2 = last_index_of(a, '/');
    if r1 >= 0 && r2 >= 0 {
        assert(r1 == r2);
    }
}

/// The namespace an allocation is charged to: the one its properties name;
/// else the next-to-last '/'-separated segment of its key (so "cluster/ns/pod"
/// and "ns/pod" give "ns"); none when neither names one (a key without '/').
pub proof fn law_allocation_namespace(
    key: Seq<char>,
    entry: AllocationEntry,
    head: Seq<char>,
    ns: Seq<char>,
    pod: Seq<char>,
)
    ensures
        (entry.properties matches Some(p) && p.namespace is Some) ==> allocation_namespace_of(
            key,
            entry,
        ) == Some(entry.properties->0.namespace->0@),
        !(entry.properties matches Some(p) && p.namespace is Some) && !key.contains('/')
            ==> allocation_namespace_of(key, entry) is None,
        !(entry.properties matches Some(p) && p.namespace is Some) && key == head + "/"@ + ns + "/"@
            + pod && !ns.contains('/') && !pod.contains('/') ==> allocation_namespace_of(key, entry)
            == Some(ns),
        !(entry.properties matches Some(p) && p.namespace is Some) && key == ns + "/"@ + pod
            && !ns.contains('/') && !pod.contains('/') ==> allocation_namespace_of(key, entry)
            == Some(ns),
{
    reveal_strlit("/");
    lemma_contains_index(key, '/');
    if key == head + "/"@ + ns + "/"@ + pod && !ns.contains('/') && !pod.contains('/') {
        let a = head + "/"@ + ns;
        assert(key =~= a + "/"@ + pod);
        lemma_last_slash(a, pod);
        lemma_last_slash(head, ns);
        assert(last_index_of(key, '/') == a.len());
        assert(last_index_before(key, '/', a.len() as int) == head.len());
        assert(key.subrange((head.len() + 1) as int, a.len() as int) =~= ns);
        assert(second_last_segment(key) == Some(ns));
    }
    if key == ns + "/"@ + pod && !ns.contains('/') && !pod.contains('/') {
        lemma_last_slash(ns, pod);
        lemma_contains_index(ns, '/');
        lemma_last_index_before(ns, '/', ns.len() as int);
        assert(last_index_of(key, '/') == ns.len());
        assert(last_index_before(key, '/', ns.len() as int) == -1);
        assert(key.subrange(0, ns.len() as int) =~= ns);
        assert(second_last_segment(key) == Some(ns));
    }
}

/// The pod an allocation is charged to: the one its properties name; else
/// the allocation's name; else the last '/'-separated segment of its key
/// (all of it without a '/'); none when that is "__idle__".
pub proof fn law_allocation_pod_name(key: Seq<char>, entry: AllocationEntry, head: Seq<char>, pod: Seq<char>)
    ensures
        ({
            let named = if entry.properties matches Some(p) && p.pod is Some {
                Some(entry.properties->0.pod->0@)
            } else if entry.name is Some {
                Some(entry.name->0@)
            } else {
                None
            };
            &&& named matches Some(n) ==> allocation_pod_name_of(key, entry) == if n == "__idle__"@ {
                None
            } else {
                Some(n)
            }
            &&& named is None && !key.contains('/') ==> allocation_pod_name_of(key, entry) == if key
                == "__idle__"@ {
                None
            } else {
                Some(key)
            }
            &&& named is None && key == head + "/"@ + pod && !pod.contains('/')
                ==> allocation_pod_name_of(key, entry) == if pod == "__idle__"@ {
                None
            } else {
                Some(pod)
            }
        }),
{
    reveal_strlit("/");
    lemma_contains_index(key, '/');
    lemma_last_index_before(key, '/', key.len() as int);
    if !key.contains('/') {
        assert(last_index_of(key, '/') == -1);
        assert(key.subrange(0, key.len() as int) =~= key);
        assert(last_segment(key) == key);
    }
    if key == head + "/"@ + pod && !pod.contains('/') {
        lemma_last_slash(head, pod);
        assert(key.subrange((head.len() + 1) as int, key.len() as int) =~= pod);
    }
}


/// The port used to reach OpenCost: the first port whose name contains
/// "http"; without one, the first port numbered 9003; without one, the first
/// port; none without ports.
pub proof fn law_chosen_port(ports: Seq<ServicePort>, i: int, j: int)
    ensures
        (0 <= i < ports.len() && (ports[i].name matches Some(n) && contains_seq(n@, "http"@))
            && forall|k: int|
            0 <= k < i ==> !(#[trigger] ports[k].name matches Some(n) && contains_seq(
                n@,
                "http"@,
            ))) ==> chosen_port(ports) == Some(i),
        ((forall|k: int|
            0 <= k < ports.len() ==> !(#[trigger] ports[k].name matches Some(n) && contains_seq(
                n@,
                "http"@,
            ))) && 0 <= j < ports.len() && ports[j].port == 9003 && forall|k: int|
            0 <= k < j ==> (#[trigger] ports[k]).port != 9003) ==> chosen_port(ports) == Some(j),
        ((forall|k: int|
            0 <= k < ports.len() ==> !(#[trigger] ports[k].name matches Some(n) && contains_seq(
                n@,
                "http"@,
            ))) && (forall|k: int| 0 <= k < ports.len() ==> (#[trigger] ports[k]).port != 9003))
            ==> chosen_port(ports) == if ports.len() > 0 {
            Some(0int)
        } else {
            None
        },
{
    if 0 <= i < ports.len() && (ports[i].name matches Some(n) && contains_seq(n@, "http"@)) && (
    forall|k: int|
        0 <= k < i ==> !(#[trigger] ports[k].name matches Some(n) && contains_seq(n@, "http"@))) {
        assert forall|k: int| 0 <= k < i implies !is_http_port(#[trigger] ports[k]) by {}
        lemma_first_where_at(ports, |p: ServicePort| is_http_port(p), i);
    }
    if forall|k: int|
        0 <= k < ports.len() ==> !(#[trigger] ports[k].name matches Some(n) && contains_seq(
            n@,
            "http"@,
        )) {
        assert forall|k: int| 0 <= k < ports.len() implies !is_http_port(#[trigger] ports[k]) by {}
        lemma_first_where_none(ports, |p: ServicePort| is_http_port(p));
        if 0 <= j < ports.len() && ports[j].port == 9003 && (forall|k: int|
            0 <= k < j ==> (#[trigger] ports[k]).port != 9003) {
            lemma_first_where_at(ports, |p: ServicePort| p.port == 9003, j);
        }
        if forall|k: int| 0 <= k < ports.len() ==> (#[trigger] ports[k]).port != 9003 {
            lemma_first_where_none(ports, |p: ServicePort| p.port == 9003);
        }
    }
}

/// A service is an OpenCost candidate when it is not "kubernetes", lies in
/// the candidate's namespace (any namespace when the candidate names none)
/// and has the candidate's name in its own.
pub proof fn law_service_matches(
    name: Seq<char>,
    namespace: Seq<char>,
    name_match: Seq<char>,
    namespace_match: Seq<char>,
)
    ensures
        name == "kubernetes"@ ==> !service_matches(name, namespace, name_match, namespace_match),
        name != "kubernetes"@ && namespace_match.len() == 0 ==> (service_matches(
            name,
            namespace,
            name_match,
            namespace_match,
        ) <==> contains_seq(name, name_match)),
        name != "kubernetes"@ && namespace_match.len() > 0 ==> (service_matches(
            name,
            namespace,
            name_match,
            namespace_match,
        ) <==> (namespace == namespace_match && contains_seq(name, name_match))),
{
}

/// The services are searched for each candidate in order ("opencost" in
/// namespace "opencost", then "opencost" anywhere, then "kubecost"
/// anywhere): the first service of the listing that has a name and namespace
/// and matches the candidate gives the target (its chosen port's name and
/// number); a service without name or namespace before any match ends the
/// search with none.
pub proof fn law_scan_services(svcs: Seq<ServiceItem>, name_match: Seq<char>, namespace_match: Seq<char>)
    ensures
        svcs.len() == 0 ==> scan_services(svcs, name_match, namespace_match) == ScanOutcome::Continue,
        svcs.len() > 0 && (svcs[0].metadata.name is None || svcs[0].metadata.namespace is None)
            ==> scan_services(svcs, name_match, namespace_match) == ScanOutcome::Done(None),
        svcs.len() > 0 && svcs[0].metadata.name is Some && svcs[0].metadata.namespace is Some
            && service_matches(
            svcs[0].metadata.name->0@,
            svcs[0].metadata.namespace->0@,
            name_match,
            namespace_match,
        ) ==> scan_services(svcs, name_match, namespace_match) == ScanOutcome::Done(
            match svcs[0].spec {
                Some(sp) => match sp.ports {
                    Some(ports) => match chosen_port(ports@) {
                        Some(i) => Some(
                            (
                                svcs[0].metadata.namespace->0@,
                                svcs[0].metadata.name->0@,
                                opt_view(ports@[i].name),
                                ports@[i].port as int,
                            ),
                        ),
                        None => None,
                    },
                    None => None,
                },
                None => None,
            },
        ),
        svcs.len() > 0 && svcs[0].metadata.name is Some && svcs[0].metadata.namespace is Some
            && !service_matches(
            svcs[0].metadata.name->0@,
            svcs[0].metadata.namespace->0@,
            name_match,
            namespace_match,
        ) ==> scan_services(svcs, name_match, namespace_match) == scan_services(
            svcs.drop_first(),
            name_match,
            namespace_match,
        ),
        proxy_target_of(svcs) == match scan_services(svcs, "opencost"@, "opencost"@) {
            ScanOutcome::Done(r) => r,
            ScanOutcome::Continue => match scan_services(svcs, "opencost"@, ""@) {
                ScanOutcome::Done(r) => r,
                ScanOutcome::Continue => match scan_services(svcs, "kubecost"@, ""@) {
                    ScanOutcome::Done(r) => r,
                    ScanOutcome::Continue => None,
                },
            },
        },
{
}

} // verus!

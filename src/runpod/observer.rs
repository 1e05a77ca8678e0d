//! Pods as observed at the provider, and project status summaries.

use vstd::prelude::*;
use vstd::string::*;

use crate::planner::diff::opt_view;
use crate::bytes::str_eq;
use crate::runpod::types::{pairs_view, PodStatus};

verus! {

/// Tag key naming the project that owns a pod.
pub const TAG_PROJECT: &'static str = "halldyll_project";

/// Tag key naming the environment that owns a pod.
pub const TAG_ENV: &'static str = "halldyll_env";

/// Tag key holding the pod's name in the document.
pub const TAG_POD: &'static str = "halldyll_pod";

/// Tag key holding the digest of the pod's specification.
pub const TAG_SPEC_HASH: &'static str = "halldyll_spec_hash";

/// A pod as the provider reports it, with the values read from its tags.
#[derive(Debug, Clone)]
pub struct ObservedPod {
    /// Provider identifier.
    pub id: String,
    /// Provider-side name.
    pub name: String,
    /// Project, from the tags.
    pub project: Option<String>,
    /// Environment, from the tags.
    pub environment: Option<String>,
    /// Name in the document, from the tags.
    pub pod_name: Option<String>,
    /// Specification digest, from the tags.
    pub spec_hash: Option<String>,
    /// Current status.
    pub status: PodStatus,
    /// GPU type.
    pub gpu_type: Option<String>,
    /// Number of GPUs.
    pub gpu_count: u32,
    /// Container image.
    pub image: String,
    /// Public endpoints: port and URL.
    pub endpoints: Vec<(u16, String)>,
    /// All tags, as key/value pairs.
    pub tags: Vec<(String, String)>,
}

/// Status summary of a project's pods.
#[derive(Debug)]
pub struct ProjectStatus {
    /// Project name.
    pub project: String,
    /// Environment name.
    pub environment: String,
    /// Number of pods.
    pub total_pods: usize,
    /// Running pods.
    pub running: usize,
    /// Stopped or exited pods.
    pub stopped: usize,
    /// Pods in an unknown state.
    pub error: usize,
    /// Pods in any other state.
    pub other: usize,
    /// The pods.
    pub pods: Vec<ObservedPod>,
}

/// The value of the first pair with the key.
pub open spec fn first_value(tags: Seq<(Seq<char>, Seq<char>)>, key: Seq<char>) -> Option<Seq<char>>
    decreases tags.len(),
{
    if tags.len() == 0 {
        None
    } else if tags[0].0 == key {
        Some(tags[0].1)
    } else {
        first_value(tags.drop_first(), key)
    }
}

/// The value of the first tag with the key.
pub fn tag_value(tags: &Vec<(String, String)>, key: &str) -> (r: Option<String>)
    ensures
        opt_view(r) == first_value(pairs_view(tags@), key@),
{
    let ghost v = pairs_view(tags@);
    let mut i: usize = 0;
    assert(v.skip(0) =~= v);
    while i < tags.len()
        invariant
            i <= tags@.len(),
            v == pairs_view(tags@),
            first_value(v, key@) == first_value(v.skip(i as int), key@),
        decreases tags@.len() - i,
    {
        proof {
            assert(v.skip(i as int)[0] == (tags@[i as int].0@, tags@[i as int].1@));
            assert(v.skip(i as int).drop_first() =~= v.skip(i as int + 1));
        }
        if str_eq(tags[i].0.as_str(), key) {
            return Some(tags[i].1.clone());
        }
        i = i + 1;
    }
    assert(v.skip(i as int).len() == 0);
    None
}

/// The classes a project summary counts pods in.
#[derive(Debug, Clone, Copy, PartialEq, Eq, Structural)]
pub enum StatusClass {
    /// Running.
    Running,
    /// Stopped or exited.
    Stopped,
    /// In an unknown state.
    Error,
    /// Starting or being created.
    Other,
}

/// Whether a status is in the class.
pub open spec fn in_class(s: PodStatus, class: StatusClass) -> bool {
    match class {
        StatusClass::Running => s == PodStatus::Running,
        StatusClass::Stopped => s == PodStatus::Stopped || s == PodStatus::Exited,
        StatusClass::Error => s == PodStatus::Unknown,
        StatusClass::Other => s == PodStatus::Starting || s == PodStatus::Creating,
    }
}

/// Number of pods whose status is in the class.
pub open spec fn status_count(pods: Seq<ObservedPod>, class: StatusClass) -> nat
    decreases pods.len(),
{
    if pods.len() == 0 {
        0
    } else {
        status_count(pods.drop_last(), class) + if in_class(pods.last().status, class) { 1nat } else { 0nat }
    }
}

proof fn lemma_status_count_bound(pods: Seq<ObservedPod>, class: StatusClass)
    ensures
        status_count(pods, class) <= pods.len(),
    decreases pods.len(),
{
    if pods.len() > 0 {
        lemma_status_count_bound(pods.drop_last(), class);
    }
}

fn count_status(pods: &Vec<ObservedPod>, class: StatusClass) -> (r: usize)
    ensures
        r == status_count(pods@, class),
{
    let mut n: usize = 0;
    let mut i: usize = 0;
    while i < pods.len()
        invariant
            i <= pods@.len(),
            n == status_count(pods@.take(i as int), class),
        decreases pods@.len() - i,
    {
        proof {
            assert(pods@.take(i as int + 1).drop_last() =~= pods@.take(i as int));
            assert(pods@.take(i as int + 1).last() == pods@[i as int]);
            lemma_status_count_bound(pods@.take(i as int), class);
        }
        let s = pods[i].status;
        let hit = match class {
            StatusClass::Running => s == PodStatus::Running,
            StatusClass::Stopped => s == PodStatus::Stopped || s == PodStatus::Exited,
            StatusClass::Error => s == PodStatus::Unknown,
            StatusClass::Other => s == PodStatus::Starting || s == PodStatus::Creating,
        };
        if hit {
            n = n + 1;
        }
        i = i + 1;
    }
    assert(pods@.take(i as int) =~= pods@);
    n
}

impl ProjectStatus {
    /// The status summary of a project's observed pods: running pods;
    /// stopped or exited ones; those in an unknown state; the rest.
    pub fn from_pods(project: &str, environment: &str, pods: Vec<ObservedPod>) -> (r: Self)
        ensures
            r.project@ == project@,
            r.environment@ == environment@,
            r.total_pods == pods@.len(),
            r.running == status_count(pods@, StatusClass::Running),
            r.stopped == status_count(pods@, StatusClass::Stopped),
            r.error == status_count(pods@, StatusClass::Error),
            r.other == status_count(pods@, StatusClass::Other),
            r.pods == pods,
    {
        let running = count_status(&pods, StatusClass::Running);
        let stopped = count_status(&pods, StatusClass::Stopped);
        let error = count_status(&pods, StatusClass::Error);
        let other = count_status(&pods, StatusClass::Other);
        ProjectStatus {
            project: String::from_str(project),
            environment: String::from_str(environment),
            total_pods: pods.len(),
            running,
            stopped,
            error,
            other,
            pods,
        }
    }

    /// Whether there is at least one pod and every pod is running.
    pub fn is_healthy(&self) -> (r: bool)
        ensures
            r == (self.total_pods > 0 && self.running == self.total_pods),
    {
        self.total_pods > 0 && self.running == self.total_pods
    }

    /// Whether any pod is in an unknown state.
    pub fn has_errors(&self) -> (r: bool)
        ensures
            r == (self.error > 0),
    {
        self.error > 0
    }
}

impl ObservedPod {
    /// A pod as the provider reports it, with project, environment,
    /// document name and specification digest read from its tags under the
    /// tag contract's keys.
    pub fn from_provider(
        id: String,
        name: String,
        status: PodStatus,
        gpu_type: Option<String>,
        gpu_count: u32,
        image: String,
        endpoints: Vec<(u16, String)>,
        tags: Vec<(String, String)>,
    ) -> (r: Self)
        ensures
            r.id == id,
            r.name == name,
            r.status == status,
            r.gpu_type == gpu_type,
            r.gpu_count == gpu_count,
            r.image == image,
            r.endpoints == endpoints,
            r.tags == tags,
            opt_view(r.project) == first_value(pairs_view(tags@), TAG_PROJECT@),
            opt_view(r.environment) == first_value(pairs_view(tags@), TAG_ENV@),
            opt_view(r.pod_name) == first_value(pairs_view(tags@), TAG_POD@),
            opt_view(r.spec_hash) == first_value(pairs_view(tags@), TAG_SPEC_HASH@),
    {
        let project = tag_value(&tags, TAG_PROJECT);
        let environment = tag_value(&tags, TAG_ENV);
        let pod_name = tag_value(&tags, TAG_POD);
        let spec_hash = tag_value(&tags, TAG_SPEC_HASH);
        ObservedPod { id, name, project, environment, pod_name, spec_hash, status, gpu_type, gpu_count, image, endpoints, tags }
    }

    /// Whether the pod is running.
    pub fn is_running(&self) -> (r: bool)
        ensures
            r == (self.status == PodStatus::Running),
    {
        self.status == PodStatus::Running
    }

    /// Whether the pod's tags name this project and environment.
    pub fn belongs_to(&self, project: &str, environment: &str) -> (r: bool)
        ensures
            r == ((self.project matches Some(p) && p@ == project@) && (self.environment matches Some(e) && e@ == environment@)),
    {
        match (&self.project, &self.environment) {
            (Some(p), Some(e)) => str_eq(p.as_str(), project) && str_eq(e.as_str(), environment),
            _ => false,
        }
    }

    /// Whether the pod carries both a project and an environment tag.
    pub fn is_managed(&self) -> (r: bool)
        ensures
            r == (self.project is Some && self.environment is Some),
    {
        self.project.is_some() && self.environment.is_some()
    }

    /// Project, environment and document name joined by hyphens when all
    /// three tags are present; the provider-side name otherwise.
    pub fn full_name(&self) -> (r: String)
        ensures
            r@ == match (self.project, self.environment, self.pod_name) {
                (Some(p), Some(e), Some(n)) => p@ + seq!['-'] + e@ + seq!['-'] + n@,
                _ => self.name@,
            },
    {
        proof {
            reveal_strlit("-");
        }
        match (&self.project, &self.environment, &self.pod_name) {
            (Some(p), Some(e), Some(n)) => {
                let r = p.clone().concat("-").concat(e.as_str()).concat("-").concat(n.as_str());
                assert(r@ =~= p@ + seq!['-'] + e@ + seq!['-'] + n@);
                r
            },
            _ => self.name.clone(),
        }
    }
}

} // verus!

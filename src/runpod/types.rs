//! Request and response shapes of the provider's API.

use vstd::prelude::*;
use vstd::string::*;

use crate::bytes::str_eq;

verus! {

/// Machine information of a pod.
#[derive(Debug, Clone)]
pub struct PodMachine {
    /// GPU type identifier.
    pub gpu_type_id: Option<String>,
}

/// A port of a running pod.
#[derive(Debug, Clone)]
pub struct PodPort {
    /// Address.
    pub ip: String,
    /// Port inside the pod.
    pub private_port: u16,
    /// Public port, if exposed.
    pub public_port: Option<u16>,
    /// Port type.
    pub port_type: Option<String>,
}

/// An environment variable of a pod.
#[derive(Debug, Clone)]
pub struct PodEnvVar {
    /// Name.
    pub key: String,
    /// Value.
    pub value: String,
}

/// Pod status as the provider reports it.
#[derive(Debug, Clone, Copy, PartialEq, Eq, Structural)]
pub enum PodStatus {
    /// Running.
    Running,
    /// Starting.
    Starting,
    /// Exited.
    Exited,
    /// Stopped.
    Stopped,
    /// Being created.
    Creating,
    /// Not known.
    Unknown,
}

/// A request to create a pod.
#[derive(Debug, Clone)]
pub struct CreatePodRequest {
    /// "SECURE" or "COMMUNITY".
    pub cloud_type: String,
    /// GPU type identifier.
    pub gpu_type_id: String,
    /// Number of GPUs.
    pub gpu_count: u32,
    /// Pod name.
    pub name: String,
    /// Container image.
    pub image_name: String,
    /// Volume size in GB.
    pub volume_in_gb: u32,
    /// Container disk size in GB.
    pub container_disk_in_gb: u32,
    /// Volume mount path.
    pub volume_mount_path: Option<String>,
    /// Ports to expose, such as "8000/http,22/tcp".
    pub ports: String,
    /// Environment variables.
    pub env: Vec<PodEnvVar>,
    /// Container arguments.
    pub docker_args: Option<String>,
    /// Preferred data center.
    pub data_center_id: Option<String>,
    /// Minimum vCPU count.
    pub min_vcpu_count: Option<u32>,
    /// Minimum memory in GB.
    pub min_memory_in_gb: Option<u32>,
    /// Network volume identifier.
    pub network_volume_id: Option<String>,
    /// Custom tags, as key/value pairs.
    pub custom_tags: Option<Vec<(String, String)>>,
}

/// A request to change a pod.
#[derive(Debug, Clone)]
pub struct UpdatePodRequest {
    /// Pod identifier.
    pub pod_id: String,
    /// New image.
    pub image_name: Option<String>,
    /// New environment variables.
    pub env: Option<Vec<PodEnvVar>>,
}

/// A GPU type the provider offers (prices are left out).
#[derive(Debug, Clone)]
pub struct GpuType {
    /// Identifier.
    pub id: String,
    /// Display name, such as "NVIDIA A40".
    pub display_name: String,
    /// Memory in GB.
    pub memory_in_gb: u32,
    /// Whether the secure cloud offers it.
    pub secure_cloud: bool,
    /// Whether the community cloud offers it.
    pub community_cloud: bool,
}

/// A public endpoint of a pod.
#[derive(Debug, Clone)]
pub struct PodEndpoint {
    /// Port inside the pod.
    pub port: u16,
    /// URL that reaches it.
    pub url: String,
    /// Protocol.
    pub protocol: String,
}

/// View of environment variables as key/value pairs.
pub open spec fn env_view(env: Seq<PodEnvVar>) -> Seq<(Seq<char>, Seq<char>)> {
    env.map_values(|e: PodEnvVar| (e.key@, e.value@))
}

/// View of key/value pairs.
pub open spec fn pairs_view(pairs: Seq<(String, String)>) -> Seq<(Seq<char>, Seq<char>)> {
    pairs.map_values(|e: (String, String)| (e.0@, e.1@))
}

impl CreatePodRequest {
    /// A request for one GPU in the secure cloud, with 20 GB of volume and
    /// container disk, port "8000/http", and nothing else set.
    pub fn new(name: &str, gpu_type_id: &str, image: &str) -> (r: Self)
        ensures
            r.cloud_type@ == seq!['S', 'E', 'C', 'U', 'R', 'E'],
            r.gpu_type_id@ == gpu_type_id@,
            r.gpu_count == 1,
            r.name@ == name@,
            r.image_name@ == image@,
            r.volume_in_gb == 20,
            r.container_disk_in_gb == 20,
            r.volume_mount_path is None,
            r.ports@ == seq!['8', '0', '0', '0', '/', 'h', 't', 't', 'p'],
            r.env@.len() == 0,
            r.docker_args is None,
            r.data_center_id is None,
            r.min_vcpu_count is None,
            r.min_memory_in_gb is None,
            r.network_volume_id is None,
            r.custom_tags is None,
    {
        proof {
            reveal_strlit("SECURE");
            reveal_strlit("8000/http");
        }
        CreatePodRequest {
            cloud_type: String::from_str("SECURE"),
            gpu_type_id: String::from_str(gpu_type_id),
            gpu_count: 1,
            name: String::from_str(name),
            image_name: String::from_str(image),
            volume_in_gb: 20,
            container_disk_in_gb: 20,
            volume_mount_path: None,
            ports: String::from_str("8000/http"),
            env: Vec::new(),
            docker_args: None,
            data_center_id: None,
            min_vcpu_count: None,
            min_memory_in_gb: None,
            network_volume_id: None,
            custom_tags: None,
        }
    }

    /// Sets the cloud type.
    pub fn with_cloud_type(self, cloud_type: &str) -> (r: Self)
        ensures
            r == (CreatePodRequest { cloud_type: r.cloud_type, ..self }),
            r.cloud_type@ == cloud_type@,
    {
        CreatePodRequest { cloud_type: String::from_str(cloud_type), ..self }
    }

    /// Sets the number of GPUs.
    pub fn with_gpu_count(self, count: u32) -> (r: Self)
        ensures
            r == (CreatePodRequest { gpu_count: count, ..self }),
    {
        CreatePodRequest { gpu_count: count, ..self }
    }

    /// Sets the volume size.
    pub fn with_volume_gb(self, size_gb: u32) -> (r: Self)
        ensures
            r == (CreatePodRequest { volume_in_gb: size_gb, ..self }),
    {
        CreatePodRequest { volume_in_gb: size_gb, ..self }
    }

    /// Sets the container disk size.
    pub fn with_container_disk_gb(self, size_gb: u32) -> (r: Self)
        ensures
            r == (CreatePodRequest { container_disk_in_gb: size_gb, ..self }),
    {
        CreatePodRequest { container_disk_in_gb: size_gb, ..self }
    }

    /// Sets the volume mount path.
    pub fn with_mount_path(self, path: &str) -> (r: Self)
        ensures
            r == (CreatePodRequest { volume_mount_path: r.volume_mount_path, ..self }),
            r.volume_mount_path matches Some(p) && p@ == path@,
    {
        CreatePodRequest { volume_mount_path: Some(String::from_str(path)), ..self }
    }

    /// Sets the ports to expose.
    pub fn with_ports(self, ports: &str) -> (r: Self)
        ensures
            r == (CreatePodRequest { ports: r.ports, ..self }),
            r.ports@ == ports@,
    {
        CreatePodRequest { ports: String::from_str(ports), ..self }
    }

    /// Adds an environment variable at the end.
    pub fn with_env(self, key: &str, value: &str) -> (r: Self)
        ensures
            r == (CreatePodRequest { env: r.env, ..self }),
            env_view(r.env@) == env_view(self.env@).push((key@, value@)),
    {
        let mut s = self;
        let ghost before = s.env@;
        s.env.push(PodEnvVar { key: String::from_str(key), value: String::from_str(value) });
        assert(env_view(s.env@) =~= env_view(before).push((key@, value@)));
        s
    }

    /// Replaces the environment variables by the given pairs, in order.
    pub fn with_env_map(self, env: Vec<(String, String)>) -> (r: Self)
        ensures
            r == (CreatePodRequest { env: r.env, ..self }),
            env_view(r.env@) == pairs_view(env@),
    {
        let mut out: Vec<PodEnvVar> = Vec::new();
        let mut input = env;
        let ghost orig = input@;
        let ghost k: int = 0;
        assert(orig.skip(0) =~= orig);
        while input.len() > 0
            invariant
                0 <= k <= orig.len(),
                input@ == orig.skip(k),
                env_view(out@) == pairs_view(orig.take(k)),
            decreases input@.len(),
        {
            let ghost pin = input@;
            let item = input.remove(0);
            let ghost iv = item;
            let (key, value) = item;
            let ghost prev = out@;
            out.push(PodEnvVar { key, value });
            proof {
                assert(env_view(out@) =~= env_view(prev).push((iv.0@, iv.1@)));
                assert(iv == pin[0]);
                assert(orig.skip(k)[0] == orig[k]);
                assert(orig.take(k + 1) =~= orig.take(k).push(orig[k]));
                assert(env_view(out@) =~= pairs_view(orig.take(k + 1)));
                assert(orig.skip(k + 1) =~= orig.skip(k).drop_first());
                k = k + 1;
            }
        }
        assert(orig.take(k) =~= orig);
        CreatePodRequest { env: out, ..self }
    }

    /// Sets the custom tags.
    pub fn with_tags(self, tags: Vec<(String, String)>) -> (r: Self)
        ensures
            r == (CreatePodRequest { custom_tags: Some(tags), ..self }),
    {
        CreatePodRequest { custom_tags: Some(tags), ..self }
    }

    /// Sets one custom tag, replacing a tag of the same key.
    pub fn with_tag(self, key: &str, value: &str) -> (r: Self)
        ensures
            r == (CreatePodRequest { custom_tags: r.custom_tags, ..self }),
            r.custom_tags is Some,
            pairs_view(r.custom_tags->0@) == set_pair(
                match self.custom_tags {
                    Some(t) => pairs_view(t@),
                    None => Seq::empty(),
                },
                key@,
                value@,
            ),
    {
        let mut tags = match self.custom_tags {
            Some(t) => t,
            None => Vec::new(),
        };
        set_tag_value(&mut tags, key, value);
        CreatePodRequest { custom_tags: Some(tags), ..self }
    }
}

/// Key/value pairs after setting `key` to `value`: the value of the first
/// pair with that key is replaced, or the pair is added at the end.
pub open spec fn set_pair(s: Seq<(Seq<char>, Seq<char>)>, key: Seq<char>, value: Seq<char>) -> Seq<(Seq<char>, Seq<char>)> {
    if exists|i: int| 0 <= i < s.len() && s[i].0 == key {
        let i = choose|i: int| 0 <= i < s.len() && s[i].0 == key && forall|j: int| 0 <= j < i ==> s[j].0 != key;
        s.update(i, (key, value))
    } else {
        s.push((key, value))
    }
}

/// Sets `key` to `value` in a list of key/value pairs.
pub fn set_tag_value(tags: &mut Vec<(String, String)>, key: &str, value: &str)
    ensures
        pairs_view(final(tags)@) == set_pair(pairs_view(old(tags)@), key@, value@),
{
    let ghost s = pairs_view(tags@);
    let mut i: usize = 0;
    while i < tags.len()
        invariant
            i <= tags@.len(),
            s == pairs_view(tags@),
            s == pairs_view(old(tags)@),
            forall|j: int| 0 <= j < i ==> s[j].0 != key@,
        decreases tags@.len() - i,
    {
        if str_eq(tags[i].0.as_str(), key) {
            proof {
                assert(s[i as int].0 == key@);
                assert(0 <= i < s.len() && s[i as int].0 == key@ && forall|j: int| 0 <= j < i ==> s[j].0 != key@);
                let c = choose|c: int| 0 <= c < s.len() && s[c].0 == key@ && forall|j: int| 0 <= j < c ==> s[j].0 != key@;
                if c < i {
                } else if c > i {
                    assert(s[i as int].0 != key@);
                }
                assert(c == i);
                assert(set_pair(s, key@, value@) == s.update(i as int, (key@, value@)));
            }
            tags.set(i, (String::from_str(key), String::from_str(value)));
            assert(pairs_view(tags@) =~= s.update(i as int, (key@, value@)));
            return;
        }
        i = i + 1;
    }
    tags.push((String::from_str(key), String::from_str(value)));
    assert(pairs_view(tags@) =~= s.push((key@, value@)));
}

} // verus!

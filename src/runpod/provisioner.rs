//! Building the provider's creation request from a desired pod.

use vstd::prelude::*;
use vstd::string::*;

use crate::config::spec::{CloudType, GpuConfig, PodConfig, PortConfig, PortProtocol, ProjectConfig, VolumeConfig};
use crate::digest::{decimal, u64_text};
use crate::runpod::observer::{TAG_ENV, TAG_POD, TAG_PROJECT, TAG_SPEC_HASH};
use crate::bytes::str_eq;
use crate::runpod::types::{pairs_view, set_pair, set_tag_value, CreatePodRequest, GpuType};

verus! {

/// Volume size used when no volume gives one, in GB.
pub const DEFAULT_VOLUME_GB: u32 = 50;

/// Container disk size, in GB.
pub const DEFAULT_CONTAINER_DISK_GB: u32 = 20;

/// The protocol word the provider understands: HTTPS is served as HTTP.
pub open spec fn provider_protocol(p: PortProtocol) -> Seq<char> {
    match p {
        PortProtocol::Tcp => "tcp"@,
        PortProtocol::Http | PortProtocol::Https => "http"@,
        PortProtocol::Udp => "udp"@,
    }
}

/// One port in the provider's notation.
pub open spec fn provider_port_text(p: PortConfig) -> Seq<char> {
    decimal(p.port as nat) + "/"@ + provider_protocol(p.protocol)
}

/// The ports in the provider's notation, joined by commas.
pub open spec fn ports_joined(ports: Seq<PortConfig>) -> Seq<char>
    decreases ports.len(),
{
    if ports.len() == 0 {
        Seq::empty()
    } else if ports.len() == 1 {
        provider_port_text(ports[0])
    } else {
        ports_joined(ports.drop_last()) + ","@ + provider_port_text(ports.last())
    }
}

/// The ports field of a creation request: "8000/http" when none is
/// declared.
pub open spec fn ports_field(ports: Seq<PortConfig>) -> Seq<char> {
    if ports.len() == 0 {
        "8000/http"@
    } else {
        ports_joined(ports)
    }
}

/// The largest declared volume size, zero when none is declared.
pub open spec fn max_volume_size(v: Seq<VolumeConfig>) -> nat
    decreases v.len(),
{
    if v.len() == 0 {
        0
    } else {
        let m = max_volume_size(v.drop_last());
        match v.last().size_gb {
            Some(s) => if s as nat > m {
                s as nat
            } else {
                m
            },
            None => m,
        }
    }
}

/// The tags a created pod carries: its own, with the project, environment,
/// document name and specification digest set under the tag contract's
/// keys.
pub open spec fn pod_tags(pod: PodConfig, project: ProjectConfig, spec_hash: Seq<char>) -> Seq<(Seq<char>, Seq<char>)> {
    let t0 = pairs_view(pod.tags@);
    let t1 = set_pair(t0, TAG_PROJECT@, project.name@);
    let t2 = set_pair(t1, TAG_ENV@, project.environment@);
    let t3 = set_pair(t2, TAG_POD@, pod.name@);
    set_pair(t3, TAG_SPEC_HASH@, spec_hash)
}

/// The ports field of a creation request.
pub fn build_ports_string(ports: &Vec<PortConfig>) -> (r: String)
    ensures
        r@ == ports_field(ports@),
{
    if ports.len() == 0 {
        return String::from_str("8000/http");
    }
    let mut out = String::new();
    let mut i: usize = 0;
    while i < ports.len()
        invariant
            i <= ports@.len(),
            out@ == ports_joined(ports@.take(i as int)),
        decreases ports@.len() - i,
    {
        proof {
            assert(ports@.take(i as int + 1).drop_last() =~= ports@.take(i as int));
            assert(ports@.take(i as int + 1).last() == ports@[i as int]);
        }
        let p = &ports[i];
        let word = match p.protocol {
            PortProtocol::Tcp => "tcp",
            PortProtocol::Http | PortProtocol::Https => "http",
            PortProtocol::Udp => "udp",
        };
        let item = u64_text(p.port as u64).concat("/").concat(word);
        if i > 0 {
            out = out.concat(",");
        }
        out = out.concat(item.as_str());
        i = i + 1;
        proof {
            if i == 1 {
                assert(ports@.take(1)[0] == ports@[0]);
            }
        }
    }
    assert(ports@.take(i as int) =~= ports@);
    out
}

/// The tags a created pod carries.
pub fn build_tags(pod: &PodConfig, project: &ProjectConfig, spec_hash: &str) -> (r: Vec<(String, String)>)
    ensures
        pairs_view(r@) == pod_tags(*pod, *project, spec_hash@),
{
    let mut tags: Vec<(String, String)> = Vec::new();
    let mut i: usize = 0;
    while i < pod.tags.len()
        invariant
            i <= pod.tags@.len(),
            pairs_view(tags@) == pairs_view(pod.tags@.take(i as int)),
        decreases pod.tags@.len() - i,
    {
        let ghost before = tags@;
        tags.push((pod.tags[i].0.clone(), pod.tags[i].1.clone()));
        proof {
            assert(pairs_view(tags@) =~= pairs_view(before).push((pod.tags@[i as int].0@, pod.tags@[i as int].1@)));
            assert(pairs_view(pod.tags@.take(i as int + 1)) =~= pairs_view(pod.tags@.take(i as int)).push((pod.tags@[i as int].0@, pod.tags@[i as int].1@)));
        }
        i = i + 1;
    }
    assert(pod.tags@.take(i as int) =~= pod.tags@);
    set_tag_value(&mut tags, TAG_PROJECT, project.name.as_str());
    set_tag_value(&mut tags, TAG_ENV, project.environment.as_str());
    set_tag_value(&mut tags, TAG_POD, pod.name.as_str());
    set_tag_value(&mut tags, TAG_SPEC_HASH, spec_hash);
    tags
}

/// The environment a created pod gets: its own variables, plus the
/// HuggingFace token under "HF_TOKEN" when one is given and the pod sets
/// no such variable.
pub fn build_env_vars(pod: &PodConfig, hf_token: Option<&str>) -> (r: Vec<(String, String)>)
    ensures
        pairs_view(r@) == match hf_token {
            Some(t) => if exists|j: int| 0 <= j < pod.runtime.env@.len() && #[trigger] pod.runtime.env@[j].0@ == "HF_TOKEN"@ {
                pairs_view(pod.runtime.env@)
            } else {
                pairs_view(pod.runtime.env@).push(("HF_TOKEN"@, t@))
            },
            None => pairs_view(pod.runtime.env@),
        },
{
    let mut env: Vec<(String, String)> = Vec::new();
    let mut has_token = false;
    let mut i: usize = 0;
    while i < pod.runtime.env.len()
        invariant
            i <= pod.runtime.env@.len(),
            pairs_view(env@) == pairs_view(pod.runtime.env@.take(i as int)),
            has_token == exists|j: int| 0 <= j < i && #[trigger] pod.runtime.env@[j].0@ == "HF_TOKEN"@,
        decreases pod.runtime.env@.len() - i,
    {
        let e = &pod.runtime.env[i];
        if str_eq(e.0.as_str(), "HF_TOKEN") {
            has_token = true;
        }
        let ghost before = env@;
        env.push((e.0.clone(), e.1.clone()));
        proof {
            assert(pairs_view(env@) =~= pairs_view(before).push((e.0@, e.1@)));
            assert(pairs_view(pod.runtime.env@.take(i as int + 1)) =~= pairs_view(pod.runtime.env@.take(i as int)).push((e.0@, e.1@)));
        }
        i = i + 1;
    }
    assert(pod.runtime.env@.take(i as int) =~= pod.runtime.env@);
    match hf_token {
        Some(t) => {
            if !has_token {
                let ghost before = env@;
                env.push((String::from_str("HF_TOKEN"), String::from_str(t)));
                assert(pairs_view(env@) =~= pairs_view(before).push(("HF_TOKEN"@, t@)));
            }
        },
        None => {},
    }
    env
}

/// The largest declared volume size, zero when none is declared.
fn largest_volume(volumes: &Vec<VolumeConfig>) -> (r: u32)
    ensures
        r as nat == max_volume_size(volumes@),
{
    let mut m: u32 = 0;
    let mut i: usize = 0;
    while i < volumes.len()
        invariant
            i <= volumes@.len(),
            m as nat == max_volume_size(volumes@.take(i as int)),
        decreases volumes@.len() - i,
    {
        proof {
            assert(volumes@.take(i as int + 1).drop_last() =~= volumes@.take(i as int));
        }
        match volumes[i].size_gb {
            Some(s) => {
                if s > m {
                    m = s;
                }
            },
            None => {},
        }
        i = i + 1;
    }
    assert(volumes@.take(i as int) =~= volumes@);
    m
}

/// The creation request for a desired pod: named after project,
/// environment and pod; the pod's GPU count, image, ports, environment and
/// tags; the largest declared volume size, or `DEFAULT_VOLUME_GB`; the
/// first volume's mount path; `DEFAULT_CONTAINER_DISK_GB` of disk.
pub fn build_create_request(
    pod: &PodConfig,
    project: &ProjectConfig,
    gpu_type_id: &str,
    spec_hash: &str,
    hf_token: Option<&str>,
) -> (r: CreatePodRequest)
    ensures
        r.name@ == project.name@ + "-"@ + project.environment@ + "-"@ + pod.name@,
        r.cloud_type@ == match project.cloud_type {
            CloudType::Secure => "SECURE"@,
            CloudType::Community => "COMMUNITY"@,
        },
        r.gpu_type_id@ == gpu_type_id@,
        r.gpu_count == pod.gpu.count,
        r.image_name@ == pod.runtime.image@,
        r.volume_in_gb as nat == if max_volume_size(pod.volumes@) == 0 {
            DEFAULT_VOLUME_GB as nat
        } else {
            max_volume_size(pod.volumes@)
        },
        r.container_disk_in_gb == DEFAULT_CONTAINER_DISK_GB,
        match r.volume_mount_path {
            Some(m) => pod.volumes@.len() > 0 && m@ == pod.volumes@[0].mount@,
            None => pod.volumes@.len() == 0,
        },
        r.ports@ == ports_field(pod.ports@),
        r.custom_tags matches Some(t) && pairs_view(t@) == pod_tags(*pod, *project, spec_hash@),
{
    let full_name = pod.full_name(project);
    proof {
        reveal_strlit("-");
        assert(full_name@ =~= project.name@ + "-"@ + project.environment@ + "-"@ + pod.name@);
    }
    let ports = build_ports_string(&pod.ports);
    let largest = largest_volume(&pod.volumes);
    let volume_gb = if largest == 0 { DEFAULT_VOLUME_GB } else { largest };
    let env = build_env_vars(pod, hf_token);
    let tags = build_tags(pod, project, spec_hash);
    let cloud_type = match project.cloud_type {
        CloudType::Secure => "SECURE",
        CloudType::Community => "COMMUNITY",
    };
    let request = CreatePodRequest::new(full_name.as_str(), gpu_type_id, pod.runtime.image.as_str())
        .with_cloud_type(cloud_type)
        .with_gpu_count(pod.gpu.count)
        .with_volume_gb(volume_gb)
        .with_container_disk_gb(DEFAULT_CONTAINER_DISK_GB)
        .with_ports(ports.as_str())
        .with_env_map(env)
        .with_tags(tags);
    if pod.volumes.len() > 0 {
        request.with_mount_path(pod.volumes[0].mount.as_str())
    } else {
        request
    }
}

/// Whether the offer is the GPU type named `name`, by identifier or
/// display name.
pub open spec fn offer_named(o: GpuType, name: Seq<char>) -> bool {
    o.id@ == name || o.display_name@ == name
}

/// Whether the offer is available in the cloud type.
pub open spec fn offered_in(o: GpuType, cloud: CloudType) -> bool {
    match cloud {
        CloudType::Secure => o.secure_cloud,
        CloudType::Community => o.community_cloud,
    }
}

/// The identifier of the first offer named `name`, if it is available in
/// the cloud type.
pub open spec fn resolve_one(offers: Seq<GpuType>, name: Seq<char>, cloud: CloudType) -> Option<Seq<char>> {
    if exists|k: int| 0 <= k < offers.len() && offer_named(#[trigger] offers[k], name) {
        let k = choose|k: int| 0 <= k < offers.len() && offer_named(#[trigger] offers[k], name) && forall|j: int| 0 <= j < k ==> !offer_named(#[trigger] offers[j], name);
        if offered_in(offers[k], cloud) {
            Some(offers[k].id@)
        } else {
            None
        }
    } else {
        None
    }
}

/// The GPU types to try, in order: the requested one, then its fallbacks
/// when fallbacks are allowed.
pub open spec fn candidates(gpu: GpuConfig, allow_fallback: bool) -> Seq<Seq<char>> {
    seq![gpu.gpu_type@] + if allow_fallback {
        gpu.fallback@.map_values(|f: String| f@)
    } else {
        Seq::empty()
    }
}

/// The identifier of the first candidate that resolves to an available
/// offer.
pub open spec fn first_available(names: Seq<Seq<char>>, offers: Seq<GpuType>, cloud: CloudType) -> Option<Seq<char>>
    decreases names.len(),
{
    if names.len() == 0 {
        None
    } else {
        match resolve_one(offers, names[0], cloud) {
            Some(id) => Some(id),
            None => first_available(names.drop_first(), offers, cloud),
        }
    }
}

/// Resolves one GPU type name against the offers.
fn resolve_gpu_name(offers: &Vec<GpuType>, name: &str, cloud: CloudType) -> (r: Option<String>)
    ensures
        match r {
            Some(id) => resolve_one(offers@, name@, cloud) == Some(id@),
            None => resolve_one(offers@, name@, cloud) is None,
        },
{
    let mut k: usize = 0;
    while k < offers.len()
        invariant
            k <= offers@.len(),
            forall|j: int| 0 <= j < k ==> !offer_named(#[trigger] offers@[j], name@),
        decreases offers@.len() - k,
    {
        let o = &offers[k];
        if str_eq(o.id.as_str(), name) || str_eq(o.display_name.as_str(), name) {
            proof {
                let c = choose|c: int| 0 <= c < offers@.len() && offer_named(#[trigger] offers@[c], name@) && forall|j: int| 0 <= j < c ==> !offer_named(#[trigger] offers@[j], name@);
                if c < k {
                } else if c > k {
                    assert(!offer_named(offers@[k as int], name@));
                }
                assert(c == k);
            }
            let available = match cloud {
                CloudType::Secure => o.secure_cloud,
                CloudType::Community => o.community_cloud,
            };
            return if available { Some(o.id.clone()) } else { None };
        }
        k = k + 1;
    }
    None
}

/// The GPU type identifier to request for a pod: the requested type when
/// the cloud type offers it, else the first fallback it offers when
/// fallbacks are allowed; none when nothing fits.
pub fn select_gpu_type(gpu: &GpuConfig, allow_fallback: bool, cloud: CloudType, offers: &Vec<GpuType>) -> (r: Option<String>)
    ensures
        match r {
            Some(id) => first_available(candidates(*gpu, allow_fallback), offers@, cloud) == Some(id@),
            None => first_available(candidates(*gpu, allow_fallback), offers@, cloud) is None,
        },
{
    let ghost names = candidates(*gpu, allow_fallback);
    let ghost rest = gpu.fallback@.map_values(|f: String| f@);
    assert(names.drop_first() =~= if allow_fallback { rest } else { Seq::empty() });
    assert(names[0] == gpu.gpu_type@);
    assert(names.len() > 0);
    match resolve_gpu_name(offers, gpu.gpu_type.as_str(), cloud) {
        Some(id) => {
            return Some(id);
        },
        None => {},
    }
    assert(first_available(names, offers@, cloud) == first_available(names.drop_first(), offers@, cloud));
    if !allow_fallback {
        assert(first_available(Seq::<Seq<char>>::empty(), offers@, cloud) is None);
        return None;
    }
    assert(rest.skip(0) =~= rest);
    let mut i: usize = 0;
    while i < gpu.fallback.len()
        invariant
            i <= gpu.fallback@.len(),
            rest == gpu.fallback@.map_values(|f: String| f@),
            names == candidates(*gpu, allow_fallback),
            first_available(names, offers@, cloud) == first_available(rest.skip(i as int), offers@, cloud),
        decreases gpu.fallback@.len() - i,
    {
        proof {
            assert(rest.skip(i as int)[0] == gpu.fallback@[i as int]@);
            assert(rest.skip(i as int).drop_first() =~= rest.skip(i as int + 1));
        }
        match resolve_gpu_name(offers, gpu.fallback[i].as_str(), cloud) {
            Some(id) => {
                assert(rest.skip(i as int).len() > 0);
                assert(first_available(rest.skip(i as int), offers@, cloud) == Some(id@));
                return Some(id);
            },
            None => {},
        }
        i = i + 1;
    }
    assert(rest.skip(i as int).len() == 0);
    None
}

} // verus!

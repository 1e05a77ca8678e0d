//! The types of the deployment document.
//!
//! Associative collections (environment variables, tags) are held as lists
//! of key/value pairs; their order carries no meaning.

use vstd::prelude::*;
use vstd::string::*;

use crate::digest::{decimal, u64_text};
use crate::bytes::str_eq;

verus! {

/// The root of a deployment document.
#[derive(Debug, Clone)]
pub struct DeployConfig {
    /// Project-level settings.
    pub project: ProjectConfig,
    /// Where the deployment state is kept.
    pub state: StateConfig,
    /// The pods, in declared order.
    pub pods: Vec<PodConfig>,
    /// Resource limits, if any.
    pub guardrails: Option<GuardrailsConfig>,
}

/// Project-level settings.
#[derive(Debug, Clone)]
pub struct ProjectConfig {
    /// Unique name of the project.
    pub name: String,
    /// Environment, such as "dev" or "prod".
    pub environment: String,
    /// Preferred region.
    pub region: Option<String>,
    /// Cloud type.
    pub cloud_type: CloudType,
    /// Compute type.
    pub compute_type: ComputeType,
}

/// Where the deployment state is kept.
#[derive(Debug, Clone)]
pub struct StateConfig {
    /// Backend kind.
    pub backend: StateBackend,
    /// Object-store bucket (object-store backend).
    pub bucket: Option<String>,
    /// Object-store key prefix.
    pub prefix: Option<String>,
    /// Object-store region.
    pub region: Option<String>,
    /// State file path (local backend).
    pub path: Option<String>,
}

/// State backend kinds.
#[derive(Debug, Clone, Copy, PartialEq, Eq, Structural)]
pub enum StateBackend {
    /// A file on the local disk.
    Local,
    /// An object in an S3 bucket.
    S3,
}

/// Cloud kinds of the provider.
#[derive(Debug, Clone, Copy, PartialEq, Eq, Structural)]
pub enum CloudType {
    /// Dedicated hardware.
    Secure,
    /// Shared hardware.
    Community,
}

/// Compute kinds.
#[derive(Debug, Clone, Copy, PartialEq, Eq, Structural)]
pub enum ComputeType {
    /// GPU compute.
    Gpu,
    /// CPU-only compute.
    Cpu,
}

/// One pod of the document.
#[derive(Debug, Clone)]
pub struct PodConfig {
    /// Name, unique within the project.
    pub name: String,
    /// GPU request.
    pub gpu: GpuConfig,
    /// Exposed ports.
    pub ports: Vec<PortConfig>,
    /// Volume mounts.
    pub volumes: Vec<VolumeConfig>,
    /// Container runtime.
    pub runtime: RuntimeConfig,
    /// Models loaded on the pod.
    pub models: Vec<ModelConfig>,
    /// Health check, if any.
    pub health_check: Option<HealthCheckConfig>,
    /// Pod tags, as key/value pairs.
    pub tags: Vec<(String, String)>,
}

/// GPU request of a pod.
#[derive(Debug, Clone)]
pub struct GpuConfig {
    /// GPU type, such as "NVIDIA A40".
    pub gpu_type: String,
    /// Number of GPUs.
    pub count: u32,
    /// Minimum VRAM in GB.
    pub min_vram_gb: Option<u32>,
    /// GPU types to try, in order, when the first is unavailable.
    pub fallback: Vec<String>,
}

/// One exposed port.
#[derive(Debug, Clone)]
pub struct PortConfig {
    /// Port number.
    pub port: u16,
    /// Protocol.
    pub protocol: PortProtocol,
    /// Service name, for documentation.
    pub name: Option<String>,
}

/// Port protocols.
#[derive(Debug, Clone, Copy, PartialEq, Eq, Structural)]
pub enum PortProtocol {
    /// TCP.
    Tcp,
    /// HTTP (over TCP).
    Http,
    /// HTTPS (over TCP).
    Https,
    /// UDP.
    Udp,
}

/// One volume mount.
#[derive(Debug, Clone)]
pub struct VolumeConfig {
    /// Volume name.
    pub name: String,
    /// Mount path in the container.
    pub mount: String,
    /// Whether the volume outlives the pod.
    pub persistent: bool,
    /// Size in GB.
    pub size_gb: Option<u32>,
}

/// Container runtime of a pod.
#[derive(Debug, Clone)]
pub struct RuntimeConfig {
    /// Container image.
    pub image: String,
    /// Environment variables, as key/value pairs.
    pub env: Vec<(String, String)>,
    /// Command override.
    pub command: Option<Vec<String>>,
    /// Arguments.
    pub args: Option<Vec<String>>,
}

/// One model to load on a pod.
#[derive(Debug, Clone)]
pub struct ModelConfig {
    /// Identifier, unique within the pod.
    pub id: String,
    /// Where the model comes from.
    pub provider: ModelProvider,
    /// Repository (hub provider).
    pub repo: Option<String>,
    /// Loading settings.
    pub load: Option<LoadConfig>,
    /// Components (bundle provider).
    pub components: Option<Vec<String>>,
}

/// Model sources.
#[derive(Debug, Clone, Copy, PartialEq, Eq, Structural)]
pub enum ModelProvider {
    /// The HuggingFace hub.
    Huggingface,
    /// A prepared bundle.
    Bundle,
    /// A custom or local model.
    Custom,
}

/// How a model is loaded.
#[derive(Debug, Clone)]
pub struct LoadConfig {
    /// Inference engine.
    pub engine: String,
    /// Quantization method.
    pub quant: Option<String>,
    /// Maximum sequence length.
    pub max_seq_len: Option<u32>,
    /// Engine-specific options, as key and JSON text.
    pub options: Vec<(String, String)>,
}

/// Health check of a pod.
#[derive(Debug, Clone)]
pub struct HealthCheckConfig {
    /// HTTP path to probe.
    pub endpoint: String,
    /// Port to probe.
    pub port: u16,
    /// Seconds between probes.
    pub interval_secs: u32,
    /// Seconds before a probe times out.
    pub timeout_secs: u32,
    /// Failures before the pod counts as unhealthy.
    pub failure_threshold: u32,
}

/// Resource limits of a deployment.
#[derive(Debug, Clone)]
pub struct GuardrailsConfig {
    /// Maximum hourly cost in USD, held as the IEEE-754 bit pattern of the
    /// `f64` value.
    pub max_hourly_cost_bits: Option<u64>,
    /// Maximum number of GPUs across all pods.
    pub max_gpus: Option<u32>,
    /// Hours after which pods are stopped.
    pub ttl_hours: Option<u32>,
    /// Whether fallback GPU types may be used.
    pub allow_gpu_fallback: bool,
}

/// Sum of the GPU counts of the pods.
pub open spec fn gpu_sum(pods: Seq<PodConfig>) -> nat
    decreases pods.len(),
{
    if pods.len() == 0 {
        0
    } else {
        gpu_sum(pods.drop_last()) + pods.last().gpu.count as nat
    }
}

/// Text of a port in the document's notation, such as "8000/http".
pub open spec fn port_text(port: u16, protocol: PortProtocol) -> Seq<char> {
    decimal(port as nat) + seq!['/'] + protocol_name(protocol)
}

/// Lowercase name of a protocol.
pub open spec fn protocol_name(p: PortProtocol) -> Seq<char> {
    match p {
        PortProtocol::Tcp => seq!['t', 'c', 'p'],
        PortProtocol::Http => seq!['h', 't', 't', 'p'],
        PortProtocol::Https => seq!['h', 't', 't', 'p', 's'],
        PortProtocol::Udp => seq!['u', 'd', 'p'],
    }
}

/// Whether the protocol is served over HTTP.
pub open spec fn is_http_protocol(p: PortProtocol) -> bool {
    p == PortProtocol::Http || p == PortProtocol::Https
}

/// The lowercase form of a text, as `str::to_lowercase` gives it.
pub uninterp spec fn lower_of(s: Seq<char>) -> Seq<char>;

/// Relies on `str::to_lowercase`: the Unicode lowercase form of the text,
/// which depends on the text alone.
#[verifier::external_body]
fn lowercase(s: &str) -> (r: String)
    ensures
        r@ == lower_of(s@),
{
    s.to_lowercase()
}

/// The protocol named by a lowercase name.
pub open spec fn protocol_of(s: Seq<char>) -> Option<PortProtocol> {
    if s == "tcp"@ {
        Some(PortProtocol::Tcp)
    } else if s == "http"@ {
        Some(PortProtocol::Http)
    } else if s == "https"@ {
        Some(PortProtocol::Https)
    } else if s == "udp"@ {
        Some(PortProtocol::Udp)
    } else {
        None
    }
}

/// The protocol named by a lowercase name, if it names one.
pub fn protocol_from_lowercase(s: &str) -> (r: Option<PortProtocol>)
    ensures
        r == protocol_of(s@),
{
    if str_eq(s, "tcp") {
        Some(PortProtocol::Tcp)
    } else if str_eq(s, "http") {
        Some(PortProtocol::Http)
    } else if str_eq(s, "https") {
        Some(PortProtocol::Https)
    } else if str_eq(s, "udp") {
        Some(PortProtocol::Udp)
    } else {
        None
    }
}

/// The text before and after the only '/' of `s`; none unless `s` holds
/// exactly one.
pub open spec fn slash_split(s: Seq<char>) -> Option<(Seq<char>, Seq<char>)> {
    if exists|i: int| 0 <= i < s.len() && s[i] == '/' && forall|j: int| 0 <= j < s.len() && j != i ==> #[trigger] s[j] != '/' {
        let i = choose|i: int| 0 <= i < s.len() && s[i] == '/' && forall|j: int| 0 <= j < s.len() && j != i ==> #[trigger] s[j] != '/';
        Some((s.subrange(0, i), s.subrange(i + 1, s.len() as int)))
    } else {
        None
    }
}

/// Value of a string of decimal digits.
pub open spec fn digits_value(d: Seq<char>) -> nat
    decreases d.len(),
{
    if d.len() == 0 {
        0
    } else {
        (digits_value(d.drop_last()) * 10 + (d.last() as u32) as int - 48) as nat
    }
}

/// Whether every character is a decimal digit.
pub open spec fn all_digits(d: Seq<char>) -> bool {
    forall|i: int| 0 <= i < d.len() ==> '0' <= #[trigger] d[i] && d[i] <= '9'
}

/// The text without one leading '+'.
pub open spec fn unsigned_digits(s: Seq<char>) -> Seq<char> {
    if s.len() > 0 && s[0] == '+' {
        s.drop_first()
    } else {
        s
    }
}

/// A `u16` in decimal, as `u16::from_str` reads it: an optional '+', then
/// one or more digits, with a value that fits.
pub open spec fn parse_u16_text(s: Seq<char>) -> Option<u16> {
    let d = unsigned_digits(s);
    if d.len() > 0 && all_digits(d) && digits_value(d) <= u16::MAX {
        Some(digits_value(d) as u16)
    } else {
        None
    }
}

/// A port in the document's notation "PORT/PROTOCOL", the protocol in any
/// case.
pub open spec fn port_parse(s: Seq<char>) -> Option<(u16, PortProtocol)> {
    match slash_split(s) {
        None => None,
        Some(parts) => match parse_u16_text(parts.0) {
            None => None,
            Some(n) => match protocol_of(lower_of(parts.1)) {
                None => None,
                Some(p) => Some((n, p)),
            },
        },
    }
}

/// Reads a `u16` as `u16::from_str` does.
pub fn parse_u16(s: &str) -> (r: Option<u16>)
    ensures
        r == parse_u16_text(s@),
{
    let n = s.unicode_len();
    let start: usize = if n > 0 && s.get_char(0) == '+' { 1 } else { 0 };
    let ghost d = unsigned_digits(s@);
    assert(d =~= s@.subrange(start as int, n as int));
    if start >= n {
        return None;
    }
    let mut value: u32 = 0;
    let mut i: usize = start;
    while i < n
        invariant
            start <= i <= n,
            n == s@.len(),
            d == s@.subrange(start as int, n as int),
            d == unsigned_digits(s@),
            all_digits(s@.subrange(start as int, i as int)),
            value == if digits_value(s@.subrange(start as int, i as int)) <= 65536 {
                digits_value(s@.subrange(start as int, i as int))
            } else {
                65536
            },
        decreases n - i,
    {
        let c = s.get_char(i);
        if !('0' <= c && c <= '9') {
            assert(d[(i - start) as int] == s@[i as int]);
            assert(!('0' <= d[(i - start) as int] && d[(i - start) as int] <= '9'));
            assert(!all_digits(d));
            assert(parse_u16_text(s@) is None);
            return None;
        }
        let ghost prev = s@.subrange(start as int, i as int);
        let ghost next = s@.subrange(start as int, i + 1);
        assert(next.drop_last() =~= prev);
        assert(next.last() == c);
        let digit: u32 = (c as u32) - 48;
        if value >= 65536 {
            value = 65536;
        } else {
            let v = value * 10 + digit;
            value = if v > 65536 { 65536 } else { v };
        }
        i = i + 1;
        assert(all_digits(s@.subrange(start as int, i as int))) by {
            assert forall|k: int| 0 <= k < next.len() implies '0' <= #[trigger] next[k] && next[k] <= '9' by {
                if k < prev.len() {
                    assert(next[k] == prev[k]);
                }
            }
        }
    }
    if value > 65535 {
        None
    } else {
        Some(value as u16)
    }
}

impl PortConfig {
    /// Reads a port in the notation "PORT/PROTOCOL", such as "8000/http";
    /// the protocol may be in any case.
    pub fn parse(s: &str) -> (r: Result<PortConfig, String>)
        ensures
            match r {
                Ok(p) => port_parse(s@) == Some((p.port, p.protocol)) && p.name is None,
                Err(_) => port_parse(s@) is None,
            },
    {
        let n = s.unicode_len();
        let mut slash: Option<usize> = None;
        let mut many = false;
        let mut i: usize = 0;
        while i < n
            invariant
                i <= n,
                n == s@.len(),
                !many ==> match slash {
                    Some(p) => p < i && s@[p as int] == '/' && forall|j: int| 0 <= j < i && j != p ==> #[trigger] s@[j] != '/',
                    None => forall|j: int| 0 <= j < i ==> #[trigger] s@[j] != '/',
                },
                many ==> exists|a: int, b: int| 0 <= a < b < n && #[trigger] s@[a] == '/' && #[trigger] s@[b] == '/',
            decreases n - i,
        {
            if s.get_char(i) == '/' {
                match slash {
                    Some(p) => {
                        if !many {
                            assert(s@[p as int] == '/' && s@[i as int] == '/');
                        }
                        many = true;
                    },
                    None => slash = Some(i),
                }
            }
            i = i + 1;
        }
        let p = match slash {
            Some(p) => p,
            None => {
                return Err(String::from_str("Invalid port format: ").concat(s).concat(". Expected format: PORT/PROTOCOL"));
            },
        };
        if many {
            proof {
                let (a, b) = choose|a: int, b: int| 0 <= a < b < n && #[trigger] s@[a] == '/' && #[trigger] s@[b] == '/';
                assert(slash_split(s@) is None) by {
                    if exists|i: int| 0 <= i < s@.len() && s@[i] == '/' && forall|j: int| 0 <= j < s@.len() && j != i ==> #[trigger] s@[j] != '/' {
                        let i = choose|i: int| 0 <= i < s@.len() && s@[i] == '/' && forall|j: int| 0 <= j < s@.len() && j != i ==> #[trigger] s@[j] != '/';
                        if i == a {
                            assert(s@[b] != '/');
                        } else {
                            assert(s@[a] != '/');
                        }
                    }
                }
            }
            return Err(String::from_str("Invalid port format: ").concat(s).concat(". Expected format: PORT/PROTOCOL"));
        }
        proof {
            let c = choose|i: int| 0 <= i < s@.len() && s@[i] == '/' && forall|j: int| 0 <= j < s@.len() && j != i ==> #[trigger] s@[j] != '/';
            if c != p {
                assert(s@[c] != '/');
            }
        }
        let head = s.substring_char(0, p);
        let tail = s.substring_char(p + 1, n);
        let port = match parse_u16(head) {
            Some(v) => v,
            None => {
                return Err(String::from_str("Invalid port number: ").concat(head));
            },
        };
        let lower = lowercase(tail);
        match protocol_from_lowercase(lower.as_str()) {
            Some(protocol) => Ok(PortConfig { port, protocol, name: None }),
            None => Err(
                String::from_str("Invalid protocol: ").concat(lower.as_str()).concat(
                    ". Expected: tcp, http, https, or udp",
                ),
            ),
        }
    }

    /// A port with no service name.
    pub fn new(port: u16, protocol: PortProtocol) -> (r: Self)
        ensures
            r.port == port,
            r.protocol == protocol,
            r.name is None,
    {
        PortConfig { port, protocol, name: None }
    }

    /// The port in the document's notation, such as "8000/http".
    pub fn to_port_string(&self) -> (r: String)
        ensures
            r@ == port_text(self.port, self.protocol),
    {
        let n = u64_text(self.port as u64);
        let suffix = match self.protocol {
            PortProtocol::Tcp => "/tcp",
            PortProtocol::Http => "/http",
            PortProtocol::Https => "/https",
            PortProtocol::Udp => "/udp",
        };
        proof {
            reveal_strlit("/tcp");
            reveal_strlit("/http");
            reveal_strlit("/https");
            reveal_strlit("/udp");
        }
        let r = n.concat(suffix);
        assert(r@ =~= port_text(self.port, self.protocol));
        r
    }
}

impl DeployConfig {
    /// Project name and environment joined by a hyphen.
    pub fn qualified_name(&self) -> (r: String)
        ensures
            r@ == self.project.name@ + seq!['-'] + self.project.environment@,
    {
        proof {
            reveal_strlit("-");
        }
        let r = self.project.name.clone().concat("-").concat(self.project.environment.as_str());
        assert(r@ =~= self.project.name@ + seq!['-'] + self.project.environment@);
        r
    }

    /// Total number of GPUs requested by the pods (saturating at `u64::MAX`).
    pub fn total_gpus(&self) -> (r: u64)
        ensures
            r == if gpu_sum(self.pods@) <= u64::MAX { gpu_sum(self.pods@) } else { u64::MAX as nat },
    {
        let mut total: u64 = 0;
        let mut i: usize = 0;
        while i < self.pods.len()
            invariant
                i <= self.pods@.len(),
                total == if gpu_sum(self.pods@.take(i as int)) <= u64::MAX {
                    gpu_sum(self.pods@.take(i as int))
                } else {
                    u64::MAX as nat
                },
            decreases self.pods@.len() - i,
        {
            proof {
                assert(self.pods@.take(i as int + 1).drop_last() =~= self.pods@.take(i as int));
            }
            total = total.saturating_add(self.pods[i].gpu.count as u64);
            i = i + 1;
        }
        assert(self.pods@.take(i as int) =~= self.pods@);
        total
    }

    /// The pod names, in declared order.
    pub fn pod_names(&self) -> (r: Vec<String>)
        ensures
            r@.len() == self.pods@.len(),
            forall|i: int| 0 <= i < r@.len() ==> #[trigger] r@[i]@ == self.pods@[i].name@,
    {
        let mut r: Vec<String> = Vec::new();
        let mut i: usize = 0;
        while i < self.pods.len()
            invariant
                i <= self.pods@.len(),
                r@.len() == i,
                forall|j: int| 0 <= j < i ==> #[trigger] r@[j]@ == self.pods@[j].name@,
            decreases self.pods@.len() - i,
        {
            r.push(self.pods[i].name.clone());
            i = i + 1;
        }
        r
    }
}

impl PodConfig {
    /// Project name, environment and pod name joined by hyphens.
    pub fn full_name(&self, project: &ProjectConfig) -> (r: String)
        ensures
            r@ == project.name@ + seq!['-'] + project.environment@ + seq!['-'] + self.name@,
    {
        proof {
            reveal_strlit("-");
        }
        let r = project.name.clone().concat("-").concat(project.environment.as_str()).concat(
            "-",
        ).concat(self.name.as_str());
        assert(r@ =~= project.name@ + seq!['-'] + project.environment@ + seq!['-'] + self.name@);
        r
    }

    /// The HTTP and HTTPS port numbers, in declared order.
    pub fn http_ports(&self) -> (r: Vec<u16>)
        ensures
            r@ == self.ports@.filter(|p: PortConfig| is_http_protocol(p.protocol)).map_values(
                |p: PortConfig| p.port,
            ),
    {
        let mut r: Vec<u16> = Vec::new();
        let mut i: usize = 0;
        while i < self.ports.len()
            invariant
                i <= self.ports@.len(),
                r@ == self.ports@.take(i as int).filter(
                    |p: PortConfig| is_http_protocol(p.protocol),
                ).map_values(|p: PortConfig| p.port),
            decreases self.ports@.len() - i,
        {
            let ghost f = |p: PortConfig| is_http_protocol(p.protocol);
            proof {
                let t = self.ports@.take(i as int + 1);
                assert(t.drop_last() =~= self.ports@.take(i as int));
                reveal(Seq::filter);
            }
            let p = self.ports[i].protocol;
            if p == PortProtocol::Http || p == PortProtocol::Https {
                r.push(self.ports[i].port);
            }
            i = i + 1;
            proof {
                assert(r@ =~= self.ports@.take(i as int).filter(f).map_values(|p: PortConfig| p.port));
            }
        }
        assert(self.ports@.take(i as int) =~= self.ports@);
        r
    }
}

} // verus!

//! Validation of the deployment document.
//!
//! Errors make a document invalid; warnings do not.

use vstd::prelude::*;
use vstd::string::*;

use crate::config::spec::{
    gpu_sum, DeployConfig, GpuConfig, ModelConfig, ModelProvider, PodConfig, PortConfig,
    ProjectConfig, RuntimeConfig, StateBackend, StateConfig, VolumeConfig,
};
use crate::digest::{decimal, u64_text};
use crate::error::ConfigError;
use crate::bytes::str_eq;

verus! {

/// Checks a deployment document.
#[derive(Debug)]
pub struct ConfigValidator {
    /// GPU types that draw no warning.
    pub known_gpu_types: Vec<String>,
}

/// Outcome of a validation.
#[derive(Debug)]
pub struct ValidationResult {
    /// Errors found.
    pub errors: Vec<ValidationError>,
    /// Warnings found.
    pub warnings: Vec<String>,
}

/// One validation error.
#[derive(Debug)]
pub struct ValidationError {
    /// Path of the field at fault.
    pub field: String,
    /// What is wrong.
    pub message: String,
}

/// Whether a character is a lowercase ASCII letter.
pub open spec fn is_lower(c: char) -> bool {
    'a' <= c && c <= 'z'
}

/// Whether a character is an ASCII digit.
pub open spec fn is_digit(c: char) -> bool {
    '0' <= c && c <= '9'
}

/// The naming rule: a lowercase letter first, then lowercase letters,
/// digits and hyphens, not ending in a hyphen and without two hyphens in a
/// row.
pub open spec fn valid_name(s: Seq<char>) -> bool {
    &&& s.len() > 0
    &&& is_lower(s[0])
    &&& forall|i: int| 0 <= i < s.len() ==> is_lower(#[trigger] s[i]) || is_digit(s[i]) || s[i] == '-'
    &&& s[s.len() - 1] != '-'
    &&& forall|i: int| 0 <= i < s.len() - 1 ==> !(#[trigger] s[i] == '-' && s[i + 1] == '-')
}

/// Whether the element at `i` repeats an earlier one.
pub open spec fn repeats<T>(s: Seq<T>, i: int) -> bool {
    exists|j: int| 0 <= j < i && #[trigger] s[j] == s[i]
}

/// Whether the port at index `j` repeats an earlier port number.
pub open spec fn port_repeats(ports: Seq<PortConfig>, j: int) -> bool {
    repeats(ports.map_values(|x: PortConfig| x.port), j)
}

/// Whether the project settings break a rule: an empty or invalid name, or
/// an empty environment.
pub open spec fn project_faulty(p: ProjectConfig) -> bool {
    !valid_name(p.name@) || p.environment@.len() == 0
}

/// Whether the state settings break a rule: the object-store backend needs
/// a bucket name.
pub open spec fn state_faulty(s: StateConfig) -> bool {
    s.backend == StateBackend::S3 && !(s.bucket matches Some(b) && b@.len() > 0)
}

/// Whether a volume list breaks a rule: a repeated name or mount path, or
/// a mount path that is not absolute.
pub open spec fn volumes_faulty(v: Seq<VolumeConfig>) -> bool {
    exists|i: int| 0 <= i < v.len() && #[trigger] volume_faulty_at(v, i)
}

/// Whether the volume at index `i` repeats an earlier name or mount path,
/// or has a mount path that is not absolute.
pub open spec fn volume_faulty_at(v: Seq<VolumeConfig>, i: int) -> bool {
    repeats(v.map_values(|x: VolumeConfig| x.name@), i)
    || repeats(v.map_values(|x: VolumeConfig| x.mount@), i)
    || !(v[i].mount@.len() > 0 && v[i].mount@[0] == '/')
}

/// Whether a model list breaks a rule: a repeated id, a hub model without a
/// repository, or a bundle without components.
pub open spec fn models_faulty(m: Seq<ModelConfig>) -> bool {
    exists|i: int| 0 <= i < m.len() && #[trigger] model_faulty_at(m, i)
}

/// Whether the model at index `i` repeats an earlier id, is a hub model
/// without a repository, or is a bundle without components.
pub open spec fn model_faulty_at(m: Seq<ModelConfig>, i: int) -> bool {
    repeats(m.map_values(|x: ModelConfig| x.id@), i)
    || (m[i].provider == ModelProvider::Huggingface && m[i].repo is None)
    || (m[i].provider == ModelProvider::Bundle && !(m[i].components matches Some(c) && c@.len() > 0))
}

/// Whether the pod at index `i` breaks a rule.
pub open spec fn pod_faulty(pods: Seq<PodConfig>, i: int) -> bool {
    let p = pods[i];
    ||| repeats(pods.map_values(|x: PodConfig| x.name@), i)
    ||| !valid_name(p.name@)
    ||| p.gpu.count == 0
    ||| (exists|j: int| 0 <= j < p.ports@.len() && #[trigger] port_repeats(p.ports@, j))
    ||| volumes_faulty(p.volumes@)
    ||| p.runtime.image@.len() == 0
    ||| models_faulty(p.models@)
}

/// Whether the guardrails break a rule: a cost limit that is not positive,
/// a GPU limit below what the pods ask for, or a lifetime of zero hours.
pub open spec fn guardrails_faulty(c: DeployConfig) -> bool {
    c.guardrails matches Some(g) && (
        (g.max_hourly_cost_bits matches Some(b) && !positive_f64_bits(b))
        || (g.max_gpus matches Some(m) && gpu_sum(c.pods@) > m as nat)
        || g.ttl_hours == Some(0u32))
}

/// Whether the IEEE-754 `f64` with bit pattern `b` compares greater than
/// zero: its sign bit is clear, it is not zero and it is not NaN.
pub open spec fn positive_f64_bits(b: u64) -> bool {
    b >> 63u64 == 0 && b != 0 && !(b >> 52u64 == 0x7ffu64 && b & 0xf_ffff_ffff_ffffu64 != 0)
}

/// Whether the document breaks any rule.
pub open spec fn config_faulty(c: DeployConfig) -> bool {
    ||| project_faulty(c.project)
    ||| state_faulty(c.state)
    ||| (exists|i: int| 0 <= i < c.pods@.len() && #[trigger] pod_faulty(c.pods@, i))
    ||| guardrails_faulty(c)
}

/// Whether a name follows the naming rule.
pub fn is_valid_name(name: &str) -> (r: bool)
    ensures
        r == valid_name(name@),
{
    let n = name.unicode_len();
    if n == 0 {
        return false;
    }
    let first = name.get_char(0);
    if !('a' <= first && first <= 'z') {
        return false;
    }
    let mut i: usize = 0;
    while i < n
        invariant
            n == name@.len(),
            i <= n,
            forall|j: int| 0 <= j < i ==> is_lower(#[trigger] name@[j]) || is_digit(name@[j]) || name@[j] == '-',
            forall|j: int| 0 <= j < i - 1 ==> !(#[trigger] name@[j] == '-' && name@[j + 1] == '-'),
        decreases n - i,
    {
        let c = name.get_char(i);
        if !(('a' <= c && c <= 'z') || ('0' <= c && c <= '9') || c == '-') {
            return false;
        }
        if i > 0 && c == '-' && name.get_char(i - 1) == '-' {
            return false;
        }
        i = i + 1;
    }
    name.get_char(n - 1) != '-'
}

/// Appends an error.
fn push_error(result: &mut ValidationResult, field: String, message: String)
    ensures
        final(result).errors@.len() == old(result).errors@.len() + 1,
        final(result).errors@.last() == (ValidationError { field, message }),
        final(result).errors@.drop_last() == old(result).errors@,
        final(result).warnings == old(result).warnings,
{
    result.errors.push(ValidationError { field, message });
    assert(result.errors@.drop_last() =~= old(result).errors@);
}

/// "{prefix}{suffix}".
fn join(prefix: &str, suffix: &str) -> (r: String)
    ensures
        r@ == prefix@ + suffix@,
{
    String::from_str(prefix).concat(suffix)
}

/// "{prefix}[{i}]".
fn indexed(prefix: &str, i: usize) -> (r: String)
    ensures
        r@ == prefix@ + "["@ + decimal(i as nat) + "]"@,
{
    String::from_str(prefix).concat("[").concat(u64_text(i as u64).as_str()).concat("]")
}

/// Whether an equal string is in `v`.
fn seen_before(v: &Vec<String>, s: &str) -> (r: bool)
    ensures
        r == exists|j: int| 0 <= j < v@.len() && #[trigger] v@[j]@ == s@,
{
    let mut j: usize = 0;
    while j < v.len()
        invariant
            j <= v@.len(),
            forall|k: int| 0 <= k < j ==> #[trigger] v@[k]@ != s@,
        decreases v@.len() - j,
    {
        if str_eq(v[j].as_str(), s) {
            return true;
        }
        j = j + 1;
    }
    false
}

proof fn lemma_repeats_prefix(views: Seq<Seq<char>>, seen: Seq<String>, i: int, s: Seq<char>)
    requires
        0 <= i < views.len(),
        seen.len() == i,
        forall|k: int| 0 <= k < i ==> #[trigger] seen[k]@ == views[k],
        views[i] == s,
    ensures
        repeats(views, i) == exists|j: int| 0 <= j < seen.len() && #[trigger] seen[j]@ == s,
{
    if repeats(views, i) {
        let j = choose|j: int| 0 <= j < i && #[trigger] views[j] == views[i];
        assert(seen[j]@ == s);
    }
    if exists|j: int| 0 <= j < seen.len() && #[trigger] seen[j]@ == s {
        let j = choose|j: int| 0 <= j < seen.len() && #[trigger] seen[j]@ == s;
        assert(views[j] == views[i]);
    }
}

impl ValidationResult {
    /// An outcome with nothing found.
    pub fn new() -> (r: Self)
        ensures
            r.errors@.len() == 0,
            r.warnings@.len() == 0,
    {
        ValidationResult { errors: Vec::new(), warnings: Vec::new() }
    }

    /// Whether no error was found.
    pub fn is_valid(&self) -> (r: bool)
        ensures
            r == (self.errors@.len() == 0),
    {
        self.errors.len() == 0
    }

    /// Number of errors.
    pub fn error_count(&self) -> (r: usize)
        ensures
            r == self.errors@.len(),
    {
        self.errors.len()
    }

    /// Number of warnings.
    pub fn warning_count(&self) -> (r: usize)
        ensures
            r == self.warnings@.len(),
    {
        self.warnings.len()
    }
}

impl ConfigValidator {
    /// A validator that knows the provider's usual GPU types.
    pub fn new() -> (r: Self)
        ensures
            r.known_gpu_types@.len() == 23,
            r.known_gpu_types@[0]@ == "NVIDIA A40"@,
    {
        let mut known: Vec<String> = Vec::new();
        known.push(String::from_str("NVIDIA A40"));
        known.push(String::from_str("NVIDIA A100 80GB PCIe"));
        known.push(String::from_str("NVIDIA A100-SXM4-80GB"));
        known.push(String::from_str("NVIDIA GeForce RTX 3070"));
        known.push(String::from_str("NVIDIA GeForce RTX 3080"));
        known.push(String::from_str("NVIDIA GeForce RTX 3080 Ti"));
        known.push(String::from_str("NVIDIA GeForce RTX 3090"));
        known.push(String::from_str("NVIDIA GeForce RTX 3090 Ti"));
        known.push(String::from_str("NVIDIA GeForce RTX 4070 Ti"));
        known.push(String::from_str("NVIDIA GeForce RTX 4080"));
        known.push(String::from_str("NVIDIA GeForce RTX 4090"));
        known.push(String::from_str("NVIDIA H100 80GB HBM3"));
        known.push(String::from_str("NVIDIA H100 PCIe"));
        known.push(String::from_str("NVIDIA L4"));
        known.push(String::from_str("NVIDIA L40"));
        known.push(String::from_str("NVIDIA L40S"));
        known.push(String::from_str("NVIDIA RTX 4000 Ada Generation"));
        known.push(String::from_str("NVIDIA RTX 5000 Ada Generation"));
        known.push(String::from_str("NVIDIA RTX 6000 Ada Generation"));
        known.push(String::from_str("NVIDIA RTX A4000"));
        known.push(String::from_str("NVIDIA RTX A4500"));
        known.push(String::from_str("NVIDIA RTX A5000"));
        known.push(String::from_str("NVIDIA RTX A6000"));
        ConfigValidator { known_gpu_types: known }
    }

    /// Adds a GPU type to those known.
    pub fn add_gpu_type(&mut self, gpu_type: String)
        ensures
            final(self).known_gpu_types@ == old(self).known_gpu_types@.push(gpu_type),
    {
        self.known_gpu_types.push(gpu_type);
    }

    /// Whether the GPU type is known.
    pub fn is_known_gpu_type(&self, gpu_type: &str) -> (r: bool)
        ensures
            r == exists|j: int| 0 <= j < self.known_gpu_types@.len() && #[trigger] self.known_gpu_types@[j]@ == gpu_type@,
    {
        seen_before(&self.known_gpu_types, gpu_type)
    }

    /// Checks the document: `Ok` with the warnings found exactly when it
    /// breaks no rule, else the first error as a `ValidationError`.
    pub fn validate(&self, config: &DeployConfig) -> (r: Result<ValidationResult, ConfigError>)
        ensures
            r is Ok <==> !config_faulty(*config),
            r matches Ok(v) ==> v.errors@.len() == 0,
            r matches Err(e) ==> e matches ConfigError::ValidationError { field: Some(_), .. },
    {
        let mut result = ValidationResult::new();
        Self::validate_project(&config.project, &mut result);
        Self::validate_state(&config.state, &mut result);
        self.validate_pods(&config.pods, &mut result);
        Self::validate_guardrails(config, &mut result);
        if result.errors.len() == 0 {
            Ok(result)
        } else {
            let first = &result.errors[0];
            Err(ConfigError::ValidationError { message: first.message.clone(), field: Some(first.field.clone()) })
        }
    }

    /// Checks the project settings.
    fn validate_project(project: &ProjectConfig, result: &mut ValidationResult)
        ensures
            final(result).errors@.len() >= old(result).errors@.len(),
            (final(result).errors@.len() > old(result).errors@.len()) == project_faulty(*project),
    {
        if project.name.unicode_len() == 0 {
            push_error(result, String::from_str("project.name"), String::from_str("Project name cannot be empty"));
        } else if !is_valid_name(project.name.as_str()) {
            let msg = String::from_str("Project name '").concat(project.name.as_str()).concat(
                "' is invalid. Must be lowercase alphanumeric with hyphens.",
            );
            push_error(result, String::from_str("project.name"), msg);
        }
        if project.environment.unicode_len() == 0 {
            push_error(result, String::from_str("project.environment"), String::from_str("Environment cannot be empty"));
        }
    }

    /// Checks the state settings.
    fn validate_state(state: &StateConfig, result: &mut ValidationResult)
        ensures
            final(result).errors@.len() >= old(result).errors@.len(),
            (final(result).errors@.len() > old(result).errors@.len()) == state_faulty(*state),
    {
        if state.backend == StateBackend::S3 {
            let has_bucket = match &state.bucket {
                Some(b) => b.unicode_len() > 0,
                None => false,
            };
            if !has_bucket {
                push_error(
                    result,
                    String::from_str("state.bucket"),
                    String::from_str("S3 bucket name is required when using S3 backend"),
                );
            }
        }
    }

    /// Checks every pod.
    fn validate_pods(&self, pods: &Vec<PodConfig>, result: &mut ValidationResult)
        ensures
            final(result).errors@.len() >= old(result).errors@.len(),
            (final(result).errors@.len() > old(result).errors@.len()) == exists|i: int|
                0 <= i < pods@.len() && #[trigger] pod_faulty(pods@, i),
    {
        if pods.len() == 0 {
            result.warnings.push(String::from_str("No pods defined in configuration"));
            return;
        }
        let ghost start = result.errors@.len();
        let mut seen: Vec<String> = Vec::new();
        let mut i: usize = 0;
        while i < pods.len()
            invariant
                i <= pods@.len(),
                seen@.len() == i,
                forall|k: int| 0 <= k < i ==> #[trigger] seen@[k]@ == pods@[k].name@,
                result.errors@.len() >= start,
                (result.errors@.len() > start) == exists|k: int| 0 <= k < i && #[trigger] pod_faulty(pods@, k),
            decreases pods@.len() - i,
        {
            let pod = &pods[i];
            let before = result.errors.len();
            let prefix = indexed("pods", i);
            let dup = seen_before(&seen, pod.name.as_str());
            proof {
                lemma_repeats_prefix(pods@.map_values(|x: PodConfig| x.name@), seen@, i as int, pod.name@);
            }
            if dup {
                let msg = String::from_str("Duplicate pod name: ").concat(pod.name.as_str());
                push_error(result, join(prefix.as_str(), ".name"), msg);
            }
            seen.push(pod.name.clone());
            if !is_valid_name(pod.name.as_str()) {
                let msg = String::from_str("Pod name '").concat(pod.name.as_str()).concat(
                    "' is invalid. Must be lowercase alphanumeric with hyphens.",
                );
                push_error(result, join(prefix.as_str(), ".name"), msg);
            }
            self.validate_gpu(&pod.gpu, prefix.as_str(), result);
            Self::validate_ports(&pod.ports, prefix.as_str(), result);
            Self::validate_volumes(&pod.volumes, prefix.as_str(), result);
            Self::validate_runtime(&pod.runtime, prefix.as_str(), result);
            Self::validate_models(&pod.models, prefix.as_str(), result);
            proof {
                assert((result.errors@.len() > before) == pod_faulty(pods@, i as int));
                if result.errors@.len() > start {
                    if result.errors@.len() == before {
                        let k = choose|k: int| 0 <= k < i && #[trigger] pod_faulty(pods@, k);
                    }
                }
            }
            i = i + 1;
        }
    }

    /// Checks the GPU request.
    fn validate_gpu(&self, gpu: &GpuConfig, prefix: &str, result: &mut ValidationResult)
        ensures
            final(result).errors@.len() >= old(result).errors@.len(),
            (final(result).errors@.len() > old(result).errors@.len()) == (gpu.count == 0),
    {
        if gpu.count == 0 {
            push_error(result, join(prefix, ".gpu.count"), String::from_str("GPU count must be at least 1"));
        }
        if gpu.count > 8 {
            let w = join(prefix, ".gpu.count: Requesting ").concat(u64_text(gpu.count as u64).as_str()).concat(
                " GPUs is unusual",
            );
            result.warnings.push(w);
        }
        if !self.is_known_gpu_type(gpu.gpu_type.as_str()) {
            let w = join(prefix, ".gpu.type: Unknown GPU type '").concat(gpu.gpu_type.as_str()).concat(
                "'. This may fail if not available.",
            );
            result.warnings.push(w);
        }
        let mut i: usize = 0;
        while i < gpu.fallback.len()
            invariant
                i <= gpu.fallback@.len(),
                (gpu.count == 0 ==> result.errors@.len() == old(result).errors@.len() + 1),
                (gpu.count != 0 ==> result.errors@.len() == old(result).errors@.len()),
            decreases gpu.fallback@.len() - i,
        {
            if !self.is_known_gpu_type(gpu.fallback[i].as_str()) {
                let w = join(prefix, ".gpu.fallback").concat("[").concat(u64_text(i as u64).as_str()).concat(
                    "]: Unknown fallback GPU type '",
                ).concat(gpu.fallback[i].as_str()).concat("'");
                result.warnings.push(w);
            }
            i = i + 1;
        }
    }

    /// Checks the ports of a pod.
    fn validate_ports(ports: &Vec<PortConfig>, prefix: &str, result: &mut ValidationResult)
        ensures
            final(result).errors@.len() >= old(result).errors@.len(),
            (final(result).errors@.len() > old(result).errors@.len()) == exists|j: int|
                0 <= j < ports@.len() && #[trigger] port_repeats(ports@, j),
    {
        let ghost views = ports@.map_values(|x: PortConfig| x.port);
        let ghost start = result.errors@.len();
        let mut i: usize = 0;
        while i < ports.len()
            invariant
                i <= ports@.len(),
                views == ports@.map_values(|x: PortConfig| x.port),
                result.errors@.len() >= start,
                (result.errors@.len() > start) == exists|j: int| 0 <= j < i && #[trigger] port_repeats(ports@, j),
            decreases ports@.len() - i,
        {
            let port = ports[i].port;
            let mut dup = false;
            let mut j: usize = 0;
            while j < i
                invariant
                    j <= i,
                    i < ports@.len(),
                    port == ports@[i as int].port,
                    views == ports@.map_values(|x: PortConfig| x.port),
                    dup == exists|k: int| 0 <= k < j && #[trigger] views[k] == views[i as int],
                decreases i - j,
            {
                assert(views[j as int] == ports@[j as int].port);
                if ports[j].port == port {
                    dup = true;
                }
                j = j + 1;
            }
            if dup {
                let msg = String::from_str("Duplicate port ").concat(u64_text(port as u64).as_str()).concat(" in pod");
                push_error(result, indexed(join(prefix, ".ports").as_str(), i), msg);
            }
            if port < 1024 && port != 22 && port != 80 && port != 443 {
                let w = String::from_str(prefix).concat(".ports[").concat(u64_text(i as u64).as_str()).concat(
                    "]: Port ",
                ).concat(u64_text(port as u64).as_str()).concat(" is in the reserved range (<1024)");
                result.warnings.push(w);
            }
            proof {
                assert(dup == port_repeats(ports@, i as int));
                if result.errors@.len() > start && !dup {
                    let k = choose|k: int| 0 <= k < i && #[trigger] port_repeats(ports@, k);
                }
            }
            i = i + 1;
        }
    }

    /// Checks the volumes of a pod.
    fn validate_volumes(volumes: &Vec<VolumeConfig>, prefix: &str, result: &mut ValidationResult)
        ensures
            final(result).errors@.len() >= old(result).errors@.len(),
            (final(result).errors@.len() > old(result).errors@.len()) == volumes_faulty(volumes@),
    {
        let ghost names = volumes@.map_values(|x: VolumeConfig| x.name@);
        let ghost mounts = volumes@.map_values(|x: VolumeConfig| x.mount@);
        let ghost start = result.errors@.len();
        let mut seen_names: Vec<String> = Vec::new();
        let mut seen_mounts: Vec<String> = Vec::new();
        let mut i: usize = 0;
        while i < volumes.len()
            invariant
                i <= volumes@.len(),
                names == volumes@.map_values(|x: VolumeConfig| x.name@),
                mounts == volumes@.map_values(|x: VolumeConfig| x.mount@),
                seen_names@.len() == i,
                seen_mounts@.len() == i,
                forall|k: int| 0 <= k < i ==> #[trigger] seen_names@[k]@ == names[k],
                forall|k: int| 0 <= k < i ==> #[trigger] seen_mounts@[k]@ == mounts[k],
                result.errors@.len() >= start,
                (result.errors@.len() > start) == exists|k: int| 0 <= k < i && #[trigger] volume_faulty_at(volumes@, k),
            decreases volumes@.len() - i,
        {
            let v = &volumes[i];
            let before = result.errors.len();
            let p = indexed(join(prefix, ".volumes").as_str(), i);
            proof {
                lemma_repeats_prefix(names, seen_names@, i as int, v.name@);
                lemma_repeats_prefix(mounts, seen_mounts@, i as int, v.mount@);
            }
            if seen_before(&seen_names, v.name.as_str()) {
                let msg = String::from_str("Duplicate volume name: ").concat(v.name.as_str());
                push_error(result, join(p.as_str(), ".name"), msg);
            }
            seen_names.push(v.name.clone());
            if seen_before(&seen_mounts, v.mount.as_str()) {
                let msg = String::from_str("Duplicate mount path: ").concat(v.mount.as_str());
                push_error(result, join(p.as_str(), ".mount"), msg);
            }
            seen_mounts.push(v.mount.clone());
            let absolute = v.mount.unicode_len() > 0 && v.mount.as_str().get_char(0) == '/';
            if !absolute {
                let msg = String::from_str("Mount path must be absolute: ").concat(v.mount.as_str());
                push_error(result, join(p.as_str(), ".mount"), msg);
            }
            proof {
                assert((result.errors@.len() > before) == volume_faulty_at(volumes@, i as int));
                if result.errors@.len() > start && result.errors@.len() == before {
                    let k = choose|k: int| 0 <= k < i && #[trigger] volume_faulty_at(volumes@, k);
                }
            }
            i = i + 1;
        }
    }

    /// Checks the container runtime of a pod.
    fn validate_runtime(runtime: &RuntimeConfig, prefix: &str, result: &mut ValidationResult)
        ensures
            final(result).errors@.len() >= old(result).errors@.len(),
            (final(result).errors@.len() > old(result).errors@.len()) == (runtime.image@.len() == 0),
    {
        if runtime.image.unicode_len() == 0 {
            push_error(result, join(prefix, ".runtime.image"), String::from_str("Container image cannot be empty"));
        }
        if ends_with_latest(runtime.image.as_str()) {
            let w = join(prefix, ".runtime.image: Using ':latest' tag is not recommended for production");
            result.warnings.push(w);
        }
    }

    /// Checks the models of a pod.
    fn validate_models(models: &Vec<ModelConfig>, prefix: &str, result: &mut ValidationResult)
        ensures
            final(result).errors@.len() >= old(result).errors@.len(),
            (final(result).errors@.len() > old(result).errors@.len()) == models_faulty(models@),
    {
        let ghost ids = models@.map_values(|x: ModelConfig| x.id@);
        let ghost start = result.errors@.len();
        let mut seen: Vec<String> = Vec::new();
        let mut i: usize = 0;
        while i < models.len()
            invariant
                i <= models@.len(),
                ids == models@.map_values(|x: ModelConfig| x.id@),
                seen@.len() == i,
                forall|k: int| 0 <= k < i ==> #[trigger] seen@[k]@ == ids[k],
                result.errors@.len() >= start,
                (result.errors@.len() > start) == exists|k: int| 0 <= k < i && #[trigger] model_faulty_at(models@, k),
            decreases models@.len() - i,
        {
            let m = &models[i];
            let before = result.errors.len();
            let p = indexed(join(prefix, ".models").as_str(), i);
            proof {
                lemma_repeats_prefix(ids, seen@, i as int, m.id@);
            }
            if seen_before(&seen, m.id.as_str()) {
                let msg = String::from_str("Duplicate model ID: ").concat(m.id.as_str());
                push_error(result, join(p.as_str(), ".id"), msg);
            }
            seen.push(m.id.clone());
            if m.provider == ModelProvider::Huggingface && m.repo.is_none() {
                let msg = String::from_str("Model '").concat(m.id.as_str()).concat(
                    "' uses huggingface provider but no repo specified",
                );
                push_error(result, join(p.as_str(), ".repo"), msg);
            }
            let has_components = match &m.components {
                Some(c) => c.len() > 0,
                None => false,
            };
            if m.provider == ModelProvider::Bundle && !has_components {
                let msg = String::from_str("Model '").concat(m.id.as_str()).concat(
                    "' uses bundle provider but no components specified",
                );
                push_error(result, join(p.as_str(), ".components"), msg);
            }
            proof {
                assert((result.errors@.len() > before) == model_faulty_at(models@, i as int));
                if result.errors@.len() > start && result.errors@.len() == before {
                    let k = choose|k: int| 0 <= k < i && #[trigger] model_faulty_at(models@, k);
                }
            }
            i = i + 1;
        }
    }

    /// Checks the guardrails.
    fn validate_guardrails(config: &DeployConfig, result: &mut ValidationResult)
        ensures
            final(result).errors@.len() >= old(result).errors@.len(),
            (final(result).errors@.len() > old(result).errors@.len()) == guardrails_faulty(*config),
    {
        match &config.guardrails {
            Some(g) => {
                match g.max_hourly_cost_bits {
                    Some(b) => {
                        if !is_positive_f64_bits(b) {
                            push_error(
                                result,
                                String::from_str("guardrails.max_hourly_cost"),
                                String::from_str("Maximum hourly cost must be positive"),
                            );
                        }
                    },
                    None => {},
                }
                match g.max_gpus {
                    Some(m) => {
                        let total = config.total_gpus();
                        if total > m as u64 {
                            let msg = String::from_str("Configuration requires ").concat(u64_text(total).as_str()).concat(
                                " GPUs but max_gpus is ",
                            ).concat(u64_text(m as u64).as_str());
                            push_error(result, String::from_str("guardrails.max_gpus"), msg);
                        }
                    },
                    None => {},
                }
                if g.ttl_hours == Some(0u32) {
                    push_error(result, String::from_str("guardrails.ttl_hours"), String::from_str("TTL must be at least 1 hour"));
                }
            },
            None => {},
        }
    }
}

/// Whether the IEEE-754 `f64` with bit pattern `b` compares greater than
/// zero.
pub fn is_positive_f64_bits(b: u64) -> (r: bool)
    ensures
        r == positive_f64_bits(b),
{
    b >> 63u64 == 0 && b != 0 && !(b >> 52u64 == 0x7ffu64 && b & 0xf_ffff_ffff_ffffu64 != 0)
}

/// Whether the text ends with ":latest".
fn ends_with_latest(s: &str) -> (r: bool)
    ensures
        r == (s@.len() >= 7 && s@.subrange(s@.len() - 7, s@.len() as int) == ":latest"@),
{
    let n = s.unicode_len();
    if n < 7 {
        return false;
    }
    let tail = s.substring_char(n - 7, n);
    str_eq(tail, ":latest")
}

} // verus!

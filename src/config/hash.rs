//! Content hashing of the deployment document.
//!
//! Each pod is encoded as a byte string in a fixed field order, with every
//! associative collection sorted by key, and digested with SHA-256. The
//! document digest covers the project, the pod digests in declared order and
//! the numeric guardrails.

use vstd::prelude::*;
use vstd::string::*;

use crate::bytes::{
    be_u16, be_u32, be_u64, join_bytes, join_payload, keyed_payload, keyed_view, push_be_u16,
    push_be_u32, push_be_u64, push_str_bytes, sort_by_key, sort_keyed, str_bytes, Keyed,
    key_determines, lemma_sort_order_free,
};
use crate::config::spec::{
    DeployConfig, GpuConfig, GuardrailsConfig, LoadConfig, ModelConfig, PodConfig, PortConfig, RuntimeConfig,
    VolumeConfig,
};
use vstd::utf8::encode_utf8_decode_utf8;
use crate::digest::{hex_chars, sha256, sha256_of, to_hex};

verus! {

/// Computes content digests of pods and documents.
#[derive(Debug, Default)]
pub struct ConfigHasher;

/// Bytes of an optional `u32`: nothing when absent.
pub open spec fn opt_u32_bytes(o: Option<u32>) -> Seq<u8> {
    match o {
        Some(n) => be_u32(n),
        None => Seq::empty(),
    }
}

/// Bytes of an optional `u64`: nothing when absent.
pub open spec fn opt_u64_bytes(o: Option<u64>) -> Seq<u8> {
    match o {
        Some(n) => be_u64(n),
        None => Seq::empty(),
    }
}

/// Bytes of an optional string: nothing when absent.
pub open spec fn opt_str_bytes(o: Option<String>) -> Seq<u8> {
    match o {
        Some(s) => str_bytes(s@),
        None => Seq::empty(),
    }
}

/// The strings' bytes, concatenated in order.
pub open spec fn strings_bytes(v: Seq<String>) -> Seq<u8> {
    join_bytes(v.map_values(|s: String| str_bytes(s@)))
}

/// Bytes of an optional list of strings: nothing when absent.
pub open spec fn opt_strings_bytes(o: Option<Vec<String>>) -> Seq<u8> {
    match o {
        Some(v) => strings_bytes(v@),
        None => Seq::empty(),
    }
}

/// Sort record of a port: keyed by its big-endian number, which orders as
/// the number does.
pub open spec fn port_record(p: PortConfig) -> Keyed {
    (be_u16(p.port), be_u16(p.port))
}

/// Sort record of a volume, keyed by name.
pub open spec fn volume_record(v: VolumeConfig) -> Keyed {
    (
        str_bytes(v.name@),
        str_bytes(v.name@) + str_bytes(v.mount@) + seq![if v.persistent { 1u8 } else { 0u8 }]
            + opt_u32_bytes(v.size_gb),
    )
}

/// Sort record of a key/value pair, keyed by its key.
pub open spec fn pair_record(e: (String, String)) -> Keyed {
    (str_bytes(e.0@), str_bytes(e.0@) + str_bytes(e.1@))
}

/// Bytes of a model's loading settings.
pub open spec fn load_bytes(o: Option<LoadConfig>) -> Seq<u8> {
    match o {
        Some(l) => str_bytes(l.engine@) + opt_str_bytes(l.quant) + opt_u32_bytes(l.max_seq_len),
        None => Seq::empty(),
    }
}

/// Sort record of a model, keyed by id.
pub open spec fn model_record(m: ModelConfig) -> Keyed {
    (str_bytes(m.id@), str_bytes(m.id@) + opt_str_bytes(m.repo) + load_bytes(m.load))
}

/// The bytes of records sorted stably by key.
pub open spec fn sorted_payload(records: Seq<Keyed>) -> Seq<u8> {
    keyed_payload(sort_keyed(records))
}

/// The bytes that the digest of a pod covers, in order: name; GPU type,
/// count, minimum VRAM and fallbacks; ports by number; volumes by name; image;
/// environment by key; command; arguments; models by id; tags by key.
pub open spec fn pod_hash_input(pod: PodConfig) -> Seq<u8> {
    str_bytes(pod.name@)
        + str_bytes(pod.gpu.gpu_type@)
        + be_u32(pod.gpu.count)
        + opt_u32_bytes(pod.gpu.min_vram_gb)
        + strings_bytes(pod.gpu.fallback@)
        + sorted_payload(pod.ports@.map_values(|p: PortConfig| port_record(p)))
        + sorted_payload(pod.volumes@.map_values(|v: VolumeConfig| volume_record(v)))
        + str_bytes(pod.runtime.image@)
        + sorted_payload(pod.runtime.env@.map_values(|e: (String, String)| pair_record(e)))
        + opt_strings_bytes(pod.runtime.command)
        + opt_strings_bytes(pod.runtime.args)
        + sorted_payload(pod.models@.map_values(|m: ModelConfig| model_record(m)))
        + sorted_payload(pod.tags@.map_values(|e: (String, String)| pair_record(e)))
}

/// The digest of a pod, as lowercase hexadecimal text.
pub open spec fn pod_digest(pod: PodConfig) -> Seq<char> {
    hex_chars(sha256_of(pod_hash_input(pod)))
}

/// The pod digests' text bytes, concatenated in declared order.
pub open spec fn pod_digests_bytes(pods: Seq<PodConfig>) -> Seq<u8>
    decreases pods.len(),
{
    if pods.len() == 0 {
        Seq::empty()
    } else {
        pod_digests_bytes(pods.drop_last()) + str_bytes(pod_digest(pods.last()))
    }
}

/// Bytes of the numeric guardrails: the cost limit's bits, then the GPU limit.
pub open spec fn guardrail_bytes(g: Option<GuardrailsConfig>) -> Seq<u8> {
    match g {
        Some(g) => opt_u64_bytes(g.max_hourly_cost_bits) + opt_u32_bytes(g.max_gpus),
        None => Seq::empty(),
    }
}

/// The bytes that the digest of a document covers: project name,
/// environment, region, the pod digests in declared order, then guardrails.
pub open spec fn config_hash_input(c: DeployConfig) -> Seq<u8> {
    str_bytes(c.project.name@) + str_bytes(c.project.environment@) + opt_str_bytes(c.project.region)
        + pod_digests_bytes(c.pods@) + guardrail_bytes(c.guardrails)
}

/// The digest of a document, as lowercase hexadecimal text.
pub open spec fn config_digest(c: DeployConfig) -> Seq<char> {
    hex_chars(sha256_of(config_hash_input(c)))
}

/// Appends the bytes of each string, in order.
fn push_strings(out: &mut Vec<u8>, v: &Vec<String>)
    ensures
        final(out)@ == old(out)@ + strings_bytes(v@),
{
    let ghost start = out@;
    let mut i: usize = 0;
    while i < v.len()
        invariant
            i <= v@.len(),
            out@ == start + strings_bytes(v@.take(i as int)),
        decreases v@.len() - i,
    {
        proof {
            let f = |s: String| str_bytes(s@);
            assert(v@.take(i as int + 1).map_values(f).drop_last() =~= v@.take(i as int).map_values(f));
        }
        push_str_bytes(out, v[i].as_str());
        i = i + 1;
        proof {
            let f = |s: String| str_bytes(s@);
            assert(out@ =~= start + strings_bytes(v@.take(i as int)));
        }
    }
    assert(v@.take(i as int) =~= v@);
}

/// Appends the bytes of an optional `u32`.
fn push_opt_u32(out: &mut Vec<u8>, o: Option<u32>)
    ensures
        final(out)@ == old(out)@ + opt_u32_bytes(o),
{
    match o {
        Some(n) => push_be_u32(out, n),
        None => {
            assert(out@ =~= old(out)@ + opt_u32_bytes(o));
        },
    }
}

/// Appends the bytes of an optional string.
fn push_opt_str(out: &mut Vec<u8>, o: &Option<String>)
    ensures
        final(out)@ == old(out)@ + opt_str_bytes(*o),
{
    match o {
        Some(s) => push_str_bytes(out, s.as_str()),
        None => {
            assert(out@ =~= old(out)@ + opt_str_bytes(*o));
        },
    }
}

/// Appends the bytes of an optional list of strings.
fn push_opt_strings(out: &mut Vec<u8>, o: &Option<Vec<String>>)
    ensures
        final(out)@ == old(out)@ + opt_strings_bytes(*o),
{
    match o {
        Some(v) => push_strings(out, v),
        None => {
            assert(out@ =~= old(out)@ + opt_strings_bytes(*o));
        },
    }
}

/// Sort records of the ports.
fn port_records(ports: &Vec<PortConfig>) -> (r: Vec<(Vec<u8>, Vec<u8>)>)
    ensures
        keyed_view(r@) == ports@.map_values(|p: PortConfig| port_record(p)),
{
    let mut r: Vec<(Vec<u8>, Vec<u8>)> = Vec::new();
    let mut i: usize = 0;
    while i < ports.len()
        invariant
            i <= ports@.len(),
            keyed_view(r@) == ports@.take(i as int).map_values(|p: PortConfig| port_record(p)),
        decreases ports@.len() - i,
    {
        let mut k: Vec<u8> = Vec::new();
        push_be_u16(&mut k, ports[i].port);
        let mut b: Vec<u8> = Vec::new();
        push_be_u16(&mut b, ports[i].port);
        assert(k@ =~= be_u16(ports@[i as int].port));
        assert(b@ =~= be_u16(ports@[i as int].port));
        let ghost prev = r@;
        let ghost item: Keyed = (k@, b@);
        r.push((k, b));
        proof {
            assert(keyed_view(r@) =~= keyed_view(prev).push(item));
            assert(ports@.take(i as int + 1).map_values(|p: PortConfig| port_record(p)) =~= ports@.take(i as int).map_values(|p: PortConfig| port_record(p)).push(port_record(ports@[i as int])));
        }
        i = i + 1;
    }
    assert(ports@.take(i as int) =~= ports@);
    r
}

/// Sort records of the volumes.
fn volume_records(volumes: &Vec<VolumeConfig>) -> (r: Vec<(Vec<u8>, Vec<u8>)>)
    ensures
        keyed_view(r@) == volumes@.map_values(|v: VolumeConfig| volume_record(v)),
{
    let mut r: Vec<(Vec<u8>, Vec<u8>)> = Vec::new();
    let mut i: usize = 0;
    while i < volumes.len()
        invariant
            i <= volumes@.len(),
            keyed_view(r@) == volumes@.take(i as int).map_values(|v: VolumeConfig| volume_record(v)),
        decreases volumes@.len() - i,
    {
        let v = &volumes[i];
        let mut k: Vec<u8> = Vec::new();
        push_str_bytes(&mut k, v.name.as_str());
        let mut b: Vec<u8> = Vec::new();
        push_str_bytes(&mut b, v.name.as_str());
        push_str_bytes(&mut b, v.mount.as_str());
        b.push(if v.persistent { 1u8 } else { 0u8 });
        push_opt_u32(&mut b, v.size_gb);
        assert(k@ =~= volume_record(*v).0);
        assert(b@ =~= volume_record(*v).1);
        let ghost prev = r@;
        let ghost item: Keyed = (k@, b@);
        r.push((k, b));
        proof {
            assert(keyed_view(r@) =~= keyed_view(prev).push(item));
            assert(volumes@.take(i as int + 1).map_values(|v: VolumeConfig| volume_record(v)) =~= volumes@.take(i as int).map_values(|v: VolumeConfig| volume_record(v)).push(volume_record(volumes@[i as int])));
        }
        i = i + 1;
    }
    assert(volumes@.take(i as int) =~= volumes@);
    r
}

/// Sort records of key/value pairs.
fn pair_records(pairs: &Vec<(String, String)>) -> (r: Vec<(Vec<u8>, Vec<u8>)>)
    ensures
        keyed_view(r@) == pairs@.map_values(|e: (String, String)| pair_record(e)),
{
    let mut r: Vec<(Vec<u8>, Vec<u8>)> = Vec::new();
    let mut i: usize = 0;
    while i < pairs.len()
        invariant
            i <= pairs@.len(),
            keyed_view(r@) == pairs@.take(i as int).map_values(|e: (String, String)| pair_record(e)),
        decreases pairs@.len() - i,
    {
        let e = &pairs[i];
        let mut k: Vec<u8> = Vec::new();
        push_str_bytes(&mut k, e.0.as_str());
        let mut b: Vec<u8> = Vec::new();
        push_str_bytes(&mut b, e.0.as_str());
        push_str_bytes(&mut b, e.1.as_str());
        assert(k@ =~= pair_record(*e).0);
        assert(b@ =~= pair_record(*e).1);
        let ghost prev = r@;
        let ghost item: Keyed = (k@, b@);
        r.push((k, b));
        proof {
            assert(keyed_view(r@) =~= keyed_view(prev).push(item));
            assert(pairs@.take(i as int + 1).map_values(|e: (String, String)| pair_record(e)) =~= pairs@.take(i as int).map_values(|e: (String, String)| pair_record(e)).push(pair_record(pairs@[i as int])));
        }
        i = i + 1;
    }
    assert(pairs@.take(i as int) =~= pairs@);
    r
}

/// Sort records of the models.
fn model_records(models: &Vec<ModelConfig>) -> (r: Vec<(Vec<u8>, Vec<u8>)>)
    ensures
        keyed_view(r@) == models@.map_values(|m: ModelConfig| model_record(m)),
{
    let mut r: Vec<(Vec<u8>, Vec<u8>)> = Vec::new();
    let mut i: usize = 0;
    while i < models.len()
        invariant
            i <= models@.len(),
            keyed_view(r@) == models@.take(i as int).map_values(|m: ModelConfig| model_record(m)),
        decreases models@.len() - i,
    {
        let m = &models[i];
        let mut k: Vec<u8> = Vec::new();
        push_str_bytes(&mut k, m.id.as_str());
        let mut b: Vec<u8> = Vec::new();
        push_str_bytes(&mut b, m.id.as_str());
        push_opt_str(&mut b, &m.repo);
        match &m.load {
            Some(l) => {
                push_str_bytes(&mut b, l.engine.as_str());
                push_opt_str(&mut b, &l.quant);
                push_opt_u32(&mut b, l.max_seq_len);
            },
            None => {},
        }
        assert(k@ =~= model_record(*m).0);
        assert(b@ =~= model_record(*m).1);
        let ghost prev = r@;
        let ghost item: Keyed = (k@, b@);
        r.push((k, b));
        proof {
            assert(keyed_view(r@) =~= keyed_view(prev).push(item));
            assert(models@.take(i as int + 1).map_values(|m: ModelConfig| model_record(m)) =~= models@.take(i as int).map_values(|m: ModelConfig| model_record(m)).push(model_record(models@[i as int])));
        }
        i = i + 1;
    }
    assert(models@.take(i as int) =~= models@);
    r
}

/// Appends the bytes of the records, sorted stably by key.
fn push_sorted(out: &mut Vec<u8>, records: Vec<(Vec<u8>, Vec<u8>)>)
    ensures
        final(out)@ == old(out)@ + sorted_payload(keyed_view(records@)),
{
    let sorted = sort_by_key(records);
    join_payload(&sorted, out);
}

impl ConfigHasher {
    /// A hasher.
    pub fn new() -> (r: Self) {
        ConfigHasher
    }

    /// The bytes that the digest of a pod covers.
    pub fn pod_hash_bytes(pod: &PodConfig) -> (r: Vec<u8>)
        ensures
            r@ == pod_hash_input(*pod),
    {
        let mut out: Vec<u8> = Vec::new();
        push_str_bytes(&mut out, pod.name.as_str());
        push_str_bytes(&mut out, pod.gpu.gpu_type.as_str());
        push_be_u32(&mut out, pod.gpu.count);
        push_opt_u32(&mut out, pod.gpu.min_vram_gb);
        push_strings(&mut out, &pod.gpu.fallback);
        push_sorted(&mut out, port_records(&pod.ports));
        push_sorted(&mut out, volume_records(&pod.volumes));
        push_str_bytes(&mut out, pod.runtime.image.as_str());
        push_sorted(&mut out, pair_records(&pod.runtime.env));
        push_opt_strings(&mut out, &pod.runtime.command);
        push_opt_strings(&mut out, &pod.runtime.args);
        push_sorted(&mut out, model_records(&pod.models));
        push_sorted(&mut out, pair_records(&pod.tags));
        assert(out@ =~= pod_hash_input(*pod));
        out
    }

    /// The digest of a pod, as lowercase hexadecimal text.
    pub fn hash_pod(&self, pod: &PodConfig) -> (r: String)
        ensures
            r@ == pod_digest(*pod),
    {
        let bytes = Self::pod_hash_bytes(pod);
        let d = sha256(&bytes);
        to_hex(&d)
    }

    /// The bytes that the digest of a document covers.
    pub fn config_hash_bytes(&self, config: &DeployConfig) -> (r: Vec<u8>)
        ensures
            r@ == config_hash_input(*config),
    {
        let mut out: Vec<u8> = Vec::new();
        push_str_bytes(&mut out, config.project.name.as_str());
        push_str_bytes(&mut out, config.project.environment.as_str());
        push_opt_str(&mut out, &config.project.region);
        let ghost head = out@;
        let mut i: usize = 0;
        while i < config.pods.len()
            invariant
                i <= config.pods@.len(),
                out@ == head + pod_digests_bytes(config.pods@.take(i as int)),
            decreases config.pods@.len() - i,
        {
            proof {
                assert(config.pods@.take(i as int + 1).drop_last() =~= config.pods@.take(i as int));
            }
            let h = self.hash_pod(&config.pods[i]);
            push_str_bytes(&mut out, h.as_str());
            i = i + 1;
            assert(out@ =~= head + pod_digests_bytes(config.pods@.take(i as int)));
        }
        assert(config.pods@.take(i as int) =~= config.pods@);
        let ghost mid = out@;
        match &config.guardrails {
            Some(g) => {
                match g.max_hourly_cost_bits {
                    Some(c) => push_be_u64(&mut out, c),
                    None => {},
                }
                push_opt_u32(&mut out, g.max_gpus);
            },
            None => {},
        }
        assert(out@ =~= mid + guardrail_bytes(config.guardrails));
        assert(out@ =~= config_hash_input(*config));
        out
    }

    /// The digest of a document, as lowercase hexadecimal text.
    pub fn hash_config(&self, config: &DeployConfig) -> (r: String)
        ensures
            r@ == config_digest(*config),
    {
        let bytes = self.config_hash_bytes(config);
        let d = sha256(&bytes);
        to_hex(&d)
    }

    /// The first eight characters of a digest, for display.
    pub fn short_hash(&self, hash: &str) -> (r: String)
        ensures
            r@ == hash@.take(if hash@.len() < 8 { hash@.len() as int } else { 8 }),
    {
        let n = hash.unicode_len();
        let end: usize = if n < 8 { n } else { 8 };
        let r = String::from_str(hash.substring_char(0, end));
        r
    }

    /// Whether two digests are equal, comparing every byte whatever the
    /// outcome so that the time taken does not depend on where they differ.
    pub fn hashes_match(hash1: &str, hash2: &str) -> (r: bool)
        ensures
            r == (hash1@ == hash2@),
    {
        let a = hash1.as_bytes();
        let b = hash2.as_bytes();
        proof {
            encode_utf8_decode_utf8(hash1@);
            encode_utf8_decode_utf8(hash2@);
        }
        if a.len() != b.len() {
            assert(a@ != b@);
            return false;
        }
        let mut acc: u8 = 0;
        let mut i: usize = 0;
        assert(a@.subrange(0, 0) =~= b@.subrange(0, 0));
        while i < a.len()
            invariant
                a@.len() == b@.len(),
                i <= a@.len(),
                (acc == 0) == (a@.subrange(0, i as int) == b@.subrange(0, i as int)),
            decreases a@.len() - i,
        {
            let x = a[i];
            let y = b[i];
            let next: u8 = acc | (x ^ y);
            assert((next == 0) == (acc == 0 && x == y)) by (bit_vector)
                requires
                    next == acc | (x ^ y),
            ;
            proof {
                if acc == 0 && x == y {
                    assert(a@.subrange(0, i + 1) =~= a@.subrange(0, i as int).push(x));
                    assert(b@.subrange(0, i + 1) =~= b@.subrange(0, i as int).push(y));
                } else if acc != 0 {
                    if a@.subrange(0, i + 1) == b@.subrange(0, i + 1) {
                        assert(a@.subrange(0, i as int) =~= a@.subrange(0, i + 1).subrange(0, i as int));
                        assert(b@.subrange(0, i as int) =~= b@.subrange(0, i + 1).subrange(0, i as int));
                    }
                } else {
                    assert(a@.subrange(0, i + 1)[i as int] == x);
                    assert(b@.subrange(0, i + 1)[i as int] == y);
                }
            }
            acc = next;
            i = i + 1;
        }
        assert(a@.subrange(0, i as int) =~= a@);
        assert(b@.subrange(0, i as int) =~= b@);
        acc == 0
    }
}

/// Whether no two elements share a name.
pub open spec fn names_unique<T>(s: Seq<T>, name: spec_fn(T) -> Seq<char>) -> bool {
    forall|i: int, j: int| 0 <= i < s.len() && 0 <= j < s.len() && name(#[trigger] s[i]) == name(#[trigger] s[j]) ==> i == j
}

proof fn lemma_map_multiset<T>(s1: Seq<T>, s2: Seq<T>, f: spec_fn(T) -> Keyed)
    requires
        s1.to_multiset() == s2.to_multiset(),
    ensures
        s1.map_values(f).to_multiset() == s2.map_values(f).to_multiset(),
    decreases s1.len(),
{
    broadcast use vstd::seq_lib::group_to_multiset_ensures;
    if s1.len() == 0 {
        assert(s1.to_multiset().len() == 0);
        assert(s2.len() == s2.to_multiset().len());
        assert(s1.map_values(f) =~= s2.map_values(f));
    } else {
        let l = s1.last();
        let t1 = s1.drop_last();
        assert(s1 =~= t1.push(l));
        assert(s1.contains(l));
        assert(s1.to_multiset().count(l) > 0);
        assert(s2.contains(l));
        let j = choose|j: int| 0 <= j < s2.len() && s2[j] == l;
        let t2 = s2.remove(j);
        assert(t2.to_multiset() =~= s2.to_multiset().remove(l));
        assert(t1.to_multiset() =~= s1.to_multiset().remove(l));
        lemma_map_multiset(t1, t2, f);
        let m2 = s2.map_values(f);
        assert(t2.map_values(f) =~= m2.remove(j));
        assert(m2.remove(j).to_multiset() =~= m2.to_multiset().remove(m2[j]));
        assert(s1.map_values(f) =~= t1.map_values(f).push(f(l)));
        assert(m2.contains(m2[j]));
        assert(m2.to_multiset().count(f(l)) > 0);
        assert(s1.map_values(f).to_multiset() =~= m2.to_multiset());
    }
}

proof fn lemma_records_determined<T>(s: Seq<T>, f: spec_fn(T) -> Keyed, name: spec_fn(T) -> Seq<char>)
    requires
        names_unique(s, name),
        forall|t: T| #[trigger] f(t).0 == str_bytes(name(t)),
    ensures
        key_determines(s.map_values(f)),
{
    let r = s.map_values(f);
    assert forall|e: Keyed, g: Keyed| #[trigger] r.contains(e) && #[trigger] r.contains(g) && e.0 == g.0 implies e == g by {
        let i = choose|i: int| 0 <= i < r.len() && r[i] == e;
        let j = choose|j: int| 0 <= j < r.len() && r[j] == g;
        assert(f(s[i]).0 == str_bytes(name(s[i])));
        assert(f(s[j]).0 == str_bytes(name(s[j])));
        encode_utf8_decode_utf8(name(s[i]));
        encode_utf8_decode_utf8(name(s[j]));
        assert(name(s[i]) == name(s[j]));
    }
}

proof fn lemma_port_records_determined(ports: Seq<PortConfig>)
    ensures
        key_determines(ports.map_values(|p: PortConfig| port_record(p))),
{
    let r = ports.map_values(|p: PortConfig| port_record(p));
    assert forall|e: Keyed, g: Keyed| #[trigger] r.contains(e) && #[trigger] r.contains(g) && e.0 == g.0 implies e == g by {
        let i = choose|i: int| 0 <= i < r.len() && r[i] == e;
        let j = choose|j: int| 0 <= j < r.len() && r[j] == g;
    }
}

/// A pod's digest does not depend on the order in which its ports,
/// volumes, environment variables, models and tags are declared, when
/// volume names, variable names, model ids and tag keys are unique.
pub proof fn lemma_pod_digest_order_free(a: PodConfig, b: PodConfig)
    requires
        b == (PodConfig {
            ports: b.ports,
            volumes: b.volumes,
            runtime: RuntimeConfig { env: b.runtime.env, ..a.runtime },
            models: b.models,
            tags: b.tags,
            ..a
        }),
        a.ports@.to_multiset() == b.ports@.to_multiset(),
        a.volumes@.to_multiset() == b.volumes@.to_multiset(),
        a.runtime.env@.to_multiset() == b.runtime.env@.to_multiset(),
        a.models@.to_multiset() == b.models@.to_multiset(),
        a.tags@.to_multiset() == b.tags@.to_multiset(),
        names_unique(a.volumes@, |v: VolumeConfig| v.name@),
        names_unique(a.runtime.env@, |e: (String, String)| e.0@),
        names_unique(a.models@, |m: ModelConfig| m.id@),
        names_unique(a.tags@, |e: (String, String)| e.0@),
    ensures
        pod_digest(a) == pod_digest(b),
{
    let fp = |p: PortConfig| port_record(p);
    let fv = |v: VolumeConfig| volume_record(v);
    let fe = |e: (String, String)| pair_record(e);
    let fm = |m: ModelConfig| model_record(m);
    lemma_map_multiset(a.ports@, b.ports@, fp);
    lemma_port_records_determined(a.ports@);
    lemma_sort_order_free(a.ports@.map_values(fp), b.ports@.map_values(fp));
    lemma_map_multiset(a.volumes@, b.volumes@, fv);
    lemma_records_determined(a.volumes@, fv, |v: VolumeConfig| v.name@);
    lemma_sort_order_free(a.volumes@.map_values(fv), b.volumes@.map_values(fv));
    lemma_map_multiset(a.runtime.env@, b.runtime.env@, fe);
    lemma_records_determined(a.runtime.env@, fe, |e: (String, String)| e.0@);
    lemma_sort_order_free(a.runtime.env@.map_values(fe), b.runtime.env@.map_values(fe));
    lemma_map_multiset(a.models@, b.models@, fm);
    lemma_records_determined(a.models@, fm, |m: ModelConfig| m.id@);
    lemma_sort_order_free(a.models@.map_values(fm), b.models@.map_values(fm));
    lemma_map_multiset(a.tags@, b.tags@, fe);
    lemma_records_determined(a.tags@, fe, |e: (String, String)| e.0@);
    lemma_sort_order_free(a.tags@.map_values(fe), b.tags@.map_values(fe));
    assert(pod_hash_input(a) == pod_hash_input(b));
}

proof fn lemma_middle_differs(p: Seq<u8>, x: Seq<u8>, y: Seq<u8>, r: Seq<u8>)
    requires
        x != y,
    ensures
        p + x + r != p + y + r,
{
    if x.len() == y.len() {
        if forall|k: int| 0 <= k < x.len() ==> x[k] == y[k] {
            assert(x =~= y);
        }
        let k = choose|k: int| 0 <= k < x.len() && x[k] != y[k];
        assert((p + x + r)[p.len() + k] == x[k]);
        assert((p + y + r)[p.len() + k] == y[k]);
    } else {
        assert((p + x + r).len() != (p + y + r).len());
    }
}

proof fn lemma_str_bytes_injective(a: Seq<char>, b: Seq<char>)
    requires
        a != b,
    ensures
        str_bytes(a) != str_bytes(b),
{
    encode_utf8_decode_utf8(a);
    encode_utf8_decode_utf8(b);
}

/// The bytes a pod's digest covers before its image.
pub open spec fn head_bytes(a: PodConfig) -> Seq<u8> {
    str_bytes(a.name@) + str_bytes(a.gpu.gpu_type@) + be_u32(a.gpu.count) + opt_u32_bytes(a.gpu.min_vram_gb)
        + strings_bytes(a.gpu.fallback@) + sorted_payload(a.ports@.map_values(|p: PortConfig| port_record(p)))
        + sorted_payload(a.volumes@.map_values(|v: VolumeConfig| volume_record(v)))
}

/// The bytes a pod's digest covers after its image.
pub open spec fn tail_bytes(a: PodConfig) -> Seq<u8> {
    sorted_payload(a.runtime.env@.map_values(|e: (String, String)| pair_record(e)))
        + opt_strings_bytes(a.runtime.command) + opt_strings_bytes(a.runtime.args)
        + sorted_payload(a.models@.map_values(|m: ModelConfig| model_record(m)))
        + sorted_payload(a.tags@.map_values(|e: (String, String)| pair_record(e)))
}

#[verifier::spinoff_prover]
proof fn lemma_hash_input_split(a: PodConfig)
    ensures
        pod_hash_input(a) == head_bytes(a) + str_bytes(a.runtime.image@) + tail_bytes(a),
{
    assert(pod_hash_input(a) =~= head_bytes(a) + str_bytes(a.runtime.image@) + tail_bytes(a));
}

/// Changing only a pod's image changes the bytes that its digest covers;
/// so the digest changes unless SHA-256 has a collision there.
pub proof fn lemma_image_changes_hash_input(a: PodConfig, b: PodConfig)
    requires
        b == (PodConfig { runtime: RuntimeConfig { image: b.runtime.image, ..a.runtime }, ..a }),
        a.runtime.image@ != b.runtime.image@,
    ensures
        pod_hash_input(a) != pod_hash_input(b),
{
    lemma_hash_input_split(a);
    lemma_hash_input_split(b);
    assert(head_bytes(a) == head_bytes(b));
    assert(tail_bytes(a) == tail_bytes(b));
    lemma_str_bytes_injective(a.runtime.image@, b.runtime.image@);
    lemma_middle_differs(head_bytes(a), str_bytes(a.runtime.image@), str_bytes(b.runtime.image@), tail_bytes(a));
}

/// The bytes a pod's digest covers after its name.
pub open spec fn after_name_bytes(a: PodConfig) -> Seq<u8> {
    str_bytes(a.gpu.gpu_type@) + be_u32(a.gpu.count) + opt_u32_bytes(a.gpu.min_vram_gb)
        + strings_bytes(a.gpu.fallback@) + sorted_payload(a.ports@.map_values(|p: PortConfig| port_record(p)))
        + sorted_payload(a.volumes@.map_values(|v: VolumeConfig| volume_record(v)))
        + str_bytes(a.runtime.image@) + tail_bytes(a)
}

#[verifier::spinoff_prover]
proof fn lemma_hash_input_name_split(a: PodConfig)
    ensures
        pod_hash_input(a) == Seq::<u8>::empty() + str_bytes(a.name@) + after_name_bytes(a),
{
    assert(pod_hash_input(a) =~= Seq::<u8>::empty() + str_bytes(a.name@) + after_name_bytes(a));
}

/// Changing only a pod's name changes the bytes that its digest covers;
/// so the digest changes unless SHA-256 has a collision there.
pub proof fn lemma_name_changes_hash_input(a: PodConfig, b: PodConfig)
    requires
        b == (PodConfig { name: b.name, ..a }),
        a.name@ != b.name@,
    ensures
        pod_hash_input(a) != pod_hash_input(b),
{
    lemma_hash_input_name_split(a);
    lemma_hash_input_name_split(b);
    assert(after_name_bytes(a) == after_name_bytes(b));
    lemma_str_bytes_injective(a.name@, b.name@);
    lemma_middle_differs(Seq::empty(), str_bytes(a.name@), str_bytes(b.name@), after_name_bytes(a));
}

} // verus!

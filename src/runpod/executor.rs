//! Outcomes of commands and setup steps run on a pod after it is created.

use vstd::prelude::*;
use vstd::string::*;

use crate::digest::{decimal, u64_text};

verus! {

/// Outcome of one command run on a pod.
#[derive(Debug, Clone)]
pub struct CommandResult {
    /// Whether the command succeeded.
    pub success: bool,
    /// Standard output.
    pub stdout: String,
    /// Standard error.
    pub stderr: String,
    /// Exit code, if known.
    pub exit_code: Option<i32>,
}

/// Outcome of preparing one model.
#[derive(Debug, Clone)]
pub struct ModelSetupResult {
    /// Model identifier.
    pub model_id: String,
    /// Whether it succeeded.
    pub success: bool,
    /// Where the model was put.
    pub model_path: Option<String>,
    /// Error, if any.
    pub error: Option<String>,
}

/// Outcome of starting one inference engine.
#[derive(Debug, Clone)]
pub struct EngineStartResult {
    /// Engine name.
    pub engine: String,
    /// Whether it started.
    pub success: bool,
    /// Service endpoint, if known.
    pub endpoint: Option<String>,
    /// Error, if any.
    pub error: Option<String>,
}

/// Outcome of the whole setup of a pod.
#[derive(Debug, Clone)]
pub struct PostProvisionResult {
    /// Provider identifier of the pod.
    pub pod_id: String,
    /// Whether every step succeeded.
    pub success: bool,
    /// One outcome per model.
    pub model_results: Vec<ModelSetupResult>,
    /// One outcome per engine.
    pub engine_results: Vec<EngineStartResult>,
}

/// Number of successful model setups.
pub open spec fn models_ok(s: Seq<ModelSetupResult>) -> nat
    decreases s.len(),
{
    if s.len() == 0 {
        0
    } else {
        models_ok(s.drop_last()) + if s.last().success { 1nat } else { 0nat }
    }
}

/// Number of engines started.
pub open spec fn engines_ok(s: Seq<EngineStartResult>) -> nat
    decreases s.len(),
{
    if s.len() == 0 {
        0
    } else {
        engines_ok(s.drop_last()) + if s.last().success { 1nat } else { 0nat }
    }
}

/// The summary line of a setup.
pub open spec fn summary_text(pod_id: Seq<char>, mo: nat, mt: nat, eo: nat, et: nat) -> Seq<char> {
    seq!['P', 'o', 'd', ' '] + pod_id + seq![':', ' ', 'M', 'o', 'd', 'e', 'l', 's', ' '] + decimal(mo)
        + seq!['/'] + decimal(mt) + seq![' ', 'O', 'K', ',', ' ', 'E', 'n', 'g', 'i', 'n', 'e', 's', ' ']
        + decimal(eo) + seq!['/'] + decimal(et) + seq![' ', 'O', 'K']
}

proof fn lemma_models_ok_bound(s: Seq<ModelSetupResult>)
    ensures
        models_ok(s) <= s.len(),
    decreases s.len(),
{
    if s.len() > 0 {
        lemma_models_ok_bound(s.drop_last());
    }
}

proof fn lemma_engines_ok_bound(s: Seq<EngineStartResult>)
    ensures
        engines_ok(s) <= s.len(),
    decreases s.len(),
{
    if s.len() > 0 {
        lemma_engines_ok_bound(s.drop_last());
    }
}

fn count_models_ok(s: &Vec<ModelSetupResult>) -> (r: usize)
    ensures
        r == models_ok(s@),
{
    let mut n: usize = 0;
    let mut i: usize = 0;
    while i < s.len()
        invariant
            i <= s@.len(),
            n == models_ok(s@.take(i as int)),
        decreases s@.len() - i,
    {
        proof {
            assert(s@.take(i as int + 1).drop_last() =~= s@.take(i as int));
            lemma_models_ok_bound(s@.take(i as int));
        }
        if s[i].success {
            n = n + 1;
        }
        i = i + 1;
    }
    assert(s@.take(i as int) =~= s@);
    n
}

fn count_engines_ok(s: &Vec<EngineStartResult>) -> (r: usize)
    ensures
        r == engines_ok(s@),
{
    let mut n: usize = 0;
    let mut i: usize = 0;
    while i < s.len()
        invariant
            i <= s@.len(),
            n == engines_ok(s@.take(i as int)),
        decreases s@.len() - i,
    {
        proof {
            assert(s@.take(i as int + 1).drop_last() =~= s@.take(i as int));
            lemma_engines_ok_bound(s@.take(i as int));
        }
        if s[i].success {
            n = n + 1;
        }
        i = i + 1;
    }
    assert(s@.take(i as int) =~= s@);
    n
}

impl PostProvisionResult {
    /// "Pod {id}: Models {ok}/{total} OK, Engines {ok}/{total} OK".
    pub fn summary(&self) -> (r: String)
        ensures
            r@ == summary_text(
                self.pod_id@,
                models_ok(self.model_results@),
                self.model_results@.len(),
                engines_ok(self.engine_results@),
                self.engine_results@.len(),
            ),
    {
        let mo = count_models_ok(&self.model_results);
        let eo = count_engines_ok(&self.engine_results);
        proof {
            reveal_strlit("Pod ");
            reveal_strlit(": Models ");
            reveal_strlit("/");
            reveal_strlit(" OK, Engines ");
            reveal_strlit(" OK");
        }
        let r = String::from_str("Pod ").concat(self.pod_id.as_str()).concat(": Models ").concat(
            u64_text(mo as u64).as_str(),
        ).concat("/").concat(u64_text(self.model_results.len() as u64).as_str()).concat(
            " OK, Engines ",
        ).concat(u64_text(eo as u64).as_str()).concat("/").concat(
            u64_text(self.engine_results.len() as u64).as_str(),
        ).concat(" OK");
        assert(r@ =~= summary_text(
            self.pod_id@,
            models_ok(self.model_results@),
            self.model_results@.len(),
            engines_ok(self.engine_results@),
            self.engine_results@.len(),
        ));
        r
    }
}

} // verus!

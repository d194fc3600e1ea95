//! Campaign phases and the default detection parameters.
//!
//! The configuration file itself (TOML, with fuzzer definitions and optional
//! floating-point coverage bounds) is read and written by the binary around
//! this library; what belongs to the verified core is the phase vocabulary
//! that external observers follow through the phase file, and the default
//! criteria, metrics and tolerances of the three detection stages.

use vstd::prelude::*;

use crate::criterion::Criterion;
use crate::distance_metric::DistanceMetric;
use crate::error::RosaError;
use crate::oracle::Oracle;
use crate::text::{spec_replace, str_eq, str_replace};

verus! {

/// The possible phases of a detection campaign.
#[derive(Clone, Copy, Debug, PartialEq, Eq, Structural)]
pub enum RosaPhase {
    /// Starting up.
    Starting,
    /// Collection of family-representative inputs.
    CollectingInputs,
    /// Clustering of family-representative inputs (into families).
    ClusteringInputs,
    /// Backdoor detection.
    DetectingBackdoors,
    /// Stopped.
    Stopped,
}

impl RosaPhase {
    /// The stable tag of the phase, as persisted in the phase file.
    pub open spec fn spec_name(self) -> Seq<char> {
        match self {
            RosaPhase::Starting => "starting"@,
            RosaPhase::CollectingInputs => "collecting-inputs"@,
            RosaPhase::ClusteringInputs => "clustering-inputs"@,
            RosaPhase::DetectingBackdoors => "detecting-backdoors"@,
            RosaPhase::Stopped => "stopped"@,
        }
    }

    /// The stable tag of the phase.
    pub fn name(&self) -> (r: &str)
        ensures
            r@ == self.spec_name(),
    {
        match self {
            RosaPhase::Starting => "starting",
            RosaPhase::CollectingInputs => "collecting-inputs",
            RosaPhase::ClusteringInputs => "clustering-inputs",
            RosaPhase::DetectingBackdoors => "detecting-backdoors",
            RosaPhase::Stopped => "stopped",
        }
    }

    /// Parses a phase tag; fails exactly on the strings that name no phase.
    pub fn from_name(s: &str) -> (r: Result<RosaPhase, RosaError>)
        ensures
            r matches Ok(p) ==> p.spec_name() == s@,
            r is Err ==> forall|p: RosaPhase| p.spec_name() != s@,
    {
        if str_eq(s, "starting") {
            Ok(RosaPhase::Starting)
        } else if str_eq(s, "collecting-inputs") {
            Ok(RosaPhase::CollectingInputs)
        } else if str_eq(s, "clustering-inputs") {
            Ok(RosaPhase::ClusteringInputs)
        } else if str_eq(s, "detecting-backdoors") {
            Ok(RosaPhase::DetectingBackdoors)
        } else if str_eq(s, "stopped") {
            Ok(RosaPhase::Stopped)
        } else {
            proof {
                assert forall|p: RosaPhase| p.spec_name() != s@ by {
                    match p {
                        RosaPhase::Starting => {
                            assert(p.spec_name() == "starting"@);
                        },
                        RosaPhase::CollectingInputs => {
                            assert(p.spec_name() == "collecting-inputs"@);
                        },
                        RosaPhase::ClusteringInputs => {
                            assert(p.spec_name() == "clustering-inputs"@);
                        },
                        RosaPhase::DetectingBackdoors => {
                            assert(p.spec_name() == "detecting-backdoors"@);
                        },
                        RosaPhase::Stopped => {
                            assert(p.spec_name() == "stopped"@);
                        },
                    }
                }
            }
            Err(
                RosaError::new(
                    "rosa::config",
                    0,
                    "config.rs",
                    "invalid phase.",
                ),
            )
        }
    }
}

/// One environment value with the `$LD_PRELOAD`, `$PWD` and `$HOME`
/// placeholders replaced by the given values, in that order.
pub open spec fn spec_env_value_substituted(
    v: Seq<char>,
    ld_preload: Seq<char>,
    pwd: Seq<char>,
    home: Seq<char>,
) -> Seq<char> {
    spec_replace(
        spec_replace(spec_replace(v, "$LD_PRELOAD"@, ld_preload), "$PWD"@, pwd),
        "$HOME"@,
        home,
    )
}

/// Replaces environment variable placeholders in every value of a fuzzer's
/// environment with the given process-environment values (an unset variable
/// passes the empty string).
pub fn replace_env_var_placeholders(
    env: &Vec<(String, String)>,
    ld_preload: &str,
    pwd: &str,
    home: &str,
) -> (r: Vec<(String, String)>)
    ensures
        r@.len() == env@.len(),
        forall|i: int|
            0 <= i < env@.len() ==> (#[trigger] r@[i]).0@ == env@[i].0@ && r@[i].1@
                == spec_env_value_substituted(env@[i].1@, ld_preload@, pwd@, home@),
{
    proof {
        reveal_strlit("$LD_PRELOAD");
        reveal_strlit("$PWD");
        reveal_strlit("$HOME");
    }
    let mut r: Vec<(String, String)> = Vec::new();
    let mut i: usize = 0;
    while i < env.len()
        invariant
            i <= env@.len(),
            r@.len() == i,
            "$LD_PRELOAD"@.len() > 0,
            "$PWD"@.len() > 0,
            "$HOME"@.len() > 0,
            forall|j: int|
                0 <= j < i ==> (#[trigger] r@[j]).0@ == env@[j].0@ && r@[j].1@
                    == spec_env_value_substituted(env@[j].1@, ld_preload@, pwd@, home@),
        decreases env@.len() - i,
    {
        let pair = &env[i];
        let v1 = str_replace(pair.1.as_str(), "$LD_PRELOAD", ld_preload);
        let v2 = str_replace(v1.as_str(), "$PWD", pwd);
        let v3 = str_replace(v2.as_str(), "$HOME", home);
        r.push((pair.0.clone(), v3));
        i = i + 1;
    }
    r
}

/// The default criterion for cluster formation: clusters are separated by
/// CFG edges only.
pub fn default_cluster_formation_criterion() -> (r: Criterion)
    ensures
        r == Criterion::EdgesOnly,
{
    Criterion::EdgesOnly
}

/// The default distance metric for cluster formation.
pub fn default_cluster_formation_distance_metric() -> (r: DistanceMetric)
    ensures
        r == DistanceMetric::Hamming,
{
    DistanceMetric::Hamming
}

/// The default edge tolerance for cluster formation.
pub fn default_cluster_formation_edge_tolerance() -> (r: u64)
    ensures
        r == 0,
{
    0
}

/// The default syscall tolerance for cluster formation.
pub fn default_cluster_formation_syscall_tolerance() -> (r: u64)
    ensures
        r == 0,
{
    0
}

/// The default criterion for cluster selection: both edges and syscalls,
/// with syscalls acting as a tie breaker for identical edge vectors.
pub fn default_cluster_selection_criterion() -> (r: Criterion)
    ensures
        r == Criterion::EdgesAndSyscalls,
{
    Criterion::EdgesAndSyscalls
}

/// The default distance metric for cluster selection.
pub fn default_cluster_selection_distance_metric() -> (r: DistanceMetric)
    ensures
        r == DistanceMetric::Hamming,
{
    DistanceMetric::Hamming
}

/// The default oracle algorithm.
pub fn default_oracle() -> (r: Oracle)
    ensures
        r == Oracle::CompMinMax,
{
    Oracle::CompMinMax
}

/// The default criterion for the oracle: backdoors are expected to show in
/// the denotational semantics, modelled by syscall types.
pub fn default_oracle_criterion() -> (r: Criterion)
    ensures
        r == Criterion::SyscallsOnly,
{
    Criterion::SyscallsOnly
}

/// The default distance metric for the oracle.
pub fn default_oracle_distance_metric() -> (r: DistanceMetric)
    ensures
        r == DistanceMetric::Hamming,
{
    DistanceMetric::Hamming
}

} // verus!

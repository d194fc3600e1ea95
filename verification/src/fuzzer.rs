//! Fuzzer instances: their configuration, their liveness vocabulary, and
//! the command preparation performed before they are spawned.
//!
//! Spawning, signalling and log redirection are process work done by the
//! binary around the library; what is decided here is what to spawn: the
//! campaign seed substitution in the command vectors, the environment
//! placeholder substitution, and the per-backend liveness rule.

use vstd::prelude::*;

use crate::text::{dec_string, spec_dec, spec_replace, str_eq, str_replace};

pub mod aflpp;

verus! {

/// Possible states a fuzzer can be in.
#[derive(Clone, Copy, Debug, PartialEq, Eq, Structural)]
pub enum FuzzerStatus {
    /// The fuzzer is running nominally.
    Running,
    /// The fuzzer is **not** running.
    Stopped,
    /// The fuzzer is starting up, but is not yet running nominally.
    Starting,
}

/// The configuration of one fuzzer instance.
#[derive(Debug)]
pub struct FuzzerConfig {
    /// The name of the instance; the instance named `main` is the one whose
    /// traces are collected by default.
    pub name: String,
    /// The environment passed to the fuzzer, as ordered key/value pairs.
    pub env: Vec<(String, String)>,
    /// The command used to invoke the fuzzer.
    pub cmd: Vec<String>,
    /// The directory where the fuzzer places new test inputs.
    pub test_input_dir: String,
    /// The directory where the fuzzer places runtime trace dumps.
    pub trace_dump_dir: String,
    /// The directory where the fuzzer places crashing inputs.
    pub crashes_dir: String,
}

/// The rendering of the first `n` environment pairs, `KEY=VALUE` joined by
/// single spaces.
pub open spec fn spec_env_string_to(env: Seq<(String, String)>, n: int) -> Seq<char>
    decreases n,
{
    if n <= 0 {
        Seq::empty()
    } else if n == 1 {
        env[0].0@ + "="@ + env[0].1@
    } else {
        spec_env_string_to(env, n - 1) + " "@ + env[n - 1].0@ + "="@ + env[n - 1].1@
    }
}

/// The rendering of the first `n` command words joined by single spaces.
pub open spec fn spec_join_spaces_to(words: Seq<String>, n: int) -> Seq<char>
    decreases n,
{
    if n <= 0 {
        Seq::empty()
    } else if n == 1 {
        words[0]@
    } else {
        spec_join_spaces_to(words, n - 1) + " "@ + words[n - 1]@
    }
}

/// A command vector with every occurrence of the campaign-seed placeholder
/// replaced by the seed's decimal rendering.
pub open spec fn spec_seeded_cmd(cmd: Seq<String>, seed: u32) -> Seq<Seq<char>> {
    cmd.map_values(|w: String| spec_replace(w@, "{{ROSA_SEED}}"@, spec_dec(seed as nat)))
}

impl FuzzerConfig {
    /// The environment passed to the fuzzer, in string form.
    pub fn env_as_string(&self) -> (r: String)
        ensures
            r@ == spec_env_string_to(self.env@, self.env@.len() as int),
    {
        let mut r = String::new();
        let mut i: usize = 0;
        while i < self.env.len()
            invariant
                i <= self.env@.len(),
                r@ == spec_env_string_to(self.env@, i as int),
            decreases self.env@.len() - i,
        {
            if i > 0 {
                r.append(" ");
            }
            let pair = &self.env[i];
            r.append(pair.0.as_str());
            r.append("=");
            r.append(pair.1.as_str());
            proof {
                assert(r@ =~= spec_env_string_to(self.env@, i + 1 as int));
            }
            i = i + 1;
        }
        r
    }

    /// The command used to run the fuzzer, in string form.
    pub fn cmd_as_string(&self) -> (r: String)
        ensures
            r@ == spec_join_spaces_to(self.cmd@, self.cmd@.len() as int),
    {
        let mut r = String::new();
        let mut i: usize = 0;
        while i < self.cmd.len()
            invariant
                i <= self.cmd@.len(),
                r@ == spec_join_spaces_to(self.cmd@, i as int),
            decreases self.cmd@.len() - i,
        {
            if i > 0 {
                r.append(" ");
            }
            let word = &self.cmd[i];
            r.append(word.as_str());
            proof {
                assert(r@ =~= spec_join_spaces_to(self.cmd@, i + 1 as int));
            }
            i = i + 1;
        }
        r
    }

    /// The command vector with the campaign seed substituted for every
    /// `{{ROSA_SEED}}` placeholder.
    pub fn seeded_cmd(&self, seed: u32) -> (r: Vec<String>)
        ensures
            r.deep_view() == spec_seeded_cmd(self.cmd@, seed),
    {
        proof {
            reveal_strlit("{{ROSA_SEED}}");
        }
        let seed_string = dec_string(seed as u64);
        let mut r: Vec<String> = Vec::new();
        let mut i: usize = 0;
        while i < self.cmd.len()
            invariant
                i <= self.cmd@.len(),
                "{{ROSA_SEED}}"@.len() > 0,
                r@.len() == i,
                forall|x: int|
                    0 <= x < i ==> #[trigger] r@[x]@ == spec_seeded_cmd(self.cmd@, seed)[x],
                seed_string@ == spec_dec(seed as nat),
            decreases self.cmd@.len() - i,
        {
            let word = &self.cmd[i];
            let substituted = str_replace(word.as_str(), "{{ROSA_SEED}}", seed_string.as_str());
            r.push(substituted);
            proof {
                assert(spec_seeded_cmd(self.cmd@, seed)[i as int] == spec_replace(
                    self.cmd@[i as int]@,
                    "{{ROSA_SEED}}"@,
                    spec_dec(seed as nat),
                ));
                assert(r@[i as int]@ == spec_seeded_cmd(self.cmd@, seed)[i as int]);
            }
            i = i + 1;
        }
        proof {
            assert forall|x: int| 0 <= x < r.deep_view().len() implies r.deep_view()[x]
                == spec_seeded_cmd(self.cmd@, seed)[x] by {
                assert(r.deep_view()[x] == r@[x]@);
            }
            assert(r.deep_view() =~~= spec_seeded_cmd(self.cmd@, seed));
        }
        r
    }
}

/// Finds the fuzzer with the given instance name; `None` exactly when no
/// instance carries it.
pub fn find_fuzzer_index(fuzzers: &Vec<FuzzerConfig>, name: &str) -> (r: Option<usize>)
    ensures
        r matches Some(i) ==> i < fuzzers@.len() && fuzzers@[i as int].name@ == name@,
        r is None ==> forall|i: int| 0 <= i < fuzzers@.len() ==> fuzzers@[i].name@ != name@,
{
    let mut i: usize = 0;
    while i < fuzzers.len()
        invariant
            i <= fuzzers@.len(),
            forall|j: int| 0 <= j < i ==> fuzzers@[j].name@ != name@,
        decreases fuzzers@.len() - i,
    {
        if str_eq(fuzzers[i].name.as_str(), name) {
            return Some(i);
        }
        i = i + 1;
    }
    None
}

/// Relies on `rand::random`: draws one uniformly random 32-bit campaign
/// seed; nothing is promised of the value.
#[verifier::external_body]
fn random_u32() -> u32 {
    rand::random::<u32>()
}

/// Draws the campaign seed and substitutes it into every fuzzer's command
/// vector; returns the seed together with the prepared commands.
pub fn seeded_commands(fuzzers: &Vec<FuzzerConfig>) -> (r: (u32, Vec<Vec<String>>))
    ensures
        r.1.deep_view().len() == fuzzers@.len(),
        forall|i: int|
            0 <= i < fuzzers@.len() ==> #[trigger] r.1.deep_view()[i] == spec_seeded_cmd(
                fuzzers@[i].cmd@,
                r.0,
            ),
{
    let seed = random_u32();
    let mut cmds: Vec<Vec<String>> = Vec::new();
    let mut i: usize = 0;
    while i < fuzzers.len()
        invariant
            i <= fuzzers@.len(),
            cmds@.len() == i,
            forall|j: int|
                0 <= j < i ==> #[trigger] cmds@[j].deep_view() == spec_seeded_cmd(
                    fuzzers@[j].cmd@,
                    seed,
                ),
        decreases fuzzers@.len() - i,
    {
        let cmd = fuzzers[i].seeded_cmd(seed);
        cmds.push(cmd);
        i = i + 1;
    }
    proof {
        assert forall|j: int| 0 <= j < fuzzers@.len() implies #[trigger] cmds.deep_view()[j]
            == spec_seeded_cmd(fuzzers@[j].cmd@, seed) by {
            assert(cmds.deep_view()[j] == cmds@[j].deep_view());
        }
        assert(cmds.deep_view().len() == cmds@.len());
    }
    (seed, cmds)
}

} // verus!

//! The AFL++ fuzzer backend: its invocation command, its on-disk layout,
//! and its liveness rule.
//!
//! The liveness rule follows `afl-whatsup`: a `fuzzer_setup` file newer
//! than `fuzzer_stats` means the fuzzer is still starting; with both
//! settled, the fuzzer is running exactly when the PID recorded in
//! `fuzzer_stats` belongs to a live process.

use vstd::prelude::*;

use crate::error::RosaError;
use crate::fuzzer::FuzzerStatus;
use crate::text::push_char;

verus! {

/// The AFL++ fuzzer.
#[derive(Debug)]
pub struct AFLPlusPlus {
    /// The name of the fuzzer instance.
    pub name: String,
    /// Whether or not this is a main instance.
    pub is_main: bool,
    /// The path to the `afl-fuzz` binary.
    pub afl_fuzz: String,
    /// The path to the seed corpus directory to use.
    pub input_dir: String,
    /// The path to the findings (output) directory to use.
    pub output_dir: String,
    /// The full command to invoke the target program (with arguments if
    /// needed).
    pub target: Vec<String>,
    /// Any extra arguments to pass to the fuzzer.
    pub extra_args: Vec<String>,
}

impl AFLPlusPlus {
    /// The full invocation command: the `afl-fuzz` binary, corpus and
    /// findings directories, the main/secondary role with the instance
    /// name, any extra arguments, and the target command after `--`.
    pub open spec fn spec_cmd(self) -> Seq<Seq<char>> {
        seq![
            self.afl_fuzz@,
            "-i"@,
            self.input_dir@,
            "-o"@,
            self.output_dir@,
            if self.is_main {
                "-M"@
            } else {
                "-S"@
            },
            self.name@,
        ] + self.extra_args.deep_view() + seq!["--"@] + self.target.deep_view()
    }

    /// Builds the full command used to invoke the fuzzer.
    pub fn cmd(&self) -> (r: Vec<String>)
        ensures
            r.deep_view() == self.spec_cmd(),
    {
        let mut r: Vec<String> = Vec::new();
        r.push(self.afl_fuzz.clone());
        r.push("-i".to_owned());
        r.push(self.input_dir.clone());
        r.push("-o".to_owned());
        r.push(self.output_dir.clone());
        if self.is_main {
            r.push("-M".to_owned());
        } else {
            r.push("-S".to_owned());
        }
        r.push(self.name.clone());
        proof {
            assert forall|x: int| 0 <= x < r@.len() implies r@[x]@ == self.spec_cmd()[x] by {
                assert(r@[0]@ == self.afl_fuzz@);
                assert(r@[1]@ == "-i"@);
                assert(r@[2]@ == self.input_dir@);
                assert(r@[3]@ == "-o"@);
                assert(r@[4]@ == self.output_dir@);
                assert(r@[6]@ == self.name@);
            }
        }
        let mut i: usize = 0;
        while i < self.extra_args.len()
            invariant
                i <= self.extra_args@.len(),
                r@.len() == 7 + i,
                forall|x: int| 0 <= x < r@.len() ==> #[trigger] r@[x]@ == self.spec_cmd()[x],
            decreases self.extra_args@.len() - i,
        {
            let arg = &self.extra_args[i];
            r.push(arg.clone());
            proof {
                assert(self.extra_args.deep_view()[i as int] == self.extra_args@[i as int]@);
                assert(self.spec_cmd()[7 + i] == self.extra_args.deep_view()[i as int]);
                assert(r@[7 + i as int]@ == self.spec_cmd()[7 + i]);
            }
            i = i + 1;
        }
        let ghost base = 7 + self.extra_args@.len();
        r.push("--".to_owned());
        proof {
            assert(self.spec_cmd()[base as int] == "--"@);
            assert(r@[base as int]@ == self.spec_cmd()[base as int]);
        }
        let mut j: usize = 0;
        while j < self.target.len()
            invariant
                j <= self.target@.len(),
                base == 7 + self.extra_args@.len(),
                r@.len() == 7 + self.extra_args@.len() + 1 + j,
                forall|x: int| 0 <= x < r@.len() ==> #[trigger] r@[x]@ == self.spec_cmd()[x],
            decreases self.target@.len() - j,
        {
            let arg = &self.target[j];
            r.push(arg.clone());
            proof {
                assert(self.extra_args.deep_view().len() == self.extra_args@.len());
                assert(self.target.deep_view().len() == self.target@.len());
                let seven = seq![
                    self.afl_fuzz@,
                    "-i"@,
                    self.input_dir@,
                    "-o"@,
                    self.output_dir@,
                    if self.is_main {
                        "-M"@
                    } else {
                        "-S"@
                    },
                    self.name@,
                ];
                assert(seven.len() == 7);
                let front = seven + self.extra_args.deep_view() + seq!["--"@];
                assert(seq!["--"@].len() == 1);
                assert(front.len() == seven.len() + self.extra_args.deep_view().len() + seq![
                    "--"@,
                ].len());
                assert(front.len() == base + 1);
                assert(self.spec_cmd() == front + self.target.deep_view());
                assert((front + self.target.deep_view())[base + 1 + j]
                    == self.target.deep_view()[j as int]);
                assert(self.target.deep_view()[j as int] == self.target@[j as int]@);
                assert(r@[base + 1 + j]@ == self.spec_cmd()[base + 1 + j]);
            }
            j = j + 1;
        }
        proof {
            assert forall|x: int| 0 <= x < r.deep_view().len() implies r.deep_view()[x]
                == self.spec_cmd()[x] by {
                assert(r.deep_view()[x] == r@[x]@);
            }
            assert(r.deep_view() =~~= self.spec_cmd());
        }
        r
    }

    /// The directory where this instance places new test inputs.
    pub fn test_input_dir(&self) -> (r: String)
        ensures
            r@ == self.output_dir@ + "/"@ + self.name@ + "/queue"@,
    {
        let mut r = self.output_dir.clone();
        r.append("/");
        r.append(self.name.as_str());
        r.append("/queue");
        r
    }

    /// The directory where this instance places runtime trace dumps.
    pub fn runtime_trace_dir(&self) -> (r: String)
        ensures
            r@ == self.output_dir@ + "/"@ + self.name@ + "/trace_dumps"@,
    {
        let mut r = self.output_dir.clone();
        r.append("/");
        r.append(self.name.as_str());
        r.append("/trace_dumps");
        r
    }

    /// The directory where this instance places crashing inputs.
    pub fn crashes_dir(&self) -> (r: String)
        ensures
            r@ == self.output_dir@ + "/"@ + self.name@ + "/crashes"@,
    {
        let mut r = self.output_dir.clone();
        r.append("/");
        r.append(self.name.as_str());
        r.append("/crashes");
        r
    }
}

/// The liveness rule, decided from what is on disk: the modification times
/// of the `fuzzer_setup` and `fuzzer_stats` marker files (absent files pass
/// `None`), and whether the recorded PID belongs to a live process.
pub fn status_from_markers(
    setup_mtime: Option<u64>,
    stats_mtime: Option<u64>,
    pid_process_alive: bool,
) -> (r: FuzzerStatus)
    ensures
        r == match (setup_mtime, stats_mtime) {
            (Some(setup), Some(stats)) => if setup > stats {
                FuzzerStatus::Starting
            } else if pid_process_alive {
                FuzzerStatus::Running
            } else {
                FuzzerStatus::Stopped
            },
            (Some(setup), None) => FuzzerStatus::Starting,
            _ => FuzzerStatus::Stopped,
        },
{
    match (setup_mtime, stats_mtime) {
        (Some(setup), Some(stats)) => {
            if setup > stats {
                FuzzerStatus::Starting
            } else if pid_process_alive {
                FuzzerStatus::Running
            } else {
                FuzzerStatus::Stopped
            }
        },
        (Some(_), None) => FuzzerStatus::Starting,
        _ => FuzzerStatus::Stopped,
    }
}


// ---------------------------------------------------------------------------
// PID extraction from `fuzzer_stats`
// ---------------------------------------------------------------------------
/// Whether the pattern occurs in the text at position `i`.
pub open spec fn spec_match_at(text: Seq<char>, pat: Seq<char>, i: int) -> bool {
    0 <= i && i + pat.len() <= text.len() && text.subrange(i, i + pat.len()) == pat
}

/// The first position at or after `from` where a non-empty pattern occurs.
pub open spec fn spec_find_from(text: Seq<char>, pat: Seq<char>, from: int) -> Option<int>
    decreases text.len() - from,
{
    if pat.len() == 0 || from + pat.len() > text.len() {
        None
    } else if spec_match_at(text, pat, from) {
        Some(from)
    } else {
        spec_find_from(text, pat, from + 1)
    }
}

/// The region of the stats text that holds the PID: everything between the
/// first colon after the first `fuzzer_pid` occurrence and the next line
/// break (or the end of the text).
pub open spec fn spec_pid_region(stats: Seq<char>) -> Option<(int, int)> {
    match spec_find_from(stats, "fuzzer_pid"@, 0) {
        None => None,
        Some(idx) => match spec_find_from(stats, seq![':'], idx) {
            None => None,
            Some(colon) => {
                let stop = match spec_find_from(stats, seq!['\n'], colon + 1) {
                    None => stats.len() as int,
                    Some(nl) => nl,
                };
                Some((colon + 1, stop))
            },
        },
    }
}

/// Whether a character counts as surrounding whitespace.
pub open spec fn spec_is_ws(c: char) -> bool {
    c == ' ' || c == '\t' || c == '\n' || c == '\r'
}

/// The string with leading whitespace removed.
pub open spec fn spec_trim_front(s: Seq<char>) -> Seq<char>
    decreases s.len(),
{
    if s.len() > 0 && spec_is_ws(s[0]) {
        spec_trim_front(s.drop_first())
    } else {
        s
    }
}

/// The string with trailing whitespace removed.
pub open spec fn spec_trim_back(s: Seq<char>) -> Seq<char>
    decreases s.len(),
{
    if s.len() > 0 && spec_is_ws(s.last()) {
        spec_trim_back(s.drop_last())
    } else {
        s
    }
}

/// The string with surrounding whitespace removed.
pub open spec fn spec_trim(s: Seq<char>) -> Seq<char> {
    spec_trim_back(spec_trim_front(s))
}

/// The PID recorded in a `fuzzer_stats` text: the trimmed characters of
/// the PID region, when the text has one.
pub open spec fn spec_fuzzer_pid(stats: Seq<char>) -> Option<Seq<char>> {
    match spec_pid_region(stats) {
        None => None,
        Some(region) => Some(spec_trim(stats.subrange(region.0, region.1))),
    }
}

/// Tests whether a character counts as surrounding whitespace.
fn is_ws(c: char) -> (r: bool)
    ensures
        r == spec_is_ws(c),
{
    c == ' ' || c == '\t' || c == '\n' || c == '\r'
}

/// Tests whether the pattern occurs in the text at position `i`.
fn match_at(text: &str, pat: &str, i: usize) -> (r: bool)
    requires
        i + pat@.len() <= text@.len(),
    ensures
        r == spec_match_at(text@, pat@, i as int),
{
    let text_len = text.unicode_len();
    let pat_len = pat.unicode_len();
    let mut k: usize = 0;
    while k < pat_len
        invariant
            k <= pat@.len(),
            pat_len == pat@.len(),
            text_len == text@.len(),
            i + pat@.len() <= text@.len(),
            forall|j: int| 0 <= j < k ==> text@[i + j] == pat@[j],
        decreases pat@.len() - k,
    {
        let tc = text.get_char(i + k);
        let pc = pat.get_char(k);
        if tc != pc {
            proof {
                assert(!spec_match_at(text@, pat@, i as int)) by {
                    if spec_match_at(text@, pat@, i as int) {
                        assert(text@.subrange(i as int, i + pat@.len()) == pat@);
                        assert(text@.subrange(i as int, i + pat@.len())[k as int] == text@[i
                            + k as int]);
                    }
                }
            }
            return false;
        }
        k = k + 1;
    }
    proof {
        assert(text@.subrange(i as int, i + pat@.len()) =~= pat@);
    }
    true
}

/// Finds the first occurrence of a non-empty pattern at or after `from`.
fn find_from(text: &str, pat: &str, from: usize) -> (r: Option<usize>)
    requires
        from <= text@.len(),
        pat@.len() > 0,
    ensures
        match r {
            Some(i) => {
                &&& from <= i
                &&& i + pat@.len() <= text@.len()
                &&& spec_find_from(text@, pat@, from as int) == Some(i as int)
            },
            None => spec_find_from(text@, pat@, from as int) is None,
        },
{
    let text_len = text.unicode_len();
    let pat_len = pat.unicode_len();
    let mut i: usize = from;
    loop
        invariant
            from <= i <= text@.len() + 1,
            text_len == text@.len(),
            pat_len == pat@.len(),
            pat@.len() > 0,
            spec_find_from(text@, pat@, from as int) == spec_find_from(text@, pat@, i as int),
        decreases text@.len() + 1 - i,
    {
        if i > text_len || pat_len > text_len - i {
            proof {
                assert(spec_find_from(text@, pat@, i as int) is None);
            }
            return None;
        }
        if match_at(text, pat, i) {
            return Some(i);
        }
        i = i + 1;
    }
}

/// Extracts the PID of the fuzzer from the contents of its `fuzzer_stats`
/// file. Fails exactly when the text holds no `fuzzer_pid` entry followed
/// by a colon.
pub fn parse_fuzzer_pid(stats: &str) -> (r: Result<String, RosaError>)
    ensures
        match r {
            Ok(pid) => spec_fuzzer_pid(stats@) == Some(pid@),
            Err(_) => spec_fuzzer_pid(stats@) is None,
        },
{
    proof {
        reveal_strlit("fuzzer_pid");
        reveal_strlit(":");
        reveal_strlit("\n");
        assert(":"@ =~= seq![':']);
        assert("\n"@ =~= seq!['\n']);
    }
    let idx = match find_from(stats, "fuzzer_pid", 0) {
        Some(i) => i,
        None => {
            return Err(
                RosaError::new(
                    "rosa::fuzzer",
                    0,
                    "aflpp.rs",
                    "could not find the fuzzer_pid entry in the stats file.",
                ),
            );
        },
    };
    let colon = match find_from(stats, ":", idx) {
        Some(i) => i,
        None => {
            return Err(
                RosaError::new(
                    "rosa::fuzzer",
                    0,
                    "aflpp.rs",
                    "could not find the start of the PID value in the stats file.",
                ),
            );
        },
    };
    let len = stats.unicode_len();
    let stop = match find_from(stats, "\n", colon + 1) {
        Some(i) => i,
        None => len,
    };
    let ghost region = stats@.subrange(colon + 1 as int, stop as int);
    let mut a: usize = colon + 1;
    let b_limit: usize = stop;
    while a < b_limit && is_ws(stats.get_char(a))
        invariant
            colon + 1 <= a <= b_limit <= stats@.len(),
            region == stats@.subrange(colon + 1 as int, b_limit as int),
            spec_trim_front(region) == spec_trim_front(stats@.subrange(a as int, b_limit as int)),
        decreases b_limit - a,
    {
        proof {
            assert(stats@.subrange(a as int, b_limit as int).drop_first() =~= stats@.subrange(
                a + 1 as int,
                b_limit as int,
            ));
        }
        a = a + 1;
    }
    let ghost front_trimmed = stats@.subrange(a as int, b_limit as int);
    proof {
        assert(spec_trim_front(region) == front_trimmed);
    }
    let mut b: usize = b_limit;
    while b > a && is_ws(stats.get_char(b - 1))
        invariant
            colon + 1 <= a <= b <= b_limit <= stats@.len(),
            front_trimmed == spec_trim_front(region),
            spec_trim_back(front_trimmed) == spec_trim_back(
                stats@.subrange(a as int, b as int),
            ),
        decreases b - a,
    {
        proof {
            assert(stats@.subrange(a as int, b as int).drop_last() =~= stats@.subrange(
                a as int,
                b - 1 as int,
            ));
        }
        b = b - 1;
    }
    proof {
        assert(spec_trim_back(stats@.subrange(a as int, b as int)) == stats@.subrange(
            a as int,
            b as int,
        ));
    }
    let mut pid = String::new();
    let mut k: usize = a;
    while k < b
        invariant
            a <= k <= b <= stats@.len(),
            pid@ == stats@.subrange(a as int, k as int),
        decreases b - k,
    {
        push_char(&mut pid, stats.get_char(k));
        proof {
            assert(stats@.subrange(a as int, k + 1 as int) =~= stats@.subrange(
                a as int,
                k as int,
            ).push(stats@[k as int]));
        }
        k = k + 1;
    }
    proof {
        assert(stats@.subrange(a as int, a as int) =~= stats@.subrange(a as int, b as int).take(0));
        assert(pid@ == spec_trim(region));
    }
    Ok(pid)
}

} // verus!

//! The statistics shown by the terminal dashboard.
//!
//! Rendering itself is terminal work done outside the library; what is kept
//! here is the dashboard's state — counters and configuration read from the
//! published campaign files — and the clock renderings of its time stats.
//! Times are carried as elapsed whole seconds, refreshed by the caller.

use vstd::prelude::*;

use crate::config;
use crate::criterion::Criterion;
use crate::oracle::Oracle;
use crate::text::{push_char, push_dec_pad, spec_dec_pad};

verus! {

/// An elapsed time in `hours:minutes:seconds` form, each part zero-padded
/// to two digits.
pub open spec fn spec_clock(seconds: u64) -> Seq<char> {
    spec_dec_pad(((seconds / 60) / 60) as nat, 2) + ":"@ + spec_dec_pad(
        ((seconds / 60) % 60) as nat,
        2,
    ) + ":"@ + spec_dec_pad((seconds % 60) as nat, 2)
}

/// Renders an elapsed time as `hours:minutes:seconds`.
fn clock_string(seconds: u64) -> (r: String)
    ensures
        r@ == spec_clock(seconds),
{
    let mut r = String::new();
    push_dec_pad(&mut r, (seconds / 60) / 60, 2);
    push_char(&mut r, ':');
    push_dec_pad(&mut r, (seconds / 60) % 60, 2);
    push_char(&mut r, ':');
    push_dec_pad(&mut r, seconds % 60, 2);
    proof {
        reveal_strlit(":");
        assert(r@ =~= spec_clock(seconds));
    }
    r
}

/// The statistics displayed by the dashboard. Elapsed times are held as
/// whole seconds, `None` until the corresponding event has happened.
pub struct RosaTuiStats {
    /// Seconds since the campaign started; `None` before the start.
    pub run_seconds: Option<u64>,
    /// Seconds since the last backdoor was found; `None` while none was.
    pub seconds_since_last_backdoor: Option<u64>,
    /// Seconds since the last new trace arrived; `None` while none did.
    pub seconds_since_last_new_trace: Option<u64>,
    /// How many unique backdoors were found so far.
    pub backdoors: u64,
    /// How many traces were seen over the whole campaign.
    pub total_traces: u64,
    /// How many traces arrived since the last refresh.
    pub new_traces: u64,
    /// The oracle in use.
    pub oracle: Oracle,
    /// The criterion the oracle uses.
    pub oracle_criterion: Criterion,
    /// How many clusters were formed.
    pub clusters: u64,
    /// How many seed traces the clusters hold.
    pub seed_traces: u64,
    /// The criterion used during cluster formation.
    pub formation_criterion: Criterion,
    /// The criterion used during cluster selection.
    pub selection_criterion: Criterion,
    /// The edge tolerance used during cluster formation.
    pub edge_tolerance: u64,
    /// The syscall tolerance used during cluster formation.
    pub syscall_tolerance: u64,
    /// The configuration file the campaign runs with.
    pub config_file_path: String,
    /// The output directory the campaign writes to, with a trailing slash.
    pub output_dir_path: String,
    /// Whether a fuzzer has reported crashes.
    pub crash_warning: bool,
}

impl RosaTuiStats {
    /// Fresh dashboard statistics: nothing seen yet, defaults everywhere.
    pub fn new(config_path: &str, output_dir_path: &str) -> (r: RosaTuiStats)
        ensures
            r.run_seconds is None,
            r.seconds_since_last_backdoor is None,
            r.seconds_since_last_new_trace is None,
            r.backdoors == 0,
            r.total_traces == 0,
            r.new_traces == 0,
            r.oracle == Oracle::CompMinMax,
            r.oracle_criterion == Criterion::EdgesAndSyscalls,
            r.clusters == 0,
            r.seed_traces == 0,
            r.formation_criterion == Criterion::EdgesAndSyscalls,
            r.selection_criterion == Criterion::EdgesAndSyscalls,
            r.edge_tolerance == 0,
            r.syscall_tolerance == 0,
            r.config_file_path@ == config_path@,
            r.output_dir_path@ == output_dir_path@ + "/"@,
            r.crash_warning == false,
    {
        let mut output_dir: String = output_dir_path.to_owned();
        output_dir.append("/");
        RosaTuiStats {
            run_seconds: None,
            seconds_since_last_backdoor: None,
            seconds_since_last_new_trace: None,
            backdoors: 0,
            total_traces: 0,
            new_traces: 0,
            oracle: config::default_oracle(),
            oracle_criterion: Criterion::EdgesAndSyscalls,
            clusters: 0,
            seed_traces: 0,
            formation_criterion: Criterion::EdgesAndSyscalls,
            selection_criterion: Criterion::EdgesAndSyscalls,
            edge_tolerance: 0,
            syscall_tolerance: 0,
            config_file_path: config_path.to_owned(),
            output_dir_path: output_dir,
            crash_warning: false,
        }
    }

    /// The campaign's run time as a clock, or a placeholder before the
    /// start.
    pub fn run_time(&self) -> (r: String)
        ensures
            self.run_seconds matches Some(s) ==> r@ == spec_clock(s),
            self.run_seconds is None ==> r@ == "(not started yet)"@,
    {
        match self.run_seconds {
            Some(s) => clock_string(s),
            None => "(not started yet)".to_owned(),
        }
    }

    /// The time since the last backdoor as a clock, or a placeholder while
    /// none was seen.
    pub fn time_since_last_backdoor(&self) -> (r: String)
        ensures
            self.seconds_since_last_backdoor matches Some(s) ==> r@ == spec_clock(s),
            self.seconds_since_last_backdoor is None ==> r@ == "(none seen yet)"@,
    {
        match self.seconds_since_last_backdoor {
            Some(s) => clock_string(s),
            None => "(none seen yet)".to_owned(),
        }
    }

    /// The time since the last new trace as a clock, or a placeholder while
    /// none was seen.
    pub fn time_since_last_new_trace(&self) -> (r: String)
        ensures
            self.seconds_since_last_new_trace matches Some(s) ==> r@ == spec_clock(s),
            self.seconds_since_last_new_trace is None ==> r@ == "(none seen yet)"@,
    {
        match self.seconds_since_last_new_trace {
            Some(s) => clock_string(s),
            None => "(none seen yet)".to_owned(),
        }
    }
}

} // verus!

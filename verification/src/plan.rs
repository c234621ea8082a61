//! From the options of a mode to the immutable configuration of a run and
//! its filter policy.

use crate::args::{
    optional_number_list, DirArgs, DnsArgs, FuzzArgs, GcsArgs, GlobalOpts, S3Args, TftpArgs,
    VhostArgs,
};
use crate::filter::FilterPolicy;
use crate::list::{code_values, number_list, parse_code_list, parse_size_list, size_values};
use crate::outcome::Mode;
use vstd::prelude::*;

verus! {

/// Most probes that a TFTP run keeps outstanding, whatever was asked for.
pub const TFTP_MAX_THREADS: usize = 50;

/// The immutable configuration of a run.
#[derive(Clone, Debug)]
pub struct RunConfig {
    pub mode: Mode,
    /// Most probes outstanding at once
    pub threads: usize,
    /// Time that a worker sleeps before each probe, in milliseconds
    pub delay_ms: Option<u64>,
    /// Time allowed for one probe, in seconds
    pub timeout: u64,
    /// Whether probe errors are shown
    pub verbose: bool,
    /// Whether the progress line is drawn
    pub show_progress: bool,
    /// Whether the run goes on when the target answers everything
    pub force_wildcard: bool,
}

/// The configuration that the shared options give to a run of `mode`.
pub open spec fn config_of(
    mode: Mode,
    global: GlobalOpts,
    timeout: u64,
    force_wildcard: bool,
) -> RunConfig {
    RunConfig {
        mode,
        threads: if mode == Mode::Tftp && global.threads > TFTP_MAX_THREADS {
            TFTP_MAX_THREADS
        } else {
            global.threads
        },
        delay_ms: global.delay,
        timeout,
        verbose: global.verbose,
        show_progress: !(global.quiet || global.no_progress),
        force_wildcard,
    }
}

impl RunConfig {
    /// The configuration of a run of `mode`. A TFTP run keeps at most
    /// fifty probes outstanding.
    pub fn new(mode: Mode, global: &GlobalOpts, timeout: u64, force_wildcard: bool) -> (config:
        RunConfig)
        ensures
            config == config_of(mode, *global, timeout, force_wildcard),
    {
        let threads = if mode == Mode::Tftp && global.threads > TFTP_MAX_THREADS {
            TFTP_MAX_THREADS
        } else {
            global.threads
        };
        RunConfig {
            mode,
            threads,
            delay_ms: global.delay,
            timeout,
            verbose: global.verbose,
            show_progress: !(global.quiet || global.no_progress),
            force_wildcard,
        }
    }

    /// The configuration of a directory run.
    pub fn for_dir(args: &DirArgs) -> (config: RunConfig)
        ensures
            config == config_of(Mode::Dir, args.global, args.http.timeout, args.wildcard),
    {
        RunConfig::new(Mode::Dir, &args.global, args.http.timeout, args.wildcard)
    }

    /// The configuration of a DNS run.
    pub fn for_dns(args: &DnsArgs) -> (config: RunConfig)
        ensures
            config == config_of(Mode::Dns, args.global, args.timeout, args.wildcard),
    {
        RunConfig::new(Mode::Dns, &args.global, args.timeout, args.wildcard)
    }

    /// The configuration of a virtual-host run.
    pub fn for_vhost(args: &VhostArgs) -> (config: RunConfig)
        ensures
            config == config_of(Mode::Vhost, args.global, args.http.timeout, false),
    {
        RunConfig::new(Mode::Vhost, &args.global, args.http.timeout, false)
    }

    /// The configuration of a fuzz run.
    pub fn for_fuzz(args: &FuzzArgs) -> (config: RunConfig)
        ensures
            config == config_of(Mode::Fuzz, args.global, args.http.timeout, false),
    {
        RunConfig::new(Mode::Fuzz, &args.global, args.http.timeout, false)
    }

    /// The configuration of an S3 bucket run.
    pub fn for_s3(args: &S3Args) -> (config: RunConfig)
        ensures
            config == config_of(Mode::Bucket, args.global, args.timeout, false),
    {
        RunConfig::new(Mode::Bucket, &args.global, args.timeout, false)
    }

    /// The configuration of a Google Cloud Storage bucket run.
    pub fn for_gcs(args: &GcsArgs) -> (config: RunConfig)
        ensures
            config == config_of(Mode::Bucket, args.global, args.timeout, false),
    {
        RunConfig::new(Mode::Bucket, &args.global, args.timeout, false)
    }

    /// The configuration of a TFTP run.
    pub fn for_tftp(args: &TftpArgs) -> (config: RunConfig)
        ensures
            config == config_of(Mode::Tftp, args.global, args.timeout, false),
            config.threads <= TFTP_MAX_THREADS,
    {
        RunConfig::new(Mode::Tftp, &args.global, args.timeout, false)
    }
}

/// The status codes of an optional comma-separated list.
fn optional_codes(text: &Option<String>) -> (codes: Vec<u16>)
    ensures
        code_values(codes@) == optional_number_list(*text, u16::MAX as nat),
{
    match text {
        Some(s) => parse_code_list(s.as_str()),
        None => {
            let codes: Vec<u16> = Vec::new();
            assert(code_values(codes@) =~= Seq::<nat>::empty());
            codes
        },
    }
}

/// The sizes of an optional comma-separated list.
fn optional_sizes(text: &Option<String>) -> (sizes: Vec<usize>)
    ensures
        size_values(sizes@) == optional_number_list(*text, usize::MAX as nat),
{
    match text {
        Some(s) => parse_size_list(s.as_str()),
        None => {
            let sizes: Vec<usize> = Vec::new();
            assert(size_values(sizes@) =~= Seq::<nat>::empty());
            sizes
        },
    }
}

impl FilterPolicy {
    /// A policy without any rule.
    pub fn empty() -> (policy: FilterPolicy)
        ensures
            policy.allow_status@.len() == 0,
            policy.deny_status@.len() == 0,
            policy.deny_sizes@.len() == 0,
            policy.deny_substring is None,
            policy.baseline_size is None,
    {
        FilterPolicy {
            allow_status: Vec::new(),
            deny_status: Vec::new(),
            deny_sizes: Vec::new(),
            deny_substring: None,
            baseline_size: None,
        }
    }

    /// The policy of a directory run: the status codes to report, those
    /// never to report, and the sizes never to report.
    pub fn for_dir(args: &DirArgs) -> (policy: FilterPolicy)
        ensures
            code_values(policy.allow_status@) == number_list(args.status_codes@, u16::MAX as nat),
            code_values(policy.deny_status@) == optional_number_list(
                args.status_codes_blacklist,
                u16::MAX as nat,
            ),
            size_values(policy.deny_sizes@) == optional_number_list(
                args.exclude_length,
                usize::MAX as nat,
            ),
            policy.deny_substring is None,
            policy.baseline_size is None,
    {
        FilterPolicy {
            allow_status: args.parse_status_codes(),
            deny_status: args.parse_status_codes_blacklist(),
            deny_sizes: args.parse_exclude_lengths(),
            deny_substring: None,
            baseline_size: None,
        }
    }

    /// The policy of a fuzz run: the status codes and sizes never to
    /// report, and the text that a reported body must not hold.
    pub fn for_fuzz(args: &FuzzArgs) -> (policy: FilterPolicy)
        ensures
            policy.allow_status@.len() == 0,
            code_values(policy.deny_status@) == optional_number_list(
                args.exclude_status,
                u16::MAX as nat,
            ),
            size_values(policy.deny_sizes@) == optional_number_list(
                args.exclude_length,
                usize::MAX as nat,
            ),
            policy.deny_substring == args.filter_string,
            policy.baseline_size is None,
    {
        FilterPolicy {
            allow_status: Vec::new(),
            deny_status: optional_codes(&args.exclude_status),
            deny_sizes: optional_sizes(&args.exclude_length),
            deny_substring: args.filter_string.clone(),
            baseline_size: None,
        }
    }

    /// The policy of a virtual-host run: the sizes never to report, and the
    /// size of the baseline response, which is never reported either.
    pub fn for_vhost(args: &VhostArgs, baseline_size: usize) -> (policy: FilterPolicy)
        ensures
            policy.allow_status@.len() == 0,
            policy.deny_status@.len() == 0,
            size_values(policy.deny_sizes@) == optional_number_list(
                args.exclude_length,
                usize::MAX as nat,
            ),
            policy.deny_substring is None,
            policy.baseline_size == Some(baseline_size),
    {
        FilterPolicy {
            allow_status: Vec::new(),
            deny_status: Vec::new(),
            deny_sizes: optional_sizes(&args.exclude_length),
            deny_substring: None,
            baseline_size: Some(baseline_size),
        }
    }
}

} // verus!

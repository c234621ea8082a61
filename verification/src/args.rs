//! Command-line options of every mode, as plain values.

use crate::list::{
    code_values, entry_list, number_list, parse_code_list, parse_entry_list, parse_size_list,
    size_values,
};
use crate::text::views;
use vstd::prelude::*;

verus! {

/// The parsed command line: one mode with its options.
#[derive(Debug)]
pub struct Cli {
    pub command: Commands,
}

/// The modes.
#[derive(Debug)]
pub enum Commands {
    /// Directory/file enumeration mode
    Dir(DirArgs),
    /// DNS subdomain enumeration mode
    Dns(DnsArgs),
    /// Virtual host enumeration mode
    Vhost(VhostArgs),
    /// Fuzzing mode (replaces the FUZZ keyword)
    Fuzz(FuzzArgs),
    /// AWS S3 bucket enumeration mode
    S3(S3Args),
    /// Google Cloud Storage enumeration mode
    Gcs(GcsArgs),
    /// TFTP enumeration mode
    Tftp(TftpArgs),
}

/// Options shared by all modes.
#[derive(Debug, Clone)]
pub struct GlobalOpts {
    /// Path to the word list file
    pub wordlist: String,
    /// Number of concurrent probes
    pub threads: usize,
    /// Output file for results
    pub output: Option<String>,
    /// Suppress banner and non-essential output
    pub quiet: bool,
    /// Show probe errors
    pub verbose: bool,
    /// Disable the progress bar
    pub no_progress: bool,
    /// Delay before each request, in milliseconds
    pub delay: Option<u64>,
    /// No colour in the output
    pub no_color: bool,
}

/// Options shared by the HTTP modes.
#[derive(Debug, Clone)]
pub struct HttpOpts {
    /// Custom headers, each `Name: value`
    pub headers: Vec<String>,
    /// Cookies for requests
    pub cookies: Option<String>,
    /// User-Agent
    pub user_agent: String,
    /// Skip TLS certificate verification
    pub insecure: bool,
    /// Proxy URL
    pub proxy: Option<String>,
    /// HTTP Basic Auth user name
    pub username: Option<String>,
    /// HTTP Basic Auth password
    pub password: Option<String>,
    /// Request timeout in seconds
    pub timeout: u64,
    /// Follow redirects
    pub follow_redirect: bool,
    /// HTTP method
    pub method: String,
}

/// Options of the directory mode.
#[derive(Debug)]
pub struct DirArgs {
    pub global: GlobalOpts,
    pub http: HttpOpts,
    /// Target URL
    pub url: String,
    /// File extensions to try, comma-separated
    pub extensions: Option<String>,
    /// Status codes to report, comma-separated
    pub status_codes: String,
    /// Status codes never to report, comma-separated
    pub status_codes_blacklist: Option<String>,
    /// Also request each path with a trailing slash
    pub add_slash: bool,
    /// Print full URLs
    pub expanded: bool,
    /// Show the response length
    pub show_length: bool,
    /// Response lengths never to report, comma-separated
    pub exclude_length: Option<String>,
    /// Look for backup copies of each file found
    pub discover_backup: bool,
    /// Go on when the target answers every path
    pub wildcard: bool,
}

/// Options of the DNS mode.
#[derive(Debug)]
pub struct DnsArgs {
    pub global: GlobalOpts,
    /// Target domain
    pub domain: String,
    /// Resolver to ask, `IP` or `IP:port`
    pub resolver: Option<String>,
    /// Show resolved addresses
    pub show_ips: bool,
    /// Show CNAME records
    pub show_cname: bool,
    /// Go on when the domain answers every name
    pub wildcard: bool,
    /// Request timeout in seconds
    pub timeout: u64,
}

/// Options of the virtual-host mode.
#[derive(Debug)]
pub struct VhostArgs {
    pub global: GlobalOpts,
    pub http: HttpOpts,
    /// Target URL
    pub url: String,
    /// Append the base domain to each word
    pub append_domain: bool,
    /// The domain to append
    pub domain: Option<String>,
    /// Response lengths never to report, comma-separated
    pub exclude_length: Option<String>,
}

/// Options of the fuzzing mode.
#[derive(Debug)]
pub struct FuzzArgs {
    pub global: GlobalOpts,
    pub http: HttpOpts,
    /// Target URL, may hold the FUZZ keyword
    pub url: String,
    /// Request body, may hold the FUZZ keyword
    pub data: Option<String>,
    /// Status codes never to report, comma-separated
    pub exclude_status: Option<String>,
    /// Response lengths never to report, comma-separated
    pub exclude_length: Option<String>,
    /// Responses that hold this string are not reported
    pub filter_string: Option<String>,
}

/// Options of the S3 bucket mode.
#[derive(Debug)]
pub struct S3Args {
    pub global: GlobalOpts,
    /// Most object keys to list per bucket
    pub max_files: usize,
    /// Request timeout in seconds
    pub timeout: u64,
}

/// Options of the Google Cloud Storage bucket mode.
#[derive(Debug)]
pub struct GcsArgs {
    pub global: GlobalOpts,
    /// Most object keys to list per bucket
    pub max_files: usize,
    /// Request timeout in seconds
    pub timeout: u64,
}

/// Options of the TFTP mode.
#[derive(Debug)]
pub struct TftpArgs {
    pub global: GlobalOpts,
    /// TFTP server address
    pub server: String,
    /// Request timeout in seconds
    pub timeout: u64,
}

/// The numbers of an optional comma-separated list: none where the option
/// is absent.
pub open spec fn optional_number_list(s: Option<String>, max: nat) -> Seq<nat> {
    match s {
        Some(text) => number_list(text@, max),
        None => Seq::empty(),
    }
}

impl DirArgs {
    /// The status codes to report: the entries of `status_codes` that are
    /// numbers of 16 bits, in order.
    pub fn parse_status_codes(&self) -> (codes: Vec<u16>)
        ensures
            code_values(codes@) == number_list(self.status_codes@, u16::MAX as nat),
    {
        parse_code_list(self.status_codes.as_str())
    }

    /// The status codes never to report; none where the option is absent.
    pub fn parse_status_codes_blacklist(&self) -> (codes: Vec<u16>)
        ensures
            code_values(codes@) == optional_number_list(
                self.status_codes_blacklist,
                u16::MAX as nat,
            ),
    {
        match &self.status_codes_blacklist {
            Some(s) => parse_code_list(s.as_str()),
            None => {
                let codes: Vec<u16> = Vec::new();
                assert(code_values(codes@) =~= Seq::<nat>::empty());
                codes
            },
        }
    }

    /// The extensions to try: every entry of `extensions`, trimmed, empty
    /// ones included; none where the option is absent.
    pub fn parse_extensions(&self) -> (extensions: Vec<String>)
        ensures
            views(extensions@) == match self.extensions {
                Some(text) => entry_list(text@),
                None => Seq::empty(),
            },
    {
        match &self.extensions {
            Some(s) => parse_entry_list(s.as_str()),
            None => {
                let extensions: Vec<String> = Vec::new();
                assert(views(extensions@) =~= Seq::<Seq<char>>::empty());
                extensions
            },
        }
    }

    /// The response lengths never to report; none where the option is
    /// absent.
    pub fn parse_exclude_lengths(&self) -> (lengths: Vec<usize>)
        ensures
            size_values(lengths@) == optional_number_list(self.exclude_length, usize::MAX as nat),
    {
        match &self.exclude_length {
            Some(s) => parse_size_list(s.as_str()),
            None => {
                let lengths: Vec<usize> = Vec::new();
                assert(size_values(lengths@) =~= Seq::<nat>::empty());
                lengths
            },
        }
    }
}

} // verus!

//! The plain settings record the core consumes.
//!
//! Loading these from the command line or the environment is the shell's
//! business; the core only reads the fields.

use vstd::prelude::*;

verus! {

/// Runtime configuration.
pub struct Args {
    /// Path to the serial port.
    pub port: String,
    /// Baud rate.
    pub rate: u32,
    /// Target URL of the metric server.
    pub url: String,
    /// Delay between updates in milliseconds.
    pub delay: u64,
    /// Timeout for HTTP requests in milliseconds.
    pub timeout: u64,
    /// Minimum idle interval expected between data bursts, in milliseconds.
    pub data_min_interval: u64,
    /// Whether to dump raw data to standard output.
    pub verbose: bool,
    /// Label declarations, each of the form `key=value`.
    pub labels: Vec<String>,
}

impl Default for Args {
    /// The stock configuration: a local instrument and a local metric sink.
    fn default() -> (r: Args)
        ensures
            r.port@ == "/dev/ttyACM0"@,
            r.rate == 115200,
            r.url@ == "http://localhost:8428/api/v1/import/prometheus"@,
            r.delay == 10000,
            r.timeout == 5000,
            r.data_min_interval == 250,
            !r.verbose,
            r.labels@.len() == 0,
    {
        Args {
            port: "/dev/ttyACM0".to_owned(),
            rate: 115200,
            url: "http://localhost:8428/api/v1/import/prometheus".to_owned(),
            delay: 10000,
            timeout: 5000,
            data_min_interval: 250,
            verbose: false,
            labels: Vec::new(),
        }
    }
}

} // verus!

//! Options of the discovery service.

use vstd::prelude::*;
use vstd::string::StringExecFns;

verus! {

/// Streak of failed probes at which a root counts as dead, unless configured
/// otherwise.
pub const DEAD_OD_THRESHOLD: i32 = 10;

/// Seconds a single probe may take, unless configured otherwise.
pub const PROBE_TIMEOUT_SECS: u64 = 20;

/// Number of probes in flight at once, unless configured otherwise.
pub const POOL_SIZE: usize = 32;

/// Seconds between two scheduler ticks, unless configured otherwise.
pub const TICK_INTERVAL_SECS: u64 = 3;

/// Options of the service. Paths are kept as text; the program around the
/// library turns them into paths of the file system.
#[derive(Debug)]
pub struct Opt {
    /// Path of the directory scanner's executable.
    pub odd: String,
    /// Directories that hold scan results.
    pub scan_dir: Vec<String>,
    /// Address of the search index.
    pub elastic_url: String,
    /// Password for the search index.
    pub elastic_pass: String,
    /// Directory for public files.
    pub public_dir: String,
    /// Disables the scheduler.
    pub disable_scheduler: bool,
    /// Streak of failed probes at which a root counts as dead.
    pub dead_threshold: i32,
    /// Seconds a single probe may take.
    pub probe_timeout: u64,
    /// Number of probes in flight at once.
    pub pool_size: usize,
    /// Seconds between two scheduler ticks.
    pub tick_interval: u64,
}

/// What the library reads of an [`Opt`].
pub struct OptView {
    pub odd: Seq<char>,
    pub scan_dir: Seq<Seq<char>>,
    pub elastic_url: Seq<char>,
    pub elastic_pass: Seq<char>,
    pub public_dir: Seq<char>,
    pub disable_scheduler: bool,
    pub dead_threshold: int,
    pub probe_timeout: nat,
    pub pool_size: nat,
    pub tick_interval: nat,
}

impl View for Opt {
    type V = OptView;

    open spec fn view(&self) -> OptView {
        OptView {
            odd: self.odd@,
            scan_dir: self.scan_dir.deep_view(),
            elastic_url: self.elastic_url@,
            elastic_pass: self.elastic_pass@,
            public_dir: self.public_dir@,
            disable_scheduler: self.disable_scheduler,
            dead_threshold: self.dead_threshold as int,
            probe_timeout: self.probe_timeout as nat,
            pool_size: self.pool_size as nat,
            tick_interval: self.tick_interval as nat,
        }
    }
}

impl Opt {
    /// The options with which the service runs when nothing is configured.
    pub open spec fn defaults() -> OptView {
        OptView {
            odd: "OpenDirectoryDownloader/OpenDirectoryDownloader"@,
            scan_dir: Seq::empty(),
            elastic_url: "http://127.0.0.1:9200"@,
            elastic_pass: ""@,
            public_dir: "."@,
            disable_scheduler: false,
            dead_threshold: DEAD_OD_THRESHOLD as int,
            probe_timeout: PROBE_TIMEOUT_SECS as nat,
            pool_size: POOL_SIZE as nat,
            tick_interval: TICK_INTERVAL_SECS as nat,
        }
    }
}

impl Clone for Opt {
    fn clone(&self) -> (copy: Opt)
        ensures
            copy@ == self@,
    {
        let mut scan_dir: Vec<String> = Vec::new();
        let mut i: usize = 0;
        while i < self.scan_dir.len()
            invariant
                i <= self.scan_dir@.len(),
                scan_dir.deep_view() == self.scan_dir.deep_view().take(i as int),
            decreases self.scan_dir@.len() - i,
        {
            let ghost before = scan_dir.deep_view();
            let dir = self.scan_dir[i].clone();
            scan_dir.push(dir);
            assert(scan_dir.deep_view() =~= before.push(self.scan_dir.deep_view()[i as int]));
            i += 1;
            assert(self.scan_dir.deep_view().take(i as int) =~= before.push(
                self.scan_dir.deep_view()[i - 1],
            ));
        }
        assert(scan_dir.deep_view() =~= self.scan_dir.deep_view());
        Opt {
            odd: self.odd.clone(),
            scan_dir,
            elastic_url: self.elastic_url.clone(),
            elastic_pass: self.elastic_pass.clone(),
            public_dir: self.public_dir.clone(),
            disable_scheduler: self.disable_scheduler,
            dead_threshold: self.dead_threshold,
            probe_timeout: self.probe_timeout,
            pool_size: self.pool_size,
            tick_interval: self.tick_interval,
        }
    }
}

impl Default for Opt {
    fn default() -> (opt: Opt)
        ensures
            opt@ == Opt::defaults(),
    {
        let opt = Opt {
            odd: String::from_str("OpenDirectoryDownloader/OpenDirectoryDownloader"),
            scan_dir: Vec::new(),
            elastic_url: String::from_str("http://127.0.0.1:9200"),
            elastic_pass: String::from_str(""),
            public_dir: String::from_str("."),
            disable_scheduler: false,
            dead_threshold: DEAD_OD_THRESHOLD,
            probe_timeout: PROBE_TIMEOUT_SECS,
            pool_size: POOL_SIZE,
            tick_interval: TICK_INTERVAL_SECS,
        };
        assert(opt.scan_dir.deep_view() =~= Seq::empty());
        opt
    }
}

} // verus!

//! A scan from its configuration to its findings: which host to examine
//! next, and what has been found when all are done.

use crate::network::{cidr_value, host_addresses, refusal_text, Network, ScanError};
use crate::orchestrator::PrinterInfo;
use crate::report::{aggregate, ascending, found, records, sorted};
use crate::scheduler::{Dispatch, Load, Scheduler};
use vstd::prelude::*;
use vstd::string::StringExecFns;

verus! {

/// What a scan is run with.
#[derive(Clone, Debug, PartialEq, Eq)]
pub struct ScanConfig {
    /// The network to scan, in CIDR notation.
    pub network: String,
    /// How long a connection attempt may take, in milliseconds.
    pub timeout_ms: u64,
    /// How many hosts may be examined at once.
    pub concurrency: usize,
}

impl Default for ScanConfig {
    /// The network 192.168.199.0/24, two seconds for a connection, and
    /// fifty hosts at once.
    fn default() -> (r: ScanConfig)
        ensures
            r.network@ == "192.168.199.0/24"@,
            r.timeout_ms == 2000,
            r.concurrency == 50,
    {
        ScanConfig {
            network: String::from_str("192.168.199.0/24"),
            timeout_ms: 2000,
            concurrency: 50,
        }
    }
}

/// What a scan asks its caller to do next.
#[derive(Clone, Copy, Debug, PartialEq, Eq, Structural)]
pub enum Next {
    /// Begin the examination of the host at this address.
    Examine(u32),
    /// Wait until one of the examinations under way has ended, and record
    /// its outcome.
    Wait,
    /// Every host has been examined: take the findings.
    Done,
    /// Nothing can ever be begun: the configuration allows no host at a
    /// time.
    Stalled,
}

/// What `next` answers to a decision of the schedule, for the hosts `hosts`.
pub open spec fn request(decision: Dispatch, hosts: Seq<u32>) -> Next {
    match decision {
        Dispatch::Start(index) => Next::Examine(hosts[index as int]),
        Dispatch::Wait => Next::Wait,
        Dispatch::Done => Next::Done,
        Dispatch::Stalled => Next::Stalled,
    }
}

/// A scan under way.
pub struct Scan {
    network: Network,
    schedule: Scheduler,
    outcomes: Vec<Option<PrinterInfo>>,
}

impl Scan {
    /// What holds of a scan from its beginning on: the schedule counts the
    /// hosts of the network, and one outcome is recorded for each
    /// examination that has ended.
    pub closed spec fn wf(&self) -> bool {
        &&& self.schedule@.sound()
        &&& self.schedule@.total == self.network.host_sequence().len()
        &&& self.outcomes.len() == self.schedule@.finished
    }

    /// The hosts of the network that is scanned, ascending.
    pub closed spec fn hosts(&self) -> Seq<u32> {
        self.network.host_sequence()
    }

    /// How far the scan has come.
    pub closed spec fn load(&self) -> Load {
        self.schedule@
    }

    /// The outcomes recorded so far, in the order in which they came.
    pub closed spec fn gathered(&self) -> Seq<Option<PrinterInfo>> {
        self.outcomes@
    }

    /// Begins a scan. A network descriptor that cannot be read is the one
    /// error there is; with it nothing is examined.
    pub fn begin(config: &ScanConfig) -> (r: Result<Scan, ScanError>)
        ensures
            match r {
                Ok(scan) => {
                    &&& scan.wf()
                    &&& cidr_value(config.network@) matches Some(net)
                    &&& scan.hosts() == host_addresses(net.0, net.1)
                    &&& scan.load() == Load::initial(
                        scan.hosts().len(),
                        config.concurrency as nat,
                    )
                    &&& scan.gathered().len() == 0
                },
                Err(e) => cidr_value(config.network@) is None && e.reason() == refusal_text(),
            },
    {
        match Network::parse(config.network.as_str()) {
            Ok(network) => {
                let schedule = Scheduler::new(network.host_count(), config.concurrency);
                Ok(Scan { network, schedule, outcomes: Vec::new() })
            },
            Err(e) => Err(e),
        }
    }

    /// Says what to do next. A host that is to be examined counts as begun
    /// from this call on.
    pub fn next(&mut self) -> (r: Next)
        requires
            old(self).wf(),
        ensures
            final(self).wf(),
            r == request(old(self).load().decision(), old(self).hosts()),
            final(self).load() == old(self).load().polled(),
            final(self).hosts() == old(self).hosts(),
            final(self).gathered() == old(self).gathered(),
            final(self).load().active() <= final(self).load().limit,
    {
        match self.schedule.poll() {
            Dispatch::Start(index) => {
                match self.network.host(index) {
                    Some(ip) => Next::Examine(ip),
                    None => {
                        proof {
                            assert(false);
                        }
                        Next::Stalled
                    },
                }
            },
            Dispatch::Wait => Next::Wait,
            Dispatch::Done => Next::Done,
            Dispatch::Stalled => Next::Stalled,
        }
    }

    /// Records the outcome of an examination that has ended. The answer is
    /// whether one was under way; if none was, the outcome is dropped.
    pub fn record(&mut self, outcome: Option<PrinterInfo>) -> (r: bool)
        requires
            old(self).wf(),
        ensures
            final(self).wf(),
            r == (old(self).load().active() > 0),
            final(self).load() == old(self).load().completed(),
            final(self).hosts() == old(self).hosts(),
            final(self).gathered() == if r {
                old(self).gathered().push(outcome)
            } else {
                old(self).gathered()
            },
    {
        if self.schedule.complete() {
            self.outcomes.push(outcome);
            true
        } else {
            false
        }
    }

    /// Ends the scan: the findings recorded, sorted by address.
    pub fn findings(self) -> (r: Vec<PrinterInfo>)
        ensures
            records(r@) == sorted(found(self.gathered())),
            ascending(records(r@)),
            records(r@).to_multiset() == found(self.gathered()).to_multiset(),
    {
        aggregate(self.outcomes)
    }
}

} // verus!

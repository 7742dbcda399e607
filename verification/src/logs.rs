//! The network-log store: an in-memory list of observed connections and a
//! monitoring flag, read and mutated by the desktop commands.

use vstd::prelude::*;

use crate::page::window;
use crate::text::{chars_to_string, u64_to_dec};

verus! {

/// One observed network connection.
#[derive(Debug)]
pub struct NetworkLog {
    pub id: String,
    pub timestamp: String,
    pub domain: String,
    pub ip_address: String,
    pub ip_version: String,
    pub status: String,
    pub direction: String,
    pub protocol: String,
    pub port: Option<u16>,
    pub user_agent: Option<String>,
    pub source_ip: Option<String>,
    pub destination_ip: Option<String>,
}

impl NetworkLog {
    /// An equal copy.
    pub fn duplicate(&self) -> (r: Self)
        ensures
            r == *self,
    {
        NetworkLog {
            id: self.id.clone(),
            timestamp: self.timestamp.clone(),
            domain: self.domain.clone(),
            ip_address: self.ip_address.clone(),
            ip_version: self.ip_version.clone(),
            status: self.status.clone(),
            direction: self.direction.clone(),
            protocol: self.protocol.clone(),
            port: self.port,
            user_agent: match &self.user_agent {
                Some(s) => Some(s.clone()),
                None => None,
            },
            source_ip: match &self.source_ip {
                Some(s) => Some(s.clone()),
                None => None,
            },
            destination_ip: match &self.destination_ip {
                Some(s) => Some(s.clone()),
                None => None,
            },
        }
    }
}

/// The shared state behind the network-monitoring commands: the collected
/// logs and whether the background capture is running.
#[derive(Debug)]
pub struct LogStore {
    pub logs: Vec<NetworkLog>,
    pub monitoring: bool,
}

impl LogStore {
    /// The state at startup: no logs, monitoring off.
    pub fn new() -> (r: Self)
        ensures
            r.logs@.len() == 0,
            !r.monitoring,
    {
        LogStore { logs: Vec::new(), monitoring: false }
    }

    /// The collected logs.
    pub fn get_network_logs(&self) -> (r: &Vec<NetworkLog>)
        ensures
            r@ == self.logs@,
    {
        &self.logs
    }

    /// Whether the background capture is running.
    pub fn get_monitoring_state(&self) -> (r: bool)
        ensures
            r == self.monitoring,
    {
        self.monitoring
    }

    /// The logs at ordinals `[page * page_size, page * page_size +
    /// page_size)`, clipped to the collected count.
    pub fn get_network_logs_page(&self, page: usize, page_size: usize) -> (r: Vec<NetworkLog>)
        ensures
            r@ == window(self.logs@, page as int * page_size as int, page_size as int),
    {
        let total = self.logs.len();
        let start = match page.checked_mul(page_size) {
            Some(s) => s,
            None => {
                proof {
                    assert(window(self.logs@, page as int * page_size as int, page_size as int)
                        =~= Seq::<NetworkLog>::empty());
                }
                return Vec::new();
            },
        };
        let lo = if start <= total {
            start
        } else {
            total
        };
        let hi = if page_size <= total - lo {
            lo + page_size
        } else {
            total
        };
        let mut r: Vec<NetworkLog> = Vec::new();
        let mut i: usize = lo;
        while i < hi
            invariant
                lo <= i <= hi <= total == self.logs@.len(),
                r@ == self.logs@.subrange(lo as int, i as int),
            decreases hi - i,
        {
            let e = self.logs[i].duplicate();
            r.push(e);
            i = i + 1;
            assert(r@ =~= self.logs@.subrange(lo as int, i as int));
        }
        proof {
            assert(r@ =~= window(self.logs@, start as int, page_size as int));
        }
        r
    }

    /// How many logs are collected.
    pub fn get_network_logs_count(&self) -> (r: usize)
        ensures
            r == self.logs@.len(),
    {
        self.logs.len()
    }

    /// Discards every collected log; the monitoring flag is untouched.
    pub fn clear_network_logs(&mut self)
        ensures
            final(self).logs@.len() == 0,
            final(self).monitoring == old(self).monitoring,
    {
        self.logs.clear();
    }

    /// Starts monitoring; refused when it is already running, with the
    /// state unchanged.
    pub fn start_network_monitoring(&mut self) -> (r: Result<(), String>)
        ensures
            r is Ok <==> !old(self).monitoring,
            r is Ok ==> final(self).monitoring && final(self).logs@ == old(self).logs@,
            r is Err ==> *final(self) == *old(self) && r->Err_0@
                == "Network monitoring is already running"@,
    {
        if self.monitoring {
            Err(String::from_str("Network monitoring is already running"))
        } else {
            self.monitoring = true;
            Ok(())
        }
    }

    /// Stops monitoring; the logs are kept.
    pub fn stop_network_monitoring(&mut self)
        ensures
            !final(self).monitoring,
            final(self).logs@ == old(self).logs@,
    {
        self.monitoring = false;
    }

    /// Appends the five sample connections used to exercise the log view,
    /// with identifiers derived from the given instant.  Existing logs and
    /// the monitoring flag are untouched.
    pub fn generate_sample_logs(&mut self, now_nanos: u64, timestamp: &str)
        ensures
            final(self).logs@.len() == old(self).logs@.len() + 5,
            final(self).logs@.subrange(0, old(self).logs@.len() as int) == old(self).logs@,
            final(self).monitoring == old(self).monitoring,
    {
        let ghost base = self.logs@;
        let digits = u64_to_dec(now_nanos);
        let mut id = String::from_str("log_");
        let ds = chars_to_string(&digits);
        id.append(ds.as_str());
        let mut i: usize = 0;
        while i < 5
            invariant
                i <= 5,
                self.logs@.len() == base.len() + i,
                self.logs@.subrange(0, base.len() as int) == base,
                self.monitoring == old(self).monitoring,
            decreases 5 - i,
        {
            let (domain, ip, status) = if i == 0 {
                ("google.com", "142.250.190.78", "Allowed")
            } else if i == 1 {
                ("facebook.com", "157.240.241.35", "Blocked")
            } else if i == 2 {
                ("youtube.com", "142.250.190.78", "Allowed")
            } else if i == 3 {
                ("twitter.com", "104.244.42.193", "Blocked")
            } else {
                ("github.com", "140.82.112.4", "Allowed")
            };
            let log = NetworkLog {
                id: id.clone(),
                timestamp: String::from_str(timestamp),
                domain: String::from_str(domain),
                ip_address: String::from_str(ip),
                ip_version: String::from_str("IPv4"),
                status: String::from_str(status),
                direction: String::from_str("Outgoing"),
                protocol: String::from_str("TCP"),
                port: Some(443),
                user_agent: Some(
                    String::from_str(
                        "Mozilla/5.0 (Macintosh; Intel Mac OS X 10_15_7) AppleWebKit/537.36",
                    ),
                ),
                source_ip: Some(String::from_str("192.168.1.100")),
                destination_ip: Some(String::from_str(ip)),
            };
            self.logs.push(log);
            i = i + 1;
            assert(self.logs@.subrange(0, base.len() as int) =~= base);
        }
    }
}

} // verus!

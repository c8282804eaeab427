//! The ordered collection of monitored services and their last-known
//! statuses. The order is fixed at startup and defines the index namespace
//! selections resolve against; every refresh fully replaces each entry's
//! status from that tick's probe outcomes.
use vstd::prelude::*;
use crate::status::{DownProbe, OkProbe, StatusProbe, SvstatType, evaluate_status, spec_status};
use crate::tai::Tai;

verus! {

/// One monitored service: its identifying path and its current status,
/// `None` until the first refresh.
#[derive(Debug, Clone)]
pub struct Service {
    pub name: String,
    pub status: Option<SvstatType>,
}

/// The outcomes of one tick's filesystem probes for one service, gathered
/// by the caller and decoded here.
#[derive(Debug, Clone)]
pub struct ProbeSet {
    /// The service's directory resolved.
    pub dir_ok: bool,
    /// Stat of the `down` sentinel.
    pub down: DownProbe,
    /// Non-blocking open of the control channel.
    pub ok_probe: OkProbe,
    /// Open and read of the status record.
    pub status: StatusProbe,
}

/// What one probe set decodes to.
pub open spec fn probe_status(p: ProbeSet, now: Tai) -> SvstatType {
    spec_status(p.dir_ok, p.down, p.ok_probe, p.status, now)
}

/// The ordered service list, created once at startup and mutated only by
/// refresh.
pub struct ServiceRegistry {
    pub services: Vec<Service>,
}

impl ServiceRegistry {
    /// A registry over the given service paths, in the given order, with no
    /// status known yet.
    pub fn new(names: Vec<String>) -> (r: ServiceRegistry)
        ensures
            r.services@.len() == names@.len(),
            forall|i: int|
                0 <= i < names@.len() ==> (#[trigger] r.services@[i]).name@ == names@[i]@
                    && r.services@[i].status is None,
    {
        let mut services: Vec<Service> = Vec::new();
        let mut names = names;
        let n = names.len();
        let ghost all_names = names@;
        let mut i: usize = 0;
        while i < n
            invariant
                i <= n,
                names@ =~= all_names.skip(i as int),
                n == all_names.len(),
                services@.len() == i,
                forall|j: int|
                    0 <= j < i ==> (#[trigger] services@[j]).name@ == all_names[j]@
                        && services@[j].status is None,
            decreases n - i,
        {
            let name = names.remove(0);
            services.push(Service { name, status: None });
            proof {
                assert(names@ =~= all_names.skip(i + 1));
            }
            i = i + 1;
        }
        ServiceRegistry { services }
    }

    /// How many services are monitored.
    pub fn len(&self) -> (n: usize)
        ensures
            n == self.services@.len(),
    {
        self.services.len()
    }

    /// Read one service for rendering.
    pub fn get(&self, i: usize) -> (s: &Service)
        requires
            i < self.services@.len(),
        ensures
            *s == self.services@[i as int],
    {
        &self.services[i]
    }

    /// Decode one service's probe outcomes and replace its status; no other
    /// entry changes.
    pub fn refresh_one(&mut self, i: usize, probes: &ProbeSet, now: Tai)
        requires
            i < old(self).services@.len(),
        ensures
            final(self).services@.len() == old(self).services@.len(),
            final(self).services@[i as int].name@ == old(self).services@[i as int].name@,
            final(self).services@[i as int].status == Some(probe_status(*probes, now)),
            forall|j: int|
                0 <= j < old(self).services@.len() && j != i ==> final(self).services@[j] == old(
                    self,
                ).services@[j],
    {
        let st = evaluate_status(probes.dir_ok, probes.down, probes.ok_probe, &probes.status, now);
        self.services[i].status = Some(st);
    }

    /// Decode every service's probe outcomes in list order, replacing each
    /// entry's status with what its own probes say: one service's fault
    /// never touches another entry.
    pub fn refresh_all(&mut self, probes: &Vec<ProbeSet>, now: Tai)
        requires
            probes@.len() == old(self).services@.len(),
        ensures
            final(self).services@.len() == old(self).services@.len(),
            forall|i: int|
                0 <= i < old(self).services@.len() ==> {
                    &&& (#[trigger] final(self).services@[i]).name@ == old(self).services@[i].name@
                    &&& final(self).services@[i].status == Some(probe_status(probes@[i], now))
                },
    {
        let n = self.services.len();
        let mut i: usize = 0;
        while i < n
            invariant
                i <= n,
                n == self.services@.len(),
                self.services@.len() == old(self).services@.len(),
                probes@.len() == old(self).services@.len(),
                forall|j: int|
                    0 <= j < i ==> {
                        &&& (#[trigger] self.services@[j]).name@ == old(self).services@[j].name@
                        &&& self.services@[j].status == Some(probe_status(probes@[j], now))
                    },
                forall|j: int|
                    i <= j < n ==> self.services@[j] == old(self).services@[j],
            decreases n - i,
        {
            self.refresh_one(i, &probes[i], now);
            i = i + 1;
        }
    }
}

} // verus!

//! The port map: the translation table from a container's internal network
//! endpoints to the host-visible ports the runtime assigned at start time.

use vstd::prelude::*;

verus! {

/// Transport protocol of an exposed container port.
#[derive(Clone, Copy, PartialEq, Eq, Structural, Debug)]
pub enum Protocol {
    Tcp,
    Udp,
}

/// A port binding declared by an image: the host port (`local`) the caller
/// wants and the container-internal port it should reach.
#[derive(Clone, Copy, PartialEq, Eq, Structural, Debug)]
pub struct Port {
    pub local: u16,
    pub internal: u16,
}

impl Port {
    /// A binding of a host port to a container-internal port.
    pub fn new(local: u16, internal: u16) -> (p: Port)
        ensures
            p == (Port { local, internal }),
    {
        Port { local, internal }
    }
}

/// One entry of the runtime's port snapshot: the container-internal endpoint
/// `(internal, protocol)` was published on host port `host`.
#[derive(Clone, Copy, PartialEq, Eq, Structural, Debug)]
pub struct PortMapping {
    pub internal: u16,
    pub protocol: Protocol,
    pub host: u16,
}

/// A sequence of assignments records that `(internal, protocol)` was
/// published on `host`.
pub open spec fn maps_in(
    entries: Seq<PortMapping>,
    internal: u16,
    protocol: Protocol,
    host: u16,
) -> bool {
    entries.contains(PortMapping { internal, protocol, host })
}

/// A sequence of assignments records some host port for `(internal, protocol)`.
pub open spec fn exposed_in(entries: Seq<PortMapping>, internal: u16, protocol: Protocol) -> bool {
    exists|host: u16| maps_in(entries, internal, protocol, host)
}

/// A snapshot of the runtime's port assignments for one container, keyed by
/// `(internal port, protocol)` with unique keys.
#[derive(Clone, Debug)]
pub struct Ports {
    entries: Vec<PortMapping>,
}

impl Ports {
    /// The snapshot's entries, in insertion order.
    pub closed spec fn entries_seq(self) -> Seq<PortMapping> {
        self.entries@
    }

    /// Keys `(internal, protocol)` occur at most once.
    pub open spec fn wf(self) -> bool {
        forall|i: int, j: int|
            0 <= i < j < self.entries_seq().len() ==> !(self.entries_seq()[i].internal
                == self.entries_seq()[j].internal && self.entries_seq()[i].protocol
                == self.entries_seq()[j].protocol)
    }

    /// The snapshot records that `(internal, protocol)` was published on `host`.
    pub open spec fn maps(self, internal: u16, protocol: Protocol, host: u16) -> bool {
        maps_in(self.entries_seq(), internal, protocol, host)
    }

    /// Some host port is recorded for `(internal, protocol)`.
    pub open spec fn exposes(self, internal: u16, protocol: Protocol) -> bool {
        exposed_in(self.entries_seq(), internal, protocol)
    }

    /// An empty snapshot: nothing is exposed.
    pub fn new() -> (p: Ports)
        ensures
            p.wf(),
            p.entries_seq() == Seq::<PortMapping>::empty(),
    {
        Ports { entries: Vec::new() }
    }

    /// A snapshot made of the given assignments, whose keys must be unique.
    pub fn from_entries(entries: Vec<PortMapping>) -> (p: Ports)
        requires
            forall|i: int, j: int|
                0 <= i < j < entries@.len() ==> !(entries@[i].internal == entries@[j].internal
                    && entries@[i].protocol == entries@[j].protocol),
        ensures
            p.wf(),
            p.entries_seq() == entries@,
    {
        Ports { entries }
    }

    /// Records one assignment. A key already present is left as it was and
    /// the new entry is refused, so that the snapshot keeps one host port per
    /// internal endpoint.
    pub fn add(&mut self, m: PortMapping) -> (fresh: bool)
        requires
            old(self).wf(),
        ensures
            final(self).wf(),
            fresh == !old(self).exposes(m.internal, m.protocol),
            fresh ==> final(self).entries_seq() == old(self).entries_seq().push(m),
            !fresh ==> *final(self) == *old(self),
    {
        let n = self.entries.len();
        let mut i: usize = 0;
        while i < n
            invariant
                i <= n,
                n == self.entries_seq().len(),
                *self == *old(self),
                old(self).wf(),
                forall|k: int|
                    0 <= k < i ==> !(self.entries_seq()[k].internal == m.internal
                        && self.entries_seq()[k].protocol == m.protocol),
            decreases n - i,
        {
            let e = self.entries[i];
            if e.internal == m.internal && e.protocol == m.protocol {
                assert(self.maps(m.internal, m.protocol, e.host));
                return false;
            }
            i += 1;
        }
        assert forall|host: u16| !old(self).maps(m.internal, m.protocol, host) by {
            if old(self).maps(m.internal, m.protocol, host) {
                let k = choose|k: int|
                    0 <= k < old(self).entries_seq().len() && old(self).entries_seq()[k]
                        == (PortMapping { internal: m.internal, protocol: m.protocol, host });
                assert(old(self).entries_seq()[k].internal == m.internal);
            }
        }
        self.entries.push(m);
        true
    }

    /// Resolves `(internal, protocol)` to the host port the runtime assigned,
    /// or `None` where the snapshot exposes no such endpoint.
    pub fn map_to_host_port(&self, internal: u16, protocol: Protocol) -> (r: Option<u16>)
        ensures
            match r {
                Some(host) => self.maps(internal, protocol, host),
                None => !self.exposes(internal, protocol),
            },
    {
        let n = self.entries.len();
        let mut i: usize = 0;
        while i < n
            invariant
                i <= n,
                n == self.entries_seq().len(),
                forall|k: int|
                    0 <= k < i ==> !(self.entries_seq()[k].internal == internal
                        && self.entries_seq()[k].protocol == protocol),
            decreases n - i,
        {
            let e = self.entries[i];
            if e.internal == internal && e.protocol == protocol {
                assert(self.maps(internal, protocol, e.host));
                return Some(e.host);
            }
            i += 1;
        }
        assert forall|host: u16| !self.maps(internal, protocol, host) by {
            if self.maps(internal, protocol, host) {
                let k = choose|k: int|
                    0 <= k < self.entries_seq().len() && self.entries_seq()[k]
                        == (PortMapping { internal, protocol, host });
                assert(self.entries_seq()[k].internal == internal);
            }
        }
        None
    }
}

} // verus!

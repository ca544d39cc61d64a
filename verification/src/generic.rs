//! A generic container image: descriptor, launch arguments, readiness
//! conditions and port bindings all supplied by the caller, for containers
//! the library has no dedicated image for.

use vstd::prelude::*;
use crate::image::Image;
use crate::ports::Port;
use crate::wait::{WaitFor, WaitForView};

verus! {

/// An image assembled at run time from a descriptor, launch arguments, an
/// ordered list of readiness conditions, and optional port bindings.
#[derive(Debug)]
pub struct GenericImage {
    descriptor: String,
    arguments: Vec<String>,
    conditions: Vec<WaitFor>,
    ports: Option<Vec<Port>>,
}

impl GenericImage {
    /// A fresh image with the given descriptor, no arguments, no readiness
    /// conditions and no declared ports.
    pub fn new(descriptor: &str) -> (m: GenericImage)
        ensures
            m.descriptor_spec() == descriptor@,
            m.conditions() == Seq::<WaitForView>::empty(),
            m.ports_spec() is None,
            m.args_spec() == Seq::<Seq<char>>::empty(),
    {
        let m = GenericImage {
            descriptor: descriptor.to_owned(),
            arguments: Vec::new(),
            conditions: Vec::new(),
            ports: None,
        };
        proof {
            assert(m.conditions@.map_values(|w: WaitFor| w@) =~= Seq::<WaitForView>::empty());
            assert(m.arguments.deep_view() =~= Seq::<Seq<char>>::empty());
        }
        m
    }

    /// This image with one more readiness condition appended.
    pub fn with_wait_for(self, condition: WaitFor) -> (m: GenericImage)
        ensures
            m.descriptor_spec() == self.descriptor_spec(),
            m.conditions() == self.conditions().push(condition@),
            m.ports_spec() == self.ports_spec(),
            m.args_spec() == self.args_spec(),
    {
        let ghost orig = self.conditions@.map_values(|w: WaitFor| w@);
        let GenericImage { descriptor, arguments, mut conditions, ports } = self;
        conditions.push(condition);
        proof {
            assert(conditions@.map_values(|w: WaitFor| w@) =~= orig.push(condition@));
        }
        GenericImage { descriptor, arguments, conditions, ports }
    }

    /// This image with one more declared host-port binding appended.
    pub fn with_mapped_port(self, port: Port) -> (m: GenericImage)
        ensures
            m.descriptor_spec() == self.descriptor_spec(),
            m.conditions() == self.conditions(),
            m.args_spec() == self.args_spec(),
            m.ports_spec() == match self.ports_spec() {
                Some(s) => Some(s.push(port)),
                None => Some(seq![port]),
            },
    {
        let GenericImage { descriptor, arguments, conditions, ports } = self;
        let new_ports = match ports {
            Some(mut v) => {
                v.push(port);
                v
            },
            None => {
                let mut v: Vec<Port> = Vec::new();
                v.push(port);
                proof {
                    assert(Seq::<Port>::empty().push(port) =~= seq![port]);
                }
                v
            },
        };
        GenericImage { descriptor, arguments, conditions, ports: Some(new_ports) }
    }
}

impl Image for GenericImage {
    type Args = Vec<String>;

    closed spec fn descriptor_spec(&self) -> Seq<char> {
        self.descriptor@
    }

    closed spec fn conditions(&self) -> Seq<WaitForView> {
        self.conditions@.map_values(|w: WaitFor| w@)
    }

    closed spec fn ports_spec(&self) -> Option<Seq<Port>> {
        match self.ports {
            Some(v) => Some(v@),
            None => None,
        }
    }

    closed spec fn args_spec(&self) -> Seq<Seq<char>> {
        self.arguments.deep_view()
    }

    open spec fn env_vars_spec(&self) -> Seq<(Seq<char>, Seq<char>)> {
        Seq::empty()
    }

    open spec fn volumes_spec(&self) -> Seq<(Seq<char>, Seq<char>)> {
        Seq::empty()
    }

    fn descriptor(&self) -> (r: String) {
        self.descriptor.as_str().to_owned()
    }

    fn ready_conditions(&self) -> (v: Vec<WaitFor>) {
        let mut v: Vec<WaitFor> = Vec::new();
        let n = self.conditions.len();
        let mut i: usize = 0;
        while i < n
            invariant
                i <= n,
                n == self.conditions@.len(),
                v@.len() == i,
                forall|k: int| 0 <= k < i ==> (#[trigger] v@[k])@ == self.conditions@[k]@,
            decreases n - i,
        {
            v.push(self.conditions[i].duplicate());
            i += 1;
        }
        proof {
            assert(v@.map_values(|w: WaitFor| w@) =~= self.conditions@.map_values(
                |w: WaitFor| w@,
            ));
        }
        v
    }

    fn args(&self) -> (r: Vec<String>) {
        let mut v: Vec<String> = Vec::new();
        let n = self.arguments.len();
        let mut i: usize = 0;
        while i < n
            invariant
                i <= n,
                n == self.arguments@.len(),
                v@.len() == i,
                forall|k: int| 0 <= k < i ==> (#[trigger] v@[k])@ == self.arguments@[k]@,
            decreases n - i,
        {
            v.push(self.arguments[i].as_str().to_owned());
            i += 1;
        }
        proof {
            assert(v.deep_view() =~= self.arguments.deep_view());
        }
        v
    }

    fn env_vars(&self) -> (r: Vec<(String, String)>) {
        let r: Vec<(String, String)> = Vec::new();
        proof {
            assert(r.deep_view() =~= Seq::<(Seq<char>, Seq<char>)>::empty());
        }
        r
    }

    fn volumes(&self) -> (r: Vec<(String, String)>) {
        let r: Vec<(String, String)> = Vec::new();
        proof {
            assert(r.deep_view() =~= Seq::<(Seq<char>, Seq<char>)>::empty());
        }
        r
    }

    fn ports(&self) -> (r: Option<Vec<Port>>) {
        match &self.ports {
            Some(v) => {
                let mut copy: Vec<Port> = Vec::new();
                let n = v.len();
                let mut i: usize = 0;
                while i < n
                    invariant
                        i <= n,
                        n == v@.len(),
                        copy@ == v@.subrange(0, i as int),
                    decreases n - i,
                {
                    copy.push(v[i]);
                    proof {
                        assert(v@.subrange(0, i as int).push(v@[i as int]) =~= v@.subrange(
                            0,
                            i + 1,
                        ));
                    }
                    i += 1;
                }
                proof {
                    assert(v@.subrange(0, n as int) =~= v@);
                }
                Some(copy)
            },
            None => None,
        }
    }

    fn with_args(self, arguments: Vec<String>) -> (m: GenericImage) {
        GenericImage {
            descriptor: self.descriptor,
            arguments,
            conditions: self.conditions,
            ports: self.ports,
        }
    }
}

} // verus!

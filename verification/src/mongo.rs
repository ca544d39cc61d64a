//! The `mongo` container image: its descriptor, its (empty) launch
//! arguments, and its readiness condition.

use vstd::prelude::*;
use vstd::string::{StringExecFns, StringSliceAdditionalSpecFns};
use crate::image::Image;
use crate::ports::Port;
use crate::wait::{WaitFor, WaitForView};

verus! {

/// Launch arguments of the Mongo image: none are passed.
#[derive(Debug, Default, Clone)]
pub struct MongoArgs;

impl DeepView for MongoArgs {
    type V = Seq<Seq<char>>;

    open spec fn deep_view(&self) -> Seq<Seq<char>> {
        Seq::empty()
    }
}

impl MongoArgs {
    /// The argument list handed to the runtime: empty.
    pub fn to_args(self) -> (v: Vec<String>)
        ensures
            v.deep_view() == self.deep_view(),
    {
        let v: Vec<String> = Vec::new();
        proof {
            assert(v.deep_view() =~= Seq::<Seq<char>>::empty());
        }
        v
    }
}

/// Copies a declared port list.
fn clone_ports(v: &Vec<Port>) -> (r: Vec<Port>)
    ensures
        r@ == v@,
{
    let mut r: Vec<Port> = Vec::new();
    let n = v.len();
    let mut i: usize = 0;
    while i < n
        invariant
            i <= n,
            n == v@.len(),
            r@ == v@.subrange(0, i as int),
        decreases n - i,
    {
        r.push(v[i]);
        proof {
            assert(v@.subrange(0, i as int).push(v@[i as int]) =~= v@.subrange(0, i + 1));
        }
        i += 1;
    }
    proof {
        assert(v@.subrange(0, n as int) =~= v@);
    }
    r
}

/// The MongoDB image: ready once it reports on stdout that it waits for
/// connections.
#[derive(Debug)]
pub struct Mongo {
    tag: String,
    arguments: MongoArgs,
    ports: Option<Vec<Port>>,
}

impl Mongo {
    /// The image's version tag.
    pub closed spec fn tag_spec(&self) -> Seq<char> {
        self.tag@
    }

    /// This image with another version tag, everything else kept.
    pub fn with_tag(self, tag_str: &str) -> (m: Mongo)
        ensures
            m.tag_spec() == tag_str@,
            m.ports_spec() == self.ports_spec(),
    {
        Mongo { tag: tag_str.to_owned(), arguments: self.arguments, ports: self.ports }
    }

    /// This image with one more declared host-port binding appended.
    pub fn with_mapped_port(self, port: Port) -> (m: Mongo)
        ensures
            m.tag_spec() == self.tag_spec(),
            m.ports_spec() == match self.ports_spec() {
                Some(s) => Some(s.push(port)),
                None => Some(seq![port]),
            },
    {
        let Mongo { tag, arguments, ports } = self;
        let new_ports = match ports {
            Some(mut v) => {
                v.push(port);
                v
            },
            None => {
                let mut v: Vec<Port> = Vec::new();
                v.push(port);
                proof {
                    assert(Seq::<Port>::empty().push(port) =~= seq![port]);
                }
                v
            },
        };
        Mongo { tag, arguments, ports: Some(new_ports) }
    }
}

impl Default for Mongo {
    /// The image at its default tag, with no declared port bindings.
    fn default() -> (m: Mongo)
        ensures
            m.tag_spec() == "4.0.17"@,
            m.ports_spec() is None,
    {
        Mongo { tag: "4.0.17".to_owned(), arguments: MongoArgs {}, ports: None }
    }
}

impl Image for Mongo {
    type Args = MongoArgs;

    open spec fn descriptor_spec(&self) -> Seq<char> {
        "mongo:"@ + self.tag_spec()
    }

    open spec fn conditions(&self) -> Seq<WaitForView> {
        seq![
            WaitForView::StdOutMessage {
                message: "waiting for connections on port".spec_bytes(),
            },
        ]
    }

    closed spec fn ports_spec(&self) -> Option<Seq<Port>> {
        match self.ports {
            Some(v) => Some(v@),
            None => None,
        }
    }

    open spec fn args_spec(&self) -> Seq<Seq<char>> {
        Seq::empty()
    }

    open spec fn env_vars_spec(&self) -> Seq<(Seq<char>, Seq<char>)> {
        Seq::empty()
    }

    open spec fn volumes_spec(&self) -> Seq<(Seq<char>, Seq<char>)> {
        Seq::empty()
    }

    fn descriptor(&self) -> (r: String) {
        "mongo:".to_owned().concat(self.tag.as_str())
    }

    fn ready_conditions(&self) -> (v: Vec<WaitFor>) {
        let w = WaitFor::message_on_stdout("waiting for connections on port");
        let mut v: Vec<WaitFor> = Vec::new();
        v.push(w);
        proof {
            assert(v@.map_values(|x: WaitFor| x@) =~= self.conditions());
        }
        v
    }

    fn args(&self) -> (r: MongoArgs) {
        MongoArgs {  }
    }

    fn env_vars(&self) -> (r: Vec<(String, String)>) {
        let r: Vec<(String, String)> = Vec::new();
        proof {
            assert(r.deep_view() =~= Seq::<(Seq<char>, Seq<char>)>::empty());
        }
        r
    }

    fn volumes(&self) -> (r: Vec<(String, String)>) {
        let r: Vec<(String, String)> = Vec::new();
        proof {
            assert(r.deep_view() =~= Seq::<(Seq<char>, Seq<char>)>::empty());
        }
        r
    }

    fn ports(&self) -> (r: Option<Vec<Port>>) {
        match &self.ports {
            Some(v) => Some(clone_ports(v)),
            None => None,
        }
    }

    fn with_args(self, arguments: MongoArgs) -> (m: Mongo) {
        Mongo { tag: self.tag, arguments, ports: self.ports }
    }
}

} // verus!

//! The Parity Ethereum container image: its descriptor, its fixed launch
//! arguments, and its readiness condition.

use vstd::prelude::*;
use vstd::string::{StringExecFns, StringSliceAdditionalSpecFns};
use crate::image::Image;
use crate::ports::Port;
use crate::wait::{WaitFor, WaitForView};

verus! {

/// Launch arguments of the Parity Ethereum image: a fixed development
/// configuration.
#[derive(Debug, Default, Clone)]
pub struct ParityEthereumArgs;

impl DeepView for ParityEthereumArgs {
    type V = Seq<Seq<char>>;

    open spec fn deep_view(&self) -> Seq<Seq<char>> {
        seq!["--config=dev"@, "--jsonrpc-apis=all"@, "--unsafe-expose"@, "--tracing=on"@]
    }
}

impl ParityEthereumArgs {
    /// The argument list handed to the runtime, in order.
    pub fn to_args(self) -> (v: Vec<String>)
        ensures
            v.deep_view() == self.deep_view(),
    {
        let mut v: Vec<String> = Vec::new();
        v.push("--config=dev".to_owned());
        v.push("--jsonrpc-apis=all".to_owned());
        v.push("--unsafe-expose".to_owned());
        v.push("--tracing=on".to_owned());
        proof {
            assert(v.deep_view() =~= self.deep_view());
        }
        v
    }
}

/// The Parity Ethereum image: ready once it announces its public node URL
/// on stderr.
#[derive(Debug)]
pub struct ParityEthereum {
    arguments: ParityEthereumArgs,
    tag: String,
}

impl ParityEthereum {
    /// The image's version tag.
    pub closed spec fn tag_spec(&self) -> Seq<char> {
        self.tag@
    }

    /// This image with another version tag, everything else kept.
    pub fn with_tag(self, tag_str: &str) -> (m: ParityEthereum)
        ensures
            m.tag_spec() == tag_str@,
    {
        ParityEthereum { arguments: self.arguments, tag: tag_str.to_owned() }
    }
}

impl Default for ParityEthereum {
    /// The image at its default tag.
    fn default() -> (m: ParityEthereum)
        ensures
            m.tag_spec() == "v2.2.9"@,
    {
        ParityEthereum { arguments: ParityEthereumArgs {  }, tag: "v2.2.9".to_owned() }
    }
}

impl Image for ParityEthereum {
    type Args = ParityEthereumArgs;

    open spec fn descriptor_spec(&self) -> Seq<char> {
        "parity/parity:"@ + self.tag_spec()
    }

    open spec fn conditions(&self) -> Seq<WaitForView> {
        seq![WaitForView::StdErrMessage { message: "Public node URL:".spec_bytes() }]
    }

    open spec fn ports_spec(&self) -> Option<Seq<Port>> {
        None
    }

    open spec fn args_spec(&self) -> Seq<Seq<char>> {
        seq!["--config=dev"@, "--jsonrpc-apis=all"@, "--unsafe-expose"@, "--tracing=on"@]
    }

    open spec fn env_vars_spec(&self) -> Seq<(Seq<char>, Seq<char>)> {
        Seq::empty()
    }

    open spec fn volumes_spec(&self) -> Seq<(Seq<char>, Seq<char>)> {
        Seq::empty()
    }

    fn descriptor(&self) -> (r: String) {
        "parity/parity:".to_owned().concat(self.tag.as_str())
    }

    fn ready_conditions(&self) -> (v: Vec<WaitFor>) {
        let w = WaitFor::message_on_stderr("Public node URL:");
        let mut v: Vec<WaitFor> = Vec::new();
        v.push(w);
        proof {
            assert(v@.map_values(|x: WaitFor| x@) =~= self.conditions());
        }
        v
    }

    fn args(&self) -> (r: ParityEthereumArgs) {
        ParityEthereumArgs {  }
    }

    fn env_vars(&self) -> (r: Vec<(String, String)>) {
        let r: Vec<(String, String)> = Vec::new();
        proof {
            assert(r.deep_view() =~= Seq::<(Seq<char>, Seq<char>)>::empty());
        }
        r
    }

    fn volumes(&self) -> (r: Vec<(String, String)>) {
        let r: Vec<(String, String)> = Vec::new();
        proof {
            assert(r.deep_view() =~= Seq::<(Seq<char>, Seq<char>)>::empty());
        }
        r
    }

    fn ports(&self) -> (r: Option<Vec<Port>>) {
        None
    }

    fn with_args(self, arguments: ParityEthereumArgs) -> (m: ParityEthereum) {
        ParityEthereum { arguments, tag: self.tag }
    }
}

} // verus!

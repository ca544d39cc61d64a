//! The image abstraction: a static descriptor of a container image, its
//! launch arguments and its declared readiness strategy.

use vstd::prelude::*;
use crate::ports::Port;
use crate::wait::{WaitFor, WaitForView};

verus! {

/// A container image known to the orchestration core: its runtime descriptor
/// (`name:tag`), its launch arguments, and the ordered readiness conditions a
/// started instance must satisfy before its handle is released.
pub trait Image: Sized {
    /// The launch-argument carrier of this image, viewed as the list of
    /// argument strings it stands for.
    type Args: DeepView<V = Seq<Seq<char>>>;

    /// The descriptor the runtime is asked to instantiate.
    spec fn descriptor_spec(&self) -> Seq<char>;

    /// The declared readiness conditions, in evaluation order.
    spec fn conditions(&self) -> Seq<WaitForView>;

    /// The declared host-port bindings, if any.
    spec fn ports_spec(&self) -> Option<Seq<Port>>;

    /// The launch arguments, as strings, in order.
    spec fn args_spec(&self) -> Seq<Seq<char>>;

    /// The environment variables set inside the container, as name/value
    /// pairs, in order.
    spec fn env_vars_spec(&self) -> Seq<(Seq<char>, Seq<char>)>;

    /// The volume bindings of the container, as source/target pairs, in
    /// order.
    spec fn volumes_spec(&self) -> Seq<(Seq<char>, Seq<char>)>;

    /// The runtime-image identifier and version tag, as `name:tag`.
    fn descriptor(&self) -> (r: String)
        ensures
            r@ == self.descriptor_spec(),
    ;

    /// The readiness conditions an instance must satisfy, in order.
    fn ready_conditions(&self) -> (v: Vec<WaitFor>)
        ensures
            v@.map_values(|w: WaitFor| w@) == self.conditions(),
    ;

    /// The launch arguments handed to the runtime.
    fn args(&self) -> (r: Self::Args)
        ensures
            r.deep_view() == self.args_spec(),
    ;

    /// Environment variables set inside the container.
    fn env_vars(&self) -> (r: Vec<(String, String)>)
        ensures
            r.deep_view() == self.env_vars_spec(),
    ;

    /// Volume bindings of the container.
    fn volumes(&self) -> (r: Vec<(String, String)>)
        ensures
            r.deep_view() == self.volumes_spec(),
    ;

    /// The host-port bindings the image declares, or `None` to let the
    /// runtime assign free ports.
    fn ports(&self) -> (r: Option<Vec<Port>>)
        ensures
            match r {
                Some(v) => self.ports_spec() == Some(v@),
                None => self.ports_spec() is None,
            },
    ;

    /// This image with its launch arguments replaced, everything else kept.
    fn with_args(self, arguments: Self::Args) -> (m: Self)
        ensures
            m.args_spec() == arguments.deep_view(),
            m.descriptor_spec() == self.descriptor_spec(),
            m.conditions() == self.conditions(),
            m.ports_spec() == self.ports_spec(),
            m.env_vars_spec() == self.env_vars_spec(),
            m.volumes_spec() == self.volumes_spec(),
    ;
}

} // verus!

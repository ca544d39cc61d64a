//! The orchestration core: the runtime-client capability, the readiness
//! loop, and the container handle with its teardown guarantee.

use vstd::prelude::*;
use crate::image::Image;
use crate::logs::{contains_pattern, is_match_at, lemma_match_embed, lemma_match_extend,
    lemma_skip_of_concat, copy_range, LogMatcher};
use crate::ports::{maps_in, exposed_in, PortMapping, Ports, Protocol};
use crate::wait::{durations_of, has_stderr_message, has_stdout_message, WaitFor, WaitForView};

verus! {

/// What disposal of a handle does to its container: remove it from the
/// runtime, or keep it running for post-mortem inspection.
#[derive(Clone, Copy, PartialEq, Eq, Structural, Debug)]
pub enum Command {
    Remove,
    Keep,
}

/// Failure of the readiness wait: a log stream closed before the awaited
/// message appeared. Carries the container's id and the index of the unmet
/// condition; `scanned_from` marks (in ghost state) where in the stream the
/// failed wait began scanning.
pub enum WaitError {
    EndOfStream { id: String, condition_index: usize, scanned_from: Ghost<int> },
}

/// Failure of port resolution: the runtime never published the requested
/// endpoint. Distinct from any runtime failure, so callers can tell a bad
/// test configuration from a broken environment.
#[derive(Clone, Copy, PartialEq, Eq, Structural, Debug)]
pub enum PortError {
    NotMapped { internal: u16, protocol: Protocol },
}

/// The lifecycle call log (containers started, stopped, removed) is the same
/// in two client states.
pub open spec fn same_lifecycle<D: DockerAsync>(a: D, b: D) -> bool {
    &&& b.started() == a.started()
    &&& b.stopped() == a.stopped()
    &&& b.removed() == a.removed()
}

/// Port assignments and full stream contents are the same in two client
/// states; only read positions may differ.
pub open spec fn same_ports_and_content<D: DockerAsync>(a: D, b: D) -> bool {
    &&& forall|x: Seq<char>| b.port_map(x) == a.port_map(x)
    &&& forall|x: Seq<char>| b.stdout_full(x) == a.stdout_full(x)
    &&& forall|x: Seq<char>| b.stderr_full(x) == a.stderr_full(x)
}

/// No stream of any container was read between two client states.
pub open spec fn same_stream_reads<D: DockerAsync>(a: D, b: D) -> bool {
    &&& forall|x: Seq<char>| b.stdout_read(x) == a.stdout_read(x)
    &&& forall|x: Seq<char>| b.stderr_read(x) == a.stderr_read(x)
}

/// The bytes handed out so far from the chosen stream of `id`.
pub open spec fn stream_read<D: DockerAsync>(d: D, id: Seq<char>, stdout: bool) -> Seq<u8> {
    if stdout {
        d.stdout_read(id)
    } else {
        d.stderr_read(id)
    }
}

/// Everything the chosen stream of `id` will ever produce.
pub open spec fn stream_full<D: DockerAsync>(d: D, id: Seq<char>, stdout: bool) -> Seq<u8> {
    if stdout {
        d.stdout_full(id)
    } else {
        d.stderr_full(id)
    }
}

/// The runtime-client capability the orchestration core consumes: starting,
/// stopping and removing containers, tailing their output streams, fetching
/// their port assignments, and — as the single suspension primitive of the
/// otherwise synchronous core — pausing the calling flow.
///
/// A client state models, in ghost state, the calls issued so far (`started`,
/// `stopped`, `removed`, `slept`), each container's full stream contents, and
/// how much of each stream has been handed out.
pub trait DockerAsync: Sized {
    /// Ids passed to `start`, in call order.
    spec fn started(&self) -> Seq<Seq<char>>;

    /// Ids passed to `stop`, in call order.
    spec fn stopped(&self) -> Seq<Seq<char>>;

    /// Ids passed to `rm`, in call order.
    spec fn removed(&self) -> Seq<Seq<char>>;

    /// Durations passed to `sleep`, in call order.
    spec fn slept(&self) -> Seq<u64>;

    /// The stdout bytes of container `id` handed out so far.
    spec fn stdout_read(&self, id: Seq<char>) -> Seq<u8>;

    /// The stderr bytes of container `id` handed out so far.
    spec fn stderr_read(&self, id: Seq<char>) -> Seq<u8>;

    /// Everything the stdout stream of container `id` will ever produce.
    spec fn stdout_full(&self, id: Seq<char>) -> Seq<u8>;

    /// Everything the stderr stream of container `id` will ever produce.
    spec fn stderr_full(&self, id: Seq<char>) -> Seq<u8>;

    /// The runtime's port assignments for container `id`, fixed at start
    /// time.
    spec fn port_map(&self, id: Seq<char>) -> Seq<PortMapping>;

    /// Pulls the next chunk of the stdout stream of `id`, or `None` once the
    /// stream has delivered everything it will ever produce.
    fn stdout_next(&mut self, id: &str) -> (chunk: Option<Vec<u8>>)
        ensures
            final(self).started() == old(self).started(),
            final(self).stopped() == old(self).stopped(),
            final(self).removed() == old(self).removed(),
            forall|x: Seq<char>| final(self).port_map(x) == old(self).port_map(x),
            forall|x: Seq<char>| final(self).stdout_full(x) == old(self).stdout_full(x),
            forall|x: Seq<char>| final(self).stderr_full(x) == old(self).stderr_full(x),
            final(self).slept() == old(self).slept(),
            forall|x: Seq<char>| final(self).stderr_read(x) == old(self).stderr_read(x),
            forall|x: Seq<char>|
                x != id@ ==> final(self).stdout_read(x) == old(self).stdout_read(x),
            match chunk {
                Some(c) => final(self).stdout_read(id@) == old(self).stdout_read(id@) + c@
                    && c@.len() > 0,
                None => final(self).stdout_read(id@) == old(self).stdout_read(id@),
            },
            old(self).stdout_read(id@).is_prefix_of(old(self).stdout_full(id@)) ==> match chunk {
                Some(_) => final(self).stdout_read(id@).is_prefix_of(
                    old(self).stdout_full(id@),
                ),
                None => old(self).stdout_read(id@) == old(self).stdout_full(id@),
            },
    ;

    /// Pulls the next chunk of the stderr stream of `id`, or `None` once the
    /// stream has delivered everything it will ever produce.
    fn stderr_next(&mut self, id: &str) -> (chunk: Option<Vec<u8>>)
        ensures
            final(self).started() == old(self).started(),
            final(self).stopped() == old(self).stopped(),
            final(self).removed() == old(self).removed(),
            forall|x: Seq<char>| final(self).port_map(x) == old(self).port_map(x),
            forall|x: Seq<char>| final(self).stdout_full(x) == old(self).stdout_full(x),
            forall|x: Seq<char>| final(self).stderr_full(x) == old(self).stderr_full(x),
            final(self).slept() == old(self).slept(),
            forall|x: Seq<char>| final(self).stdout_read(x) == old(self).stdout_read(x),
            forall|x: Seq<char>|
                x != id@ ==> final(self).stderr_read(x) == old(self).stderr_read(x),
            match chunk {
                Some(c) => final(self).stderr_read(id@) == old(self).stderr_read(id@) + c@
                    && c@.len() > 0,
                None => final(self).stderr_read(id@) == old(self).stderr_read(id@),
            },
            old(self).stderr_read(id@).is_prefix_of(old(self).stderr_full(id@)) ==> match chunk {
                Some(_) => final(self).stderr_read(id@).is_prefix_of(
                    old(self).stderr_full(id@),
                ),
                None => old(self).stderr_read(id@) == old(self).stderr_full(id@),
            },
    ;

    /// Fetches the runtime's port assignments for `id`: a fresh snapshot of
    /// runtime truth, not a cached guess.
    fn ports(&self, id: &str) -> (p: Ports)
        ensures
            p.wf(),
            p.entries_seq() == self.port_map(id@),
    ;

    /// Asks the runtime to start container `id`.
    fn start(&mut self, id: &str)
        ensures
            final(self).started() == old(self).started().push(id@),
            final(self).stopped() == old(self).stopped(),
            final(self).removed() == old(self).removed(),
            final(self).slept() == old(self).slept(),
            forall|x: Seq<char>| final(self).port_map(x) == old(self).port_map(x),
            forall|x: Seq<char>| final(self).stdout_full(x) == old(self).stdout_full(x),
            forall|x: Seq<char>| final(self).stderr_full(x) == old(self).stderr_full(x),
            forall|x: Seq<char>| final(self).stdout_read(x) == old(self).stdout_read(x),
            forall|x: Seq<char>| final(self).stderr_read(x) == old(self).stderr_read(x),
    ;

    /// Asks the runtime to stop container `id`.
    fn stop(&mut self, id: &str)
        ensures
            final(self).stopped() == old(self).stopped().push(id@),
            final(self).started() == old(self).started(),
            final(self).removed() == old(self).removed(),
            final(self).slept() == old(self).slept(),
            forall|x: Seq<char>| final(self).port_map(x) == old(self).port_map(x),
            forall|x: Seq<char>| final(self).stdout_full(x) == old(self).stdout_full(x),
            forall|x: Seq<char>| final(self).stderr_full(x) == old(self).stderr_full(x),
            forall|x: Seq<char>| final(self).stdout_read(x) == old(self).stdout_read(x),
            forall|x: Seq<char>| final(self).stderr_read(x) == old(self).stderr_read(x),
    ;

    /// Asks the runtime to remove container `id`.
    fn rm(&mut self, id: &str)
        ensures
            final(self).removed() == old(self).removed().push(id@),
            final(self).started() == old(self).started(),
            final(self).stopped() == old(self).stopped(),
            final(self).slept() == old(self).slept(),
            forall|x: Seq<char>| final(self).port_map(x) == old(self).port_map(x),
            forall|x: Seq<char>| final(self).stdout_full(x) == old(self).stdout_full(x),
            forall|x: Seq<char>| final(self).stderr_full(x) == old(self).stderr_full(x),
            forall|x: Seq<char>| final(self).stdout_read(x) == old(self).stdout_read(x),
            forall|x: Seq<char>| final(self).stderr_read(x) == old(self).stderr_read(x),
    ;

    /// Pauses the calling flow for `millis` milliseconds. The client is the
    /// only collaborator that may suspend the orchestration flow, so the
    /// timer lives on it too.
    fn sleep(&mut self, millis: u64)
        ensures
            final(self).slept() == old(self).slept().push(millis),
            final(self).started() == old(self).started(),
            final(self).stopped() == old(self).stopped(),
            final(self).removed() == old(self).removed(),
            forall|x: Seq<char>| final(self).port_map(x) == old(self).port_map(x),
            forall|x: Seq<char>| final(self).stdout_full(x) == old(self).stdout_full(x),
            forall|x: Seq<char>| final(self).stderr_full(x) == old(self).stderr_full(x),
            forall|x: Seq<char>| final(self).stdout_read(x) == old(self).stdout_read(x),
            forall|x: Seq<char>| final(self).stderr_read(x) == old(self).stderr_read(x),
    ;
}

/// Reads the chosen stream of container `id` until `message` has occurred in
/// the bytes read by this call, or the stream closes first. On failure the
/// message provably never occurs in anything the stream still held.
fn wait_for_message<D: DockerAsync>(
    docker: &mut D,
    id: &str,
    from_stdout: bool,
    message: &Vec<u8>,
    condition_index: usize,
) -> (r: Result<(), WaitError>)
    requires
        stream_read(*old(docker), id@, from_stdout).is_prefix_of(
            stream_full(*old(docker), id@, from_stdout),
        ),
    ensures
        same_lifecycle(*old(docker), *final(docker)),
        same_ports_and_content(*old(docker), *final(docker)),
        final(docker).slept() == old(docker).slept(),
        stream_read(*final(docker), id@, !from_stdout) == stream_read(
            *old(docker),
            id@,
            !from_stdout,
        ),
        forall|x: Seq<char>|
            x != id@ ==> final(docker).stdout_read(x) == old(docker).stdout_read(x),
        forall|x: Seq<char>|
            x != id@ ==> final(docker).stderr_read(x) == old(docker).stderr_read(x),
        stream_read(*old(docker), id@, from_stdout).is_prefix_of(
            stream_read(*final(docker), id@, from_stdout),
        ),
        stream_read(*final(docker), id@, from_stdout).is_prefix_of(
            stream_full(*old(docker), id@, from_stdout),
        ),
        match r {
            Ok(_) => contains_pattern(
                stream_read(*final(docker), id@, from_stdout).skip(
                    stream_read(*old(docker), id@, from_stdout).len() as int,
                ),
                message@,
            ),
            Err(e) => {
                &&& e matches WaitError::EndOfStream { id: eid, condition_index: ci, scanned_from }
                &&& eid@ == id@
                &&& ci == condition_index
                &&& scanned_from@ == stream_read(*old(docker), id@, from_stdout).len() as int
                &&& stream_read(*final(docker), id@, from_stdout) == stream_full(
                    *old(docker),
                    id@,
                    from_stdout,
                )
                &&& !contains_pattern(
                    stream_full(*old(docker), id@, from_stdout).skip(
                        stream_read(*old(docker), id@, from_stdout).len() as int,
                    ),
                    message@,
                )
            },
        },
{
    let pattern = copy_range(message, 0, message.len());
    proof {
        assert(message@.subrange(0, message@.len() as int) =~= message@);
    }
    let mut matcher = LogMatcher::new(pattern);
    let ghost start_read = stream_read(*old(docker), id@, from_stdout);
    if matcher.is_found() {
        proof {
            lemma_skip_of_concat(start_read, Seq::<u8>::empty());
            assert(start_read + Seq::<u8>::empty() =~= start_read);
            assert(Seq::<u8>::empty().subrange(0, 0) =~= message@);
            assert(is_match_at(Seq::<u8>::empty(), message@, 0));
        }
        return Ok(());
    }
    loop
        invariant
            matcher.wf(),
            !matcher.matched(),
            matcher.pattern_spec() == message@,
            same_lifecycle(*old(docker), *docker),
            same_ports_and_content(*old(docker), *docker),
            docker.slept() == old(docker).slept(),
            stream_read(*docker, id@, !from_stdout) == stream_read(*old(docker), id@, !from_stdout),
            forall|x: Seq<char>|
                x != id@ ==> docker.stdout_read(x) == old(docker).stdout_read(x),
            forall|x: Seq<char>|
                x != id@ ==> docker.stderr_read(x) == old(docker).stderr_read(x),
            stream_read(*docker, id@, from_stdout) == start_read + matcher.seen(),
            start_read == stream_read(*old(docker), id@, from_stdout),
            start_read.is_prefix_of(stream_full(*old(docker), id@, from_stdout)),
            stream_read(*docker, id@, from_stdout).is_prefix_of(
                stream_full(*old(docker), id@, from_stdout),
            ),
        decreases stream_full(*old(docker), id@, from_stdout).len() - stream_read(
            *docker,
            id@,
            from_stdout,
        ).len(),
    {
        proof {
            assert(start_read + matcher.seen() =~= stream_read(*docker, id@, from_stdout));
        }
        let chunk = if from_stdout {
            docker.stdout_next(id)
        } else {
            docker.stderr_next(id)
        };
        match chunk {
            Some(c) => {
                let found = matcher.feed(&c);
                proof {
                    assert(start_read + (matcher.seen()) =~= stream_read(
                        *docker,
                        id@,
                        from_stdout,
                    ));
                }
                if found {
                    proof {
                        lemma_skip_of_concat(start_read, matcher.seen());
                    }
                    return Ok(());
                }
            },
            None => {
                proof {
                    matcher.lemma_unmatched_means_absent();
                    lemma_skip_of_concat(start_read, matcher.seen());
                }
                return Err(
                    WaitError::EndOfStream {
                        id: id.to_owned(),
                        condition_index,
                        scanned_from: Ghost(start_read.len() as int),
                    },
                );
            },
        }
    }
}


/// One step of the readiness loop preserves its progress facts: conditions
/// already satisfied stay satisfied when a stream advances, the condition
/// just evaluated is satisfied over the bytes read since construction began,
/// and a stream no condition so far has watched is still unread.
proof fn lemma_step_preserves_progress<D: DockerAsync>(
    prev: D,
    cur: D,
    id: Seq<char>,
    out0: Seq<u8>,
    err0: Seq<u8>,
    cview: Seq<WaitForView>,
    i: int,
)
    requires
        0 <= i < cview.len(),
        out0.is_prefix_of(prev.stdout_read(id)),
        err0.is_prefix_of(prev.stderr_read(id)),
        cur.stdout_read(id) == prev.stdout_read(id) || prev.stdout_read(id).is_prefix_of(
            cur.stdout_read(id),
        ),
        cur.stderr_read(id) == prev.stderr_read(id) || prev.stderr_read(id).is_prefix_of(
            cur.stderr_read(id),
        ),
        !(cview[i] matches WaitForView::StdOutMessage { .. }) ==> cur.stdout_read(id)
            == prev.stdout_read(id),
        !(cview[i] matches WaitForView::StdErrMessage { .. }) ==> cur.stderr_read(id)
            == prev.stderr_read(id),
        forall|j: int|
            0 <= j < i ==> match (#[trigger] cview[j]) {
                WaitForView::StdOutMessage { message } => contains_pattern(
                    prev.stdout_read(id).skip(out0.len() as int),
                    message,
                ),
                WaitForView::StdErrMessage { message } => contains_pattern(
                    prev.stderr_read(id).skip(err0.len() as int),
                    message,
                ),
                _ => true,
            },
        match cview[i] {
            WaitForView::StdOutMessage { message } => contains_pattern(
                cur.stdout_read(id).skip(prev.stdout_read(id).len() as int),
                message,
            ),
            WaitForView::StdErrMessage { message } => contains_pattern(
                cur.stderr_read(id).skip(prev.stderr_read(id).len() as int),
                message,
            ),
            _ => true,
        },
        !has_stdout_message(cview.take(i)) ==> prev.stdout_read(id) == out0,
        !has_stderr_message(cview.take(i)) ==> prev.stderr_read(id) == err0,
    ensures
        out0.is_prefix_of(cur.stdout_read(id)),
        err0.is_prefix_of(cur.stderr_read(id)),
        forall|j: int|
            0 <= j < i + 1 ==> match (#[trigger] cview[j]) {
                WaitForView::StdOutMessage { message } => contains_pattern(
                    cur.stdout_read(id).skip(out0.len() as int),
                    message,
                ),
                WaitForView::StdErrMessage { message } => contains_pattern(
                    cur.stderr_read(id).skip(err0.len() as int),
                    message,
                ),
                _ => true,
            },
        !has_stdout_message(cview.take(i + 1)) ==> cur.stdout_read(id) == out0,
        !has_stderr_message(cview.take(i + 1)) ==> cur.stderr_read(id) == err0,
{
    let ro_prev = prev.stdout_read(id);
    let ro_cur = cur.stdout_read(id);
    let re_prev = prev.stderr_read(id);
    let re_cur = cur.stderr_read(id);
    assert(ro_prev.is_prefix_of(ro_cur)) by {
        if ro_cur == ro_prev {
            assert(ro_prev.subrange(0, ro_prev.len() as int) =~= ro_prev);
        }
    }
    assert(re_prev.is_prefix_of(re_cur)) by {
        if re_cur == re_prev {
            assert(re_prev.subrange(0, re_prev.len() as int) =~= re_prev);
        }
    }
    let u = ro_prev.skip(out0.len() as int);
    let v = ro_cur.skip(ro_prev.len() as int);
    let ue = re_prev.skip(err0.len() as int);
    let ve = re_cur.skip(re_prev.len() as int);
    assert(ro_prev =~= out0 + u);
    assert(ro_cur =~= ro_prev + v);
    assert(ro_cur.skip(out0.len() as int) =~= u + v);
    assert(re_prev =~= err0 + ue);
    assert(re_cur =~= re_prev + ve);
    assert(re_cur.skip(err0.len() as int) =~= ue + ve);
    assert(out0.is_prefix_of(ro_cur)) by {
        assert(ro_cur.subrange(0, out0.len() as int) =~= out0);
    }
    assert(err0.is_prefix_of(re_cur)) by {
        assert(re_cur.subrange(0, err0.len() as int) =~= err0);
    }
    assert forall|j: int|
        0 <= j < i + 1 implies match (#[trigger] cview[j]) {
        WaitForView::StdOutMessage { message } => contains_pattern(
            cur.stdout_read(id).skip(out0.len() as int),
            message,
        ),
        WaitForView::StdErrMessage { message } => contains_pattern(
            cur.stderr_read(id).skip(err0.len() as int),
            message,
        ),
        _ => true,
    } by {
        if j < i {
            match cview[j] {
                WaitForView::StdOutMessage { message } => {
                    lemma_match_extend(u, v, message);
                },
                WaitForView::StdErrMessage { message } => {
                    lemma_match_extend(ue, ve, message);
                },
                _ => {},
            }
        } else {
            match cview[i] {
                WaitForView::StdOutMessage { message } => {
                    lemma_match_embed(u, v, message);
                },
                WaitForView::StdErrMessage { message } => {
                    lemma_match_embed(ue, ve, message);
                },
                _ => {},
            }
        }
    }
    if !has_stdout_message(cview.take(i + 1)) {
        assert(!(cview[i] matches WaitForView::StdOutMessage { .. })) by {
            if cview[i] matches WaitForView::StdOutMessage { .. } {
                assert(cview.take(i + 1)[i] matches WaitForView::StdOutMessage { .. });
            }
        }
        assert(!has_stdout_message(cview.take(i))) by {
            if has_stdout_message(cview.take(i)) {
                let j = choose|j: int|
                    0 <= j < cview.take(i).len() && (#[trigger] cview.take(i)[j])
                        matches WaitForView::StdOutMessage { .. };
                assert(cview.take(i + 1)[j] matches WaitForView::StdOutMessage { .. });
            }
        }
    }
    if !has_stderr_message(cview.take(i + 1)) {
        assert(!(cview[i] matches WaitForView::StdErrMessage { .. })) by {
            if cview[i] matches WaitForView::StdErrMessage { .. } {
                assert(cview.take(i + 1)[i] matches WaitForView::StdErrMessage { .. });
            }
        }
        assert(!has_stderr_message(cview.take(i))) by {
            if has_stderr_message(cview.take(i)) {
                let j = choose|j: int|
                    0 <= j < cview.take(i).len() && (#[trigger] cview.take(i)[j])
                        matches WaitForView::StdErrMessage { .. };
                assert(cview.take(i + 1)[j] matches WaitForView::StdErrMessage { .. });
            }
        }
    }
}

/// A handle that owns one running container: its runtime-assigned id, the
/// client capability used to manage it, the originating image, and the
/// cleanup policy applied at disposal. A handle is only ever obtained from
/// [`ContainerAsync::new`], which returns it ready-to-use.
#[derive(Debug)]
pub struct ContainerAsync<I, D> {
    id: String,
    docker_client: D,
    image: I,
    command: Command,
    disposed: bool,
}

impl<I, D> ContainerAsync<I, D> {
    /// The runtime-assigned identifier of the owned container.
    pub closed spec fn id_spec(&self) -> Seq<char> {
        self.id@
    }

    /// The current state of the handle's client capability.
    pub closed spec fn client(&self) -> D {
        self.docker_client
    }

    /// The image this handle was built from.
    pub closed spec fn image_spec(&self) -> I {
        self.image
    }

    /// The cleanup policy fixed at creation.
    pub closed spec fn command_spec(&self) -> Command {
        self.command
    }

    /// Whether teardown has already been issued for this handle.
    pub closed spec fn disposed_spec(&self) -> bool {
        self.disposed
    }
}

impl<I: Image, D: DockerAsync> ContainerAsync<I, D> {
    /// Returns the id of this container.
    pub fn id(&self) -> (r: &str)
        ensures
            r@ == self.id_spec(),
    {
        self.id.as_str()
    }

    /// The client capability, for inspection.
    pub fn docker_client(&self) -> (r: &D)
        ensures
            *r == self.client(),
    {
        &self.docker_client
    }

    /// Resolves the mapped host port for an internal TCP port of this
    /// container, against a fresh snapshot of the runtime's assignments.
    /// An endpoint the runtime never published is a distinct error, not a
    /// default.
    pub fn get_host_port(&self, internal_port: u16) -> (r: Result<u16, PortError>)
        ensures
            match r {
                Ok(host) => maps_in(
                    self.client().port_map(self.id_spec()),
                    internal_port,
                    Protocol::Tcp,
                    host,
                ),
                Err(e) => {
                    &&& e == (PortError::NotMapped {
                        internal: internal_port,
                        protocol: Protocol::Tcp,
                    })
                    &&& !exposed_in(
                        self.client().port_map(self.id_spec()),
                        internal_port,
                        Protocol::Tcp,
                    )
                },
            },
    {
        let snapshot = self.docker_client.ports(self.id.as_str());
        match snapshot.map_to_host_port(internal_port, Protocol::Tcp) {
            Some(host) => Ok(host),
            None => Err(PortError::NotMapped { internal: internal_port, protocol: Protocol::Tcp }),
        }
    }

    /// Asks the runtime to start this container.
    pub fn start(&mut self)
        ensures
            final(self).id_spec() == old(self).id_spec(),
            final(self).image_spec() == old(self).image_spec(),
            final(self).command_spec() == old(self).command_spec(),
            final(self).disposed_spec() == old(self).disposed_spec(),
            final(self).client().started() == old(self).client().started().push(
                old(self).id_spec(),
            ),
            final(self).client().stopped() == old(self).client().stopped(),
            final(self).client().removed() == old(self).client().removed(),
            final(self).client().slept() == old(self).client().slept(),
            same_ports_and_content(old(self).client(), final(self).client()),
            same_stream_reads(old(self).client(), final(self).client()),
    {
        self.docker_client.start(self.id.as_str());
    }

    /// Asks the runtime to stop this container.
    pub fn stop(&mut self)
        ensures
            final(self).id_spec() == old(self).id_spec(),
            final(self).image_spec() == old(self).image_spec(),
            final(self).command_spec() == old(self).command_spec(),
            final(self).disposed_spec() == old(self).disposed_spec(),
            final(self).client().stopped() == old(self).client().stopped().push(
                old(self).id_spec(),
            ),
            final(self).client().started() == old(self).client().started(),
            final(self).client().removed() == old(self).client().removed(),
            final(self).client().slept() == old(self).client().slept(),
            same_ports_and_content(old(self).client(), final(self).client()),
            same_stream_reads(old(self).client(), final(self).client()),
    {
        self.docker_client.stop(self.id.as_str());
    }

    /// Asks the runtime to remove this container, consuming the handle and
    /// handing the client capability back.
    pub fn rm(self) -> (client: D)
        ensures
            client.removed() == self.client().removed().push(self.id_spec()),
            client.started() == self.client().started(),
            client.stopped() == self.client().stopped(),
            client.slept() == self.client().slept(),
            same_ports_and_content(self.client(), client),
            same_stream_reads(self.client(), client),
    {
        let ContainerAsync { id, docker_client: mut client, image: _, command: _, disposed: _ } =
            self;
        client.rm(id.as_str());
        client
    }

    /// Constructs a handle over the container `id`, which the runtime has
    /// already created and started from `image`, and drives the image's
    /// readiness conditions to completion, strictly in declaration order,
    /// before returning: a handle is never observable before every condition
    /// has been satisfied. On failure the error names the unmet condition and
    /// the client capability is handed back beside it.
    pub fn new(id: String, docker_client: D, image: I, command: Command) -> (r: Result<
        ContainerAsync<I, D>,
        (WaitError, D),
    >)
        requires
            docker_client.stdout_read(id@).is_prefix_of(docker_client.stdout_full(id@)),
            docker_client.stderr_read(id@).is_prefix_of(docker_client.stderr_full(id@)),
        ensures
            match r {
                Ok(c) => {
                    &&& c.id_spec() == id@
                    &&& c.command_spec() == command
                    &&& c.image_spec() == image
                    &&& !c.disposed_spec()
                    &&& same_lifecycle(docker_client, c.client())
                    &&& same_ports_and_content(docker_client, c.client())
                    &&& c.client().slept() == docker_client.slept() + durations_of(
                        image.conditions(),
                    )
                    &&& forall|x: Seq<char>|
                        x != id@ ==> c.client().stdout_read(x) == docker_client.stdout_read(x)
                    &&& forall|x: Seq<char>|
                        x != id@ ==> c.client().stderr_read(x) == docker_client.stderr_read(x)
                    &&& docker_client.stdout_read(id@).is_prefix_of(c.client().stdout_read(id@))
                    &&& c.client().stdout_read(id@).is_prefix_of(docker_client.stdout_full(id@))
                    &&& docker_client.stderr_read(id@).is_prefix_of(c.client().stderr_read(id@))
                    &&& c.client().stderr_read(id@).is_prefix_of(docker_client.stderr_full(id@))
                    &&& forall|j: int|
                        0 <= j < image.conditions().len() ==> match (#[trigger] image.conditions()[j]) {
                            WaitForView::StdOutMessage { message } => contains_pattern(
                                c.client().stdout_read(id@).skip(
                                    docker_client.stdout_read(id@).len() as int,
                                ),
                                message,
                            ),
                            WaitForView::StdErrMessage { message } => contains_pattern(
                                c.client().stderr_read(id@).skip(
                                    docker_client.stderr_read(id@).len() as int,
                                ),
                                message,
                            ),
                            _ => true,
                        }
                    &&& !has_stdout_message(image.conditions()) ==> c.client().stdout_read(id@)
                        == docker_client.stdout_read(id@)
                    &&& !has_stderr_message(image.conditions()) ==> c.client().stderr_read(id@)
                        == docker_client.stderr_read(id@)
                },
                Err((e, d)) => {
                    &&& same_lifecycle(docker_client, d)
                    &&& same_ports_and_content(docker_client, d)
                    &&& forall|x: Seq<char>|
                        x != id@ ==> d.stdout_read(x) == docker_client.stdout_read(x)
                    &&& forall|x: Seq<char>|
                        x != id@ ==> d.stderr_read(x) == docker_client.stderr_read(x)
                    &&& docker_client.stdout_read(id@).is_prefix_of(d.stdout_read(id@))
                    &&& d.stdout_read(id@).is_prefix_of(docker_client.stdout_full(id@))
                    &&& docker_client.stderr_read(id@).is_prefix_of(d.stderr_read(id@))
                    &&& d.stderr_read(id@).is_prefix_of(docker_client.stderr_full(id@))
                    &&& e matches WaitError::EndOfStream { id: eid, condition_index: ci, scanned_from }
                    &&& eid@ == id@
                    &&& ci < image.conditions().len()
                    &&& d.slept() == docker_client.slept() + durations_of(
                        image.conditions().take(ci as int),
                    )
                    &&& match image.conditions()[ci as int] {
                        WaitForView::StdOutMessage { message } => {
                            &&& d.stdout_read(id@) == docker_client.stdout_full(id@)
                            &&& docker_client.stdout_read(id@).len() <= scanned_from@
                                <= docker_client.stdout_full(id@).len()
                            &&& !contains_pattern(
                                docker_client.stdout_full(id@).skip(scanned_from@),
                                message,
                            )
                            &&& !has_stdout_message(image.conditions().take(ci as int))
                                ==> scanned_from@ == docker_client.stdout_read(id@).len() as int
                            &&& !has_stderr_message(image.conditions().take(ci as int))
                                ==> d.stderr_read(id@) == docker_client.stderr_read(id@)
                        },
                        WaitForView::StdErrMessage { message } => {
                            &&& d.stderr_read(id@) == docker_client.stderr_full(id@)
                            &&& docker_client.stderr_read(id@).len() <= scanned_from@
                                <= docker_client.stderr_full(id@).len()
                            &&& !contains_pattern(
                                docker_client.stderr_full(id@).skip(scanned_from@),
                                message,
                            )
                            &&& !has_stderr_message(image.conditions().take(ci as int))
                                ==> scanned_from@ == docker_client.stderr_read(id@).len() as int
                            &&& !has_stdout_message(image.conditions().take(ci as int))
                                ==> d.stdout_read(id@) == docker_client.stdout_read(id@)
                        },
                        _ => false,
                    }
                },
            },
    {
        let conditions = image.ready_conditions();
        let mut docker = docker_client;
        let n = conditions.len();
        let ghost cview = image.conditions();
        let ghost out0 = docker_client.stdout_read(id@);
        let ghost err0 = docker_client.stderr_read(id@);
        let mut i: usize = 0;
        while i < n
            invariant
                i <= n,
                n == conditions@.len(),
                conditions@.map_values(|w: WaitFor| w@) == cview,
                cview == image.conditions(),
                out0 == docker_client.stdout_read(id@),
                err0 == docker_client.stderr_read(id@),
                same_lifecycle(docker_client, docker),
                same_ports_and_content(docker_client, docker),
                docker.slept() == docker_client.slept() + durations_of(cview.take(i as int)),
                forall|x: Seq<char>|
                    x != id@ ==> docker.stdout_read(x) == docker_client.stdout_read(x),
                forall|x: Seq<char>|
                    x != id@ ==> docker.stderr_read(x) == docker_client.stderr_read(x),
                out0.is_prefix_of(docker.stdout_read(id@)),
                docker.stdout_read(id@).is_prefix_of(docker_client.stdout_full(id@)),
                err0.is_prefix_of(docker.stderr_read(id@)),
                docker.stderr_read(id@).is_prefix_of(docker_client.stderr_full(id@)),
                forall|j: int|
                    0 <= j < i ==> match (#[trigger] cview[j]) {
                        WaitForView::StdOutMessage { message } => contains_pattern(
                            docker.stdout_read(id@).skip(out0.len() as int),
                            message,
                        ),
                        WaitForView::StdErrMessage { message } => contains_pattern(
                            docker.stderr_read(id@).skip(err0.len() as int),
                            message,
                        ),
                        _ => true,
                    },
                !has_stdout_message(cview.take(i as int)) ==> docker.stdout_read(id@) == out0,
                !has_stderr_message(cview.take(i as int)) ==> docker.stderr_read(id@) == err0,
            decreases n - i,
        {
            let ghost prev = docker;
            proof {
                assert(cview[i as int] == conditions@[i as int]@);
                assert(cview.take(i + 1).drop_last() =~= cview.take(i as int));
                assert(cview.take(i + 1).last() == cview[i as int]);
            }
            match &conditions[i] {
                WaitFor::StdOutMessage { message } => {
                    let res = wait_for_message(&mut docker, id.as_str(), true, &message, i);
                    match res {
                        Ok(_) => {
                            proof {
                                lemma_step_preserves_progress::<D>(
                                    prev,
                                    docker,
                                    id@,
                                    out0,
                                    err0,
                                    cview,
                                    i as int,
                                );
                                assert(durations_of(cview.take(i + 1)) =~= durations_of(
                                    cview.take(i as int),
                                ));
                            }
                        },
                        Err(e) => {
                            proof {
                                let full = docker_client.stdout_full(id@);
                                assert(full.subrange(0, full.len() as int) =~= full);
                            }
                            return Err((e, docker));
                        },
                    }
                },
                WaitFor::StdErrMessage { message } => {
                    let res = wait_for_message(&mut docker, id.as_str(), false, &message, i);
                    match res {
                        Ok(_) => {
                            proof {
                                lemma_step_preserves_progress::<D>(
                                    prev,
                                    docker,
                                    id@,
                                    out0,
                                    err0,
                                    cview,
                                    i as int,
                                );
                                assert(durations_of(cview.take(i + 1)) =~= durations_of(
                                    cview.take(i as int),
                                ));
                            }
                        },
                        Err(e) => {
                            proof {
                                let full = docker_client.stderr_full(id@);
                                assert(full.subrange(0, full.len() as int) =~= full);
                            }
                            return Err((e, docker));
                        },
                    }
                },
                WaitFor::Duration { millis } => {
                    docker.sleep(*millis);
                    proof {
                        lemma_step_preserves_progress::<D>(
                            prev,
                            docker,
                            id@,
                            out0,
                            err0,
                            cview,
                            i as int,
                        );
                        assert(durations_of(cview.take(i + 1)) =~= durations_of(
                            cview.take(i as int),
                        ) + seq![*millis]);
                        assert(docker.slept() =~= docker_client.slept() + durations_of(
                            cview.take(i + 1),
                        ));
                    }
                },
                WaitFor::Nothing => {
                    proof {
                        lemma_step_preserves_progress::<D>(
                            prev,
                            docker,
                            id@,
                            out0,
                            err0,
                            cview,
                            i as int,
                        );
                        assert(durations_of(cview.take(i + 1)) =~= durations_of(
                            cview.take(i as int),
                        ));
                    }
                },
            }
            i += 1;
        }
        proof {
            assert(cview.take(n as int) =~= cview);
        }
        Ok(ContainerAsync { id, docker_client: docker, image, command, disposed: false })
    }

    /// Tears the container down according to the cleanup policy, exactly
    /// once: the first disposal of a `Remove` handle issues one stop and one
    /// remove; any further disposal, and every disposal of a `Keep` handle,
    /// issues nothing.
    pub fn dispose(&mut self)
        ensures
            final(self).id_spec() == old(self).id_spec(),
            final(self).image_spec() == old(self).image_spec(),
            final(self).command_spec() == old(self).command_spec(),
            final(self).disposed_spec(),
            final(self).client().started() == old(self).client().started(),
            final(self).client().slept() == old(self).client().slept(),
            same_ports_and_content(old(self).client(), final(self).client()),
            same_stream_reads(old(self).client(), final(self).client()),
            if old(self).disposed_spec() || old(self).command_spec() == Command::Keep {
                &&& final(self).client().stopped() == old(self).client().stopped()
                &&& final(self).client().removed() == old(self).client().removed()
            } else {
                &&& final(self).client().stopped() == old(self).client().stopped().push(
                    old(self).id_spec(),
                )
                &&& final(self).client().removed() == old(self).client().removed().push(
                    old(self).id_spec(),
                )
            },
    {
        if self.disposed {
            return ;
        }
        self.disposed = true;
        match self.command {
            Command::Remove => {
                self.docker_client.stop(self.id.as_str());
                self.docker_client.rm(self.id.as_str());
            },
            Command::Keep => {},
        }
    }
}

} // verus!

//! An in-memory runtime client for tests: it serves one scripted stdout
//! stream, one scripted stderr stream and one port snapshot to whatever
//! container it is asked about, records every lifecycle call it receives,
//! and completes every pause instantly.

use vstd::prelude::*;
use vstd::string::{StringSliceAdditionalSpecFns, StrSliceExecFns};
use vstd::utf8::encode_utf8_decode_utf8;
use crate::container::DockerAsync;
use crate::logs::copy_range;
use crate::ports::{PortMapping, Ports};

verus! {

/// The concatenation of the first `n` chunks of a script.
pub open spec fn flatten_prefix(chunks: Seq<Seq<u8>>, n: int) -> Seq<u8>
    decreases n,
{
    if n <= 0 {
        Seq::empty()
    } else {
        flatten_prefix(chunks, n - 1) + chunks[n - 1]
    }
}

/// Delivering more chunks only appends: an earlier cut of the script is a
/// prefix of every later one.
proof fn lemma_flatten_prefix_monotone(chunks: Seq<Seq<u8>>, n: int, m: int)
    requires
        0 <= n <= m,
    ensures
        flatten_prefix(chunks, n).is_prefix_of(flatten_prefix(chunks, m)),
    decreases m - n,
{
    if n == m {
        let a = flatten_prefix(chunks, n);
        assert(a.subrange(0, a.len() as int) =~= a);
    } else {
        lemma_flatten_prefix_monotone(chunks, n, m - 1);
        let a = flatten_prefix(chunks, n);
        let b = flatten_prefix(chunks, m - 1);
        let c = flatten_prefix(chunks, m);
        assert(c == b + chunks[m - 1]);
        assert(c.subrange(0, a.len() as int) =~= a);
    }
}

/// Keys `(internal, protocol)` occur at most once in the sequence.
pub open spec fn unique_keys(entries: Seq<PortMapping>) -> bool {
    forall|i: int, j: int|
        0 <= i < j < entries.len() ==> !(entries[i].internal == entries[j].internal
            && entries[i].protocol == entries[j].protocol)
}

/// Whether the snapshot's keys are unique.
fn keys_unique(entries: &Vec<PortMapping>) -> (r: bool)
    ensures
        r == unique_keys(entries@),
{
    let n = entries.len();
    let mut i: usize = 0;
    while i < n
        invariant
            i <= n,
            n == entries@.len(),
            forall|a: int, b: int|
                0 <= a < b < entries@.len() && a < i ==> !(entries@[a].internal
                    == entries@[b].internal && entries@[a].protocol == entries@[b].protocol),
        decreases n - i,
    {
        let mut j: usize = i + 1;
        while j < n
            invariant
                i < j <= n,
                n == entries@.len(),
                forall|b: int|
                    i < b < j ==> !(entries@[i as int].internal == entries@[b].internal
                        && entries@[i as int].protocol == entries@[b].protocol),
            decreases n - j,
        {
            if entries[i].internal == entries[j].internal && entries[i].protocol
                == entries[j].protocol {
                return false;
            }
            j += 1;
        }
        i += 1;
    }
    true
}

/// Whether two strings hold the same characters. Rests on UTF-8 encoding
/// being invertible, so equal byte encodings mean equal character sequences.
fn str_eq(a: &str, b: &str) -> (r: bool)
    ensures
        r == (a@ == b@),
{
    let av = a.as_bytes_vec();
    let bv = b.as_bytes_vec();
    let n = av.len();
    if n != bv.len() {
        proof {
            if a@ == b@ {
                assert(a.spec_bytes() == b.spec_bytes());
            }
        }
        return false;
    }
    let mut i: usize = 0;
    while i < n
        invariant
            n == av@.len(),
            n == bv@.len(),
            av@ == a.spec_bytes(),
            bv@ == b.spec_bytes(),
            i <= n,
            forall|k: int| 0 <= k < i ==> av@[k] == bv@[k],
        decreases n - i,
    {
        if av[i] != bv[i] {
            proof {
                if a@ == b@ {
                    assert(a.spec_bytes() == b.spec_bytes());
                    assert(av@[i as int] == bv@[i as int]);
                }
            }
            return false;
        }
        i += 1;
    }
    proof {
        assert(av@ =~= bv@);
        encode_utf8_decode_utf8(a@);
        encode_utf8_decode_utf8(b@);
    }
    true
}

/// Copies a byte chunk.
fn clone_bytes(v: &Vec<u8>) -> (r: Vec<u8>)
    ensures
        r@ == v@,
{
    let r = copy_range(v, 0, v.len());
    proof {
        assert(v@.subrange(0, v@.len() as int) =~= v@);
    }
    r
}

/// Copies a port snapshot.
fn clone_mappings(v: &Vec<PortMapping>) -> (r: Vec<PortMapping>)
    ensures
        r@ == v@,
{
    let mut r: Vec<PortMapping> = Vec::new();
    let n = v.len();
    let mut i: usize = 0;
    while i < n
        invariant
            i <= n,
            n == v@.len(),
            r@ == v@.subrange(0, i as int),
        decreases n - i,
    {
        r.push(v[i]);
        proof {
            assert(v@.subrange(0, i as int).push(v@[i as int]) =~= v@.subrange(0, i + 1));
        }
        i += 1;
    }
    proof {
        assert(v@.subrange(0, n as int) =~= v@);
    }
    r
}

/// A scripted, recording runtime client for one container. Its streams hold
/// fixed content laid down at construction and are served only for the id it
/// was built for — any other id sees empty streams. Cursors advance as the
/// core reads; empty chunks are skipped, so a handed-out chunk is never
/// empty. Every `start`, `stop`, `rm` and `sleep` call is recorded where a
/// test can count it. A snapshot whose keys are not unique is served as
/// empty.
#[derive(Debug)]
pub struct FakeDocker {
    id: String,
    out_chunks: Vec<Vec<u8>>,
    err_chunks: Vec<Vec<u8>>,
    out_cursor: usize,
    err_cursor: usize,
    port_entries: Vec<PortMapping>,
    start_calls: Vec<String>,
    stop_calls: Vec<String>,
    rm_calls: Vec<String>,
    sleep_calls: Vec<u64>,
}

impl FakeDocker {
    /// The scripted stdout chunks, as byte sequences.
    closed spec fn out_views(self) -> Seq<Seq<u8>> {
        self.out_chunks@.map_values(|c: Vec<u8>| c@)
    }

    /// The scripted stderr chunks, as byte sequences.
    closed spec fn err_views(self) -> Seq<Seq<u8>> {
        self.err_chunks@.map_values(|c: Vec<u8>| c@)
    }

    /// The stdout cursor, clamped to the script.
    closed spec fn out_limit(self) -> int {
        if self.out_cursor as int <= self.out_views().len() {
            self.out_cursor as int
        } else {
            self.out_views().len() as int
        }
    }

    /// The stderr cursor, clamped to the script.
    closed spec fn err_limit(self) -> int {
        if self.err_cursor as int <= self.err_views().len() {
            self.err_cursor as int
        } else {
            self.err_views().len() as int
        }
    }

    /// A fresh client that serves the given stream scripts and port snapshot
    /// for container `id`.
    pub fn new(
        id: String,
        out_chunks: Vec<Vec<u8>>,
        err_chunks: Vec<Vec<u8>>,
        port_entries: Vec<PortMapping>,
    ) -> (d: FakeDocker)
        ensures
            d.started() == Seq::<Seq<char>>::empty(),
            d.stopped() == Seq::<Seq<char>>::empty(),
            d.removed() == Seq::<Seq<char>>::empty(),
            d.slept() == Seq::<u64>::empty(),
            forall|x: Seq<char>| d.stdout_read(x) == Seq::<u8>::empty(),
            forall|x: Seq<char>| d.stderr_read(x) == Seq::<u8>::empty(),
            d.stdout_full(id@) == flatten_prefix(
                out_chunks@.map_values(|c: Vec<u8>| c@),
                out_chunks@.len() as int,
            ),
            d.stderr_full(id@) == flatten_prefix(
                err_chunks@.map_values(|c: Vec<u8>| c@),
                err_chunks@.len() as int,
            ),
            forall|x: Seq<char>| x != id@ ==> d.stdout_full(x) == Seq::<u8>::empty(),
            forall|x: Seq<char>| x != id@ ==> d.stderr_full(x) == Seq::<u8>::empty(),
            unique_keys(port_entries@) ==> forall|x: Seq<char>| d.port_map(x) == port_entries@,
            forall|x: Seq<char>| d.stdout_read(x).is_prefix_of(d.stdout_full(x)),
            forall|x: Seq<char>| d.stderr_read(x).is_prefix_of(d.stderr_full(x)),
    {
        let d = FakeDocker {
            id,
            out_chunks,
            err_chunks,
            out_cursor: 0,
            err_cursor: 0,
            port_entries,
            start_calls: Vec::new(),
            stop_calls: Vec::new(),
            rm_calls: Vec::new(),
            sleep_calls: Vec::new(),
        };
        proof {
            assert(Seq::<String>::empty().map_values(|s: String| s@) =~= Seq::<
                Seq<char>,
            >::empty());
            assert forall|x: Seq<char>| d.stdout_read(x).is_prefix_of(d.stdout_full(x)) by {
                lemma_flatten_prefix_monotone(d.out_views(), 0, d.out_views().len() as int);
            }
            assert forall|x: Seq<char>| d.stderr_read(x).is_prefix_of(d.stderr_full(x)) by {
                lemma_flatten_prefix_monotone(d.err_views(), 0, d.err_views().len() as int);
            }
        }
        d
    }

    /// How many `start` calls were issued.
    pub fn start_count(&self) -> (n: usize)
        ensures
            n == self.started().len(),
    {
        self.start_calls.len()
    }

    /// How many `stop` calls were issued.
    pub fn stop_count(&self) -> (n: usize)
        ensures
            n == self.stopped().len(),
    {
        self.stop_calls.len()
    }

    /// How many `rm` calls were issued.
    pub fn rm_count(&self) -> (n: usize)
        ensures
            n == self.removed().len(),
    {
        self.rm_calls.len()
    }

    /// The pauses issued so far, in order.
    pub fn sleeps(&self) -> (r: &Vec<u64>)
        ensures
            r@ == self.slept(),
    {
        &self.sleep_calls
    }
}

impl DockerAsync for FakeDocker {
    closed spec fn started(&self) -> Seq<Seq<char>> {
        self.start_calls@.map_values(|s: String| s@)
    }

    closed spec fn stopped(&self) -> Seq<Seq<char>> {
        self.stop_calls@.map_values(|s: String| s@)
    }

    closed spec fn removed(&self) -> Seq<Seq<char>> {
        self.rm_calls@.map_values(|s: String| s@)
    }

    closed spec fn slept(&self) -> Seq<u64> {
        self.sleep_calls@
    }

    closed spec fn stdout_read(&self, id: Seq<char>) -> Seq<u8> {
        if id == self.id@ {
            flatten_prefix(self.out_views(), self.out_limit())
        } else {
            Seq::empty()
        }
    }

    closed spec fn stderr_read(&self, id: Seq<char>) -> Seq<u8> {
        if id == self.id@ {
            flatten_prefix(self.err_views(), self.err_limit())
        } else {
            Seq::empty()
        }
    }

    closed spec fn stdout_full(&self, id: Seq<char>) -> Seq<u8> {
        if id == self.id@ {
            flatten_prefix(self.out_views(), self.out_views().len() as int)
        } else {
            Seq::empty()
        }
    }

    closed spec fn stderr_full(&self, id: Seq<char>) -> Seq<u8> {
        if id == self.id@ {
            flatten_prefix(self.err_views(), self.err_views().len() as int)
        } else {
            Seq::empty()
        }
    }

    closed spec fn port_map(&self, id: Seq<char>) -> Seq<PortMapping> {
        if unique_keys(self.port_entries@) {
            self.port_entries@
        } else {
            Seq::empty()
        }
    }

    fn stdout_next(&mut self, id: &str) -> (chunk: Option<Vec<u8>>) {
        if !str_eq(id, self.id.as_str()) {
            return None;
        }
        while self.out_cursor < self.out_chunks.len()
            invariant
                id@ == self.id@,
                self.id@ == old(self).id@,
                self.out_chunks@ == old(self).out_chunks@,
                self.err_chunks@ == old(self).err_chunks@,
                self.err_cursor == old(self).err_cursor,
                self.port_entries@ == old(self).port_entries@,
                self.start_calls@ == old(self).start_calls@,
                self.stop_calls@ == old(self).stop_calls@,
                self.rm_calls@ == old(self).rm_calls@,
                self.sleep_calls@ == old(self).sleep_calls@,
                flatten_prefix(self.out_views(), self.out_limit()) == flatten_prefix(
                    old(self).out_views(),
                    old(self).out_limit(),
                ),
            decreases self.out_chunks@.len() - self.out_cursor,
        {
            let cur = self.out_cursor;
            if self.out_chunks[cur].len() > 0 {
                let c = clone_bytes(&self.out_chunks[cur]);
                self.out_cursor = cur + 1;
                proof {
                    assert(flatten_prefix(self.out_views(), cur + 1) == flatten_prefix(
                        self.out_views(),
                        cur as int,
                    ) + self.out_views()[cur as int]);
                    lemma_flatten_prefix_monotone(
                        self.out_views(),
                        self.out_limit(),
                        self.out_views().len() as int,
                    );
                }
                return Some(c);
            }
            self.out_cursor = cur + 1;
            proof {
                assert(flatten_prefix(self.out_views(), cur + 1) == flatten_prefix(
                    self.out_views(),
                    cur as int,
                ) + self.out_views()[cur as int]);
                assert(flatten_prefix(self.out_views(), cur + 1) =~= flatten_prefix(
                    self.out_views(),
                    cur as int,
                ));
            }
        }
        None
    }

    fn stderr_next(&mut self, id: &str) -> (chunk: Option<Vec<u8>>) {
        if !str_eq(id, self.id.as_str()) {
            return None;
        }
        while self.err_cursor < self.err_chunks.len()
            invariant
                id@ == self.id@,
                self.id@ == old(self).id@,
                self.out_chunks@ == old(self).out_chunks@,
                self.err_chunks@ == old(self).err_chunks@,
                self.out_cursor == old(self).out_cursor,
                self.port_entries@ == old(self).port_entries@,
                self.start_calls@ == old(self).start_calls@,
                self.stop_calls@ == old(self).stop_calls@,
                self.rm_calls@ == old(self).rm_calls@,
                self.sleep_calls@ == old(self).sleep_calls@,
                flatten_prefix(self.err_views(), self.err_limit()) == flatten_prefix(
                    old(self).err_views(),
                    old(self).err_limit(),
                ),
            decreases self.err_chunks@.len() - self.err_cursor,
        {
            let cur = self.err_cursor;
            if self.err_chunks[cur].len() > 0 {
                let c = clone_bytes(&self.err_chunks[cur]);
                self.err_cursor = cur + 1;
                proof {
                    assert(flatten_prefix(self.err_views(), cur + 1) == flatten_prefix(
                        self.err_views(),
                        cur as int,
                    ) + self.err_views()[cur as int]);
                    lemma_flatten_prefix_monotone(
                        self.err_views(),
                        self.err_limit(),
                        self.err_views().len() as int,
                    );
                }
                return Some(c);
            }
            self.err_cursor = cur + 1;
            proof {
                assert(flatten_prefix(self.err_views(), cur + 1) == flatten_prefix(
                    self.err_views(),
                    cur as int,
                ) + self.err_views()[cur as int]);
                assert(flatten_prefix(self.err_views(), cur + 1) =~= flatten_prefix(
                    self.err_views(),
                    cur as int,
                ));
            }
        }
        None
    }

    fn ports(&self, id: &str) -> (p: Ports) {
        if keys_unique(&self.port_entries) {
            Ports::from_entries(clone_mappings(&self.port_entries))
        } else {
            Ports::new()
        }
    }

    fn start(&mut self, id: &str) {
        self.start_calls.push(id.to_owned());
        proof {
            assert(self.start_calls@.map_values(|s: String| s@) =~= old(
                self,
            ).start_calls@.map_values(|s: String| s@).push(id@));
        }
    }

    fn stop(&mut self, id: &str) {
        self.stop_calls.push(id.to_owned());
        proof {
            assert(self.stop_calls@.map_values(|s: String| s@) =~= old(
                self,
            ).stop_calls@.map_values(|s: String| s@).push(id@));
        }
    }

    fn rm(&mut self, id: &str) {
        self.rm_calls.push(id.to_owned());
        proof {
            assert(self.rm_calls@.map_values(|s: String| s@) =~= old(self).rm_calls@.map_values(
                |s: String| s@,
            ).push(id@));
        }
    }

    fn sleep(&mut self, millis: u64) {
        self.sleep_calls.push(millis);
    }
}

} // verus!

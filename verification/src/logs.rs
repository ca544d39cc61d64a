//! The log-stream matcher: detects the first occurrence of a byte pattern in
//! a chunked, possibly unbounded stream, keeping only as much context as a
//! match spanning a chunk boundary needs.

use vstd::prelude::*;

verus! {

/// `pat` occurs in `hay` starting at index `i`.
pub open spec fn is_match_at(hay: Seq<u8>, pat: Seq<u8>, i: int) -> bool {
    &&& 0 <= i
    &&& i + pat.len() <= hay.len()
    &&& hay.subrange(i, i + pat.len()) == pat
}

/// `pat` occurs somewhere in `hay`.
pub open spec fn contains_pattern(hay: Seq<u8>, pat: Seq<u8>) -> bool {
    exists|i: int| is_match_at(hay, pat, i)
}

/// How much of the stream already read must be kept: one byte less than the
/// pattern, or everything when less than that has been seen.
pub open spec fn tail_cap(seen_len: int, pat_len: int) -> int {
    if pat_len <= 0 {
        0
    } else if seen_len <= pat_len - 1 {
        seen_len
    } else {
        pat_len - 1
    }
}

/// A pattern found in a part keeps being found when more bytes follow.
pub proof fn lemma_match_extend(hay: Seq<u8>, more: Seq<u8>, pat: Seq<u8>)
    requires
        contains_pattern(hay, pat),
    ensures
        contains_pattern(hay + more, pat),
{
    let i = choose|i: int| is_match_at(hay, pat, i);
    assert((hay + more).subrange(i, i + pat.len()) =~= pat);
    assert(is_match_at(hay + more, pat, i));
}

/// A pattern found in a part keeps being found when bytes precede it.
pub proof fn lemma_match_embed(head: Seq<u8>, sub: Seq<u8>, pat: Seq<u8>)
    requires
        contains_pattern(sub, pat),
    ensures
        contains_pattern(head + sub, pat),
{
    let i = choose|i: int| is_match_at(sub, pat, i);
    assert((head + sub).subrange(head.len() + i, head.len() + i + pat.len()) =~= pat);
    assert(is_match_at(head + sub, pat, head.len() + i));
}

/// The boundary argument behind the matcher: if the stream read so far holds
/// no match, and neither does the kept tail followed by the new chunk, then
/// the grown stream holds none either — a match would have to lie entirely in
/// the old bytes or overlap the boundary, and the tail is long enough to
/// witness every overlap.
proof fn lemma_no_match_after_feed(seen: Seq<u8>, tail: Seq<u8>, chunk: Seq<u8>, pat: Seq<u8>)
    requires
        pat.len() >= 1,
        tail.len() == tail_cap(seen.len() as int, pat.len() as int),
        tail == seen.subrange(seen.len() - tail.len(), seen.len() as int),
        !contains_pattern(seen, pat),
        !contains_pattern(tail + chunk, pat),
    ensures
        !contains_pattern(seen + chunk, pat),
{
    let total = seen + chunk;
    let s = seen.len() - tail.len();
    assert(tail + chunk =~= total.subrange(s, total.len() as int));
    if contains_pattern(total, pat) {
        let i = choose|i: int| is_match_at(total, pat, i);
        if i + pat.len() <= seen.len() {
            assert(seen.subrange(i, i + pat.len()) =~= total.subrange(i, i + pat.len()));
            assert(is_match_at(seen, pat, i));
        } else {
            assert(i >= s);
            assert((tail + chunk).subrange(i - s, i - s + pat.len()) =~= total.subrange(
                i,
                i + pat.len(),
            ));
            assert(is_match_at(tail + chunk, pat, i - s));
        }
    }
}

/// `pat` matches `hay` at position `i`.
fn match_at(hay: &Vec<u8>, pat: &Vec<u8>, i: usize) -> (r: bool)
    requires
        i + pat@.len() <= hay@.len(),
    ensures
        r == is_match_at(hay@, pat@, i as int),
{
    let hn = hay.len();
    let pn = pat.len();
    let mut j: usize = 0;
    while j < pn
        invariant
            hn == hay@.len(),
            pn == pat@.len(),
            i + pn <= hay@.len(),
            j <= pn,
            forall|t: int| 0 <= t < j ==> hay@[i + t] == pat@[t],
        decreases pn - j,
    {
        if hay[i + j] != pat[j] {
            proof {
                if is_match_at(hay@, pat@, i as int) {
                    assert(hay@.subrange(i as int, i + pat@.len())[j as int] == pat@[j as int]);
                }
            }
            return false;
        }
        j += 1;
    }
    proof {
        assert(hay@.subrange(i as int, i + pat@.len()) =~= pat@);
    }
    true
}

/// Whether `pat` occurs anywhere in `hay`.
fn find_pattern(hay: &Vec<u8>, pat: &Vec<u8>) -> (r: bool)
    ensures
        r == contains_pattern(hay@, pat@),
{
    let hn = hay.len();
    let pn = pat.len();
    if pn > hn {
        proof {
            if contains_pattern(hay@, pat@) {
                let i = choose|i: int| is_match_at(hay@, pat@, i);
                assert(i + pat@.len() <= hay@.len());
            }
        }
        return false;
    }
    if pn == 0 {
        proof {
            assert(hay@.subrange(0, 0) =~= pat@);
            assert(is_match_at(hay@, pat@, 0));
        }
        return true;
    }
    let mut i: usize = 0;
    while i <= hn - pn
        invariant
            hn == hay@.len(),
            pn == pat@.len(),
            1 <= pn <= hn,
            i <= hn - pn + 1,
            forall|k: int| 0 <= k < i ==> !is_match_at(hay@, pat@, k),
        decreases hn - pn + 1 - i,
    {
        if match_at(hay, pat, i) {
            return true;
        }
        i += 1;
    }
    proof {
        if contains_pattern(hay@, pat@) {
            let k = choose|k: int| is_match_at(hay@, pat@, k);
            assert(!is_match_at(hay@, pat@, k));
        }
    }
    false
}

/// Appends the bytes of `src` to `dst`.
fn append_bytes(dst: &mut Vec<u8>, src: &Vec<u8>)
    ensures
        final(dst)@ == old(dst)@ + src@,
{
    let n = src.len();
    let mut i: usize = 0;
    while i < n
        invariant
            n == src@.len(),
            i <= n,
            dst@ == old(dst)@ + src@.subrange(0, i as int),
        decreases n - i,
    {
        dst.push(src[i]);
        proof {
            assert(old(dst)@ + src@.subrange(0, i as int) + seq![src@[i as int]] =~= old(dst)@
                + src@.subrange(0, i + 1));
        }
        i += 1;
    }
    proof {
        assert(old(dst)@ + src@.subrange(0, n as int) =~= old(dst)@ + src@);
    }
}

/// What a concatenation holds beyond its first part is exactly the second.
pub proof fn lemma_skip_of_concat(a: Seq<u8>, b: Seq<u8>)
    ensures
        (a + b).skip(a.len() as int) == b,
{
    assert((a + b).skip(a.len() as int) =~= b);
}

/// Copies `src[from..to]` into a fresh vector.
pub(crate) fn copy_range(src: &Vec<u8>, from: usize, to: usize) -> (r: Vec<u8>)
    requires
        from <= to <= src@.len(),
    ensures
        r@ == src@.subrange(from as int, to as int),
{
    let mut r: Vec<u8> = Vec::new();
    let mut i: usize = from;
    while i < to
        invariant
            from <= i <= to <= src@.len(),
            r@ == src@.subrange(from as int, i as int),
        decreases to - i,
    {
        r.push(src[i]);
        proof {
            assert(src@.subrange(from as int, i as int) + seq![src@[i as int]] =~= src@.subrange(
                from as int,
                i + 1,
            ));
        }
        i += 1;
    }
    r
}

/// Streaming matcher for one pattern. Chunks are fed in arrival order; the
/// matcher reports, after each chunk, whether the pattern has occurred in the
/// concatenation of everything fed so far. Between chunks it retains at most
/// one byte less than the pattern's length, so an unbounded stream is never
/// buffered whole.
pub struct LogMatcher {
    pattern: Vec<u8>,
    tail: Vec<u8>,
    found: bool,
    seen: Ghost<Seq<u8>>,
}

impl LogMatcher {
    /// The pattern searched for.
    pub closed spec fn pattern_spec(self) -> Seq<u8> {
        self.pattern@
    }

    /// Every byte fed so far, in order.
    pub closed spec fn seen(self) -> Seq<u8> {
        self.seen@
    }

    /// Whether the pattern has occurred in the bytes fed so far.
    pub closed spec fn matched(self) -> bool {
        self.found
    }

    /// The matcher's invariant: `matched` reflects exactly whether the
    /// pattern occurs in the bytes seen, and while it does not, the kept tail
    /// is the suffix of the seen bytes long enough to witness any match
    /// spanning the next chunk boundary.
    pub closed spec fn wf(self) -> bool {
        &&& self.found == contains_pattern(self.seen@, self.pattern@)
        &&& !self.found ==> self.tail@.len() == tail_cap(
            self.seen@.len() as int,
            self.pattern@.len() as int,
        )
        &&& !self.found ==> self.tail@ == self.seen@.subrange(
            self.seen@.len() - self.tail@.len(),
            self.seen@.len() as int,
        )
    }

    /// A well-formed matcher that has not matched has provably not seen the
    /// pattern anywhere in the bytes fed so far.
    pub proof fn lemma_unmatched_means_absent(self)
        requires
            self.wf(),
            !self.matched(),
        ensures
            !contains_pattern(self.seen(), self.pattern_spec()),
    {
    }

    /// A fresh matcher that has seen nothing. An empty pattern counts as
    /// already matched.
    pub fn new(pattern: Vec<u8>) -> (m: LogMatcher)
        ensures
            m.wf(),
            m.pattern_spec() == pattern@,
            m.seen() == Seq::<u8>::empty(),
            m.matched() == (pattern@.len() == 0),
    {
        let empty_pattern = pattern.len() == 0;
        proof {
            if empty_pattern {
                assert(Seq::<u8>::empty().subrange(0, 0) =~= pattern@);
                assert(is_match_at(Seq::<u8>::empty(), pattern@, 0));
            } else {
                if contains_pattern(Seq::<u8>::empty(), pattern@) {
                    let i = choose|i: int| is_match_at(Seq::<u8>::empty(), pattern@, i);
                    assert(i + pattern@.len() <= 0);
                }
            }
            assert(Seq::<u8>::empty().subrange(0, 0) =~= Seq::<u8>::empty());
        }
        LogMatcher { pattern, tail: Vec::new(), found: empty_pattern, seen: Ghost(Seq::empty()) }
    }

    /// Whether the pattern has occurred in the bytes fed so far.
    pub fn is_found(&self) -> (r: bool)
        ensures
            r == self.matched(),
    {
        self.found
    }

    /// Feeds the next chunk of the stream. Returns whether the pattern has
    /// now occurred in the concatenation of all bytes fed so far.
    pub fn feed(&mut self, chunk: &Vec<u8>) -> (found: bool)
        requires
            old(self).wf(),
        ensures
            final(self).wf(),
            final(self).pattern_spec() == old(self).pattern_spec(),
            final(self).seen() == old(self).seen() + chunk@,
            found == final(self).matched(),
            found == contains_pattern(old(self).seen() + chunk@, old(self).pattern_spec()),
    {
        let ghost old_seen = self.seen@;
        proof {
            self.seen@ = old_seen + chunk@;
        }
        if self.found {
            proof {
                lemma_match_extend(old_seen, chunk@, self.pattern@);
            }
            return true;
        }
        let mut combined = copy_range(&self.tail, 0, self.tail.len());
        proof {
            assert(self.tail@.subrange(0, self.tail@.len() as int) =~= self.tail@);
        }
        append_bytes(&mut combined, chunk);
        let ghost s = old_seen.len() - self.tail@.len();
        let ghost head = old_seen.subrange(0, s);
        proof {
            assert(head + combined@ =~= old_seen + chunk@);
        }
        if find_pattern(&combined, &self.pattern) {
            self.found = true;
            proof {
                lemma_match_embed(head, combined@, self.pattern@);
            }
            return true;
        }
        proof {
            if self.pattern@.len() == 0 {
                assert(old_seen.subrange(0, 0) =~= self.pattern@);
                assert(is_match_at(old_seen, self.pattern@, 0));
            }
        }
        let keep = if combined.len() <= self.pattern.len() - 1 {
            combined.len()
        } else {
            self.pattern.len() - 1
        };
        proof {
            lemma_no_match_after_feed(old_seen, self.tail@, chunk@, self.pattern@);
        }
        let start = combined.len() - keep;
        self.tail = copy_range(&combined, start, combined.len());
        proof {
            assert(self.tail@ =~= self.seen@.subrange(
                self.seen@.len() - self.tail@.len(),
                self.seen@.len() as int,
            ));
        }
        false
    }
}

} // verus!

//! Splits the bytes of the control connection into command lines.

use vstd::prelude::*;

verus! {

/// Carriage return.
pub const CR: u8 = 13;

/// Line feed.
pub const LF: u8 = 10;

/// The longest command line accepted, terminator not included.
pub const MAX_LINE: usize = 1024;

/// A `CR LF` pair starts at index `i` of `s`.
pub open spec fn crlf_at(s: Seq<u8>, i: int) -> bool {
    0 <= i && i + 1 < s.len() && s[i] == CR && s[i + 1] == LF
}

/// The index of the first `CR LF` pair of `s` that starts below `n`.
pub open spec fn first_crlf(s: Seq<u8>, n: nat) -> Option<int>
    decreases n,
{
    if n == 0 {
        None
    } else {
        match first_crlf(s, (n - 1) as nat) {
            Some(i) => Some(i),
            None => if crlf_at(s, n - 1) {
                Some(n - 1)
            } else {
                None
            },
        }
    }
}

/// Where the line at the front of `s` ends: the first terminator after at
/// most `MAX_LINE` bytes.
pub open spec fn line_end(s: Seq<u8>) -> Option<int> {
    first_crlf(s, (MAX_LINE + 1) as nat)
}

/// What the reader hands out, as a value of the model.
pub enum FrameEvent {
    Line(Seq<u8>),
    Overlong,
}

/// The next frame due on the pending bytes `s`, with the bytes that remain
/// after it; `None` while more bytes are needed. A line is due once its
/// terminator has arrived; once more than `MAX_LINE + 1` bytes hold none
/// within the cap, `MAX_LINE` of them are dropped as an overlong line.
pub open spec fn frame_step(s: Seq<u8>) -> Option<(FrameEvent, Seq<u8>)> {
    match line_end(s) {
        Some(i) => Some((FrameEvent::Line(s.take(i)), s.skip(i + 2))),
        None => if s.len() >= MAX_LINE + 2 {
            Some((FrameEvent::Overlong, s.skip(MAX_LINE as int)))
        } else {
            None
        },
    }
}

/// All the frames due on `s`, taken one after the other, and the bytes
/// left pending.
pub open spec fn drain(s: Seq<u8>) -> (Seq<FrameEvent>, Seq<u8>)
    decreases s.len(),
{
    match line_end(s) {
        Some(i) => if 0 <= i && i + 2 <= s.len() {
            let (fs, left) = drain(s.skip(i + 2));
            (seq![FrameEvent::Line(s.take(i))] + fs, left)
        } else {
            (Seq::empty(), s)
        },
        None => if s.len() >= MAX_LINE + 2 {
            let (fs, left) = drain(s.skip(MAX_LINE as int));
            (seq![FrameEvent::Overlong] + fs, left)
        } else {
            (Seq::empty(), s)
        },
    }
}

/// The bytes of a sequence of reads, in order.
pub open spec fn concat_reads(reads: Seq<Seq<u8>>) -> Seq<u8>
    decreases reads.len(),
{
    if reads.len() == 0 {
        Seq::empty()
    } else {
        concat_reads(reads.drop_last()) + reads.last()
    }
}

/// A reader fed `reads` one at a time from empty, with every frame due
/// taken after each read: the frames, in order, and the bytes left pending.
pub open spec fn feed_all(reads: Seq<Seq<u8>>) -> (Seq<FrameEvent>, Seq<u8>)
    decreases reads.len(),
{
    if reads.len() == 0 {
        (Seq::empty(), Seq::empty())
    } else {
        let (fs, left) = feed_all(reads.drop_last());
        let (gs, rest) = drain(left + reads.last());
        (fs + gs, rest)
    }
}

/// What the reader hands out next.
pub enum Frame {
    /// A complete command line, terminator stripped.
    Line(Vec<u8>),
    /// More than `MAX_LINE` bytes arrived without a terminator; `MAX_LINE`
    /// of them were dropped.
    Overlong,
}

/// Accumulates received bytes and cuts them into command lines.
pub struct FrameReader {
    pending: Vec<u8>,
}

impl FrameReader {
    /// The bytes received and not yet handed out.
    pub closed spec fn pending(&self) -> Seq<u8> {
        self.pending@
    }

    pub fn new() -> (r: FrameReader)
        ensures
            r.pending() == Seq::<u8>::empty(),
    {
        FrameReader { pending: Vec::new() }
    }

    /// Appends bytes just read from the connection.
    pub fn feed(&mut self, bytes: &[u8])
        ensures
            final(self).pending() == old(self).pending() + bytes@,
    {
        let mut i: usize = 0;
        while i < bytes.len()
            invariant
                0 <= i <= bytes@.len(),
                self.pending@ == old(self).pending@ + bytes@.take(i as int),
            decreases bytes@.len() - i,
        {
            self.pending.push(bytes[i]);
            i = i + 1;
            assert(bytes@.take(i as int) =~= bytes@.take(i - 1) + seq![bytes@[i - 1]]);
        }
        assert(bytes@.take(i as int) =~= bytes@);
    }

    /// Takes the next frame, if the bytes received so far complete one.
    pub fn next_frame(&mut self) -> (r: Option<Frame>)
        ensures
            match frame_step(old(self).pending()) {
                None => r is None && final(self).pending() == old(self).pending(),
                Some((FrameEvent::Line(l), rest)) => r matches Some(Frame::Line(v)) && v@ == l
                    && final(self).pending() == rest,
                Some((FrameEvent::Overlong, rest)) => r matches Some(Frame::Overlong)
                    && final(self).pending() == rest,
            },
    {
        let n = self.pending.len();
        let mut i: usize = 0;
        while i <= MAX_LINE && i + 1 < n
            invariant
                n == self.pending@.len(),
                self.pending@ == old(self).pending@,
                0 <= i <= MAX_LINE + 1,
                first_crlf(self.pending@, i as nat) is None,
            decreases MAX_LINE + 1 - i,
        {
            if self.pending[i] == CR && self.pending[i + 1] == LF {
                proof {
                    assert(first_crlf(self.pending@, (i + 1) as nat) == Some(i as int));
                    lemma_first_crlf_stable(self.pending@, (i + 1) as nat, (MAX_LINE + 1) as nat);
                }
                let line = copy_range(&self.pending, 0, i);
                let rest = copy_range(&self.pending, i + 2, n);
                self.pending = rest;
                return Some(Frame::Line(line));
            }
            i = i + 1;
        }
        proof {
            lemma_no_crlf_beyond(self.pending@, i as nat, (MAX_LINE + 1) as nat);
        }
        if n >= MAX_LINE + 2 {
            let rest = copy_range(&self.pending, MAX_LINE, n);
            self.pending = rest;
            Some(Frame::Overlong)
        } else {
            None
        }
    }
}

/// The bytes `v[start..end]` as a new vector.
fn copy_range(v: &Vec<u8>, start: usize, end: usize) -> (r: Vec<u8>)
    requires
        start <= end <= v@.len(),
    ensures
        r@ == v@.subrange(start as int, end as int),
{
    let mut r: Vec<u8> = Vec::new();
    let mut k: usize = start;
    while k < end
        invariant
            start <= k <= end <= v@.len(),
            r@ == v@.subrange(start as int, k as int),
        decreases end - k,
    {
        r.push(v[k]);
        k = k + 1;
        assert(r@ =~= v@.subrange(start as int, k as int));
    }
    r
}

/// A terminator found below `n` stays the first one below any larger bound.
proof fn lemma_first_crlf_stable(s: Seq<u8>, n: nat, m: nat)
    requires
        n <= m,
        first_crlf(s, n) is Some,
    ensures
        first_crlf(s, m) == first_crlf(s, n),
    decreases m - n,
{
    if n < m {
        lemma_first_crlf_stable(s, n, (m - 1) as nat);
    }
}

/// What the search finds is a pair, found already below the next index.
proof fn lemma_first_crlf_found(s: Seq<u8>, n: nat)
    requires
        first_crlf(s, n) is Some,
    ensures
        ({
            let i = first_crlf(s, n)->0;
            0 <= i < n && crlf_at(s, i) && first_crlf(s, (i + 1) as nat) == Some(i)
        }),
    decreases n,
{
    if first_crlf(s, (n - 1) as nat) is Some {
        lemma_first_crlf_found(s, (n - 1) as nat);
    }
}

/// No pair can start at `n - 1` or later once the pair would pass the end of `s`.
proof fn lemma_no_crlf_beyond(s: Seq<u8>, n: nat, m: nat)
    requires
        first_crlf(s, n) is None,
        n + 1 >= s.len() || n >= m,
    ensures
        first_crlf(s, m) is None,
    decreases m,
{
    if m > n {
        lemma_no_crlf_beyond(s, n, (m - 1) as nat);
        assert(!crlf_at(s, m - 1));
    } else if m < n {
        lemma_first_crlf_prefix_none(s, m, n);
    }
}

/// No terminator below `n` means none below any smaller bound.
proof fn lemma_first_crlf_prefix_none(s: Seq<u8>, m: nat, n: nat)
    requires
        m <= n,
        first_crlf(s, n) is None,
    ensures
        first_crlf(s, m) is None,
    decreases n - m,
{
    if m < n {
        lemma_first_crlf_prefix_none(s, (m + 1) as nat, n);
    }
}

/// With no pair below `n`, none is found below `n`.
proof fn lemma_first_crlf_absent(s: Seq<u8>, n: nat)
    requires
        forall|j: int| 0 <= j < n ==> !crlf_at(s, j),
    ensures
        first_crlf(s, n) is None,
    decreases n,
{
    if n > 0 {
        lemma_first_crlf_absent(s, (n - 1) as nat);
    }
}

/// Bytes appended after index `n` do not change the search below `n`.
proof fn lemma_first_crlf_extend(a: Seq<u8>, b: Seq<u8>, n: nat)
    requires
        n + 1 <= a.len(),
    ensures
        first_crlf(a + b, n) == first_crlf(a, n),
    decreases n,
{
    if n > 0 {
        lemma_first_crlf_extend(a, b, (n - 1) as nat);
        let j = n - 1;
        assert((a + b)[j] == a[j] && (a + b)[j + 1] == a[j + 1]);
        assert(crlf_at(a + b, j) == crlf_at(a, j));
    }
}

/// A frame due on `a` is due, unchanged, on `a` followed by more bytes.
proof fn lemma_frame_step_extend(a: Seq<u8>, b: Seq<u8>)
    ensures
        frame_step(a) matches Some((f, rest)) ==> frame_step(a + b) == Some((f, rest + b)),
{
    let limit = (MAX_LINE + 1) as nat;
    match line_end(a) {
        Some(i) => {
            lemma_first_crlf_found(a, limit);
            lemma_first_crlf_extend(a, b, (i + 1) as nat);
            lemma_first_crlf_stable(a + b, (i + 1) as nat, limit);
            assert((a + b).take(i) =~= a.take(i));
            assert((a + b).skip(i + 2) =~= a.skip(i + 2) + b);
        },
        None => {
            if a.len() >= MAX_LINE + 2 {
                lemma_first_crlf_extend(a, b, limit);
                assert((a + b).skip(MAX_LINE as int) =~= a.skip(MAX_LINE as int) + b);
            }
        },
    }
}

/// `drain` takes the frames of `frame_step` one after the other.
proof fn lemma_drain_unfold(s: Seq<u8>)
    ensures
        match frame_step(s) {
            None => drain(s) == (Seq::<FrameEvent>::empty(), s),
            Some((f, rest)) => rest.len() < s.len() && drain(s) == (
                seq![f] + drain(rest).0,
                drain(rest).1,
            ),
        },
{
    if line_end(s) is Some {
        lemma_first_crlf_found(s, (MAX_LINE + 1) as nat);
    }
}

/// Draining `a` and then the rest of it followed by `b` takes the same frames
/// as draining `a` followed by `b`.
proof fn lemma_drain_append(a: Seq<u8>, b: Seq<u8>)
    ensures
        drain(a + b) == (
            drain(a).0 + drain(drain(a).1 + b).0,
            drain(drain(a).1 + b).1,
        ),
    decreases a.len(),
{
    lemma_drain_unfold(a);
    lemma_drain_unfold(a + b);
    lemma_frame_step_extend(a, b);
    match frame_step(a) {
        None => {
            assert(Seq::<FrameEvent>::empty() + drain(a + b).0 =~= drain(a + b).0);
        },
        Some((f, rest)) => {
            lemma_drain_append(rest, b);
            assert(seq![f] + (drain(rest).0 + drain(drain(rest).1 + b).0) =~= (seq![f] + drain(
                rest,
            ).0) + drain(drain(rest).1 + b).0);
        },
    }
}

/// Framing depends on the bytes alone, never on where the reads split
/// them: a reader fed the reads one at a time, with every frame due taken
/// after each, hands out the frames of all the bytes taken at once, and
/// leaves the same bytes pending.
pub proof fn lemma_framing_ignores_splits(reads: Seq<Seq<u8>>)
    ensures
        feed_all(reads) == drain(concat_reads(reads)),
    decreases reads.len(),
{
    if reads.len() == 0 {
        assert(Seq::<u8>::empty().len() == 0);
        lemma_drain_unfold(Seq::<u8>::empty());
    } else {
        let d = reads.drop_last();
        lemma_framing_ignores_splits(d);
        lemma_drain_append(concat_reads(d), reads.last());
    }
}

/// However the bytes of an unfinished command line are split into reads, no
/// frame is handed out after any of them while they hold no terminator and
/// are at most `MAX_LINE` long; they all stay pending.
pub proof fn lemma_no_frame_before_terminator(reads: Seq<Seq<u8>>)
    requires
        forall|i: int| !crlf_at(concat_reads(reads), i),
        concat_reads(reads).len() <= MAX_LINE,
    ensures
        forall|k: int| 0 <= k <= reads.len() ==> (#[trigger] feed_all(reads.take(k))).0.len() == 0,
        feed_all(reads).1 == concat_reads(reads),
{
    assert forall|k: int| 0 <= k <= reads.len() implies {
        &&& (#[trigger] feed_all(reads.take(k))).0.len() == 0
        &&& feed_all(reads.take(k)).1 == concat_reads(reads.take(k))
    } by {
        let whole = concat_reads(reads);
        let s = concat_reads(reads.take(k));
        lemma_concat_prefix(reads, k);
        assert forall|j: int| 0 <= j < MAX_LINE + 1 implies !crlf_at(s, j) by {
            if crlf_at(s, j) {
                assert(whole[j] == s[j] && whole[j + 1] == s[j + 1]);
                assert(crlf_at(whole, j));
            }
        }
        lemma_first_crlf_absent(s, (MAX_LINE + 1) as nat);
        lemma_drain_unfold(s);
        lemma_framing_ignores_splits(reads.take(k));
    }
    assert(reads.take(reads.len() as int) =~= reads);
}

/// Once the terminator arrives, the line before it is handed out whole,
/// whatever follows.
pub proof fn lemma_line_at_terminator(line: Seq<u8>, rest: Seq<u8>)
    requires
        forall|i: int| !crlf_at(line, i),
        line.len() <= MAX_LINE,
    ensures
        frame_step(line + seq![CR, LF] + rest) == Some((FrameEvent::Line(line), rest)),
{
    let s = line + seq![CR, LF] + rest;
    let n = line.len();
    assert forall|j: int| 0 <= j < n implies !crlf_at(s, j) by {
        if j + 1 < n {
            assert(s[j] == line[j] && s[j + 1] == line[j + 1]);
            assert(!crlf_at(line, j));
        } else {
            assert(s[j + 1] == CR);
        }
    }
    lemma_first_crlf_absent(s, n);
    assert(s[n as int] == CR && s[n + 1int] == LF);
    assert(first_crlf(s, n + 1) == Some(n as int));
    lemma_first_crlf_stable(s, n + 1, (MAX_LINE + 1) as nat);
    assert(s.take(n as int) =~= line);
    assert(s.skip(n + 2int) =~= rest);
}

/// The reads before `k` make a prefix of all the bytes.
proof fn lemma_concat_prefix(reads: Seq<Seq<u8>>, k: int)
    requires
        0 <= k <= reads.len(),
    ensures
        concat_reads(reads.take(k)).len() <= concat_reads(reads).len(),
        concat_reads(reads.take(k)) == concat_reads(reads).take(
            concat_reads(reads.take(k)).len() as int,
        ),
    decreases reads.len(),
{
    if k == reads.len() {
        assert(reads.take(k) =~= reads);
    } else {
        lemma_concat_prefix(reads.drop_last(), k);
        assert(reads.drop_last().take(k) =~= reads.take(k));
        let a = concat_reads(reads.drop_last());
        let p = concat_reads(reads.take(k));
        assert(concat_reads(reads) == a + reads.last());
        assert((a + reads.last()).take(p.len() as int) =~= a.take(p.len() as int));
    }
}

} // verus!

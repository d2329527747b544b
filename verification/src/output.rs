use vstd::prelude::*;
use vstd::utf8::{decode_utf8, valid_utf8};

verus! {

/// What `String::from_utf8_lossy` makes of a byte sequence.
pub uninterp spec fn utf8_lossy(bytes: Seq<u8>) -> Seq<char>;

/// Calls `String::from_utf8_lossy`. Its result depends on the bytes alone; its
/// documentation says valid UTF-8 comes back as the text it encodes. What it does
/// with invalid sequences (U+FFFD in their place) is left unsaid.
#[verifier::external_body]
fn decode_lossy(bytes: &[u8]) -> (s: String)
    ensures
        s@ == utf8_lossy(bytes@),
        valid_utf8(bytes@) ==> s@ == decode_utf8(bytes@),
{
    String::from_utf8_lossy(bytes).into_owned()
}

/// The text a byte sequence decodes to: for valid UTF-8 the text it encodes;
/// otherwise what `String::from_utf8_lossy` makes of it.
pub open spec fn lossy_text(bytes: Seq<u8>) -> Seq<char> {
    if valid_utf8(bytes) {
        decode_utf8(bytes)
    } else {
        utf8_lossy(bytes)
    }
}

/// The newline byte.
pub open spec fn newline() -> u8 {
    10u8
}

/// `b` cut after each newline: the complete lines, each with its newline, and what
/// follows the last newline.
pub open spec fn split_lines(b: Seq<u8>) -> (Seq<Seq<u8>>, Seq<u8>)
    decreases b.len(),
{
    if b.len() == 0 {
        (Seq::<Seq<u8>>::empty(), Seq::<u8>::empty())
    } else {
        let p = split_lines(b.drop_last());
        if b.last() == newline() {
            (p.0.push(p.1.push(newline())), Seq::<u8>::empty())
        } else {
            (p.0, p.1.push(b.last()))
        }
    }
}

/// The byte sequences one after the other.
pub open spec fn concat(ls: Seq<Seq<u8>>) -> Seq<u8>
    decreases ls.len(),
{
    if ls.len() == 0 {
        Seq::<u8>::empty()
    } else {
        concat(ls.drop_last()) + ls.last()
    }
}

/// A complete line: it ends with a newline and holds no other.
pub open spec fn is_line(l: Seq<u8>) -> bool {
    &&& l.len() > 0
    &&& l.last() == newline()
    &&& forall|k: int| 0 <= k < l.len() - 1 ==> l[k] != newline()
}

/// Splitting into lines loses and adds nothing: the lines and the rest, put back
/// together, give the bytes; every line is complete and the rest holds no newline.
pub proof fn law_split_lines_lossless(b: Seq<u8>)
    ensures
        concat(split_lines(b).0) + split_lines(b).1 == b,
        !split_lines(b).1.contains(newline()),
        forall|i: int| 0 <= i < split_lines(b).0.len() ==> is_line(#[trigger] split_lines(b).0[i]),
    decreases b.len(),
{
    if b.len() > 0 {
        let b0 = b.drop_last();
        law_split_lines_lossless(b0);
        let p = split_lines(b0);
        let q = split_lines(b);
        if b.last() == newline() {
            assert(q.0.drop_last() == p.0);
            assert(concat(q.0) == concat(p.0) + p.1.push(newline()));
            assert(concat(p.0) + p.1.push(newline()) == (concat(p.0) + p.1).push(newline()));
            assert(b0.push(b.last()) == b);
            assert(!q.1.contains(newline()));
            assert forall|i: int| 0 <= i < q.0.len() implies is_line(#[trigger] q.0[i]) by {
                if i < p.0.len() {
                    assert(q.0[i] == p.0[i]);
                } else {
                    let l = p.1.push(newline());
                    assert(q.0[i] == l);
                    assert forall|k: int| 0 <= k < l.len() - 1 implies l[k] != newline() by {
                        assert(l[k] == p.1[k]);
                    }
                }
            }
        } else {
            assert(concat(p.0) + p.1.push(b.last()) == (concat(p.0) + p.1).push(b.last()));
            assert(b0.push(b.last()) == b);
            assert(!q.1.contains(newline())) by {
                if q.1.contains(newline()) {
                    let k = choose|k: int| 0 <= k < q.1.len() && q.1[k] == newline();
                    if k < p.1.len() {
                        assert(p.1[k] == newline());
                    }
                }
            }
        }
    }
}

/// Takes every complete line out of `buf`, decoding each with its newline, and
/// leaves in `buf` what follows the last newline.
pub fn drain_lines(buf: &mut Vec<u8>) -> (lines: Vec<String>)
    ensures
        lines@.len() == split_lines(old(buf)@).0.len(),
        forall|i: int|
            0 <= i < lines@.len() ==> (#[trigger] lines@[i])@ == lossy_text(
                split_lines(old(buf)@).0[i],
            ),
        final(buf)@ == split_lines(old(buf)@).1,
{
    let ghost b = buf@;
    let mut lines: Vec<String> = Vec::new();
    let mut cur: Vec<u8> = Vec::new();
    let n = buf.len();
    for i in 0..n
        invariant
            n == buf@.len(),
            buf@ == b,
            split_lines(b.take(i as int)).1 == cur@,
            lines@.len() == split_lines(b.take(i as int)).0.len(),
            forall|j: int|
                0 <= j < lines@.len() ==> (#[trigger] lines@[j])@ == lossy_text(
                    split_lines(b.take(i as int)).0[j],
                ),
    {
        let x = buf[i];
        assert(b.take(i + 1).drop_last() == b.take(i as int));
        assert(b.take(i + 1).last() == x);
        cur.push(x);
        if x == 10u8 {
            lines.push(decode_lossy(cur.as_slice()));
            cur = Vec::new();
        }
    }
    assert(b.take(n as int) == b);
    *buf = cur;
    lines
}

/// The output of one remote command as it streams in: the bytes of a line not yet
/// complete, the exit code (0 until the server reports one), and, as ghost state,
/// every byte received and every line handed out so far.
pub struct CommandOutput {
    code: u32,
    pending: Vec<u8>,
    received: Ghost<Seq<u8>>,
    emitted: Ghost<Seq<Seq<u8>>>,
}

impl CommandOutput {
    /// Well-formedness: everything received is the lines handed out followed by the
    /// pending bytes, and no newline is pending.
    pub closed spec fn wf(self) -> bool {
        &&& concat(self.emitted@) + self.pending@ == self.received@
        &&& !self.pending@.contains(newline())
    }

    /// The exit code reported so far (0 when none was).
    pub closed spec fn exit_code(self) -> u32 {
        self.code
    }

    /// Bytes of the line not yet complete.
    pub closed spec fn pending(self) -> Seq<u8> {
        self.pending@
    }

    /// Every byte received so far, in order.
    pub closed spec fn received(self) -> Seq<u8> {
        self.received@
    }

    /// Every complete line handed out so far, as bytes.
    pub closed spec fn emitted(self) -> Seq<Seq<u8>> {
        self.emitted@
    }

    /// Nothing received yet.
    pub fn new() -> (s: CommandOutput)
        ensures
            s.wf(),
            s.exit_code() == 0,
            s.pending() == Seq::<u8>::empty(),
            s.received() == Seq::<u8>::empty(),
            s.emitted() == Seq::<Seq<u8>>::empty(),
    {
        CommandOutput {
            code: 0,
            pending: Vec::new(),
            received: Ghost(Seq::empty()),
            emitted: Ghost(Seq::empty()),
        }
    }

    /// Output data (standard or error stream) arrived: appends it and hands out the
    /// lines it completes, decoded.
    pub fn on_data(&mut self, data: &[u8]) -> (lines: Vec<String>)
        requires
            old(self).wf(),
        ensures
            final(self).wf(),
            final(self).received() == old(self).received() + data@,
            final(self).emitted() == old(self).emitted() + split_lines(
                old(self).pending() + data@,
            ).0,
            final(self).pending() == split_lines(old(self).pending() + data@).1,
            final(self).exit_code() == old(self).exit_code(),
            lines@.len() == split_lines(old(self).pending() + data@).0.len(),
            forall|i: int|
                0 <= i < lines@.len() ==> (#[trigger] lines@[i])@ == lossy_text(
                    split_lines(old(self).pending() + data@).0[i],
                ),
    {
        let mut buf: Vec<u8> = Vec::new();
        for i in 0..self.pending.len()
            invariant
                buf@ == self.pending@.take(i as int),
        {
            buf.push(self.pending[i]);
            assert(self.pending@.take(i + 1) == self.pending@.take(i as int).push(
                self.pending@[i as int],
            ));
        }
        assert(self.pending@.take(self.pending@.len() as int) == self.pending@);
        let ghost start = buf@;
        for i in 0..data.len()
            invariant
                buf@ == start + data@.take(i as int),
        {
            buf.push(data[i]);
            assert(data@.take(i + 1) == data@.take(i as int).push(data@[i as int]));
        }
        assert(data@.take(data@.len() as int) == data@);
        let ghost all = buf@;
        let lines = drain_lines(&mut buf);
        proof {
            law_split_lines_lossless(all);
            lemma_concat_append(self.emitted@, split_lines(all).0);
            assert(concat(self.emitted@ + split_lines(all).0) + split_lines(all).1
                == concat(self.emitted@) + (concat(split_lines(all).0) + split_lines(all).1));
            assert(all == self.pending@ + data@);
            assert(self.received@ + data@ == concat(self.emitted@) + all);
        }
        let ghost received = self.received@ + data@;
        let ghost emitted = self.emitted@ + split_lines(all).0;
        *self = CommandOutput {
            code: self.code,
            pending: buf,
            received: Ghost(received),
            emitted: Ghost(emitted),
        };
        lines
    }

    /// The server reported the command's exit status.
    pub fn on_exit_status(&mut self, status: u32)
        requires
            old(self).wf(),
        ensures
            final(self).wf(),
            final(self).exit_code() == status,
            final(self).pending() == old(self).pending(),
            final(self).received() == old(self).received(),
            final(self).emitted() == old(self).emitted(),
    {
        self.code = status;
    }

    /// The channel closed: gives the exit code and, when bytes of an incomplete last
    /// line remain, that line decoded.
    pub fn finish(self) -> (r: (u32, Option<String>))
        ensures
            r.0 == self.exit_code(),
            self.pending().len() == 0 ==> r.1 is None,
            self.pending().len() > 0 ==> (r.1 matches Some(l) && l@ == lossy_text(self.pending())),
    {
        if self.pending.len() == 0 {
            (self.code, None)
        } else {
            (self.code, Some(decode_lossy(self.pending.as_slice())))
        }
    }

    /// All bytes received are accounted for: the lines handed out, in order, followed
    /// by the bytes still pending; and nothing pending holds a newline.
    pub proof fn law_nothing_lost(self)
        requires
            self.wf(),
        ensures
            concat(self.emitted()) + self.pending() == self.received(),
            !self.pending().contains(newline()),
    {
    }
}

proof fn lemma_concat_append(a: Seq<Seq<u8>>, b: Seq<Seq<u8>>)
    ensures
        concat(a + b) == concat(a) + concat(b),
    decreases b.len(),
{
    if b.len() == 0 {
        assert(a + b == a);
        assert(concat(a) + concat(b) == concat(a));
    } else {
        lemma_concat_append(a, b.drop_last());
        assert((a + b).drop_last() == a + b.drop_last());
        assert((a + b).last() == b.last());
    }
}

proof fn lemma_split_lines_no_newline(s: Seq<u8>)
    requires
        !s.contains(newline()),
    ensures
        split_lines(s) == (Seq::<Seq<u8>>::empty(), s),
    decreases s.len(),
{
    if s.len() > 0 {
        let s0 = s.drop_last();
        assert(!s0.contains(newline())) by {
            if s0.contains(newline()) {
                let k = choose|k: int| 0 <= k < s0.len() && s0[k] == newline();
                assert(s[k] == newline());
            }
        }
        lemma_split_lines_no_newline(s0);
        assert(s.last() != newline()) by {
            assert(s[s.len() - 1] == s.last());
        }
        assert(s0.push(s.last()) == s);
    }
}

/// Draining output that arrives in two chunks gives what draining it in one does:
/// the lines of the first chunk, then those of what was left of it followed by the
/// second chunk, and the same bytes left over. So a character split between two
/// chunks is decoded whole.
pub proof fn law_split_lines_in_two(x: Seq<u8>, y: Seq<u8>)
    ensures
        split_lines(x + y).0 == split_lines(x).0 + split_lines(split_lines(x).1 + y).0,
        split_lines(x + y).1 == split_lines(split_lines(x).1 + y).1,
    decreases y.len(),
{
    let r = split_lines(x).1;
    if y.len() == 0 {
        assert(x + y == x);
        assert(r + y == r);
        law_split_lines_lossless(x);
        lemma_split_lines_no_newline(r);
        assert(split_lines(x).0 + Seq::<Seq<u8>>::empty() == split_lines(x).0);
    } else {
        let y0 = y.drop_last();
        law_split_lines_in_two(x, y0);
        assert((x + y).drop_last() == x + y0);
        assert((x + y).last() == y.last());
        assert((r + y).drop_last() == r + y0);
        assert((r + y).last() == y.last());
        let p = split_lines(r + y0);
        if y.last() == newline() {
            assert(split_lines(x).0 + p.0.push(p.1.push(newline())) == (split_lines(x).0 + p.0).push(
                p.1.push(newline()),
            ));
        }
    }
}

} // verus!

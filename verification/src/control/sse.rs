//! Incremental `text/event-stream` parser: feeds response chunks and emits
//! complete `data:` payloads, in order.

use vstd::prelude::*;
use crate::control::carrier::CarrierError;
use crate::text::owned;

verus! {

/// Upper bound on one buffered HTTP response body or SSE event batch.
pub const MAX_BODY_BYTES: usize = 64 * 1024 * 1024;

/// `\n`.
pub const NEWLINE: u8 = 10;

/// `\r`.
pub const CARRIAGE_RETURN: u8 = 13;

/// `:`, which opens a comment line.
pub const COLON: u8 = 58;

/// ` `.
pub const SPACE: u8 = 32;

/// The field name that carries payload data, with its colon.
pub open spec fn data_prefix() -> Seq<u8> {
    seq![100u8, 97u8, 116u8, 97u8, 58u8]
}

/// `i` is the first line feed in `s`.
pub open spec fn is_first_newline(s: Seq<u8>, i: int) -> bool {
    &&& 0 <= i < s.len()
    &&& s[i] == NEWLINE
    &&& forall|k: int| 0 <= k < i ==> s[k] != NEWLINE
}

/// A raw line without its line feed, minus one trailing carriage return.
pub open spec fn strip_cr(raw: Seq<u8>) -> Seq<u8> {
    if raw.len() > 0 && raw.last() == CARRIAGE_RETURN {
        raw.drop_last()
    } else {
        raw
    }
}

/// The data a `data:` line contributes: the rest of the line after the
/// colon, minus one leading space.
pub open spec fn data_of(line: Seq<u8>) -> Seq<u8> {
    let rest = line.skip(5);
    if rest.len() > 0 && rest[0] == SPACE {
        rest.skip(1)
    } else {
        rest
    }
}

/// What one complete line does: an empty line dispatches the pending data
/// (without its final line feed) when there is any; a comment or another
/// field changes nothing; a `data:` line appends its data and a line feed.
/// Returns the new pending data and the payloads emitted.
pub open spec fn apply_line(pending: Seq<u8>, line: Seq<u8>) -> (Seq<u8>, Seq<Seq<u8>>) {
    if line.len() == 0 {
        if pending.len() > 0 {
            (Seq::empty(), seq![pending.drop_last()])
        } else {
            (pending, Seq::empty())
        }
    } else if line[0] == COLON {
        (pending, Seq::empty())
    } else if line.len() >= 5 && line.take(5) == data_prefix() {
        (pending + data_of(line) + seq![NEWLINE], Seq::empty())
    } else {
        (pending, Seq::empty())
    }
}

/// Processes every complete line of `buffer`: returns the pending data
/// afterwards, the unterminated remainder, and the payloads in order.
pub open spec fn drain(pending: Seq<u8>, buffer: Seq<u8>) -> (Seq<u8>, Seq<u8>, Seq<Seq<u8>>)
    decreases buffer.len(),
{
    if exists|i: int| is_first_newline(buffer, i) {
        let i = choose|i: int| is_first_newline(buffer, i);
        let (next, emitted) = apply_line(pending, strip_cr(buffer.take(i)));
        let (p, rest, out) = drain(next, buffer.skip(i + 1));
        (p, rest, emitted + out)
    } else {
        (pending, buffer, Seq::empty())
    }
}

/// The byte contents of each payload.
pub open spec fn views(payloads: Seq<Vec<u8>>) -> Seq<Seq<u8>> {
    payloads.map_values(|p: Vec<u8>| p@)
}

/// Incremental SSE parser state: unparsed bytes and the data of the event
/// being assembled.
pub struct SseParser {
    buffer: Vec<u8>,
    pending: Vec<u8>,
}

proof fn lemma_first_newline_unique(s: Seq<u8>, i: int, j: int)
    requires
        is_first_newline(s, i),
        is_first_newline(s, j),
    ensures
        i == j,
{
    if i < j {
        assert(s[i] != NEWLINE);
    } else if j < i {
        assert(s[j] != NEWLINE);
    }
}

fn append_bytes(target: &mut Vec<u8>, source: &[u8], from: usize, to: usize)
    requires
        from <= to <= source@.len(),
    ensures
        final(target)@ == old(target)@ + source@.subrange(from as int, to as int),
{
    let mut k = from;
    while k < to
        invariant
            from <= k <= to,
            to <= source@.len(),
            target@ == old(target)@ + source@.subrange(from as int, k as int),
        decreases to - k,
    {
        target.push(source[k]);
        k += 1;
        assert(target@ == old(target)@ + source@.subrange(from as int, k as int));
    }
}

/// Draining `s + t` is draining `s`, then draining what it left unparsed
/// followed by `t`: payloads come out in the same order either way.
pub proof fn lemma_drain_concat(p: Seq<u8>, s: Seq<u8>, t: Seq<u8>)
    ensures
        ({
            let (p1, r1, o1) = drain(p, s);
            let (p2, r2, o2) = drain(p1, r1 + t);
            drain(p, s + t) == (p2, r2, o1 + o2)
        }),
    decreases s.len(),
{
    if exists|i: int| is_first_newline(s, i) {
        let i = choose|i: int| is_first_newline(s, i);
        assert(is_first_newline(s + t, i));
        assert forall|j: int| is_first_newline(s + t, j) implies j == i by {
            lemma_first_newline_unique(s + t, i, j);
        }
        let st = s + t;
        let k = choose|k: int| is_first_newline(st, k);
        assert(k == i);
        assert(st.take(i) == s.take(i));
        assert(st.skip(i + 1) == s.skip(i + 1) + t);
        let (next, emitted) = apply_line(p, strip_cr(s.take(i)));
        lemma_drain_concat(next, s.skip(i + 1), t);
        let (p1, r1, o1) = drain(next, s.skip(i + 1));
        let (p2, r2, o2) = drain(p1, r1 + t);
        assert(emitted + o1 + o2 == emitted + (o1 + o2));
    } else {
        assert(drain(p, s) == (p, s, Seq::<Seq<u8>>::empty()));
        assert(Seq::<Seq<u8>>::empty() + drain(p, s + t).2 == drain(p, s + t).2);
    }
}

/// Chunking does not matter: feeding `a` and then `b` emits exactly the
/// payloads, in the same order, and leaves exactly the state, that feeding
/// `a + b` at once does (within the body bound).
pub proof fn law_chunking_is_invisible(pending: Seq<u8>, buffer: Seq<u8>, a: Seq<u8>, b: Seq<u8>)
    ensures
        ({
            let (p1, r1, o1) = drain(pending, buffer + a);
            let (p2, r2, o2) = drain(p1, r1 + b);
            drain(pending, buffer + (a + b)) == (p2, r2, o1 + o2)
        }),
{
    lemma_drain_concat(pending, buffer + a, b);
    assert(buffer + a + b == buffer + (a + b));
}

/// `data: ` followed by `d` and a line feed: one data line on the wire.
pub open spec fn data_line(d: Seq<u8>) -> Seq<u8> {
    seq![100u8, 97u8, 116u8, 97u8, 58u8, 32u8] + d + seq![NEWLINE]
}

/// `d` is one line's worth of data: no line feed and no carriage return.
pub open spec fn single_line(d: Seq<u8>) -> bool {
    forall|k: int| 0 <= k < d.len() ==> d[k] != NEWLINE && d[k] != CARRIAGE_RETURN
}

proof fn lemma_drain_one_line(p: Seq<u8>, line: Seq<u8>)
    requires
        forall|k: int| 0 <= k < line.len() ==> line[k] != NEWLINE,
    ensures
        drain(p, line + seq![NEWLINE]) == (
            apply_line(p, strip_cr(line)).0,
            Seq::<u8>::empty(),
            apply_line(p, strip_cr(line)).1,
        ),
{
    let buf = line + seq![NEWLINE];
    let n = line.len() as int;
    assert(is_first_newline(buf, n));
    assert forall|j: int| is_first_newline(buf, j) implies j == n by {
        lemma_first_newline_unique(buf, n, j);
    }
    assert(buf.take(n) =~= line);
    assert(buf.skip(n + 1) =~= Seq::<u8>::empty());
    let (next, emitted) = apply_line(p, strip_cr(line));
    assert(!exists|i: int| is_first_newline(Seq::<u8>::empty(), i));
    assert(drain(next, Seq::<u8>::empty()) == (next, Seq::<u8>::empty(), Seq::<Seq<u8>>::empty()));
    assert(emitted + Seq::<Seq<u8>>::empty() =~= emitted);
}

/// A data line adds to the event being assembled: after `data: d`, the
/// pending data is what it was followed by `d` and a line feed, and nothing
/// is emitted yet.
pub proof fn law_data_lines_accumulate(pending: Seq<u8>, d: Seq<u8>)
    requires
        single_line(d),
    ensures
        drain(pending, data_line(d)) == (
            pending + d + seq![NEWLINE],
            Seq::<u8>::empty(),
            Seq::<Seq<u8>>::empty(),
        ),
{
    let line = seq![100u8, 97u8, 116u8, 97u8, 58u8, 32u8] + d;
    assert(data_line(d) == line + seq![NEWLINE]);
    assert forall|k: int| 0 <= k < line.len() implies line[k] != NEWLINE by {
        if k >= 6 {
            assert(line[k] == d[k - 6]);
        }
    }
    lemma_drain_one_line(pending, line);
    assert(line.last() != CARRIAGE_RETURN) by {
        if d.len() > 0 {
            assert(line.last() == d[d.len() - 1]);
        }
    }
    assert(strip_cr(line) == line);
    assert(line.take(5) =~= data_prefix());
    assert(line.skip(5) =~= seq![32u8] + d);
    assert(data_of(line) =~= d);
}

/// A blank line ends the event: the pending data, without its final line
/// feed, is emitted as one payload and the pending data is cleared; with
/// nothing pending nothing is emitted.
pub proof fn law_blank_line_dispatches(pending: Seq<u8>)
    ensures
        pending.len() > 0 ==> drain(pending, seq![NEWLINE]) == (
            Seq::<u8>::empty(),
            Seq::<u8>::empty(),
            seq![pending.drop_last()],
        ),
        pending.len() == 0 ==> drain(pending, seq![NEWLINE]) == (
            pending,
            Seq::<u8>::empty(),
            Seq::<Seq<u8>>::empty(),
        ),
{
    let empty = Seq::<u8>::empty();
    assert(empty + seq![NEWLINE] =~= seq![NEWLINE]);
    lemma_drain_one_line(pending, empty);
    assert(strip_cr(empty) == empty);
}

/// A comment line (starting with `:`) changes nothing and emits nothing.
pub proof fn law_comment_lines_change_nothing(pending: Seq<u8>, c: Seq<u8>)
    requires
        single_line(c),
    ensures
        drain(pending, seq![COLON] + c + seq![NEWLINE]) == (
            pending,
            Seq::<u8>::empty(),
            Seq::<Seq<u8>>::empty(),
        ),
{
    let line = seq![COLON] + c;
    assert forall|k: int| 0 <= k < line.len() implies line[k] != NEWLINE by {
        if k >= 1 {
            assert(line[k] == c[k - 1]);
        }
    }
    lemma_drain_one_line(pending, line);
    assert(line.last() != CARRIAGE_RETURN) by {
        if c.len() > 0 {
            assert(line.last() == c[c.len() - 1]);
        }
    }
    assert(strip_cr(line) == line);
}

/// A carriage return before the line feed is part of the line ending: a
/// data line ended by CR LF acts as the same line ended by LF alone.
pub proof fn law_crlf_ends_a_line(pending: Seq<u8>, d: Seq<u8>)
    requires
        single_line(d),
    ensures
        drain(pending, seq![100u8, 97u8, 116u8, 97u8, 58u8, 32u8] + d + seq![CARRIAGE_RETURN, NEWLINE])
            == drain(pending, data_line(d)),
{
    let line = seq![100u8, 97u8, 116u8, 97u8, 58u8, 32u8] + d;
    let crline = line.push(CARRIAGE_RETURN);
    assert(line + seq![CARRIAGE_RETURN, NEWLINE] =~= crline + seq![NEWLINE]);
    assert forall|k: int| 0 <= k < crline.len() implies crline[k] != NEWLINE by {
        if 6 <= k < crline.len() - 1 {
            assert(crline[k] == d[k - 6]);
        }
    }
    assert forall|k: int| 0 <= k < line.len() implies line[k] != NEWLINE by {
        if k >= 6 {
            assert(line[k] == d[k - 6]);
        }
    }
    lemma_drain_one_line(pending, crline);
    lemma_drain_one_line(pending, line);
    assert(strip_cr(crline) =~= line);
    assert(line.last() != CARRIAGE_RETURN) by {
        if d.len() > 0 {
            assert(line.last() == d[d.len() - 1]);
        }
    }
    assert(data_line(d) == line + seq![NEWLINE]);
}

/// The data lines of one event form one payload, joined by a line feed:
/// `data: d1`, `data: d2` and a blank line emit exactly `d1`, a line feed,
/// and `d2`, and leave nothing pending.
pub proof fn law_event_data_lines_join(d1: Seq<u8>, d2: Seq<u8>)
    requires
        single_line(d1),
        single_line(d2),
    ensures
        drain(Seq::empty(), data_line(d1) + data_line(d2) + seq![NEWLINE]) == (
            Seq::<u8>::empty(),
            Seq::<u8>::empty(),
            seq![d1 + seq![NEWLINE] + d2],
        ),
{
    let e = Seq::<u8>::empty();
    law_data_lines_accumulate(e, d1);
    let p1 = e + d1 + seq![NEWLINE];
    law_data_lines_accumulate(p1, d2);
    let p2 = p1 + d2 + seq![NEWLINE];
    law_blank_line_dispatches(p2);
    lemma_drain_concat(e, data_line(d1), data_line(d2) + seq![NEWLINE]);
    assert(e + data_line(d2) + seq![NEWLINE] =~= data_line(d2) + seq![NEWLINE]);
    lemma_drain_concat(p1, data_line(d2), seq![NEWLINE]);
    assert(e + seq![NEWLINE] =~= seq![NEWLINE]);
    assert(data_line(d1) + data_line(d2) + seq![NEWLINE] =~= data_line(d1) + (data_line(d2)
        + seq![NEWLINE]));
    assert(p2.drop_last() =~= d1 + seq![NEWLINE] + d2);
    assert(Seq::<Seq<u8>>::empty() + (Seq::<Seq<u8>>::empty() + seq![p2.drop_last()]) =~= seq![
        p2.drop_last(),
    ]);
}

impl SseParser {
    /// Bytes received but not yet ending in a line feed.
    pub closed spec fn buffer_spec(&self) -> Seq<u8> {
        self.buffer@
    }

    /// Data of the event being assembled.
    pub closed spec fn pending_spec(&self) -> Seq<u8> {
        self.pending@
    }

    /// A parser with nothing buffered.
    pub fn new() -> (r: Self)
        ensures
            r.buffer_spec() == Seq::<u8>::empty(),
            r.pending_spec() == Seq::<u8>::empty(),
    {
        SseParser { buffer: Vec::new(), pending: Vec::new() }
    }

    /// Applies the complete line `buf[start..end]`.
    fn take_line(&mut self, buf: &Vec<u8>, start: usize, end: usize, payloads: &mut Vec<Vec<u8>>)
        requires
            start <= end <= buf@.len(),
        ensures
            ({
                let (np, em) = apply_line(old(self).pending@, buf@.subrange(start as int, end as int));
                &&& final(self).pending@ == np
                &&& views(final(payloads)@) == views(old(payloads)@) + em
            }),
            final(self).buffer@ == old(self).buffer@,
    {
        let ghost line = buf@.subrange(start as int, end as int);
        let ghost before = views(payloads@);
        if end == start {
            if self.pending.len() > 0 {
                self.pending.pop();
                let mut done: Vec<u8> = Vec::new();
                std::mem::swap(&mut done, &mut self.pending);
                payloads.push(done);
                assert(views(payloads@) =~= before + seq![old(self).pending@.drop_last()]);
            } else {
                assert(views(payloads@) =~= before + Seq::<Seq<u8>>::empty());
            }
        } else if buf[start] == COLON {
            assert(views(payloads@) =~= before + Seq::<Seq<u8>>::empty());
        } else if end - start >= 5 && buf[start] == 100 && buf[start + 1] == 97 && buf[start + 2]
            == 116 && buf[start + 3] == 97 && buf[start + 4] == 58 {
            assert(line.take(5) =~= data_prefix());
            let mut from = start + 5;
            if from < end && buf[from] == SPACE {
                from += 1;
            }
            assert(buf@.subrange(from as int, end as int) =~= data_of(line));
            append_bytes(&mut self.pending, buf.as_slice(), from, end);
            self.pending.push(NEWLINE);
            assert(views(payloads@) =~= before + Seq::<Seq<u8>>::empty());
        } else {
            proof {
                if line.len() >= 5 && line.take(5) == data_prefix() {
                    assert(line.take(5)[0] == 100u8);
                    assert(line.take(5)[1] == 97u8);
                    assert(line.take(5)[2] == 116u8);
                    assert(line.take(5)[3] == 97u8);
                    assert(line.take(5)[4] == 58u8);
                }
            }
            assert(views(payloads@) =~= before + Seq::<Seq<u8>>::empty());
        }
    }

    /// Pushes one chunk; returns the complete event payloads in order, or an
    /// error once the buffered stream exceeds [`MAX_BODY_BYTES`].
    pub fn push(&mut self, chunk: &[u8]) -> (r: Result<Vec<Vec<u8>>, CarrierError>)
        ensures
            ({
                let joined = old(self).buffer_spec() + chunk@;
                if joined.len() + old(self).pending_spec().len() > MAX_BODY_BYTES {
                    &&& r matches Err(CarrierError::Exchange(m)) && m@
                        == "response exceeds 67108864 bytes"@
                    &&& final(self).buffer_spec() == joined
                    &&& final(self).pending_spec() == old(self).pending_spec()
                } else {
                    let (p, rest, out) = drain(old(self).pending_spec(), joined);
                    &&& r matches Ok(v) && views(v@) == out
                    &&& final(self).buffer_spec() == rest
                    &&& final(self).pending_spec() == p
                }
            }),
    {
        let ghost p0 = self.pending@;
        let mut buf: Vec<u8> = Vec::new();
        append_bytes(&mut buf, self.buffer.as_slice(), 0, self.buffer.len());
        append_bytes(&mut buf, chunk, 0, chunk.len());
        assert(self.buffer@.subrange(0, self.buffer@.len() as int) == self.buffer@);
        assert(chunk@.subrange(0, chunk@.len() as int) == chunk@);
        let ghost joined = buf@;
        if buf.len() > MAX_BODY_BYTES || self.pending.len() > MAX_BODY_BYTES - buf.len() {
            self.buffer = buf;
            return Err(CarrierError::Exchange(owned("response exceeds 67108864 bytes")));
        }
        let mut payloads: Vec<Vec<u8>> = Vec::new();
        let mut start: usize = 0;
        assert(buf@.skip(0) == buf@);
        assert(views(payloads@) =~= Seq::<Seq<u8>>::empty());
        loop
            invariant
                start <= buf@.len(),
                buf@ == joined,
                ({
                    let (p, rest, out) = drain(self.pending@, buf@.skip(start as int));
                    drain(p0, joined) == (p, rest, views(payloads@) + out)
                }),
            ensures
                start <= buf@.len(),
                buf@ == joined,
                ({
                    let (p, rest, out) = drain(self.pending@, buf@.skip(start as int));
                    drain(p0, joined) == (p, rest, views(payloads@) + out)
                }),
                forall|i: int| !is_first_newline(buf@.skip(start as int), i),
            decreases buf@.len() - start,
        {
            let mut j = start;
            while j < buf.len() && buf[j] != NEWLINE
                invariant
                    start <= j <= buf@.len(),
                    forall|k: int| start <= k < j ==> buf@[k] != NEWLINE,
                decreases buf@.len() - j,
            {
                j += 1;
            }
            if j == buf.len() {
                proof {
                    let s = buf@.skip(start as int);
                    assert forall|i: int| !is_first_newline(s, i) by {
                        if is_first_newline(s, i) {
                            assert(buf@[start + i] == NEWLINE);
                        }
                    }
                }
                break;
            }
            let ghost s = buf@.skip(start as int);
            proof {
                assert(is_first_newline(s, j - start));
                let c = choose|i: int| is_first_newline(s, i);
                lemma_first_newline_unique(s, c, j - start);
                assert(s.take(j - start) == buf@.subrange(start as int, j as int));
                assert(s.skip(j - start + 1) == buf@.skip(j + 1));
            }
            let mut end = j;
            if end > start && buf[end - 1] == CARRIAGE_RETURN {
                end -= 1;
            }
            assert(buf@.subrange(start as int, end as int) == strip_cr(
                buf@.subrange(start as int, j as int),
            ));
            let ghost before_pending = self.pending@;
            let ghost before_payloads = views(payloads@);
            self.take_line(&buf, start, end, &mut payloads);
            proof {
                let line = buf@.subrange(start as int, end as int);
                let (np, em) = apply_line(before_pending, line);
                let (p2, r2, o2) = drain(np, buf@.skip(j + 1));
                assert(drain(before_pending, s) == (p2, r2, em + o2));
                assert(before_payloads + (em + o2) == (before_payloads + em) + o2);
            }
            start = j + 1;
        }
        let mut rest: Vec<u8> = Vec::new();
        append_bytes(&mut rest, buf.as_slice(), start, buf.len());
        assert(buf@.subrange(start as int, buf@.len() as int) == buf@.skip(start as int));
        self.buffer = rest;
        proof {
            let s = buf@.skip(start as int);
            assert(!(exists|i: int| is_first_newline(s, i)));
            assert(drain(self.pending@, s) == (self.pending@, s, Seq::<Seq<u8>>::empty()));
            assert(views(payloads@) + Seq::<Seq<u8>>::empty() == views(payloads@));
        }
        Ok(payloads)
    }

    /// Flushes a final under-terminated payload, if any.
    pub fn finish(&mut self) -> (r: Option<Vec<u8>>)
        ensures
            old(self).pending_spec().len() == 0 ==> (r is None && final(self).pending_spec()
                == old(self).pending_spec()),
            old(self).pending_spec().len() > 0 ==> (r matches Some(p) && p@
                == old(self).pending_spec().drop_last() && final(self).pending_spec().len() == 0),
            final(self).buffer_spec() == old(self).buffer_spec(),
    {
        if self.pending.len() == 0 {
            return None;
        }
        self.pending.pop();
        let mut done: Vec<u8> = Vec::new();
        std::mem::swap(&mut done, &mut self.pending);
        Some(done)
    }
}

impl Default for SseParser {
    fn default() -> (r: Self)
        ensures
            r.buffer_spec() == Seq::<u8>::empty(),
            r.pending_spec() == Seq::<u8>::empty(),
    {
        SseParser::new()
    }
}

} // verus!

//! Reassembly of streamed chat responses.
//!
//! A streamed response arrives as fragments of bytes that do not respect
//! line boundaries. Each logical record is one line `data: <payload>`; the
//! payload `[DONE]` ends the stream. The decoder carries the unfinished last
//! line of a fragment over to the next one, so the records it hands out do not
//! depend on where the fragments were cut.
use vstd::prelude::*;
use crate::text::has_at;
use crate::text::push_char;
use crate::text::utf8_lossy;
use crate::text::utf8_text;
use vstd::utf8::*;

verus! {

/// The prefix of every record line.
pub open spec fn data_prefix() -> Seq<char> {
    seq!['d', 'a', 't', 'a', ':', ' ']
}

/// The payload that marks the end of the stream.
pub open spec fn done_marker() -> Seq<char> {
    seq!['[', 'D', 'O', 'N', 'E', ']']
}

/// What one complete line (without its terminator) means.
pub enum LineMeaning {
    /// Empty, a comment or a keep-alive: no record.
    Skip,
    /// A record with this payload.
    Record(Seq<char>),
    /// The end-of-stream marker.
    End,
}

pub open spec fn line_meaning(line: Seq<char>) -> LineMeaning {
    if line.len() >= 6 && line.subrange(0, 6) == data_prefix() {
        let payload = line.subrange(6, line.len() as int);
        if payload == done_marker() {
            LineMeaning::End
        } else {
            LineMeaning::Record(payload)
        }
    } else {
        LineMeaning::Skip
    }
}

/// The decoder's state: the unfinished line, and whether the end marker has
/// been seen.
pub struct DecodeState {
    pub pending: Seq<char>,
    pub done: bool,
}

pub open spec fn initial_state() -> DecodeState {
    DecodeState { pending: Seq::empty(), done: false }
}

/// Ends the pending line: the state after it and the records it gives.
pub open spec fn end_line(s: DecodeState) -> (DecodeState, Seq<Seq<char>>) {
    match line_meaning(s.pending) {
        LineMeaning::Skip => (DecodeState { pending: Seq::empty(), done: false }, Seq::empty()),
        LineMeaning::Record(p) => (DecodeState { pending: Seq::empty(), done: false }, seq![p]),
        LineMeaning::End => (DecodeState { pending: Seq::empty(), done: true }, Seq::empty()),
    }
}

/// One character of input.
pub open spec fn step(s: DecodeState, c: char) -> (DecodeState, Seq<Seq<char>>) {
    if s.done {
        (s, Seq::empty())
    } else if c == '\n' {
        end_line(s)
    } else {
        (DecodeState { pending: s.pending.push(c), done: false }, Seq::empty())
    }
}

/// A piece of text: the state after it and the records it completes, in order.
pub open spec fn feed(s: DecodeState, t: Seq<char>) -> (DecodeState, Seq<Seq<char>>)
    decreases t.len(),
{
    if t.len() == 0 {
        (s, Seq::empty())
    } else {
        let before = feed(s, t.drop_last());
        let last = step(before.0, t.last());
        (last.0, before.1 + last.1)
    }
}

/// The records that the end of the stream completes: the pending line is
/// treated as if it were terminated.
pub open spec fn flush(s: DecodeState) -> Seq<Seq<char>> {
    if s.done || s.pending.len() == 0 {
        Seq::empty()
    } else {
        end_line(s).1
    }
}

/// Text fragments one after another: the state after them and the records.
pub open spec fn feed_all(s: DecodeState, fragments: Seq<Seq<char>>) -> (DecodeState, Seq<Seq<char>>)
    decreases fragments.len(),
{
    if fragments.len() == 0 {
        (s, Seq::empty())
    } else {
        let first = feed(s, fragments[0]);
        let rest = feed_all(first.0, fragments.drop_first());
        (rest.0, first.1 + rest.1)
    }
}

/// All records of a whole stream given as text fragments.
pub open spec fn stream_records(fragments: Seq<Seq<char>>) -> Seq<Seq<char>> {
    let fed = feed_all(initial_state(), fragments);
    fed.1 + flush(fed.0)
}

pub open spec fn strings_view(v: Seq<String>) -> Seq<Seq<char>> {
    v.map_values(|s: String| s@)
}

/// Feeding `a` then `b` is feeding `a + b`.
pub proof fn lemma_feed_concat(s: DecodeState, a: Seq<char>, b: Seq<char>)
    ensures
        ({
            let fa = feed(s, a);
            let fb = feed(fa.0, b);
            feed(s, a + b) == (fb.0, fa.1 + fb.1)
        }),
    decreases b.len(),
{
    if b.len() == 0 {
        assert(a + b =~= a);
        assert(feed(s, a).1 + Seq::<Seq<char>>::empty() =~= feed(s, a).1);
    } else {
        lemma_feed_concat(s, a, b.drop_last());
        assert((a + b).drop_last() =~= a + b.drop_last());
        assert((a + b).last() == b.last());
        let fa = feed(s, a);
        let fb1 = feed(fa.0, b.drop_last());
        let st = step(fb1.0, b.last());
        assert(fa.1 + fb1.1 + st.1 =~= fa.1 + (fb1.1 + st.1));
    }
}

/// Where a stream is cut into fragments does not change its records: feeding
/// the fragments one at a time and then ending the stream gives exactly the
/// records, in order and with the same content, that the whole text fed at
/// once gives.
pub proof fn lemma_fragment_boundaries(fragments: Seq<Seq<char>>)
    ensures
        stream_records(fragments) == stream_records(seq![fragments.flatten()]),
{
    lemma_feed_all_flatten(initial_state(), fragments);
    let whole = fragments.flatten();
    let single = seq![whole];
    assert(single.drop_first() =~= Seq::<Seq<char>>::empty());
    assert(single.drop_first().flatten() == Seq::<char>::empty());
    assert(single.flatten() =~= whole);
    lemma_feed_all_flatten(initial_state(), single);
    assert(feed(initial_state(), whole).1 + Seq::<Seq<char>>::empty() =~= feed(initial_state(), whole).1);
}

proof fn lemma_feed_all_flatten(s: DecodeState, fragments: Seq<Seq<char>>)
    ensures
        feed_all(s, fragments) == feed(s, fragments.flatten()),
    decreases fragments.len(),
{
    if fragments.len() == 0 {
    } else {
        lemma_feed_all_flatten(feed(s, fragments[0]).0, fragments.drop_first());
        lemma_feed_concat(s, fragments[0], fragments.drop_first().flatten());
    }
}

/// Ending a stream with nothing pending gives no record.
pub proof fn lemma_flush_empty(s: DecodeState)
    requires
        s.pending.len() == 0,
    ensures
        flush(s) == Seq::<Seq<char>>::empty(),
{
}

/// One record line: the prefix, the payload and a line feed.
pub open spec fn record_line(payload: Seq<char>) -> Seq<char> {
    data_prefix() + payload + seq!['\n']
}

/// Record lines, one per payload, in order.
pub open spec fn record_lines(payloads: Seq<Seq<char>>) -> Seq<char>
    decreases payloads.len(),
{
    if payloads.len() == 0 {
        Seq::empty()
    } else {
        record_lines(payloads.drop_last()) + record_line(payloads.last())
    }
}

/// The line that ends a stream.
pub open spec fn done_line() -> Seq<char> {
    data_prefix() + done_marker() + seq!['\n']
}

/// A payload that fits on one record line and is not the end marker.
pub open spec fn plain_payload(payload: Seq<char>) -> bool {
    !payload.contains('\n') && payload != done_marker()
}

proof fn lemma_feed_no_newline(s: DecodeState, t: Seq<char>)
    requires
        !s.done,
        !t.contains('\n'),
    ensures
        feed(s, t) == (DecodeState { pending: s.pending + t, done: false }, Seq::<Seq<char>>::empty()),
    decreases t.len(),
{
    if t.len() == 0 {
        assert(s.pending + t =~= s.pending);
    } else {
        assert(!t.drop_last().contains('\n')) by {
            if t.drop_last().contains('\n') {
                let k = choose|k: int| 0 <= k < t.drop_last().len() && t.drop_last()[k] == '\n';
                assert(t[k] == '\n');
            }
        }
        lemma_feed_no_newline(s, t.drop_last());
        assert(t.last() != '\n') by {
            assert(t[t.len() - 1] == t.last());
        }
        assert((s.pending + t.drop_last()).push(t.last()) =~= s.pending + t);
        assert(Seq::<Seq<char>>::empty() + Seq::<Seq<char>>::empty() =~= Seq::<Seq<char>>::empty());
    }
}

proof fn lemma_feed_line(body: Seq<char>)
    requires
        !body.contains('\n'),
    ensures
        feed(initial_state(), body + seq!['\n']) == (
            DecodeState { pending: Seq::empty(), done: line_meaning(body) is End },
            match line_meaning(body) {
                LineMeaning::Record(p) => seq![p],
                _ => Seq::<Seq<char>>::empty(),
            },
        ),
{
    lemma_feed_no_newline(initial_state(), body);
    lemma_feed_concat(initial_state(), body, seq!['\n']);
    assert(Seq::<char>::empty() + body =~= body);
    assert(seq!['\n'].drop_last() =~= Seq::<char>::empty());
    let st = DecodeState { pending: body, done: false };
    assert(seq!['\n'].last() == '\n');
    assert(feed(st, Seq::<char>::empty()) == (st, Seq::<Seq<char>>::empty()));
    assert(feed(st, seq!['\n']).0 == step(st, '\n').0);
    assert(feed(st, seq!['\n']).1 =~= step(st, '\n').1);
    assert(Seq::<Seq<char>>::empty() + end_line(st).1 =~= end_line(st).1);
}

proof fn lemma_prefix_free(payload: Seq<char>)
    requires
        !payload.contains('\n'),
    ensures
        !(data_prefix() + payload).contains('\n'),
        (data_prefix() + payload).subrange(0, 6) == data_prefix(),
        (data_prefix() + payload).subrange(6, (data_prefix() + payload).len() as int) == payload,
{
    let b = data_prefix() + payload;
    assert(b.subrange(0, 6) =~= data_prefix());
    assert(b.subrange(6, b.len() as int) =~= payload);
    if b.contains('\n') {
        let k = choose|k: int| 0 <= k < b.len() && b[k] == '\n';
        if k >= 6 {
            assert(payload[k - 6] == '\n');
        }
    }
}

proof fn lemma_record_lines(payloads: Seq<Seq<char>>)
    requires
        forall|i: int| 0 <= i < payloads.len() ==> plain_payload(#[trigger] payloads[i]),
    ensures
        feed(initial_state(), record_lines(payloads)) == (initial_state(), payloads),
    decreases payloads.len(),
{
    if payloads.len() == 0 {
        assert(payloads =~= Seq::<Seq<char>>::empty());
    } else {
        let init = payloads.drop_last();
        let p = payloads.last();
        assert(plain_payload(payloads[payloads.len() - 1]));
        lemma_record_lines(init);
        lemma_prefix_free(p);
        lemma_feed_line(data_prefix() + p);
        assert(record_line(p) =~= (data_prefix() + p) + seq!['\n']);
        lemma_feed_concat(initial_state(), record_lines(init), record_line(p));
        assert(init.push(p) =~= payloads);
    }
}

/// A stream of record lines, one for each payload, ended by the end marker,
/// gives exactly those payloads, in order, however it is cut into
/// fragments.
pub proof fn lemma_whole_stream_records(payloads: Seq<Seq<char>>, fragments: Seq<Seq<char>>)
    requires
        forall|i: int| 0 <= i < payloads.len() ==> plain_payload(#[trigger] payloads[i]),
        fragments.flatten() == record_lines(payloads) + done_line(),
    ensures
        stream_records(fragments) == payloads,
{
    lemma_fragment_boundaries(fragments);
    let whole = fragments.flatten();
    lemma_record_lines(payloads);
    let d = data_prefix() + done_marker();
    assert(done_marker().len() == 6);
    assert(!done_marker().contains('\n')) by {
        if done_marker().contains('\n') {
            let k = choose|k: int| 0 <= k < 6 && done_marker()[k] == '\n';
        }
    }
    lemma_prefix_free(done_marker());
    lemma_feed_line(d);
    assert(done_line() =~= d + seq!['\n']);
    lemma_feed_concat(initial_state(), record_lines(payloads), done_line());
    assert(line_meaning(d) is End);
    let fed = feed(initial_state(), whole);
    assert(fed.0 == DecodeState { pending: Seq::<char>::empty(), done: true });
    assert(fed.1 =~= payloads);
    let single = seq![whole];
    assert(single.drop_first() =~= Seq::<Seq<char>>::empty());
    assert(feed_all(fed.0, single.drop_first()) == (fed.0, Seq::<Seq<char>>::empty()));
    assert(feed_all(initial_state(), single).1 =~= payloads);
    assert(flush(fed.0) == Seq::<Seq<char>>::empty());
    assert(payloads + Seq::<Seq<char>>::empty() =~= payloads);
}

proof fn lemma_decode_concat(a: Seq<u8>, b: Seq<u8>)
    requires
        valid_utf8(a),
        valid_utf8(b),
    ensures
        valid_utf8(a + b),
        decode_utf8(a + b) == decode_utf8(a) + decode_utf8(b),
    decreases a.len(),
{
    if a.len() == 0 {
        assert(a + b =~= b);
        assert(decode_utf8(a) =~= Seq::<char>::empty());
        assert(Seq::<char>::empty() + decode_utf8(b) =~= decode_utf8(b));
    } else {
        let ab = a + b;
        assert(forall|i: int| 0 <= i < a.len() ==> ab[i] == a[i]);
        assert(valid_first_scalar(a));
        assert(valid_first_scalar(ab));
        assert(decode_first_scalar(ab) == decode_first_scalar(a));
        assert(length_of_first_scalar(ab) == length_of_first_scalar(a));
        assert(pop_first_scalar(ab) =~= pop_first_scalar(a) + b);
        lemma_decode_concat(pop_first_scalar(a), b);
        assert(seq![decode_first_scalar(a) as char] + (decode_utf8(pop_first_scalar(a)) + decode_utf8(b))
            =~= seq![decode_first_scalar(a) as char] + decode_utf8(pop_first_scalar(a)) + decode_utf8(b));
    }
}

proof fn lemma_decode_flatten(fragments: Seq<Seq<u8>>)
    requires
        forall|i: int| 0 <= i < fragments.len() ==> valid_utf8(#[trigger] fragments[i]),
    ensures
        valid_utf8(fragments.flatten()),
        decode_utf8(fragments.flatten()) == fragments.map_values(|f: Seq<u8>| utf8_text(f)).flatten(),
    decreases fragments.len(),
{
    let texts = fragments.map_values(|f: Seq<u8>| utf8_text(f));
    if fragments.len() == 0 {
        assert(texts.flatten() =~= Seq::<char>::empty());
    } else {
        let rest = fragments.drop_first();
        assert(forall|i: int| 0 <= i < rest.len() ==> rest[i] == fragments[i + 1]);
        lemma_decode_flatten(rest);
        assert(texts.drop_first() =~= rest.map_values(|f: Seq<u8>| utf8_text(f)));
        lemma_decode_concat(fragments[0], rest.flatten());
    }
}

/// The same law for fragments of bytes, where each fragment holds whole
/// characters: feeding them one at a time gives the records of the whole
/// payload fed at once. (A fragment that ends inside a character is decoded
/// with replacement characters on its own, so its text differs.)
pub proof fn lemma_byte_fragment_boundaries(fragments: Seq<Seq<u8>>)
    requires
        forall|i: int| 0 <= i < fragments.len() ==> valid_utf8(#[trigger] fragments[i]),
    ensures
        stream_records(fragments.map_values(|f: Seq<u8>| utf8_text(f)))
            == stream_records(seq![utf8_text(fragments.flatten())]),
{
    lemma_decode_flatten(fragments);
    lemma_fragment_boundaries(fragments.map_values(|f: Seq<u8>| utf8_text(f)));
}

/// The incremental decoder of a streamed response.
pub struct StreamDecoder {
    pending: String,
    done: bool,
}

impl View for StreamDecoder {
    type V = DecodeState;

    closed spec fn view(&self) -> DecodeState {
        DecodeState { pending: self.pending@, done: self.done }
    }
}

enum LineKind {
    Skip,
    Record(String),
    End,
}

impl LineKind {
    spec fn meaning(&self) -> LineMeaning {
        match self {
            LineKind::Skip => LineMeaning::Skip,
            LineKind::Record(p) => LineMeaning::Record(p@),
            LineKind::End => LineMeaning::End,
        }
    }
}

fn classify(line: &str) -> (r: LineKind)
    ensures
        r.meaning() == line_meaning(line@),
{
    proof {
        reveal_strlit("data: ");
        reveal_strlit("[DONE]");
    }
    let n = line.unicode_len();
    if n < 6 || !has_at(line, 0, "data: ") {
        proof {
            if n >= 6 {
                assert("data: "@ =~= data_prefix());
            }
        }
        return LineKind::Skip;
    }
    assert("data: "@ =~= data_prefix());
    let payload = line.substring_char(6, n);
    assert("[DONE]"@ =~= done_marker());
    assert(done_marker().len() == 6);
    if n == 12 && has_at(line, 6, "[DONE]") {
        assert("[DONE]"@ =~= done_marker());
        assert(payload@ =~= done_marker());
        LineKind::End
    } else {
        proof {
            if payload@ == done_marker() {
                assert(payload@.len() == n - 6);
                assert(line@.subrange(6, 12) =~= "[DONE]"@);
            }
        }
        LineKind::Record(payload.to_string())
    }
}

impl StreamDecoder {
    /// A decoder at the start of a stream.
    pub fn new() -> (r: Self)
        ensures
            r@ == initial_state(),
    {
        StreamDecoder { pending: String::new(), done: false }
    }

    /// Whether the end-of-stream marker has been seen.
    pub fn is_done(&self) -> (r: bool)
        ensures
            r == self@.done,
    {
        self.done
    }

    /// The unfinished line carried over to the next fragment.
    pub fn pending(&self) -> (r: &str)
        ensures
            r@ == self@.pending,
    {
        self.pending.as_str()
    }

    fn end_pending_line(&mut self, records: &mut Vec<String>)
        requires
            !old(self)@.done,
        ensures
            final(self)@ == end_line(old(self)@).0,
            strings_view(final(records)@) == strings_view(old(records)@) + end_line(old(self)@).1,
    {
        let kind = classify(self.pending.as_str());
        self.pending = String::new();
        match kind {
            LineKind::Skip => {
                assert(strings_view(records@) + Seq::empty() =~= strings_view(records@));
            },
            LineKind::Record(p) => {
                let ghost before = records@;
                records.push(p);
                assert(strings_view(records@) =~= strings_view(before) + seq![p@]);
            },
            LineKind::End => {
                self.done = true;
                assert(strings_view(records@) + Seq::empty() =~= strings_view(records@));
            },
        }
    }

    /// Feeds a piece of text: returns the records of the lines it completes,
    /// in order, and keeps its unfinished last line for the next call.
    pub fn feed_text(&mut self, text: &str) -> (records: Vec<String>)
        ensures
            (final(self)@, strings_view(records@)) == feed(old(self)@, text@),
    {
        let mut records: Vec<String> = Vec::new();
        let ghost start = self@;
        for c in it: text.chars()
            invariant
                it.seq() == text@,
                (self@, strings_view(records@)) == feed(start, it.seq().subrange(0, it.index() as int)),
        {
            let ghost done_part = it.seq().subrange(0, it.index() as int);
            let ghost next_part = it.seq().subrange(0, it.index() + 1);
            assert(next_part.drop_last() =~= done_part);
            let ghost before = strings_view(records@);
            if self.done {
            } else if c == '\n' {
                self.end_pending_line(&mut records);
            } else {
                push_char(&mut self.pending, c);
            }
            assert(strings_view(records@) =~= before + step(feed(start, done_part).0, c).1);
        }
        assert(text@.subrange(0, text@.len() as int) =~= text@);
        records
    }

    /// Feeds a fragment of bytes as it arrived, decoded as UTF-8 with
    /// invalid sequences replaced.
    pub fn on_bytes(&mut self, chunk: &[u8]) -> (records: Vec<String>)
        ensures
            (final(self)@, strings_view(records@)) == feed(old(self)@, utf8_text(chunk@)),
    {
        let text = utf8_lossy(chunk);
        self.feed_text(text.as_str())
    }

    /// Ends the stream: a pending line is processed as if it were terminated.
    pub fn on_end(&mut self) -> (records: Vec<String>)
        ensures
            strings_view(records@) == flush(old(self)@),
            final(self)@.pending.len() == 0,
    {
        let mut records: Vec<String> = Vec::new();
        if !self.done && self.pending.unicode_len() > 0 {
            self.end_pending_line(&mut records);
            assert(Seq::<Seq<char>>::empty() + end_line(old(self)@).1 =~= end_line(old(self)@).1);
        } else {
            self.pending = String::new();
        }
        records
    }
}

} // verus!

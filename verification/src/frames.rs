//! Event-stream framing: a byte buffer that accumulates network chunks and
//! yields complete frames delimited by a blank line, classification of the
//! frames, and the parser for an event-stream formatted response body.

use vstd::prelude::*;

verus! {

/// Line feed, the only byte the framing rules care about.
pub open spec fn nl() -> u8 {
    10u8
}

/// Index of the first blank-line delimiter (`\n\n`) at or after `i`,
/// or -1 when there is none.
pub open spec fn first_delim_from(s: Seq<u8>, i: int) -> int
    recommends
        0 <= i,
    decreases s.len() - i when 0 <= i <= s.len()
{
    if i + 2 > s.len() {
        -1
    } else if s[i] == nl() && s[i + 1] == nl() {
        i
    } else {
        first_delim_from(s, i + 1)
    }
}

/// What `first_delim_from` returns: either -1, or a position of a
/// delimiter no earlier than `i`, with none before it.
pub proof fn lemma_first_delim_props(s: Seq<u8>, i: int)
    requires
        0 <= i <= s.len(),
    ensures
        ({
            let d = first_delim_from(s, i);
            d == -1 || (i <= d && d + 2 <= s.len() && s[d] == nl() && s[d + 1] == nl())
        }),
    decreases s.len() - i,
{
    if i + 2 > s.len() {
    } else if s[i] == nl() && s[i + 1] == nl() {
    } else {
        lemma_first_delim_props(s, i + 1);
    }
}

/// A delimiter found in a prefix is the first delimiter of any extension.
pub proof fn lemma_first_delim_prefix(a: Seq<u8>, b: Seq<u8>, i: int)
    requires
        0 <= i <= a.len(),
        first_delim_from(a, i) >= 0,
    ensures
        first_delim_from(a + b, i) == first_delim_from(a, i),
    decreases a.len() - i,
{
    lemma_first_delim_props(a, i);
    let ab = a + b;
    if i + 2 > a.len() {
        // first_delim_from(a, i) would be -1, contradicting the requires
        assert(false);
    } else if a[i] == nl() && a[i + 1] == nl() {
        assert(ab[i] == nl() && ab[i + 1] == nl());
    } else {
        assert(ab[i] == a[i] && ab[i + 1] == a[i + 1]);
        lemma_first_delim_prefix(a, b, i + 1);
    }
}

/// Splits a byte sequence into the complete frames before each blank-line
/// delimiter and the unterminated remainder after the last delimiter.
pub open spec fn spec_split_frames(s: Seq<u8>) -> (Seq<Seq<u8>>, Seq<u8>)
    decreases s.len(),
{
    let d = first_delim_from(s, 0);
    if d < 0 {
        (Seq::empty(), s)
    } else if d + 2 <= s.len() {
        let rest = spec_split_frames(s.skip(d + 2));
        (seq![s.subrange(0, d)] + rest.0, rest.1)
    } else {
        // unreachable: a found delimiter always fits, see lemma_first_delim_props
        (Seq::empty(), s)
    }
}

/// Feeding one byte sequence in two arbitrary chunks yields the same frames,
/// in the same order, and the same final remainder as feeding it whole: a
/// frame split across two chunks is reassembled.
pub proof fn lemma_frames_chunk_split(a: Seq<u8>, b: Seq<u8>)
    ensures
        ({
            let whole = spec_split_frames(a + b);
            let s1 = spec_split_frames(a);
            let s2 = spec_split_frames(s1.1 + b);
            whole.0 == s1.0 + s2.0 && whole.1 == s2.1
        }),
    decreases a.len(),
{
    let d = first_delim_from(a, 0);
    lemma_first_delim_props(a, 0);
    if d < 0 {
        assert(a + b =~= spec_split_frames(a).1 + b);
        assert(spec_split_frames(a + b).0 =~= spec_split_frames(a).0 + spec_split_frames(
            spec_split_frames(a).1 + b,
        ).0);
    } else {
        lemma_first_delim_prefix(a, b, 0);
        let ab = a + b;
        assert(first_delim_from(ab, 0) == d);
        let a2 = a.skip(d + 2);
        assert(ab.subrange(0, d) =~= a.subrange(0, d));
        assert(ab.skip(d + 2) =~= a2 + b);
        lemma_frames_chunk_split(a2, b);
        assert(spec_split_frames(a).1 == spec_split_frames(a2).1);
        assert(spec_split_frames(a + b).0 =~= spec_split_frames(a).0 + spec_split_frames(
            spec_split_frames(a).1 + b,
        ).0);
    }
}

/// Position of the first blank-line delimiter in `v`, scanning from the left.
fn find_delim(v: &Vec<u8>) -> (r: Option<usize>)
    ensures
        match r {
            Some(d) => d == first_delim_from(v@, 0),
            None => first_delim_from(v@, 0) == -1,
        },
{
    if v.len() < 2 {
        return None;
    }
    let mut i: usize = 0;
    while i <= v.len() - 2
        invariant
            v@.len() >= 2,
            i <= v.len(),
            first_delim_from(v@, 0) == first_delim_from(v@, i as int),
        decreases v.len() - i,
    {
        if v[i] == 10u8 && v[i + 1] == 10u8 {
            return Some(i);
        }
        i += 1;
    }
    None
}

/// The bytes of `"data: "`, the payload marker of a data frame.
pub open spec fn data_prefix() -> Seq<u8> {
    seq![100u8, 97u8, 116u8, 97u8, 58u8, 32u8]  // d a t a : space
}

/// The bytes of `"data:"`, the marker written without a space.
pub open spec fn data_prefix_bare() -> Seq<u8> {
    seq![100u8, 97u8, 116u8, 97u8, 58u8]
}

/// The bytes of `"event: session\ndata: "`, the marker of a
/// session-announcement frame.
pub open spec fn session_prefix() -> Seq<u8> {
    seq![
        101u8,
        118u8,
        101u8,
        110u8,
        116u8,
        58u8,
        32u8,
        115u8,
        101u8,
        115u8,
        115u8,
        105u8,
        111u8,
        110u8,
        10u8,
        100u8,
        97u8,
        116u8,
        97u8,
        58u8,
        32u8,
    ]
}

/// Whether `s` starts with the bytes of `p`.
pub open spec fn spec_starts_with_u8(s: Seq<u8>, p: Seq<u8>) -> bool {
    p.len() <= s.len() && s.subrange(0, p.len() as int) == p
}

/// Prefix test on bytes.
pub fn bytes_start_with(s: &[u8], p: &Vec<u8>) -> (r: bool)
    ensures
        r == spec_starts_with_u8(s@, p@),
{
    if p.len() > s.len() {
        return false;
    }
    let mut i: usize = 0;
    while i < p.len()
        invariant
            p@.len() <= s@.len(),
            i <= p@.len(),
            forall|j: int| 0 <= j < i ==> s@[j] == p@[j],
        decreases p@.len() - i,
    {
        if s[i] != p[i] {
            proof {
                assert(s@.subrange(0, p@.len() as int)[i as int] != p@[i as int]);
            }
            return false;
        }
        i += 1;
    }
    proof {
        assert(s@.subrange(0, p@.len() as int) =~= p@);
    }
    true
}

/// An ASCII whitespace byte: space, tab, line feed or carriage return.
pub open spec fn is_ws(b: u8) -> bool {
    b == 32u8 || b == 9u8 || b == 10u8 || b == 13u8
}

/// `s` without leading ASCII whitespace.
pub open spec fn spec_trim_front(s: Seq<u8>) -> Seq<u8>
    decreases s.len(),
{
    if s.len() > 0 && is_ws(s[0]) {
        spec_trim_front(s.skip(1))
    } else {
        s
    }
}

/// `s` without trailing ASCII whitespace.
pub open spec fn spec_trim_back(s: Seq<u8>) -> Seq<u8>
    decreases s.len(),
{
    if s.len() > 0 && is_ws(s.last()) {
        spec_trim_back(s.drop_last())
    } else {
        s
    }
}

/// `s` without leading and trailing ASCII whitespace.
pub open spec fn spec_trim(s: Seq<u8>) -> Seq<u8> {
    spec_trim_back(spec_trim_front(s))
}

/// Copies `v` without its leading and trailing ASCII whitespace.
pub fn trim_bytes(v: &[u8]) -> (r: Vec<u8>)
    ensures
        r@ == spec_trim(v@),
{
    let mut a: usize = 0;
    proof {
        assert(v@.skip(0) =~= v@);
    }
    while a < v.len() && (v[a] == 32u8 || v[a] == 9u8 || v[a] == 10u8 || v[a] == 13u8)
        invariant
            a <= v@.len(),
            spec_trim_front(v@) == spec_trim_front(v@.skip(a as int)),
        decreases v@.len() - a,
    {
        proof {
            assert(v@.skip(a as int).skip(1) =~= v@.skip(a + 1));
        }
        a += 1;
    }
    proof {
        assert(spec_trim_front(v@.skip(a as int)) =~= v@.skip(a as int));
    }
    let mut b: usize = v.len();
    while b > a && (v[b - 1] == 32u8 || v[b - 1] == 9u8 || v[b - 1] == 10u8 || v[b - 1]
        == 13u8)
        invariant
            a <= b <= v@.len(),
            spec_trim_front(v@) == v@.skip(a as int),
            spec_trim_back(v@.skip(a as int)) == spec_trim_back(v@.subrange(
                a as int,
                b as int,
            )),
        decreases b,
    {
        proof {
            assert(v@.subrange(a as int, b as int).drop_last() =~= v@.subrange(
                a as int,
                b - 1,
            ));
        }
        b -= 1;
    }
    proof {
        assert(spec_trim_back(v@.subrange(a as int, b as int)) =~= v@.subrange(
            a as int,
            b as int,
        ));
    }
    let mut out: Vec<u8> = Vec::new();
    let mut i: usize = a;
    while i < b
        invariant
            a <= i <= b <= v@.len(),
            out@ =~= v@.subrange(a as int, i as int),
        decreases b - i,
    {
        out.push(v[i]);
        i += 1;
    }
    proof {
        assert(out@ =~= spec_trim(v@));
    }
    out
}

/// The empty frame — two delimiters in a row — carries no marker, so the
/// transport ignores it: it is neither a data frame nor a session
/// announcement.
pub proof fn lemma_empty_frame_ignored()
    ensures
        !spec_starts_with_u8(Seq::<u8>::empty(), data_prefix()),
        !spec_starts_with_u8(Seq::<u8>::empty(), session_prefix()),
{
}

/// What one complete frame means to the transport.
pub enum FrameEvent {
    /// A data frame: the bytes after `"data: "`, to be decoded as a response.
    Data(Vec<u8>),
    /// A session announcement: the trimmed session identifier.
    Session(Vec<u8>),
    /// Anything else, the empty frame included, is ignored.
    Ignored,
}

/// Interprets one complete frame: a `"data: "` frame carries a response
/// payload, an `"event: session"` frame announces a session identifier, and
/// every other frame — the empty frame included — is ignored.
pub fn classify_frame(frame: &[u8]) -> (e: FrameEvent)
    ensures
        match e {
            FrameEvent::Data(p) => spec_starts_with_u8(frame@, data_prefix()) && p@
                == frame@.skip(6),
            FrameEvent::Session(sid) => !spec_starts_with_u8(frame@, data_prefix())
                && spec_starts_with_u8(frame@, session_prefix()) && sid@ == spec_trim(
                frame@.skip(21),
            ),
            FrameEvent::Ignored => !spec_starts_with_u8(frame@, data_prefix())
                && !spec_starts_with_u8(frame@, session_prefix()),
        },
{
    let dp: Vec<u8> = vec![100u8, 97u8, 116u8, 97u8, 58u8, 32u8];
    proof {
        assert(dp@ =~= data_prefix());
    }
    if bytes_start_with(frame, &dp) {
        let mut p: Vec<u8> = Vec::new();
        let mut i: usize = 6;
        while i < frame.len()
            invariant
                6 <= i <= frame@.len() || (frame@.len() < 6 && i == 6),
                6 <= frame@.len(),
                p@ =~= frame@.subrange(6, i as int),
            decreases frame@.len() - i,
        {
            p.push(frame[i]);
            i += 1;
        }
        proof {
            assert(p@ =~= frame@.skip(6));
        }
        return FrameEvent::Data(p);
    }
    let sp: Vec<u8> = vec![
        101u8,
        118u8,
        101u8,
        110u8,
        116u8,
        58u8,
        32u8,
        115u8,
        101u8,
        115u8,
        115u8,
        105u8,
        111u8,
        110u8,
        10u8,
        100u8,
        97u8,
        116u8,
        97u8,
        58u8,
        32u8,
    ];
    proof {
        assert(sp@ =~= session_prefix());
    }
    if bytes_start_with(frame, &sp) {
        let mut rest: Vec<u8> = Vec::new();
        let mut i: usize = 21;
        while i < frame.len()
            invariant
                21 <= i <= frame@.len() || (frame@.len() < 21 && i == 21),
                21 <= frame@.len(),
                rest@ =~= frame@.subrange(21, i as int),
            decreases frame@.len() - i,
        {
            rest.push(frame[i]);
            i += 1;
        }
        proof {
            assert(rest@ =~= frame@.skip(21));
        }
        return FrameEvent::Session(trim_bytes(rest.as_slice()));
    }
    FrameEvent::Ignored
}

/// Accumulates incoming bytes and hands out each complete blank-line
/// delimited frame as soon as its delimiter has arrived.
pub struct FrameBuffer {
    buf: Vec<u8>,
}

impl FrameBuffer {
    /// The bytes received so far that belong to no complete frame yet.
    pub closed spec fn buffered(&self) -> Seq<u8> {
        self.buf@
    }

    /// An empty buffer.
    pub fn new() -> (r: FrameBuffer)
        ensures
            r.buffered() == Seq::<u8>::empty(),
    {
        FrameBuffer { buf: Vec::new() }
    }

    /// Appends one chunk, of any size, and returns every frame completed by
    /// it; what follows the last delimiter stays buffered.
    pub fn feed(&mut self, chunk: &[u8]) -> (frames: Vec<Vec<u8>>)
        ensures
            frames.deep_view() == spec_split_frames(old(self).buffered() + chunk@).0,
            final(self).buffered() == spec_split_frames(old(self).buffered() + chunk@).1,
    {
        let ghost whole = old(self).buffered() + chunk@;
        self.buf.extend_from_slice(chunk);
        let mut frames: Vec<Vec<u8>> = Vec::new();
        proof {
            assert(self.buf@ =~= whole);
            assert(frames.deep_view() + spec_split_frames(whole).0 =~= spec_split_frames(
                whole,
            ).0);
        }
        loop
            invariant
                whole == old(self).buffered() + chunk@,
                spec_split_frames(whole).0 == frames.deep_view() + spec_split_frames(
                    self.buf@,
                ).0,
                spec_split_frames(whole).1 == spec_split_frames(self.buf@).1,
            decreases self.buf@.len(),
        {
            let d = match find_delim(&self.buf) {
                None => {
                    proof {
                        assert(spec_split_frames(self.buf@).0 =~= Seq::<Seq<u8>>::empty());
                        assert(frames.deep_view() + spec_split_frames(self.buf@).0
                            =~~= frames.deep_view());
                    }
                    return frames;
                },
                Some(d) => d,
            };
            let ghost cur = self.buf@;
            proof {
                lemma_first_delim_props(cur, 0);
                assert(d + 2 <= cur.len());
            }
            let mut frame = self.buf.clone();
            frame.truncate(d);
            let tail = self.buf.split_off(d + 2);
            self.buf = tail;
            proof {
                assert(frame@ =~= cur.subrange(0, d as int));
                assert(self.buf@ =~= cur.skip(d + 2));
                assert(spec_split_frames(cur).0 =~= seq![frame@] + spec_split_frames(
                    self.buf@,
                ).0);
            }
            let ghost old_dv = frames.deep_view();
            frames.push(frame);
            proof {
                assert(frames.deep_view() =~~= old_dv.push(frame@));
                assert(old_dv.push(frame@) =~= old_dv + seq![frame@]);
                assert((old_dv + seq![frame@]) + spec_split_frames(self.buf@).0 =~= old_dv
                    + (seq![frame@] + spec_split_frames(self.buf@).0));
                assert(spec_split_frames(whole).0 == frames.deep_view()
                    + spec_split_frames(self.buf@).0);
            }
        }
    }
}

/// Splits a byte sequence on every blank-line delimiter; unlike
/// [`spec_split_frames`] the piece after the last delimiter is kept, so a
/// body with no delimiter is one single event.
pub open spec fn spec_split_events(s: Seq<u8>) -> Seq<Seq<u8>>
    decreases s.len(),
{
    let d = first_delim_from(s, 0);
    if d < 0 {
        seq![s]
    } else if d + 2 <= s.len() {
        seq![s.subrange(0, d)] + spec_split_events(s.skip(d + 2))
    } else {
        // unreachable: a found delimiter always fits, see lemma_first_delim_props
        seq![s]
    }
}

/// `line` without one trailing carriage return, as `str::lines` yields it.
pub open spec fn spec_strip_cr(line: Seq<u8>) -> Seq<u8> {
    if line.len() > 0 && line.last() == 13u8 {
        line.drop_last()
    } else {
        line
    }
}

/// Index of the first line feed at or after `i`, or -1 when there is none.
pub open spec fn first_nl_from(s: Seq<u8>, i: int) -> int
    recommends
        0 <= i,
    decreases s.len() - i when 0 <= i <= s.len()
{
    if i >= s.len() {
        -1
    } else if s[i] == nl() {
        i
    } else {
        first_nl_from(s, i + 1)
    }
}

proof fn lemma_first_nl_props(s: Seq<u8>, i: int)
    requires
        0 <= i <= s.len(),
    ensures
        ({
            let d = first_nl_from(s, i);
            d == -1 || (i <= d && d < s.len() && s[d] == nl())
        }),
    decreases s.len() - i,
{
    if i >= s.len() {
    } else if s[i] == nl() {
    } else {
        lemma_first_nl_props(s, i + 1);
    }
}

/// The lines of `s`, split on line feeds, each without a trailing carriage
/// return, and with no final empty line — the way `str::lines` reads text.
pub open spec fn spec_lines(s: Seq<u8>) -> Seq<Seq<u8>>
    decreases s.len(),
{
    if s.len() == 0 {
        Seq::empty()
    } else {
        let d = first_nl_from(s, 0);
        if d < 0 {
            seq![spec_strip_cr(s)]
        } else if d < s.len() {
            seq![spec_strip_cr(s.subrange(0, d))] + spec_lines(s.skip(d + 1))
        } else {
            // unreachable: a found line feed lies inside the sequence
            seq![spec_strip_cr(s)]
        }
    }
}

/// The payload a single line contributes: the bytes after `"data: "`, or
/// after a bare `"data:"`, or nothing for any other line.
pub open spec fn spec_line_data(line: Seq<u8>) -> Seq<Seq<u8>> {
    if spec_starts_with_u8(line, data_prefix()) {
        seq![line.skip(6)]
    } else if spec_starts_with_u8(line, data_prefix_bare()) {
        seq![line.skip(5)]
    } else {
        Seq::empty()
    }
}

/// The data payloads of a list of lines, in order.
pub open spec fn spec_data_lines(lines: Seq<Seq<u8>>) -> Seq<Seq<u8>>
    decreases lines.len(),
{
    if lines.len() == 0 {
        Seq::empty()
    } else {
        spec_data_lines(lines.drop_last()) + spec_line_data(lines.last())
    }
}

/// The pieces joined with a line feed between each pair.
pub open spec fn spec_join_nl(pieces: Seq<Seq<u8>>) -> Seq<u8>
    decreases pieces.len(),
{
    if pieces.len() == 0 {
        Seq::empty()
    } else if pieces.len() == 1 {
        pieces[0]
    } else {
        spec_join_nl(pieces.drop_last()) + seq![nl()] + pieces.last()
    }
}

/// The data payload of one event: its data lines joined with line feeds,
/// or nothing when the event has no data line at all.
pub open spec fn spec_event_payload(event: Seq<u8>) -> Option<Seq<u8>> {
    let dl = spec_data_lines(spec_lines(event));
    if dl.len() == 0 {
        Option::None
    } else {
        Option::Some(spec_join_nl(dl))
    }
}

/// The payloads of the events that have one, in order.
pub open spec fn spec_event_payloads(events: Seq<Seq<u8>>) -> Seq<Seq<u8>>
    decreases events.len(),
{
    if events.len() == 0 {
        Seq::empty()
    } else {
        spec_event_payloads(events.drop_last()) + (match spec_event_payload(events.last()) {
            Option::Some(p) => seq![p],
            Option::None => Seq::<Seq<u8>>::empty(),
        })
    }
}

/// The candidate response payloads of an event-stream formatted body, in
/// order: the body splits into events on blank lines, each event contributes
/// its `data:` lines joined together, and events without data contribute
/// nothing.
pub open spec fn spec_body_payloads(body: Seq<u8>) -> Seq<Seq<u8>> {
    spec_event_payloads(spec_split_events(body))
}

/// Copies the bytes of `v[from..to]` into a fresh vector.
pub fn copy_range(v: &[u8], from: usize, to: usize) -> (r: Vec<u8>)
    requires
        from <= to <= v@.len(),
    ensures
        r@ == v@.subrange(from as int, to as int),
{
    let mut out: Vec<u8> = Vec::new();
    let mut i: usize = from;
    while i < to
        invariant
            from <= i <= to <= v@.len(),
            out@ =~= v@.subrange(from as int, i as int),
        decreases to - i,
    {
        out.push(v[i]);
        i += 1;
    }
    proof {
        assert(out@ =~= v@.subrange(from as int, to as int));
    }
    out
}

/// Splits a body into its blank-line delimited events, the piece after the
/// last delimiter included.
fn split_events(body: &[u8]) -> (events: Vec<Vec<u8>>)
    ensures
        events.deep_view() == spec_split_events(body@),
{
    let mut rest: Vec<u8> = copy_range(body, 0, body.len());
    proof {
        assert(rest@ =~= body@);
    }
    let mut events: Vec<Vec<u8>> = Vec::new();
    proof {
        assert(events.deep_view() + spec_split_events(body@) =~= spec_split_events(body@));
    }
    loop
        invariant
            spec_split_events(body@) == events.deep_view() + spec_split_events(rest@),
        decreases rest@.len(),
    {
        let d = match find_delim(&rest) {
            None => {
                let ghost old_dv = events.deep_view();
                events.push(rest);
                proof {
                    assert(events.deep_view() =~~= old_dv.push(spec_split_events(
                        body@,
                    ).last()));
                    assert(events.deep_view() =~= spec_split_events(body@));
                }
                return events;
            },
            Some(d) => d,
        };
        let ghost cur = rest@;
        proof {
            lemma_first_delim_props(cur, 0);
        }
        let mut piece = rest.clone();
        piece.truncate(d);
        let tail = rest.split_off(d + 2);
        rest = tail;
        proof {
            assert(piece@ =~= cur.subrange(0, d as int));
            assert(rest@ =~= cur.skip(d + 2));
            assert(spec_split_events(cur) =~= seq![piece@] + spec_split_events(rest@));
        }
        let ghost old_dv = events.deep_view();
        events.push(piece);
        proof {
            assert(events.deep_view() =~~= old_dv.push(piece@));
            assert((old_dv + seq![piece@]) + spec_split_events(rest@) =~= old_dv + (seq![
                piece@,
            ] + spec_split_events(rest@)));
            assert(spec_split_events(body@) == events.deep_view() + spec_split_events(
                rest@,
            ));
        }
    }
}

/// Position of the first line feed in `v`, scanning from the left.
fn find_nl(v: &Vec<u8>) -> (r: Option<usize>)
    ensures
        match r {
            Some(d) => d == first_nl_from(v@, 0),
            None => first_nl_from(v@, 0) == -1,
        },
{
    let mut i: usize = 0;
    while i < v.len()
        invariant
            i <= v.len(),
            first_nl_from(v@, 0) == first_nl_from(v@, i as int),
        decreases v.len() - i,
    {
        if v[i] == 10u8 {
            return Some(i);
        }
        i += 1;
    }
    None
}

/// Splits one event into lines, the way `str::lines` does.
fn split_lines(event: &[u8]) -> (lines: Vec<Vec<u8>>)
    ensures
        lines.deep_view() == spec_lines(event@),
{
    let mut rest: Vec<u8> = copy_range(event, 0, event.len());
    proof {
        assert(rest@ =~= event@);
    }
    let mut lines: Vec<Vec<u8>> = Vec::new();
    proof {
        assert(lines.deep_view() + spec_lines(event@) =~= spec_lines(event@));
    }
    loop
        invariant
            spec_lines(event@) == lines.deep_view() + spec_lines(rest@),
        decreases rest@.len(),
    {
        if rest.len() == 0 {
            proof {
                assert(lines.deep_view() + spec_lines(rest@) =~~= lines.deep_view());
            }
            return lines;
        }
        let ghost cur = rest@;
        match find_nl(&rest) {
            None => {
                let mut line = rest;
                if line.len() > 0 && line[line.len() - 1] == 13u8 {
                    line.pop();
                }
                proof {
                    assert(line@ =~= spec_strip_cr(cur));
                    assert(spec_lines(cur) =~= seq![spec_strip_cr(cur)]);
                }
                let ghost old_dv = lines.deep_view();
                lines.push(line);
                proof {
                    assert(lines.deep_view() =~~= old_dv.push(spec_strip_cr(cur)));
                    assert(old_dv + spec_lines(cur) =~= lines.deep_view());
                }
                return lines;
            },
            Some(d) => {
                proof {
                    lemma_first_nl_props(cur, 0);
                }
                let mut line = rest.clone();
                line.truncate(d);
                if line.len() > 0 && line[line.len() - 1] == 13u8 {
                    line.pop();
                }
                proof {
                    assert(line@ =~= spec_strip_cr(cur.subrange(0, d as int)));
                }
                let tail = rest.split_off(d + 1);
                rest = tail;
                proof {
                    assert(rest@ =~= cur.skip(d + 1));
                    assert(spec_lines(cur) =~= seq![spec_strip_cr(cur.subrange(0, d as int))]
                        + spec_lines(rest@));
                }
                let ghost old_dv = lines.deep_view();
                lines.push(line);
                proof {
                    assert(lines.deep_view() =~~= old_dv.push(line@));
                    assert((old_dv + seq![line@]) + spec_lines(rest@) =~= old_dv + (seq![
                        line@,
                    ] + spec_lines(rest@)));
                    assert(spec_lines(event@) == lines.deep_view() + spec_lines(rest@));
                }
            },
        }
    }
}

/// The data payload of one event, per [`spec_event_payload`].
fn event_payload(event: &[u8]) -> (r: Option<Vec<u8>>)
    ensures
        match r {
            Some(p) => spec_event_payload(event@) == Option::Some(p@),
            None => spec_event_payload(event@) is None,
        },
{
    let lines = split_lines(event);
    let ghost ls = lines.deep_view();
    let dp: Vec<u8> = vec![100u8, 97u8, 116u8, 97u8, 58u8, 32u8];
    let dpb: Vec<u8> = vec![100u8, 97u8, 116u8, 97u8, 58u8];
    proof {
        assert(dp@ =~= data_prefix());
        assert(dpb@ =~= data_prefix_bare());
    }
    let mut data: Vec<Vec<u8>> = Vec::new();
    let mut k: usize = 0;
    proof {
        assert(ls.subrange(0, 0) =~= Seq::<Seq<u8>>::empty());
        assert(data.deep_view() =~~= spec_data_lines(ls.subrange(0, 0)));
    }
    while k < lines.len()
        invariant
            ls == lines.deep_view(),
            k <= lines@.len(),
            lines@.len() == ls.len(),
            dp@ == data_prefix(),
            dpb@ == data_prefix_bare(),
            data.deep_view() == spec_data_lines(ls.subrange(0, k as int)),
        decreases lines@.len() - k,
    {
        let line = &lines[k];
        proof {
            assert(line@ == ls[k as int]);
            assert(ls.subrange(0, k + 1).drop_last() =~= ls.subrange(0, k as int));
            assert(ls.subrange(0, k + 1).last() == ls[k as int]);
        }
        let ghost old_dv = data.deep_view();
        if bytes_start_with(line.as_slice(), &dp) {
            let piece = copy_range(line.as_slice(), 6, line.len());
            proof {
                assert(piece@ =~= ls[k as int].skip(6));
            }
            data.push(piece);
            proof {
                assert(data.deep_view() =~~= old_dv.push(ls[k as int].skip(6)));
                assert(data.deep_view() =~= spec_data_lines(ls.subrange(0, k + 1)));
            }
        } else if bytes_start_with(line.as_slice(), &dpb) {
            let piece = copy_range(line.as_slice(), 5, line.len());
            proof {
                assert(piece@ =~= ls[k as int].skip(5));
            }
            data.push(piece);
            proof {
                assert(data.deep_view() =~~= old_dv.push(ls[k as int].skip(5)));
                assert(data.deep_view() =~= spec_data_lines(ls.subrange(0, k + 1)));
            }
        } else {
            proof {
                assert(data.deep_view() + spec_line_data(ls[k as int])
                    =~= data.deep_view());
                assert(data.deep_view() =~= spec_data_lines(ls.subrange(0, k + 1)));
            }
        }
        k += 1;
    }
    proof {
        assert(ls.subrange(0, ls.len() as int) =~= ls);
    }
    if data.len() == 0 {
        return None;
    }
    let ghost dl = data.deep_view();
    let mut joined: Vec<u8> = Vec::new();
    let mut k: usize = 0;
    proof {
        assert(dl.subrange(0, 0) =~= Seq::<Seq<u8>>::empty());
        assert(joined@ =~= spec_join_nl(dl.subrange(0, 0)));
    }
    while k < data.len()
        invariant
            dl == data.deep_view(),
            k <= data@.len(),
            data@.len() == dl.len(),
            dl.len() > 0,
            joined@ == spec_join_nl(dl.subrange(0, k as int)),
        decreases data@.len() - k,
    {
        proof {
            assert(dl.subrange(0, k + 1).drop_last() =~= dl.subrange(0, k as int));
            assert(dl.subrange(0, k + 1).last() == dl[k as int]);
        }
        if k > 0 {
            joined.push(10u8);
        }
        let piece = &data[k];
        proof {
            assert(piece@ == dl[k as int]);
        }
        let mut i: usize = 0;
        let ghost base = joined@;
        while i < piece.len()
            invariant
                i <= piece@.len(),
                joined@ =~= base + piece@.subrange(0, i as int),
            decreases piece@.len() - i,
        {
            joined.push(piece[i]);
            i += 1;
        }
        proof {
            assert(joined@ =~= base + dl[k as int]);
            if k == 0 {
                assert(dl.subrange(0, 1) =~= seq![dl[0]]);
                assert(joined@ =~= spec_join_nl(dl.subrange(0, 1)));
            } else {
                assert(joined@ =~= spec_join_nl(dl.subrange(0, k as int)) + seq![nl()]
                    + dl[k as int]);
                assert(joined@ =~= spec_join_nl(dl.subrange(0, k + 1)));
            }
        }
        k += 1;
    }
    proof {
        assert(dl.subrange(0, dl.len() as int) =~= dl);
    }
    Some(joined)
}

/// Extracts, in order, every candidate response payload of an event-stream
/// formatted response body.
pub fn sse_body_payloads(body: &[u8]) -> (r: Vec<Vec<u8>>)
    ensures
        r.deep_view() == spec_body_payloads(body@),
{
    let events = split_events(body);
    let ghost es = events.deep_view();
    let mut out: Vec<Vec<u8>> = Vec::new();
    let mut k: usize = 0;
    proof {
        assert(es.subrange(0, 0) =~= Seq::<Seq<u8>>::empty());
        assert(out.deep_view() =~~= spec_event_payloads(es.subrange(0, 0)));
    }
    while k < events.len()
        invariant
            es == events.deep_view(),
            k <= events@.len(),
            events@.len() == es.len(),
            out.deep_view() == spec_event_payloads(es.subrange(0, k as int)),
        decreases events@.len() - k,
    {
        proof {
            assert(es.subrange(0, k + 1).drop_last() =~= es.subrange(0, k as int));
            assert(es.subrange(0, k + 1).last() == es[k as int]);
        }
        let ghost old_dv = out.deep_view();
        match event_payload(events[k].as_slice()) {
            Some(p) => {
                proof {
                    assert(events[k as int]@ == es[k as int]);
                }
                let ghost pv = p@;
                out.push(p);
                proof {
                    assert(out.deep_view() =~~= old_dv.push(pv));
                    assert(spec_event_payload(es[k as int]) == Option::Some(pv));
                    assert(out.deep_view() =~= spec_event_payloads(es.subrange(0, k + 1)));
                }
            },
            None => {
                proof {
                    assert(events[k as int]@ == es[k as int]);
                    assert(spec_event_payload(es[k as int]) is None);
                    assert(out.deep_view() + Seq::<Seq<u8>>::empty() =~= out.deep_view());
                    assert(out.deep_view() =~= spec_event_payloads(es.subrange(0, k + 1)));
                }
            },
        }
        k += 1;
    }
    proof {
        assert(es.subrange(0, es.len() as int) =~= es);
    }
    out
}

} // verus!

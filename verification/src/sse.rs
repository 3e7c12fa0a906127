//! Incremental decoder for Server-Sent-Events byte streams.
//!
//! The decoder buffers arbitrary byte chunks, frames them into lines at each
//! line feed (removing one trailing carriage return), and runs an SSE field
//! parser over the complete lines: `event:` sets the pending event name,
//! `data:` appends a payload line, comments and unknown fields are ignored,
//! and a blank line emits one [`RawStreamEvent`] whose data is the pending
//! payload lines joined with a line feed.
//!
//! The whole decoder is specified by a per-byte transition function
//! ([`feed_byte`]) over an abstract state ([`SseModel`]); [`feed`] folds it
//! over a chunk.  Chunk boundaries therefore cannot matter, which
//! [`lemma_chunking_irrelevant`] states and proves.

use vstd::prelude::*;

use crate::error::opt_view;

verus! {

/// One raw server-sent event: the event name and the joined data payload,
/// both as UTF-8 bytes.
#[derive(Debug, Clone, PartialEq, Eq)]
pub struct RawStreamEvent {
    /// The event name (`event:` field value, or `message` by default).
    pub event: Vec<u8>,
    /// The payload: all `data:` lines of the event, joined with a line feed.
    pub data: Vec<u8>,
}

/// Mathematical image of a raw event.
#[verifier::ext_equal]
pub ghost struct RawEventModel {
    pub event: Seq<u8>,
    pub data: Seq<u8>,
}

impl RawStreamEvent {
    /// The mathematical image of this event.
    pub open spec fn model(&self) -> RawEventModel {
        RawEventModel { event: self.event@, data: self.data@ }
    }
}

/// The image of an optional event.
pub open spec fn opt_event_model(r: Option<RawStreamEvent>) -> Option<RawEventModel> {
    match r {
        Option::Some(e) => Option::Some(e.model()),
        Option::None => Option::None,
    }
}

/// Abstract decoder state: the partial line not yet terminated by a line
/// feed, the pending event name, and the pending data lines.
#[verifier::ext_equal]
pub ghost struct SseModel {
    pub buffer: Seq<u8>,
    pub event_type: Option<Seq<u8>>,
    pub data_lines: Seq<Seq<u8>>,
}

/// Outcome of parsing one complete line: the new pending name and data
/// lines, and the event emitted, if any.
#[verifier::ext_equal]
pub ghost struct LineOutcome {
    pub event_type: Option<Seq<u8>>,
    pub data_lines: Seq<Seq<u8>>,
    pub out: Option<RawEventModel>,
}

/// Outcome of feeding bytes: the new state and the events emitted, in order.
#[verifier::ext_equal]
pub ghost struct FeedResult {
    pub state: SseModel,
    pub events: Seq<RawEventModel>,
}

/// Outcome of flushing: the new state and the final event, if any.
#[verifier::ext_equal]
pub ghost struct FlushResult {
    pub state: SseModel,
    pub out: Option<RawEventModel>,
}

/// The bytes of the field name `event`.
pub open spec fn event_kw() -> Seq<u8> {
    seq![101u8, 118u8, 101u8, 110u8, 116u8]
}

/// The bytes of the field name `data`.
pub open spec fn data_kw() -> Seq<u8> {
    seq![100u8, 97u8, 116u8, 97u8]
}

/// The bytes of the default event name `message`.
pub open spec fn message_name() -> Seq<u8> {
    seq![109u8, 101u8, 115u8, 115u8, 97u8, 103u8, 101u8]
}

/// Remove one trailing carriage return, if present.
pub open spec fn strip_one_cr(line: Seq<u8>) -> Seq<u8> {
    if line.len() > 0 && line.last() == 13u8 {
        line.drop_last()
    } else {
        line
    }
}

/// Remove one leading space, if present.
pub open spec fn strip_one_space(v: Seq<u8>) -> Seq<u8> {
    if v.len() > 0 && v.first() == 32u8 {
        v.drop_first()
    } else {
        v
    }
}

/// Index of the first colon in `s`, if any.
pub open spec fn first_colon(s: Seq<u8>) -> Option<int>
    decreases s.len(),
{
    if s.len() == 0 {
        Option::None
    } else if s.first() == 58u8 {
        Option::Some(0int)
    } else {
        match first_colon(s.drop_first()) {
            Option::Some(i) => Option::Some(i + 1),
            Option::None => Option::None,
        }
    }
}

/// What `first_colon` returns: the least index holding a colon, or nothing
/// when no byte is a colon.
pub proof fn lemma_first_colon(s: Seq<u8>)
    ensures
        match first_colon(s) {
            Option::Some(i) => 0 <= i < s.len() && s[i] == 58u8 && (forall|k: int|
                0 <= k < i ==> s[k] != 58u8),
            Option::None => forall|k: int| 0 <= k < s.len() ==> s[k] != 58u8,
        },
    decreases s.len(),
{
    if s.len() > 0 && s.first() != 58u8 {
        lemma_first_colon(s.drop_first());
        match first_colon(s.drop_first()) {
            Option::Some(i) => {
                assert(s[i + 1] == s.drop_first()[i]);
                assert forall|k: int| 0 <= k < i + 1 implies s[k] != 58u8 by {
                    if k > 0 {
                        assert(s[k] == s.drop_first()[k - 1]);
                    }
                }
            },
            Option::None => {
                assert forall|k: int| 0 <= k < s.len() implies s[k] != 58u8 by {
                    if k > 0 {
                        assert(s[k] == s.drop_first()[k - 1]);
                    }
                }
            },
        }
    }
}

/// The data lines of one event, joined with a line feed, in order.
pub open spec fn join_lines(dl: Seq<Seq<u8>>) -> Seq<u8>
    decreases dl.len(),
{
    if dl.len() == 0 {
        Seq::empty()
    } else if dl.len() == 1 {
        dl[0]
    } else {
        dl[0] + seq![10u8] + join_lines(dl.drop_first())
    }
}

/// Effect of a blank line: with no pending data, discard the pending event
/// name and emit nothing; otherwise emit one event named by the pending
/// event name (default `message`) carrying the joined data lines, and reset.
pub open spec fn emit_spec(ev: Option<Seq<u8>>, dl: Seq<Seq<u8>>) -> LineOutcome {
    if dl.len() == 0 {
        LineOutcome { event_type: Option::None, data_lines: dl, out: Option::None }
    } else {
        LineOutcome {
            event_type: Option::None,
            data_lines: Seq::empty(),
            out: Option::Some(
                RawEventModel {
                    event: match ev {
                        Option::Some(n) => n,
                        Option::None => message_name(),
                    },
                    data: join_lines(dl),
                },
            ),
        }
    }
}

/// Effect of one complete, carriage-return-stripped line on the field
/// parser.  A blank line is the event terminator; a line starting with a
/// colon is a comment; otherwise the line splits at its first colon into a
/// field name and a value (a line without a colon is a field name with an
/// empty value), the value loses at most one leading space, and only the
/// `event` and `data` fields have an effect.
pub open spec fn line_step(ev: Option<Seq<u8>>, dl: Seq<Seq<u8>>, line: Seq<u8>) -> LineOutcome {
    if line.len() == 0 {
        emit_spec(ev, dl)
    } else if line.first() == 58u8 {
        LineOutcome { event_type: ev, data_lines: dl, out: Option::None }
    } else {
        let field = match first_colon(line) {
            Option::Some(i) => line.subrange(0, i),
            Option::None => line,
        };
        let value = match first_colon(line) {
            Option::Some(i) => strip_one_space(line.subrange(i + 1, line.len() as int)),
            Option::None => Seq::empty(),
        };
        if field == event_kw() {
            LineOutcome { event_type: Option::Some(value), data_lines: dl, out: Option::None }
        } else if field == data_kw() {
            LineOutcome { event_type: ev, data_lines: dl.push(value), out: Option::None }
        } else {
            LineOutcome { event_type: ev, data_lines: dl, out: Option::None }
        }
    }
}

/// Effect of one input byte: a line feed completes the buffered line
/// (stripping one carriage return) and runs the field parser over it; any
/// other byte extends the buffered line.
pub open spec fn feed_byte(m: SseModel, b: u8) -> FeedResult {
    if b == 10u8 {
        let st = line_step(m.event_type, m.data_lines, strip_one_cr(m.buffer));
        FeedResult {
            state: SseModel {
                buffer: Seq::empty(),
                event_type: st.event_type,
                data_lines: st.data_lines,
            },
            events: match st.out {
                Option::Some(e) => seq![e],
                Option::None => Seq::empty(),
            },
        }
    } else {
        FeedResult {
            state: SseModel {
                buffer: m.buffer.push(b),
                event_type: m.event_type,
                data_lines: m.data_lines,
            },
            events: Seq::empty(),
        }
    }
}

/// Effect of feeding a whole chunk: [`feed_byte`] folded over its bytes.
pub open spec fn feed(m: SseModel, chunk: Seq<u8>) -> FeedResult
    decreases chunk.len(),
{
    if chunk.len() == 0 {
        FeedResult { state: m, events: Seq::empty() }
    } else {
        let first = feed_byte(m, chunk.first());
        let rest = feed(first.state, chunk.drop_first());
        FeedResult { state: rest.state, events: first.events + rest.events }
    }
}

/// Effect of feeding a sequence of chunks, one after the other.
pub open spec fn feed_all(m: SseModel, chunks: Seq<Seq<u8>>) -> FeedResult
    decreases chunks.len(),
{
    if chunks.len() == 0 {
        FeedResult { state: m, events: Seq::empty() }
    } else {
        let first = feed(m, chunks.first());
        let rest = feed_all(first.state, chunks.drop_first());
        FeedResult { state: rest.state, events: first.events + rest.events }
    }
}

/// Effect of the end of the transport: any buffered partial line is parsed
/// as a final line (as buffered, without carriage-return stripping), then a
/// pending event is emitted as if terminated by a blank line.  With nothing
/// buffered and no pending data the state is untouched.
pub open spec fn flush_spec(m: SseModel) -> FlushResult {
    if m.buffer.len() == 0 && m.data_lines.len() == 0 {
        FlushResult { state: m, out: Option::None }
    } else {
        let after = if m.buffer.len() > 0 {
            line_step(m.event_type, m.data_lines, m.buffer)
        } else {
            LineOutcome { event_type: m.event_type, data_lines: m.data_lines, out: Option::None }
        };
        let em = emit_spec(after.event_type, after.data_lines);
        FlushResult {
            state: SseModel {
                buffer: Seq::empty(),
                event_type: em.event_type,
                data_lines: em.data_lines,
            },
            out: em.out,
        }
    }
}

/// Feeding one more byte after a chunk is the same as feeding the chunk
/// extended by that byte.
proof fn lemma_feed_snoc(m: SseModel, s: Seq<u8>, b: u8)
    ensures
        ({
            let f = feed(m, s);
            let fb = feed_byte(f.state, b);
            feed(m, s.push(b)) == FeedResult { state: fb.state, events: f.events + fb.events }
        }),
    decreases s.len(),
{
    let f = feed(m, s);
    let fb = feed_byte(f.state, b);
    if s.len() == 0 {
        assert(s.push(b).first() == b);
        assert(s.push(b).drop_first() =~= Seq::<u8>::empty());
        let first = feed_byte(m, s.push(b).first());
        assert(f.state == m);
        assert(first == fb);
        assert(feed(first.state, s.push(b).drop_first()) == (FeedResult {
            state: first.state,
            events: Seq::<RawEventModel>::empty(),
        }));
        assert(feed(m, s.push(b)) == (FeedResult {
            state: first.state,
            events: first.events + Seq::<RawEventModel>::empty(),
        }));
        assert(first.events + Seq::<RawEventModel>::empty() =~= fb.events);
        assert(f.events + fb.events =~= fb.events);
        assert(feed(m, s.push(b)) =~= FeedResult { state: fb.state, events: f.events + fb.events });
    } else {
        let first = feed_byte(m, s.first());
        assert(s.push(b).first() == s.first());
        assert(s.push(b).drop_first() =~= s.drop_first().push(b));
        lemma_feed_snoc(first.state, s.drop_first(), b);
        let f2 = feed(first.state, s.drop_first());
        let fb2 = feed_byte(f2.state, b);
        assert(feed(first.state, s.drop_first().push(b)) == (FeedResult {
            state: fb2.state,
            events: f2.events + fb2.events,
        }));
        assert(f == (FeedResult { state: f2.state, events: first.events + f2.events }));
        assert(fb2 == fb);
        assert(feed(m, s.push(b)) == (FeedResult {
            state: fb2.state,
            events: first.events + (f2.events + fb2.events),
        }));
        assert(first.events + (f2.events + fb2.events) =~= f.events + fb.events);
        assert(feed(m, s.push(b)) =~= FeedResult { state: fb.state, events: f.events + fb.events });
    }
}

/// Chunk boundaries do not matter: feeding `a` and then `b` leaves the same
/// state, and emits the same events in the same order, as feeding `a + b`
/// at once.
pub proof fn lemma_feed_split(m: SseModel, a: Seq<u8>, b: Seq<u8>)
    ensures
        ({
            let fa = feed(m, a);
            let fb = feed(fa.state, b);
            feed(m, a + b) == FeedResult { state: fb.state, events: fa.events + fb.events }
        }),
    decreases a.len(),
{
    let fa = feed(m, a);
    let fb = feed(fa.state, b);
    if a.len() == 0 {
        assert(a + b =~= b);
        assert(fa.events + fb.events =~= fb.events);
        assert(feed(m, a + b) =~= FeedResult { state: fb.state, events: fa.events + fb.events });
    } else {
        let first = feed_byte(m, a.first());
        assert((a + b).first() == a.first());
        assert((a + b).drop_first() =~= a.drop_first() + b);
        lemma_feed_split(first.state, a.drop_first(), b);
        assert(feed(m, a + b).events =~= fa.events + fb.events);
        assert(feed(m, a + b) =~= FeedResult { state: fb.state, events: fa.events + fb.events });
    }
}

/// However a byte stream is split into chunks, feeding the chunks in order
/// leaves the same state, and emits the same events in the same order, as
/// feeding the reassembled stream at once.
pub proof fn lemma_chunking_irrelevant(m: SseModel, chunks: Seq<Seq<u8>>)
    ensures
        feed_all(m, chunks) == feed(m, chunks.flatten()),
    decreases chunks.len(),
{
    if chunks.len() == 0 {
        assert(chunks.flatten() =~= Seq::<u8>::empty());
        assert(feed_all(m, chunks) =~= feed(m, chunks.flatten()));
    } else {
        let first = feed(m, chunks.first());
        lemma_chunking_irrelevant(first.state, chunks.drop_first());
        lemma_feed_split(m, chunks.first(), chunks.drop_first().flatten());
        assert(chunks.flatten() == chunks.first() + chunks.drop_first().flatten());
        assert(feed_all(m, chunks).events =~= feed(m, chunks.flatten()).events);
        assert(feed_all(m, chunks) =~= feed(m, chunks.flatten()));
    }
}

/// Feeding bytes that hold no line feed only extends the buffered partial
/// line: nothing is emitted and the pending fields are untouched.
proof fn lemma_feed_no_lf(m: SseModel, bytes: Seq<u8>)
    requires
        forall|i: int| 0 <= i < bytes.len() ==> bytes[i] != 10u8,
    ensures
        feed(m, bytes) == (FeedResult {
            state: SseModel {
                buffer: m.buffer + bytes,
                event_type: m.event_type,
                data_lines: m.data_lines,
            },
            events: Seq::<RawEventModel>::empty(),
        }),
    decreases bytes.len(),
{
    if bytes.len() == 0 {
        assert(m.buffer + bytes =~= m.buffer);
        assert(feed(m, bytes) =~= FeedResult {
            state: SseModel {
                buffer: m.buffer + bytes,
                event_type: m.event_type,
                data_lines: m.data_lines,
            },
            events: Seq::<RawEventModel>::empty(),
        });
    } else {
        let m1 = feed_byte(m, bytes.first()).state;
        assert(bytes.first() != 10u8);
        assert forall|i: int| 0 <= i < bytes.drop_first().len() implies bytes.drop_first()[i]
            != 10u8 by {
            assert(bytes.drop_first()[i] == bytes[i + 1]);
        }
        lemma_feed_no_lf(m1, bytes.drop_first());
        assert(m1.buffer + bytes.drop_first() =~= m.buffer + bytes);
        assert(feed(m, bytes).events =~= Seq::<RawEventModel>::empty());
        assert(feed(m, bytes) =~= FeedResult {
            state: SseModel {
                buffer: m.buffer + bytes,
                event_type: m.event_type,
                data_lines: m.data_lines,
            },
            events: Seq::<RawEventModel>::empty(),
        });
    }
}

/// A comment line is ignored on the public byte path too: from a state
/// with an empty line buffer, feeding a whole comment line (a line that
/// starts with a colon, holds no line feed, and is terminated by one)
/// emits no event and leaves the pending event name and data lines
/// unchanged.
pub proof fn lemma_comment_line_feed(m: SseModel, line: Seq<u8>)
    requires
        m.buffer.len() == 0,
        line.len() > 0,
        line.first() == 58u8,
        forall|i: int| 0 <= i < line.len() ==> line[i] != 10u8,
    ensures
        ({
            let fr = feed(m, line.push(10u8));
            &&& fr.events == Seq::<RawEventModel>::empty()
            &&& fr.state.event_type == m.event_type
            &&& fr.state.data_lines == m.data_lines
            &&& fr.state.buffer == Seq::<u8>::empty()
        }),
{
    lemma_feed_no_lf(m, line);
    let m1 = feed(m, line).state;
    assert(m.buffer + line =~= line);
    assert(m1.buffer == line);
    assert(line.push(10u8) =~= line + seq![10u8]);
    lemma_feed_split(m, line, seq![10u8]);
    let stripped = strip_one_cr(line);
    if line.last() == 13u8 {
        assert(line.len() >= 2);
        assert(stripped.first() == line.first());
    }
    assert(stripped.len() > 0);
    assert(stripped.first() == 58u8);
    lemma_comment_ignored(m1.event_type, m1.data_lines, stripped);
    let fb = feed_byte(m1, 10u8);
    assert(fb.events =~= Seq::<RawEventModel>::empty());
    assert(fb.state.event_type == m1.event_type);
    assert(fb.state.data_lines == m1.data_lines);
    assert(fb.state.buffer =~= Seq::<u8>::empty());
    assert(seq![10u8].first() == 10u8);
    assert(seq![10u8].drop_first() =~= Seq::<u8>::empty());
    assert(feed(fb.state, seq![10u8].drop_first()) == (FeedResult {
        state: fb.state,
        events: Seq::<RawEventModel>::empty(),
    }));
    assert(feed(m1, seq![10u8]) == (FeedResult {
        state: fb.state,
        events: fb.events + Seq::<RawEventModel>::empty(),
    }));
    assert(fb.events + Seq::<RawEventModel>::empty() =~= Seq::<RawEventModel>::empty());
    assert(feed(m, line.push(10u8)).events =~= Seq::<RawEventModel>::empty());
    assert(feed(m, line.push(10u8)).state == fb.state);
}

/// While no data lines are pending, no single line can produce an event:
/// in particular a comment, a blank line, or any field line emits nothing.
pub proof fn lemma_no_data_no_event(ev: Option<Seq<u8>>, line: Seq<u8>)
    ensures
        (line_step(ev, Seq::empty(), line).out is None),
{
}

/// A comment line is ignored entirely: no state change and no event.
pub proof fn lemma_comment_ignored(ev: Option<Seq<u8>>, dl: Seq<Seq<u8>>, line: Seq<u8>)
    requires
        line.len() > 0,
        line.first() == 58u8,
    ensures
        line_step(ev, dl, line) == (LineOutcome { event_type: ev, data_lines: dl, out: Option::None }),
{
}

/// Joining after appending one more data line appends a line feed and that
/// line: data lines join in their original order.
pub proof fn lemma_join_snoc(dl: Seq<Seq<u8>>, d: Seq<u8>)
    ensures
        join_lines(dl.push(d)) == if dl.len() == 0 {
            d
        } else {
            join_lines(dl) + seq![10u8] + d
        },
    decreases dl.len(),
{
    if dl.len() == 0 {
        assert(dl.push(d)[0] =~= d);
    } else {
        assert(dl.push(d).drop_first() =~= dl.drop_first().push(d));
        lemma_join_snoc(dl.drop_first(), d);
        if dl.len() == 1 {
            assert(join_lines(dl.push(d)) =~= join_lines(dl) + seq![10u8] + d);
        } else {
            assert(join_lines(dl.push(d)) =~= join_lines(dl) + seq![10u8] + d);
        }
    }
}

/// A blank line with pending data emits exactly one event: its name is the
/// pending event name (default `message`), its data the pending lines
/// joined with a line feed, in order.
pub proof fn lemma_blank_line_emits_joined(ev: Option<Seq<u8>>, dl: Seq<Seq<u8>>)
    requires
        dl.len() > 0,
    ensures
        line_step(ev, dl, Seq::empty()).out == Option::Some(
            RawEventModel {
                event: match ev {
                    Option::Some(n) => n,
                    Option::None => message_name(),
                },
                data: join_lines(dl),
            },
        ),
{
}

/// The incremental SSE decoder: owns the partial-line buffer and the
/// pending event fields of one stream.
#[derive(Debug)]
pub struct SseDecoder {
    buffer: Vec<u8>,
    event_type: Option<Vec<u8>>,
    data_lines: Vec<Vec<u8>>,
}

/// Copy `v[from..to]` into a fresh vector.
fn subvec(v: &Vec<u8>, from: usize, to: usize) -> (r: Vec<u8>)
    requires
        from <= to,
        to <= v@.len(),
    ensures
        r@ == v@.subrange(from as int, to as int),
{
    let mut r: Vec<u8> = Vec::new();
    let mut k: usize = from;
    while k < to
        invariant
            from <= k <= to,
            to <= v@.len(),
            r@ == v@.subrange(from as int, k as int),
        decreases to - k,
    {
        r.push(v[k]);
        proof {
            assert(v@.subrange(from as int, (k + 1) as int) =~= v@.subrange(
                from as int,
                k as int,
            ).push(v@[k as int]));
        }
        k += 1;
    }
    r
}

/// Whether `f` is the field name `event`.
fn is_event_kw(f: &Vec<u8>) -> (r: bool)
    ensures
        r == (f@ == event_kw()),
{
    let r = f.len() == 5 && f[0] == 101 && f[1] == 118 && f[2] == 101 && f[3] == 110 && f[4]
        == 116;
    proof {
        if r {
            assert(f@ =~= event_kw());
        }
    }
    r
}

/// Whether `f` is the field name `data`.
fn is_data_kw(f: &Vec<u8>) -> (r: bool)
    ensures
        r == (f@ == data_kw()),
{
    let r = f.len() == 4 && f[0] == 100 && f[1] == 97 && f[2] == 116 && f[3] == 97;
    proof {
        if r {
            assert(f@ =~= data_kw());
        }
    }
    r
}

/// The default event name, `message`, as bytes.
fn default_event_name() -> (r: Vec<u8>)
    ensures
        r@ == message_name(),
{
    let mut v: Vec<u8> = Vec::new();
    v.push(109);
    v.push(101);
    v.push(115);
    v.push(115);
    v.push(97);
    v.push(103);
    v.push(101);
    proof {
        assert(v@ =~= message_name());
    }
    v
}

/// Join data lines with a line feed, in order.
fn join_data_lines(dl: &Vec<Vec<u8>>) -> (r: Vec<u8>)
    ensures
        r@ == join_lines(dl@.map_values(|v: Vec<u8>| v@)),
{
    let ghost views = dl@.map_values(|v: Vec<u8>| v@);
    let mut r: Vec<u8> = Vec::new();
    let mut k: usize = 0;
    while k < dl.len()
        invariant
            k <= dl@.len(),
            views == dl@.map_values(|v: Vec<u8>| v@),
            r@ == join_lines(views.take(k as int)),
        decreases dl@.len() - k,
    {
        if k > 0 {
            r.push(10);
        }
        let ghost r_mid = r@;
        r.extend_from_slice(dl[k].as_slice());
        proof {
            assert(views.take((k + 1) as int) =~= views.take(k as int).push(views[k as int]));
            lemma_join_snoc(views.take(k as int), views[k as int]);
            if k > 0 {
                assert(r@ =~= join_lines(views.take(k as int)) + seq![10u8] + views[k as int]);
            } else {
                assert(r@ =~= views[0]);
            }
        }
        k += 1;
    }
    proof {
        assert(views.take(dl@.len() as int) =~= views);
    }
    r
}

impl SseDecoder {
    /// The abstract state of this decoder.
    pub closed spec fn model(&self) -> SseModel {
        SseModel {
            buffer: self.buffer@,
            event_type: opt_view(self.event_type),
            data_lines: self.data_lines@.map_values(|v: Vec<u8>| v@),
        }
    }

    /// A fresh decoder: nothing buffered, nothing pending.
    pub fn new() -> (r: Self)
        ensures
            r.model() == (SseModel {
                buffer: Seq::<u8>::empty(),
                event_type: Option::<Seq<u8>>::None,
                data_lines: Seq::<Seq<u8>>::empty(),
            }),
    {
        let r = SseDecoder { buffer: Vec::new(), event_type: None, data_lines: Vec::new() };
        proof {
            assert(r.model().data_lines =~= Seq::<Seq<u8>>::empty());
        }
        r
    }

    /// Emit the pending event, if a blank line were seen now.
    fn emit_event(&mut self) -> (r: Option<RawStreamEvent>)
        ensures
            ({
                let st = emit_spec(old(self).model().event_type, old(self).model().data_lines);
                &&& final(self).model() == (SseModel {
                    buffer: old(self).model().buffer,
                    event_type: st.event_type,
                    data_lines: st.data_lines,
                })
                &&& opt_event_model(r) == st.out
            }),
    {
        if self.data_lines.len() == 0 {
            self.event_type = None;
            proof {
                assert(final(self).model() =~= SseModel {
                    buffer: old(self).model().buffer,
                    event_type: Option::None,
                    data_lines: old(self).model().data_lines,
                });
            }
            None
        } else {
            let taken = self.event_type.take();
            let name = match taken {
                Some(n) => n,
                None => default_event_name(),
            };
            let data = join_data_lines(&self.data_lines);
            self.data_lines.clear();
            proof {
                assert(final(self).model().data_lines =~= Seq::<Seq<u8>>::empty());
            }
            Some(RawStreamEvent { event: name, data })
        }
    }

    /// Run the field parser over one complete line (already stripped of its
    /// carriage return).  The partial-line buffer is untouched.
    fn process_line(&mut self, line: &Vec<u8>) -> (r: Option<RawStreamEvent>)
        ensures
            ({
                let st = line_step(
                    old(self).model().event_type,
                    old(self).model().data_lines,
                    line@,
                );
                &&& final(self).model() == (SseModel {
                    buffer: old(self).model().buffer,
                    event_type: st.event_type,
                    data_lines: st.data_lines,
                })
                &&& opt_event_model(r) == st.out
            }),
    {
        if line.len() == 0 {
            return self.emit_event();
        }
        if line[0] == 58 {
            return None;
        }
        // find the first colon
        let mut j: usize = 0;
        while j < line.len() && line[j] != 58
            invariant
                j <= line@.len(),
                forall|k: int| 0 <= k < j ==> line@[k] != 58u8,
            decreases line@.len() - j,
        {
            j += 1;
        }
        proof {
            lemma_first_colon(line@);
        }
        let (field, value) = if j < line.len() {
            proof {
                assert(first_colon(line@) == Option::Some(j as int));
            }
            let f = subvec(line, 0, j);
            let mut v = subvec(line, j + 1, line.len());
            if v.len() > 0 && v[0] == 32 {
                v.remove(0);
                proof {
                    assert(v@ =~= strip_one_space(line@.subrange(j + 1, line@.len() as int)));
                }
            }
            (f, v)
        } else {
            proof {
                assert(first_colon(line@) is None);
            }
            (subvec(line, 0, line.len()), Vec::new())
        };
        proof {
            assert(line@.subrange(0, line@.len() as int) =~= line@);
        }
        if is_event_kw(&field) {
            self.event_type = Some(value);
            None
        } else if is_data_kw(&field) {
            self.data_lines.push(value);
            proof {
                assert(final(self).model().data_lines =~= old(self).model().data_lines.push(
                    value@,
                ));
            }
            None
        } else {
            None
        }
    }

    /// Feed one chunk of bytes and return the events it completes, in order.
    ///
    /// The state advances, and the events are, exactly as [`feed`] says.
    pub fn decode(&mut self, chunk: &[u8]) -> (events: Vec<RawStreamEvent>)
        ensures
            ({
                let fr = feed(old(self).model(), chunk@);
                &&& final(self).model() == fr.state
                &&& events@.map_values(|e: RawStreamEvent| e.model()) == fr.events
            }),
    {
        let ghost m0 = old(self).model();
        let mut events: Vec<RawStreamEvent> = Vec::new();
        let mut i: usize = 0;
        proof {
            assert(chunk@.take(0int) =~= Seq::<u8>::empty());
            assert(events@.map_values(|e: RawStreamEvent| e.model()) =~= Seq::<
                RawEventModel,
            >::empty());
        }
        while i < chunk.len()
            invariant
                i <= chunk@.len(),
                ({
                    let fr = feed(m0, chunk@.take(i as int));
                    &&& self.model() == fr.state
                    &&& events@.map_values(|e: RawStreamEvent| e.model()) == fr.events
                }),
            decreases chunk@.len() - i,
        {
            let ghost pre = self.model();
            let ghost evs_pre = events@.map_values(|e: RawStreamEvent| e.model());
            let b = chunk[i];
            if b == 10 {
                // complete line: strip one carriage return and parse it
                if self.buffer.len() > 0 && self.buffer[self.buffer.len() - 1] == 13 {
                    self.buffer.pop();
                }
                proof {
                    assert(self.buffer@ =~= strip_one_cr(pre.buffer));
                }
                let line = self.buffer.split_off(0);
                proof {
                    assert(self.buffer@ =~= Seq::<u8>::empty());
                    assert(line@ =~= strip_one_cr(pre.buffer));
                    assert(self.model().event_type == pre.event_type);
                    assert(self.model().data_lines == pre.data_lines);
                }
                let r = self.process_line(&line);
                proof {
                    let st = line_step(pre.event_type, pre.data_lines, strip_one_cr(pre.buffer));
                    let fb = feed_byte(pre, 10u8);
                    assert(self.model() =~= fb.state);
                    assert(opt_event_model(r) == st.out);
                    assert(fb.events == (match st.out {
                        Option::Some(e) => seq![e],
                        Option::None => Seq::<RawEventModel>::empty(),
                    }));
                }
                if let Some(e) = r {
                    events.push(e);
                    proof {
                        assert(events@.map_values(|ev: RawStreamEvent| ev.model()) =~= evs_pre.push(
                            e.model(),
                        ));
                        assert(events@.map_values(|ev: RawStreamEvent| ev.model()) =~= evs_pre
                            + feed_byte(pre, 10u8).events);
                    }
                } else {
                    proof {
                        assert(events@.map_values(|ev: RawStreamEvent| ev.model()) =~= evs_pre
                            + feed_byte(pre, 10u8).events);
                    }
                }
            } else {
                self.buffer.push(b);
                proof {
                    assert(self.model() =~= feed_byte(pre, b).state);
                    assert(events@.map_values(|ev: RawStreamEvent| ev.model()) =~= evs_pre
                        + feed_byte(pre, b).events);
                }
            }
            proof {
                lemma_feed_snoc(m0, chunk@.take(i as int), chunk@[i as int]);
                assert(chunk@.take((i + 1) as int) =~= chunk@.take(i as int).push(
                    chunk@[i as int],
                ));
                let fr0 = feed(m0, chunk@.take(i as int));
                let fb = feed_byte(fr0.state, chunk@[i as int]);
                assert(pre == fr0.state);
                assert(evs_pre == fr0.events);
                let fr = feed(m0, chunk@.take((i + 1) as int));
                assert(fr == (FeedResult { state: fb.state, events: fr0.events + fb.events }));
                assert(self.model() =~= fr.state);
                assert(events@.map_values(|ev: RawStreamEvent| ev.model()) =~= fr.events);
            }
            i += 1;
        }
        proof {
            assert(chunk@.take(chunk@.len() as int) =~= chunk@);
        }
        events
    }

    /// Whether an incomplete line or pending data lines are buffered.
    pub fn has_buffered_data(&self) -> (r: bool)
        ensures
            r == (self.model().buffer.len() > 0 || self.model().data_lines.len() > 0),
    {
        self.buffer.len() > 0 || self.data_lines.len() > 0
    }

    /// Flush at end of transport: parse any buffered partial line as a final
    /// line and emit the pending event, if any, as [`flush_spec`] says.
    pub fn flush(&mut self) -> (r: Option<RawStreamEvent>)
        ensures
            ({
                let fr = flush_spec(old(self).model());
                &&& final(self).model() == fr.state
                &&& opt_event_model(r) == fr.out
            }),
    {
        let ghost m = self.model();
        if self.buffer.len() == 0 && self.data_lines.len() == 0 {
            return None;
        }
        let ghost after = if m.buffer.len() > 0 {
            line_step(m.event_type, m.data_lines, m.buffer)
        } else {
            LineOutcome { event_type: m.event_type, data_lines: m.data_lines, out: Option::None }
        };
        if self.buffer.len() > 0 {
            let remaining = self.buffer.split_off(0);
            proof {
                assert(self.buffer@ =~= Seq::<u8>::empty());
                assert(remaining@ =~= m.buffer);
                assert(self.model().event_type == m.event_type);
                assert(self.model().data_lines == m.data_lines);
            }
            let _parsed = self.process_line(&remaining);
        }
        proof {
            assert(self.model() =~= (SseModel {
                buffer: Seq::<u8>::empty(),
                event_type: after.event_type,
                data_lines: after.data_lines,
            }));
        }
        let r = self.emit_event();
        proof {
            let em = emit_spec(after.event_type, after.data_lines);
            let fr = flush_spec(m);
            assert(fr.state == (SseModel {
                buffer: Seq::<u8>::empty(),
                event_type: em.event_type,
                data_lines: em.data_lines,
            }));
            assert(self.model() =~= fr.state);
        }
        r
    }
}

impl Default for SseDecoder {
    /// Same as [`SseDecoder::new`].
    fn default() -> (r: Self)
        ensures
            r.model() == (SseModel {
                buffer: Seq::<u8>::empty(),
                event_type: Option::<Seq<u8>>::None,
                data_lines: Seq::<Seq<u8>>::empty(),
            }),
    {
        Self::new()
    }
}

} // verus!

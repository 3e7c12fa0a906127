//! The verified core of a message stream.
//!
//! A [`MessageStream`] owns one stream's decoder state and accumulated
//! [`StreamState`].  The transport hands it byte chunks; each chunk's
//! completed raw events are mapped to typed events and folded into the
//! state, and the batch of results is handed back in order.  After the
//! terminal event (`message_stop`) or the first decode error the stream is
//! finished and produces nothing further.
//!
//! The accumulated state always equals the fold of every event the stream
//! has produced, which the `wf` well-formedness predicate states and every
//! operation preserves.

use vstd::prelude::*;

use vstd::string::StringSliceAdditionalSpecFns;

use crate::error::AnthropicError;
use crate::events::{
    finalize_spec, initial_state, update_spec, Message, MessageStreamEvent, StreamEventModel,
    StreamState, StreamStateModel,
};
use crate::json::json_wf;
use crate::parse::{event_for_data, parse_event};
use crate::sse::{feed, flush_spec, RawEventModel, RawStreamEvent, SseDecoder, SseModel};

verus! {

/// Folding a sequence of events into a state, first event first.
pub open spec fn fold_events(st: StreamStateModel, evs: Seq<StreamEventModel>) -> StreamStateModel
    decreases evs.len(),
{
    if evs.len() == 0 {
        st
    } else {
        fold_events(update_spec(st, evs.first()), evs.drop_first())
    }
}

/// Folding one more event is one more fold step.
pub proof fn lemma_fold_snoc(st: StreamStateModel, evs: Seq<StreamEventModel>, e: StreamEventModel)
    ensures
        fold_events(st, evs.push(e)) == update_spec(fold_events(st, evs), e),
    decreases evs.len(),
{
    if evs.len() == 0 {
        assert(evs.push(e).drop_first() =~= Seq::<StreamEventModel>::empty());
        assert(evs.push(e).first() == e);
        assert(fold_events(st, evs.push(e)) == fold_events(
            update_spec(st, e),
            evs.push(e).drop_first(),
        ));
        assert(fold_events(update_spec(st, e), evs.push(e).drop_first()) == update_spec(st, e));
        assert(fold_events(st, evs) == st);
    } else {
        assert(evs.push(e).first() == evs.first());
        assert(evs.push(e).drop_first() =~= evs.drop_first().push(e));
        lemma_fold_snoc(update_spec(st, evs.first()), evs.drop_first(), e);
        assert(fold_events(st, evs.push(e)) == fold_events(
            update_spec(st, evs.first()),
            evs.drop_first().push(e),
        ));
        assert(fold_events(st, evs) == fold_events(update_spec(st, evs.first()), evs.drop_first()));
    }
}

/// Folding a concatenation folds the parts in order: successive batches
/// of [`MessageStream::feed`] compose.
pub proof fn lemma_fold_append(st: StreamStateModel, a: Seq<StreamEventModel>, b: Seq<StreamEventModel>)
    ensures
        fold_events(st, a + b) == fold_events(fold_events(st, a), b),
    decreases b.len(),
{
    if b.len() == 0 {
        assert(a + b =~= a);
    } else {
        assert(a + b.drop_last() =~= (a + b).drop_last());
        lemma_fold_append(st, a, b.drop_last());
        assert((a + b).last() == b.last());
        assert((a + b).drop_last().push((a + b).last()) =~= a + b);
        assert(b.drop_last().push(b.last()) =~= b);
        lemma_fold_snoc(st, (a + b).drop_last(), (a + b).last());
        lemma_fold_snoc(fold_events(st, a), b.drop_last(), b.last());
    }
}

/// The models of the decoded events among a batch of stream items, in
/// order: decode errors produce no event.
pub open spec fn ok_models(items: Seq<Result<MessageStreamEvent, AnthropicError>>) -> Seq<
    StreamEventModel,
>
    decreases items.len(),
{
    if items.len() == 0 {
        Seq::empty()
    } else {
        (match items.first() {
            Result::Ok(e) => seq![e.model()],
            Result::Err(_) => Seq::<StreamEventModel>::empty(),
        }) + ok_models(items.drop_first())
    }
}

/// One more item appends its event, if it carries one.
pub proof fn lemma_ok_models_snoc(
    items: Seq<Result<MessageStreamEvent, AnthropicError>>,
    it: Result<MessageStreamEvent, AnthropicError>,
)
    ensures
        ok_models(items.push(it)) == ok_models(items) + (match it {
            Result::Ok(e) => seq![e.model()],
            Result::Err(_) => Seq::<StreamEventModel>::empty(),
        }),
    decreases items.len(),
{
    let tail = match it {
        Result::Ok(e) => seq![e.model()],
        Result::Err(_) => Seq::<StreamEventModel>::empty(),
    };
    if items.len() == 0 {
        assert(items.push(it).first() == it);
        assert(items.push(it).drop_first() =~= Seq::<
            Result<MessageStreamEvent, AnthropicError>,
        >::empty());
        assert(ok_models(items.push(it).drop_first()) == Seq::<StreamEventModel>::empty());
        assert(ok_models(items.push(it)) == tail + Seq::<StreamEventModel>::empty());
        assert(ok_models(items) == Seq::<StreamEventModel>::empty());
        assert(tail + Seq::<StreamEventModel>::empty() =~= ok_models(items) + tail);
        assert(ok_models(items.push(it)) =~= ok_models(items) + tail);
    } else {
        assert(items.push(it).first() == items.first());
        assert(items.push(it).drop_first() =~= items.drop_first().push(it));
        lemma_ok_models_snoc(items.drop_first(), it);
        assert(ok_models(items.push(it)) =~= ok_models(items) + tail);
    }
}

/// Whether a stream item is the one a raw event maps to: its denoted
/// typed event when the name and payload denote one (a `ping` without
/// parsing), else a decode error.
pub open spec fn item_for_raw(
    raw: RawEventModel,
    item: Result<MessageStreamEvent, AnthropicError>,
) -> bool {
    if raw.event == "ping".spec_bytes() {
        item matches Ok(e) && e.model() == StreamEventModel::Ping
    } else if !json_wf(raw.data) {
        item matches Err(e) && e is Json
    } else {
        match event_for_data(raw.event, raw.data) {
            Option::Some(m) => item matches Ok(e) && e.model() == m,
            Option::None => item matches Err(e) && e is Json,
        }
    }
}

/// Whether a stream item ends the stream: the terminal event or any error.
pub open spec fn terminal_item(it: Result<MessageStreamEvent, AnthropicError>) -> bool {
    match it {
        Result::Ok(e) => e.model() is MessageStop,
        Result::Err(_) => true,
    }
}

/// The decode-and-fold core of one message stream.
pub struct MessageStream {
    decoder: SseDecoder,
    state: StreamState,
    finished: bool,
    events_seen: Ghost<Seq<StreamEventModel>>,
}

impl MessageStream {
    /// The accumulated state is the fold of every event produced so far.
    pub closed spec fn wf(&self) -> bool {
        self.state.model() == fold_events(initial_state(), self.events_seen@)
    }

    /// The abstract decoder state.
    pub closed spec fn decoder_model(&self) -> SseModel {
        self.decoder.model()
    }

    /// The events produced so far, in order.
    pub closed spec fn events_seen(&self) -> Seq<StreamEventModel> {
        self.events_seen@
    }

    /// Whether the stream has ended (terminal event, decode error, or end
    /// of transport).
    pub closed spec fn spec_finished(&self) -> bool {
        self.finished
    }

    /// The accumulated state.
    pub closed spec fn spec_state(&self) -> StreamStateModel {
        self.state.model()
    }

    /// A fresh stream: empty decoder, empty state, not finished.
    pub fn new() -> (r: Self)
        ensures
            r.wf(),
            !r.spec_finished(),
            r.events_seen() == Seq::<StreamEventModel>::empty(),
            r.spec_state() == initial_state(),
            r.decoder_model() == (SseModel {
                buffer: Seq::<u8>::empty(),
                event_type: Option::<Seq<u8>>::None,
                data_lines: Seq::<Seq<u8>>::empty(),
            }),
    {
        MessageStream {
            decoder: SseDecoder::new(),
            state: StreamState::new(),
            finished: false,
            events_seen: Ghost(Seq::empty()),
        }
    }

    /// The accumulated state, to inspect mid-stream.
    pub fn state(&self) -> (r: &StreamState)
        ensures
            r.model() == self.spec_state(),
    {
        &self.state
    }

    /// The text accumulated so far.
    pub fn text(&self) -> (r: &Vec<u8>)
        ensures
            r@ == self.spec_state().text,
    {
        &self.state.text
    }

    /// The reasoning text accumulated so far.
    pub fn thinking(&self) -> (r: &Vec<u8>)
        ensures
            r@ == self.spec_state().thinking,
    {
        &self.state.thinking
    }

    /// Whether the terminal event has been seen.
    pub fn is_complete(&self) -> (r: bool)
        ensures
            r == self.spec_state().is_complete,
    {
        self.state.is_complete
    }

    /// Whether the stream produces nothing further.
    pub fn is_finished(&self) -> (r: bool)
        ensures
            r == self.spec_finished(),
    {
        self.finished
    }

    /// Feed one chunk of transport bytes; return the stream items it
    /// completes, in order.
    ///
    /// A finished stream consumes nothing and produces nothing.  Otherwise
    /// the decoder advances over the whole chunk, every completed raw
    /// event up to (and including) the first terminal item is mapped and
    /// each decoded event folded into the state, and the stream is
    /// finished exactly when the last item of the batch is terminal.
    pub fn feed(&mut self, chunk: &[u8]) -> (items: Vec<
        Result<MessageStreamEvent, AnthropicError>,
    >)
        requires
            old(self).wf(),
        ensures
            final(self).wf(),
            old(self).spec_finished() ==> *final(self) == *old(self) && items@ == Seq::<
                Result<MessageStreamEvent, AnthropicError>,
            >::empty(),
            !old(self).spec_finished() ==> ({
                let fr = feed(old(self).decoder_model(), chunk@);
                &&& final(self).decoder_model() == fr.state
                &&& final(self).events_seen() == old(self).events_seen() + ok_models(items@)
                &&& final(self).spec_state() == fold_events(
                    old(self).spec_state(),
                    ok_models(items@),
                )
                &&& items@.len() <= fr.events.len()
                &&& forall|i: int| 0 <= i < items@.len() ==> item_for_raw(
                    fr.events[i],
                    #[trigger] items@[i],
                )
                &&& forall|i: int| 0 <= i < items@.len() - 1 ==> !terminal_item(#[trigger] items@[i])
                &&& final(self).spec_finished() == (items@.len() > 0 && terminal_item(
                    items@.last(),
                ))
                &&& items@.len() < fr.events.len() ==> items@.len() > 0 && terminal_item(
                    items@.last(),
                )
            }),
    {
        if self.finished {
            return Vec::new();
        }
        let ghost fr = feed(old(self).decoder_model(), chunk@);
        let ghost seen0 = self.events_seen@;
        let ghost st0 = self.state.model();
        let raws = self.decoder.decode(chunk);
        let mut items: Vec<Result<MessageStreamEvent, AnthropicError>> = Vec::new();
        let mut i: usize = 0;
        proof {
            assert(ok_models(items@) =~= Seq::<StreamEventModel>::empty());
            assert(seen0 + ok_models(items@) =~= seen0);
        }
        while i < raws.len() && !self.finished
            invariant
                old(self).wf(),
                i <= raws@.len(),
                items@.len() == i,
                raws@.map_values(|e: RawStreamEvent| e.model()) == fr.events,
                self.decoder.model() == fr.state,
                self.wf(),
                self.events_seen@ == seen0 + ok_models(items@),
                self.state.model() == fold_events(st0, ok_models(items@)),
                fold_events(initial_state(), seen0) == st0,
                forall|k: int| 0 <= k < i ==> item_for_raw(fr.events[k], #[trigger] items@[k]),
                forall|k: int| 0 <= k < items@.len() - 1 ==> !terminal_item(#[trigger] items@[k]),
                self.finished == (items@.len() > 0 && terminal_item(items@.last())),
            decreases raws@.len() - i,
        {
            let ghost items_pre = items@;
            let ev = parse_event(&raws[i]);
            match ev {
                Ok(e) => {
                    self.state.update(&e);
                    proof {
                        lemma_fold_snoc(initial_state(), self.events_seen@, e.model());
                        lemma_fold_snoc(st0, ok_models(items_pre), e.model());
                    }
                    self.events_seen = Ghost(self.events_seen@.push(e.model()));
                    let is_stop = matches!(e, MessageStreamEvent::MessageStop);
                    if is_stop {
                        self.finished = true;
                    }
                    items.push(Ok(e));
                    proof {
                        assert(items@ =~= items_pre.push(Ok(e)));
                        lemma_ok_models_snoc(items_pre, Ok(e));
                        assert(ok_models(items_pre) + seq![e.model()] =~= ok_models(
                            items_pre,
                        ).push(e.model()));
                        assert(self.events_seen@ =~= seen0 + ok_models(items@));
                        assert(fr.events[i as int] == raws@[i as int].model());
                        assert(item_for_raw(fr.events[i as int], items@[i as int]));
                    }
                },
                Err(er) => {
                    self.finished = true;
                    let ghost ger = er;
                    items.push(Err(er));
                    proof {
                        assert(items@ =~= items_pre.push(Err(ger)));
                        lemma_ok_models_snoc(items_pre, Err(ger));
                        assert(ok_models(items@) =~= ok_models(items_pre));
                        assert(self.events_seen@ =~= seen0 + ok_models(items@));
                        assert(fr.events[i as int] == raws@[i as int].model());
                        assert(item_for_raw(fr.events[i as int], items@[i as int]));
                    }
                },
            }
            i += 1;
        }
        items
    }

    /// End of transport: flush any buffered partial line and event.
    ///
    /// A finished stream is untouched.  Otherwise the decoder flushes, a
    /// flushed raw event is mapped and folded like any other, and the
    /// stream is finished either way.
    pub fn finish(&mut self) -> (r: Option<Result<MessageStreamEvent, AnthropicError>>)
        requires
            old(self).wf(),
        ensures
            final(self).wf(),
            final(self).spec_finished(),
            old(self).spec_finished() ==> *final(self) == *old(self) && r is None,
            !old(self).spec_finished() ==> ({
                let fl = flush_spec(old(self).decoder_model());
                &&& final(self).decoder_model() == fl.state
                &&& (fl.out is None ==> r is None && final(self).events_seen() == old(
                    self,
                ).events_seen() && final(self).spec_state() == old(self).spec_state())
                &&& (match fl.out {
                    Option::Some(rawm) => r matches Some(item) && item_for_raw(rawm, item),
                    Option::None => (r is None),
                })
                &&& (fl.out is Some ==> match r {
                    Option::Some(Result::Ok(e)) => final(self).events_seen() == old(
                        self,
                    ).events_seen().push(e.model()) && final(self).spec_state() == update_spec(
                        old(self).spec_state(),
                        e.model(),
                    ),
                    Option::Some(Result::Err(_)) => final(self).events_seen() == old(
                        self,
                    ).events_seen() && final(self).spec_state() == old(self).spec_state(),
                    Option::None => false,
                })
            }),
    {
        if self.finished {
            return None;
        }
        self.finished = true;
        match self.decoder.flush() {
            None => None,
            Some(raw) => {
                match parse_event(&raw) {
                    Ok(e) => {
                        self.state.update(&e);
                        proof {
                            lemma_fold_snoc(initial_state(), self.events_seen@, e.model());
                        }
                        self.events_seen = Ghost(self.events_seen@.push(e.model()));
                        Some(Ok(e))
                    },
                    Err(er) => Some(Err(er)),
                }
            },
        }
    }

    /// Finalize the stream into its message, as
    /// [`finalize_spec`] says over the accumulated state.
    pub fn into_message(self) -> (r: Option<Message>)
        ensures
            ({
                match r {
                    Option::Some(m) => finalize_spec(self.spec_state()) == Option::Some(
                        m.spec_model(),
                    ),
                    Option::None => (finalize_spec(self.spec_state()) is None),
                }
            }),
    {
        self.state.into_message()
    }
}

} // verus!

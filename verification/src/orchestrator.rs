//! Translation orchestrator: one instance drives one request through
//! cache check, streaming decode, aggregation, cache write-back and the
//! three observable event kinds — incremental text, a usage summary,
//! and done. The surrounding shell performs the transport: it hands the
//! orchestrator the received bytes and the clock, and emits the events
//! the orchestrator returns. For a given request, content events come
//! in arrival order, the usage event comes before done, and nothing
//! follows done.
use vstd::prelude::*;
use vstd::string::{StrSliceExecFns, StringExecFns};
use crate::cache::{
    spec_find_live, spec_inc_sat, spec_store_entries, sha256_hex, CacheStore,
};
use crate::decoder::{
    decode_line, spec_line_event, spec_line_rest, spec_normalize, spec_split_lines, ProtocolEvent,
    ProtocolEventModel, StreamDecoder,
};
use crate::error::{
    classify_http_status, record_error, spec_is_success_status, spec_kind_name, spec_record,
    spec_user_message, ErrorHistory, TranslateError,
};
use crate::jsonio::{
    content_texts_of, parse_api_error_message, parse_once_response, spec_api_error_message,
    spec_join_texts,
};
use crate::mask::{spec_mask_all, spec_preview_source};
use crate::pricing::{calculate_cost, spec_cost_nanos};

verus! {

/// One translation request, as the shell hands it in.
pub struct TranslationRequest {
    /// The text to translate
    pub source_text: String,
    /// Correlation token tagging this request's events
    pub session_id: String,
    /// The secret presented to the endpoint; empty when none is stored
    pub api_key: String,
    /// Model identifier
    pub model: String,
}

/// One event observable by the caller, tagged with the session.
pub enum OutEvent {
    /// A piece of translated text, in arrival order
    Chunk { session_id: String, text: String },
    /// The terminal usage summary; cost in billionths of a dollar
    Usage {
        session_id: String,
        input_tokens: u32,
        output_tokens: u32,
        cost_nanos: u64,
        cached: bool,
    },
    /// The request completed
    Done { session_id: String },
}

/// The session an event carries.
pub open spec fn spec_event_sid(e: OutEvent) -> Seq<char> {
    match e {
        OutEvent::Chunk { session_id, text } => session_id@,
        OutEvent::Usage { session_id, input_tokens, output_tokens, cost_nanos, cached } => session_id@,
        OutEvent::Done { session_id } => session_id@,
    }
}

pub open spec fn spec_is_chunk(e: OutEvent) -> bool {
    e is Chunk
}

pub open spec fn spec_is_usage(e: OutEvent) -> bool {
    e is Usage
}

pub open spec fn spec_is_done(e: OutEvent) -> bool {
    e is Done
}

/// The text a chunk event carries; other events carry none.
pub open spec fn spec_chunk_text(e: OutEvent) -> Seq<char> {
    match e {
        OutEvent::Chunk { session_id, text } => text@,
        OutEvent::Usage { session_id, input_tokens, output_tokens, cost_nanos, cached } => Seq::empty(),
        OutEvent::Done { session_id } => Seq::empty(),
    }
}

/// The concatenation of all chunk texts, in order.
pub open spec fn spec_chunks_text(evs: Seq<OutEvent>) -> Seq<char>
    decreases evs.len(),
{
    if evs.len() == 0 {
        Seq::empty()
    } else {
        spec_chunks_text(evs.drop_last()) + spec_chunk_text(evs.last())
    }
}

/// Every event carries the given session.
pub open spec fn spec_all_sid(evs: Seq<OutEvent>, sid: Seq<char>) -> bool {
    forall|k: int| 0 <= k < evs.len() ==> spec_event_sid(#[trigger] evs[k]) == sid
}

/// Every event is a chunk.
pub open spec fn spec_all_chunks(evs: Seq<OutEvent>) -> bool {
    forall|k: int| 0 <= k < evs.len() ==> spec_is_chunk(#[trigger] evs[k])
}

/// The ordering guarantee: done, if present, is last; usage, if
/// present, is last or sits directly before a final done. So no event
/// ever follows done, and the usage summary precedes done.
pub open spec fn spec_ordered_events(evs: Seq<OutEvent>) -> bool {
    &&& forall|k: int|
        0 <= k < evs.len() ==> (spec_is_done(#[trigger] evs[k]) ==> k == evs.len() - 1)
    &&& forall|k: int|
        0 <= k < evs.len() ==> (spec_is_usage(#[trigger] evs[k]) ==> k == evs.len() - 1 || (k
            == evs.len() - 2 && spec_is_done(evs[evs.len() - 1])))
}

/// Whether a done event appears.
pub open spec fn spec_has_done(evs: Seq<OutEvent>) -> bool {
    exists|k: int| 0 <= k < evs.len() && spec_is_done(#[trigger] evs[k])
}

/// Two cache stores holding the same state.
pub open spec fn spec_cache_same(a: CacheStore, b: CacheStore) -> bool {
    &&& a.entries@ == b.entries@
    &&& a.stats == b.stats
    &&& a.enabled == b.enabled
    &&& a.capacity == b.capacity
}

/// The per-request state machine.
pub struct Orchestrator {
    /// Correlation token for this request's events
    pub session_id: String,
    /// The source text, kept for the cache write
    pub source_text: String,
    /// Model identifier
    pub model: String,
    /// The stream decoder this request owns
    pub decoder: StreamDecoder,
    /// The full translated text accumulated so far
    pub accumulated: String,
    /// The latest usage snapshot observed; last write wins
    pub last_usage: Option<(u32, u32)>,
    /// Set once done was emitted; nothing follows
    pub finished: bool,
}

/// How a request starts: rejected before any work, answered whole from
/// the cache, or proceeding to the network.
pub enum StartOutcome {
    /// Terminal failure; nothing was sent
    Fail(TranslateError),
    /// The full event sequence, served without a network call
    Cached(Vec<OutEvent>),
    /// The request must go out; drive the returned orchestrator
    Proceed(Orchestrator),
}

/// The tail a finished request's events end with: a usage summary whose
/// cost is exactly the cost model's answer for its token counts —
/// the latest observed snapshot, or zero if none ever arrived — and
/// then done.
pub open spec fn spec_finish_shape(
    evs: Seq<OutEvent>,
    new_self: Orchestrator,
    old_self: Orchestrator,
) -> bool {
    &&& evs.len() >= 2
    &&& spec_is_done(evs[evs.len() - 1])
    &&& match evs[evs.len() - 2] {
        OutEvent::Usage { session_id, input_tokens, output_tokens, cost_nanos, cached } => {
            &&& !cached
            &&& cost_nanos == spec_cost_nanos(input_tokens, output_tokens, old_self.model@)
            &&& match new_self.last_usage {
                Some(u) => input_tokens == u.0 && output_tokens == u.1,
                None => input_tokens == 0 && output_tokens == 0,
            }
        },
        _ => false,
    }
}

/// What finishing does to the cache: nothing when no text accumulated
/// or the cache is off; otherwise exactly one store of the accumulated
/// translation under the source's digest and the model.
pub open spec fn spec_finish_cache(
    old_self: Orchestrator,
    new_self: Orchestrator,
    old_cache: CacheStore,
    new_cache: CacheStore,
    now: int,
) -> bool {
    &&& (new_self.accumulated@.len() == 0 ==> spec_cache_same(new_cache, old_cache))
    &&& (new_self.accumulated@.len() > 0 && !old_cache.enabled ==> spec_cache_same(
        new_cache,
        old_cache,
    ))
    &&& (new_self.accumulated@.len() > 0 && old_cache.enabled ==> new_cache.model()
        == spec_store_entries(
        old_cache.model(),
        sha256_hex(old_self.source_text@),
        spec_mask_all(spec_preview_source(old_self.source_text@)),
        new_self.accumulated@,
        old_self.model@,
        now,
        old_cache.capacity as int,
    ) && new_cache.stats.entry_count == new_cache.entries@.len())
}

/// The texts of the chunk events, in order.
pub open spec fn spec_chunk_list(evs: Seq<OutEvent>) -> Seq<Seq<char>>
    decreases evs.len(),
{
    if evs.len() == 0 {
        Seq::empty()
    } else {
        spec_chunk_list(evs.drop_last()) + match evs.last() {
            OutEvent::Chunk { session_id, text } => seq![text@],
            _ => Seq::<Seq<char>>::empty(),
        }
    }
}

/// The streaming state that one request's lines drive: the chunk texts
/// emitted so far, the accumulated translation, the latest usage
/// snapshot, and whether the terminator has been seen.
pub struct StreamRun {
    pub chunks: Seq<Seq<char>>,
    pub accumulated: Seq<char>,
    pub last_usage: Option<(u32, u32)>,
    pub finished: bool,
}

/// What one line does to the streaming state: nothing once finished; a
/// content delta for block zero emits its text and accumulates it, any
/// other block index emits nothing; a usage snapshot overwrites the
/// last one; the terminator finishes; everything else changes nothing.
pub open spec fn spec_run_line(st: StreamRun, l: Seq<char>) -> StreamRun {
    if st.finished {
        st
    } else {
        match spec_line_event(l) {
            Some(ProtocolEventModel::ContentDelta { block_index, text }) => if block_index == 0 {
                StreamRun {
                    chunks: st.chunks.push(text),
                    accumulated: st.accumulated + text,
                    ..st
                }
            } else {
                st
            },
            Some(ProtocolEventModel::UsageUpdate { input_tokens, output_tokens }) => StreamRun {
                last_usage: Some((input_tokens, output_tokens)),
                ..st
            },
            Some(ProtocolEventModel::StreamEnd) => StreamRun { finished: true, ..st },
            Some(ProtocolEventModel::Other) => st,
            None => st,
        }
    }
}

/// The streaming state after a whole sequence of lines, first to last.
pub open spec fn spec_run_lines(st: StreamRun, ls: Seq<Seq<char>>) -> StreamRun
    decreases ls.len(),
{
    if ls.len() == 0 {
        st
    } else {
        spec_run_lines(spec_run_line(st, ls[0]), ls.drop_first())
    }
}

/// A line that is blank after trimming drives the machine nowhere. In
/// particular the empty line left behind when a `\r\n` terminator is
/// split across two reads — each half then ends a line of its own — is
/// unobservable in the emitted events.
pub proof fn lemma_blank_line_inert(st: StreamRun, l: Seq<char>)
    requires
        crate::decoder::spec_trim(l).len() == 0,
    ensures
        spec_run_line(st, l) == st,
{
    assert(spec_line_event(l) is None);
}

/// Running one more line is one more step.
pub proof fn lemma_run_lines_snoc(st: StreamRun, s: Seq<Seq<char>>, l: Seq<char>)
    ensures
        spec_run_lines(st, s.push(l)) == spec_run_line(spec_run_lines(st, s), l),
    decreases s.len(),
{
    if s.len() == 0 {
        assert(s.push(l)[0] == l);
        assert(s.push(l).drop_first() =~= Seq::<Seq<char>>::empty());
        assert(spec_run_lines(st, s) == st);
        assert(spec_run_lines(spec_run_line(st, l), Seq::<Seq<char>>::empty()) == spec_run_line(
            st,
            l,
        ));
    } else {
        assert(s.push(l)[0] == s[0]);
        assert(s.push(l).drop_first() =~= s.drop_first().push(l));
        lemma_run_lines_snoc(spec_run_line(st, s[0]), s.drop_first(), l);
        assert(spec_run_lines(st, s.push(l)) == spec_run_lines(
            spec_run_line(st, s[0]),
            s.drop_first().push(l),
        ));
        assert(spec_run_lines(st, s) == spec_run_lines(spec_run_line(st, s[0]), s.drop_first()));
    }
}

/// A finished state swallows every further line.
pub proof fn lemma_run_lines_finished(st: StreamRun, s: Seq<Seq<char>>)
    requires
        st.finished,
    ensures
        spec_run_lines(st, s) == st,
    decreases s.len(),
{
    if s.len() > 0 {
        assert(spec_run_line(st, s[0]) == st);
        lemma_run_lines_finished(st, s.drop_first());
    }
}

/// A run splits at any point: the whole run equals running the prefix
/// and then the rest.
pub proof fn lemma_run_lines_split(st: StreamRun, s: Seq<Seq<char>>, i: int)
    requires
        0 <= i <= s.len(),
    ensures
        spec_run_lines(st, s) == spec_run_lines(spec_run_lines(st, s.take(i)), s.skip(i)),
    decreases i,
{
    if i == 0 {
        assert(s.take(0) =~= Seq::<Seq<char>>::empty());
        assert(s.skip(0) =~= s);
    } else {
        let st1 = spec_run_line(st, s[0]);
        lemma_run_lines_split(st1, s.drop_first(), i - 1);
        assert(s.take(i)[0] == s[0]);
        assert(s.take(i).drop_first() =~= s.drop_first().take(i - 1));
        assert(s.drop_first().skip(i - 1) =~= s.skip(i));
    }
}

/// The lines one feeding completes: those of the buffered text plus the
/// normalized chunk.
pub open spec fn spec_fed_lines(old_self: Orchestrator, chunk: Seq<char>) -> Seq<Seq<char>> {
    spec_split_lines(old_self.decoder.buffer@ + spec_normalize(chunk))
}

/// The streaming state those lines drive the machine to, starting from
/// where the machine stood.
pub open spec fn spec_fed_run(old_self: Orchestrator, chunk: Seq<char>) -> StreamRun {
    spec_run_lines(
        StreamRun {
            chunks: Seq::empty(),
            accumulated: old_self.accumulated@,
            last_usage: old_self.last_usage,
            finished: false,
        },
        spec_fed_lines(old_self, chunk),
    )
}

/// Everything one feeding step guarantees: identity and counters kept,
/// events well-formed and correctly tagged, and — through the named
/// payload fields — the emitted chunks, the accumulated text, the
/// usage snapshot, the finish, and the decoder's remaining buffer are
/// exactly what the completed lines dictate, with the finish effects
/// exactly once, when the terminator arrived.
pub open spec fn spec_step_frame(
    old_self: Orchestrator,
    new_self: Orchestrator,
    old_cache: CacheStore,
    new_cache: CacheStore,
    evs: Seq<OutEvent>,
    now: int,
) -> bool {
    &&& new_cache.wf()
    &&& new_cache.enabled == old_cache.enabled
    &&& new_cache.capacity == old_cache.capacity
    &&& new_cache.stats.hits == old_cache.stats.hits
    &&& new_cache.stats.misses == old_cache.stats.misses
    &&& new_self.session_id@ == old_self.session_id@
    &&& new_self.source_text@ == old_self.source_text@
    &&& new_self.model@ == old_self.model@
    &&& spec_all_sid(evs, old_self.session_id@)
    &&& spec_ordered_events(evs)
    &&& new_self.finished == spec_has_done(evs)
    &&& new_self.accumulated@ == old_self.accumulated@ + spec_chunks_text(evs)
    &&& (!spec_has_done(evs) ==> spec_all_chunks(evs))
    &&& (!spec_has_done(evs) ==> spec_cache_same(new_cache, old_cache))
    &&& (spec_has_done(evs) ==> spec_finish_shape(evs, new_self, old_self))
    &&& (spec_has_done(evs) ==> spec_finish_cache(old_self, new_self, old_cache, new_cache, now))
}

/// The frame above, plus the tie to the input: through the named
/// payload fields, the emitted chunk texts, the accumulated text, the
/// usage snapshot, the finish, and the decoder's remaining state are
/// exactly what running the completed lines dictates.
pub open spec fn spec_step_post(
    old_self: Orchestrator,
    new_self: Orchestrator,
    old_cache: CacheStore,
    new_cache: CacheStore,
    evs: Seq<OutEvent>,
    chunk: Seq<char>,
    now: int,
) -> bool {
    &&& spec_step_frame(old_self, new_self, old_cache, new_cache, evs, now)
    &&& ({
        let st = spec_fed_run(old_self, chunk);
        &&& spec_chunk_list(evs) == st.chunks
        &&& new_self.accumulated@ == st.accumulated
        &&& new_self.last_usage == st.last_usage
        &&& new_self.finished == st.finished
        &&& new_self.decoder.closed == st.finished
        &&& (!st.finished ==> new_self.decoder.buffer@ == spec_line_rest(
            old_self.decoder.buffer@ + spec_normalize(chunk),
        ))
        &&& (st.finished ==> new_self.decoder.buffer@ == Seq::<char>::empty())
    })
}

impl Orchestrator {
    /// Validates the key, consults the cache, and either fails, serves
    /// the whole answer from the cache, or hands back the state machine
    /// to drive. A missing key is rejected and recorded before any
    /// cache or network activity; a cache hit emits the full text as
    /// one chunk, a zero-cost usage summary marked as cached, and done,
    /// with no network call.
    pub fn start(
        req: &TranslationRequest,
        cache: &mut CacheStore,
        history: &mut ErrorHistory,
        now: i64,
    ) -> (r: StartOutcome)
        requires
            old(cache).wf(),
            0 <= now,
        ensures
            final(cache).wf(),
            final(cache).entries@ == old(cache).entries@,
            final(cache).enabled == old(cache).enabled,
            final(cache).capacity == old(cache).capacity,
            final(cache).stats.entry_count == old(cache).stats.entry_count,
            req.api_key@.len() == 0 ==> ({
                &&& r matches StartOutcome::Fail(e) && e is ApiKeyMissing
                &&& spec_cache_same(*final(cache), *old(cache))
                &&& final(history)@.len() > 0
                &&& final(history)@ == spec_record(old(history)@, final(history)@.last())
                &&& final(history)@.last().error_type@ == spec_kind_name(TranslateError::ApiKeyMissing)
                &&& final(history)@.last().input_length == req.source_text@.len()
                &&& final(history)@.last().model@ == req.model@
                &&& final(history)@.last().timestamp == now
            }),
            req.api_key@.len() > 0 ==> final(history)@ == old(history)@,
            req.api_key@.len() > 0 && !old(cache).enabled ==> r is Proceed && final(cache).stats
                == old(cache).stats,
            req.api_key@.len() > 0 && old(cache).enabled ==> ({
                let found = spec_find_live(
                    old(cache).model(),
                    sha256_hex(req.source_text@),
                    req.model@,
                    now as int,
                );
                match found {
                    Some(e) => {
                        &&& r is Cached
                        &&& final(cache).stats.hits == spec_inc_sat(old(cache).stats.hits)
                        &&& final(cache).stats.misses == old(cache).stats.misses
                    },
                    None => {
                        &&& r is Proceed
                        &&& final(cache).stats.misses == spec_inc_sat(old(cache).stats.misses)
                        &&& final(cache).stats.hits == old(cache).stats.hits
                    },
                }
            }),
            r matches StartOutcome::Cached(evs) ==> ({
                &&& evs@.len() == 3
                &&& spec_all_sid(evs@, req.session_id@)
                &&& spec_ordered_events(evs@)
                &&& (evs@[0] matches OutEvent::Chunk { session_id, text } && (spec_find_live(
                    old(cache).model(),
                    sha256_hex(req.source_text@),
                    req.model@,
                    now as int,
                ) matches Some(e) && text@ == e.text))
                &&& (evs@[1] matches OutEvent::Usage {
                    session_id,
                    input_tokens,
                    output_tokens,
                    cost_nanos,
                    cached,
                } && input_tokens == 0 && output_tokens == 0 && cost_nanos == 0 && cached)
                &&& evs@[2] is Done
            }),
            r matches StartOutcome::Proceed(o) ==> ({
                &&& o.session_id@ == req.session_id@
                &&& o.source_text@ == req.source_text@
                &&& o.model@ == req.model@
                &&& o.accumulated@ == Seq::<char>::empty()
                &&& o.last_usage is None
                &&& !o.finished
                &&& o.decoder.buffer@ == Seq::<char>::empty()
                &&& !o.decoder.closed
            }),
    {
        if req.api_key.as_str().is_empty() {
            let e = TranslateError::ApiKeyMissing;
            let len = req.source_text.as_str().unicode_len();
            record_error(history, &e, len, req.model.as_str(), now);
            return StartOutcome::Fail(e);
        }
        match cache.lookup(req.source_text.as_str(), req.model.as_str(), now) {
            Some(text) => {
                let mut evs: Vec<OutEvent> = Vec::new();
                evs.push(
                    OutEvent::Chunk { session_id: String::from_str(req.session_id.as_str()), text },
                );
                evs.push(
                    OutEvent::Usage {
                        session_id: String::from_str(req.session_id.as_str()),
                        input_tokens: 0,
                        output_tokens: 0,
                        cost_nanos: 0,
                        cached: true,
                    },
                );
                evs.push(OutEvent::Done { session_id: String::from_str(req.session_id.as_str()) });
                StartOutcome::Cached(evs)
            },
            None => StartOutcome::Proceed(
                Orchestrator {
                    session_id: String::from_str(req.session_id.as_str()),
                    source_text: String::from_str(req.source_text.as_str()),
                    model: String::from_str(req.model.as_str()),
                    decoder: StreamDecoder::new(),
                    accumulated: String::new(),
                    last_usage: None,
                    finished: false,
                },
            ),
        }
    }

    /// The machine's internal invariant: the decoder is closed exactly
    /// when the machine has finished. `start` establishes it and every
    /// step preserves it.
    pub open spec fn wf(&self) -> bool {
        self.decoder.closed == self.finished
    }

    /// Feeds one received chunk of the response stream. Complete lines
    /// are decoded; content deltas for block zero are emitted in order
    /// and accumulated; usage snapshots are remembered, last write
    /// wins; the terminator writes the accumulated text to the cache,
    /// emits the usage summary and done, and stops the machine,
    /// discarding whatever else was buffered. A finished machine
    /// swallows everything.
    pub fn on_bytes(&mut self, chunk: &str, cache: &mut CacheStore, now: i64) -> (r: Vec<OutEvent>)
        requires
            old(self).wf(),
            old(cache).wf(),
            0 <= now,
        ensures
            final(self).wf(),
            old(self).finished ==> *final(self) == *old(self) && spec_cache_same(
                *final(cache),
                *old(cache),
            ) && r@.len() == 0 && final(cache).wf(),
            !old(self).finished ==> spec_step_post(
                *old(self),
                *final(self),
                *old(cache),
                *final(cache),
                r@,
                chunk@,
                now as int,
            ),
    {
        let mut events: Vec<OutEvent> = Vec::new();
        if self.finished {
            return events;
        }
        let ghost ls = spec_fed_lines(*old(self), chunk@);
        let ghost st0 = StreamRun {
            chunks: Seq::empty(),
            accumulated: old(self).accumulated@,
            last_usage: old(self).last_usage,
            finished: false,
        };
        let lines = self.decoder.feed(chunk);
        let n = lines.len();
        proof {
            assert(spec_chunks_text(events@) =~= Seq::<char>::empty());
            assert(self.accumulated@ + Seq::<char>::empty() =~= self.accumulated@);
            assert(lines@.map_values(|l: String| l@) == ls);
            assert(n == ls.len());
            assert(spec_chunk_list(events@) =~= Seq::<Seq<char>>::empty());
            assert(ls.take(0) =~= Seq::<Seq<char>>::empty());
            assert(spec_run_lines(st0, ls.take(0)) == StreamRun {
                chunks: spec_chunk_list(events@),
                accumulated: self.accumulated@,
                last_usage: self.last_usage,
                finished: self.finished,
            });
        }
        let mut i: usize = 0;
        while i < n && !self.finished
            invariant
                0 <= now,
                i <= n,
                n == lines@.len(),
                n == ls.len(),
                old(self).finished == false,
                cache.wf(),
                lines@.map_values(|l: String| l@) == ls,
                ls == spec_fed_lines(*old(self), chunk@),
                st0 == (StreamRun {
                    chunks: Seq::<Seq<char>>::empty(),
                    accumulated: old(self).accumulated@,
                    last_usage: old(self).last_usage,
                    finished: false,
                }),
                spec_run_lines(st0, ls.take(i as int)) == (StreamRun {
                    chunks: spec_chunk_list(events@),
                    accumulated: self.accumulated@,
                    last_usage: self.last_usage,
                    finished: self.finished,
                }),
                self.decoder.closed == self.finished,
                !self.finished ==> self.decoder.buffer@ == spec_line_rest(
                    old(self).decoder.buffer@ + spec_normalize(chunk@),
                ),
                self.finished ==> self.decoder.buffer@ == Seq::<char>::empty(),
                spec_step_frame(*old(self), *self, *old(cache), *cache, events@, now as int),
            decreases n - i,
        {
            let ghost evs0 = events@;
            let ghost self0 = *self;
            let ghost st_i = spec_run_lines(st0, ls.take(i as int));
            proof {
                assert(ls.take(i + 1 as int) =~= ls.take(i as int).push(ls[i as int]));
                lemma_run_lines_snoc(st0, ls.take(i as int), ls[i as int]);
                assert(lines@[i as int]@ == ls[i as int]);
            }
            match decode_line(lines[i].as_str()) {
                Some(ev) => {
                    match ev {
                        ProtocolEvent::ContentDelta { block_index, text } => {
                            if block_index == 0 {
                                self.accumulated.append(text.as_str());
                                let ghost t = text@;
                                events.push(
                                    OutEvent::Chunk {
                                        session_id: String::from_str(self.session_id.as_str()),
                                        text,
                                    },
                                );
                                proof {
                                    assert(events@.drop_last() =~= evs0);
                                    assert(spec_chunks_text(events@) == spec_chunks_text(evs0) + t);
                                    assert(self.accumulated@ =~= old(self).accumulated@ + (
                                    spec_chunks_text(evs0) + t));
                                    assert(spec_chunk_list(events@) == spec_chunk_list(evs0)
                                        + seq![t]);
                                    assert(spec_chunk_list(evs0) + seq![t] =~= spec_chunk_list(
                                        evs0,
                                    ).push(t));
                                    assert forall|k: int|
                                        0 <= k < events@.len() implies spec_is_chunk(
                                        #[trigger] events@[k],
                                    ) && spec_event_sid(events@[k]) == old(self).session_id@ by {
                                        if k < evs0.len() {
                                            assert(events@[k] == evs0[k]);
                                        }
                                    }
                                    assert(!spec_has_done(events@));
                                }
                            }
                        },
                        ProtocolEvent::UsageUpdate { input_tokens, output_tokens } => {
                            self.last_usage = Some((input_tokens, output_tokens));
                        },
                        ProtocolEvent::StreamEnd => {
                            self.decoder.close();
                            if self.accumulated.as_str().unicode_len() > 0 {
                                let ghost cache0 = *cache;
                                cache.store(
                                    self.source_text.as_str(),
                                    self.accumulated.as_str(),
                                    self.model.as_str(),
                                    now,
                                );
                                proof {
                                    assert(cache0.model() == old(cache).model());
                                }
                            }
                            let u_in: u32;
                            let u_out: u32;
                            match self.last_usage {
                                Some(u) => {
                                    u_in = u.0;
                                    u_out = u.1;
                                },
                                None => {
                                    u_in = 0;
                                    u_out = 0;
                                },
                            }
                            let cost = calculate_cost(u_in, u_out, self.model.as_str());
                            events.push(
                                OutEvent::Usage {
                                    session_id: String::from_str(self.session_id.as_str()),
                                    input_tokens: u_in,
                                    output_tokens: u_out,
                                    cost_nanos: cost,
                                    cached: false,
                                },
                            );
                            events.push(
                                OutEvent::Done {
                                    session_id: String::from_str(self.session_id.as_str()),
                                },
                            );
                            self.finished = true;
                            proof {
                                let evs = events@;
                                assert(evs.len() == evs0.len() + 2);
                                assert(evs[evs.len() - 1] is Done);
                                assert(evs[evs.len() - 2] is Usage);
                                assert(evs.drop_last().drop_last() =~= evs0);
                                assert(spec_chunks_text(evs.drop_last()) == spec_chunks_text(evs0));
                                assert(spec_chunks_text(evs) == spec_chunks_text(evs0));
                                assert(spec_chunk_list(evs0) + Seq::<Seq<char>>::empty()
                                    =~= spec_chunk_list(evs0));
                                assert(spec_chunk_list(evs.drop_last()) == spec_chunk_list(evs0));
                                assert(spec_chunk_list(evs) == spec_chunk_list(evs.drop_last()));
                                assert(self.accumulated@ == old(self).accumulated@
                                    + spec_chunks_text(evs));
                                assert(spec_has_done(evs));
                                assert forall|k: int|
                                    0 <= k < evs.len() implies spec_event_sid(#[trigger] evs[k])
                                    == old(self).session_id@ by {
                                    if k < evs0.len() {
                                        assert(evs[k] == evs0[k]);
                                    }
                                }
                                assert forall|k: int|
                                    0 <= k < evs.len() && spec_is_done(#[trigger] evs[k]) implies k
                                    == evs.len() - 1 by {
                                    if k < evs0.len() {
                                        assert(evs[k] == evs0[k]);
                                        assert(spec_is_chunk(evs0[k]));
                                    }
                                }
                                assert forall|k: int|
                                    0 <= k < evs.len() && spec_is_usage(#[trigger] evs[k]) implies k
                                    == evs.len() - 2 by {
                                    if k < evs0.len() {
                                        assert(evs[k] == evs0[k]);
                                        assert(spec_is_chunk(evs0[k]));
                                    }
                                }
                            }
                        },
                        ProtocolEvent::Other => {
                        },
                    }
                },
                None => {
                },
            }
            proof {
                assert(spec_run_lines(st0, ls.take(i + 1 as int)) == (StreamRun {
                    chunks: spec_chunk_list(events@),
                    accumulated: self.accumulated@,
                    last_usage: self.last_usage,
                    finished: self.finished,
                }));
            }
            i = i + 1;
        }
        proof {
            let cur = StreamRun {
                chunks: spec_chunk_list(events@),
                accumulated: self.accumulated@,
                last_usage: self.last_usage,
                finished: self.finished,
            };
            if self.finished {
                lemma_run_lines_split(st0, ls, i as int);
                lemma_run_lines_finished(cur, ls.skip(i as int));
            } else {
                assert(ls.take(i as int) =~= ls);
            }
            assert(spec_fed_run(*old(self), chunk@) == cur);
        }
        events
    }

    /// The peer closed the stream. After the terminator this is the
    /// expected quiet end; without it the response was incomplete, a
    /// reportable failure that is recorded for diagnostics.
    pub fn on_end(&self, history: &mut ErrorHistory, now: i64) -> (r: Result<(), TranslateError>)
        ensures
            self.finished ==> r is Ok && final(history)@ == old(history)@,
            !self.finished ==> ({
                &&& r matches Err(e) && e is IncompleteResponse
                &&& final(history)@.len() > 0
                &&& final(history)@ == spec_record(old(history)@, final(history)@.last())
                &&& final(history)@.last().error_type@ == spec_kind_name(
                    TranslateError::IncompleteResponse,
                )
                &&& final(history)@.last().error_message@ == spec_user_message(
                    TranslateError::IncompleteResponse,
                )
                &&& final(history)@.last().input_length == self.source_text@.len()
                &&& final(history)@.last().model@ == self.model@
                &&& final(history)@.last().timestamp == now
            }),
    {
        if self.finished {
            Ok(())
        } else {
            let e = TranslateError::IncompleteResponse;
            let len = self.source_text.as_str().unicode_len();
            record_error(history, &e, len, self.model.as_str(), now);
            Err(e)
        }
    }
}

/// Classifies a non-success HTTP response and records it: the server's
/// message is taken only from the body's `error.message` field, the
/// status decides the kind — 401 authentication, 429 rate limit with
/// the retry hint, 529 overload, anything else an API error — and the
/// failure is recorded with the input's length, never its content.
pub fn classify_and_record_http_error(
    status: u16,
    retry_after_secs: Option<u64>,
    body: &str,
    input_length: usize,
    model: &str,
    history: &mut ErrorHistory,
    now: i64,
) -> (r: TranslateError)
    requires
        !spec_is_success_status(status),
    ensures
        status == 401 ==> (r matches TranslateError::AuthenticationFailed { message } && message@
            == spec_api_error_message(body@)),
        status == 429 ==> r == (TranslateError::RateLimitExceeded { retry_after_secs }),
        status == 529 ==> r is Overloaded,
        status != 401 && status != 429 && status != 529 ==> (r matches TranslateError::ApiError {
            status: s,
            message,
        } && s == status && message@ == spec_api_error_message(body@)),
        final(history)@.len() > 0,
        final(history)@ == spec_record(old(history)@, final(history)@.last()),
        final(history)@.last().error_type@ == spec_kind_name(r),
        final(history)@.last().error_message@ == spec_user_message(r),
        final(history)@.last().input_length == input_length,
        final(history)@.last().model@ == model@,
        final(history)@.last().timestamp == now,
{
    let msg = parse_api_error_message(body);
    let e = match classify_http_status(status, retry_after_secs, msg) {
        Some(e) => e,
        None => {
            proof {
                assert(false);
            }
            TranslateError::Overloaded
        },
    };
    record_error(history, &e, input_length, model, now);
    e
}

/// Completes a one-shot (non-streaming) request from its response body:
/// the named content blocks' texts joined in order, written to the
/// cache exactly when non-empty — the one-shot twin of the streaming
/// terminator's cache write. A body without content blocks is a parse
/// error and leaves the cache untouched.
pub fn finish_once(
    body: &str,
    source_text: &str,
    model: &str,
    cache: &mut CacheStore,
    now: i64,
) -> (r: Result<String, TranslateError>)
    requires
        old(cache).wf(),
        0 <= now,
    ensures
        final(cache).wf(),
        final(cache).enabled == old(cache).enabled,
        final(cache).capacity == old(cache).capacity,
        final(cache).stats.hits == old(cache).stats.hits,
        final(cache).stats.misses == old(cache).stats.misses,
        match content_texts_of(body@) {
            Some(ts) => {
                &&& r matches Ok(t) && t@ == spec_join_texts(ts)
                &&& (spec_join_texts(ts).len() == 0 ==> spec_cache_same(*final(cache), *old(cache)))
                &&& (spec_join_texts(ts).len() > 0 && !old(cache).enabled ==> spec_cache_same(
                    *final(cache),
                    *old(cache),
                ))
                &&& (spec_join_texts(ts).len() > 0 && old(cache).enabled ==> final(cache).model()
                    == spec_store_entries(
                    old(cache).model(),
                    sha256_hex(source_text@),
                    spec_mask_all(spec_preview_source(source_text@)),
                    spec_join_texts(ts),
                    model@,
                    now as int,
                    old(cache).capacity as int,
                ) && final(cache).stats.entry_count == final(cache).entries@.len())
            },
            None => r matches Err(e) && e is ParseError && spec_cache_same(
                *final(cache),
                *old(cache),
            ),
        },
{
    let translated = match parse_once_response(body) {
        Ok(t) => t,
        Err(e) => {
            return Err(e);
        },
    };
    if translated.as_str().unicode_len() > 0 {
        cache.store(source_text, translated.as_str(), model, now);
    }
    Ok(translated)
}

} // verus!

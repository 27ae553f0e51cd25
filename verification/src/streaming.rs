//! The streams of answers, step by step: bytes come in, items go out.
//!
//! A stream reads bytes until they complete events, waits until these are parsed, hands
//! out what they say, and reads on, until its answer is complete or something fails.

use crate::anthropic;
use crate::anthropic::{
    anthropic_stream_end, anthropic_transport_lost, process_anthropic_payloads, AnthropicPayload,
    AnthropicToolCallAccumulator,
};
use crate::gemini;
use crate::gemini::{
    gemini_stream_end, gemini_transport_lost, process_gemini_payloads, GeminiPayload,
    GeminiPayloadModel,
};
use crate::model::{
    ProviderError, ProviderErrorModel, ProviderId, StreamItem, StreamItemModel,
};
use crate::openai;
use crate::openai::{
    emit_stream_payloads, openai_stream_end, openai_transport_lost, OpenAIPayload,
    OpenAIPayloadModel, ToolCallAccumulator,
};
use crate::responses;
use crate::responses::{
    process_responses_events, responses_transport_lost, ChainingState, ResponsesEventKind,
    ResponsesPayload, ResponsesToolCallAccumulator,
};
use crate::sse;
use crate::sse::{SseDataParser, SseEvent, SseEventModel, SseEventParser};
use crate::stream::{
    last_events, last_payloads, stream_events, stream_payloads, BatchEnd, BatchEndModel,
    StreamBatch,
};
use crate::text;
use vstd::prelude::*;

verus! {

/// How far the reading of an answer is.
#[derive(Debug, PartialEq, Eq)]
pub enum ReadStage<T> {
    /// More bytes are to come.
    Reading,
    /// These events are to be parsed; `last` says that no bytes come behind them.
    Parsing { events: Vec<T>, last: bool },
    Over,
}

pub enum ReadStageModel<M> {
    Reading,
    Parsing { events: Seq<M>, last: bool },
    Over,
}

impl<T: DeepView> DeepView for ReadStage<T> {
    type V = ReadStageModel<T::V>;

    open spec fn deep_view(&self) -> ReadStageModel<T::V> {
        match *self {
            ReadStage::Reading => ReadStageModel::Reading,
            ReadStage::Parsing { events, last } => ReadStageModel::Parsing {
                events: events.deep_view(),
                last,
            },
            ReadStage::Over => ReadStageModel::Over,
        }
    }
}

/// What happens to a stream.
#[derive(Debug, PartialEq, Eq)]
pub enum StreamInput<P> {
    /// The next bytes of the answer.
    Chunk(Vec<u8>),
    /// The answer has no more bytes.
    End,
    /// The transport failed.
    Lost(String),
    /// What the events that were to be parsed say, one for one.
    Parsed(Vec<P>),
}

pub enum StreamInputModel<M> {
    Chunk(Seq<u8>),
    End,
    Lost(Seq<char>),
    Parsed(Seq<M>),
}

impl<P: DeepView> DeepView for StreamInput<P> {
    type V = StreamInputModel<P::V>;

    open spec fn deep_view(&self) -> StreamInputModel<P::V> {
        match *self {
            StreamInput::Chunk(bytes) => StreamInputModel::Chunk(bytes@),
            StreamInput::End => StreamInputModel::End,
            StreamInput::Lost(error) => StreamInputModel::Lost(error@),
            StreamInput::Parsed(payloads) => StreamInputModel::Parsed(payloads.deep_view()),
        }
    }
}

/// What a stream asks for.
#[derive(Debug, PartialEq)]
pub enum StreamOutput {
    /// Parse the events of the stage.
    Parse,
    /// Hand these items out, and then the error, if there is one.
    Hand { items: Vec<StreamItem>, failure: Option<ProviderError> },
    /// What happened has no place at this stage.
    Nothing,
}

pub enum StreamOutputModel {
    Parse,
    Hand { items: Seq<StreamItemModel>, failure: Option<ProviderErrorModel> },
    Nothing,
}

impl DeepView for StreamOutput {
    type V = StreamOutputModel;

    open spec fn deep_view(&self) -> StreamOutputModel {
        match *self {
            StreamOutput::Parse => StreamOutputModel::Parse,
            StreamOutput::Hand { items, failure } => StreamOutputModel::Hand {
                items: items.deep_view(),
                failure: failure.deep_view(),
            },
            StreamOutput::Nothing => StreamOutputModel::Nothing,
        }
    }
}

/// What the bytes of an answer lead to: the events that they complete, or the end of the
/// stream where they are no text.
pub open spec fn after_bytes<M>(
    output: Result<Seq<M>, Seq<char>>,
    last: bool,
    provider: Seq<char>,
) -> (ReadStageModel<M>, StreamOutputModel) {
    match output {
        Ok(events) => (ReadStageModel::Parsing { events, last }, StreamOutputModel::Parse),
        Err(message) => (
            ReadStageModel::Over,
            StreamOutputModel::Hand {
                items: Seq::empty(),
                failure: Some(ProviderErrorModel::ResponseParse { provider, message }),
            },
        ),
    }
}

fn begin_parsing<T: DeepView>(read: Result<Vec<T>, ProviderError>, last: bool) -> (r: (
    ReadStage<T>,
    StreamOutput,
))
    ensures
        match read {
            Ok(events) => {
                &&& r.0.deep_view() == (ReadStageModel::Parsing { events: events.deep_view(), last })
                &&& r.1.deep_view() is Parse
            },
            Err(error) => {
                &&& r.0.deep_view() is Over
                &&& r.1.deep_view() == (StreamOutputModel::Hand {
                    items: Seq::empty(),
                    failure: Some(error.deep_view()),
                })
            },
        },
{
    match read {
        Ok(events) => (ReadStage::Parsing { events, last }, StreamOutput::Parse),
        Err(error) => {
            let items: Vec<StreamItem> = Vec::new();
            proof {
                assert(items.deep_view() =~= Seq::<StreamItemModel>::empty());
            }
            (ReadStage::Over, StreamOutput::Hand { items, failure: Some(error) })
        },
    }
}

/// What the events of a stream lead to: their items go out, and the stream goes on
/// reading, or it is over. `at_end` is what goes out behind the last events if nothing
/// ended the answer.
pub open spec fn after_events<M>(
    items: Seq<StreamItemModel>,
    end: BatchEndModel,
    last: bool,
    at_end: Option<StreamItemModel>,
) -> (ReadStageModel<M>, StreamOutputModel) {
    match end {
        BatchEndModel::Open => if last {
            (
                ReadStageModel::Over,
                StreamOutputModel::Hand {
                    items: match at_end {
                        Some(item) => items.push(item),
                        None => items,
                    },
                    failure: None,
                },
            )
        } else {
            (ReadStageModel::Reading, StreamOutputModel::Hand { items, failure: None })
        },
        BatchEndModel::Done => (
            ReadStageModel::Over,
            StreamOutputModel::Hand { items, failure: None },
        ),
        BatchEndModel::Failed(error) => (
            ReadStageModel::Over,
            StreamOutputModel::Hand { items, failure: Some(error) },
        ),
    }
}

fn hand_out<T: DeepView>(batch: StreamBatch, last: bool, at_end: Option<StreamItem>) -> (r: (
    ReadStage<T>,
    StreamOutput,
))
    ensures
        ({
            let expected = after_events::<T::V>(
                batch.items.deep_view(),
                batch.end.deep_view(),
                last,
                at_end.deep_view(),
            );
            r.0.deep_view() == expected.0 && r.1.deep_view() == expected.1
        }),
{
    let mut items = batch.items;
    let ghost before = items.deep_view();
    match batch.end {
        BatchEnd::Open => if last {
            if let Some(item) = at_end {
                let ghost model = item.deep_view();
                items.push(item);
                proof {
                    assert(items.deep_view() =~= before.push(model));
                }
            }
            (ReadStage::Over, StreamOutput::Hand { items, failure: None })
        } else {
            (ReadStage::Reading, StreamOutput::Hand { items, failure: None })
        },
        BatchEnd::Done => (ReadStage::Over, StreamOutput::Hand { items, failure: None }),
        BatchEnd::Failed(error) => (
            ReadStage::Over,
            StreamOutput::Hand { items, failure: Some(error) },
        ),
    }
}

/// A lost connection goes out, and the stream is over.
pub open spec fn after_loss<M>(lost: StreamItemModel) -> (ReadStageModel<M>, StreamOutputModel) {
    (ReadStageModel::Over, StreamOutputModel::Hand { items: seq![lost], failure: None })
}

fn lose<T: DeepView>(lost: StreamItem) -> (r: (ReadStage<T>, StreamOutput))
    ensures
        r.0.deep_view() == after_loss::<T::V>(lost.deep_view()).0,
        r.1.deep_view() == after_loss::<T::V>(lost.deep_view()).1,
{
    let ghost model = lost.deep_view();
    let mut items: Vec<StreamItem> = Vec::new();
    items.push(lost);
    proof {
        assert(items.deep_view() =~= seq![model]);
    }
    (ReadStage::Over, StreamOutput::Hand { items, failure: None })
}

/// The items that go out.
pub open spec fn items_of(output: StreamOutputModel) -> Seq<StreamItemModel> {
    match output {
        StreamOutputModel::Hand { items, .. } => items,
        _ => Seq::empty(),
    }
}

/// The error that goes out.
pub open spec fn failure_in(output: StreamOutputModel) -> Option<ProviderErrorModel> {
    match output {
        StreamOutputModel::Hand { failure, .. } => failure,
        _ => None,
    }
}

/// The texts of events.
pub open spec fn texts_in(output: Result<Seq<SseEventModel>, Seq<char>>) -> Result<
    Seq<Seq<char>>,
    Seq<char>,
> {
    match output {
        Ok(events) => Ok(sse::payloads_of(events)),
        Err(message) => Err(message),
    }
}

/// What a payload can be whose text is that.
pub open spec fn openai_reads(event: Seq<char>, payload: OpenAIPayloadModel) -> bool {
    let inner = text::trimmed(event);
    if inner.len() == 0 {
        payload is Empty
    } else if inner == "[DONE]"@ {
        payload is Done
    } else {
        payload is Chunk || payload is Invalid
    }
}

/// A stream of an answer of OpenAI.
pub struct OpenAIStream {
    pub provider: ProviderId,
    pub parser: SseDataParser,
    pub accumulator: ToolCallAccumulator,
    pub stage: ReadStage<String>,
}

pub struct OpenAIStreamModel {
    pub provider: Seq<char>,
    pub sse: sse::SseState,
    pub entries: Map<usize, openai::CallSoFar>,
    pub stage: ReadStageModel<Seq<char>>,
}

impl DeepView for OpenAIStream {
    type V = OpenAIStreamModel;

    open spec fn deep_view(&self) -> OpenAIStreamModel {
        OpenAIStreamModel {
            provider: self.provider.deep_view(),
            sse: self.parser.state(),
            entries: self.accumulator.entries(),
            stage: self.stage.deep_view(),
        }
    }
}

/// What a stream of OpenAI does about what happens to it.
pub open spec fn openai_stream_step(
    state: OpenAIStreamModel,
    input: StreamInputModel<OpenAIPayloadModel>,
) -> (OpenAIStreamModel, StreamOutputModel) {
    match (state.stage, input) {
        (ReadStageModel::Reading, StreamInputModel::Chunk(bytes)) => {
            let step = sse::feed(state.sse, bytes, false);
            let (stage, output) = after_bytes(texts_in(step.output), false, state.provider);
            (OpenAIStreamModel { sse: step.state, stage, ..state }, output)
        },
        (ReadStageModel::Reading, StreamInputModel::End) => {
            let (stage, output) = after_bytes(
                texts_in(sse::finished(state.sse, false)),
                true,
                state.provider,
            );
            (OpenAIStreamModel { sse: sse::initial_state(), stage, ..state }, output)
        },
        (ReadStageModel::Reading, StreamInputModel::Lost(error)) => {
            let (stage, output) = after_loss(
                StreamItemModel::ConnectionLost("OpenAI stream transport dropped: "@ + error),
            );
            (OpenAIStreamModel { stage, ..state }, output)
        },
        (ReadStageModel::Parsing { last, .. }, StreamInputModel::Parsed(payloads)) => {
            let batch = openai::openai_batch(state.entries, payloads, state.provider);
            let (stage, output) = after_events(
                batch.items,
                batch.end,
                last,
                Some(StreamItemModel::ConnectionLost("OpenAI stream ended before [DONE] sentinel"@)),
            );
            (OpenAIStreamModel { entries: batch.entries, stage, ..state }, output)
        },
        _ => (state, StreamOutputModel::Nothing),
    }
}

impl OpenAIStream {
    /// A stream that nothing has been read of.
    pub fn new(provider: ProviderId) -> (r: Self)
        ensures
            r.deep_view() == (OpenAIStreamModel {
                provider: provider.deep_view(),
                sse: sse::initial_state(),
                entries: Map::empty(),
                stage: ReadStageModel::Reading,
            }),
    {
        OpenAIStream {
            provider,
            parser: SseDataParser::default(),
            accumulator: ToolCallAccumulator::default(),
            stage: ReadStage::Reading,
        }
    }

    /// Takes what happens to the stream, and says what it asks for.
    pub fn step(self, input: StreamInput<OpenAIPayload>) -> (r: (Self, StreamOutput))
        requires
            self.stage matches ReadStage::Parsing { events, .. } ==> (
            input matches StreamInput::Parsed(payloads) ==> payloads@.len() == events@.len() && (
            forall|i: int|
                0 <= i < events@.len() ==> #[trigger] openai_reads(
                    events.deep_view()[i],
                    payloads.deep_view()[i],
                ))),
        ensures
            r.0.deep_view() == openai_stream_step(self.deep_view(), input.deep_view()).0,
            r.1.deep_view() == openai_stream_step(self.deep_view(), input.deep_view()).1,
    {
        let provider = self.provider;
        let mut parser = self.parser;
        let mut accumulator = self.accumulator;
        match self.stage {
            ReadStage::Reading => match input {
                StreamInput::Chunk(bytes) => {
                    let read = stream_payloads(&mut parser, bytes.as_slice(), &provider);
                    let (stage, output) = begin_parsing(read, false);
                    (OpenAIStream { provider, parser, accumulator, stage }, output)
                },
                StreamInput::End => {
                    let read = last_payloads(parser, &provider);
                    let (stage, output) = begin_parsing(read, true);
                    let parser = SseDataParser::default();
                    (OpenAIStream { provider, parser, accumulator, stage }, output)
                },
                StreamInput::Lost(error) => {
                    let (stage, output) = lose(openai_transport_lost(error.as_str()));
                    (OpenAIStream { provider, parser, accumulator, stage }, output)
                },
                StreamInput::Parsed(_) => (
                    OpenAIStream { provider, parser, accumulator, stage: ReadStage::Reading },
                    StreamOutput::Nothing,
                ),
            },
            ReadStage::Parsing { events, last } => match input {
                StreamInput::Parsed(payloads) => {
                    let batch = emit_stream_payloads(payloads, &provider, &mut accumulator);
                    let at_end = openai_stream_end(&batch.end);
                    let (stage, output) = hand_out(batch, last, at_end);
                    (OpenAIStream { provider, parser, accumulator, stage }, output)
                },
                _ => (
                    OpenAIStream {
                        provider,
                        parser,
                        accumulator,
                        stage: ReadStage::Parsing { events, last },
                    },
                    StreamOutput::Nothing,
                ),
            },
            ReadStage::Over => (
                OpenAIStream { provider, parser, accumulator, stage: ReadStage::Over },
                StreamOutput::Nothing,
            ),
        }
    }
}

proof fn lemma_openai_batch_splits(
    entries: Map<usize, openai::CallSoFar>,
    first: Seq<OpenAIPayloadModel>,
    second: Seq<OpenAIPayloadModel>,
    provider: Seq<char>,
)
    ensures
        ({
            let one = openai::openai_batch(entries, first, provider);
            let both = openai::openai_batch(entries, first + second, provider);
            if one.end !is Open {
                both == one
            } else {
                let two = openai::openai_batch(one.entries, second, provider);
                &&& both.end == two.end
                &&& both.items == one.items + two.items
                &&& both.entries == two.entries
            }
        }),
    decreases second.len(),
{
    let whole = first + second;
    if second.len() == 0 {
        assert(whole =~= first);
        let one = openai::openai_batch(entries, first, provider);
        assert(one.items + Seq::<StreamItemModel>::empty() =~= one.items);
    } else {
        lemma_openai_batch_splits(entries, first, second.drop_last(), provider);
        assert(whole.drop_last() =~= first + second.drop_last());
        assert(whole.last() == second.last());
        let one = openai::openai_batch(entries, first, provider);
        if one.end is Open {
            let before = openai::openai_batch(one.entries, second.drop_last(), provider);
            let two = openai::openai_batch(one.entries, second, provider);
            if before.end is Open {
                let both = openai::openai_batch(entries, whole, provider);
                assert(both.items =~= one.items + two.items);
            }
        }
    }
}

/// What a stream of OpenAI hands out of some bytes, where `parse` is how events are parsed.
pub open spec fn openai_fed(
    state: OpenAIStreamModel,
    bytes: Seq<u8>,
    parse: spec_fn(Seq<char>) -> OpenAIPayloadModel,
) -> (OpenAIStreamModel, StreamOutputModel) {
    let (read, output) = openai_stream_step(state, StreamInputModel::Chunk(bytes));
    match read.stage {
        ReadStageModel::Parsing { events, .. } => openai_stream_step(
            read,
            StreamInputModel::Parsed(events.map_values(parse)),
        ),
        _ => (read, output),
    }
}

/// However the bytes of an answer of OpenAI are cut into chunks, the same items and the same
/// error go out, and the stream is in the same state. An answer that is not text is left
/// out: of a chunk with a fault in it nothing goes out, not even what stands before the
/// fault.
pub proof fn law_openai_chunks_do_not_matter(
    state: OpenAIStreamModel,
    first: Seq<u8>,
    second: Seq<u8>,
    parse: spec_fn(Seq<char>) -> OpenAIPayloadModel,
)
    requires
        state.stage is Reading,
        sse::feed(state.sse, first + second, false).output is Ok,
    ensures
        ({
            let (one, output) = openai_fed(state, first, parse);
            let (two, more) = openai_fed(one, second, parse);
            let (both, all) = openai_fed(state, first + second, parse);
            &&& items_of(all) == items_of(output) + items_of(more)
            &&& failure_in(all) == if failure_in(output) is Some {
                failure_in(output)
            } else {
                failure_in(more)
            }
            &&& both.stage == two.stage
            &&& both.entries == two.entries
            &&& two.stage is Reading ==> both.sse == two.sse
        }),
{
    sse::law_chunks_do_not_matter(state.sse, first, second, false);
    let fed = sse::feed(state.sse, first, false);
    let rest = sse::feed(fed.state, second, false);
    let (one, output) = openai_fed(state, first, parse);
    let (both, all) = openai_fed(state, first + second, parse);
    let p = sse::payloads_of(fed.output->Ok_0).map_values(parse);
    let q = sse::payloads_of(rest.output->Ok_0).map_values(parse);
    assert(sse::payloads_of(fed.output->Ok_0 + rest.output->Ok_0).map_values(parse) =~= p + q);
    lemma_openai_batch_splits(state.entries, p, q, state.provider);
    assert(items_of(output) + Seq::<StreamItemModel>::empty() =~= items_of(output));
}

/// What a payload can be whose text is that.
pub open spec fn anthropic_reads(event: Seq<char>, payload: anthropic::PayloadModel) -> bool {
    text::trimmed(event).len() == 0 ==> payload is Nothing
}

/// A stream of an answer of Anthropic.
pub struct AnthropicStream {
    pub provider: ProviderId,
    pub parser: SseDataParser,
    pub accumulator: AnthropicToolCallAccumulator,
    pub input_tokens: Option<u64>,
    pub stage: ReadStage<String>,
}

pub struct AnthropicStreamModel {
    pub provider: Seq<char>,
    pub sse: sse::SseState,
    pub remembered: anthropic::StreamState,
    pub stage: ReadStageModel<Seq<char>>,
}

impl DeepView for AnthropicStream {
    type V = AnthropicStreamModel;

    open spec fn deep_view(&self) -> AnthropicStreamModel {
        AnthropicStreamModel {
            provider: self.provider.deep_view(),
            sse: self.parser.state(),
            remembered: anthropic::StreamState {
                calls: self.accumulator.model(),
                input_tokens: self.input_tokens,
            },
            stage: self.stage.deep_view(),
        }
    }
}

/// What a stream of Anthropic does about what happens to it.
pub open spec fn anthropic_stream_step(
    state: AnthropicStreamModel,
    input: StreamInputModel<anthropic::PayloadModel>,
) -> (AnthropicStreamModel, StreamOutputModel) {
    match (state.stage, input) {
        (ReadStageModel::Reading, StreamInputModel::Chunk(bytes)) => {
            let step = sse::feed(state.sse, bytes, false);
            let (stage, output) = after_bytes(texts_in(step.output), false, state.provider);
            (AnthropicStreamModel { sse: step.state, stage, ..state }, output)
        },
        (ReadStageModel::Reading, StreamInputModel::End) => {
            let (stage, output) = after_bytes(
                texts_in(sse::finished(state.sse, false)),
                true,
                state.provider,
            );
            (AnthropicStreamModel { sse: sse::initial_state(), stage, ..state }, output)
        },
        (ReadStageModel::Reading, StreamInputModel::Lost(error)) => {
            let (stage, output) = after_loss(
                StreamItemModel::ConnectionLost("Anthropic stream transport dropped: "@ + error),
            );
            (AnthropicStreamModel { stage, ..state }, output)
        },
        (ReadStageModel::Parsing { last, .. }, StreamInputModel::Parsed(payloads)) => {
            let batch = anthropic::anthropic_batch(state.remembered, payloads, state.provider);
            let (stage, output) = after_events(
                batch.items,
                batch.end,
                last,
                Some(StreamItemModel::ConnectionLost("Anthropic stream ended before message_stop"@)),
            );
            (AnthropicStreamModel { remembered: batch.state, stage, ..state }, output)
        },
        _ => (state, StreamOutputModel::Nothing),
    }
}

impl AnthropicStream {
    /// A stream that nothing has been read of.
    pub fn new(provider: ProviderId) -> (r: Self)
        ensures
            r.deep_view() == (AnthropicStreamModel {
                provider: provider.deep_view(),
                sse: sse::initial_state(),
                remembered: anthropic::StreamState {
                    calls: anthropic::no_calls(),
                    input_tokens: None,
                },
                stage: ReadStageModel::Reading,
            }),
    {
        AnthropicStream {
            provider,
            parser: SseDataParser::default(),
            accumulator: AnthropicToolCallAccumulator::default(),
            input_tokens: None,
            stage: ReadStage::Reading,
        }
    }

    /// Takes what happens to the stream, and says what it asks for.
    pub fn step(self, input: StreamInput<AnthropicPayload>) -> (r: (Self, StreamOutput))
        requires
            self.stage matches ReadStage::Parsing { events, .. } ==> (
            input matches StreamInput::Parsed(payloads) ==> payloads@.len() == events@.len() && (
            forall|i: int|
                0 <= i < events@.len() ==> #[trigger] anthropic_reads(
                    events.deep_view()[i],
                    payloads.deep_view()[i],
                ))),
            input matches StreamInput::Parsed(payloads) ==> self.accumulator.next_ordinal
                + payloads@.len() < usize::MAX,
        ensures
            r.0.deep_view() == anthropic_stream_step(self.deep_view(), input.deep_view()).0,
            r.1.deep_view() == anthropic_stream_step(self.deep_view(), input.deep_view()).1,
    {
        let provider = self.provider;
        let mut parser = self.parser;
        let mut accumulator = self.accumulator;
        let mut input_tokens = self.input_tokens;
        match self.stage {
            ReadStage::Reading => match input {
                StreamInput::Chunk(bytes) => {
                    let read = stream_payloads(&mut parser, bytes.as_slice(), &provider);
                    let (stage, output) = begin_parsing(read, false);
                    (AnthropicStream { provider, parser, accumulator, input_tokens, stage }, output)
                },
                StreamInput::End => {
                    let read = last_payloads(parser, &provider);
                    let (stage, output) = begin_parsing(read, true);
                    let parser = SseDataParser::default();
                    (AnthropicStream { provider, parser, accumulator, input_tokens, stage }, output)
                },
                StreamInput::Lost(error) => {
                    let (stage, output) = lose(anthropic_transport_lost(error.as_str()));
                    (AnthropicStream { provider, parser, accumulator, input_tokens, stage }, output)
                },
                StreamInput::Parsed(_) => (
                    AnthropicStream { provider, parser, accumulator, input_tokens, stage: ReadStage::Reading },
                    StreamOutput::Nothing,
                ),
            },
            ReadStage::Parsing { events, last } => match input {
                StreamInput::Parsed(payloads) => {
                    let batch = process_anthropic_payloads(
                        payloads,
                        &provider,
                        &mut accumulator,
                        &mut input_tokens,
                    );
                    let at_end = anthropic_stream_end(&batch.end);
                    let (stage, output) = hand_out(batch, last, at_end);
                    (AnthropicStream { provider, parser, accumulator, input_tokens, stage }, output)
                },
                _ => (
                    AnthropicStream {
                        provider,
                        parser,
                        accumulator, input_tokens,
                        stage: ReadStage::Parsing { events, last },
                    },
                    StreamOutput::Nothing,
                ),
            },
            ReadStage::Over => (
                AnthropicStream { provider, parser, accumulator, input_tokens, stage: ReadStage::Over },
                StreamOutput::Nothing,
            ),
        }
    }
}

proof fn lemma_anthropic_batch_splits(
    state: anthropic::StreamState,
    first: Seq<anthropic::PayloadModel>,
    second: Seq<anthropic::PayloadModel>,
    provider: Seq<char>,
)
    ensures
        ({
            let one = anthropic::anthropic_batch(state, first, provider);
            let both = anthropic::anthropic_batch(state, first + second, provider);
            if one.end !is Open {
                both == one
            } else {
                let two = anthropic::anthropic_batch(one.state, second, provider);
                &&& both.end == two.end
                &&& both.items == one.items + two.items
                &&& both.state == two.state
            }
        }),
    decreases second.len(),
{
    let whole = first + second;
    if second.len() == 0 {
        assert(whole =~= first);
        let one = anthropic::anthropic_batch(state, first, provider);
        assert(one.items + Seq::<StreamItemModel>::empty() =~= one.items);
    } else {
        lemma_anthropic_batch_splits(state, first, second.drop_last(), provider);
        assert(whole.drop_last() =~= first + second.drop_last());
        assert(whole.last() == second.last());
        let one = anthropic::anthropic_batch(state, first, provider);
        if one.end is Open {
            let before = anthropic::anthropic_batch(one.state, second.drop_last(), provider);
            let two = anthropic::anthropic_batch(one.state, second, provider);
            if before.end is Open {
                let both = anthropic::anthropic_batch(state, whole, provider);
                assert(both.items =~= one.items + two.items);
            }
        }
    }
}

/// What a stream of Anthropic hands out of some bytes, where `parse` is how events are parsed.
pub open spec fn anthropic_fed(
    state: AnthropicStreamModel,
    bytes: Seq<u8>,
    parse: spec_fn(Seq<char>) -> anthropic::PayloadModel,
) -> (AnthropicStreamModel, StreamOutputModel) {
    let (read, output) = anthropic_stream_step(state, StreamInputModel::Chunk(bytes));
    match read.stage {
        ReadStageModel::Parsing { events, .. } => anthropic_stream_step(
            read,
            StreamInputModel::Parsed(events.map_values(parse)),
        ),
        _ => (read, output),
    }
}

/// However the bytes of an answer of Anthropic are cut into chunks, the same items and the same
/// error go out, and the stream is in the same state. An answer that is not text is left
/// out: of a chunk with a fault in it nothing goes out, not even what stands before the
/// fault.
pub proof fn law_anthropic_chunks_do_not_matter(
    state: AnthropicStreamModel,
    first: Seq<u8>,
    second: Seq<u8>,
    parse: spec_fn(Seq<char>) -> anthropic::PayloadModel,
)
    requires
        state.stage is Reading,
        sse::feed(state.sse, first + second, false).output is Ok,
    ensures
        ({
            let (one, output) = anthropic_fed(state, first, parse);
            let (two, more) = anthropic_fed(one, second, parse);
            let (both, all) = anthropic_fed(state, first + second, parse);
            &&& items_of(all) == items_of(output) + items_of(more)
            &&& failure_in(all) == if failure_in(output) is Some {
                failure_in(output)
            } else {
                failure_in(more)
            }
            &&& both.stage == two.stage
            &&& both.remembered == two.remembered
            &&& two.stage is Reading ==> both.sse == two.sse
        }),
{
    sse::law_chunks_do_not_matter(state.sse, first, second, false);
    let fed = sse::feed(state.sse, first, false);
    let rest = sse::feed(fed.state, second, false);
    let (one, output) = anthropic_fed(state, first, parse);
    let (both, all) = anthropic_fed(state, first + second, parse);
    let p = sse::payloads_of(fed.output->Ok_0).map_values(parse);
    let q = sse::payloads_of(rest.output->Ok_0).map_values(parse);
    assert(sse::payloads_of(fed.output->Ok_0 + rest.output->Ok_0).map_values(parse) =~= p + q);
    lemma_anthropic_batch_splits(state.remembered, p, q, state.provider);
    assert(items_of(output) + Seq::<StreamItemModel>::empty() =~= items_of(output));
}

/// What a payload can be whose text is that.
pub open spec fn gemini_reads(event: Seq<char>, payload: GeminiPayloadModel) -> bool {
    text::trimmed(event).len() == 0 ==> payload == GeminiPayloadModel::Items(Seq::empty())
}

/// A stream of an answer of Gemini.
pub struct GeminiStream {
    pub provider: ProviderId,
    pub parser: SseDataParser,
    pub received_finish: bool,
    pub stage: ReadStage<String>,
}

pub struct GeminiStreamModel {
    pub provider: Seq<char>,
    pub sse: sse::SseState,
    pub finished: bool,
    pub stage: ReadStageModel<Seq<char>>,
}

impl DeepView for GeminiStream {
    type V = GeminiStreamModel;

    open spec fn deep_view(&self) -> GeminiStreamModel {
        GeminiStreamModel {
            provider: self.provider.deep_view(),
            sse: self.parser.state(),
            finished: self.received_finish,
            stage: self.stage.deep_view(),
        }
    }
}

/// What a stream of Gemini does about what happens to it.
pub open spec fn gemini_stream_step(
    state: GeminiStreamModel,
    input: StreamInputModel<GeminiPayloadModel>,
) -> (GeminiStreamModel, StreamOutputModel) {
    match (state.stage, input) {
        (ReadStageModel::Reading, StreamInputModel::Chunk(bytes)) => {
            let step = sse::feed(state.sse, bytes, false);
            let (stage, output) = after_bytes(texts_in(step.output), false, state.provider);
            (GeminiStreamModel { sse: step.state, stage, ..state }, output)
        },
        (ReadStageModel::Reading, StreamInputModel::End) => {
            let (stage, output) = after_bytes(
                texts_in(sse::finished(state.sse, false)),
                true,
                state.provider,
            );
            (GeminiStreamModel { sse: sse::initial_state(), stage, ..state }, output)
        },
        (ReadStageModel::Reading, StreamInputModel::Lost(error)) => {
            let (stage, output) = after_loss(
                StreamItemModel::ConnectionLost("Gemini stream transport dropped: "@ + error),
            );
            (GeminiStreamModel { stage, ..state }, output)
        },
        (ReadStageModel::Parsing { last, .. }, StreamInputModel::Parsed(payloads)) => {
            let batch = gemini::gemini_batch(state.finished, payloads, state.provider);
            let (stage, output) = after_events(
                batch.items,
                batch.end,
                last,
                if batch.finished {
                    None
                } else {
                    Some(
                        StreamItemModel::ConnectionLost(
                            "Gemini stream ended before finish_reason"@,
                        ),
                    )
                },
            );
            (GeminiStreamModel { finished: batch.finished, stage, ..state }, output)
        },
        _ => (state, StreamOutputModel::Nothing),
    }
}

impl GeminiStream {
    /// A stream that nothing has been read of.
    pub fn new(provider: ProviderId) -> (r: Self)
        ensures
            r.deep_view() == (GeminiStreamModel {
                provider: provider.deep_view(),
                sse: sse::initial_state(),
                finished: false,
                stage: ReadStageModel::Reading,
            }),
    {
        GeminiStream {
            provider,
            parser: SseDataParser::default(),
            received_finish: false,
            stage: ReadStage::Reading,
        }
    }

    /// Takes what happens to the stream, and says what it asks for.
    pub fn step(self, input: StreamInput<GeminiPayload>) -> (r: (Self, StreamOutput))
        requires
            self.stage matches ReadStage::Parsing { events, .. } ==> (
            input matches StreamInput::Parsed(payloads) ==> payloads@.len() == events@.len() && (
            forall|i: int|
                0 <= i < events@.len() ==> #[trigger] gemini_reads(
                    events.deep_view()[i],
                    payloads.deep_view()[i],
                ))),
        ensures
            r.0.deep_view() == gemini_stream_step(self.deep_view(), input.deep_view()).0,
            r.1.deep_view() == gemini_stream_step(self.deep_view(), input.deep_view()).1,
    {
        let provider = self.provider;
        let mut parser = self.parser;
        let mut received_finish = self.received_finish;
        match self.stage {
            ReadStage::Reading => match input {
                StreamInput::Chunk(bytes) => {
                    let read = stream_payloads(&mut parser, bytes.as_slice(), &provider);
                    let (stage, output) = begin_parsing(read, false);
                    (GeminiStream { provider, parser, received_finish, stage }, output)
                },
                StreamInput::End => {
                    let read = last_payloads(parser, &provider);
                    let (stage, output) = begin_parsing(read, true);
                    let parser = SseDataParser::default();
                    (GeminiStream { provider, parser, received_finish, stage }, output)
                },
                StreamInput::Lost(error) => {
                    let (stage, output) = lose(gemini_transport_lost(error.as_str()));
                    (GeminiStream { provider, parser, received_finish, stage }, output)
                },
                StreamInput::Parsed(_) => (
                    GeminiStream { provider, parser, received_finish, stage: ReadStage::Reading },
                    StreamOutput::Nothing,
                ),
            },
            ReadStage::Parsing { events, last } => match input {
                StreamInput::Parsed(payloads) => {
                    let batch = process_gemini_payloads(payloads, &provider, &mut received_finish);
                    let at_end = gemini_stream_end(received_finish);
                    let (stage, output) = hand_out(batch, last, at_end);
                    (GeminiStream { provider, parser, received_finish, stage }, output)
                },
                _ => (
                    GeminiStream {
                        provider,
                        parser,
                        received_finish,
                        stage: ReadStage::Parsing { events, last },
                    },
                    StreamOutput::Nothing,
                ),
            },
            ReadStage::Over => (
                GeminiStream { provider, parser, received_finish, stage: ReadStage::Over },
                StreamOutput::Nothing,
            ),
        }
    }
}

proof fn lemma_gemini_batch_splits(
    finished: bool,
    first: Seq<GeminiPayloadModel>,
    second: Seq<GeminiPayloadModel>,
    provider: Seq<char>,
)
    ensures
        ({
            let one = gemini::gemini_batch(finished, first, provider);
            let both = gemini::gemini_batch(finished, first + second, provider);
            if one.end !is Open {
                both == one
            } else {
                let two = gemini::gemini_batch(one.finished, second, provider);
                &&& both.end == two.end
                &&& both.items == one.items + two.items
                &&& both.finished == two.finished
            }
        }),
    decreases second.len(),
{
    let whole = first + second;
    if second.len() == 0 {
        assert(whole =~= first);
        let one = gemini::gemini_batch(finished, first, provider);
        assert(one.items + Seq::<StreamItemModel>::empty() =~= one.items);
    } else {
        lemma_gemini_batch_splits(finished, first, second.drop_last(), provider);
        assert(whole.drop_last() =~= first + second.drop_last());
        assert(whole.last() == second.last());
        let one = gemini::gemini_batch(finished, first, provider);
        if one.end is Open {
            let before = gemini::gemini_batch(one.finished, second.drop_last(), provider);
            let two = gemini::gemini_batch(one.finished, second, provider);
            if before.end is Open {
                let both = gemini::gemini_batch(finished, whole, provider);
                assert(both.items =~= one.items + two.items);
            }
        }
    }
}

/// What a stream of Gemini hands out of some bytes, where `parse` is how events are parsed.
pub open spec fn gemini_fed(
    state: GeminiStreamModel,
    bytes: Seq<u8>,
    parse: spec_fn(Seq<char>) -> GeminiPayloadModel,
) -> (GeminiStreamModel, StreamOutputModel) {
    let (read, output) = gemini_stream_step(state, StreamInputModel::Chunk(bytes));
    match read.stage {
        ReadStageModel::Parsing { events, .. } => gemini_stream_step(
            read,
            StreamInputModel::Parsed(events.map_values(parse)),
        ),
        _ => (read, output),
    }
}

/// However the bytes of an answer of Gemini are cut into chunks, the same items and the same
/// error go out, and the stream is in the same state. An answer that is not text is left
/// out: of a chunk with a fault in it nothing goes out, not even what stands before the
/// fault.
pub proof fn law_gemini_chunks_do_not_matter(
    state: GeminiStreamModel,
    first: Seq<u8>,
    second: Seq<u8>,
    parse: spec_fn(Seq<char>) -> GeminiPayloadModel,
)
    requires
        state.stage is Reading,
        sse::feed(state.sse, first + second, false).output is Ok,
    ensures
        ({
            let (one, output) = gemini_fed(state, first, parse);
            let (two, more) = gemini_fed(one, second, parse);
            let (both, all) = gemini_fed(state, first + second, parse);
            &&& items_of(all) == items_of(output) + items_of(more)
            &&& failure_in(all) == if failure_in(output) is Some {
                failure_in(output)
            } else {
                failure_in(more)
            }
            &&& both.stage == two.stage
            &&& both.finished == two.finished
            &&& two.stage is Reading ==> both.sse == two.sse
        }),
{
    sse::law_chunks_do_not_matter(state.sse, first, second, false);
    let fed = sse::feed(state.sse, first, false);
    let rest = sse::feed(fed.state, second, false);
    let (one, output) = gemini_fed(state, first, parse);
    let (both, all) = gemini_fed(state, first + second, parse);
    let p = sse::payloads_of(fed.output->Ok_0).map_values(parse);
    let q = sse::payloads_of(rest.output->Ok_0).map_values(parse);
    assert(sse::payloads_of(fed.output->Ok_0 + rest.output->Ok_0).map_values(parse) =~= p + q);
    lemma_gemini_batch_splits(state.finished, p, q, state.provider);
    assert(items_of(output) + Seq::<StreamItemModel>::empty() =~= items_of(output));
}

/// What a payload can be whose text is that.
pub open spec fn responses_reads(event: SseEventModel, payload: responses::PayloadModel) -> bool {
    match responses::event_kind(event.event_type) {
        ResponsesEventKind::Ignored => payload is Ignored,
        ResponsesEventKind::TextDelta => payload is TextDelta || (
        payload matches responses::PayloadModel::Invalid(kind, _) && kind
            == ResponsesEventKind::TextDelta),
        ResponsesEventKind::ArgumentsDelta => payload is ArgumentsDelta || (
        payload matches responses::PayloadModel::Invalid(kind, _) && kind
            == ResponsesEventKind::ArgumentsDelta),
        ResponsesEventKind::ItemAdded => payload is ItemAdded || (
        payload matches responses::PayloadModel::Invalid(kind, _) && kind
            == ResponsesEventKind::ItemAdded),
        ResponsesEventKind::Completed => payload is Completed || (
        payload matches responses::PayloadModel::Invalid(kind, _) && kind
            == ResponsesEventKind::Completed),
        ResponsesEventKind::Failed => payload is Failed || (
        payload matches responses::PayloadModel::Invalid(kind, _) && kind
            == ResponsesEventKind::Failed),
    }
}

/// A stream of an answer of the Responses API.
pub struct ResponsesStream {
    pub provider: ProviderId,
    pub parser: SseEventParser,
    pub accumulator: ResponsesToolCallAccumulator,
    /// What the next question builds on.
    pub chaining: ChainingState,
    /// How many messages the question had.
    pub message_count: usize,
    pub stage: ReadStage<SseEvent>,
}

pub struct ResponsesStreamModel {
    pub provider: Seq<char>,
    pub sse: sse::SseState,
    pub calls: responses::CallsModel,
    pub previous_response_id: Option<Seq<char>>,
    pub last_input_count: usize,
    pub message_count: usize,
    pub stage: ReadStageModel<SseEventModel>,
}

impl DeepView for ResponsesStream {
    type V = ResponsesStreamModel;

    open spec fn deep_view(&self) -> ResponsesStreamModel {
        ResponsesStreamModel {
            provider: self.provider.deep_view(),
            sse: self.parser.state(),
            calls: self.accumulator.model(),
            previous_response_id: self.chaining.previous_response_id.deep_view(),
            last_input_count: self.chaining.last_input_count,
            message_count: self.message_count,
            stage: self.stage.deep_view(),
        }
    }
}

/// What a stream of the Responses API does about what happens to it.
pub open spec fn responses_stream_step(
    state: ResponsesStreamModel,
    input: StreamInputModel<responses::PayloadModel>,
) -> (ResponsesStreamModel, StreamOutputModel) {
    match (state.stage, input) {
        (ReadStageModel::Reading, StreamInputModel::Chunk(bytes)) => {
            let step = sse::feed(state.sse, bytes, true);
            let (stage, output) = after_bytes((step.output), false, state.provider);
            (ResponsesStreamModel { sse: step.state, stage, ..state }, output)
        },
        (ReadStageModel::Reading, StreamInputModel::End) => {
            let (stage, output) = after_bytes(
                (sse::finished(state.sse, true)),
                true,
                state.provider,
            );
            (ResponsesStreamModel { sse: sse::initial_state(), stage, ..state }, output)
        },
        (ReadStageModel::Reading, StreamInputModel::Lost(error)) => {
            let (stage, output) = after_loss(
                StreamItemModel::ConnectionLost("Responses stream transport dropped: "@ + error),
            );
            (ResponsesStreamModel { stage, ..state }, output)
        },
        (ReadStageModel::Parsing { last, .. }, StreamInputModel::Parsed(payloads)) => {
            let batch = responses::responses_batch(state.calls, payloads, state.provider);
            let (stage, output) = after_events(
                batch.items,
                batch.end,
                last,
                None,
            );
            (ResponsesStreamModel { 
                    calls: batch.calls,
                    previous_response_id: if batch.completed is Some {
                        batch.completed
                    } else {
                        state.previous_response_id
                    },
                    last_input_count: if batch.completed is Some {
                        state.message_count
                    } else {
                        state.last_input_count
                    }, stage, ..state }, output)
        },
        _ => (state, StreamOutputModel::Nothing),
    }
}

impl ResponsesStream {
    /// A stream that nothing has been read of.
    pub fn new(provider: ProviderId, chaining: ChainingState, message_count: usize) -> (r: Self)
        ensures
            r.deep_view() == (ResponsesStreamModel {
                provider: provider.deep_view(),
                sse: sse::initial_state(),
                calls: responses::no_calls(),
                previous_response_id: chaining.previous_response_id.deep_view(),
                last_input_count: chaining.last_input_count,
                message_count,
                stage: ReadStageModel::Reading,
            }),
    {
        ResponsesStream {
            provider,
            parser: SseEventParser::default(),
            accumulator: ResponsesToolCallAccumulator::default(),
            chaining,
            message_count,
            stage: ReadStage::Reading,
        }
    }

    /// Takes what happens to the stream, and says what it asks for.
    pub fn step(self, input: StreamInput<ResponsesPayload>) -> (r: (Self, StreamOutput))
        requires
            self.stage matches ReadStage::Parsing { events, .. } ==> (
            input matches StreamInput::Parsed(payloads) ==> payloads@.len() == events@.len() && (
            forall|i: int|
                0 <= i < events@.len() ==> #[trigger] responses_reads(
                    events.deep_view()[i],
                    payloads.deep_view()[i],
                ))),
            input matches StreamInput::Parsed(payloads) ==> self.accumulator.next_ordinal
                + payloads@.len() < u32::MAX,
        ensures
            r.0.deep_view() == responses_stream_step(self.deep_view(), input.deep_view()).0,
            r.1.deep_view() == responses_stream_step(self.deep_view(), input.deep_view()).1,
    {
        let provider = self.provider;
        let mut parser = self.parser;
        let mut accumulator = self.accumulator;
        let mut chaining = self.chaining;
        let message_count: usize = self.message_count;
        match self.stage {
            ReadStage::Reading => match input {
                StreamInput::Chunk(bytes) => {
                    let read = stream_events(&mut parser, bytes.as_slice(), &provider);
                    let (stage, output) = begin_parsing(read, false);
                    (ResponsesStream { provider, parser, accumulator, chaining, message_count, stage }, output)
                },
                StreamInput::End => {
                    let read = last_events(parser, &provider);
                    let (stage, output) = begin_parsing(read, true);
                    let parser = SseEventParser::default();
                    (ResponsesStream { provider, parser, accumulator, chaining, message_count, stage }, output)
                },
                StreamInput::Lost(error) => {
                    let (stage, output) = lose(responses_transport_lost(error.as_str()));
                    (ResponsesStream { provider, parser, accumulator, chaining, message_count, stage }, output)
                },
                StreamInput::Parsed(_) => (
                    ResponsesStream { provider, parser, accumulator, chaining, message_count, stage: ReadStage::Reading },
                    StreamOutput::Nothing,
                ),
            },
            ReadStage::Parsing { events, last } => match input {
                StreamInput::Parsed(payloads) => {
                    let batch = process_responses_events(
                        payloads,
                        &provider,
                        &mut accumulator,
                        &mut chaining,
                        message_count,
                    );
                    let at_end = None;
                    let (stage, output) = hand_out(batch, last, at_end);
                    (ResponsesStream { provider, parser, accumulator, chaining, message_count, stage }, output)
                },
                _ => (
                    ResponsesStream {
                        provider,
                        parser,
                        accumulator, chaining, message_count,
                        stage: ReadStage::Parsing { events, last },
                    },
                    StreamOutput::Nothing,
                ),
            },
            ReadStage::Over => (
                ResponsesStream { provider, parser, accumulator, chaining, message_count, stage: ReadStage::Over },
                StreamOutput::Nothing,
            ),
        }
    }
}

proof fn lemma_open_batch_is_not_complete(
    calls: responses::CallsModel,
    payloads: Seq<responses::PayloadModel>,
    provider: Seq<char>,
)
    ensures
        ({
            let batch = responses::responses_batch(calls, payloads, provider);
            batch.end is Open ==> batch.completed is None
        }),
    decreases payloads.len(),
{
    if payloads.len() > 0 {
        lemma_open_batch_is_not_complete(calls, payloads.drop_last(), provider);
    }
}

proof fn lemma_responses_batch_splits(
    calls: responses::CallsModel,
    first: Seq<responses::PayloadModel>,
    second: Seq<responses::PayloadModel>,
    provider: Seq<char>,
)
    ensures
        ({
            let one = responses::responses_batch(calls, first, provider);
            let both = responses::responses_batch(calls, first + second, provider);
            if one.end !is Open {
                both == one
            } else {
                let two = responses::responses_batch(one.calls, second, provider);
                &&& both.end == two.end
                &&& both.items == one.items + two.items
                &&& both.calls == two.calls
                &&& both.completed == two.completed
            }
        }),
    decreases second.len(),
{
    let whole = first + second;
    lemma_open_batch_is_not_complete(calls, first, provider);
    if second.len() == 0 {
        assert(whole =~= first);
        let one = responses::responses_batch(calls, first, provider);
        assert(one.items + Seq::<StreamItemModel>::empty() =~= one.items);
    } else {
        lemma_responses_batch_splits(calls, first, second.drop_last(), provider);
        assert(whole.drop_last() =~= first + second.drop_last());
        assert(whole.last() == second.last());
        let one = responses::responses_batch(calls, first, provider);
        if one.end is Open {
            let before = responses::responses_batch(one.calls, second.drop_last(), provider);
            let two = responses::responses_batch(one.calls, second, provider);
            if before.end is Open {
                let both = responses::responses_batch(calls, whole, provider);
                assert(both.items =~= one.items + two.items);
            }
        }
    }
}

/// What a stream of the Responses API hands out of some bytes, where `parse` is how events are parsed.
pub open spec fn responses_fed(
    state: ResponsesStreamModel,
    bytes: Seq<u8>,
    parse: spec_fn(SseEventModel) -> responses::PayloadModel,
) -> (ResponsesStreamModel, StreamOutputModel) {
    let (read, output) = responses_stream_step(state, StreamInputModel::Chunk(bytes));
    match read.stage {
        ReadStageModel::Parsing { events, .. } => responses_stream_step(
            read,
            StreamInputModel::Parsed(events.map_values(parse)),
        ),
        _ => (read, output),
    }
}

/// However the bytes of an answer of the Responses API are cut into chunks, the same items and the same
/// error go out, and the stream is in the same state. An answer that is not text is left
/// out: of a chunk with a fault in it nothing goes out, not even what stands before the
/// fault.
pub proof fn law_responses_chunks_do_not_matter(
    state: ResponsesStreamModel,
    first: Seq<u8>,
    second: Seq<u8>,
    parse: spec_fn(SseEventModel) -> responses::PayloadModel,
)
    requires
        state.stage is Reading,
        sse::feed(state.sse, first + second, true).output is Ok,
    ensures
        ({
            let (one, output) = responses_fed(state, first, parse);
            let (two, more) = responses_fed(one, second, parse);
            let (both, all) = responses_fed(state, first + second, parse);
            &&& items_of(all) == items_of(output) + items_of(more)
            &&& failure_in(all) == if failure_in(output) is Some {
                failure_in(output)
            } else {
                failure_in(more)
            }
            &&& both.stage == two.stage
            &&& both.calls == two.calls
            &&& both.previous_response_id == two.previous_response_id
            &&& both.last_input_count == two.last_input_count
            &&& two.stage is Reading ==> both.sse == two.sse
        }),
{
    sse::law_chunks_do_not_matter(state.sse, first, second, true);
    let fed = sse::feed(state.sse, first, true);
    let rest = sse::feed(fed.state, second, true);
    let (one, output) = responses_fed(state, first, parse);
    let (both, all) = responses_fed(state, first + second, parse);
    let p = (fed.output->Ok_0).map_values(parse);
    let q = (rest.output->Ok_0).map_values(parse);
    assert((fed.output->Ok_0 + rest.output->Ok_0).map_values(parse) =~= p + q);
    lemma_open_batch_is_not_complete(state.calls, p, state.provider);
    lemma_responses_batch_splits(state.calls, p, q, state.provider);
    assert(items_of(output) + Seq::<StreamItemModel>::empty() =~= items_of(output));
}

/// A stream of OpenAI that reads bytes asks for the events in them to be parsed, which are
/// those that its parser completes; bytes that are no text end it with the parser's error,
/// and at the end of the bytes the parser is asked for what it held back.
pub proof fn law_openai_stream_reads_what_its_parser_reads(
    stream: OpenAIStream,
    chunk: &[u8],
    bytes: Vec<u8>,
    parser: &mut SseDataParser,
    read: Result<Vec<String>, ProviderError>,
    rest: Result<Vec<String>, ProviderError>,
    r: (OpenAIStream, StreamOutput),
    at_end: (OpenAIStream, StreamOutput),
)
    requires
        stream.stage is Reading,
        *old(parser) == stream.parser,
        chunk@ == bytes@,
        call_ensures(stream_payloads, (parser, chunk, &stream.provider), read),
        call_ensures(last_payloads, (stream.parser, &stream.provider), rest),
        call_ensures(OpenAIStream::step, (stream, StreamInput::Chunk(bytes)), r),
        call_ensures(OpenAIStream::step, (stream, StreamInput::End), at_end),
    ensures
        r.0.parser.state() == final(parser).state(),
        read matches Ok(found) ==> (r.0.stage matches ReadStage::Parsing { events, last }
            && events.deep_view() == found.deep_view() && !last) && r.1 is Parse,
        read matches Err(error) ==> r.0.stage is Over && (r.1 matches StreamOutput::Hand {
            items,
            failure,
        } && items@.len() == 0 && failure.deep_view() == Some(error.deep_view())),
        rest matches Ok(found) ==> (at_end.0.stage matches ReadStage::Parsing { events, last }
            && events.deep_view() == found.deep_view() && last) && at_end.1 is Parse,
        rest matches Err(error) ==> at_end.0.stage is Over && (
        at_end.1 matches StreamOutput::Hand { items, failure } && items@.len() == 0
            && failure.deep_view() == Some(error.deep_view())),
{
    if let StreamOutput::Hand { items, failure } = r.1 {
        assert(items.deep_view().len() == items@.len());
    }
    if let StreamOutput::Hand { items, failure } = at_end.1 {
        assert(items.deep_view().len() == items@.len());
    }
}

/// A stream of OpenAI hands out what its parsed events say. It reads on where they end
/// nothing and more bytes may come, and is over otherwise; where nothing ended the answer, it says
/// that the connection was lost.
pub proof fn law_openai_stream_hands_out_what_events_say(
    stream: OpenAIStream,
    payloads: Vec<OpenAIPayload>,
    was_last: bool,
    r: (OpenAIStream, StreamOutput),
)
    requires
        stream.stage matches ReadStage::Parsing { events, last } && last == was_last,
        call_ensures(OpenAIStream::step, (stream, StreamInput::Parsed(payloads)), r),
    ensures
        ({
            let batch = openai::openai_batch(stream.accumulator.entries(), payloads.deep_view(), stream.provider.deep_view());
            let missing = Some("OpenAI stream ended before [DONE] sentinel"@);
            &&& r.1 is Hand
            &&& batch.end is Open && !was_last ==> r.0.stage is Reading
            &&& batch.end !is Open || was_last ==> r.0.stage is Over
            &&& batch.end is Open && was_last && missing is Some ==> r.1->items@.len()
                == batch.items.len() + 1 && (r.1->items@.last() matches StreamItem::ConnectionLost(
                message,
            ) && Some(message@) == missing)
            &&& !(batch.end is Open && was_last && missing is Some) ==> r.1->items@.len()
                == batch.items.len()
            &&& forall|i: int|
                0 <= i < batch.items.len() ==> (#[trigger] r.1->items@[i]).deep_view()
                    == batch.items[i]
            &&& batch.end is Failed <==> r.1->failure is Some
            &&& batch.end matches BatchEndModel::Failed(error) ==> r.1->failure.deep_view() == Some(
                error,
            )
        }),
{
    let items = r.1->items;
    assert(items.deep_view().len() == items@.len());
    assert forall|i: int| 0 <= i < items@.len() implies items.deep_view()[i]
        == (#[trigger] items@[i]).deep_view() by {}
    assert(r.1->failure.deep_view() is Some <==> r.1->failure is Some);
    if items@.len() > 0 {
        assert(items@.last() == items@[items@.len() - 1]);
        assert(items.deep_view().last() == items@.last().deep_view());
    }
}

/// A stream of OpenAI whose transport fails says so and why, and is over; one that is over,
/// or that waits for its events, takes no bytes.
pub proof fn law_openai_stream_is_over_once_lost(
    stream: OpenAIStream,
    error: String,
    bytes: Vec<u8>,
    r: (OpenAIStream, StreamOutput),
    more: (OpenAIStream, StreamOutput),
)
    requires
        call_ensures(OpenAIStream::step, (stream, StreamInput::Lost(error)), r),
        call_ensures(OpenAIStream::step, (stream, StreamInput::Chunk(bytes)), more),
    ensures
        stream.stage is Reading ==> r.0.stage is Over && (r.1 matches StreamOutput::Hand {
            items,
            failure,
        } && failure is None && items@.len() == 1 && (
        items@[0] matches StreamItem::ConnectionLost(message) && message@
            == "OpenAI stream transport dropped: "@ + error@)),
        stream.stage !is Reading ==> r.1 is Nothing && r.0.deep_view() == stream.deep_view(),
        stream.stage !is Reading ==> more.1 is Nothing && more.0.deep_view() == stream.deep_view(),
{
    if let StreamOutput::Hand { items, failure } = r.1 {
        assert(items.deep_view().len() == items@.len());
        if items@.len() > 0 {
            assert(items.deep_view()[0] == items@[0].deep_view());
        }
    }
}

/// A stream of Anthropic that reads bytes asks for the events in them to be parsed, which are
/// those that its parser completes; bytes that are no text end it with the parser's error,
/// and at the end of the bytes the parser is asked for what it held back.
pub proof fn law_anthropic_stream_reads_what_its_parser_reads(
    stream: AnthropicStream,
    chunk: &[u8],
    bytes: Vec<u8>,
    parser: &mut SseDataParser,
    read: Result<Vec<String>, ProviderError>,
    rest: Result<Vec<String>, ProviderError>,
    r: (AnthropicStream, StreamOutput),
    at_end: (AnthropicStream, StreamOutput),
)
    requires
        stream.stage is Reading,
        *old(parser) == stream.parser,
        chunk@ == bytes@,
        call_ensures(stream_payloads, (parser, chunk, &stream.provider), read),
        call_ensures(last_payloads, (stream.parser, &stream.provider), rest),
        call_ensures(AnthropicStream::step, (stream, StreamInput::Chunk(bytes)), r),
        call_ensures(AnthropicStream::step, (stream, StreamInput::End), at_end),
    ensures
        r.0.parser.state() == final(parser).state(),
        read matches Ok(found) ==> (r.0.stage matches ReadStage::Parsing { events, last }
            && events.deep_view() == found.deep_view() && !last) && r.1 is Parse,
        read matches Err(error) ==> r.0.stage is Over && (r.1 matches StreamOutput::Hand {
            items,
            failure,
        } && items@.len() == 0 && failure.deep_view() == Some(error.deep_view())),
        rest matches Ok(found) ==> (at_end.0.stage matches ReadStage::Parsing { events, last }
            && events.deep_view() == found.deep_view() && last) && at_end.1 is Parse,
        rest matches Err(error) ==> at_end.0.stage is Over && (
        at_end.1 matches StreamOutput::Hand { items, failure } && items@.len() == 0
            && failure.deep_view() == Some(error.deep_view())),
{
    if let StreamOutput::Hand { items, failure } = r.1 {
        assert(items.deep_view().len() == items@.len());
    }
    if let StreamOutput::Hand { items, failure } = at_end.1 {
        assert(items.deep_view().len() == items@.len());
    }
}

/// A stream of Anthropic hands out what its parsed events say. It reads on where they end
/// nothing and more bytes may come, and is over otherwise; where nothing ended the answer, it says
/// that the connection was lost.
pub proof fn law_anthropic_stream_hands_out_what_events_say(
    stream: AnthropicStream,
    payloads: Vec<AnthropicPayload>,
    was_last: bool,
    r: (AnthropicStream, StreamOutput),
)
    requires
        stream.stage matches ReadStage::Parsing { events, last } && last == was_last,
        call_ensures(AnthropicStream::step, (stream, StreamInput::Parsed(payloads)), r),
    ensures
        ({
            let batch = anthropic::anthropic_batch(
                anthropic::StreamState {
                    calls: stream.accumulator.model(),
                    input_tokens: stream.input_tokens,
                },
                payloads.deep_view(),
                stream.provider.deep_view(),
            );
            let missing = Some("Anthropic stream ended before message_stop"@);
            &&& r.1 is Hand
            &&& batch.end is Open && !was_last ==> r.0.stage is Reading
            &&& batch.end !is Open || was_last ==> r.0.stage is Over
            &&& batch.end is Open && was_last && missing is Some ==> r.1->items@.len()
                == batch.items.len() + 1 && (r.1->items@.last() matches StreamItem::ConnectionLost(
                message,
            ) && Some(message@) == missing)
            &&& !(batch.end is Open && was_last && missing is Some) ==> r.1->items@.len()
                == batch.items.len()
            &&& forall|i: int|
                0 <= i < batch.items.len() ==> (#[trigger] r.1->items@[i]).deep_view()
                    == batch.items[i]
            &&& batch.end is Failed <==> r.1->failure is Some
            &&& batch.end matches BatchEndModel::Failed(error) ==> r.1->failure.deep_view() == Some(
                error,
            )
        }),
{
    let items = r.1->items;
    assert(items.deep_view().len() == items@.len());
    assert forall|i: int| 0 <= i < items@.len() implies items.deep_view()[i]
        == (#[trigger] items@[i]).deep_view() by {}
    assert(r.1->failure.deep_view() is Some <==> r.1->failure is Some);
    if items@.len() > 0 {
        assert(items@.last() == items@[items@.len() - 1]);
        assert(items.deep_view().last() == items@.last().deep_view());
    }
}

/// A stream of Anthropic whose transport fails says so and why, and is over; one that is over,
/// or that waits for its events, takes no bytes.
pub proof fn law_anthropic_stream_is_over_once_lost(
    stream: AnthropicStream,
    error: String,
    bytes: Vec<u8>,
    r: (AnthropicStream, StreamOutput),
    more: (AnthropicStream, StreamOutput),
)
    requires
        call_ensures(AnthropicStream::step, (stream, StreamInput::Lost(error)), r),
        call_ensures(AnthropicStream::step, (stream, StreamInput::Chunk(bytes)), more),
    ensures
        stream.stage is Reading ==> r.0.stage is Over && (r.1 matches StreamOutput::Hand {
            items,
            failure,
        } && failure is None && items@.len() == 1 && (
        items@[0] matches StreamItem::ConnectionLost(message) && message@
            == "Anthropic stream transport dropped: "@ + error@)),
        stream.stage !is Reading ==> r.1 is Nothing && r.0.deep_view() == stream.deep_view(),
        stream.stage !is Reading ==> more.1 is Nothing && more.0.deep_view() == stream.deep_view(),
{
    if let StreamOutput::Hand { items, failure } = r.1 {
        assert(items.deep_view().len() == items@.len());
        if items@.len() > 0 {
            assert(items.deep_view()[0] == items@[0].deep_view());
        }
    }
}

/// A stream of Gemini that reads bytes asks for the events in them to be parsed, which are
/// those that its parser completes; bytes that are no text end it with the parser's error,
/// and at the end of the bytes the parser is asked for what it held back.
pub proof fn law_gemini_stream_reads_what_its_parser_reads(
    stream: GeminiStream,
    chunk: &[u8],
    bytes: Vec<u8>,
    parser: &mut SseDataParser,
    read: Result<Vec<String>, ProviderError>,
    rest: Result<Vec<String>, ProviderError>,
    r: (GeminiStream, StreamOutput),
    at_end: (GeminiStream, StreamOutput),
)
    requires
        stream.stage is Reading,
        *old(parser) == stream.parser,
        chunk@ == bytes@,
        call_ensures(stream_payloads, (parser, chunk, &stream.provider), read),
        call_ensures(last_payloads, (stream.parser, &stream.provider), rest),
        call_ensures(GeminiStream::step, (stream, StreamInput::Chunk(bytes)), r),
        call_ensures(GeminiStream::step, (stream, StreamInput::End), at_end),
    ensures
        r.0.parser.state() == final(parser).state(),
        read matches Ok(found) ==> (r.0.stage matches ReadStage::Parsing { events, last }
            && events.deep_view() == found.deep_view() && !last) && r.1 is Parse,
        read matches Err(error) ==> r.0.stage is Over && (r.1 matches StreamOutput::Hand {
            items,
            failure,
        } && items@.len() == 0 && failure.deep_view() == Some(error.deep_view())),
        rest matches Ok(found) ==> (at_end.0.stage matches ReadStage::Parsing { events, last }
            && events.deep_view() == found.deep_view() && last) && at_end.1 is Parse,
        rest matches Err(error) ==> at_end.0.stage is Over && (
        at_end.1 matches StreamOutput::Hand { items, failure } && items@.len() == 0
            && failure.deep_view() == Some(error.deep_view())),
{
    if let StreamOutput::Hand { items, failure } = r.1 {
        assert(items.deep_view().len() == items@.len());
    }
    if let StreamOutput::Hand { items, failure } = at_end.1 {
        assert(items.deep_view().len() == items@.len());
    }
}

/// A stream of Gemini hands out what its parsed events say. It reads on where they end
/// nothing and more bytes may come, and is over otherwise; where nothing ended the answer, it says
/// that the connection was lost.
pub proof fn law_gemini_stream_hands_out_what_events_say(
    stream: GeminiStream,
    payloads: Vec<GeminiPayload>,
    was_last: bool,
    r: (GeminiStream, StreamOutput),
)
    requires
        stream.stage matches ReadStage::Parsing { events, last } && last == was_last,
        call_ensures(GeminiStream::step, (stream, StreamInput::Parsed(payloads)), r),
    ensures
        ({
            let batch = gemini::gemini_batch(stream.received_finish, payloads.deep_view(), stream.provider.deep_view());
            let missing = if batch.finished {
                None
            } else {
                Some("Gemini stream ended before finish_reason"@)
            };
            &&& r.1 is Hand
            &&& batch.end is Open && !was_last ==> r.0.stage is Reading
            &&& batch.end !is Open || was_last ==> r.0.stage is Over
            &&& batch.end is Open && was_last && missing is Some ==> r.1->items@.len()
                == batch.items.len() + 1 && (r.1->items@.last() matches StreamItem::ConnectionLost(
                message,
            ) && Some(message@) == missing)
            &&& !(batch.end is Open && was_last && missing is Some) ==> r.1->items@.len()
                == batch.items.len()
            &&& forall|i: int|
                0 <= i < batch.items.len() ==> (#[trigger] r.1->items@[i]).deep_view()
                    == batch.items[i]
            &&& batch.end is Failed <==> r.1->failure is Some
            &&& batch.end matches BatchEndModel::Failed(error) ==> r.1->failure.deep_view() == Some(
                error,
            )
        }),
{
    let items = r.1->items;
    assert(items.deep_view().len() == items@.len());
    assert forall|i: int| 0 <= i < items@.len() implies items.deep_view()[i]
        == (#[trigger] items@[i]).deep_view() by {}
    assert(r.1->failure.deep_view() is Some <==> r.1->failure is Some);
    if items@.len() > 0 {
        assert(items@.last() == items@[items@.len() - 1]);
        assert(items.deep_view().last() == items@.last().deep_view());
    }
}

/// A stream of Gemini whose transport fails says so and why, and is over; one that is over,
/// or that waits for its events, takes no bytes.
pub proof fn law_gemini_stream_is_over_once_lost(
    stream: GeminiStream,
    error: String,
    bytes: Vec<u8>,
    r: (GeminiStream, StreamOutput),
    more: (GeminiStream, StreamOutput),
)
    requires
        call_ensures(GeminiStream::step, (stream, StreamInput::Lost(error)), r),
        call_ensures(GeminiStream::step, (stream, StreamInput::Chunk(bytes)), more),
    ensures
        stream.stage is Reading ==> r.0.stage is Over && (r.1 matches StreamOutput::Hand {
            items,
            failure,
        } && failure is None && items@.len() == 1 && (
        items@[0] matches StreamItem::ConnectionLost(message) && message@
            == "Gemini stream transport dropped: "@ + error@)),
        stream.stage !is Reading ==> r.1 is Nothing && r.0.deep_view() == stream.deep_view(),
        stream.stage !is Reading ==> more.1 is Nothing && more.0.deep_view() == stream.deep_view(),
{
    if let StreamOutput::Hand { items, failure } = r.1 {
        assert(items.deep_view().len() == items@.len());
        if items@.len() > 0 {
            assert(items.deep_view()[0] == items@[0].deep_view());
        }
    }
}

/// A stream of the Responses API that reads bytes asks for the events in them to be parsed, which are
/// those that its parser completes; bytes that are no text end it with the parser's error,
/// and at the end of the bytes the parser is asked for what it held back.
pub proof fn law_responses_stream_reads_what_its_parser_reads(
    stream: ResponsesStream,
    chunk: &[u8],
    bytes: Vec<u8>,
    parser: &mut SseEventParser,
    read: Result<Vec<SseEvent>, ProviderError>,
    rest: Result<Vec<SseEvent>, ProviderError>,
    r: (ResponsesStream, StreamOutput),
    at_end: (ResponsesStream, StreamOutput),
)
    requires
        stream.stage is Reading,
        *old(parser) == stream.parser,
        chunk@ == bytes@,
        call_ensures(stream_events, (parser, chunk, &stream.provider), read),
        call_ensures(last_events, (stream.parser, &stream.provider), rest),
        call_ensures(ResponsesStream::step, (stream, StreamInput::Chunk(bytes)), r),
        call_ensures(ResponsesStream::step, (stream, StreamInput::End), at_end),
    ensures
        r.0.parser.state() == final(parser).state(),
        read matches Ok(found) ==> (r.0.stage matches ReadStage::Parsing { events, last }
            && events.deep_view() == found.deep_view() && !last) && r.1 is Parse,
        read matches Err(error) ==> r.0.stage is Over && (r.1 matches StreamOutput::Hand {
            items,
            failure,
        } && items@.len() == 0 && failure.deep_view() == Some(error.deep_view())),
        rest matches Ok(found) ==> (at_end.0.stage matches ReadStage::Parsing { events, last }
            && events.deep_view() == found.deep_view() && last) && at_end.1 is Parse,
        rest matches Err(error) ==> at_end.0.stage is Over && (
        at_end.1 matches StreamOutput::Hand { items, failure } && items@.len() == 0
            && failure.deep_view() == Some(error.deep_view())),
{
    if let StreamOutput::Hand { items, failure } = r.1 {
        assert(items.deep_view().len() == items@.len());
    }
    if let StreamOutput::Hand { items, failure } = at_end.1 {
        assert(items.deep_view().len() == items@.len());
    }
}

/// A stream of the Responses API hands out what its parsed events say. It reads on where they end
/// nothing and more bytes may come, and is over otherwise.
pub proof fn law_responses_stream_hands_out_what_events_say(
    stream: ResponsesStream,
    payloads: Vec<ResponsesPayload>,
    was_last: bool,
    r: (ResponsesStream, StreamOutput),
)
    requires
        stream.stage matches ReadStage::Parsing { events, last } && last == was_last,
        call_ensures(ResponsesStream::step, (stream, StreamInput::Parsed(payloads)), r),
    ensures
        ({
            let batch = responses::responses_batch(stream.accumulator.model(), payloads.deep_view(), stream.provider.deep_view());
            let missing = None::<Seq<char>>;
            &&& r.1 is Hand
            &&& batch.end is Open && !was_last ==> r.0.stage is Reading
            &&& batch.end !is Open || was_last ==> r.0.stage is Over
            &&& batch.end is Open && was_last && missing is Some ==> r.1->items@.len()
                == batch.items.len() + 1 && (r.1->items@.last() matches StreamItem::ConnectionLost(
                message,
            ) && Some(message@) == missing)
            &&& !(batch.end is Open && was_last && missing is Some) ==> r.1->items@.len()
                == batch.items.len()
            &&& forall|i: int|
                0 <= i < batch.items.len() ==> (#[trigger] r.1->items@[i]).deep_view()
                    == batch.items[i]
            &&& batch.end is Failed <==> r.1->failure is Some
            &&& batch.end matches BatchEndModel::Failed(error) ==> r.1->failure.deep_view() == Some(
                error,
            )
        }),
{
    let items = r.1->items;
    assert(items.deep_view().len() == items@.len());
    assert forall|i: int| 0 <= i < items@.len() implies items.deep_view()[i]
        == (#[trigger] items@[i]).deep_view() by {}
    assert(r.1->failure.deep_view() is Some <==> r.1->failure is Some);
    if items@.len() > 0 {
        assert(items@.last() == items@[items@.len() - 1]);
        assert(items.deep_view().last() == items@.last().deep_view());
    }
}

/// A stream of the Responses API whose transport fails says so and why, and is over; one that is over,
/// or that waits for its events, takes no bytes.
pub proof fn law_responses_stream_is_over_once_lost(
    stream: ResponsesStream,
    error: String,
    bytes: Vec<u8>,
    r: (ResponsesStream, StreamOutput),
    more: (ResponsesStream, StreamOutput),
)
    requires
        call_ensures(ResponsesStream::step, (stream, StreamInput::Lost(error)), r),
        call_ensures(ResponsesStream::step, (stream, StreamInput::Chunk(bytes)), more),
    ensures
        stream.stage is Reading ==> r.0.stage is Over && (r.1 matches StreamOutput::Hand {
            items,
            failure,
        } && failure is None && items@.len() == 1 && (
        items@[0] matches StreamItem::ConnectionLost(message) && message@
            == "Responses stream transport dropped: "@ + error@)),
        stream.stage !is Reading ==> r.1 is Nothing && r.0.deep_view() == stream.deep_view(),
        stream.stage !is Reading ==> more.1 is Nothing && more.0.deep_view() == stream.deep_view(),
{
    if let StreamOutput::Hand { items, failure } = r.1 {
        assert(items.deep_view().len() == items@.len());
        if items@.len() > 0 {
            assert(items.deep_view()[0] == items@[0].deep_view());
        }
    }
}

/// A stream of the Responses API notes what the next question builds on once its answer is
/// complete, and keeps what it had until then.
pub proof fn law_responses_stream_notes_its_answer(
    stream: ResponsesStream,
    payloads: Vec<ResponsesPayload>,
    r: (ResponsesStream, StreamOutput),
)
    requires
        stream.stage is Parsing,
        call_ensures(ResponsesStream::step, (stream, StreamInput::Parsed(payloads)), r),
    ensures
        ({
            let batch = responses::responses_batch(
                stream.accumulator.model(),
                payloads.deep_view(),
                stream.provider.deep_view(),
            );
            &&& batch.completed matches Some(id) ==> (
            r.0.chaining.previous_response_id matches Some(noted) && noted@ == id)
                && r.0.chaining.last_input_count == stream.message_count
            &&& batch.completed is None ==> r.0.chaining.previous_response_id.deep_view()
                == stream.chaining.previous_response_id.deep_view()
                && r.0.chaining.last_input_count == stream.chaining.last_input_count
        }),
{
}

} // verus!

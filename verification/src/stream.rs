//! What the streams of all providers have in common: from the bytes of an answer to
//! the events in it.

use crate::sse;
use crate::model::{
    response_parse, ProviderError, ProviderErrorModel, ProviderId, StreamItem,
};
use crate::sse::{SseDataParser, SseEvent, SseEventParser};
use vstd::prelude::*;

verus! {

/// What to do with the text of one event of a stream.
#[derive(Debug, PartialEq, Eq)]
pub enum StreamPayload {
    /// There is nothing in it.
    Empty,
    /// It ends the stream.
    Done,
    /// It is to be parsed.
    Parse(String),
}

/// How a batch of events leaves its stream.
#[derive(Debug, PartialEq, Eq)]
pub enum BatchEnd {
    /// More may come.
    Open,
    /// The answer is complete.
    Done,
    /// The stream ends with this error.
    Failed(ProviderError),
}

/// The model of a [`BatchEnd`].
pub enum BatchEndModel {
    Open,
    Done,
    Failed(ProviderErrorModel),
}

impl DeepView for BatchEnd {
    type V = BatchEndModel;

    open spec fn deep_view(&self) -> BatchEndModel {
        match *self {
            BatchEnd::Open => BatchEndModel::Open,
            BatchEnd::Done => BatchEndModel::Done,
            BatchEnd::Failed(error) => BatchEndModel::Failed(error.deep_view()),
        }
    }
}

/// What a batch of events hands out, and how it leaves its stream.
#[derive(Debug, PartialEq)]
pub struct StreamBatch {
    pub items: Vec<StreamItem>,
    pub end: BatchEnd,
}

/// Appends items to a list of them.
pub fn append_items(items: &mut Vec<StreamItem>, more: Vec<StreamItem>)
    ensures
        final(items).deep_view() == old(items).deep_view() + more.deep_view(),
{
    let ghost first = items.deep_view();
    let ghost second = more.deep_view();
    let mut rest = more;
    items.append(&mut rest);
    proof {
        assert(items.deep_view() =~= first + second);
    }
}

/// Takes the next bytes of an answer. The payloads that they complete come back, or
/// the error that ends the stream.
pub fn stream_payloads(
    parser: &mut SseDataParser,
    chunk: &[u8],
    provider: &ProviderId,
) -> (r: Result<Vec<String>, ProviderError>)
    ensures
        final(parser).state() == sse::feed(old(parser).state(), chunk@, false).state,
        match (r, sse::feed(old(parser).state(), chunk@, false).output) {
            (Ok(payloads), Ok(events)) => payloads.deep_view() == sse::payloads_of(events),
            (Err(error), Err(message)) => error.deep_view() == (
            ProviderErrorModel::ResponseParse { provider: provider.deep_view(), message }),
            _ => false,
        },
{
    match parser.push_chunk(chunk) {
        Ok(payloads) => Ok(payloads),
        Err(message) => Err(response_parse(provider, message)),
    }
}

/// Ends an answer. The payloads that were still held back come out, or the error that
/// ends the stream.
pub fn last_payloads(parser: SseDataParser, provider: &ProviderId) -> (r: Result<
    Vec<String>,
    ProviderError,
>)
    ensures
        match (r, sse::finished(parser.state(), false)) {
            (Ok(payloads), Ok(events)) => payloads.deep_view() == sse::payloads_of(events),
            (Err(error), Err(message)) => error.deep_view() == (
            ProviderErrorModel::ResponseParse { provider: provider.deep_view(), message }),
            _ => false,
        },
{
    match parser.finish() {
        Ok(payloads) => Ok(payloads),
        Err(message) => Err(response_parse(provider, message)),
    }
}

/// Takes the next bytes of an answer whose events have types.
pub fn stream_events(
    parser: &mut SseEventParser,
    chunk: &[u8],
    provider: &ProviderId,
) -> (r: Result<Vec<SseEvent>, ProviderError>)
    ensures
        final(parser).state() == sse::feed(old(parser).state(), chunk@, true).state,
        match (r, sse::feed(old(parser).state(), chunk@, true).output) {
            (Ok(events), Ok(expected)) => events.deep_view() == expected,
            (Err(error), Err(message)) => error.deep_view() == (
            ProviderErrorModel::ResponseParse { provider: provider.deep_view(), message }),
            _ => false,
        },
{
    match parser.push_chunk(chunk) {
        Ok(events) => Ok(events),
        Err(message) => Err(response_parse(provider, message)),
    }
}

/// Ends an answer whose events have types.
pub fn last_events(parser: SseEventParser, provider: &ProviderId) -> (r: Result<
    Vec<SseEvent>,
    ProviderError,
>)
    ensures
        match (r, sse::finished(parser.state(), true)) {
            (Ok(events), Ok(expected)) => events.deep_view() == expected,
            (Err(error), Err(message)) => error.deep_view() == (
            ProviderErrorModel::ResponseParse { provider: provider.deep_view(), message }),
            _ => false,
        },
{
    match parser.finish() {
        Ok(events) => Ok(events),
        Err(message) => Err(response_parse(provider, message)),
    }
}

/// The payloads of an answer are those that its parser hands out, and the parser's error is
/// reported with the provider whose answer it is.
pub proof fn law_payloads_are_those_of_the_parser(
    parser: &mut SseDataParser,
    same: &mut SseDataParser,
    chunk: &[u8],
    provider: ProviderId,
    r: Result<Vec<String>, ProviderError>,
    parsed: Result<Vec<String>, String>,
)
    requires
        *old(parser) == *old(same),
        call_ensures(stream_payloads, (parser, chunk, &provider), r),
        call_ensures(SseDataParser::push_chunk, (same, chunk), parsed),
    ensures
        final(parser).state() == final(same).state(),
        parsed matches Ok(payloads) ==> (r matches Ok(found) && found.deep_view()
            == payloads.deep_view()),
        parsed matches Err(message) ==> (r matches Err(ProviderError::ResponseParse {
            provider: whose,
            message: why,
        }) && whose.deep_view() == provider.deep_view() && why@ == message@),
{
}

/// The events of an answer are those that its parser hands out, and the parser's error is
/// reported with the provider whose answer it is.
pub proof fn law_events_are_those_of_the_parser(
    parser: &mut SseEventParser,
    same: &mut SseEventParser,
    chunk: &[u8],
    provider: ProviderId,
    r: Result<Vec<SseEvent>, ProviderError>,
    parsed: Result<Vec<SseEvent>, String>,
)
    requires
        *old(parser) == *old(same),
        call_ensures(stream_events, (parser, chunk, &provider), r),
        call_ensures(SseEventParser::push_chunk, (same, chunk), parsed),
    ensures
        final(parser).state() == final(same).state(),
        parsed matches Ok(events) ==> (r matches Ok(found) && found.deep_view()
            == events.deep_view()),
        parsed matches Err(message) ==> (r matches Err(ProviderError::ResponseParse {
            provider: whose,
            message: why,
        }) && whose.deep_view() == provider.deep_view() && why@ == message@),
{
}

/// Items that are appended come behind those that were there, in their order.
pub proof fn law_items_are_appended_in_order(
    items: &mut Vec<StreamItem>,
    more: Vec<StreamItem>,
    i: int,
)
    requires
        call_ensures(append_items, (items, more), ()),
    ensures
        final(items)@.len() == old(items)@.len() + more@.len(),
        0 <= i < old(items)@.len() ==> final(items)@[i].deep_view() == old(items)@[i].deep_view(),
        0 <= i < more@.len() ==> final(items)@[old(items)@.len() + i].deep_view()
            == more@[i].deep_view(),
{
    assert(final(items).deep_view().len() == final(items)@.len());
    assert(old(items).deep_view().len() == old(items)@.len());
    assert(more.deep_view().len() == more@.len());
    if 0 <= i < old(items)@.len() {
        assert(final(items).deep_view()[i] == final(items)@[i].deep_view());
        assert(old(items).deep_view()[i] == old(items)@[i].deep_view());
    }
    if 0 <= i < more@.len() {
        let n = old(items)@.len() + i;
        assert(final(items).deep_view()[n] == final(items)@[n].deep_view());
        assert(more.deep_view()[i] == more@[i].deep_view());
    }
}

} // verus!

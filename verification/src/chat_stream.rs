//! The decisions of a Chat Completions event stream, as a state machine: each
//! parsed chunk moves the state and yields the Responses events to send.
use vstd::prelude::*;

use crate::models::clone_opt_string;
use crate::models::clone_string;
use crate::models::ContentItem;
use crate::models::ContentItemView;
use crate::models::ResponseEvent;
use crate::models::ResponseEventView;
use crate::models::ResponseItem;
use crate::models::ResponseItemView;
use crate::models::TokenUsage;

verus! {

broadcast use vstd::string::group_string_axioms;

/// The name and argument fragment of a streamed tool call.
#[derive(Debug)]
pub struct ChatDeltaToolCallFunction {
    pub name: Option<String>,
    pub arguments: Option<String>,
}

/// A fragment of the tool call at position `index` of the response.
#[derive(Debug)]
pub struct ChatDeltaToolCall {
    pub index: usize,
    pub id: Option<String>,
    pub function: Option<ChatDeltaToolCallFunction>,
}

/// What one choice of a chunk adds to the response.
#[derive(Debug)]
pub struct ChatDelta {
    pub content: Option<String>,
    pub tool_calls: Option<Vec<ChatDeltaToolCall>>,
}

/// One choice of a chunk.
#[derive(Debug)]
pub struct ChatChoice {
    pub delta: ChatDelta,
    pub finish_reason: Option<String>,
}

/// Token counts as Chat Completions reports them.
#[derive(Debug, Clone, Copy, PartialEq, Eq, Structural)]
pub struct ChatUsage {
    pub prompt_tokens: i64,
    pub completion_tokens: i64,
    pub total_tokens: i64,
}

/// One parsed chunk of a Chat Completions event stream.
#[derive(Debug)]
pub struct ChatCompletionChunk {
    pub id: Option<String>,
    pub choices: Vec<ChatChoice>,
    pub usage: Option<ChatUsage>,
}

/// A tool call whose fragments are still being gathered.
#[derive(Debug)]
pub struct PendingToolCall {
    pub id: Option<String>,
    pub name: Option<String>,
    pub arguments: String,
}

pub struct DeltaFunctionView {
    pub name: Option<Seq<char>>,
    pub arguments: Option<Seq<char>>,
}

pub struct DeltaToolCallView {
    pub index: usize,
    pub id: Option<Seq<char>>,
    pub function: Option<DeltaFunctionView>,
}

pub struct ChoiceView {
    pub content: Option<Seq<char>>,
    pub tool_calls: Option<Seq<DeltaToolCallView>>,
    pub finish_reason: Option<Seq<char>>,
}

pub struct ChunkView {
    pub id: Option<Seq<char>>,
    pub choices: Seq<ChoiceView>,
    pub usage: Option<ChatUsage>,
}

pub struct PendingView {
    pub id: Option<Seq<char>>,
    pub name: Option<Seq<char>>,
    pub arguments: Seq<char>,
}

impl DeepView for ChatDeltaToolCall {
    type V = DeltaToolCallView;

    open spec fn deep_view(&self) -> DeltaToolCallView {
        DeltaToolCallView {
            index: self.index,
            id: self.id.deep_view(),
            function: match self.function {
                Some(f) => Some(
                    DeltaFunctionView {
                        name: f.name.deep_view(),
                        arguments: f.arguments.deep_view(),
                    },
                ),
                None => None,
            },
        }
    }
}

impl DeepView for ChatChoice {
    type V = ChoiceView;

    open spec fn deep_view(&self) -> ChoiceView {
        ChoiceView {
            content: self.delta.content.deep_view(),
            tool_calls: self.delta.tool_calls.deep_view(),
            finish_reason: self.finish_reason.deep_view(),
        }
    }
}

impl View for ChatCompletionChunk {
    type V = ChunkView;

    open spec fn view(&self) -> ChunkView {
        ChunkView { id: self.id.deep_view(), choices: self.choices.deep_view(), usage: self.usage }
    }
}

impl DeepView for PendingToolCall {
    type V = PendingView;

    open spec fn deep_view(&self) -> PendingView {
        PendingView {
            id: self.id.deep_view(),
            name: self.name.deep_view(),
            arguments: self.arguments@,
        }
    }
}

/// The state of a Chat Completions event stream.
pub struct ChatStreamState {
    response_id: Option<String>,
    pending_tool_calls: Vec<PendingToolCall>,
    usage: Option<TokenUsage>,
    assistant_message_started: bool,
    assistant_message_text: String,
}

pub struct StreamView {
    /// The first response id that a chunk carried.
    pub response_id: Option<Seq<char>>,
    /// The tool calls being gathered, by position.
    pub pending: Seq<PendingView>,
    /// The token counts of the last chunk that carried them.
    pub usage: Option<TokenUsage>,
    /// Whether the assistant message was announced.
    pub started: bool,
    /// The text of the assistant message so far.
    pub text: Seq<char>,
}

impl View for ChatStreamState {
    type V = StreamView;

    closed spec fn view(&self) -> StreamView {
        StreamView {
            response_id: self.response_id.deep_view(),
            pending: self.pending_tool_calls.deep_view(),
            usage: self.usage,
            started: self.assistant_message_started,
            text: self.assistant_message_text@,
        }
    }
}

// ---------------------------------------------------------------------------
// The mathematical model of the stream.

/// The state before any chunk.
pub open spec fn initial_stream() -> StreamView {
    StreamView {
        response_id: None,
        pending: Seq::empty(),
        usage: None,
        started: false,
        text: Seq::empty(),
    }
}

/// A tool call of which nothing is known yet.
pub open spec fn empty_pending() -> PendingView {
    PendingView { id: None, name: None, arguments: Seq::empty() }
}

/// The tool calls, grown with empty ones until position `index` exists.
pub open spec fn grow_pending(pending: Seq<PendingView>, index: int) -> Seq<PendingView> {
    if pending.len() <= index {
        pending + Seq::new((index + 1 - pending.len()) as nat, |_j: int| empty_pending())
    } else {
        pending
    }
}

/// A tool call with one more fragment: a given id or name replaces the one
/// known, an argument fragment is appended.
pub open spec fn merge_delta(p: PendingView, d: DeltaToolCallView) -> PendingView {
    PendingView {
        id: if d.id is Some {
            d.id
        } else {
            p.id
        },
        name: match d.function {
            Some(f) => if f.name is Some {
                f.name
            } else {
                p.name
            },
            None => p.name,
        },
        arguments: match d.function {
            Some(f) => match f.arguments {
                Some(a) => p.arguments + a,
                None => p.arguments,
            },
            None => p.arguments,
        },
    }
}

/// The tool calls after one fragment.
pub open spec fn apply_tool_delta(pending: Seq<PendingView>, d: DeltaToolCallView) -> Seq<
    PendingView,
> {
    let g = grow_pending(pending, d.index as int);
    g.update(d.index as int, merge_delta(g[d.index as int], d))
}

/// The tool calls after the fragments, in order.
pub open spec fn apply_tool_deltas(pending: Seq<PendingView>, ds: Seq<DeltaToolCallView>) -> Seq<
    PendingView,
>
    decreases ds.len(),
{
    if ds.len() == 0 {
        pending
    } else {
        apply_tool_delta(apply_tool_deltas(pending, ds.drop_last()), ds.last())
    }
}

/// The function call item of a gathered tool call, where it has an id and a
/// name.
pub open spec fn finished_call(p: PendingView) -> Option<ResponseEventView> {
    match (p.id, p.name) {
        (Some(call_id), Some(name)) => Some(
            ResponseEventView::OutputItemDone(
                ResponseItemView::FunctionCall {
                    id: None,
                    name,
                    namespace: None,
                    arguments: p.arguments,
                    call_id,
                },
            ),
        ),
        _ => None,
    }
}

/// The events of flushing the gathered tool calls, in order; those without an
/// id or a name are dropped.
pub open spec fn flushed_calls(pending: Seq<PendingView>) -> Seq<ResponseEventView> {
    pending.filter_map(|p: PendingView| finished_call(p))
}

/// The assistant message, announced while still empty.
pub open spec fn assistant_message(content: Seq<ContentItemView>) -> ResponseItemView {
    ResponseItemView::Message { id: None, role: "assistant"@, content }
}

/// The state and events after the content of a choice.
pub open spec fn step_content(s: StreamView, content: Option<Seq<char>>) -> (
    StreamView,
    Seq<ResponseEventView>,
) {
    match content {
        Some(text) => {
            let announce = if s.started {
                Seq::empty()
            } else {
                seq![ResponseEventView::OutputItemAdded(assistant_message(Seq::empty()))]
            };
            (
                StreamView { started: true, text: s.text + text, ..s },
                announce.push(ResponseEventView::OutputTextDelta(text)),
            )
        },
        None => (s, Seq::empty()),
    }
}

/// The state and events after one choice.
pub open spec fn step_choice(s: StreamView, c: ChoiceView) -> (StreamView, Seq<ResponseEventView>) {
    let (s1, e1) = step_content(s, c.content);
    let s2 = match c.tool_calls {
        Some(ds) => StreamView { pending: apply_tool_deltas(s1.pending, ds), ..s1 },
        None => s1,
    };
    if c.finish_reason == Some("tool_calls"@) {
        (StreamView { pending: Seq::empty(), ..s2 }, e1 + flushed_calls(s2.pending))
    } else {
        (s2, e1)
    }
}

/// The state and events after the choices, in order.
pub open spec fn step_choices(s: StreamView, cs: Seq<ChoiceView>) -> (
    StreamView,
    Seq<ResponseEventView>,
)
    decreases cs.len(),
{
    if cs.len() == 0 {
        (s, Seq::empty())
    } else {
        let (s1, e1) = step_choices(s, cs.drop_last());
        let (s2, e2) = step_choice(s1, cs.last());
        (s2, e1 + e2)
    }
}

/// The Responses token counts of Chat Completions token counts.
pub open spec fn token_usage_of(u: ChatUsage) -> TokenUsage {
    TokenUsage {
        input_tokens: u.prompt_tokens,
        cached_input_tokens: 0,
        output_tokens: u.completion_tokens,
        reasoning_output_tokens: 0,
        total_tokens: u.total_tokens,
    }
}

/// The state after the id and the usage of a chunk: the first id is kept, the
/// last usage wins.
pub open spec fn step_header(s: StreamView, chunk: ChunkView) -> StreamView {
    StreamView {
        response_id: if s.response_id is None {
            chunk.id
        } else {
            s.response_id
        },
        usage: match chunk.usage {
            Some(u) => Some(token_usage_of(u)),
            None => s.usage,
        },
        ..s
    }
}

/// The state and events after a chunk.
pub open spec fn step_chunk(s: StreamView, chunk: ChunkView) -> (StreamView, Seq<ResponseEventView>) {
    step_choices(step_header(s, chunk), chunk.choices)
}

/// The events that close the stream: the gathered tool calls, the finished
/// assistant message if one was announced, and the completion.
pub open spec fn closing_events(s: StreamView) -> Seq<ResponseEventView> {
    let message = if s.started {
        seq![
            ResponseEventView::OutputItemDone(
                assistant_message(seq![ContentItemView::OutputText { text: s.text }]),
            ),
        ]
    } else {
        Seq::empty()
    };
    flushed_calls(s.pending) + message + seq![
        ResponseEventView::Completed {
            response_id: match s.response_id {
                Some(id) => id,
                None => "chatcmpl-adapter"@,
            },
            token_usage: s.usage,
            end_turn: None,
        },
    ]
}

/// Every tool-call fragment of the choice names a position below `usize::MAX`.
pub open spec fn choice_indices_in_range(c: ChoiceView) -> bool {
    match c.tool_calls {
        Some(ds) => forall|j: int| 0 <= j < ds.len() ==> #[trigger] ds[j].index < usize::MAX,
        None => true,
    }
}

/// Every tool-call fragment of the chunk names a position below `usize::MAX`.
pub open spec fn chunk_indices_in_range(chunk: ChunkView) -> bool {
    forall|i: int| 0 <= i < chunk.choices.len() ==> #[trigger] choice_indices_in_range(chunk.choices[i])
}

// ---------------------------------------------------------------------------
// Laws of the stream.

/// The text of the deltas among the events, in order.
pub open spec fn delta_text(events: Seq<ResponseEventView>) -> Seq<char>
    decreases events.len(),
{
    if events.len() == 0 {
        Seq::empty()
    } else {
        delta_text(events.drop_last()) + match events.last() {
            ResponseEventView::OutputTextDelta(t) => t,
            _ => Seq::empty(),
        }
    }
}

/// How many times the events announce an item.
pub open spec fn announcements(events: Seq<ResponseEventView>) -> nat
    decreases events.len(),
{
    if events.len() == 0 {
        0
    } else {
        announcements(events.drop_last()) + match events.last() {
            ResponseEventView::OutputItemAdded(_) => 1nat,
            _ => 0nat,
        }
    }
}

/// Every event finishes an item.
pub open spec fn only_finished_items(events: Seq<ResponseEventView>) -> bool {
    forall|i: int| 0 <= i < events.len() ==> #[trigger] events[i] is OutputItemDone
}

proof fn lemma_concat_events(a: Seq<ResponseEventView>, b: Seq<ResponseEventView>)
    ensures
        delta_text(a + b) == delta_text(a) + delta_text(b),
        announcements(a + b) == announcements(a) + announcements(b),
    decreases b.len(),
{
    if b.len() == 0 {
        assert(a + b =~= a);
        assert(delta_text(a) + delta_text(b) =~= delta_text(a));
    } else {
        lemma_concat_events(a, b.drop_last());
        assert((a + b).drop_last() =~= a + b.drop_last());
        assert(delta_text(a + b) =~= delta_text(a) + delta_text(b));
    }
}

proof fn lemma_finished_items_carry_nothing(events: Seq<ResponseEventView>)
    requires
        only_finished_items(events),
    ensures
        delta_text(events) == Seq::<char>::empty(),
        announcements(events) == 0,
    decreases events.len(),
{
    if events.len() > 0 {
        assert(events.last() is OutputItemDone);
        assert(only_finished_items(events.drop_last()));
        lemma_finished_items_carry_nothing(events.drop_last());
        assert(delta_text(events) =~= Seq::<char>::empty());
    }
}

proof fn lemma_flushed_calls_finish_items(pending: Seq<PendingView>)
    ensures
        only_finished_items(flushed_calls(pending)),
        delta_text(flushed_calls(pending)) == Seq::<char>::empty(),
        announcements(flushed_calls(pending)) == 0,
    decreases pending.len(),
{
    let f = |p: PendingView| finished_call(p);
    if pending.len() > 0 {
        lemma_flushed_calls_finish_items(pending.drop_last());
        assert(flushed_calls(pending.drop_last()) == pending.drop_last().filter_map(f));
        assert(only_finished_items(flushed_calls(pending)));
    }
    lemma_finished_items_carry_nothing(flushed_calls(pending));
}

proof fn lemma_step_choice(s: StreamView, c: ChoiceView)
    ensures
        ({
            let (s2, e) = step_choice(s, c);
            &&& s2.text == s.text + delta_text(e)
            &&& s.started ==> s2.started
            &&& announcements(e) == (if !s.started && s2.started {
                1nat
            } else {
                0nat
            })
            &&& s2.response_id == s.response_id
            &&& s2.usage == s.usage
        }),
{
    let (s1, e1) = step_content(s, c.content);
    match c.content {
        Some(text) => {
            let announce = if s.started {
                Seq::empty()
            } else {
                seq![ResponseEventView::OutputItemAdded(assistant_message(Seq::empty()))]
            };
            lemma_concat_events(announce, seq![ResponseEventView::OutputTextDelta(text)]);
            assert(announce.push(ResponseEventView::OutputTextDelta(text)) =~= announce + seq![
                ResponseEventView::OutputTextDelta(text),
            ]);
            reveal_with_fuel(delta_text, 2);
            reveal_with_fuel(announcements, 2);
            assert(delta_text(seq![ResponseEventView::OutputTextDelta(text)]) =~= text);
            assert(delta_text(announce) =~= Seq::<char>::empty());
            assert(s1.text =~= s.text + delta_text(e1));
        },
        None => {
            assert(s1.text =~= s.text + delta_text(e1));
        },
    }
    let s2 = match c.tool_calls {
        Some(ds) => StreamView { pending: apply_tool_deltas(s1.pending, ds), ..s1 },
        None => s1,
    };
    if c.finish_reason == Some("tool_calls"@) {
        lemma_flushed_calls_finish_items(s2.pending);
        lemma_concat_events(e1, flushed_calls(s2.pending));
        assert(s2.text + Seq::<char>::empty() =~= s2.text);
        assert(delta_text(e1) + Seq::<char>::empty() =~= delta_text(e1));
    }
}

proof fn lemma_step_choices(s: StreamView, cs: Seq<ChoiceView>)
    ensures
        ({
            let (s2, e) = step_choices(s, cs);
            &&& s2.text == s.text + delta_text(e)
            &&& s.started ==> s2.started
            &&& announcements(e) == (if !s.started && s2.started {
                1nat
            } else {
                0nat
            })
            &&& s2.response_id == s.response_id
        }),
    decreases cs.len(),
{
    if cs.len() == 0 {
        assert(s.text + delta_text(Seq::empty()) =~= s.text);
    } else {
        lemma_step_choices(s, cs.drop_last());
        let (s1, e1) = step_choices(s, cs.drop_last());
        lemma_step_choice(s1, cs.last());
        let (s2, e2) = step_choice(s1, cs.last());
        lemma_concat_events(e1, e2);
        assert(s2.text =~= s.text + delta_text(e1 + e2));
    }
}

/// Law of a chunk: the assistant text grows by exactly the text of the deltas
/// sent for the chunk; once announced, the assistant message stays announced,
/// and it is announced once, with the first delta; the first response id is
/// kept.
pub proof fn lemma_chunk_text_and_announcement(s: StreamView, chunk: ChunkView)
    ensures
        ({
            let (s2, e) = step_chunk(s, chunk);
            &&& s2.text == s.text + delta_text(e)
            &&& s.started ==> s2.started
            &&& announcements(e) == (if !s.started && s2.started {
                1nat
            } else {
                0nat
            })
            &&& s.response_id is Some ==> s2.response_id == s.response_id
        }),
{
    lemma_step_choices(step_header(s, chunk), chunk.choices);
}

/// The state and events after the chunks, in order.
pub open spec fn run_chunks(s: StreamView, chunks: Seq<ChunkView>) -> (
    StreamView,
    Seq<ResponseEventView>,
)
    decreases chunks.len(),
{
    if chunks.len() == 0 {
        (s, Seq::empty())
    } else {
        let (s1, e1) = run_chunks(s, chunks.drop_last());
        let (s2, e2) = step_chunk(s1, chunks.last());
        (s2, e1 + e2)
    }
}

/// All events of a stream that ends normally after the chunks: the opening
/// event, the events of each chunk, and the closing events.
pub open spec fn stream_events(chunks: Seq<ChunkView>) -> Seq<ResponseEventView> {
    let (s, e) = run_chunks(initial_stream(), chunks);
    seq![ResponseEventView::Created] + e + closing_events(s)
}

proof fn lemma_run_chunks(chunks: Seq<ChunkView>)
    ensures
        ({
            let (s, e) = run_chunks(initial_stream(), chunks);
            &&& s.text == delta_text(e)
            &&& announcements(e) == (if s.started {
                1nat
            } else {
                0nat
            })
        }),
    decreases chunks.len(),
{
    if chunks.len() == 0 {
        assert(delta_text(Seq::empty()) =~= Seq::<char>::empty());
    } else {
        lemma_run_chunks(chunks.drop_last());
        let (s1, e1) = run_chunks(initial_stream(), chunks.drop_last());
        lemma_chunk_text_and_announcement(s1, chunks.last());
        let (s2, e2) = step_chunk(s1, chunks.last());
        lemma_concat_events(e1, e2);
    }
}

/// Law of a whole stream: it opens with `Created` and ends with exactly one
/// `Completed`, as its last event; the assistant message is announced at most
/// once, and where it was, the stream finishes it with exactly the text of all
/// the deltas it sent.
pub proof fn lemma_stream_completes_with_streamed_text(chunks: Seq<ChunkView>)
    ensures
        ({
            let (s, e) = run_chunks(initial_stream(), chunks);
            let all = stream_events(chunks);
            &&& all[0] == ResponseEventView::Created
            &&& all.last() is Completed
            &&& forall|i: int| 0 <= i < all.len() - 1 ==> !(#[trigger] all[i] is Completed)
            &&& announcements(all) <= 1
            &&& s.started ==> all[all.len() - 2] == ResponseEventView::OutputItemDone(
                assistant_message(seq![ContentItemView::OutputText { text: delta_text(e) }]),
            )
        }),
{
    let (s, e) = run_chunks(initial_stream(), chunks);
    let all = stream_events(chunks);
    lemma_run_chunks(chunks);
    lemma_no_completed_in_chunks(initial_stream(), chunks);
    lemma_flushed_calls_finish_items(s.pending);
    let flushed = flushed_calls(s.pending);
    let message = if s.started {
        seq![
            ResponseEventView::OutputItemDone(
                assistant_message(seq![ContentItemView::OutputText { text: s.text }]),
            ),
        ]
    } else {
        Seq::empty()
    };
    let completed = seq![
        ResponseEventView::Completed {
            response_id: match s.response_id {
                Some(id) => id,
                None => "chatcmpl-adapter"@,
            },
            token_usage: s.usage,
            end_turn: None,
        },
    ];
    assert(closing_events(s) == flushed + message + completed);
    assert(all =~= seq![ResponseEventView::Created] + e + flushed + message + completed);
    assert forall|i: int| 0 <= i < all.len() - 1 implies !(#[trigger] all[i] is Completed) by {
        if i == 0 {
        } else if i < 1 + e.len() {
            assert(all[i] == e[i - 1]);
        } else if i < 1 + e.len() + flushed.len() {
            assert(all[i] == flushed[i - 1 - e.len()]);
        } else {
            assert(all[i] == message[i - 1 - e.len() - flushed.len()]);
        }
    }
    lemma_concat_events(seq![ResponseEventView::Created], e);
    lemma_concat_events(seq![ResponseEventView::Created] + e, flushed);
    lemma_concat_events(seq![ResponseEventView::Created] + e + flushed, message);
    lemma_concat_events(seq![ResponseEventView::Created] + e + flushed + message, completed);
    reveal_with_fuel(announcements, 2);
    if s.started {
        assert(all[all.len() - 2] == message[0]);
    }
}

proof fn lemma_no_completed_in_choices(s: StreamView, cs: Seq<ChoiceView>)
    ensures
        forall|i: int|
            0 <= i < step_choices(s, cs).1.len() ==> !(#[trigger] step_choices(s, cs).1[i] is Completed),
    decreases cs.len(),
{
    if cs.len() > 0 {
        lemma_no_completed_in_choices(s, cs.drop_last());
        let (s1, e1) = step_choices(s, cs.drop_last());
        let (s2, e2) = step_choice(s1, cs.last());
        let (s3, e3) = step_content(s1, cs.last().content);
        let p = match cs.last().tool_calls {
            Some(ds) => apply_tool_deltas(s3.pending, ds),
            None => s3.pending,
        };
        lemma_flushed_calls_finish_items(p);
        assert forall|i: int| 0 <= i < e2.len() implies !(#[trigger] e2[i] is Completed) by {
            if i >= e3.len() {
                assert(e2[i] == flushed_calls(p)[i - e3.len()]);
            }
        }
        let all = e1 + e2;
        assert forall|i: int| 0 <= i < all.len() implies !(#[trigger] all[i] is Completed) by {
            if i >= e1.len() {
                assert(all[i] == e2[i - e1.len()]);
            }
        }
    }
}

proof fn lemma_no_completed_in_chunks(s: StreamView, chunks: Seq<ChunkView>)
    ensures
        forall|i: int|
            0 <= i < run_chunks(s, chunks).1.len() ==> !(#[trigger] run_chunks(s, chunks).1[i] is Completed),
    decreases chunks.len(),
{
    if chunks.len() > 0 {
        lemma_no_completed_in_chunks(s, chunks.drop_last());
        let (s1, e1) = run_chunks(s, chunks.drop_last());
        lemma_no_completed_in_choices(step_header(s1, chunks.last()), chunks.last().choices);
        let e2 = step_chunk(s1, chunks.last()).1;
        let all = e1 + e2;
        assert forall|i: int| 0 <= i < all.len() implies !(#[trigger] all[i] is Completed) by {
            if i >= e1.len() {
                assert(all[i] == e2[i - e1.len()]);
            }
        }
    }
}


/// The tool call at position `k`; an empty one where there is none yet.
pub open spec fn pending_at(pending: Seq<PendingView>, k: int) -> PendingView {
    if 0 <= k < pending.len() {
        pending[k]
    } else {
        empty_pending()
    }
}

/// The tool call `p` after the fragments for position `k`, in order; the
/// fragments for other positions are skipped.
pub open spec fn merge_fragments(p: PendingView, ds: Seq<DeltaToolCallView>, k: int) -> PendingView
    decreases ds.len(),
{
    if ds.len() == 0 {
        p
    } else {
        let q = merge_fragments(p, ds.drop_last(), k);
        if ds.last().index == k {
            merge_delta(q, ds.last())
        } else {
            q
        }
    }
}

/// The argument fragments for position `k`, concatenated in order.
pub open spec fn argument_fragments(ds: Seq<DeltaToolCallView>, k: int) -> Seq<char>
    decreases ds.len(),
{
    if ds.len() == 0 {
        Seq::empty()
    } else {
        argument_fragments(ds.drop_last(), k) + if ds.last().index == k {
            match ds.last().function {
                Some(f) => match f.arguments {
                    Some(a) => a,
                    None => Seq::empty(),
                },
                None => Seq::empty(),
            }
        } else {
            Seq::empty()
        }
    }
}

/// Law of tool-call gathering: the tool call at each position is built from
/// the fragments for that position alone, in the order they came; fragments
/// for other positions leave it as it is.
pub proof fn lemma_tool_call_positions_independent(
    pending: Seq<PendingView>,
    ds: Seq<DeltaToolCallView>,
    k: int,
)
    ensures
        pending_at(apply_tool_deltas(pending, ds), k) == merge_fragments(
            pending_at(pending, k),
            ds,
            k,
        ),
    decreases ds.len(),
{
    if ds.len() > 0 {
        lemma_tool_call_positions_independent(pending, ds.drop_last(), k);
        let q = apply_tool_deltas(pending, ds.drop_last());
        let d = ds.last();
        let g = grow_pending(q, d.index as int);
        assert(pending_at(g, k) == pending_at(q, k));
    }
}

/// Law of tool-call gathering: the arguments of the tool call at each
/// position are the arguments known before, followed by the argument fragments
/// for that position, concatenated in the order they came.
pub proof fn lemma_tool_call_arguments_concatenate(
    pending: Seq<PendingView>,
    ds: Seq<DeltaToolCallView>,
    k: int,
)
    ensures
        pending_at(apply_tool_deltas(pending, ds), k).arguments == pending_at(pending, k).arguments
            + argument_fragments(ds, k),
    decreases ds.len(),
{
    lemma_tool_call_positions_independent(pending, ds, k);
    lemma_merge_fragments_arguments(pending_at(pending, k), ds, k);
}

proof fn lemma_merge_fragments_arguments(p: PendingView, ds: Seq<DeltaToolCallView>, k: int)
    ensures
        merge_fragments(p, ds, k).arguments == p.arguments + argument_fragments(ds, k),
    decreases ds.len(),
{
    if ds.len() == 0 {
        assert(p.arguments + Seq::<char>::empty() =~= p.arguments);
    } else {
        lemma_merge_fragments_arguments(p, ds.drop_last(), k);
        let q = merge_fragments(p, ds.drop_last(), k);
        assert(merge_fragments(p, ds, k).arguments =~= p.arguments + argument_fragments(ds, k));
    }
}


/// The contents of the choices, concatenated in order.
pub open spec fn choices_content(cs: Seq<ChoiceView>) -> Seq<char>
    decreases cs.len(),
{
    if cs.len() == 0 {
        Seq::empty()
    } else {
        choices_content(cs.drop_last()) + match cs.last().content {
            Some(t) => t,
            None => Seq::empty(),
        }
    }
}

/// Law of a choice: its content, whatever it holds, is appended to the
/// assistant text and forwarded as one delta carrying exactly that content,
/// right after the announcement of the assistant message where it was not
/// announced yet; a choice without content leaves the text and the
/// announcement alone and sends neither a delta nor an announcement.
pub proof fn lemma_choice_forwards_content(s: StreamView, c: ChoiceView)
    ensures
        ({
            let (s2, e) = step_choice(s, c);
            match c.content {
                Some(t) => {
                    &&& s2.text == s.text + t
                    &&& s2.started
                    &&& if s.started {
                        e.len() >= 1 && e[0] == ResponseEventView::OutputTextDelta(t)
                    } else {
                        &&& e.len() >= 2
                        &&& e[0] == ResponseEventView::OutputItemAdded(
                            ResponseItemView::Message { id: None, role: "assistant"@, content: Seq::empty() },
                        )
                        &&& e[1] == ResponseEventView::OutputTextDelta(t)
                    }
                },
                None => {
                    &&& s2.text == s.text
                    &&& s2.started == s.started
                    &&& forall|i: int| 0 <= i < e.len() ==> #[trigger] e[i] is OutputItemDone
                },
            }
        }),
{
    let (s1, e1) = step_content(s, c.content);
    let s2p = match c.tool_calls {
        Some(ds) => StreamView { pending: apply_tool_deltas(s1.pending, ds), ..s1 },
        None => s1,
    };
    lemma_flushed_calls_finish_items(s2p.pending);
    let (s2, e) = step_choice(s, c);
    if c.finish_reason == Some("tool_calls"@) {
        let f = flushed_calls(s2p.pending);
        assert(e == e1 + f);
        assert forall|i: int| e1.len() <= i < e.len() implies #[trigger] e[i] is OutputItemDone by {
            assert(e[i] == f[i - e1.len()]);
        }
        assert forall|i: int| 0 <= i < e1.len() implies e[i] == e1[i] by {}
    }
    match c.content {
        Some(t) => {},
        None => {
            assert(e1.len() == 0);
        },
    }
}

proof fn lemma_choices_content(s: StreamView, cs: Seq<ChoiceView>)
    ensures
        step_choices(s, cs).0.text == s.text + choices_content(cs),
    decreases cs.len(),
{
    if cs.len() == 0 {
        assert(s.text + choices_content(cs) =~= s.text);
    } else {
        lemma_choices_content(s, cs.drop_last());
        let (s1, e1) = step_choices(s, cs.drop_last());
        lemma_choice_forwards_content(s1, cs.last());
        assert(step_choices(s, cs).0.text =~= s.text + choices_content(cs));
    }
}

/// Law of a chunk: the assistant text grows by exactly the contents of its
/// choices, concatenated in order, and the deltas sent for the chunk carry
/// exactly that text; nothing of the content is dropped or added.
pub proof fn lemma_chunk_forwards_all_content(s: StreamView, chunk: ChunkView)
    ensures
        step_chunk(s, chunk).0.text == s.text + choices_content(chunk.choices),
        delta_text(step_chunk(s, chunk).1) == choices_content(chunk.choices),
{
    let h = step_header(s, chunk);
    lemma_choices_content(h, chunk.choices);
    lemma_chunk_text_and_announcement(s, chunk);
    let t2 = step_chunk(s, chunk).0.text;
    assert(s.text + delta_text(step_chunk(s, chunk).1) == s.text + choices_content(chunk.choices));
    assert(delta_text(step_chunk(s, chunk).1) =~= (s.text + delta_text(step_chunk(s, chunk).1)).subrange(
        s.text.len() as int,
        t2.len() as int,
    ));
    assert(choices_content(chunk.choices) =~= (s.text + choices_content(chunk.choices)).subrange(
        s.text.len() as int,
        t2.len() as int,
    ));
}


/// Law of a chunk's header: the response id is the id of the first chunk that
/// carried one, and the token counts are those of the last chunk that carried
/// them, the prompt tokens as input tokens and the completion tokens as
/// output tokens, with no cached or reasoning tokens.
pub proof fn lemma_chunk_header(s: StreamView, chunk: ChunkView)
    ensures
        ({
            let s2 = step_chunk(s, chunk).0;
            &&& s.response_id is Some ==> s2.response_id == s.response_id
            &&& s.response_id is None ==> s2.response_id == chunk.id
            &&& match chunk.usage {
                Some(u) => s2.usage == Some(
                    TokenUsage {
                        input_tokens: u.prompt_tokens,
                        cached_input_tokens: 0,
                        output_tokens: u.completion_tokens,
                        reasoning_output_tokens: 0,
                        total_tokens: u.total_tokens,
                    },
                ),
                None => s2.usage == s.usage,
            }
        }),
{
    lemma_choices_keep_header(step_header(s, chunk), chunk.choices);
}

proof fn lemma_choices_keep_header(s: StreamView, cs: Seq<ChoiceView>)
    ensures
        step_choices(s, cs).0.response_id == s.response_id,
        step_choices(s, cs).0.usage == s.usage,
    decreases cs.len(),
{
    if cs.len() > 0 {
        lemma_choices_keep_header(s, cs.drop_last());
        lemma_step_choice(step_choices(s, cs.drop_last()).0, cs.last());
    }
}

/// Law of flushing: one more gathered tool call adds, after the events of the
/// calls before it, the function call item with its call id, name and
/// arguments, where it has an id and a name, and nothing otherwise.
pub proof fn lemma_flushed_calls_push(pending: Seq<PendingView>, p: PendingView)
    ensures
        flushed_calls(pending.push(p)) == flushed_calls(pending) + match (p.id, p.name) {
            (Some(call_id), Some(name)) => seq![
                ResponseEventView::OutputItemDone(
                    ResponseItemView::FunctionCall {
                        id: None,
                        name,
                        namespace: None,
                        arguments: p.arguments,
                        call_id,
                    },
                ),
            ],
            _ => Seq::empty(),
        },
{
    let f = |q: PendingView| finished_call(q);
    assert(pending.push(p).drop_last() =~= pending);
    assert(pending.push(p).last() == p);
    assert(flushed_calls(pending.push(p)) == pending.push(p).filter_map(f));
    assert(flushed_calls(pending) == pending.filter_map(f));
    match (p.id, p.name) {
        (Some(call_id), Some(name)) => {},
        _ => {
            assert(flushed_calls(pending) + Seq::empty() =~= flushed_calls(pending));
        },
    }
}

/// Law of one tool-call fragment: at its position, a given id or name replaces
/// the one known and is kept otherwise, and its argument fragment is appended
/// to the arguments; every other position keeps its tool call.
pub proof fn lemma_tool_delta_at_its_position(pending: Seq<PendingView>, d: DeltaToolCallView, k: int)
    ensures
        ({
            let after = pending_at(apply_tool_delta(pending, d), k);
            let before = pending_at(pending, k);
            if k == d.index {
                &&& after.id == (match d.id {
                    Some(id) => Some(id),
                    None => before.id,
                })
                &&& after.name == (match d.function {
                    Some(f) => match f.name {
                        Some(n) => Some(n),
                        None => before.name,
                    },
                    None => before.name,
                })
                &&& after.arguments == before.arguments + match d.function {
                    Some(f) => match f.arguments {
                        Some(a) => a,
                        None => Seq::empty(),
                    },
                    None => Seq::empty(),
                }
            } else {
                after == before
            }
        }),
{
    let g = grow_pending(pending, d.index as int);
    assert(pending_at(g, k) == pending_at(pending, k));
    match d.function {
        Some(f) => match f.arguments {
            Some(a) => {},
            None => {
                assert(pending_at(pending, k).arguments + Seq::<char>::empty() =~= pending_at(
                    pending,
                    k,
                ).arguments);
            },
        },
        None => {
            assert(pending_at(pending, k).arguments + Seq::<char>::empty() =~= pending_at(
                pending,
                k,
            ).arguments);
        },
    }
}

/// Law of a choice's finish: a choice that finishes for tool calls sends the
/// gathered tool calls and leaves none pending; any other choice sends no
/// finished item and drops no tool call.
pub proof fn lemma_choice_finish(s: StreamView, c: ChoiceView)
    ensures
        ({
            let (s2, e) = step_choice(s, c);
            let gathered = match c.tool_calls {
                Some(ds) => apply_tool_deltas(s.pending, ds),
                None => s.pending,
            };
            if c.finish_reason == Some("tool_calls"@) {
                &&& s2.pending.len() == 0
                &&& e.subrange(e.len() - flushed_calls(gathered).len(), e.len() as int)
                    == flushed_calls(gathered)
            } else {
                &&& s2.pending == gathered
                &&& forall|i: int| 0 <= i < e.len() ==> !(#[trigger] e[i] is OutputItemDone)
            }
        }),
{
    let (s1, e1) = step_content(s, c.content);
    let (s2, e) = step_choice(s, c);
    if c.finish_reason == Some("tool_calls"@) {
        let gathered = match c.tool_calls {
            Some(ds) => apply_tool_deltas(s.pending, ds),
            None => s.pending,
        };
        assert(e.subrange(e1.len() as int, e.len() as int) =~= flushed_calls(gathered));
    }
}

/// Law of closing: the closing events send the gathered tool calls, then the
/// finished assistant message with its text where it was announced, and last
/// the completion, with the first response id (a fixed one where no chunk
/// carried one) and the last token counts.
pub proof fn lemma_closing_events(s: StreamView)
    ensures
        ({
            let e = closing_events(s);
            let f = flushed_calls(s.pending);
            &&& e.subrange(0, f.len() as int) == f
            &&& e.last() == ResponseEventView::Completed {
                response_id: match s.response_id {
                    Some(id) => id,
                    None => "chatcmpl-adapter"@,
                },
                token_usage: s.usage,
                end_turn: None,
            }
            &&& s.started ==> e.len() == f.len() + 2 && e[f.len() as int]
                == ResponseEventView::OutputItemDone(
                ResponseItemView::Message {
                    id: None,
                    role: "assistant"@,
                    content: seq![ContentItemView::OutputText { text: s.text }],
                },
            )
            &&& !s.started ==> e.len() == f.len() + 1
        }),
{
    let e = closing_events(s);
    let f = flushed_calls(s.pending);
    assert(e.subrange(0, f.len() as int) =~= f);
}

// ---------------------------------------------------------------------------
// The executable state machine.

/// Adds one fragment to the tool calls being gathered.
fn apply_tool_call_delta(pending: &mut Vec<PendingToolCall>, delta: &ChatDeltaToolCall)
    requires
        delta.index < usize::MAX,
    ensures
        final(pending).deep_view() == apply_tool_delta(old(pending).deep_view(), delta.deep_view()),
{
    let index = delta.index;
    let ghost p0 = pending.deep_view();
    if pending.len() <= index {
        while pending.len() <= index
            invariant
                index < usize::MAX,
                p0.len() <= pending@.len() <= index + 1,
                forall|j: int| 0 <= j < p0.len() ==> pending.deep_view()[j] == p0[j],
                forall|j: int|
                    p0.len() <= j < pending@.len() ==> pending.deep_view()[j] == empty_pending(),
            decreases index + 1 - pending@.len(),
        {
            let ghost before = pending.deep_view();
            let fresh = PendingToolCall { id: None, name: None, arguments: String::new() };
            assert(fresh.deep_view() == empty_pending()) by {
                assert(fresh.arguments@ =~= Seq::<char>::empty());
            }
            pending.push(fresh);
            assert(pending.deep_view() =~= before.push(empty_pending()));
        }
        assert(pending.deep_view() =~= grow_pending(p0, index as int));
    } else {
        assert(pending.deep_view() =~= grow_pending(p0, index as int));
    }
    let cur = &pending[index];
    let id = match &delta.id {
        Some(id) => Some(clone_string(id)),
        None => clone_opt_string(&cur.id),
    };
    let name = match &delta.function {
        Some(f) => match &f.name {
            Some(n) => Some(clone_string(n)),
            None => clone_opt_string(&cur.name),
        },
        None => clone_opt_string(&cur.name),
    };
    let mut arguments = clone_string(&cur.arguments);
    match &delta.function {
        Some(f) => match &f.arguments {
            Some(a) => {
                arguments.append(a.as_str());
            },
            None => {},
        },
        None => {},
    }
    let merged = PendingToolCall { id, name, arguments };
    assert(merged.deep_view() == merge_delta(grow_pending(p0, index as int)[index as int], delta.deep_view()));
    pending.set(index, merged);
    assert(pending.deep_view() =~= apply_tool_delta(p0, delta.deep_view()));
}

/// Whether every tool-call fragment of the chunk names a position below
/// `usize::MAX`, as `ChatStreamState::process_chunk` needs.
pub fn chunk_indices_fit(chunk: &ChatCompletionChunk) -> (res: bool)
    ensures
        res == chunk_indices_in_range(chunk@),
{
    let ghost cs = chunk.choices.deep_view();
    let n = chunk.choices.len();
    let mut i: usize = 0;
    while i < n
        invariant
            n == chunk.choices@.len(),
            i <= n,
            cs == chunk.choices.deep_view(),
            cs == chunk@.choices,
            forall|k: int| 0 <= k < i ==> #[trigger] choice_indices_in_range(cs[k]),
        decreases n - i,
    {
        if let Some(ds) = &chunk.choices[i].delta.tool_calls {
            let ghost dv = ds.deep_view();
            assert(cs[i as int].tool_calls == Some(dv));
            let m = ds.len();
            let mut j: usize = 0;
            while j < m
                invariant
                    i < n,
                    n == cs.len(),
                    cs == chunk@.choices,
                    cs[i as int].tool_calls == Some(dv),
                    m == ds@.len(),
                    j <= m,
                    dv == ds.deep_view(),
                    forall|k: int| 0 <= k < j ==> #[trigger] dv[k].index < usize::MAX,
                decreases m - j,
            {
                if ds[j].index == usize::MAX {
                    assert(dv[j as int].index == usize::MAX);
                    assert(!choice_indices_in_range(cs[i as int]));
                    assert(!chunk_indices_in_range(chunk@));
                    return false;
                }
                j = j + 1;
            }
            assert(choice_indices_in_range(cs[i as int]));
        }
        i = i + 1;
    }
    true
}

/// Whether a choice finished in order to call tools.
fn finished_for_tool_calls(reason: &Option<String>) -> (res: bool)
    ensures
        res == (reason.deep_view() == Some("tool_calls"@)),
{
    match reason {
        Some(r) => {
            let tool_calls = "tool_calls".to_owned();
            *r == tool_calls
        },
        None => false,
    }
}

/// Whether the data of a server-sent event marks the end of the stream.
pub fn is_done_marker(data: &str) -> (res: bool)
    ensures
        res == (data@ == "[DONE]"@),
{
    let data = data.to_owned();
    let done = "[DONE]".to_owned();
    data == done
}

impl ChatStreamState {
    /// The state of a new stream, and the event that opens it.
    pub fn start() -> (res: (ChatStreamState, ResponseEvent))
        ensures
            res.0@ == initial_stream(),
            res.1@ == ResponseEventView::Created,
    {
        let state = ChatStreamState {
            response_id: None,
            pending_tool_calls: Vec::new(),
            usage: None,
            assistant_message_started: false,
            assistant_message_text: String::new(),
        };
        proof {
            assert(state@.pending =~= Seq::<PendingView>::empty());
        }
        (state, ResponseEvent::Created)
    }

    /// Announces the assistant message, unless it was announced already.
    fn ensure_assistant_message_started(&mut self, events: &mut Vec<ResponseEvent>)
        ensures
            final(self)@ == (StreamView { started: true, ..old(self)@ }),
            final(events).deep_view() == old(events).deep_view() + (if old(self)@.started {
                Seq::empty()
            } else {
                seq![ResponseEventView::OutputItemAdded(assistant_message(Seq::empty()))]
            }),
    {
        if self.assistant_message_started {
            assert(events.deep_view() =~= old(events).deep_view() + Seq::empty());
            return ;
        }
        self.assistant_message_started = true;
        let item = ResponseItem::Message {
            id: None,
            role: "assistant".to_owned(),
            content: Vec::new(),
        };
        events.push(ResponseEvent::OutputItemAdded(item));
        proof {
            let ev = events@[events@.len() - 1];
            assert(ev@ == ResponseEventView::OutputItemAdded(assistant_message(Seq::empty()))) by {
                match ev {
                    ResponseEvent::OutputItemAdded(ResponseItem::Message { id, role, content }) => {
                        assert(content.deep_view() =~= Seq::<ContentItemView>::empty());
                    },
                    _ => {},
                }
            }
            assert(events.deep_view() =~= old(events).deep_view() + seq![
                ResponseEventView::OutputItemAdded(assistant_message(Seq::empty())),
            ]);
        }
    }

    /// Takes one choice of a chunk.
    fn process_choice(&mut self, choice: &ChatChoice, events: &mut Vec<ResponseEvent>)
        requires
            choice_indices_in_range(choice.deep_view()),
        ensures
            final(self)@ == step_choice(old(self)@, choice.deep_view()).0,
            final(events).deep_view() == old(events).deep_view() + step_choice(
                old(self)@,
                choice.deep_view(),
            ).1,
    {
        let ghost s0 = self@;
        let ghost e0 = events.deep_view();
        let ghost c = choice.deep_view();
        if let Some(content) = &choice.delta.content {
            self.ensure_assistant_message_started(events);
            let ghost e_mid = events.deep_view();
            self.assistant_message_text.append(content.as_str());
            let delta = ResponseEvent::OutputTextDelta(clone_string(content));
            assert(delta@ == ResponseEventView::OutputTextDelta(content@));
            events.push(delta);
            assert(events.deep_view() =~= e_mid.push(ResponseEventView::OutputTextDelta(content@)));
            assert(c.content == Some(content@));
            assert(self@ == step_content(s0, c.content).0);
            assert(events.deep_view() =~= e0 + step_content(s0, c.content).1);
        } else {
            assert(events.deep_view() =~= e0 + step_content(s0, c.content).1);
        }
        let ghost s1 = self@;
        if let Some(tool_calls) = &choice.delta.tool_calls {
            let ghost ds = tool_calls.deep_view();
            let n = tool_calls.len();
            let mut i: usize = 0;
            assert(ds.take(0) =~= Seq::<DeltaToolCallView>::empty());
            while i < n
                invariant
                    n == tool_calls@.len(),
                    i <= n,
                    ds == tool_calls.deep_view(),
                    forall|j: int| 0 <= j < ds.len() ==> #[trigger] ds[j].index < usize::MAX,
                    self@ == (StreamView { pending: apply_tool_deltas(s1.pending, ds.take(i as int)), ..s1 }),
                decreases n - i,
            {
                assert(ds[i as int].index < usize::MAX);
                apply_tool_call_delta(&mut self.pending_tool_calls, &tool_calls[i]);
                assert(ds.take(i + 1).drop_last() =~= ds.take(i as int));
                i = i + 1;
            }
            assert(ds.take(n as int) =~= ds);
        }
        if finished_for_tool_calls(&choice.finish_reason) {
            self.flush_tool_calls(events);
        } else {
            assert(events.deep_view() =~= e0 + step_choice(s0, c).1);
        }
    }

    /// Takes one parsed chunk, and returns the events to send for it.
    pub fn process_chunk(&mut self, chunk: ChatCompletionChunk) -> (events: Vec<ResponseEvent>)
        requires
            chunk_indices_in_range(chunk@),
        ensures
            (final(self)@, events.deep_view()) == step_chunk(old(self)@, chunk@),
    {
        let ghost ch = chunk@;
        let ChatCompletionChunk { id, choices, usage } = chunk;
        if self.response_id.is_none() {
            self.response_id = id;
        }
        if let Some(u) = usage {
            self.usage = Some(
                TokenUsage {
                    input_tokens: u.prompt_tokens,
                    cached_input_tokens: 0,
                    output_tokens: u.completion_tokens,
                    reasoning_output_tokens: 0,
                    total_tokens: u.total_tokens,
                },
            );
        }
        let ghost sh = self@;
        assert(sh == step_header(old(self)@, ch));
        let mut events: Vec<ResponseEvent> = Vec::new();
        let n = choices.len();
        let mut i: usize = 0;
        assert(ch.choices.take(0) =~= Seq::<ChoiceView>::empty());
        assert(events.deep_view() =~= Seq::<ResponseEventView>::empty());
        while i < n
            invariant
                n == choices@.len(),
                i <= n,
                ch.choices == choices.deep_view(),
                chunk_indices_in_range(ch),
                (self@, events.deep_view()) == step_choices(sh, ch.choices.take(i as int)),
            decreases n - i,
        {
            assert(choice_indices_in_range(ch.choices[i as int]));
            self.process_choice(&choices[i], &mut events);
            assert(ch.choices.take(i + 1).drop_last() =~= ch.choices.take(i as int));
            i = i + 1;
        }
        assert(ch.choices.take(n as int) =~= ch.choices);
        events
    }

    /// Closes the stream, and returns the last events to send.
    pub fn finish(self) -> (events: Vec<ResponseEvent>)
        ensures
            events.deep_view() == closing_events(self@),
    {
        let ghost s = self@;
        let mut state = self;
        let mut events: Vec<ResponseEvent> = Vec::new();
        state.flush_tool_calls(&mut events);
        let ghost e1 = events.deep_view();
        assert(e1 =~= flushed_calls(s.pending));
        let ChatStreamState {
            response_id,
            pending_tool_calls: _,
            usage,
            assistant_message_started,
            assistant_message_text,
        } = state;
        if assistant_message_started {
            let mut content: Vec<ContentItem> = Vec::new();
            content.push(ContentItem::OutputText { text: assistant_message_text });
            assert(content.deep_view() =~= seq![ContentItemView::OutputText { text: s.text }]);
            let item = ResponseItem::Message { id: None, role: "assistant".to_owned(), content };
            events.push(ResponseEvent::OutputItemDone(item));
        }
        let response_id = match response_id {
            Some(id) => id,
            None => "chatcmpl-adapter".to_owned(),
        };
        events.push(ResponseEvent::Completed { response_id, token_usage: usage, end_turn: None });
        assert(events.deep_view() =~= closing_events(s));
        events
    }

    /// Sends the gathered tool calls that have an id and a name, and forgets
    /// all of them.
    fn flush_tool_calls(&mut self, events: &mut Vec<ResponseEvent>)
        ensures
            final(self)@ == (StreamView { pending: Seq::empty(), ..old(self)@ }),
            final(events).deep_view() == old(events).deep_view() + flushed_calls(
                old(self)@.pending,
            ),
    {
        let mut pending: Vec<PendingToolCall> = Vec::new();
        std::mem::swap(&mut pending, &mut self.pending_tool_calls);
        let ghost all = pending.deep_view();
        let ghost start = events.deep_view();
        let ghost f = |p: PendingView| finished_call(p);
        let n = pending.len();
        let mut i: usize = 0;
        while i < n
            invariant
                n == pending@.len(),
                i <= n,
                all == pending.deep_view(),
                f == (|p: PendingView| finished_call(p)),
                events.deep_view() == start + all.take(i as int).filter_map(f),
            decreases n - i,
        {
            proof {
                all.lemma_filter_map_take_succ(f, i as int);
            }
            let p = &pending[i];
            assert(all[i as int] == p.deep_view());
            let ghost before = events.deep_view();
            match (&p.id, &p.name) {
                (Some(call_id), Some(name)) => {
                    let item = ResponseItem::FunctionCall {
                        id: None,
                        name: clone_string(name),
                        namespace: None,
                        arguments: clone_string(&p.arguments),
                        call_id: clone_string(call_id),
                    };
                    events.push(ResponseEvent::OutputItemDone(item));
                    assert(f(all[i as int]) == Some(events@[events@.len() - 1]@));
                    assert(events.deep_view() =~= before.push(events@[events@.len() - 1]@));
                },
                _ => {
                    assert(f(all[i as int]) is None);
                },
            }
            proof {
                assert(events.deep_view() =~= start + all.take(i + 1).filter_map(f));
            }
            i = i + 1;
        }
        proof {
            assert(all.take(all.len() as int) =~= all);
            assert(self@.pending =~= Seq::<PendingView>::empty());
        }
    }
}

} // verus!

//! The chat loop as a machine: what is read, sent, shown and kept, turn by turn.

use vstd::prelude::*;

use crate::chat::{trim_chat_history_to_context, trim_result};
use crate::messages::{
    call_views, duplicate_messages, message_views, seen_message, vision_user_message,
    ChatCompletionToolCall, ChatMessage, ContentView, MessageContent, MessageView,
};
use crate::text::{
    decimal, is_blank, join3, join5, str_contains_char, str_eq, str_is_blank, str_trim, trimmed,
    usize_text, views,
};

verus! {

// ---------------------------------------------------------------------------
// What the user typed
// ---------------------------------------------------------------------------

/// What a line of input asks for.
#[derive(Debug)]
pub enum ChatInput {
    /// Nothing was said.
    Skip,
    /// The conversation is over.
    Leave,
    /// This was said.
    Say(String),
}

pub open spec fn is_farewell(line: Seq<char>) -> bool {
    trimmed(line) == "/exit"@ || trimmed(line) == "/quit"@
}

pub fn chat_input(line: &str) -> (r: ChatInput)
    ensures
        match r {
            ChatInput::Skip => trimmed(line@).len() == 0,
            ChatInput::Leave => is_farewell(line@),
            ChatInput::Say(text) => trimmed(line@).len() > 0 && !is_farewell(line@) && text@
                == trimmed(line@),
        },
{
    let input = str_trim(line);
    if input.as_str().unicode_len() == 0 {
        ChatInput::Skip
    } else if str_eq(input.as_str(), "/exit") || str_eq(input.as_str(), "/quit") {
        ChatInput::Leave
    } else {
        ChatInput::Say(input)
    }
}

pub fn chat_greeting(model: &str) -> (r: String)
    ensures
        r@ == "Chatting with "@ + model@ + ". Type /exit or /quit to stop."@,
{
    join3("Chatting with ", model, ". Type /exit or /quit to stop.")
}

/// The messages of a turn. With a history, what is said joins it and all of it
/// is sent; without one, only what is said is sent and nothing is kept.
pub fn request_messages_for_turn(
    history: &mut Vec<ChatMessage>,
    user_message: ChatMessage,
    history_enabled: bool,
) -> (r: Vec<ChatMessage>)
    ensures
        if history_enabled {
            message_views(final(history)@) == message_views(old(history)@).push(user_message@)
                && message_views(r@) == message_views(final(history)@)
        } else {
            *final(history) == *old(history) && message_views(r@) == seq![user_message@]
        },
{
    if history_enabled {
        let ghost before = history@;
        history.push(user_message);
        assert(message_views(history@) =~= message_views(before).push(user_message@));
        duplicate_messages(history)
    } else {
        let mut r: Vec<ChatMessage> = Vec::new();
        r.push(user_message);
        assert(message_views(r@) =~= seq![user_message@]);
        r
    }
}

// ---------------------------------------------------------------------------
// A turn
// ---------------------------------------------------------------------------

/// A conversation.
pub struct Conversation {
    pub messages: Vec<ChatMessage>,
    pub history_enabled: bool,
    /// The images that go with everything that is said.
    pub images: Vec<String>,
}

/// What is sent, and how many messages were forgotten to make room.
pub struct TurnRequest {
    pub messages: Vec<ChatMessage>,
    pub forgotten: usize,
}

pub open spec fn turn_messages(
    history: Seq<MessageView>,
    said: MessageView,
    history_enabled: bool,
) -> Seq<MessageView> {
    if history_enabled {
        history.push(said)
    } else {
        seq![said]
    }
}

/// Making room for the turn may be given up with this message.
pub open spec fn turn_is_refused<R: Fn(&Vec<ChatMessage>) -> usize>(
    render: R,
    whole: Seq<MessageView>,
    context_size: Option<usize>,
    max_tokens: usize,
    message: Seq<char>,
) -> bool {
    exists|cut: Seq<MessageView>| #[trigger]
        trim_result(render, whole, cut, context_size, max_tokens, Err(message))
}

impl Conversation {
    /// The messages of the turn in which this is said.
    pub open spec fn turn(&self, input: Seq<char>) -> Seq<MessageView> {
        turn_messages(
            message_views(self.messages@),
            seen_message(input, views(self.images@)),
            self.history_enabled,
        )
    }

    /// Starts a turn. With a history, what was forgotten to make room is gone
    /// from it.
    pub fn begin_turn<R: Fn(&Vec<ChatMessage>) -> usize>(
        &mut self,
        render: R,
        input: &str,
        context_size: Option<usize>,
        max_tokens: usize,
    ) -> (r: Result<TurnRequest, String>)
        requires
            forall|v: &Vec<ChatMessage>| #[trigger] call_requires(render, (v,)),
        ensures
            final(self).history_enabled == old(self).history_enabled,
            final(self).images == old(self).images,
            !old(self).history_enabled ==> final(self).messages == old(self).messages,
            r matches Ok(request) ==> trim_result(
                render,
                old(self).turn(input@),
                message_views(request.messages@),
                context_size,
                max_tokens,
                Ok(request.forgotten as nat),
            ) && (old(self).history_enabled ==> message_views(final(self).messages@)
                == message_views(request.messages@)),
            r matches Err(message) ==> turn_is_refused(
                render,
                old(self).turn(input@),
                context_size,
                max_tokens,
                message@,
            ) && (old(self).history_enabled ==> message_views(final(self).messages@) == old(
                self,
            ).turn(input@)),
    {
        let said = vision_user_message(input, &self.images);
        let ghost said_view = said@;
        let ghost before = message_views(self.messages@);
        let mut request = request_messages_for_turn(
            &mut self.messages,
            said,
            self.history_enabled,
        );
        let ghost whole = message_views(request@);
        assert(whole == turn_messages(before, said_view, self.history_enabled));
        let forgotten: usize = match trim_chat_history_to_context(
            render,
            &mut request,
            context_size,
            max_tokens,
        ) {
            Ok(forgotten) => forgotten,
            Err(message) => {
                assert(trim_result(
                    render,
                    whole,
                    message_views(request@),
                    context_size,
                    max_tokens,
                    Err(message@),
                ));
                assert(turn_is_refused(render, whole, context_size, max_tokens, message@));
                return Err(message);
            },
        };
        if self.history_enabled {
            self.messages = duplicate_messages(&request);
        }
        Ok(TurnRequest { messages: request, forgotten })
    }

    /// Keeps an answer, where there is a history and something was answered.
    pub fn keep_answer(&mut self, answer: &str)
        ensures
            final(self).history_enabled == old(self).history_enabled,
            final(self).images == old(self).images,
            message_views(final(self).messages@) == if old(self).history_enabled && !is_blank(
                answer@,
            ) {
                message_views(old(self).messages@).push(
                    crate::messages::plain_message("assistant"@, answer@),
                )
            } else {
                message_views(old(self).messages@)
            },
    {
        if self.history_enabled && !str_is_blank(answer) {
            let ghost before = self.messages@;
            let message = ChatMessage::plain("assistant", answer);
            self.messages.push(message);
            assert(message_views(self.messages@) =~= message_views(before).push(message@));
        }
    }
}

/// What is said of messages that were forgotten.
pub open spec fn tells_forgotten(
    notice: Option<String>,
    forgotten: nat,
    context_size: Option<usize>,
) -> bool {
    match notice {
        Some(text) => forgotten > 0 && text@ == "[werk chat] context window: removed "@ + decimal(
            forgotten,
        ) + " old message(s) to fit "@ + decimal(
            match context_size {
                Some(size) => size as nat,
                None => 0,
            },
        ) + " tokens"@,
        None => forgotten == 0,
    }
}

/// What is said when messages were forgotten.
pub fn forgotten_notice(forgotten: usize, context_size: Option<usize>) -> (r: Option<String>)
    ensures
        tells_forgotten(r, forgotten as nat, context_size),
{
    if forgotten == 0 {
        return None;
    }
    let size: usize = match context_size {
        Some(size) => size,
        None => 0,
    };
    let count = usize_text(forgotten);
    let tokens = usize_text(size);
    Some(
        join5(
            "[werk chat] context window: removed ",
            count.as_str(),
            " old message(s) to fit ",
            tokens.as_str(),
            " tokens",
        ),
    )
}

// ---------------------------------------------------------------------------
// The stream of an answer
// ---------------------------------------------------------------------------

/// What a stream brings.
#[derive(Debug)]
pub enum StreamEvent {
    /// Nothing yet.
    Waiting,
    /// The stream is at its end.
    Closed,
    Text(String),
    /// So many pieces of tool calls.
    ToolCalls(usize),
    Done {
        finish_reason: String,
        prompt_tokens: usize,
        completion_tokens: usize,
        diagnostics: Vec<String>,
    },
    Failed(String),
}

/// The answer as far as it has come.
#[derive(Debug)]
pub struct Answer {
    pub text: String,
    pub finish_reason: String,
    pub prompt_tokens: usize,
    pub completion_tokens: usize,
    /// The backend said that it was done, so its timings are there.
    pub timed: bool,
    pub diagnostics: Vec<String>,
    /// Nothing more is read from the stream.
    pub ended: bool,
}

/// What is to be done about an event.
#[derive(Debug)]
pub struct StreamReaction {
    pub clear_spinner: bool,
    pub tick_spinner: bool,
    pub out: String,
    pub err: String,
    pub flush: bool,
}

fn quiet() -> (r: StreamReaction)
    ensures
        !r.clear_spinner,
        !r.tick_spinner,
        r.out@ == Seq::<char>::empty(),
        r.err@ == Seq::<char>::empty(),
        !r.flush,
{
    StreamReaction {
        clear_spinner: false,
        tick_spinner: false,
        out: String::new(),
        err: String::new(),
        flush: false,
    }
}

pub ghost struct AnswerView {
    pub text: Seq<char>,
    pub finish_reason: Seq<char>,
    pub prompt_tokens: nat,
    pub completion_tokens: nat,
    pub timed: bool,
    pub diagnostics: Seq<Seq<char>>,
    pub ended: bool,
}

/// The answer after an event.
pub open spec fn answer_after(
    answer: AnswerView,
    event: StreamEvent,
    prompt_notes: Seq<Seq<char>>,
) -> AnswerView {
    match event {
        StreamEvent::Waiting => answer,
        StreamEvent::Closed => AnswerView { ended: true, ..answer },
        StreamEvent::Text(chunk) => AnswerView { text: answer.text + chunk@, ..answer },
        StreamEvent::ToolCalls(_) => answer,
        StreamEvent::Done { finish_reason, prompt_tokens, completion_tokens, diagnostics } =>
            AnswerView {
            text: answer.text,
            finish_reason: finish_reason@,
            prompt_tokens: prompt_tokens as nat,
            completion_tokens: completion_tokens as nat,
            timed: true,
            diagnostics: prompt_notes + views(diagnostics@),
            ended: true,
        },
        StreamEvent::Failed(_) => AnswerView { ended: true, ..answer },
    }
}

/// What is to be done about an event. The spinner turns while nothing has come,
/// and goes with the first thing that does.
pub open spec fn reacts(
    r: StreamReaction,
    answer: AnswerView,
    event: StreamEvent,
    spinner_enabled: bool,
    debug: bool,
    flush_due: bool,
) -> bool {
    let nothing = Seq::<char>::empty();
    match event {
        StreamEvent::Waiting => r.tick_spinner == (answer.text.len() == 0 && spinner_enabled)
            && !r.clear_spinner && r.out@ == nothing && r.err@ == nothing && !r.flush,
        StreamEvent::Closed => r.clear_spinner && !r.tick_spinner && r.out@ == nothing && r.err@
            == nothing && !r.flush,
        StreamEvent::Text(chunk) => r.clear_spinner == (chunk@.len() > 0) && !r.tick_spinner
            && r.out@ == chunk@ && r.err@ == nothing && r.flush == (chunk@.contains('\n')
            || flush_due),
        StreamEvent::ToolCalls(count) => r.clear_spinner && !r.tick_spinner && r.out@ == nothing
            && !r.flush && r.err@ == if debug {
            "\n[werk chat] received "@ + decimal(count as nat)
                + " unexpected tool-call delta(s)\n"@
        } else {
            nothing
        },
        StreamEvent::Done { .. } => r.clear_spinner && !r.tick_spinner && r.out@ == nothing
            && r.err@ == nothing && !r.flush,
        StreamEvent::Failed(message) => r.clear_spinner && !r.tick_spinner && r.out@ == "\nerror: "@
            + message@ + "\n"@ && r.err@ == nothing && !r.flush,
    }
}

impl Answer {
    pub open spec fn view(&self) -> AnswerView {
        AnswerView {
            text: self.text@,
            finish_reason: self.finish_reason@,
            prompt_tokens: self.prompt_tokens as nat,
            completion_tokens: self.completion_tokens as nat,
            timed: self.timed,
            diagnostics: views(self.diagnostics@),
            ended: self.ended,
        }
    }

    pub fn new() -> (r: Self)
        ensures
            r@ == no_answer(),
    {
        let r = Answer {
            text: String::new(),
            finish_reason: String::new(),
            prompt_tokens: 0,
            completion_tokens: 0,
            timed: false,
            diagnostics: Vec::new(),
            ended: false,
        };
        assert(r.text@ =~= Seq::<char>::empty());
        assert(r.finish_reason@ =~= Seq::<char>::empty());
        assert(views(r.diagnostics@) =~= Seq::<Seq<char>>::empty());
        r
    }

    /// Takes an event and says what is to be done about it.
    pub fn receive(
        &mut self,
        event: StreamEvent,
        prompt_notes: &Vec<String>,
        spinner_enabled: bool,
        debug: bool,
        flush_due: bool,
    ) -> (r: StreamReaction)
        ensures
            final(self)@ == answer_after(old(self)@, event, views(prompt_notes@)),
            reacts(r, old(self)@, event, spinner_enabled, debug, flush_due),
    {
        let mut r = quiet();
        match event {
            StreamEvent::Waiting => {
                r.tick_spinner = self.text.as_str().unicode_len() == 0 && spinner_enabled;
            },
            StreamEvent::Closed => {
                r.clear_spinner = true;
                self.ended = true;
            },
            StreamEvent::Text(chunk) => {
                r.clear_spinner = chunk.as_str().unicode_len() > 0;
                r.flush = str_contains_char(chunk.as_str(), '\n') || flush_due;
                self.text.push_str(chunk.as_str());
                r.out = chunk;
            },
            StreamEvent::ToolCalls(count) => {
                r.clear_spinner = true;
                if debug {
                    let pieces = usize_text(count);
                    r.err = join3(
                        "\n[werk chat] received ",
                        pieces.as_str(),
                        " unexpected tool-call delta(s)\n",
                    );
                }
            },
            StreamEvent::Done { finish_reason, prompt_tokens, completion_tokens, diagnostics } => {
                self.finish_reason = finish_reason;
                self.prompt_tokens = prompt_tokens;
                self.completion_tokens = completion_tokens;
                self.timed = true;
                self.diagnostics = crate::chat::merged_diagnostics(prompt_notes, &diagnostics);
                self.ended = true;
                r.clear_spinner = true;
            },
            StreamEvent::Failed(message) => {
                r.clear_spinner = true;
                r.out = join3("\nerror: ", message.as_str(), "\n");
                self.ended = true;
            },
        }
        r
    }

    /// What is shown below an answer: a new line, and a note where the answer ran
    /// into its limit.
    pub fn closing_text(&self, max_tokens: usize) -> (r: String)
        ensures
            r@ == closing(self.finish_reason@, self.text@, max_tokens as nat),
    {
        if (str_eq(self.finish_reason.as_str(), "length") || str_eq(
            self.finish_reason.as_str(),
            "max_new_tokens",
        )) && !str_is_blank(self.text.as_str()) {
            let limit = usize_text(max_tokens);
            let mut r = join3(
                "\n",
                "note: response reached --max-tokens (",
                limit.as_str(),
            );
            r.push_str(
                ") and may be incomplete; rerun with a larger --max-tokens value for more.\n",
            );
            r
        } else {
            "\n".to_owned()
        }
    }
}

/// What is shown below an answer.
pub open spec fn closing(finish_reason: Seq<char>, text: Seq<char>, max_tokens: nat) -> Seq<char> {
    if (finish_reason == "length"@ || finish_reason == "max_new_tokens"@) && !is_blank(text) {
        "\n"@ + "note: response reached --max-tokens ("@ + decimal(max_tokens)
            + ") and may be incomplete; rerun with a larger --max-tokens value for more.\n"@
    } else {
        "\n"@
    }
}

pub open spec fn no_answer() -> AnswerView {
    AnswerView {
        text: Seq::empty(),
        finish_reason: Seq::empty(),
        prompt_tokens: 0,
        completion_tokens: 0,
        timed: false,
        diagnostics: Seq::empty(),
        ended: false,
    }
}

/// The answer after a stream, up to the event that ends it.
pub open spec fn streamed(
    answer: AnswerView,
    events: Seq<StreamEvent>,
    prompt_notes: Seq<Seq<char>>,
) -> AnswerView
    decreases events.len(),
{
    if events.len() == 0 || answer.ended {
        answer
    } else {
        streamed(
            answer_after(answer, events[0], prompt_notes),
            events.drop_first(),
            prompt_notes,
        )
    }
}

/// Nothing that was shown is taken back: the text of an answer only grows.
pub proof fn answers_only_grow(
    answer: AnswerView,
    events: Seq<StreamEvent>,
    prompt_notes: Seq<Seq<char>>,
)
    ensures
        answer.text.is_prefix_of(streamed(answer, events, prompt_notes).text),
    decreases events.len(),
{
    if events.len() > 0 && !answer.ended {
        let next = answer_after(answer, events[0], prompt_notes);
        answers_only_grow(next, events.drop_first(), prompt_notes);
        let last = streamed(next, events.drop_first(), prompt_notes).text;
        assert(answer.text.is_prefix_of(next.text));
        assert(last.take(answer.text.len() as int) =~= next.text.take(answer.text.len() as int));
    }
}

/// Statistics are shown only of an answer whose backend said that it was done.
pub proof fn only_finished_answers_are_timed(
    events: Seq<StreamEvent>,
    prompt_notes: Seq<Seq<char>>,
)
    requires
        forall|i: int| 0 <= i < events.len() ==> !(#[trigger] events[i] is Done),
    ensures
        !streamed(no_answer(), events, prompt_notes).timed,
{
    lemma_untimed(no_answer(), events, prompt_notes);
}

proof fn lemma_untimed(
    answer: AnswerView,
    events: Seq<StreamEvent>,
    prompt_notes: Seq<Seq<char>>,
)
    requires
        !answer.timed,
        forall|i: int| 0 <= i < events.len() ==> !(#[trigger] events[i] is Done),
    ensures
        !streamed(answer, events, prompt_notes).timed,
    decreases events.len(),
{
    if events.len() > 0 && !answer.ended {
        let rest = events.drop_first();
        assert forall|i: int| 0 <= i < rest.len() implies !(#[trigger] rest[i] is Done) by {
            assert(rest[i] == events[i + 1]);
        }
        lemma_untimed(answer_after(answer, events[0], prompt_notes), rest, prompt_notes);
    }
}

// ---------------------------------------------------------------------------
// The spinner
// ---------------------------------------------------------------------------

/// The sign that an answer is awaited.
#[derive(Debug)]
pub struct AssistantPendingSpinner {
    pub enabled: bool,
    pub visible: bool,
    pub frame_index: usize,
}

impl AssistantPendingSpinner {
    pub fn new(enabled: bool) -> (r: Self)
        ensures
            r.enabled == enabled,
            !r.visible,
            r.frame_index == 0,
    {
        AssistantPendingSpinner { enabled, visible: false, frame_index: 0 }
    }

    pub fn is_enabled(&self) -> (r: bool)
        ensures
            r == self.enabled,
    {
        self.enabled
    }

    /// Shows a frame, where the spinner is enabled.
    pub fn tick(&mut self, frame: &str) -> (r: Option<String>)
        requires
            old(self).frame_index < usize::MAX,
        ensures
            final(self).enabled == old(self).enabled,
            if old(self).enabled {
                final(self).visible && final(self).frame_index == old(self).frame_index + 1
                    && (r matches Some(text) && text@ == "\r\x1b[2Kassistant> "@ + frame@
                    + " Werk is thinking..."@)
            } else {
                r is None && *final(self) == *old(self)
            },
    {
        if !self.enabled {
            return None;
        }
        self.frame_index = self.frame_index + 1;
        self.visible = true;
        Some(join3("\r\x1b[2Kassistant> ", frame, " Werk is thinking..."))
    }

    /// Takes the sign away, where it is there.
    pub fn clear(&mut self) -> (r: Option<String>)
        ensures
            final(self).enabled == old(self).enabled,
            final(self).frame_index == old(self).frame_index,
            !final(self).visible,
            match r {
                Some(text) => old(self).visible && text@ == "\r\x1b[2Kassistant> "@,
                None => !old(self).visible,
            },
    {
        if !self.visible {
            return None;
        }
        self.visible = false;
        Some("\r\x1b[2Kassistant> ".to_owned())
    }
}

// ---------------------------------------------------------------------------
// One turn of a stored conversation
// ---------------------------------------------------------------------------

/// How the stream of a single turn went.
#[derive(Debug)]
pub enum TurnOutcome {
    Done { text: String, tool_calls: Vec<ChatCompletionToolCall> },
    Failed(String),
    /// It broke off.
    Unfinished,
}

pub open spec fn answer_message(text: Seq<char>, calls: Seq<ChatCompletionToolCall>) -> MessageView {
    MessageView {
        role: "assistant"@,
        content: if text.len() == 0 {
            None
        } else {
            Some(ContentView::Text(text))
        },
        name: None,
        tool_calls: if calls.len() == 0 {
            None
        } else {
            Some(call_views(calls))
        },
        tool_call_id: None,
    }
}

/// What is stored after a single turn: what was stored, what was sent and what
/// was answered. A turn that failed or broke off stores nothing new.
pub fn stored_after_turn(
    stored: Vec<ChatMessage>,
    sent: Vec<ChatMessage>,
    outcome: TurnOutcome,
) -> (r: Result<Vec<ChatMessage>, String>)
    ensures
        match outcome {
            TurnOutcome::Done { text, tool_calls } => r matches Ok(messages) && message_views(
                messages@,
            ) == (message_views(stored@) + message_views(sent@)).push(
                answer_message(text@, tool_calls@),
            ),
            TurnOutcome::Failed(message) => r matches Err(error) && error@ == message@,
            TurnOutcome::Unfinished => r matches Err(error) && error@
                == "generation stream ended before it was done"@,
        },
{
    match outcome {
        TurnOutcome::Done { text, tool_calls } => {
            let mut messages = stored;
            let mut more = sent;
            messages.append(&mut more);
            assert(message_views(messages@) =~= message_views(stored@) + message_views(sent@));
            let ghost joined = messages@;
            let content = if text.as_str().unicode_len() == 0 {
                None
            } else {
                Some(MessageContent::Text(text))
            };
            let calls = if tool_calls.len() == 0 {
                None
            } else {
                Some(tool_calls)
            };
            let answer = ChatMessage {
                role: "assistant".to_owned(),
                content,
                name: None,
                tool_calls: calls,
                tool_call_id: None,
            };
            messages.push(answer);
            assert(message_views(messages@) =~= message_views(joined).push(answer@));
            Ok(messages)
        },
        TurnOutcome::Failed(message) => Err(message),
        TurnOutcome::Unfinished => Err("generation stream ended before it was done".to_owned()),
    }
}

// ---------------------------------------------------------------------------
// What a conversation is for
// ---------------------------------------------------------------------------

/// A line ends the conversation where it is one of two words, whatever blanks stand
/// around it.
pub proof fn farewells_are_two_words(line: Seq<char>)
    ensures
        is_farewell(line) <==> trimmed(line) == "/exit"@ || trimmed(line) == "/quit"@,
        trimmed(line) == "exit"@ ==> !is_farewell(line),
        trimmed(line).len() == 0 ==> !is_farewell(line),
{
    reveal_strlit("/exit");
    reveal_strlit("/quit");
    reveal_strlit("exit");
    assert("exit"@.len() != "/exit"@.len() && "exit"@.len() != "/quit"@.len());
}

/// What the model is sent ends with what was said, and begins with the history where
/// that is kept.
pub proof fn models_are_sent_what_was_said(history: Seq<MessageView>, said: MessageView)
    ensures
        forall|kept: bool| (#[trigger] turn_messages(history, said, kept)).last() == said,
        turn_messages(history, said, true).drop_last() == history,
        turn_messages(history, said, false).len() == 1,
{
    assert(turn_messages(history, said, true).drop_last() =~= history);
}

/// What is shown of a text is what the answer grows by, and nothing else is.
pub proof fn answers_are_what_is_shown(
    r: StreamReaction,
    answer: AnswerView,
    event: StreamEvent,
    prompt_notes: Seq<Seq<char>>,
    spinner_enabled: bool,
    debug: bool,
    flush_due: bool,
)
    requires
        reacts(r, answer, event, spinner_enabled, debug, flush_due),
    ensures
        ({
            let next = answer_after(answer, event, prompt_notes);
            &&& event is Failed || next.text == answer.text + r.out@
            &&& event is Failed ==> next.text == answer.text && !next.timed == !answer.timed
            &&& event is Text ==> next.text == answer.text + event->Text_0@
            &&& next.ended <==> answer.ended || event is Closed || event is Done || event is Failed
            &&& r.tick_spinner ==> event is Waiting && answer.text.len() == 0 && spinner_enabled
            &&& r.out@.len() > 0 || r.err@.len() > 0 ==> r.clear_spinner
            &&& !debug ==> r.err@.len() == 0
            &&& r.flush ==> event is Text
            &&& (event matches StreamEvent::Done {
                finish_reason,
                prompt_tokens,
                completion_tokens,
                diagnostics,
            } && next.finish_reason == finish_reason@ && next.prompt_tokens == prompt_tokens
                && next.completion_tokens == completion_tokens && next.timed && next.diagnostics
                == prompt_notes + views(diagnostics@)) || !(event is Done)
        }),
{
    assert(answer.text + Seq::<char>::empty() =~= answer.text);
}

/// Nothing is heard of a stream behind its end.
pub proof fn ended_answers_stay(
    answer: AnswerView,
    event: StreamEvent,
    rest: Seq<StreamEvent>,
    prompt_notes: Seq<Seq<char>>,
)
    requires
        !answer.ended,
        event is Done || event is Closed || event is Failed,
    ensures
        streamed(answer, seq![event] + rest, prompt_notes) == answer_after(
            answer,
            event,
            prompt_notes,
        ),
{
    assert((seq![event] + rest)[0] == event);
    reveal_with_fuel(streamed, 2);
}

/// An answer that was cut off is said to be; one that is blank or came to its end is not.
pub proof fn answers_that_were_cut_off_are_marked(text: Seq<char>, reason: Seq<char>, max: nat)
    ensures
        closing("stop"@, text, max) == "\n"@,
        is_blank(text) ==> closing(reason, text, max) == "\n"@,
        !is_blank(text) ==> closing("length"@, text, max).len() > 1 && closing(
            "length"@,
            text,
            max,
        ) == closing("max_new_tokens"@, text, max),
        "\n"@.is_prefix_of(closing(reason, text, max)),
{
    reveal_strlit("stop");
    reveal_strlit("length");
    reveal_strlit("max_new_tokens");
    reveal_strlit("\n");
    reveal_strlit("note: response reached --max-tokens (");
    assert("stop"@.len() != "length"@.len());
    assert("\n"@.is_prefix_of(closing(reason, text, max)));
}

} // verus!

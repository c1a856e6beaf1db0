//! A chat from the first line to the last: what each line and each piece of an
//! answer does to the conversation, and what is sent to the backend in between.

use vstd::prelude::*;

use crate::args::StreamGranularity;
use crate::chat::{
    generation_request_messages, prompt_diagnostics, prompt_notes, trim_result, ChatTemplateSource,
    PromptSpec,
};
use crate::chat_loop::{
    answer_after, answer_message, chat_input, closing, forgotten_notice, is_farewell, no_answer,
    reacts, tells_forgotten, turn_is_refused, Answer, ChatInput, Conversation, StreamEvent,
    StreamReaction,
};
use crate::messages::{
    image_urls_from_messages, message_urls, message_views, plain_message, seen_message,
    vision_user_message, ChatCompletionToolCall, ChatMessage, ContentView, MessageView,
};
use crate::run_inference::ToolCallingConfig;
use crate::text::{clone_strings, is_blank, join_strings, joined, trimmed, views};

verus! {

// ---------------------------------------------------------------------------
// What a backend is asked
// ---------------------------------------------------------------------------

/// The settings of a generation that are not numbers with a fraction.
#[derive(Clone, Copy, Debug, PartialEq, Eq, Structural)]
pub struct GenerationSettings {
    pub max_tokens: usize,
    pub seed: Option<u64>,
    pub stream_granularity: StreamGranularity,
    pub verbose: bool,
    pub debug: bool,
}

/// What a backend is asked to generate.
#[derive(Debug)]
pub struct GenerateRequest {
    pub prompt: String,
    /// The messages, where the model applies its own template.
    pub messages: Vec<ChatMessage>,
    pub image_urls: Vec<String>,
    pub stop: Vec<String>,
    pub settings: GenerationSettings,
    /// The tools of the request; a chat has none.
    pub tool_config: Option<ToolCallingConfig>,
}

/// The messages that go along with a prompt.
pub open spec fn accompanying(source: ChatTemplateSource, sent: Seq<MessageView>) -> Seq<
    MessageView,
> {
    if source is Model {
        sent
    } else {
        Seq::empty()
    }
}

/// The images that go along with a prompt: those of its messages, or all of them
/// where no message goes along.
pub open spec fn accompanying_images(
    messages: Seq<MessageView>,
    images: Seq<Seq<char>>,
) -> Seq<Seq<char>> {
    if messages.len() == 0 {
        images
    } else {
        message_urls(messages)
    }
}

/// `request` asks for this prompt, these messages and images.
pub open spec fn asks(
    request: GenerateRequest,
    prompt: PromptSpec,
    sent: Seq<MessageView>,
    images: Seq<Seq<char>>,
    settings: GenerationSettings,
) -> bool {
    let messages = accompanying(prompt.chat_template.source, sent);
    &&& request.prompt@ == prompt.prompt@
    &&& message_views(request.messages@) == messages
    &&& views(request.image_urls@) == accompanying_images(messages, images)
    &&& views(request.stop@) == views(prompt.stop@)
    &&& request.settings == settings
    &&& request.tool_config is None
}

pub fn generate_request(
    prompt: &PromptSpec,
    sent: &Vec<ChatMessage>,
    images: &Vec<String>,
    settings: GenerationSettings,
) -> (r: GenerateRequest)
    ensures
        asks(r, *prompt, message_views(sent@), views(images@), settings),
{
    let messages = generation_request_messages(prompt, sent);
    let image_urls = if messages.len() == 0 {
        clone_strings(images)
    } else {
        image_urls_from_messages(&messages)
    };
    GenerateRequest {
        prompt: prompt.prompt.as_str().to_owned(),
        messages,
        image_urls,
        stop: clone_strings(&prompt.stop),
        settings,
        tool_config: None,
    }
}

/// The messages of a single request: the words of its prompt, and its images.
pub fn single_request_messages(prompt: &Vec<String>, images: &Vec<String>) -> (r: Vec<ChatMessage>)
    ensures
        message_views(r@) == seq![seen_message(joined(views(prompt@), " "@), views(images@))],
{
    let text = join_strings(prompt, " ");
    let mut messages: Vec<ChatMessage> = Vec::new();
    messages.push(vision_user_message(text.as_str(), images));
    assert(message_views(messages@) =~= seq![
        seen_message(joined(views(prompt@), " "@), views(images@)),
    ]);
    messages
}

/// Whether a conversation keeps a session of its backend. A session is bound to a
/// route without images, so a conversation with any, also among what was said
/// before, goes through the backend.
pub fn keeps_backend_session(images: &Vec<String>, messages: &Vec<ChatMessage>) -> (r: bool)
    ensures
        r == (images@.len() == 0 && message_urls(message_views(messages@)).len() == 0),
{
    if images.len() > 0 {
        return false;
    }
    let urls = image_urls_from_messages(messages);
    assert(views(urls@).len() == urls@.len());
    urls.len() == 0
}

/// What a backend is sent in a conversation that keeps its session holds no image.
pub proof fn sessions_are_sent_no_images(
    request: GenerateRequest,
    prompt: PromptSpec,
    sent: Seq<MessageView>,
    images: Seq<Seq<char>>,
    settings: GenerationSettings,
)
    requires
        images.len() == 0,
        message_urls(sent).len() == 0,
        asks(request, prompt, sent, images, settings),
    ensures
        request.image_urls@.len() == 0,
{
    assert(views(request.image_urls@).len() == request.image_urls@.len());
}

// ---------------------------------------------------------------------------
// The session
// ---------------------------------------------------------------------------

/// What a session waits for.
#[derive(Clone, Copy, Debug, PartialEq, Eq, Structural)]
pub enum ChatPhase {
    /// The next line.
    Listening,
    /// The prompt that the messages of the turn become.
    Composing,
    /// The next piece of the answer.
    Answering,
    /// Nothing more.
    Over,
}

/// A chat.
pub struct ChatSession {
    pub conversation: Conversation,
    pub context_size: Option<usize>,
    pub settings: GenerationSettings,
    pub phase: ChatPhase,
    /// The messages of the turn.
    pub sent: Vec<ChatMessage>,
    /// How the prompt of the turn came about.
    pub notes: Vec<String>,
    pub answer: Answer,
}

/// What a line led to.
#[derive(Debug)]
pub enum Heard {
    /// The session is over.
    Left,
    /// Nothing was said.
    Nothing,
    /// A turn has begun. There is a notice where messages were forgotten.
    Turn(Option<String>),
}

/// What a piece of an answer led to.
#[derive(Debug)]
pub struct TurnStep {
    pub reaction: StreamReaction,
    /// What is shown below the answer, where it is at its end.
    pub closing: Option<String>,
}

/// A line ends the session: there is none, or it says so.
pub open spec fn ends_session(line: Option<Seq<char>>) -> bool {
    match line {
        Some(line) => is_farewell(line),
        None => true,
    }
}

/// The messages of a conversation after a turn.
pub open spec fn after_answer(
    messages: Seq<MessageView>,
    history_enabled: bool,
    answer: Seq<char>,
) -> Seq<MessageView> {
    if history_enabled && !is_blank(answer) {
        messages.push(plain_message("assistant"@, answer))
    } else {
        messages
    }
}

/// What was sent is what the history holds.
pub open spec fn in_step(
    history_enabled: bool,
    history: Seq<MessageView>,
    sent: Seq<MessageView>,
) -> bool {
    history_enabled ==> history == sent
}

impl ChatSession {
    /// During a turn the history is what was sent, and an answer is only taken
    /// while it goes on.
    pub open spec fn wf(&self) -> bool {
        &&& (self.phase is Composing || self.phase is Answering) ==> in_step(
            self.conversation.history_enabled,
            message_views(self.conversation.messages@),
            message_views(self.sent@),
        )
        &&& self.phase is Answering ==> !self.answer.ended
    }

    pub open spec fn keeps_settings(&self, other: Self) -> bool {
        &&& self.context_size == other.context_size
        &&& self.settings == other.settings
        &&& self.conversation.history_enabled == other.conversation.history_enabled
        &&& self.conversation.images == other.conversation.images
    }

    pub fn new(
        history_enabled: bool,
        images: Vec<String>,
        context_size: Option<usize>,
        settings: GenerationSettings,
    ) -> (r: Self)
        ensures
            r.wf(),
            r.phase is Listening,
            r.conversation.messages@.len() == 0,
            r.conversation.history_enabled == history_enabled,
            r.conversation.images == images,
            r.context_size == context_size,
            r.settings == settings,
    {
        ChatSession {
            conversation: Conversation { messages: Vec::new(), history_enabled, images },
            context_size,
            settings,
            phase: ChatPhase::Listening,
            sent: Vec::new(),
            notes: Vec::new(),
            answer: Answer::new(),
        }
    }

    /// Takes a line. Where no room can be made for what was said, the session is
    /// over.
    pub fn hear<R: Fn(&Vec<ChatMessage>) -> usize>(&mut self, render: R, line: Option<&str>) -> (r:
        Result<Heard, String>)
        requires
            old(self).phase is Listening,
            forall|v: &Vec<ChatMessage>| #[trigger] call_requires(render, (v,)),
        ensures
            final(self).wf(),
            final(self).keeps_settings(*old(self)),
            match r {
                Ok(Heard::Left) => ends_session(line_view(line)) && final(self).phase is Over
                    && final(self).conversation == old(self).conversation,
                Ok(Heard::Nothing) => (line matches Some(text) && trimmed(text@).len() == 0)
                    && *final(self) == *old(self),
                Ok(Heard::Turn(notice)) => !ends_session(line_view(line)) && (line matches Some(
                    text,
                ) && trimmed(text@).len() > 0 && turn_begins(
                    render,
                    *old(self),
                    *final(self),
                    trimmed(text@),
                    notice,
                )),
                Err(message) => !ends_session(line_view(line)) && (line matches Some(text)
                    && trimmed(text@).len() > 0 && turn_is_refused(
                    render,
                    old(self).conversation.turn(trimmed(text@)),
                    old(self).context_size,
                    old(self).settings.max_tokens,
                    message@,
                )) && final(self).phase is Over,
            },
    {
        let line = match line {
            Some(line) => line,
            None => {
                self.phase = ChatPhase::Over;
                return Ok(Heard::Left);
            },
        };
        match chat_input(line) {
            ChatInput::Skip => Ok(Heard::Nothing),
            ChatInput::Leave => {
                self.phase = ChatPhase::Over;
                Ok(Heard::Left)
            },
            ChatInput::Say(text) => match self.conversation.begin_turn(
                render,
                text.as_str(),
                self.context_size,
                self.settings.max_tokens,
            ) {
                Ok(turn) => {
                    let notice = forgotten_notice(turn.forgotten, self.context_size);
                    self.sent = turn.messages;
                    self.phase = ChatPhase::Composing;
                    assert(turn_fits(render, *old(self), *self, trimmed(line@), turn.forgotten as nat));
                    Ok(Heard::Turn(notice))
                },
                Err(message) => {
                    self.phase = ChatPhase::Over;
                    Err(message)
                },
            },
        }
    }

    /// Takes the prompt that the messages of the turn became, and says what the
    /// backend is asked.
    pub fn compose(&mut self, prompt: &PromptSpec) -> (r: GenerateRequest)
        requires
            old(self).wf(),
            old(self).phase is Composing,
        ensures
            final(self).wf(),
            final(self).phase is Answering,
            final(self).keeps_settings(*old(self)),
            final(self).conversation == old(self).conversation,
            final(self).sent == old(self).sent,
            final(self).answer@ == no_answer(),
            views(final(self).notes@) == prompt_notes(
                *prompt,
                old(self).sent@.len(),
                Some(old(self).conversation.history_enabled),
            ),
            asks(
                r,
                *prompt,
                message_views(old(self).sent@),
                views(old(self).conversation.images@),
                old(self).settings,
            ),
    {
        self.notes = prompt_diagnostics(
            prompt,
            self.sent.len(),
            Some(self.conversation.history_enabled),
        );
        self.answer = Answer::new();
        self.phase = ChatPhase::Answering;
        generate_request(prompt, &self.sent, &self.conversation.images, self.settings)
    }

    /// Takes a piece of the answer. With the last one the answer joins the
    /// history, and the session listens again.
    pub fn receive(&mut self, event: StreamEvent, spinner_enabled: bool, flush_due: bool) -> (r:
        TurnStep)
        requires
            old(self).wf(),
            old(self).phase is Answering,
        ensures
            final(self).wf(),
            final(self).keeps_settings(*old(self)),
            final(self).sent == old(self).sent,
            final(self).answer@ == answer_after(old(self).answer@, event, views(old(self).notes@)),
            reacts(
                r.reaction,
                old(self).answer@,
                event,
                spinner_enabled,
                old(self).settings.debug,
                flush_due,
            ),
            if final(self).answer@.ended {
                final(self).phase is Listening && message_views(final(self).conversation.messages@)
                    == after_answer(
                    message_views(old(self).conversation.messages@),
                    old(self).conversation.history_enabled,
                    final(self).answer@.text,
                ) && (r.closing matches Some(text) && text@ == closing(
                    final(self).answer@.finish_reason,
                    final(self).answer@.text,
                    old(self).settings.max_tokens as nat,
                ))
            } else {
                final(self).phase is Answering && final(self).conversation == old(
                    self,
                ).conversation && r.closing is None
            },
    {
        let reaction = self.answer.receive(
            event,
            &self.notes,
            spinner_enabled,
            self.settings.debug,
            flush_due,
        );
        if !self.answer.ended {
            return TurnStep { reaction, closing: None };
        }
        let text = self.answer.closing_text(self.settings.max_tokens);
        self.conversation.keep_answer(self.answer.text.as_str());
        self.phase = ChatPhase::Listening;
        TurnStep { reaction, closing: Some(text) }
    }
}

pub open spec fn line_view(line: Option<&str>) -> Option<Seq<char>> {
    match line {
        Some(line) => Some(line@),
        None => None,
    }
}

/// The turn in which `said` was said has begun, with so many messages forgotten.
pub open spec fn turn_fits<R: Fn(&Vec<ChatMessage>) -> usize>(
    render: R,
    before: ChatSession,
    after: ChatSession,
    said: Seq<char>,
    forgotten: nat,
) -> bool {
    trim_result(
        render,
        before.conversation.turn(said),
        message_views(after.sent@),
        before.context_size,
        before.settings.max_tokens,
        Ok(forgotten),
    )
}

/// A turn has begun.
pub open spec fn turn_begins<R: Fn(&Vec<ChatMessage>) -> usize>(
    render: R,
    before: ChatSession,
    after: ChatSession,
    said: Seq<char>,
    notice: Option<String>,
) -> bool {
    &&& after.phase is Composing
    &&& !before.conversation.history_enabled ==> after.conversation == before.conversation
    &&& exists|forgotten: nat| #[trigger]
        turn_fits(render, before, after, said, forgotten) && tells_forgotten(
            notice,
            forgotten,
            before.context_size,
        )
}

/// A turn of a chat with a history leaves behind what was sent and, unless it is
/// blank, the answer; a turn of a chat without one leaves nothing behind.
pub proof fn turns_leave_what_was_said(
    start: ChatSession,
    answering: ChatSession,
    done: ChatSession,
    answer: Seq<char>,
)
    requires
        answering.wf(),
        answering.phase is Answering,
        answering.keeps_settings(start),
        !start.conversation.history_enabled ==> answering.conversation == start.conversation,
        message_views(done.conversation.messages@) == after_answer(
            message_views(answering.conversation.messages@),
            answering.conversation.history_enabled,
            answer,
        ),
    ensures
        message_views(done.conversation.messages@) == if start.conversation.history_enabled {
            after_answer(message_views(answering.sent@), true, answer)
        } else {
            message_views(start.conversation.messages@)
        },
{
}

// ---------------------------------------------------------------------------
// What a session keeps
// ---------------------------------------------------------------------------

/// An answer is kept as what the assistant said, with the calls that it made; nothing is
/// kept of what is blank.
pub proof fn answers_are_said_by_the_assistant(
    messages: Seq<MessageView>,
    text: Seq<char>,
    calls: Seq<ChatCompletionToolCall>,
)
    ensures
        answer_message(text, calls).role == "assistant"@,
        text.len() > 0 ==> answer_message(text, calls).content == Some(ContentView::Text(text)),
        text.len() == 0 ==> answer_message(text, calls).content is None,
        calls.len() > 0 ==> (answer_message(text, calls).tool_calls matches Some(kept)
            && kept.len() == calls.len() && forall|i: int|
            0 <= i < calls.len() ==> #[trigger] kept[i] == calls[i]@),
        calls.len() == 0 ==> answer_message(text, calls).tool_calls is None,
        after_answer(messages, false, text) == messages,
        is_blank(text) ==> after_answer(messages, true, text) == messages,
        !is_blank(text) ==> {
            let after = after_answer(messages, true, text);
            &&& after.drop_last() == messages
            &&& after.last().role == "assistant"@
            &&& after.last().content == Some(ContentView::Text(text))
        },
{
    if !is_blank(text) {
        assert(after_answer(messages, true, text).drop_last() =~= messages);
    }
}

/// Messages accompany a prompt where the model brings its own template; the images are
/// then those of the messages.
pub proof fn messages_go_to_models_with_templates(
    sent: Seq<MessageView>,
    images: Seq<Seq<char>>,
)
    ensures
        accompanying(ChatTemplateSource::Model, sent) == sent,
        accompanying(ChatTemplateSource::Werk, sent).len() == 0,
        accompanying(ChatTemplateSource::Nobody, sent).len() == 0,
        accompanying_images(Seq::empty(), images) == images,
        sent.len() > 0 ==> accompanying_images(sent, images) == message_urls(sent),
        ends_session(None),
        ends_session(Some("/exit"@)) == is_farewell("/exit"@),
        forall|line: Seq<char>| #[trigger] ends_session(Some(line)) <==> is_farewell(line),
{
}

} // verus!

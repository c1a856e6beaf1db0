//! The messages of a conversation, as the chat API has them.

use vstd::prelude::*;

use crate::text::{clone_opt, opt_view, str_eq, views};

verus! {

/// An image of a message: a plain address, or one with a level of detail.
#[derive(Debug)]
pub enum ImageUrlSpec {
    Url(String),
    Object { url: String, detail: Option<String> },
}

/// One part of a message.
#[derive(Debug)]
pub struct ContentPart {
    pub kind: String,
    pub text: Option<String>,
    pub image_url: Option<ImageUrlSpec>,
}

#[derive(Debug)]
pub enum MessageContent {
    Text(String),
    Parts(Vec<ContentPart>),
}

#[derive(Debug)]
pub struct ChatCompletionFunctionCall {
    pub name: String,
    pub arguments: String,
}

/// A call that the assistant asks for.
#[derive(Debug)]
pub struct ChatCompletionToolCall {
    pub id: String,
    pub kind: String,
    pub function: ChatCompletionFunctionCall,
}

#[derive(Debug)]
pub struct ChatMessage {
    pub role: String,
    pub content: Option<MessageContent>,
    pub name: Option<String>,
    pub tool_calls: Option<Vec<ChatCompletionToolCall>>,
    pub tool_call_id: Option<String>,
}

pub ghost enum ImageView {
    Url(Seq<char>),
    Object(Seq<char>, Option<Seq<char>>),
}

pub ghost struct PartView {
    pub kind: Seq<char>,
    pub text: Option<Seq<char>>,
    pub image_url: Option<ImageView>,
}

pub ghost enum ContentView {
    Text(Seq<char>),
    Parts(Seq<PartView>),
}

pub ghost struct CallView {
    pub id: Seq<char>,
    pub kind: Seq<char>,
    pub name: Seq<char>,
    pub arguments: Seq<char>,
}

pub ghost struct MessageView {
    pub role: Seq<char>,
    pub content: Option<ContentView>,
    pub name: Option<Seq<char>>,
    pub tool_calls: Option<Seq<CallView>>,
    pub tool_call_id: Option<Seq<char>>,
}

impl ImageUrlSpec {
    pub open spec fn view(&self) -> ImageView {
        match self {
            ImageUrlSpec::Url(url) => ImageView::Url(url@),
            ImageUrlSpec::Object { url, detail } => ImageView::Object(url@, opt_view(*detail)),
        }
    }

    pub fn duplicate(&self) -> (r: Self)
        ensures
            r@ == self@,
    {
        match self {
            ImageUrlSpec::Url(url) => ImageUrlSpec::Url(url.clone()),
            ImageUrlSpec::Object { url, detail } => ImageUrlSpec::Object {
                url: url.clone(),
                detail: clone_opt(detail),
            },
        }
    }
}

impl ImageView {
    /// Where the image is.
    pub open spec fn url(self) -> Seq<char> {
        match self {
            ImageView::Url(url) => url,
            ImageView::Object(url, _) => url,
        }
    }
}

pub open spec fn opt_image(image: Option<ImageUrlSpec>) -> Option<ImageView> {
    match image {
        Some(image) => Some(image@),
        None => None,
    }
}

impl ContentPart {
    pub open spec fn view(&self) -> PartView {
        PartView {
            kind: self.kind@,
            text: opt_view(self.text),
            image_url: opt_image(self.image_url),
        }
    }

    pub fn duplicate(&self) -> (r: Self)
        ensures
            r@ == self@,
    {
        let image_url = match &self.image_url {
            Some(image) => Some(image.duplicate()),
            None => None,
        };
        ContentPart { kind: self.kind.clone(), text: clone_opt(&self.text), image_url }
    }
}

pub open spec fn part_views(parts: Seq<ContentPart>) -> Seq<PartView> {
    parts.map_values(|p: ContentPart| p@)
}

impl MessageContent {
    pub open spec fn view(&self) -> ContentView {
        match self {
            MessageContent::Text(text) => ContentView::Text(text@),
            MessageContent::Parts(parts) => ContentView::Parts(part_views(parts@)),
        }
    }

    pub fn duplicate(&self) -> (r: Self)
        ensures
            r@ == self@,
    {
        match self {
            MessageContent::Text(text) => MessageContent::Text(text.clone()),
            MessageContent::Parts(parts) => {
                let mut r: Vec<ContentPart> = Vec::new();
                let mut i: usize = 0;
                while i < parts.len()
                    invariant
                        i <= parts@.len(),
                        r@.len() == i,
                        forall|j: int| 0 <= j < i ==> (#[trigger] r@[j])@ == parts@[j]@,
                    decreases parts@.len() - i,
                {
                    r.push(parts[i].duplicate());
                    i = i + 1;
                }
                assert(part_views(r@) =~= part_views(parts@));
                MessageContent::Parts(r)
            },
        }
    }
}

pub open spec fn opt_content(content: Option<MessageContent>) -> Option<ContentView> {
    match content {
        Some(content) => Some(content@),
        None => None,
    }
}

impl ChatCompletionToolCall {
    pub open spec fn view(&self) -> CallView {
        CallView {
            id: self.id@,
            kind: self.kind@,
            name: self.function.name@,
            arguments: self.function.arguments@,
        }
    }

    pub fn duplicate(&self) -> (r: Self)
        ensures
            r@ == self@,
    {
        ChatCompletionToolCall {
            id: self.id.clone(),
            kind: self.kind.clone(),
            function: ChatCompletionFunctionCall {
                name: self.function.name.clone(),
                arguments: self.function.arguments.clone(),
            },
        }
    }
}

pub open spec fn call_views(calls: Seq<ChatCompletionToolCall>) -> Seq<CallView> {
    calls.map_values(|c: ChatCompletionToolCall| c@)
}

pub open spec fn opt_calls(calls: Option<Vec<ChatCompletionToolCall>>) -> Option<Seq<CallView>> {
    match calls {
        Some(calls) => Some(call_views(calls@)),
        None => None,
    }
}

pub fn duplicate_calls(calls: &Vec<ChatCompletionToolCall>) -> (r: Vec<ChatCompletionToolCall>)
    ensures
        call_views(r@) == call_views(calls@),
{
    let mut r: Vec<ChatCompletionToolCall> = Vec::new();
    let mut i: usize = 0;
    while i < calls.len()
        invariant
            i <= calls@.len(),
            r@.len() == i,
            forall|j: int| 0 <= j < i ==> (#[trigger] r@[j])@ == calls@[j]@,
        decreases calls@.len() - i,
    {
        r.push(calls[i].duplicate());
        i = i + 1;
    }
    assert(call_views(r@) =~= call_views(calls@));
    r
}

impl ChatMessage {
    pub open spec fn view(&self) -> MessageView {
        MessageView {
            role: self.role@,
            content: opt_content(self.content),
            name: opt_view(self.name),
            tool_calls: opt_calls(self.tool_calls),
            tool_call_id: opt_view(self.tool_call_id),
        }
    }

    pub fn duplicate(&self) -> (r: Self)
        ensures
            r@ == self@,
    {
        let content = match &self.content {
            Some(content) => Some(content.duplicate()),
            None => None,
        };
        let tool_calls = match &self.tool_calls {
            Some(calls) => Some(duplicate_calls(calls)),
            None => None,
        };
        ChatMessage {
            role: self.role.clone(),
            content,
            name: clone_opt(&self.name),
            tool_calls,
            tool_call_id: clone_opt(&self.tool_call_id),
        }
    }

    /// A message of plain text.
    pub fn plain(role: &str, text: &str) -> (r: Self)
        ensures
            r@ == plain_message(role@, text@),
    {
        ChatMessage {
            role: role.to_owned(),
            content: Some(MessageContent::Text(text.to_owned())),
            name: None,
            tool_calls: None,
            tool_call_id: None,
        }
    }
}

pub open spec fn plain_message(role: Seq<char>, text: Seq<char>) -> MessageView {
    MessageView {
        role,
        content: Some(ContentView::Text(text)),
        name: None,
        tool_calls: None,
        tool_call_id: None,
    }
}

pub open spec fn message_views(messages: Seq<ChatMessage>) -> Seq<MessageView> {
    messages.map_values(|m: ChatMessage| m@)
}

pub fn duplicate_messages(messages: &Vec<ChatMessage>) -> (r: Vec<ChatMessage>)
    ensures
        message_views(r@) == message_views(messages@),
{
    let mut r: Vec<ChatMessage> = Vec::new();
    let mut i: usize = 0;
    while i < messages.len()
        invariant
            i <= messages@.len(),
            r@.len() == i,
            forall|j: int| 0 <= j < i ==> (#[trigger] r@[j])@ == messages@[j]@,
        decreases messages@.len() - i,
    {
        r.push(messages[i].duplicate());
        i = i + 1;
    }
    assert(message_views(r@) =~= message_views(messages@));
    r
}

// ---------------------------------------------------------------------------
// Images
// ---------------------------------------------------------------------------

/// What the user says: the words alone, or the words and then the images.
pub open spec fn seen_message(text: Seq<char>, images: Seq<Seq<char>>) -> MessageView {
    MessageView {
        role: "user"@,
        content: Some(
            if images.len() == 0 {
                ContentView::Text(text)
            } else {
                ContentView::Parts(
                    seq![text_part(text)] + images.map_values(|url: Seq<char>| image_part(url)),
                )
            },
        ),
        name: None,
        tool_calls: None,
        tool_call_id: None,
    }
}

pub open spec fn image_part(url: Seq<char>) -> PartView {
    PartView { kind: "image_url"@, text: None, image_url: Some(ImageView::Url(url)) }
}

pub open spec fn text_part(text: Seq<char>) -> PartView {
    PartView { kind: "text"@, text: Some(text), image_url: None }
}

pub fn vision_user_message(text: &str, image_urls: &Vec<String>) -> (r: ChatMessage)
    ensures
        r@ == seen_message(text@, views(image_urls@)),
{
    if image_urls.len() == 0 {
        return ChatMessage::plain("user", text);
    }
    let mut parts: Vec<ContentPart> = Vec::new();
    parts.push(
        ContentPart { kind: "text".to_owned(), text: Some(text.to_owned()), image_url: None },
    );
    let mut i: usize = 0;
    while i < image_urls.len()
        invariant
            i <= image_urls@.len(),
            parts@.len() == i + 1,
            parts@[0]@ == text_part(text@),
            forall|j: int| 0 <= j < i ==> (#[trigger] parts@[j + 1])@ == image_part(image_urls@[j]@),
        decreases image_urls@.len() - i,
    {
        parts.push(
            ContentPart {
                kind: "image_url".to_owned(),
                text: None,
                image_url: Some(ImageUrlSpec::Url(image_urls[i].clone())),
            },
        );
        i = i + 1;
    }
    proof {
        let urls = views(image_urls@);
        let expected = seq![text_part(text@)] + urls.map_values(|url: Seq<char>| image_part(url));
        assert forall|k: int| 0 <= k < expected.len() implies part_views(parts@)[k]
            == expected[k] by {
            if k > 0 {
                assert(parts@[(k - 1) + 1]@ == image_part(image_urls@[k - 1]@));
            }
        }
        assert(part_views(parts@) =~= expected);
    }
    ChatMessage {
        role: "user".to_owned(),
        content: Some(MessageContent::Parts(parts)),
        name: None,
        tool_calls: None,
        tool_call_id: None,
    }
}

pub open spec fn is_image_kind(kind: Seq<char>) -> bool {
    kind == "image_url"@ || kind == "input_image"@
}

pub fn kind_is_image(kind: &str) -> (r: bool)
    ensures
        r == is_image_kind(kind@),
{
    str_eq(kind, "image_url") || str_eq(kind, "input_image")
}

/// The addresses of the images among the parts, in order.
pub open spec fn part_urls(parts: Seq<PartView>) -> Seq<Seq<char>>
    decreases parts.len(),
{
    if parts.len() == 0 {
        Seq::empty()
    } else {
        let rest = part_urls(parts.drop_last());
        match parts.last().image_url {
            Some(image) => if is_image_kind(parts.last().kind) {
                rest.push(image.url())
            } else {
                rest
            },
            None => rest,
        }
    }
}

pub open spec fn content_urls(content: Option<ContentView>) -> Seq<Seq<char>> {
    match content {
        Some(ContentView::Parts(parts)) => part_urls(parts),
        _ => Seq::empty(),
    }
}

/// The addresses of the images of a conversation, in order.
pub open spec fn message_urls(messages: Seq<MessageView>) -> Seq<Seq<char>>
    decreases messages.len(),
{
    if messages.len() == 0 {
        Seq::empty()
    } else {
        message_urls(messages.drop_last()) + content_urls(messages.last().content)
    }
}

fn image_urls_from_parts(parts: &Vec<ContentPart>) -> (r: Vec<String>)
    ensures
        views(r@) == part_urls(part_views(parts@)),
{
    let mut r: Vec<String> = Vec::new();
    let mut i: usize = 0;
    let ghost all = part_views(parts@);
    while i < parts.len()
        invariant
            i <= parts@.len(),
            all == part_views(parts@),
            views(r@) == part_urls(all.take(i as int)),
        decreases parts@.len() - i,
    {
        assert(all.take(i + 1).drop_last() =~= all.take(i as int));
        let part = &parts[i];
        assert(all[i as int] == part@);
        if let Some(image) = &part.image_url {
            if kind_is_image(part.kind.as_str()) {
                let url = match image {
                    ImageUrlSpec::Url(url) => url.clone(),
                    ImageUrlSpec::Object { url, .. } => url.clone(),
                };
                let ghost before = r@;
                r.push(url);
                assert(views(r@) =~= views(before).push(url@));
            }
        }
        i = i + 1;
    }
    assert(all.take(all.len() as int) =~= all);
    r
}

pub fn image_urls_from_messages(messages: &Vec<ChatMessage>) -> (r: Vec<String>)
    ensures
        views(r@) == message_urls(message_views(messages@)),
{
    let mut r: Vec<String> = Vec::new();
    let mut i: usize = 0;
    let ghost all = message_views(messages@);
    while i < messages.len()
        invariant
            i <= messages@.len(),
            all == message_views(messages@),
            views(r@) == message_urls(all.take(i as int)),
        decreases messages@.len() - i,
    {
        assert(all.take(i + 1).drop_last() =~= all.take(i as int));
        assert(all[i as int] == messages@[i as int]@);
        let mut found: Vec<String> = match &messages[i].content {
            Some(MessageContent::Parts(parts)) => image_urls_from_parts(parts),
            _ => Vec::new(),
        };
        let ghost before = r@;
        let ghost more = found@;
        r.append(&mut found);
        assert(views(r@) =~= views(before) + views(more));
        assert(views(more) =~= content_urls(all[i as int].content));
        i = i + 1;
    }
    assert(all.take(all.len() as int) =~= all);
    r
}

/// The images of a message come back as they went in.
pub proof fn images_of_a_message_come_back(text: Seq<char>, images: Seq<Seq<char>>)
    ensures
        message_urls(seq![seen_message(text, images)]) == images,
{
    let m = seen_message(text, images);
    let one = seq![m];
    assert(one.drop_last() =~= Seq::<MessageView>::empty());
    assert(message_urls(one.drop_last()) =~= Seq::<Seq<char>>::empty());
    assert(message_urls(one) =~= content_urls(m.content));
    if images.len() > 0 {
        let parts = seq![text_part(text)] + images.map_values(|url: Seq<char>| image_part(url));
        lemma_part_urls(text, images);
        assert(content_urls(m.content) == part_urls(parts));
    }
}

proof fn lemma_part_urls(text: Seq<char>, images: Seq<Seq<char>>)
    ensures
        part_urls(
            seq![text_part(text)] + images.map_values(|url: Seq<char>| image_part(url)),
        ) == images,
    decreases images.len(),
{
    let parts = seq![text_part(text)] + images.map_values(|url: Seq<char>| image_part(url));
    if images.len() == 0 {
        assert(parts.drop_last() =~= Seq::<PartView>::empty());
        assert(part_urls(parts.drop_last()) =~= images);
    } else {
        let fewer = images.drop_last();
        lemma_part_urls(text, fewer);
        assert(parts.drop_last() =~= seq![text_part(text)] + fewer.map_values(
            |url: Seq<char>| image_part(url),
        ));
        assert(parts.last() == image_part(images.last()));
        assert(fewer.push(images.last()) =~= images);
    }
}

// ---------------------------------------------------------------------------
// What messages are for
// ---------------------------------------------------------------------------

/// What the user says is said by the user, in these words; images stand behind them in
/// their order.
pub proof fn users_say_and_show(text: Seq<char>, images: Seq<Seq<char>>, i: int)
    ensures
        seen_message(text, images).role == "user"@,
        seen_message(text, images).tool_calls is None && seen_message(text, images).name is None
            && seen_message(text, images).tool_call_id is None,
        images.len() == 0 ==> seen_message(text, images).content == Some(ContentView::Text(text)),
        images.len() > 0 ==> (seen_message(text, images).content matches Some(
            ContentView::Parts(parts),
        ) && parts.len() == images.len() + 1 && parts[0].text == Some(text) && parts[0].kind
            == "text"@ && parts[0].image_url is None),
        0 <= i < images.len() ==> (seen_message(text, images).content matches Some(
            ContentView::Parts(parts),
        ) && parts[i + 1].kind == "image_url"@ && parts[i + 1].text is None && parts[i
            + 1].image_url == Some(ImageView::Url(images[i]))),
        plain_message("assistant"@, text).role == "assistant"@,
        plain_message("assistant"@, text).content == Some(ContentView::Text(text)),
{
}

/// The images of messages are those of one message after another, and only parts that
/// are images have any.
pub proof fn images_are_those_of_the_parts(
    a: Seq<MessageView>,
    m: MessageView,
    parts: Seq<PartView>,
    p: PartView,
)
    ensures
        message_urls(Seq::<MessageView>::empty()).len() == 0,
        message_urls(a.push(m)) == message_urls(a) + content_urls(m.content),
        part_urls(Seq::<PartView>::empty()).len() == 0,
        (p.kind == "image_url"@ || p.kind == "input_image"@) && p.image_url is Some ==> part_urls(
            parts.push(p),
        ) == part_urls(parts).push(p.image_url->0.url()),
        p.image_url is None || (p.kind != "image_url"@ && p.kind != "input_image"@) ==> part_urls(
            parts.push(p),
        ) == part_urls(parts),
        (m.content matches Some(ContentView::Text(_))) ==> content_urls(m.content).len() == 0,
        m.content is None ==> content_urls(m.content).len() == 0,
{
    assert(a.push(m).drop_last() =~= a);
    assert(parts.push(p).drop_last() =~= parts);
}

} // verus!

use vstd::prelude::*;

verus! {

/// The URL of an image part: here always a base64 data URI.
#[derive(Debug, Clone, PartialEq, Eq)]
pub struct ImageUrl {
    pub url: String,
}

/// One piece of a multimodal message.
#[derive(Debug, Clone, PartialEq, Eq)]
pub enum MessagePart {
    Text { text: String },
    ImageUrl { image_url: ImageUrl },
}

/// The body of a message: plain text, or an ordered list of parts.
#[derive(Debug, Clone, PartialEq, Eq)]
pub enum MessageContent {
    Text(String),
    Parts(Vec<MessagePart>),
}

/// One turn of the conversation.
#[derive(Debug, Clone, PartialEq, Eq)]
pub struct Message {
    pub role: String,
    pub content: MessageContent,
}

/// One increment of a streamed answer.
#[derive(Debug, Clone, PartialEq, Eq)]
pub enum ChatEvent {
    Content(String),
    Reasoning(String),
}

/// The body of a non-streamed chat completion.
#[derive(Debug, Clone, PartialEq, Eq)]
pub struct ChatFullResponse {
    pub choices: Vec<FullChoice>,
}

#[derive(Debug, Clone, PartialEq, Eq)]
pub struct FullChoice {
    pub message: FullMessage,
}

#[derive(Debug, Clone, PartialEq, Eq)]
pub struct FullMessage {
    pub content: Option<String>,
}

/// One frame of a streamed chat completion.
#[derive(Debug, Clone, PartialEq, Eq)]
pub struct ChatChunk {
    pub choices: Vec<ChunkChoice>,
}

#[derive(Debug, Clone, PartialEq, Eq)]
pub struct ChunkChoice {
    pub delta: ChunkDelta,
}

#[derive(Debug, Clone, PartialEq, Eq)]
pub struct ChunkDelta {
    pub content: Option<String>,
    pub reasoning_content: Option<String>,
}

pub enum PartView {
    Text(Seq<char>),
    Image(Seq<char>),
}

pub enum ContentView {
    Text(Seq<char>),
    Parts(Seq<PartView>),
}

pub struct MessageView {
    pub role: Seq<char>,
    pub content: ContentView,
}

pub enum EventView {
    Content(Seq<char>),
    Reasoning(Seq<char>),
}

impl View for MessagePart {
    type V = PartView;

    open spec fn view(&self) -> PartView {
        match self {
            MessagePart::Text { text } => PartView::Text(text@),
            MessagePart::ImageUrl { image_url } => PartView::Image(image_url.url@),
        }
    }
}

impl View for MessageContent {
    type V = ContentView;

    open spec fn view(&self) -> ContentView {
        match self {
            MessageContent::Text(t) => ContentView::Text(t@),
            MessageContent::Parts(ps) => ContentView::Parts(parts_view(ps@)),
        }
    }
}

impl View for Message {
    type V = MessageView;

    open spec fn view(&self) -> MessageView {
        MessageView { role: self.role@, content: self.content@ }
    }
}

impl View for ChatEvent {
    type V = EventView;

    open spec fn view(&self) -> EventView {
        match self {
            ChatEvent::Content(t) => EventView::Content(t@),
            ChatEvent::Reasoning(t) => EventView::Reasoning(t@),
        }
    }
}

pub open spec fn parts_view(ps: Seq<MessagePart>) -> Seq<PartView> {
    ps.map_values(|p: MessagePart| p@)
}

pub open spec fn messages_view(ms: Seq<Message>) -> Seq<MessageView> {
    ms.map_values(|m: Message| m@)
}

pub open spec fn events_view(es: Seq<ChatEvent>) -> Seq<EventView> {
    es.map_values(|e: ChatEvent| e@)
}

pub open spec fn user_role() -> Seq<char> {
    "user"@
}

pub open spec fn assistant_role() -> Seq<char> {
    "assistant"@
}

/// A message whose content is plain text.
pub open spec fn text_message(role: Seq<char>, text: Seq<char>) -> MessageView {
    MessageView { role, content: ContentView::Text(text) }
}

impl MessagePart {
    /// A copy with the same content.
    pub fn deep_copy(&self) -> (r: MessagePart)
        ensures
            r@ == self@,
    {
        match self {
            MessagePart::Text { text } => MessagePart::Text { text: text.clone() },
            MessagePart::ImageUrl { image_url } => MessagePart::ImageUrl {
                image_url: ImageUrl { url: image_url.url.clone() },
            },
        }
    }
}

impl Message {
    /// A message of the given role whose content is plain text.
    pub fn from_text(role: &str, text: String) -> (r: Message)
        ensures
            r@ == text_message(role@, text@),
    {
        Message { role: String::from_str(role), content: MessageContent::Text(text) }
    }

    /// A copy with the same role and content.
    pub fn deep_copy(&self) -> (r: Message)
        ensures
            r@ == self@,
    {
        let content = match &self.content {
            MessageContent::Text(t) => MessageContent::Text(t.clone()),
            MessageContent::Parts(ps) => {
                let mut out: Vec<MessagePart> = Vec::new();
                let mut i: usize = 0;
                while i < ps.len()
                    invariant
                        i <= ps@.len(),
                        out@.len() == i,
                        forall|j: int| 0 <= j < i ==> (#[trigger] out@[j])@ == ps@[j]@,
                    decreases ps@.len() - i,
                {
                    out.push(ps[i].deep_copy());
                    i += 1;
                }
                assert(parts_view(out@) =~= parts_view(ps@));
                MessageContent::Parts(out)
            },
        };
        let r = Message { role: self.role.clone(), content };
        assert(r.content@ == self.content@);
        r
    }
}

/// A copy of a message list, message by message.
pub fn copy_messages(ms: &Vec<Message>) -> (r: Vec<Message>)
    ensures
        messages_view(r@) =~= messages_view(ms@),
{
    let mut out: Vec<Message> = Vec::new();
    let mut i: usize = 0;
    while i < ms.len()
        invariant
            i <= ms@.len(),
            out@.len() == i,
            forall|j: int| 0 <= j < i ==> (#[trigger] out@[j])@ == ms@[j]@,
        decreases ms@.len() - i,
    {
        out.push(ms[i].deep_copy());
        i += 1;
    }
    out
}

} // verus!

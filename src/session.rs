use crate::encoding::{
    base64_of, data_uri_of, detect_mime, encode_data_uri, mime_for, sniffed_mime,
};
use crate::error::LlamaError;
use crate::message::{
    assistant_role, copy_messages, messages_view, text_message, user_role, ChatEvent,
    ChatFullResponse, ContentView, EventView, ImageUrl, Message, MessageContent, MessagePart,
    MessageView, PartView,
};
use crate::remote::{full_response_content, response_content};
use vstd::prelude::*;

verus! {

/// The image part that carries `bytes`.
pub open spec fn image_part_of(bytes: Seq<u8>) -> PartView {
    PartView::Image(data_uri_of(mime_for(sniffed_mime(bytes)), base64_of(bytes)))
}

/// The user message for a prompt and its images: the prompt text, then one part per image in order.
pub open spec fn user_message_of(prompt: Seq<char>, images: Seq<Vec<u8>>) -> MessageView {
    MessageView {
        role: user_role(),
        content: ContentView::Parts(
            seq![PartView::Text(prompt)] + images.map_values(|b: Vec<u8>| image_part_of(b@)),
        ),
    }
}

/// The concatenation of the content fragments among `events`, in order; reasoning is left out.
pub open spec fn content_text(events: Seq<EventView>) -> Seq<char>
    decreases events.len(),
{
    if events.len() == 0 {
        Seq::empty()
    } else {
        let prev = content_text(events.drop_last());
        match events.last() {
            EventView::Content(t) => prev + t,
            EventView::Reasoning(_) => prev,
        }
    }
}

/// What a completed stream adds to the history: the user message, then the assistant's
/// content if it has any.
pub open spec fn committed_turn(user: MessageView, events: Seq<EventView>) -> Seq<MessageView> {
    let text = content_text(events);
    if text.len() == 0 {
        seq![user]
    } else {
        seq![user, text_message(assistant_role(), text)]
    }
}

/// What a session holds: the model's name and the conversation so far.
pub struct SessionView {
    pub model: Seq<char>,
    pub history: Seq<MessageView>,
}

/// A conversation with a remote model, held turn by turn.
pub struct ChatSession {
    model: String,
    messages: Vec<Message>,
}

impl View for ChatSession {
    type V = SessionView;

    closed spec fn view(&self) -> SessionView {
        SessionView { model: self.model@, history: messages_view(self.messages@) }
    }
}

/// Builds the user message for a prompt and the bytes of its images.
pub fn prepare_user_message(prompt: &str, images: &[Vec<u8>]) -> (r: Message)
    requires
        forall|i: int| 0 <= i < images@.len() ==> (#[trigger] images@[i])@.len() <= usize::MAX / 2,
    ensures
        r@ == user_message_of(prompt@, images@),
{
    let mut parts: Vec<MessagePart> = Vec::new();
    parts.push(MessagePart::Text { text: String::from_str(prompt) });
    let mut i: usize = 0;
    while i < images.len()
        invariant
            i <= images@.len(),
            forall|j: int| 0 <= j < images@.len() ==> (#[trigger] images@[j])@.len() <= usize::MAX / 2,
            parts@.len() == i + 1,
            parts@[0]@ == PartView::Text(prompt@),
            forall|j: int| 0 <= j < i ==> (#[trigger] parts@[j + 1])@ == image_part_of(images@[j]@),
        decreases images@.len() - i,
    {
        let bytes = &images[i];
        let mime = detect_mime(bytes.as_slice());
        let url = encode_data_uri(mime.as_str(), bytes.as_slice());
        parts.push(MessagePart::ImageUrl { image_url: ImageUrl { url } });
        proof {
            assert(parts@[i + 1]@ == image_part_of(images@[i as int]@));
        }
        i += 1;
    }
    let r = Message { role: String::from_str("user"), content: MessageContent::Parts(parts) };
    proof {
        let want = user_message_of(prompt@, images@);
        assert forall|j: int| 0 <= j < parts@.len() implies #[trigger] crate::message::parts_view(
            parts@,
        )[j] == (seq![PartView::Text(prompt@)] + images@.map_values(
            |b: Vec<u8>| image_part_of(b@),
        ))[j] by {
            if j > 0 {
                assert(parts@[(j - 1) + 1]@ == image_part_of(images@[j - 1]@));
            }
        }
        assert(crate::message::parts_view(parts@) =~= seq![PartView::Text(prompt@)]
            + images@.map_values(|b: Vec<u8>| image_part_of(b@)));
        assert(r@ == want);
    }
    r
}

impl ChatSession {
    /// A session with an empty history for the named model (the empty name where none is given).
    pub fn new(model: Option<String>) -> (r: ChatSession)
        ensures
            r@.model == (match model {
                Some(m) => m@,
                None => Seq::<char>::empty(),
            }),
            r@.history.len() == 0,
    {
        let model = match model {
            Some(m) => m,
            None => String::new(),
        };
        let r = ChatSession { model, messages: Vec::new() };
        assert(r@.history =~= Seq::<MessageView>::empty());
        r
    }

    /// The name of the model that the session talks to.
    pub fn model(&self) -> (r: &String)
        ensures
            r@ == self@.model,
    {
        &self.model
    }

    /// The conversation so far, oldest message first.
    pub fn messages(&self) -> (r: &Vec<Message>)
        ensures
            messages_view(r@) == self@.history,
    {
        &self.messages
    }

    /// Appends a text message of the given role.
    pub fn push_text(&mut self, role: &str, text: String)
        ensures
            final(self)@.model == old(self)@.model,
            final(self)@.history == old(self)@.history.push(text_message(role@, text@)),
    {
        let m = Message::from_text(role, text);
        self.messages.push(m);
        proof {
            assert(messages_view(self.messages@) =~= old(self)@.history.push(
                text_message(role@, text@),
            ));
        }
    }

    /// The history to send for a new turn: the conversation so far, then the user message.
    pub fn dispatch_history(&self, user: &Message) -> (r: Vec<Message>)
        ensures
            messages_view(r@) == self@.history.push(user@),
    {
        let mut r = copy_messages(&self.messages);
        r.push(user.deep_copy());
        assert(messages_view(r@) =~= self@.history.push(user@));
        r
    }

    /// Settles a non-streamed turn: on success the user message and the answer join the
    /// history and the answer is returned; on failure the history stays as it was.
    pub fn finish_chat(&mut self, user: Message, outcome: Result<ChatFullResponse, LlamaError>) -> (r:
        Result<String, LlamaError>)
        ensures
            final(self)@.model == old(self)@.model,
            match outcome {
                Err(e) => r == Err::<String, LlamaError>(e) && final(self)@ == old(self)@,
                Ok(resp) => match response_content(resp) {
                    None => r == Err::<String, LlamaError>(LlamaError::MalformedResponse)
                        && final(self)@ == old(self)@,
                    Some(c) => r matches Ok(t) && t@ == c && final(self)@.history == old(
                        self,
                    )@.history.push(user@).push(text_message(assistant_role(), c)),
                },
            },
    {
        match outcome {
            Err(e) => Err(e),
            Ok(resp) => match full_response_content(&resp) {
                Err(e) => Err(e),
                Ok(text) => {
                    self.messages.push(user);
                    self.push_text("assistant", text.clone());
                    proof {
                        assert(messages_view(old(self).messages@.push(user)) =~= old(
                            self,
                        )@.history.push(user@));
                    }
                    Ok(text)
                },
            },
        }
    }

    /// Forgets the whole conversation.
    pub fn reset(&mut self)
        ensures
            final(self)@.model == old(self)@.model,
            final(self)@.history.len() == 0,
    {
        self.messages.clear();
        assert(final(self)@.history =~= Seq::<MessageView>::empty());
    }
}

/// Where a streamed turn stands.
#[derive(Debug, Clone, Copy, PartialEq, Eq, Structural)]
pub enum StreamState {
    Streaming,
    Completed,
    Failed,
}

/// A streamed turn: passes events through unchanged and, when the stream ends, commits the
/// turn to the session once.
pub struct ChatResponseStream {
    user: Message,
    accumulated_content: String,
    state: StreamState,
    seen: Ghost<Seq<EventView>>,
}

impl ChatResponseStream {
    /// The events passed through so far.
    pub closed spec fn seen(&self) -> Seq<EventView> {
        self.seen@
    }

    /// The user message of the turn.
    pub closed spec fn user(&self) -> MessageView {
        self.user@
    }

    pub closed spec fn state(&self) -> StreamState {
        self.state
    }

    /// The content gathered so far is that of the events seen.
    pub closed spec fn wf(&self) -> bool {
        self.accumulated_content@ == content_text(self.seen@)
    }

    /// A turn that has sent `user` and awaits its first event.
    pub fn new(user: Message) -> (r: ChatResponseStream)
        ensures
            r.wf(),
            r.user() == user@,
            r.seen().len() == 0,
            r.state() == StreamState::Streaming,
    {
        ChatResponseStream {
            user,
            accumulated_content: String::new(),
            state: StreamState::Streaming,
            seen: Ghost(Seq::empty()),
        }
    }

    /// Where the turn stands.
    pub fn stream_state(&self) -> (r: StreamState)
        ensures
            r == self.state(),
    {
        self.state
    }

    /// Takes the next item of the backend's stream (`None` once it is exhausted) and returns
    /// what the caller sees. An event passes unchanged; an error ends the turn with nothing
    /// committed; the end of the stream commits the turn. After the end, nothing more comes.
    pub fn on_item(
        &mut self,
        session: &mut ChatSession,
        item: Option<Result<ChatEvent, LlamaError>>,
    ) -> (r: Option<Result<ChatEvent, LlamaError>>)
        requires
            old(self).wf(),
        ensures
            final(self).wf(),
            final(self).user() == old(self).user(),
            final(session)@.model == old(session)@.model,
            old(self).state() != StreamState::Streaming ==> r is None && final(self).state()
                == old(self).state() && final(self).seen() == old(self).seen() && final(session)@
                == old(session)@,
            old(self).state() == StreamState::Streaming ==> match item {
                Some(Ok(ev)) => r == item && final(self).state() == StreamState::Streaming
                    && final(self).seen() == old(self).seen().push(ev@) && final(session)@
                    == old(session)@,
                Some(Err(_)) => r == item && final(self).state() == StreamState::Failed
                    && final(self).seen() == old(self).seen() && final(session)@ == old(session)@,
                None => r is None && final(self).state() == StreamState::Completed
                    && final(self).seen() == old(self).seen() && final(session)@.history == old(
                    session,
                )@.history + committed_turn(old(self).user(), old(self).seen()),
            },
    {
        if self.state != StreamState::Streaming {
            return None;
        }
        match &item {
            Some(Ok(ev)) => {
                if let ChatEvent::Content(c) = ev {
                    self.accumulated_content.append(c.as_str());
                }
                proof {
                    let s = old(self).seen@.push(ev@);
                    assert(s.drop_last() =~= old(self).seen@);
                    self.seen@ = s;
                }
            },
            Some(Err(_)) => {
                self.state = StreamState::Failed;
            },
            None => {
                self.state = StreamState::Completed;
                let ghost before = session@.history;
                session.messages.push(self.user.deep_copy());
                proof {
                    assert(messages_view(session.messages@) =~= before.push(self.user@));
                }
                if !self.accumulated_content.as_str().is_empty() {
                    session.push_text("assistant", self.accumulated_content.clone());
                }
                proof {
                    let turn = committed_turn(self.user@, self.seen@);
                    assert(session@.history =~= before + turn);
                }
            },
        }
        item
    }
}

/// A stream whose events are all reasoning commits the user message and no assistant message.
pub proof fn lemma_reasoning_only_commits_no_reply(user: MessageView, events: Seq<EventView>)
    requires
        forall|i: int| 0 <= i < events.len() ==> (#[trigger] events[i]) is Reasoning,
    ensures
        content_text(events).len() == 0,
        committed_turn(user, events) == seq![user],
    decreases events.len(),
{
    if events.len() > 0 {
        let prev = events.drop_last();
        assert forall|i: int| 0 <= i < prev.len() implies (#[trigger] prev[i]) is Reasoning by {
            assert(prev[i] == events[i]);
        }
        lemma_reasoning_only_commits_no_reply(user, prev);
        assert(events.last() is Reasoning);
    }
}

} // verus!

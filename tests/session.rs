use llama_chat::encoding::encode_data_uri;
use llama_chat::error::LlamaError;
use llama_chat::message::{
    ChatEvent, ChatFullResponse, FullChoice, FullMessage, ImageUrl, Message, MessageContent,
    MessagePart,
};
use llama_chat::session::{prepare_user_message, ChatResponseStream, ChatSession, StreamState};

const IMG_A: [u8; 8] = [0x89, 0x50, 0x4E, 0x47, 0x0D, 0x0A, 0x1A, 0x0A];
const IMG_B: [u8; 4] = [0xFF, 0xD8, 0xFF, 0xDB];

fn answer(text: &str) -> Result<ChatFullResponse, LlamaError> {
    Ok(ChatFullResponse {
        choices: vec![FullChoice { message: FullMessage { content: Some(text.to_string()) } }],
    })
}

fn text(role: &str, t: &str) -> Message {
    Message { role: role.to_string(), content: MessageContent::Text(t.to_string()) }
}

fn chat(session: &mut ChatSession, prompt: &str, images: &[Vec<u8>], reply: &str) -> Vec<Message> {
    let user = prepare_user_message(prompt, images);
    let sent = session.dispatch_history(&user);
    assert_eq!(session.finish_chat(user, answer(reply)), Ok(reply.to_string()));
    sent
}

fn image_url(m: &Message, i: usize) -> String {
    match &m.content {
        MessageContent::Parts(ps) => match &ps[i] {
            MessagePart::ImageUrl { image_url } => image_url.url.clone(),
            MessagePart::Text { .. } => panic!("not an image part"),
        },
        MessageContent::Text(_) => panic!("not a multipart message"),
    }
}

#[test]
fn user_message_parts_in_order() {
    let m = prepare_user_message("Caption this image", &[IMG_A.to_vec(), IMG_B.to_vec()]);
    assert_eq!(
        m,
        Message {
            role: "user".to_string(),
            content: MessageContent::Parts(vec![
                MessagePart::Text { text: "Caption this image".to_string() },
                MessagePart::ImageUrl { image_url: ImageUrl { url: encode_data_uri("image/png", &IMG_A) } },
                MessagePart::ImageUrl { image_url: ImageUrl { url: encode_data_uri("image/jpeg", &IMG_B) } },
            ]),
        }
    );
    assert_eq!(image_url(&m, 1), "data:image/png;base64,iVBORw0KGgo=");
}

#[test]
fn user_message_without_images_has_only_text() {
    let m = prepare_user_message("hello", &[]);
    assert_eq!(
        m.content,
        MessageContent::Parts(vec![MessagePart::Text { text: "hello".to_string() }])
    );
}

#[test]
fn new_session_is_empty() {
    let s = ChatSession::new(None);
    assert_eq!(s.model(), "");
    assert!(s.messages().is_empty());
    let s = ChatSession::new(Some("qwen".to_string()));
    assert_eq!(s.model(), "qwen");
}

#[test]
fn push_text_appends() {
    let mut s = ChatSession::new(None);
    s.push_text("assistant", "hi".to_string());
    assert_eq!(s.messages(), &vec![text("assistant", "hi")]);
}

#[test]
fn reset_empties_history() {
    let mut s = ChatSession::new(Some("m".to_string()));
    chat(&mut s, "one", &[], "1");
    chat(&mut s, "two", &[], "2");
    assert_eq!(s.messages().len(), 4);
    s.reset();
    assert!(s.messages().is_empty());
    assert_eq!(s.model(), "m");
}

#[test]
fn reset_between_captions_forgets_first_turn() {
    let mut s = ChatSession::new(None);
    chat(&mut s, "Caption this image", &[IMG_A.to_vec()], "an island");
    s.reset();
    chat(&mut s, "Caption this image", &[IMG_B.to_vec()], "a farm");
    let msgs = s.messages();
    assert_eq!(msgs.len(), 2);
    assert_eq!(msgs[0], prepare_user_message("Caption this image", &[IMG_B.to_vec()]));
    assert_eq!(msgs[1], text("assistant", "a farm"));
    assert!(!msgs.iter().any(|m| *m == prepare_user_message("Caption this image", &[IMG_A.to_vec()])));
}

#[test]
fn follow_up_dispatches_prior_turns() {
    let mut s = ChatSession::new(None);
    let first = prepare_user_message("Caption this image", &[IMG_A.to_vec()]);
    chat(&mut s, "Caption this image", &[IMG_A.to_vec()], "an island");
    let sent = chat(&mut s, "Where might this be?", &[], "the tropics");
    assert_eq!(
        sent,
        vec![
            first,
            text("assistant", "an island"),
            prepare_user_message("Where might this be?", &[]),
        ]
    );
    assert_eq!(s.messages().len(), 4);
}

#[test]
fn api_error_leaves_history_unchanged() {
    let mut s = ChatSession::new(None);
    chat(&mut s, "hi", &[], "hello");
    let before = s.messages().clone();
    let user = prepare_user_message("again", &[]);
    let err = LlamaError::Api { status: 500, body: "overloaded".to_string() };
    assert_eq!(s.finish_chat(user, Err(err.clone())), Err(err));
    assert_eq!(s.messages(), &before);
}

#[test]
fn missing_content_is_malformed_and_not_committed() {
    let mut s = ChatSession::new(None);
    let user = prepare_user_message("hi", &[]);
    let resp = ChatFullResponse { choices: vec![FullChoice { message: FullMessage { content: None } }] };
    assert_eq!(s.finish_chat(user, Ok(resp)), Err(LlamaError::MalformedResponse));
    assert!(s.messages().is_empty());
}

#[test]
fn transport_error_is_passed_on() {
    let mut s = ChatSession::new(None);
    let user = prepare_user_message("hi", &[]);
    let err = LlamaError::Http("connection refused".to_string());
    assert_eq!(s.finish_chat(user, Err(err.clone())), Err(err));
    assert!(s.messages().is_empty());
}

fn content(t: &str) -> Option<Result<ChatEvent, LlamaError>> {
    Some(Ok(ChatEvent::Content(t.to_string())))
}

fn reasoning(t: &str) -> Option<Result<ChatEvent, LlamaError>> {
    Some(Ok(ChatEvent::Reasoning(t.to_string())))
}

#[test]
fn stream_commits_concatenated_content_once() {
    let mut s = ChatSession::new(None);
    let user = prepare_user_message("stream", &[]);
    let mut st = ChatResponseStream::new(user.clone());
    for t in ["a", "b", "c"] {
        assert_eq!(st.on_item(&mut s, content(t)), content(t));
        assert!(s.messages().is_empty());
    }
    assert_eq!(st.on_item(&mut s, None), None);
    assert_eq!(st.stream_state(), StreamState::Completed);
    assert_eq!(s.messages(), &vec![user.clone(), text("assistant", "abc")]);
    assert_eq!(st.on_item(&mut s, None), None);
    assert_eq!(st.on_item(&mut s, content("d")), None);
    assert_eq!(s.messages(), &vec![user, text("assistant", "abc")]);
}

#[test]
fn stream_skips_reasoning_in_commit() {
    let mut s = ChatSession::new(None);
    let user = prepare_user_message("q", &[]);
    let mut st = ChatResponseStream::new(user.clone());
    assert_eq!(st.on_item(&mut s, reasoning("hmm")), reasoning("hmm"));
    assert_eq!(st.on_item(&mut s, content("yes")), content("yes"));
    assert_eq!(st.on_item(&mut s, reasoning("more")), reasoning("more"));
    assert_eq!(st.on_item(&mut s, content("!")), content("!"));
    assert_eq!(st.on_item(&mut s, None), None);
    assert_eq!(s.messages(), &vec![user, text("assistant", "yes!")]);
}

#[test]
fn reasoning_only_stream_commits_no_reply() {
    let mut s = ChatSession::new(None);
    let user = prepare_user_message("q", &[]);
    let mut st = ChatResponseStream::new(user.clone());
    assert_eq!(st.on_item(&mut s, reasoning("thinking")), reasoning("thinking"));
    assert_eq!(st.on_item(&mut s, reasoning("still")), reasoning("still"));
    assert_eq!(st.on_item(&mut s, None), None);
    assert_eq!(s.messages(), &vec![user]);
}

#[test]
fn failed_stream_commits_nothing() {
    let mut s = ChatSession::new(None);
    let user = prepare_user_message("q", &[]);
    let mut st = ChatResponseStream::new(user);
    assert_eq!(st.on_item(&mut s, content("par")), content("par"));
    let err = Some(Err(LlamaError::Json("expected value".to_string())));
    assert_eq!(st.on_item(&mut s, err.clone()), err);
    assert_eq!(st.stream_state(), StreamState::Failed);
    assert_eq!(st.on_item(&mut s, content("tial")), None);
    assert_eq!(st.on_item(&mut s, None), None);
    assert!(s.messages().is_empty());
}

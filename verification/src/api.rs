//! The decisions of the chat server: the prompts fed to the model, the
//! filter that holds back a stop sequence while the model streams tokens,
//! and what becomes of the frames a client sends.

use vstd::prelude::*;
use vstd::string::*;

use crate::model::conversation::{llama_label, Message, Role};
use crate::text::starts_with;

verus! {

/// The most tokens the model may infer in reply to one user message.
pub const MAX_INFERRED_TOKENS: usize = 256;

/// Whether a message of the role belongs to the model's persona (system and
/// assistant messages) rather than to the conversation history.
pub open spec fn is_persona_role(role: Role) -> bool {
    role == Role::System || role == Role::Assistant
}

/// The persona text of a list of messages: the contents of its system and
/// assistant messages, one after the other.
pub open spec fn persona_of(ms: Seq<Message>) -> Seq<char>
    decreases ms.len(),
{
    if ms.len() == 0 {
        Seq::empty()
    } else {
        let last = ms.last();
        persona_of(ms.drop_last()) + if is_persona_role(last.role) {
            last.content@
        } else {
            Seq::empty()
        }
    }
}

/// The line of the history that a message contributes: its speaker label,
/// a colon and a space, its content and a line break.
pub open spec fn history_line(m: Message) -> Seq<char> {
    llama_label(m.role) + ": "@ + m.content@ + "\n"@
}

/// The history text of a list of messages: one line for each message that
/// is not part of the persona, in order.
pub open spec fn history_of(ms: Seq<Message>) -> Seq<char>
    decreases ms.len(),
{
    if ms.len() == 0 {
        Seq::empty()
    } else {
        let last = ms.last();
        history_of(ms.drop_last()) + if is_persona_role(last.role) {
            Seq::empty()
        } else {
            history_line(last)
        }
    }
}

/// The prompt that opens an inference session: the persona, a line break,
/// then the history.
pub open spec fn session_prompt_text(ms: Seq<Message>) -> Seq<char> {
    persona_of(ms) + "\n"@ + history_of(ms)
}

/// The prompt that asks the model to answer a message: the speaker label of
/// the message, its content, then the assistant's label and a colon, each
/// on a line of its own.
pub open spec fn inference_prompt_text(m: Message) -> Seq<char> {
    llama_label(m.role) + "\n"@ + m.content@ + "\n"@ + llama_label(Role::Assistant) + ":"@
}

/// Builds the prompt that opens an inference session from the stored
/// messages.
pub fn session_prompt(messages: &Vec<Message>) -> (prompt: String)
    ensures
        prompt@ == session_prompt_text(messages@),
        messages@.len() == 1 && (messages@[0].role == Role::System || messages@[0].role
            == Role::Assistant) ==> prompt@ == messages@[0].content@ + "\n"@,
        messages@.len() == 1 && !(messages@[0].role == Role::System || messages@[0].role
            == Role::Assistant) ==> prompt@ == "\n"@ + llama_label(messages@[0].role) + ": "@
            + messages@[0].content@ + "\n"@,
{
    proof {
        if messages@.len() == 1 {
            assert(messages@ =~= seq![messages@[0]]);
            lemma_session_prompt_of_one_message(messages@[0]);
        }
    }
    let mut persona = String::new();
    let mut history = String::new();
    let n = messages.len();
    for i in 0..n
        invariant
            n == messages@.len(),
            persona@ == persona_of(messages@.take(i as int)),
            history@ == history_of(messages@.take(i as int)),
    {
        let m = &messages[i];
        assert(messages@.take(i + 1).drop_last() =~= messages@.take(i as int));
        match m.role {
            Role::System | Role::Assistant => {
                persona.append(m.content.as_str());
            },
            _ => {
                history.append(m.role.to_llama());
                history.append(": ");
                history.append(m.content.as_str());
                history.append("\n");
            },
        }
    }
    assert(messages@.take(n as int) =~= messages@);
    let mut prompt = persona;
    prompt.append("\n");
    prompt.append(history.as_str());
    prompt
}

/// Builds the prompt that asks the model to answer `user_message`.
pub fn inference_prompt(user_message: &Message) -> (prompt: String)
    ensures
        prompt@ == inference_prompt_text(*user_message),
        prompt@ == llama_label(user_message.role) + "\n"@ + user_message.content@
            + "\n### Assistant:"@,
        prompt@.len() == llama_label(user_message.role).len() + user_message.content@.len() + 16,
        prompt@.subrange(
            llama_label(user_message.role).len() + 1 as int,
            llama_label(user_message.role).len() + 1 + user_message.content@.len() as int,
        ) == user_message.content@,
{
    proof {
        lemma_inference_prompt_holds_content(*user_message);
    }
    let mut prompt = String::new();
    prompt.append(user_message.role.to_llama());
    prompt.append("\n");
    prompt.append(user_message.content.as_str());
    prompt.append("\n");
    prompt.append(Role::Assistant.to_llama());
    prompt.append(":");
    prompt
}

/// What the model reports while it infers a reply.
pub enum InferenceEvent {
    /// A token of the reply.
    InferredToken(String),
    /// The model has ended its reply.
    EndOfText,
    /// Anything else: tokens of the prompt, snapshots.
    Other,
}

/// Whether the model is to go on inferring.
#[derive(Clone, Copy, Debug, PartialEq, Eq, Structural)]
pub enum Feedback {
    Continue,
    Halt,
}

/// What one event comes to: whether inference goes on, and the text, if
/// any, to send on to the client.
pub struct FilterStep {
    pub feedback: Feedback,
    pub send: Option<String>,
}

/// Whether a token halts inference: it completes the stop sequence.
pub open spec fn token_halts(stop: Seq<char>, pending: Seq<char>, token: Seq<char>) -> bool {
    pending + token == stop
}

/// The held-back text after a token: cleared when the token completes the
/// stop sequence, extended by the token while the stop sequence may still
/// follow, and kept as it was otherwise.
pub open spec fn token_pending(stop: Seq<char>, pending: Seq<char>, token: Seq<char>) -> Seq<char> {
    let joined = pending + token;
    if joined == stop {
        Seq::empty()
    } else if joined.is_prefix_of(stop) {
        joined
    } else {
        pending
    }
}

/// The text sent on after a token: nothing while the held-back text and the
/// token may still be the start of the stop sequence; otherwise the token
/// alone when nothing is held back, and the held-back text followed by the
/// token when something is.
pub open spec fn token_sends(stop: Seq<char>, pending: Seq<char>, token: Seq<char>) -> Option<
    Seq<char>,
> {
    let joined = pending + token;
    if joined == stop || joined.is_prefix_of(stop) {
        None
    } else if pending.len() == 0 {
        Some(token)
    } else {
        Some(joined)
    }
}

/// Whether an event halts inference: the end of the reply, or a token that
/// completes the stop sequence.
pub open spec fn event_halts(stop: Seq<char>, pending: Seq<char>, event: InferenceEvent) -> bool {
    match event {
        InferenceEvent::InferredToken(t) => token_halts(stop, pending, t@),
        InferenceEvent::EndOfText => true,
        InferenceEvent::Other => false,
    }
}

/// The held-back text after an event; only tokens change it.
pub open spec fn event_pending(stop: Seq<char>, pending: Seq<char>, event: InferenceEvent) -> Seq<
    char,
> {
    match event {
        InferenceEvent::InferredToken(t) => token_pending(stop, pending, t@),
        _ => pending,
    }
}

/// The text sent on after an event; only tokens send any.
pub open spec fn event_sends(stop: Seq<char>, pending: Seq<char>, event: InferenceEvent) -> Option<
    Seq<char>,
> {
    match event {
        InferenceEvent::InferredToken(t) => token_sends(stop, pending, t@),
        _ => None,
    }
}

/// The outcome of feeding a run of tokens, one by one, until one halts:
/// whether one halted, the texts sent on in order, and the held-back text at
/// the end.
pub open spec fn feed_tokens(stop: Seq<char>, pending: Seq<char>, tokens: Seq<Seq<char>>) -> (
    bool,
    Seq<Seq<char>>,
    Seq<char>,
)
    decreases tokens.len(),
{
    if tokens.len() == 0 {
        (false, Seq::empty(), pending)
    } else {
        let t = tokens.first();
        let sent: Seq<Seq<char>> = match token_sends(stop, pending, t) {
            Some(s) => seq![s],
            None => Seq::empty(),
        };
        let next = token_pending(stop, pending, t);
        if token_halts(stop, pending, t) {
            (true, sent, next)
        } else {
            let rest = feed_tokens(stop, next, tokens.drop_first());
            (rest.0, sent + rest.1, rest.2)
        }
    }
}

/// Holds back the text of the reply that may be the start of a stop
/// sequence, so that the stop sequence itself is never sent to the client,
/// and halts the model once the stop sequence is complete.
pub struct StopSequenceFilter {
    stop: String,
    pending: String,
}

impl StopSequenceFilter {
    /// The stop sequence.
    pub closed spec fn stop_sequence(&self) -> Seq<char> {
        self.stop@
    }

    /// The text held back so far.
    pub closed spec fn pending(&self) -> Seq<char> {
        self.pending@
    }

    /// A filter for `stop`, holding nothing back.
    pub fn new(stop: String) -> (f: StopSequenceFilter)
        ensures
            f.stop_sequence() == stop@,
            f.pending() == Seq::<char>::empty(),
    {
        StopSequenceFilter { stop, pending: String::new() }
    }

    /// The filter for a reply to a message of `role`: the reply stops where
    /// the model starts to speak for that role again.
    pub fn for_role(role: Role) -> (f: StopSequenceFilter)
        ensures
            f.stop_sequence() == llama_label(role),
            f.pending() == Seq::<char>::empty(),
    {
        StopSequenceFilter::new(role.to_llama().to_owned())
    }

    /// Takes one event of the model: says whether the model goes on, what to
    /// send to the client, and updates the held-back text.
    pub fn step(&mut self, event: InferenceEvent) -> (out: FilterStep)
        ensures
            final(self).stop_sequence() == old(self).stop_sequence(),
            final(self).pending() == event_pending(
                old(self).stop_sequence(),
                old(self).pending(),
                event,
            ),
            (out.feedback == Feedback::Halt) == event_halts(
                old(self).stop_sequence(),
                old(self).pending(),
                event,
            ),
            match out.send {
                Some(text) => event_sends(old(self).stop_sequence(), old(self).pending(), event)
                    == Some(text@),
                None => event_sends(old(self).stop_sequence(), old(self).pending(), event) is None,
            },
            match event {
                InferenceEvent::InferredToken(t) => !(old(self).pending() + t@).is_prefix_of(
                    old(self).stop_sequence(),
                ) ==> {
                    &&& out.feedback == Feedback::Continue
                    &&& out.send matches Some(text) && text@ == old(self).pending() + t@
                    &&& final(self).pending() == old(self).pending()
                },
                _ => true,
            },
    {
        match event {
            InferenceEvent::InferredToken(token) => {
                let mut joined = self.pending.clone();
                joined.append(token.as_str());
                if self.stop == joined {
                    self.pending = String::new();
                    FilterStep { feedback: Feedback::Halt, send: None }
                } else if starts_with(self.stop.as_str(), joined.as_str()) {
                    self.pending = joined;
                    FilterStep { feedback: Feedback::Continue, send: None }
                } else {
                    let ghost held = self.pending@;
                    let ghost piece = token@;
                    let text = if self.pending.as_str().is_empty() {
                        token
                    } else {
                        joined
                    };
                    proof {
                        if held.len() == 0 {
                            assert(held + piece =~= piece);
                        }
                    }
                    FilterStep { feedback: Feedback::Continue, send: Some(text) }
                }
            },
            InferenceEvent::EndOfText => FilterStep { feedback: Feedback::Halt, send: None },
            InferenceEvent::Other => FilterStep { feedback: Feedback::Continue, send: None },
        }
    }
}

/// A frame that the client sends over its websocket.
pub enum ClientFrame {
    Ping(Vec<u8>),
    Text(String),
    Other,
}

/// What the server does with a frame of the client.
pub enum FrameAction {
    /// Answer a ping with a pong that carries the same bytes.
    Pong(Vec<u8>),
    /// Hand the text to the inference thread.
    Forward(String),
    /// Stop reading from the client.
    Close,
}

/// Decides what to do with a frame of the client: pings are answered,
/// texts go to the model, and any other frame ends the exchange.
pub fn route_frame(frame: ClientFrame) -> (action: FrameAction)
    ensures
        match frame {
            ClientFrame::Ping(bytes) => (action matches FrameAction::Pong(b) && b@ == bytes@),
            ClientFrame::Text(text) => (action matches FrameAction::Forward(t) && t@ == text@),
            ClientFrame::Other => action is Close,
        },
{
    match frame {
        ClientFrame::Ping(bytes) => FrameAction::Pong(bytes),
        ClientFrame::Text(text) => FrameAction::Forward(text),
        ClientFrame::Other => FrameAction::Close,
    }
}

/// The user message that a text of the client makes; the empty text makes
/// none, and ends the conversation.
pub fn user_turn(text: String) -> (turn: Option<Message>)
    ensures
        text@.len() == 0 ==> turn is None,
        text@.len() > 0 ==> (turn matches Some(m) && m.role == Role::User && m.content@ == text@),
{
    let message = Message::new(Some(Role::User), text);
    if message.content.as_str().is_empty() {
        None
    } else {
        Some(message)
    }
}

/// The held-back text stays a prefix of the stop sequence: it starts empty,
/// and no event can make it anything else.
pub proof fn lemma_pending_stays_prefix(stop: Seq<char>, pending: Seq<char>, event: InferenceEvent)
    requires
        pending.is_prefix_of(stop),
    ensures
        event_pending(stop, pending, event).is_prefix_of(stop),
{
    if let InferenceEvent::InferredToken(t) = event {
        let joined = pending + t@;
        if joined == stop {
            assert(Seq::<char>::empty() =~= stop.subrange(0, 0));
        }
    }
}

/// No text sent on to the client is the start of the stop sequence; in
/// particular the stop sequence itself is never sent.
pub proof fn lemma_sent_text_is_not_stop_prefix(
    stop: Seq<char>,
    pending: Seq<char>,
    event: InferenceEvent,
)
    ensures
        event_sends(stop, pending, event) matches Some(text) ==> !text.is_prefix_of(stop),
{
    if let InferenceEvent::InferredToken(t) = event {
        if pending.len() == 0 {
            assert(pending + t@ =~= t@);
        }
    }
}

/// An event that halts the model sends nothing to the client.
pub proof fn lemma_halting_sends_nothing(stop: Seq<char>, pending: Seq<char>, event: InferenceEvent)
    ensures
        event_halts(stop, pending, event) ==> event_sends(stop, pending, event) is None,
{
}

/// However the model splits the rest of the stop sequence into tokens, fed
/// one by one they halt the model, and none of their text reaches the
/// client.
pub proof fn lemma_stop_sequence_halts_unsent(
    stop: Seq<char>,
    pending: Seq<char>,
    tokens: Seq<Seq<char>>,
)
    requires
        tokens.len() > 0,
        pending + tokens.flatten() == stop,
    ensures
        feed_tokens(stop, pending, tokens).0,
        feed_tokens(stop, pending, tokens).1.len() == 0,
    decreases tokens.len(),
{
    let t = tokens.first();
    let rest = tokens.drop_first();
    let joined = pending + t;
    assert(tokens.flatten() == t + rest.flatten());
    assert(stop =~= joined + rest.flatten());
    assert(joined.is_prefix_of(stop)) by {
        assert(joined =~= stop.subrange(0, joined.len() as int));
    }
    if joined != stop {
        if rest.len() == 0 {
            assert(rest.flatten() =~= Seq::<char>::empty());
            assert(stop =~= joined);
        }
        lemma_stop_sequence_halts_unsent(stop, joined, rest);
        let sent: Seq<Seq<char>> = Seq::empty();
        assert(sent + feed_tokens(stop, joined, rest).1 =~= feed_tokens(stop, joined, rest).1);
    }
}

/// The persona and the history of two lists of messages, one after the
/// other, are those of the first list followed by those of the second: each
/// message adds to them in order, and only its own text.
pub proof fn lemma_session_text_append(a: Seq<Message>, b: Seq<Message>)
    ensures
        persona_of(a + b) == persona_of(a) + persona_of(b),
        history_of(a + b) == history_of(a) + history_of(b),
    decreases b.len(),
{
    if b.len() == 0 {
        assert(a + b =~= a);
        assert(persona_of(a) + persona_of(b) =~= persona_of(a));
        assert(history_of(a) + history_of(b) =~= history_of(a));
    } else {
        assert((a + b).drop_last() =~= a + b.drop_last());
        assert((a + b).last() == b.last());
        lemma_session_text_append(a, b.drop_last());
        assert(persona_of(a + b) =~= persona_of(a) + persona_of(b));
        assert(history_of(a + b) =~= history_of(a) + history_of(b));
    }
}

/// A token after which the held-back text is no longer the start of the
/// stop sequence is sent on at once, together with the held-back text, and
/// inference goes on; a token after which it still is goes to the held-back
/// text and nothing is sent. Either way no text of the token is lost.
pub proof fn lemma_tokens_are_sent_or_held(stop: Seq<char>, pending: Seq<char>, token: Seq<char>)
    ensures
        !(pending + token).is_prefix_of(stop) ==> {
            &&& !token_halts(stop, pending, token)
            &&& token_sends(stop, pending, token) == Some(pending + token)
            &&& token_pending(stop, pending, token) == pending
        },
        (pending + token).is_prefix_of(stop) && pending + token != stop ==> {
            &&& !token_halts(stop, pending, token)
            &&& token_sends(stop, pending, token) is None
            &&& token_pending(stop, pending, token) == pending + token
        },
        pending + token == stop ==> {
            &&& token_halts(stop, pending, token)
            &&& token_sends(stop, pending, token) is None
            &&& token_pending(stop, pending, token).len() == 0
        },
{
    if pending.len() == 0 {
        assert(pending + token =~= token);
    }
    if pending + token == stop {
        assert((pending + token).is_prefix_of(stop)) by {
            assert(stop =~= stop.subrange(0, stop.len() as int));
        }
    }
}

/// A session prompt of a single message: a system or assistant message gives
/// the persona, that is its content, followed by a line break; a message of
/// any other role gives an empty persona, a line break, and its history line.
pub proof fn lemma_session_prompt_of_one_message(m: Message)
    ensures
        (m.role == Role::System || m.role == Role::Assistant) ==> session_prompt_text(seq![m])
            == m.content@ + "\n"@,
        !(m.role == Role::System || m.role == Role::Assistant) ==> session_prompt_text(seq![m])
            == "\n"@ + llama_label(m.role) + ": "@ + m.content@ + "\n"@,
{
    let ms = seq![m];
    assert(ms.drop_last() =~= Seq::<Message>::empty());
    assert(ms.last() == m);
    let e = Seq::<char>::empty();
    assert(persona_of(ms.drop_last()) =~= e);
    assert(history_of(ms.drop_last()) =~= e);
    if m.role == Role::System || m.role == Role::Assistant {
        assert(persona_of(ms) =~= m.content@);
        assert(history_of(ms) =~= e);
        assert(session_prompt_text(ms) =~= m.content@ + "\n"@);
    } else {
        assert(persona_of(ms) =~= e);
        assert(history_of(ms) =~= history_line(m));
        assert(session_prompt_text(ms) =~= "\n"@ + llama_label(m.role) + ": "@ + m.content@
            + "\n"@);
    }
}

/// The prompt for a message holds the message's content whole: after the
/// speaker label and a line break come all of its characters, then a line
/// break and the assistant's label with a colon; the prompt is as long as the
/// label and the content together, and sixteen characters more.
pub proof fn lemma_inference_prompt_holds_content(m: Message)
    ensures
        inference_prompt_text(m) == llama_label(m.role) + "\n"@ + m.content@ + "\n### Assistant:"@,
        inference_prompt_text(m).len() == llama_label(m.role).len() + m.content@.len() + 16,
        inference_prompt_text(m).subrange(
            llama_label(m.role).len() + 1 as int,
            llama_label(m.role).len() + 1 + m.content@.len() as int,
        ) == m.content@,
{
    reveal_strlit("\n");
    reveal_strlit(":");
    reveal_strlit("### Assistant");
    reveal_strlit("\n### Assistant:");
    let label = llama_label(m.role);
    let tail = "\n"@ + llama_label(Role::Assistant) + ":"@;
    assert(tail =~= "\n### Assistant:"@);
    assert(inference_prompt_text(m) =~= label + "\n"@ + m.content@ + tail);
    assert(inference_prompt_text(m).subrange(
        label.len() + 1 as int,
        label.len() + 1 + m.content@.len() as int,
    )
        =~= m.content@);
}

} // verus!

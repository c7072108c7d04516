//! The language model's side of a reply: what is asked of an OpenAI-compatible server, and how
//! its stream of Server-Sent Events is read.
//!
//! Each line of the stream brings a token, nothing, or the end. [`ReplyStream`] takes what
//! happens to the stream one event at a time and says what to do next; reading the lines and
//! watching for a cancellation is up to its caller.

use crate::binary32::Binary32;
use crate::dialogue::Role;
use crate::dialogue::Turn;
use crate::dialogue::TurnView;
use crate::error::LlmError;
use crate::json;
use crate::json::Json;
use crate::text::chars_of;
use crate::text::string_of;
use serde_json::Value;
use vstd::prelude::*;

verus! {

// ---------------------------------------------------------------------------
// The request
// ---------------------------------------------------------------------------

/// The bit pattern of 0.7.
pub const TEMPERATURE_BITS: u32 = 0x3f33_3333;

/// A chat model behind a local server.
#[derive(Debug)]
pub struct MlxChat {
    base: String,
    model: String,
    max_tokens: u32,
    temperature: Binary32,
}

/// A chat model as a mathematical value.
#[verifier::ext_equal]
pub struct ChatView {
    /// The server's URL, without a slash at its end.
    pub base: Seq<char>,
    pub model: Seq<char>,
    pub max_tokens: u32,
    pub temperature: Binary32,
}

impl View for MlxChat {
    type V = ChatView;

    closed spec fn view(&self) -> ChatView {
        ChatView {
            base: self.base@,
            model: self.model@,
            max_tokens: self.max_tokens,
            temperature: self.temperature,
        }
    }
}

/// `text` without the slashes at its end.
pub open spec fn without_end_slashes(text: Seq<char>) -> Seq<char> {
    crate::text::trim_end_of(text, |c: char| c == '/')
}

/// The name of a role on the wire.
pub open spec fn role_name(role: Role) -> Seq<char> {
    match role {
        Role::System => "system"@,
        Role::User => "user"@,
        Role::Assistant => "assistant"@,
    }
}

/// The name of a role on the wire.
pub fn role_str(r: Role) -> (name: &'static str)
    ensures
        name@ == role_name(r),
{
    match r {
        Role::System => "system",
        Role::User => "user",
        Role::Assistant => "assistant",
    }
}

/// A message on the wire.
pub open spec fn message_json(turn: TurnView) -> Json {
    Json::Object(
        Map::empty().insert("role"@, Json::Text(role_name(turn.role))).insert(
            "content"@,
            Json::Text(turn.text),
        ),
    )
}

/// A history on the wire.
pub open spec fn messages_json(turns: Seq<TurnView>) -> Seq<Json> {
    Seq::new(turns.len(), |i: int| message_json(turns[i]))
}

impl ChatView {
    /// The body of the request for a reply to `turns`.
    pub open spec fn request(self, turns: Seq<TurnView>, temperature: Json) -> Json {
        Json::Object(
            Map::empty().insert("model"@, Json::Text(self.model)).insert(
                "messages"@,
                Json::Array(messages_json(turns)),
            ).insert("stream"@, Json::Bool(true)).insert(
                "max_tokens"@,
                Json::Unsigned(self.max_tokens as u64),
            ).insert("temperature"@, temperature),
        )
    }
}

impl MlxChat {
    pub fn new(base: &str, model: &str) -> (chat: Self)
        ensures
            chat@ == (ChatView {
                base: without_end_slashes(base@),
                model: model@,
                max_tokens: 200,
                temperature: Binary32 { bits: TEMPERATURE_BITS },
            }),
            chat@.temperature.bits == 0x3f33_3333,
    {
        MlxChat {
            base: trim_end_slashes(base),
            model: model.to_string(),
            max_tokens: 200,  // terse, spoken replies
            temperature: Binary32 { bits: TEMPERATURE_BITS },
        }
    }

    pub fn with_sampling(self, max_tokens: u32, temperature: Binary32) -> (chat: Self)
        ensures
            chat@ == (ChatView { max_tokens, temperature, ..self@ }),
    {
        MlxChat { base: self.base, model: self.model, max_tokens, temperature }
    }

    /// The sampling temperature.
    pub fn temperature(&self) -> (temperature: Binary32)
        ensures
            temperature == self@.temperature,
    {
        self.temperature
    }

    /// The URL that answers once the server is up and serving models.
    pub fn health_url(&self) -> (url: String)
        ensures
            url@ == self@.base + "/v1/models"@,
    {
        let mut url = self.base.clone();
        url.append("/v1/models");
        url
    }

    /// The URL that replies are asked from.
    pub fn completions_url(&self) -> (url: String)
        ensures
            url@ == self@.base + "/v1/chat/completions"@,
    {
        let mut url = self.base.clone();
        url.append("/v1/chat/completions");
        url
    }

    /// The body of the request for a streamed reply to `history`. The temperature comes as
    /// the JSON number that the caller makes of [`MlxChat::temperature`].
    pub fn request(&self, history: &[Turn], temperature: Value) -> (body: Value)
        ensures
            json::json_view(body) == self@.request(
                crate::dialogue::turn_views(history@),
                json::json_view(temperature),
            ),
    {
        let ghost turns = crate::dialogue::turn_views(history@);
        let mut messages: Vec<Value> = Vec::new();
        let mut i: usize = 0;
        while i < history.len()
            invariant
                i <= history@.len(),
                turns == crate::dialogue::turn_views(history@),
                json::json_views(messages@) == messages_json(turns.take(i as int)),
            decreases history.len() - i,
        {
            let mut message = json::empty_object();
            json::set_member(&mut message, "role", json::from_text(role_str(history[i].role)));
            json::set_member(&mut message, "content", json::from_text(history[i].text.as_str()));
            let ghost before = messages@;
            messages.push(message);
            i += 1;
            proof {
                assert(json::json_view(message) == message_json(turns[i - 1]));
                assert(json::json_views(messages@) =~= json::json_views(before).push(
                    json::json_view(message),
                ));
                assert(messages_json(turns.take(i as int)) =~= messages_json(
                    turns.take(i - 1),
                ).push(message_json(turns[i - 1])));
            }
        }
        assert(turns.take(i as int) == turns);
        let mut body = json::empty_object();
        json::set_member(&mut body, "model", json::from_text(self.model.as_str()));
        json::set_member(&mut body, "messages", json::from_array(messages));
        json::set_member(&mut body, "stream", json::from_flag(true));
        json::set_member(&mut body, "max_tokens", json::from_count(self.max_tokens as u64));
        json::set_member(&mut body, "temperature", temperature);
        body
    }
}

fn trim_end_slashes(text: &str) -> (rest: String)
    ensures
        rest@ == without_end_slashes(text@),
{
    let ghost slash = |c: char| c == '/';
    let chars = chars_of(text);
    let mut to: usize = chars.len();
    assert(chars@.take(to as int) == chars@);
    while to > 0 && chars[to - 1] == '/'
        invariant
            to <= chars@.len(),
            slash == (|c: char| c == '/'),
            crate::text::trim_end_of(chars@, slash) == crate::text::trim_end_of(
                chars@.take(to as int),
                slash,
            ),
        decreases to,
    {
        assert(chars@.take(to as int).drop_last() == chars@.take(to - 1));
        to -= 1;
    }
    assert(chars@.subrange(0, to as int) == chars@.take(to as int));
    string_of(&chars, 0, to)
}

// ---------------------------------------------------------------------------
// The stream
// ---------------------------------------------------------------------------

/// What a line of the stream brings.
pub enum SseView {
    /// A token of the reply.
    Token(Seq<char>),
    /// Nothing to speak of.
    Nothing,
    /// The end.
    Done,
}

/// The data of a trimmed line: what follows `data:`, or all of it.
pub open spec fn sse_data(line: Seq<char>) -> Seq<char> {
    if "data:"@.is_prefix_of(line) {
        crate::text::trimmed(line.skip("data:"@.len() as int))
    } else {
        line
    }
}

/// What the parsed data of a line brings: the content of the first choice's delta.
pub open spec fn delta_of(data: Result<Json, Seq<char>>) -> SseView {
    match data {
        Ok(value) => match value.member("choices"@).element(0).member("delta"@).member(
            "content"@,
        ).text() {
            Some(token) => if token.len() > 0 {
                SseView::Token(token)
            } else {
                SseView::Nothing
            },
            None => SseView::Nothing,
        },
        Err(_) => SseView::Nothing,
    }
}

/// What a line of the stream brings.
pub open spec fn sse_of(line: Seq<char>) -> SseView {
    let line = crate::text::trimmed(line);
    if line.len() == 0 {
        SseView::Nothing
    } else if sse_data(line) == "[DONE]"@ {
        SseView::Done
    } else {
        delta_of(json::json_of(sse_data(line)))
    }
}

/// The view of what [`parse_sse_line`] returns.
pub open spec fn parsed_view(parsed: Result<Option<String>, ()>) -> SseView {
    match parsed {
        Ok(Some(token)) => SseView::Token(token@),
        Ok(None) => SseView::Nothing,
        Err(_) => SseView::Done,
    }
}

/// Parse one line of the stream into a token delta. Returns:
/// - `Ok(Some(tok))` for a content delta,
/// - `Ok(None)` for blanks / non-content events,
/// - `Err(())` for the `[DONE]` sentinel (end of stream).
pub fn parse_sse_line(line: &str) -> (parsed: Result<Option<String>, ()>)
    ensures
        parsed_view(parsed) == sse_of(line@),
{
    let line = line.trim();
    if line.is_empty() {
        return Ok(None);
    }
    let data = data_part(line);
    if <str as PartialEq>::eq(data.as_str(), "[DONE]") {
        return Err(());
    }
    match json::parse(data.as_str()) {
        Ok(value) => Ok(delta_token(&value)),
        Err(_) => Ok(None),
    }
}

/// The content token of a parsed event, if it has one.
pub fn delta_token(value: &Value) -> (token: Option<String>)
    ensures
        parsed_view(Ok(token)) == delta_of(Ok(json::json_view(*value))),
{
    let choice = json::element(json::member(value, "choices"), 0);
    match json::as_text(json::member(json::member(choice, "delta"), "content")) {
        Some(token) => {
            if token.is_empty() {
                None
            } else {
                Some(token.to_string())
            }
        },
        None => None,
    }
}

/// The data of a trimmed line.
fn data_part(line: &str) -> (data: String)
    ensures
        data@ == sse_data(line@),
{
    let prefix = chars_of("data:");
    let chars = chars_of(line);
    if chars.len() < prefix.len() {
        return line.to_string();
    }
    let mut i: usize = 0;
    while i < prefix.len()
        invariant
            i <= prefix@.len() <= chars@.len(),
            prefix@ == "data:"@,
            chars@ == line@,
            forall|j: int| 0 <= j < i ==> prefix@[j] == chars@[j],
        decreases prefix.len() - i,
    {
        if chars[i] != prefix[i] {
            return line.to_string();
        }
        i += 1;
    }
    assert(prefix@ == chars@.take(prefix@.len() as int));
    assert(chars@.subrange(i as int, chars@.len() as int) == chars@.skip(i as int));
    string_of(&chars, i, chars.len()).as_str().trim().to_string()
}

/// The error of a request that failed with these words: a protocol error where the server
/// answered with a status, and an unreachable server where it did not.
pub fn post_failed(status: Option<u16>, why: &str) -> (error: LlmError)
    ensures
        match status {
            Some(_) => error matches LlmError::Protocol(text) && text@ == why@,
            None => error matches LlmError::Unreachable(text) && text@ == why@,
        },
{
    match status {
        Some(_) => LlmError::Protocol(why.to_string()),
        None => LlmError::Unreachable(why.to_string()),
    }
}

/// What happens to the stream.
#[derive(Debug)]
pub enum ReplyEvent {
    /// A barge-in asks to stop; noticed before each read.
    Cancelled,
    /// A line came.
    Line(String),
    /// The stream was closed.
    Closed,
    /// Reading failed, with these words.
    Failed(String),
}

/// What is to be done about it.
#[derive(Debug)]
pub enum ReplyAction {
    /// Read on.
    Read,
    /// Hand the token on, then read on.
    Delta(String),
    /// Stop reading; this is the outcome.
    Finish(Result<String, LlmError>),
}

#[verifier::ext_equal]
pub enum ReplyEventView {
    Cancelled,
    Line(Seq<char>),
    Closed,
    Failed(Seq<char>),
}

#[verifier::ext_equal]
pub enum ReplyActionView {
    Read,
    Delta(Seq<char>),
    /// The reply as far as it came.
    Finished(Seq<char>),
    /// The stream could not be read, with these words.
    Broken(Seq<char>),
}

impl View for ReplyEvent {
    type V = ReplyEventView;

    open spec fn view(&self) -> ReplyEventView {
        match *self {
            ReplyEvent::Cancelled => ReplyEventView::Cancelled,
            ReplyEvent::Line(line) => ReplyEventView::Line(line@),
            ReplyEvent::Closed => ReplyEventView::Closed,
            ReplyEvent::Failed(why) => ReplyEventView::Failed(why@),
        }
    }
}

/// Is this the action that `view` stands for?
pub open spec fn is_action(action: ReplyAction, view: ReplyActionView) -> bool {
    match view {
        ReplyActionView::Read => action is Read,
        ReplyActionView::Delta(token) => action matches ReplyAction::Delta(t) && t@ == token,
        ReplyActionView::Finished(full) => action matches ReplyAction::Finish(Ok(t)) && t@ == full,
        ReplyActionView::Broken(why) => action matches ReplyAction::Finish(
            Err(LlmError::Protocol(t)),
        ) && t@ == why,
    }
}

/// What a stream does at an event, when `full` is the reply so far.
pub open spec fn reply_step(full: Seq<char>, event: ReplyEventView) -> (
    Seq<char>,
    ReplyActionView,
) {
    match event {
        ReplyEventView::Cancelled => (full, ReplyActionView::Finished(full)),
        ReplyEventView::Closed => (full, ReplyActionView::Finished(full)),
        ReplyEventView::Failed(why) => (full, ReplyActionView::Broken(why)),
        ReplyEventView::Line(line) => match sse_of(line) {
            SseView::Token(token) => (full + token, ReplyActionView::Delta(token)),
            SseView::Nothing => (full, ReplyActionView::Read),
            SseView::Done => (full, ReplyActionView::Finished(full)),
        },
    }
}

/// A reply while it streams in.
#[derive(Debug)]
pub struct ReplyStream {
    full: String,
}

impl View for ReplyStream {
    type V = Seq<char>;

    closed spec fn view(&self) -> Seq<char> {
        self.full@
    }
}

impl ReplyStream {
    pub fn new() -> (stream: Self)
        ensures
            stream@.len() == 0,
    {
        ReplyStream { full: String::new() }
    }

    /// Take in what happened to the stream; returns what to do about it.
    pub fn on(&mut self, event: ReplyEvent) -> (action: ReplyAction)
        ensures
            final(self)@ == reply_step(old(self)@, event@).0,
            is_action(action, reply_step(old(self)@, event@).1),
    {
        match event {
            ReplyEvent::Cancelled => ReplyAction::Finish(Ok(self.full.clone())),
            ReplyEvent::Closed => ReplyAction::Finish(Ok(self.full.clone())),
            ReplyEvent::Failed(why) => ReplyAction::Finish(Err(LlmError::Protocol(why))),
            ReplyEvent::Line(line) => match parse_sse_line(line.as_str()) {
                Ok(Some(token)) => {
                    self.full.append(token.as_str());
                    ReplyAction::Delta(token)
                },
                Ok(None) => ReplyAction::Read,
                Err(()) => ReplyAction::Finish(Ok(self.full.clone())),
            },
        }
    }
}

/// The tokens that lines bring, one after the other.
pub open spec fn tokens_of(lines: Seq<Seq<char>>) -> Seq<char>
    decreases lines.len(),
{
    if lines.len() == 0 {
        seq![]
    } else {
        let before = tokens_of(lines.drop_last());
        match sse_of(lines.last()) {
            SseView::Token(token) => before + token,
            _ => before,
        }
    }
}

/// The reply after lines that do not end it.
pub open spec fn reply_after(lines: Seq<Seq<char>>) -> Seq<char>
    decreases lines.len(),
{
    if lines.len() == 0 {
        seq![]
    } else {
        reply_step(reply_after(lines.drop_last()), ReplyEventView::Line(lines.last())).0
    }
}

/// The reply is the tokens of the lines read, in order, whatever ends the stream: a close, the
/// sentinel or a cancellation hands out exactly what had been streamed by then.
pub proof fn law_reply_is_its_tokens(lines: Seq<Seq<char>>)
    ensures
        reply_after(lines) == tokens_of(lines),
        reply_step(reply_after(lines), ReplyEventView::Closed).1 == ReplyActionView::Finished(
            tokens_of(lines),
        ),
        reply_step(reply_after(lines), ReplyEventView::Cancelled).1 == ReplyActionView::Finished(
            tokens_of(lines),
        ),
    decreases lines.len(),
{
    if lines.len() > 0 {
        law_reply_is_its_tokens(lines.drop_last());
    }
}

/// Blank lines and lines that are no JSON are passed over: they bring nothing and end
/// nothing.
pub proof fn law_noise_is_passed_over(full: Seq<char>, line: Seq<char>)
    requires
        ({
            let line = crate::text::trimmed(line);
            line.len() == 0 || (sse_data(line) != "[DONE]"@ && json::json_of(
                sse_data(line),
            ) is Err)
        }),
    ensures
        reply_step(full, ReplyEventView::Line(line)) == (full, ReplyActionView::Read),
{
}

/// The slashes at the end of a URL go, all of them and nothing else.
pub proof fn law_end_slashes_go(text: Seq<char>)
    ensures
        ({
            let rest = without_end_slashes(text);
            &&& rest.is_prefix_of(text)
            &&& forall|i: int| rest.len() <= i < text.len() ==> #[trigger] text[i] == '/'
            &&& rest.len() > 0 ==> rest.last() != '/'
        }),
{
    let slash = |c: char| c == '/';
    crate::text::lemma_trim_end(text, slash);
    let rest = without_end_slashes(text);
    assert forall|i: int| rest.len() <= i < text.len() implies #[trigger] text[i] == '/' by {
        assert(slash(text[i]));
    }
    if rest.len() > 0 {
        assert(!slash(rest.last()));
    }
}

/// A request names the model and its limits, asks for a stream, and holds the whole history in
/// order, each turn with its role and its text.
pub proof fn law_request_holds_the_history(
    chat: ChatView,
    turns: Seq<TurnView>,
    temperature: Json,
    i: int,
)
    requires
        0 <= i < turns.len(),
    ensures
        ({
            let request = chat.request(turns, temperature);
            let messages = request.member("messages"@);
            &&& request.member("model"@) == Json::Text(chat.model)
            &&& request.member("stream"@) == Json::Bool(true)
            &&& request.member("max_tokens"@) == Json::Unsigned(chat.max_tokens as u64)
            &&& request.member("temperature"@) == temperature
            &&& messages matches Json::Array(list) && list.len() == turns.len()
            &&& messages.element(i).member("content"@) == Json::Text(turns[i].text)
            &&& messages.element(i).member("role"@) == Json::Text(
                match turns[i].role {
                    Role::System => "system"@,
                    Role::User => "user"@,
                    Role::Assistant => "assistant"@,
                },
            )
        }),
{
    reveal_strlit("model");
    reveal_strlit("messages");
    reveal_strlit("stream");
    reveal_strlit("max_tokens");
    reveal_strlit("temperature");
    reveal_strlit("role");
    reveal_strlit("content");
    assert("model"@.len() == 5 && "messages"@.len() == 8 && "stream"@.len() == 6
        && "max_tokens"@.len() == 10 && "temperature"@.len() == 11 && "role"@.len() == 4
        && "content"@.len() == 7);
}

/// A line that carries a delta brings its content: `data:` may stand before the JSON, with white
/// space behind it, or be left out.
pub proof fn law_line_brings_its_content(line: Seq<char>, data: Seq<char>)
    requires
        crate::text::trimmed(line).len() > 0,
        crate::text::trimmed(line) == data && !"data:"@.is_prefix_of(data) || ("data:"@.is_prefix_of(
            crate::text::trimmed(line),
        ) && data == crate::text::trimmed(crate::text::trimmed(line).skip(5))),
        data != "[DONE]"@,
    ensures
        json::json_of(data) is Err ==> sse_of(line) is Nothing,
        json::json_of(data) matches Ok(event) ==> {
            let content = event.member("choices"@).element(0).member("delta"@).member("content"@);
            &&& (content matches Json::Text(token) ==> token.len() > 0 ==> sse_of(line)
                == SseView::Token(token))
            &&& (content matches Json::Text(token) ==> token.len() == 0 ==> sse_of(line) is Nothing)
            &&& !(content is Text) ==> sse_of(line) is Nothing
        },
{
    reveal_strlit("data:");
    assert("data:"@.len() == 5);
}

/// The sentinel ends the stream, with or without `data:` before it; a blank line brings nothing.
pub proof fn law_sentinel_ends_the_stream(line: Seq<char>)
    ensures
        crate::text::trimmed(line) == "[DONE]"@ ==> sse_of(line) is Done,
        "data:"@.is_prefix_of(crate::text::trimmed(line)) && crate::text::trimmed(
            crate::text::trimmed(line).skip(5),
        ) == "[DONE]"@ ==> sse_of(line) is Done,
        crate::text::trimmed(line).len() == 0 ==> sse_of(line) is Nothing,
{
    reveal_strlit("data:");
    reveal_strlit("[DONE]");
    assert("data:"@.len() == 5 && "[DONE]"@.len() == 6);
    let line = crate::text::trimmed(line);
    if line == "[DONE]"@ {
        assert(line[0] == '[' && "data:"@[0] == 'd');
        if "data:"@.is_prefix_of(line) {
            assert(line.take(5)[0] == "data:"@[0]);
        }
    }
    if "data:"@.is_prefix_of(line) {
        assert(line.len() >= 5);
    }
}

/// What a stream does at each event: a token is handed on and joins the reply, the end hands
/// out the reply, a failure hands out its words, and nothing is made of the rest.
pub proof fn law_stream_events(full: Seq<char>, line: Seq<char>, why: Seq<char>)
    ensures
        sse_of(line) matches SseView::Token(token) ==> reply_step(
            full,
            ReplyEventView::Line(line),
        ) == (full + token, ReplyActionView::Delta(token)),
        sse_of(line) is Nothing ==> reply_step(full, ReplyEventView::Line(line)) == (
            full,
            ReplyActionView::Read,
        ),
        sse_of(line) is Done ==> reply_step(full, ReplyEventView::Line(line)) == (
            full,
            ReplyActionView::Finished(full),
        ),
        reply_step(full, ReplyEventView::Failed(why)) == (full, ReplyActionView::Broken(why)),
        reply_step(full, ReplyEventView::Closed) == (full, ReplyActionView::Finished(full)),
        reply_step(full, ReplyEventView::Cancelled) == (full, ReplyActionView::Finished(full)),
{
}

} // verus!

//! The decisions of the commands: what is sent, what is printed, and when
//! a stream of messages ends. Reading input, talking to the network and
//! writing to the terminal are left to the caller.
use vstd::prelude::*;

use crate::client::{
    bearer, header_text_ok, trim_trailing_slashes, ApiClient, ApiRequest, ApiRequestView, BodyView,
    ClientError, Method,
};
use crate::json::{decode_lossy, is_json, lossy_utf8_of, pretty_json, pretty_json_of};
use crate::models::{
    ApiKeyCreated, ChatChoice, ChatCompletionResponse, ChatMessage, ChatMessageView, ChatRequest,
    ChatRequestView, Float32Bits, StreamEvent,
};
use crate::text::{
    decimal, in_style, lines_view, plain, prefix_within, prefix_within_bytes, push_line,
    single, single_line, span, span_of, starts_with, u64_text, Line, SpanView, Style,
};

verus! {

/// A check mark in green followed by a plain text.
pub open spec fn done(t: Seq<char>) -> Seq<SpanView> {
    seq![in_style("✓"@, Style::Green), plain(t)]
}

fn done_line(t: String) -> (res: Line)
    ensures
        res@ == done(t@),
{
    let l = Line { spans: vec![span("✓", Style::Green, 0), span_of(t, Style::Plain, 0)] };
    assert(l@ =~= done(t@));
    l
}

fn join3(a: &str, b: &str, c: &str) -> (res: String)
    ensures
        res@ == a@ + b@ + c@,
{
    let mut r = a.to_string();
    proof { vstd::string::to_string_from_display_ensures_for_str(a, r); }
    r.append(b);
    r.append(c);
    r
}

// --- auth ---

/// The base URL that `auth login` and `auth status` check keys against.
pub open spec fn official_api_url() -> Seq<char> {
    "https://api.archipelag.io"@
}

/// The client that checks a key at login or status time.
pub fn verifying_client(api_key: &str) -> (res: Result<ApiClient, ClientError>)
    ensures
        res is Ok <==> header_text_ok(bearer(api_key@)),
        res matches Ok(c) ==> c.base_url@ == trim_trailing_slashes(official_api_url())
            && c.authorization@ == bearer(api_key@),
{
    ApiClient::new("https://api.archipelag.io", api_key)
}

/// Why `auth login` refuses a key that does not start with `ak_`: the
/// message shows the key's longest prefix of at most six bytes that ends on a
/// character boundary.
pub open spec fn bad_key_message(key: Seq<char>) -> Seq<char> {
    "API key should start with 'ak_'. Got: "@ + prefix_within(key, 6) + "..."@
}

/// Whether a key starts with `ak_`.
pub open spec fn starts_ak(key: Seq<char>) -> bool {
    3 <= key.len() && key.take(3) == "ak_"@
}

/// Checks the form of a key given to `auth login`: API keys start with `ak_`.
pub fn check_login_key(key: &str) -> (res: Result<(), String>)
    ensures
        res is Ok <==> starts_ak(key@),
        res matches Err(m) ==> m@ == bad_key_message(key@),
{
    if starts_with(key, "ak_") {
        proof { reveal_strlit("ak_"); }
        return Ok(());
    }
    proof { reveal_strlit("ak_"); }
    let shown = prefix_within_bytes(key, 6);
    Err(join3("API key should start with 'ak_'. Got: ", shown, "..."))
}

/// The line that confirms a login; `credits` is the balance, two decimals.
pub open spec fn login_message(email: Seq<char>, credits: Seq<char>) -> Seq<SpanView> {
    done(" Logged in as "@ + email + " ("@ + credits + " credits)"@)
}

/// The line that confirms a login.
pub fn login_line(email: &str, credits: &str) -> (res: Line)
    ensures
        res@ == login_message(email@, credits@),
{
    let a = join3(" Logged in as ", email, " (");
    done_line(join3(a.as_str(), credits, " credits)"))
}

/// What `auth status` shows of a saved key: its first eight characters
/// (all of a shorter key).
pub open spec fn shown_key(key: Seq<char>) -> Seq<char> {
    key.take(if key.len() < 8 { key.len() as int } else { 8 })
}

/// The first line of `auth status` for a saved key.
pub open spec fn authenticated_message(key: Seq<char>) -> Seq<char> {
    "Authenticated: "@ + shown_key(key) + "…"@
}

/// The first line of `auth status` for a saved key.
pub fn authenticated_line(key: &str) -> (res: String)
    ensures
        res@ == authenticated_message(key@),
{
    let n = key.unicode_len();
    let m = if n < 8 { n } else { 8 };
    join3("Authenticated: ", key.substring_char(0, m), "…")
}

/// The account line of `auth status`; `credits` is the balance, two decimals.
pub fn account_summary(email: &str, credits: &str) -> (res: String)
    ensures
        res@ == "Account: "@ + email@ + " ("@ + credits@ + " credits)"@,
{
    let a = join3("Account: ", email, " (");
    join3(a.as_str(), credits, " credits)")
}

/// The line that confirms a logout.
pub fn logged_out_line() -> (res: Line)
    ensures
        res@ == done(" Logged out. API key removed from config."@),
{
    let t = join3(" Logged out. API key removed from config.", "", "");
    proof { reveal_strlit(""); assert(t@ =~= " Logged out. API key removed from config."@); }
    done_line(t)
}

/// What `auth status` prints when no key is saved.
pub open spec fn not_authenticated_message() -> Seq<char> {
    "Not authenticated. Run `archipelag auth login` to get started."@
}

/// The line of `auth status` when no key is saved.
pub fn not_authenticated_line() -> (res: Line)
    ensures
        res@ == single(not_authenticated_message(), Style::Plain),
{
    single_line("Not authenticated. Run `archipelag auth login` to get started.", Style::Plain)
}

/// A warning: a yellow sign and a plain text.
pub open spec fn warning(t: Seq<char>) -> Seq<SpanView> {
    seq![in_style("⚠"@, Style::Yellow), plain(t)]
}

fn warning_of(t: String) -> (res: Line)
    ensures
        res@ == warning(t@),
{
    let l = Line { spans: vec![span("⚠", Style::Yellow, 0), span_of(t, Style::Plain, 0)] };
    assert(l@ =~= warning(t@));
    l
}

/// A warning line of `auth status`: a yellow sign, then `text`.
pub fn warning_line(text: &str) -> (res: Line)
    ensures
        res@ == warning(" "@ + text@),
{
    let t = join3(" ", text, "");
    proof { reveal_strlit(""); assert(t@ =~= " "@ + text@); }
    warning_of(t)
}

/// The warning of `auth status` when the saved key was not accepted.
pub fn key_may_be_invalid_line(error: &str) -> (res: Line)
    ensures
        res@ == warning(" Key may be invalid: "@ + error@),
{
    let t = join3(" Key may be invalid: ", error, "");
    proof { reveal_strlit(""); assert(t@ =~= " Key may be invalid: "@ + error@); }
    warning_of(t)
}

/// What came of checking a saved key against the API in `auth status`.
pub enum KeyCheck {
    /// The account was read: its email and its balance with two decimals.
    Account { email: String, credits: String },
    /// The API did not give the account (the key may be invalid).
    Refused { error: String },
    /// No client could be made with the key.
    Unusable { error: String },
}

/// The line that the outcome of the check adds.
pub open spec fn key_check_line(check: KeyCheck) -> Seq<SpanView> {
    match check {
        KeyCheck::Account { email, credits } => single(
            "Account: "@ + email@ + " ("@ + credits@ + " credits)"@,
            Style::Plain,
        ),
        KeyCheck::Refused { error } => warning(" Key may be invalid: "@ + error@),
        KeyCheck::Unusable { error } => warning(" "@ + error@),
    }
}

/// All that `auth status` prints for a saved key: the key's first eight
/// characters, the config file's path, and the outcome of the check.
pub open spec fn status_lines(key: Seq<char>, config_path: Seq<char>, check: KeyCheck) -> Seq<Seq<SpanView>> {
    seq![
        single(authenticated_message(key), Style::Plain),
        single("Config: "@ + config_path, Style::Plain),
        key_check_line(check),
    ]
}

/// What `auth status` prints for a saved key, given where the config file
/// is and what came of checking the key.
pub fn status_output(key: &str, config_path: &str, check: &KeyCheck) -> (res: Vec<Line>)
    ensures
        lines_view(res@) == status_lines(key@, config_path@, *check),
{
    let mut lines: Vec<Line> = Vec::new();
    let first = authenticated_line(key);
    push_line(&mut lines, single_line(first.as_str(), Style::Plain));
    let second = join3("Config: ", config_path, "");
    proof { reveal_strlit(""); assert(second@ =~= "Config: "@ + config_path@); }
    push_line(&mut lines, single_line(second.as_str(), Style::Plain));
    let last = match check {
        KeyCheck::Account { email, credits } => {
            let t = account_summary(email.as_str(), credits.as_str());
            single_line(t.as_str(), Style::Plain)
        },
        KeyCheck::Refused { error } => key_may_be_invalid_line(error.as_str()),
        KeyCheck::Unusable { error } => warning_line(error.as_str()),
    };
    push_line(&mut lines, last);
    assert(lines_view(lines@) =~= status_lines(key@, config_path@, *check));
    lines
}

// --- chat ---

/// A chat message value.
pub open spec fn message(role: Seq<char>, content: Seq<char>) -> ChatMessageView {
    ChatMessageView { role, content }
}

/// The conversation a prompt starts: the system prompt, if any, then the
/// user's prompt.
pub open spec fn chat_messages(prompt: Seq<char>, system: Option<Seq<char>>) -> Seq<ChatMessageView> {
    match system {
        Some(s) => seq![message("system"@, s), message("user"@, prompt)],
        None => seq![message("user"@, prompt)],
    }
}

/// The request that `chat` sends.
pub open spec fn chat_request(
    prompt: Seq<char>,
    workload: Seq<char>,
    system: Option<Seq<char>>,
    max_tokens: Option<u32>,
    temperature: Option<Float32Bits>,
    no_stream: bool,
) -> ChatRequestView {
    ChatRequestView {
        model: "default"@,
        workload,
        messages: chat_messages(prompt, system),
        stream: !no_stream,
        max_tokens,
        temperature,
    }
}

/// The chat request for a prompt: the default model on the chosen workload,
/// the optional system prompt before the user's, streaming unless turned off.
pub fn build_chat_request(
    prompt: &str,
    workload: &str,
    system: Option<String>,
    max_tokens: Option<u32>,
    temperature: Option<Float32Bits>,
    no_stream: bool,
) -> (res: ChatRequest)
    ensures
        res@ == chat_request(prompt@, workload@, system.deep_view(), max_tokens, temperature, no_stream),
{
    let mut messages: Vec<ChatMessage> = Vec::new();
    let ghost sys = system.deep_view();
    match system {
        Some(sys) => {
            messages.push(ChatMessage { role: String::from_str("system"), content: sys });
        },
        None => {},
    }
    let p = prompt.to_string();
    proof { vstd::string::to_string_from_display_ensures_for_str(prompt, p); }
    messages.push(ChatMessage { role: String::from_str("user"), content: p });
    let w = workload.to_string();
    proof { vstd::string::to_string_from_display_ensures_for_str(workload, w); }
    let r = ChatRequest {
        model: String::from_str("default"),
        workload: w,
        messages,
        stream: !no_stream,
        max_tokens,
        temperature,
    };
    assert(r@.messages =~= chat_messages(prompt@, sys));
    r
}

/// The text of a complete chat answer: the content of the first choice's
/// message, if there is one.
pub open spec fn reply_of(resp: ChatCompletionResponse) -> Option<Seq<char>> {
    if resp.choices@.len() > 0 {
        match resp.choices@[0].message {
            Some(m) => m.content.deep_view(),
            None => None,
        }
    } else {
        None
    }
}

/// The text of a complete chat answer.
pub fn chat_reply(resp: &ChatCompletionResponse) -> (res: Option<String>)
    ensures
        res.deep_view() == reply_of(*resp),
{
    if resp.choices.len() == 0 {
        return None;
    }
    match &resp.choices[0].message {
        Some(m) => match &m.content {
            Some(c) => Some(c.clone()),
            None => None,
        },
        None => None,
    }
}

/// The token count a complete answer reports: its total, 0 when the usage
/// has no total, none without usage.
pub open spec fn reported_tokens(resp: ChatCompletionResponse) -> Option<u64> {
    match resp.usage {
        Some(u) => Some(match u.total_tokens { Some(t) => t, None => 0 }),
        None => None,
    }
}

/// The token count of a complete answer.
pub fn chat_tokens(resp: &ChatCompletionResponse) -> (res: Option<u64>)
    ensures
        res == reported_tokens(*resp),
{
    match &resp.usage {
        Some(u) => Some(match u.total_tokens { Some(t) => t, None => 0 }),
        None => None,
    }
}

/// The token count line, dimmed: `[42 tokens]`.
pub open spec fn tokens_message(n: u64) -> Seq<SpanView> {
    single("["@ + decimal(n as nat) + " tokens]"@, Style::Dimmed)
}

/// The token count line.
pub fn tokens_line(n: u64) -> (res: Line)
    ensures
        res@ == tokens_message(n),
{
    let t = u64_text(n);
    let s = join3("[", t.as_str(), " tokens]");
    single_line(s.as_str(), Style::Dimmed)
}

/// The text pieces that a streamed chunk adds: the delta content of each
/// choice that has one, in order.
pub open spec fn delta_texts(choices: Seq<ChatChoice>) -> Seq<Seq<char>>
    decreases choices.len(),
{
    if choices.len() == 0 {
        seq![]
    } else {
        delta_texts(choices.drop_last()) + match choices.last().delta {
            Some(d) => match d.content {
                Some(c) => seq![c@],
                None => seq![],
            },
            None => seq![],
        }
    }
}

/// The token total after a chunk: the chunk's total where it reports one,
/// else the total so far.
pub open spec fn next_total(total: u64, chunk: ChatCompletionResponse) -> u64 {
    match chunk.usage {
        Some(u) => match u.total_tokens {
            Some(t) => t,
            None => total,
        },
        None => total,
    }
}

/// The state of a streamed chat answer.
pub struct ChatStream {
    /// The last token total a chunk reported, 0 before any.
    pub total_tokens: u64,
    /// Whether the stream has ended on an error: nothing more is read.
    pub ended: bool,
}

impl ChatStream {
    /// A stream before its first chunk.
    pub fn new() -> (res: ChatStream)
        ensures
            res.total_tokens == 0,
            !res.ended,
    {
        ChatStream { total_tokens: 0, ended: false }
    }

    /// Whether the next chunk is to be read.
    pub fn is_open(&self) -> (res: bool)
        ensures
            res == !self.ended,
    {
        !self.ended
    }

    /// Takes an error of the stream: the stream ends there, keeping its
    /// token total, and the error line is returned.
    pub fn on_error(&mut self, error: &str) -> (res: Line)
        ensures
            final(self).ended,
            final(self).total_tokens == old(self).total_tokens,
            res@ == stream_error(error@),
    {
        self.ended = true;
        stream_error_line(error)
    }

    /// Takes one chunk: returns the text pieces to print, in order, and keeps
    /// the token total it reports.
    pub fn on_chunk(&mut self, chunk: &ChatCompletionResponse) -> (res: Vec<String>)
        ensures
            final(self).total_tokens == next_total(old(self).total_tokens, *chunk),
            final(self).ended == old(self).ended,
            res.deep_view() == delta_texts(chunk.choices@),
    {
        let mut out: Vec<String> = Vec::new();
        let n = chunk.choices.len();
        let mut i: usize = 0;
        while i < n
            invariant
                n == chunk.choices.len(),
                i <= n,
                out.deep_view() == delta_texts(chunk.choices@.take(i as int)),
            decreases n - i,
        {
            let ghost before = out.deep_view();
            match &chunk.choices[i].delta {
                Some(d) => match &d.content {
                    Some(c) => {
                        out.push(c.clone());
                    },
                    None => {},
                },
                None => {},
            }
            assert(chunk.choices@.take(i + 1).drop_last() =~= chunk.choices@.take(i as int));
            assert(out.deep_view() =~= delta_texts(chunk.choices@.take(i + 1)));
            i = i + 1;
        }
        assert(chunk.choices@.take(n as int) =~= chunk.choices@);
        match &chunk.usage {
            Some(u) => match u.total_tokens {
                Some(t) => {
                    self.total_tokens = t;
                },
                None => {},
            },
            None => {},
        }
        out
    }

    /// The token count to show once the stream ends: none when no chunk
    /// reported tokens (or the total is 0).
    pub fn finish(&self) -> (res: Option<u64>)
        ensures
            res == (if self.total_tokens > 0 { Some(self.total_tokens) } else { None }),
    {
        if self.total_tokens > 0 { Some(self.total_tokens) } else { None }
    }
}

/// The token total after a sequence of chunks, starting from `total`.
pub open spec fn total_after(total: u64, chunks: Seq<ChatCompletionResponse>) -> u64
    decreases chunks.len(),
{
    if chunks.len() == 0 {
        total
    } else {
        next_total(total_after(total, chunks.drop_last()), chunks.last())
    }
}

/// The total that the last chunk reporting one reported, if any.
pub open spec fn last_reported_total(chunks: Seq<ChatCompletionResponse>) -> Option<u64>
    decreases chunks.len(),
{
    if chunks.len() == 0 {
        None
    } else {
        match chunks.last().usage {
            Some(u) => match u.total_tokens {
                Some(t) => Some(t),
                None => last_reported_total(chunks.drop_last()),
            },
            None => last_reported_total(chunks.drop_last()),
        }
    }
}

/// After any sequence of chunks, a streamed chat holds the token total that
/// the last chunk reporting one reported, and 0 when none did.
pub proof fn lemma_stream_total_is_last_reported(chunks: Seq<ChatCompletionResponse>)
    ensures
        total_after(0, chunks) == match last_reported_total(chunks) {
            Some(t) => t,
            None => 0,
        },
    decreases chunks.len(),
{
    if chunks.len() > 0 {
        lemma_stream_total_is_last_reported(chunks.drop_last());
    }
}

// --- jobs ---

/// Why a command cannot go on.
#[derive(Clone, Copy, Debug, PartialEq, Eq, Structural)]
pub enum CommandError {
    /// The job input given to `jobs submit` is not JSON.
    InvalidJsonInput,
}

/// The request of `jobs submit`: refused when the input is not JSON.
pub fn plan_submit(client: &ApiClient, workload: &str, input: &str) -> (res: Result<ApiRequest, CommandError>)
    ensures
        res is Ok <==> is_json(input@),
        res matches Ok(r) ==> r@ == (ApiRequestView {
            method: Method::Post,
            url: client.base_url@ + "/api/v1/jobs"@,
            query: seq![],
            body: BodyView::SubmitJob { workload: workload@, input: input@ },
        }),
        res matches Err(e) ==> e == CommandError::InvalidJsonInput,
{
    match pretty_json(input) {
        Some(_) => Ok(client.submit_job(workload, input)),
        None => Err(CommandError::InvalidJsonInput),
    }
}

/// The line that confirms a submission.
pub fn job_submitted_line(id: &str) -> (res: Line)
    ensures
        res@ == done(" Job submitted: "@ + id@),
{
    let t = join3(" Job submitted: ", id, "");
    proof { reveal_strlit(""); assert(t@ =~= " Job submitted: "@ + id@); }
    done_line(t)
}

/// The line that confirms a cancellation.
pub fn job_cancelled_line(id: &str) -> (res: Line)
    ensures
        res@ == done(" Job "@ + id@ + " cancelled."@),
{
    done_line(join3(" Job ", id, " cancelled."))
}

/// The error line of a streamed job event: a red cross and the error, after
/// a line break.
pub open spec fn event_error(e: Seq<char>) -> Seq<SpanView> {
    seq![plain("\n"@), in_style("✗"@, Style::Red), plain(" "@ + e)]
}

/// What a streamed job event prints: its content on standard output, its
/// error on standard error.
pub struct EventOutput {
    pub content: Option<String>,
    pub error: Option<Line>,
}

/// What a streamed job event prints.
pub fn job_event_output(event: &StreamEvent) -> (res: EventOutput)
    ensures
        res.content.deep_view() == event.content.deep_view(),
        res.error is Some <==> event.error is Some,
        res.error matches Some(l) ==> l@ == event_error(event.error->Some_0@),
{
    let content = match &event.content {
        Some(c) => Some(c.clone()),
        None => None,
    };
    let error = match &event.error {
        Some(e) => Some(event_error_line(e.as_str())),
        None => None,
    };
    EventOutput { content, error }
}

/// The error line of a stream that broke off: a red cross and the error,
/// after a line break.
pub open spec fn stream_error(e: Seq<char>) -> Seq<SpanView> {
    event_error("Stream error: "@ + e)
}

fn event_error_line(e: &str) -> (res: Line)
    ensures
        res@ == event_error(e@),
{
    let t = join3(" ", e, "");
    proof { reveal_strlit(""); assert(t@ =~= " "@ + e@); }
    let l = Line { spans: vec![span("\n", Style::Plain, 0), span("✗", Style::Red, 0), span_of(t, Style::Plain, 0)] };
    assert(l@ =~= event_error(e@));
    l
}

/// The error line of a stream that broke off.
pub fn stream_error_line(error: &str) -> (res: Line)
    ensures
        res@ == stream_error(error@),
{
    let t = join3("Stream error: ", error, "");
    proof { reveal_strlit(""); assert(t@ =~= "Stream error: "@ + error@); }
    event_error_line(t.as_str())
}

/// The dimmed line printed before a submitted job's output is streamed.
pub fn streaming_output_line() -> (res: Line)
    ensures
        res@ == single("Streaming output…"@, Style::Dimmed),
{
    single_line("Streaming output…", Style::Dimmed)
}

/// The state of a streamed job output.
pub struct JobStream {
    /// Whether the stream has ended on an error: nothing more is read.
    pub ended: bool,
}

impl JobStream {
    /// A stream before its first event.
    pub fn new() -> (res: JobStream)
        ensures
            !res.ended,
    {
        JobStream { ended: false }
    }

    /// Whether the next event is to be read.
    pub fn is_open(&self) -> (res: bool)
        ensures
            res == !self.ended,
    {
        !self.ended
    }

    /// Takes one event: what it prints. An error inside an event does not
    /// end the stream.
    pub fn on_event(&mut self, event: &StreamEvent) -> (res: EventOutput)
        ensures
            final(self).ended == old(self).ended,
            res.content.deep_view() == event.content.deep_view(),
            res.error is Some <==> event.error is Some,
            res.error matches Some(l) ==> l@ == event_error(event.error->Some_0@),
    {
        job_event_output(event)
    }

    /// Takes an error of the stream itself: the stream ends there, and the
    /// error line is returned.
    pub fn on_error(&mut self, error: &str) -> (res: Line)
        ensures
            final(self).ended,
            res@ == stream_error(error@),
    {
        self.ended = true;
        stream_error_line(error)
    }
}

// --- api keys ---

/// What `api-keys create` prints: the new key's name and id, then the
/// secret, which is shown this once.
pub open spec fn created_key_lines(c: ApiKeyCreated) -> Seq<Seq<SpanView>> {
    seq![
        done(" API key created:"@),
        single("  Name: "@ + c.api_key.name@, Style::Plain),
        single("  ID:   "@ + c.api_key.id@, Style::Plain),
        seq![],
        seq![plain("  "@), in_style("Secret key (save this — it won't be shown again):"@, Style::Yellow)],
        seq![plain("  "@), in_style(c.key@, Style::Bold)],
    ]
}

/// What `api-keys create` prints.
pub fn created_key_output(c: &ApiKeyCreated) -> (res: Vec<Line>)
    ensures
        lines_view(res@) == created_key_lines(*c),
{
    let mut lines: Vec<Line> = Vec::new();
    push_line(&mut lines, done_line(String::from_str(" API key created:")));
    let name = join3("  Name: ", c.api_key.name.as_str(), "");
    let id = join3("  ID:   ", c.api_key.id.as_str(), "");
    proof { reveal_strlit(""); assert(name@ =~= "  Name: "@ + c.api_key.name@); assert(id@ =~= "  ID:   "@ + c.api_key.id@); }
    push_line(&mut lines, single_line(name.as_str(), Style::Plain));
    push_line(&mut lines, single_line(id.as_str(), Style::Plain));
    let empty = Line { spans: Vec::new() };
    assert(empty@ =~= Seq::<SpanView>::empty());
    push_line(&mut lines, empty);
    let warn = Line {
        spans: vec![
            span("  ", Style::Plain, 0),
            span("Secret key (save this — it won't be shown again):", Style::Yellow, 0),
        ],
    };
    assert(warn@ =~= seq![plain("  "@), in_style("Secret key (save this — it won't be shown again):"@, Style::Yellow)]);
    push_line(&mut lines, warn);
    let secret = Line { spans: vec![span("  ", Style::Plain, 0), span(c.key.as_str(), Style::Bold, 0)] };
    assert(secret@ =~= seq![plain("  "@), in_style(c.key@, Style::Bold)]);
    push_line(&mut lines, secret);
    assert(lines_view(lines@) =~= created_key_lines(*c));
    lines
}

/// The line that confirms a deletion.
pub fn api_key_deleted_line(id: &str) -> (res: Line)
    ensures
        res@ == done(" API key "@ + id@ + " deleted."@),
{
    done_line(join3(" API key ", id, " deleted."))
}

} // verus!

verus! {

// --- nats ---

/// The line printed before connecting: a cyan arrow and the server URL.
pub open spec fn connecting_message(url: Seq<char>) -> Seq<SpanView> {
    seq![in_style("→"@, Style::Cyan), plain(" Connecting to "@ + url + "…"@)]
}

/// The line printed before connecting.
pub fn connecting_line(url: &str) -> (res: Line)
    ensures
        res@ == connecting_message(url@),
{
    let t = join3(" Connecting to ", url, "…");
    let l = Line { spans: vec![span("→", Style::Cyan, 0), span_of(t, Style::Plain, 0)] };
    assert(l@ =~= connecting_message(url@));
    l
}

/// The note on the message limit: empty when there is none.
pub open spec fn limit_note(max: u64) -> Seq<char> {
    if max > 0 {
        " (max "@ + decimal(max as nat) + " messages)"@
    } else {
        seq![]
    }
}

/// The line printed once subscribed.
pub open spec fn subscribed_message(subject: Seq<char>, max: u64) -> Seq<SpanView> {
    done(" Subscribed to \""@ + subject + "\""@ + limit_note(max))
}

/// The line printed once subscribed.
pub fn subscribed_line(subject: &str, max: u64) -> (res: Line)
    ensures
        res@ == subscribed_message(subject@, max),
{
    let mut t = join3(" Subscribed to \"", subject, "\"");
    if max > 0 {
        let n = u64_text(max);
        let note = join3(" (max ", n.as_str(), " messages)");
        t.append(note.as_str());
    } else {
        assert(limit_note(max) =~= Seq::<char>::empty());
        assert(t@ =~= t@ + limit_note(max));
    }
    done_line(t)
}

/// How a message payload is shown: pretty-printed when it is JSON, else as
/// text (invalid UTF-8 replaced).
pub open spec fn payload_display(payload: Seq<u8>) -> Seq<char> {
    let t = lossy_utf8_of(payload);
    match pretty_json_of(t) {
        Some(p) => p,
        None => t,
    }
}

/// The line of the `count`-th message: its number dimmed, its subject in
/// cyan, then its payload.
pub open spec fn message_line(count: u64, subject: Seq<char>, payload: Seq<u8>) -> Seq<SpanView> {
    seq![
        in_style("["@ + decimal(count as nat) + "]"@, Style::Dimmed),
        plain(" "@),
        in_style(subject, Style::Cyan),
        plain(" "@ + payload_display(payload)),
    ]
}

/// Whether a subscription with message limit `max` (0 for none) stops once
/// `count` messages have come.
pub open spec fn stops_after(max: u64, count: nat) -> bool {
    max > 0 && count >= max
}

/// The state of a subscription: how many messages came, and the limit.
pub struct NatsTally {
    pub count: u64,
    /// The message limit; 0 means none.
    pub max: u64,
}

impl NatsTally {
    /// A subscription before its first message.
    pub fn new(max: u64) -> (res: NatsTally)
        ensures
            res.count == 0,
            res.max == max,
    {
        NatsTally { count: 0, max }
    }

    /// Takes one message: counts it, returns the line to print and whether
    /// the subscription stops after it.
    pub fn on_message(&mut self, subject: &str, payload: &[u8]) -> (res: (Line, bool))
        requires
            old(self).count < u64::MAX,
        ensures
            final(self).count == old(self).count + 1,
            final(self).max == old(self).max,
            res.0@ == message_line(final(self).count, subject@, payload@),
            res.1 == stops_after(final(self).max, final(self).count as nat),
    {
        self.count = self.count + 1;
        let text = decode_lossy(payload);
        let shown = match pretty_json(text.as_str()) {
            Some(p) => p,
            None => text,
        };
        let number = u64_text(self.count);
        let tag = join3("[", number.as_str(), "]");
        let rest = join3(" ", shown.as_str(), "");
        proof { reveal_strlit(""); assert(rest@ =~= " "@ + payload_display(payload@)); }
        let l = Line {
            spans: vec![
                span_of(tag, Style::Dimmed, 0),
                span(" ", Style::Plain, 0),
                span(subject, Style::Cyan, 0),
                span_of(rest, Style::Plain, 0),
            ],
        };
        assert(l@ =~= message_line(self.count, subject@, payload@));
        let stop = self.max > 0 && self.count >= self.max;
        (l, stop)
    }
}

/// The line printed when the limit is reached.
pub fn stopping_line(max: u64) -> (res: Line)
    ensures
        res@ == done(" Received "@ + decimal(max as nat) + " messages, stopping."@),
{
    let n = u64_text(max);
    done_line(join3(" Received ", n.as_str(), " messages, stopping."))
}

/// A subscription with a limit stops at the message that reaches it and at
/// no message before; one without a limit never stops.
pub proof fn lemma_subscription_stops_at_limit(max: u64, count: nat)
    ensures
        max > 0 ==> (stops_after(max, count) <==> count >= max),
        max > 0 ==> stops_after(max, max as nat),
        max > 0 && count < max ==> !stops_after(max, count),
        max == 0 ==> !stops_after(max, count),
{
}

/// What a subscription with limit `max` prints when the messages `msgs`
/// (subject, payload) come one by one after `count` others, each taken by
/// [`NatsTally::on_message`] until it says to stop: the lines, and whether
/// it stopped.
pub open spec fn tally_lines(max: u64, count: nat, msgs: Seq<(Seq<char>, Seq<u8>)>) -> (
    Seq<Seq<SpanView>>,
    bool,
)
    decreases msgs.len(),
{
    if msgs.len() == 0 {
        (seq![], false)
    } else {
        let c = count + 1;
        let line = message_line(c as u64, msgs[0].0, msgs[0].1);
        if stops_after(max, c) {
            (seq![line], true)
        } else {
            let rest = tally_lines(max, c, msgs.drop_first());
            (seq![line] + rest.0, rest.1)
        }
    }
}

/// Over a whole subscription: of `n` messages, one with a limit `max`
/// prints the first `min(max, n)`, one without prints all `n`, the `k`-th
/// line numbered `k`; it stops exactly when a limit is set and `n` reaches
/// it, and then no message after the `max`-th is taken. Only a subscription
/// without a limit is bounded, by the largest count a `u64` holds.
pub proof fn lemma_subscription_run(max: u64, msgs: Seq<(Seq<char>, Seq<u8>)>)
    requires
        max > 0 || msgs.len() < u64::MAX,
    ensures
        ({
            let n = msgs.len();
            let shown = if max > 0 && max < n { max as nat } else { n };
            let run = tally_lines(max, 0, msgs);
            &&& run.0 == Seq::new(shown, |k: int| message_line((k + 1) as u64, msgs[k].0, msgs[k].1))
            &&& run.1 == (max > 0 && n >= max)
        }),
{
    lemma_tally_lines_from(max, 0, msgs);
    let n = msgs.len();
    let shown = if max > 0 && max < n { max as nat } else { n };
    assert(tally_lines(max, 0, msgs).0 =~= Seq::new(shown, |k: int| message_line((k + 1) as u64, msgs[k].0, msgs[k].1)));
}

proof fn lemma_tally_lines_from(max: u64, count: nat, msgs: Seq<(Seq<char>, Seq<u8>)>)
    requires
        (max > 0 && count < max) || (max == 0 && count + msgs.len() < u64::MAX),
    ensures
        ({
            let n = msgs.len();
            let shown = if max > 0 && max - count < n { (max - count) as nat } else { n };
            let run = tally_lines(max, count, msgs);
            &&& run.0 == Seq::new(shown, |k: int| message_line((count + k + 1) as u64, msgs[k].0, msgs[k].1))
            &&& run.1 == (max > 0 && count + n >= max)
        }),
    decreases msgs.len(),
{
    let n = msgs.len();
    let shown = if max > 0 && max - count < n { (max - count) as nat } else { n };
    let want = Seq::new(shown, |k: int| message_line((count + k + 1) as u64, msgs[k].0, msgs[k].1));
    if n == 0 {
        assert(tally_lines(max, count, msgs).0 =~= want);
    } else {
        let c = count + 1;
        if stops_after(max, c) {
            assert(tally_lines(max, count, msgs).0 =~= want);
        } else {
            let rest = msgs.drop_first();
            lemma_tally_lines_from(max, c, rest);
            assert forall|k: int| 0 <= k < shown implies tally_lines(max, count, msgs).0[k] == want[k] by {
                if k > 0 {
                    assert(rest[k - 1] == msgs[k]);
                    assert(c + (k - 1) + 1 == count + k + 1);
                }
            }
            assert(tally_lines(max, count, msgs).0 =~= want);
        }
    }
}

} // verus!

verus! {

/// A refused key is only ever shown in part: `auth login` shows at most its
/// first `n` bytes (six). What is shown is a prefix of the key of at most
/// `n` bytes, so a longer key is never shown in full.
pub proof fn lemma_key_shown_in_part(key: Seq<char>, n: nat)
    ensures
        ({
            let shown = prefix_within(key, n);
            &&& vstd::utf8::encode_utf8(shown).len() <= n
            &&& key.take(shown.len() as int) == shown
            &&& vstd::utf8::encode_utf8(key).len() > n ==> shown.len() < key.len()
        }),
{
    crate::text::lemma_prefix_within(key, n);
    let shown = prefix_within(key, n);
    if vstd::utf8::encode_utf8(key).len() > n && shown.len() >= key.len() {
        assert(shown =~= key);
    }
}

/// `auth status` never shows more of a saved key than its first eight
/// characters: what it prints is what it would print for those characters
/// alone.
pub proof fn lemma_status_shows_first_eight_chars(key: Seq<char>, config_path: Seq<char>, check: KeyCheck)
    ensures
        shown_key(key).len() <= 8,
        key.take(shown_key(key).len() as int) == shown_key(key),
        status_lines(key, config_path, check) == status_lines(shown_key(key), config_path, check),
{
    assert(shown_key(shown_key(key)) =~= shown_key(key));
}

/// Two saved keys that agree on their first eight characters get the same
/// `auth status` output, when the checks came out the same.
pub proof fn lemma_status_same_for_same_first_chars(
    k1: Seq<char>,
    k2: Seq<char>,
    config_path: Seq<char>,
    check: KeyCheck,
)
    requires
        8 <= k1.len(),
        8 <= k2.len(),
        k1.take(8) == k2.take(8),
    ensures
        status_lines(k1, config_path, check) == status_lines(k2, config_path, check),
{
}

/// The first six bytes of a key that `auth login` refuses decide the
/// message.
pub proof fn lemma_login_refusal_depends_on_first_bytes(k1: Seq<char>, k2: Seq<char>)
    requires
        6 <= vstd::utf8::encode_utf8(k1).len(),
        6 <= vstd::utf8::encode_utf8(k2).len(),
        vstd::utf8::encode_utf8(k1).take(6) == vstd::utf8::encode_utf8(k2).take(6),
    ensures
        bad_key_message(k1) == bad_key_message(k2),
{
    crate::text::lemma_prefix_within_first_bytes(k1, k2, 6);
}

} // verus!

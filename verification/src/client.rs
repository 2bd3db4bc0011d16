//! The requests that the API client sends, and how it reads failures.
//!
//! The client decides, for each API call, the method, the URL, the query
//! and the body; sending them and decoding the answer is left to the caller.
use vstd::prelude::*;

use crate::models::{ApiError, ChatRequest, ChatRequestView};
use crate::text::{decimal, u64_text};

verus! {

/// An HTTP method the API uses.
#[derive(Clone, Copy, Debug, PartialEq, Eq, Structural)]
pub enum Method {
    Get,
    Post,
    Delete,
}

/// The body of a request.
pub enum RequestBody {
    /// No body.
    Empty,
    /// `{"workload": .., "input": ..}`, the input given as JSON text.
    SubmitJob { workload: String, input: String },
    /// `{"name": ..}`.
    CreateApiKey { name: String },
    /// An OpenAI-compatible chat request.
    Chat(ChatRequest),
}

/// The value of a request body.
pub enum BodyView {
    Empty,
    SubmitJob { workload: Seq<char>, input: Seq<char> },
    CreateApiKey { name: Seq<char> },
    Chat(ChatRequestView),
}

impl View for RequestBody {
    type V = BodyView;

    open spec fn view(&self) -> BodyView {
        match self {
            RequestBody::Empty => BodyView::Empty,
            RequestBody::SubmitJob { workload, input } => BodyView::SubmitJob {
                workload: workload@,
                input: input@,
            },
            RequestBody::CreateApiKey { name } => BodyView::CreateApiKey { name: name@ },
            RequestBody::Chat(r) => BodyView::Chat(r@),
        }
    }
}

/// One request to the API.
pub struct ApiRequest {
    pub method: Method,
    pub url: String,
    /// Query parameters, in order, as name and value.
    pub query: Vec<(String, String)>,
    pub body: RequestBody,
}

/// The value of a request.
pub struct ApiRequestView {
    pub method: Method,
    pub url: Seq<char>,
    pub query: Seq<(Seq<char>, Seq<char>)>,
    pub body: BodyView,
}

impl View for ApiRequest {
    type V = ApiRequestView;

    open spec fn view(&self) -> ApiRequestView {
        ApiRequestView {
            method: self.method,
            url: self.url@,
            query: self.query@.map_values(|p: (String, String)| (p.0@, p.1@)),
            body: self.body@,
        }
    }
}

/// A request without query and body.
pub open spec fn simple_request(method: Method, url: Seq<char>) -> ApiRequestView {
    ApiRequestView { method, url, query: seq![], body: BodyView::Empty }
}

/// Why a client could not be made.
#[derive(Clone, Copy, Debug, PartialEq, Eq, Structural)]
pub enum ClientError {
    /// The API key cannot stand in an HTTP header.
    InvalidApiKeyFormat,
}

/// `s` without the slashes at its end.
pub open spec fn trim_trailing_slashes(s: Seq<char>) -> Seq<char>
    decreases s.len(),
{
    if s.len() > 0 && s.last() == '/' {
        trim_trailing_slashes(s.drop_last())
    } else {
        s
    }
}

/// Whether a character can stand in an HTTP header value: a tab, or any
/// character but the ASCII control characters.
pub open spec fn header_char_ok(c: char) -> bool {
    c == '\t' || (c as u32 >= 32 && c as u32 != 127)
}

/// Whether a text can stand in an HTTP header value.
pub open spec fn header_text_ok(s: Seq<char>) -> bool {
    forall|i: int| 0 <= i < s.len() ==> header_char_ok(#[trigger] s[i])
}

/// Calls `reqwest::header::HeaderValue::from_str(s)` and tells whether it
/// succeeded. The crate accepts a text when every byte of its UTF-8 encoding
/// is a tab or at least 32 and not 127; the bytes of a non-ASCII character
/// are all at least 128, so this is a test on the ASCII characters alone.
#[verifier::external_body]
fn header_value_ok(s: &str) -> (ok: bool)
    ensures
        ok == header_text_ok(s@),
{
    reqwest::header::HeaderValue::from_str(s).is_ok()
}

/// The authorization header value for an API key.
pub open spec fn bearer(api_key: Seq<char>) -> Seq<char> {
    "Bearer "@ + api_key
}

/// The API client: where the API is, and how requests authenticate.
pub struct ApiClient {
    /// The API base URL, without trailing slashes.
    pub base_url: String,
    /// The value of the `Authorization` header.
    pub authorization: String,
}

/// The text of `s` up to index `k`.
fn head_chars(s: &str, k: usize) -> (res: String)
    requires
        k <= s@.len(),
    ensures
        res@ == s@.take(k as int),
{
    let t = s.substring_char(0, k);
    let r = t.to_string();
    proof {
        vstd::string::to_string_from_display_ensures_for_str(t, r);
        assert(s@.subrange(0, k as int) =~= s@.take(k as int));
    }
    r
}

/// `s` without the slashes at its end, as `trim_end_matches('/')` gives it.
pub fn trim_slashes(s: &str) -> (res: String)
    ensures
        res@ == trim_trailing_slashes(s@),
{
    let mut k = s.unicode_len();
    assert(s@.take(k as int) =~= s@);
    while k > 0 && s.get_char(k - 1) == '/'
        invariant
            k <= s@.len(),
            trim_trailing_slashes(s@) == trim_trailing_slashes(s@.take(k as int)),
        decreases k,
    {
        assert(s@.take(k as int).drop_last() =~= s@.take(k - 1));
        k = k - 1;
    }
    proof {
        if k > 0 {
            assert(s@.take(k as int).last() == s@[k - 1]);
        }
    }
    head_chars(s, k)
}

impl ApiClient {
    /// A client for the API at `base_url` that authenticates with `api_key`
    /// as a bearer token. Fails when the key cannot stand in a header.
    pub fn new(base_url: &str, api_key: &str) -> (res: Result<ApiClient, ClientError>)
        ensures
            res is Ok <==> header_text_ok(bearer(api_key@)),
            res matches Ok(c) ==> c.base_url@ == trim_trailing_slashes(base_url@)
                && c.authorization@ == bearer(api_key@),
            res matches Err(e) ==> e == ClientError::InvalidApiKeyFormat,
    {
        let mut authorization = String::from_str("Bearer ");
        authorization.append(api_key);
        if !header_value_ok(authorization.as_str()) {
            return Err(ClientError::InvalidApiKeyFormat);
        }
        Ok(ApiClient { base_url: trim_slashes(base_url), authorization })
    }

    /// The URL of an API path.
    pub fn url(&self, path: &str) -> (res: String)
        ensures
            res@ == self.base_url@ + path@,
    {
        let mut u = self.base_url.clone();
        u.append(path);
        u
    }

    fn url_with(&self, path: &str, last: &str) -> (res: String)
        ensures
            res@ == self.base_url@ + path@ + last@,
    {
        let mut u = self.url(path);
        u.append(last);
        u
    }

    fn url_around(&self, path: &str, mid: &str, last: &str) -> (res: String)
        ensures
            res@ == self.base_url@ + path@ + mid@ + last@,
    {
        let mut u = self.url_with(path, mid);
        u.append(last);
        u
    }

    fn get(url: String) -> (res: ApiRequest)
        ensures
            res@ == simple_request(Method::Get, url@),
    {
        let r = ApiRequest { method: Method::Get, url, query: Vec::new(), body: RequestBody::Empty };
        assert(r@.query =~= seq![]);
        r
    }

    fn delete(url: String) -> (res: ApiRequest)
        ensures
            res@ == simple_request(Method::Delete, url@),
    {
        let r = ApiRequest { method: Method::Delete, url, query: Vec::new(), body: RequestBody::Empty };
        assert(r@.query =~= seq![]);
        r
    }

    /// `GET /api/v1/account`.
    pub fn get_account(&self) -> (res: ApiRequest)
        ensures
            res@ == simple_request(Method::Get, self.base_url@ + "/api/v1/account"@),
    {
        Self::get(self.url("/api/v1/account"))
    }

    /// `GET /api/v1/jobs?limit=..&offset=..`.
    pub fn list_jobs(&self, limit: u32, offset: u32) -> (res: ApiRequest)
        ensures
            res@ == (ApiRequestView {
                method: Method::Get,
                url: self.base_url@ + "/api/v1/jobs"@,
                query: seq![("limit"@, decimal(limit as nat)), ("offset"@, decimal(offset as nat))],
                body: BodyView::Empty,
            }),
    {
        let query = vec![
            (String::from_str("limit"), u64_text(limit as u64)),
            (String::from_str("offset"), u64_text(offset as u64)),
        ];
        let r = ApiRequest { method: Method::Get, url: self.url("/api/v1/jobs"), query, body: RequestBody::Empty };
        assert(r@.query =~= seq![("limit"@, decimal(limit as nat)), ("offset"@, decimal(offset as nat))]);
        r
    }

    /// `GET /api/v1/jobs/{id}`.
    pub fn get_job(&self, id: &str) -> (res: ApiRequest)
        ensures
            res@ == simple_request(Method::Get, self.base_url@ + "/api/v1/jobs/"@ + id@),
    {
        Self::get(self.url_with("/api/v1/jobs/", id))
    }

    /// `POST /api/v1/jobs` with the workload and its input (JSON text).
    pub fn submit_job(&self, workload: &str, input: &str) -> (res: ApiRequest)
        ensures
            res@ == (ApiRequestView {
                method: Method::Post,
                url: self.base_url@ + "/api/v1/jobs"@,
                query: seq![],
                body: BodyView::SubmitJob { workload: workload@, input: input@ },
            }),
    {
        let w = workload.to_string();
        let i = input.to_string();
        proof {
            vstd::string::to_string_from_display_ensures_for_str(workload, w);
            vstd::string::to_string_from_display_ensures_for_str(input, i);
        }
        let r = ApiRequest {
            method: Method::Post,
            url: self.url("/api/v1/jobs"),
            query: Vec::new(),
            body: RequestBody::SubmitJob { workload: w, input: i },
        };
        assert(r@.query =~= seq![]);
        r
    }

    /// `DELETE /api/v1/jobs/{id}`.
    pub fn cancel_job(&self, id: &str) -> (res: ApiRequest)
        ensures
            res@ == simple_request(Method::Delete, self.base_url@ + "/api/v1/jobs/"@ + id@),
    {
        Self::delete(self.url_with("/api/v1/jobs/", id))
    }

    /// `GET /api/v1/jobs/{id}/stream`, answered with server-sent events.
    pub fn stream_job(&self, id: &str) -> (res: ApiRequest)
        ensures
            res@ == simple_request(
                Method::Get,
                self.base_url@ + "/api/v1/jobs/"@ + id@ + "/stream"@,
            ),
    {
        Self::get(self.url_around("/api/v1/jobs/", id, "/stream"))
    }

    /// `POST /api/v1/chat/completions` with the chat request.
    pub fn chat(&self, request: &ChatRequest) -> (res: ApiRequest)
        ensures
            res@ == (ApiRequestView {
                method: Method::Post,
                url: self.base_url@ + "/api/v1/chat/completions"@,
                query: seq![],
                body: BodyView::Chat(request@),
            }),
    {
        let r = ApiRequest {
            method: Method::Post,
            url: self.url("/api/v1/chat/completions"),
            query: Vec::new(),
            body: RequestBody::Chat(copy_chat_request(request)),
        };
        assert(r@.query =~= seq![]);
        r
    }

    /// The streaming chat request: the same call as [`ApiClient::chat`],
    /// answered with server-sent events when the request asks to stream.
    pub fn chat_stream(&self, request: &ChatRequest) -> (res: ApiRequest)
        ensures
            res@ == (ApiRequestView {
                method: Method::Post,
                url: self.base_url@ + "/api/v1/chat/completions"@,
                query: seq![],
                body: BodyView::Chat(request@),
            }),
    {
        self.chat(request)
    }

    /// `GET /api/v1/workloads`.
    pub fn list_workloads(&self) -> (res: ApiRequest)
        ensures
            res@ == simple_request(Method::Get, self.base_url@ + "/api/v1/workloads"@),
    {
        Self::get(self.url("/api/v1/workloads"))
    }

    /// `GET /api/v1/workloads/{slug}`.
    pub fn get_workload(&self, slug: &str) -> (res: ApiRequest)
        ensures
            res@ == simple_request(Method::Get, self.base_url@ + "/api/v1/workloads/"@ + slug@),
    {
        Self::get(self.url_with("/api/v1/workloads/", slug))
    }

    /// `GET /api/v1/hosts`.
    pub fn list_hosts(&self) -> (res: ApiRequest)
        ensures
            res@ == simple_request(Method::Get, self.base_url@ + "/api/v1/hosts"@),
    {
        Self::get(self.url("/api/v1/hosts"))
    }

    /// `GET /api/v1/hosts/{id}`.
    pub fn get_host(&self, id: &str) -> (res: ApiRequest)
        ensures
            res@ == simple_request(Method::Get, self.base_url@ + "/api/v1/hosts/"@ + id@),
    {
        Self::get(self.url_with("/api/v1/hosts/", id))
    }

    /// `GET /api/v1/api-keys`.
    pub fn list_api_keys(&self) -> (res: ApiRequest)
        ensures
            res@ == simple_request(Method::Get, self.base_url@ + "/api/v1/api-keys"@),
    {
        Self::get(self.url("/api/v1/api-keys"))
    }

    /// `POST /api/v1/api-keys` with the new key's name.
    pub fn create_api_key(&self, name: &str) -> (res: ApiRequest)
        ensures
            res@ == (ApiRequestView {
                method: Method::Post,
                url: self.base_url@ + "/api/v1/api-keys"@,
                query: seq![],
                body: BodyView::CreateApiKey { name: name@ },
            }),
    {
        let n = name.to_string();
        proof { vstd::string::to_string_from_display_ensures_for_str(name, n); }
        let r = ApiRequest {
            method: Method::Post,
            url: self.url("/api/v1/api-keys"),
            query: Vec::new(),
            body: RequestBody::CreateApiKey { name: n },
        };
        assert(r@.query =~= seq![]);
        r
    }

    /// `DELETE /api/v1/api-keys/{id}`.
    pub fn delete_api_key(&self, id: &str) -> (res: ApiRequest)
        ensures
            res@ == simple_request(Method::Delete, self.base_url@ + "/api/v1/api-keys/"@ + id@),
    {
        Self::delete(self.url_with("/api/v1/api-keys/", id))
    }

    /// `GET /api/v1/market/rates`, or `/api/v1/market/rates/{slug}` for one
    /// workload.
    pub fn get_market_rates(&self, workload: Option<&str>) -> (res: ApiRequest)
        ensures
            res@ == simple_request(
                Method::Get,
                match workload {
                    Some(slug) => self.base_url@ + "/api/v1/market/rates/"@ + slug@,
                    None => self.base_url@ + "/api/v1/market/rates"@,
                },
            ),
    {
        match workload {
            Some(slug) => Self::get(self.url_with("/api/v1/market/rates/", slug)),
            None => Self::get(self.url("/api/v1/market/rates")),
        }
    }

    /// `GET /api/v1/market/history/{slug}`.
    pub fn get_market_history(&self, slug: &str) -> (res: ApiRequest)
        ensures
            res@ == simple_request(Method::Get, self.base_url@ + "/api/v1/market/history/"@ + slug@),
    {
        Self::get(self.url_with("/api/v1/market/history/", slug))
    }
}

/// A copy of a chat request.
fn copy_chat_request(r: &ChatRequest) -> (res: ChatRequest)
    ensures
        res@ == r@,
{
    let mut messages: Vec<crate::models::ChatMessage> = Vec::new();
    let n = r.messages.len();
    let mut i: usize = 0;
    while i < n
        invariant
            n == r.messages.len(),
            i <= n,
            messages@.map_values(|m: crate::models::ChatMessage| m@)
                == r.messages@.take(i as int).map_values(|m: crate::models::ChatMessage| m@),
        decreases n - i,
    {
        let m = crate::models::ChatMessage {
            role: r.messages[i].role.clone(),
            content: r.messages[i].content.clone(),
        };
        messages.push(m);
        assert(r.messages@.take(i + 1).map_values(|m: crate::models::ChatMessage| m@)
            =~= r.messages@.take(i as int).map_values(|m: crate::models::ChatMessage| m@).push(r.messages@[i as int]@));
        assert(messages@.map_values(|m: crate::models::ChatMessage| m@)
            =~= r.messages@.take(i + 1).map_values(|m: crate::models::ChatMessage| m@));
        i = i + 1;
    }
    assert(r.messages@.take(n as int) =~= r.messages@);
    ChatRequest {
        model: r.model.clone(),
        workload: r.workload.clone(),
        messages,
        stream: r.stream,
        max_tokens: r.max_tokens,
        temperature: r.temperature,
    }
}

} // verus!

verus! {

use crate::text::str_eq;

/// The reason phrase that `http` gives a status code (for example
/// `Not Found` for 404), or none for a code it does not know.
pub uninterp spec fn canonical_reason_of(code: u16) -> Option<Seq<char>>;

/// Calls `reqwest::StatusCode::from_u16(code)` and then `canonical_reason`
/// on it: the registered reason phrase of the code, if any. The phrase
/// table is given a name here, not written out.
#[verifier::external_body]
fn canonical_reason(code: u16) -> (res: Option<String>)
    requires
        100 <= code <= 999,
    ensures
        res.deep_view() == canonical_reason_of(code),
{
    match reqwest::StatusCode::from_u16(code) {
        Ok(status) => match status.canonical_reason() {
            Some(r) => Some(r.to_string()),
            None => None,
        },
        Err(_) => None,
    }
}

/// Whether a status code reports success.
pub open spec fn is_success(code: u16) -> bool {
    200 <= code <= 299
}

/// What a failed request is reported with: the `error` field of the JSON
/// error body, else its `message` field, else the raw body.
pub open spec fn error_detail(body: Seq<char>, parsed: Option<(Option<Seq<char>>, Option<Seq<char>>)>) -> Seq<char> {
    match parsed {
        Some((Some(e), _)) => e,
        Some((None, Some(m))) => m,
        _ => body,
    }
}

/// The value of a parsed error body.
pub open spec fn api_error_view(e: Option<ApiError>) -> Option<(Option<Seq<char>>, Option<Seq<char>>)> {
    match e {
        Some(e) => Some((e.error.deep_view(), e.message.deep_view())),
        None => None,
    }
}

/// How a status code prints: the number and its reason phrase.
pub open spec fn status_display(code: u16, reason: Option<Seq<char>>) -> Seq<char> {
    decimal(code as nat) + " "@ + match reason {
        Some(r) => r,
        None => "<unknown status code>"@,
    }
}

/// The message of a failed request with status `code`, reason phrase
/// `reason` and detail `msg`.
pub open spec fn failure_message(code: u16, reason: Option<Seq<char>>, msg: Seq<char>) -> Seq<char> {
    if code == 401 {
        "Authentication failed: "@ + msg + ". Check your API key."@
    } else if code == 403 {
        "Access denied: "@ + msg + ". Your API key may lack the required scope."@
    } else if code == 404 {
        "Not found: "@ + msg
    } else if code == 402 {
        "Insufficient credits: "@ + msg
    } else if code == 429 {
        "Rate limited: "@ + msg + ". Please wait and retry."@
    } else if code == 422 {
        "Validation error: "@ + msg
    } else {
        "API error ("@ + status_display(code, reason) + "): "@ + msg
    }
}

fn concat3(a: &str, b: &str, c: &str) -> (res: String)
    ensures
        res@ == a@ + b@ + c@,
{
    let mut r = a.to_string();
    proof { vstd::string::to_string_from_display_ensures_for_str(a, r); }
    r.append(b);
    r.append(c);
    r
}

/// The message of a failed request, given the reason phrase of its status.
pub fn failure_text(code: u16, reason: &Option<String>, msg: &str) -> (res: String)
    ensures
        res@ == failure_message(code, reason.deep_view(), msg@),
{
    proof { reveal_strlit(""); assert(""@ =~= Seq::<char>::empty()); }
    if code == 401 {
        concat3("Authentication failed: ", msg, ". Check your API key.")
    } else if code == 403 {
        concat3("Access denied: ", msg, ". Your API key may lack the required scope.")
    } else if code == 404 {
        concat3("Not found: ", msg, "")
    } else if code == 402 {
        concat3("Insufficient credits: ", msg, "")
    } else if code == 429 {
        concat3("Rate limited: ", msg, ". Please wait and retry.")
    } else if code == 422 {
        concat3("Validation error: ", msg, "")
    } else {
        let mut status = u64_text(code as u64);
        status.append(" ");
        match reason {
            Some(r) => status.append(r.as_str()),
            None => status.append("<unknown status code>"),
        }
        assert(status@ =~= status_display(code, reason.deep_view()));
        let r = concat3("API error (", status.as_str(), "): ");
        let res = concat3(r.as_str(), msg, "");
        assert(res@ =~= failure_message(code, reason.deep_view(), msg@));
        res
    }
}

/// Reads the answer to a request: nothing when its status reports success,
/// else the message it fails with. `body` is the answer's text and `parsed`
/// the same text read as a JSON error body, where it is one.
pub fn check_error(status: u16, body: &str, parsed: &Option<ApiError>) -> (res: Option<String>)
    requires
        100 <= status <= 999,
    ensures
        res is None <==> is_success(status),
        res matches Some(m) ==> m@ == failure_message(
            status,
            canonical_reason_of(status),
            error_detail(body@, api_error_view(*parsed)),
        ),
{
    if 200 <= status && status <= 299 {
        return None;
    }
    let detail = match parsed {
        Some(e) => match &e.error {
            Some(x) => x.clone(),
            None => match &e.message {
                Some(m) => m.clone(),
                None => {
                    let b = body.to_string();
                    proof { vstd::string::to_string_from_display_ensures_for_str(body, b); }
                    b
                },
            },
        },
        None => {
            let b = body.to_string();
            proof { vstd::string::to_string_from_display_ensures_for_str(body, b); }
            b
        },
    };
    let reason = canonical_reason(status);
    let m = failure_text(status, &reason, detail.as_str());
    proof { reveal_strlit(""); }
    Some(m)
}

/// Whether the data of a server-sent event carries a payload: events with
/// no data and the `[DONE]` marker are skipped.
pub fn is_event_payload(data: &str) -> (res: bool)
    ensures
        res == (data@.len() > 0 && data@ != "[DONE]"@),
{
    data.unicode_len() > 0 && !str_eq(data, "[DONE]")
}

} // verus!

verus! {

/// The base URL keeps no slash at its end, and is a prefix of the given URL,
/// so that API paths (which start with a slash) join it with one slash.
pub proof fn lemma_trimmed_url(s: Seq<char>)
    ensures
        trim_trailing_slashes(s).len() <= s.len(),
        s.take(trim_trailing_slashes(s).len() as int) == trim_trailing_slashes(s),
        trim_trailing_slashes(s).len() == 0 || trim_trailing_slashes(s).last() != '/',
        forall|i: int| trim_trailing_slashes(s).len() <= i < s.len() ==> s[i] == '/',
    decreases s.len(),
{
    if s.len() > 0 && s.last() == '/' {
        lemma_trimmed_url(s.drop_last());
        let t = trim_trailing_slashes(s.drop_last());
        assert(s.take(t.len() as int) =~= s.drop_last().take(t.len() as int));
        assert forall|i: int| t.len() <= i < s.len() implies s[i] == '/' by {
            if i < s.len() - 1 {
                assert(s[i] == s.drop_last()[i]);
            }
        }
    } else {
        assert(s.take(s.len() as int) =~= s);
    }
}

} // verus!

use archipelag::client::{check_error, failure_text, is_event_payload, ApiClient, ClientError, Method, RequestBody};
use archipelag::models::{ApiError, ChatMessage, ChatRequest};

fn client() -> ApiClient {
    ApiClient::new("https://api.archipelag.io", "ak_test").unwrap()
}

fn s(x: &str) -> String {
    x.to_string()
}

#[test]
fn new_client_sets_bearer_and_trims_slashes() {
    let c = ApiClient::new("https://api.example.com///", "ak_123").unwrap();
    assert_eq!(c.base_url, "https://api.example.com");
    assert_eq!(c.authorization, "Bearer ak_123");
    let c = ApiClient::new("", "k").unwrap();
    assert_eq!(c.base_url, "");
    let c = ApiClient::new("/", "k").unwrap();
    assert_eq!(c.base_url, "");
}

#[test]
fn new_client_rejects_keys_that_cannot_be_headers() {
    assert_eq!(ApiClient::new("https://x", "ak_1\n2").err(), Some(ClientError::InvalidApiKeyFormat));
    assert_eq!(ApiClient::new("https://x", "ak_\u{7f}").err(), Some(ClientError::InvalidApiKeyFormat));
    assert!(ApiClient::new("https://x", "ak_\tok").is_ok());
    assert!(ApiClient::new("https://x", "ak_é").is_ok());
}

#[test]
fn url_joins_base_and_path() {
    assert_eq!(client().url("/api/v1/account"), "https://api.archipelag.io/api/v1/account");
}

fn check(req: archipelag::client::ApiRequest, method: Method, url: &str) {
    assert_eq!(req.method, method);
    assert_eq!(req.url, url);
    assert!(req.query.is_empty());
}

#[test]
fn endpoints_follow_the_api_coverage_table() {
    let c = client();
    let b = "https://api.archipelag.io";
    check(c.get_account(), Method::Get, &format!("{b}/api/v1/account"));
    check(c.get_job("j1"), Method::Get, &format!("{b}/api/v1/jobs/j1"));
    check(c.cancel_job("j1"), Method::Delete, &format!("{b}/api/v1/jobs/j1"));
    check(c.stream_job("j1"), Method::Get, &format!("{b}/api/v1/jobs/j1/stream"));
    check(c.list_workloads(), Method::Get, &format!("{b}/api/v1/workloads"));
    check(c.get_workload("sdxl"), Method::Get, &format!("{b}/api/v1/workloads/sdxl"));
    check(c.list_hosts(), Method::Get, &format!("{b}/api/v1/hosts"));
    check(c.get_host("h1"), Method::Get, &format!("{b}/api/v1/hosts/h1"));
    check(c.list_api_keys(), Method::Get, &format!("{b}/api/v1/api-keys"));
    check(c.delete_api_key("k1"), Method::Delete, &format!("{b}/api/v1/api-keys/k1"));
    check(c.get_market_rates(None), Method::Get, &format!("{b}/api/v1/market/rates"));
    check(c.get_market_rates(Some("llm-chat")), Method::Get, &format!("{b}/api/v1/market/rates/llm-chat"));
    check(c.get_market_history("llm-chat"), Method::Get, &format!("{b}/api/v1/market/history/llm-chat"));
}

#[test]
fn list_jobs_passes_limit_and_offset() {
    let r = client().list_jobs(20, 40);
    assert_eq!(r.method, Method::Get);
    assert_eq!(r.url, "https://api.archipelag.io/api/v1/jobs");
    assert_eq!(r.query, vec![(s("limit"), s("20")), (s("offset"), s("40"))]);
}

#[test]
fn posts_carry_their_bodies() {
    let c = client();
    let r = c.submit_job("llm-chat", "{\"prompt\":\"hi\"}");
    assert_eq!(r.method, Method::Post);
    assert_eq!(r.url, "https://api.archipelag.io/api/v1/jobs");
    match r.body {
        RequestBody::SubmitJob { workload, input } => {
            assert_eq!(workload, "llm-chat");
            assert_eq!(input, "{\"prompt\":\"hi\"}");
        }
        _ => panic!("wrong body"),
    }
    let r = c.create_api_key("ci");
    assert_eq!(r.url, "https://api.archipelag.io/api/v1/api-keys");
    match r.body {
        RequestBody::CreateApiKey { name } => assert_eq!(name, "ci"),
        _ => panic!("wrong body"),
    }
    let chat = ChatRequest {
        model: s("default"),
        workload: s("llm-chat"),
        messages: vec![ChatMessage { role: s("user"), content: s("hello") }],
        stream: true,
        max_tokens: Some(10),
        temperature: None,
    };
    for r in [c.chat(&chat), c.chat_stream(&chat)] {
        assert_eq!(r.method, Method::Post);
        assert_eq!(r.url, "https://api.archipelag.io/api/v1/chat/completions");
        match r.body {
            RequestBody::Chat(body) => {
                assert_eq!(body.workload, "llm-chat");
                assert_eq!(body.messages.len(), 1);
                assert_eq!(body.messages[0].content, "hello");
                assert!(body.stream);
                assert_eq!(body.max_tokens, Some(10));
            }
            _ => panic!("wrong body"),
        }
    }
}

#[test]
fn success_statuses_are_not_errors() {
    assert_eq!(check_error(200, "ok", &None), None);
    assert_eq!(check_error(204, "", &None), None);
    assert_eq!(check_error(299, "", &None), None);
}

#[test]
fn error_messages_follow_the_status() {
    assert_eq!(check_error(401, "nope", &None).unwrap(), "Authentication failed: nope. Check your API key.");
    assert_eq!(
        check_error(403, "scope", &None).unwrap(),
        "Access denied: scope. Your API key may lack the required scope."
    );
    assert_eq!(check_error(404, "gone", &None).unwrap(), "Not found: gone");
    assert_eq!(check_error(402, "broke", &None).unwrap(), "Insufficient credits: broke");
    assert_eq!(check_error(429, "slow", &None).unwrap(), "Rate limited: slow. Please wait and retry.");
    assert_eq!(check_error(422, "bad", &None).unwrap(), "Validation error: bad");
    assert_eq!(check_error(500, "oops", &None).unwrap(), "API error (500 Internal Server Error): oops");
    assert_eq!(check_error(418, "tea", &None).unwrap(), "API error (418 I'm a teapot): tea");
    assert_eq!(check_error(599, "?", &None).unwrap(), "API error (599 <unknown status code>): ?");
    assert_eq!(check_error(302, "moved", &None).unwrap(), "API error (302 Found): moved");
}

#[test]
fn error_detail_prefers_error_then_message_then_body() {
    let both = Some(ApiError { error: Some(s("E")), message: Some(s("M")) });
    let msg = Some(ApiError { error: None, message: Some(s("M")) });
    let none = Some(ApiError { error: None, message: None });
    assert_eq!(check_error(404, "raw", &both).unwrap(), "Not found: E");
    assert_eq!(check_error(404, "raw", &msg).unwrap(), "Not found: M");
    assert_eq!(check_error(404, "raw", &none).unwrap(), "Not found: raw");
}

#[test]
fn failure_text_with_given_reason() {
    assert_eq!(failure_text(503, &Some(s("Busy")), "x"), "API error (503 Busy): x");
    assert_eq!(failure_text(503, &None, "x"), "API error (503 <unknown status code>): x");
    assert_eq!(failure_text(401, &None, "x"), "Authentication failed: x. Check your API key.");
}

#[test]
fn event_payload_skips_empty_and_done() {
    assert!(!is_event_payload(""));
    assert!(!is_event_payload("[DONE]"));
    assert!(is_event_payload("{\"content\":\"x\"}"));
    assert!(is_event_payload("[DONE] "));
}

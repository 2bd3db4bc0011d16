use archipelag::cli::{AuthCommand, Command, JobsCommand, NatsCommand, Shell, needs_api_client};
use archipelag::client::{ApiClient, Method, RequestBody};
use archipelag::commands::{
    account_summary, api_key_deleted_line, authenticated_line, build_chat_request, chat_reply,
    chat_tokens, check_login_key, connecting_line, created_key_output, job_cancelled_line,
    job_event_output, job_submitted_line, key_may_be_invalid_line, logged_out_line, login_line,
    not_authenticated_line, plan_submit, stopping_line, stream_error_line, streaming_output_line,
    subscribed_line, tokens_line, verifying_client, warning_line, ChatStream, CommandError,
    JobStream, KeyCheck, NatsTally, status_output,
};
use archipelag::config::{resolve_api_key, resolve_api_url, resolve_nats_url, ConfigError};
use archipelag::models::{
    ApiKey, ApiKeyCreated, ChatChoice, ChatCompletionResponse, ChatDelta, ChatMessageResponse,
    ChatUsage, Float32Bits, StreamEvent,
};

fn s(x: &str) -> String {
    x.to_string()
}

#[test]
fn auth_and_completion_need_no_client() {
    assert!(!needs_api_client(&Command::Auth { command: AuthCommand::Status }));
    assert!(!needs_api_client(&Command::Completion { shell: Shell::Zsh }));
    assert!(needs_api_client(&Command::Account));
    assert!(needs_api_client(&Command::Jobs { command: JobsCommand::List { limit: 20, offset: 0 } }));
    assert!(needs_api_client(&Command::Nats { command: NatsCommand::Subscribe { subject: s("a"), max: 0 } }));
}

#[test]
fn given_key_wins_over_saved_key() {
    assert_eq!(resolve_api_key(&Some(s("ak_flag")), &Some(s("ak_file"))), Ok(s("ak_flag")));
    assert_eq!(resolve_api_key(&None, &Some(s("ak_file"))), Ok(s("ak_file")));
    assert_eq!(resolve_api_key(&None, &None), Err(ConfigError::MissingApiKey));
}

#[test]
fn login_key_must_start_with_ak() {
    assert_eq!(check_login_key("ak_live_123"), Ok(()));
    assert_eq!(
        check_login_key("sk_live_123"),
        Err(s("API key should start with 'ak_'. Got: sk_liv..."))
    );
    assert_eq!(check_login_key("abc"), Err(s("API key should start with 'ak_'. Got: abc...")));
    assert_eq!(check_login_key(""), Err(s("API key should start with 'ak_'. Got: ...")));
}

#[test]
fn verifying_client_uses_official_api() {
    let c = verifying_client("ak_1").unwrap();
    assert_eq!(c.base_url, "https://api.archipelag.io");
    assert!(verifying_client("ak_\n").is_err());
}

#[test]
fn status_shows_first_eight_bytes() {
    assert_eq!(authenticated_line("ak_0123456789"), "Authenticated: ak_01234…");
    assert_eq!(authenticated_line("ak_1"), "Authenticated: ak_1…");
    assert_eq!(account_summary("me@x.io", "3.50"), "Account: me@x.io (3.50 credits)");
}

#[test]
fn confirmation_lines() {
    assert_eq!(login_line("me@x.io", "1.25").plain_text(), "✓ Logged in as me@x.io (1.25 credits)");
    assert_eq!(job_submitted_line("j1").plain_text(), "✓ Job submitted: j1");
    assert_eq!(job_cancelled_line("j1").plain_text(), "✓ Job j1 cancelled.");
    assert_eq!(api_key_deleted_line("k1").plain_text(), "✓ API key k1 deleted.");
    assert_eq!(tokens_line(42).plain_text(), "[42 tokens]");
    assert_eq!(connecting_line("nats://h:4222").plain_text(), "→ Connecting to nats://h:4222…");
    assert_eq!(subscribed_line("host.*.heartbeat", 0).plain_text(), "✓ Subscribed to \"host.*.heartbeat\"");
    assert_eq!(
        subscribed_line("host.*.heartbeat", 10).plain_text(),
        "✓ Subscribed to \"host.*.heartbeat\" (max 10 messages)"
    );
    assert_eq!(stopping_line(10).plain_text(), "✓ Received 10 messages, stopping.");
}

#[test]
fn chat_request_has_system_then_user() {
    let r = build_chat_request("Hello", "sdxl", Some(s("You are a poet")), Some(100), Some(Float32Bits(0.5f32.to_bits())), false);
    assert_eq!(r.model, "default");
    assert_eq!(r.workload, "sdxl");
    assert_eq!(r.messages.len(), 2);
    assert_eq!(r.messages[0].role, "system");
    assert_eq!(r.messages[0].content, "You are a poet");
    assert_eq!(r.messages[1].role, "user");
    assert_eq!(r.messages[1].content, "Hello");
    assert!(r.stream);
    assert_eq!(r.max_tokens, Some(100));
    assert_eq!(r.temperature, Some(Float32Bits(0.5f32.to_bits())));
    let r = build_chat_request("Hi", "llm-chat", None, None, None, true);
    assert_eq!(r.workload, "llm-chat");
    assert_eq!(r.messages.len(), 1);
    assert!(!r.stream);
}

fn choice(msg: Option<&str>, delta: Option<&str>) -> ChatChoice {
    ChatChoice {
        message: msg.map(|m| ChatMessageResponse { role: Some(s("assistant")), content: Some(s(m)) }),
        delta: delta.map(|d| ChatDelta { content: Some(s(d)) }),
        finish_reason: None,
    }
}

fn usage(total: Option<u64>) -> Option<ChatUsage> {
    Some(ChatUsage { prompt_tokens: None, completion_tokens: None, total_tokens: total })
}

#[test]
fn complete_chat_answer() {
    let r = ChatCompletionResponse { choices: vec![choice(Some("Hi!"), None), choice(Some("other"), None)], usage: usage(Some(12)) };
    assert_eq!(chat_reply(&r), Some(s("Hi!")));
    assert_eq!(chat_tokens(&r), Some(12));
    let r = ChatCompletionResponse { choices: vec![], usage: usage(None) };
    assert_eq!(chat_reply(&r), None);
    assert_eq!(chat_tokens(&r), Some(0));
    let r = ChatCompletionResponse { choices: vec![choice(None, Some("x"))], usage: None };
    assert_eq!(chat_reply(&r), None);
    assert_eq!(chat_tokens(&r), None);
}

#[test]
fn streamed_chat_keeps_last_reported_total() {
    let mut st = ChatStream::new();
    let c1 = ChatCompletionResponse { choices: vec![choice(None, Some("Hel")), choice(None, None), choice(None, Some("lo"))], usage: None };
    assert_eq!(st.on_chunk(&c1), vec![s("Hel"), s("lo")]);
    assert_eq!(st.finish(), None);
    let c2 = ChatCompletionResponse { choices: vec![], usage: usage(Some(7)) };
    assert!(st.on_chunk(&c2).is_empty());
    let c3 = ChatCompletionResponse { choices: vec![choice(None, Some("!"))], usage: usage(None) };
    assert_eq!(st.on_chunk(&c3), vec![s("!")]);
    assert_eq!(st.total_tokens, 7);
    assert_eq!(st.finish(), Some(7));
    let c4 = ChatCompletionResponse { choices: vec![], usage: usage(Some(9)) };
    st.on_chunk(&c4);
    assert_eq!(st.finish(), Some(9));
}

#[test]
fn submit_requires_json_input() {
    let c = ApiClient::new("https://api.archipelag.io", "ak_1").unwrap();
    let r = plan_submit(&c, "llm-chat", "{\"prompt\": \"Hello!\"}").unwrap();
    assert_eq!(r.method, Method::Post);
    assert_eq!(r.url, "https://api.archipelag.io/api/v1/jobs");
    match r.body {
        RequestBody::SubmitJob { workload, input } => {
            assert_eq!(workload, "llm-chat");
            assert_eq!(input, "{\"prompt\": \"Hello!\"}");
        }
        _ => panic!("wrong body"),
    }
    assert_eq!(plan_submit(&c, "llm-chat", "{not json").err(), Some(CommandError::InvalidJsonInput));
    assert_eq!(plan_submit(&c, "llm-chat", "").err(), Some(CommandError::InvalidJsonInput));
}

#[test]
fn job_events_split_content_and_errors() {
    let e = StreamEvent { event_type: Some(s("token")), content: Some(s("abc")), usage: None, error: None };
    let out = job_event_output(&e);
    assert_eq!(out.content, Some(s("abc")));
    assert!(out.error.is_none());
    let e = StreamEvent { event_type: None, content: None, usage: None, error: Some(s("crashed")) };
    let out = job_event_output(&e);
    assert_eq!(out.content, None);
    assert_eq!(out.error.unwrap().plain_text(), "\n✗ crashed");
}

#[test]
fn created_key_shows_secret_once() {
    let c = ApiKeyCreated {
        api_key: ApiKey { id: s("k9"), name: s("ci"), prefix: None, created_at: None, last_used_at: None },
        key: s("ak_secret"),
    };
    let lines: Vec<String> = created_key_output(&c).iter().map(|l| l.plain_text()).collect();
    assert_eq!(
        lines,
        vec![
            s("✓ API key created:"),
            s("  Name: ci"),
            s("  ID:   k9"),
            s(""),
            s("  Secret key (save this — it won't be shown again):"),
            s("  ak_secret"),
        ]
    );
}

#[test]
fn subscription_stops_at_the_limit() {
    let mut t = NatsTally::new(2);
    let (l1, stop1) = t.on_message("host.a.heartbeat", b"plain text");
    assert_eq!(l1.plain_text(), "[1] host.a.heartbeat plain text");
    assert!(!stop1);
    let (l2, stop2) = t.on_message("host.b.heartbeat", b"{\"b\":2,\"a\":[1]}");
    assert_eq!(l2.plain_text(), "[2] host.b.heartbeat {\n  \"a\": [\n    1\n  ],\n  \"b\": 2\n}");
    assert!(stop2);
    let mut u = NatsTally::new(0);
    for _ in 0..100 {
        let (_, stop) = u.on_message("s", b"x");
        assert!(!stop);
    }
    assert_eq!(u.count, 100);
}

#[test]
fn payloads_decode_lossily_and_print_pretty() {
    let mut t = NatsTally::new(0);
    let (l, _) = t.on_message("s", &[0x68, 0xff, 0x69]);
    assert_eq!(l.plain_text(), "[1] s h\u{fffd}i");
    let (l, _) = t.on_message("s", b"[1,2]");
    assert_eq!(l.plain_text(), "[2] s [\n  1,\n  2\n]");
    let (l, _) = t.on_message("s", b"nope");
    assert_eq!(l.plain_text(), "[3] s nope");
}

#[test]
fn login_key_cut_inside_a_character_does_not_panic() {
    // the sixth byte falls inside the third 'é': the prefix stops before it
    assert_eq!(
        check_login_key("aéééé"),
        Err(s("API key should start with 'ak_'. Got: aéé..."))
    );
    assert_eq!(check_login_key("ééé€"), Err(s("API key should start with 'ak_'. Got: ééé...")));
}

#[test]
fn status_key_cut_inside_a_character_does_not_panic() {
    assert_eq!(authenticated_line("aéééé"), "Authenticated: aéééé…");
    assert_eq!(authenticated_line("éééééééééé"), "Authenticated: éééééééé…");
    assert_eq!(authenticated_line("ak_1234567890abcdef"), "Authenticated: ak_12345…");
}

#[test]
fn status_line_depends_on_first_eight_chars_only() {
    assert_eq!(authenticated_line("ak_12345SECRET"), authenticated_line("ak_12345other"));
    assert_eq!(authenticated_line("abcdefgé"), authenticated_line("abcdefgéz"));
    assert_ne!(authenticated_line("ak_12345"), authenticated_line("ak_12346"));
}

#[test]
fn auth_messages() {
    assert_eq!(logged_out_line().plain_text(), "✓ Logged out. API key removed from config.");
    assert_eq!(
        not_authenticated_line().plain_text(),
        "Not authenticated. Run `archipelag auth login` to get started."
    );
    assert_eq!(key_may_be_invalid_line("HTTP 401").plain_text(), "⚠ Key may be invalid: HTTP 401");
    assert_eq!(warning_line("Invalid API key format").plain_text(), "⚠ Invalid API key format");
    assert_eq!(streaming_output_line().plain_text(), "Streaming output…");
    assert_eq!(stream_error_line("reset").plain_text(), "\n✗ Stream error: reset");
}

#[test]
fn chat_stream_ends_at_its_first_error() {
    let mut st = ChatStream::new();
    assert!(st.is_open());
    st.on_chunk(&ChatCompletionResponse { choices: vec![], usage: usage(Some(5)) });
    assert!(st.is_open());
    let line = st.on_error("connection reset");
    assert_eq!(line.plain_text(), "\n✗ Stream error: connection reset");
    assert!(!st.is_open());
    assert_eq!(st.finish(), Some(5));
}

#[test]
fn job_stream_ends_at_a_stream_error_not_an_event_error() {
    let mut st = JobStream::new();
    let e = StreamEvent { event_type: None, content: Some(s("x")), usage: None, error: Some(s("bad")) };
    let out = st.on_event(&e);
    assert_eq!(out.content, Some(s("x")));
    assert_eq!(out.error.unwrap().plain_text(), "\n✗ bad");
    assert!(st.is_open());
    assert_eq!(st.on_error("eof").plain_text(), "\n✗ Stream error: eof");
    assert!(!st.is_open());
}

#[test]
fn subscription_run_over_a_message_sequence() {
    // a limit of 3 over 5 messages: three numbered lines, then stop
    let msgs = ["m1", "m2", "m3", "m4", "m5"];
    let mut t = NatsTally::new(3);
    let mut lines = Vec::new();
    let mut stopped = false;
    for m in msgs.iter() {
        let (l, stop) = t.on_message("subj", m.as_bytes());
        lines.push(l.plain_text());
        if stop {
            stopped = true;
            break;
        }
    }
    assert!(stopped);
    assert_eq!(lines, vec![s("[1] subj m1"), s("[2] subj m2"), s("[3] subj m3")]);
    // fewer messages than the limit: all shown, no stop
    let mut u = NatsTally::new(10);
    let mut n = 0;
    for m in msgs.iter() {
        let (_, stop) = u.on_message("subj", m.as_bytes());
        assert!(!stop);
        n += 1;
    }
    assert_eq!(n, 5);
}

#[test]
fn status_output_shows_only_the_first_eight_chars() {
    let check = KeyCheck::Account { email: s("me@x.io"), credits: s("3.50") };
    let lines: Vec<String> = status_output("ak_1234567890abcdef", "/home/me/.config/archipelag/config.toml", &check)
        .iter()
        .map(|l| l.plain_text())
        .collect();
    assert_eq!(
        lines,
        vec![
            s("Authenticated: ak_12345…"),
            s("Config: /home/me/.config/archipelag/config.toml"),
            s("Account: me@x.io (3.50 credits)"),
        ]
    );
    let other: Vec<String> = status_output("ak_12345zzzzzz", "/home/me/.config/archipelag/config.toml", &check)
        .iter()
        .map(|l| l.plain_text())
        .collect();
    assert_eq!(lines, other);
    assert!(lines.iter().all(|l| !l.contains("67890")));
}

#[test]
fn status_output_warnings() {
    let refused = status_output("ak_1", "c", &KeyCheck::Refused { error: s("HTTP 401") });
    assert_eq!(refused[2].plain_text(), "⚠ Key may be invalid: HTTP 401");
    let unusable = status_output("ak_1", "c", &KeyCheck::Unusable { error: s("Invalid API key format") });
    assert_eq!(unusable[0].plain_text(), "Authenticated: ak_1…");
    assert_eq!(unusable[2].plain_text(), "⚠ Invalid API key format");
}

#[test]
fn urls_come_from_flag_then_config_then_default() {
    assert_eq!(resolve_api_url(&Some(s("http://flag")), &Some(s("http://file"))), "http://flag");
    assert_eq!(resolve_api_url(&None, &Some(s("http://file"))), "http://file");
    assert_eq!(resolve_api_url(&None, &None), "https://api.archipelag.io");
    assert_eq!(resolve_nats_url(&Some(s("nats://flag")), &None), "nats://flag");
    assert_eq!(resolve_nats_url(&None, &Some(s("nats://file"))), "nats://file");
    assert_eq!(resolve_nats_url(&None, &None), "nats://sail.archipelag.io:4222");
}

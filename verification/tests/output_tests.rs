use archipelag::models::{Account, ApiKey, FloatBits, Host, Job, MarketRate, Usage, Workload};
use archipelag::output::{
    can_truncate, format_status, format_time, render_account, render_api_keys, render_host,
    render_hosts, render_job, render_jobs, render_market_rates, render_workload, render_workloads,
    status_style_of, truncate, PriceCells,
};
use archipelag::text::{Line, Style};

fn plain(lines: &[Line]) -> Vec<String> {
    lines.iter().map(|l| l.plain_text()).collect()
}

fn painted(lines: &[Line]) -> Vec<String> {
    lines.iter().map(|l| l.paint()).collect()
}

fn s(x: &str) -> String {
    x.to_string()
}

fn job(id: &str, status: &str, slug: Option<&str>, ms: Option<u64>, created: Option<&str>) -> Job {
    Job {
        id: s(id),
        workload_id: Some(7),
        workload_slug: slug.map(s),
        status: s(status),
        input: None,
        output: None,
        error: None,
        created_at: created.map(s),
        started_at: None,
        completed_at: None,
        duration_ms: ms,
        usage: None,
    }
}

#[test]
fn format_time_shows_dash_when_missing() {
    assert_eq!(format_time(&None), "-");
    assert_eq!(format_time(&Some(s("2024-01-01T00:00:00Z"))), "2024-01-01T00:00:00Z");
}

#[test]
fn status_styles_follow_the_palette() {
    for st in ["completed", "succeeded", "online", "approved"] {
        assert_eq!(status_style_of(st), Style::Green);
    }
    for st in ["failed", "error", "offline", "suspended"] {
        assert_eq!(status_style_of(st), Style::Red);
    }
    for st in ["running", "streaming", "assigned"] {
        assert_eq!(status_style_of(st), Style::Cyan);
    }
    for st in ["pending", "queued", "submitted"] {
        assert_eq!(status_style_of(st), Style::Yellow);
    }
    for st in ["cancelled", "timeout"] {
        assert_eq!(status_style_of(st), Style::Dimmed);
    }
    assert_eq!(status_style_of("weird"), Style::Plain);
    assert_eq!(status_style_of("Completed"), Style::Plain);
    assert_eq!(status_style_of("-"), Style::Plain);
}

#[test]
fn format_status_colours_when_forced() {
    colored::control::set_override(true);
    assert_eq!(format_status("completed"), "\x1b[32mcompleted\x1b[0m");
    assert_eq!(format_status("failed"), "\x1b[31mfailed\x1b[0m");
    assert_eq!(format_status("running"), "\x1b[36mrunning\x1b[0m");
    assert_eq!(format_status("queued"), "\x1b[33mqueued\x1b[0m");
    assert_eq!(format_status("timeout"), "\x1b[2mtimeout\x1b[0m");
    assert_eq!(format_status("other"), "other");
}

#[test]
fn format_status_plain_when_colours_off() {
    colored::control::set_override(false);
    assert_eq!(format_status("completed"), "completed");
    assert_eq!(format_status("other"), "other");
}

#[test]
fn truncate_keeps_short_texts() {
    assert_eq!(truncate("short", 28), "short");
    assert_eq!(truncate("exactly-ten", 11), "exactly-ten");
}

#[test]
fn truncate_cuts_long_texts_with_ellipsis() {
    assert_eq!(truncate("abcdefghijklmnop", 10), "abcdefghi…");
    assert_eq!(truncate("A very long workload name that goes on", 28), "A very long workload name t…");
}

#[test]
fn truncate_counts_bytes_not_characters() {
    // "é" takes two bytes: "héllo" is six bytes long.
    assert_eq!(truncate("héllo", 6), "héllo");
    assert_eq!(truncate("héllo", 5), "hél…");
    assert!(can_truncate("héllo", 4));
    // cutting after one byte of the two-byte "é" would panic
    assert!(!can_truncate("héllo", 3));
    assert!(can_truncate("héllo", 6));
}

#[test]
fn jobs_table_empty() {
    colored::control::set_override(false);
    let lines = render_jobs(&vec![]);
    assert_eq!(plain(&lines), vec![s("No jobs found.")]);
    assert_eq!(painted(&lines), vec![s("No jobs found.")]);
}

#[test]
fn jobs_table_rows() {
    colored::control::set_override(false);
    let jobs = vec![
        job("2f1c7a52-0000-4c1e-9f00-000000000001", "completed", Some("llm-chat"), Some(1250), Some("2024-05-01T10:00:00Z")),
        job("j2", "pending", None, None, None),
    ];
    let lines = render_jobs(&jobs);
    let expected = vec![
        format!("{:<38} {:<12} {:<16} {:<10} {}", "ID", "STATUS", "WORKLOAD", "DURATION", "CREATED"),
        format!("{:<38} {:<12} {:<16} {:<10} {}", "2f1c7a52-0000-4c1e-9f00-000000000001", "completed", "llm-chat", "1.2s", "2024-05-01T10:00:00Z"),
        format!("{:<38} {:<12} {:<16} {:<10} {}", "j2", "pending", "-", "-", "-"),
    ];
    assert_eq!(plain(&lines), expected);
    assert_eq!(painted(&lines), expected);
}

#[test]
fn jobs_table_coloured_status_keeps_columns_aligned() {
    colored::control::set_override(true);
    let jobs = vec![job("j1", "failed", Some("w"), Some(5), None)];
    let lines = render_jobs(&jobs);
    let row = lines[1].paint();
    let expected = format!(
        "{:<38} {:<12} {:<16} {:<10} {}",
        "j1",
        colored::Colorize::red(format!("{:<12}", "failed").as_str()).to_string(),
        "w",
        "5ms",
        "-"
    );
    assert_eq!(row, expected);
    let header = lines[0].paint();
    let expected_header = format!(
        "{:<38} {:<12} {:<16} {:<10} {}",
        colored::Colorize::bold("ID"),
        colored::Colorize::bold("STATUS"),
        colored::Colorize::bold("WORKLOAD"),
        colored::Colorize::bold("DURATION"),
        colored::Colorize::bold("CREATED")
    );
    assert_eq!(header, expected_header);
}

#[test]
fn job_panel_full() {
    let mut j = job("j1", "failed", Some("sdxl"), Some(65_000), Some("t0"));
    j.input = Some(s("{\"prompt\":\"hi\"}"));
    j.output = Some(s("done"));
    j.error = Some(s("boom"));
    j.started_at = Some(s("t1"));
    j.completed_at = Some(s("t2"));
    j.usage = Some(Usage {
        prompt_tokens: Some(3),
        completion_tokens: None,
        total_tokens: Some(10),
        credits_used: Some(FloatBits(0.5f64.to_bits())),
    });
    let lines = render_job(&j, &Some(s("0.50")));
    assert_eq!(
        plain(&lines),
        vec![
            s("Job"),
            s("  ID:       j1"),
            s("  Status:   failed"),
            s("  Workload: sdxl"),
            s("  Input:    {\"prompt\":\"hi\"}"),
            s("  Output:   done"),
            s("  Error:    boom"),
            s("  Duration: 1.1m"),
            s("  Created:  t0"),
            s("  Started:  t1"),
            s("  Completed: t2"),
            s("  Usage:"),
            s("    Prompt tokens:     3"),
            s("    Total tokens:      10"),
            s("    Credits used:      0.50"),
        ]
    );
}

#[test]
fn job_panel_minimal() {
    let j = job("j9", "queued", None, None, None);
    let lines = render_job(&j, &None);
    assert_eq!(
        plain(&lines),
        vec![s("Job"), s("  ID:       j9"), s("  Status:   queued"), s("  Duration: -"), s("  Created:  -")]
    );
}

#[test]
fn account_panel() {
    let a = Account { id: -42, email: s("me@example.com"), credits: FloatBits(12.5f64.to_bits()), created_at: Some(s("2024")) };
    let lines = render_account(&a, &format!("{:.2}", 12.5f64));
    assert_eq!(
        plain(&lines),
        vec![s("Account"), s("  Email:   me@example.com"), s("  ID:      -42"), s("  Credits: 12.50"), s("  Created: 2024")]
    );
    let b = Account { id: i64::MIN, email: s("x"), credits: FloatBits(0), created_at: None };
    let lines = render_account(&b, "0.00");
    assert_eq!(lines.len(), 4);
    assert_eq!(lines[2].plain_text(), format!("  ID:      {}", i64::MIN));
}

fn workload(slug: &str, name: &str, price: Option<f64>, enabled: Option<bool>) -> Workload {
    Workload {
        id: 3,
        name: s(name),
        slug: s(slug),
        description: Some(s("A model")),
        runtime_type: Some(s("container")),
        required_vram_mb: Some(8192),
        required_ram_mb: None,
        price_per_job: price.map(|p| FloatBits(p.to_bits())),
        is_enabled: enabled,
    }
}

#[test]
fn workloads_table() {
    colored::control::set_override(false);
    assert_eq!(plain(&render_workloads(&vec![], &vec![])), vec![s("No workloads available.")]);
    let ws = vec![
        workload("llm-chat", "Chat with a large language model of many names", Some(0.25), Some(true)),
        workload("sdxl", "SDXL", None, None),
    ];
    let prices = vec![Some(format!("{:.4}", 0.25f64)), None];
    let lines = render_workloads(&ws, &prices);
    assert_eq!(
        painted(&lines),
        vec![
            format!("{:<20} {:<30} {:<12} {:<10} {}", "SLUG", "NAME", "RUNTIME", "PRICE", "ENABLED"),
            format!("{:<20} {:<30} {:<12} {:<10} {}", "llm-chat", "Chat with a large language …", "container", "0.2500", "yes"),
            format!("{:<20} {:<30} {:<12} {:<10} {}", "sdxl", "SDXL", "container", "-", "no"),
        ]
    );
}

#[test]
fn workload_panel() {
    let w = workload("sdxl", "SDXL", Some(1.5), Some(false));
    let lines = render_workload(&w, &Some(format!("{}", 1.5f64)));
    assert_eq!(
        plain(&lines),
        vec![
            s("Workload"),
            s("  Name:      SDXL"),
            s("  Slug:      sdxl"),
            s("  ID:        3"),
            s("  Desc:      A model"),
            s("  Runtime:   container"),
            s("  VRAM:      8192 MB"),
            s("  Price:     1.5 credits/job"),
            s("  Enabled:   no"),
        ]
    );
}

fn host(id: &str, name: Option<&str>, status: Option<&str>, karma: Option<f64>) -> Host {
    Host {
        id: s(id),
        name: name.map(s),
        status: status.map(s),
        region: Some(s("eu-west")),
        capabilities: None,
        karma_score: karma.map(|k| FloatBits(k.to_bits())),
        last_heartbeat_at: None,
    }
}

#[test]
fn hosts_table() {
    colored::control::set_override(false);
    assert_eq!(plain(&render_hosts(&vec![], &vec![])), vec![s("No Islands online.")]);
    let hs = vec![host("h1", Some("a-very-long-island-name"), Some("online"), Some(97.25)), host("h2", None, None, None)];
    let karma = vec![Some(format!("{:.1}", 97.25f64)), None];
    let lines = render_hosts(&hs, &karma);
    assert_eq!(
        painted(&lines),
        vec![
            format!("{:<38} {:<16} {:<10} {:<10} {}", "ID", "NAME", "STATUS", "REGION", "KARMA"),
            format!("{:<38} {:<16} {:<10} {:<10} {}", "h1", "a-very-long-i…", "online", "eu-west", "97.2"),
            format!("{:<38} {:<16} {:<10} {:<10} {}", "h2", "-", "-", "eu-west", "-"),
        ]
    );
}

#[test]
fn hosts_table_coloured_status_keeps_columns_aligned() {
    colored::control::set_override(true);
    let hs = vec![host("h1", Some("Isle"), Some("online"), None)];
    let lines = render_hosts(&hs, &vec![None]);
    let row = lines[1].paint();
    let expected = format!(
        "{:<38} {:<16} {} {:<10} {}",
        "h1",
        "Isle",
        colored::Colorize::green(format!("{:<10}", "online").as_str()),
        "eu-west",
        "-"
    );
    assert_eq!(row, expected);
    assert_eq!(row.replace("\x1b[32m", "").replace("\x1b[0m", ""), format!("{:<38} {:<16} {:<10} {:<10} {}", "h1", "Isle", "online", "eu-west", "-"));
}

#[test]
fn host_panel() {
    let mut h = host("h1", Some("Isle"), Some("offline"), Some(3.0));
    h.last_heartbeat_at = Some(s("t9"));
    h.capabilities = Some(s("{\n  \"gpu\": true\n}"));
    let lines = render_host(&h, &Some(s("3.0")));
    assert_eq!(
        plain(&lines),
        vec![
            s("Island"),
            s("  ID:        h1"),
            s("  Name:      Isle"),
            s("  Status:    offline"),
            s("  Region:    eu-west"),
            s("  Karma:     3.0"),
            s("  Heartbeat: t9"),
            s("  Caps:      {\n  \"gpu\": true\n}"),
        ]
    );
}

#[test]
fn api_keys_table() {
    colored::control::set_override(false);
    assert_eq!(plain(&render_api_keys(&vec![])), vec![s("No API keys.")]);
    let keys = vec![ApiKey {
        id: s("k1"),
        name: s("my very long automation key"),
        prefix: Some(s("ak_12")),
        created_at: None,
        last_used_at: None,
    }];
    assert_eq!(
        painted(&render_api_keys(&keys)),
        vec![
            format!("{:<38} {:<20} {:<12} {}", "ID", "NAME", "PREFIX", "CREATED"),
            format!("{:<38} {:<20} {:<12} {}", "k1", "my very long auto…", "ak_12", "-"),
        ]
    );
}

#[test]
fn market_table() {
    colored::control::set_override(false);
    assert_eq!(plain(&render_market_rates(&vec![], &vec![])), vec![s("No market data available.")]);
    let rates = vec![MarketRate {
        workload_slug: s("llm-chat"),
        avg_price: Some(FloatBits(0.1f64.to_bits())),
        min_price: None,
        max_price: Some(FloatBits(0.3f64.to_bits())),
        num_hosts: None,
        timestamp: None,
    }];
    let cells = vec![PriceCells { avg: Some(s("0.1000")), min: None, max: Some(s("0.3000")) }];
    assert_eq!(
        painted(&render_market_rates(&rates, &cells)),
        vec![
            format!("{:<20} {:<12} {:<12} {:<12} {}", "WORKLOAD", "AVG", "MIN", "MAX", "HOSTS"),
            format!("{:<20} {:<12} {:<12} {:<12} {}", "llm-chat", "0.1000", "-", "0.3000", 0),
        ]
    );
}

fn strip(t: &str) -> String {
    let mut out = String::new();
    let mut chars = t.chars();
    while let Some(c) = chars.next() {
        if c == '\x1b' {
            for d in chars.by_ref() {
                if d == 'm' {
                    break;
                }
            }
        } else {
            out.push(c);
        }
    }
    out
}

#[test]
fn format_status_reads_as_the_status() {
    colored::control::set_override(true);
    for st in ["completed", "failed", "running", "queued", "timeout", "other", "-", "ünïcode"] {
        assert_eq!(strip(&format_status(st)), st);
    }
}

#[test]
fn truncate_twice_is_truncate_once() {
    for (t, max) in [("a-very-long-island-name", 14), ("short", 14), ("héllo wörld", 5), ("exactly14bytes", 14)] {
        let once = truncate(t, max);
        assert!(can_truncate(&once, max));
        assert_eq!(truncate(&once, max), once);
    }
}

#[test]
fn coloured_job_rows_strip_to_the_plain_rows() {
    colored::control::set_override(true);
    let jobs = vec![job("j1", "completed", None, None, None), job("j2", "weird", Some("w"), Some(61_000), Some("t"))];
    let lines = render_jobs(&jobs);
    for line in &lines {
        assert_eq!(strip(&line.paint()), line.plain_text());
    }
    assert_eq!(strip(&lines[1].paint()), format!("{:<38} {:<12} {:<16} {:<10} {}", "j1", "completed", "-", "-", "-"));
}

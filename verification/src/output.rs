//! Text rendering of API resources.
use vstd::prelude::*;

use crate::paint::paint;
use crate::text::{
    byte_prefix, cuts_at_boundary, no_escape, painted_as, prefix_bytes, str_eq, strip_styles, Style,
};

verus! {

/// An optional text as tables show it: `-` when it is absent.
pub open spec fn text_or_dash(t: Option<Seq<char>>) -> Seq<char> {
    match t {
        Some(s) => s,
        None => seq!['-'],
    }
}

/// A timestamp as shown in tables: the text itself, or `-` when absent.
pub fn format_time(t: &Option<String>) -> (res: String)
    ensures
        res@ == text_or_dash(t.deep_view()),
{
    match t {
        Some(s) => s.clone(),
        None => {
            let r = String::from_str("-");
            proof { reveal_strlit("-"); }
            r
        }
    }
}

/// The colour of a job or host status.
pub open spec fn status_style(s: Seq<char>) -> Style {
    if s == "completed"@ || s == "succeeded"@ || s == "online"@ || s == "approved"@ {
        Style::Green
    } else if s == "failed"@ || s == "error"@ || s == "offline"@ || s == "suspended"@ {
        Style::Red
    } else if s == "running"@ || s == "streaming"@ || s == "assigned"@ {
        Style::Cyan
    } else if s == "pending"@ || s == "queued"@ || s == "submitted"@ {
        Style::Yellow
    } else if s == "cancelled"@ || s == "timeout"@ {
        Style::Dimmed
    } else {
        Style::Plain
    }
}

/// The colour of a job or host status.
pub fn status_style_of(status: &str) -> (res: Style)
    ensures
        res == status_style(status@),
{
    if str_eq(status, "completed") || str_eq(status, "succeeded") || str_eq(status, "online")
        || str_eq(status, "approved") {
        Style::Green
    } else if str_eq(status, "failed") || str_eq(status, "error") || str_eq(status, "offline")
        || str_eq(status, "suspended") {
        Style::Red
    } else if str_eq(status, "running") || str_eq(status, "streaming") || str_eq(
        status,
        "assigned",
    ) {
        Style::Cyan
    } else if str_eq(status, "pending") || str_eq(status, "queued") || str_eq(
        status,
        "submitted",
    ) {
        Style::Yellow
    } else if str_eq(status, "cancelled") || str_eq(status, "timeout") {
        Style::Dimmed
    } else {
        Style::Plain
    }
}

/// A status in its colour: green for finished or healthy states, red for
/// failures, cyan for work in progress, yellow for waiting, dimmed for
/// cancelled or timed-out work, and unchanged otherwise.
pub fn format_status(status: &str) -> (res: String)
    ensures
        status_style(status@) == Style::Plain ==> res@ == status@,
        status_style(status@) != Style::Plain ==> painted_as(status_style(status@), status@, res@),
{
    paint(status, status_style_of(status))
}

/// Colouring a status never changes what it reads: with colours on or off,
/// the result of [`format_status`], its style sequences removed, is the
/// status itself, for every status that holds no escape character of its
/// own.
pub proof fn lemma_format_status_reads_as_status(status: Seq<char>, out: Seq<char>)
    requires
        status_style(status) == Style::Plain ==> out == status,
        status_style(status) != Style::Plain ==> painted_as(status_style(status), status, out),
        no_escape(status),
    ensures
        strip_styles(out) == status,
{
    crate::text::lemma_strip_painted(status_style(status), status, out);
}

/// The number of bytes of the UTF-8 encoding of a text.
pub open spec fn byte_len(s: Seq<char>) -> nat {
    vstd::utf8::encode_utf8(s).len()
}

/// `s` cut to at most `max` bytes: unchanged when it fits, else its first
/// `max - 1` bytes followed by an ellipsis.
pub open spec fn truncated(s: Seq<char>, max: nat) -> Seq<char> {
    if byte_len(s) <= max {
        s
    } else {
        byte_prefix(s, (max - 1) as nat) + seq!['…']
    }
}

/// Whether [`truncate`] can cut `s` at `max` without splitting a character
/// (the cut `&s[..max - 1]` panics otherwise).
pub open spec fn truncatable(s: Seq<char>, max: nat) -> bool {
    byte_len(s) <= max || (max >= 1 && cuts_at_boundary(s, (max - 1) as nat))
}

/// Whether `truncate(s, max)` may be called.
pub fn can_truncate(s: &str, max: usize) -> (res: bool)
    ensures
        res == truncatable(s@, max as nat),
{
    let len = s.as_bytes().len();
    len <= max || (max >= 1 && s.is_char_boundary(max - 1))
}

/// `s` cut to at most `max` bytes, an ellipsis marking the cut.
pub fn truncate(s: &str, max: usize) -> (res: String)
    requires
        truncatable(s@, max as nat),
    ensures
        res@ == truncated(s@, max as nat),
{
    let len = s.as_bytes().len();
    if len <= max {
        let r = s.to_string();
        proof { vstd::string::to_string_from_display_ensures_for_str(s, r); }
        r
    } else {
        let mut r = prefix_bytes(s, max - 1);
        proof { reveal_strlit("…"); }
        r.append("…");
        r
    }
}

} // verus!


verus! {

use crate::duration::{duration_text, format_duration};
use crate::models::Job;
use crate::text::{
    in_field, in_style, line_outcome, line_text, lines_view, pad_right, pad_text, plain, push_line,
    single, single_line, span, span_of, Line, SpanView,
};

/// A bold column heading, left-aligned in a field of `width`.
pub open spec fn heading(t: Seq<char>, width: nat) -> SpanView {
    in_style(pad_right(t, width), Style::Bold)
}

fn heading_span(t: &str, width: usize) -> (res: crate::text::Span)
    ensures
        res@ == heading(t@, width as nat),
{
    span_of(pad_text(t, width), Style::Bold, 0)
}

/// The column separator.
pub open spec fn sep() -> SpanView {
    plain(" "@)
}

fn sep_span() -> (res: crate::text::Span)
    ensures
        res@ == sep(),
{
    span(" ", Style::Plain, 0)
}

// --- Jobs ---

pub open spec fn jobs_header() -> Seq<SpanView> {
    seq![
        heading("ID"@, 38), sep(),
        heading("STATUS"@, 12), sep(),
        heading("WORKLOAD"@, 16), sep(),
        heading("DURATION"@, 10), sep(),
        in_style("CREATED"@, Style::Bold),
    ]
}

/// One row of the jobs table. The status is padded inside its colour, so
/// the columns after it stay aligned whether colours are on or off.
pub open spec fn job_row(j: Job) -> Seq<SpanView> {
    seq![
        in_field(j.id@, Style::Plain, 38), sep(),
        in_style(pad_right(j.status@, 12), status_style(j.status@)), sep(),
        in_field(text_or_dash(j.workload_slug.deep_view()), Style::Plain, 16), sep(),
        in_field(duration_text(j.duration_ms), Style::Plain, 10), sep(),
        plain(text_or_dash(j.created_at.deep_view())),
    ]
}

/// The jobs table: a dimmed notice when there are none, else a bold
/// heading and one row per job.
pub open spec fn jobs_lines(jobs: Seq<Job>) -> Seq<Seq<SpanView>> {
    if jobs.len() == 0 {
        seq![single("No jobs found."@, Style::Dimmed)]
    } else {
        seq![jobs_header()] + jobs.map_values(|j: Job| job_row(j))
    }
}

fn job_row_line(j: &Job) -> (res: Line)
    ensures
        res@ == job_row(*j),
{
    let l = Line {
        spans: vec![
            span(j.id.as_str(), Style::Plain, 38), sep_span(),
            span_of(pad_text(j.status.as_str(), 12), status_style_of(j.status.as_str()), 0), sep_span(),
            span_of(format_time(&j.workload_slug), Style::Plain, 16), sep_span(),
            span_of(format_duration(j.duration_ms), Style::Plain, 10), sep_span(),
            span_of(format_time(&j.created_at), Style::Plain, 0),
        ],
    };
    assert(l@ =~= job_row(*j));
    l
}

/// The text form of a list of jobs.
pub fn render_jobs(jobs: &Vec<Job>) -> (res: Vec<Line>)
    ensures
        lines_view(res@) == jobs_lines(jobs@),
{
    let mut lines: Vec<Line> = Vec::new();
    if jobs.len() == 0 {
        push_line(&mut lines, single_line("No jobs found.", Style::Dimmed));
        assert(lines_view(lines@) =~= jobs_lines(jobs@));
        return lines;
    }
    let header = Line {
        spans: vec![
            heading_span("ID", 38), sep_span(),
            heading_span("STATUS", 12), sep_span(),
            heading_span("WORKLOAD", 16), sep_span(),
            heading_span("DURATION", 10), sep_span(),
            span("CREATED", Style::Bold, 0),
        ],
    };
    assert(header@ =~= jobs_header());
    push_line(&mut lines, header);
    let n = jobs.len();
    let mut i: usize = 0;
    while i < n
        invariant
            n == jobs.len(),
            i <= n,
            lines_view(lines@) == seq![jobs_header()] + jobs@.take(i as int).map_values(|j: Job| job_row(j)),
        decreases n - i,
    {
        push_line(&mut lines, job_row_line(&jobs[i]));
        assert(jobs@.take(i + 1).map_values(|j: Job| job_row(j))
            =~= jobs@.take(i as int).map_values(|j: Job| job_row(j)).push(job_row(jobs@[i as int])));
        i = i + 1;
    }
    assert(jobs@.take(n as int) =~= jobs@);
    lines
}

} // verus!

verus! {

use crate::models::{Account, ApiKey, Host, MarketRate, Usage, Workload};
use crate::text::{
    decimal, i64_text, label_line, labelled, labelled_opt, number_opt, push_labelled_opt,
    push_number_opt, signed_decimal, u64_text,
};

// --- Account ---

/// The account panel; `credits` is the balance with two decimals.
pub open spec fn account_lines(a: Account, credits: Seq<char>) -> Seq<Seq<SpanView>> {
    seq![
        single("Account"@, Style::Bold),
        labelled("  Email:   "@, a.email@),
        labelled("  ID:      "@, signed_decimal(a.id as int)),
        labelled("  Credits: "@, credits),
    ] + labelled_opt("  Created: "@, a.created_at.deep_view())
}

/// The text form of the account; `credits` is `account.credits` printed with
/// two decimals.
pub fn render_account(account: &Account, credits: &str) -> (res: Vec<Line>)
    ensures
        lines_view(res@) == account_lines(*account, credits@),
{
    let mut lines: Vec<Line> = Vec::new();
    push_line(&mut lines, single_line("Account", Style::Bold));
    push_line(&mut lines, label_line("  Email:   ", account.email.clone()));
    push_line(&mut lines, label_line("  ID:      ", i64_text(account.id)));
    let c = credits.to_string();
    proof { vstd::string::to_string_from_display_ensures_for_str(credits, c); }
    push_line(&mut lines, label_line("  Credits: ", c));
    let ghost before = lines_view(lines@);
    push_labelled_opt(&mut lines, "  Created: ", &account.created_at);
    assert(lines_view(lines@) =~= account_lines(*account, credits@));
    lines
}

// --- One job ---

/// The usage block of a job; `credits` is the credits used, two decimals.
pub open spec fn usage_lines(u: Usage, credits: Option<Seq<char>>) -> Seq<Seq<SpanView>> {
    seq![single("  Usage:"@, Style::Plain)]
        + number_opt("    Prompt tokens:     "@, u.prompt_tokens)
        + number_opt("    Completion tokens: "@, u.completion_tokens)
        + number_opt("    Total tokens:      "@, u.total_tokens)
        + labelled_opt("    Credits used:      "@, credits)
}

/// The error line of a job, the error in red.
pub open spec fn error_opt(e: Option<Seq<char>>) -> Seq<Seq<SpanView>> {
    match e {
        Some(e) => seq![seq![plain("  Error:    "@), in_style(e, Style::Red)]],
        None => seq![],
    }
}

/// Whether a job reports the credits it used.
pub open spec fn reports_credits(j: Job) -> bool {
    match j.usage {
        Some(u) => u.credits_used is Some,
        None => false,
    }
}

/// The job panel; `credits` is the credits used with two decimals.
pub open spec fn job_lines(j: Job, credits: Option<Seq<char>>) -> Seq<Seq<SpanView>> {
    job_head_lines(j) + job_tail_lines(j, credits)
}

/// The first part of the job panel: identity, status, input and outcome.
pub open spec fn job_head_lines(j: Job) -> Seq<Seq<SpanView>> {
    seq![
        single("Job"@, Style::Bold),
        labelled("  ID:       "@, j.id@),
        seq![plain("  Status:   "@), in_style(j.status@, status_style(j.status@))],
    ]
        + labelled_opt("  Workload: "@, j.workload_slug.deep_view())
        + labelled_opt("  Input:    "@, j.input.deep_view())
        + labelled_opt("  Output:   "@, j.output.deep_view())
        + error_opt(j.error.deep_view())
}

/// The second part of the job panel: timing and usage.
pub open spec fn job_tail_lines(j: Job, credits: Option<Seq<char>>) -> Seq<Seq<SpanView>> {
    seq![
            labelled("  Duration: "@, duration_text(j.duration_ms)),
            labelled("  Created:  "@, text_or_dash(j.created_at.deep_view())),
    ]
        + labelled_opt("  Started:  "@, j.started_at.deep_view())
        + labelled_opt("  Completed: "@, j.completed_at.deep_view())
        + match j.usage {
            Some(u) => usage_lines(u, credits),
            None => seq![],
        }
}

fn push_usage(lines: &mut Vec<Line>, u: &Usage, credits: &Option<String>)
    ensures
        lines_view(final(lines)@) == lines_view(old(lines)@) + usage_lines(*u, credits.deep_view()),
{
    push_line(lines, single_line("  Usage:", Style::Plain));
    let ghost a = lines_view(lines@);
    push_number_opt(lines, "    Prompt tokens:     ", u.prompt_tokens);
    let ghost b = lines_view(lines@);
    push_number_opt(lines, "    Completion tokens: ", u.completion_tokens);
    let ghost c = lines_view(lines@);
    push_number_opt(lines, "    Total tokens:      ", u.total_tokens);
    let ghost d = lines_view(lines@);
    push_labelled_opt(lines, "    Credits used:      ", credits);
    assert(lines_view(lines@) =~= lines_view(old(lines)@) + usage_lines(*u, credits.deep_view()));
}

fn push_job_head(lines: &mut Vec<Line>, job: &Job)
    ensures
        lines_view(final(lines)@) == lines_view(old(lines)@) + job_head_lines(*job),
{
    push_line(lines, single_line("Job", Style::Bold));
    push_line(lines, label_line("  ID:       ", job.id.clone()));
    let status = Line {
        spans: vec![
            span("  Status:   ", Style::Plain, 0),
            span(job.status.as_str(), status_style_of(job.status.as_str()), 0),
        ],
    };
    assert(status@ =~= seq![plain("  Status:   "@), in_style(job.status@, status_style(job.status@))]);
    push_line(lines, status);
    let ghost s1 = lines_view(lines@);
    push_labelled_opt(lines, "  Workload: ", &job.workload_slug);
    push_labelled_opt(lines, "  Input:    ", &job.input);
    push_labelled_opt(lines, "  Output:   ", &job.output);
    let ghost s4 = lines_view(lines@);
    match &job.error {
        Some(e) => {
            let l = Line { spans: vec![span("  Error:    ", Style::Plain, 0), span(e.as_str(), Style::Red, 0)] };
            assert(l@ =~= seq![plain("  Error:    "@), in_style(e@, Style::Red)]);
            push_line(lines, l);
        },
        None => {},
    }
    assert(lines_view(lines@) =~= s4 + error_opt(job.error.deep_view()));
    assert(lines_view(lines@) =~= lines_view(old(lines)@) + job_head_lines(*job));
}

fn push_job_tail(lines: &mut Vec<Line>, job: &Job, credits: &Option<String>)
    ensures
        lines_view(final(lines)@) == lines_view(old(lines)@) + job_tail_lines(*job, credits.deep_view()),
{
    push_line(lines, label_line("  Duration: ", format_duration(job.duration_ms)));
    push_line(lines, label_line("  Created:  ", format_time(&job.created_at)));
    push_labelled_opt(lines, "  Started:  ", &job.started_at);
    push_labelled_opt(lines, "  Completed: ", &job.completed_at);
    let ghost s8 = lines_view(lines@);
    match &job.usage {
        Some(u) => push_usage(lines, u, credits),
        None => {},
    }
    assert(lines_view(lines@) =~= lines_view(old(lines)@) + job_tail_lines(*job, credits.deep_view()));
}

/// The text form of one job; `credits` is the credits it used printed with
/// two decimals, present exactly when the job reports them.
pub fn render_job(job: &Job, credits: &Option<String>) -> (res: Vec<Line>)
    requires
        credits is Some <==> reports_credits(*job),
    ensures
        lines_view(res@) == job_lines(*job, credits.deep_view()),
{
    let mut lines: Vec<Line> = Vec::new();
    push_job_head(&mut lines, job);
    push_job_tail(&mut lines, job, credits);
    assert(lines_view(lines@) =~= job_lines(*job, credits.deep_view()));
    lines
}

} // verus!

verus! {

/// `yes` in green or `no` in red.
pub open spec fn yes_no(b: bool) -> SpanView {
    if b { in_style("yes"@, Style::Green) } else { in_style("no"@, Style::Red) }
}

fn yes_no_span(b: bool) -> (res: crate::text::Span)
    ensures
        res@ == yes_no(b),
{
    if b { span("yes", Style::Green, 0) } else { span("no", Style::Red, 0) }
}

/// Whether a workload is enabled; unknown counts as not.
pub open spec fn enabled(w: Workload) -> bool {
    match w.is_enabled {
        Some(b) => b,
        None => false,
    }
}

fn is_enabled(w: &Workload) -> (res: bool)
    ensures
        res == enabled(*w),
{
    match w.is_enabled {
        Some(b) => b,
        None => false,
    }
}

/// Whether each price text is present exactly when the price is.
pub open spec fn prices_match(ws: Seq<Workload>, prices: Seq<Option<Seq<char>>>) -> bool {
    &&& prices.len() == ws.len()
    &&& forall|i: int| 0 <= i < ws.len() ==> (#[trigger] prices[i] is Some <==> ws[i].price_per_job is Some)
}

/// With colours on, a row of the jobs table reads, its style sequences
/// removed, exactly as the row with colours off: the status is padded before
/// it is coloured, so the columns stay aligned. This holds wherever the
/// job's own texts hold no escape character.
pub proof fn lemma_job_row_aligned(j: Job, coloured: Seq<bool>)
    requires
        coloured.len() == job_row(j).len(),
        no_escape(j.id@),
        no_escape(j.status@),
        j.workload_slug matches Some(w) ==> no_escape(w@),
        j.created_at matches Some(c) ==> no_escape(c@),
    ensures
        strip_styles(line_outcome(job_row(j), coloured)) == line_text(job_row(j)),
{
    let row = job_row(j);
    crate::text::lemma_pad_no_escape(j.status@, 12);
    crate::duration::lemma_duration_no_escape(j.duration_ms);
    assert(no_escape(" "@)) by {
        reveal_strlit(" ");
    }
    assert(no_escape(seq!['-']));
    assert(no_escape(text_or_dash(j.workload_slug.deep_view())));
    assert(no_escape(text_or_dash(j.created_at.deep_view())));
    assert(crate::text::aligns_in_colour(row)) by {
        assert forall|i: int| 0 <= i < row.len() implies no_escape(#[trigger] row[i].text) && (
        row[i].style == Style::Plain || row[i].width == 0) by {
            if i == 0 {
            } else if i == 2 {
            } else if i == 4 {
            } else if i == 6 {
            } else if i == 8 {
            }
        }
    }
    crate::text::lemma_strip_line(row, coloured);
}

// --- Workloads ---

pub open spec fn workloads_header() -> Seq<SpanView> {
    seq![
        heading("SLUG"@, 20), sep(),
        heading("NAME"@, 30), sep(),
        heading("RUNTIME"@, 12), sep(),
        heading("PRICE"@, 10), sep(),
        in_style("ENABLED"@, Style::Bold),
    ]
}

/// One row of the workloads table; `price` is the price with four decimals.
pub open spec fn workload_row(w: Workload, price: Option<Seq<char>>) -> Seq<SpanView> {
    seq![
        in_field(w.slug@, Style::Plain, 20), sep(),
        in_field(truncated(w.name@, 28), Style::Plain, 30), sep(),
        in_field(text_or_dash(w.runtime_type.deep_view()), Style::Plain, 12), sep(),
        in_field(text_or_dash(price), Style::Plain, 10), sep(),
        yes_no(enabled(w)),
    ]
}

/// The workloads table: a dimmed notice when there are none, else a bold
/// heading and one row per workload.
pub open spec fn workloads_lines(ws: Seq<Workload>, prices: Seq<Option<Seq<char>>>) -> Seq<Seq<SpanView>> {
    if ws.len() == 0 {
        seq![single("No workloads available."@, Style::Dimmed)]
    } else {
        seq![workloads_header()] + Seq::new(ws.len(), |i: int| workload_row(ws[i], prices[i]))
    }
}

fn workload_row_line(w: &Workload, price: &Option<String>) -> (res: Line)
    requires
        truncatable(w.name@, 28),
    ensures
        res@ == workload_row(*w, price.deep_view()),
{
    let l = Line {
        spans: vec![
            span(w.slug.as_str(), Style::Plain, 20), sep_span(),
            span_of(truncate(w.name.as_str(), 28), Style::Plain, 30), sep_span(),
            span_of(format_time(&w.runtime_type), Style::Plain, 12), sep_span(),
            span_of(format_time(price), Style::Plain, 10), sep_span(),
            yes_no_span(is_enabled(w)),
        ],
    };
    assert(l@ =~= workload_row(*w, price.deep_view()));
    l
}

/// The text form of a list of workloads; `prices[i]` is the price of
/// `workloads[i]` printed with four decimals, present exactly when it is.
pub fn render_workloads(workloads: &Vec<Workload>, prices: &Vec<Option<String>>) -> (res: Vec<Line>)
    requires
        prices_match(workloads@, prices.deep_view()),
        forall|i: int| 0 <= i < workloads.len() ==> truncatable(#[trigger] workloads@[i].name@, 28),
    ensures
        lines_view(res@) == workloads_lines(workloads@, prices.deep_view()),
{
    let mut lines: Vec<Line> = Vec::new();
    if workloads.len() == 0 {
        push_line(&mut lines, single_line("No workloads available.", Style::Dimmed));
        assert(lines_view(lines@) =~= workloads_lines(workloads@, prices.deep_view()));
        return lines;
    }
    let header = Line {
        spans: vec![
            heading_span("SLUG", 20), sep_span(),
            heading_span("NAME", 30), sep_span(),
            heading_span("RUNTIME", 12), sep_span(),
            heading_span("PRICE", 10), sep_span(),
            span("ENABLED", Style::Bold, 0),
        ],
    };
    assert(header@ =~= workloads_header());
    push_line(&mut lines, header);
    let ghost ws = workloads@;
    let ghost ps = prices.deep_view();
    let n = workloads.len();
    let mut i: usize = 0;
    while i < n
        invariant
            n == workloads.len(),
            ws == workloads@,
            ps == prices.deep_view(),
            prices_match(ws, ps),
            forall|k: int| 0 <= k < n ==> truncatable(#[trigger] ws[k].name@, 28),
            i <= n,
            lines_view(lines@) == seq![workloads_header()] + Seq::new(i as nat, |k: int| workload_row(ws[k], ps[k])),
        decreases n - i,
    {
        assert(truncatable(ws[i as int].name@, 28));
        let row = workload_row_line(&workloads[i], &prices[i]);
        push_line(&mut lines, row);
        assert(Seq::new((i + 1) as nat, |k: int| workload_row(ws[k], ps[k]))
            =~= Seq::new(i as nat, |k: int| workload_row(ws[k], ps[k])).push(workload_row(ws[i as int], ps[i as int])));
        i = i + 1;
    }
    assert(lines_view(lines@) =~= workloads_lines(workloads@, prices.deep_view()));
    lines
}

// --- One workload ---

/// A labelled line with a size in megabytes, when present.
pub open spec fn megabytes_opt(label: Seq<char>, v: Option<u64>) -> Seq<Seq<SpanView>> {
    match v {
        Some(v) => seq![labelled(label, decimal(v as nat) + " MB"@)],
        None => seq![],
    }
}

fn push_megabytes_opt(lines: &mut Vec<Line>, label: &str, v: Option<u64>)
    ensures
        lines_view(final(lines)@) == lines_view(old(lines)@) + megabytes_opt(label@, v),
{
    match v {
        Some(v) => {
            let mut t = u64_text(v);
            t.append(" MB");
            push_line(lines, label_line(label, t));
        },
        None => {},
    }
    assert(lines_view(lines@) =~= lines_view(old(lines)@) + megabytes_opt(label@, v));
}

/// The workload panel; `price` is the price as `{}` prints it.
pub open spec fn workload_lines(w: Workload, price: Option<Seq<char>>) -> Seq<Seq<SpanView>> {
    seq![
        single("Workload"@, Style::Bold),
        labelled("  Name:      "@, w.name@),
        labelled("  Slug:      "@, w.slug@),
        labelled("  ID:        "@, signed_decimal(w.id as int)),
    ]
        + labelled_opt("  Desc:      "@, w.description.deep_view())
        + labelled_opt("  Runtime:   "@, w.runtime_type.deep_view())
        + megabytes_opt("  VRAM:      "@, w.required_vram_mb)
        + megabytes_opt("  RAM:       "@, w.required_ram_mb)
        + match price {
            Some(p) => seq![labelled("  Price:     "@, p + " credits/job"@)],
            None => seq![],
        }
        + seq![seq![plain("  Enabled:   "@), yes_no(enabled(w))]]
}

/// The text form of one workload; `price` is its price as `{}` prints it,
/// present exactly when the price is.
pub fn render_workload(w: &Workload, price: &Option<String>) -> (res: Vec<Line>)
    requires
        price is Some <==> w.price_per_job is Some,
    ensures
        lines_view(res@) == workload_lines(*w, price.deep_view()),
{
    let mut lines: Vec<Line> = Vec::new();
    push_line(&mut lines, single_line("Workload", Style::Bold));
    push_line(&mut lines, label_line("  Name:      ", w.name.clone()));
    push_line(&mut lines, label_line("  Slug:      ", w.slug.clone()));
    push_line(&mut lines, label_line("  ID:        ", i64_text(w.id)));
    let ghost s0 = lines_view(lines@);
    push_labelled_opt(&mut lines, "  Desc:      ", &w.description);
    push_labelled_opt(&mut lines, "  Runtime:   ", &w.runtime_type);
    push_megabytes_opt(&mut lines, "  VRAM:      ", w.required_vram_mb);
    push_megabytes_opt(&mut lines, "  RAM:       ", w.required_ram_mb);
    let ghost s1 = lines_view(lines@);
    match price {
        Some(p) => {
            let mut t = p.clone();
            t.append(" credits/job");
            push_line(&mut lines, label_line("  Price:     ", t));
        },
        None => {},
    }
    let ghost s2 = lines_view(lines@);
    let l = Line { spans: vec![span("  Enabled:   ", Style::Plain, 0), yes_no_span(is_enabled(w))] };
    assert(l@ =~= seq![plain("  Enabled:   "@), yes_no(enabled(*w))]);
    push_line(&mut lines, l);
    assert(lines_view(lines@) =~= workload_lines(*w, price.deep_view()));
    lines
}

} // verus!

verus! {

// --- Hosts ---

pub open spec fn hosts_header() -> Seq<SpanView> {
    seq![
        heading("ID"@, 38), sep(),
        heading("NAME"@, 16), sep(),
        heading("STATUS"@, 10), sep(),
        heading("REGION"@, 10), sep(),
        in_style("KARMA"@, Style::Bold),
    ]
}

/// One row of the hosts table; `karma` is the karma with one decimal. The
/// status is padded inside its colour, so the columns stay aligned.
pub open spec fn host_row(h: Host, karma: Option<Seq<char>>) -> Seq<SpanView> {
    let status = text_or_dash(h.status.deep_view());
    seq![
        in_field(h.id@, Style::Plain, 38), sep(),
        in_field(truncated(text_or_dash(h.name.deep_view()), 14), Style::Plain, 16), sep(),
        in_style(pad_right(status, 10), status_style(status)), sep(),
        in_field(text_or_dash(h.region.deep_view()), Style::Plain, 10), sep(),
        plain(text_or_dash(karma)),
    ]
}

/// The hosts table: a dimmed notice when there are none, else a bold
/// heading and one row per host.
pub open spec fn hosts_lines(hs: Seq<Host>, karma: Seq<Option<Seq<char>>>) -> Seq<Seq<SpanView>> {
    if hs.len() == 0 {
        seq![single("No Islands online."@, Style::Dimmed)]
    } else {
        seq![hosts_header()] + Seq::new(hs.len(), |i: int| host_row(hs[i], karma[i]))
    }
}

/// Whether each karma text is present exactly when the karma is.
pub open spec fn karma_match(hs: Seq<Host>, karma: Seq<Option<Seq<char>>>) -> bool {
    &&& karma.len() == hs.len()
    &&& forall|i: int| 0 <= i < hs.len() ==> (#[trigger] karma[i] is Some <==> hs[i].karma_score is Some)
}

fn host_row_line(h: &Host, karma: &Option<String>) -> (res: Line)
    requires
        truncatable(text_or_dash(h.name.deep_view()), 14),
    ensures
        res@ == host_row(*h, karma.deep_view()),
{
    let name = format_time(&h.name);
    let status = format_time(&h.status);
    let style = status_style_of(status.as_str());
    let l = Line {
        spans: vec![
            span(h.id.as_str(), Style::Plain, 38), sep_span(),
            span_of(truncate(name.as_str(), 14), Style::Plain, 16), sep_span(),
            span_of(pad_text(status.as_str(), 10), style, 0), sep_span(),
            span_of(format_time(&h.region), Style::Plain, 10), sep_span(),
            span_of(format_time(karma), Style::Plain, 0),
        ],
    };
    assert(l@ =~= host_row(*h, karma.deep_view()));
    l
}

/// The text form of a list of hosts; `karma[i]` is the karma score of
/// `hosts[i]` printed with one decimal, present exactly when it is.
pub fn render_hosts(hosts: &Vec<Host>, karma: &Vec<Option<String>>) -> (res: Vec<Line>)
    requires
        karma_match(hosts@, karma.deep_view()),
        forall|i: int| 0 <= i < hosts.len()
            ==> truncatable(text_or_dash(#[trigger] hosts@[i].name.deep_view()), 14),
    ensures
        lines_view(res@) == hosts_lines(hosts@, karma.deep_view()),
{
    let mut lines: Vec<Line> = Vec::new();
    if hosts.len() == 0 {
        push_line(&mut lines, single_line("No Islands online.", Style::Dimmed));
        assert(lines_view(lines@) =~= hosts_lines(hosts@, karma.deep_view()));
        return lines;
    }
    let header = Line {
        spans: vec![
            heading_span("ID", 38), sep_span(),
            heading_span("NAME", 16), sep_span(),
            heading_span("STATUS", 10), sep_span(),
            heading_span("REGION", 10), sep_span(),
            span("KARMA", Style::Bold, 0),
        ],
    };
    assert(header@ =~= hosts_header());
    push_line(&mut lines, header);
    let ghost hs = hosts@;
    let ghost ks = karma.deep_view();
    let n = hosts.len();
    let mut i: usize = 0;
    while i < n
        invariant
            n == hosts.len(),
            hs == hosts@,
            ks == karma.deep_view(),
            karma_match(hs, ks),
            forall|k: int| 0 <= k < n ==> truncatable(text_or_dash(#[trigger] hs[k].name.deep_view()), 14),
            i <= n,
            lines_view(lines@) == seq![hosts_header()] + Seq::new(i as nat, |k: int| host_row(hs[k], ks[k])),
        decreases n - i,
    {
        assert(truncatable(text_or_dash(hs[i as int].name.deep_view()), 14));
        let row = host_row_line(&hosts[i], &karma[i]);
        push_line(&mut lines, row);
        assert(Seq::new((i + 1) as nat, |k: int| host_row(hs[k], ks[k]))
            =~= Seq::new(i as nat, |k: int| host_row(hs[k], ks[k])).push(host_row(hs[i as int], ks[i as int])));
        i = i + 1;
    }
    assert(lines_view(lines@) =~= hosts_lines(hosts@, karma.deep_view()));
    lines
}

/// The same holds of a row of the hosts table: with colours on, its style
/// sequences removed, it reads as with colours off, wherever the host's own
/// texts hold no escape character.
pub proof fn lemma_host_row_aligned(h: Host, karma: Option<Seq<char>>, coloured: Seq<bool>)
    requires
        coloured.len() == host_row(h, karma).len(),
        truncatable(text_or_dash(h.name.deep_view()), 14),
        no_escape(h.id@),
        h.name matches Some(t) ==> no_escape(t@),
        h.status matches Some(t) ==> no_escape(t@),
        h.region matches Some(t) ==> no_escape(t@),
        karma matches Some(t) ==> no_escape(t),
    ensures
        strip_styles(line_outcome(host_row(h, karma), coloured)) == line_text(host_row(h, karma)),
{
    let row = host_row(h, karma);
    let name = text_or_dash(h.name.deep_view());
    let status = text_or_dash(h.status.deep_view());
    assert(no_escape(" "@)) by {
        reveal_strlit(" ");
    }
    assert(no_escape(seq!['-']));
    assert(no_escape(name));
    assert(no_escape(status));
    crate::text::lemma_pad_no_escape(status, 10);
    assert(no_escape(truncated(name, 14))) by {
        lemma_truncated_keeps_prefix(name, 14);
        let t = truncated(name, 14);
        if byte_len(name) > 14 {
            let kept = t.drop_last();
            assert forall|i: int| 0 <= i < t.len() implies t[i] != '\x1b' by {
                if i < kept.len() {
                    assert(t[i] == kept[i]);
                    assert(kept[i] == name[i]);
                }
            }
        }
    }
    assert(no_escape(text_or_dash(h.region.deep_view())));
    assert(no_escape(text_or_dash(karma)));
    assert(crate::text::aligns_in_colour(row)) by {
        assert forall|i: int| 0 <= i < row.len() implies no_escape(#[trigger] row[i].text) && (
        row[i].style == Style::Plain || row[i].width == 0) by {
            if i == 0 {
            } else if i == 2 {
            } else if i == 4 {
            } else if i == 6 {
            } else if i == 8 {
            }
        }
    }
    crate::text::lemma_strip_line(row, coloured);
}

// --- One host ---

/// The status line of a host, the status in its colour, when present.
pub open spec fn status_opt(s: Option<Seq<char>>) -> Seq<Seq<SpanView>> {
    match s {
        Some(s) => seq![seq![plain("  Status:    "@), in_style(s, status_style(s))]],
        None => seq![],
    }
}

/// The host panel; `karma` is the karma score with one decimal.
pub open spec fn host_lines(h: Host, karma: Option<Seq<char>>) -> Seq<Seq<SpanView>> {
    seq![single("Island"@, Style::Bold), labelled("  ID:        "@, h.id@)]
        + labelled_opt("  Name:      "@, h.name.deep_view())
        + status_opt(h.status.deep_view())
        + labelled_opt("  Region:    "@, h.region.deep_view())
        + labelled_opt("  Karma:     "@, karma)
        + labelled_opt("  Heartbeat: "@, h.last_heartbeat_at.deep_view())
        + labelled_opt("  Caps:      "@, h.capabilities.deep_view())
}

/// The text form of one host; `karma` is its karma score printed with one
/// decimal, present exactly when it is.
pub fn render_host(h: &Host, karma: &Option<String>) -> (res: Vec<Line>)
    requires
        karma is Some <==> h.karma_score is Some,
    ensures
        lines_view(res@) == host_lines(*h, karma.deep_view()),
{
    let mut lines: Vec<Line> = Vec::new();
    push_line(&mut lines, single_line("Island", Style::Bold));
    push_line(&mut lines, label_line("  ID:        ", h.id.clone()));
    push_labelled_opt(&mut lines, "  Name:      ", &h.name);
    let ghost s1 = lines_view(lines@);
    match &h.status {
        Some(s) => {
            let l = Line {
                spans: vec![
                    span("  Status:    ", Style::Plain, 0),
                    span(s.as_str(), status_style_of(s.as_str()), 0),
                ],
            };
            assert(l@ =~= seq![plain("  Status:    "@), in_style(s@, status_style(s@))]);
            push_line(&mut lines, l);
        },
        None => {},
    }
    assert(lines_view(lines@) =~= s1 + status_opt(h.status.deep_view()));
    let ghost s2 = lines_view(lines@);
    push_labelled_opt(&mut lines, "  Region:    ", &h.region);
    push_labelled_opt(&mut lines, "  Karma:     ", karma);
    push_labelled_opt(&mut lines, "  Heartbeat: ", &h.last_heartbeat_at);
    push_labelled_opt(&mut lines, "  Caps:      ", &h.capabilities);
    assert(lines_view(lines@) =~= host_lines(*h, karma.deep_view()));
    lines
}

// --- API keys ---

pub open spec fn api_keys_header() -> Seq<SpanView> {
    seq![
        heading("ID"@, 38), sep(),
        heading("NAME"@, 20), sep(),
        heading("PREFIX"@, 12), sep(),
        in_style("CREATED"@, Style::Bold),
    ]
}

/// One row of the API keys table.
pub open spec fn api_key_row(k: ApiKey) -> Seq<SpanView> {
    seq![
        in_field(k.id@, Style::Plain, 38), sep(),
        in_field(truncated(k.name@, 18), Style::Plain, 20), sep(),
        in_field(text_or_dash(k.prefix.deep_view()), Style::Plain, 12), sep(),
        plain(text_or_dash(k.created_at.deep_view())),
    ]
}

/// The API keys table: a dimmed notice when there are none, else a bold
/// heading and one row per key.
pub open spec fn api_keys_lines(keys: Seq<ApiKey>) -> Seq<Seq<SpanView>> {
    if keys.len() == 0 {
        seq![single("No API keys."@, Style::Dimmed)]
    } else {
        seq![api_keys_header()] + keys.map_values(|k: ApiKey| api_key_row(k))
    }
}

fn api_key_row_line(k: &ApiKey) -> (res: Line)
    requires
        truncatable(k.name@, 18),
    ensures
        res@ == api_key_row(*k),
{
    let l = Line {
        spans: vec![
            span(k.id.as_str(), Style::Plain, 38), sep_span(),
            span_of(truncate(k.name.as_str(), 18), Style::Plain, 20), sep_span(),
            span_of(format_time(&k.prefix), Style::Plain, 12), sep_span(),
            span_of(format_time(&k.created_at), Style::Plain, 0),
        ],
    };
    assert(l@ =~= api_key_row(*k));
    l
}

/// The text form of a list of API keys.
pub fn render_api_keys(keys: &Vec<ApiKey>) -> (res: Vec<Line>)
    requires
        forall|i: int| 0 <= i < keys.len() ==> truncatable(#[trigger] keys@[i].name@, 18),
    ensures
        lines_view(res@) == api_keys_lines(keys@),
{
    let mut lines: Vec<Line> = Vec::new();
    if keys.len() == 0 {
        push_line(&mut lines, single_line("No API keys.", Style::Dimmed));
        assert(lines_view(lines@) =~= api_keys_lines(keys@));
        return lines;
    }
    let header = Line {
        spans: vec![
            heading_span("ID", 38), sep_span(),
            heading_span("NAME", 20), sep_span(),
            heading_span("PREFIX", 12), sep_span(),
            span("CREATED", Style::Bold, 0),
        ],
    };
    assert(header@ =~= api_keys_header());
    push_line(&mut lines, header);
    let n = keys.len();
    let mut i: usize = 0;
    while i < n
        invariant
            n == keys.len(),
            forall|k: int| 0 <= k < n ==> truncatable(#[trigger] keys@[k].name@, 18),
            i <= n,
            lines_view(lines@) == seq![api_keys_header()] + keys@.take(i as int).map_values(|k: ApiKey| api_key_row(k)),
        decreases n - i,
    {
        assert(truncatable(keys@[i as int].name@, 18));
        push_line(&mut lines, api_key_row_line(&keys[i]));
        assert(keys@.take(i + 1).map_values(|k: ApiKey| api_key_row(k))
            =~= keys@.take(i as int).map_values(|k: ApiKey| api_key_row(k)).push(api_key_row(keys@[i as int])));
        i = i + 1;
    }
    assert(keys@.take(n as int) =~= keys@);
    lines
}

// --- Market rates ---

/// The three prices of a market rate, each printed with four decimals.
pub struct PriceCells {
    pub avg: Option<String>,
    pub min: Option<String>,
    pub max: Option<String>,
}

/// Whether each price text is present exactly when the price is.
pub open spec fn cells_match(r: MarketRate, c: PriceCells) -> bool {
    &&& (c.avg is Some <==> r.avg_price is Some)
    &&& (c.min is Some <==> r.min_price is Some)
    &&& (c.max is Some <==> r.max_price is Some)
}

pub open spec fn market_header() -> Seq<SpanView> {
    seq![
        heading("WORKLOAD"@, 20), sep(),
        heading("AVG"@, 12), sep(),
        heading("MIN"@, 12), sep(),
        heading("MAX"@, 12), sep(),
        in_style("HOSTS"@, Style::Bold),
    ]
}

/// The number of hosts of a rate; unknown counts as zero.
pub open spec fn host_count(r: MarketRate) -> nat {
    match r.num_hosts {
        Some(n) => n as nat,
        None => 0,
    }
}

/// One row of the market table.
pub open spec fn market_row(r: MarketRate, c: PriceCells) -> Seq<SpanView> {
    seq![
        in_field(r.workload_slug@, Style::Plain, 20), sep(),
        in_field(text_or_dash(c.avg.deep_view()), Style::Plain, 12), sep(),
        in_field(text_or_dash(c.min.deep_view()), Style::Plain, 12), sep(),
        in_field(text_or_dash(c.max.deep_view()), Style::Plain, 12), sep(),
        plain(decimal(host_count(r))),
    ]
}

/// The market table: a dimmed notice when there is no data, else a bold
/// heading and one row per rate.
pub open spec fn market_lines(rates: Seq<MarketRate>, cells: Seq<PriceCells>) -> Seq<Seq<SpanView>> {
    if rates.len() == 0 {
        seq![single("No market data available."@, Style::Dimmed)]
    } else {
        seq![market_header()] + Seq::new(rates.len(), |i: int| market_row(rates[i], cells[i]))
    }
}

fn market_row_line(r: &MarketRate, c: &PriceCells) -> (res: Line)
    ensures
        res@ == market_row(*r, *c),
{
    let hosts = match r.num_hosts {
        Some(n) => n,
        None => 0,
    };
    let l = Line {
        spans: vec![
            span(r.workload_slug.as_str(), Style::Plain, 20), sep_span(),
            span_of(format_time(&c.avg), Style::Plain, 12), sep_span(),
            span_of(format_time(&c.min), Style::Plain, 12), sep_span(),
            span_of(format_time(&c.max), Style::Plain, 12), sep_span(),
            span_of(u64_text(hosts), Style::Plain, 0),
        ],
    };
    assert(l@ =~= market_row(*r, *c));
    l
}

/// The text form of market rates; `cells[i]` holds the prices of `rates[i]`
/// printed with four decimals, each present exactly when the price is.
pub fn render_market_rates(rates: &Vec<MarketRate>, cells: &Vec<PriceCells>) -> (res: Vec<Line>)
    requires
        cells.len() == rates.len(),
        forall|i: int| 0 <= i < rates.len() ==> cells_match(#[trigger] rates@[i], cells@[i]),
    ensures
        lines_view(res@) == market_lines(rates@, cells@),
{
    let mut lines: Vec<Line> = Vec::new();
    if rates.len() == 0 {
        push_line(&mut lines, single_line("No market data available.", Style::Dimmed));
        assert(lines_view(lines@) =~= market_lines(rates@, cells@));
        return lines;
    }
    let header = Line {
        spans: vec![
            heading_span("WORKLOAD", 20), sep_span(),
            heading_span("AVG", 12), sep_span(),
            heading_span("MIN", 12), sep_span(),
            heading_span("MAX", 12), sep_span(),
            span("HOSTS", Style::Bold, 0),
        ],
    };
    assert(header@ =~= market_header());
    push_line(&mut lines, header);
    let n = rates.len();
    let mut i: usize = 0;
    while i < n
        invariant
            n == rates.len(),
            n == cells.len(),
            i <= n,
            lines_view(lines@) == seq![market_header()] + Seq::new(i as nat, |k: int| market_row(rates@[k], cells@[k])),
        decreases n - i,
    {
        push_line(&mut lines, market_row_line(&rates[i], &cells[i]));
        assert(Seq::new((i + 1) as nat, |k: int| market_row(rates@[k], cells@[k]))
            =~= Seq::new(i as nat, |k: int| market_row(rates@[k], cells@[k])).push(market_row(rates@[i as int], cells@[i as int])));
        i = i + 1;
    }
    assert(lines_view(lines@) =~= market_lines(rates@, cells@));
    lines
}

} // verus!

verus! {

/// A truncated text is the text itself when it fits in `max` bytes; else a
/// prefix of it that takes exactly `max - 1` bytes, then an ellipsis.
pub proof fn lemma_truncated_keeps_prefix(s: Seq<char>, max: nat)
    requires
        truncatable(s, max),
    ensures
        byte_len(s) <= max ==> truncated(s, max) == s,
        byte_len(s) > max ==> {
            let kept = truncated(s, max).drop_last();
            &&& truncated(s, max).last() == '…'
            &&& byte_len(kept) == max - 1
            &&& kept.len() <= s.len()
            &&& s.take(kept.len() as int) == kept
        },
{
    if byte_len(s) > max {
        crate::text::lemma_byte_prefix(s, (max - 1) as nat);
        assert(truncated(s, max).drop_last() =~= byte_prefix(s, (max - 1) as nat));
    }
}

/// Truncating twice at the same width changes nothing more: a truncated
/// text can be cut again at that width, and comes out unchanged.
pub proof fn lemma_truncate_idempotent(s: Seq<char>, max: nat)
    requires
        truncatable(s, max),
    ensures
        truncatable(truncated(s, max), max),
        truncated(truncated(s, max), max) == truncated(s, max),
{
    if byte_len(s) > max {
        let kept = byte_prefix(s, (max - 1) as nat);
        let t = truncated(s, max);
        lemma_truncated_keeps_prefix(s, max);
        assert(t.drop_last() =~= kept);
        assert(t =~= kept + seq!['…']);
        crate::text::lemma_encode_concat(kept, seq!['…']);
        crate::text::lemma_cut_at_join(kept, seq!['…']);
        assert(('…' as u32) == 0x2026u32);
        assert(seq!['…'].drop_first() =~= Seq::<char>::empty());
        assert(vstd::utf8::encode_scalar(0x2026u32).len() == 3);
        assert(seq!['…'][0] == '…');
        assert(vstd::utf8::encode_utf8(Seq::<char>::empty()) =~= Seq::<u8>::empty());
        assert(byte_len(seq!['…']) == 3);
        assert(byte_len(t) == max + 2);
    }
}

// --- What each table row shows ---

/// The API keys table has a heading and then one row per key, in order.
/// The row of a key shows its id, its name cut to 18 bytes, its prefix and
/// when it was created, `-` standing for an absent prefix or creation time.
/// When the key was last used does not show.
pub proof fn lemma_api_keys_table_cells(keys: Seq<ApiKey>, i: int)
    requires
        0 <= i < keys.len(),
    ensures
        api_keys_lines(keys).len() == keys.len() + 1,
        ({
            let row = api_keys_lines(keys)[i + 1];
            let k = keys[i];
            &&& row.len() == 7
            &&& row[0].text == k.id@
            &&& row[2].text == truncated(k.name@, 18)
            &&& row[4].text == match k.prefix {
                Some(p) => p@,
                None => seq!['-'],
            }
            &&& row[6] == plain(match k.created_at {
                Some(t) => t@,
                None => seq!['-'],
            })
        }),
{
}

/// The market table has a heading and then one row per rate, in order. The
/// row of a rate shows its workload, its average, lowest and highest prices
/// as given (`-` where absent), and last its number of hosts, `0` only when
/// that number is unknown.
pub proof fn lemma_market_table_cells(rates: Seq<MarketRate>, cells: Seq<PriceCells>, i: int)
    requires
        0 <= i < rates.len(),
    ensures
        market_lines(rates, cells).len() == rates.len() + 1,
        ({
            let row = market_lines(rates, cells)[i + 1];
            let r = rates[i];
            &&& row.len() == 9
            &&& row[0].text == r.workload_slug@
            &&& row[2].text == match cells[i].avg {
                Some(p) => p@,
                None => seq!['-'],
            }
            &&& row[4].text == match cells[i].min {
                Some(p) => p@,
                None => seq!['-'],
            }
            &&& row[6].text == match cells[i].max {
                Some(p) => p@,
                None => seq!['-'],
            }
            &&& row[8] == plain(match r.num_hosts {
                Some(n) => decimal(n as nat),
                None => seq!['0'],
            })
        }),
{
    assert(decimal(0) == seq!['0']);
}

/// The workloads table has a heading and then one row per workload, in
/// order. The row of a workload shows its slug, its name cut to 28 bytes,
/// its runtime and price (`-` where absent), and last whether it is
/// enabled: `yes` in green exactly when it is known to be enabled, else `no`
/// in red.
pub proof fn lemma_workloads_table_cells(ws: Seq<Workload>, prices: Seq<Option<Seq<char>>>, i: int)
    requires
        0 <= i < ws.len(),
    ensures
        workloads_lines(ws, prices).len() == ws.len() + 1,
        ({
            let row = workloads_lines(ws, prices)[i + 1];
            let w = ws[i];
            &&& row.len() == 9
            &&& row[0].text == w.slug@
            &&& row[2].text == truncated(w.name@, 28)
            &&& row[4].text == match w.runtime_type {
                Some(t) => t@,
                None => seq!['-'],
            }
            &&& row[6].text == match prices[i] {
                Some(p) => p,
                None => seq!['-'],
            }
            &&& row[8] == if w.is_enabled == Some(true) {
                in_style("yes"@, Style::Green)
            } else {
                in_style("no"@, Style::Red)
            }
        }),
{
}

// --- Which lines a panel holds ---

/// Whether a line starts with the label `label`.
pub open spec fn starts_with_label(line: Seq<SpanView>, label: Seq<char>) -> bool {
    line.len() > 0 && line[0].text == label
}

/// Whether no line of `lines` starts with the label `label`.
pub open spec fn no_line_labelled(lines: Seq<Seq<SpanView>>, label: Seq<char>) -> bool {
    forall|k: int| 0 <= k < lines.len() ==> !starts_with_label(#[trigger] lines[k], label)
}

proof fn lemma_no_line_labelled_concat(a: Seq<Seq<SpanView>>, b: Seq<Seq<SpanView>>, label: Seq<char>)
    requires
        no_line_labelled(a, label),
        no_line_labelled(b, label),
    ensures
        no_line_labelled(a + b, label),
{
    assert forall|k: int| 0 <= k < (a + b).len() implies !starts_with_label(#[trigger] (a + b)[k], label) by {
        if k < a.len() {
            assert((a + b)[k] == a[k]);
        } else {
            assert((a + b)[k] == b[k - a.len()]);
        }
    }
}

proof fn lemma_labelled_opt_other(label: Seq<char>, v: Option<Seq<char>>, other: Seq<char>)
    requires
        label != other,
    ensures
        no_line_labelled(labelled_opt(label, v), other),
{
}

proof fn lemma_number_opt_other(label: Seq<char>, v: Option<u64>, other: Seq<char>)
    requires
        label != other,
    ensures
        no_line_labelled(number_opt(label, v), other),
{
}

proof fn lemma_megabytes_opt_other(label: Seq<char>, v: Option<u64>, other: Seq<char>)
    requires
        label != other,
    ensures
        no_line_labelled(megabytes_opt(label, v), other),
{
}

spec fn workload_before_ram(w: Workload) -> Seq<Seq<SpanView>> {
    seq![
        single("Workload"@, Style::Bold),
        labelled("  Name:      "@, w.name@),
        labelled("  Slug:      "@, w.slug@),
        labelled("  ID:        "@, signed_decimal(w.id as int)),
    ]
        + labelled_opt("  Desc:      "@, w.description.deep_view())
        + labelled_opt("  Runtime:   "@, w.runtime_type.deep_view())
        + megabytes_opt("  VRAM:      "@, w.required_vram_mb)
}

spec fn workload_after_ram(w: Workload, price: Option<Seq<char>>) -> Seq<Seq<SpanView>> {
    let p = match price {
        Some(p) => seq![labelled("  Price:     "@, p + " credits/job"@)],
        None => seq![],
    };
    p + seq![seq![plain("  Enabled:   "@), yes_no(enabled(w))]]
}

proof fn lemma_workload_labels_not_ram()
    ensures
        "Workload"@ != "  RAM:       "@,
        "  Name:      "@ != "  RAM:       "@,
        "  Slug:      "@ != "  RAM:       "@,
        "  ID:        "@ != "  RAM:       "@,
        "  Desc:      "@ != "  RAM:       "@,
        "  Runtime:   "@ != "  RAM:       "@,
        "  VRAM:      "@ != "  RAM:       "@,
        "  Price:     "@ != "  RAM:       "@,
        "  Enabled:   "@ != "  RAM:       "@,
{
    reveal_strlit("  RAM:       ");
    reveal_strlit("Workload");
    reveal_strlit("  Name:      ");
    reveal_strlit("  Slug:      ");
    reveal_strlit("  ID:        ");
    reveal_strlit("  Desc:      ");
    reveal_strlit("  Runtime:   ");
    reveal_strlit("  VRAM:      ");
    reveal_strlit("  Price:     ");
    reveal_strlit("  Enabled:   ");
    assert("  Name:      "@[2] != "  RAM:       "@[2]);
    assert("  Slug:      "@[2] != "  RAM:       "@[2]);
    assert("  ID:        "@[2] != "  RAM:       "@[2]);
    assert("  Desc:      "@[2] != "  RAM:       "@[2]);
    assert("  Runtime:   "@[3] != "  RAM:       "@[3]);
    assert("  VRAM:      "@[2] != "  RAM:       "@[2]);
    assert("  Price:     "@[2] != "  RAM:       "@[2]);
    assert("  Enabled:   "@[2] != "  RAM:       "@[2]);
}

proof fn lemma_workload_panel_parts(w: Workload, price: Option<Seq<char>>)
    ensures
        workload_lines(w, price) == workload_before_ram(w) + megabytes_opt("  RAM:       "@, w.required_ram_mb)
            + workload_after_ram(w, price),
        no_line_labelled(workload_before_ram(w), "  RAM:       "@),
        no_line_labelled(workload_after_ram(w, price), "  RAM:       "@),
{
    let ram = "  RAM:       "@;
    lemma_workload_labels_not_ram();
    assert(workload_lines(w, price) =~= workload_before_ram(w) + megabytes_opt(ram, w.required_ram_mb)
        + workload_after_ram(w, price));
    let head = seq![
        single("Workload"@, Style::Bold),
        labelled("  Name:      "@, w.name@),
        labelled("  Slug:      "@, w.slug@),
        labelled("  ID:        "@, signed_decimal(w.id as int)),
    ];
    assert(no_line_labelled(head, ram)) by {
        assert forall|k: int| 0 <= k < head.len() implies !starts_with_label(#[trigger] head[k], ram) by {
        }
    }
    let d = labelled_opt("  Desc:      "@, w.description.deep_view());
    let rt = labelled_opt("  Runtime:   "@, w.runtime_type.deep_view());
    let v = megabytes_opt("  VRAM:      "@, w.required_vram_mb);
    lemma_labelled_opt_other("  Desc:      "@, w.description.deep_view(), ram);
    lemma_labelled_opt_other("  Runtime:   "@, w.runtime_type.deep_view(), ram);
    lemma_megabytes_opt_other("  VRAM:      "@, w.required_vram_mb, ram);
    lemma_no_line_labelled_concat(head, d, ram);
    lemma_no_line_labelled_concat(head + d, rt, ram);
    lemma_no_line_labelled_concat(head + d + rt, v, ram);
    let p = match price {
        Some(p) => seq![labelled("  Price:     "@, p + " credits/job"@)],
        None => seq![],
    };
    let e = seq![seq![plain("  Enabled:   "@), yes_no(enabled(w))]];
    assert(no_line_labelled(p, ram));
    assert(no_line_labelled(e, ram));
    lemma_no_line_labelled_concat(p, e, ram);
}

/// The workload panel shows the RAM a workload needs exactly when it is
/// known. Then exactly one line is labelled `  RAM:       `; it gives the
/// number of megabytes, comes right after the VRAM line when there is one,
/// and right before the price line, or the enabled line when there is no
/// price. When the RAM is unknown, no line is labelled so.
pub proof fn lemma_workload_panel_ram(w: Workload, price: Option<Seq<char>>)
    ensures
        ({
            let lines = workload_lines(w, price);
            &&& w.required_ram_mb matches Some(r) ==> exists|k: int|
                0 < k < lines.len() - 1
                && #[trigger] lines[k] == labelled("  RAM:       "@, decimal(r as nat) + " MB"@)
                && (forall|j: int| 0 <= j < lines.len() && j != k ==>
                    !starts_with_label(#[trigger] lines[j], "  RAM:       "@))
                && (w.required_vram_mb matches Some(v) ==>
                    lines[k - 1] == labelled("  VRAM:      "@, decimal(v as nat) + " MB"@))
                && (price matches Some(p) ==>
                    lines[k + 1] == labelled("  Price:     "@, p + " credits/job"@))
                && (price is None ==> lines[k + 1][0] == plain("  Enabled:   "@))
            &&& w.required_ram_mb is None ==> no_line_labelled(lines, "  RAM:       "@)
        }),
{
    let ram = "  RAM:       "@;
    lemma_workload_panel_parts(w, price);
    let a = workload_before_ram(w);
    let m = megabytes_opt(ram, w.required_ram_mb);
    let b = workload_after_ram(w, price);
    let lines = workload_lines(w, price);
    match w.required_ram_mb {
        Some(r) => {
            let k = a.len() as int;
            assert(a.len() >= 4);
            assert(lines[k] == m[0]);
            assert forall|j: int| 0 <= j < lines.len() && j != k implies
                !starts_with_label(#[trigger] lines[j], ram) by {
                if j < k {
                    assert(lines[j] == a[j]);
                } else {
                    assert(lines[j] == b[j - k - 1]);
                }
            }
            assert(lines[k + 1] == b[0]);
            assert(lines[k - 1] == a[k - 1]);
            if w.required_vram_mb is Some {
                assert(a[k - 1] == megabytes_opt("  VRAM:      "@, w.required_vram_mb)[0]);
            }
        },
        None => {
            assert(lines =~= a + b);
            lemma_no_line_labelled_concat(a, b, ram);
        },
    }
}

spec fn job_before_usage(j: Job) -> Seq<Seq<SpanView>> {
    job_head_lines(j) + seq![
        labelled("  Duration: "@, duration_text(j.duration_ms)),
        labelled("  Created:  "@, text_or_dash(j.created_at.deep_view())),
    ]
        + labelled_opt("  Started:  "@, j.started_at.deep_view())
        + labelled_opt("  Completed: "@, j.completed_at.deep_view())
}

proof fn lemma_job_labels_not_completion()
    ensures
        "Job"@ != "    Completion tokens: "@,
        "  ID:       "@ != "    Completion tokens: "@,
        "  Status:   "@ != "    Completion tokens: "@,
        "  Workload: "@ != "    Completion tokens: "@,
        "  Input:    "@ != "    Completion tokens: "@,
        "  Output:   "@ != "    Completion tokens: "@,
        "  Error:    "@ != "    Completion tokens: "@,
        "  Duration: "@ != "    Completion tokens: "@,
        "  Created:  "@ != "    Completion tokens: "@,
        "  Started:  "@ != "    Completion tokens: "@,
        "  Completed: "@ != "    Completion tokens: "@,
        "  Usage:"@ != "    Completion tokens: "@,
        "    Prompt tokens:     "@ != "    Completion tokens: "@,
        "    Total tokens:      "@ != "    Completion tokens: "@,
        "    Credits used:      "@ != "    Completion tokens: "@,
{
    reveal_strlit("    Completion tokens: ");
    reveal_strlit("Job");
    reveal_strlit("  ID:       ");
    reveal_strlit("  Status:   ");
    reveal_strlit("  Workload: ");
    reveal_strlit("  Input:    ");
    reveal_strlit("  Output:   ");
    reveal_strlit("  Error:    ");
    reveal_strlit("  Duration: ");
    reveal_strlit("  Created:  ");
    reveal_strlit("  Started:  ");
    reveal_strlit("  Completed: ");
    reveal_strlit("  Usage:");
    reveal_strlit("    Prompt tokens:     ");
    reveal_strlit("    Total tokens:      ");
    reveal_strlit("    Credits used:      ");
    assert("Job"@.len() == 3);
    assert("    Completion tokens: "@.len() == 23);
    assert("    Prompt tokens:     "@[4] != "    Completion tokens: "@[4]);
    assert("    Total tokens:      "@[4] != "    Completion tokens: "@[4]);
    assert("    Credits used:      "@[5] != "    Completion tokens: "@[5]);
}

proof fn lemma_job_before_usage_no_completion(j: Job)
    ensures
        no_line_labelled(job_before_usage(j), "    Completion tokens: "@),
{
    let ct = "    Completion tokens: "@;
    lemma_job_labels_not_completion();
    let first = seq![
        single("Job"@, Style::Bold),
        labelled("  ID:       "@, j.id@),
        seq![plain("  Status:   "@), in_style(j.status@, status_style(j.status@))],
    ];
    assert(no_line_labelled(first, ct)) by {
        assert forall|k: int| 0 <= k < first.len() implies !starts_with_label(#[trigger] first[k], ct) by {
        }
    }
    let wl = labelled_opt("  Workload: "@, j.workload_slug.deep_view());
    let inp = labelled_opt("  Input:    "@, j.input.deep_view());
    let out = labelled_opt("  Output:   "@, j.output.deep_view());
    let err = error_opt(j.error.deep_view());
    lemma_labelled_opt_other("  Workload: "@, j.workload_slug.deep_view(), ct);
    lemma_labelled_opt_other("  Input:    "@, j.input.deep_view(), ct);
    lemma_labelled_opt_other("  Output:   "@, j.output.deep_view(), ct);
    assert(no_line_labelled(err, ct));
    lemma_no_line_labelled_concat(first, wl, ct);
    lemma_no_line_labelled_concat(first + wl, inp, ct);
    lemma_no_line_labelled_concat(first + wl + inp, out, ct);
    lemma_no_line_labelled_concat(first + wl + inp + out, err, ct);
    assert(job_head_lines(j) == first + wl + inp + out + err);
    let mid = seq![
        labelled("  Duration: "@, duration_text(j.duration_ms)),
        labelled("  Created:  "@, text_or_dash(j.created_at.deep_view())),
    ];
    assert(no_line_labelled(mid, ct)) by {
        assert forall|k: int| 0 <= k < mid.len() implies !starts_with_label(#[trigger] mid[k], ct) by {
        }
    }
    let st = labelled_opt("  Started:  "@, j.started_at.deep_view());
    let co = labelled_opt("  Completed: "@, j.completed_at.deep_view());
    lemma_labelled_opt_other("  Started:  "@, j.started_at.deep_view(), ct);
    lemma_labelled_opt_other("  Completed: "@, j.completed_at.deep_view(), ct);
    lemma_no_line_labelled_concat(job_head_lines(j), mid, ct);
    lemma_no_line_labelled_concat(job_head_lines(j) + mid, st, ct);
    lemma_no_line_labelled_concat(job_head_lines(j) + mid + st, co, ct);
}

/// The job panel shows a job's completion tokens exactly when its usage
/// gives them. Then exactly one line is labelled `    Completion tokens: `;
/// it gives the number, comes right after the prompt tokens line (or the
/// `  Usage:` line when the prompt tokens are unknown), and right before the
/// total tokens line when there is one. Otherwise no line is labelled so.
#[verifier::rlimit(40)]
pub proof fn lemma_job_panel_completion_tokens(j: Job, credits: Option<Seq<char>>)
    ensures
        ({
            let lines = job_lines(j, credits);
            let ct = "    Completion tokens: "@;
            &&& j.usage matches Some(u) ==> (u.completion_tokens matches Some(c) ==> exists|k: int|
                0 < k < lines.len()
                && #[trigger] lines[k] == labelled(ct, decimal(c as nat))
                && (forall|i: int| 0 <= i < lines.len() && i != k ==>
                    !starts_with_label(#[trigger] lines[i], ct))
                && (u.prompt_tokens matches Some(p) ==>
                    lines[k - 1] == labelled("    Prompt tokens:     "@, decimal(p as nat)))
                && (u.prompt_tokens is None ==> lines[k - 1] == single("  Usage:"@, Style::Plain))
                && (u.total_tokens matches Some(t) ==> k + 1 < lines.len()
                    && lines[k + 1] == labelled("    Total tokens:      "@, decimal(t as nat))))
            &&& j.usage matches Some(u) ==> (u.completion_tokens is None ==> no_line_labelled(lines, ct))
            &&& j.usage is None ==> no_line_labelled(lines, ct)
        }),
{
    let ct = "    Completion tokens: "@;
    lemma_job_before_usage_no_completion(j);
    lemma_job_labels_not_completion();
    let a = job_before_usage(j);
    let lines = job_lines(j, credits);
    match j.usage {
        None => {
            assert(lines =~= a);
        },
        Some(u) => {
            let b = seq![single("  Usage:"@, Style::Plain)] + number_opt("    Prompt tokens:     "@, u.prompt_tokens);
            let m = number_opt(ct, u.completion_tokens);
            let c = number_opt("    Total tokens:      "@, u.total_tokens) + labelled_opt(
                "    Credits used:      "@,
                credits,
            );
            assert(lines =~= (a + b) + m + c);
            assert(no_line_labelled(seq![single("  Usage:"@, Style::Plain)], ct));
            lemma_number_opt_other("    Prompt tokens:     "@, u.prompt_tokens, ct);
            lemma_no_line_labelled_concat(seq![single("  Usage:"@, Style::Plain)], number_opt("    Prompt tokens:     "@, u.prompt_tokens), ct);
            lemma_no_line_labelled_concat(a, b, ct);
            lemma_number_opt_other("    Total tokens:      "@, u.total_tokens, ct);
            lemma_labelled_opt_other("    Credits used:      "@, credits, ct);
            lemma_no_line_labelled_concat(number_opt("    Total tokens:      "@, u.total_tokens), labelled_opt("    Credits used:      "@, credits), ct);
            let ab = a + b;
            match u.completion_tokens {
                Some(cv) => {
                    let k = ab.len() as int;
                    assert(lines[k] == m[0]);
                    assert forall|i: int| 0 <= i < lines.len() && i != k implies
                        !starts_with_label(#[trigger] lines[i], ct) by {
                        if i < k {
                            assert(lines[i] == ab[i]);
                        } else {
                            assert(lines[i] == c[i - k - 1]);
                        }
                    }
                    assert(lines[k - 1] == ab[k - 1]);
                    assert(ab[k - 1] == b[b.len() - 1]);
                    if u.total_tokens is Some {
                        assert(lines[k + 1] == c[0]);
                    }
                },
                None => {
                    assert(lines =~= ab + c);
                    lemma_no_line_labelled_concat(ab, c, ct);
                },
            }
        },
    }
}

/// The jobs table has a heading and then one row per job, in order. The
/// row of a job shows its id, its status padded to 12 characters in the
/// status's colour, its workload, its duration and when it was created
/// (`-` for what is absent).
pub proof fn lemma_jobs_table_cells(jobs: Seq<Job>, i: int)
    requires
        0 <= i < jobs.len(),
    ensures
        jobs_lines(jobs).len() == jobs.len() + 1,
        ({
            let row = jobs_lines(jobs)[i + 1];
            let j = jobs[i];
            &&& row.len() == 9
            &&& row[0].text == j.id@
            &&& row[2] == in_style(pad_right(j.status@, 12), status_style(j.status@))
            &&& row[4].text == match j.workload_slug {
                Some(t) => t@,
                None => seq!['-'],
            }
            &&& row[6].text == duration_text(j.duration_ms)
            &&& row[8] == plain(match j.created_at {
                Some(t) => t@,
                None => seq!['-'],
            })
        }),
{
}

/// The hosts table has a heading and then one row per host, in order. The
/// row of a host shows its id, its name cut to 14 bytes, its status padded
/// to 10 characters in the status's colour, its region and its karma (`-`
/// for what is absent).
pub proof fn lemma_hosts_table_cells(hs: Seq<Host>, karma: Seq<Option<Seq<char>>>, i: int)
    requires
        0 <= i < hs.len(),
    ensures
        hosts_lines(hs, karma).len() == hs.len() + 1,
        ({
            let row = hosts_lines(hs, karma)[i + 1];
            let h = hs[i];
            let status = match h.status {
                Some(t) => t@,
                None => seq!['-'],
            };
            &&& row.len() == 9
            &&& row[0].text == h.id@
            &&& row[2].text == truncated(match h.name {
                Some(t) => t@,
                None => seq!['-'],
            }, 14)
            &&& row[4] == in_style(pad_right(status, 10), status_style(status))
            &&& row[6].text == match h.region {
                Some(t) => t@,
                None => seq!['-'],
            }
            &&& row[8] == plain(match karma[i] {
                Some(t) => t,
                None => seq!['-'],
            })
        }),
{
}

/// A job panel whose job reports usage ends with the usage block: the
/// `  Usage:` line, then one line for each count that is given, in the order
/// prompt, completion and total tokens, then the credits used when given.
pub proof fn lemma_job_panel_ends_with_usage(j: Job, credits: Option<Seq<char>>)
    ensures
        j.usage matches Some(u) ==> ({
            let lines = job_lines(j, credits);
            let count = |label: Seq<char>, v: Option<u64>| match v {
                Some(n) => seq![labelled(label, decimal(n as nat))],
                None => Seq::<Seq<SpanView>>::empty(),
            };
            let block = seq![single("  Usage:"@, Style::Plain)]
                + count("    Prompt tokens:     "@, u.prompt_tokens)
                + count("    Completion tokens: "@, u.completion_tokens)
                + count("    Total tokens:      "@, u.total_tokens)
                + match credits {
                    Some(c) => seq![labelled("    Credits used:      "@, c)],
                    None => Seq::<Seq<SpanView>>::empty(),
                };
            &&& block.len() <= lines.len()
            &&& lines.subrange(lines.len() - block.len(), lines.len() as int) == block
        }),
{
    if let Some(u) = j.usage {
        let lines = job_lines(j, credits);
        let block = usage_lines(u, credits);
        assert(lines =~= job_before_usage(j) + block);
        assert(lines.subrange(lines.len() - block.len(), lines.len() as int) =~= block);
    }
}

/// The workload panel opens with the title and the workload's name, slug
/// and id, and ends with whether it is enabled: `yes` in green exactly when
/// it is known to be enabled, else `no` in red. When a price is given, the
/// line before that shows it in credits per job.
pub proof fn lemma_workload_panel_frame(w: Workload, price: Option<Seq<char>>)
    ensures
        ({
            let lines = workload_lines(w, price);
            let n = lines.len() as int;
            &&& n >= 5
            &&& lines[0] == single("Workload"@, Style::Bold)
            &&& lines[1] == labelled("  Name:      "@, w.name@)
            &&& lines[2] == labelled("  Slug:      "@, w.slug@)
            &&& lines[3] == labelled("  ID:        "@, signed_decimal(w.id as int))
            &&& lines[n - 1] == seq![
                plain("  Enabled:   "@),
                if w.is_enabled == Some(true) {
                    in_style("yes"@, Style::Green)
                } else {
                    in_style("no"@, Style::Red)
                },
            ]
            &&& price matches Some(p) ==> lines[n - 2] == labelled("  Price:     "@, p + " credits/job"@)
        }),
{
    lemma_workload_panel_parts(w, price);
    let lines = workload_lines(w, price);
    let a = workload_before_ram(w) + megabytes_opt("  RAM:       "@, w.required_ram_mb);
    let b = workload_after_ram(w, price);
    assert(lines =~= a + b);
    assert(lines[lines.len() - 1] == b[b.len() - 1]);
    if price is Some {
        assert(lines[lines.len() - 2] == b[0]);
    }
    assert(lines[0] == workload_before_ram(w)[0]);
    assert(lines[1] == workload_before_ram(w)[1]);
    assert(lines[2] == workload_before_ram(w)[2]);
    assert(lines[3] == workload_before_ram(w)[3]);
}

} // verus!

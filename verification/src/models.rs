//! The shapes of the Archipelag.io API's requests and responses.
//!
//! Floating-point values (credits, prices, karma, temperature) are carried
//! as their IEEE-754 bit patterns, and free-form JSON values as their JSON
//! text; the rest is held as the API sends it.
use vstd::prelude::*;

verus! {

/// A double-precision number, held as its bit pattern (`f64::to_bits`).
#[derive(Clone, Copy, Debug, PartialEq, Eq, Structural)]
pub struct FloatBits(pub u64);

/// A single-precision number, held as its bit pattern (`f32::to_bits`).
#[derive(Clone, Copy, Debug, PartialEq, Eq, Structural)]
pub struct Float32Bits(pub u32);

// --- Account ---

pub struct AccountResponse {
    pub data: Account,
}

#[derive(Debug)]
pub struct Account {
    pub id: i64,
    pub email: String,
    pub credits: FloatBits,
    pub created_at: Option<String>,
}

// --- Jobs ---

pub struct JobsResponse {
    pub data: Vec<Job>,
}

pub struct JobResponse {
    pub data: Job,
}

#[derive(Debug)]
pub struct Job {
    pub id: String,
    pub workload_id: Option<i64>,
    pub workload_slug: Option<String>,
    pub status: String,
    /// The job's input, as compact JSON text.
    pub input: Option<String>,
    pub output: Option<String>,
    pub error: Option<String>,
    pub created_at: Option<String>,
    pub started_at: Option<String>,
    pub completed_at: Option<String>,
    pub duration_ms: Option<u64>,
    pub usage: Option<Usage>,
}

#[derive(Debug)]
pub struct Usage {
    pub prompt_tokens: Option<u64>,
    pub completion_tokens: Option<u64>,
    pub total_tokens: Option<u64>,
    pub credits_used: Option<FloatBits>,
}

// --- Workloads ---

pub struct WorkloadsResponse {
    pub data: Vec<Workload>,
}

pub struct WorkloadResponse {
    pub data: Workload,
}

#[derive(Debug)]
pub struct Workload {
    pub id: i64,
    pub name: String,
    pub slug: String,
    pub description: Option<String>,
    pub runtime_type: Option<String>,
    pub required_vram_mb: Option<u64>,
    pub required_ram_mb: Option<u64>,
    pub price_per_job: Option<FloatBits>,
    pub is_enabled: Option<bool>,
}

// --- Hosts ---

pub struct HostsResponse {
    pub data: Vec<Host>,
}

pub struct HostResponse {
    pub data: Host,
}

#[derive(Debug)]
pub struct Host {
    pub id: String,
    pub name: Option<String>,
    pub status: Option<String>,
    pub region: Option<String>,
    /// The host's capabilities, as pretty-printed JSON text.
    pub capabilities: Option<String>,
    pub karma_score: Option<FloatBits>,
    pub last_heartbeat_at: Option<String>,
}

// --- API Keys ---

pub struct ApiKeysResponse {
    pub data: Vec<ApiKey>,
}

pub struct ApiKeyCreateResponse {
    pub data: ApiKeyCreated,
}

#[derive(Debug)]
pub struct ApiKeyCreated {
    pub api_key: ApiKey,
    pub key: String,
}

#[derive(Debug)]
pub struct ApiKey {
    pub id: String,
    pub name: String,
    pub prefix: Option<String>,
    pub created_at: Option<String>,
    pub last_used_at: Option<String>,
}

// --- Market ---

pub struct MarketRatesResponse {
    pub data: Vec<MarketRate>,
}

#[derive(Debug)]
pub struct MarketRate {
    pub workload_slug: String,
    pub avg_price: Option<FloatBits>,
    pub min_price: Option<FloatBits>,
    pub max_price: Option<FloatBits>,
    pub num_hosts: Option<u64>,
    pub timestamp: Option<String>,
}

pub struct MarketHistoryResponse {
    pub data: Vec<MarketRate>,
}

// --- Chat (OpenAI-compatible) ---

#[derive(Debug)]
pub struct ChatRequest {
    pub model: String,
    /// The slug of the workload that serves the request.
    pub workload: String,
    pub messages: Vec<ChatMessage>,
    pub stream: bool,
    pub max_tokens: Option<u32>,
    pub temperature: Option<Float32Bits>,
}

#[derive(Debug)]
pub struct ChatMessage {
    pub role: String,
    pub content: String,
}

#[derive(Debug)]
pub struct ChatCompletionResponse {
    pub choices: Vec<ChatChoice>,
    pub usage: Option<ChatUsage>,
}

#[derive(Debug)]
pub struct ChatChoice {
    pub message: Option<ChatMessageResponse>,
    pub delta: Option<ChatDelta>,
    pub finish_reason: Option<String>,
}

#[derive(Debug)]
pub struct ChatMessageResponse {
    pub role: Option<String>,
    pub content: Option<String>,
}

#[derive(Debug)]
pub struct ChatDelta {
    pub content: Option<String>,
}

#[derive(Debug)]
pub struct ChatUsage {
    pub prompt_tokens: Option<u64>,
    pub completion_tokens: Option<u64>,
    pub total_tokens: Option<u64>,
}

// --- Stream Events ---

#[derive(Debug)]
pub struct StreamEvent {
    /// The event's `type` field.
    pub event_type: Option<String>,
    pub content: Option<String>,
    pub usage: Option<Usage>,
    pub error: Option<String>,
}

// --- Generic error ---

#[derive(Debug)]
pub struct ApiError {
    pub error: Option<String>,
    pub message: Option<String>,
}

} // verus!

verus! {

/// The value of a chat message: its role and its content.
pub struct ChatMessageView {
    pub role: Seq<char>,
    pub content: Seq<char>,
}

impl View for ChatMessage {
    type V = ChatMessageView;

    open spec fn view(&self) -> ChatMessageView {
        ChatMessageView { role: self.role@, content: self.content@ }
    }
}

/// The value of a chat request.
pub struct ChatRequestView {
    pub model: Seq<char>,
    pub workload: Seq<char>,
    pub messages: Seq<ChatMessageView>,
    pub stream: bool,
    pub max_tokens: Option<u32>,
    pub temperature: Option<Float32Bits>,
}

impl View for ChatRequest {
    type V = ChatRequestView;

    open spec fn view(&self) -> ChatRequestView {
        ChatRequestView {
            model: self.model@,
            workload: self.workload@,
            messages: self.messages@.map_values(|m: ChatMessage| m@),
            stream: self.stream,
            max_tokens: self.max_tokens,
            temperature: self.temperature,
        }
    }
}

} // verus!

//! The Gemini client's models, settings, statistics and the retry policy of
//! a grid analysis request.

use vstd::prelude::*;
use vstd::string::StringExecFns;
use crate::config::{gemini_model_label, model_name};
use crate::error::ScannerError;
use crate::json::JsonValue;
use crate::scan::{grid_reply, parse_gemini_response, ScannerConfig, GEMINI_ENDPOINT};
use crate::grid::{GridConfig, ImageFormat};

verus! {

pub const GEMINI_37_FLASH: &'static str = "gemini-3.7-flash";

pub const GEMINI_35_FLASH_LITE: &'static str = "gemini-3.5-flash-lite";

/// The models offered, the default first.
pub const AVAILABLE_MODELS: [&'static str; 2] = [GEMINI_37_FLASH, GEMINI_35_FLASH_LITE];

pub const DEFAULT_MODEL: &'static str = GEMINI_37_FLASH;

/// Human-readable label for a model id.
pub fn model_label(model_id: &str) -> (r: &str)
    ensures
        r@ == model_name(model_id@),
{
    gemini_model_label(model_id)
}

/// Settings of the Gemini client. The temperature is in thousandths.
#[derive(Debug, Clone)]
pub struct GeminiConfig {
    pub api_key: String,
    pub model: String,
    pub endpoint: String,
    pub timeout_secs: u64,
    pub max_retries: u32,
    pub temperature_milli: u32,
    pub max_output_tokens: u32,
}

impl Default for GeminiConfig {
    fn default() -> (r: Self)
        ensures
            r.api_key@ == Seq::<char>::empty(),
            r.model@ == DEFAULT_MODEL@,
            r.endpoint@ == GEMINI_ENDPOINT@,
            r.timeout_secs == 30,
            r.max_retries == 3,
            r.temperature_milli == 100,
            r.max_output_tokens == 100,
    {
        GeminiConfig {
            api_key: String::new(),
            model: String::from_str(DEFAULT_MODEL),
            endpoint: String::from_str(GEMINI_ENDPOINT),
            timeout_secs: 30,
            max_retries: 3,
            temperature_milli: 100,
            max_output_tokens: 100,
        }
    }
}

impl GeminiConfig {
    /// Whether an API key is configured.
    pub fn has_api_key(&self) -> (r: bool)
        ensures
            r == (self.api_key@.len() > 0),
    {
        !self.api_key.as_str().is_empty()
    }
}

/// Counters of the Gemini client.
#[derive(Debug, Clone, Copy)]
pub struct GeminiStats {
    pub requests_sent: u64,
    pub successful_responses: u64,
    pub failed_responses: u64,
    pub rate_limited: u64,
    pub total_latency_ms: u64,
}

impl Default for GeminiStats {
    fn default() -> (r: Self)
        ensures
            r.requests_sent == 0,
            r.successful_responses == 0,
            r.failed_responses == 0,
            r.rate_limited == 0,
            r.total_latency_ms == 0,
    {
        GeminiStats {
            requests_sent: 0,
            successful_responses: 0,
            failed_responses: 0,
            rate_limited: 0,
            total_latency_ms: 0,
        }
    }
}

impl GeminiStats {
    /// Count a successful request and its latency.
    pub fn record_success(&mut self, latency_ms: u64)
        requires
            old(self).requests_sent < u64::MAX,
            old(self).successful_responses < u64::MAX,
            old(self).total_latency_ms + latency_ms <= u64::MAX,
        ensures
            *final(self) == (GeminiStats {
                requests_sent: (old(self).requests_sent + 1) as u64,
                successful_responses: (old(self).successful_responses + 1) as u64,
                total_latency_ms: (old(self).total_latency_ms + latency_ms) as u64,
                ..*old(self)
            }),
    {
        self.requests_sent = self.requests_sent + 1;
        self.successful_responses = self.successful_responses + 1;
        self.total_latency_ms = self.total_latency_ms + latency_ms;
    }

    /// Count a rate-limit answer.
    pub fn record_rate_limited(&mut self)
        requires
            old(self).rate_limited < u64::MAX,
        ensures
            *final(self) == (GeminiStats {
                rate_limited: (old(self).rate_limited + 1) as u64,
                ..*old(self)
            }),
    {
        self.rate_limited = self.rate_limited + 1;
    }

    /// Count a request that finally failed.
    pub fn record_failure(&mut self)
        requires
            old(self).requests_sent < u64::MAX,
            old(self).failed_responses < u64::MAX,
        ensures
            *final(self) == (GeminiStats {
                requests_sent: (old(self).requests_sent + 1) as u64,
                failed_responses: (old(self).failed_responses + 1) as u64,
                ..*old(self)
            }),
    {
        self.requests_sent = self.requests_sent + 1;
        self.failed_responses = self.failed_responses + 1;
    }
}

/// Counters of the content moderator.
#[derive(Debug, Clone, Copy)]
pub struct ModeratorStats {
    pub videos_processed: u64,
    pub total_segments_scanned: u64,
    pub explicit_segments_found: u64,
    pub segments_skipped: u64,
    pub api_calls: u64,
    pub api_errors: u64,
}

impl Default for ModeratorStats {
    fn default() -> (r: Self)
        ensures
            r.videos_processed == 0,
            r.total_segments_scanned == 0,
            r.explicit_segments_found == 0,
            r.segments_skipped == 0,
            r.api_calls == 0,
            r.api_errors == 0,
    {
        ModeratorStats {
            videos_processed: 0,
            total_segments_scanned: 0,
            explicit_segments_found: 0,
            segments_skipped: 0,
            api_calls: 0,
            api_errors: 0,
        }
    }
}

/// Configuration of the content moderator. The confidence threshold is a
/// percentage.
#[derive(Debug)]
pub struct ModerationConfig {
    pub scanner_config: ScannerConfig,
    pub gemini_config: GeminiConfig,
    pub grid_config: GridConfig,
    pub auto_skip_enabled: bool,
    pub skip_buffer_ms: u64,
    pub confidence_threshold_pct: u8,
}

impl Default for ModerationConfig {
    fn default() -> (r: Self)
        ensures
            r.scanner_config.frame_interval_ms == 1000,
            r.scanner_config.grid_size == (2u32, 2u32),
            r.gemini_config.model@ == DEFAULT_MODEL@,
            r.gemini_config.max_retries == 3,
            r.grid_config.grid_size == (2u32, 2u32),
            r.grid_config.output_format == ImageFormat::Png,
            r.auto_skip_enabled,
            r.skip_buffer_ms == 500,
            r.confidence_threshold_pct == 70,
    {
        ModerationConfig {
            scanner_config: ScannerConfig::default(),
            gemini_config: GeminiConfig::default(),
            grid_config: GridConfig::default(),
            auto_skip_enabled: true,
            skip_buffer_ms: 500,
            confidence_threshold_pct: 70,
        }
    }
}

/// How a grid analysis request went.
#[derive(Debug)]
pub enum GridReply {
    /// A 2xx answer, its body parsed as JSON.
    Success(JsonValue),
    /// A 429 answer, with its `retry-after` seconds when it gave them.
    RateLimited(Option<u64>),
    /// Any other status: the status as shown and the body text.
    Failed(String, String),
    /// The request itself failed: the error text.
    Transport(String),
}

/// What the client does next.
#[derive(Debug)]
pub enum GridNext {
    /// Wait this many seconds, then send the request again.
    Resend(u64),
    /// Wait this many seconds (possibly none), then end with this result.
    Finish(u64, Result<Vec<u8>, ScannerError>),
}

/// The attempts of one grid analysis: attempt `attempt` of
/// `max_retries + 1`, with the last error seen.
pub struct GridAttempts {
    attempt: u32,
    max_retries: u32,
    last_error: Option<String>,
}

/// The error reported when every attempt failed.
pub open spec fn final_error(last: Option<String>) -> Seq<char> {
    match last {
        Some(e) => e@,
        None => "Unknown error"@,
    }
}

impl GridAttempts {
    pub closed spec fn attempt(&self) -> u32 {
        self.attempt
    }

    pub closed spec fn max_retries(&self) -> u32 {
        self.max_retries
    }

    pub closed spec fn last_error(&self) -> Option<String> {
        self.last_error
    }

    #[verifier::type_invariant]
    spec fn well_formed(self) -> bool {
        self.attempt <= self.max_retries && self.max_retries < 64
    }

    /// The first attempt of a request allowed `max_retries` retries.
    pub fn new(max_retries: u32) -> (r: Self)
        requires
            max_retries < 64,
        ensures
            r.attempt() == 0,
            r.max_retries() == max_retries,
            r.last_error() is None,
    {
        GridAttempts { attempt: 0, max_retries, last_error: None }
    }

    /// Decide what follows a reply. A success is parsed (and ends the
    /// request); a rate limit waits `retry-after` seconds (60 when absent)
    /// and retries while attempts remain; another failure is remembered and
    /// retried after `2^attempt` seconds while attempts remain. When none
    /// remain the request fails with the last error.
    pub fn on_reply(&mut self, reply: GridReply) -> (r: GridNext)
        ensures
            final(self).max_retries() == old(self).max_retries(),
            ({
                let a = old(self).attempt();
                let last_attempt = a >= old(self).max_retries();
                match reply {
                    GridReply::Success(doc) => {
                        &&& r matches GridNext::Finish(w, res) && w == 0 && (res is Ok <==> grid_reply(doc) is Ok) && (res matches Ok(qs) ==> grid_reply(doc) == Ok::<Seq<u8>, ()>(qs@))
                        &&& final(self).attempt() == a
                    },
                    GridReply::RateLimited(after) => {
                        let wait = match after {
                            Some(s) => s,
                            None => 60u64,
                        };
                        &&& final(self).last_error() == old(self).last_error()
                        &&& if last_attempt {
                            r matches GridNext::Finish(w, Err(ScannerError::ApiRequestFailed(m))) && w == wait && m@ == final_error(old(self).last_error())
                        } else {
                            &&& r matches GridNext::Resend(w) && w == wait
                            &&& final(self).attempt() == a + 1
                        }
                    },
                    GridReply::Failed(status, body) => {
                        let e = "Status "@ + status@ + ": "@ + body@;
                        &&& final(self).last_error() matches Some(s) && s@ == e
                        &&& if last_attempt {
                            r matches GridNext::Finish(w, Err(ScannerError::ApiRequestFailed(m))) && w == 0 && m@ == e
                        } else {
                            &&& r matches GridNext::Resend(w) && w == vstd::arithmetic::power2::pow2(a as nat)
                            &&& final(self).attempt() == a + 1
                        }
                    },
                    GridReply::Transport(msg) => {
                        &&& final(self).last_error() == Some(msg)
                        &&& if last_attempt {
                            r matches GridNext::Finish(w, Err(ScannerError::ApiRequestFailed(m))) && w == 0 && m@ == msg@
                        } else {
                            &&& r matches GridNext::Resend(w) && w == vstd::arithmetic::power2::pow2(a as nat)
                            &&& final(self).attempt() == a + 1
                        }
                    },
                }
            }),
    {
        proof {
            use_type_invariant(&*self);
        }
        let last_attempt = self.attempt >= self.max_retries;
        match reply {
            GridReply::Success(doc) => {
                let res = match parse_gemini_response(&doc) {
                    Ok(qs) => Ok(qs),
                    Err(e) => Err(e),
                };
                GridNext::Finish(0, res)
            },
            GridReply::RateLimited(after) => {
                let wait = match after {
                    Some(s) => s,
                    None => 60,
                };
                if last_attempt {
                    GridNext::Finish(wait, Err(ScannerError::ApiRequestFailed(self.final_error())))
                } else {
                    self.attempt = self.attempt + 1;
                    GridNext::Resend(wait)
                }
            },
            GridReply::Failed(status, body) => {
                let mut e = String::from_str("Status ");
                e.append(status.as_str());
                e.append(": ");
                e.append(body.as_str());
                let shown = e.clone();
                self.last_error = Some(e);
                if last_attempt {
                    GridNext::Finish(0, Err(ScannerError::ApiRequestFailed(shown)))
                } else {
                    let wait = pow2_u64(self.attempt);
                    self.attempt = self.attempt + 1;
                    GridNext::Resend(wait)
                }
            },
            GridReply::Transport(msg) => {
                let shown = msg.clone();
                self.last_error = Some(msg);
                if last_attempt {
                    GridNext::Finish(0, Err(ScannerError::ApiRequestFailed(shown)))
                } else {
                    let wait = pow2_u64(self.attempt);
                    self.attempt = self.attempt + 1;
                    GridNext::Resend(wait)
                }
            },
        }
    }

    /// The error text when every attempt failed.
    fn final_error(&self) -> (r: String)
        ensures
            r@ == final_error(self.last_error()),
    {
        match &self.last_error {
            Some(e) => e.clone(),
            None => String::from_str("Unknown error"),
        }
    }
}

/// `2^e` for `e < 64`.
fn pow2_u64(e: u32) -> (r: u64)
    requires
        e < 64,
    ensures
        r == vstd::arithmetic::power2::pow2(e as nat),
{
    let mut p: u64 = 1;
    let mut i: u32 = 0;
    proof {
        vstd::arithmetic::power2::lemma2_to64();
    }
    while i < e
        invariant
            0 <= i <= e < 64,
            p == vstd::arithmetic::power2::pow2(i as nat),
        decreases e - i,
    {
        proof {
            vstd::arithmetic::power2::lemma_pow2_unfold((i + 1) as nat);
            vstd::arithmetic::power2::lemma_pow2_strictly_increases((i + 1) as nat, 64);
            vstd::arithmetic::power2::lemma2_to64_rest();
        }
        p = p * 2;
        i = i + 1;
    }
    p
}

} // verus!

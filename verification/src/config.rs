//! Configuration records and the rules by which environment variables
//! override values read from `config.yaml`.
//!
//! | Environment Variable | Overrides        |
//! |----------------------|------------------|
//! | `LLM_API_KEY`        | `llm.api_key`    |
//! | `LLM_PROVIDER`       | `llm.provider`   |
//! | `TTS_API_URL`        | `tts.api_url`    |
//! | `WS_PORT`            | `websocket.port` |

use vstd::prelude::*;
use crate::text::chars_of;

verus! {

/// Project metadata configuration.
pub struct ProjectConfig {
    pub name: String,
    pub version: String,
    pub character: String,
    pub cv: String,
}

/// GPT-SoVITS model file locations and reference material.
pub struct TTSModelConfig {
    /// Path to the GPT model checkpoint (`.ckpt`).
    pub gpt_path: String,
    /// Path to the SoVITS model weights (`.pth`).
    pub sovits_path: String,
    /// Path to the reference audio file used for voice cloning.
    pub ref_audio: String,
    /// Transcript text of the reference audio.
    pub ref_text: String,
}

/// WebSocket server configuration.
pub struct WebSocketConfig {
    /// Bind address (e.g. `"0.0.0.0"` to listen on all interfaces).
    pub host: String,
    /// TCP port to listen on.
    pub port: u16,
    /// Heart-beat interval in seconds.
    pub heartbeat_interval: u64,
    /// Maximum number of simultaneous WebSocket connections.
    pub max_connections: usize,
    /// Number of reconnection attempts for transient failures.
    pub reconnect_attempts: u32,
    /// Delay between reconnection attempts in milliseconds.
    pub reconnect_delay: u64,
}

/// The values of the overriding environment variables; `None` where a
/// variable is unset (or not valid Unicode).
pub struct EnvOverrides {
    /// `LLM_API_KEY`
    pub llm_api_key: Option<String>,
    /// `LLM_PROVIDER`
    pub llm_provider: Option<String>,
    /// `TTS_API_URL`
    pub tts_api_url: Option<String>,
    /// `WS_PORT`
    pub ws_port: Option<String>,
}

/// The configuration fields that the environment can override.
pub struct OverridableSettings {
    /// `llm.api_key`
    pub llm_api_key: String,
    /// `llm.provider`
    pub llm_provider: String,
    /// `tts.api_url`
    pub tts_api_url: String,
    /// `websocket.port`
    pub ws_port: u16,
}

/// A text setting after its environment variable is applied: a non-empty
/// value replaces the configured one; an empty or missing one leaves it.
pub open spec fn overridden_text(current: Seq<char>, candidate: Option<String>) -> Seq<char> {
    match candidate {
        Some(v) => if v@.len() > 0 { v@ } else { current },
        None => current,
    }
}

/// The port after `WS_PORT` is applied: it replaces the configured port only
/// when it parses as a `u16`.
pub open spec fn overridden_port(current: u16, candidate: Option<String>) -> u16 {
    match candidate {
        Some(v) => match parse_u16_spec(v@) {
            Some(p) => p,
            None => current,
        },
        None => current,
    }
}

pub open spec fn is_ascii_digit(c: char) -> bool {
    '0' <= c && c <= '9'
}

/// The value of a string of decimal digits.
pub open spec fn digits_value(d: Seq<char>) -> nat
    decreases d.len(),
{
    if d.len() == 0 {
        0
    } else {
        digits_value(d.drop_last()) * 10 + (d.last() as int - '0' as int) as nat
    }
}

/// The digits of an unsigned decimal literal: an optional leading `+` is dropped.
pub open spec fn unsigned_digits(s: Seq<char>) -> Seq<char> {
    if s.len() > 0 && s[0] == '+' {
        s.drop_first()
    } else {
        s
    }
}

/// What `str::parse::<u16>` gives: an optional `+`, then one or more ASCII
/// digits whose value is at most 65535.
pub open spec fn parse_u16_spec(s: Seq<char>) -> Option<u16> {
    let d = unsigned_digits(s);
    if d.len() > 0 && (forall|i: int| 0 <= i < d.len() ==> is_ascii_digit(#[trigger] d[i]))
        && digits_value(d) <= 65535 {
        Some(digits_value(d) as u16)
    } else {
        None
    }
}

/// Parses a decimal port number as `str::parse::<u16>` does.
pub fn parse_port(s: &str) -> (r: Option<u16>)
    ensures
        r == parse_u16_spec(s@),
{
    let cs = chars_of(s);
    let n = cs.len();
    let start: usize = if n > 0 && cs[0] == '+' { 1 } else { 0 };
    let ghost d = unsigned_digits(s@);
    assert(d =~= cs@.subrange(start as int, n as int));
    if start == n {
        return None;
    }
    let mut value: u32 = 0;
    let mut i = start;
    while i < n
        invariant
            start <= i <= n,
            n == cs@.len(),
            cs@ == s@,
            d == cs@.subrange(start as int, n as int),
            d == unsigned_digits(s@),
            forall|k: int| start <= k < i ==> is_ascii_digit(#[trigger] cs@[k]),
            value as nat == (if digits_value(d.take(i - start)) <= 65536 {
                digits_value(d.take(i - start))
            } else {
                65536
            }),
        decreases n - i,
    {
        let c = cs[i];
        if !('0' <= c && c <= '9') {
            assert(d[i - start] == c);
            assert(!is_ascii_digit(d[i - start]));
            return None;
        }
        let digit = (c as u32) - ('0' as u32);
        proof {
            let t = d.take(i - start + 1);
            assert(t.drop_last() =~= d.take(i - start));
            assert(t.last() == c);
        }
        let next = value * 10 + digit;
        value = if next > 65536 { 65536 } else { next };
        i += 1;
    }
    assert(d.take(n - start) =~= d);
    if value <= 65535 {
        Some(value as u16)
    } else {
        None
    }
}

/// Applies the environment overrides to the overridable settings.
pub fn apply_env_overrides(settings: &mut OverridableSettings, env: &EnvOverrides)
    ensures
        final(settings).llm_api_key@ == overridden_text(old(settings).llm_api_key@, env.llm_api_key),
        final(settings).llm_provider@ == overridden_text(old(settings).llm_provider@, env.llm_provider),
        final(settings).tts_api_url@ == overridden_text(old(settings).tts_api_url@, env.tts_api_url),
        final(settings).ws_port == overridden_port(old(settings).ws_port, env.ws_port),
{
    match &env.llm_api_key {
        Some(v) => if !v.as_str().is_empty() {
            settings.llm_api_key = v.clone();
        },
        None => {},
    }
    match &env.llm_provider {
        Some(v) => if !v.as_str().is_empty() {
            settings.llm_provider = v.clone();
        },
        None => {},
    }
    match &env.tts_api_url {
        Some(v) => if !v.as_str().is_empty() {
            settings.tts_api_url = v.clone();
        },
        None => {},
    }
    match &env.ws_port {
        Some(v) => match parse_port(v.as_str()) {
            Some(p) => {
                settings.ws_port = p;
            },
            None => {},
        },
        None => {},
    }
}

/// The API key to use: the `LLM_API_KEY` value when it is set and
/// non-empty, else the configured key.
pub fn resolve_api_key(env_value: &Option<String>, configured: &String) -> (key: String)
    ensures
        key@ == overridden_text(configured@, *env_value),
{
    match env_value {
        Some(v) => if !v.as_str().is_empty() {
            v.clone()
        } else {
            configured.clone()
        },
        None => configured.clone(),
    }
}

/// Applying the same environment twice changes nothing more than applying it once.
pub proof fn law_overrides_idempotent(s: Seq<char>, p: u16, env: EnvOverrides)
    ensures
        overridden_text(overridden_text(s, env.llm_api_key), env.llm_api_key)
            == overridden_text(s, env.llm_api_key),
        overridden_port(overridden_port(p, env.ws_port), env.ws_port) == overridden_port(p, env.ws_port),
{
}

/// The key that the client reads is the same whether or not the overrides were
/// applied to the configuration first.
pub proof fn law_api_key_agrees_with_overrides(configured: Seq<char>, env_value: Option<String>)
    ensures
        overridden_text(overridden_text(configured, env_value), env_value)
            == overridden_text(configured, env_value),
{
}

} // verus!

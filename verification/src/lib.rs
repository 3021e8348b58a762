//! Ellen AI backend library: the logic of the Ellen Joe companion's backend —
//! parsing the LLM's tagged replies, the persona, configuration overrides, the
//! LLM reply stream, the TTS cache and retry policy, and the WebSocket session.

pub mod config;
pub mod llm;
pub mod parser;
pub mod persona;
pub mod session;
pub mod text;
pub mod tts;

//! Decision logic of a desktop shell that drives coding-agent command lines:
//! prompts, stream events, retries, proxy checks and the pool of runtimes.
#![allow(unused_imports)]

pub mod claude;
pub mod clock;
pub mod events;
pub mod gemini_auth;
pub mod gemini_command;
pub mod gemini_event;
pub mod gemini_history;
pub mod gemini_prompt;
pub mod gemini_session;
pub mod gemini_turn;
pub mod json;
pub mod laws_address;
pub mod laws_claude;
pub mod laws_event;
pub mod laws_gemini;
pub mod laws_json;
pub mod laws_manager;
pub mod laws_message;
pub mod laws_pool;
pub mod laws_prompt;
pub mod laws_proxy;
pub mod laws_reading;
pub mod laws_retry;
pub mod laws_runtime;
pub mod laws_settings;
pub mod laws_text;
pub mod laws_turn;
pub mod laws_views;
pub mod proxy_guard;
pub mod runtime;
pub mod runtime_control;
pub mod runtime_pool;
pub mod text;

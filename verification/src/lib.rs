//! Verified core of an LLM runner wrapper: text offsets, chunk bookkeeping,
//! embedding orchestration decisions and tool-call conversion rules.

pub mod text;
pub mod utf8_len;
pub mod offset;
pub mod embedding;
pub mod token_provider;
pub mod chunking;
pub mod embed_core;
pub mod embed_retry;
pub mod chat_model;
pub mod conversion;
pub mod tool_schema;
pub mod think;
pub mod tool_messages;
pub mod trace_types;
pub mod stream_collect;
pub mod common;
pub mod chat_genai;
pub mod completion_genai;
pub mod request_args;
pub mod hf;
pub mod tiktoken;
pub mod function_set_selector;
pub mod client_tools;
pub mod provider_messages;
pub mod chat_loop;
pub mod tool_selection;
pub mod chat_stream;
pub mod tool_execution;

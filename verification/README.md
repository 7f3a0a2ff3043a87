# llm_wrapper

The decision logic of an LLM runner wrapper (chat, completion and embedding
jobs), written in Verus with its behaviour stated as contracts and proved.

- `src/` — the verified library: tool-call conversion and validation
  (`conversion`, `tool_messages`, `client_tools`, `provider_messages`), tools
  and their input schemas built from function specs (`tool_schema`, on
  `serde_json`), FunctionSet selection and its liquid templates
  (`function_set_selector`), the chat tool-call loop and stream translation
  (`chat_loop`, `tool_selection`, `chat_stream`), client-side tool execution
  while streaming (`tool_execution`), embedding chunking, response
  mapping and the retry-split procedure (`chunking`, `embed_core`,
  `embed_retry`, `embedding`), tokenizer span bookkeeping (`offset`, `hf`,
  `tiktoken`, `token_provider`), stream collection (`stream_collect`),
  `<think>` splitting (`think`), tracing helpers (`trace_types`), endpoint
  normalisation (`common`) and local-model request conversion
  (`request_args`: messages, stream-mode and role checks, and the integer,
  grammar and tool options of a request). The local-model chat services
  themselves run on the mistralrs runtime and are not part of this crate;
  only their request conversion is.
- `app/` — runtime glue: JSON decoding, tokenizer loading, the async embedding
  loop, the chat and tool-execution drivers, the local-model request with
  its floating-point sampling options (the runtime's request builder is not
  part of this crate), the selector run and error display.
- `tests/` — tests of the library through its public API.
